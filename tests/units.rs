use altc::ast::Arg;
use altc::codegen::translate_args;
use altc::lexer::CollectChars;
use altc::strings::EscapeGen;
use altc::bindings::Bindings;
use altc::insordmap::InsordMap;
use altc::ir::{ppbind, IR};
use altc::lexer::{lex, rules, Rule, TokenKind};
use altc::ops::{is_branch, is_cmp, precedence, Operation};
use altc::parse::{get_op, parse_program};
use altc::simpler::parse_pair_symbols;
use altc::target::Target;
use altc::types::{penetrate_type, pure_type, scalar_alignment_exec, translate_type, Type};

fn parse_error(code: &str) -> String {
    let tokens = lex(code);
    let mut bindings = Bindings::new(Target::linux_x86_64());
    match parse_program(&tokens, &mut bindings) {
        Ok(_) => String::new(),
        Err(d) => d.message,
    }
}

#[test]
fn lex_kinds_and_positions() {
    let t = lex("let x = 1.5 // note\n\"a\\\"b\" >= ::");
    let kinds: Vec<TokenKind> = t.iter().map(|x| x.typ).collect();
    assert_eq!(
        kinds,
        vec![
            TokenKind::Word,
            TokenKind::Word,
            TokenKind::Assign,
            TokenKind::Float,
            TokenKind::String,
            TokenKind::Logical,
            TokenKind::Special
        ]
    );
    assert_eq!(t[3].value, "1.5");
    assert_eq!((t[0].line, t[0].col), (1, 1));
    assert_eq!((t[3].line, t[3].col), (1, 9));
    assert_eq!(t[4].value, "\"a\\\"b\"");
    assert_eq!((t[4].line, t[4].col), (2, 1));
}

#[test]
fn lex_words_directives_and_symbols() {
    let t = lex("#link _a1 @l .* += ~");
    assert_eq!(t[0].typ, TokenKind::Meta);
    assert_eq!(t[0].value, "#link");
    assert_eq!(t[1].value, "_a1");
    assert_eq!(t[2].typ, TokenKind::LabelSymbol);
    assert_eq!(t[4].typ, TokenKind::Special);
    assert_eq!(t[5].typ, TokenKind::Assign);
    assert_eq!(t[6].typ, TokenKind::Special);
    assert!(lex("").is_empty());
    assert!(lex("   \n\t").is_empty());
}

#[test]
fn rules_order() {
    assert_eq!(rules(), [Rule::String, Rule::Number, Rule::Word, Rule::Symbol]);
}

#[test]
fn pair_symbols() {
    let t = lex("( a ( b ) c ) d");
    assert_eq!(parse_pair_symbols(&t, 0, t.len(), "(", ")"), Some(7));
    assert_eq!(parse_pair_symbols(&t, 1, t.len(), "(", ")"), None);
    let u = lex("( a");
    assert_eq!(parse_pair_symbols(&u, 0, u.len(), "(", ")"), None);
}

#[test]
fn type_spelling() {
    let t = Type::Fn(vec![Type::Ptr(Some(Box::new(Type::U(8))), true), Type::Tuple(vec![Type::Bool, Type::I(64)])], Box::new(Type::Array(Box::new(Type::I(32)), 4)));
    assert_eq!(t.display(), "fn (&mut u8, (bool, i64)) i32[4]");
    assert_eq!(translate_type(&t), "ptr");
    assert_eq!(translate_type(&Type::Array(Box::new(Type::I(32)), 4)), "[4 x i32]");
    assert_eq!(translate_type(&Type::Tuple(vec![Type::Bool, Type::U(16)])), "{i1, i16}");
    assert_eq!(translate_type(&Type::Ptr(Some(Box::new(Type::I(8))), false)), "i8*");
    assert_eq!(translate_type(&Type::Struct("a::S".to_string())), "%\"a::S\"");
    assert_eq!(Type::Ptr(None, true).display(), "ptrmut");
    assert_eq!(Type::Noret.display(), "!");
}

#[test]
fn alignments_and_sizes() {
    assert_eq!(scalar_alignment_exec(1), 1);
    assert_eq!(scalar_alignment_exec(8), 1);
    assert_eq!(scalar_alignment_exec(16), 2);
    assert_eq!(scalar_alignment_exec(24), 4);
    assert_eq!(scalar_alignment_exec(64), 8);
    assert_eq!(scalar_alignment_exec(128), 16);
    let t = Type::Tuple(vec![Type::U(8), Type::I(64)]);
    assert_eq!(t.alignment(64, &vec![]), Some(8));
    assert_eq!(t.sizeof(64, &vec![]), Some(16));
    assert_eq!(Type::Ptr(None, false).sizeof(32, &vec![]), Some(4));
    assert_eq!(Type::Array(Box::new(Type::I(16)), 5).sizeof(64, &vec![]), Some(10));
    assert_eq!(Type::Void.alignment(64, &vec![]), None);
    assert_eq!(Type::Struct("Missing".to_string()).sizeof(64, &vec![]), None);
}

#[test]
fn inner_types() {
    let p = Type::Ptr(Some(Box::new(Type::I(8))), false);
    assert!(pure_type(&p).same(&Type::I(8)));
    assert!(pure_type(&Type::Bool).same(&Type::Bool));
    let t = Type::Tuple(vec![Type::Bool, Type::U(32)]);
    assert!(penetrate_type(t, 1).same(&Type::U(32)));
    assert!(penetrate_type(Type::Array(Box::new(Type::I(1)), 2), 0).same(&Type::I(1)));
}

#[test]
fn operators() {
    let t = lex("<= || % ^x");
    assert_eq!(get_op(&t[0]), Some(Operation::LE));
    assert_eq!(get_op(&t[1]), Some(Operation::Or));
    assert_eq!(get_op(&t[2]), Some(Operation::Rem));
    assert_eq!(get_op(&t[4]), None);
    assert_eq!(precedence(&Operation::Mul), 0);
    assert_eq!(precedence(&Operation::Sub), 1);
    assert_eq!(precedence(&Operation::NE), 2);
    assert_eq!(precedence(&Operation::And), 3);
    assert!(is_cmp(&Operation::GE));
    assert!(!is_cmp(&Operation::Add));
    assert!(is_branch(&Operation::Or));
    assert!(!is_branch(&Operation::BitOr));
}

#[test]
fn insordmap_keeps_first_position() {
    let mut m: InsordMap<i32> = InsordMap::new();
    assert_eq!(m.insert("b".to_string(), 1), None);
    assert_eq!(m.insert("a".to_string(), 2), None);
    assert_eq!(m.insert("b".to_string(), 3), Some(1));
    assert_eq!(m.len(), 2);
    assert_eq!(m.get_w_p(&"b".to_string()), Some((&3, 0)));
    assert_eq!(m.get(&"a".to_string()), Some(&2));
    assert_eq!(m.get(&"c".to_string()), None);
    assert_eq!(m.kv(1).0, "a");
    assert_eq!(*m.values(0), 3);
    assert_eq!(m.into_values(), vec![3, 2]);
}

#[test]
fn ir_counters() {
    let mut ir = IR::new();
    ir.join();
    assert_eq!(ir.temp(), Some(0));
    assert_eq!(ir.temp(), Some(1));
    assert_eq!(ir.last_temp(), Some(1));
    let saved = ir.isolated();
    assert_eq!(ir.temp(), Some(0));
    ir.restore(saved);
    assert_eq!(ir.temp(), Some(2));
    ir.leave();
    assert_eq!(ir.temp(), Some(0));
    assert_eq!(ir.anon(), Some(0));
    assert_eq!(ir.anon(), Some(1));
}

#[test]
fn ir_destination_marks() {
    let mut ir = IR::new();
    ir.join();
    assert_eq!(ir.seek_local(&Type::I(32)), Some(((0, true), false)));
    ir.mark_put_in((7, false));
    assert_eq!(ir.get_mark_put_in(), Some((7, false)));
    assert_eq!(ir.seek_local(&Type::I(32)), Some(((7, false), true)));
    ir.unmark_put_in();
    assert_eq!(ir.get_mark_put_in(), None);
    assert_eq!(ir.reserve_local(&Type::Bool), Some((1, true)));
    assert_eq!(ppbind(&(3, true)), "_3");
    assert_eq!(ppbind(&(12, false)), "12");
    ir.bind(&"x".to_string(), 4, true);
    ir.join();
    assert_eq!(ir.get_bind(&"x".to_string()), Some((4, true)));
    ir.bind(&"x".to_string(), 5, false);
    assert_eq!(ir.get_bind(&"x".to_string()), Some((5, false)));
    ir.leave();
    assert_eq!(ir.get_bind(&"x".to_string()), Some((4, true)));
    ir.global_write("line");
    assert_eq!(ir.constant("i32 5".to_string()), Some("@.const.0".to_string()));
    assert_eq!(ir.constant("i32 5".to_string()), Some("@.const.0".to_string()));
    assert_eq!(ir.move_global(), "line\n@.const.0 = constant i32 5\n");
}

#[test]
fn fatal_errors() {
    assert_eq!(parse_error("fn main() { break }"), "Using 'break' is allowed only in loops");
    assert_eq!(parse_error("fn main() { continue }"), "Using 'continue' is allowed only in loops");
    assert_eq!(parse_error("fn main() { loop { break nowhere } }"), "There's no label with this name");
    assert_eq!(parse_error("return 1"), "Out-of-function return");
    assert_eq!(parse_error("extern fn (i32) i32 f extern fn () i32 f"), "Function name in 'extern' must be unique in root namespace");
    assert_eq!(parse_error("fn a() {} fn a() {}"), "Function name must be unique in current namespace");
    assert_eq!(parse_error("fn main() { let t (i32, i32) = (1, 2) let u = t as i32 }"), "Typecast only available for primitive number-types");
    assert_eq!(parse_error("fn main() i32 { return }"), "Expected `i32`, got nothing");
}

#[test]
fn gentle_errors_collect() {
    let tokens = lex("fn main() i32 { let a bool = 5 let b i32 = true return c }");
    let mut bindings = Bindings::new(Target::linux_x86_64());
    let r = parse_program(&tokens, &mut bindings);
    assert!(r.is_err());
    assert!(!bindings.is_compileable());
    let msgs: Vec<String> = bindings.diagnostics().iter().map(|d| d.message.clone()).collect();
    assert!(msgs.contains(&"Unknown name 'c'".to_string()));
    let tokens = lex("fn main() { let x i32 = (1, 2) }");
    let mut bindings = Bindings::new(Target::linux_x86_64());
    assert!(parse_program(&tokens, &mut bindings).is_ok());
    assert_eq!(bindings.diagnostics()[0].message, "Mismatched types: expected 'i32', got '(_, _)'");
}

#[test]
fn links_are_recorded_once() {
    let tokens = lex("#link \"m\" #link \"m\" #link \"c\"");
    let mut bindings = Bindings::new(Target::linux_x86_64());
    parse_program(&tokens, &mut bindings).unwrap();
    assert_eq!(bindings.move_links(), vec!["m".to_string(), "c".to_string()]);
}

#[test]
fn string_literal_text() {
    assert_eq!("\"a\\nb\"".to_string().escape_escaping(), "a\nb");
    assert_eq!("\"x\"".to_string().escape_escaping(), "x");
    assert_eq!("\"\"".to_string().escape_escaping(), "");
    assert_eq!("\"\\t\"".to_string().escape_escaping(), "\\t");
}

#[test]
fn chars_of_text() {
    assert_eq!("añb".to_string().collect_chars(), vec!['a', 'ñ', 'b']);
}

#[test]
fn parameter_list() {
    let mut ir = IR::new();
    ir.join();
    let args = vec![
        Arg { name: "a".to_string(), typ: Type::I(32), mutable: false },
        Arg { name: "b".to_string(), typ: Type::Ptr(None, false), mutable: true },
    ];
    assert_eq!(translate_args(&mut ir, &args), Ok("i32, ptr".to_string()));
    assert_eq!(ir.temp(), Some(2));
}

#[test]
fn string_constant_in_program() {
    let tokens = lex("fn main() i32 { let s = \"hi\\n\" return 0 }");
    let mut bindings = Bindings::new(Target::linux_x86_64());
    let program = parse_program(&tokens, &mut bindings).unwrap();
    assert!(bindings.is_compileable());
    let ir = altc::codegen::emit_llvm(program, bindings.take_decls()).unwrap();
    assert!(ir.contains("@.const.0 = constant [3 x i8] c\"hi\\0A\""));
    assert!(ir.contains("alloca [3 x i8]"));
}

#[test]
fn white_space_matches_std() {
    for u in 0u32..=0x10FFFF {
        if let Some(c) = char::from_u32(u) {
            assert_eq!(altc::text::is_white_space(c), c.is_whitespace());
        }
    }
}

#[test]
fn path_names() {
    let t = lex("a::b::c d");
    let mut off = 0;
    assert_eq!(altc::simpler::next_name(&mut off, &t, t.len()).unwrap(), "a::b::c");
    assert_eq!(off, 5);
    let u = lex("a:: 1");
    let mut off = 0;
    assert!(altc::simpler::next_name(&mut off, &u, u.len()).is_err());
}

#[test]
fn lend_type_to_context() {
    let mut ir = IR::new();
    let mut t = Type::I(16);
    let saved = ir.ref_type_context(&mut t);
    assert!(saved.is_none());
    assert!(t.same(&Type::Void));
    assert!(ir.get_current_type().unwrap().same(&Type::I(16)));
    ir.return_ref_type(&mut t, saved);
    assert!(t.same(&Type::I(16)));
    assert!(ir.get_current_type().is_none());
}
