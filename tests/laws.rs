use altc::ast::Value;
use altc::codegen::{branch_op, typecast};
use altc::ir::IR;
use altc::ops::Operation;
use altc::ast::Decl;
use altc::bindings::{Bind, Bindings};
use altc::codegen::{cast_op, emit_llvm, CastOp};
use altc::lexer::lex;
use altc::parse::parse_program;
use altc::target::Target;
use altc::types::{struct_layout, Type};

fn compile(code: &str) -> Result<String, String> {
    let tokens = lex(code);
    let mut bindings = Bindings::new(Target::linux_x86_64());
    let program = match parse_program(&tokens, &mut bindings) {
        Ok(p) => p,
        Err(d) => return Err(d.message),
    };
    if !bindings.is_compileable() {
        let mut m = String::from("not compileable:");
        for d in bindings.diagnostics().iter() {
            m.push(' ');
            m.push_str(&d.message);
        }
        return Err(m);
    }
    let decls = bindings.take_decls();
    emit_llvm(program, decls)
}

fn function_text<'a>(ir: &'a str, name: &str) -> &'a str {
    let head = format!("define i32 @\"{}\"", name);
    let start = ir.find(&head).unwrap();
    let rest = &ir[start..];
    let end = rest.find("\n}").unwrap();
    &rest[..end]
}

#[test]
fn layout_u8_then_u32() {
    let fields = vec![Type::U(8), Type::U(32)];
    assert_eq!(struct_layout(&fields, 64, &vec![]), Some((4, 8)));
}

#[test]
fn layout_of_parsed_struct() {
    let tokens = lex("struct Pair { a u8, b u32 }");
    let mut bindings = Bindings::new(Target::linux_x86_64());
    parse_program(&tokens, &mut bindings).unwrap();
    let mut found = false;
    for i in 0..bindings.decl_count() {
        if let Decl::Struct { name, kv, alignment, size } = bindings.decl(i) {
            assert_eq!(name, "Pair");
            assert_eq!(kv.len(), 2);
            assert_eq!(kv.kv(0).0, "a");
            assert!(kv.kv(0).1.same(&Type::U(8)));
            assert_eq!(kv.kv(1).0, "b");
            assert!(kv.kv(1).1.same(&Type::U(32)));
            assert_eq!(*alignment, 4);
            assert_eq!(*size, 8);
            found = true;
        }
    }
    assert!(found);
}

#[test]
fn layout_mixed_scalars() {
    let fields = vec![Type::Bool, Type::I(16), Type::I(64)];
    assert_eq!(struct_layout(&fields, 64, &vec![]), Some((8, 24)));
    let one = vec![Type::U(8)];
    assert_eq!(struct_layout(&one, 64, &vec![]), Some((1, 1)));
}

#[test]
fn mutual_recursion_resolves() {
    let ir = compile(
        "fn main() i32 { return even(4) }
        fn even(n i32) i32 { if n == 0 { return 1 } return odd(n - 1) }
        fn odd(n i32) i32 { if n == 0 { return 0 } return even(n - 1) }",
    )
    .unwrap();
    assert!(ir.contains("define i32 @\"even\""));
    assert!(ir.contains("define i32 @\"odd\""));
    assert!(ir.contains("call i32 @\"odd\""));
}

#[test]
fn struct_containing_itself_is_rejected() {
    let r = compile("struct Node { next Node, v i32 } fn main() i32 { return 0 }");
    let m = r.unwrap_err();
    assert!(m.contains("Recursive type has infinite size"));
}

#[test]
fn struct_pointing_to_itself_is_accepted() {
    let ir = compile("struct Node { next &Node, v i32 } fn main() i32 { return 0 }").unwrap();
    assert!(ir.contains("%\"Node\" = type { %\"Node\"*, i32 }"));
}

#[test]
fn nested_function_cannot_see_enclosing_locals() {
    let code = "fn main() i32 {
            let x = 5
            let f = fn () i32 { return x }
            return 0
        }";
    let tokens = lex(code);
    let mut bindings = Bindings::new(Target::linux_x86_64());
    let r = parse_program(&tokens, &mut bindings);
    assert!(r.is_err() || !bindings.is_compileable());
    assert!(!bindings.is_compileable());
    assert!(bindings.diagnostics().iter().any(|d| d.message == "Unknown name 'x'"));
}

#[test]
fn nested_function_sees_global_function() {
    let ir = compile(
        "fn g() i32 { return 1 }
        fn main() i32 {
            let f = fn () i32 { return g() }
            return f()
        }",
    )
    .unwrap();
    assert!(ir.contains("define i32 @\".anon.0\" ()"));
    assert!(ir.contains("define i32 @\"g\""));
}

#[test]
fn barrier_in_bindings() {
    let mut b = Bindings::new(Target::linux_x86_64());
    b.insert("f".to_string(), Bind::Function(vec![], Type::Void, None));
    b.join_scope();
    b.insert("x".to_string(), Bind::Let(Type::I(32), false));
    b.join_scope();
    b.insert("@barrier".to_string(), Bind::Mark);
    b.insert("arg".to_string(), Bind::Let(Type::I(8), false));
    assert!(b.get(&"x".to_string()).is_none());
    assert!(matches!(b.get(&"arg".to_string()), Some(Bind::Let(_, _))));
    assert!(matches!(b.get(&"f".to_string()), Some(Bind::Function(_, _, _))));
    b.leave_scope();
    assert!(matches!(b.get(&"x".to_string()), Some(Bind::Let(_, _))));
}

#[test]
fn and_with_false_skips_right_operand() {
    let ir = compile(
        "fn main() i32 {
            let mut c = 0
            let b = false && c < 1
            if b { c = 1 }
            return c
        }",
    )
    .unwrap();
    assert!(ir.contains("store i1 0, ptr %_1\n    br i1 0, label %0, label %end.0"), "{}", ir);
    let i = ir.find("br i1 0, label %").unwrap();
    let line = &ir[i..ir[i..].find('\n').unwrap() + i];
    assert!(line.contains(", label %end."));
    assert!(ir.contains("= load i1, ptr %_1"));
}

#[test]
fn or_with_true_skips_right_operand() {
    let ir = compile(
        "fn main() i32 {
            let c = 0
            let b = true || c < 1
            if b { return 1 }
            return 0
        }",
    )
    .unwrap();
    let i = ir.find("br i1 1, label %end.").unwrap();
    assert!(i > 0);
    assert!(ir.contains("store i1 1, ptr %_1"));
}

#[test]
fn cast_extends_by_source_signedness() {
    assert_eq!(cast_op(&Type::U(8), &Type::I(32)), Some(CastOp::Zext));
    assert_eq!(cast_op(&Type::I(8), &Type::I(32)), Some(CastOp::Sext));
    assert_eq!(cast_op(&Type::I(32), &Type::U(8)), Some(CastOp::Trunc));
    assert_eq!(cast_op(&Type::U(16), &Type::I(16)), None);
    let ir = compile(
        "fn main() i32 {
            let x u8 = 250
            let y i32 = x as i32
            let z i8 = -6
            let w i32 = z as i32
            return y + w
        }",
    )
    .unwrap();
    assert!(ir.contains("store i8 250, ptr %_0"));
    assert!(ir.contains("zext i8 %0 to i32"));
    assert!(ir.contains("store i8 -6, ptr %_2"));
    assert!(ir.contains("sext i8 %2 to i32"));
}

#[test]
fn if_with_returning_branches_has_no_merge_block() {
    let ir = compile(
        "fn pick(a bool) i32 { if a { return 1 } else { return 2 } }
        fn main() i32 { return pick(true) }",
    )
    .unwrap();
    let f = function_text(&ir, "pick");
    assert!(!f.contains("br label"));
    assert!(f.contains("ret i32 1"));
    assert!(f.contains("ret i32 2"));
}

#[test]
fn typecast_text_of_literals() {
    let mut ir = IR::new();
    ir.join();
    let mut decls = vec![];
    let mut s = String::new();
    let r = typecast(&mut ir, &mut decls, &mut s, Value::Int(250), Type::U(8), Type::I(32), 100);
    assert_eq!(r, Ok("%0".to_string()));
    assert_eq!(s, "%0 = zext i8 250 to i32\n");
    let mut ir = IR::new();
    ir.join();
    let mut s = String::new();
    let r = typecast(&mut ir, &mut decls, &mut s, Value::SInt(-6), Type::I(8), Type::I(32), 100);
    assert_eq!(r, Ok("%0".to_string()));
    assert_eq!(s, "%0 = sext i8 -6 to i32\n");
    let mut ir = IR::new();
    ir.join();
    let mut s = String::new();
    let r = typecast(&mut ir, &mut decls, &mut s, Value::Bool(true), Type::Bool, Type::I(32), 100);
    assert_eq!(r, Ok("%0".to_string()));
    assert_eq!(s, "%0 = sext i1 1 to i32\n");
}

#[test]
fn short_circuit_text_of_literals() {
    let mut ir = IR::new();
    ir.join();
    let mut decls = vec![];
    let mut s = String::new();
    let r = branch_op(&mut ir, &mut decls, &mut s, Value::Bool(false), Value::Bool(true), Operation::And, 100);
    assert_eq!(r, Ok("%1".to_string()));
    assert_eq!(s, "store i1 0, ptr %_0\nbr i1 0, label %0, label %end.0\nstore i1 1, ptr %_0\nbr label %end.0\nend.0:\n%1 = load i1, ptr %_0\n");
    assert_eq!(ir.move_prologue(), "%_0 = alloca i1\n");
}
