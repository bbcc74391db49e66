use altc::bindings::Bindings;
use altc::codegen::emit_llvm;
use altc::lexer::lex;
use altc::parse::parse_program;
use altc::target::Target;

fn compile(code: &str) -> Result<String, String> {
    let tokens = lex(code);
    let mut bindings = Bindings::new(Target::linux_x86_64());
    let program = match parse_program(&tokens, &mut bindings) {
        Ok(p) => p,
        Err(d) => return Err(d.message),
    };
    if !bindings.is_compileable() {
        let mut m = String::from("not compileable:");
        for d in bindings.diagnostics().iter() {
            m.push(' ');
            m.push_str(&d.message);
        }
        return Err(m);
    }
    let decls = bindings.take_decls();
    emit_llvm(program, decls)
}

#[test]
fn struct_literal_and_member() {
    let ir = compile(
        "struct Point { x i32, y i64 }
        fn main() i32 {
            let p = Point { y 2, x 1 }
            return p.x
        }",
    );
    let ir = match ir {
        Ok(ir) => ir,
        Err(m) => panic!("{}", m),
    };
    assert!(ir.contains("%\"Point\" = type { i32, i64 }"));
    assert!(ir.contains("getelementptr inbounds %\"Point\", ptr %_0, i64 0, i32 0"));
    assert!(ir.contains("store i32 1, ptr %"));
    assert!(ir.contains("store i64 2, ptr %"));
}

#[test]
fn namespace_private_sibling() {
    let ir = compile(
        "namespace lib {
            fn helper() i32 { return 3 }
            pub fn api() i32 { return helper() }
        }
        fn main() i32 { return lib::api() }",
    );
    let ir = match ir {
        Ok(ir) => ir,
        Err(m) => panic!("{}", m),
    };
    assert!(ir.contains("define i32 @\"lib::helper\""));
    assert!(ir.contains("call i32 @\"lib::helper\""));
}

#[test]
fn pointers_and_deref() {
    let ir = compile(
        "fn main() i32 {
            let mut a = 5
            let p = &mut a
            p.* = 7
            return p.*
        }",
    );
    let ir = match ir {
        Ok(ir) => ir,
        Err(m) => panic!("{}", m),
    };
    assert!(ir.contains("store i32 7, ptr"));
    assert!(ir.contains("load i32, ptr"));
}

#[test]
fn immutable_assignment_is_rejected() {
    let r = compile("fn main() i32 { let a = 1 a = 2 return a }");
    assert!(r.unwrap_err().contains("Cannot assign to an immutable variable"));
}

#[test]
fn extern_declaration() {
    let ir = compile(
        "extern { fn (i32) i32 putchar }
        fn main() i32 { putchar(65) return 0 }",
    );
    let ir = match ir {
        Ok(ir) => ir,
        Err(m) => panic!("{}", m),
    };
    assert!(ir.contains("declare i32 @putchar (i32)"));
    assert!(ir.contains("call i32 @\"putchar\" (i32 65)"));
}

#[test]
fn member_of_struct_resolved_on_demand() {
    let ir = compile(
        "struct P { x i32, y bool }
        fn main() i32 { return take(make()) }
        fn take(p P) i32 { return p.x }
        fn make() P { return P { x 1, y true } }",
    );
    let ir = match ir {
        Ok(ir) => ir,
        Err(m) => panic!("{}", m),
    };
    assert!(ir.contains("%\"P\" = type { i32, i1 }"));
    assert!(ir.contains("define i32 @\"take\" (%\"P\")"));
    assert!(ir.contains("define %\"P\" @\"make\" ()"));
}
