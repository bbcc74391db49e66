use altc::bindings::Bindings;
use altc::codegen::emit_llvm;
use altc::lexer::lex;
use altc::parse::parse_program;
use altc::target::Target;

fn compile(code: &str) -> Result<String, String> {
    let tokens = lex(code);
    let mut bindings = Bindings::new(Target::linux_x86_64());
    let program = match parse_program(&tokens, &mut bindings) {
        Ok(p) => p,
        Err(d) => return Err(d.message),
    };
    if !bindings.is_compileable() {
        let mut m = String::from("not compileable:");
        for d in bindings.diagnostics().iter() {
            m.push(' ');
            m.push_str(&d.message);
        }
        return Err(m);
    }
    let decls = bindings.take_decls();
    emit_llvm(program, decls)
}

fn compileable(code: &str) -> bool {
    let tokens = lex(code);
    let mut bindings = Bindings::new(Target::linux_x86_64());
    match parse_program(&tokens, &mut bindings) {
        Ok(_) => bindings.is_compileable(),
        Err(_) => false,
    }
}

fn compile_test(code: &str) -> String {
    match compile(code) {
        Ok(ir) => ir,
        Err(m) => panic!("This test isn't compilable: {}", m),
    }
}

#[test]
fn loop_test() {
    let ir = compile_test(
        "fn main() i32 {
            let mut i = 0
            loop {
                i += 1
                if i > 10 { break }
            }
            loop {
                loop { break outer } @inner
            } @outer
            return i
        }",
    );
    assert!(ir.contains("define i32 @\"main\""));
    assert!(ir.contains("br label %end."));
    assert!(ir.contains("icmp sgt i32"));
}

#[test]
fn if_else() {
    let ir = compile_test(
        "fn main() i32 {
            let a = 3
            let mut b = 0
            if a < 2 { b = 1 } else if a < 5 { b = 2 } else { b = 3 }
            return b
        }",
    );
    assert!(ir.contains("icmp slt i32"));
    assert!(ir.contains("br i1 "));
}

#[test]
fn first_class() {
    let ir = compile_test(
        "fn twice(f fn (i32) i32, x i32) i32 { return f(f(x)) }
        fn inc(x i32) i32 { return x + 1 }
        fn main() i32 {
            let g = fn (x i32) i32 { return x * 2 }
            return twice(inc, 1) + twice(g, 1)
        }",
    );
    assert!(ir.contains("define i32 @\"twice\" (ptr, i32)"));
    assert!(ir.contains("define i32 @\".anon.0\" (i32)"));
    assert!(ir.contains("@\"inc\""));
}

#[test]
fn puberr() {
    let ok = compileable(
        "namespace lib { fn hidden() i32 { return 1 } }
        fn main() i32 { return lib::hidden() }",
    );
    if ok {
        panic!();
    }
}

#[test]
fn pubnorm() {
    let ir = compile_test(
        "namespace lib { pub fn shown() i32 { return 1 } }
        fn main() i32 { return lib::shown() }",
    );
    assert!(ir.contains("define i32 @\"lib::shown\""));
}

#[test]
fn usenorm() {
    let ir = compile_test(
        "namespace lib { pub fn shown() i32 { return 1 } }
        use lib::shown
        fn main() i32 { return shown() }",
    );
    assert!(ir.contains("call i32 @\"lib::shown\""));
}

#[test]
fn useerr() {
    let ok = compileable(
        "namespace lib { fn hidden() i32 { return 1 } }
        use lib::hidden
        fn main() i32 { return hidden() }",
    );
    if ok {
        panic!();
    }
}

#[test]
fn lazy_fn_parse() {
    let ir = compile_test(
        "fn main() i32 { return later() }
        fn later() i32 { return helper() }
        fn helper() i32 { return 7 }
        fn unused() i32 { return nothing_here }",
    );
    assert!(ir.contains("define i32 @\"later\""));
    assert!(ir.contains("define i32 @\"helper\""));
    assert!(!ir.contains("unused"));
}

#[test]
fn tuple() {
    let ir = compile_test(
        "fn main() i32 {
            let t (i32, i64) = (1, 2)
            return t.0
        }",
    );
    assert!(ir.contains("alloca {i32, i64}"));
    assert!(ir.contains("getelementptr inbounds {i32, i64}, ptr %_0, i64 0, i32 1"));
}

#[test]
fn array() {
    let ir = compile_test(
        "fn main() i32 {
            let a i32[3] = [1, 2, 3]
            return a[1]
        }",
    );
    assert!(ir.contains("alloca [3 x i32]"));
    assert!(ir.contains("getelementptr inbounds i32, ptr %_0, i64 2"));
}
