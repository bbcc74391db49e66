use vstd::prelude::*;
use vstd::string::StrSliceExecFns;
use crate::ast::{Arg, Decl, Value};
use crate::check::{default_type, extract_type};
use crate::insordmap::InsordMap;
use crate::ir::{ppbind, same_state, IR};
use crate::ops::{cmp_op, is_branch, is_cmp, Operation};
use crate::text::{push_char, push_decimal, push_signed_decimal, push_str, text};
use crate::types::{is_unsigned, penetrate_type, translate_type, views, Type, TypeV};

verus! {

/// The operand text of a literal.
pub open spec fn lit_text(v: Value) -> Option<Seq<char>> {
    match v {
        Value::Int(n) => Some(crate::text::decimal_of(n as nat)),
        Value::SInt(n) => Some(crate::text::signed_decimal_of(n as int)),
        Value::Bool(x) => Some(if x { "1"@ } else { "0"@ }),
        _ => None,
    }
}

/// How an integer cast is lowered.
#[derive(Clone, Copy, Debug, PartialEq, Eq, Structural)]
pub enum CastOp {
    /// widening of a signed source
    Sext,
    /// widening of an unsigned source
    Zext,
    /// narrowing
    Trunc,
}

/// Width in bits of a castable type (booleans are 1-bit integers).
pub open spec fn cast_width(t: TypeV) -> nat {
    match t {
        TypeV::I(x) => x as nat,
        TypeV::U(x) => x as nat,
        _ => 1,
    }
}

/// The instruction that casts between integer types: none for equal widths; widening
/// extends by the source's signedness (a signed source, booleans included as `i1`, is
/// sign-extended, an unsigned one zero-extended); narrowing truncates.
pub open spec fn cast_op_of(from: TypeV, to: TypeV) -> Option<CastOp> {
    if cast_width(from) < cast_width(to) {
        if from is I || from is Bool { Some(CastOp::Sext) } else { Some(CastOp::Zext) }
    } else if cast_width(from) > cast_width(to) {
        Some(CastOp::Trunc)
    } else {
        None
    }
}

/// The instruction that casts between integer types (see `cast_op_of`).
pub fn cast_op(from: &Type, to: &Type) -> (r: Option<CastOp>)
    ensures
        r == cast_op_of(from@, to@),
{
    let fw: u32 = match from {
        Type::I(x) => *x,
        Type::U(x) => *x,
        _ => 1,
    };
    let tw: u32 = match to {
        Type::I(x) => *x,
        Type::U(x) => *x,
        _ => 1,
    };
    if fw < tw {
        match from {
            Type::I(_) | Type::Bool => Some(CastOp::Sext),
            _ => Some(CastOp::Zext),
        }
    } else if fw > tw {
        Some(CastOp::Trunc)
    } else {
        None
    }
}

/// Whether a statement ends its block: a return, a return marker, `break`,
/// `continue` or `unreachable`.
pub open spec fn terminator(v: Value) -> bool {
    v is Return || v is ReturnMark || v is Break || v is Continue || v is Unreachable
}

/// Whether a statement ends its block.
pub fn is_terminator(v: &Value) -> (r: bool)
    ensures
        r == terminator(*v),
{
    match v {
        Value::Return(_, _) | Value::ReturnMark | Value::Break(_) | Value::Continue(_) | Value::Unreachable => true,
        _ => false,
    }
}

/// Whether a block ends with a statement that ends it.
pub open spec fn ends_block(values: Seq<Value>) -> bool {
    values.len() > 0 && terminator(values.last())
}

/// Whether a block ends with a statement that ends it.
pub fn find_terminator(values: &Vec<Value>) -> (r: bool)
    ensures
        r == ends_block(values@),
{
    if values.len() == 0 {
        false
    } else {
        is_terminator(&values[values.len() - 1])
    }
}

fn fresh(ir: &mut IR) -> (r: Result<usize, String>)
    ensures
        r matches Ok(n) ==> n == old(ir).temps() && final(ir).temps() == old(ir).temps() + 1,
        final(ir).scopes() == old(ir).scopes(),
        final(ir).locals() == old(ir).locals(),
        final(ir).expected() == old(ir).expected(),
        final(ir).global_text() == old(ir).global_text(),
        final(ir).prologue_text() == old(ir).prologue_text(),
        final(ir).anons() == old(ir).anons(),
        old(ir).temps() < usize::MAX ==> r is Ok,
{
    match ir.temp() {
        Some(n) => Ok(n),
        None => Err(text("Too many temporaries")),
    }
}

fn fail<T>(m: &str) -> (r: Result<T, String>)
    ensures
        r is Err,
{
    Err(text(m))
}

/// `s` without surrounding white space, each line break followed by four spaces.
pub fn indent(s: &String) -> (r: String)
    ensures
        s@.len() == 0 ==> r@.len() == 0,
{
    let a = s.as_str();
    let n = a.unicode_len();
    let mut lo: usize = 0;
    while lo < n
        invariant
            lo <= n,
            n == a@.len(),
        decreases n - lo,
    {
        let c = a.get_char(lo);
        if c != ' ' && c != '\n' && c != '\t' {
            break;
        }
        lo = lo + 1;
    }
    let mut hi: usize = n;
    while hi > lo
        invariant
            lo <= hi <= n,
            n == a@.len(),
        decreases hi,
    {
        let c = a.get_char(hi - 1);
        if c != ' ' && c != '\n' && c != '\t' {
            break;
        }
        hi = hi - 1;
    }
    let mut r = String::new();
    let mut i = lo;
    while i < hi
        invariant
            lo <= i <= hi,
            hi <= n,
            n == a@.len(),
            n == 0 ==> r@.len() == 0,
        decreases hi - i,
    {
        let c = a.get_char(i);
        push_char(&mut r, c);
        if c == '\n' {
            push_str(&mut r, "    ");
        }
        i = i + 1;
    }
    r
}

/// Lowers `value` in the type context `typ`, putting the previous context back.
pub fn translate_in(ir: &mut IR, decls: &mut Vec<Decl>, out: &mut String, typ: Option<Type>, value: Value, fuel: usize) -> (r: Result<Option<String>, String>)
    ensures
        lit_text(value) is Some && fuel > 1 ==> (r matches Ok(Some(v)) && Some(v@) == lit_text(value))
            && final(out)@ == old(out)@ && same_state(*final(ir), *old(ir)) && final(ir).expected() == old(ir).expected(),
    decreases fuel,
{
    if fuel == 0 {
        return fail("Program is nested too deeply");
    }
    let saved = ir.type_context(typ);
    let r = translate(ir, decls, out, value, fuel - 1);
    ir.restore_type(saved);
    r
}

/// Lowers `value` in the type context `typ`; it must produce a value.
pub fn translate_value(ir: &mut IR, decls: &mut Vec<Decl>, out: &mut String, typ: Option<Type>, value: Value, fuel: usize) -> (r: Result<String, String>)
    ensures
        lit_text(value) is Some && fuel > 2 ==> (r matches Ok(v) && Some(v@) == lit_text(value))
            && final(out)@ == old(out)@ && same_state(*final(ir), *old(ir)) && final(ir).expected() == old(ir).expected(),
    decreases fuel,
{
    if fuel == 0 {
        return fail("Program is nested too deeply");
    }
    match translate_in(ir, decls, out, typ, value, fuel - 1)? {
        Some(v) => Ok(v),
        None => fail("Expected a value"),
    }
}

/// Lowers one node of the syntax tree into `out` (and the global section); gives the
/// operand that holds its value, when it has one.
pub fn translate(ir: &mut IR, decls: &mut Vec<Decl>, out: &mut String, value: Value, fuel: usize) -> (r: Result<Option<String>, String>)
    ensures
        lit_text(value) is Some && fuel > 0 ==> (r matches Ok(Some(v)) && Some(v@) == lit_text(value))
            && final(out)@ == old(out)@ && same_state(*final(ir), *old(ir)) && final(ir).expected() == old(ir).expected(),
        value matches Value::Break(label) ==> (fuel > 0 ==> match crate::ir::find_bind(old(ir).scopes(), loop_key(label)) {
            Some(b) => r == Ok::<Option<String>, String>(None) && *final(ir) == *old(ir)
                && final(out)@ == old(out)@ + "br label %end."@ + crate::text::decimal_of(b.0 as nat) + "\n"@,
            None => r is Err,
        }),
        value matches Value::Continue(label) ==> (fuel > 0 ==> match crate::ir::find_bind(old(ir).scopes(), loop_key(label)) {
            Some(b) => r == Ok::<Option<String>, String>(None) && *final(ir) == *old(ir)
                && final(out)@ == old(out)@ + "br label %"@ + crate::text::decimal_of(b.0 as nat) + "\n"@,
            None => r is Err,
        }),
        value matches Value::Get(gn, gt) ==> (fuel > 0 ==> match crate::ir::find_bind(old(ir).scopes(), gn@) {
            Some(f) => old(ir).temps() < usize::MAX ==> (r matches Ok(Some(v)) && v@ == "%"@ + crate::text::decimal_of(old(ir).temps())
                && final(out)@ == old(out)@ + "%"@ + crate::text::decimal_of(old(ir).temps()) + " = load "@
                    + crate::types::llvm_of(gt@) + ", ptr %"@ + crate::ir::reg_text(f) + "\n"@),
            None => r is Err,
        }),
        value matches Value::Loop(lb, _) ==> (r is Ok ==> exists|code: Seq<char>|
            final(out)@ == #[trigger] joined(old(out)@, loop_text(old(ir).temps(), code, ends_block(lb@)), Seq::empty())),
        value matches Value::If { body: ib, .. } ==> (r is Ok ==> exists|code: Seq<char>, cond: Seq<char>, t: nat, f: nat,
            end: nat, bt: Seq<char>, nt: Seq<char>|
            final(out)@ == #[trigger] joined(old(out)@, code, if_text(cond, t, f, end, bt, ends_block(ib@), nt))),
        value matches Value::Else(b2) ==> (r is Ok ==> exists|code: Seq<char>, e: nat|
            final(out)@ == #[trigger] joined(old(out)@, code, else_tail(ends_block(b2@), e))),
        value matches Value::Extern(name, args, ret) ==> (fuel > 0 ==> r == Ok::<Option<String>, String>(None)
            && final(ir).global_text() == old(ir).global_text() + declare_text(name@, views(args@), ret@)),
        value matches Value::Typecast(v, f, t) ==> (fuel > 4 && lit_text(*v) is Some && old(ir).temps() < usize::MAX
            ==> (r matches Ok(Some(res)) && res@ == cast_result(f@, t@, lit_text(*v)->Some_0, old(ir).temps())
            && final(out)@ == old(out)@ + cast_tail(f@, t@, lit_text(*v)->Some_0, old(ir).temps()))),
        value matches Value::Expr(a, b, op) ==> (fuel > 4 && lit_text(*a) is Some && lit_text(*b) is Some
            && old(ir).temps() < usize::MAX
            && arith_name(op, crate::types::unsigned_of(arith_type(old(ir).expected(), *a, *b))) is Some
            ==> (r matches Ok(Some(v)) && v@ == "%"@ + crate::text::decimal_of(old(ir).temps())
            && final(out)@ == old(out)@ + arith_text(
                arith_name(op, crate::types::unsigned_of(arith_type(old(ir).expected(), *a, *b)))->Some_0,
                arith_type(old(ir).expected(), *a, *b),
                lit_text(*a)->Some_0,
                lit_text(*b)->Some_0,
                old(ir).temps(),
            ))),
        value matches Value::Expr(a, b, op) ==> (fuel > 5 && (op is And || op is Or) && lit_text(*a) is Some
            && lit_text(*b) is Some && old(ir).temps() + 2 <= usize::MAX && old(ir).locals() < usize::MAX
            ==> (r matches Ok(Some(v)) && v@ == "%"@ + crate::text::decimal_of(old(ir).temps() + 1)
            && final(out)@ == old(out)@ + branch_text(
                lit_text(*a)->Some_0,
                Seq::empty(),
                lit_text(*b)->Some_0,
                crate::ir::reg_text(branch_slot(*old(ir))),
                old(ir).temps(),
                old(ir).temps() + 1,
                op is And,
            ))),
        value matches Value::Int(n) ==> (fuel == 0 || (r matches Ok(Some(v)) && v@ == crate::text::decimal_of(n as nat))),
        value matches Value::SInt(n) ==> (fuel == 0 || (r matches Ok(Some(v)) && v@ == crate::text::signed_decimal_of(n as int))),
        value matches Value::Bool(x) ==> (fuel == 0 || (r matches Ok(Some(v)) && v@ == (if x { "1"@ } else { "0"@ }))),
        fuel > 0 && value is Unreachable ==> r == Ok::<Option<String>, String>(None) && final(out)@ == old(out)@ + "unreachable\n"@,
        fuel > 0 && (value is ReturnMark || value is Namespace) ==> r == Ok::<Option<String>, String>(None) && final(out)@ == old(out)@,
    decreases fuel,
{
    if fuel == 0 {
        return fail("Program is nested too deeply");
    }
    let fuel = fuel - 1;
    match value {
        Value::Int(x) => {
            let mut s = String::new();
            push_decimal(&mut s, x as u64);
            Ok(Some(s))
        },
        Value::SInt(x) => {
            let mut s = String::new();
            push_signed_decimal(&mut s, x as i64);
            Ok(Some(s))
        },
        Value::Bool(x) => Ok(Some(text(if x { "1" } else { "0" }))),
        Value::Expr(l, r, op) => Ok(Some(expr(ir, decls, out, *l, *r, op, fuel)?)),
        Value::Unary(op, v) => Ok(Some(unary(ir, decls, out, op, *v, fuel)?)),
        Value::Extern(name, args, ret) => {
            declare(ir, &name, &args, &ret);
            Ok(None)
        },
        Value::AnonFunction { args, body, ret } => {
            let n = match ir.anon() {
                Some(n) => n,
                None => return fail("Too many anonymous functions"),
            };
            let mut name = text(".anon.");
            push_decimal(&mut name, n as u64);
            let saved = ir.isolated();
            define(ir, decls, &name, args, body, ret, fuel)?;
            ir.restore(saved);
            let mut s = text("@\"");
            push_str(&mut s, name.as_str());
            push_str(&mut s, "\"");
            Ok(Some(s))
        },
        Value::Call(x, argv) => call(ir, decls, out, *x, argv, false, fuel),
        Value::Return(v, typ) => {
            let v = match v {
                Some(b) => Some(*b),
                None => None,
            };
            ret(ir, decls, out, v, typ, fuel)?;
            Ok(None)
        },
        Value::InitVar(name, typ, v) => {
            let v = match v {
                Some(b) => Some(*b),
                None => None,
            };
            new_var(ir, decls, out, &name, typ, v, fuel)?;
            Ok(None)
        },
        Value::ModifyVar(name, typ, v) => {
            modify_var(ir, decls, out, &name, typ, *v, fuel)?;
            Ok(None)
        },
        Value::ModifyByPointer(p, typ, v) => {
            modify_pointer(ir, decls, out, *p, typ, *v, fuel)?;
            Ok(None)
        },
        Value::Get(name, typ) => Ok(Some(get_var(ir, out, &name, &typ)?)),
        Value::LoadFromPtr(v, typ) => Ok(Some(deref(ir, decls, out, *v, &typ, fuel)?)),
        Value::Ptr(to, _) => {
            match *to {
                Value::Get(name, _) => match ir.get_bind(&name) {
                    Some(b) => {
                        let mut s = text("%");
                        push_str(&mut s, ppbind(&b).as_str());
                        Ok(Some(s))
                    },
                    None => fail("Unknown variable"),
                },
                Value::String(x) => Ok(Some(string_constant(ir, &x)?)),
                other => Ok(Some(ptrinit(ir, decls, out, other, fuel)?)),
            }
        },
        Value::FunctionPointer(n, _, _) => {
            let mut s = text("@\"");
            push_str(&mut s, n.as_str());
            push_str(&mut s, "\"");
            Ok(Some(s))
        },
        Value::String(x) => {
            match ir.get_mark_put_in() {
                Some(t) => {
                    let len = x.as_str().unicode_len();
                    let s = string_constant(ir, &x)?;
                    push_str(out, "call void @llvm.memcpy.inline.p0.p0.i64(ptr %");
                    push_str(out, ppbind(&t).as_str());
                    push_str(out, ", ptr ");
                    push_str(out, s.as_str());
                    push_str(out, ", i64 ");
                    push_decimal(out, len as u64);
                    push_str(out, ", i1 false)\n");
                },
                None => {},
            }
            Ok(None)
        },
        Value::Array(arr) => array(ir, decls, out, arr, fuel),
        Value::LoadAddress(from, index, typ, _) => Ok(Some(load_address(ir, decls, out, *from, *index, &typ, fuel)?)),
        Value::Tuple(tup) => tuple(ir, decls, out, tup, fuel),
        Value::StructInit(name, kv) => struct_init(ir, decls, out, &name, kv, fuel),
        Value::If { condition, body, else_then } => {
            let next = match else_then {
                Some(b) => Some(*b),
                None => None,
            };
            lower_if(ir, decls, out, *condition, body, next, fuel)?;
            Ok(None)
        },
        Value::Else(body) => {
            lower_else(ir, decls, out, body, fuel)?;
            Ok(None)
        },
        Value::Loop(body, label) => {
            lower_loop(ir, decls, out, body, label, fuel)?;
            Ok(None)
        },
        Value::Break(label) => {
            lower_break(ir, out, &label)?;
            Ok(None)
        },
        Value::Continue(label) => {
            lower_continue(ir, out, &label)?;
            Ok(None)
        },
        Value::Unreachable => {
            unreachable(out);
            Ok(None)
        },
        Value::Typecast(v, from, to) => Ok(Some(typecast(ir, decls, out, *v, from, to, fuel)?)),
        Value::Declared(slot) => {
            if slot >= decls.len() {
                return fail("Unknown declaration");
            }
            let d = decls.remove(slot);
            decls.insert(slot, Decl::Taken);
            match d {
                Decl::Function { name, args, body, ret } => define(ir, decls, &name, args, body, ret, fuel)?,
                Decl::Struct { name, kv, .. } => lower_struct(ir, name, kv),
                _ => {},
            }
            Ok(None)
        },
        Value::ReturnMark | Value::Namespace(_) => Ok(None),
    }
}

/// Lowers a list of statements in order.
pub fn translate_all(ir: &mut IR, decls: &mut Vec<Decl>, out: &mut String, program: Vec<Value>, fuel: usize) -> (r: Result<(), String>)
    ensures
        program@.len() == 0 && fuel > 0 ==> r is Ok && final(out)@ == old(out)@ && *final(ir) == *old(ir),
    decreases fuel,
{
    if fuel == 0 {
        return fail("Program is nested too deeply");
    }
    if program.len() == 0 {
        return Ok(());
    }
    translate_list(ir, decls, out, program, fuel - 1)
}

fn translate_list(ir: &mut IR, decls: &mut Vec<Decl>, out: &mut String, program: Vec<Value>, fuel: usize) -> (r: Result<(), String>)
    decreases fuel,
{
    if fuel == 0 {
        return fail("Program is nested too deeply");
    }
    let mut program = program;
    while program.len() > 0
        invariant
            fuel > 0,
        decreases program.len(),
    {
        let v = program.remove(0);
        translate(ir, decls, out, v, fuel - 1)?;
    }
    Ok(())
}

/// Lowers a whole program to LLVM IR text, the declaration slots holding the resolved
/// functions and structs.
pub fn emit_llvm(program: Vec<Value>, decls: Vec<Decl>) -> (r: Result<String, String>)
    ensures
        program@.len() == 0 ==> (r matches Ok(s) && s@.len() == 0),
{
    let mut ir = IR::new();
    let mut decls = decls;
    let mut w = String::new();
    translate_all(&mut ir, &mut decls, &mut w, program, DEPTH)?;
    Ok(ir.move_global())
}

/// Nesting depth that lowering allows.
pub const DEPTH: usize = 1000000;

fn string_constant(ir: &mut IR, x: &String) -> (r: Result<String, String>) {
    let a = x.as_str();
    let n = a.unicode_len();
    let mut k = text("[");
    push_decimal(&mut k, n as u64);
    push_str(&mut k, " x i8] c\"");
    let mut i: usize = 0;
    while i < n
        invariant
            i <= n,
            n == a@.len(),
        decreases n - i,
    {
        let c = a.get_char(i);
        if c == '\n' {
            push_str(&mut k, "\\0A");
        } else {
            push_char(&mut k, c);
        }
        i = i + 1;
    }
    push_str(&mut k, "\"");
    match ir.constant(k) {
        Some(s) => Ok(s),
        None => fail("Too many constants"),
    }
}

/// Declares an outside function.
pub fn declare(ir: &mut IR, name: &String, args: &Vec<Type>, ret: &Type)
    ensures
        final(ir).global_text() == old(ir).global_text() + declare_text(name@, views(args@), ret@),
{
    let mut line = text("declare ");
    ret.write_llvm(&mut line);
    push_str(&mut line, " @");
    push_str(&mut line, name.as_str());
    push_str(&mut line, " (");
    crate::types::write_llvm_list(args, &mut line);
    push_str(&mut line, ")");
    assert(line@ =~= "declare "@ + crate::types::llvm_of(ret@) + " @"@ + name@ + " ("@ + crate::types::llvm_list(views(args@)) + ")"@);
    ir.global_write(line.as_str());
    ir.leave();
    assert(ir.global_text() =~= old(ir).global_text() + declare_text(name@, views(args@), ret@));
}

/// The global line that declares an outside function.
pub open spec fn declare_text(name: Seq<char>, args: Seq<TypeV>, ret: TypeV) -> Seq<char> {
    "declare "@ + crate::types::llvm_of(ret) + " @"@ + name + " ("@ + crate::types::llvm_list(args) + ")"@ + "\n"@
}

/// Allocates a stack slot for a parameter and stores the incoming value in it.
pub fn new_arg(ir: &mut IR, out: &mut String, name: &String, typ: &Type, initial: usize) -> (r: Result<(), String>) {
    let new_t = fresh(ir)?;
    ir.bind(name, new_t, false);
    let mut p = text("%");
    push_decimal(&mut p, new_t as u64);
    push_str(&mut p, " = alloca ");
    typ.write_llvm(&mut p);
    push_str(&mut p, "\n");
    ir.get_prologue(p.as_str());
    push_str(out, "store ");
    typ.write_llvm(out);
    push_str(out, " %");
    push_decimal(out, initial as u64);
    push_str(out, ", ptr %");
    push_decimal(out, new_t as u64);
    push_str(out, "\n");
    Ok(())
}

/// The parameter list of a definition: the parameters' LLVM types, separated by ", ";
/// each parameter takes the next temporary number.
pub fn translate_args(ir: &mut IR, args: &Vec<Arg>) -> (r: Result<String, String>)
    ensures
        r is Ok ==> final(ir).temps() == old(ir).temps() + args@.len(),
        final(ir).scopes() == old(ir).scopes(),
{
    let mut params = String::new();
    let mut i: usize = 0;
    while i < args.len()
        invariant
            i <= args@.len(),
            ir.temps() == old(ir).temps() + i,
            ir.scopes() == old(ir).scopes(),
        decreases args.len() - i,
    {
        fresh(ir)?;
        if i > 0 {
            push_str(&mut params, ", ");
        }
        args[i].typ.write_llvm(&mut params);
        i = i + 1;
    }
    Ok(params)
}

/// Defines a function: parameters, then the stack slots of the prologue, then the body.
pub fn define(ir: &mut IR, decls: &mut Vec<Decl>, name: &String, args: Vec<Arg>, body: Vec<Value>, ret: Type, fuel: usize) -> (r: Result<(), String>)
    decreases fuel,
{
    if fuel == 0 {
        return fail("Program is nested too deeply");
    }
    ir.join();
    let params = translate_args(ir, &args)?;
    let mut body_buf = String::new();
    ir.new_prologue();
    let mut j: usize = 0;
    while j < args.len()
        invariant
            j <= args@.len(),
        decreases args.len() - j,
    {
        new_arg(ir, &mut body_buf, &args[j].name, &args[j].typ, j)?;
        j = j + 1;
    }
    translate_all(ir, decls, &mut body_buf, body, fuel - 1)?;
    let mut all = ir.move_prologue();
    push_str(&mut all, body_buf.as_str());
    let mut line = text("define ");
    ret.write_llvm(&mut line);
    push_str(&mut line, " @\"");
    push_str(&mut line, name.as_str());
    push_str(&mut line, "\" (");
    push_str(&mut line, params.as_str());
    push_str(&mut line, ") {\nentry:\n    ");
    push_str(&mut line, indent(&all).as_str());
    push_str(&mut line, "\n}");
    ir.global_write(line.as_str());
    ir.leave();
    Ok(())
}

/// A call; `tail` marks a call whose value is returned at once.
pub fn call(ir: &mut IR, decls: &mut Vec<Decl>, out: &mut String, x: Value, argv: Vec<Value>, tail: bool, fuel: usize) -> (r: Result<Option<String>, String>)
    decreases fuel,
{
    if fuel == 0 {
        return fail("Program is nested too deeply");
    }
    let (argt, rt) = match extract_type(&x) {
        Some(Type::Fn(a, r)) => (a, *r),
        _ => return fail("Called value is not a function"),
    };
    let name = translate_value(ir, decls, out, None, x, fuel - 1)?;
    let mut args_llvm = String::new();
    let mut argt = argt;
    let mut argv = argv;
    let mut first = true;
    while argt.len() > 0 && argv.len() > 0
        invariant
            fuel > 0,
        decreases argv.len(),
    {
        let typ = argt.remove(0);
        let value = argv.remove(0);
        let typstr = translate_type(&typ);
        let v = translate_value(ir, decls, out, Some(typ), value, fuel - 1)?;
        if !first {
            push_str(&mut args_llvm, ", ");
        }
        first = false;
        push_str(&mut args_llvm, typstr.as_str());
        push_str(&mut args_llvm, " ");
        push_str(&mut args_llvm, v.as_str());
    }
    let mut res: Option<String> = None;
    match rt {
        Type::Void | Type::Noret => {},
        _ => {
            let c = fresh(ir)?;
            let mut s = text("%");
            push_decimal(&mut s, c as u64);
            push_str(out, s.as_str());
            push_str(out, " = ");
            res = Some(s);
        },
    }
    if tail {
        push_str(out, "tail ");
    }
    push_str(out, "call ");
    rt.write_llvm(out);
    push_str(out, " ");
    push_str(out, name.as_str());
    push_str(out, " (");
    push_str(out, args_llvm.as_str());
    push_str(out, ")\n");
    Ok(res)
}

/// A return, of a value or of nothing.
pub fn ret(ir: &mut IR, decls: &mut Vec<Decl>, out: &mut String, value: Option<Value>, typ: Type, fuel: usize) -> (r: Result<(), String>)
    decreases fuel,
{
    if fuel == 0 {
        return fail("Program is nested too deeply");
    }
    match value {
        Some(v) => {
            let mut retbody = String::new();
            let saved = ir.type_context(Some(typ.duplicate()));
            let r = match v {
                Value::Call(x, argv) => call(ir, decls, &mut retbody, *x, argv, true, fuel - 1),
                other => translate(ir, decls, &mut retbody, other, fuel - 1),
            };
            ir.restore_type(saved);
            let r = r?;
            push_str(out, retbody.as_str());
            push_str(out, "ret ");
            typ.write_llvm(out);
            match r {
                Some(s) => {
                    push_str(out, " ");
                    push_str(out, s.as_str());
                },
                None => {},
            }
            push_str(out, "\n");
        },
        None => {
            push_str(out, "ret ");
            typ.write_llvm(out);
            push_str(out, "\n");
        },
    }
    Ok(())
}

fn store(out: &mut String, typ: &Type, v: &String, dest: &String) {
    push_str(out, "store ");
    typ.write_llvm(out);
    push_str(out, " ");
    push_str(out, v.as_str());
    push_str(out, ", ptr %");
    push_str(out, dest.as_str());
    push_str(out, "\n");
}

/// A variable: a stack slot, with the initial value written straight into it.
pub fn new_var(ir: &mut IR, decls: &mut Vec<Decl>, out: &mut String, name: &String, typ: Type, value: Option<Value>, fuel: usize) -> (r: Result<(), String>)
    decreases fuel,
{
    if fuel == 0 {
        return fail("Program is nested too deeply");
    }
    let (new_t, _) = match ir.seek_local(&typ) {
        Some(x) => x,
        None => return fail("Too many stack slots"),
    };
    match value {
        Some(v) => {
            ir.mark_put_in(new_t);
            let r = translate_in(ir, decls, out, Some(typ.duplicate()), v, fuel - 1)?;
            ir.unmark_put_in();
            ir.bind(name, new_t.0, true);
            match r {
                Some(s) => store(out, &typ, &s, &ppbind(&new_t)),
                None => {},
            }
        },
        None => ir.bind(name, new_t.0, true),
    }
    Ok(())
}

/// Reads a variable: a load of its register into the next temporary.
pub fn get_var(ir: &mut IR, out: &mut String, name: &String, typ: &Type) -> (r: Result<String, String>)
    ensures
        match crate::ir::find_bind(old(ir).scopes(), name@) {
            Some(f) => old(ir).temps() < usize::MAX ==> (r matches Ok(v) && v@ == "%"@ + crate::text::decimal_of(old(ir).temps())
                && final(out)@ == old(out)@ + "%"@ + crate::text::decimal_of(old(ir).temps()) + " = load "@
                    + crate::types::llvm_of(typ@) + ", ptr %"@ + crate::ir::reg_text(f) + "\n"@),
            None => r is Err,
        },
{
    let c = fresh(ir)?;
    let from = match ir.get_bind(name) {
        Some(f) => f,
        None => return fail("Unknown variable"),
    };
    let ghost o = out@;
    push_str(out, "%");
    push_decimal(out, c as u64);
    push_str(out, " = load ");
    typ.write_llvm(out);
    push_str(out, ", ptr %");
    push_str(out, ppbind(&from).as_str());
    push_str(out, "\n");
    assert(out@ =~= o + "%"@ + crate::text::decimal_of(c as nat) + " = load "@ + crate::types::llvm_of(typ@) + ", ptr %"@
        + crate::ir::reg_text(from) + "\n"@);
    let mut s = text("%");
    push_decimal(&mut s, c as u64);
    assert(s@ =~= "%"@ + crate::text::decimal_of(c as nat));
    Ok(s)
}

/// Assigns to a variable, a composite value being written straight into its slot.
pub fn modify_var(ir: &mut IR, decls: &mut Vec<Decl>, out: &mut String, name: &String, typ: Type, value: Value, fuel: usize) -> (r: Result<(), String>)
    decreases fuel,
{
    if fuel == 0 {
        return fail("Program is nested too deeply");
    }
    let p = match ir.get_bind(name) {
        Some(p) => p,
        None => return fail("Unknown variable"),
    };
    ir.mark_put_in(p);
    let r = translate_in(ir, decls, out, Some(typ.duplicate()), value, fuel - 1)?;
    ir.unmark_put_in();
    match r {
        Some(s) => store(out, &typ, &s, &ppbind(&p)),
        None => {},
    }
    Ok(())
}

/// Loads through an address.
pub fn deref(ir: &mut IR, decls: &mut Vec<Decl>, out: &mut String, value: Value, typ: &Type, fuel: usize) -> (r: Result<String, String>)
    decreases fuel,
{
    if fuel == 0 {
        return fail("Program is nested too deeply");
    }
    let d = translate_value(ir, decls, out, None, value, fuel - 1)?;
    let c = fresh(ir)?;
    push_str(out, "%");
    push_decimal(out, c as u64);
    push_str(out, " = load ");
    typ.write_llvm(out);
    push_str(out, ", ptr ");
    push_str(out, d.as_str());
    push_str(out, "\n");
    let mut s = text("%");
    push_decimal(&mut s, c as u64);
    Ok(s)
}

/// Stores through an address.
pub fn modify_pointer(ir: &mut IR, decls: &mut Vec<Decl>, out: &mut String, f: Value, typ: Type, value: Value, fuel: usize) -> (r: Result<(), String>)
    decreases fuel,
{
    if fuel == 0 {
        return fail("Program is nested too deeply");
    }
    let v = translate_value(ir, decls, out, Some(typ.duplicate()), value, fuel - 1)?;
    let f = translate_value(ir, decls, out, None, f, fuel - 1)?;
    push_str(out, "store ");
    typ.write_llvm(out);
    push_str(out, " ");
    push_str(out, v.as_str());
    push_str(out, ", ptr ");
    push_str(out, f.as_str());
    push_str(out, "\n");
    Ok(())
}

fn load_slot(ir: &mut IR, out: &mut String, typ: &Type, slot: &String) -> (r: Result<String, String>) {
    let load = fresh(ir)?;
    push_str(out, "%");
    push_decimal(out, load as u64);
    push_str(out, " = load ");
    typ.write_llvm(out);
    push_str(out, ", ptr %");
    push_str(out, slot.as_str());
    push_str(out, "\n");
    let mut s = text("%");
    push_decimal(&mut s, load as u64);
    Ok(s)
}

/// An array literal, written element by element into the destination slot; without a
/// destination set by the caller, into a fresh slot whose content is then loaded.
pub fn array(ir: &mut IR, decls: &mut Vec<Decl>, out: &mut String, arr: Vec<Value>, fuel: usize) -> (r: Result<Option<String>, String>)
    ensures
        r matches Ok(v) ==> (old(ir).expected() is Some ==> (v is None <==> crate::ir::find_bind(old(ir).scopes(), crate::ir::put_in_name()) is Some)),
        old(ir).expected() is None && fuel > 0 ==> r == Ok::<Option<String>, String>(None) && final(out)@ == old(out)@,
    decreases fuel,
{
    if fuel == 0 {
        return fail("Program is nested too deeply");
    }
    let typ = match ir.get_current_type() {
        Some(t) => t.duplicate(),
        None => return Ok(None),
    };
    let ghost pi = crate::ir::find_bind(ir.scopes(), crate::ir::put_in_name()) is Some;
    let (current, put_in) = match ir.seek_local(&typ) {
        Some(x) => x,
        None => return fail("Too many stack slots"),
    };
    let current = ppbind(&current);
    let subtyp = match &typ {
        Type::Array(s, _) => (**s).duplicate(),
        _ => return fail("Array literal where no array is expected"),
    };
    let mut arr = arr;
    let mut index: u64 = 0;
    while arr.len() > 0
        invariant
            put_in == pi,
            old(ir).expected() is Some,
            fuel > 0,
        decreases arr.len(),
    {
        let item = arr.remove(0);
        let gep = fresh(ir)?;
        push_str(out, "%");
        push_decimal(out, gep as u64);
        push_str(out, " = getelementptr inbounds ");
        subtyp.write_llvm(out);
        push_str(out, ", ptr %");
        push_str(out, current.as_str());
        push_str(out, ", i64 ");
        push_decimal(out, index);
        push_str(out, "\n");
        ir.mark_put_in((gep, false));
        match translate_in(ir, decls, out, Some(subtyp.duplicate()), item, fuel - 1)? {
            Some(s) => {
                let mut g = String::new();
                push_decimal(&mut g, gep as u64);
                store(out, &subtyp, &s, &g);
            },
            None => {},
        }
        if index < u64::MAX {
            index = index + 1;
        }
    }
    ir.unmark_put_in();
    if !put_in {
        return Ok(Some(load_slot(ir, out, &typ, &current)?));
    }
    Ok(None)
}

/// The address of an element of an array, a tuple or a struct, or at an offset from a
/// pointer.
pub fn load_address(ir: &mut IR, decls: &mut Vec<Decl>, out: &mut String, from: Value, index: Value, typ: &Type, fuel: usize) -> (r: Result<String, String>)
    decreases fuel,
{
    if fuel == 0 {
        return fail("Program is nested too deeply");
    }
    let bits: u64 = match typ {
        Type::Tuple(_) | Type::Struct(_) => 32,
        _ => 64,
    };
    let is_ptr = match typ {
        Type::Ptr(_, _) => true,
        _ => false,
    };
    let from = if Type::Ptr(None, false).check(&from) { from } else { Value::Ptr(Box::new(from), false) };
    let from = translate_value(ir, decls, out, None, from, fuel - 1)?;
    let index = translate_value(ir, decls, out, Some(Type::I(bits as u32)), index, fuel - 1)?;
    let gep = fresh(ir)?;
    push_str(out, "%");
    push_decimal(out, gep as u64);
    push_str(out, " = getelementptr inbounds ");
    typ.write_llvm(out);
    push_str(out, ", ptr ");
    push_str(out, from.as_str());
    push_str(out, ",");
    if !is_ptr {
        push_str(out, " i64 0,");
    }
    push_str(out, " i");
    push_decimal(out, bits);
    push_str(out, " ");
    push_str(out, index.as_str());
    push_str(out, "\n");
    let mut s = text("%");
    push_decimal(&mut s, gep as u64);
    Ok(s)
}

/// A pointer to a fresh slot initialised with `to`.
pub fn ptrinit(ir: &mut IR, decls: &mut Vec<Decl>, out: &mut String, to: Value, fuel: usize) -> (r: Result<String, String>)
    decreases fuel,
{
    if fuel == 0 {
        return fail("Program is nested too deeply");
    }
    let x = match ir.get_current_type() {
        Some(Type::Ptr(Some(x), _)) => (**x).duplicate(),
        _ => default_type(&to),
    };
    let c = match ir.reserve_local(&x) {
        Some(c) => c,
        None => return fail("Too many stack slots"),
    };
    let val = translate_value(ir, decls, out, Some(x.duplicate()), to, fuel - 1)?;
    let c = ppbind(&c);
    store(out, &x, &val, &c);
    let mut s = text("%");
    push_str(&mut s, c.as_str());
    Ok(s)
}

/// A tuple literal, written member by member into the destination slot (see `array`).
pub fn tuple(ir: &mut IR, decls: &mut Vec<Decl>, out: &mut String, tup: Vec<Value>, fuel: usize) -> (r: Result<Option<String>, String>)
    ensures
        r matches Ok(v) ==> (old(ir).expected() is Some ==> (v is None <==> crate::ir::find_bind(old(ir).scopes(), crate::ir::put_in_name()) is Some)),
        old(ir).expected() is None && fuel > 0 ==> r == Ok::<Option<String>, String>(None) && final(out)@ == old(out)@,
    decreases fuel,
{
    if fuel == 0 {
        return fail("Program is nested too deeply");
    }
    let typ = match ir.get_current_type() {
        Some(t) => t.duplicate(),
        None => return Ok(None),
    };
    let ghost pi = crate::ir::find_bind(ir.scopes(), crate::ir::put_in_name()) is Some;
    let (init, put_in) = match ir.seek_local(&typ) {
        Some(x) => x,
        None => return fail("Too many stack slots"),
    };
    let init = ppbind(&init);
    let subtyp = match &typ {
        Type::Tuple(s) => crate::types::duplicate_all(s),
        _ => return fail("Tuple where no tuple is expected"),
    };
    if subtyp.len() != tup.len() {
        return fail("Tuple of the wrong length");
    }
    let mut tup = tup;
    let mut index: usize = 0;
    while tup.len() > 0 && index < subtyp.len()
        invariant
            put_in == pi,
            old(ir).expected() is Some,
            fuel > 0,
        decreases tup.len(),
    {
        let value = tup.remove(0);
        let gep = fresh(ir)?;
        ir.mark_put_in((gep, false));
        push_str(out, "%");
        push_decimal(out, gep as u64);
        push_str(out, " = getelementptr inbounds ");
        typ.write_llvm(out);
        push_str(out, ", ptr %");
        push_str(out, init.as_str());
        push_str(out, ", i64 0, i32 ");
        push_decimal(out, index as u64);
        push_str(out, "\n");
        let st = subtyp[index].duplicate();
        match translate_in(ir, decls, out, Some(st.duplicate()), value, fuel - 1)? {
            Some(s) => {
                let mut g = String::new();
                push_decimal(&mut g, gep as u64);
                store(out, &st, &s, &g);
            },
            None => {},
        }
        index = index + 1;
    }
    ir.unmark_put_in();
    if !put_in {
        return Ok(Some(load_slot(ir, out, &typ, &init)?));
    }
    Ok(None)
}

/// A struct literal, written field by field, in declaration order, into the
/// destination slot (see `array`).
pub fn struct_init(ir: &mut IR, decls: &mut Vec<Decl>, out: &mut String, name: &String, kv: Vec<(String, Value)>, fuel: usize) -> (r: Result<Option<String>, String>)
    ensures
        r matches Ok(v) ==> (v is None <==> crate::ir::find_bind(old(ir).scopes(), crate::ir::put_in_name()) is Some),
    decreases fuel,
{
    if fuel == 0 {
        return fail("Program is nested too deeply");
    }
    let typ = Type::Struct(name.clone());
    let ghost pi = crate::ir::find_bind(ir.scopes(), crate::ir::put_in_name()) is Some;
    let (init, put_in) = match ir.seek_local(&typ) {
        Some(x) => x,
        None => return fail("Too many stack slots"),
    };
    let init = ppbind(&init);
    let mut fields: Vec<(String, Type)> = Vec::new();
    match ir.get_type(name) {
        Some(kt) => {
            let mut i: usize = 0;
            while i < kt.len()
                invariant
                    put_in == pi,
                    i <= kt@.len(),
                decreases kt.len() - i,
            {
                fields.push((kt[i].0.clone(), kt[i].1.duplicate()));
                i = i + 1;
            }
        },
        None => return fail("Unknown struct"),
    }
    let mut kv = kv;
    let mut index: usize = 0;
    while index < fields.len()
        invariant
            put_in == pi,
            fuel > 0,
        decreases fields.len() - index,
    {
        let mut found: Option<usize> = None;
        let mut j: usize = 0;
        while j < kv.len()
            invariant
                put_in == pi,
                j <= kv@.len(),
                index < fields@.len(),
                found matches Some(p) ==> p < kv@.len(),
            decreases kv.len() - j,
        {
            if crate::text::same_text(&kv[j].0, &fields[index].0) {
                found = Some(j);
                break;
            }
            j = j + 1;
        }
        let v = match found {
            Some(p) => kv.remove(p).1,
            None => return fail("Field is not initialized"),
        };
        let gep = fresh(ir)?;
        ir.mark_put_in((gep, false));
        push_str(out, "%");
        push_decimal(out, gep as u64);
        push_str(out, " = getelementptr inbounds ");
        typ.write_llvm(out);
        push_str(out, ", ptr %");
        push_str(out, init.as_str());
        push_str(out, ", i64 0, i32 ");
        push_decimal(out, index as u64);
        push_str(out, "\n");
        let ft = fields[index].1.duplicate();
        match translate_in(ir, decls, out, Some(ft.duplicate()), v, fuel - 1)? {
            Some(s) => {
                let mut g = String::new();
                push_decimal(&mut g, gep as u64);
                store(out, &ft, &s, &g);
            },
            None => {},
        }
        index = index + 1;
    }
    ir.unmark_put_in();
    if !put_in {
        return Ok(Some(load_slot(ir, out, &typ, &init)?));
    }
    Ok(None)
}

/// A struct type definition, with its fields recorded for literals.
pub fn lower_struct(ir: &mut IR, name: String, kv: InsordMap<Type>)
    ensures
        final(ir).global_text() == old(ir).global_text() + struct_text(name@, field_types(kv.entries())),
        final(ir).struct_types() == old(ir).struct_types().push((name@, kv.entries().map_values(|f: (String, Type)| (f.0@, f.1@)))),
{
    let ghost ft = field_types(kv.entries());
    let mut line = text("%\"");
    push_str(&mut line, name.as_str());
    push_str(&mut line, "\" = type { ");
    let ghost head = line@;
    let mut fields: Vec<(String, Type)> = Vec::new();
    let mut i: usize = 0;
    while i < kv.len()
        invariant
            i <= kv.entries().len(),
            ft == field_types(kv.entries()),
            ft.len() == kv.entries().len(),
            line@ == head + crate::types::llvm_list(ft.take(i as int)),
            fields@.map_values(|f: (String, Type)| (f.0@, f.1@)) == kv.entries().take(i as int).map_values(|f: (String, Type)| (f.0@, f.1@)),
        decreases kv.entries().len() - i,
    {
        let (k, t) = kv.kv(i);
        if i > 0 {
            push_str(&mut line, ", ");
        }
        t.write_llvm(&mut line);
        proof {
            let tk = ft.take(i + 1);
            assert(tk.drop_last() =~= ft.take(i as int));
            assert(tk.last() == t@);
            if i == 0 {
                assert(crate::types::llvm_list(tk) == crate::types::llvm_of(tk[0]));
            }
            assert(line@ =~= head + crate::types::llvm_list(tk));
        }
        let kc = k.clone();
        let tc = t.duplicate();
        let ghost fprev = fields@;
        fields.push((kc, tc));
        proof {
            let g = |f: (String, Type)| (f.0@, f.1@);
            assert(fields@.map_values(g) =~= fprev.map_values(g).push((k@, t@)));
            assert(kv.entries().take(i + 1).map_values(g) =~= kv.entries().take(i as int).map_values(g).push((k@, t@)));
        }
        i = i + 1;
    }
    assert(ft.take(i as int) =~= ft);
    assert(kv.entries().take(i as int) =~= kv.entries());
    push_str(&mut line, " }");
    ir.global_write(line.as_str());
    ir.bind_type(name, fields);
    assert(ir.global_text() =~= old(ir).global_text() + struct_text(name@, ft));
}

/// The LLVM types of the fields, in order.
pub open spec fn field_types(e: Seq<(String, Type)>) -> Seq<TypeV> {
    e.map_values(|x: (String, Type)| x.1@)
}

/// The global line that defines a struct type.
pub open spec fn struct_text(name: Seq<char>, fields: Seq<TypeV>) -> Seq<char> {
    "%\""@ + name + "\" = type { "@ + crate::types::llvm_list(fields) + " }"@ + "\n"@
}

/// The operand type of a binary operation: the first operand's known type, or else the
/// second's, or else the first's default type.
pub open spec fn operand_spec(l: Value, r: Value) -> TypeV {
    match crate::check::extract_spec(l) {
        Some(t) => t,
        None => match crate::check::extract_spec(r) {
            Some(t) => t,
            None => crate::check::default_spec(l),
        },
    }
}

/// The type an arithmetic operation is lowered in: the expected one, if any.
pub open spec fn arith_type(expected: Option<TypeV>, l: Value, r: Value) -> TypeV {
    match expected {
        Some(t) => t,
        None => operand_spec(l, r),
    }
}

/// The slot a short-circuit operator stores into: the destination mark, or else the
/// next stack slot.
pub open spec fn branch_slot(ir: IR) -> (usize, bool) {
    match crate::ir::find_bind(ir.scopes(), crate::ir::put_in_name()) {
        Some(d) => d,
        None => (ir.locals() as usize, true),
    }
}

fn operand_type(l: &Value, r: &Value) -> (t: Type)
    ensures
        t@ == operand_spec(*l, *r),
{
    match extract_type(l) {
        Some(t) => t,
        None => match extract_type(r) {
            Some(t) => t,
            None => default_type(l),
        },
    }
}

/// A comparison; signedness follows the operands' type.
pub fn cmp(ir: &mut IR, decls: &mut Vec<Decl>, out: &mut String, lhs: Value, rhs: Value, op: Operation, fuel: usize) -> (r: Result<String, String>)
    decreases fuel,
{
    if fuel == 0 {
        return fail("Program is nested too deeply");
    }
    let t = operand_type(&lhs, &rhs);
    let l = translate_value(ir, decls, out, Some(t.duplicate()), lhs, fuel - 1)?;
    let r = translate_value(ir, decls, out, Some(t.duplicate()), rhs, fuel - 1)?;
    let sign = if is_unsigned(&t) { "u" } else { "s" };
    let c = fresh(ir)?;
    push_str(out, "%");
    push_decimal(out, c as u64);
    push_str(out, " = icmp ");
    match op {
        Operation::Eq => push_str(out, "eq"),
        Operation::NE => push_str(out, "ne"),
        Operation::GT => {
            push_str(out, sign);
            push_str(out, "gt");
        },
        Operation::GE => {
            push_str(out, sign);
            push_str(out, "ge");
        },
        Operation::LT => {
            push_str(out, sign);
            push_str(out, "lt");
        },
        Operation::LE => {
            push_str(out, sign);
            push_str(out, "le");
        },
        _ => return fail("Not a comparison"),
    }
    push_str(out, " ");
    t.write_llvm(out);
    push_str(out, " ");
    push_str(out, l.as_str());
    push_str(out, ", ");
    push_str(out, r.as_str());
    push_str(out, "\n");
    let mut s = text("%");
    push_decimal(&mut s, c as u64);
    Ok(s)
}

/// Three texts one after the other.
pub open spec fn joined(a: Seq<char>, b: Seq<char>, c: Seq<char>) -> Seq<char> {
    a + b + c
}

/// The text that a short-circuit operator lowers to, around the code of its operands:
/// the left operand is stored in slot `l`; `&&` branches to the right operand only
/// when it is true, `||` only when it is false; the right operand overwrites the slot,
/// and the merge block `end.next` reloads it into `%res`.
pub open spec fn branch_text(lhs: Seq<char>, rhs_code: Seq<char>, rhs: Seq<char>, l: Seq<char>, next: nat, res: nat, and: bool) -> Seq<char> {
    let n = crate::text::decimal_of(next);
    "store i1 "@ + lhs + ", ptr %"@ + l + "\n"@
    + (if and {
        "br i1 "@ + lhs + ", label %"@ + n + ", label %end."@ + n + "\n"@
    } else {
        "br i1 "@ + lhs + ", label %end."@ + n + ", label %"@ + n + "\n"@
    })
    + rhs_code
    + "store i1 "@ + rhs + ", ptr %"@ + l + "\n"@
    + "br label %end."@ + n + "\n"@
    + "end."@ + n + ":\n"@
    + "%"@ + crate::text::decimal_of(res) + " = load i1, ptr %"@ + l + "\n"@
}

/// Writes the branching of a short-circuit operator (see `branch_text`), around the
/// already lowered right operand.
#[verifier::rlimit(80)]
pub fn write_branch(out: &mut String, lhs: &String, rhs_code: &String, rhs: &String, l: &String, next: usize, res: usize, and: bool)
    ensures
        final(out)@ == old(out)@ + branch_text(lhs@, rhs_code@, rhs@, l@, next as nat, res as nat, and),
{
    let ghost o = out@;
    push_str(out, "store i1 ");
    push_str(out, lhs.as_str());
    push_str(out, ", ptr %");
    push_str(out, l.as_str());
    push_str(out, "\n");
    let ghost a1 = out@;
    push_str(out, "br i1 ");
    push_str(out, lhs.as_str());
    if and {
        push_str(out, ", label %");
        push_decimal(out, next as u64);
        push_str(out, ", label %end.");
        push_decimal(out, next as u64);
    } else {
        push_str(out, ", label %end.");
        push_decimal(out, next as u64);
        push_str(out, ", label %");
        push_decimal(out, next as u64);
    }
    push_str(out, "\n");
    let ghost a2 = out@;
    push_str(out, rhs_code.as_str());
    push_str(out, "store i1 ");
    push_str(out, rhs.as_str());
    push_str(out, ", ptr %");
    push_str(out, l.as_str());
    push_str(out, "\n");
    push_str(out, "br label %end.");
    push_decimal(out, next as u64);
    push_str(out, "\n");
    push_str(out, "end.");
    push_decimal(out, next as u64);
    push_str(out, ":\n");
    push_str(out, "%");
    push_decimal(out, res as u64);
    push_str(out, " = load i1, ptr %");
    push_str(out, l.as_str());
    push_str(out, "\n");
    assert(out@ =~= o + branch_text(lhs@, rhs_code@, rhs@, l@, next as nat, res as nat, and));
}

/// `&&` and `||`: the right operand is evaluated only when the left one does not
/// decide the result (see `branch_text`).
pub fn branch_op(ir: &mut IR, decls: &mut Vec<Decl>, out: &mut String, lhs: Value, rhs: Value, op: Operation, fuel: usize) -> (r: Result<String, String>)
    ensures
        r matches Ok(v) ==> exists|code: Seq<char>, l: Seq<char>, rc: Seq<char>, rv: Seq<char>, slot: Seq<char>, next: nat, res: nat|
            final(out)@ == #[trigger] joined(old(out)@, code, branch_text(l, rc, rv, slot, next, res, op is And))
                && v@ == "%"@ + crate::text::decimal_of(res),
        r is Ok ==> op is And || op is Or,
        (op is And || op is Or) && lit_text(lhs) is Some && lit_text(rhs) is Some && fuel > 3
            && old(ir).temps() + 2 <= usize::MAX && old(ir).locals() < usize::MAX ==> (r matches Ok(v)
            && v@ == "%"@ + crate::text::decimal_of(old(ir).temps() + 1)
            && final(out)@ == old(out)@ + branch_text(
                lit_text(lhs)->Some_0,
                Seq::empty(),
                lit_text(rhs)->Some_0,
                crate::ir::reg_text(branch_slot(*old(ir))),
                old(ir).temps(),
                old(ir).temps() + 1,
                op is And,
            )
            && (crate::ir::find_bind(old(ir).scopes(), crate::ir::put_in_name()) is None
                ==> final(ir).prologue_text() == old(ir).prologue_text() + crate::ir::alloca_text(old(ir).locals(), TypeV::Bool))),
    decreases fuel,
{
    if fuel == 0 {
        return fail("Program is nested too deeply");
    }
    let and = match op {
        Operation::And => true,
        Operation::Or => false,
        _ => return fail("Not a short-circuit operator"),
    };
    let ghost ir0 = *old(ir);
    let mut lhs_code = String::new();
    let l = translate_value(ir, decls, &mut lhs_code, Some(Type::Bool), lhs, fuel - 1)?;
    let slot = match ir.seek_local(&Type::Bool) {
        Some((x, _)) => {
            assert(lit_text(lhs) is Some && fuel > 3 && ir0.locals() < usize::MAX ==> x == branch_slot(ir0));
            ppbind(&x)
        },
        None => return fail("Too many stack slots"),
    };
    let next = fresh(ir)?;
    let mut rhs_code = String::new();
    let r = translate_value(ir, decls, &mut rhs_code, Some(Type::Bool), rhs, fuel - 1)?;
    let res = fresh(ir)?;
    push_str(out, lhs_code.as_str());
    write_branch(out, &l, &rhs_code, &r, &slot, next, res, and);
    let mut s = text("%");
    push_decimal(&mut s, res as u64);
    assert(s@ =~= "%"@ + crate::text::decimal_of(res as nat));
    assert(and == (op is And));
    assert(out@ =~= joined(old(out)@, lhs_code@, branch_text(l@, rhs_code@, r@, slot@, next as nat, res as nat, and)));
    assert(out@ =~= old(out)@ + lhs_code@ + branch_text(l@, rhs_code@, r@, slot@, next as nat, res as nat, and));
    proof {
        if lit_text(lhs) is Some && fuel > 3 {
            assert(lhs_code@ =~= Seq::<char>::empty());
            assert(old(out)@ + lhs_code@ =~= old(out)@);
        }
        if lit_text(rhs) is Some && fuel > 3 {
            assert(rhs_code@ =~= Seq::<char>::empty());
        }
    }
    Ok(s)
}

/// The instruction name of an arithmetic operator; division and remainder follow the
/// signedness of the operand type.
pub open spec fn arith_name(op: Operation, unsigned: bool) -> Option<Seq<char>> {
    match op {
        Operation::Add => Some("add"@),
        Operation::Sub => Some("sub"@),
        Operation::Mul => Some("mul"@),
        Operation::Div => Some(if unsigned { "udiv"@ } else { "sdiv"@ }),
        Operation::Rem => Some(if unsigned { "urem"@ } else { "srem"@ }),
        Operation::BitAnd => Some("and"@),
        Operation::BitOr => Some("or"@),
        _ => None,
    }
}

/// The instruction of an arithmetic operation into temporary `c`.
pub open spec fn arith_text(name: Seq<char>, t: TypeV, l: Seq<char>, r: Seq<char>, c: nat) -> Seq<char> {
    "%"@ + crate::text::decimal_of(c) + " = "@ + name + " "@ + crate::types::llvm_of(t) + " "@ + l + ", "@ + r + "\n"@
}

fn arith_name_exec(op: Operation, unsigned: bool) -> (r: Option<&'static str>)
    ensures
        match r {
            Some(n) => arith_name(op, unsigned) == Some(n@),
            None => arith_name(op, unsigned) is None,
        },
{
    match op {
        Operation::Add => Some("add"),
        Operation::Sub => Some("sub"),
        Operation::Mul => Some("mul"),
        Operation::Div => Some(if unsigned { "udiv" } else { "sdiv" }),
        Operation::Rem => Some(if unsigned { "urem" } else { "srem" }),
        Operation::BitAnd => Some("and"),
        Operation::BitOr => Some("or"),
        _ => None,
    }
}

/// Writes an arithmetic instruction (see `arith_text`).
pub fn write_arith(out: &mut String, name: &str, t: &Type, l: &String, r: &String, c: usize)
    ensures
        final(out)@ == old(out)@ + arith_text(name@, t@, l@, r@, c as nat),
{
    let ghost o = out@;
    push_str(out, "%");
    push_decimal(out, c as u64);
    push_str(out, " = ");
    push_str(out, name);
    push_str(out, " ");
    t.write_llvm(out);
    push_str(out, " ");
    push_str(out, l.as_str());
    push_str(out, ", ");
    push_str(out, r.as_str());
    push_str(out, "\n");
    assert(out@ =~= o + arith_text(name@, t@, l@, r@, c as nat));
}

/// A binary operation, in the expected type (or the operands' own type).
pub fn expr(ir: &mut IR, decls: &mut Vec<Decl>, out: &mut String, lhs: Value, rhs: Value, op: Operation, fuel: usize) -> (r: Result<String, String>)
    ensures
        r matches Ok(v) ==> (!cmp_op(op) && !crate::ops::branch_op(op) ==> exists|code: Seq<char>, name: Seq<char>, t: TypeV, l: Seq<char>, rr: Seq<char>, c: nat|
            final(out)@ == #[trigger] joined(old(out)@, code, arith_text(name, t, l, rr, c))
                && arith_name(op, crate::types::unsigned_of(t)) == Some(name)
                && v@ == "%"@ + crate::text::decimal_of(c)),
        lit_text(lhs) is Some && lit_text(rhs) is Some && fuel > 3 && old(ir).temps() < usize::MAX
            && arith_name(op, crate::types::unsigned_of(arith_type(old(ir).expected(), lhs, rhs))) is Some
            ==> (r matches Ok(v) && v@ == "%"@ + crate::text::decimal_of(old(ir).temps())
            && final(out)@ == old(out)@ + arith_text(
                arith_name(op, crate::types::unsigned_of(arith_type(old(ir).expected(), lhs, rhs)))->Some_0,
                arith_type(old(ir).expected(), lhs, rhs),
                lit_text(lhs)->Some_0,
                lit_text(rhs)->Some_0,
                old(ir).temps(),
            )),
        (op is And || op is Or) && lit_text(lhs) is Some && lit_text(rhs) is Some && fuel > 4
            && old(ir).temps() + 2 <= usize::MAX && old(ir).locals() < usize::MAX ==> (r matches Ok(v)
            && v@ == "%"@ + crate::text::decimal_of(old(ir).temps() + 1)
            && final(out)@ == old(out)@ + branch_text(
                lit_text(lhs)->Some_0,
                Seq::empty(),
                lit_text(rhs)->Some_0,
                crate::ir::reg_text(branch_slot(*old(ir))),
                old(ir).temps(),
                old(ir).temps() + 1,
                op is And,
            )),
    decreases fuel,
{
    if fuel == 0 {
        return fail("Program is nested too deeply");
    }
    if is_cmp(&op) {
        return cmp(ir, decls, out, lhs, rhs, op, fuel - 1);
    }
    if is_branch(&op) {
        return branch_op(ir, decls, out, lhs, rhs, op, fuel - 1);
    }
    let ghost t_in = old(ir).temps();
    let ghost exp_in = old(ir).expected();
    let optype = match ir.get_current_type() {
        Some(t) => t.duplicate(),
        None => operand_type(&lhs, &rhs),
    };
    assert(optype@ == arith_type(exp_in, lhs, rhs));
    let mut code = String::new();
    let l = translate_value(ir, decls, &mut code, Some(optype.duplicate()), lhs, fuel - 1)?;
    let r = translate_value(ir, decls, &mut code, Some(optype.duplicate()), rhs, fuel - 1)?;
    let unsigned = is_unsigned(&optype);
    let name = match arith_name_exec(op, unsigned) {
        Some(n) => n,
        None => return fail("Not a binary operator"),
    };
    let c = fresh(ir)?;
    push_str(out, code.as_str());
    write_arith(out, name, &optype, &l, &r, c);
    let mut s = text("%");
    push_decimal(&mut s, c as u64);
    assert(s@ =~= "%"@ + crate::text::decimal_of(c as nat));
    assert(out@ =~= joined(old(out)@, code@, arith_text(name@, optype@, l@, r@, c as nat)));
    assert(out@ =~= old(out)@ + code@ + arith_text(name@, optype@, l@, r@, c as nat));
    Ok(s)
}

/// Negation and logical not.
pub fn unary(ir: &mut IR, decls: &mut Vec<Decl>, out: &mut String, op: Operation, value: Value, fuel: usize) -> (r: Result<String, String>)
    decreases fuel,
{
    if fuel == 0 {
        return fail("Program is nested too deeply");
    }
    let typ = match ir.get_current_type() {
        Some(t) => t.duplicate(),
        None => default_type(&value),
    };
    let v = translate_value(ir, decls, out, Some(typ.duplicate()), value, fuel - 1)?;
    let c = fresh(ir)?;
    push_str(out, "%");
    push_decimal(out, c as u64);
    push_str(out, " = ");
    match op {
        Operation::Not => {
            push_str(out, "xor ");
            typ.write_llvm(out);
            push_str(out, " ");
            push_str(out, v.as_str());
            push_str(out, ", -1\n");
        },
        Operation::Sub => {
            push_str(out, "sub ");
            typ.write_llvm(out);
            push_str(out, " 0, ");
            push_str(out, v.as_str());
            push_str(out, "\n");
        },
        _ => return fail("Not a unary operator"),
    }
    let mut s = text("%");
    push_decimal(&mut s, c as u64);
    Ok(s)
}

/// Integer type of a castable type, booleans being 1-bit integers (`i1`, as signed).
pub open spec fn as_int(t: TypeV) -> TypeV {
    if t is Bool { TypeV::I(1) } else { t }
}

/// The instruction of a cast of operand `v` into temporary `c`.
pub open spec fn cast_text(op: CastOp, from: TypeV, to: TypeV, v: Seq<char>, c: nat) -> Seq<char> {
    "%"@ + crate::text::decimal_of(c) + (match op {
        CastOp::Sext => " = sext "@,
        CastOp::Zext => " = zext "@,
        CastOp::Trunc => " = trunc "@,
    }) + crate::types::llvm_of(from) + " "@ + v + " to "@ + crate::types::llvm_of(to) + "\n"@
}

/// Writes a cast instruction (see `cast_text`).
pub fn write_cast(out: &mut String, op: CastOp, from: &Type, to: &Type, v: &String, c: usize)
    ensures
        final(out)@ == old(out)@ + cast_text(op, from@, to@, v@, c as nat),
{
    let ghost o = out@;
    push_str(out, "%");
    push_decimal(out, c as u64);
    push_str(out, match op {
        CastOp::Sext => " = sext ",
        CastOp::Zext => " = zext ",
        CastOp::Trunc => " = trunc ",
    });
    from.write_llvm(out);
    push_str(out, " ");
    push_str(out, v.as_str());
    push_str(out, " to ");
    to.write_llvm(out);
    push_str(out, "\n");
    assert(out@ =~= o + cast_text(op, from@, to@, v@, c as nat));
}

/// What a cast appends after its operand's code: the cast instruction, or nothing
/// between equal widths.
pub open spec fn cast_tail(from: TypeV, to: TypeV, v: Seq<char>, c: nat) -> Seq<char> {
    match cast_op_of(as_int(from), as_int(to)) {
        Some(op) => cast_text(op, as_int(from), as_int(to), v, c),
        None => Seq::empty(),
    }
}

/// The operand that holds a cast's result: the temporary, or the operand itself between
/// equal widths.
pub open spec fn cast_result(from: TypeV, to: TypeV, v: Seq<char>, c: nat) -> Seq<char> {
    match cast_op_of(as_int(from), as_int(to)) {
        Some(_) => "%"@ + crate::text::decimal_of(c),
        None => v,
    }
}

/// A cast between integer types (booleans being 1-bit integers); see `cast_op`. The
/// operand's code comes first; a cast between equal widths adds nothing and gives the
/// operand itself.
pub fn typecast(ir: &mut IR, decls: &mut Vec<Decl>, out: &mut String, value: Value, from: Type, to: Type, fuel: usize) -> (r: Result<String, String>)
    ensures
        r matches Ok(res) ==> exists|code: Seq<char>, v: Seq<char>, c: nat|
            final(out)@ == #[trigger] joined(old(out)@, code, cast_tail(from@, to@, v, c))
                && res@ == cast_result(from@, to@, v, c),
        lit_text(value) is Some && fuel > 3 && old(ir).temps() < usize::MAX ==> (r matches Ok(res)
            && res@ == cast_result(from@, to@, lit_text(value)->Some_0, old(ir).temps())
            && final(out)@ == old(out)@ + cast_tail(from@, to@, lit_text(value)->Some_0, old(ir).temps())),
    decreases fuel,
{
    if fuel == 0 {
        return fail("Program is nested too deeply");
    }
    let ghost f0 = as_int(from@);
    let ghost t0 = as_int(to@);
    let ghost from_v = from@;
    let ghost to_v = to@;
    let ghost t_in = old(ir).temps();
    let mut code = String::new();
    let v = translate_value(ir, decls, &mut code, Some(from.duplicate()), value, fuel - 1)?;
    push_str(out, code.as_str());
    let from = match from {
        Type::Bool => Type::I(1),
        other => other,
    };
    let to = match to {
        Type::Bool => Type::I(1),
        other => other,
    };
    assert(from@ == f0 && to@ == t0);
    let op = match cast_op(&from, &to) {
        Some(op) => op,
        None => {
            assert(out@ =~= joined(old(out)@, code@, cast_tail(from_v, to_v, v@, 0)));
            assert(cast_tail(from_v, to_v, v@, 0) =~= cast_tail(from_v, to_v, v@, t_in));
            assert(out@ =~= old(out)@ + code@ + cast_tail(from_v, to_v, v@, t_in));
            return Ok(v);
        },
    };
    let c = fresh(ir)?;
    write_cast(out, op, &from, &to, &v, c);
    assert(out@ =~= joined(old(out)@, code@, cast_tail(from_v, to_v, v@, c as nat)));
    assert(out@ =~= old(out)@ + code@ + cast_tail(from_v, to_v, v@, c as nat));
    let mut s = text("%");
    push_decimal(&mut s, c as u64);
    assert(s@ =~= "%"@ + crate::text::decimal_of(c as nat));
    Ok(s)
}

/// The text of an `if` after its condition: the branch, the then-block with a jump to
/// the end unless it already ends its block, and the else-block under its label when
/// it has one of its own. With no else-block the code that follows continues in the
/// false label's block; no merge block is written here.
pub open spec fn if_text(cond: Seq<char>, t: nat, f: nat, end: nat, body: Seq<char>, terminates: bool, next: Seq<char>) -> Seq<char> {
    let ts = crate::text::decimal_of(t);
    let fs = crate::text::decimal_of(f);
    let es = crate::text::decimal_of(end);
    "br i1 "@ + cond + ", label %"@ + ts + ", label %"@ + fs + "\n"@
    + ts + ":\n"@ + body + (if terminates { Seq::empty() } else { "br label %"@ + es + "\n"@ })
    + (if f != end { fs + ":\n"@ + next } else { Seq::empty() })
}

/// Writes the text of an `if` (see `if_text`).
#[verifier::rlimit(80)]
pub fn write_if(out: &mut String, cond: &String, t: usize, f: usize, end: usize, body: &String, terminates: bool, next: &String)
    ensures
        final(out)@ == old(out)@ + if_text(cond@, t as nat, f as nat, end as nat, body@, terminates, next@),
{
    let ghost o = out@;
    push_str(out, "br i1 ");
    push_str(out, cond.as_str());
    push_str(out, ", label %");
    push_decimal(out, t as u64);
    push_str(out, ", label %");
    push_decimal(out, f as u64);
    push_str(out, "\n");
    push_decimal(out, t as u64);
    push_str(out, ":\n");
    push_str(out, body.as_str());
    if !terminates {
        push_str(out, "br label %");
        push_decimal(out, end as u64);
        push_str(out, "\n");
    }
    if f != end {
        push_decimal(out, f as u64);
        push_str(out, ":\n");
        push_str(out, next.as_str());
    }
    assert(out@ =~= o + if_text(cond@, t as nat, f as nat, end as nat, body@, terminates, next@));
}

/// `if`, with an optional `else` or `else if`: the condition's code, then the text of
/// `if_text`, in which the then-block jumps to the end only when it does not already
/// end its block.
pub fn lower_if(ir: &mut IR, decls: &mut Vec<Decl>, out: &mut String, condition: Value, body: Vec<Value>, next: Option<Value>, fuel: usize) -> (r: Result<(), String>)
    ensures
        r is Ok ==> exists|code: Seq<char>, cond: Seq<char>, t: nat, f: nat, end: nat, bt: Seq<char>, nt: Seq<char>|
            final(out)@ == #[trigger] joined(old(out)@, code, if_text(cond, t, f, end, bt, ends_block(body@), nt)),
        lit_text(condition) is Some && body@.len() == 0 && next is None && fuel > 3 && old(ir).depth() > 0
            && old(ir).temps() + 2 <= usize::MAX ==> r is Ok && final(out)@ == old(out)@ + if_text(
            lit_text(condition)->Some_0,
            old(ir).temps(),
            old(ir).temps() + 1,
            old(ir).temps() + 1,
            Seq::empty(),
            false,
            Seq::empty(),
        ),
        next matches Some(Value::Else(b2)) ==> (r is Ok ==> exists|code: Seq<char>, cond: Seq<char>, t: nat, f: nat, end: nat,
            bt: Seq<char>, ec: Seq<char>, e2: nat|
            final(out)@ == #[trigger] joined(old(out)@, code, if_text(cond, t, f, end, bt, ends_block(body@),
                ec + else_tail(ends_block(b2@), e2)))),
    decreases fuel,
{
    if fuel == 0 {
        return fail("Program is nested too deeply");
    }
    let ghost next0 = next;
    let mut cond_code = String::new();
    let cond = translate_value(ir, decls, &mut cond_code, Some(Type::Bool), condition, fuel - 1)?;
    let mut bodybuf = String::new();
    let true_label = fresh(ir)?;
    let ghost body0 = body@;
    let terminates = find_terminator(&body);
    ir.join();
    translate_all(ir, decls, &mut bodybuf, body, fuel - 1)?;
    ir.leave();
    let false_label = fresh(ir)?;
    let mut end_label = false_label;
    let mut next_buf = String::new();
    match next {
        Some(n) => {
            translate(ir, decls, &mut next_buf, n, fuel - 1)?;
            match ir.last_temp() {
                Some(l) => end_label = l,
                None => {},
            }
        },
        None => {},
    }
    push_str(out, cond_code.as_str());
    let bt = bodybuf;
    let nt = next_buf;
    write_if(out, &cond, true_label, false_label, end_label, &bt, terminates, &nt);
    assert(out@ =~= joined(old(out)@, cond_code@, if_text(cond@, true_label as nat, false_label as nat, end_label as nat, bt@, terminates, nt@)));
    proof {
        match next0 {
            Some(Value::Else(b2)) => {
                let (code, e) = choose|code: Seq<char>, e: nat|
                    nt@ == #[trigger] joined(Seq::<char>::empty(), code, else_tail(ends_block(b2@), e));
                assert(nt@ =~= code + else_tail(ends_block(b2@), e));
                assert(out@ == joined(old(out)@, cond_code@, if_text(cond@, true_label as nat, false_label as nat, end_label as nat, bt@,
                    ends_block(body0), code + else_tail(ends_block(b2@), e))));
            },
            _ => {},
        }
        if lit_text(condition) is Some && fuel > 3 {
            assert(cond_code@ =~= Seq::<char>::empty());
            assert(out@ =~= old(out)@ + if_text(cond@, true_label as nat, false_label as nat, end_label as nat, bt@, terminates, nt@));
        }
    }
    Ok(())
}

/// What follows the statements of an `else` block: nothing when they end the block,
/// else a jump to the end label.
pub open spec fn else_tail(terminates: bool, end: nat) -> Seq<char> {
    if terminates {
        Seq::empty()
    } else {
        "br label %"@ + crate::text::decimal_of(end) + "\n"@
    }
}

/// An `else` block: its statements, then a jump to the end only when they do not
/// already end the block.
pub fn lower_else(ir: &mut IR, decls: &mut Vec<Decl>, out: &mut String, body: Vec<Value>, fuel: usize) -> (r: Result<(), String>)
    ensures
        r is Ok ==> exists|code: Seq<char>, end: nat|
            final(out)@ == #[trigger] joined(old(out)@, code, else_tail(ends_block(body@), end)),
        body@.len() == 0 && fuel > 1 && old(ir).depth() > 0 && old(ir).temps() < usize::MAX ==> r is Ok
            && final(out)@ == old(out)@ + "br label %"@ + crate::text::decimal_of(old(ir).temps()) + "\n"@,
    decreases fuel,
{
    if fuel == 0 {
        return fail("Program is nested too deeply");
    }
    let terminates = find_terminator(&body);
    let mut code = String::new();
    ir.join();
    translate_all(ir, decls, &mut code, body, fuel - 1)?;
    ir.leave();
    let end = fresh(ir)?;
    push_str(out, code.as_str());
    let ghost mid = out@;
    if !terminates {
        push_str(out, "br label %");
        push_decimal(out, end as u64);
        push_str(out, "\n");
    }
    assert(out@ =~= joined(old(out)@, code@, else_tail(terminates, end as nat)));
    proof {
        if body@.len() == 0 && fuel > 1 && old(ir).depth() > 0 {
            assert(code@ =~= Seq::<char>::empty());
            assert(out@ =~= old(out)@ + "br label %"@ + crate::text::decimal_of(end as nat) + "\n"@);
        }
    }
    Ok(())
}

/// `loop`: a start label, the body, a jump back unless the body already ends its block,
/// and the end label that `break` jumps to.
pub fn lower_loop(ir: &mut IR, decls: &mut Vec<Decl>, out: &mut String, body: Vec<Value>, label: Option<String>, fuel: usize) -> (r: Result<(), String>)
    ensures
        r is Ok ==> exists|code: Seq<char>|
            final(out)@ == #[trigger] joined(old(out)@, loop_text(old(ir).temps(), code, ends_block(body@)), Seq::empty()),
        old(ir).temps() < usize::MAX && body@.len() == 0 && fuel > 1 ==> r is Ok
            && final(out)@ == old(out)@ + loop_text(old(ir).temps(), Seq::empty(), false),
    decreases fuel,
{
    if fuel == 0 {
        return fail("Program is nested too deeply");
    }
    let l = fresh(ir)?;
    ir.join();
    match &label {
        Some(name) => ir.bind(name, l, false),
        None => {},
    }
    ir.bind(&text("@current_label"), l, false);
    let terminates = find_terminator(&body);
    let mut bodystr = String::new();
    translate_all(ir, decls, &mut bodystr, body, fuel - 1)?;
    ir.leave();
    write_loop(out, l, &bodystr, terminates);
    assert(out@ =~= joined(old(out)@, loop_text(l as nat, bodystr@, terminates), Seq::empty()));
    Ok(())
}

/// The text of a loop numbered `l` around its body's text: a jump to the start label,
/// the body, a jump back unless the body ends its block, and the end label `end.l`
/// that `break` jumps to.
pub open spec fn loop_text(l: nat, body: Seq<char>, terminates: bool) -> Seq<char> {
    let ls = crate::text::decimal_of(l);
    "br label %"@ + ls + "\n"@ + ls + ":\n"@ + body + (if terminates { Seq::empty() } else { "br label %"@ + ls + "\n"@ })
        + "end."@ + ls + ":\n"@
}

/// Writes the text of a loop (see `loop_text`).
pub fn write_loop(out: &mut String, l: usize, body: &String, terminates: bool)
    ensures
        final(out)@ == old(out)@ + loop_text(l as nat, body@, terminates),
{
    let ghost o = out@;
    push_str(out, "br label %");
    push_decimal(out, l as u64);
    push_str(out, "\n");
    push_decimal(out, l as u64);
    push_str(out, ":\n");
    push_str(out, body.as_str());
    if !terminates {
        push_str(out, "br label %");
        push_decimal(out, l as u64);
        push_str(out, "\n");
    }
    push_str(out, "end.");
    push_decimal(out, l as u64);
    push_str(out, ":\n");
    assert(out@ =~= o + loop_text(l as nat, body@, terminates));
}

/// The name under which a jump finds its loop: the label, or the innermost loop.
pub open spec fn loop_key(label: Option<String>) -> Seq<char> {
    match label {
        Some(l) => l@,
        None => "@current_label"@,
    }
}

fn loop_label(ir: &IR, label: &Option<String>) -> (r: Result<usize, String>)
    ensures
        match crate::ir::find_bind(ir.scopes(), loop_key(*label)) {
            Some(b) => r == Ok::<usize, String>(b.0),
            None => r is Err,
        },
{
    let key = match label {
        Some(l) => l.clone(),
        None => text("@current_label"),
    };
    match ir.get_bind(&key) {
        Some(b) => Ok(b.0),
        None => fail("Jump outside of a loop"),
    }
}

/// `break`: a jump to the end label `end.n` of the named or innermost loop `n`.
pub fn lower_break(ir: &IR, out: &mut String, label: &Option<String>) -> (r: Result<(), String>)
    ensures
        match crate::ir::find_bind(ir.scopes(), loop_key(*label)) {
            Some(b) => r is Ok && final(out)@ == old(out)@ + "br label %end."@ + crate::text::decimal_of(b.0 as nat) + "\n"@,
            None => r is Err,
        },
{
    let l = loop_label(ir, label)?;
    push_str(out, "br label %end.");
    push_decimal(out, l as u64);
    push_str(out, "\n");
    assert(out@ =~= old(out)@ + "br label %end."@ + crate::text::decimal_of(l as nat) + "\n"@);
    Ok(())
}

/// `continue`: a jump to the start label `n` of the named or innermost loop.
pub fn lower_continue(ir: &IR, out: &mut String, label: &Option<String>) -> (r: Result<(), String>)
    ensures
        match crate::ir::find_bind(ir.scopes(), loop_key(*label)) {
            Some(b) => r is Ok && final(out)@ == old(out)@ + "br label %"@ + crate::text::decimal_of(b.0 as nat) + "\n"@,
            None => r is Err,
        },
{
    let l = loop_label(ir, label)?;
    push_str(out, "br label %");
    push_decimal(out, l as u64);
    push_str(out, "\n");
    assert(out@ =~= old(out)@ + "br label %"@ + crate::text::decimal_of(l as nat) + "\n"@);
    Ok(())
}

/// `unreachable`.
pub fn unreachable(out: &mut String)
    ensures
        final(out)@ == old(out)@ + "unreachable\n"@,
{
    push_str(out, "unreachable\n");
}

} // verus!
