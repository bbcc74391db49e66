use vstd::prelude::*;
use crate::ast::{Arg, Decl, Value};
use crate::bindings::{prefix_text, Bind, Bindings, Context, Diagnostic};
use crate::check::{default_type, extract_type};
use crate::insordmap::InsordMap;
use crate::lexer::{Token, TokenKind};
use crate::ops::{is_branch, op_of, precedence, precedence_of, Operation};
use crate::parse_types::{copy_bind, next_type, number_of, parse_number, resolve_name};
use crate::simpler::{pair_end, fatal_at, ignore_separator, next_body, next_body_optional, next_mutable_flag, next_name, next_token};
use crate::strings::unescape;
use crate::text::{push_str, text, text_is};
use crate::types::{Type, TypeV, StructLayout};

verus! {

/// Message of an assignment where none is expected.
pub const ASSIGN_NOT_EXPECTED: &'static str = "Assignment is not expected here";

/// The operator that a token spells, if any.
pub fn get_op(token: &Token) -> (r: Option<Operation>)
    ensures
        r == op_of(token.value@),
{
    let v = &token.value;
    if text_is(v, "+") { Some(Operation::Add) }
    else if text_is(v, "-") { Some(Operation::Sub) }
    else if text_is(v, "*") { Some(Operation::Mul) }
    else if text_is(v, "/") { Some(Operation::Div) }
    else if text_is(v, "%") { Some(Operation::Rem) }
    else if text_is(v, "<") { Some(Operation::LT) }
    else if text_is(v, ">") { Some(Operation::GT) }
    else if text_is(v, "<=") { Some(Operation::LE) }
    else if text_is(v, ">=") { Some(Operation::GE) }
    else if text_is(v, "==") { Some(Operation::Eq) }
    else if text_is(v, "!=") { Some(Operation::NE) }
    else if text_is(v, "&&") { Some(Operation::And) }
    else if text_is(v, "||") { Some(Operation::Or) }
    else if text_is(v, "!") { Some(Operation::Not) }
    else if text_is(v, "&") { Some(Operation::BitAnd) }
    else if text_is(v, "|") { Some(Operation::BitOr) }
    else { None }
}

/// Whether a statement list ends in a return, a return marker or `unreachable`.
pub open spec fn returns_spec(body: Seq<Value>) -> bool {
    body.len() > 0 && (body.last() is Return || body.last() is ReturnMark || body.last() is Unreachable)
}

/// Whether a statement list ends in a return, a return marker or `unreachable`.
pub fn get_return(body: &Vec<Value>) -> (r: bool)
    ensures
        r == returns_spec(body@),
{
    if body.len() == 0 {
        return false;
    }
    match &body[body.len() - 1] {
        Value::Return(_, _) | Value::ReturnMark | Value::Unreachable => true,
        _ => false,
    }
}

/// Records a recoverable error at the token at `pos` (or the last one).
pub fn gentle_at(b: &mut Bindings, t: &Vec<Token>, pos: usize, message: &str)
    requires
        old(b).wf(),
    ensures
        final(b).wf(),
        !final(b).compiles(),
        final(b).diags().len() == old(b).diags().len() + 1,
        final(b).diags().drop_last() == old(b).diags(),
        final(b).diags().last().message@ == message@,
        final(b).prefix() == old(b).prefix(),
        final(b).scopes() == old(b).scopes(),
        final(b).contexts() == old(b).contexts(),
        final(b).decl_slots() == old(b).decl_slots(),
        final(b).functions_queue() == old(b).functions_queue(),
        final(b).types_queue() == old(b).types_queue(),
{
    if pos < t.len() {
        b.gentle_error(&t[pos], message);
    } else if t.len() > 0 {
        b.gentle_error(&t[t.len() - 1], message);
    } else {
        let tk = Token { typ: TokenKind::Meta, value: String::new(), col: 1, line: 1 };
        b.gentle_error(&tk, message);
    }
}

/// The type a mismatch report names for a value: its known type, member by member for
/// a tuple, `_` where none is known.
pub open spec fn got_spec(x: Value) -> TypeV {
    match x {
        Value::Tuple(v) => TypeV::Tuple(v@.map_values(|e: Value| known_or_guess(e))),
        _ => known_or_guess(x),
    }
}

pub open spec fn known_or_guess(x: Value) -> TypeV {
    match crate::check::extract_spec(x) {
        Some(t) => t,
        None => TypeV::Guess,
    }
}

/// The text of a type mismatch report.
pub open spec fn mismatch_text(expected: TypeV, got: TypeV) -> Seq<char> {
    "Mismatched types: expected '"@ + crate::types::display_of(expected) + "', got '"@ + crate::types::display_of(got) + "'"@
}

/// Records a type mismatch unless `x` fits `ty`.
pub fn check_strict(ty: &Type, x: &Value, t: &Vec<Token>, pos: usize, b: &mut Bindings)
    requires
        old(b).wf(),
    ensures
        final(b).wf(),
        !crate::check::check_spec(ty@, *x) ==> !final(b).compiles() && final(b).diags().len() == old(b).diags().len() + 1
            && final(b).diags().drop_last() == old(b).diags()
            && final(b).diags().last().message@ == mismatch_text(ty@, got_spec(*x)),
        crate::check::check_spec(ty@, *x) ==> *final(b) == *old(b),
        final(b).decl_slots() == old(b).decl_slots(),
        final(b).prefix() == old(b).prefix(),
        final(b).scopes() == old(b).scopes(),
        final(b).contexts() == old(b).contexts(),
{
    if !ty.check(x) {
        let got = match x {
            Value::Tuple(v) => {
                let mut ts: Vec<Type> = Vec::new();
                let mut i: usize = 0;
                while i < v.len()
                    invariant
                        i <= v@.len(),
                        ts@.len() == i,
                        forall|k: int| 0 <= k < i ==> #[trigger] ts@[k]@ == known_or_guess(v@[k]),
                    decreases v.len() - i,
                {
                    ts.push(match extract_type(&v[i]) {
                        Some(t) => t,
                        None => Type::Guess,
                    });
                    i = i + 1;
                }
                proof {
                    crate::types::lemma_views(ts@);
                    assert(crate::types::views(ts@) =~= v@.map_values(|e: Value| known_or_guess(e)));
                }
                Type::Tuple(ts)
            },
            _ => match extract_type(x) {
                Some(t) => t,
                None => Type::Guess,
            },
        };
        let mut m = text("Mismatched types: expected '");
        ty.write_display(&mut m);
        push_str(&mut m, "', got '");
        got.write_display(&mut m);
        push_str(&mut m, "'");
        assert(got@ == got_spec(*x));
        assert(m@ =~= mismatch_text(ty@, got_spec(*x)));
        gentle_at(b, t, pos, m.as_str());
    }
}

/// A position that moved on from `pos`, kept within `end`.
pub fn advance(pos: usize, np: usize, end: usize) -> (r: usize)
    requires
        pos < end,
    ensures
        pos < r <= end,
        pos < np <= end ==> r == np,
{
    if np > end {
        end
    } else if np <= pos {
        pos + 1
    } else {
        np
    }
}

/// A position kept within `pos..=end`.
pub fn within(pos: usize, np: usize, end: usize) -> (r: usize)
    requires
        pos <= end,
    ensures
        pos <= r <= end,
        pos <= np <= end ==> r == np,
{
    if np > end {
        end
    } else if np < pos {
        pos
    } else {
        np
    }
}

/// Parses one value or statement at `pos` into `out`; gives the position after it.
pub fn value(t: &Vec<Token>, pos: usize, end: usize, out: &mut Vec<Value>, b: &mut Bindings, fuel: usize) -> (r: Result<usize, Diagnostic>)
    requires
        end <= t@.len(),
        pos <= end,
        old(b).wf(),
    ensures
        final(b).wf(),
        r matches Ok(np) ==> pos <= np <= end && (pos < end ==> pos < np),
        pos >= end ==> r == Ok::<usize, Diagnostic>(end) && final(out)@ == old(out)@,
        number_of(t@[pos as int].value@, 0) matches Some(n) ==> (pos < end && t@[pos as int].typ == TokenKind::Int && fuel > 1
            && n <= usize::MAX ==> r == Ok::<usize, Diagnostic>((pos + 1) as usize) && final(out)@ == old(out)@.push(Value::Int(n as usize))),
        pos < end && t@[pos as int].typ == TokenKind::String && fuel > 1 ==> r == Ok::<usize, Diagnostic>((pos + 1) as usize)
            && final(out)@.len() == old(out)@.len() + 1 && final(out)@.drop_last() == old(out)@
            && (final(out)@.last() matches Value::String(x) && x@ == crate::strings::unescape_spec(t@[pos as int].value@)),
        pos < end && t@[pos as int].typ == TokenKind::Assign && fuel > 1 ==> r == Ok::<usize, Diagnostic>((pos + 1) as usize)
            && final(out)@ == old(out)@ && !final(b).compiles(),
        pos < end && (t@[pos as int].typ == TokenKind::Float || t@[pos as int].typ == TokenKind::In
            || t@[pos as int].typ == TokenKind::LabelSymbol || t@[pos as int].typ == TokenKind::Punctuation) && fuel > 1
            ==> r == Ok::<usize, Diagnostic>((pos + 1) as usize) && final(out)@ == old(out)@,
        pos < end && fuel > 1 && t@[pos as int].typ == TokenKind::Word && t@[pos as int].value@ == "true"@
            ==> r == Ok::<usize, Diagnostic>((pos + 1) as usize) && final(out)@ == old(out)@.push(Value::Bool(true)),
        pos < end && fuel > 1 && t@[pos as int].typ == TokenKind::Word && t@[pos as int].value@ == "false"@
            ==> r == Ok::<usize, Diagnostic>((pos + 1) as usize) && final(out)@ == old(out)@.push(Value::Bool(false)),
    decreases fuel,
{
    if pos >= end {
        return Ok(end);
    }
    if fuel == 0 {
        return Err(fatal_at(t, pos, "Program is nested too deeply"));
    }
    let np = value_inner(t, pos, end, out, b, fuel - 1)?;
    Ok(advance(pos, np, end))
}

fn value_inner(t: &Vec<Token>, pos: usize, end: usize, out: &mut Vec<Value>, b: &mut Bindings, fuel: usize) -> (r: Result<usize, Diagnostic>)
    requires
        end <= t@.len(),
        pos < end,
        old(b).wf(),
    ensures
        final(b).wf(),
        number_of(t@[pos as int].value@, 0) matches Some(n) ==> (pos < end && t@[pos as int].typ == TokenKind::Int && fuel > 0
            && n <= usize::MAX ==> r == Ok::<usize, Diagnostic>((pos + 1) as usize) && final(out)@ == old(out)@.push(Value::Int(n as usize))),
        pos < end && t@[pos as int].typ == TokenKind::String && fuel > 0 ==> r == Ok::<usize, Diagnostic>((pos + 1) as usize)
            && final(out)@.len() == old(out)@.len() + 1 && final(out)@.drop_last() == old(out)@
            && (final(out)@.last() matches Value::String(x) && x@ == crate::strings::unescape_spec(t@[pos as int].value@)),
        pos < end && t@[pos as int].typ == TokenKind::Assign && fuel > 0 ==> r == Ok::<usize, Diagnostic>((pos + 1) as usize)
            && final(out)@ == old(out)@ && !final(b).compiles(),
        pos < end && (t@[pos as int].typ == TokenKind::Float || t@[pos as int].typ == TokenKind::In
            || t@[pos as int].typ == TokenKind::LabelSymbol || t@[pos as int].typ == TokenKind::Punctuation) && fuel > 0
            ==> r == Ok::<usize, Diagnostic>((pos + 1) as usize) && final(out)@ == old(out)@,
        t@[pos as int].typ == TokenKind::Word && t@[pos as int].value@ == "true"@ && fuel > 0
            ==> r == Ok::<usize, Diagnostic>((pos + 1) as usize) && final(out)@ == old(out)@.push(Value::Bool(true)),
        t@[pos as int].typ == TokenKind::Word && t@[pos as int].value@ == "false"@ && fuel > 0
            ==> r == Ok::<usize, Diagnostic>((pos + 1) as usize) && final(out)@ == old(out)@.push(Value::Bool(false)),
    decreases fuel,
{
    if fuel == 0 {
        return Err(fatal_at(t, pos, "Program is nested too deeply"));
    }
    let fuel = fuel - 1;
    proof {
        reveal_strlit("true");
        reveal_strlit("false");
        assert("false"@[0] == 'f' && "true"@[0] == 't');
    }
    let token = &t[pos];
    match token.typ {
        TokenKind::String => {
            out.push(Value::String(unescape(&token.value)));
            Ok(pos + 1)
        },
        TokenKind::Int => {
            match parse_number(&token.value, 0) {
                Some(n) => {
                    if n > usize::MAX as u64 {
                        return Err(fatal_at(t, pos, "Integer literal is too large"));
                    }
                    out.push(Value::Int(n as usize));
                    Ok(pos + 1)
                },
                None => Err(fatal_at(t, pos, "Integer literal is too large")),
            }
        },
        TokenKind::Arithmetic | TokenKind::Logical | TokenKind::Bitwise | TokenKind::Special => unary(t, pos, end, out, b, fuel),
        TokenKind::Assign => {
            gentle_at(b, t, pos, ASSIGN_NOT_EXPECTED);
            Ok(pos + 1)
        },
        TokenKind::Brackets => {
            if text_is(&token.value, "(") {
                let mut off = pos;
                let (lo, hi) = next_body(&mut off, t, end, "(", ")")?;
                let mut bl = parse(t, lo, hi, b, fuel)?;
                if bl.len() != 1 {
                    out.push(Value::Tuple(bl));
                } else {
                    let v = bl.pop().unwrap();
                    out.push(v);
                }
                Ok(off)
            } else if text_is(&token.value, "[") {
                array(t, pos, end, out, b, fuel)
            } else {
                Ok(pos + 1)
            }
        },
        TokenKind::Meta => {
            if text_is(&token.value, "#link") {
                let mut off = pos + 1;
                match next_token(&mut off, t, end, None, Some(TokenKind::String)) {
                    Some(p) => {
                        b.link(unescape(&t[p].value));
                        Ok(off)
                    },
                    None => {
                        gentle_at(b, t, pos, "#link requires path (string) next to it");
                        Ok(off)
                    },
                }
            } else {
                Err(fatal_at(t, pos, "Unknown directive"))
            }
        },
        TokenKind::Word => {
            let w = &token.value;
            if text_is(w, "true") {
                out.push(Value::Bool(true));
                Ok(pos + 1)
            } else if text_is(w, "false") {
                out.push(Value::Bool(false));
                Ok(pos + 1)
            } else if text_is(w, "extern") {
                extrn(t, pos, end, out, b, fuel)
            } else if text_is(w, "fn") {
                fn_decl(t, pos, end, out, b, fuel, false)
            } else if text_is(w, "return") {
                return_stmt(t, pos, end, out, b, fuel)
            } else if text_is(w, "let") {
                var(t, pos, end, out, b, fuel)
            } else if text_is(w, "if") {
                if_stmt(t, pos, end, out, b, fuel)
            } else if text_is(w, "loop") {
                loop_stmt(t, pos, end, out, b, fuel)
            } else if text_is(w, "break") {
                break_stmt(t, pos, end, out, b)
            } else if text_is(w, "continue") {
                continue_stmt(t, pos, end, out, b)
            } else if text_is(w, "unreachable") {
                out.push(Value::Unreachable);
                Ok(end)
            } else if text_is(w, "namespace") {
                namespace(t, pos, end, out, b, fuel)
            } else if text_is(w, "use") {
                use_decl(t, pos, end, b)
            } else if text_is(w, "pub") {
                pub_decl(t, pos, end, out, b, fuel)
            } else if text_is(w, "struct") {
                struct_decl(t, pos, end, out, b)
            } else {
                external_word(t, pos, end, out, b, fuel)
            }
        },
        _ => Ok(pos + 1),
    }
}

/// Continues a value at `pos` with what may follow it: a binary operator, an
/// assignment, an index, a dereference, a member access or a cast. With
/// `stop_at_ops`, stops before a binary operator.
pub fn value_loop(t: &Vec<Token>, pos: usize, end: usize, out: &mut Vec<Value>, b: &mut Bindings, fuel: usize, stop_at_ops: bool) -> (r: Result<usize, Diagnostic>)
    requires
        end <= t@.len(),
        pos <= end,
        old(b).wf(),
    ensures
        final(b).wf(),
        r matches Ok(np) ==> pos <= np <= end,
        fuel > 0 && pos == end ==> r == Ok::<usize, Diagnostic>(pos) && final(out)@ == old(out)@,
        fuel > 0 && pos < end && stop_at_ops && (t@[pos as int].typ == TokenKind::Arithmetic
            || t@[pos as int].typ == TokenKind::Logical || t@[pos as int].typ == TokenKind::Bitwise)
            ==> r == Ok::<usize, Diagnostic>(pos) && final(out)@ == old(out)@,
        !stop_at_ops && pos < end && (t@[pos as int].typ == TokenKind::Arithmetic
            || t@[pos as int].typ == TokenKind::Logical || t@[pos as int].typ == TokenKind::Bitwise)
            && op_of(t@[pos as int].value@) is Some && old(out)@.len() > 0 && fuel > 1 ==> (r matches Ok(np) ==> np > pos),
        !stop_at_ops && (t@[pos as int].typ == TokenKind::Arithmetic || t@[pos as int].typ == TokenKind::Logical
            || t@[pos as int].typ == TokenKind::Bitwise) && simple_binary(t@, pos as int, end as int, old(out)@) && fuel > 3
            ==> r == Ok::<usize, Diagnostic>(end) && final(out)@ == old(out)@.drop_last().push(simple_tree(t@, pos as int, old(out)@)),
    decreases fuel,
{
    if fuel == 0 {
        return Err(fatal_at(t, pos, "Program is nested too deeply"));
    }
    let ghost sh = !stop_at_ops && (t@[pos as int].typ == TokenKind::Arithmetic || t@[pos as int].typ == TokenKind::Logical
        || t@[pos as int].typ == TokenKind::Bitwise) && simple_binary(t@, pos as int, end as int, old(out)@) && fuel > 3;
    let mut off = pos;
    let ghost mut first = true;
    while off < end
        invariant
            pos <= off <= end,
            end <= t@.len(),
            b.wf(),
            fuel > 0,
            off == pos ==> out@ == old(out)@,
            pos < end && stop_at_ops && (t@[pos as int].typ == TokenKind::Arithmetic
                || t@[pos as int].typ == TokenKind::Logical || t@[pos as int].typ == TokenKind::Bitwise)
                ==> off == pos,
            first ==> off == pos,
            sh == (!stop_at_ops && (t@[pos as int].typ == TokenKind::Arithmetic || t@[pos as int].typ == TokenKind::Logical
                || t@[pos as int].typ == TokenKind::Bitwise) && simple_binary(t@, pos as int, end as int, old(out)@) && fuel > 3),
            sh && !first ==> off == end && out@ == old(out)@.drop_last().push(simple_tree(t@, pos as int, old(out)@)),
            !first && (!stop_at_ops && pos < end && (t@[pos as int].typ == TokenKind::Arithmetic
            || t@[pos as int].typ == TokenKind::Logical || t@[pos as int].typ == TokenKind::Bitwise)
            && op_of(t@[pos as int].value@) is Some && old(out)@.len() > 0) ==> off > pos,
        decreases end - off,
    {
        let tk = &t[off];
        let op_kind = match tk.typ {
            TokenKind::Arithmetic | TokenKind::Logical | TokenKind::Bitwise => true,
            _ => false,
        };
        if op_kind && stop_at_ops {
            return Ok(off);
        }
        let o = if op_kind {
            expr(t, off, end, out, b, fuel - 1)?
        } else {
            match tk.typ {
                TokenKind::Assign => modify(t, off, end, out, b, fuel - 1)?,
                TokenKind::Brackets => {
                    if text_is(&tk.value, "[") {
                        load_address(t, off, end, out, b, fuel - 1)?
                    } else {
                        off
                    }
                },
                TokenKind::Special => {
                    if text_is(&tk.value, ".*") {
                        deref(t, off, out, b)
                    } else {
                        off
                    }
                },
                TokenKind::In => access_type_member(t, off, end, out, b)?,
                TokenKind::Word => {
                    if text_is(&tk.value, "as") {
                        typecast(t, off, end, out, b)?
                    } else {
                        off
                    }
                },
                _ => off,
            }
        };
        if o > off && o <= end {
            off = o;
        } else {
            return Ok(within(off, o, end));
        }
        proof { first = false; }
    }
    Ok(off)
}

/// Parses a value at `pos` and whatever continues it.
pub fn value_lookaround(t: &Vec<Token>, pos: usize, end: usize, out: &mut Vec<Value>, b: &mut Bindings, fuel: usize) -> (r: Result<usize, Diagnostic>)
    requires
        end <= t@.len(),
        pos <= end,
        old(b).wf(),
    ensures
        final(b).wf(),
        r matches Ok(np) ==> pos <= np <= end && (pos < end ==> pos < np),
    decreases fuel,
{
    if fuel == 0 {
        return Err(fatal_at(t, pos, "Program is nested too deeply"));
    }
    let ls = out.len();
    let x = value(t, pos, end, out, b, fuel - 1)?;
    if ls != out.len() {
        let y = value_loop(t, x, end, out, b, fuel - 1, false)?;
        Ok(y)
    } else {
        Ok(x)
    }
}

/// Parses a value at `*off` and takes it, stepping over it; none when nothing that
/// gives a value stands there.
pub fn next_value(off: &mut usize, t: &Vec<Token>, end: usize, b: &mut Bindings, fuel: usize) -> (r: Result<Option<Value>, Diagnostic>)
    requires
        end <= t@.len(),
        *old(off) <= end,
        old(b).wf(),
    ensures
        final(b).wf(),
        *old(off) <= *final(off) <= end,
    decreases fuel,
{
    if fuel == 0 {
        return Err(fatal_at(t, *off, "Program is nested too deeply"));
    }
    let mut tmp: Vec<Value> = Vec::new();
    let j = value_lookaround(t, *off, end, &mut tmp, b, fuel - 1)?;
    if tmp.len() > 0 {
        *off = j;
        Ok(tmp.pop())
    } else {
        Ok(None)
    }
}

/// Parses the tokens `lo..hi` into `out`.
pub fn parse_inplace(t: &Vec<Token>, lo: usize, hi: usize, out: &mut Vec<Value>, b: &mut Bindings, fuel: usize) -> (r: Result<(), Diagnostic>)
    requires
        hi <= t@.len(),
        lo <= hi,
        old(b).wf(),
    ensures
        final(b).wf(),
    decreases fuel,
{
    if fuel == 0 {
        return Err(fatal_at(t, lo, "Program is nested too deeply"));
    }
    let mut i = lo;
    while i < hi
        invariant
            lo <= i <= hi,
            hi <= t@.len(),
            b.wf(),
            fuel > 0,
        decreases hi - i,
    {
        i = value_lookaround(t, i, hi, out, b, fuel - 1)?;
    }
    Ok(())
}

/// Parses the tokens `lo..hi`.
pub fn parse(t: &Vec<Token>, lo: usize, hi: usize, b: &mut Bindings, fuel: usize) -> (r: Result<Vec<Value>, Diagnostic>)
    requires
        hi <= t@.len(),
        lo <= hi,
        old(b).wf(),
    ensures
        final(b).wf(),
    decreases fuel,
{
    if fuel == 0 {
        return Err(fatal_at(t, lo, "Program is nested too deeply"));
    }
    let mut out: Vec<Value> = Vec::new();
    parse_inplace(t, lo, hi, &mut out, b, fuel - 1)?;
    Ok(out)
}

/// Parses one value at `*off` (without what may continue it) and takes it.
pub fn next_one_value(off: &mut usize, t: &Vec<Token>, end: usize, b: &mut Bindings, fuel: usize) -> (r: Result<Option<Value>, Diagnostic>)
    requires
        end <= t@.len(),
        *old(off) <= end,
        old(b).wf(),
    ensures
        final(b).wf(),
        *old(off) <= *final(off) <= end,
    decreases fuel,
{
    if fuel == 0 {
        return Err(fatal_at(t, *off, "Program is nested too deeply"));
    }
    let mut tmp: Vec<Value> = Vec::new();
    let j = value(t, *off, end, &mut tmp, b, fuel - 1)?;
    *off = j;
    Ok(tmp.pop())
}

/// Whether `t[pos..end]` is one arithmetic or comparison operator followed by an
/// integer literal that fits `usize`, the last value of `out` being an integer literal.
pub open spec fn simple_binary(t: Seq<Token>, pos: int, end: int, out: Seq<Value>) -> bool {
    0 <= pos && pos + 2 == end && end <= t.len() && op_of(t[pos].value@) is Some
        && !crate::ops::branch_op(op_of(t[pos].value@)->Some_0) && !(op_of(t[pos].value@)->Some_0 is Not)
        && t[pos + 1].typ == TokenKind::Int && number_of(t[pos + 1].value@, 0) is Some
        && number_of(t[pos + 1].value@, 0)->Some_0 <= usize::MAX && out.len() > 0 && out.last() is Int
}

/// The tree that a simple binary expression folds to.
pub open spec fn simple_tree(t: Seq<Token>, pos: int, out: Seq<Value>) -> Value {
    Value::Expr(
        Box::new(out.last()),
        Box::new(Value::Int(number_of(t[pos + 1].value@, 0)->Some_0 as usize)),
        op_of(t[pos].value@)->Some_0,
    )
}

/// Folds a binary expression that starts with the operator at `pos`, the left operand
/// being the last value of `out`. Operators of precedence 0 bind tightest, then 1, 2
/// and 3; operators of equal precedence group from the left.
pub fn expr(t: &Vec<Token>, pos: usize, end: usize, out: &mut Vec<Value>, b: &mut Bindings, fuel: usize) -> (r: Result<usize, Diagnostic>)
    requires
        end <= t@.len(),
        pos <= end,
        old(b).wf(),
    ensures
        final(b).wf(),
        r matches Ok(np) ==> pos <= np <= end,
        r is Ok ==> old(out)@.len() > 0 && final(out)@.len() == old(out)@.len()
            && final(out)@.drop_last() == old(out)@.drop_last(),
        pos < end && op_of(t@[pos as int].value@) is Some ==> (r matches Ok(np) ==> np > pos && final(out)@.last() is Expr),
        simple_binary(t@, pos as int, end as int, old(out)@) && fuel > 2 ==> r == Ok::<usize, Diagnostic>(end)
            && final(out)@ == old(out)@.drop_last().push(simple_tree(t@, pos as int, old(out)@)),
    decreases fuel,
{
    if fuel == 0 {
        return Err(fatal_at(t, pos, "Program is nested too deeply"));
    }
    let ghost simple = simple_binary(t@, pos as int, end as int, old(out)@) && fuel > 2;
    let ghost v0 = old(out)@.last();
    let ghost tree = simple_tree(t@, pos as int, old(out)@);
    let ghost v1 = Value::Int(number_of(t@[pos + 1].value@, 0)->Some_0 as usize);
    let ghost op0 = op_of(t@[pos as int].value@)->Some_0;
    let first = match out.pop() {
        Some(v) => v,
        None => return Err(fatal_at(t, pos, "Expected a value before the operator")),
    };
    match default_type(&first) {
        Type::U(_) | Type::I(_) | Type::Bool => {},
        _ => gentle_at(b, t, pos, "Unsupported type"),
    }
    let mut values: Vec<Value> = Vec::new();
    values.push(first);
    let mut promised: Vec<Operation> = Vec::new();
    let mut i = pos;
    while i < end
        invariant
            pos <= i <= end,
            end <= t@.len(),
            b.wf(),
            fuel > 0,
            i == pos ==> promised@.len() == 0,
            i > pos ==> promised@.len() > 0,
            simple == (simple_binary(t@, pos as int, end as int, old(out)@) && fuel > 2),
            v0 == old(out)@.last(),
            v1 == Value::Int(number_of(t@[pos + 1].value@, 0)->Some_0 as usize),
            op0 == op_of(t@[pos as int].value@)->Some_0,
            tree == Value::Expr(Box::new(v0), Box::new(v1), op0),
            simple ==> (i == pos && values@ == seq![v0]) || (i == end && values@ == seq![v0, v1] && promised@ == seq![op0]),
            out@ == old(out)@.drop_last(),
            pos < end && op_of(t@[pos as int].value@) is Some ==> (i > pos || promised@.len() == 0),
        ensures
            pos < end && op_of(t@[pos as int].value@) is Some ==> i > pos && promised@.len() > 0,
            i > pos ==> promised@.len() > 0,
            simple ==> i == end && values@ == seq![v0, v1] && promised@ == seq![op0],
            out@ == old(out)@.drop_last(),
            simple == (simple_binary(t@, pos as int, end as int, old(out)@) && fuel > 2),
            v0 == old(out)@.last(),
            v1 == Value::Int(number_of(t@[pos + 1].value@, 0)->Some_0 as usize),
            op0 == op_of(t@[pos as int].value@)->Some_0,
            tree == Value::Expr(Box::new(v0), Box::new(v1), op0),
        decreases end - i,
    {
        let op = match get_op(&t[i]) {
            Some(op) => op,
            None => break,
        };
        let ghost vals0 = values@;
        proof {
            if simple {
                assert(i == pos);
                assert(vals0 == seq![v0]);
                assert(op == op0);
                assert(number_of(t@[i + 1].value@, 0) is Some);
            }
        }
        let a = value(t, i + 1, end, &mut values, b, fuel - 1)?;
        proof {
            if simple {
                assert(a == end);
                assert(values@ == vals0.push(v1));
            }
        }
        let c = value_loop(t, a, end, &mut values, b, fuel - 1, true)?;
        proof {
            if simple {
                assert(c == end);
                assert(values@ == vals0.push(v1));
            }
        }
        i = advance(i, c, end);
        promised.push(op);
        proof {
            if simple {
                assert(values@ =~= seq![v0, v1]);
                assert(promised@ =~= seq![op0]);
            }
        }
    }
    proof {
        if simple {
            let vs = seq![v0, v1];
            assert(crate::check::extract_spec(v0) is None);
            assert(crate::check::extract_spec(v1) is None);
            assert(vs.drop_first() =~= seq![v1]);
            assert(seq![v1].drop_first() =~= Seq::<Value>::empty());
            assert(crate::check::first_extract(Seq::<Value>::empty()) is None);
            assert(crate::check::first_extract(seq![v1]) is None);
            assert(crate::check::first_extract(vs) is None);
            assert(crate::check::default_spec(v0) == TypeV::I(32));
            assert(crate::check::check_spec(TypeV::I(32), v0));
            assert(crate::check::check_spec(TypeV::I(32), v1));
            assert(vs.drop_last() =~= seq![v0]);
            assert(seq![v0].drop_last() =~= Seq::<Value>::empty());
            assert(crate::check::all_fit(TypeV::I(32), Seq::<Value>::empty()));
            assert(seq![v0][0] == v0);
            assert(crate::check::all_fit(TypeV::I(32), seq![v0]));
            assert(crate::check::all_fit(TypeV::I(32), vs));
        }
    }
    if crate::check::extract_types_move(&values).is_none() {
        return Err(fatal_at(t, pos, "Heterogeneous types"));
    }
    if values.len() == 0 || values.len() - 1 != promised.len() {
        return Err(fatal_at(t, pos, "Failed parsing binary expression"));
    }
    let mut current_prec: u8 = 0;
    let mut j: usize = 0;
    let ghost had_op = promised@.len() > 0;
    while promised.len() > 0
        invariant
            had_op ==> (promised@.len() == 0 ==> values@[0] is Expr),
            simple == (simple_binary(t@, pos as int, end as int, old(out)@) && fuel > 2),
            v0 == old(out)@.last(),
            v1 == Value::Int(number_of(t@[pos + 1].value@, 0)->Some_0 as usize),
            op0 == op_of(t@[pos as int].value@)->Some_0,
            tree == Value::Expr(Box::new(v0), Box::new(v1), op0),
            simple ==> (promised@ == seq![op0] && values@ == seq![v0, v1]) || (promised@.len() == 0 && values@ == seq![tree]),
            out@ == old(out)@.drop_last(),
            had_op || promised@.len() == 0,
            values@.len() == promised@.len() + 1,
            current_prec <= 3,
            j <= promised@.len(),
            forall|k: int| 0 <= k < promised@.len() ==> precedence_of(#[trigger] promised@[k]) >= current_prec,
            forall|k: int| 0 <= k < j ==> precedence_of(#[trigger] promised@[k]) != current_prec,
            b.wf(),
        decreases promised@.len(), 3 - current_prec, promised@.len() - j,
    {
        if j >= promised.len() {
            proof {
                assert(precedence_of(promised@[0]) > current_prec);
                assert(precedence_of(promised@[0]) <= 3);
                assert forall|k: int| 0 <= k < promised@.len() implies precedence_of(#[trigger] promised@[k]) >= current_prec + 1 by {
                    assert(precedence_of(promised@[k]) != current_prec);
                }
            }
            j = 0;
            current_prec = current_prec + 1;
        }
        if precedence(&promised[j]) == current_prec {
            let ghost before = promised@;
            let lhs = values.remove(j);
            let rhs = values.remove(j);
            let op = promised.remove(j);
            assert(forall|k: int| 0 <= k < j ==> promised@[k] == before[k]);
            assert(forall|k: int| j <= k < promised@.len() ==> promised@[k] == before[k + 1]);
            if is_branch(&op) && !(Type::Bool.check(&lhs) && Type::Bool.check(&rhs)) {
                return Err(fatal_at(t, pos, "'&&' and '||' accepts only boolean-typed values"));
            }
            values.insert(j, Value::Expr(Box::new(lhs), Box::new(rhs), op));
            proof {
                if simple {
                    assert(values@ =~= seq![tree]);
                }
            }
            continue;
        }
        j = j + 1;
    }
    let v = values.pop().unwrap();
    assert(had_op ==> v is Expr);
    out.push(v);
    Ok(i)
}

/// Whether a value denotes storage that may be written.
pub fn lvalue_mutable(b: &Bindings, x: &Value) -> (r: bool)
    requires
        b.wf(),
{
    match x {
        Value::Get(name, _) => match resolve_name(b, name) {
            Some((_, Bind::Let(_, m))) => m,
            _ => false,
        },
        Value::LoadFromPtr(p, _) => match &**p {
            Value::LoadAddress(_, _, _, m) => *m,
            _ => Type::Ptr(None, true).check(&**p),
        },
        _ => false,
    }
}

/// The address of a value, as `&` or `&mut` takes it.
pub fn take_pointer(t: &Vec<Token>, pos: usize, b: &Bindings, mutable: bool, val: Value) -> (r: Result<Value, Diagnostic>)
    requires
        b.wf(),
{
    match val {
        Value::Get(name, ty) => {
            if mutable {
                match resolve_name(b, &name) {
                    Some((_, Bind::Let(_, true))) => Ok(Value::Ptr(Box::new(Value::Get(name, ty)), true)),
                    _ => Err(fatal_at(t, pos, "Cannot take mutable address to immutable data")),
                }
            } else {
                Ok(Value::Ptr(Box::new(Value::Get(name, ty)), false))
            }
        },
        Value::LoadFromPtr(x, _) => {
            if mutable {
                if !Type::Ptr(None, true).check(&*x) {
                    return Err(fatal_at(t, pos, "Cannot take mutable address to immutable data"));
                }
                Ok(*x)
            } else {
                match *x {
                    Value::LoadAddress(a, i, c, true) => Ok(Value::LoadAddress(a, i, c, false)),
                    Value::Ptr(a, true) => Ok(Value::Ptr(a, false)),
                    other => Ok(other),
                }
            }
        },
        other => Ok(Value::Ptr(Box::new(other), mutable)),
    }
}

/// Prefix operators: negation, logical not and taking an address.
pub fn unary(t: &Vec<Token>, pos: usize, end: usize, out: &mut Vec<Value>, b: &mut Bindings, fuel: usize) -> (r: Result<usize, Diagnostic>)
    requires
        end <= t@.len(),
        pos < end,
        old(b).wf(),
    ensures
        final(b).wf(),
    decreases fuel,
{
    if fuel == 0 {
        return Err(fatal_at(t, pos, "Program is nested too deeply"));
    }
    let mut off = pos + 1;
    let tv = &t[pos].value;
    if text_is(tv, "-") {
        let val = match next_one_value(&mut off, t, end, b, fuel - 1)? {
            Some(v) => v,
            None => {
                gentle_at(b, t, pos, "Expected value for NEG operation");
                return Ok(off);
            },
        };
        match val {
            Value::Int(x) => {
                if x > isize::MAX as usize {
                    return Err(fatal_at(t, pos, "Integer literal is too large"));
                }
                out.push(Value::SInt(-(x as isize)));
            },
            other => out.push(Value::Unary(Operation::Sub, Box::new(other))),
        }
    } else if text_is(tv, "!") {
        let val = match next_one_value(&mut off, t, end, b, fuel - 1)? {
            Some(v) => v,
            None => {
                gentle_at(b, t, pos, "Expected value for NOT operation");
                return Ok(off);
            },
        };
        out.push(Value::Unary(Operation::Not, Box::new(val)));
    } else if text_is(tv, "&") {
        let mutable = next_mutable_flag(&mut off, t, end);
        let val = match next_one_value(&mut off, t, end, b, fuel - 1)? {
            Some(v) => v,
            None => {
                gentle_at(b, t, pos, "Expected value to get address from");
                return Ok(off);
            },
        };
        out.push(take_pointer(t, pos, b, mutable, val)?);
    } else {
        return Err(fatal_at(t, pos, "This operation is not allowed here"));
    }
    Ok(off)
}

/// An array literal `[a, b, ...]`.
pub fn array(t: &Vec<Token>, pos: usize, end: usize, out: &mut Vec<Value>, b: &mut Bindings, fuel: usize) -> (r: Result<usize, Diagnostic>)
    requires
        end <= t@.len(),
        pos <= end,
        old(b).wf(),
    ensures
        final(b).wf(),
    decreases fuel,
{
    if fuel == 0 {
        return Err(fatal_at(t, pos, "Program is nested too deeply"));
    }
    let mut off = pos;
    let (lo, hi) = next_body(&mut off, t, end, "[", "]")?;
    let saved = b.push_context(Context::Array);
    let body = parse(t, lo, hi, b, fuel - 1)?;
    b.pop_context(saved);
    out.push(Value::Array(body));
    Ok(off)
}

/// Whether an `if` node has an `else` block and both blocks end by returning.
pub open spec fn both_return(v: Value) -> bool {
    match v {
        Value::If { body, else_then: Some(e), .. } => returns_spec(body@) && match *e {
            Value::Else(eb) => returns_spec(eb@),
            _ => false,
        },
        _ => false,
    }
}

/// `if condition { ... }`, optionally followed by `else` and a block or another `if`.
/// When every branch ends by returning, a return marker follows and the rest of the
/// block, which cannot run, is skipped.
pub fn if_stmt(t: &Vec<Token>, pos: usize, end: usize, out: &mut Vec<Value>, b: &mut Bindings, fuel: usize) -> (r: Result<usize, Diagnostic>)
    requires
        end <= t@.len(),
        pos < end,
        old(b).wf(),
    ensures
        final(b).wf(),
        r is Ok ==> final(out)@ == old(out)@
            || (final(out)@.len() == old(out)@.len() + 1 && final(out)@.drop_last() == old(out)@ && final(out)@.last() is If)
            || (final(out)@.len() == old(out)@.len() + 2 && final(out)@.take(old(out)@.len() as int) == old(out)@
                && final(out)@[old(out)@.len() as int] is If && final(out)@.last() is ReturnMark
                && r == Ok::<usize, Diagnostic>(end)),
        r is Ok && final(out)@.len() == old(out)@.len() + 2 ==> (final(out)@[old(out)@.len() as int] matches Value::If { body, .. }
            && returns_spec(body@)),
        r is Ok && final(out)@.len() == old(out)@.len() + 1 ==> !both_return(final(out)@.last()),
    decreases fuel,
{
    if fuel == 0 {
        return Err(fatal_at(t, pos, "Program is nested too deeply"));
    }
    let mut off = pos + 1;
    let start = off;
    let condition = match next_value(&mut off, t, end, b, fuel - 1)? {
        Some(v) => v,
        None => {
            gentle_at(b, t, off, "Expected expression");
            return Ok(off);
        },
    };
    check_strict(&Type::Bool, &condition, t, start, b);
    let (lo, hi) = next_body(&mut off, t, end, "{", "}")?;
    let mut else_then: Option<Box<Value>> = None;
    let mut it_returns = false;
    match next_token(&mut off, t, end, Some("else"), Some(TokenKind::Word)) {
        Some(e) => {
            let (np, eret) = else_stmt(t, e, end, out, b, fuel - 1)?;
            off = within(off, np, end);
            it_returns = eret;
            proof {
                match out@.last() {
                    Value::Else(eb) => assert(eret == returns_spec(eb@)),
                    _ => {},
                }
            }
            else_then = match out.pop() {
                Some(v) => Some(Box::new(v)),
                None => None,
            };
        },
        None => {},
    }
    let saved = b.push_context(Context::If);
    b.join_scope();
    let body = parse(t, lo, hi, b, fuel - 1)?;
    it_returns = it_returns && get_return(&body);
    let ghost o0 = out@;
    let ghost bv = body@;
    out.push(Value::If { condition: Box::new(condition), body, else_then });
    b.leave_scope();
    b.pop_context(saved);
    assert(out@.drop_last() == o0);
    if it_returns {
        out.push(Value::ReturnMark);
        assert(out@.take(o0.len() as int) =~= o0);
        assert(out@[o0.len() as int] is If);
        return Ok(end);
    }
    Ok(off)
}

/// The `else` branch at `pos`; tells whether every path through it returns.
pub fn else_stmt(t: &Vec<Token>, pos: usize, end: usize, out: &mut Vec<Value>, b: &mut Bindings, fuel: usize) -> (r: Result<(usize, bool), Diagnostic>)
    requires
        end <= t@.len(),
        pos < end,
        old(b).wf(),
    ensures
        final(b).wf(),
        r is Ok ==> final(out)@.len() == old(out)@.len() + 1 && final(out)@.drop_last() == old(out)@
            && (final(out)@.last() is If || final(out)@.last() is Else),
        r matches Ok((np, ret)) ==> (final(out)@.last() matches Value::Else(body) ==> ret == returns_spec(body@)),
    decreases fuel,
{
    if fuel == 0 {
        return Err(fatal_at(t, pos, "Program is nested too deeply"));
    }
    let mut off = pos + 1;
    match next_token(&mut off, t, end, Some("if"), Some(TokenKind::Word)) {
        Some(ip) => {
            let n0 = out.len();
            let np = if_stmt(t, ip, end, out, b, fuel - 1)?;
            let n = out.len();
            if n <= n0 {
                return Err(fatal_at(t, ip, "Malformed else branch"));
            }
            let is_if = match &out[n - 1] {
                Value::If { .. } => true,
                _ => false,
            };
            let is_mark = match &out[n - 1] {
                Value::ReturnMark => true,
                _ => false,
            };
            if is_if {
                Ok((np, false))
            } else if is_mark {
                out.pop();
                assert(out@ =~= old(out)@.push(out@.last()));
                Ok((np, true))
            } else {
                Err(fatal_at(t, ip, "Malformed else branch"))
            }
        },
        None => {
            let (lo, hi) = next_body(&mut off, t, end, "{", "}")?;
            b.join_scope();
            let body = parse(t, lo, hi, b, fuel - 1)?;
            let ret = get_return(&body);
            out.push(Value::Else(body));
            b.leave_scope();
            Ok((off, ret))
        },
    }
}

/// `loop { ... }`, optionally labelled with `@name` after the body.
pub fn loop_stmt(t: &Vec<Token>, pos: usize, end: usize, out: &mut Vec<Value>, b: &mut Bindings, fuel: usize) -> (r: Result<usize, Diagnostic>)
    requires
        end <= t@.len(),
        pos < end,
        old(b).wf(),
    ensures
        final(b).wf(),
    decreases fuel,
{
    if fuel == 0 {
        return Err(fatal_at(t, pos, "Program is nested too deeply"));
    }
    let mut off = pos + 1;
    let (lo, hi) = next_body(&mut off, t, end, "{", "}")?;
    let label = match next_token(&mut off, t, end, None, Some(TokenKind::LabelSymbol)) {
        Some(_) => match next_token(&mut off, t, end, None, Some(TokenKind::Word)) {
            Some(p) => {
                let l = t[p].value.clone();
                b.insert(l.clone(), Bind::Label);
                Some(l)
            },
            None => return Err(fatal_at(t, off, "Expected name of label")),
        },
        None => None,
    };
    let saved = b.push_context(Context::Loop);
    b.join_scope();
    let body = parse(t, lo, hi, b, fuel - 1)?;
    out.push(Value::Loop(body, label));
    b.leave_scope();
    b.pop_context(saved);
    Ok(off)
}

/// Whether a label or the innermost loop can be left: `break` takes the label that
/// follows it, or else the innermost loop.
pub fn break_stmt(t: &Vec<Token>, pos: usize, end: usize, out: &mut Vec<Value>, b: &mut Bindings) -> (r: Result<usize, Diagnostic>)
    requires
        end <= t@.len(),
        pos < end,
        old(b).wf(),
    ensures
        final(b).wf(),
        !(pos + 1 < end && t@[pos + 1].typ == TokenKind::Word) ==> (r is Ok <==> exists|i: int|
            0 <= i < old(b).contexts().len() && #[trigger] old(b).contexts()[i] is Loop),
        r is Ok ==> final(out)@.len() == old(out)@.len() + 1 && final(out)@.last() is Break,
{
    jump(t, pos, end, out, b, true)
}

/// `continue`, like `break`, with the label that follows it or the innermost loop.
pub fn continue_stmt(t: &Vec<Token>, pos: usize, end: usize, out: &mut Vec<Value>, b: &mut Bindings) -> (r: Result<usize, Diagnostic>)
    requires
        end <= t@.len(),
        pos < end,
        old(b).wf(),
    ensures
        final(b).wf(),
        !(pos + 1 < end && t@[pos + 1].typ == TokenKind::Word) ==> (r is Ok <==> exists|i: int|
            0 <= i < old(b).contexts().len() && #[trigger] old(b).contexts()[i] is Loop),
        r is Ok ==> final(out)@.len() == old(out)@.len() + 1 && final(out)@.last() is Continue,
{
    jump(t, pos, end, out, b, false)
}

fn jump(t: &Vec<Token>, pos: usize, end: usize, out: &mut Vec<Value>, b: &mut Bindings, is_break: bool) -> (r: Result<usize, Diagnostic>)
    requires
        end <= t@.len(),
        pos < end,
        old(b).wf(),
    ensures
        final(b).wf(),
        !(pos + 1 < end && t@[pos + 1].typ == TokenKind::Word) ==> (r is Ok <==> exists|i: int|
            0 <= i < old(b).contexts().len() && #[trigger] old(b).contexts()[i] is Loop),
        r is Ok ==> final(out)@.len() == old(out)@.len() + 1 && (if is_break {
            final(out)@.last() is Break
        } else {
            final(out)@.last() is Continue
        }),
{
    let label = if pos + 1 < end && t[pos + 1].typ == TokenKind::Word {
        let name = &t[pos + 1].value;
        match b.get(name) {
            Some(Bind::Label) => Some(name.clone()),
            _ => return Err(fatal_at(t, pos + 1, "There's no label with this name")),
        }
    } else if b.in_loop() {
        None
    } else {
        return Err(fatal_at(t, pos, if is_break {
            "Using 'break' is allowed only in loops"
        } else {
            "Using 'continue' is allowed only in loops"
        }));
    };
    out.push(if is_break { Value::Break(label) } else { Value::Continue(label) });
    Ok(end)
}

/// Parameters `[mut] name type, ...` in `lo..hi`.
pub fn parse_args(t: &Vec<Token>, lo: usize, hi: usize, b: &Bindings) -> (r: Result<Vec<Arg>, Diagnostic>)
    requires
        hi <= t@.len(),
        lo <= hi,
        b.wf(),
    ensures
        lo == hi ==> (r matches Ok(a) && a@.len() == 0),
{
    let mut args: Vec<Arg> = Vec::new();
    if lo == hi {
        return Ok(args);
    }
    let mut last = lo;
    while last < hi
        invariant
            lo <= last <= hi,
            hi <= t@.len(),
            b.wf(),
        decreases hi - last,
    {
        let mutable = next_mutable_flag(&mut last, t, hi);
        match next_token(&mut last, t, hi, None, Some(TokenKind::Word)) {
            Some(p) => {
                let typ = match next_type(&mut last, t, hi, b)? {
                    Some(x) => x,
                    None => return Ok(args),
                };
                args.push(Arg { name: t[p].value.clone(), typ, mutable });
                ignore_separator(&mut last, t, hi);
            },
            None => break,
        }
    }
    Ok(args)
}

/// A parenthesised parameter list at `*off`, if there is one.
pub fn next_args(off: &mut usize, t: &Vec<Token>, end: usize, b: &Bindings) -> (r: Result<Vec<Arg>, Diagnostic>)
    requires
        end <= t@.len(),
        *old(off) <= end,
        b.wf(),
    ensures
        *old(off) <= *final(off) <= end,
        *old(off) + 1 < end && t@[*old(off) as int].value@ == "("@ && t@[*old(off) + 1].value@ == ")"@
            ==> (r matches Ok(a) && a@.len() == 0) && *final(off) == *old(off) + 2,
{
    proof {
        reveal_strlit("(");
        reveal_strlit(")");
        if *off + 1 < end && t@[*off as int].value@ == "("@ && t@[*off + 1].value@ == ")"@ {
            let tv = crate::simpler::views_of(t@);
            assert(tv[*off + 1] == t@[*off + 1]@);
            assert(")"@[0] == ')' && "("@[0] == '(');
            assert(tv[*off + 1].value != "("@);
            assert(crate::simpler::pair_close(tv, *off + 1, end as int, 1, "("@, ")"@) == Some(*off + 2));
            assert(pair_end(t@, *off as int, end as int, "("@, ")"@) == Some(*off + 2));
        }
    }
    match next_body_optional(off, t, end, "(", ")") {
        Some((lo, hi)) => parse_args(t, lo, hi, b),
        None => Ok(Vec::new()),
    }
}

/// The types of parameters, in order.
pub fn arg_types(args: &Vec<Arg>) -> (r: Vec<Type>)
    ensures
        r@.len() == args@.len(),
{
    let mut r: Vec<Type> = Vec::new();
    let mut i: usize = 0;
    while i < args.len()
        invariant
            i <= args@.len(),
            r@.len() == i,
        decreases args.len() - i,
    {
        r.push(args[i].typ.duplicate());
        i = i + 1;
    }
    r
}

/// Opens the scope of a function body: it holds the barrier that hides the enclosing
/// functions' variables and labels, and binds each parameter as a variable.
pub fn enter_fn_scope(b: &mut Bindings, args: &Vec<Arg>)
    requires
        old(b).wf(),
    ensures
        final(b).wf(),
        final(b).scopes().len() == old(b).scopes().len() + 1,
        final(b).scopes().drop_last() == old(b).scopes(),
        (forall|i: int| 0 <= i < args@.len() ==> args@[i].name@ != crate::bindings::barrier_name())
            ==> crate::bindings::has_barrier(final(b).scopes().last()),
        forall|i: int| 0 <= i < args@.len() ==> exists|j: int|
            0 <= j < final(b).scopes().last().entries().len()
                && final(b).scopes().last().entries()[j].0@ == (#[trigger] args@[i]).name@
                && final(b).scopes().last().entries()[j].1 is Let,
        final(b).contexts() == old(b).contexts(),
        final(b).prefix() == old(b).prefix(),
{
    b.join_scope();
    let ghost s0 = b.scopes();
    let bk = text("@barrier");
    let ghost bkg = bk;
    let ghost e0 = b.scopes().last().entries();
    let r0 = b.insert(bk, Bind::Mark);
    proof {
        crate::bindings::lemma_inserted_has(e0, b.scopes().last().entries(), bkg, Bind::Mark, r0);
        assert(b.scopes().drop_last() =~= s0.drop_last());
    }
    let mut i: usize = 0;
    while i < args.len()
        invariant
            i <= args@.len(),
            b.wf(),
            b.scopes().len() == old(b).scopes().len() + 1,
            b.scopes().drop_last() == old(b).scopes(),
            b.contexts() == old(b).contexts(),
            b.prefix() == old(b).prefix(),
            (forall|k: int| 0 <= k < i ==> args@[k].name@ != crate::bindings::barrier_name()) ==> exists|j: int|
                0 <= j < b.scopes().last().entries().len() && b.scopes().last().entries()[j].0@ == crate::bindings::barrier_name()
                    && b.scopes().last().entries()[j].1 is Mark,
            forall|k: int| 0 <= k < i ==> exists|j: int|
                0 <= j < b.scopes().last().entries().len()
                    && b.scopes().last().entries()[j].0@ == (#[trigger] args@[k]).name@
                    && b.scopes().last().entries()[j].1 is Let,
        decreases args.len() - i,
    {
        let ghost e1 = b.scopes().last().entries();
        let nm = args[i].name.clone();
        let ghost nmg = nm;
        let v2 = Bind::Let(args[i].typ.duplicate(), args[i].mutable);
        let ghost v2g = v2;
        let r1 = b.insert(nm, v2);
        proof {
            let e2 = b.scopes().last().entries();
            crate::bindings::lemma_inserted_has(e1, e2, nmg, v2g, r1);
            assert forall|k: int| 0 <= k < i + 1 implies exists|j: int|
                0 <= j < e2.len() && e2[j].0@ == (#[trigger] args@[k]).name@ && e2[j].1 is Let by {
                if k < i {
                    let j = choose|j: int| 0 <= j < e1.len() && e1[j].0@ == args@[k].name@ && e1[j].1 is Let;
                    if e1[j].0@ != nmg@ {
                        crate::bindings::lemma_inserted_keeps(e1, e2, nmg, v2g, r1, j);
                    }
                }
            }
            if forall|k: int| 0 <= k < i + 1 ==> args@[k].name@ != crate::bindings::barrier_name() {
                let j = choose|j: int| 0 <= j < e1.len() && e1[j].0@ == crate::bindings::barrier_name() && e1[j].1 is Mark;
                assert(args@[i as int].name@ != crate::bindings::barrier_name());
                crate::bindings::lemma_inserted_keeps(e1, e2, nmg, v2g, r1, j);
            }
        }
        i = i + 1;
    }
    proof {
        if forall|k: int| 0 <= k < args@.len() ==> args@[k].name@ != crate::bindings::barrier_name() {
            let j = choose|j: int| 0 <= j < b.scopes().last().entries().len()
                && b.scopes().last().entries()[j].0@ == crate::bindings::barrier_name() && b.scopes().last().entries()[j].1 is Mark;
            assert(crate::bindings::has_barrier(b.scopes().last()));
        }
    }
}

/// Parses a function body `lo..hi` in a fresh scope behind a barrier, with the
/// parameters bound; a body that can end without returning gets an implicit return
/// when the return type is `void`, `unreachable` when it is `!`, and otherwise an
/// error.
pub fn parse_fn(t: &Vec<Token>, tok: usize, lo: usize, hi: usize, b: &mut Bindings, args: &Vec<Arg>, ret: &Type, fuel: usize) -> (r: Result<Vec<Value>, Diagnostic>)
    requires
        hi <= t@.len(),
        lo <= hi,
        old(b).wf(),
    ensures
        final(b).wf(),
        r matches Ok(body) ==> ((ret@ is Void || ret@ is Noret) ==> returns_spec(body@)),
    decreases fuel,
{
    if fuel == 0 {
        return Err(fatal_at(t, lo, "Program is nested too deeply"));
    }
    let saved = b.push_context(Context::Fn(ret.duplicate()));
    enter_fn_scope(b, args);
    let mut body: Vec<Value> = Vec::new();
    parse_inplace(t, lo, hi, &mut body, b, fuel - 1)?;
    if get_return(&body) {
    } else {
        match ret {
            Type::Void => body.push(Value::Return(None, Type::Void)),
            Type::Noret => body.push(Value::Unreachable),
            _ => gentle_at(b, t, tok, "Function doesn't have 'return' instruction that will definitely happen"),
        }
    }
    b.leave_scope();
    b.pop_context(saved);
    Ok(body)
}

/// Whether `fn name() { ... }` stands at `pos`, its body closed before `end`.
pub open spec fn well_formed_fn(t: Seq<Token>, pos: int, end: int) -> bool {
    0 <= pos && pos + 4 < end && end <= t.len() && t[pos + 1].typ == TokenKind::Word && t[pos + 2].value@ == "("@
        && t[pos + 3].value@ == ")"@ && t[pos + 4].value@ == "{"@ && pair_end(t, pos + 4, end, "{"@, "}"@) is Some
}

/// A function declaration. Inside a function body it is an anonymous function, parsed
/// at once; elsewhere its signature is bound now and its body is promised, to be
/// parsed once the function is used (`main` is used from the start).
pub fn fn_decl(t: &Vec<Token>, pos: usize, end: usize, out: &mut Vec<Value>, b: &mut Bindings, fuel: usize, public: bool) -> (r: Result<usize, Diagnostic>)
    requires
        end <= t@.len(),
        pos < end,
        old(b).wf(),
    ensures
        final(b).wf(),
        r is Ok && (forall|i: int| 0 <= i < old(b).contexts().len() ==> !(#[trigger] old(b).contexts()[i] is Fn))
            ==> final(b).decl_slots().len() == old(b).decl_slots().len() + 1
                && final(b).decl_slots().last() is PromisedFunction
                && final(out)@ == old(out)@.push(Value::Declared(old(b).decl_slots().len() as usize)),
        r is Ok && (exists|i: int| 0 <= i < old(b).contexts().len() && #[trigger] old(b).contexts()[i] is Fn)
            ==> final(out)@.len() == old(out)@.len() + 1 && final(out)@.last() is AnonFunction,
        well_formed_fn(t@, pos as int, end as int) && fuel > 0
            && (forall|i: int| 0 <= i < old(b).contexts().len() ==> !(#[trigger] old(b).contexts()[i] is Fn))
            && (forall|j: int| 0 <= j < old(b).scopes()[0].entries().len()
                ==> old(b).scopes()[0].entries()[j].0@ != prefix_text(old(b).prefix()) + t@[pos + 1].value@)
            ==> r == Ok::<usize, Diagnostic>(pair_end(t@, pos + 4, end as int, "{"@, "}"@)->Some_0 as usize)
                && (final(b).decl_slots().last() matches Decl::PromisedFunction { name, args, span, ret, token, prefix }
                    && name@ == prefix_text(old(b).prefix()) + t@[pos + 1].value@ && args@.len() == 0
                    && span == ((pos + 5) as usize, (pair_end(t@, pos + 4, end as int, "{"@, "}"@)->Some_0 - 1) as usize)
                    && ret@ == TypeV::Void && token == pos)
                && (!public && old(b).prefix().len() == 0 ==> exists|j: int|
                    0 <= j < final(b).scopes().last().entries().len()
                    && final(b).scopes().last().entries()[j].0@ == t@[pos + 1].value@
                    && (final(b).scopes().last().entries()[j].1 matches Bind::Function(a, rt, Some(sl))
                        && a@.len() == 0 && rt@ == TypeV::Void && sl == old(b).decl_slots().len())),
    decreases fuel,
{
    if fuel == 0 {
        return Err(fatal_at(t, pos, "Program is nested too deeply"));
    }
    let mut off = pos + 1;
    if b.fn_return().is_some() {
        let args = next_args(&mut off, t, end, b)?;
        let ret = match next_type(&mut off, t, end, b)? {
            Some(x) => x,
            None => Type::Void,
        };
        let (lo, hi) = next_body(&mut off, t, end, "{", "}")?;
        let body = parse_fn(t, pos, lo, hi, b, &args, &ret, fuel - 1)?;
        out.push(Value::AnonFunction { args, body, ret });
        return Ok(off);
    }
    let lp = match next_token(&mut off, t, end, None, Some(TokenKind::Word)) {
        Some(p) => p,
        None => return Err(fatal_at(t, pos, "Expected name of function")),
    };
    let lname = t[lp].value.clone();
    let name = b.global_name(&lname);
    if b.get_at(0, &name).is_some() {
        return Err(fatal_at(t, lp, "Function name must be unique in current namespace"));
    }
    let args = next_args(&mut off, t, end, b)?;
    let ret = if off < end && text_is(&t[off].value, "{") {
        Type::Void
    } else {
        match next_type(&mut off, t, end, b)? {
            Some(x) => x,
            None => Type::Void,
        }
    };
    let (lo, hi) = match next_body_optional(&mut off, t, end, "{", "}") {
        Some(x) => x,
        None => return Err(fatal_at(t, off, "Expected function body, argument list enclosed in parentheses, or return type - got none of these")),
    };
    let argt = arg_types(&args);
    let prefix = b.prefix_copy();
    let in_namespace = prefix.len() > 0;
    let slot = b.add_decl(Decl::PromisedFunction { name: name.clone(), args, span: (lo, hi), ret: ret.duplicate(), token: pos, prefix });
    if public {
        b.global_insert(&lname, Bind::Function(argt, ret, Some(slot)));
    } else {
        if in_namespace {
            let mut hidden = text("@");
            push_str(&mut hidden, name.as_str());
            b.root_insert(hidden, Bind::Function(crate::types::duplicate_all(&argt), ret.duplicate(), Some(slot)));
        }
        let ghost s_before = b.scopes().last().entries();
        let nm = name.clone();
        let ghost nmg = nm;
        let ghost bf = Bind::Function(argt, ret, Some(slot));
        let ir1 = b.insert(nm, Bind::Function(argt, ret, Some(slot)));
        proof {
            crate::bindings::lemma_inserted_has(s_before, b.scopes().last().entries(), nmg, bf, ir1);
        }
        if !crate::text::same_text(&lname, &name) {
            b.insert(lname, Bind::Alias(name.clone()));
        }
    }
    if text_is(&name, "main") {
        b.push_function(slot);
    }
    out.push(Value::Declared(slot));
    Ok(off)
}

fn extern_name(off: &mut usize, t: &Vec<Token>, end: usize, b: &mut Bindings, out: &mut Vec<Value>, argt: Vec<Type>, ret: Type) -> (r: Result<(), Diagnostic>)
    requires
        end <= t@.len(),
        *old(off) <= end,
        old(b).wf(),
    ensures
        final(b).wf(),
        *old(off) <= *final(off) <= end,
        r is Ok ==> *old(off) < *final(off),
{
    let p = match next_token(off, t, end, None, Some(TokenKind::Word)) {
        Some(p) => p,
        None => return Err(fatal_at(t, *off, "Expected function name")),
    };
    let name = t[p].value.clone();
    match b.root_insert(name.clone(), Bind::Function(crate::types::duplicate_all(&argt), ret.duplicate(), None)) {
        Some(Bind::Function(_, _, _)) => return Err(fatal_at(t, p, "Function name in 'extern' must be unique in root namespace")),
        _ => {},
    }
    out.push(Value::Extern(name, argt, ret));
    Ok(())
}

/// `extern fn (args) ret name`, or a block of such signatures.
pub fn extrn(t: &Vec<Token>, pos: usize, end: usize, out: &mut Vec<Value>, b: &mut Bindings, fuel: usize) -> (r: Result<usize, Diagnostic>)
    requires
        end <= t@.len(),
        pos < end,
        old(b).wf(),
    ensures
        final(b).wf(),
{
    if b.fn_return().is_some() {
        return Err(fatal_at(t, pos, "'extern' is not allowed in other functions"));
    }
    let mut off = pos + 1;
    match next_body_optional(&mut off, t, end, "{", "}") {
        Some((lo, hi)) => {
            let mut soff = lo;
            while soff < hi
                invariant
                    lo <= soff <= hi,
                    hi <= end,
                    end <= t@.len(),
                    b.wf(),
                decreases hi - soff,
            {
                match next_type(&mut soff, t, hi, b)? {
                    Some(Type::Fn(argt, ret)) => extern_name(&mut soff, t, hi, b, out, argt, *ret)?,
                    _ => break,
                }
            }
        },
        None => {
            match next_type(&mut off, t, end, b)? {
                Some(Type::Fn(argt, ret)) => extern_name(&mut off, t, end, b, out, argt, *ret)?,
                _ => return Err(fatal_at(t, off, "There must be function type: 'fn (args) ret'")),
            }
        },
    }
    Ok(off)
}

/// `return [value]`, checked against the enclosing function's return type; the rest
/// of the block, which cannot run, is skipped.
pub fn return_stmt(t: &Vec<Token>, pos: usize, end: usize, out: &mut Vec<Value>, b: &mut Bindings, fuel: usize) -> (r: Result<usize, Diagnostic>)
    requires
        end <= t@.len(),
        pos < end,
        old(b).wf(),
    ensures
        final(b).wf(),
        r is Ok ==> final(out)@.len() == old(out)@.len() + 1 && final(out)@.last() is Return,
    decreases fuel,
{
    if fuel == 0 {
        return Err(fatal_at(t, pos, "Program is nested too deeply"));
    }
    let mut tmp: Vec<Value> = Vec::new();
    if pos + 1 < end {
        value_lookaround(t, pos + 1, end, &mut tmp, b, fuel - 1)?;
    }
    let value = tmp.pop();
    let rt = match b.fn_return() {
        Some(x) => x.duplicate(),
        None => return Err(fatal_at(t, pos, "Out-of-function return")),
    };
    match &value {
        Some(v) => check_strict(&rt, v, t, pos + 1, b),
        None => {
            match rt {
                Type::Void => {},
                _ => {
                    let mut m = text("Expected `");
                    rt.write_display(&mut m);
                    push_str(&mut m, "`, got nothing");
                    return Err(fatal_at(t, pos, m.as_str()));
                },
            }
        },
    }
    let value = match value {
        Some(v) => Some(Box::new(v)),
        None => None,
    };
    out.push(Value::Return(value, rt));
    Ok(end)
}

/// Whether a type can take part in a cast: integers and booleans.
pub fn castable(t: &Type) -> (r: bool)
    ensures
        r == (t@ is I || t@ is U || t@ is Bool),
{
    match t {
        Type::I(_) | Type::U(_) | Type::Bool => true,
        _ => false,
    }
}

/// `value as type`, the value being the last of `out`.
pub fn typecast(t: &Vec<Token>, pos: usize, end: usize, out: &mut Vec<Value>, b: &mut Bindings) -> (r: Result<usize, Diagnostic>)
    requires
        end <= t@.len(),
        pos < end,
        old(b).wf(),
    ensures
        final(b).wf(),
        r matches Ok(np) ==> pos < np <= end,
        r is Ok ==> final(out)@.len() == old(out)@.len() && final(out)@.last() is Typecast,
{
    let mut off = pos + 1;
    let to = match next_type(&mut off, t, end, b)? {
        Some(x) => x,
        None => return Err(fatal_at(t, off, "Expected type")),
    };
    let value = match out.pop() {
        Some(v) => v,
        None => return Err(fatal_at(t, pos, "Typecast operation requires value on left side")),
    };
    let from = match extract_type(&value) {
        Some(x) => x,
        None => {
            if to.check(&value) {
                to.duplicate()
            } else {
                return Err(fatal_at(t, pos, "Cannot tell the type of the value to cast"));
            }
        },
    };
    if castable(&from) && castable(&to) {
        out.push(Value::Typecast(Box::new(value), from, to));
        Ok(off)
    } else {
        Err(fatal_at(t, pos + 1, "Typecast only available for primitive number-types"))
    }
}

/// `struct Name { field type, ... }`: the name is bound now and the fields are
/// promised, to be parsed once every declaration has been seen.
pub fn struct_decl(t: &Vec<Token>, pos: usize, end: usize, out: &mut Vec<Value>, b: &mut Bindings) -> (r: Result<usize, Diagnostic>)
    requires
        end <= t@.len(),
        pos < end,
        old(b).wf(),
    ensures
        final(b).wf(),
{
    let mut off = pos + 1;
    let np = match next_token(&mut off, t, end, None, Some(TokenKind::Word)) {
        Some(p) => p,
        None => return Err(fatal_at(t, pos, "Struct must have name")),
    };
    let name = t[np].value.clone();
    let gname = b.global_name(&name);
    match next_body_optional(&mut off, t, end, "{", "}") {
        None => {
            let slot = b.add_decl(Decl::Struct { name: gname, kv: InsordMap::new(), alignment: 1, size: 1 });
            b.global_insert(&name, Bind::Type(Some(slot)));
            out.push(Value::Declared(slot));
        },
        Some((lo, hi)) => {
            let prefix = b.prefix_copy();
            let slot = b.add_decl(Decl::PromisedStruct { name: gname, span: (lo, hi), prefix });
            b.global_insert(&name, Bind::Type(Some(slot)));
            b.push_type(slot);
            out.push(Value::Declared(slot));
        },
    }
    Ok(off)
}

/// Layouts of the structs resolved so far.
pub fn struct_layouts(b: &Bindings) -> (r: Vec<StructLayout>) {
    let mut r: Vec<StructLayout> = Vec::new();
    let n = b.decl_count();
    let mut i: usize = 0;
    while i < n
        invariant
            i <= n,
            n == b.decl_slots().len(),
        decreases n - i,
    {
        match b.decl(i) {
            Decl::Struct { name, alignment, size, .. } => {
                r.push(StructLayout { name: name.clone(), alignment: *alignment, size: *size });
            },
            _ => {},
        }
        i = i + 1;
    }
    r
}

/// Copies of strings.
pub fn copy_strings(v: &Vec<String>) -> (r: Vec<String>) {
    let mut r: Vec<String> = Vec::new();
    let mut i: usize = 0;
    while i < v.len()
        invariant
            i <= v@.len(),
        decreases v.len() - i,
    {
        r.push(v[i].clone());
        i = i + 1;
    }
    r
}

/// The fields of a struct body `t[i..hi]` of the form `name type [,] ...` whose types are
/// single-word scalar types, in order; none for any other body.
pub open spec fn scalar_fields(t: Seq<Token>, i: int, hi: int, pb: nat) -> Option<Seq<(Seq<char>, TypeV)>>
    decreases hi - i,
{
    if i < 0 || hi > t.len() || i >= hi {
        Some(Seq::empty())
    } else if t[i].typ == TokenKind::Word && i + 1 < hi && crate::parse_types::word_type(t[i + 1].value@, pb) is Some
        && crate::types::is_scalar(crate::parse_types::word_type(t[i + 1].value@, pb)->Some_0)
        && (i + 2 == hi || (t[i + 2].value@ != "["@ && t[i + 2].value@ != "<"@)) {
        let next = if i + 2 < hi && t[i + 2].typ == TokenKind::Punctuation { i + 3 } else { i + 2 };
        match scalar_fields(t, next, hi, pb) {
            Some(rest) => Some(seq![(t[i].value@, crate::parse_types::word_type(t[i + 1].value@, pb)->Some_0)] + rest),
            None => None,
        }
    } else {
        None
    }
}

/// Whether the first field of the body at `lo` has as its type a struct whose
/// declaration is being resolved, held by value.
pub open spec fn first_field_taken(t: Seq<Token>, lo: int, hi: int, b: Bindings) -> bool {
    lo + 1 < hi && t[lo].typ == TokenKind::Word && crate::parse_types::struct_name_at(t, lo + 1, hi, b)
        && match crate::bindings::lookup(b.scopes(), t[lo + 1].value@) {
            Some(lp) => match b.scopes()[lp.0].entries()[lp.1].1 {
                Bind::Type(Some(sl)) => sl < b.decl_slots().len() && b.decl_slots()[sl as int] is Taken,
                _ => false,
            },
            None => false,
        }
}

/// The layout of a struct with the given fields.
pub open spec fn fields_layout(fs: Seq<(Seq<char>, TypeV)>, pb: nat) -> Option<(nat, nat)> {
    crate::types::struct_layout_of(fs.map_values(|f: (Seq<char>, TypeV)| f.1), pb, Seq::empty())
}

proof fn lemma_scalar_fields_scalar(t: Seq<Token>, i: int, hi: int, pb: nat)
    ensures
        scalar_fields(t, i, hi, pb) matches Some(fs) ==> forall|k: int| 0 <= k < fs.len() ==> crate::types::is_scalar(#[trigger] fs[k].1),
    decreases hi - i,
{
    if !(i < 0 || hi > t.len() || i + 1 >= hi) {
        let next = if i + 2 < hi && t[i + 2].typ == TokenKind::Punctuation { i + 3 } else { i + 2 };
        lemma_scalar_fields_scalar(t, next, hi, pb);
        match scalar_fields(t, i, hi, pb) {
            Some(fs) => {
                let rest = scalar_fields(t, next, hi, pb)->Some_0;
                assert forall|k: int| 0 <= k < fs.len() implies crate::types::is_scalar(#[trigger] fs[k].1) by {
                    if k > 0 {
                        assert(fs[k] == rest[k - 1]);
                    }
                }
            },
            None => {},
        }
    }
}

/// Whether no field name occurs twice.
pub open spec fn names_distinct(fs: Seq<(Seq<char>, TypeV)>) -> bool {
    forall|i: int, j: int| 0 <= i < j < fs.len() ==> fs[i].0 != fs[j].0
}

/// Field names and types of entries.
pub open spec fn entries_view(e: Seq<(String, Type)>) -> Seq<(Seq<char>, TypeV)> {
    e.map_values(|x: (String, Type)| (x.0@, x.1@))
}

/// Parses the fields `lo..hi` of struct `name`, inside the namespace path it was
/// declared in, and computes its layout. A field whose struct type contains the struct
/// being resolved, directly or through other structs' fields, is an error: the type
/// would have infinite size. Pointers break such cycles.
pub fn parse_struct(t: &Vec<Token>, name: String, lo: usize, hi: usize, prefix: &Vec<String>, b: &mut Bindings, fuel: usize) -> (r: Result<Decl, Diagnostic>)
    requires
        hi <= t@.len(),
        lo <= hi,
        old(b).wf(),
    ensures
        final(b).wf(),
        r matches Ok(d) ==> d is Struct,
        r matches Ok(Decl::Struct { name: n, kv, alignment, size }) ==> n@ == name@ && kv.wf() && exists|ls: Seq<StructLayout>|
            crate::types::struct_layout_of(crate::codegen::field_types(kv.entries()), final(b).ptr_bits() as nat, ls)
                == Some((alignment as nat, size as nat)),
        final(b).functions_queue() == old(b).functions_queue(),
        final(b).ptr_bits() == old(b).ptr_bits(),
        scalar_fields(t@, lo as int, hi as int, old(b).ptr_bits() as nat) matches Some(fs) ==> (names_distinct(fs) && fuel > 0
            ==> (r matches Ok(Decl::Struct { kv, .. }) ==> entries_view(kv.entries()) == fs)),
        first_field_taken(t@, lo as int, hi as int, *old(b)) && fuel > 1 ==> r is Err,
        scalar_fields(t@, lo as int, hi as int, old(b).ptr_bits() as nat) matches Some(fs) ==> (names_distinct(fs) && fuel > 0
            && fields_layout(fs, old(b).ptr_bits() as nat) is Some
            && fields_layout(fs, old(b).ptr_bits() as nat)->Some_0.1 <= usize::MAX
            ==> (r matches Ok(Decl::Struct { kv, alignment, size, .. }) && entries_view(kv.entries()) == fs
                && alignment as nat == fields_layout(fs, old(b).ptr_bits() as nat)->Some_0.0
                && size as nat == fields_layout(fs, old(b).ptr_bits() as nat)->Some_0.1)),
    decreases fuel,
{
    if fuel == 0 {
        return Err(fatal_at(t, lo, "Types are nested too deeply"));
    }
    let ghost pb = b.ptr_bits() as nat;
    let ghost all = scalar_fields(t@, lo as int, hi as int, pb)->Some_0;
    let ghost hyp = scalar_fields(t@, lo as int, hi as int, pb) is Some && names_distinct(all);
    let ghost mut done = Seq::<(Seq<char>, TypeV)>::empty();
    let ghost taken = first_field_taken(t@, lo as int, hi as int, *old(b)) && fuel > 1;
    let saved = b.switch_prefix(copy_strings(prefix));
    let mut kv: InsordMap<Type> = InsordMap::new();
    let mut off = lo;
    while off < hi
        invariant
            lo <= off <= hi,
            hi <= t@.len(),
            b.wf(),
            kv.wf(),
            fuel > 0,
            b.functions_queue() == old(b).functions_queue(),
            b.ptr_bits() == old(b).ptr_bits(),
            pb == b.ptr_bits() as nat,
            all == scalar_fields(t@, lo as int, hi as int, pb)->Some_0,
            hyp == (scalar_fields(t@, lo as int, hi as int, pb) is Some && names_distinct(all)),
            taken == (first_field_taken(t@, lo as int, hi as int, *old(b)) && fuel > 1),
            off == lo ==> b.scopes() == old(b).scopes() && b.decl_slots() == old(b).decl_slots(),
            taken ==> off == lo,
            hyp ==> (scalar_fields(t@, off as int, hi as int, pb) is Some
                && all == done + scalar_fields(t@, off as int, hi as int, pb)->Some_0
                && entries_view(kv.entries()) == done),
        ensures
            !taken,
            hyp ==> entries_view(kv.entries()) == all,
            all == scalar_fields(t@, lo as int, hi as int, pb)->Some_0,
            hyp == (scalar_fields(t@, lo as int, hi as int, pb) is Some && names_distinct(all)),
            pb == b.ptr_bits() as nat,
            lo <= off <= hi,
            b.wf(),
            kv.wf(),
            b.functions_queue() == old(b).functions_queue(),
            b.ptr_bits() == old(b).ptr_bits(),
        decreases hi - off,
    {
        let ghost off0 = off;
        let kp = match next_token(&mut off, t, hi, None, Some(TokenKind::Word)) {
            Some(p) => p,
            None => {
                proof {
                    if hyp {
                        assert(false);
                    }
                }
                break;
            },
        };
        let key = t[kp].value.clone();
        proof {
            if hyp {
                assert(kp == off0);
                assert(t@[off0 as int].typ == TokenKind::Word && off0 + 1 < hi
                    && crate::parse_types::word_type(t@[off0 + 1].value@, pb) is Some
                    && (off0 + 2 == hi || (t@[off0 + 2].value@ != "["@ && t@[off0 + 2].value@ != "<"@)));
            }
        }
        let ghost offc = off;
        proof {
            if hyp {
                assert(offc == off0 + 1);
                assert(crate::parse_types::word_type(t@[offc as int].value@, b.ptr_bits() as nat) is Some);
            }
        }
        proof {
            if taken {
                assert(crate::parse_types::struct_name_at(t@, offc as int, hi as int, *b));
            }
        }
        let ty_r = next_type(&mut off, t, hi, b);
        proof {
            if hyp {
                assert(ty_r matches Ok(Some(_)));
            }
        }
        match ty_r? {
            Some(ty) => {
                match &ty {
                    Type::Struct(l) => {
                        match resolve_name(b, l) {
                            Some((_, Bind::Type(Some(slot)))) => validate_struct(t, slot, b, &name, l, kp, fuel - 1)?,
                            _ => {},
                        }
                    },
                    _ => {},
                }
                let ghost e0 = kv.entries();
                let ghost kg = key@;
                let ghost tg = ty@;
                let ghost f = (kg, tg);
                kv.insert(key, ty);
                ignore_separator(&mut off, t, hi);
                proof {
                    if hyp {
                        let rest0 = scalar_fields(t@, off0 as int, hi as int, pb)->Some_0;
                        assert(rest0 == seq![f] + scalar_fields(t@, off as int, hi as int, pb)->Some_0);
                        assert(all[done.len() as int] == f);
                        assert(names_distinct(all));
                        assert forall|q: int| 0 <= q < e0.len() implies e0[q].0@ != kg by {
                            assert(entries_view(e0)[q] == done[q]);
                            assert(all[q] == done[q]);
                            assert(all[q].0 != all[done.len() as int].0);
                        }
                        assert(entries_view(kv.entries()) =~= done.push(f));
                        done = done.push(f);
                        assert(all =~= done + scalar_fields(t@, off as int, hi as int, pb)->Some_0);
                    }
                }
            },
            None => return Err(fatal_at(t, kp, "Expected type after field")),
        }
    }
    proof {
        if hyp {
            assert(all =~= done);
        }
    }
    let layouts = struct_layouts(b);
    let mut fields: Vec<Type> = Vec::new();
    let mut i: usize = 0;
    while i < kv.len()
        invariant
            i <= kv.entries().len(),
            fields@.len() == i,
            forall|k: int| 0 <= k < i ==> #[trigger] fields@[k]@ == kv.entries()[k].1@,
        decreases kv.entries().len() - i,
    {
        fields.push(kv.values(i).duplicate());
        i = i + 1;
    }
    proof {
        crate::types::lemma_views(fields@);
        assert(crate::types::views(fields@) =~= crate::codegen::field_types(kv.entries()));
    }
    let pb = b.target_ptr_bits();
    proof {
        if hyp {
            lemma_scalar_fields_scalar(t@, lo as int, hi as int, pb as nat);
            let tys = all.map_values(|f: (Seq<char>, TypeV)| f.1);
            assert(crate::codegen::field_types(kv.entries()) =~= tys) by {
                assert forall|k: int| 0 <= k < tys.len() implies crate::codegen::field_types(kv.entries())[k] == tys[k] by {
                    assert(entries_view(kv.entries())[k] == all[k]);
                }
            }
            assert forall|k: int| 0 <= k < tys.len() implies crate::types::is_scalar(#[trigger] tys[k]) by {
                assert(tys[k] == all[k].1);
            }
            crate::types::lemma_scalar_layout_indep(tys, pb as nat, layouts@);
        }
    }
    let (alignment, size) = match crate::types::struct_layout(&fields, pb, &layouts) {
        Some(p) => p,
        None => return Err(fatal_at(t, lo, "Struct has no fixed size")),
    };
    b.switch_prefix(saved);
    let ghost nm = name;
    let d = Decl::Struct { name, kv, alignment, size };
    assert(crate::types::struct_layout_of(crate::codegen::field_types(kv.entries()), b.ptr_bits() as nat, layouts@)
        == Some((alignment as nat, size as nat)));
    Ok(d)
}

/// Resolves the struct in `slot` if it is still promised, and the structs its fields
/// contain by value, failing when one of them is being resolved already.
pub fn validate_struct(t: &Vec<Token>, slot: usize, b: &mut Bindings, from: &String, to: &String, tk: usize, fuel: usize) -> (r: Result<(), Diagnostic>)
    requires
        old(b).wf(),
    ensures
        final(b).wf(),
        fuel > 0 && slot < old(b).decl_slots().len() && old(b).decl_slots()[slot as int] is Taken ==> r is Err,
        final(b).functions_queue() == old(b).functions_queue(),
        final(b).ptr_bits() == old(b).ptr_bits(),
    decreases fuel,
{
    if fuel == 0 {
        return Err(fatal_at(t, tk, "Types are nested too deeply"));
    }
    if slot >= b.decl_count() {
        return Ok(());
    }
    let l = b.replace_decl(slot, Decl::Taken);
    let l = match l {
        Decl::PromisedStruct { name, span, prefix } => {
            if span.1 > t.len() || span.0 > span.1 {
                return Err(fatal_at(t, tk, "Malformed struct declaration"));
            }
            parse_struct(t, name, span.0, span.1, &prefix, b, fuel - 1)?
        },
        other => other,
    };
    match &l {
        Decl::Struct { kv, .. } => {
            let mut i: usize = 0;
            while i < kv.len()
                invariant
                    i <= kv.entries().len(),
                    b.wf(),
                    fuel > 0,
                    b.functions_queue() == old(b).functions_queue(),
                    b.ptr_bits() == old(b).ptr_bits(),
                decreases kv.entries().len() - i,
            {
                match kv.values(i) {
                    Type::Struct(n) => {
                        match resolve_name(b, n) {
                            Some((_, Bind::Type(Some(s2)))) => validate_struct(t, s2, b, from, to, tk, fuel - 1)?,
                            _ => {},
                        }
                    },
                    _ => {},
                }
                i = i + 1;
            }
        },
        _ => {
            let mut m = text("Recursive type has infinite size: ");
            push_str(&mut m, from.as_str());
            push_str(&mut m, " <-> ");
            push_str(&mut m, to.as_str());
            return Err(fatal_at(t, tk, m.as_str()));
        },
    }
    if slot < b.decl_count() {
        b.replace_decl(slot, l);
    }
    Ok(())
}

/// `Name { field value, ... }` for the struct in `slot`, its fields in `lo..hi`.
pub fn struct_init(t: &Vec<Token>, slot: usize, lo: usize, hi: usize, out: &mut Vec<Value>, b: &mut Bindings, fuel: usize) -> (r: Result<(), Diagnostic>)
    requires
        hi <= t@.len(),
        lo <= hi,
        old(b).wf(),
    ensures
        final(b).wf(),
    decreases fuel,
{
    if fuel == 0 {
        return Err(fatal_at(t, lo, "Program is nested too deeply"));
    }
    if slot >= b.decl_count() {
        return Err(fatal_at(t, lo, "Unknown struct"));
    }
    let d = b.replace_decl(slot, Decl::Taken);
    let d = match d {
        Decl::PromisedStruct { name, span, prefix } => {
            if span.1 > t.len() || span.0 > span.1 {
                return Err(fatal_at(t, lo, "Malformed struct declaration"));
            }
            parse_struct(t, name, span.0, span.1, &prefix, b, fuel - 1)?
        },
        other => other,
    };
    let mut fields: Vec<(String, Type)> = Vec::new();
    let sname = match &d {
        Decl::Struct { name, kv, .. } => {
            let mut i: usize = 0;
            while i < kv.len()
                invariant
                    i <= kv.entries().len(),
                decreases kv.entries().len() - i,
            {
                let (k, v) = kv.kv(i);
                fields.push((k.clone(), v.duplicate()));
                i = i + 1;
            }
            name.clone()
        },
        _ => return Err(fatal_at(t, lo, "Not a struct")),
    };
    if slot < b.decl_count() {
        b.replace_decl(slot, d);
    }
    let mut off = lo;
    let mut init: Vec<(String, Value)> = Vec::new();
    while off < hi
        invariant
            lo <= off <= hi,
            hi <= t@.len(),
            b.wf(),
            fuel > 0,
        decreases hi - off,
    {
        let kp = match next_token(&mut off, t, hi, None, Some(TokenKind::Word)) {
            Some(p) => p,
            None => break,
        };
        let key = t[kp].value.clone();
        let value = match next_value(&mut off, t, hi, b, fuel - 1)? {
            Some(v) => v,
            None => {
                gentle_at(b, t, off, "Expected value after key");
                return Ok(());
            },
        };
        let mut found = false;
        let mut i: usize = 0;
        while i < fields.len()
            invariant
                i <= fields@.len(),
                b.wf(),
            decreases fields.len() - i,
        {
            if crate::text::same_text(&fields[i].0, &key) {
                check_strict(&fields[i].1, &value, t, kp, b);
                found = true;
                break;
            }
            i = i + 1;
        }
        if !found {
            let mut m = text("There is no such field in type ");
            push_str(&mut m, sname.as_str());
            gentle_at(b, t, kp, m.as_str());
            return Ok(());
        }
        let mut j: usize = 0;
        while j < init.len()
            invariant
                j <= init@.len(),
                b.wf(),
            decreases init.len() - j,
        {
            if crate::text::same_text(&init[j].0, &key) {
                gentle_at(b, t, kp, "Field is initialized twice");
                break;
            }
            j = j + 1;
        }
        init.push((key, value));
        ignore_separator(&mut off, t, hi);
    }
    out.push(Value::StructInit(sname, init));
    Ok(())
}

/// `let [mut] name [type] [= value]`: the type, when absent, is the value's default
/// type. The name is bound after the value is parsed.
pub fn var(t: &Vec<Token>, pos: usize, end: usize, out: &mut Vec<Value>, b: &mut Bindings, fuel: usize) -> (r: Result<usize, Diagnostic>)
    requires
        end <= t@.len(),
        pos < end,
        old(b).wf(),
    ensures
        final(b).wf(),
        r is Ok ==> final(out)@.len() == old(out)@.len() + 1 && final(out)@.drop_last() == old(out)@
            && (final(out)@.last() matches Value::InitVar(n, ty, _) && exists|j: int|
                0 <= j < final(b).scopes().last().entries().len()
                && final(b).scopes().last().entries()[j].0@ == n@
                && (final(b).scopes().last().entries()[j].1 matches Bind::Let(bt, _) && bt@ == ty@)),
    decreases fuel,
{
    if fuel == 0 {
        return Err(fatal_at(t, pos, "Program is nested too deeply"));
    }
    let mut off = pos + 1;
    let mutable = next_mutable_flag(&mut off, t, end);
    let np = match next_token(&mut off, t, end, None, Some(TokenKind::Word)) {
        Some(p) => p,
        None => return Err(fatal_at(t, off, "Expected name of variable")),
    };
    let name = t[np].value.clone();
    let typ = next_type(&mut off, t, end, b)?;
    let value = match next_token(&mut off, t, end, Some("="), Some(TokenKind::Assign)) {
        Some(_) => {
            let vs = off;
            match next_value(&mut off, t, end, b, fuel - 1)? {
                Some(v) => Some(v),
                None => {
                    gentle_at(b, t, vs, "Expected value");
                    None
                },
            }
        },
        None => None,
    };
    let typ = match (typ, &value) {
        (Some(ty), Some(v)) => {
            check_strict(&ty, v, t, np, b);
            ty
        },
        (Some(ty), None) => ty,
        (None, Some(v)) => default_type(v),
        (None, None) => return Err(fatal_at(t, np, "Variable needs a type or a value")),
    };
    let ghost e0 = b.scopes().last().entries();
    let nc = name.clone();
    let ghost ncg = nc;
    let td = typ.duplicate();
    let ghost bl = Bind::Let(td, mutable);
    let ir1 = b.insert(nc, Bind::Let(td, mutable));
    proof {
        crate::bindings::lemma_inserted_has(e0, b.scopes().last().entries(), ncg, bl, ir1);
    }
    let value = match value {
        Some(v) => Some(Box::new(v)),
        None => None,
    };
    out.push(Value::InitVar(name, typ, value));
    Ok(off)
}

/// The operator of a compound assignment (`+=` and the like); none for `=`.
pub fn assign_op(s: &String) -> (r: Option<Operation>) {
    if text_is(s, "+=") { Some(Operation::Add) }
    else if text_is(s, "-=") { Some(Operation::Sub) }
    else if text_is(s, "*=") { Some(Operation::Mul) }
    else if text_is(s, "/=") { Some(Operation::Div) }
    else if text_is(s, "%=") { Some(Operation::Rem) }
    else { None }
}

/// An assignment at `pos` to the last value of `out`: a mutable variable, or storage
/// reached through a mutable pointer.
pub fn modify(t: &Vec<Token>, pos: usize, end: usize, out: &mut Vec<Value>, b: &mut Bindings, fuel: usize) -> (r: Result<usize, Diagnostic>)
    requires
        end <= t@.len(),
        pos < end,
        old(b).wf(),
    ensures
        final(b).wf(),
    decreases fuel,
{
    if fuel == 0 {
        return Err(fatal_at(t, pos, "Program is nested too deeply"));
    }
    let target = match out.pop() {
        Some(v) => v,
        None => {
            gentle_at(b, t, pos, ASSIGN_NOT_EXPECTED);
            return Ok(pos + 1);
        },
    };
    let op = assign_op(&t[pos].value);
    let mut off = pos + 1;
    let value = match next_value(&mut off, t, end, b, fuel - 1)? {
        Some(v) => v,
        None => {
            gentle_at(b, t, pos, "Expected value to assign");
            return Ok(off);
        },
    };
    let mutable = lvalue_mutable(b, &target);
    match target {
        Value::Get(name, ty) => {
            if !mutable {
                gentle_at(b, t, pos, "Cannot assign to an immutable variable");
            }
            let v = match op {
                Some(o) => Value::Expr(Box::new(Value::Get(name.clone(), ty.duplicate())), Box::new(value), o),
                None => value,
            };
            check_strict(&ty, &v, t, pos + 1, b);
            out.push(Value::ModifyVar(name, ty, Box::new(v)));
        },
        Value::LoadFromPtr(p, ty) => {
            if !mutable {
                gentle_at(b, t, pos, "Cannot assign through an immutable pointer");
            }
            if op.is_some() {
                gentle_at(b, t, pos, "Compound assignment through a pointer is not supported");
            }
            check_strict(&ty, &value, t, pos + 1, b);
            out.push(Value::ModifyByPointer(p, ty, Box::new(value)));
        },
        _ => gentle_at(b, t, pos, "Cannot assign to this value"),
    }
    Ok(off)
}

/// `namespace name { ... }`: the items inside are bound under `name::`.
pub fn namespace(t: &Vec<Token>, pos: usize, end: usize, out: &mut Vec<Value>, b: &mut Bindings, fuel: usize) -> (r: Result<usize, Diagnostic>)
    requires
        end <= t@.len(),
        pos < end,
        old(b).wf(),
    ensures
        final(b).wf(),
    decreases fuel,
{
    if fuel == 0 {
        return Err(fatal_at(t, pos, "Program is nested too deeply"));
    }
    let mut off = pos + 1;
    let np = match next_token(&mut off, t, end, None, Some(TokenKind::Word)) {
        Some(p) => p,
        None => return Err(fatal_at(t, pos, "Expected name of namespace")),
    };
    let name = t[np].value.clone();
    let (lo, hi) = next_body(&mut off, t, end, "{", "}")?;
    let q = b.global_name(&name);
    b.global_insert(&name, Bind::Namespace);
    b.push_global_prefix(name);
    b.join_scope();
    parse_inplace(t, lo, hi, out, b, fuel - 1)?;
    b.leave_scope();
    b.pop_global_prefix();
    out.push(Value::Namespace(q));
    Ok(off)
}

/// The part of a path after its last `::`.
pub fn last_segment(s: &String) -> (r: String) {
    let a = s.as_str();
    let n = vstd::string::StrSliceExecFns::unicode_len(a);
    let mut start: usize = 0;
    let mut i: usize = 0;
    while i < n
        invariant
            i <= n,
            start <= n,
            n == a@.len(),
        decreases n - i,
    {
        if i + 1 < n && vstd::string::StrSliceExecFns::get_char(a, i) == ':' && vstd::string::StrSliceExecFns::get_char(a, i + 1) == ':' {
            start = i + 2;
        }
        i = i + 1;
    }
    let mut r = String::new();
    let mut j = start;
    while j < n
        invariant
            start <= j <= n,
            n == a@.len(),
        decreases n - j,
    {
        crate::text::push_char(&mut r, vstd::string::StrSliceExecFns::get_char(a, j));
        j = j + 1;
    }
    r
}

/// `use path`: binds the path's last segment to what the path names.
pub fn use_decl(t: &Vec<Token>, pos: usize, end: usize, b: &mut Bindings) -> (r: Result<usize, Diagnostic>)
    requires
        end <= t@.len(),
        pos < end,
        old(b).wf(),
    ensures
        final(b).wf(),
{
    let mut off = pos + 1;
    let path = next_name(&mut off, t, end)?;
    match resolve_name(b, &path) {
        Some((q, _)) => {
            b.insert(last_segment(&path), Bind::Alias(q));
        },
        None => gentle_at(b, t, pos + 1, "Unknown path"),
    }
    Ok(off)
}

/// `pub` before a function, struct or namespace: the item is visible outside its
/// namespace.
pub fn pub_decl(t: &Vec<Token>, pos: usize, end: usize, out: &mut Vec<Value>, b: &mut Bindings, fuel: usize) -> (r: Result<usize, Diagnostic>)
    requires
        end <= t@.len(),
        pos < end,
        old(b).wf(),
    ensures
        final(b).wf(),
    decreases fuel,
{
    if fuel == 0 {
        return Err(fatal_at(t, pos, "Program is nested too deeply"));
    }
    if pos + 1 < end {
        let w = &t[pos + 1].value;
        if text_is(w, "fn") {
            return fn_decl(t, pos + 1, end, out, b, fuel - 1, true);
        } else if text_is(w, "struct") {
            return struct_decl(t, pos + 1, end, out, b);
        } else if text_is(w, "namespace") {
            return namespace(t, pos + 1, end, out, b, fuel - 1);
        }
    }
    Err(fatal_at(t, pos, "'pub' must precede a declaration"))
}

/// A name at `pos`: a variable, a function (then maybe called), a struct initializer,
/// or an unknown name, which is an error.
pub fn external_word(t: &Vec<Token>, pos: usize, end: usize, out: &mut Vec<Value>, b: &mut Bindings, fuel: usize) -> (r: Result<usize, Diagnostic>)
    requires
        end <= t@.len(),
        pos < end,
        old(b).wf(),
    ensures
        final(b).wf(),
    decreases fuel,
{
    if fuel == 0 {
        return Err(fatal_at(t, pos, "Program is nested too deeply"));
    }
    let mut off = pos;
    let name = next_name(&mut off, t, end)?;
    match resolve_name(b, &name) {
        Some((_, Bind::Let(ty, _))) => {
            out.push(Value::Get(name, ty));
            off = next_call(t, off, end, out, b, fuel - 1)?;
        },
        Some((q, Bind::Function(args, ret, slot))) => {
            match slot {
                Some(s) => {
                    if s < b.decl_count() {
                        let promised = match b.decl(s) {
                            Decl::PromisedFunction { .. } => true,
                            _ => false,
                        };
                        if promised {
                            b.push_function(s);
                        }
                    }
                },
                None => {},
            }
            out.push(Value::FunctionPointer(q, ret, args));
            off = next_call(t, off, end, out, b, fuel - 1)?;
        },
        Some((_, Bind::Type(Some(slot)))) => {
            match next_body_optional(&mut off, t, end, "{", "}") {
                Some((lo, hi)) => struct_init(t, slot, lo, hi, out, b, fuel - 1)?,
                None => return Err(fatal_at(t, off, "Expected struct initializer")),
            }
        },
        Some((_, Bind::Namespace)) => return Err(fatal_at(t, pos, "Expected an item of the namespace")),
        Some(_) => return Err(fatal_at(t, pos, "Not a value")),
        None => {
            let mut m = text("Unknown name '");
            push_str(&mut m, name.as_str());
            push_str(&mut m, "'");
            gentle_at(b, t, pos, m.as_str());
        },
    }
    Ok(off)
}

/// Calls of the last value of `out` by argument lists `(...)` at `pos`, one after the
/// other; a value that is not a function is left as it is.
pub fn next_call(t: &Vec<Token>, pos: usize, end: usize, out: &mut Vec<Value>, b: &mut Bindings, fuel: usize) -> (r: Result<usize, Diagnostic>)
    requires
        end <= t@.len(),
        pos <= end,
        old(b).wf(),
    ensures
        final(b).wf(),
    decreases fuel,
{
    if fuel == 0 {
        return Err(fatal_at(t, pos, "Program is nested too deeply"));
    }
    let mut off = pos;
    let mut sb = pos;
    loop
        invariant
            pos <= sb <= off <= end,
            end <= t@.len(),
            b.wf(),
            fuel > 0,
        decreases end - off,
    {
        match next_body_optional(&mut off, t, end, "(", ")") {
            Some((lo, hi)) => {
                let x = match out.pop() {
                    Some(x) => x,
                    None => return Ok(sb),
                };
                match extract_type(&x) {
                    Some(Type::Fn(argt, ret)) => {
                        let argv = fill_argv(t, &argt, lo, hi, sb, b, fuel - 1)?;
                        out.push(Value::Call(Box::new(x), argv));
                        match *ret {
                            Type::Noret => {
                                out.push(Value::Unreachable);
                                return Ok(end);
                            },
                            _ => {},
                        }
                        sb = off;
                    },
                    _ => {
                        out.push(x);
                        return Ok(sb);
                    },
                }
            },
            None => return Ok(off),
        }
    }
}

/// Arguments in `lo..hi`, one for each parameter type, each checked against it.
pub fn fill_argv(t: &Vec<Token>, argt: &Vec<Type>, lo: usize, hi: usize, sb: usize, b: &mut Bindings, fuel: usize) -> (r: Result<Vec<Value>, Diagnostic>)
    requires
        hi <= t@.len(),
        lo <= hi,
        old(b).wf(),
    ensures
        final(b).wf(),
    decreases fuel,
{
    if fuel == 0 {
        return Err(fatal_at(t, lo, "Program is nested too deeply"));
    }
    let mut argv: Vec<Value> = Vec::new();
    let mut off = lo;
    let mut i: usize = 0;
    while i < argt.len()
        invariant
            lo <= off <= hi,
            hi <= t@.len(),
            b.wf(),
            fuel > 0,
        decreases argt.len() - i,
    {
        let start = off;
        match next_value(&mut off, t, hi, b, fuel - 1)? {
            Some(v) => {
                check_strict(&argt[i], &v, t, start, b);
                ignore_separator(&mut off, t, hi);
                argv.push(v);
            },
            None => {
                gentle_at(b, t, sb, "Expected function argument");
                return Ok(argv);
            },
        }
        i = i + 1;
    }
    Ok(argv)
}

/// `.n` on a tuple or `.field` on a struct, the container being the last of `out`.
pub fn access_type_member(t: &Vec<Token>, pos: usize, end: usize, out: &mut Vec<Value>, b: &mut Bindings) -> (r: Result<usize, Diagnostic>)
    requires
        end <= t@.len(),
        pos < end,
        old(b).wf(),
    ensures
        final(b).wf(),
{
    if pos + 1 >= end {
        gentle_at(b, t, pos, "Expected member");
        return Ok(end);
    }
    let x = match out.pop() {
        Some(x) => x,
        None => {
            gentle_at(b, t, pos, "Expected value before member access");
            return Ok(pos + 2);
        },
    };
    let ty = match extract_type(&x) {
        Some(ty) => ty,
        None => default_type(&x),
    };
    let mutable = lvalue_mutable(b, &x);
    let m = &t[pos + 1];
    let mut member: Option<(usize, Type)> = None;
    match &ty {
        Type::Tuple(ts) => {
            if m.typ == TokenKind::Int {
                match parse_number(&m.value, 0) {
                    Some(n) => {
                        if n < ts.len() as u64 {
                            member = Some((n as usize, ts[n as usize].duplicate()));
                        }
                    },
                    None => {},
                }
            }
        },
        Type::Struct(sn) => {
            match resolve_name(b, sn) {
                Some((_, Bind::Type(Some(slot)))) => {
                    if slot < b.decl_count() {
                        let promised = match b.decl(slot) {
                            Decl::PromisedStruct { .. } => true,
                            _ => false,
                        };
                        if promised {
                            validate_struct(t, slot, b, sn, sn, pos, DEPTH)?;
                        }
                    }
                    if slot < b.decl_count() {
                        match b.decl(slot) {
                            Decl::Struct { kv, .. } => {
                                match kv.get_w_p(&m.value) {
                                    Some((ft, p)) => member = Some((p, ft.duplicate())),
                                    None => {},
                                }
                            },
                            _ => {},
                        }
                    }
                },
                _ => {},
            }
        },
        _ => {},
    }
    match member {
        Some((p, ft)) => {
            out.push(Value::LoadFromPtr(Box::new(Value::LoadAddress(Box::new(x), Box::new(Value::Int(p)), ty, mutable)), ft));
        },
        None => gentle_at(b, t, pos + 1, "No such member"),
    }
    Ok(pos + 2)
}

/// `.*` on a typed pointer, the last value of `out`.
pub fn deref(t: &Vec<Token>, pos: usize, out: &mut Vec<Value>, b: &mut Bindings) -> (r: usize)
    requires
        old(b).wf(),
    ensures
        final(b).wf(),
        r == pos + 1 || pos == usize::MAX,
{
    let x = match out.pop() {
        Some(x) => x,
        None => {
            gentle_at(b, t, pos, "Expected value to dereference");
            return if pos < usize::MAX { pos + 1 } else { pos };
        },
    };
    match extract_type(&x) {
        Some(Type::Ptr(Some(inner), _)) => out.push(Value::LoadFromPtr(Box::new(x), *inner)),
        _ => gentle_at(b, t, pos, "Cannot dereference this value"),
    }
    if pos < usize::MAX { pos + 1 } else { pos }
}

/// `[index]` on an array or a typed pointer, the last value of `out`.
pub fn load_address(t: &Vec<Token>, pos: usize, end: usize, out: &mut Vec<Value>, b: &mut Bindings, fuel: usize) -> (r: Result<usize, Diagnostic>)
    requires
        end <= t@.len(),
        pos < end,
        old(b).wf(),
    ensures
        final(b).wf(),
    decreases fuel,
{
    if fuel == 0 {
        return Err(fatal_at(t, pos, "Program is nested too deeply"));
    }
    let mut off = pos;
    let (lo, hi) = next_body(&mut off, t, end, "[", "]")?;
    let x = match out.pop() {
        Some(x) => x,
        None => {
            gentle_at(b, t, pos, "Expected value to index");
            return Ok(off);
        },
    };
    let mut tmp = parse(t, lo, hi, b, fuel - 1)?;
    if tmp.len() != 1 {
        gentle_at(b, t, pos, "Expected one index");
        return Ok(off);
    }
    let index = tmp.pop().unwrap();
    let mutable = lvalue_mutable(b, &x);
    match extract_type(&x) {
        Some(Type::Array(et, n)) => {
            let ty = Type::Array(Box::new((*et).duplicate()), n);
            out.push(Value::LoadFromPtr(Box::new(Value::LoadAddress(Box::new(x), Box::new(index), ty, mutable)), *et));
        },
        Some(Type::Ptr(Some(et), m)) => {
            let ty = Type::Ptr(Some(Box::new((*et).duplicate())), m);
            out.push(Value::LoadFromPtr(Box::new(Value::LoadAddress(Box::new(x), Box::new(index), ty, m)), *et));
        },
        _ => gentle_at(b, t, pos, "Cannot index this value"),
    }
    Ok(off)
}

/// Nesting depth that parsing allows.
pub const DEPTH: usize = 4096;

/// Rounds of promise resolution allowed before the program counts as diverging.
pub const ROUNDS: usize = 100000;

/// Resolves promised structs, queue after queue, until a round queues nothing.
pub fn type_pass(t: &Vec<Token>, b: &mut Bindings) -> (r: Result<(), Diagnostic>)
    requires
        old(b).wf(),
    ensures
        final(b).wf(),
        r is Ok ==> final(b).types_queue().len() == 0,
        final(b).functions_queue() == old(b).functions_queue(),
{
    let mut round: usize = 0;
    while round < ROUNDS
        invariant
            b.wf(),
            b.functions_queue() == old(b).functions_queue(),
        decreases ROUNDS - round,
    {
        let q = b.move_types();
        if q.len() == 0 {
            return Ok(());
        }
        let mut i: usize = 0;
        while i < q.len()
            invariant
                i <= q@.len(),
                b.wf(),
                b.functions_queue() == old(b).functions_queue(),
            decreases q.len() - i,
        {
            let slot = q[i];
            if slot < b.decl_count() {
                let d = b.replace_decl(slot, Decl::Taken);
                let nd = match d {
                    Decl::PromisedStruct { name, span, prefix } => {
                        if span.1 > t.len() || span.0 > span.1 {
                            return Err(fatal_at(t, 0, "Malformed struct declaration"));
                        }
                        parse_struct(t, name, span.0, span.1, &prefix, b, DEPTH)?
                    },
                    other => other,
                };
                if slot < b.decl_count() {
                    b.replace_decl(slot, nd);
                }
            }
            i = i + 1;
        }
        round = round + 1;
    }
    Err(fatal_at(t, 0, "Declarations keep promising further declarations"))
}

/// Resolves promised functions, queue after queue, until a round queues nothing; each
/// body is parsed inside the namespace path it was declared in.
pub fn fn_pass(t: &Vec<Token>, b: &mut Bindings) -> (r: Result<(), Diagnostic>)
    requires
        old(b).wf(),
    ensures
        final(b).wf(),
        r is Ok ==> final(b).functions_queue().len() == 0,
{
    let mut round: usize = 0;
    while round < ROUNDS
        invariant
            b.wf(),
        decreases ROUNDS - round,
    {
        let q = b.move_functions();
        if q.len() == 0 {
            return Ok(());
        }
        let mut i: usize = 0;
        while i < q.len()
            invariant
                i <= q@.len(),
                b.wf(),
            decreases q.len() - i,
        {
            let slot = q[i];
            if slot < b.decl_count() {
                let d = b.replace_decl(slot, Decl::Taken);
                let nd = match d {
                    Decl::PromisedFunction { name, args, span, ret, token, prefix } => {
                        if span.1 > t.len() || span.0 > span.1 {
                            return Err(fatal_at(t, 0, "Malformed function declaration"));
                        }
                        let saved = b.switch_prefix(prefix);
                        let body = parse_fn(t, token, span.0, span.1, b, &args, &ret, DEPTH)?;
                        b.switch_prefix(saved);
                        Decl::Function { name, args, body, ret }
                    },
                    other => other,
                };
                if slot < b.decl_count() {
                    b.replace_decl(slot, nd);
                }
            }
            i = i + 1;
        }
        round = round + 1;
    }
    Err(fatal_at(t, 0, "Declarations keep promising further declarations"))
}

/// Parses a whole program: a first sweep records every declaration, then promised
/// functions and then promised structs are resolved (a struct that a function body
/// needs is resolved on the spot).
pub fn parse_program(t: &Vec<Token>, b: &mut Bindings) -> (r: Result<Vec<Value>, Diagnostic>)
    requires
        old(b).wf(),
    ensures
        final(b).wf(),
        r is Ok ==> final(b).types_queue().len() == 0 && final(b).functions_queue().len() == 0,
{
    let instructions = parse(t, 0, t.len(), b, DEPTH)?;
    fn_pass(t, b)?;
    type_pass(t, b)?;
    Ok(instructions)
}

} // verus!
