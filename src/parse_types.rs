use vstd::prelude::*;
use vstd::string::StrSliceExecFns;
use crate::bindings::{lookup, Bind, Bindings};
use crate::bindings::Diagnostic;
use crate::lexer::{Token, TokenKind};
use crate::simpler::{fatal_at, ignore_separator, next_body, next_body_optional, next_token};
use crate::text::{push_str, text, text_is};
use crate::types::{Type, TypeV};

verus! {

/// A copy of a bind.
pub fn copy_bind(b: &Bind) -> (r: Bind)
    ensures
        b is Type || b is Label || b is Mark || b is Namespace ==> r == *b,
        b is Alias ==> r is Alias,
{
    match b {
        Bind::Let(t, m) => Bind::Let(t.duplicate(), *m),
        Bind::Function(a, r, s) => Bind::Function(crate::types::duplicate_all(a), r.duplicate(), *s),
        Bind::Label => Bind::Label,
        Bind::Mark => Bind::Mark,
        Bind::Namespace => Bind::Namespace,
        Bind::Type(s) => Bind::Type(*s),
        Bind::Alias(n) => Bind::Alias(n.clone()),
    }
}

/// Follows a chain of aliases from `name`; gives the name the chain ends at and a copy
/// of its bind, which is no alias. A chain of more than `limit` links counts as
/// unresolved.
pub fn strip_alias(b: &Bindings, name: &String, limit: usize) -> (r: Option<(String, Bind)>)
    requires
        b.wf(),
    ensures
        r matches Some(p) ==> !(p.1 is Alias),
        lookup(b.scopes(), name@) matches Some(p) ==> (limit > 0 && b.scopes()[p.0].entries()[p.1].1 is Type
            ==> (r matches Some(q) && q.0@ == name@ && q.1 == b.scopes()[p.0].entries()[p.1].1)),
{
    let mut n = name.clone();
    let mut k: usize = 0;
    while k < limit
        invariant
            b.wf(),
            k == 0 ==> n@ == name@,
            lookup(b.scopes(), name@) matches Some(p) ==> (b.scopes()[p.0].entries()[p.1].1 is Type ==> k == 0),
        decreases limit - k,
    {
        match b.get(&n) {
            Some(Bind::Alias(l)) => {
                n = l.clone();
            },
            Some(x) => {
                let c = copy_bind(x);
                match c {
                    Bind::Alias(_) => return None,
                    _ => return Some((n, c)),
                }
            },
            None => return None,
        }
        k = k + 1;
    }
    None
}

/// `prefix[0]::...::prefix[k-1]::name`.
pub fn qualified(prefix: &Vec<String>, k: usize, name: &String) -> (r: String)
    requires
        k <= prefix@.len(),
{
    let mut r = String::new();
    let mut i: usize = 0;
    while i < k
        invariant
            i <= k,
            k <= prefix@.len(),
        decreases k - i,
    {
        push_str(&mut r, prefix[i].as_str());
        push_str(&mut r, "::");
        i = i + 1;
    }
    push_str(&mut r, name.as_str());
    r
}

/// Resolves a name as written inside the current namespace: first as it stands, then
/// qualified by each enclosing namespace from the innermost out, where the items that
/// a namespace keeps to itself are visible too.
pub fn resolve_name(b: &Bindings, name: &String) -> (r: Option<(String, Bind)>)
    requires
        b.wf(),
    ensures
        r matches Some(p) ==> !(p.1 is Alias),
        lookup(b.scopes(), name@) matches Some(p) ==> (b.scopes()[p.0].entries()[p.1].1 is Type
            ==> (r matches Some(q) && q.0@ == name@ && q.1 == b.scopes()[p.0].entries()[p.1].1)),
{
    match strip_alias(b, name, 64) {
        Some(p) => return Some(p),
        None => {},
    }
    let prefix = b.prefix_copy();
    let mut k = prefix.len();
    while k > 0
        invariant
            b.wf(),
            k <= prefix@.len(),
            lookup(b.scopes(), name@) matches Some(p) ==> !(b.scopes()[p.0].entries()[p.1].1 is Type),
        decreases k,
    {
        let q = qualified(&prefix, k, name);
        match strip_alias(b, &q, 64) {
            Some(p) => return Some(p),
            None => {},
        }
        let mut hidden = text("@");
        push_str(&mut hidden, q.as_str());
        match strip_alias(b, &hidden, 64) {
            Some((_, x)) => return Some((q, x)),
            None => {},
        }
        k = k - 1;
    }
    None
}

/// The value of a decimal digit.
pub open spec fn digit_val(c: char) -> Option<nat> {
    if '0' <= c && c <= '9' {
        Some((c as nat - '0' as nat) as nat)
    } else {
        None
    }
}

/// The value of the decimal digits `s[from..to]`; none if one is not a digit.
pub open spec fn digits_value(s: Seq<char>, from: int, to: int) -> Option<nat>
    decreases to - from,
{
    if to <= from {
        Some(0)
    } else {
        match (digits_value(s, from, to - 1), digit_val(s[to - 1])) {
            (Some(v), Some(d)) => Some(v * 10 + d),
            _ => None,
        }
    }
}

/// The number that the characters of `s` from `from` on spell: none when there are
/// none, or one is not a decimal digit.
pub open spec fn number_of(s: Seq<char>, from: int) -> Option<nat> {
    if from < 0 || from >= s.len() {
        None
    } else {
        digits_value(s, from, s.len() as int)
    }
}

proof fn lemma_digits_grow(s: Seq<char>, from: int, j: int, k: int)
    requires
        from <= j <= k,
    ensures
        digits_value(s, from, j) is None ==> digits_value(s, from, k) is None,
        digits_value(s, from, j) matches Some(x) ==> (digits_value(s, from, k) matches Some(y) ==> x <= y),
    decreases k - j,
{
    if j < k {
        lemma_digits_grow(s, from, j, k - 1);
    }
}

/// Reads the decimal digits of `s` from character `from` on, when there are some and
/// only those, and the number fits.
pub fn parse_number(s: &String, from: usize) -> (r: Option<u64>)
    ensures
        match number_of(s@, from as int) {
            Some(v) => if v <= u64::MAX { r == Some(v as u64) } else { r is None },
            None => r is None,
        },
{
    let a = s.as_str();
    let n = a.unicode_len();
    if from >= n {
        return None;
    }
    let mut v: u64 = 0;
    let mut i = from;
    while i < n
        invariant
            from <= i <= n,
            n == a@.len(),
            a@ == s@,
            digits_value(a@, from as int, i as int) == Some(v as nat),
        decreases n - i,
    {
        let c = a.get_char(i);
        proof { lemma_digits_grow(a@, from as int, i + 1, n as int); }
        let d: u64 = if c == '0' { 0 }
            else if c == '1' { 1 }
            else if c == '2' { 2 }
            else if c == '3' { 3 }
            else if c == '4' { 4 }
            else if c == '5' { 5 }
            else if c == '6' { 6 }
            else if c == '7' { 7 }
            else if c == '8' { 8 }
            else if c == '9' { 9 }
            else { return None };
        assert(digit_val(c) == Some(d as nat));
        match v.checked_mul(10) {
            Some(m) => match m.checked_add(d) {
                Some(x) => v = x,
                None => return None,
            },
            None => return None,
        }
        i = i + 1;
    }
    Some(v)
}

/// Whether the first character of `s` is `c`.
pub fn starts_with(s: &String, c: char) -> (r: bool)
    ensures
        r == (s@.len() > 0 && s@[0] == c),
{
    let a = s.as_str();
    a.unicode_len() > 0 && a.get_char(0) == c
}

/// The type that a single word spells, on a target with pointers of `pb` bits.
pub open spec fn word_type(s: Seq<char>, pb: nat) -> Option<TypeV> {
    if s == "isize"@ {
        Some(TypeV::I(pb as u32))
    } else if s == "usize"@ {
        Some(TypeV::U(pb as u32))
    } else if s.len() > 0 && s[0] == 'i' && number_of(s, 1) is Some && number_of(s, 1)->Some_0 <= u32::MAX {
        Some(TypeV::I(number_of(s, 1)->Some_0 as u32))
    } else if s.len() > 0 && s[0] == 'u' && number_of(s, 1) is Some && number_of(s, 1)->Some_0 <= u32::MAX {
        Some(TypeV::U(number_of(s, 1)->Some_0 as u32))
    } else if s == "bool"@ {
        Some(TypeV::Bool)
    } else if s == "void"@ {
        Some(TypeV::Void)
    } else if s == "ptr"@ {
        Some(TypeV::Ptr(None, false))
    } else if s == "ptrmut"@ {
        Some(TypeV::Ptr(None, true))
    } else if s == "noret"@ || s == "!"@ {
        Some(TypeV::Noret)
    } else {
        None
    }
}

/// Whether the token text at `pos` names a bound struct type, and no other type form.
pub open spec fn struct_name_at(t: Seq<Token>, pos: int, end: int, b: Bindings) -> bool {
    0 <= pos < end && end <= t.len() && word_type(t[pos].value@, b.ptr_bits() as nat) is None && t[pos].value@ != "&"@
        && t[pos].value@ != "&&"@ && t[pos].value@ != "fn"@ && t[pos].value@ != "("@
        && (lookup(b.scopes(), t[pos].value@) matches Some(lp) && b.scopes()[lp.0].entries()[lp.1].1 is Type)
        && (pos + 1 == end || (t[pos + 1].value@ != "["@ && t[pos + 1].value@ != "<"@))
}

/// Names of types that a single word spells.
pub open spec fn keyword_type(s: Seq<char>) -> bool {
    s == "bool"@ || s == "void"@ || s == "ptr"@ || s == "ptrmut"@ || s == "noret"@ || s == "!"@
        || s == "isize"@ || s == "usize"@
}

/// Reads a type at `pos`; gives it and the position after it.
pub fn resolve_type(t: &Vec<Token>, pos: usize, end: usize, b: &Bindings, fuel: usize) -> (r: Result<Option<(Type, usize)>, Diagnostic>)
    requires
        end <= t@.len(),
        b.wf(),
    ensures
        r matches Ok(Some(p)) ==> pos < p.1 <= end,
        word_type(t@[pos as int].value@, b.ptr_bits() as nat) matches Some(ty) ==> (pos < end && fuel > 0
            ==> (r matches Ok(Some(p)) && p.0@ == ty && p.1 == pos + 1)),
        lookup(b.scopes(), t@[pos as int].value@) matches Some(lp) ==> (pos < end && fuel > 0
            && b.scopes()[lp.0].entries()[lp.1].1 is Type
            && word_type(t@[pos as int].value@, b.ptr_bits() as nat) is None && t@[pos as int].value@ != "&"@
            && t@[pos as int].value@ != "&&"@ && t@[pos as int].value@ != "fn"@ && t@[pos as int].value@ != "("@
            ==> (r matches Ok(Some(p)) && p.0@ == TypeV::Struct(t@[pos as int].value@) && p.1 == pos + 1)),
        pos < end && t@[pos as int].value@ == "&"@ ==> (r matches Ok(Some(p)) ==> (p.0@ matches TypeV::Ptr(Some(_), m)
            && m == (pos + 1 < end && t@[pos + 1].value@ == "mut"@ && t@[pos + 1].typ == TokenKind::Word))),
        pos + 1 < end && t@[pos as int].value@ == "&"@ && t@[pos + 1].value@ != "mut"@ && fuel > 1
            && struct_name_at(t@, pos + 1, end as int, *b) ==> (r matches Ok(Some(p))
            && p.0@ == TypeV::Ptr(Some(Box::new(TypeV::Struct(t@[pos + 1].value@))), false) && p.1 == pos + 2),
        pos + 2 < end && t@[pos as int].value@ == "&"@ && t@[pos + 1].value@ != "mut"@ && fuel > 1
            && t@[pos + 2].value@ != "["@ && t@[pos + 2].value@ != "<"@
            && word_type(t@[pos + 1].value@, b.ptr_bits() as nat) is Some ==> (r matches Ok(Some(p))
            && p.0@ == TypeV::Ptr(Some(Box::new(word_type(t@[pos + 1].value@, b.ptr_bits() as nat)->Some_0)), false)
            && p.1 == pos + 2),
    decreases fuel, 0nat,
{
    if pos >= end {
        return Ok(None);
    }
    if fuel == 0 {
        return Err(fatal_at(t, pos, "Type is nested too deeply"));
    }
    proof {
        reveal_strlit("mut");
        reveal_strlit("isize");
        reveal_strlit("usize");
        reveal_strlit("&");
        reveal_strlit("&&");
        reveal_strlit("ptr");
        reveal_strlit("ptrmut");
        reveal_strlit("fn");
        reveal_strlit("void");
        reveal_strlit("!");
        reveal_strlit("noret");
        reveal_strlit("bool");
        reveal_strlit("(");
    }
    let tg = &t[pos].value;
    if starts_with(tg, 'i') {
        if text_is(tg, "isize") {
            return Ok(Some((Type::I(b.target_ptr_bits() as u32), pos + 1)));
        }
        match parse_number(tg, 1) {
            Some(x) => {
                if x <= 0xffff_ffff {
                    return Ok(Some((Type::I(x as u32), pos + 1)));
                }
            },
            None => {},
        }
    } else if starts_with(tg, 'u') {
        if text_is(tg, "usize") {
            return Ok(Some((Type::U(b.target_ptr_bits() as u32), pos + 1)));
        }
        match parse_number(tg, 1) {
            Some(x) => {
                if x <= 0xffff_ffff {
                    return Ok(Some((Type::U(x as u32), pos + 1)));
                }
            },
            None => {},
        }
    }
    if text_is(tg, "&") {
        let mut last = pos + 1;
        let mutable = next_token(&mut last, t, end, Some("mut"), Some(TokenKind::Word)).is_some();
        return match parse_type(t, last, end, b, fuel - 1)? {
            Some((ty, j)) => Ok(Some((Type::Ptr(Some(Box::new(ty)), mutable), j))),
            None => Ok(None),
        };
    }
    if text_is(tg, "&&") {
        return match parse_type(t, pos + 1, end, b, fuel - 1)? {
            Some((ty, j)) => Ok(Some((Type::Ptr(Some(Box::new(Type::Ptr(Some(Box::new(ty)), false))), false), j))),
            None => Ok(None),
        };
    }
    if text_is(tg, "ptr") {
        return Ok(Some((Type::Ptr(None, false), pos + 1)));
    }
    if text_is(tg, "ptrmut") {
        return Ok(Some((Type::Ptr(None, true), pos + 1)));
    }
    if text_is(tg, "fn") {
        assert(word_type(t@[pos as int].value@, b.ptr_bits() as nat) is None);
        let mut last = pos + 1;
        let mut args: Vec<Type> = Vec::new();
        match next_body_optional(&mut last, t, end, "(", ")") {
            Some((lo, hi)) => {
                let mut boff = lo;
                while boff < hi
                    invariant
                        lo <= boff <= hi,
                        hi <= end,
                        end <= t@.len(),
                        b.wf(),
                        fuel > 0,
                        pos < end,
                        word_type(t@[pos as int].value@, b.ptr_bits() as nat) is None,
                t@[pos as int].value@ != "&"@,
                t@[pos as int].value@ == "fn"@,
                    decreases hi - boff,
                {
                    match parse_type(t, boff, hi, b, fuel - 1)? {
                        Some((ty, j)) => {
                            args.push(ty);
                            boff = j;
                            ignore_separator(&mut boff, t, hi);
                        },
                        None => break,
                    }
                }
            },
            None => {},
        }
        let ret = match parse_type(t, last, end, b, fuel - 1)? {
            Some((ty, j)) => {
                last = j;
                ty
            },
            None => Type::Void,
        };
        return Ok(Some((Type::Fn(args, Box::new(ret)), last)));
    }
    if text_is(tg, "void") {
        return Ok(Some((Type::Void, pos + 1)));
    }
    if text_is(tg, "!") || text_is(tg, "noret") {
        return Ok(Some((Type::Noret, pos + 1)));
    }
    if text_is(tg, "bool") {
        return Ok(Some((Type::Bool, pos + 1)));
    }
    if text_is(tg, "(") {
        assert(word_type(t@[pos as int].value@, b.ptr_bits() as nat) is None);
        let mut off = pos;
        let (lo, hi) = next_body(&mut off, t, end, "(", ")")?;
        let mut types: Vec<Type> = Vec::new();
        let mut boff = lo;
        while boff < hi
            invariant
                lo <= boff <= hi,
                hi <= end,
                end <= t@.len(),
                b.wf(),
                fuel > 0,
                pos < end,
                word_type(t@[pos as int].value@, b.ptr_bits() as nat) is None,
                t@[pos as int].value@ != "&"@,
                t@[pos as int].value@ == "("@,
            decreases hi - boff,
        {
            match parse_type(t, boff, hi, b, fuel - 1)? {
                Some((ty, j)) => {
                    types.push(ty);
                    boff = j;
                    ignore_separator(&mut boff, t, hi);
                },
                None => return Err(fatal_at(t, boff, "Not a type")),
            }
        }
        return Ok(Some((Type::Tuple(types), off)));
    }
    assert(word_type(t@[pos as int].value@, b.ptr_bits() as nat) is None);
    let mut v = tg.clone();
    let mut off = pos + 1;
    loop
        invariant
            pos < off <= end,
            end <= t@.len(),
            b.wf(),
            off == pos + 1 ==> v@ == t@[pos as int].value@,
            lookup(b.scopes(), t@[pos as int].value@) matches Some(lp) ==> (b.scopes()[lp.0].entries()[lp.1].1 is Type
                ==> off == pos + 1),
            word_type(t@[pos as int].value@, b.ptr_bits() as nat) is None,
                t@[pos as int].value@ != "&"@,
        decreases end - off,
    {
        match resolve_name(b, &v) {
            Some((_, Bind::Namespace)) => {
                match next_token(&mut off, t, end, Some("::"), Some(TokenKind::Special)) {
                    Some(_) => {
                        match next_token(&mut off, t, end, None, Some(TokenKind::Word)) {
                            Some(w) => {
                                push_str(&mut v, "::");
                                push_str(&mut v, t[w].value.as_str());
                            },
                            None => return Err(fatal_at(t, off, "Invalid path")),
                        }
                    },
                    None => break,
                }
            },
            _ => break,
        }
    }
    match resolve_name(b, &v) {
        Some((q, Bind::Type(_))) => Ok(Some((Type::Struct(q), off))),
        _ => Ok(None),
    }
}

/// Reads a type at `pos`, with any array suffixes `[n]`; gives it and the position
/// after it.
pub fn parse_type(t: &Vec<Token>, pos: usize, end: usize, b: &Bindings, fuel: usize) -> (r: Result<Option<(Type, usize)>, Diagnostic>)
    requires
        end <= t@.len(),
        b.wf(),
    ensures
        r matches Ok(Some(p)) ==> pos < p.1 <= end,
        word_type(t@[pos as int].value@, b.ptr_bits() as nat) matches Some(ty) ==> (pos < end && fuel > 0
            && (pos + 1 == end || (t@[pos + 1].value@ != "["@ && t@[pos + 1].value@ != "<"@))
            ==> (r matches Ok(Some(p)) && p.0@ == ty && p.1 == pos + 1)),
        struct_name_at(t@, pos as int, end as int, *b) && fuel > 0
            ==> (r matches Ok(Some(p)) && p.0@ == TypeV::Struct(t@[pos as int].value@) && p.1 == pos + 1),
    decreases fuel, 1nat,
{
    let (mut par_typ, j) = match resolve_type(t, pos, end, b, fuel)? {
        Some(p) => p,
        None => return Ok(None),
    };
    let mut last = j;
    if j > pos + 1 {
        return Ok(Some((par_typ, last)));
    }
    if last >= end || (!text_is(&t[last].value, "[") && !text_is(&t[last].value, "<")) {
        return Ok(Some((par_typ, last)));
    }
    while last < end
        invariant
            pos < last <= end,
            end <= t@.len(),
            !(pos + 1 == end || (t@[pos + 1].value@ != "["@ && t@[pos + 1].value@ != "<"@)),
        decreases end - last,
    {
        if text_is(&t[last].value, "[") {
            if end - last <= 2 {
                return Err(fatal_at(t, last, "Expected length of array"));
            }
            let n = match parse_number(&t[last + 1].value, 0) {
                Some(n) => n,
                None => return Err(fatal_at(t, last + 1, "Expected length of array")),
            };
            if n > usize::MAX as u64 {
                return Err(fatal_at(t, last + 1, "Expected length of array"));
            }
            par_typ = Type::Array(Box::new(par_typ), n as usize);
            last = last + 3;
        } else if text_is(&t[last].value, "<") {
            return Err(fatal_at(t, last, "Generic types are not supported"));
        } else {
            break;
        }
    }
    Ok(Some((par_typ, last)))
}

/// Reads a type at `*off` and steps over it.
pub fn next_type(off: &mut usize, t: &Vec<Token>, end: usize, b: &Bindings) -> (r: Result<Option<Type>, Diagnostic>)
    requires
        end <= t@.len(),
        b.wf(),
        *old(off) <= end,
    ensures
        *old(off) <= *final(off) <= end,
        r matches Ok(Some(_)) ==> *old(off) < *final(off),
        word_type(t@[*old(off) as int].value@, b.ptr_bits() as nat) matches Some(ty) ==> (*old(off) < end
            && (*old(off) + 1 == end || (t@[*old(off) + 1].value@ != "["@ && t@[*old(off) + 1].value@ != "<"@))
            ==> (r matches Ok(Some(x)) && x@ == ty && *final(off) == *old(off) + 1)),
        struct_name_at(t@, *old(off) as int, end as int, *b)
            ==> (r matches Ok(Some(x)) && x@ == TypeV::Struct(t@[*old(off) as int].value@) && *final(off) == *old(off) + 1),
{
    match parse_type(t, *off, end, b, 64)? {
        Some((ty, j)) => {
            *off = j;
            Ok(Some(ty))
        },
        None => Ok(None),
    }
}

} // verus!
