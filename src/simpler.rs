use vstd::prelude::*;
use crate::bindings::Diagnostic;
use crate::lexer::{Token, TokenKind, TokenV};
use crate::text::{text, text_is};

verus! {

/// A fatal diagnostic at a token.
pub fn fatal(t: &Token, message: &str) -> (r: Diagnostic)
    ensures
        r.line == t.line,
        r.col == t.col,
        r.message@ == message@,
{
    Diagnostic { line: t.line, col: t.col, width: 1, message: text(message) }
}

/// A fatal diagnostic at the token at `pos`, or at the last token when `pos` is past
/// the end.
pub fn fatal_at(t: &Vec<Token>, pos: usize, message: &str) -> (r: Diagnostic)
    ensures
        r.message@ == message@,
{
    if pos < t.len() {
        fatal(&t[pos], message)
    } else if t.len() > 0 {
        fatal(&t[t.len() - 1], message)
    } else {
        Diagnostic { line: 1, col: 1, width: 1, message: text(message) }
    }
}

/// Position just after the bracket that closes the one at `pos`, nesting counted
/// from depth `d` at position `i`.
pub open spec fn pair_close(t: Seq<TokenV>, i: int, end: int, d: int, open: Seq<char>, close: Seq<char>) -> Option<int>
    decreases end - i,
{
    if i < 0 || i >= end || end > t.len() {
        None
    } else if t[i].value == open {
        pair_close(t, i + 1, end, d + 1, open, close)
    } else if t[i].value == close {
        if d <= 1 {
            Some(i + 1)
        } else {
            pair_close(t, i + 1, end, d - 1, open, close)
        }
    } else {
        pair_close(t, i + 1, end, d, open, close)
    }
}

pub open spec fn views_of(t: Seq<Token>) -> Seq<TokenV> {
    t.map_values(|x: Token| x@)
}

pub open spec fn pair_end(t: Seq<Token>, pos: int, end: int, open: Seq<char>, close: Seq<char>) -> Option<int> {
    if 0 <= pos < end && end <= t.len() && t[pos].value@ == open {
        pair_close(views_of(t), pos + 1, end, 1, open, close)
    } else {
        None
    }
}

proof fn lemma_pair_close_range(t: Seq<TokenV>, i: int, end: int, d: int, open: Seq<char>, close: Seq<char>)
    ensures
        pair_close(t, i, end, d, open, close) matches Some(e) ==> i < e <= end,
    decreases end - i,
{
    if 0 <= i < end && end <= t.len() {
        lemma_pair_close_range(t, i + 1, end, d + 1, open, close);
        lemma_pair_close_range(t, i + 1, end, d - 1, open, close);
        lemma_pair_close_range(t, i + 1, end, d, open, close);
    }
}

/// When the token at `pos` is `open`, the position just after its matching `close`
/// within `pos..end`.
pub fn parse_pair_symbols(t: &Vec<Token>, pos: usize, end: usize, open: &str, close: &str) -> (r: Option<usize>)
    requires
        end <= t@.len(),
    ensures
        r == (match pair_end(t@, pos as int, end as int, open@, close@) {
            Some(e) => Some(e as usize),
            None => None::<usize>,
        }),
        r matches Some(e) ==> pos + 2 <= e <= end,
{
    if pos >= end || !text_is(&t[pos].value, open) {
        return None;
    }
    let ghost tv = views_of(t@);
    let mut joined: usize = 1;
    let mut i = pos + 1;
    proof { lemma_pair_close_range(tv, pos + 1, end as int, 1, open@, close@); }
    while i < end
        invariant
            pos < i <= end,
            end <= t@.len(),
            tv == views_of(t@),
            t@[pos as int].value@ == open@,
            joined >= 1,
            joined <= i - pos,
            pair_close(tv, i as int, end as int, joined as int, open@, close@)
                == pair_close(tv, pos + 1, end as int, 1, open@, close@),
        decreases end - i,
    {
        let is_open = text_is(&t[i].value, open);
        let is_close = text_is(&t[i].value, close);
        assert(tv[i as int] == t@[i as int]@);
        if is_open {
            joined = joined + 1;
        } else if is_close {
            if joined <= 1 {
                proof { lemma_pair_close_range(tv, pos + 1, end as int, 1, open@, close@); }
                return Some(i + 1);
            } else {
                joined = joined - 1;
            }
        }
        i = i + 1;
    }
    None
}

/// Whether a token matches an optional text and an optional kind.
pub open spec fn token_matches(t: TokenV, value: Option<Seq<char>>, typ: Option<TokenKind>) -> bool {
    (value matches Some(v) ==> t.value == v) && (typ matches Some(k) ==> t.typ == k)
}

/// When the token at `*off` (below `end`) matches the text and kind asked for, steps
/// over it and returns its position.
pub fn next_token(off: &mut usize, t: &Vec<Token>, end: usize, value: Option<&str>, typ: Option<TokenKind>) -> (r: Option<usize>)
    requires
        end <= t@.len(),
    ensures
        match r {
            Some(p) => p == *old(off) && *final(off) == p + 1 && p < end
                && token_matches(t@[p as int]@, match value { Some(v) => Some(v@), None => None }, typ),
            None => *final(off) == *old(off) && (*old(off) >= end || !token_matches(
                t@[*old(off) as int]@,
                match value { Some(v) => Some(v@), None => None },
                typ,
            )),
        },
{
    if *off >= end {
        return None;
    }
    let tk = &t[*off];
    let value_ok = match value {
        Some(v) => text_is(&tk.value, v),
        None => true,
    };
    let typ_ok = match typ {
        Some(k) => tk.typ == k,
        None => true,
    };
    if value_ok && typ_ok {
        let p = *off;
        *off = p + 1;
        Some(p)
    } else {
        None
    }
}

/// Steps over a `mut` keyword if there is one there.
pub fn next_mutable_flag(off: &mut usize, t: &Vec<Token>, end: usize) -> (r: bool)
    requires
        end <= t@.len(),
    ensures
        r == (*old(off) < end && t@[*old(off) as int].value@ == "mut"@ && t@[*old(off) as int].typ == TokenKind::Word),
        *final(off) as int == if r { *old(off) + 1 } else { *old(off) as int },
{
    next_token(off, t, end, Some("mut"), Some(TokenKind::Word)).is_some()
}

/// Steps over a separator (`,` or `;`) if there is one there.
pub fn ignore_separator(off: &mut usize, t: &Vec<Token>, end: usize)
    requires
        end <= t@.len(),
    ensures
        *final(off) as int == if *old(off) < end && t@[*old(off) as int].typ == TokenKind::Punctuation {
            *old(off) + 1
        } else {
            *old(off) as int
        },
{
    next_token(off, t, end, None, Some(TokenKind::Punctuation));
}

/// When a bracketed body starts at `*off`, steps over it and returns the range of
/// tokens between the brackets.
pub fn next_body_optional(off: &mut usize, t: &Vec<Token>, end: usize, open: &str, close: &str) -> (r: Option<(usize, usize)>)
    requires
        end <= t@.len(),
    ensures
        match r {
            Some(b) => pair_end(t@, *old(off) as int, end as int, open@, close@) == Some(*final(off) as int)
                && b.0 == *old(off) + 1 && b.1 + 1 == *final(off) && b.0 <= b.1 && *final(off) <= end,
            None => pair_end(t@, *old(off) as int, end as int, open@, close@) is None && *final(off) == *old(off),
        },
{
    proof {
        lemma_pair_close_range(views_of(t@), *off + 1, end as int, 1, open@, close@);
    }
    match parse_pair_symbols(t, *off, end, open, close) {
        Some(e) => {
            let b = (*off + 1, e - 1);
            *off = e;
            Some(b)
        },
        None => None,
    }
}

/// Like `next_body_optional`, but a missing body is a fatal error.
pub fn next_body(off: &mut usize, t: &Vec<Token>, end: usize, open: &str, close: &str) -> (r: Result<(usize, usize), Diagnostic>)
    requires
        end <= t@.len(),
    ensures
        match r {
            Ok(b) => pair_end(t@, *old(off) as int, end as int, open@, close@) == Some(*final(off) as int)
                && b.0 == *old(off) + 1 && b.1 + 1 == *final(off) && b.0 <= b.1 && *final(off) <= end,
            Err(_) => pair_end(t@, *old(off) as int, end as int, open@, close@) is None,
        },
{
    match next_body_optional(off, t, end, open, close) {
        Some(b) => Ok(b),
        None => Err(fatal_at(t, *off, "Expected a bracketed body")),
    }
}

/// The path of words joined by `::` that starts with the word at `i`: its text and the
/// position after it; none when a `::` is not followed by a word.
pub open spec fn path_at(t: Seq<Token>, i: int, end: int) -> Option<(Seq<char>, int)>
    decreases end - i,
{
    if i < 0 || i >= end || end > t.len() || t[i].typ != TokenKind::Word {
        None
    } else if i + 1 < end && t[i + 1].value@ == "::"@ && t[i + 1].typ == TokenKind::Special {
        match path_at(t, i + 2, end) {
            Some(p) => Some((t[i].value@ + "::"@ + p.0, p.1)),
            None => None,
        }
    } else {
        Some((t[i].value@, i + 1))
    }
}

pub open spec fn lift_path(pre: Seq<char>, p: Option<(Seq<char>, int)>) -> Option<(Seq<char>, int)> {
    match p {
        Some(q) => Some((pre + q.0, q.1)),
        None => None,
    }
}

/// A path of words joined by `::`, read from `*off`.
pub fn next_name(off: &mut usize, t: &Vec<Token>, end: usize) -> (r: Result<String, Diagnostic>)
    requires
        end <= t@.len(),
        *old(off) <= end,
    ensures
        r is Ok ==> *old(off) < *final(off) <= end,
        match path_at(t@, *old(off) as int, end as int) {
            Some(p) => r matches Ok(x) && x@ == p.0 && *final(off) as int == p.1,
            None => r is Err,
        },
{
    let mut buf = String::new();
    let start = *off;
    let w0 = match next_token(off, t, end, None, Some(TokenKind::Word)) {
        Some(p) => {
            crate::text::push_str(&mut buf, t[p].value.as_str());
            p
        },
        None => return Err(fatal_at(t, *off, "Expected a name")),
    };
    let ghost mut w = w0 as int;
    let ghost mut pre = Seq::<char>::empty();
    assert(lift_path(pre, path_at(t@, w, end as int)) =~= path_at(t@, start as int, end as int)) by {
        match path_at(t@, w, end as int) {
            Some(q) => assert(pre + q.0 =~= q.0),
            None => {},
        }
    }
    loop
        invariant
            end <= t@.len(),
            start == *old(off),
            start < *off <= end,
            *off == w + 1,
            0 <= w < end,
            t@[w].typ == TokenKind::Word,
            buf@ == pre + t@[w].value@,
            lift_path(pre, path_at(t@, w, end as int)) == path_at(t@, start as int, end as int),
        ensures
            path_at(t@, w, end as int) == Some((t@[w].value@, w + 1)),
            buf@ == pre + t@[w].value@,
            lift_path(pre, path_at(t@, w, end as int)) == path_at(t@, start as int, end as int),
            *off == w + 1,
            start < *off <= end,
        decreases end - *off,
    {
        match next_token(off, t, end, Some("::"), Some(TokenKind::Special)) {
            Some(_) => crate::text::push_str(&mut buf, "::"),
            None => {
                assert(path_at(t@, w, end as int) == Some((t@[w].value@, w + 1)));
                break;
            },
        }
        match next_token(off, t, end, None, Some(TokenKind::Word)) {
            Some(p) => {
                proof {
                    let old_pre = pre;
                    let nw = p as int;
                    assert(nw == w + 2);
                    let tail = path_at(t@, nw, end as int);
                    assert(path_at(t@, w, end as int) == match tail {
                        Some(q) => Some((t@[w].value@ + "::"@ + q.0, q.1)),
                        None => None::<(Seq<char>, int)>,
                    });
                    pre = old_pre + t@[w].value@ + "::"@;
                    w = nw;
                    assert(lift_path(pre, path_at(t@, w, end as int)) =~= lift_path(old_pre, path_at(t@, w - 2, end as int))) by {
                        match path_at(t@, w, end as int) {
                            Some(q) => assert(pre + q.0 =~= old_pre + (t@[w - 2].value@ + "::"@ + q.0)),
                            None => {},
                        }
                    }
                }
                crate::text::push_str(&mut buf, t[p].value.as_str());
            },
            None => {
                assert(path_at(t@, w + 2, end as int) is None);
                return Err(fatal_at(t, *off, "Expected a name"));
            },
        }
    }
    assert(buf@ =~= pre + t@[w].value@);
    Ok(buf)
}

} // verus!
