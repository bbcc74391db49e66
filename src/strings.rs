use vstd::prelude::*;
use vstd::string::StrSliceExecFns;
use crate::text::push_char;

verus! {

/// The characters `s[i..n]` with each `\` followed by `n` turned into a line break.
pub open spec fn unescape_from(s: Seq<char>, i: int, n: int) -> Seq<char>
    decreases n - i,
{
    if i < 0 || i >= n || n > s.len() {
        Seq::empty()
    } else if s[i] == '\\' && i + 1 < n && s[i + 1] == 'n' {
        seq!['\n'] + unescape_from(s, i + 2, n)
    } else {
        seq![s[i]] + unescape_from(s, i + 1, n)
    }
}

/// The text of a string literal: without its first and last character (the quotes),
/// each `\` followed by `n` turned into a line break.
pub open spec fn unescape_spec(s: Seq<char>) -> Seq<char> {
    if s.len() < 2 {
        Seq::empty()
    } else {
        unescape_from(s, 1, s.len() - 1)
    }
}

/// The text of a string literal (see `unescape_spec`).
pub fn unescape(s: &String) -> (r: String)
    ensures
        r@ == unescape_spec(s@),
{
    let a = s.as_str();
    let n = a.unicode_len();
    let mut r = String::new();
    if n < 2 {
        return r;
    }
    let m = n - 1;
    let mut i: usize = 1;
    while i < m
        invariant
            1 <= i <= m + 1,
            m == n - 1,
            n == a@.len(),
            a@ == s@,
            r@ + unescape_from(a@, i as int, m as int) == unescape_from(a@, 1, m as int),
        decreases m - i,
    {
        let c = a.get_char(i);
        if c == '\\' && i + 1 < m && a.get_char(i + 1) == 'n' {
            push_char(&mut r, '\n');
            assert(r@ + unescape_from(a@, i + 2, m as int) =~= unescape_from(a@, 1, m as int));
            i = i + 2;
        } else {
            push_char(&mut r, c);
            assert(r@ + unescape_from(a@, i + 1, m as int) =~= unescape_from(a@, 1, m as int));
            i = i + 1;
        }
    }
    assert(r@ =~= unescape_from(a@, 1, m as int));
    r
}

/// Strings that can be read as string literals.
pub trait EscapeGen {
    spec fn unescaped(&self) -> Seq<char>;

    fn escape_escaping(self) -> (r: String)
        ensures
            r@ == self.unescaped(),
    ;
}

impl EscapeGen for String {
    open spec fn unescaped(&self) -> Seq<char> {
        unescape_spec(self@)
    }

    fn escape_escaping(self) -> (r: String) {
        unescape(&self)
    }
}

} // verus!
