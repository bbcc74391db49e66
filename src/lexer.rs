use vstd::prelude::*;
use vstd::string::StrSliceExecFns;
use crate::text::{
    decimal_digit, is_alphabetic, is_decimal_digit, is_numeric, is_white_space, push_char,
    unicode_alphabetic, unicode_alphanumeric, unicode_numeric, unicode_white_space,
};

verus! {

/// Lexical class of a token.
#[derive(Clone, Copy, Debug, PartialEq, Eq, Structural)]
pub enum TokenKind {
    String,
    Int,
    Float,
    Arithmetic,
    Logical,
    Bitwise,
    Brackets,
    Word,
    Assign,
    LabelSymbol,
    Punctuation,
    Special,
    In,
    Meta,
}

/// A lexical token with its 1-based source position.
#[derive(Debug)]
pub struct Token {
    pub typ: TokenKind,
    pub value: String,
    pub col: usize,
    pub line: usize,
}

/// Mathematical model of a token.
pub struct TokenV {
    pub typ: TokenKind,
    pub value: Seq<char>,
    pub col: nat,
    pub line: nat,
}

impl View for Token {
    type V = TokenV;

    open spec fn view(&self) -> TokenV {
        TokenV { typ: self.typ, value: self.value@, col: self.col as nat, line: self.line as nat }
    }
}

/// The four scanning rules, tried in this order.
#[derive(Clone, Copy, Debug, PartialEq, Eq, Structural)]
pub enum Rule {
    String,
    Number,
    Word,
    Symbol,
}

/// What a rule makes of the text at a position: maybe a token (text and kind), and how
/// many characters it consumes.
pub type RuleOutput = (Option<(String, TokenKind)>, usize);

/// Model of a rule's output.
pub type RuleResult = (Option<(Seq<char>, TokenKind)>, nat);

pub open spec fn out_view(o: RuleOutput) -> RuleResult {
    (
        match o.0 {
            Some(p) => Some((p.0@, p.1)),
            None => None,
        },
        o.1 as nat,
    )
}

/// Position of the closing quote of a string literal, scanning from `i`.
pub open spec fn string_close(code: Seq<char>, i: int, esc: bool) -> Option<int>
    decreases code.len() - i,
{
    if i < 0 || i >= code.len() {
        None
    } else if code[i] == '"' && !esc {
        Some(i)
    } else if code[i] == '\\' {
        string_close(code, i + 1, true)
    } else {
        string_close(code, i + 1, false)
    }
}

/// A string literal, quotes included.
pub open spec fn string_rule(code: Seq<char>, at: int) -> RuleResult {
    if code[at] != '"' {
        (None, 0)
    } else {
        match string_close(code, at + 1, false) {
            Some(j) => (Some((code.subrange(at, j + 1), TokenKind::String)), (j - at + 1) as nat),
            None => (None, 0),
        }
    }
}

/// End of a number that continues at `i`; whether it has a fraction.
pub open spec fn number_end(code: Seq<char>, i: int, fl: bool) -> (int, bool)
    decreases code.len() - i,
{
    if i < 0 || i >= code.len() {
        (i, fl)
    } else if code[i] == '.' && !fl && i + 1 < code.len() && is_decimal_digit(code[i + 1]) {
        number_end(code, i + 1, true)
    } else if !unicode_numeric(code[i]) {
        (i, fl)
    } else {
        number_end(code, i + 1, fl)
    }
}

/// A number: a decimal digit followed by numeric characters, with at most one
/// `.` that a decimal digit follows.
pub open spec fn number_rule(code: Seq<char>, at: int) -> RuleResult {
    if !is_decimal_digit(code[at]) {
        (None, 0)
    } else {
        let (e, fl) = number_end(code, at + 1, false);
        (
            Some((code.subrange(at, e), if fl { TokenKind::Float } else { TokenKind::Int })),
            (e - at) as nat,
        )
    }
}

/// End of a word that continues at `i`.
pub open spec fn word_end(code: Seq<char>, i: int) -> int
    decreases code.len() - i,
{
    if i < 0 || i >= code.len() {
        i
    } else if !(unicode_alphanumeric(code[i]) || code[i] == '_') {
        i
    } else {
        word_end(code, i + 1)
    }
}

/// A word (a letter or `_`, then letters, digits and `_`), or a directive (`#` then
/// the same).
pub open spec fn word_rule(code: Seq<char>, at: int) -> RuleResult {
    if code[at] != '#' && !unicode_alphabetic(code[at]) && code[at] != '_' {
        (None, 0)
    } else {
        let e = word_end(code, at + 1);
        (
            Some((code.subrange(at, e), if code[at] == '#' { TokenKind::Meta } else { TokenKind::Word })),
            (e - at) as nat,
        )
    }
}

/// Distance from `at` to the next line break, or to the end of the text.
pub open spec fn line_rest(code: Seq<char>, at: int, i: int) -> int
    decreases code.len() - i,
{
    if i < 0 || i >= code.len() {
        code.len() - at
    } else if code[i] == '\n' {
        i - at
    } else {
        line_rest(code, at, i + 1)
    }
}

/// Kind of a two-character symbol.
pub open spec fn pair_kind(a: char, b: char) -> Option<TokenKind> {
    if (a == '&' && b == '&') || (a == '|' && b == '|') || (a == '>' && b == '=') || (a == '<'
        && b == '=') || (a == '!' && b == '=') || (a == '=' && b == '=') {
        Some(TokenKind::Logical)
    } else if (a == '>' && b == '>') || (a == '<' && b == '<') {
        Some(TokenKind::Bitwise)
    } else if b == '=' && (a == '+' || a == '-' || a == '*' || a == '/' || a == '%') {
        Some(TokenKind::Assign)
    } else if (a == '.' && b == '*') || (a == ':' && b == ':') {
        Some(TokenKind::Special)
    } else {
        None
    }
}

/// Kind of a one-character symbol.
pub open spec fn single_kind(a: char) -> Option<TokenKind> {
    if a == '=' {
        Some(TokenKind::Assign)
    } else if a == '+' || a == '-' || a == '*' || a == '/' || a == '%' {
        Some(TokenKind::Arithmetic)
    } else if a == '(' || a == ')' || a == '[' || a == ']' || a == '{' || a == '}' {
        Some(TokenKind::Brackets)
    } else if a == '>' || a == '<' || a == '!' {
        Some(TokenKind::Logical)
    } else if a == '&' || a == '^' || a == '|' {
        Some(TokenKind::Bitwise)
    } else if a == '~' {
        Some(TokenKind::Special)
    } else if a == '@' {
        Some(TokenKind::LabelSymbol)
    } else if a == ',' || a == ';' {
        Some(TokenKind::Punctuation)
    } else if a == '.' {
        Some(TokenKind::In)
    } else {
        None
    }
}

/// An operator or punctuation symbol; `//` starts a comment, which is skipped up to
/// the end of the line.
pub open spec fn symbol_rule(code: Seq<char>, at: int) -> RuleResult {
    if at + 1 < code.len() && code[at] == '/' && code[at + 1] == '/' {
        (None, line_rest(code, at, at) as nat)
    } else if at + 1 < code.len() && pair_kind(code[at], code[at + 1]) is Some {
        (Some((code.subrange(at, at + 2), pair_kind(code[at], code[at + 1])->Some_0)), 2)
    } else {
        match single_kind(code[at]) {
            Some(k) => (Some((code.subrange(at, at + 1), k)), 1),
            None => (None, 0),
        }
    }
}

pub open spec fn rule_spec(r: Rule, code: Seq<char>, at: int) -> RuleResult {
    match r {
        Rule::String => string_rule(code, at),
        Rule::Number => number_rule(code, at),
        Rule::Word => word_rule(code, at),
        Rule::Symbol => symbol_rule(code, at),
    }
}

/// The rules, in the order in which they are tried.
pub open spec fn rule_order() -> Seq<Rule> {
    seq![Rule::String, Rule::Number, Rule::Word, Rule::Symbol]
}

/// The first rule from the `i`-th on that makes a token or skips text.
pub open spec fn first_rule(code: Seq<char>, at: int, i: int) -> RuleResult
    decreases 4 - i,
{
    if i < 0 || i >= 4 {
        (None, 0)
    } else {
        let o = rule_spec(rule_order()[i], code, at);
        if o.0 is Some || o.1 > 0 {
            o
        } else {
            first_rule(code, at, i + 1)
        }
    }
}

/// The tokens of `code` from `index` on, the scan being at column `col` of line `line`.
pub open spec fn lex_from(code: Seq<char>, index: int, col: nat, line: nat) -> Seq<TokenV>
    decreases code.len() - index
    via lex_from_decreases
{
    if index < 0 || index >= code.len() {
        Seq::empty()
    } else if code[index] == '\n' {
        lex_from(code, index + 1, 1, line + 1)
    } else if !unicode_white_space(code[index]) && (first_rule(code, index, 0).0 is Some
        || first_rule(code, index, 0).1 > 0) {
        let o = first_rule(code, index, 0);
        let off = if o.1 == 0 { 1 } else { o.1 };
        match o.0 {
            Some(p) => seq![TokenV { typ: p.1, value: p.0, col, line }] + lex_from(
                code,
                index + off,
                col + off,
                line,
            ),
            None => lex_from(code, index + off, col + off, line),
        }
    } else {
        lex_from(code, index + 1, col + 1, line)
    }
}

#[via_fn]
proof fn lex_from_decreases(code: Seq<char>, index: int, col: nat, line: nat) {
    if 0 <= index < code.len() {
        lemma_first_rule_bounds(code, index, 0);
    }
}

/// The tokens of a source text.
pub open spec fn lex_spec(code: Seq<char>) -> Seq<TokenV> {
    lex_from(code, 0, 1, 1)
}

/// A string of the characters `code[a..b]`.
pub fn chars_to_string(code: &Vec<char>, a: usize, b: usize) -> (r: String)
    requires
        a <= b <= code@.len(),
    ensures
        r@ == code@.subrange(a as int, b as int),
{
    let mut r = String::new();
    let mut i = a;
    while i < b
        invariant
            a <= i <= b,
            b <= code@.len(),
            r@ == code@.subrange(a as int, i as int),
        decreases b - i,
    {
        push_char(&mut r, code[i]);
        assert(r@ =~= code@.subrange(a as int, i + 1));
        i = i + 1;
    }
    r
}

fn string(code: &Vec<char>, at: usize) -> (r: RuleOutput)
    requires
        at < code@.len(),
        code@.len() < usize::MAX,
    ensures
        out_view(r) == string_rule(code@, at as int),
{
    if code[at] != '"' {
        return (None, 0);
    }
    let mut esc = false;
    let mut i = at + 1;
    while i < code.len()
        invariant
            at < i <= code@.len(),
            code@[at as int] == '"',
            string_close(code@, i as int, esc) == string_close(code@, at + 1, false),
        decreases code.len() - i,
    {
        let c = code[i];
        if c == '"' && !esc {
            let l = chars_to_string(code, at, i + 1);
            return (Some((l, TokenKind::String)), i - at + 1);
        } else if c == '\\' {
            esc = true;
        } else {
            esc = false;
        }
        i = i + 1;
    }
    (None, 0)
}

fn number(code: &Vec<char>, at: usize) -> (r: RuleOutput)
    requires
        at < code@.len(),
        code@.len() < usize::MAX,
    ensures
        out_view(r) == number_rule(code@, at as int),
{
    if !decimal_digit(code[at]) {
        return (None, 0);
    }
    let mut fl = false;
    let mut index = at + 1;
    while index < code.len()
        invariant
            at < index <= code@.len(),
            number_end(code@, index as int, fl) == number_end(code@, at + 1, false),
        ensures
            number_end(code@, at + 1, false) == (index as int, fl),
            at < index <= code@.len(),
        decreases code.len() - index,
    {
        if code[index] == '.' && !fl && index + 1 < code.len() && decimal_digit(code[index + 1]) {
            fl = true;
        } else if !is_numeric(code[index]) {
            break;
        }
        index = index + 1;
    }
    let typ = if fl { TokenKind::Float } else { TokenKind::Int };
    (Some((chars_to_string(code, at, index), typ)), index - at)
}

fn word(code: &Vec<char>, at: usize) -> (r: RuleOutput)
    requires
        at < code@.len(),
        code@.len() < usize::MAX,
    ensures
        out_view(r) == word_rule(code@, at as int),
{
    let c = code[at];
    let mut t = TokenKind::Word;
    if c == '#' {
        t = TokenKind::Meta;
    } else if !is_alphabetic(c) && c != '_' {
        return (None, 0);
    }
    let mut index = at + 1;
    while index < code.len()
        invariant
            at < index <= code@.len(),
            word_end(code@, index as int) == word_end(code@, at + 1),
        ensures
            word_end(code@, at + 1) == index as int,
            at < index <= code@.len(),
        decreases code.len() - index,
    {
        let d = code[index];
        if !(is_alphabetic(d) || is_numeric(d)) && d != '_' {
            break;
        }
        index = index + 1;
    }
    (Some((chars_to_string(code, at, index), t)), index - at)
}

fn pair_kind_exec(a: char, b: char) -> (r: Option<TokenKind>)
    ensures
        r == pair_kind(a, b),
{
    if (a == '&' && b == '&') || (a == '|' && b == '|') || (a == '>' && b == '=') || (a == '<'
        && b == '=') || (a == '!' && b == '=') || (a == '=' && b == '=') {
        Some(TokenKind::Logical)
    } else if (a == '>' && b == '>') || (a == '<' && b == '<') {
        Some(TokenKind::Bitwise)
    } else if b == '=' && (a == '+' || a == '-' || a == '*' || a == '/' || a == '%') {
        Some(TokenKind::Assign)
    } else if (a == '.' && b == '*') || (a == ':' && b == ':') {
        Some(TokenKind::Special)
    } else {
        None
    }
}

fn single_kind_exec(a: char) -> (r: Option<TokenKind>)
    ensures
        r == single_kind(a),
{
    if a == '=' {
        Some(TokenKind::Assign)
    } else if a == '+' || a == '-' || a == '*' || a == '/' || a == '%' {
        Some(TokenKind::Arithmetic)
    } else if a == '(' || a == ')' || a == '[' || a == ']' || a == '{' || a == '}' {
        Some(TokenKind::Brackets)
    } else if a == '>' || a == '<' || a == '!' {
        Some(TokenKind::Logical)
    } else if a == '&' || a == '^' || a == '|' {
        Some(TokenKind::Bitwise)
    } else if a == '~' {
        Some(TokenKind::Special)
    } else if a == '@' {
        Some(TokenKind::LabelSymbol)
    } else if a == ',' || a == ';' {
        Some(TokenKind::Punctuation)
    } else if a == '.' {
        Some(TokenKind::In)
    } else {
        None
    }
}

fn symbol(code: &Vec<char>, at: usize) -> (r: RuleOutput)
    requires
        at < code@.len(),
        code@.len() < usize::MAX,
    ensures
        out_view(r) == symbol_rule(code@, at as int),
{
    if at + 1 < code.len() {
        let a = code[at];
        let b = code[at + 1];
        if a == '/' && b == '/' {
            let mut i = at;
            while i < code.len()
                invariant
                    at <= i <= code@.len(),
                    at + 1 < code@.len(),
                    code@[at as int] == '/',
                    code@[at + 1] == '/',
                    line_rest(code@, at as int, i as int) == line_rest(code@, at as int, at as int),
                decreases code.len() - i,
            {
                if code[i] == '\n' {
                    return (None, i - at);
                }
                i = i + 1;
            }
            return (None, code.len() - at);
        }
        match pair_kind_exec(a, b) {
            Some(k) => {
                return (Some((chars_to_string(code, at, at + 2), k)), 2);
            },
            None => {},
        }
    }
    match single_kind_exec(code[at]) {
        Some(k) => (Some((chars_to_string(code, at, at + 1), k)), 1),
        None => (None, 0),
    }
}

/// The scanning rules, in the order in which they are tried.
pub fn rules() -> (r: [Rule; 4])
    ensures
        r@ == rule_order(),
{
    let r = [Rule::String, Rule::Number, Rule::Word, Rule::Symbol];
    assert(r@ =~= rule_order());
    r
}

/// Applies one rule at a position.
pub fn apply_rule(r: Rule, code: &Vec<char>, at: usize) -> (o: RuleOutput)
    requires
        at < code@.len(),
        code@.len() < usize::MAX,
    ensures
        out_view(o) == rule_spec(r, code@, at as int),
{
    match r {
        Rule::String => string(code, at),
        Rule::Number => number(code, at),
        Rule::Word => word(code, at),
        Rule::Symbol => symbol(code, at),
    }
}

/// Texts that can hand out their characters.
pub trait CollectChars {
    spec fn text_view(&self) -> Seq<char>;

    fn collect_chars(&self) -> (r: Vec<char>)
        ensures
            r@ == self.text_view(),
    ;
}

impl CollectChars for String {
    open spec fn text_view(&self) -> Seq<char> {
        self@
    }

    fn collect_chars(&self) -> (r: Vec<char>) {
        collect_chars(self.as_str())
    }
}

/// The characters of a text.
pub fn collect_chars(s: &str) -> (r: Vec<char>)
    ensures
        r@ == s@,
{
    let n = s.unicode_len();
    let mut r: Vec<char> = Vec::new();
    let mut i: usize = 0;
    while i < n
        invariant
            n == s@.len(),
            i <= n,
            r@ == s@.subrange(0, i as int),
        decreases n - i,
    {
        r.push(s.get_char(i));
        assert(r@ =~= s@.subrange(0, i + 1));
        i = i + 1;
    }
    assert(r@ =~= s@);
    r
}

proof fn lemma_string_close(code: Seq<char>, i: int, esc: bool)
    requires
        0 <= i,
    ensures
        string_close(code, i, esc) matches Some(j) ==> i <= j < code.len(),
    decreases code.len() - i,
{
    if i < code.len() {
        lemma_string_close(code, i + 1, true);
        lemma_string_close(code, i + 1, false);
    }
}

proof fn lemma_number_end(code: Seq<char>, i: int, fl: bool)
    requires
        0 <= i <= code.len(),
    ensures
        i <= number_end(code, i, fl).0 <= code.len(),
    decreases code.len() - i,
{
    if i < code.len() {
        lemma_number_end(code, i + 1, true);
        lemma_number_end(code, i + 1, fl);
    }
}

proof fn lemma_word_end(code: Seq<char>, i: int)
    requires
        0 <= i <= code.len(),
    ensures
        i <= word_end(code, i) <= code.len(),
    decreases code.len() - i,
{
    if i < code.len() {
        lemma_word_end(code, i + 1);
    }
}

proof fn lemma_line_rest(code: Seq<char>, at: int, i: int)
    requires
        0 <= at <= i <= code.len(),
    ensures
        i - at <= line_rest(code, at, i) <= code.len() - at,
    decreases code.len() - i,
{
    if i < code.len() {
        lemma_line_rest(code, at, i + 1);
    }
}

proof fn lemma_rule_bounds(r: Rule, code: Seq<char>, at: int)
    requires
        0 <= at < code.len(),
    ensures
        rule_spec(r, code, at).0 is Some ==> rule_spec(r, code, at).1 >= 1,
        at + rule_spec(r, code, at).1 <= code.len(),
{
    lemma_string_close(code, at + 1, false);
    lemma_number_end(code, at + 1, false);
    lemma_word_end(code, at + 1);
    lemma_line_rest(code, at, at);
}

proof fn lemma_first_rule_bounds(code: Seq<char>, at: int, i: int)
    requires
        0 <= at < code.len(),
        0 <= i,
    ensures
        first_rule(code, at, i).0 is Some ==> first_rule(code, at, i).1 >= 1,
        at + first_rule(code, at, i).1 <= code.len(),
    decreases 4 - i,
{
    if i < 4 {
        lemma_rule_bounds(rule_order()[i], code, at);
        lemma_first_rule_bounds(code, at, i + 1);
    }
}

/// Splits a source text into tokens. Line breaks and white space separate tokens;
/// at any other character the rules are tried in order and the first that makes a
/// token or skips a comment is taken; a character that no rule takes is skipped.
pub fn lex(code: &str) -> (r: Vec<Token>)
    requires
        code@.len() < usize::MAX,
    ensures
        r@.map_values(|t: Token| t@) == lex_spec(code@),
{
    let rs = rules();
    let code = collect_chars(code);
    let mut tokens: Vec<Token> = Vec::new();
    let mut index: usize = 0;
    let mut col: usize = 1;
    let mut line: usize = 1;
    while index < code.len()
        invariant
            index <= code@.len(),
            code@.len() < usize::MAX,
            col <= index + 1,
            line <= index + 1,
            rs@ == rule_order(),
            tokens@.map_values(|t: Token| t@) + lex_from(code@, index as int, col as nat, line as nat)
                == lex_from(code@, 0, 1, 1),
        decreases code.len() - index,
    {
        let ghost before = tokens@.map_values(|t: Token| t@);
        let c = code[index];
        if c == '\n' {
            line = line + 1;
            col = 1;
            index = index + 1;
            continue;
        }
        if !is_white_space(c) {
            let mut j: usize = 0;
            let mut found: Option<RuleOutput> = None;
            while j < 4
                invariant_except_break
                    found is None,
                    first_rule(code@, index as int, 0) == first_rule(code@, index as int, j as int),
                invariant
                    j <= 4,
                    index < code@.len(),
                    code@.len() < usize::MAX,
                    rs@ == rule_order(),
                ensures
                    found matches Some(o) ==> out_view(o) == first_rule(code@, index as int, 0)
                        && (o.0 is Some || o.1 > 0),
                    found is None ==> first_rule(code@, index as int, 0) == (None::<(Seq<char>, TokenKind)>, 0nat),
                decreases 4 - j,
            {
                let o = apply_rule(rs[j], &code, index);
                if o.0.is_some() || o.1 > 0 {
                    assert(first_rule(code@, index as int, j as int) == out_view(o));
                    found = Some(o);
                    break;
                }
                j = j + 1;
            }
            proof { lemma_first_rule_bounds(code@, index as int, 0); }
            match found {
                Some(o) => {
                    let off = if o.1 == 0 { 1 } else { o.1 };
                    match o.0 {
                        Some(p) => {
                            let t = Token { typ: p.1, value: p.0, col, line };
                            tokens.push(t);
                            proof {
                                let ts = tokens@.map_values(|t: Token| t@);
                                assert(ts =~= before.push(t@));
                                assert(ts + lex_from(code@, (index + off) as int, (col + off) as nat, line as nat)
                                    =~= before + lex_from(code@, index as int, col as nat, line as nat));
                            }
                        },
                        None => {},
                    }
                    index = index + off;
                    col = col + off;
                    continue;
                },
                None => {},
            }
        }
        index = index + 1;
        col = col + 1;
    }
    assert(tokens@.map_values(|t: Token| t@) =~= lex_spec(code@));
    tokens
}

} // verus!
