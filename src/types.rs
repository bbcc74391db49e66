use vstd::prelude::*;
use crate::text::{decimal_of, push_decimal, push_str, same_text};

verus! {

/// Structural type descriptors of the language.
pub enum Type {
    I(u32),
    U(u32),
    Bool,
    Array(Box<Type>, usize),
    /// (pointee, mutability); no pointee means an opaque pointer
    Ptr(Option<Box<Type>>, bool),
    /// a struct, by its fully qualified name
    Struct(String),
    Tuple(Vec<Type>),
    Fn(Vec<Type>, Box<Type>),
    Void,
    Noret,
    Guess,
}

/// Mathematical model of a `Type`.
pub enum TypeV {
    I(u32),
    U(u32),
    Bool,
    Array(Box<TypeV>, nat),
    Ptr(Option<Box<TypeV>>, bool),
    Struct(Seq<char>),
    Tuple(Seq<TypeV>),
    Fn(Seq<TypeV>, Box<TypeV>),
    Void,
    Noret,
    Guess,
}

pub open spec fn views(s: Seq<Type>) -> Seq<TypeV>
    decreases s,
{
    if s.len() == 0 {
        Seq::empty()
    } else {
        seq![s[0].view()] + views(s.drop_first())
    }
}

impl View for Type {
    type V = TypeV;

    open spec fn view(&self) -> TypeV
        decreases self,
    {
        match self {
            Type::I(n) => TypeV::I(*n),
            Type::U(n) => TypeV::U(*n),
            Type::Bool => TypeV::Bool,
            Type::Array(t, n) => TypeV::Array(Box::new((**t).view()), *n as nat),
            Type::Ptr(None, m) => TypeV::Ptr(None, *m),
            Type::Ptr(Some(t), m) => TypeV::Ptr(Some(Box::new((**t).view())), *m),
            Type::Struct(n) => TypeV::Struct(n@),
            Type::Tuple(v) => TypeV::Tuple(views(v@)),
            Type::Fn(a, r) => TypeV::Fn(views(a@), Box::new((**r).view())),
            Type::Void => TypeV::Void,
            Type::Noret => TypeV::Noret,
            Type::Guess => TypeV::Guess,
        }
    }
}

pub proof fn lemma_views(s: Seq<Type>)
    ensures
        views(s).len() == s.len(),
        forall|i: int| 0 <= i < s.len() ==> #[trigger] views(s)[i] == s[i]@,
    decreases s.len(),
{
    if s.len() > 0 {
        lemma_views(s.drop_first());
        assert(views(s) == seq![s[0]@] + views(s.drop_first()));
        assert forall|i: int| 0 <= i < s.len() implies #[trigger] views(s)[i] == s[i]@ by {
            if i > 0 {
                assert(views(s)[i] == views(s.drop_first())[i - 1]);
            }
        }
    }
}

impl Type {
    /// A copy of the type.
    pub fn duplicate(&self) -> (r: Type)
        ensures
            r@ == self@,
        decreases self,
    {
        match self {
            Type::I(n) => Type::I(*n),
            Type::U(n) => Type::U(*n),
            Type::Bool => Type::Bool,
            Type::Array(t, n) => Type::Array(Box::new((**t).duplicate()), *n),
            Type::Ptr(None, m) => Type::Ptr(None, *m),
            Type::Ptr(Some(t), m) => Type::Ptr(Some(Box::new((**t).duplicate())), *m),
            Type::Struct(n) => Type::Struct(n.clone()),
            Type::Tuple(v) => Type::Tuple(duplicate_all(v)),
            Type::Fn(a, r) => Type::Fn(duplicate_all(a), Box::new((**r).duplicate())),
            Type::Void => Type::Void,
            Type::Noret => Type::Noret,
            Type::Guess => Type::Guess,
        }
    }

    /// Structural equality of two types.
    pub fn same(&self, o: &Type) -> (r: bool)
        ensures
            r == (self@ == o@),
        decreases self,
    {
        match (self, o) {
            (Type::I(a), Type::I(b)) => *a == *b,
            (Type::U(a), Type::U(b)) => *a == *b,
            (Type::Bool, Type::Bool) => true,
            (Type::Array(a, n), Type::Array(b, m)) => *n == *m && (**a).same(&**b),
            (Type::Ptr(None, a), Type::Ptr(None, b)) => *a == *b,
            (Type::Ptr(Some(x), a), Type::Ptr(Some(y), b)) => *a == *b && (**x).same(&**y),
            (Type::Struct(a), Type::Struct(b)) => same_text(a, b),
            (Type::Tuple(a), Type::Tuple(b)) => same_all(a, b),
            (Type::Fn(a, x), Type::Fn(b, y)) => same_all(a, b) && (**x).same(&**y),
            (Type::Void, Type::Void) => true,
            (Type::Noret, Type::Noret) => true,
            (Type::Guess, Type::Guess) => true,
            _ => false,
        }
    }
}

/// Copies of every type of a list.
pub fn duplicate_all(v: &Vec<Type>) -> (r: Vec<Type>)
    ensures
        views(r@) == views(v@),
    decreases v,
{
    let mut r: Vec<Type> = Vec::new();
    let mut i: usize = 0;
    while i < v.len()
        invariant
            i <= v.len(),
            r@.len() == i,
            forall|j: int| 0 <= j < i ==> #[trigger] r@[j]@ == v@[j]@,
        decreases v.len() - i,
    {
        assert(decreases_to!(v => v@[i as int]));
        let t = v[i].duplicate();
        r.push(t);
        i = i + 1;
    }
    proof {
        lemma_views(r@);
        lemma_views(v@);
        assert(views(r@) =~= views(v@));
    }
    r
}

/// Element-wise structural equality of two lists of types.
pub fn same_all(a: &Vec<Type>, b: &Vec<Type>) -> (r: bool)
    ensures
        r == (views(a@) == views(b@)),
    decreases a,
{
    proof {
        lemma_views(a@);
        lemma_views(b@);
    }
    if a.len() != b.len() {
        return false;
    }
    let mut i: usize = 0;
    while i < a.len()
        invariant
            i <= a.len(),
            a.len() == b.len(),
            views(a@).len() == a@.len(),
            views(b@).len() == b@.len(),
            forall|k: int| 0 <= k < a@.len() ==> #[trigger] views(a@)[k] == a@[k]@,
            forall|k: int| 0 <= k < b@.len() ==> #[trigger] views(b@)[k] == b@[k]@,
            forall|j: int| 0 <= j < i ==> #[trigger] a@[j]@ == b@[j]@,
        decreases a.len() - i,
    {
        assert(decreases_to!(a => a@[i as int]));
        if !a[i].same(&b[i]) {
            assert(views(a@)[i as int] != views(b@)[i as int]);
            return false;
        }
        i = i + 1;
    }
    assert(views(a@) =~= views(b@));
    true
}

/// How a type is written in source text.
pub open spec fn display_of(t: TypeV) -> Seq<char>
    decreases t,
{
    match t {
        TypeV::I(x) => "i"@ + decimal_of(x as nat),
        TypeV::U(x) => "u"@ + decimal_of(x as nat),
        TypeV::Ptr(Some(x), false) => "&"@ + display_of(*x),
        TypeV::Ptr(None, false) => "ptr"@,
        TypeV::Ptr(Some(x), true) => "&mut "@ + display_of(*x),
        TypeV::Ptr(None, true) => "ptrmut"@,
        TypeV::Bool => "bool"@,
        TypeV::Void => "void"@,
        TypeV::Array(x, l) => display_of(*x) + "["@ + decimal_of(l) + "]"@,
        TypeV::Tuple(ts) => "("@ + display_list(ts) + ")"@,
        TypeV::Noret => "!"@,
        TypeV::Fn(a, r) => "fn ("@ + display_list(a) + ") "@ + display_of(*r),
        TypeV::Struct(n) => n,
        TypeV::Guess => "_"@,
    }
}

/// Types written one after the other, separated by ", ".
pub open spec fn display_list(ts: Seq<TypeV>) -> Seq<char>
    decreases ts,
{
    if ts.len() == 0 {
        Seq::empty()
    } else if ts.len() == 1 {
        display_of(ts[0])
    } else {
        display_list(ts.drop_last()) + ", "@ + display_of(ts.last())
    }
}

/// The LLVM spelling of a type.
pub open spec fn llvm_of(t: TypeV) -> Seq<char>
    decreases t,
{
    match t {
        TypeV::Bool => "i1"@,
        TypeV::I(x) => "i"@ + decimal_of(x as nat),
        TypeV::U(x) => "i"@ + decimal_of(x as nat),
        TypeV::Array(x, s) => "["@ + decimal_of(s) + " x "@ + llvm_of(*x) + "]"@,
        TypeV::Ptr(Some(x), _) => llvm_of(*x) + "*"@,
        TypeV::Ptr(None, _) => "ptr"@,
        TypeV::Fn(_, _) => "ptr"@,
        TypeV::Void => "void"@,
        TypeV::Noret => "void"@,
        TypeV::Tuple(ts) => "{"@ + llvm_list(ts) + "}"@,
        TypeV::Struct(n) => "%\""@ + n + "\""@,
        TypeV::Guess => "_"@,
    }
}

/// LLVM spellings of types, separated by ", ".
pub open spec fn llvm_list(ts: Seq<TypeV>) -> Seq<char>
    decreases ts,
{
    if ts.len() == 0 {
        Seq::empty()
    } else if ts.len() == 1 {
        llvm_of(ts[0])
    } else {
        llvm_list(ts.drop_last()) + ", "@ + llvm_of(ts.last())
    }
}

impl Type {
    /// Appends the source spelling of the type.
    pub fn write_display(&self, out: &mut String)
        ensures
            final(out)@ == old(out)@ + display_of(self@),
        decreases self,
    {
        let ghost o = out@;
        match self {
            Type::I(x) => {
                push_str(out, "i");
                push_decimal(out, *x as u64);
            },
            Type::U(x) => {
                push_str(out, "u");
                push_decimal(out, *x as u64);
            },
            Type::Ptr(Some(x), false) => {
                push_str(out, "&");
                (**x).write_display(out);
            },
            Type::Ptr(None, false) => push_str(out, "ptr"),
            Type::Ptr(Some(x), true) => {
                push_str(out, "&mut ");
                (**x).write_display(out);
            },
            Type::Ptr(None, true) => push_str(out, "ptrmut"),
            Type::Bool => push_str(out, "bool"),
            Type::Void => push_str(out, "void"),
            Type::Array(x, l) => {
                (**x).write_display(out);
                push_str(out, "[");
                push_decimal(out, *l as u64);
                push_str(out, "]");
            },
            Type::Tuple(ts) => {
                push_str(out, "(");
                write_display_list(ts, out);
                push_str(out, ")");
            },
            Type::Noret => push_str(out, "!"),
            Type::Fn(a, r) => {
                push_str(out, "fn (");
                write_display_list(a, out);
                push_str(out, ") ");
                (**r).write_display(out);
            },
            Type::Struct(n) => push_str(out, n.as_str()),
            Type::Guess => push_str(out, "_"),
        }
        assert(out@ =~= o + display_of(self@));
    }

    /// The source spelling of the type.
    pub fn display(&self) -> (r: String)
        ensures
            r@ == display_of(self@),
    {
        let mut r = String::new();
        self.write_display(&mut r);
        assert(r@ =~= display_of(self@));
        r
    }

    /// Appends the LLVM spelling of the type.
    pub fn write_llvm(&self, out: &mut String)
        ensures
            final(out)@ == old(out)@ + llvm_of(self@),
        decreases self,
    {
        let ghost o = out@;
        match self {
            Type::Bool => push_str(out, "i1"),
            Type::I(x) => {
                push_str(out, "i");
                push_decimal(out, *x as u64);
            },
            Type::U(x) => {
                push_str(out, "i");
                push_decimal(out, *x as u64);
            },
            Type::Array(x, l) => {
                push_str(out, "[");
                push_decimal(out, *l as u64);
                push_str(out, " x ");
                (**x).write_llvm(out);
                push_str(out, "]");
            },
            Type::Ptr(Some(x), _) => {
                (**x).write_llvm(out);
                push_str(out, "*");
            },
            Type::Ptr(None, _) => push_str(out, "ptr"),
            Type::Fn(_, _) => push_str(out, "ptr"),
            Type::Void => push_str(out, "void"),
            Type::Noret => push_str(out, "void"),
            Type::Tuple(ts) => {
                push_str(out, "{");
                write_llvm_list(ts, out);
                push_str(out, "}");
            },
            Type::Struct(n) => {
                push_str(out, "%\"");
                push_str(out, n.as_str());
                push_str(out, "\"");
            },
            Type::Guess => push_str(out, "_"),
        }
        assert(out@ =~= o + llvm_of(self@));
    }
}

/// Appends the source spellings of a list of types, separated by ", ".
pub fn write_display_list(ts: &Vec<Type>, out: &mut String)
    ensures
        final(out)@ == old(out)@ + display_list(views(ts@)),
    decreases ts,
{
    let ghost o = out@;
    proof { lemma_views(ts@); }
    let mut i: usize = 0;
    while i < ts.len()
        invariant
            i <= ts.len(),
            views(ts@).len() == ts@.len(),
            forall|k: int| 0 <= k < ts@.len() ==> #[trigger] views(ts@)[k] == ts@[k]@,
            out@ == o + display_list(views(ts@).take(i as int)),
        decreases ts.len() - i,
    {
        assert(decreases_to!(ts => ts@[i as int]));
        let ghost before = out@;
        if i > 0 {
            push_str(out, ", ");
        }
        ts[i].write_display(out);
        proof {
            let t = views(ts@).take(i + 1);
            assert(t.drop_last() =~= views(ts@).take(i as int));
            assert(t.last() == ts@[i as int]@);
            if i == 0 {
                assert(display_list(t) == display_of(t[0]));
            }
        }
        i = i + 1;
    }
    assert(views(ts@).take(ts@.len() as int) =~= views(ts@));
}

/// Appends the LLVM spellings of a list of types, separated by ", ".
pub fn write_llvm_list(ts: &Vec<Type>, out: &mut String)
    ensures
        final(out)@ == old(out)@ + llvm_list(views(ts@)),
    decreases ts,
{
    let ghost o = out@;
    proof { lemma_views(ts@); }
    let mut i: usize = 0;
    while i < ts.len()
        invariant
            i <= ts.len(),
            views(ts@).len() == ts@.len(),
            forall|k: int| 0 <= k < ts@.len() ==> #[trigger] views(ts@)[k] == ts@[k]@,
            out@ == o + llvm_list(views(ts@).take(i as int)),
        decreases ts.len() - i,
    {
        assert(decreases_to!(ts => ts@[i as int]));
        if i > 0 {
            push_str(out, ", ");
        }
        ts[i].write_llvm(out);
        proof {
            let t = views(ts@).take(i + 1);
            assert(t.drop_last() =~= views(ts@).take(i as int));
            assert(t.last() == ts@[i as int]@);
            if i == 0 {
                assert(llvm_list(t) == llvm_of(t[0]));
            }
        }
        i = i + 1;
    }
    assert(views(ts@).take(ts@.len() as int) =~= views(ts@));
}

/// The LLVM spelling of a type.
pub fn translate_type(t: &Type) -> (r: String)
    ensures
        r@ == llvm_of(t@),
{
    let mut r = String::new();
    t.write_llvm(&mut r);
    assert(r@ =~= llvm_of(t@));
    r
}

/// The smallest power of two that is at least `x` (1 for 0 and 1).
pub open spec fn next_pow2(x: nat) -> nat
    decreases x,
{
    if x <= 1 {
        1
    } else {
        2 * next_pow2(((x + 1) / 2) as nat)
    }
}

/// Alignment in bytes of an integer of `bits` bits: its width rounded up to a power of two,
/// in bytes, and at least 1.
pub open spec fn scalar_alignment(bits: nat) -> nat {
    if next_pow2(bits) / 8 < 1 {
        1
    } else {
        next_pow2(bits) / 8
    }
}

/// `x` rounded up to a multiple of `a` (unchanged when `a` is 0).
pub open spec fn round_up(x: nat, a: nat) -> nat {
    if a == 0 {
        x
    } else {
        (((x + a - 1) as nat) / a) * a
    }
}

/// Alignment and size of a resolved struct, by its qualified name.
pub struct StructLayout {
    pub name: String,
    pub alignment: u32,
    pub size: usize,
}

/// Alignment and size recorded for the first struct of that name.
pub open spec fn find_layout(ls: Seq<StructLayout>, n: Seq<char>) -> Option<(nat, nat)>
    decreases ls.len(),
{
    if ls.len() == 0 {
        None
    } else if ls[0].name@ == n {
        Some((ls[0].alignment as nat, ls[0].size as nat))
    } else {
        find_layout(ls.drop_first(), n)
    }
}

/// Alignment of a type in bytes; none for types without a layout.
pub open spec fn alignment_of(t: TypeV, ptr_bits: nat, ls: Seq<StructLayout>) -> Option<nat>
    decreases t,
{
    match t {
        TypeV::I(x) => Some(scalar_alignment(x as nat)),
        TypeV::U(x) => Some(scalar_alignment(x as nat)),
        TypeV::Bool => Some(1),
        TypeV::Ptr(_, _) => Some(ptr_bits / 8),
        TypeV::Fn(_, _) => Some(ptr_bits / 8),
        TypeV::Tuple(ts) => max_alignment(ts, ptr_bits, ls),
        TypeV::Array(x, _) => alignment_of(*x, ptr_bits, ls),
        TypeV::Struct(n) => match find_layout(ls, n) {
            Some(p) => Some(p.0),
            None => None,
        },
        _ => None,
    }
}

/// The largest alignment among types (0 for none).
pub open spec fn max_alignment(ts: Seq<TypeV>, ptr_bits: nat, ls: Seq<StructLayout>) -> Option<nat>
    decreases ts,
{
    if ts.len() == 0 {
        Some(0)
    } else {
        match (max_alignment(ts.drop_last(), ptr_bits, ls), alignment_of(ts.last(), ptr_bits, ls)) {
            (Some(a), Some(b)) => Some(if a < b { b } else { a }),
            _ => None,
        }
    }
}

/// Size of a type in bytes; none for types without a layout.
pub open spec fn size_of(t: TypeV, ptr_bits: nat, ls: Seq<StructLayout>) -> Option<nat>
    decreases t,
{
    match t {
        TypeV::I(x) => Some(scalar_alignment(x as nat)),
        TypeV::U(x) => Some(scalar_alignment(x as nat)),
        TypeV::Bool => Some(1),
        TypeV::Ptr(_, _) => Some(ptr_bits / 8),
        TypeV::Fn(_, _) => Some(ptr_bits / 8),
        TypeV::Array(x, n) => match size_of(*x, ptr_bits, ls) {
            Some(z) => Some(z * n),
            None => None,
        },
        TypeV::Tuple(ts) => match max_alignment(ts, ptr_bits, ls) {
            Some(a) => padded_sum(ts, a, ptr_bits, ls),
            None => None,
        },
        TypeV::Struct(n) => match find_layout(ls, n) {
            Some(p) => Some(p.1),
            None => None,
        },
        _ => None,
    }
}

/// Sum of the sizes of types, each rounded up to a multiple of `a`.
pub open spec fn padded_sum(ts: Seq<TypeV>, a: nat, ptr_bits: nat, ls: Seq<StructLayout>) -> Option<nat>
    decreases ts,
{
    if ts.len() == 0 {
        Some(0)
    } else {
        match (padded_sum(ts.drop_last(), a, ptr_bits, ls), size_of(ts.last(), ptr_bits, ls)) {
            (Some(s), Some(z)) => Some(s + round_up(z, a)),
            _ => None,
        }
    }
}

/// Alignment and size of a struct with the given field types: the alignment is the
/// largest field alignment (at least 1); the size sums each field's size rounded up
/// to that alignment (at least 1).
pub open spec fn struct_layout_of(fields: Seq<TypeV>, ptr_bits: nat, ls: Seq<StructLayout>) -> Option<(nat, nat)> {
    match max_alignment(fields, ptr_bits, ls) {
        Some(m) => {
            let a = if m < 1 { 1 } else { m };
            match padded_sum(fields, a, ptr_bits, ls) {
                Some(z) => Some((a, if z < 1 { 1 } else { z })),
                None => None,
            }
        },
        None => None,
    }
}

proof fn lemma_next_pow2_bound(x: nat)
    ensures
        next_pow2(x) >= 1,
        next_pow2(x) >= x,
        x >= 2 ==> next_pow2(x) <= 2 * x - 2,
    decreases x,
{
    if x > 1 {
        lemma_next_pow2_bound(((x + 1) / 2) as nat);
    }
}

fn next_pow2_exec(x: u64) -> (r: u64)
    requires
        x <= 0x1_0000_0000,
    ensures
        r == next_pow2(x as nat),
    decreases x,
{
    proof { lemma_next_pow2_bound(x as nat); }
    if x <= 1 {
        1
    } else {
        let h = next_pow2_exec((x + 1) / 2);
        proof { lemma_next_pow2_bound(((x + 1) / 2) as nat); }
        2 * h
    }
}

/// Alignment in bytes of an integer of `bits` bits.
pub fn scalar_alignment_exec(bits: u32) -> (r: u32)
    ensures
        r == scalar_alignment(bits as nat),
{
    proof { lemma_next_pow2_bound(bits as nat); }
    let p = next_pow2_exec(bits as u64);
    let a = p / 8;
    if a < 1 { 1 } else { a as u32 }
}

/// Layout recorded for a struct name.
pub fn lookup_layout(ls: &Vec<StructLayout>, n: &String) -> (r: Option<(u32, usize)>)
    ensures
        match r {
            Some(p) => find_layout(ls@, n@) == Some((p.0 as nat, p.1 as nat)),
            None => find_layout(ls@, n@) is None,
        },
{
    let mut i: usize = 0;
    assert(ls@.skip(0) =~= ls@);
    while i < ls.len()
        invariant
            i <= ls.len(),
            find_layout(ls@, n@) == find_layout(ls@.skip(i as int), n@),
        decreases ls.len() - i,
    {
        assert(ls@.skip(i as int)[0] == ls@[i as int]);
        assert(ls@.skip(i as int).drop_first() =~= ls@.skip(i + 1));
        if same_text(&ls[i].name, n) {
            return Some((ls[i].alignment, ls[i].size));
        }
        i = i + 1;
    }
    None
}

impl Type {
    /// Alignment of the type in bytes, on a target with pointers of `ptr_bits` bits;
    /// none for `void`, `!`, `_` and structs without a recorded layout.
    pub fn alignment(&self, ptr_bits: u8, ls: &Vec<StructLayout>) -> (r: Option<u32>)
        ensures
            match r {
                Some(a) => alignment_of(self@, ptr_bits as nat, ls@) == Some(a as nat),
                None => alignment_of(self@, ptr_bits as nat, ls@) is None,
            },
        decreases self,
    {
        match self {
            Type::I(x) => Some(scalar_alignment_exec(*x)),
            Type::U(x) => Some(scalar_alignment_exec(*x)),
            Type::Bool => Some(1),
            Type::Ptr(_, _) => Some((ptr_bits / 8) as u32),
            Type::Fn(_, _) => Some((ptr_bits / 8) as u32),
            Type::Tuple(ts) => max_alignment_exec(ts, ptr_bits, ls),
            Type::Array(x, _) => (**x).alignment(ptr_bits, ls),
            Type::Struct(n) => match lookup_layout(ls, n) {
                Some(p) => Some(p.0),
                None => None,
            },
            _ => None,
        }
    }

    /// Size of the type in bytes; none for types without a layout, or whose size does
    /// not fit in `usize`.
    pub fn sizeof(&self, ptr_bits: u8, ls: &Vec<StructLayout>) -> (r: Option<usize>)
        ensures
            r matches Some(z) ==> size_of(self@, ptr_bits as nat, ls@) == Some(z as nat),
            size_of(self@, ptr_bits as nat, ls@) is None ==> r is None,
            size_of(self@, ptr_bits as nat, ls@) matches Some(z) ==> (z <= usize::MAX ==> r == Some(z as usize)),
        decreases self,
    {
        match self {
            Type::I(x) => Some(scalar_alignment_exec(*x) as usize),
            Type::U(x) => Some(scalar_alignment_exec(*x) as usize),
            Type::Bool => Some(1),
            Type::Ptr(_, _) => Some((ptr_bits / 8) as usize),
            Type::Fn(_, _) => Some((ptr_bits / 8) as usize),
            Type::Array(x, n) => {
                if *n == 0 {
                    proof {
                        match size_of((**x)@, ptr_bits as nat, ls@) {
                            Some(zs) => {
                                assert(zs * (*n as nat) == 0) by (nonlinear_arith)
                                    requires *n as nat == 0;
                            },
                            None => {},
                        }
                    }
                    if (**x).has_size(ptr_bits, ls) { Some(0) } else { None }
                } else {
                    proof {
                        match size_of((**x)@, ptr_bits as nat, ls@) {
                            Some(zs) => {
                                assert(zs * (*n as nat) >= zs) by (nonlinear_arith)
                                    requires *n as nat >= 1;
                            },
                            None => {},
                        }
                    }
                    match (**x).sizeof(ptr_bits, ls) {
                        Some(z) => {
                            proof {
                                assert(z as nat * (*n as nat) >= z as nat) by (nonlinear_arith)
                                    requires *n as nat >= 1;
                            }
                            z.checked_mul(*n)
                        },
                        None => None,
                    }
                }
            },
            Type::Tuple(ts) => match max_alignment_exec(ts, ptr_bits, ls) {
                Some(a) => padded_sum_exec(ts, a as usize, ptr_bits, ls),
                None => None,
            },
            Type::Struct(n) => match lookup_layout(ls, n) {
                Some(p) => Some(p.1),
                None => None,
            },
            _ => None,
        }
    }
}

/// Whether every type of a list has a size.
pub open spec fn all_sized(ts: Seq<TypeV>, ptr_bits: nat, ls: Seq<StructLayout>) -> bool {
    forall|i: int| 0 <= i < ts.len() ==> #[trigger] size_of(ts[i], ptr_bits, ls) is Some
}

proof fn lemma_padded_sum_some(ts: Seq<TypeV>, a: nat, ptr_bits: nat, ls: Seq<StructLayout>)
    ensures
        (padded_sum(ts, a, ptr_bits, ls) is Some) == all_sized(ts, ptr_bits, ls),
    decreases ts.len(),
{
    if ts.len() > 0 {
        lemma_padded_sum_some(ts.drop_last(), a, ptr_bits, ls);
        assert(ts.last() == ts[ts.len() - 1]);
        if all_sized(ts, ptr_bits, ls) {
            assert forall|i: int| 0 <= i < ts.drop_last().len() implies #[trigger] size_of(ts.drop_last()[i], ptr_bits, ls) is Some by {
                assert(ts.drop_last()[i] == ts[i]);
            }
        }
        if all_sized(ts.drop_last(), ptr_bits, ls) && size_of(ts.last(), ptr_bits, ls) is Some {
            assert forall|i: int| 0 <= i < ts.len() implies #[trigger] size_of(ts[i], ptr_bits, ls) is Some by {
                if i < ts.len() - 1 {
                    assert(ts.drop_last()[i] == ts[i]);
                }
            }
        }
    }
}

/// Every prefix of a padded sum is at most the whole, and each next term fits below it.
proof fn lemma_padded_prefix(ts: Seq<TypeV>, a: nat, ptr_bits: nat, ls: Seq<StructLayout>, i: int)
    requires
        0 <= i < ts.len(),
        padded_sum(ts, a, ptr_bits, ls) is Some,
    ensures
        padded_sum(ts.take(i), a, ptr_bits, ls) is Some,
        size_of(ts[i], ptr_bits, ls) is Some,
        padded_sum(ts.take(i), a, ptr_bits, ls)->Some_0 + round_up(size_of(ts[i], ptr_bits, ls)->Some_0, a)
            <= padded_sum(ts, a, ptr_bits, ls)->Some_0,
    decreases ts.len(),
{
    let d = ts.drop_last();
    if i == ts.len() - 1 {
        assert(d =~= ts.take(i));
        assert(ts.last() == ts[i]);
    } else {
        assert(d.take(i) =~= ts.take(i));
        assert(d[i] == ts[i]);
        lemma_padded_prefix(d, a, ptr_bits, ls, i);
    }
}

impl Type {
    /// Whether the type has a size (see `size_of`).
    pub fn has_size(&self, ptr_bits: u8, ls: &Vec<StructLayout>) -> (r: bool)
        ensures
            r == (size_of(self@, ptr_bits as nat, ls@) is Some),
        decreases self,
    {
        match self {
            Type::I(_) | Type::U(_) | Type::Bool | Type::Ptr(_, _) | Type::Fn(_, _) => true,
            Type::Array(x, _) => (**x).has_size(ptr_bits, ls),
            Type::Tuple(ts) => {
                let m = max_alignment_exec(ts, ptr_bits, ls);
                proof {
                    if m is Some {
                        lemma_padded_sum_some(views(ts@), m->Some_0 as nat, ptr_bits as nat, ls@);
                    }
                }
                m.is_some() && all_have_size(ts, ptr_bits, ls)
            },
            Type::Struct(n) => lookup_layout(ls, n).is_some(),
            _ => false,
        }
    }
}

/// Whether every type of a list has a size.
pub fn all_have_size(ts: &Vec<Type>, ptr_bits: u8, ls: &Vec<StructLayout>) -> (r: bool)
    ensures
        r == all_sized(views(ts@), ptr_bits as nat, ls@),
    decreases ts,
{
    proof { lemma_views(ts@); }
    let mut i: usize = 0;
    while i < ts.len()
        invariant
            i <= ts@.len(),
            views(ts@).len() == ts@.len(),
            forall|k: int| 0 <= k < ts@.len() ==> #[trigger] views(ts@)[k] == ts@[k]@,
            forall|k: int| 0 <= k < i ==> #[trigger] size_of(views(ts@)[k], ptr_bits as nat, ls@) is Some,
        decreases ts.len() - i,
    {
        assert(decreases_to!(ts => ts@[i as int]));
        if !ts[i].has_size(ptr_bits, ls) {
            assert(size_of(views(ts@)[i as int], ptr_bits as nat, ls@) is None);
            return false;
        }
        i = i + 1;
    }
    true
}

/// The largest alignment among types (0 for none).
pub fn max_alignment_exec(ts: &Vec<Type>, ptr_bits: u8, ls: &Vec<StructLayout>) -> (r: Option<u32>)
    ensures
        match r {
            Some(a) => max_alignment(views(ts@), ptr_bits as nat, ls@) == Some(a as nat),
            None => max_alignment(views(ts@), ptr_bits as nat, ls@) is None,
        },
    decreases ts,
{
    proof { lemma_views(ts@); }
    let mut m: u32 = 0;
    let mut i: usize = 0;
    while i < ts.len()
        invariant
            i <= ts.len(),
            views(ts@).len() == ts@.len(),
            forall|k: int| 0 <= k < ts@.len() ==> #[trigger] views(ts@)[k] == ts@[k]@,
            max_alignment(views(ts@).take(i as int), ptr_bits as nat, ls@) == Some(m as nat),
        decreases ts.len() - i,
    {
        assert(decreases_to!(ts => ts@[i as int]));
        let ghost t = views(ts@).take(i + 1);
        assert(t.drop_last() =~= views(ts@).take(i as int));
        assert(t.last() == ts@[i as int]@);
        match ts[i].alignment(ptr_bits, ls) {
            Some(b) => {
                if m < b {
                    m = b;
                }
            },
            None => {
                proof {
                    lemma_max_alignment_none(views(ts@), i + 1, ptr_bits as nat, ls@);
                }
                return None;
            },
        }
        i = i + 1;
    }
    assert(views(ts@).take(ts@.len() as int) =~= views(ts@));
    Some(m)
}

proof fn lemma_max_alignment_none(ts: Seq<TypeV>, i: int, ptr_bits: nat, ls: Seq<StructLayout>)
    requires
        1 <= i <= ts.len(),
        max_alignment(ts.take(i), ptr_bits, ls) is None,
    ensures
        max_alignment(ts, ptr_bits, ls) is None,
    decreases ts.len() - i,
{
    if i < ts.len() {
        let t = ts.take(i + 1);
        assert(t.drop_last() =~= ts.take(i));
        lemma_max_alignment_none(ts, i + 1, ptr_bits, ls);
    } else {
        assert(ts.take(i) =~= ts);
    }
}

/// `x` rounded up to a multiple of `a`; none when that does not fit in `usize`.
pub fn round_up_exec(x: usize, a: usize) -> (r: Option<usize>)
    ensures
        r matches Some(z) ==> z as nat == round_up(x as nat, a as nat),
        round_up(x as nat, a as nat) <= usize::MAX ==> r is Some,
{
    proof { lemma_round_up_form(x as nat, a as nat); }
    if a == 0 {
        Some(x)
    } else {
        let m = x % a;
        if m == 0 {
            Some(x)
        } else {
            x.checked_add(a - m)
        }
    }
}

/// Rounding up adds what is missing to the next multiple, and never lowers a value.
pub proof fn lemma_round_up_form(x: nat, a: nat)
    ensures
        a >= 1 ==> round_up(x, a) == if x % a == 0 { x } else { (x + (a - x % a)) as nat },
        round_up(x, a) >= x,
{
    if a >= 1 {
        let q = x / a;
        let m = x % a;
        vstd::arithmetic::div_mod::lemma_fundamental_div_mod(x as int, a as int);
        if m == 0 {
            assert((x + a - 1) as int == (q as int) * (a as int) + (a - 1) as int) by (nonlinear_arith)
                requires x == a * q + m, m == 0, a >= 1;
            vstd::arithmetic::div_mod::lemma_fundamental_div_mod_converse(
                (x + a - 1) as int, a as int, q as int, (a - 1) as int);
            assert(((x + a - 1) as nat) / a == q);
            assert(q * a == x) by (nonlinear_arith)
                requires x == a * q + m, m == 0;
        } else {
            assert((x + a - 1) as int == ((q + 1) as int) * (a as int) + (m - 1) as int) by (nonlinear_arith)
                requires x == a * q + m, m >= 1, a >= 1;
            vstd::arithmetic::div_mod::lemma_fundamental_div_mod_converse(
                (x + a - 1) as int, a as int, (q + 1) as int, (m - 1) as int);
            assert(((x + a - 1) as nat) / a == q + 1);
            assert((q + 1) * a == x + (a - m)) by (nonlinear_arith)
                requires x == a * q + m;
        }
    }
}

/// Sum of the sizes of types, each rounded up to a multiple of `a`; none when a type
/// has no size or the sum does not fit in `usize`.
pub fn padded_sum_exec(ts: &Vec<Type>, a: usize, ptr_bits: u8, ls: &Vec<StructLayout>) -> (r: Option<usize>)
    ensures
        r matches Some(z) ==> padded_sum(views(ts@), a as nat, ptr_bits as nat, ls@) == Some(z as nat),
        padded_sum(views(ts@), a as nat, ptr_bits as nat, ls@) is None ==> r is None,
        padded_sum(views(ts@), a as nat, ptr_bits as nat, ls@) matches Some(z) ==> (z <= usize::MAX ==> r == Some(z as usize)),
    decreases ts,
{
    proof { lemma_views(ts@); }
    let ghost fits = padded_sum(views(ts@), a as nat, ptr_bits as nat, ls@) is Some
        && padded_sum(views(ts@), a as nat, ptr_bits as nat, ls@)->Some_0 <= usize::MAX;
    let mut total: usize = 0;
    let mut i: usize = 0;
    while i < ts.len()
        invariant
            i <= ts.len(),
            views(ts@).len() == ts@.len(),
            forall|k: int| 0 <= k < ts@.len() ==> #[trigger] views(ts@)[k] == ts@[k]@,
            padded_sum(views(ts@).take(i as int), a as nat, ptr_bits as nat, ls@) == Some(total as nat),
            fits == (padded_sum(views(ts@), a as nat, ptr_bits as nat, ls@) is Some
                && padded_sum(views(ts@), a as nat, ptr_bits as nat, ls@)->Some_0 <= usize::MAX),
        decreases ts.len() - i,
    {
        assert(decreases_to!(ts => ts@[i as int]));
        proof {
            if fits {
                lemma_padded_prefix(views(ts@), a as nat, ptr_bits as nat, ls@, i as int);
                lemma_round_up_form(size_of(views(ts@)[i as int], ptr_bits as nat, ls@)->Some_0, a as nat);
            }
        }
        let ghost t = views(ts@).take(i + 1);
        assert(t.drop_last() =~= views(ts@).take(i as int));
        assert(t.last() == ts@[i as int]@);
        match ts[i].sizeof(ptr_bits, ls) {
            Some(z) => {
                match round_up_exec(z, a) {
                    Some(p) => {
                        match total.checked_add(p) {
                            Some(n) => total = n,
                            None => return None,
                        }
                    },
                    None => return None,
                }
            },
            None => return None,
        }
        i = i + 1;
    }
    assert(views(ts@).take(ts@.len() as int) =~= views(ts@));
    Some(total)
}

/// Alignment and size of a struct with the given field types; none when a field has
/// no layout or the size does not fit in `usize`.
pub fn struct_layout(fields: &Vec<Type>, ptr_bits: u8, ls: &Vec<StructLayout>) -> (r: Option<(u32, usize)>)
    ensures
        r matches Some(p) ==> struct_layout_of(views(fields@), ptr_bits as nat, ls@) == Some((p.0 as nat, p.1 as nat)),
        struct_layout_of(views(fields@), ptr_bits as nat, ls@) is None ==> r is None,
        struct_layout_of(views(fields@), ptr_bits as nat, ls@) matches Some(p) ==> (p.1 <= usize::MAX
            ==> r == Some((p.0 as u32, p.1 as usize))),
{
    match max_alignment_exec(fields, ptr_bits, ls) {
        Some(m) => {
            let a: u32 = if m < 1 { 1 } else { m };
            match padded_sum_exec(fields, a as usize, ptr_bits, ls) {
                Some(z) => Some((a, if z < 1 { 1 } else { z })),
                None => None,
            }
        },
        None => None,
    }
}

/// Whether a type is a fixed-size scalar: an integer or a boolean.
pub open spec fn is_scalar(t: TypeV) -> bool {
    t is I || t is U || t is Bool
}

/// Alignment of a scalar type.
pub open spec fn scalar_align_of(t: TypeV) -> nat {
    match t {
        TypeV::I(x) => scalar_alignment(x as nat),
        TypeV::U(x) => scalar_alignment(x as nat),
        _ => 1,
    }
}

/// The largest alignment among scalar types.
pub open spec fn scalar_max_align(ts: Seq<TypeV>) -> nat
    decreases ts.len(),
{
    if ts.len() == 0 {
        0
    } else {
        let m = scalar_max_align(ts.drop_last());
        let b = scalar_align_of(ts.last());
        if m < b { b } else { m }
    }
}

/// Sum of the sizes of scalar types, each padded up to a multiple of `a`.
pub open spec fn scalar_padded_sum(ts: Seq<TypeV>, a: nat) -> nat
    decreases ts.len(),
{
    if ts.len() == 0 {
        0
    } else {
        scalar_padded_sum(ts.drop_last(), a) + round_up(scalar_align_of(ts.last()), a)
    }
}

proof fn lemma_round_up_multiple(z: nat, a: nat)
    requires
        a >= 1,
    ensures
        round_up(z, a) == (((z + a - 1) as nat) / a) * a,
        round_up(z, a) % a == 0,
{
    let q = ((z + a - 1) as nat) / a;
    vstd::arithmetic::div_mod::lemma_mod_multiples_basic(q as int, a as int);
}

pub proof fn lemma_scalar_sums(ts: Seq<TypeV>, a: nat, ptr_bits: nat, ls: Seq<StructLayout>)
    requires
        forall|i: int| 0 <= i < ts.len() ==> is_scalar(#[trigger] ts[i]),
    ensures
        max_alignment(ts, ptr_bits, ls) == Some(scalar_max_align(ts)),
        padded_sum(ts, a, ptr_bits, ls) == Some(scalar_padded_sum(ts, a)),
        scalar_max_align(ts) >= 1 || ts.len() == 0,
        a >= 1 ==> scalar_padded_sum(ts, a) % a == 0,
    decreases ts.len(),
{
    if a >= 1 {
        vstd::arithmetic::div_mod::lemma_small_mod(0, a);
    }
    if ts.len() > 0 {
        let d = ts.drop_last();
        assert forall|i: int| 0 <= i < d.len() implies is_scalar(#[trigger] d[i]) by {
            assert(d[i] == ts[i]);
        }
        lemma_scalar_sums(d, a, ptr_bits, ls);
        let l = ts.last();
        assert(is_scalar(ts[ts.len() - 1]));
        let z = scalar_align_of(l);
        assert(alignment_of(l, ptr_bits, ls) == Some(z));
        assert(size_of(l, ptr_bits, ls) == Some(z));
        if a >= 1 {
            lemma_round_up_multiple(z, a);
            let s = scalar_padded_sum(d, a);
            let r = round_up(z, a);
            vstd::arithmetic::div_mod::lemma_add_mod_noop(s as int, r as int, a as int);
            assert(scalar_padded_sum(ts, a) == s + r);
        }
    }
}

/// The layout of a struct of scalar fields does not depend on the layouts of other
/// structs.
pub proof fn lemma_scalar_layout_indep(fields: Seq<TypeV>, ptr_bits: nat, ls: Seq<StructLayout>)
    requires
        forall|i: int| 0 <= i < fields.len() ==> is_scalar(#[trigger] fields[i]),
    ensures
        struct_layout_of(fields, ptr_bits, ls) == struct_layout_of(fields, ptr_bits, Seq::empty()),
{
    lemma_scalar_sums(fields, 1, ptr_bits, ls);
    lemma_scalar_sums(fields, 1, ptr_bits, Seq::empty());
    let m = scalar_max_align(fields);
    let a = if m < 1 { 1 } else { m };
    lemma_scalar_sums(fields, a, ptr_bits, ls);
    lemma_scalar_sums(fields, a, ptr_bits, Seq::empty());
}

/// For a struct whose fields are all fixed-size scalars, the alignment is the largest
/// field alignment and the size is the sum of each field's size padded up to that
/// alignment, which the size is then a multiple of.
pub proof fn lemma_scalar_struct_layout(fields: Seq<TypeV>, ptr_bits: nat, ls: Seq<StructLayout>)
    requires
        fields.len() >= 1,
        forall|i: int| 0 <= i < fields.len() ==> is_scalar(#[trigger] fields[i]),
    ensures
        struct_layout_of(fields, ptr_bits, ls) == Some(
            (scalar_max_align(fields), scalar_padded_sum(fields, scalar_max_align(fields))),
        ),
        scalar_padded_sum(fields, scalar_max_align(fields)) % scalar_max_align(fields) == 0,
{
    lemma_scalar_sums(fields, 1, ptr_bits, ls);
    let a = scalar_max_align(fields);
    lemma_scalar_sums(fields, a, ptr_bits, ls);
    lemma_scalar_padded_positive(fields, a);
}

proof fn lemma_scalar_padded_positive(ts: Seq<TypeV>, a: nat)
    requires
        ts.len() >= 1,
        forall|i: int| 0 <= i < ts.len() ==> is_scalar(#[trigger] ts[i]),
    ensures
        scalar_padded_sum(ts, a) >= 1,
    decreases ts.len(),
{
    let l = ts.last();
    assert(is_scalar(ts[ts.len() - 1]));
    let z = scalar_align_of(l);
    assert(z >= 1);
    if a >= 1 {
        let q = (((z + a - 1) as nat) / a);
        assert(q >= 1) by (nonlinear_arith)
            requires a >= 1, z >= 1, q == (((z + a - 1) as nat) / a);
        assert(q * a >= 1) by (nonlinear_arith)
            requires a >= 1, q >= 1;
    }
}

/// The pointee of a typed pointer; any other type is itself.
pub open spec fn pure_of(t: TypeV) -> TypeV {
    match t {
        TypeV::Ptr(Some(x), _) => *x,
        _ => t,
    }
}

/// The pointee of a typed pointer; any other type is returned as it is.
pub fn pure_type(x: &Type) -> (r: &Type)
    ensures
        r@ == pure_of(x@),
{
    match x {
        Type::Ptr(Some(t), _) => &**t,
        _ => x,
    }
}

/// The type one level inside `t`: an array's element, a pointer's pointee or the
/// tuple's element at `u`; other types are themselves.
pub open spec fn penetrate_of(t: TypeV, u: int) -> TypeV {
    match t {
        TypeV::Array(x, _) => *x,
        TypeV::Ptr(Some(x), _) => *x,
        TypeV::Tuple(ts) => ts[u],
        _ => t,
    }
}

/// The type one level inside `x`: an array's element, a pointer's pointee or the
/// tuple's element at `u`; other types are returned as they are.
pub fn penetrate_type(x: Type, u: usize) -> (r: Type)
    requires
        x@ is Tuple ==> u < x@->Tuple_0.len(),
    ensures
        r@ == penetrate_of(x@, u as int),
{
    match x {
        Type::Array(t, _) => *t,
        Type::Ptr(Some(t), _) => *t,
        Type::Tuple(v) => {
            proof { lemma_views(v@); }
            let mut v = v;
            v.remove(u)
        },
        _ => x,
    }
}

/// Whether integer operations on the type are unsigned (booleans count as unsigned).
pub open spec fn unsigned_of(t: TypeV) -> bool {
    t is U || t is Bool
}

/// Whether integer operations on the type are unsigned (booleans count as unsigned).
pub fn is_unsigned(t: &Type) -> (r: bool)
    ensures
        r == unsigned_of(t@),
{
    match t {
        Type::U(_) | Type::Bool => true,
        _ => false,
    }
}

} // verus!
