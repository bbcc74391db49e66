use vstd::prelude::*;
use vstd::string::StrSliceExecFns;
use crate::ast::{Arg, Value};
use crate::ops::{branch_op, cmp_op, is_branch, is_cmp};
use crate::types::{penetrate_of, views, TypeV};
use crate::types::{penetrate_type, Type};

verus! {

/// Model of an optional type.
pub open spec fn opt_view(o: Option<Type>) -> Option<TypeV> {
    match o {
        Some(t) => Some(t@),
        None => None,
    }
}

/// The common type of array elements, from their annotations alone: none for no
/// elements, or when one has no known type or differs from the others.
pub open spec fn elems_spec(s: Seq<Value>) -> Option<TypeV>
    decreases s,
{
    if s.len() == 0 {
        None
    } else if s.len() == 1 {
        extract_spec(s[0])
    } else {
        match (elems_spec(s.drop_last()), extract_spec(s.last())) {
            (Some(a), Some(b)) => if a == b { Some(a) } else { None },
            _ => None,
        }
    }
}

/// The type a value is known to have from its own annotations alone.
pub open spec fn extract_spec(x: Value) -> Option<TypeV>
    decreases x,
{
    match x {
        Value::Array(xs) => match elems_spec(xs@) {
            Some(t) => Some(TypeV::Array(Box::new(t), xs@.len())),
            None => None,
        },
        Value::Get(_, t) => Some(t@),
        Value::LoadFromPtr(_, t) => Some(t@),
        Value::LoadAddress(_, _, t, m) => if t@ is Tuple && t@->Tuple_0.len() == 0 {
            None
        } else {
            Some(TypeV::Ptr(Some(Box::new(penetrate_of(t@, 0))), m))
        },
        Value::Ptr(to, m) => Some(TypeV::Ptr(
            match extract_spec(*to) {
                Some(t) => Some(Box::new(t)),
                None => None,
            },
            m,
        )),
        Value::InitVar(_, t, _) => Some(t@),
        Value::Typecast(_, _, t) => Some(t@),
        Value::FunctionPointer(_, r, a) => Some(TypeV::Fn(views(a@), Box::new(r@))),
        Value::AnonFunction { args, body: _, ret } => Some(TypeV::Fn(args@.map_values(|a: Arg| a.typ@), Box::new(ret@))),
        Value::Call(v, _) => match extract_spec(*v) {
            Some(TypeV::Fn(_, r)) => Some(*r),
            _ => None,
        },
        Value::StructInit(n, _) => Some(TypeV::Struct(n@)),
        _ => None,
    }
}

/// The type a value is known to have, from its own annotations alone.
pub fn extract_type(x: &Value) -> (r: Option<Type>)
    ensures
        opt_view(r) == extract_spec(*x),
    decreases x,
{
    match x {
        Value::Array(xs) => extract_array_type(xs),
        Value::Get(_, t) => Some(t.duplicate()),
        Value::LoadFromPtr(_, t) => Some(t.duplicate()),
        Value::LoadAddress(_, _, t, mutable) => {
            let inner = match t {
                Type::Tuple(ts) => {
                    proof { crate::types::lemma_views(ts@); }
                    if ts.len() == 0 {
                        return None;
                    }
                    penetrate_type(t.duplicate(), 0)
                },
                _ => penetrate_type(t.duplicate(), 0),
            };
            Some(Type::Ptr(Some(Box::new(inner)), *mutable))
        },
        Value::Ptr(to, mutable) => {
            let to = match extract_type(&**to) {
                Some(t) => Some(Box::new(t)),
                None => None,
            };
            Some(Type::Ptr(to, *mutable))
        },
        Value::InitVar(_, t, _) => Some(t.duplicate()),
        Value::Typecast(_, _, t) => Some(t.duplicate()),
        Value::FunctionPointer(_, ret, args) => Some(Type::Fn(crate::types::duplicate_all(args), Box::new(ret.duplicate()))),
        Value::AnonFunction { args, body: _, ret } => {
            let mut ts: Vec<Type> = Vec::new();
            let mut i: usize = 0;
            while i < args.len()
                invariant
                    i <= args@.len(),
                    ts@.len() == i,
                    forall|k: int| 0 <= k < i ==> #[trigger] ts@[k]@ == args@[k].typ@,
                decreases args.len() - i,
            {
                ts.push(args[i].typ.duplicate());
                i = i + 1;
            }
            proof {
                crate::types::lemma_views(ts@);
                assert(views(ts@) =~= args@.map_values(|a: Arg| a.typ@));
            }
            Some(Type::Fn(ts, Box::new(ret.duplicate())))
        },
        Value::Call(v, _) => match extract_type(&**v) {
            Some(Type::Fn(_, ret)) => Some(*ret),
            _ => None,
        },
        Value::StructInit(name, _) => Some(Type::Struct(name.clone())),
        _ => None,
    }
}

/// Whether a value can stand where a type is expected: pointers by their mutability
/// (a mutable pointer fits where an immutable one is expected, not the reverse),
/// booleans by comparisons, logical operators and 1-bit values, literals by any
/// integer or boolean type, arrays and tuples member by member, anything else by its
/// known type.
pub open spec fn check_spec(t: TypeV, x: Value) -> bool
    decreases x, 3nat,
{
    if t is Void || t is Noret {
        false
    } else if t is Ptr && !t->Ptr_1 {
        extract_spec(x) matches Some(TypeV::Ptr(_, _))
    } else if t is Ptr {
        extract_spec(x) matches Some(TypeV::Ptr(_, true))
    } else if t is Bool && (match x {
        Value::Expr(_, _, op) => cmp_op(op) || branch_op(op),
        _ => default_spec(x) == TypeV::I(1) || default_spec(x) == TypeV::U(1) || default_spec(x) == TypeV::Bool,
    }) {
        true
    } else {
        match x {
            Value::Expr(a, b, _) => check_spec(t, *a) && check_spec(t, *b),
            Value::Unary(_, a) => check_spec(t, *a),
            Value::Int(_) | Value::SInt(_) | Value::Bool(_) => t is I || t is U || t is Bool,
            Value::Array(xs) => match t {
                TypeV::Array(e, l) => l == xs@.len() && all_fit(*e, xs@),
                _ => false,
            },
            Value::Tuple(xs) => match t {
                TypeV::Tuple(ys) => ys.len() == xs@.len() && each_fits(ys, xs@),
                _ => false,
            },
            _ => extract_spec(x) == Some(t),
        }
    }
}

/// Whether every value fits the type.
pub open spec fn all_fit(t: TypeV, s: Seq<Value>) -> bool
    decreases s, 0nat,
{
    if s.len() == 0 {
        true
    } else {
        all_fit(t, s.drop_last()) && check_spec(t, s[s.len() - 1])
    }
}

/// Whether each value fits the type at its position.
pub open spec fn each_fits(ts: Seq<TypeV>, s: Seq<Value>) -> bool
    decreases s, 0nat,
{
    if s.len() == 0 || ts.len() != s.len() {
        true
    } else {
        each_fits(ts.drop_last(), s.drop_last()) && check_spec(ts[ts.len() - 1], s[s.len() - 1])
    }
}

/// The type a value has when nothing is expected of it.
pub open spec fn default_spec(x: Value) -> TypeV
    decreases x, 2nat,
{
    match x {
        Value::Int(_) | Value::SInt(_) => TypeV::I(32),
        Value::Bool(_) => TypeV::Bool,
        Value::Expr(_, _, op) => if cmp_op(op) {
            TypeV::Bool
        } else {
            match expr_types_spec(x) {
                Some(t) => t,
                None => TypeV::Void,
            }
        },
        Value::String(s) => TypeV::Array(Box::new(TypeV::I(8)), s@.len()),
        Value::Array(xs) => match vec_types_spec(xs@) {
            Some(t) => TypeV::Array(Box::new(t), xs@.len()),
            None => TypeV::Void,
        },
        Value::Ptr(t, m) => TypeV::Ptr(Some(Box::new(default_spec(*t))), m),
        Value::Tuple(xs) => TypeV::Tuple(defaults_spec(xs@)),
        _ => match extract_spec(x) {
            Some(t) => t,
            None => TypeV::Guess,
        },
    }
}

/// Default types of values, in order.
pub open spec fn defaults_spec(s: Seq<Value>) -> Seq<TypeV>
    decreases s, 0nat,
{
    if s.len() == 0 {
        Seq::empty()
    } else {
        defaults_spec(s.drop_last()).push(default_spec(s[s.len() - 1]))
    }
}

/// The operand type of a binary expression: the first operand's known type, or else
/// the second's, or else the first's default type, when both operands fit it.
pub open spec fn expr_types_spec(x: Value) -> Option<TypeV>
    decreases x, 1nat,
{
    match x {
        Value::Expr(a, b, _) => {
            let strong = match extract_spec(*a) {
                Some(t) => t,
                None => match extract_spec(*b) {
                    Some(t) => t,
                    None => default_spec(*a),
                },
            };
            if check_spec(strong, *a) && check_spec(strong, *b) {
                Some(strong)
            } else {
                None
            }
        },
        _ => None,
    }
}

/// The first known type among values.
pub open spec fn first_extract(s: Seq<Value>) -> Option<TypeV>
    decreases s.len(),
{
    if s.len() == 0 {
        None
    } else {
        match extract_spec(s[0]) {
            Some(t) => Some(t),
            None => first_extract(s.drop_first()),
        }
    }
}

/// The common type of values: the first known type, or else the first value's default
/// type, when every value fits it.
pub open spec fn vec_types_spec(s: Seq<Value>) -> Option<TypeV>
    decreases s, 1nat,
{
    if s.len() == 0 {
        None
    } else {
        let strong = match first_extract(s) {
            Some(t) => t,
            None => default_spec(s[0]),
        };
        if all_fit(strong, s) {
            Some(strong)
        } else {
            None
        }
    }
}

impl Type {
    /// Whether a value can stand where this type is expected (see `check_spec`).
    pub fn check(&self, x: &Value) -> (r: bool)
        ensures
            r == check_spec(self@, *x),
        decreases x, 2nat,
    {
        match self {
            Type::Void | Type::Noret => return false,
            Type::Ptr(_, false) => {
                return match extract_type(x) {
                    Some(Type::Ptr(_, _)) => true,
                    _ => false,
                };
            },
            Type::Ptr(_, true) => {
                return match extract_type(x) {
                    Some(Type::Ptr(_, true)) => true,
                    _ => false,
                };
            },
            Type::Bool => {
                match x {
                    Value::Expr(_, _, op) => {
                        if is_cmp(op) || is_branch(op) {
                            return true;
                        }
                    },
                    _ => {
                        match default_type(x) {
                            Type::I(1) | Type::U(1) | Type::Bool => return true,
                            _ => {},
                        }
                    },
                }
            },
            _ => {},
        }
        match x {
            Value::Expr(a, b, _) => self.check(&**a) && self.check(&**b),
            Value::Unary(_, a) => self.check(&**a),
            Value::Int(_) | Value::SInt(_) | Value::Bool(_) => match self {
                Type::I(_) | Type::U(_) | Type::Bool => true,
                _ => false,
            },
            Value::Array(xs) => match self {
                Type::Array(t, l) => *l == xs.len() && check_elems(&**t, xs),
                _ => false,
            },
            Value::Tuple(xs) => match self {
                Type::Tuple(ys) => {
                    proof { crate::types::lemma_views(ys@); }
                    xs.len() == ys.len() && check_tuple(ys, xs)
                },
                _ => false,
            },
            _ => match extract_type(x) {
                Some(t) => t.same(self),
                None => false,
            },
        }
    }
}

/// The type a value has when nothing else is expected of it: integer literals are
/// `i32`, and composite values take the types of their parts.
pub fn default_type(x: &Value) -> (r: Type)
    ensures
        r@ == default_spec(*x),
    decreases x, 1nat,
{
    match x {
        Value::Int(_) | Value::SInt(_) => Type::I(32),
        Value::Bool(_) => Type::Bool,
        Value::Expr(_, _, op) => {
            if is_cmp(op) {
                Type::Bool
            } else {
                match extract_types_expr(x) {
                    Some(t) => t,
                    None => Type::Void,
                }
            }
        },
        Value::String(s) => {
            let n = s.as_str().unicode_len();
            let e = Type::I(8);
            assert(e@ == TypeV::I(8));
            Type::Array(Box::new(e), n)
        },
        Value::Array(xs) => match extract_types_move(xs) {
            Some(t) => Type::Array(Box::new(t), xs.len()),
            None => Type::Void,
        },
        Value::Ptr(t, m) => {
            let d = default_type(&**t);
            Type::Ptr(Some(Box::new(d)), *m)
        },
        Value::Tuple(xs) => Type::Tuple(default_types(xs)),
        _ => match extract_type(x) {
            Some(t) => t,
            None => Type::Guess,
        },
    }
}

/// The type of a binary expression's operands: the first one with a known type, or
/// else the default type of the left one, when both operands fit it.
pub fn extract_types_expr(x: &Value) -> (r: Option<Type>)
    ensures
        opt_view(r) == expr_types_spec(*x),
    decreases x, 0nat,
{
    match x {
        Value::Expr(a, b, _) => {
            let strong = match extract_type(&**a) {
                Some(t) => t,
                None => match extract_type(&**b) {
                    Some(t) => t,
                    None => default_type(&**a),
                },
            };
            if strong.check(&**a) && strong.check(&**b) {
                Some(strong)
            } else {
                None
            }
        },
        _ => None,
    }
}

/// The common type of a list of values: the first one with a known type, or else
/// the default type of the first value, when every value fits it.
pub fn extract_types_move(xs: &Vec<Value>) -> (r: Option<Type>)
    ensures
        opt_view(r) == vec_types_spec(xs@),
    decreases xs, 0nat,
{
    if xs.len() == 0 {
        return None;
    }
    let mut strong: Option<Type> = None;
    let mut i: usize = 0;
    assert(xs@.skip(0) =~= xs@);
    while i < xs.len()
        invariant_except_break
            first_extract(xs@) == first_extract(xs@.skip(i as int)),
            strong is None,
        invariant
            i <= xs@.len(),
        ensures
            match strong {
                Some(t) => first_extract(xs@) == Some(t@),
                None => first_extract(xs@) is None,
            },
        decreases xs.len() - i,
    {
        assert(decreases_to!(xs => xs@[i as int]));
        assert(xs@.skip(i as int)[0] == xs@[i as int]);
        assert(xs@.skip(i as int).drop_first() =~= xs@.skip(i + 1));
        let e = extract_type(&xs[i]);
        if e.is_some() {
            strong = e;
            break;
        }
        i = i + 1;
    }
    assert(decreases_to!(xs => xs@[0]));
    let strong = match strong {
        Some(t) => t,
        None => default_type(&xs[0]),
    };
    let ghost spec_strong = match first_extract(xs@) {
        Some(t) => t,
        None => default_spec(xs@[0]),
    };
    assert(strong@ == spec_strong);
    let mut j: usize = 0;
    assert(xs@.take(0) =~= Seq::<Value>::empty());
    while j < xs.len()
        invariant
            j <= xs@.len(),
            xs@.len() > 0,
            strong@ == spec_strong,
            spec_strong == (match first_extract(xs@) {
                Some(t) => t,
                None => default_spec(xs@[0]),
            }),
            all_fit(strong@, xs@.take(j as int)),
        decreases xs.len() - j,
    {
        assert(decreases_to!(xs => xs@[j as int]));
        let ghost tk = xs@.take(j + 1);
        assert(tk.drop_last() =~= xs@.take(j as int));
        assert(tk[tk.len() - 1] == xs@[j as int]);
        if !strong.check(&xs[j]) {
            proof {
                assert(!all_fit(strong@, tk));
                if all_fit(strong@, xs@) {
                    lemma_all_fit_prefix(strong@, xs@, j + 1);
                }
            }
            return None;
        }
        j = j + 1;
    }
    assert(xs@.take(xs@.len() as int) =~= xs@);
    Some(strong)
}

/// Every prefix of values that all fit a type fits it too.
pub proof fn lemma_all_fit_prefix(t: TypeV, s: Seq<Value>, i: int)
    requires
        0 <= i <= s.len(),
        all_fit(t, s),
    ensures
        all_fit(t, s.take(i)),
    decreases s.len(),
{
    if i < s.len() {
        assert(s.drop_last().take(i) =~= s.take(i));
        lemma_all_fit_prefix(t, s.drop_last(), i);
    } else {
        assert(s.take(i) =~= s);
    }
}

/// Every prefix of values that fit types position by position fits them too.
pub proof fn lemma_each_fits_prefix(ts: Seq<TypeV>, s: Seq<Value>, i: int)
    requires
        0 <= i <= s.len(),
        ts.len() == s.len(),
        each_fits(ts, s),
    ensures
        each_fits(ts.take(i), s.take(i)),
    decreases s.len(),
{
    if i < s.len() {
        assert(s.drop_last().take(i) =~= s.take(i));
        assert(ts.drop_last().take(i) =~= ts.take(i));
        lemma_each_fits_prefix(ts.drop_last(), s.drop_last(), i);
    } else {
        assert(s.take(i) =~= s);
        assert(ts.take(i) =~= ts);
    }
}

proof fn lemma_views_push(s: Seq<Type>, x: Type)
    ensures
        views(s.push(x)) == views(s).push(x@),
{
    crate::types::lemma_views(s.push(x));
    crate::types::lemma_views(s);
    assert(views(s.push(x)) =~= views(s).push(x@));
}

/// The common type of array elements, from their annotations alone.
pub fn extract_array_type(xs: &Vec<Value>) -> (r: Option<Type>)
    ensures
        opt_view(r) == match elems_spec(xs@) {
            Some(t) => Some(TypeV::Array(Box::new(t), xs@.len())),
            None => None,
        },
    decreases xs,
{
    let mut m: Option<Type> = None;
    let mut i: usize = 0;
    while i < xs.len()
        invariant
            i <= xs@.len(),
            i == 0 ==> m is None,
            i > 0 ==> m is Some && opt_view(m) == elems_spec(xs@.take(i as int)),
        decreases xs.len() - i,
    {
        assert(decreases_to!(xs => xs@[i as int]));
        let ghost tk = xs@.take(i + 1);
        assert(tk.drop_last() =~= xs@.take(i as int));
        assert(tk.last() == xs@[i as int]);
        let t = match extract_type(&xs[i]) {
            Some(t) => t,
            None => {
                proof { lemma_elems_none_extends(xs@, i + 1); }
                return None;
            },
        };
        match &m {
            Some(l) => {
                if !t.same(l) {
                    proof { lemma_elems_none_extends(xs@, i + 1); }
                    return None;
                }
            },
            None => {},
        }
        m = Some(t);
        i = i + 1;
    }
    assert(xs@.take(xs@.len() as int) =~= xs@);
    match m {
        Some(t) => Some(Type::Array(Box::new(t), xs.len())),
        None => None,
    }
}

proof fn lemma_elems_none_extends(s: Seq<Value>, i: int)
    requires
        1 <= i <= s.len(),
        elems_spec(s.take(i)) is None,
    ensures
        elems_spec(s) is None,
    decreases s.len() - i,
{
    if i < s.len() {
        let t = s.take(i + 1);
        assert(t.drop_last() =~= s.take(i));
        lemma_elems_none_extends(s, i + 1);
    } else {
        assert(s.take(i) =~= s);
    }
}

/// Whether every value fits the type.
pub fn check_elems(t: &Type, xs: &Vec<Value>) -> (r: bool)
    ensures
        r == all_fit(t@, xs@),
    decreases xs, 3nat,
{
    let mut i: usize = 0;
    while i < xs.len()
        invariant
            i <= xs@.len(),
            all_fit(t@, xs@.take(i as int)),
        decreases xs.len() - i,
    {
        assert(decreases_to!(xs => xs@[i as int]));
        let ghost tk = xs@.take(i + 1);
        assert(tk.drop_last() =~= xs@.take(i as int));
        assert(tk[tk.len() - 1] == xs@[i as int]);
        if !t.check(&xs[i]) {
            proof {
                if all_fit(t@, xs@) {
                    lemma_all_fit_prefix(t@, xs@, i + 1);
                }
            }
            return false;
        }
        i = i + 1;
    }
    assert(xs@.take(xs@.len() as int) =~= xs@);
    true
}

/// Whether each value fits the type at its position.
pub fn check_tuple(ys: &Vec<Type>, xs: &Vec<Value>) -> (r: bool)
    requires
        ys@.len() == xs@.len(),
    ensures
        r == each_fits(views(ys@), xs@),
    decreases xs, 3nat,
{
    proof { crate::types::lemma_views(ys@); }
    let ghost vs = views(ys@);
    let mut i: usize = 0;
    assert(vs.take(0) =~= Seq::<TypeV>::empty());
    while i < xs.len()
        invariant
            i <= xs@.len(),
            ys@.len() == xs@.len(),
            vs == views(ys@),
            vs.len() == ys@.len(),
            forall|k: int| 0 <= k < ys@.len() ==> #[trigger] vs[k] == ys@[k]@,
            each_fits(vs.take(i as int), xs@.take(i as int)),
        decreases xs.len() - i,
    {
        assert(decreases_to!(xs => xs@[i as int]));
        let ghost tk = xs@.take(i + 1);
        let ghost vk = vs.take(i + 1);
        assert(tk.drop_last() =~= xs@.take(i as int));
        assert(vk.drop_last() =~= vs.take(i as int));
        assert(tk[tk.len() - 1] == xs@[i as int]);
        assert(vk[vk.len() - 1] == ys@[i as int]@);
        if !ys[i].check(&xs[i]) {
            proof {
                if each_fits(vs, xs@) {
                    lemma_each_fits_prefix(vs, xs@, i + 1);
                }
            }
            return false;
        }
        i = i + 1;
    }
    assert(xs@.take(xs@.len() as int) =~= xs@);
    assert(vs.take(vs.len() as int) =~= vs);
    true
}

/// The default types of values, in order.
pub fn default_types(xs: &Vec<Value>) -> (r: Vec<Type>)
    ensures
        r@.len() == xs@.len(),
        views(r@) == defaults_spec(xs@),
    decreases xs, 3nat,
{
    let mut ts: Vec<Type> = Vec::new();
    let mut i: usize = 0;
    assert(views(ts@) =~= Seq::<TypeV>::empty());
    assert(xs@.take(0) =~= Seq::<Value>::empty());
    while i < xs.len()
        invariant
            i <= xs@.len(),
            ts@.len() == i,
            views(ts@) == defaults_spec(xs@.take(i as int)),
        decreases xs.len() - i,
    {
        assert(decreases_to!(xs => xs@[i as int]));
        let ghost tk = xs@.take(i + 1);
        assert(tk.drop_last() =~= xs@.take(i as int));
        assert(tk[tk.len() - 1] == xs@[i as int]);
        let d = default_type(&xs[i]);
        proof { lemma_views_push(ts@, d); }
        ts.push(d);
        i = i + 1;
    }
    assert(xs@.take(xs@.len() as int) =~= xs@);
    ts
}

} // verus!
