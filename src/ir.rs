use vstd::prelude::*;
use crate::text::{decimal_of, push_char, push_decimal, push_str, same_text, text, text_is};
use crate::types::{Type, TypeV};

verus! {

/// How a register is written: `_n` for a named stack slot, `n` for a temporary.
pub open spec fn reg_text(v: (usize, bool)) -> Seq<char> {
    if v.1 { "_"@ + decimal_of(v.0 as nat) } else { decimal_of(v.0 as nat) }
}

/// The register name of a binding: `_n` for a stack slot, `n` for a temporary.
pub fn ppbind(v: &(usize, bool)) -> (r: String)
    ensures
        r@ == reg_text(*v),
{
    let mut r = String::new();
    if v.1 {
        push_str(&mut r, "_");
    }
    push_decimal(&mut r, v.0 as u64);
    assert(r@ =~= reg_text(*v));
    r
}

/// Two engine states that agree on everything but the expected type.
pub open spec fn same_state(a: IR, b: IR) -> bool {
    a.temps() == b.temps() && a.locals() == b.locals() && a.scopes() == b.scopes() && a.global_text()
        == b.global_text() && a.prologue_text() == b.prologue_text() && a.anons() == b.anons()
}

/// Whether the pool names its constants `@.const.0`, `@.const.1`, ... in order, with
/// `count` of them.
pub open spec fn pool_numbered(p: Seq<(Seq<char>, Seq<char>)>, count: nat) -> bool {
    count == p.len() && forall|i: int| 0 <= i < p.len() ==> #[trigger] p[i].1 == "@.const."@ + decimal_of(i as nat)
}

/// The global name of the first pooled constant with text `k`.
pub open spec fn pool_find(p: Seq<(Seq<char>, Seq<char>)>, k: Seq<char>) -> Option<Seq<char>>
    decreases p.len(),
{
    if p.len() == 0 {
        None
    } else if p[0].0 == k {
        Some(p[0].1)
    } else {
        pool_find(p.drop_first(), k)
    }
}

/// The prologue line that allocates stack slot `c` for a value of type `t`.
pub open spec fn alloca_text(c: nat, t: TypeV) -> Seq<char> {
    "%_"@ + decimal_of(c) + " = alloca "@ + crate::types::llvm_of(t) + "\n"@
}

/// Name under which the destination of a composite value is bound.
pub open spec fn put_in_name() -> Seq<char> {
    "@put_in"@
}

/// Where `name` is bound in a stack of scopes, innermost first.
pub open spec fn find_bind(binds: Seq<Seq<(String, (usize, bool))>>, name: Seq<char>) -> Option<(usize, bool)>
    decreases binds.len(),
{
    if binds.len() == 0 {
        None
    } else {
        match find_in(binds.last(), name) {
            Some(v) => Some(v),
            None => find_bind(binds.drop_last(), name),
        }
    }
}

/// Where `name` is bound in one scope (its last binding).
pub open spec fn find_in(s: Seq<(String, (usize, bool))>, name: Seq<char>) -> Option<(usize, bool)>
    decreases s.len(),
{
    if s.len() == 0 {
        None
    } else if s.last().0@ == name {
        Some(s.last().1)
    } else {
        find_in(s.drop_last(), name)
    }
}

/// State of the lowering engine: the global section, the constant pool, the scopes of
/// registers, the struct field types, the expected type, the stack slots and the
/// counters of temporaries.
pub struct IR {
    global: String,
    constants: Vec<(String, String)>,
    const_counter: usize,
    anon_counter: usize,
    binds: Vec<Vec<(String, (usize, bool))>>,
    types: Vec<(String, Vec<(String, Type)>)>,
    current_type: Option<Type>,
    reserved_locals: usize,
    prologue: String,
    temp_counter: usize,
}

/// What an isolated lowering saves of the enclosing one.
pub struct Saved {
    pub reserved_locals: usize,
    pub temp_counter: usize,
    pub prologue: String,
}

impl IR {
    pub closed spec fn temps(&self) -> nat {
        self.temp_counter as nat
    }

    pub closed spec fn locals(&self) -> nat {
        self.reserved_locals as nat
    }

    pub open spec fn depth(&self) -> nat {
        self.scopes().len()
    }

    pub closed spec fn global_text(&self) -> Seq<char> {
        self.global@
    }

    pub closed spec fn prologue_text(&self) -> Seq<char> {
        self.prologue@
    }

    pub closed spec fn expected(&self) -> Option<TypeV> {
        match &self.current_type {
            Some(t) => Some(t@),
            None => None,
        }
    }

    pub closed spec fn scopes(&self) -> Seq<Seq<(String, (usize, bool))>> {
        self.binds@.map_values(|s: Vec<(String, (usize, bool))>| s@)
    }

    /// The constant pool: each constant's text and its global name.
    pub closed spec fn pool(&self) -> Seq<(Seq<char>, Seq<char>)> {
        self.constants@.map_values(|e: (String, String)| (e.0@, e.1@))
    }

    /// The recorded struct types: each name with its field names and types.
    pub closed spec fn struct_types(&self) -> Seq<(Seq<char>, Seq<(Seq<char>, TypeV)>)> {
        self.types@.map_values(|e: (String, Vec<(String, Type)>)| (e.0@, e.1@.map_values(|f: (String, Type)| (f.0@, f.1@))))
    }

    pub closed spec fn const_count(&self) -> nat {
        self.const_counter as nat
    }

    pub closed spec fn anons(&self) -> nat {
        self.anon_counter as nat
    }

    /// A fresh engine.
    pub fn new() -> (r: IR)
        ensures
            r.temps() == 0,
            r.locals() == 0,
            r.depth() == 0,
            r.global_text().len() == 0,
            r.expected() is None,
            r.anons() == 0,
            r.prologue_text().len() == 0,
            r.pool().len() == 0,
            r.const_count() == 0,
            pool_numbered(r.pool(), r.const_count()),
            r.struct_types().len() == 0,
    {
        IR {
            global: String::new(),
            constants: Vec::new(),
            const_counter: 0,
            anon_counter: 0,
            binds: Vec::new(),
            types: Vec::new(),
            current_type: None,
            reserved_locals: 0,
            prologue: String::new(),
            temp_counter: 0,
        }
    }

    /// Appends a line to the global section.
    pub fn global_write(&mut self, line: &str)
        ensures
            final(self).global_text() == old(self).global_text() + line@ + "\n"@,
            final(self).struct_types() == old(self).struct_types(),
            final(self).prologue_text() == old(self).prologue_text(),
            final(self).anons() == old(self).anons(),
            final(self).temps() == old(self).temps(),
            final(self).locals() == old(self).locals(),
            final(self).scopes() == old(self).scopes(),
            final(self).expected() == old(self).expected(),
    {
        push_str(&mut self.global, line);
        push_str(&mut self.global, "\n");
    }

    /// The global section.
    pub fn move_global(self) -> (r: String)
        ensures
            r@ == self.global_text(),
    {
        self.global
    }

    /// The name of a constant in the pool: the name it already has, or else a fresh
    /// `@.const.n`, defined by a line added to the global section.
    pub fn constant(&mut self, k: String) -> (r: Option<String>)
        ensures
            pool_find(old(self).pool(), k@) matches Some(v) ==> (r matches Some(x) && x@ == v
                && final(self).global_text() == old(self).global_text() && final(self).pool() == old(self).pool()),
            pool_find(old(self).pool(), k@) is None && old(self).const_count() < usize::MAX ==> (r matches Some(x)
                && x@ == "@.const."@ + decimal_of(old(self).const_count())
                && final(self).global_text() == old(self).global_text() + x@ + " = constant "@ + k@ + "\n"@
                && final(self).pool() == old(self).pool().push((k@, x@))
                && final(self).const_count() == old(self).const_count() + 1),
            pool_numbered(old(self).pool(), old(self).const_count())
                ==> pool_numbered(final(self).pool(), final(self).const_count()),
            final(self).temps() == old(self).temps(),
            final(self).locals() == old(self).locals(),
            final(self).scopes() == old(self).scopes(),
            final(self).expected() == old(self).expected(),
            final(self).prologue_text() == old(self).prologue_text(),
            final(self).anons() == old(self).anons(),
    {
        let mut i: usize = 0;
        assert(self.pool().skip(0) =~= self.pool());
        while i < self.constants.len()
            invariant
                i <= self.constants@.len(),
                pool_find(self.pool(), k@) == pool_find(self.pool().skip(i as int), k@),
            decreases self.constants.len() - i,
        {
            assert(self.pool().skip(i as int)[0] == self.pool()[i as int]);
            assert(self.pool().skip(i as int).drop_first() =~= self.pool().skip(i + 1));
            if same_text(&self.constants[i].0, &k) {
                assert(self.pool()[i as int] == (self.constants@[i as int].0@, self.constants@[i as int].1@));
                return Some(self.constants[i].1.clone());
            }
            assert(self.pool()[i as int] == (self.constants@[i as int].0@, self.constants@[i as int].1@));
            i = i + 1;
        }
        if self.const_counter == usize::MAX {
            return None;
        }
        let c = self.const_counter;
        self.const_counter = c + 1;
        let mut key = text("@.const.");
        push_decimal(&mut key, c as u64);
        let mut line = key.clone();
        push_str(&mut line, " = constant ");
        push_str(&mut line, k.as_str());
        assert(line@ == key@ + " = constant "@ + k@);
        push_str(&mut self.global, line.as_str());
        push_str(&mut self.global, "\n");
        let ghost kv = (k@, key@);
        self.constants.push((k, key.clone()));
        assert(self.pool() =~= old(self).pool().push(kv));
        assert(pool_numbered(old(self).pool(), old(self).const_count()) ==> pool_numbered(self.pool(), self.const_count())) by {
            if pool_numbered(old(self).pool(), old(self).const_count()) {
                assert forall|i: int| 0 <= i < self.pool().len() implies #[trigger] self.pool()[i].1 == "@.const."@ + decimal_of(i as nat) by {
                    if i < old(self).pool().len() {
                        assert(self.pool()[i] == old(self).pool()[i]);
                    }
                }
            }
        }
        assert(self.global_text() =~= old(self).global_text() + key@ + " = constant "@ + kv.0 + "\n"@);
        Some(key)
    }

    /// Opens a scope of registers.
    pub fn join(&mut self)
        ensures
            final(self).depth() == old(self).depth() + 1,
            final(self).temps() == old(self).temps(),
            final(self).locals() == old(self).locals(),
            final(self).expected() == old(self).expected(),
            final(self).global_text() == old(self).global_text(),
            final(self).scopes() == old(self).scopes().push(Seq::empty()),
            final(self).prologue_text() == old(self).prologue_text(),
            final(self).anons() == old(self).anons(),
    {
        self.binds.push(Vec::new());
        assert(self.scopes() =~= old(self).scopes().push(Seq::empty()));
    }

    /// Closes the innermost scope of registers; leaving the outermost one restarts the
    /// numbering of temporaries and stack slots at zero.
    pub fn leave(&mut self)
        ensures
            old(self).depth() > 0 ==> final(self).depth() == old(self).depth() - 1,
            old(self).depth() == 0 ==> final(self).depth() == 0,
            final(self).depth() == 0 ==> final(self).temps() == 0 && final(self).locals() == 0,
            final(self).depth() > 0 ==> final(self).temps() == old(self).temps() && final(self).locals() == old(self).locals(),
            old(self).depth() > 0 ==> final(self).scopes() == old(self).scopes().drop_last(),
            final(self).expected() == old(self).expected(),
            final(self).global_text() == old(self).global_text(),
            final(self).prologue_text() == old(self).prologue_text(),
            final(self).anons() == old(self).anons(),
    {
        let ghost before = self.scopes();
        self.binds.pop();
        assert(old(self).depth() > 0 ==> self.scopes() =~= before.drop_last());
        if self.binds.len() == 0 {
            self.temp_counter = 0;
            self.reserved_locals = 0;
        }
    }

    /// Starts an isolated lowering: temporaries, stack slots and the prologue start
    /// afresh, and what they were is returned, to be restored by `restore`.
    pub fn isolated(&mut self) -> (r: Saved)
        ensures
            final(self).temps() == 0,
            final(self).locals() == 0,
            final(self).prologue_text().len() == 0,
            r.temp_counter == old(self).temps(),
            r.reserved_locals == old(self).locals(),
            r.prologue@ == old(self).prologue_text(),
            final(self).scopes() == old(self).scopes(),
            final(self).expected() == old(self).expected(),
            final(self).global_text() == old(self).global_text(),
            final(self).anons() == old(self).anons(),
    {
        let mut p = String::new();
        std::mem::swap(&mut p, &mut self.prologue);
        let s = Saved { reserved_locals: self.reserved_locals, temp_counter: self.temp_counter, prologue: p };
        self.reserved_locals = 0;
        self.temp_counter = 0;
        s
    }

    /// Ends an isolated lowering, restoring what `isolated` saved.
    pub fn restore(&mut self, s: Saved)
        ensures
            final(self).temps() == s.temp_counter,
            final(self).locals() == s.reserved_locals,
            final(self).prologue_text() == s.prologue@,
            final(self).scopes() == old(self).scopes(),
            final(self).global_text() == old(self).global_text(),
            final(self).anons() == old(self).anons(),
    {
        self.reserved_locals = s.reserved_locals;
        self.temp_counter = s.temp_counter;
        self.prologue = s.prologue;
    }

    /// A fresh temporary (or label) number; none once the numbers are used up.
    pub fn temp(&mut self) -> (r: Option<usize>)
        ensures
            old(self).temps() < usize::MAX ==> r == Some(old(self).temps() as usize)
                && final(self).temps() == old(self).temps() + 1,
            old(self).temps() == usize::MAX ==> r is None && final(self).temps() == old(self).temps(),
            r matches Some(n) ==> n as nat == old(self).temps() && final(self).temps() == old(self).temps() + 1,
            final(self).locals() == old(self).locals(),
            final(self).scopes() == old(self).scopes(),
            final(self).expected() == old(self).expected(),
            final(self).global_text() == old(self).global_text(),
            final(self).anons() == old(self).anons(),
            final(self).prologue_text() == old(self).prologue_text(),
    {
        if self.temp_counter == usize::MAX {
            return None;
        }
        let s = self.temp_counter;
        self.temp_counter = s + 1;
        Some(s)
    }

    /// The last temporary handed out, if any.
    pub fn last_temp(&self) -> (r: Option<usize>)
        ensures
            self.temps() > 0 ==> r == Some((self.temps() - 1) as usize),
            self.temps() == 0 ==> r is None,
    {
        if self.temp_counter == 0 {
            None
        } else {
            Some(self.temp_counter - 1)
        }
    }

    /// A fresh number for an anonymous function.
    pub fn anon(&mut self) -> (r: Option<usize>)
        ensures
            old(self).anons() < usize::MAX ==> r == Some(old(self).anons() as usize)
                && final(self).anons() == old(self).anons() + 1,
            final(self).temps() == old(self).temps(),
            final(self).locals() == old(self).locals(),
            final(self).scopes() == old(self).scopes(),
            final(self).expected() == old(self).expected(),
            final(self).global_text() == old(self).global_text(),
    {
        if self.anon_counter == usize::MAX {
            return None;
        }
        let s = self.anon_counter;
        self.anon_counter = s + 1;
        Some(s)
    }

    /// Binds a name to a register in the innermost scope (opening one if there is none).
    pub fn bind(&mut self, k: &String, v: usize, named: bool)
        ensures
            find_bind(final(self).scopes(), k@) == Some((v, named)),
            old(self).depth() > 0 ==> final(self).scopes().drop_last() == old(self).scopes().drop_last(),
            final(self).temps() == old(self).temps(),
            final(self).locals() == old(self).locals(),
            final(self).expected() == old(self).expected(),
            final(self).global_text() == old(self).global_text(),
            final(self).anons() == old(self).anons(),
            final(self).prologue_text() == old(self).prologue_text(),
            old(self).depth() > 0 ==> final(self).depth() == old(self).depth(),
    {
        if self.binds.len() == 0 {
            self.binds.push(Vec::new());
        }
        let n = self.binds.len();
        let mut scope = self.binds.remove(n - 1);
        let ghost kk = k@;
        let kc = k.clone();
        assert(kc@ == kk);
        scope.push((kc, (v, named)));
        assert(scope@.last().0@ == kk);
        assert(find_in(scope@, kk) == Some((v, named)));
        let ghost sv = scope@;
        let ghost mid = self.binds@;
        self.binds.push(scope);
        proof {
            if old(self).depth() > 0 {
                assert(self.scopes().drop_last() =~= old(self).scopes().drop_last());
            }
            let sc = self.scopes();
            assert(sc.len() > 0);
            assert(sc.last() == sv);
        }
    }

    /// Where a name is bound, from the innermost scope out.
    pub fn get_bind(&self, name: &String) -> (r: Option<(usize, bool)>)
        ensures
            r == find_bind(self.scopes(), name@),
    {
        let mut i = self.binds.len();
        assert(self.scopes().take(i as int) =~= self.scopes());
        while i > 0
            invariant
                i <= self.binds@.len(),
                find_bind(self.scopes(), name@) == find_bind(self.scopes().take(i as int), name@),
            decreases i,
        {
            let scope = &self.binds[i - 1];
            let mut j = scope.len();
            let ghost s = self.scopes().take(i as int);
            assert(s.last() == scope@);
            assert(scope@.take(j as int) =~= scope@);
            while j > 0
                invariant
                    j <= scope@.len(),
                    find_in(scope@, name@) == find_in(scope@.take(j as int), name@),
                    s.len() == i,
                    i > 0,
                    s.last() == scope@,
                    find_bind(self.scopes(), name@) == find_bind(s, name@),
                decreases j,
            {
                if same_text(&scope[j - 1].0, name) {
                    assert(scope@.take(j as int).last() == scope@[j - 1]);
                    return Some(scope[j - 1].1);
                }
                assert(scope@.take(j as int).drop_last() =~= scope@.take(j - 1));
                j = j - 1;
            }
            assert(s.drop_last() =~= self.scopes().take(i - 1));
            i = i - 1;
        }
        None
    }

    /// Removes the bindings of a name from the innermost scope.
    pub fn remove_bind(&mut self, k: &String)
        ensures
            final(self).temps() == old(self).temps(),
            final(self).locals() == old(self).locals(),
            final(self).depth() == old(self).depth(),
            final(self).expected() == old(self).expected(),
            final(self).global_text() == old(self).global_text(),
            final(self).anons() == old(self).anons(),
            final(self).prologue_text() == old(self).prologue_text(),
    {
        let n = self.binds.len();
        if n == 0 {
            return;
        }
        let scope = self.binds.remove(n - 1);
        let mut kept: Vec<(String, (usize, bool))> = Vec::new();
        let mut i: usize = 0;
        while i < scope.len()
            invariant
                i <= scope@.len(),
            decreases scope.len() - i,
        {
            if !same_text(&scope[i].0, k) {
                kept.push((scope[i].0.clone(), scope[i].1));
            }
            i = i + 1;
        }
        self.binds.push(kept);
    }

    /// Sets the type that the value being lowered is expected to have; returns the
    /// previous one, to be put back with `restore_type`.
    pub fn type_context(&mut self, typ: Option<Type>) -> (r: Option<Type>)
        ensures
            final(self).expected() == (match typ { Some(t) => Some(t@), None => None::<TypeV> }),
            (match r { Some(t) => Some(t@), None => None::<TypeV> }) == old(self).expected(),
            final(self).temps() == old(self).temps(),
            final(self).locals() == old(self).locals(),
            final(self).scopes() == old(self).scopes(),
            final(self).global_text() == old(self).global_text(),
            final(self).anons() == old(self).anons(),
            final(self).prologue_text() == old(self).prologue_text(),
    {
        let mut typ = typ;
        std::mem::swap(&mut self.current_type, &mut typ);
        typ
    }

    /// Puts back an expected type that `type_context` returned.
    pub fn restore_type(&mut self, typ: Option<Type>)
        ensures
            final(self).expected() == (match typ { Some(t) => Some(t@), None => None::<TypeV> }),
            final(self).temps() == old(self).temps(),
            final(self).locals() == old(self).locals(),
            final(self).scopes() == old(self).scopes(),
            final(self).global_text() == old(self).global_text(),
            final(self).anons() == old(self).anons(),
            final(self).prologue_text() == old(self).prologue_text(),
    {
        self.current_type = typ;
    }

    /// Lends `typ` to the context as the expected type, leaving `void` in its place;
    /// returns the previous expected type, to be put back with `return_ref_type`.
    pub fn ref_type_context(&mut self, typ: &mut Type) -> (r: Option<Type>)
        ensures
            final(self).expected() == Some(old(typ)@),
            final(typ)@ == TypeV::Void,
            (match r { Some(t) => Some(t@), None => None::<TypeV> }) == old(self).expected(),
            same_state(*final(self), *old(self)),
    {
        let mut t = Type::Void;
        std::mem::swap(&mut t, typ);
        let mut c = Some(t);
        std::mem::swap(&mut self.current_type, &mut c);
        c
    }

    /// Ends a `ref_type_context`: the lent type goes back to `typ` and the expected type
    /// becomes `saved` again.
    pub fn return_ref_type(&mut self, typ: &mut Type, saved: Option<Type>)
        ensures
            final(self).expected() == (match saved { Some(t) => Some(t@), None => None::<TypeV> }),
            old(self).expected() matches Some(e) ==> final(typ)@ == e,
            same_state(*final(self), *old(self)),
    {
        let mut c = saved;
        std::mem::swap(&mut self.current_type, &mut c);
        match c {
            Some(t) => *typ = t,
            None => {},
        }
    }

    /// The type the value being lowered is expected to have.
    pub fn get_current_type(&self) -> (r: Option<&Type>)
        ensures
            (match r { Some(t) => Some(t@), None => None::<TypeV> }) == self.expected(),
    {
        match &self.current_type {
            Some(t) => Some(t),
            None => None,
        }
    }

    /// Starts an empty prologue.
    pub fn new_prologue(&mut self)
        ensures
            final(self).prologue_text().len() == 0,
            final(self).temps() == old(self).temps(),
            final(self).locals() == old(self).locals(),
            final(self).scopes() == old(self).scopes(),
            final(self).expected() == old(self).expected(),
            final(self).global_text() == old(self).global_text(),
            final(self).anons() == old(self).anons(),
    {
        self.prologue = String::new();
    }

    /// Takes the prologue, leaving it empty.
    pub fn move_prologue(&mut self) -> (r: String)
        ensures
            r@ == old(self).prologue_text(),
            final(self).prologue_text().len() == 0,
            final(self).temps() == old(self).temps(),
            final(self).locals() == old(self).locals(),
            final(self).scopes() == old(self).scopes(),
            final(self).expected() == old(self).expected(),
            final(self).global_text() == old(self).global_text(),
            final(self).anons() == old(self).anons(),
    {
        let mut p = String::new();
        std::mem::swap(&mut p, &mut self.prologue);
        p
    }

    /// Appends to the prologue.
    pub fn get_prologue(&mut self, s: &str)
        ensures
            final(self).prologue_text() == old(self).prologue_text() + s@,
            final(self).temps() == old(self).temps(),
            final(self).locals() == old(self).locals(),
            final(self).scopes() == old(self).scopes(),
            final(self).expected() == old(self).expected(),
            final(self).global_text() == old(self).global_text(),
            final(self).anons() == old(self).anons(),
    {
        push_str(&mut self.prologue, s);
    }

    /// Reserves a stack slot for a value of type `typ`, allocated in the prologue.
    pub fn reserve_local(&mut self, typ: &Type) -> (r: Option<(usize, bool)>)
        ensures
            old(self).locals() < usize::MAX ==> r == Some((old(self).locals() as usize, true))
                && final(self).locals() == old(self).locals() + 1,
            old(self).locals() == usize::MAX ==> r is None && final(self).prologue_text() == old(self).prologue_text(),
            r is Some ==> final(self).prologue_text() == old(self).prologue_text() + alloca_text(old(self).locals(), typ@),
            final(self).temps() == old(self).temps(),
            final(self).scopes() == old(self).scopes(),
            final(self).expected() == old(self).expected(),
            final(self).global_text() == old(self).global_text(),
            final(self).anons() == old(self).anons(),
    {
        if self.reserved_locals == usize::MAX {
            return None;
        }
        let c = self.reserved_locals;
        self.reserved_locals = c + 1;
        let ghost p0 = self.prologue@;
        push_str(&mut self.prologue, "%_");
        push_decimal(&mut self.prologue, c as u64);
        push_str(&mut self.prologue, " = alloca ");
        typ.write_llvm(&mut self.prologue);
        push_str(&mut self.prologue, "\n");
        assert(self.prologue@ =~= p0 + alloca_text(c as nat, typ@));
        Some((c, true))
    }

    /// The destination to write a composite value to: the marked one, if the caller
    /// set one (then `true`), else a fresh stack slot (then `false`).
    pub fn seek_local(&mut self, typ: &Type) -> (r: Option<((usize, bool), bool)>)
        ensures
            find_bind(old(self).scopes(), put_in_name()) matches Some(d) ==> r == Some((d, true))
                && final(self).locals() == old(self).locals()
                && final(self).prologue_text() == old(self).prologue_text(),
            find_bind(old(self).scopes(), put_in_name()) is None && old(self).locals() < usize::MAX
                ==> final(self).prologue_text() == old(self).prologue_text() + alloca_text(old(self).locals(), typ@),
            find_bind(old(self).scopes(), put_in_name()) is None ==> (r matches Some(p) ==> !p.1),
            find_bind(old(self).scopes(), put_in_name()) is None && old(self).locals() < usize::MAX ==> r == Some(
                ((old(self).locals() as usize, true), false),
            ) && final(self).locals() == old(self).locals() + 1,
            final(self).temps() == old(self).temps(),
            final(self).scopes() == old(self).scopes(),
            final(self).expected() == old(self).expected(),
            final(self).global_text() == old(self).global_text(),
            final(self).anons() == old(self).anons(),
    {
        let key = text("@put_in");
        match self.get_bind(&key) {
            Some(x) => Some((x, true)),
            None => match self.reserve_local(typ) {
                Some(x) => Some((x, false)),
                None => None,
            },
        }
    }

    /// Marks `l` as the destination of the next composite value.
    pub fn mark_put_in(&mut self, l: (usize, bool))
        ensures
            find_bind(final(self).scopes(), put_in_name()) == Some(l),
            old(self).depth() > 0 ==> final(self).scopes().drop_last() == old(self).scopes().drop_last()
                && final(self).depth() == old(self).depth(),
            final(self).temps() == old(self).temps(),
            final(self).locals() == old(self).locals(),
            final(self).expected() == old(self).expected(),
            final(self).global_text() == old(self).global_text(),
            final(self).anons() == old(self).anons(),
            final(self).prologue_text() == old(self).prologue_text(),
    {
        let key = text("@put_in");
        self.bind(&key, l.0, l.1);
    }

    /// Clears the destination mark of the innermost scope.
    pub fn unmark_put_in(&mut self)
        ensures
            final(self).temps() == old(self).temps(),
            final(self).locals() == old(self).locals(),
            final(self).depth() == old(self).depth(),
            final(self).expected() == old(self).expected(),
            final(self).global_text() == old(self).global_text(),
            final(self).anons() == old(self).anons(),
            final(self).prologue_text() == old(self).prologue_text(),
    {
        let key = text("@put_in");
        self.remove_bind(&key);
    }

    /// The destination mark, if one is set.
    pub fn get_mark_put_in(&self) -> (r: Option<(usize, bool)>)
        ensures
            r == find_bind(self.scopes(), put_in_name()),
    {
        let key = text("@put_in");
        self.get_bind(&key)
    }

    /// Records the field names and types of a struct, in order.
    pub fn bind_type(&mut self, name: String, kv: Vec<(String, Type)>)
        ensures
            final(self).struct_types() == old(self).struct_types().push(
                (name@, kv@.map_values(|f: (String, Type)| (f.0@, f.1@))),
            ),
            final(self).temps() == old(self).temps(),
            final(self).locals() == old(self).locals(),
            final(self).scopes() == old(self).scopes(),
            final(self).expected() == old(self).expected(),
            final(self).global_text() == old(self).global_text(),
            final(self).anons() == old(self).anons(),
            final(self).prologue_text() == old(self).prologue_text(),
    {
        let ghost e = (name@, kv@.map_values(|f: (String, Type)| (f.0@, f.1@)));
        self.types.push((name, kv));
        assert(self.struct_types() =~= old(self).struct_types().push(e));
    }

    /// The field names and types of a struct, in order.
    pub fn get_type(&self, name: &String) -> (r: Option<&Vec<(String, Type)>>) {
        let mut i = self.types.len();
        while i > 0
            invariant
                i <= self.types@.len(),
            decreases i,
        {
            if same_text(&self.types[i - 1].0, name) {
                return Some(&self.types[i - 1].1);
            }
            i = i - 1;
        }
        None
    }
}

} // verus!
