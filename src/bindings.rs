use vstd::prelude::*;
use crate::ast::Decl;
use crate::insordmap::{key_pos, lemma_key_pos, InsordMap};
use crate::lexer::Token;
use crate::target::Target;
use vstd::string::StrSliceExecFns;
use crate::text::{push_str, same_text, text};
use crate::types::Type;

verus! {

/// The kind of region that the parser is in.
pub enum Context {
    /// a function body, with its return type
    Fn(Type),
    If,
    Loop,
    Array,
}

/// What a name is bound to.
pub enum Bind {
    /// a variable: (type, mutable)
    Let(Type, bool),
    /// a function: (parameter types, return type, declaration slot)
    Function(Vec<Type>, Type, Option<usize>),
    Label,
    Mark,
    Namespace,
    /// a struct type, with its declaration slot
    Type(Option<usize>),
    /// another name for the qualified name it holds
    Alias(String),
}

/// A recoverable or fatal diagnostic, at a 1-based source position.
#[derive(Debug)]
pub struct Diagnostic {
    pub line: usize,
    pub col: usize,
    /// number of characters underlined
    pub width: usize,
    pub message: String,
}

/// Name under which a function body's scope holds its barrier.
pub open spec fn barrier_name() -> Seq<char> {
    "@barrier"@
}

/// Binds that stop being visible once the lookup has crossed a function boundary.
pub open spec fn is_local(b: Bind) -> bool {
    b is Let || b is Mark || b is Label
}

/// Whether a scope holds the barrier of a function body.
pub open spec fn has_barrier(m: InsordMap<Bind>) -> bool {
    exists|j: int|
        0 <= j < m.entries().len() && m.entries()[j].0@ == barrier_name() && #[trigger] m.entries()[j].1 is Mark
}

/// Where `name` resolves, scanning scopes from `i` down to the root; `passed` tells
/// whether a function boundary has been crossed already. Once one has, local binds
/// no longer resolve and stop the scan.
pub open spec fn lookup_from(scopes: Seq<InsordMap<Bind>>, name: Seq<char>, i: int, passed: bool) -> Option<(int, int)>
    decreases i + 1,
{
    if i < 0 || i >= scopes.len() {
        None
    } else {
        match key_pos(scopes[i].entries(), name) {
            Some(j) => if is_local(scopes[i].entries()[j].1) && passed {
                None
            } else {
                Some((i, j))
            },
            None => lookup_from(scopes, name, i - 1, passed || has_barrier(scopes[i])),
        }
    }
}

/// Where `name` resolves from the innermost scope.
pub open spec fn lookup(scopes: Seq<InsordMap<Bind>>, name: Seq<char>) -> Option<(int, int)> {
    lookup_from(scopes, name, scopes.len() - 1, false)
}

proof fn lemma_lookup_in_range(scopes: Seq<InsordMap<Bind>>, name: Seq<char>, i: int, passed: bool)
    ensures
        lookup_from(scopes, name, i, passed) matches Some(p) ==> 0 <= p.0 <= i && p.0 < scopes.len() && 0
            <= p.1 < scopes[p.0].entries().len() && scopes[p.0].entries()[p.1].0@ == name,
    decreases i + 1,
{
    if 0 <= i < scopes.len() {
        lemma_lookup_in_range(scopes, name, i - 1, passed || has_barrier(scopes[i]));
    }
}

/// Once a lookup has crossed the boundary of a function body, a variable, label or
/// marker of an enclosing scope does not resolve, while a function, type, namespace
/// or alias still does; nothing before the boundary is hidden by it.
pub proof fn lemma_scope_barrier(scopes: Seq<InsordMap<Bind>>, name: Seq<char>, i: int, j: int, k: int)
    requires
        0 <= i < k < scopes.len(),
        0 <= j < scopes[i].entries().len(),
        scopes[i].wf(),
        scopes[i].entries()[j].0@ == name,
        has_barrier(scopes[k]),
        forall|m: int, e: int|
            i < m < scopes.len() && 0 <= e < scopes[m].entries().len() ==> scopes[m].entries()[e].0@ != name,
    ensures
        is_local(scopes[i].entries()[j].1) ==> lookup(scopes, name) is None,
        !is_local(scopes[i].entries()[j].1) ==> lookup(scopes, name) == Some((i, j)),
{
    lemma_barrier_scan(scopes, name, i, j, k, scopes.len() - 1, false);
}

proof fn lemma_barrier_scan(scopes: Seq<InsordMap<Bind>>, name: Seq<char>, i: int, j: int, k: int, m: int, passed: bool)
    requires
        0 <= i < k < scopes.len(),
        i <= m < scopes.len(),
        0 <= j < scopes[i].entries().len(),
        scopes[i].wf(),
        scopes[i].entries()[j].0@ == name,
        has_barrier(scopes[k]),
        m < k ==> passed,
        forall|n: int, e: int|
            i < n < scopes.len() && 0 <= e < scopes[n].entries().len() ==> scopes[n].entries()[e].0@ != name,
    ensures
        is_local(scopes[i].entries()[j].1) ==> lookup_from(scopes, name, m, passed) is None,
        !is_local(scopes[i].entries()[j].1) ==> lookup_from(scopes, name, m, passed) == Some((i, j)),
    decreases m,
{
    if m == i {
        lemma_key_pos(scopes[i].entries(), name, j);
    } else {
        assert(key_pos(scopes[m].entries(), name) is None) by {
            assert(!(exists|e: int| 0 <= e < scopes[m].entries().len() && scopes[m].entries()[e].0@ == name));
        }
        lemma_barrier_scan(scopes, name, i, j, k, m - 1, passed || has_barrier(scopes[m]));
    }
}

/// How inserting `key` and `value` into a scope's entries changed them: the value
/// replaces the one of an equal key in place, which is returned; or, when there was
/// none, the entry is appended.
pub open spec fn inserted(before: Seq<(String, Bind)>, after: Seq<(String, Bind)>, key: String, value: Bind, r: Option<Bind>) -> bool {
    match r {
        Some(v) => exists|p: int|
            0 <= p < before.len() && before[p].0@ == key@ && before[p].1 == v && after == before.update(p, (key, value)),
        None => (forall|i: int| 0 <= i < before.len() ==> before[i].0@ != key@) && after == before.push((key, value)),
    }
}

/// After an insertion the key is present with the inserted value.
pub proof fn lemma_inserted_has(before: Seq<(String, Bind)>, after: Seq<(String, Bind)>, key: String, value: Bind, r: Option<Bind>)
    requires
        inserted(before, after, key, value, r),
    ensures
        exists|j: int| 0 <= j < after.len() && after[j].0@ == key@ && after[j].1 == value,
{
    match r {
        Some(v) => {
            let p = choose|p: int|
                0 <= p < before.len() && before[p].0@ == key@ && before[p].1 == v && after == before.update(p, (key, value));
            assert(after[p] == (key, value));
        },
        None => {
            assert(after[after.len() - 1] == (key, value));
        },
    }
}

/// An insertion keeps every entry of another key where it was.
pub proof fn lemma_inserted_keeps(before: Seq<(String, Bind)>, after: Seq<(String, Bind)>, key: String, value: Bind, r: Option<Bind>, j: int)
    requires
        inserted(before, after, key, value, r),
        0 <= j < before.len(),
        before[j].0@ != key@,
    ensures
        j < after.len() && after[j] == before[j],
{
    match r {
        Some(v) => {
            let p = choose|p: int|
                0 <= p < before.len() && before[p].0@ == key@ && before[p].1 == v && after == before.update(p, (key, value));
            assert(p != j);
        },
        None => {},
    }
}

/// Symbol table of one compilation unit: the scope stack, the context stack, the
/// namespace path, the declaration slots and the queues of promised declarations.
pub struct Bindings {
    content: Vec<InsordMap<Bind>>,
    context: Vec<Context>,
    global_prefix: Vec<String>,
    decls: Vec<Decl>,
    promised_functions: Vec<usize>,
    promised_types: Vec<usize>,
    links: Vec<String>,
    target: Target,
    compileable: bool,
    diagnostics: Vec<Diagnostic>,
}

impl Bindings {
    pub closed spec fn wf(&self) -> bool {
        &&& self.content@.len() >= 1
        &&& forall|i: int| 0 <= i < self.content@.len() ==> (#[trigger] self.content@[i]).wf()
    }

    /// Every scope of a well-formed table has unique keys, so the scope barrier law
    /// applies to its scopes.
    pub proof fn lemma_wf_scopes(&self)
        requires
            self.wf(),
        ensures
            self.scopes().len() >= 1,
            forall|i: int| 0 <= i < self.scopes().len() ==> (#[trigger] self.scopes()[i]).wf(),
    {
    }

    /// The scopes, innermost last.
    pub closed spec fn scopes(&self) -> Seq<InsordMap<Bind>> {
        self.content@
    }

    /// The contexts, innermost last.
    pub closed spec fn contexts(&self) -> Seq<Context> {
        self.context@
    }

    /// The namespace path.
    pub closed spec fn prefix(&self) -> Seq<String> {
        self.global_prefix@
    }

    pub closed spec fn functions_queue(&self) -> Seq<usize> {
        self.promised_functions@
    }

    pub closed spec fn types_queue(&self) -> Seq<usize> {
        self.promised_types@
    }

    pub closed spec fn link_list(&self) -> Seq<String> {
        self.links@
    }

    pub closed spec fn ptr_bits(&self) -> u8 {
        self.target.ptr_bits
    }

    pub closed spec fn compiles(&self) -> bool {
        self.compileable
    }

    /// The declaration slots.
    pub closed spec fn decl_slots(&self) -> Seq<Decl> {
        self.decls@
    }

    /// The diagnostics recorded so far.
    pub closed spec fn diags(&self) -> Seq<Diagnostic> {
        self.diagnostics@
    }

    /// A symbol table with one, empty, root scope.
    pub fn new(target: Target) -> (r: Bindings)
        ensures
            r.wf(),
            r.scopes().len() == 1,
            r.scopes()[0].entries().len() == 0,
            r.contexts().len() == 0,
            r.prefix().len() == 0,
            r.functions_queue().len() == 0,
            r.types_queue().len() == 0,
            r.decl_slots().len() == 0,
            r.diags().len() == 0,
            r.ptr_bits() == target.ptr_bits,
            r.compiles(),
    {
        let mut content: Vec<InsordMap<Bind>> = Vec::new();
        content.push(InsordMap::new());
        Bindings {
            content,
            context: Vec::new(),
            global_prefix: Vec::new(),
            decls: Vec::new(),
            promised_functions: Vec::new(),
            promised_types: Vec::new(),
            links: Vec::new(),
            target,
            compileable: true,
            diagnostics: Vec::new(),
        }
    }

    fn barrier_in(m: &InsordMap<Bind>) -> (r: bool)
        requires
            m.wf(),
        ensures
            r == has_barrier(*m),
    {
        let b = text("@barrier");
        match m.get(&b) {
            Some(x) => {
                let r = match x {
                    Bind::Mark => true,
                    _ => false,
                };
                proof {
                    if !r {
                        assert forall|j: int|
                            0 <= j < m.entries().len() && m.entries()[j].0@ == barrier_name()
                                implies !(#[trigger] m.entries()[j].1 is Mark) by {
                            assert(m.entries()[j].0@ == b@);
                        }
                    }
                }
                r
            },
            None => false,
        }
    }

    /// Where `name` resolves: the innermost bind of that name, except that a variable,
    /// label or marker beyond a function boundary is not visible and hides nothing.
    pub fn get_pos(&self, name: &String) -> (r: Option<(usize, usize)>)
        requires
            self.wf(),
        ensures
            match r {
                Some(p) => lookup(self.scopes(), name@) == Some((p.0 as int, p.1 as int)),
                None => lookup(self.scopes(), name@) is None,
            },
    {
        let mut i: usize = self.content.len();
        let mut passed = false;
        while i > 0
            invariant
                self.wf(),
                i <= self.content@.len(),
                lookup(self.scopes(), name@) == lookup_from(self.scopes(), name@, i - 1, passed),
            decreases i,
        {
            let scope = &self.content[i - 1];
            let bp = Self::barrier_in(scope);
            match scope.get_w_p(name) {
                Some((b, j)) => {
                    proof {
                        lemma_key_pos(scope.entries(), name@, j as int);
                    }
                    let local = match b {
                        Bind::Let(_, _) | Bind::Mark | Bind::Label => true,
                        _ => false,
                    };
                    if local && passed {
                        return None;
                    }
                    return Some((i - 1, j));
                },
                None => {
                    proof {
                        let e = scope.entries();
                        assert(!(exists|k: int| 0 <= k < e.len() && e[k].0@ == name@));
                    }
                },
            }
            if bp {
                passed = true;
            }
            i = i - 1;
        }
        None
    }

    /// The bind that `name` resolves to (see `get_pos`).
    pub fn get(&self, name: &String) -> (r: Option<&Bind>)
        requires
            self.wf(),
        ensures
            match lookup(self.scopes(), name@) {
                Some(p) => r == Some(&self.scopes()[p.0].entries()[p.1].1),
                None => r is None,
            },
    {
        match self.get_pos(name) {
            Some((i, j)) => {
                proof { lemma_lookup_in_range(self.scopes(), name@, self.scopes().len() - 1, false); }
                Some(self.content[i].values(j))
            },
            None => None,
        }
    }

    /// The bind of `name` in the innermost scope only.
    pub fn get_at_current(&self, name: &String) -> (r: Option<&Bind>)
        requires
            self.wf(),
        ensures
            match r {
                Some(b) => exists|j: int|
                    0 <= j < self.scopes().last().entries().len()
                        && self.scopes().last().entries()[j].0@ == name@
                        && self.scopes().last().entries()[j].1 == *b,
                None => forall|j: int|
                    0 <= j < self.scopes().last().entries().len()
                        ==> self.scopes().last().entries()[j].0@ != name@,
            },
    {
        let n = self.content.len();
        let r = self.content[n - 1].get(name);
        assert(self.content@[n - 1] == self.scopes().last());
        r
    }

    /// The bind of `name` in the scope at depth `at` (0 is the root).
    pub fn get_at(&self, at: usize, name: &String) -> (r: Option<&Bind>)
        requires
            self.wf(),
        ensures
            at >= self.scopes().len() ==> r is None,
            at < self.scopes().len() ==> match r {
                Some(b) => exists|j: int|
                    0 <= j < self.scopes()[at as int].entries().len()
                        && self.scopes()[at as int].entries()[j].0@ == name@
                        && self.scopes()[at as int].entries()[j].1 == *b,
                None => forall|j: int|
                    0 <= j < self.scopes()[at as int].entries().len()
                        ==> self.scopes()[at as int].entries()[j].0@ != name@,
            },
    {
        if at >= self.content.len() {
            return None;
        }
        self.content[at].get(name)
    }

    /// Opens a new, empty, innermost scope.
    pub fn join_scope(&mut self)
        requires
            old(self).wf(),
        ensures
            final(self).wf(),
            final(self).scopes().len() == old(self).scopes().len() + 1,
            final(self).scopes().drop_last() == old(self).scopes(),
            final(self).scopes().last().entries().len() == 0,
            final(self).contexts() == old(self).contexts(),
            final(self).prefix() == old(self).prefix(),
            final(self).ptr_bits() == old(self).ptr_bits(),
    {
        self.content.push(InsordMap::new());
        assert(self.content@.drop_last() =~= old(self).content@);
    }
}

impl Bindings {
    /// Closes the innermost scope, unless it is the root.
    pub fn leave_scope(&mut self)
        requires
            old(self).wf(),
        ensures
            final(self).wf(),
            old(self).scopes().len() > 1 ==> final(self).scopes() == old(self).scopes().drop_last(),
            old(self).scopes().len() == 1 ==> final(self).scopes() == old(self).scopes(),
            final(self).contexts() == old(self).contexts(),
            final(self).prefix() == old(self).prefix(),
            final(self).ptr_bits() == old(self).ptr_bits(),
            final(self).compiles() == old(self).compiles(),
    {
        if self.content.len() > 1 {
            self.content.pop();
        }
    }

    /// Inserts a bind in the innermost scope; returns the bind of that name that the
    /// scope held before, which the new one replaces.
    pub fn insert(&mut self, name: String, value: Bind) -> (r: Option<Bind>)
        requires
            old(self).wf(),
        ensures
            final(self).wf(),
            final(self).scopes().len() == old(self).scopes().len(),
            final(self).scopes().drop_last() == old(self).scopes().drop_last(),
            exists|j: int|
                0 <= j < final(self).scopes().last().entries().len()
                    && final(self).scopes().last().entries()[j].0@ == name@,
            inserted(old(self).scopes().last().entries(), final(self).scopes().last().entries(), name, value, r),
            final(self).contexts() == old(self).contexts(),
            final(self).prefix() == old(self).prefix(),
            final(self).ptr_bits() == old(self).ptr_bits(),
            final(self).compiles() == old(self).compiles(),
            final(self).decl_slots() == old(self).decl_slots(),
            final(self).functions_queue() == old(self).functions_queue(),
            final(self).types_queue() == old(self).types_queue(),
    {
        let n = self.content.len();
        let ghost k = name;
        let ghost vv = value;
        let mut scope = self.content.remove(n - 1);
        let r = scope.insert(name, value);
        let ghost sc = scope;
        self.content.push(scope);
        proof {
            assert(self.content@.drop_last() =~= old(self).content@.drop_last());
            assert(self.scopes().last() == sc);
            let j = choose|j: int| 0 <= j < sc.entries().len() && sc.entries()[j].0@ == k@;
            assert(self.scopes().last().entries()[j].0@ == k@);
        }
        r
    }

    /// Inserts a bind in the root scope; returns the bind it replaces.
    pub fn root_insert(&mut self, name: String, value: Bind) -> (r: Option<Bind>)
        requires
            old(self).wf(),
        ensures
            final(self).wf(),
            exists|j: int|
                0 <= j < final(self).scopes()[0].entries().len()
                    && final(self).scopes()[0].entries()[j].0@ == name@,
            inserted(old(self).scopes()[0].entries(), final(self).scopes()[0].entries(), name, value, r),
            final(self).functions_queue() == old(self).functions_queue(),
            final(self).types_queue() == old(self).types_queue(),
            final(self).scopes().len() == old(self).scopes().len(),
            final(self).scopes().skip(1) == old(self).scopes().skip(1),
            final(self).contexts() == old(self).contexts(),
            final(self).prefix() == old(self).prefix(),
            final(self).ptr_bits() == old(self).ptr_bits(),
            final(self).compiles() == old(self).compiles(),
            final(self).decl_slots() == old(self).decl_slots(),
    {
        let ghost k = name;
        let mut scope = self.content.remove(0);
        let r = scope.insert(name, value);
        let ghost sc = scope;
        self.content.insert(0, scope);
        assert(self.content@.skip(1) =~= old(self).content@.skip(1));
        proof {
            assert(self.scopes()[0] == sc);
            let j = choose|j: int| 0 <= j < sc.entries().len() && sc.entries()[j].0@ == k@;
            assert(self.scopes()[0].entries()[j].0@ == k@);
        }
        r
    }

    /// The namespace path joined by `::`, followed by `::` unless empty.
    pub fn get_global_prefix(&self) -> (r: String)
        ensures
            r@ == prefix_text(self.prefix()),
    {
        let mut r = String::new();
        let mut i: usize = 0;
        while i < self.global_prefix.len()
            invariant
                i <= self.global_prefix@.len(),
                r@ == prefix_text(self.global_prefix@.take(i as int)),
            decreases self.global_prefix.len() - i,
        {
            push_str(&mut r, self.global_prefix[i].as_str());
            push_str(&mut r, "::");
            proof {
                let t = self.global_prefix@.take(i + 1);
                assert(t.drop_last() =~= self.global_prefix@.take(i as int));
            }
            i = i + 1;
        }
        assert(self.global_prefix@.take(i as int) =~= self.global_prefix@);
        r
    }

    /// A name qualified by the namespace path.
    pub fn global_name(&self, s: &String) -> (r: String)
        ensures
            r@ == prefix_text(self.prefix()) + s@,
    {
        let mut r = self.get_global_prefix();
        push_str(&mut r, s.as_str());
        r
    }

    /// Binds `name` in the root scope under its qualified name, and leaves in the
    /// innermost scope an alias of `name` to it; returns the root bind replaced.
    pub fn global_insert(&mut self, name: &String, value: Bind) -> (r: Option<Bind>)
        requires
            old(self).wf(),
        ensures
            final(self).wf(),
            exists|j: int|
                0 <= j < final(self).scopes()[0].entries().len()
                    && final(self).scopes()[0].entries()[j].0@ == prefix_text(old(self).prefix()) + name@,
            final(self).scopes().len() == old(self).scopes().len(),
            exists|j: int|
                0 <= j < final(self).scopes()[0].entries().len()
                && (#[trigger] final(self).scopes()[0].entries()[j]).0@ == prefix_text(old(self).prefix()) + name@
                && final(self).scopes()[0].entries()[j].1 == value,
            old(self).scopes().len() == 1 && old(self).prefix().len() > 0 ==> exists|j: int|
                0 <= j < final(self).scopes()[0].entries().len()
                && (#[trigger] final(self).scopes()[0].entries()[j]).0@ == name@
                && is_alias_to(final(self).scopes()[0].entries()[j].1, prefix_text(old(self).prefix()) + name@),
            old(self).scopes().len() > 1 ==> exists|g: String|
                g@ == prefix_text(old(self).prefix()) + name@
                && inserted(old(self).scopes()[0].entries(), final(self).scopes()[0].entries(), g, value, r)
                && exists|j: int| 0 <= j < final(self).scopes().last().entries().len()
                    && final(self).scopes().last().entries()[j].0@ == name@
                    && final(self).scopes().last().entries()[j].1 == Bind::Alias(g),
            final(self).contexts() == old(self).contexts(),
            final(self).prefix() == old(self).prefix(),
            final(self).ptr_bits() == old(self).ptr_bits(),
            final(self).compiles() == old(self).compiles(),
            final(self).decl_slots() == old(self).decl_slots(),
            final(self).functions_queue() == old(self).functions_queue(),
            final(self).types_queue() == old(self).types_queue(),
    {
        let gname = self.global_name(name);
        let gc = gname.clone();
        let ghost al = Bind::Alias(gc);
        let alias = Bind::Alias(gc);
        let ghost s0 = self.scopes();
        let nc = name.clone();
        let ghost ncg = nc;
        let r1 = self.insert(nc, alias);
        let ghost s1 = self.scopes();
        proof {
            let e = s1.last().entries();
            let e0 = s0.last().entries();
            assert(inserted(e0, e, ncg, al, r1));
            assert(exists|j: int| 0 <= j < e.len() && e[j].0@ == name@ && e[j].1 == al) by {
                match r1 {
                    Some(v) => {
                        let p = choose|p: int|
                            0 <= p < e0.len() && e0[p].0@ == ncg@ && e0[p].1 == v && e == e0.update(p, (ncg, al));
                        assert(e[p] == (ncg, al));
                    },
                    None => {
                        assert(e[e.len() - 1] == (ncg, al));
                    },
                }
            }
        }
        let ghost gg = gname;
        let ghost vg = value;
        let ghost root1 = self.scopes()[0].entries();
        let r = self.root_insert(gname, value);
        proof {
            lemma_inserted_has(root1, self.scopes()[0].entries(), gg, vg, r);
            if old(self).scopes().len() == 1 && old(self).prefix().len() > 0 {
                reveal_strlit("::");
                lemma_prefix_text_len(old(self).prefix());
                let e = s1.last().entries();
                assert(s1.last() == s1[0]);
                let j = choose|j: int| 0 <= j < e.len() && e[j].0@ == name@ && e[j].1 == al;
                assert(gg@ != name@) by {
                    assert(gg@.len() > name@.len());
                }
                lemma_inserted_keeps(root1, self.scopes()[0].entries(), gg, vg, r, j);
            }
            if old(self).scopes().len() > 1 {
                assert(s1[0] == s0[0]) by {
                    assert(s1.drop_last()[0] == s0.drop_last()[0]);
                }
                assert(self.scopes().last() == s1.last()) by {
                    assert(self.scopes().skip(1)[self.scopes().len() - 2] == s1.skip(1)[s1.len() - 2]);
                }
            }
        }
        r
    }

    /// Enters a namespace.
    pub fn push_global_prefix(&mut self, prefix: String)
        requires
            old(self).wf(),
        ensures
            final(self).wf(),
            final(self).prefix() == old(self).prefix().push(prefix),
            final(self).scopes() == old(self).scopes(),
            final(self).contexts() == old(self).contexts(),
            final(self).ptr_bits() == old(self).ptr_bits(),
            final(self).compiles() == old(self).compiles(),
            final(self).decl_slots() == old(self).decl_slots(),
    {
        self.global_prefix.push(prefix);
    }

    /// Leaves the innermost namespace.
    pub fn pop_global_prefix(&mut self) -> (r: Option<String>)
        requires
            old(self).wf(),
        ensures
            final(self).wf(),
            old(self).prefix().len() > 0 ==> r == Some(old(self).prefix().last())
                && final(self).prefix() == old(self).prefix().drop_last(),
            old(self).prefix().len() == 0 ==> r is None && final(self).prefix() == old(self).prefix(),
            final(self).scopes() == old(self).scopes(),
            final(self).contexts() == old(self).contexts(),
            final(self).ptr_bits() == old(self).ptr_bits(),
            final(self).compiles() == old(self).compiles(),
            final(self).decl_slots() == old(self).decl_slots(),
    {
        self.global_prefix.pop()
    }

    /// Replaces the namespace path, returning the previous one.
    pub fn switch_prefix(&mut self, p: Vec<String>) -> (r: Vec<String>)
        requires
            old(self).wf(),
        ensures
            final(self).wf(),
            r@ == old(self).prefix(),
            final(self).prefix() == p@,
            final(self).functions_queue() == old(self).functions_queue(),
            final(self).types_queue() == old(self).types_queue(),
            final(self).scopes() == old(self).scopes(),
            final(self).contexts() == old(self).contexts(),
            final(self).ptr_bits() == old(self).ptr_bits(),
            final(self).compiles() == old(self).compiles(),
            final(self).decl_slots() == old(self).decl_slots(),
    {
        let mut p = p;
        std::mem::swap(&mut self.global_prefix, &mut p);
        p
    }

    /// The namespace path.
    pub fn prefix_copy(&self) -> (r: Vec<String>)
        ensures
            r@.len() == self.prefix().len(),
            forall|i: int| 0 <= i < r@.len() ==> r@[i]@ == self.prefix()[i]@,
    {
        let mut r: Vec<String> = Vec::new();
        let mut i: usize = 0;
        while i < self.global_prefix.len()
            invariant
                i <= self.global_prefix@.len(),
                r@.len() == i,
                forall|k: int| 0 <= k < i ==> r@[k]@ == self.global_prefix@[k]@,
            decreases self.global_prefix.len() - i,
        {
            r.push(self.global_prefix[i].clone());
            i = i + 1;
        }
        r
    }

    /// Enters a region of the given kind; entering a function saves and clears the
    /// enclosing contexts, which are returned to be restored on exit.
    pub fn push_context(&mut self, context: Context) -> (r: Vec<Context>)
        requires
            old(self).wf(),
        ensures
            final(self).wf(),
            context is Fn ==> r@ == old(self).contexts() && final(self).contexts() == seq![context],
            !(context is Fn) ==> r@.len() == 0 && final(self).contexts() == old(self).contexts().push(context),
            final(self).scopes() == old(self).scopes(),
            final(self).prefix() == old(self).prefix(),
            final(self).ptr_bits() == old(self).ptr_bits(),
            final(self).compiles() == old(self).compiles(),
            final(self).decl_slots() == old(self).decl_slots(),
    {
        let is_fn = match context {
            Context::Fn(_) => true,
            _ => false,
        };
        if is_fn {
            let mut fresh: Vec<Context> = Vec::new();
            fresh.push(context);
            std::mem::swap(&mut self.context, &mut fresh);
            fresh
        } else {
            self.context.push(context);
            Vec::new()
        }
    }

    /// Leaves the innermost region; `saved` holds what entering it returned.
    pub fn pop_context(&mut self, saved: Vec<Context>) -> (r: Option<Context>)
        requires
            old(self).wf(),
        ensures
            final(self).wf(),
            saved@.len() == 0 && old(self).contexts().len() > 0 ==> final(self).contexts() == old(self).contexts().drop_last(),
            saved@.len() > 0 ==> final(self).contexts() == saved@,
            final(self).scopes() == old(self).scopes(),
            final(self).prefix() == old(self).prefix(),
            final(self).ptr_bits() == old(self).ptr_bits(),
            final(self).compiles() == old(self).compiles(),
            final(self).decl_slots() == old(self).decl_slots(),
    {
        let r = self.context.pop();
        if saved.len() > 0 {
            self.context = saved;
        }
        r
    }

    /// Whether a region of the loop kind is open.
    pub fn in_loop(&self) -> (r: bool)
        ensures
            r == exists|i: int| 0 <= i < self.contexts().len() && #[trigger] self.contexts()[i] is Loop,
    {
        let mut i: usize = 0;
        while i < self.context.len()
            invariant
                i <= self.context@.len(),
                forall|k: int| 0 <= k < i ==> !(#[trigger] self.context@[k] is Loop),
            decreases self.context.len() - i,
        {
            if let Context::Loop = self.context[i] {
                return true;
            }
            i = i + 1;
        }
        false
    }

    /// The return type of the innermost function being parsed, if any.
    pub fn fn_return(&self) -> (r: Option<&Type>)
        ensures
            r is None ==> forall|i: int| 0 <= i < self.contexts().len() ==> !(#[trigger] self.contexts()[i] is Fn),
            r is Some ==> exists|i: int| 0 <= i < self.contexts().len() && #[trigger] self.contexts()[i] is Fn,
    {
        let mut i: usize = self.context.len();
        while i > 0
            invariant
                i <= self.context@.len(),
                forall|k: int| i <= k < self.context@.len() ==> !(#[trigger] self.context@[k] is Fn),
            decreases i,
        {
            if let Context::Fn(t) = &self.context[i - 1] {
                assert(self.contexts()[i - 1] is Fn);
                return Some(t);
            }
            i = i - 1;
        }
        None
    }

    /// Queues a promised function slot.
    pub fn push_function(&mut self, slot: usize)
        requires
            old(self).wf(),
        ensures
            final(self).wf(),
            final(self).functions_queue() == old(self).functions_queue().push(slot),
            final(self).scopes() == old(self).scopes(),
            final(self).contexts() == old(self).contexts(),
            final(self).prefix() == old(self).prefix(),
            final(self).ptr_bits() == old(self).ptr_bits(),
            final(self).compiles() == old(self).compiles(),
            final(self).decl_slots() == old(self).decl_slots(),
    {
        self.promised_functions.push(slot);
    }

    /// Takes all queued function slots.
    pub fn move_functions(&mut self) -> (r: Vec<usize>)
        requires
            old(self).wf(),
        ensures
            final(self).wf(),
            r@ == old(self).functions_queue(),
            final(self).functions_queue().len() == 0,
            final(self).scopes() == old(self).scopes(),
            final(self).contexts() == old(self).contexts(),
            final(self).prefix() == old(self).prefix(),
            final(self).ptr_bits() == old(self).ptr_bits(),
            final(self).compiles() == old(self).compiles(),
            final(self).decl_slots() == old(self).decl_slots(),
    {
        let mut q: Vec<usize> = Vec::new();
        std::mem::swap(&mut self.promised_functions, &mut q);
        q
    }

    /// Queues a promised struct slot.
    pub fn push_type(&mut self, slot: usize)
        requires
            old(self).wf(),
        ensures
            final(self).wf(),
            final(self).types_queue() == old(self).types_queue().push(slot),
            final(self).scopes() == old(self).scopes(),
            final(self).contexts() == old(self).contexts(),
            final(self).prefix() == old(self).prefix(),
            final(self).ptr_bits() == old(self).ptr_bits(),
            final(self).compiles() == old(self).compiles(),
            final(self).decl_slots() == old(self).decl_slots(),
    {
        self.promised_types.push(slot);
    }

    /// Takes all queued struct slots.
    pub fn move_types(&mut self) -> (r: Vec<usize>)
        requires
            old(self).wf(),
        ensures
            final(self).wf(),
            r@ == old(self).types_queue(),
            final(self).types_queue().len() == 0,
            final(self).functions_queue() == old(self).functions_queue(),
            final(self).scopes() == old(self).scopes(),
            final(self).contexts() == old(self).contexts(),
            final(self).prefix() == old(self).prefix(),
            final(self).ptr_bits() == old(self).ptr_bits(),
            final(self).compiles() == old(self).compiles(),
            final(self).decl_slots() == old(self).decl_slots(),
    {
        let mut q: Vec<usize> = Vec::new();
        std::mem::swap(&mut self.promised_types, &mut q);
        q
    }

    /// Records a library to link with, once.
    pub fn link(&mut self, k: String)
        requires
            old(self).wf(),
        ensures
            final(self).wf(),
            exists|i: int| 0 <= i < final(self).link_list().len() && #[trigger] final(self).link_list()[i]@ == k@,
            final(self).scopes() == old(self).scopes(),
            final(self).contexts() == old(self).contexts(),
            final(self).prefix() == old(self).prefix(),
            final(self).ptr_bits() == old(self).ptr_bits(),
            final(self).compiles() == old(self).compiles(),
            final(self).decl_slots() == old(self).decl_slots(),
    {
        let mut i: usize = 0;
        while i < self.links.len()
            invariant
                i <= self.links@.len(),
                *self == *old(self),
                self.wf(),
            decreases self.links.len() - i,
        {
            if same_text(&self.links[i], &k) {
                assert(self.link_list()[i as int]@ == k@);
                return;
            }
            i = i + 1;
        }
        let ghost kk = k;
        self.links.push(k);
        assert(self.link_list()[self.links@.len() - 1]@ == kk@);
    }

    /// Takes the libraries to link with.
    pub fn move_links(self) -> (r: Vec<String>)
        ensures
            r@ == self.link_list(),
    {
        self.links
    }

    /// Pointer width of the target, in bits.
    pub fn target_ptr_bits(&self) -> (r: u8)
        ensures
            r == self.ptr_bits(),
    {
        self.target.ptr_bits
    }

    /// Records a recoverable error at a token; the unit then no longer compiles.
    pub fn gentle_error(&mut self, token: &Token, message: &str)
        requires
            old(self).wf(),
        ensures
            final(self).wf(),
            !final(self).compiles(),
            final(self).diags().len() == old(self).diags().len() + 1,
            final(self).diags().drop_last() == old(self).diags(),
            final(self).diags().last().message@ == message@,
            final(self).scopes() == old(self).scopes(),
            final(self).contexts() == old(self).contexts(),
            final(self).prefix() == old(self).prefix(),
            final(self).ptr_bits() == old(self).ptr_bits(),
            final(self).decl_slots() == old(self).decl_slots(),
            final(self).functions_queue() == old(self).functions_queue(),
            final(self).types_queue() == old(self).types_queue(),
    {
        let d = Diagnostic { line: token.line, col: token.col, width: token.value.as_str().unicode_len(), message: text(message) };
        self.diagnostics.push(d);
        self.compileable = false;
        assert(self.diags().drop_last() =~= old(self).diags());
    }

    /// Whether no recoverable error has been recorded.
    pub fn is_compileable(&self) -> (r: bool)
        ensures
            r == self.compiles(),
    {
        self.compileable
    }

    /// The diagnostics recorded so far.
    pub fn diagnostics(&self) -> (r: &Vec<Diagnostic>)
        ensures
            r@ == self.diags(),
    {
        &self.diagnostics
    }

    /// Takes the declaration slots, leaving none.
    pub fn take_decls(&mut self) -> (r: Vec<Decl>)
        requires
            old(self).wf(),
        ensures
            final(self).wf(),
            r@ == old(self).decl_slots(),
            final(self).decl_slots().len() == 0,
    {
        let mut d: Vec<Decl> = Vec::new();
        std::mem::swap(&mut d, &mut self.decls);
        d
    }

    /// Number of declaration slots.
    pub fn decl_count(&self) -> (r: usize)
        ensures
            r == self.decl_slots().len(),
    {
        self.decls.len()
    }

    /// Adds a declaration slot and returns its index.
    pub fn add_decl(&mut self, d: Decl) -> (r: usize)
        requires
            old(self).wf(),
        ensures
            final(self).wf(),
            r == old(self).decl_slots().len(),
            final(self).decl_slots() == old(self).decl_slots().push(d),
            final(self).scopes() == old(self).scopes(),
            final(self).contexts() == old(self).contexts(),
            final(self).prefix() == old(self).prefix(),
            final(self).ptr_bits() == old(self).ptr_bits(),
            final(self).compiles() == old(self).compiles(),
            final(self).functions_queue() == old(self).functions_queue(),
            final(self).types_queue() == old(self).types_queue(),
    {
        self.decls.push(d);
        self.decls.len() - 1
    }

    /// The declaration in a slot.
    pub fn decl(&self, i: usize) -> (r: &Decl)
        requires
            i < self.decl_slots().len(),
        ensures
            *r == self.decl_slots()[i as int],
    {
        &self.decls[i]
    }

    /// Overwrites a declaration slot, returning what it held.
    pub fn replace_decl(&mut self, i: usize, d: Decl) -> (r: Decl)
        requires
            old(self).wf(),
            i < old(self).decl_slots().len(),
        ensures
            final(self).wf(),
            r == old(self).decl_slots()[i as int],
            final(self).decl_slots() == old(self).decl_slots().update(i as int, d),
            final(self).scopes() == old(self).scopes(),
            final(self).contexts() == old(self).contexts(),
            final(self).prefix() == old(self).prefix(),
            final(self).ptr_bits() == old(self).ptr_bits(),
            final(self).compiles() == old(self).compiles(),
            final(self).functions_queue() == old(self).functions_queue(),
            final(self).types_queue() == old(self).types_queue(),
    {
        let ghost dd = d;
        let r = self.decls.remove(i);
        self.decls.insert(i, d);
        assert(self.decls@ =~= old(self).decls@.update(i as int, dd));
        r
    }
}

/// Whether a bind is an alias of the name `k`.
pub open spec fn is_alias_to(b: Bind, k: Seq<char>) -> bool {
    match b {
        Bind::Alias(g) => g@ == k,
        _ => false,
    }
}

proof fn lemma_prefix_text_len(p: Seq<String>)
    requires
        p.len() > 0,
        "::"@.len() == 2,
    ensures
        prefix_text(p).len() >= 2,
    decreases p.len(),
{
}

/// A namespace path joined by `::`, each part followed by `::`.
pub open spec fn prefix_text(p: Seq<String>) -> Seq<char>
    decreases p.len(),
{
    if p.len() == 0 {
        Seq::empty()
    } else {
        prefix_text(p.drop_last()) + p.last()@ + "::"@
    }
}

} // verus!
