use vstd::prelude::*;
use crate::value::{LoxObj, Obj};

verus! {

/// The variables of one scope: later bindings of a name override earlier ones.
pub open spec fn scope_map(bs: Seq<(String, LoxObj)>) -> Map<Seq<char>, Obj>
    decreases bs.len(),
{
    if bs.len() == 0 {
        Map::empty()
    } else {
        scope_map(bs.drop_last()).insert(bs.last().0@, bs.last().1@)
    }
}

/// The value a name has in a chain of scopes, the innermost (last) first.
pub open spec fn lookup(scopes: Seq<Map<Seq<char>, Obj>>, name: Seq<char>) -> Option<Obj>
    decreases scopes.len(),
{
    if scopes.len() == 0 {
        None
    } else if scopes.last().contains_key(name) {
        Some(scopes.last()[name])
    } else {
        lookup(scopes.drop_last(), name)
    }
}

/// The chain after binding `name` in its innermost scope.
pub open spec fn define_in(scopes: Seq<Map<Seq<char>, Obj>>, name: Seq<char>, v: Obj) -> Seq<
    Map<Seq<char>, Obj>,
> {
    if scopes.len() == 0 {
        seq![Map::empty().insert(name, v)]
    } else {
        scopes.update(scopes.len() - 1, scopes.last().insert(name, v))
    }
}

/// The chain after overwriting `name` in the innermost scope that binds it;
/// `None` when no scope binds it.
pub open spec fn assign_in(scopes: Seq<Map<Seq<char>, Obj>>, name: Seq<char>, v: Obj) -> Option<
    Seq<Map<Seq<char>, Obj>>,
>
    decreases scopes.len(),
{
    if scopes.len() == 0 {
        None
    } else if scopes.last().contains_key(name) {
        Some(scopes.update(scopes.len() - 1, scopes.last().insert(name, v)))
    } else {
        match assign_in(scopes.drop_last(), name, v) {
            Some(outer) => Some(outer.push(scopes.last())),
            None => None,
        }
    }
}

/// The chain after leaving its innermost scope; the outermost scope stays.
pub open spec fn leave_scope(scopes: Seq<Map<Seq<char>, Obj>>) -> Seq<Map<Seq<char>, Obj>> {
    if scopes.len() > 1 {
        scopes.drop_last()
    } else {
        scopes
    }
}

/// A chain of variable scopes, the outermost first.
pub struct Env {
    scopes: Vec<Vec<(String, LoxObj)>>,
}

impl View for Env {
    type V = Seq<Map<Seq<char>, Obj>>;

    closed spec fn view(&self) -> Seq<Map<Seq<char>, Obj>> {
        self.scopes@.map_values(|bs: Vec<(String, LoxObj)>| scope_map(bs@))
    }
}

proof fn lemma_scope_map_last(bs: Seq<(String, LoxObj)>, name: Seq<char>, j: int)
    requires
        0 <= j < bs.len(),
        bs[j].0@ == name,
        forall|k: int| j < k < bs.len() ==> bs[k].0@ != name,
    ensures
        scope_map(bs).contains_key(name),
        scope_map(bs)[name] == bs[j].1@,
    decreases bs.len(),
{
    if j < bs.len() - 1 {
        lemma_scope_map_last(bs.drop_last(), name, j);
    }
}

proof fn lemma_scope_map_absent(bs: Seq<(String, LoxObj)>, name: Seq<char>)
    requires
        forall|k: int| 0 <= k < bs.len() ==> bs[k].0@ != name,
    ensures
        !scope_map(bs).contains_key(name),
    decreases bs.len(),
{
    if bs.len() > 0 {
        lemma_scope_map_absent(bs.drop_last(), name);
    }
}

proof fn lemma_scope_map_update(bs: Seq<(String, LoxObj)>, j: int, b: (String, LoxObj))
    requires
        0 <= j < bs.len(),
        bs[j].0@ == b.0@,
        forall|k: int| j < k < bs.len() ==> bs[k].0@ != b.0@,
    ensures
        scope_map(bs.update(j, b)) == scope_map(bs).insert(b.0@, b.1@),
    decreases bs.len(),
{
    let u = bs.update(j, b);
    if j == bs.len() - 1 {
        assert(u.drop_last() =~= bs.drop_last());
        assert(scope_map(u) =~= scope_map(bs).insert(b.0@, b.1@));
    } else {
        assert(u.drop_last() =~= bs.drop_last().update(j, b));
        lemma_scope_map_update(bs.drop_last(), j, b);
        assert(scope_map(u) =~= scope_map(bs).insert(b.0@, b.1@));
    }
}

/// Finds the last binding of `name` in a scope.
fn find_in_scope(bs: &Vec<(String, LoxObj)>, name: &String) -> (r: Option<usize>)
    ensures
        match r {
            Some(j) => {
                &&& j < bs@.len()
                &&& bs@[j as int].0@ == name@
                &&& forall|k: int| j < k < bs@.len() ==> bs@[k].0@ != name@
            },
            None => forall|k: int| 0 <= k < bs@.len() ==> bs@[k].0@ != name@,
        },
{
    let mut j = bs.len();
    while j > 0
        invariant
            j <= bs@.len(),
            forall|k: int| j <= k < bs@.len() ==> bs@[k].0@ != name@,
        decreases j,
    {
        j = j - 1;
        if bs[j].0 == *name {
            return Some(j);
        }
    }
    None
}

impl Env {
    /// The chain with one empty scope.
    pub fn default() -> (r: Env)
        ensures
            r@ == seq![Map::<Seq<char>, Obj>::empty()],
    {
        let mut scopes = Vec::new();
        scopes.push(Vec::new());
        let r = Env { scopes };
        assert(r@ =~= seq![Map::<Seq<char>, Obj>::empty()]);
        r
    }

    /// A new innermost scope inside `enclosing`.
    pub fn new(enclosing: Box<Env>) -> (r: Env)
        ensures
            r@ == enclosing@.push(Map::empty()),
    {
        let mut env = *enclosing;
        env.enter_scope();
        env
    }

    pub fn enter_scope(&mut self)
        ensures
            final(self)@ == old(self)@.push(Map::empty()),
    {
        self.scopes.push(Vec::new());
        assert(final(self)@ =~= old(self)@.push(Map::empty()));
    }

    pub fn exit_scope(&mut self)
        ensures
            final(self)@ == leave_scope(old(self)@),
    {
        if self.scopes.len() > 1 {
            self.scopes.pop();
            assert(final(self)@ =~= old(self)@.drop_last());
        }
    }

    /// Binds `name` to `value` in the innermost scope, replacing a binding of
    /// the same name there.
    pub fn define(&mut self, name: &str, value: LoxObj)
        ensures
            final(self)@ == define_in(old(self)@, name@, value@),
    {
        if self.scopes.len() == 0 {
            self.scopes.push(Vec::new());
            assert(self@ =~= seq![Map::<Seq<char>, Obj>::empty()]);
        }
        let ghost before = self@;
        let last = self.scopes.len() - 1;
        let key = name.to_owned();
        let found = find_in_scope(&self.scopes[last], &key);
        let ghost bs = self.scopes@[last as int]@;
        let b = (key, value);
        match found {
            Some(j) => {
                proof {
                    lemma_scope_map_update(bs, j as int, b);
                }
                self.scopes[last][j] = b;
                assert(self.scopes@[last as int]@ =~= bs.update(j as int, b));
            },
            None => {
                self.scopes[last].push(b);
                assert(self.scopes@[last as int]@.drop_last() =~= bs);
            },
        }
        assert(self@ =~= before.update(last as int, before.last().insert(name@, value@)));
    }

    /// The value of `name` in the innermost scope that binds it.
    pub fn get(&self, name: &str) -> (r: Option<&LoxObj>)
        ensures
            match r {
                Some(v) => lookup(self@, name@) == Some(v@),
                None => lookup(self@, name@) is None,
            },
    {
        let key = name.to_owned();
        let mut i = self.scopes.len();
        assert(self@.subrange(0, i as int) =~= self@);
        while i > 0
            invariant
                i <= self.scopes@.len(),
                key@ == name@,
                lookup(self@, name@) == lookup(self@.subrange(0, i as int), name@),
            decreases i,
        {
            let ghost sub = self@.subrange(0, i as int);
            i = i - 1;
            assert(sub.drop_last() =~= self@.subrange(0, i as int));
            match find_in_scope(&self.scopes[i], &key) {
                Some(j) => {
                    proof {
                        lemma_scope_map_last(self.scopes@[i as int]@, name@, j as int);
                    }
                    return Some(&self.scopes[i][j].1);
                },
                None => {
                    proof {
                        lemma_scope_map_absent(self.scopes@[i as int]@, name@);
                    }
                },
            }
        }
        None
    }

    /// Overwrites `name` in the innermost scope that binds it; fails, and
    /// changes nothing, when no scope binds it.
    pub fn assign(&mut self, name: &str, value: LoxObj) -> (r: Result<(), ()>)
        ensures
            match assign_in(old(self)@, name@, value@) {
                Some(s) => r is Ok && final(self)@ == s,
                None => r is Err && final(self)@ == old(self)@,
            },
    {
        let key = name.to_owned();
        let mut i = self.scopes.len();
        while i > 0
            invariant
                i <= self.scopes@.len(),
                key@ == name@,
                self@ == old(self)@,
                forall|k: int| i <= k < self@.len() ==> !(#[trigger] self@[k]).contains_key(name@),
            decreases i,
        {
            i = i - 1;
            match find_in_scope(&self.scopes[i], &key) {
                Some(j) => {
                    let ghost before = self@;
                    let ghost bs = self.scopes@[i as int]@;
                    let b = (key, value);
                    proof {
                        lemma_scope_map_last(bs, name@, j as int);
                        lemma_scope_map_update(bs, j as int, b);
                        lemma_assign_at(before, name@, value@, i as int);
                    }
                    self.scopes[i][j] = b;
                    assert(self.scopes@[i as int]@ =~= bs.update(j as int, b));
                    assert(self@ =~= before.update(i as int, before[i as int].insert(name@, value@)));
                    return Ok(());
                },
                None => {
                    proof {
                        lemma_scope_map_absent(self.scopes@[i as int]@, name@);
                    }
                },
            }
        }
        proof {
            lemma_assign_absent(self@, name@, value@);
        }
        Err(())
    }
}

proof fn lemma_assign_at(scopes: Seq<Map<Seq<char>, Obj>>, name: Seq<char>, v: Obj, i: int)
    requires
        0 <= i < scopes.len(),
        scopes[i].contains_key(name),
        forall|k: int| i < k < scopes.len() ==> !(#[trigger] scopes[k]).contains_key(name),
    ensures
        assign_in(scopes, name, v) == Some(scopes.update(i, scopes[i].insert(name, v))),
    decreases scopes.len(),
{
    if i < scopes.len() - 1 {
        let d = scopes.drop_last();
        lemma_assign_at(d, name, v, i);
        assert(d.update(i, d[i].insert(name, v)).push(scopes.last()) =~= scopes.update(
            i,
            scopes[i].insert(name, v),
        ));
    }
}

proof fn lemma_assign_absent(scopes: Seq<Map<Seq<char>, Obj>>, name: Seq<char>, v: Obj)
    requires
        forall|k: int| 0 <= k < scopes.len() ==> !(#[trigger] scopes[k]).contains_key(name),
    ensures
        assign_in(scopes, name, v) is None,
        lookup(scopes, name) is None,
    decreases scopes.len(),
{
    if scopes.len() > 0 {
        lemma_assign_absent(scopes.drop_last(), name, v);
    }
}

/// Assignment changes no number of scopes.
pub proof fn lemma_assign_keeps_depth(scopes: Seq<Map<Seq<char>, Obj>>, name: Seq<char>, v: Obj)
    ensures
        assign_in(scopes, name, v) is Some ==> assign_in(scopes, name, v)->0.len() == scopes.len(),
    decreases scopes.len(),
{
    if scopes.len() > 0 && !scopes.last().contains_key(name) {
        lemma_assign_keeps_depth(scopes.drop_last(), name, v);
    }
}

/// Assignment succeeds exactly when some scope binds the name.
pub proof fn lemma_assign_needs_binding(scopes: Seq<Map<Seq<char>, Obj>>, name: Seq<char>, v: Obj)
    ensures
        assign_in(scopes, name, v) is None <==> lookup(scopes, name) is None,
    decreases scopes.len(),
{
    if scopes.len() > 0 && !scopes.last().contains_key(name) {
        lemma_assign_needs_binding(scopes.drop_last(), name, v);
    }
}

} // verus!
