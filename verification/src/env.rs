//! Environment variables as a list of assignments with one entry per name.

use vstd::prelude::*;

verus! {

/// A name and a value, both taken by their characters.
pub open spec fn pairs_view(v: Seq<(String, String)>) -> Seq<(Seq<char>, Seq<char>)> {
    v.map_values(|p: (String, String)| (p.0@, p.1@))
}

/// The environment that a list of assignments leaves when applied in order: a
/// later assignment of a name replaces an earlier one.
pub open spec fn assigned(s: Seq<(Seq<char>, Seq<char>)>) -> Map<Seq<char>, Seq<char>>
    decreases s.len(),
{
    if s.len() == 0 {
        Map::empty()
    } else {
        assigned(s.drop_last()).insert(s.last().0, s.last().1)
    }
}

/// No name is assigned twice.
pub open spec fn unique_names(s: Seq<(Seq<char>, Seq<char>)>) -> bool {
    forall|i: int, j: int| 0 <= i < j < s.len() ==> (#[trigger] s[i]).0 != (#[trigger] s[j]).0
}

/// The position of the assignment of `k` in a list that assigns it once.
pub open spec fn index_of_name(s: Seq<(Seq<char>, Seq<char>)>, k: Seq<char>) -> int {
    choose|i: int| 0 <= i < s.len() && (#[trigger] s[i]).0 == k
}

/// `s` assigns the name `k`.
pub open spec fn has_name(s: Seq<(Seq<char>, Seq<char>)>, k: Seq<char>) -> bool {
    exists|i: int| 0 <= i < s.len() && (#[trigger] s[i]).0 == k
}

/// The list after setting `k` to `v`: the assignment of `k` is replaced in place, or
/// appended where there is none.
pub open spec fn upsert(s: Seq<(Seq<char>, Seq<char>)>, k: Seq<char>, v: Seq<char>) -> Seq<
    (Seq<char>, Seq<char>),
> {
    if has_name(s, k) {
        s.update(index_of_name(s, k), (k, v))
    } else {
        s.push((k, v))
    }
}

/// The value of `k` in `m`, or the empty text where `m` has none.
pub open spec fn value_or_empty(m: Map<Seq<char>, Seq<char>>, k: Seq<char>) -> Seq<char> {
    if m.contains_key(k) {
        m[k]
    } else {
        Seq::empty()
    }
}

/// A list of assignments sets exactly the names it holds, each to its last value.
pub proof fn lemma_assigned_names(s: Seq<(Seq<char>, Seq<char>)>, k: Seq<char>)
    ensures
        assigned(s).contains_key(k) <==> has_name(s, k),
    decreases s.len(),
{
    if s.len() > 0 {
        lemma_assigned_names(s.drop_last(), k);
        if has_name(s.drop_last(), k) {
            let i = choose|i: int| 0 <= i < s.drop_last().len() && (#[trigger] s.drop_last()[i]).0
                == k;
            assert(s[i].0 == k);
        }
        if has_name(s, k) && s.last().0 != k {
            let i = choose|i: int| 0 <= i < s.len() && (#[trigger] s[i]).0 == k;
            assert(s.drop_last()[i].0 == k);
        }
        if s.last().0 == k {
            assert(s[s.len() - 1].0 == k);
        }
    }
}

/// Where a name is assigned once, it ends with the value of that assignment.
pub proof fn lemma_assigned_value(s: Seq<(Seq<char>, Seq<char>)>, i: int)
    requires
        unique_names(s),
        0 <= i < s.len(),
    ensures
        assigned(s).contains_key(s[i].0),
        assigned(s)[s[i].0] == s[i].1,
    decreases s.len(),
{
    if i < s.len() - 1 {
        let t = s.drop_last();
        assert(t[i] == s[i]);
        assert forall|a: int, b: int| 0 <= a < b < t.len() implies (#[trigger] t[a]).0 != (
        #[trigger] t[b]).0 by {
            assert(t[a] == s[a]);
            assert(t[b] == s[b]);
        }
        lemma_assigned_value(t, i);
        assert(s[i].0 != s[s.len() - 1].0);
    }
}

/// Applying one list of assignments and then another leaves the first environment
/// overridden by the second.
pub proof fn lemma_assigned_append(a: Seq<(Seq<char>, Seq<char>)>, b: Seq<(Seq<char>, Seq<char>)>)
    ensures
        assigned(a + b) == assigned(a).union_prefer_right(assigned(b)),
    decreases b.len(),
{
    if b.len() == 0 {
        assert(a + b =~= a);
        assert(assigned(a).union_prefer_right(assigned(b)) =~= assigned(a));
    } else {
        assert((a + b).drop_last() =~= a + b.drop_last());
        assert((a + b).last() == b.last());
        lemma_assigned_append(a, b.drop_last());
        assert(assigned(a + b) =~= assigned(a).union_prefer_right(assigned(b)));
    }
}

/// Setting a name in a list that assigns each name once sets it in the environment
/// and keeps every name assigned once.
pub proof fn lemma_upsert(s: Seq<(Seq<char>, Seq<char>)>, k: Seq<char>, v: Seq<char>)
    requires
        unique_names(s),
    ensures
        unique_names(upsert(s, k, v)),
        assigned(upsert(s, k, v)) == assigned(s).insert(k, v),
{
    let t = upsert(s, k, v);
    if has_name(s, k) {
        let i = index_of_name(s, k);
        assert forall|a: int, b: int| 0 <= a < b < t.len() implies (#[trigger] t[a]).0 != (
        #[trigger] t[b]).0 by {
            if a == i {
                assert(s[b].0 != s[i].0);
            } else if b == i {
                assert(s[a].0 != s[i].0);
            }
        }
    } else {
        assert forall|a: int, b: int| 0 <= a < b < t.len() implies (#[trigger] t[a]).0 != (
        #[trigger] t[b]).0 by {
            if b == s.len() {
                assert(s[a].0 == t[a].0);
            } else {
                assert(s[a] == t[a] && s[b] == t[b]);
            }
        }
    }
    assert forall|n: Seq<char>| #[trigger] assigned(t).contains_key(n) <==> assigned(s).insert(
        k,
        v,
    ).contains_key(n) by {
        lemma_assigned_names(t, n);
        lemma_assigned_names(s, n);
        if has_name(t, n) && n != k {
            let j = choose|j: int| 0 <= j < t.len() && (#[trigger] t[j]).0 == n;
            assert(s[j].0 == n);
        }
        if has_name(s, n) {
            let j = choose|j: int| 0 <= j < s.len() && (#[trigger] s[j]).0 == n;
            assert(t[j].0 == n);
        }
        if n == k {
            if has_name(s, k) {
                assert(t[index_of_name(s, k)].0 == k);
            } else {
                assert(t[s.len() as int].0 == k);
            }
        }
    }
    assert forall|n: Seq<char>| #[trigger] assigned(t).contains_key(n) implies assigned(t)[n]
        == assigned(s).insert(k, v)[n] by {
        lemma_assigned_names(t, n);
        let j = choose|j: int| 0 <= j < t.len() && (#[trigger] t[j]).0 == n;
        lemma_assigned_value(t, j);
        if n != k {
            assert(s[j] == t[j]);
            lemma_assigned_value(s, j);
        } else {
            assert(t[j] == (k, v)) by {
                if has_name(s, k) {
                    let i = index_of_name(s, k);
                    if j != i {
                        assert(t[i].0 == k);
                    }
                } else {
                    if j != s.len() {
                        assert(s[j].0 == k);
                    }
                }
            }
        }
    }
    assert(assigned(t) =~= assigned(s).insert(k, v));
}

/// A set of environment variables, kept as a list that assigns each name once,
/// in the order in which names were first set.
pub struct EnvVars {
    entries: Vec<(String, String)>,
}

impl EnvVars {
    /// The assignments, in order.
    pub closed spec fn pairs(&self) -> Seq<(Seq<char>, Seq<char>)> {
        pairs_view(self.entries@)
    }

    #[verifier::type_invariant]
    spec fn names_once(&self) -> bool {
        unique_names(self.pairs())
    }

    /// The variables as a map from name to value.
    pub open spec fn vars(&self) -> Map<Seq<char>, Seq<char>> {
        assigned(self.pairs())
    }

    /// No variables.
    pub fn new() -> (r: EnvVars)
        ensures
            r.pairs() == Seq::<(Seq<char>, Seq<char>)>::empty(),
            r.vars() == Map::<Seq<char>, Seq<char>>::empty(),
    {
        let r = EnvVars { entries: Vec::new() };
        assert(r.pairs() =~= Seq::<(Seq<char>, Seq<char>)>::empty());
        r
    }

    /// The assignments, in order.
    pub fn entries(&self) -> (r: &Vec<(String, String)>)
        ensures
            pairs_view(r@) == self.pairs(),
    {
        &self.entries
    }

    /// The position of the variable `var`, if it is set.
    fn find(&self, var: &str) -> (r: Option<usize>)
        ensures
            match r {
                Some(i) => i < self.pairs().len() && self.pairs()[i as int].0 == var@,
                None => !has_name(self.pairs(), var@),
            },
    {
        let key = String::from_str(var);
        let mut i: usize = 0;
        while i < self.entries.len()
            invariant
                i <= self.entries@.len(),
                key@ == var@,
                forall|j: int| 0 <= j < i ==> (#[trigger] self.pairs()[j]).0 != var@,
            decreases self.entries@.len() - i,
        {
            assert(self.pairs()[i as int].0 == self.entries@[i as int].0@);
            if self.entries[i].0 == key {
                return Some(i);
            }
            i = i + 1;
        }
        None
    }

    /// The value of the variable `var`, if it is set.
    pub fn get(&self, var: &str) -> (r: Option<String>)
        ensures
            match r {
                Some(v) => self.vars().contains_key(var@) && v@ == self.vars()[var@],
                None => !self.vars().contains_key(var@),
            },
    {
        proof {
            use_type_invariant(self);
            lemma_assigned_names(self.pairs(), var@);
        }
        match self.find(var) {
            Some(i) => {
                proof {
                    lemma_assigned_value(self.pairs(), i as int);
                }
                Some(self.entries[i].1.clone())
            },
            None => None,
        }
    }

    /// The value of the variable `var`, or the empty text where it is not set.
    pub fn value_of(&self, var: &str) -> (r: String)
        ensures
            r@ == value_or_empty(self.vars(), var@),
    {
        match self.get(var) {
            Some(v) => v,
            None => String::new(),
        }
    }
}

/// Sets the variable `var` to `value`, replacing any value it had.
pub fn with_env(vars: &mut EnvVars, var: &str, value: &str)
    ensures
        final(vars).pairs() == upsert(old(vars).pairs(), var@, value@),
        final(vars).vars() == old(vars).vars().insert(var@, value@),
{
    proof {
        use_type_invariant(&*vars);
        lemma_upsert(vars.pairs(), var@, value@);
    }
    let k = String::from_str(var);
    let v = String::from_str(value);
    let found = vars.find(var);
    let ghost old_pairs = vars.pairs();
    let mut es: Vec<(String, String)> = Vec::new();
    std::mem::swap(&mut es, &mut vars.entries);
    assert(pairs_view(es@) == old_pairs);
    match found {
        Some(i) => {
            es.set(i, (k, v));
            proof {
                let i = i as int;
                assert(has_name(old_pairs, var@));
                let j = index_of_name(old_pairs, var@);
                if j != i {
                    assert(old_pairs[i].0 == old_pairs[j].0);
                }
                assert(pairs_view(es@) =~= old_pairs.update(i, (var@, value@)));
            }
        },
        None => {
            es.push((k, v));
            assert(pairs_view(es@) =~= old_pairs.push((var@, value@)));
        },
    }
    vars.entries = es;
}

/// After a variable is set, reading it gives the value set, and every other variable
/// reads as before.
pub proof fn law_read_after_write(before: EnvVars, after: EnvVars, k: Seq<char>, v: Seq<char>, other: Seq<char>)
    requires
        after.vars() == before.vars().insert(k, v),
    ensures
        after.vars().contains_key(k),
        after.vars()[k] == v,
        value_or_empty(after.vars(), k) == v,
        other != k ==> value_or_empty(after.vars(), other) == value_or_empty(before.vars(), other),
{
}

/// Setting a variable again keeps one assignment of it, in the place where it was
/// first set.
pub proof fn law_set_again_keeps_place(s: Seq<(Seq<char>, Seq<char>)>, k: Seq<char>, v: Seq<char>, w: Seq<char>)
    requires
        unique_names(s),
    ensures
        upsert(upsert(s, k, v), k, w).len() == upsert(s, k, v).len(),
        unique_names(upsert(upsert(s, k, v), k, w)),
        assigned(upsert(upsert(s, k, v), k, w)) == assigned(s).insert(k, w),
{
    lemma_upsert(s, k, v);
    let t = upsert(s, k, v);
    lemma_upsert(t, k, w);
    if has_name(s, k) {
        assert(t[index_of_name(s, k)].0 == k);
    } else {
        assert(t[s.len() as int].0 == k);
    }
    assert(has_name(t, k));
    assert(assigned(s).insert(k, v).insert(k, w) =~= assigned(s).insert(k, w));
}

} // verus!
