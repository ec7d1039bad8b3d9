//! Field maps: the unordered name-to-value shape a record takes between the
//! typed world and backend storage.

use vstd::prelude::*;

use crate::value::{Value, ValueModel};

verus! {

/// One row's worth of named values: an unordered collection mapping each
/// field name to its [`Value`], with unique names. This is the universal
/// interchange shape between records and backend storage; its model, written
/// `m@`, is a `Map` from character sequences to value models.
#[derive(Debug)]
pub struct FieldMap {
    entries: Vec<(String, Value)>,
}

/// The map described by a sequence of name/value pairs; a later pair with the
/// same name wins.
pub open spec fn map_of(s: Seq<(String, Value)>) -> Map<Seq<char>, ValueModel>
    decreases s.len(),
{
    if s.len() == 0 {
        Map::empty()
    } else {
        map_of(s.drop_last()).insert(s.last().0@, s.last().1@)
    }
}

/// Whether the names in a sequence of pairs are pairwise distinct.
pub open spec fn unique_names(s: Seq<(String, Value)>) -> bool {
    forall|i: int, j: int| 0 <= i < j < s.len() ==> s[i].0@ != s[j].0@
}

proof fn lemma_map_of_contains(s: Seq<(String, Value)>, k: Seq<char>)
    ensures
        map_of(s).contains_key(k) <==> exists|i: int| 0 <= i < s.len() && s[i].0@ == k,
    decreases s.len(),
{
    if s.len() == 0 {
    } else {
        let t = s.drop_last();
        lemma_map_of_contains(t, k);
        if s.last().0@ == k {
            assert(s[s.len() - 1].0@ == k);
        } else {
            if map_of(s).contains_key(k) {
                let i = choose|i: int| 0 <= i < t.len() && t[i].0@ == k;
                assert(s[i].0@ == k);
            }
            if exists|i: int| 0 <= i < s.len() && s[i].0@ == k {
                let i = choose|i: int| 0 <= i < s.len() && s[i].0@ == k;
                assert(i < s.len() - 1);
                assert(t[i].0@ == k);
            }
        }
    }
}

proof fn lemma_map_of_get(s: Seq<(String, Value)>, i: int)
    requires
        unique_names(s),
        0 <= i < s.len(),
    ensures
        map_of(s).contains_key(s[i].0@),
        map_of(s)[s[i].0@] == s[i].1@,
    decreases s.len(),
{
    let k = s[i].0@;
    if i == s.len() - 1 {
    } else {
        let t = s.drop_last();
        assert(t[i] == s[i]);
        lemma_map_of_get(t, i);
        assert(s.last().0@ != k);
    }
}

proof fn lemma_map_of_update(s: Seq<(String, Value)>, i: int, p: (String, Value))
    requires
        unique_names(s),
        0 <= i < s.len(),
        p.0@ == s[i].0@,
    ensures
        map_of(s.update(i, p)) == map_of(s).insert(p.0@, p.1@),
    decreases s.len(),
{
    let k = p.0@;
    let u = s.update(i, p);
    if i == s.len() - 1 {
        assert(u.drop_last() =~= s.drop_last());
        assert(u.last() == p);
        assert(map_of(u) =~= map_of(s).insert(k, p.1@));
    } else {
        let t = s.drop_last();
        assert(t[i] == s[i]);
        lemma_map_of_update(t, i, p);
        assert(u.drop_last() =~= t.update(i, p));
        assert(u.last() == s.last());
        assert(s.last().0@ != k);
        assert(map_of(u) =~= map_of(s).insert(k, p.1@));
    }
}

impl View for FieldMap {
    type V = Map<Seq<char>, ValueModel>;

    closed spec fn view(&self) -> Map<Seq<char>, ValueModel> {
        map_of(self.entries@)
    }
}

impl FieldMap {
    #[verifier::type_invariant]
    spec fn wf(&self) -> bool {
        unique_names(self.entries@)
    }

    /// An empty field map.
    pub fn new() -> (r: FieldMap)
        ensures
            r@ == Map::<Seq<char>, ValueModel>::empty(),
    {
        FieldMap { entries: Vec::new() }
    }

    /// Looks up the position of a name among the entries.
    fn position_of(&self, name: &String) -> (r: Option<usize>)
        ensures
            match r {
                Some(i) => i < self.entries@.len() && self.entries@[i as int].0@ == name@,
                None => forall|i: int| 0 <= i < self.entries@.len()
                    ==> self.entries@[i].0@ != name@,
            },
    {
        let mut i: usize = 0;
        while i < self.entries.len()
            invariant
                i <= self.entries@.len(),
                forall|j: int| 0 <= j < i ==> self.entries@[j].0@ != name@,
            decreases self.entries@.len() - i,
        {
            if self.entries[i].0 == *name {
                return Some(i);
            }
            i += 1;
        }
        None
    }

    /// Sets `name` to `value`, replacing any value the name already had.
    pub fn insert(&mut self, name: String, value: Value)
        ensures
            final(self)@ == old(self)@.insert(name@, value@),
    {
        proof {
            use_type_invariant(&*self);
        }
        let ghost s = self.entries@;
        let position = self.position_of(&name);
        let mut entries: Vec<(String, Value)> = Vec::new();
        core::mem::swap(&mut entries, &mut self.entries);
        match position {
            Some(i) => {
                let ghost p = (name, value);
                entries.set(i, (name, value));
                proof {
                    assert(forall|a: int, b: int|
                        0 <= a < b < s.update(i as int, p).len() ==> s.update(i as int, p)[a].0@
                            != s.update(i as int, p)[b].0@);
                    lemma_map_of_update(s, i as int, p);
                }
            },
            None => {
                let ghost p = (name, value);
                entries.push((name, value));
                proof {
                    assert(entries@.drop_last() =~= s);
                    assert(entries@.last() == p);
                }
            },
        }
        self.entries = entries;
    }

    /// Looks `name` up: the value it maps to, or nothing when the map has no
    /// entry for it.
    pub fn get(&self, name: &str) -> (r: Option<&Value>)
        ensures
            match r {
                Some(v) => self@.contains_key(name@) && v@ == self@[name@],
                None => !self@.contains_key(name@),
            },
    {
        proof {
            use_type_invariant(self);
        }
        let owned = String::from_str(name);
        proof {
            lemma_map_of_contains(self.entries@, name@);
        }
        match self.position_of(&owned) {
            Some(i) => {
                proof {
                    lemma_map_of_get(self.entries@, i as int);
                }
                Some(&self.entries[i].1)
            },
            None => None,
        }
    }

    /// Whether the map has an entry for `name`.
    pub fn contains_key(&self, name: &str) -> (r: bool)
        ensures
            r == self@.contains_key(name@),
    {
        match self.get(name) {
            Some(_) => true,
            None => false,
        }
    }

    /// The names this map holds, each exactly once, in no promised order.
    pub fn names(&self) -> (r: Vec<String>)
        ensures
            forall|i: int| 0 <= i < r@.len() ==> self@.contains_key(#[trigger] r@[i]@),
            forall|k: Seq<char>| self@.contains_key(k) ==> exists|i: int|
                0 <= i < r@.len() && r@[i]@ == k,
            forall|i: int, j: int| 0 <= i < j < r@.len() ==> r@[i]@ != r@[j]@,
    {
        proof {
            use_type_invariant(self);
        }
        let mut out: Vec<String> = Vec::new();
        let mut i: usize = 0;
        while i < self.entries.len()
            invariant
                i <= self.entries@.len(),
                out@.len() == i,
                forall|j: int| 0 <= j < i ==> out@[j]@ == self.entries@[j].0@,
                unique_names(self.entries@),
            decreases self.entries@.len() - i,
        {
            out.push(self.entries[i].0.clone());
            i += 1;
        }
        proof {
            assert forall|j: int| 0 <= j < out@.len() implies self@.contains_key(
                #[trigger] out@[j]@,
            ) by {
                lemma_map_of_contains(self.entries@, out@[j]@);
            }
            assert forall|k: Seq<char>| self@.contains_key(k) implies exists|j: int|
                0 <= j < out@.len() && out@[j]@ == k by {
                lemma_map_of_contains(self.entries@, k);
                let j = choose|j: int| 0 <= j < self.entries@.len() && self.entries@[j].0@ == k;
                assert(out@[j]@ == k);
            }
        }
        out
    }
}

impl Clone for FieldMap {
    fn clone(&self) -> (r: Self)
        ensures
            r@ == self@,
    {
        proof {
            use_type_invariant(self);
        }
        let mut entries: Vec<(String, Value)> = Vec::new();
        let mut i: usize = 0;
        while i < self.entries.len()
            invariant
                i <= self.entries@.len(),
                entries@.len() == i,
                forall|j: int| 0 <= j < i ==> #[trigger] entries@[j].0@ == self.entries@[j].0@
                    && entries@[j].1@ == self.entries@[j].1@,
                unique_names(self.entries@),
            decreases self.entries@.len() - i,
        {
            entries.push((self.entries[i].0.clone(), self.entries[i].1.clone()));
            i += 1;
        }
        proof {
            lemma_map_of_congruence(entries@, self.entries@);
        }
        FieldMap { entries }
    }
}

proof fn lemma_map_of_congruence(a: Seq<(String, Value)>, b: Seq<(String, Value)>)
    requires
        a.len() == b.len(),
        forall|i: int| 0 <= i < a.len() ==> #[trigger] a[i].0@ == b[i].0@ && a[i].1@ == b[i].1@,
    ensures
        map_of(a) == map_of(b),
    decreases a.len(),
{
    if a.len() == 0 {
        assert(map_of(a) =~= map_of(b));
    } else {
        lemma_map_of_congruence(a.drop_last(), b.drop_last());
        assert(a.last().0@ == b.last().0@ && a.last().1@ == b.last().1@);
        assert(map_of(a) =~= map_of(b));
    }
}

} // verus!
