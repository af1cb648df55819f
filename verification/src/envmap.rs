//! An environment: a mapping from variable names to values, held as a
//! vector of variables with pairwise-distinct names.

use vstd::prelude::*;
use crate::glob::str_eq;

verus! {

/// One environment variable.
pub struct EnvVar {
    pub name: String,
    pub value: String,
}

/// The mapping that a sequence of variables denotes; a later variable
/// with the same name overrides an earlier one.
pub open spec fn map_of(s: Seq<EnvVar>) -> Map<Seq<char>, Seq<char>>
    decreases s.len(),
{
    if s.len() == 0 {
        Map::empty()
    } else {
        map_of(s.drop_last()).insert(s.last().name@, s.last().value@)
    }
}

/// Whether the variables of the sequence have pairwise-distinct names.
pub open spec fn distinct_names(s: Seq<EnvVar>) -> bool {
    forall|i: int, j: int| 0 <= i < j < s.len() ==> s[i].name@ != s[j].name@
}

/// The set of names that the variables of the sequence carry.
pub open spec fn names_of(s: Seq<EnvVar>) -> Set<Seq<char>> {
    Set::new(|k: Seq<char>| exists|i: int| 0 <= i < s.len() && s[i].name@ == k)
}

/// The domain of the denoted mapping is exactly the set of carried names.
pub proof fn lemma_map_of_dom(s: Seq<EnvVar>)
    ensures
        map_of(s).dom() == names_of(s),
    decreases s.len(),
{
    if s.len() == 0 {
        assert(map_of(s).dom() =~= names_of(s));
    } else {
        lemma_map_of_dom(s.drop_last());
        assert forall|k: Seq<char>| map_of(s).dom().contains(k) implies names_of(s).contains(
            k,
        ) by {
            if k == s.last().name@ {
                assert(s[s.len() - 1].name@ == k);
            } else {
                assert(names_of(s.drop_last()).contains(k));
                let i = choose|i: int|
                    0 <= i < s.drop_last().len() && s.drop_last()[i].name@ == k;
                assert(s[i].name@ == k);
            }
        }
        assert forall|k: Seq<char>| names_of(s).contains(k) implies map_of(s).dom().contains(
            k,
        ) by {
            let i = choose|i: int| 0 <= i < s.len() && s[i].name@ == k;
            if i < s.len() - 1 {
                assert(s.drop_last()[i].name@ == k);
                assert(names_of(s.drop_last()).contains(k));
                assert(map_of(s.drop_last()).dom().contains(k));
            }
        }
        assert(map_of(s).dom() =~= names_of(s));
    }
}

/// With distinct names, each variable's name maps to its own value.
pub proof fn lemma_map_of_index(s: Seq<EnvVar>, i: int)
    requires
        distinct_names(s),
        0 <= i < s.len(),
    ensures
        map_of(s).contains_key(s[i].name@),
        map_of(s)[s[i].name@] == s[i].value@,
    decreases s.len(),
{
    if i < s.len() - 1 {
        assert(distinct_names(s.drop_last())) by {
            assert forall|a: int, b: int|
                0 <= a < b < s.drop_last().len() implies s.drop_last()[a].name@ != s.drop_last()[b].name@ by {
                assert(s[a].name@ != s[b].name@);
            }
        }
        lemma_map_of_index(s.drop_last(), i);
        assert(s[i].name@ != s.last().name@);
        assert(s.drop_last()[i] == s[i]);
    }
}

/// With distinct names, removing one variable removes exactly its name
/// from the denoted mapping.
pub proof fn lemma_map_of_remove(s: Seq<EnvVar>, i: int)
    requires
        distinct_names(s),
        0 <= i < s.len(),
    ensures
        map_of(s.remove(i)) == map_of(s).remove(s[i].name@),
    decreases s.len(),
{
    assert(distinct_names(s.drop_last())) by {
        assert forall|a: int, b: int|
            0 <= a < b < s.drop_last().len() implies s.drop_last()[a].name@ != s.drop_last()[b].name@ by {
            assert(s[a].name@ != s[b].name@);
        }
    }
    if i == s.len() - 1 {
        assert(s.remove(i) =~= s.drop_last());
        lemma_map_of_dom(s.drop_last());
        assert(!map_of(s.drop_last()).contains_key(s[i].name@)) by {
            if map_of(s.drop_last()).dom().contains(s[i].name@) {
                assert(names_of(s.drop_last()).contains(s[i].name@));
                let j = choose|j: int|
                    0 <= j < s.drop_last().len() && s.drop_last()[j].name@ == s[i].name@;
                assert(s[j].name@ != s[i].name@);
            }
        }
        assert(map_of(s.drop_last()) =~= map_of(s).remove(s[i].name@));
    } else {
        lemma_map_of_remove(s.drop_last(), i);
        assert(s.remove(i).drop_last() =~= s.drop_last().remove(i));
        assert(s.remove(i).last() == s.last());
        assert(s[i].name@ != s.last().name@);
        assert(s[i] == s.drop_last()[i]);
        assert(map_of(s.remove(i)) == map_of(s.drop_last().remove(i)).insert(
            s.last().name@,
            s.last().value@,
        ));
        assert(map_of(s.remove(i)) =~= map_of(s).remove(s[i].name@));
    }
}

/// An environment mapping. The variables are held in a vector whose
/// names are pairwise distinct; only the denoted mapping is observable.
pub struct EnvMap {
    pub vars: Vec<EnvVar>,
}

impl View for EnvMap {
    type V = Map<Seq<char>, Seq<char>>;

    open spec fn view(&self) -> Map<Seq<char>, Seq<char>> {
        map_of(self.vars@)
    }
}

impl EnvMap {
    /// The names of the held variables are pairwise distinct.
    pub open spec fn wf(&self) -> bool {
        distinct_names(self.vars@)
    }

    /// The empty environment.
    pub fn new() -> (m: EnvMap)
        ensures
            m.wf(),
            m@ == Map::<Seq<char>, Seq<char>>::empty(),
    {
        EnvMap { vars: Vec::new() }
    }

    /// The index of the variable with the given name, if one is held.
    fn index_of(&self, name: &str) -> (r: Option<usize>)
        ensures
            match r {
                Some(i) => i < self.vars@.len() && self.vars@[i as int].name@ == name@,
                None => forall|j: int| 0 <= j < self.vars@.len() ==> self.vars@[j].name@ != name@,
            },
    {
        let mut i: usize = 0;
        while i < self.vars.len()
            invariant
                i <= self.vars@.len(),
                forall|j: int| 0 <= j < i ==> self.vars@[j].name@ != name@,
            decreases self.vars@.len() - i,
        {
            if str_eq(self.vars[i].name.as_str(), name) {
                return Some(i);
            }
            i += 1;
        }
        None
    }

    /// The value of the variable with the given name, if the environment
    /// holds one.
    pub fn get(&self, name: &str) -> (r: Option<String>)
        requires
            self.wf(),
        ensures
            match r {
                Some(v) => self@.contains_key(name@) && v@ == self@[name@],
                None => !self@.contains_key(name@),
            },
    {
        match self.index_of(name) {
            Some(i) => {
                proof {
                    lemma_map_of_index(self.vars@, i as int);
                }
                Some(self.vars[i].value.clone())
            },
            None => {
                proof {
                    lemma_map_of_dom(self.vars@);
                    if self@.dom().contains(name@) {
                        assert(names_of(self.vars@).contains(name@));
                        let j = choose|j: int|
                            0 <= j < self.vars@.len() && self.vars@[j].name@ == name@;
                        assert(self.vars@[j].name@ != name@);
                    }
                }
                None
            },
        }
    }

    /// Whether the environment holds a variable of the given name.
    pub fn contains_name(&self, name: &str) -> (r: bool)
        requires
            self.wf(),
        ensures
            r == self@.contains_key(name@),
    {
        match self.get(name) {
            Some(_) => true,
            None => false,
        }
    }

    /// Set the variable of the given name to the given value, replacing
    /// a held value if there is one.
    pub fn set_var(&mut self, name: &str, value: &str)
        requires
            old(self).wf(),
        ensures
            final(self).wf(),
            final(self)@ == old(self)@.insert(name@, value@),
    {
        match self.index_of(name) {
            Some(i) => {
                let ghost before = self.vars@;
                self.vars.remove(i);
                proof {
                    lemma_map_of_remove(before, i as int);
                    assert forall|a: int, b: int|
                        0 <= a < b < self.vars@.len() implies self.vars@[a].name@ != self.vars@[b].name@ by {
                        let a0 = if a < i { a } else { a + 1 };
                        let b0 = if b < i { b } else { b + 1 };
                        assert(self.vars@[a] == before[a0]);
                        assert(self.vars@[b] == before[b0]);
                        assert(before[a0].name@ != before[b0].name@);
                    }
                    assert forall|j: int|
                        0 <= j < self.vars@.len() implies self.vars@[j].name@ != name@ by {
                        let j0 = if j < i { j } else { j + 1 };
                        assert(self.vars@[j] == before[j0]);
                        assert(before[j0].name@ != before[i as int].name@);
                    }
                }
                self.push_new(name, value);
                proof {
                    assert(self@ =~= old(self)@.insert(name@, value@));
                }
            },
            None => {
                self.push_new(name, value);
            },
        }
    }

    /// Push a variable whose name is not held yet.
    fn push_new(&mut self, name: &str, value: &str)
        requires
            old(self).wf(),
            forall|j: int|
                0 <= j < old(self).vars@.len() ==> old(self).vars@[j].name@ != name@,
        ensures
            final(self).wf(),
            final(self)@ == old(self)@.insert(name@, value@),
    {
        let ghost before = self.vars@;
        self.vars.push(EnvVar { name: name.to_owned(), value: value.to_owned() });
        proof {
            assert(self.vars@.drop_last() =~= before);
            assert forall|a: int, b: int|
                0 <= a < b < self.vars@.len() implies self.vars@[a].name@ != self.vars@[b].name@ by {
                if b < self.vars@.len() - 1 {
                    assert(before[a].name@ != before[b].name@);
                } else {
                    assert(before[a].name@ != name@);
                }
            }
        }
    }
}

} // verus!
