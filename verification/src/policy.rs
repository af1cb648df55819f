//! Policy lists and the ordered fold of administrator-authored directives
//! over them.

use vstd::prelude::*;
use crate::entry::{Entry, EntryModel, entry_matches};
use crate::defaults::default_keep_entries;

verus! {

/// The name of one of the two policy lists: the preserve list and the
/// preserve-with-value-check list.
#[derive(PartialEq, Eq, Structural, Clone, Copy, Debug)]
pub enum ListName {
    Keep,
    Check,
}

/// The set of entry models held by a sequence of entries.
pub open spec fn entry_set(s: Seq<Entry>) -> Set<EntryModel> {
    Set::new(|m: EntryModel| exists|i: int| 0 <= i < s.len() && s[i]@ == m)
}

/// Pushing one entry onto a sequence adds exactly its model to the set.
pub proof fn lemma_entry_set_push(s: Seq<Entry>, e: Entry)
    ensures
        entry_set(s.push(e)) == entry_set(s).insert(e@),
{
    assert forall|m: EntryModel| entry_set(s.push(e)).contains(m) implies entry_set(
        s,
    ).insert(e@).contains(m) by {
        let i = choose|i: int| 0 <= i < s.push(e).len() && s.push(e)[i]@ == m;
        if i < s.len() {
            assert(s[i]@ == m);
        }
    }
    assert forall|m: EntryModel| entry_set(s).insert(e@).contains(m) implies entry_set(
        s.push(e),
    ).contains(m) by {
        if entry_set(s).contains(m) {
            let i = choose|i: int| 0 <= i < s.len() && s[i]@ == m;
            assert(s.push(e)[i]@ == m);
        } else {
            assert(s.push(e)[s.len() as int]@ == m);
        }
    }
    assert(entry_set(s.push(e)) =~= entry_set(s).insert(e@));
}

/// Whether some entry of the set matches a variable of the given name and
/// value.
pub open spec fn set_matches(s: Set<EntryModel>, name: Seq<char>, value: Seq<char>) -> bool {
    exists|m: EntryModel| s.contains(m) && entry_matches(m, name, value)
}

/// A policy list: a set of entries. Only membership is observable; the
/// order in which entries are held does not matter.
pub struct PolicyList {
    pub entries: Vec<Entry>,
}

impl View for PolicyList {
    type V = Set<EntryModel>;

    open spec fn view(&self) -> Set<EntryModel> {
        entry_set(self.entries@)
    }
}

/// Whether a vector of entries holds one with the given model.
fn vec_contains_entry(v: &Vec<Entry>, e: &Entry) -> (r: bool)
    ensures
        r == entry_set(v@).contains(e@),
{
    let mut i: usize = 0;
    while i < v.len()
        invariant
            i <= v@.len(),
            forall|j: int| 0 <= j < i ==> v@[j]@ != e@,
        decreases v@.len() - i,
    {
        if v[i].same_entry(e) {
            return true;
        }
        i += 1;
    }
    false
}

impl PolicyList {
    /// The empty policy list.
    pub fn empty() -> (l: PolicyList)
        ensures
            l@ == Set::<EntryModel>::empty(),
    {
        let l = PolicyList { entries: Vec::new() };
        proof {
            assert(l@ =~= Set::<EntryModel>::empty());
        }
        l
    }

    /// Replace the whole contents of the list.
    pub fn assign(&mut self, entries: Vec<Entry>)
        ensures
            final(self)@ == entry_set(entries@),
    {
        self.entries = entries;
    }

    /// Add every given entry to the list; entries already present
    /// collapse with their duplicates.
    pub fn append(&mut self, entries: &Vec<Entry>)
        ensures
            final(self)@ == old(self)@.union(entry_set(entries@)),
    {
        let mut i: usize = 0;
        while i < entries.len()
            invariant
                i <= entries@.len(),
                entry_set(self.entries@) == old(self)@.union(entry_set(entries@.take(i as int))),
            decreases entries@.len() - i,
        {
            let ghost before = self.entries@;
            let e = entries[i].clone_entry();
            self.entries.push(e);
            proof {
                lemma_entry_set_push(before, e);
                assert(entries@.take(i + 1) =~= entries@.take(i as int).push(entries@[i as int]));
                lemma_entry_set_push(entries@.take(i as int), entries@[i as int]);
                assert(entry_set(self.entries@) =~= old(self)@.union(
                    entry_set(entries@.take(i + 1)),
                ));
            }
            i += 1;
        }
        proof {
            assert(entries@.take(entries@.len() as int) =~= entries@);
        }
    }

    /// Remove every given entry from the list; removing an entry that is
    /// not present is a no-op and produces no diagnostic.
    pub fn subtract(&mut self, entries: &Vec<Entry>)
        ensures
            final(self)@ == old(self)@.difference(entry_set(entries@)),
    {
        let mut kept: Vec<Entry> = Vec::new();
        let mut i: usize = 0;
        while i < self.entries.len()
            invariant
                i <= self.entries@.len(),
                self.entries@ == old(self).entries@,
                entry_set(kept@) == entry_set(self.entries@.take(i as int)).difference(
                    entry_set(entries@),
                ),
            decreases self.entries@.len() - i,
        {
            let ghost kept_before = kept@;
            let ghost prefix = self.entries@.take(i as int);
            let keep_it = !vec_contains_entry(entries, &self.entries[i]);
            if keep_it {
                let e = self.entries[i].clone_entry();
                let ghost ev = e@;
                kept.push(e);
                proof {
                    lemma_entry_set_push(kept_before, kept@.last());
                    assert(kept@ =~= kept_before.push(kept@.last()));
                    assert(ev == self.entries@[i as int]@);
                }
            }
            proof {
                assert(self.entries@.take(i + 1) =~= prefix.push(self.entries@[i as int]));
                lemma_entry_set_push(prefix, self.entries@[i as int]);
                assert(entry_set(kept@) =~= entry_set(self.entries@.take(i + 1)).difference(
                    entry_set(entries@),
                ));
            }
            i += 1;
        }
        proof {
            assert(self.entries@.take(self.entries@.len() as int) =~= self.entries@);
        }
        self.entries = kept;
    }

    /// Empty the list.
    pub fn negate(&mut self)
        ensures
            final(self)@ == Set::<EntryModel>::empty(),
    {
        self.entries = Vec::new();
        proof {
            assert(entry_set(self.entries@) =~= Set::<EntryModel>::empty());
        }
    }

    /// Whether some entry of the list matches a variable of the given
    /// name and value.
    pub fn matches_var(&self, name: &str, value: &str) -> (r: bool)
        ensures
            r == set_matches(self@, name@, value@),
    {
        let mut i: usize = 0;
        while i < self.entries.len()
            invariant
                i <= self.entries@.len(),
                forall|j: int| 0 <= j < i ==> !entry_matches(self.entries@[j]@, name@, value@),
            decreases self.entries@.len() - i,
        {
            if self.entries[i].matches(name, value) {
                proof {
                    let m = self.entries@[i as int]@;
                    assert(self@.contains(m));
                }
                return true;
            }
            i += 1;
        }
        proof {
            if set_matches(self@, name@, value@) {
                let m = choose|m: EntryModel| self@.contains(m) && entry_matches(
                    m,
                    name@,
                    value@,
                );
                let j = choose|j: int| 0 <= j < self.entries@.len() && self.entries@[j]@ == m;
                assert(!entry_matches(self.entries@[j]@, name@, value@));
            }
        }
        false
    }
}

/// One administrator-authored mutation of a policy list, in the order the
/// directives were declared.
pub enum Directive {
    Assign(ListName, Vec<Entry>),
    Append(ListName, Vec<Entry>),
    Subtract(ListName, Vec<Entry>),
    Negate(ListName),
}

/// The mathematical content of one directive.
#[verifier::ext_equal]
pub enum DirectiveModel {
    Assign(ListName, Set<EntryModel>),
    Append(ListName, Set<EntryModel>),
    Subtract(ListName, Set<EntryModel>),
    Negate(ListName),
}

impl View for Directive {
    type V = DirectiveModel;

    open spec fn view(&self) -> DirectiveModel {
        match self {
            Directive::Assign(l, es) => DirectiveModel::Assign(*l, entry_set(es@)),
            Directive::Append(l, es) => DirectiveModel::Append(*l, entry_set(es@)),
            Directive::Subtract(l, es) => DirectiveModel::Subtract(*l, entry_set(es@)),
            Directive::Negate(l) => DirectiveModel::Negate(*l),
        }
    }
}

/// The contents of the two policy lists.
#[verifier::ext_equal]
pub struct ListPair {
    pub keep: Set<EntryModel>,
    pub check: Set<EntryModel>,
}

impl ListPair {
    /// The list of the pair that the given name picks.
    pub open spec fn list(self, l: ListName) -> Set<EntryModel> {
        match l {
            ListName::Keep => self.keep,
            ListName::Check => self.check,
        }
    }

    /// The pair with the named list replaced.
    pub open spec fn with_list(self, l: ListName, s: Set<EntryModel>) -> ListPair {
        match l {
            ListName::Keep => ListPair { keep: s, ..self },
            ListName::Check => ListPair { check: s, ..self },
        }
    }
}

/// The effect of one directive on the pair of lists: assign replaces the
/// named list, append unions into it, subtract removes from it, and
/// negate empties it. No directive is an error.
pub open spec fn apply_directive(p: ListPair, d: DirectiveModel) -> ListPair {
    match d {
        DirectiveModel::Assign(l, es) => p.with_list(l, es),
        DirectiveModel::Append(l, es) => p.with_list(l, p.list(l).union(es)),
        DirectiveModel::Subtract(l, es) => p.with_list(l, p.list(l).difference(es)),
        DirectiveModel::Negate(l) => p.with_list(l, Set::empty()),
    }
}

/// The left fold of an ordered sequence of directives over a pair of
/// lists, in declaration order.
pub open spec fn fold_directives_spec(p: ListPair, ds: Seq<DirectiveModel>) -> ListPair
    decreases ds.len(),
{
    if ds.len() == 0 {
        p
    } else {
        apply_directive(fold_directives_spec(p, ds.drop_last()), ds.last())
    }
}

/// The built-in seed of the two lists before any directive applies: the
/// default-preserved names seed the keep list and the check list starts
/// empty.
pub open spec fn initial_lists() -> ListPair {
    ListPair { keep: crate::defaults::default_keep_set(), check: Set::empty() }
}

/// Fold an ordered sequence of directives, starting from the built-in
/// seed, and return the final keep and check lists, in that order.
pub fn fold_directives(directives: &Vec<Directive>) -> (r: (PolicyList, PolicyList))
    ensures
        r.0@ == fold_directives_spec(
            initial_lists(),
            directives@.map_values(|d: Directive| d@),
        ).keep,
        r.1@ == fold_directives_spec(
            initial_lists(),
            directives@.map_values(|d: Directive| d@),
        ).check,
{
    let ghost models = directives@.map_values(|d: Directive| d@);
    let mut keep = PolicyList { entries: default_keep_entries() };
    let mut check = PolicyList::empty();
    let mut i: usize = 0;
    proof {
        assert(models.take(0) =~= Seq::<DirectiveModel>::empty());
    }
    while i < directives.len()
        invariant
            i <= directives@.len(),
            models == directives@.map_values(|d: Directive| d@),
            keep@ == fold_directives_spec(initial_lists(), models.take(i as int)).keep,
            check@ == fold_directives_spec(initial_lists(), models.take(i as int)).check,
        decreases directives@.len() - i,
    {
        proof {
            assert(models.take(i + 1).drop_last() =~= models.take(i as int));
            assert(models.take(i + 1).last() == models[i as int]);
        }
        match &directives[i] {
            Directive::Assign(l, es) => {
                match *l {
                    ListName::Keep => keep.assign(clone_entries(es)),
                    ListName::Check => check.assign(clone_entries(es)),
                }
            },
            Directive::Append(l, es) => {
                match *l {
                    ListName::Keep => keep.append(es),
                    ListName::Check => check.append(es),
                }
            },
            Directive::Subtract(l, es) => {
                match *l {
                    ListName::Keep => keep.subtract(es),
                    ListName::Check => check.subtract(es),
                }
            },
            Directive::Negate(l) => {
                match *l {
                    ListName::Keep => keep.negate(),
                    ListName::Check => check.negate(),
                }
            },
        }
        i += 1;
    }
    proof {
        assert(models.take(models.len() as int) =~= models);
    }
    (keep, check)
}

/// A copy of a vector of entries, member for member.
pub fn clone_entries(v: &Vec<Entry>) -> (r: Vec<Entry>)
    ensures
        r@.len() == v@.len(),
        forall|i: int| 0 <= i < v@.len() ==> r@[i]@ == v@[i]@,
        entry_set(r@) == entry_set(v@),
{
    let mut r: Vec<Entry> = Vec::new();
    let mut i: usize = 0;
    while i < v.len()
        invariant
            i <= v@.len(),
            r@.len() == i,
            forall|j: int| 0 <= j < i ==> r@[j]@ == v@[j]@,
        decreases v@.len() - i,
    {
        r.push(v[i].clone_entry());
        i += 1;
    }
    proof {
        assert forall|m: EntryModel| entry_set(r@).contains(m) implies entry_set(v@).contains(
            m,
        ) by {
            let j = choose|j: int| 0 <= j < r@.len() && r@[j]@ == m;
            assert(v@[j]@ == m);
        }
        assert forall|m: EntryModel| entry_set(v@).contains(m) implies entry_set(r@).contains(
            m,
        ) by {
            let j = choose|j: int| 0 <= j < v@.len() && v@[j]@ == m;
            assert(r@[j]@ == m);
        }
        assert(entry_set(r@) =~= entry_set(v@));
    }
    r
}

} // verus!
