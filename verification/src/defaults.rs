//! Built-in constants of the engine: the names preserved by default, and
//! the secure default command-search path.

use vstd::prelude::*;
use crate::entry::{Entry, EntryModel};
use crate::policy::entry_set;

verus! {

/// The fixed built-in names whose variables are preserved before the
/// administrator-configured lists are consulted. They seed the keep list;
/// all but `TERM` can be removed again by a directive.
pub open spec fn default_preserved_names() -> Seq<Seq<char>> {
    seq![
        "COLORS"@,
        "DISPLAY"@,
        "HOSTNAME"@,
        "LANG"@,
        "LANGUAGE"@,
        "LC_ALL"@,
        "LS_COLORS"@,
        "PATH"@,
        "PS1"@,
        "PS2"@,
        "TERM"@,
        "TZ"@,
    ]
}

/// The built-in seed of the keep list: one bare-name entry for each
/// default-preserved name.
pub open spec fn default_keep_set() -> Set<EntryModel> {
    Set::new(
        |m: EntryModel| m.pattern is None && default_preserved_names().contains(m.name),
    )
}

/// The fixed secure default value that replaces a `PATH` removed by the
/// directives.
pub open spec fn default_path() -> Seq<char> {
    "/usr/bin:/bin:/usr/sbin:/sbin"@
}

/// The secure default `PATH` value as a string.
pub fn default_path_value() -> (r: String)
    ensures
        r@ == default_path(),
{
    "/usr/bin:/bin:/usr/sbin:/sbin".to_owned()
}

/// The built-in seed of the keep list, as entries.
pub fn default_keep_entries() -> (v: Vec<Entry>)
    ensures
        entry_set(v@) == default_keep_set(),
{
    let mut v: Vec<Entry> = Vec::new();
    v.push(Entry::bare("COLORS"));
    v.push(Entry::bare("DISPLAY"));
    v.push(Entry::bare("HOSTNAME"));
    v.push(Entry::bare("LANG"));
    v.push(Entry::bare("LANGUAGE"));
    v.push(Entry::bare("LC_ALL"));
    v.push(Entry::bare("LS_COLORS"));
    v.push(Entry::bare("PATH"));
    v.push(Entry::bare("PS1"));
    v.push(Entry::bare("PS2"));
    v.push(Entry::bare("TERM"));
    v.push(Entry::bare("TZ"));
    proof {
        let names = default_preserved_names();
        assert(v@.len() == names.len());
        assert forall|i: int| 0 <= i < v@.len() implies v@[i]@ == (EntryModel {
            name: names[i],
            pattern: None,
        }) by {
            assert(v@[i]@.pattern is None);
        }
        assert forall|m: EntryModel| entry_set(v@).contains(m) implies default_keep_set().contains(
            m,
        ) by {
            let i = choose|i: int| 0 <= i < v@.len() && v@[i]@ == m;
            assert(names[i] == m.name);
        }
        assert forall|m: EntryModel| default_keep_set().contains(m) implies entry_set(
            v@,
        ).contains(m) by {
            let i = choose|i: int| 0 <= i < names.len() && names[i] == m.name;
            assert(v@[i]@ =~= m);
        }
        assert(entry_set(v@) =~= default_keep_set());
    }
    v
}

} // verus!
