//! Laws of the engine: properties of the directive fold, the matcher,
//! the classifier and the environment builder, proved for all inputs.

use vstd::prelude::*;
use crate::glob::lemma_plain_pattern_matches_exactly;
use crate::entry::{EntryModel, entry_matches};
use crate::policy::{
    ListName,
    DirectiveModel,
    ListPair,
    apply_directive,
    fold_directives_spec,
    initial_lists,
    set_matches,
};
use crate::classify::{spec_preserved, starts_with_function_marker};
use crate::defaults::default_path;
use crate::builder::{preserved_env, build_spec, TargetIdentity, InvocationFacts};

verus! {

/// The names the builder handles specially are pairwise distinct.
pub proof fn lemma_special_names_distinct()
    ensures
        "HOME"@ != "LOGNAME"@,
        "HOME"@ != "MAIL"@,
        "HOME"@ != "USER"@,
        "HOME"@ != "SUDO_COMMAND"@,
        "HOME"@ != "SUDO_GID"@,
        "HOME"@ != "SUDO_UID"@,
        "HOME"@ != "SUDO_USER"@,
        "HOME"@ != "PATH"@,
        "HOME"@ != "TERM"@,
        "LOGNAME"@ != "MAIL"@,
        "LOGNAME"@ != "USER"@,
        "LOGNAME"@ != "SUDO_COMMAND"@,
        "LOGNAME"@ != "SUDO_GID"@,
        "LOGNAME"@ != "SUDO_UID"@,
        "LOGNAME"@ != "SUDO_USER"@,
        "LOGNAME"@ != "PATH"@,
        "LOGNAME"@ != "TERM"@,
        "MAIL"@ != "USER"@,
        "MAIL"@ != "SUDO_COMMAND"@,
        "MAIL"@ != "SUDO_GID"@,
        "MAIL"@ != "SUDO_UID"@,
        "MAIL"@ != "SUDO_USER"@,
        "MAIL"@ != "PATH"@,
        "MAIL"@ != "TERM"@,
        "USER"@ != "SUDO_COMMAND"@,
        "USER"@ != "SUDO_GID"@,
        "USER"@ != "SUDO_UID"@,
        "USER"@ != "SUDO_USER"@,
        "USER"@ != "PATH"@,
        "USER"@ != "TERM"@,
        "SUDO_COMMAND"@ != "SUDO_GID"@,
        "SUDO_COMMAND"@ != "SUDO_UID"@,
        "SUDO_COMMAND"@ != "SUDO_USER"@,
        "SUDO_COMMAND"@ != "PATH"@,
        "SUDO_COMMAND"@ != "TERM"@,
        "SUDO_GID"@ != "SUDO_UID"@,
        "SUDO_GID"@ != "SUDO_USER"@,
        "SUDO_GID"@ != "PATH"@,
        "SUDO_GID"@ != "TERM"@,
        "SUDO_UID"@ != "SUDO_USER"@,
        "SUDO_UID"@ != "PATH"@,
        "SUDO_UID"@ != "TERM"@,
        "SUDO_USER"@ != "PATH"@,
        "SUDO_USER"@ != "TERM"@,
        "PATH"@ != "TERM"@,
{
    reveal_strlit("HOME");
    reveal_strlit("LOGNAME");
    reveal_strlit("MAIL");
    reveal_strlit("USER");
    reveal_strlit("SUDO_COMMAND");
    reveal_strlit("SUDO_GID");
    reveal_strlit("SUDO_UID");
    reveal_strlit("SUDO_USER");
    reveal_strlit("PATH");
    reveal_strlit("TERM");
    assert("HOME"@.len() == 4);
    assert("LOGNAME"@.len() == 7);
    assert("MAIL"@.len() == 4);
    assert("USER"@.len() == 4);
    assert("SUDO_COMMAND"@.len() == 12);
    assert("SUDO_GID"@.len() == 8);
    assert("SUDO_UID"@.len() == 8);
    assert("SUDO_USER"@.len() == 9);
    assert("PATH"@.len() == 4);
    assert("TERM"@.len() == 4);
    assert("HOME"@[0] == 'H' && "MAIL"@[0] == 'M' && "USER"@[0] == 'U' && "PATH"@[0] == 'P'
        && "TERM"@[0] == 'T');
    assert("SUDO_GID"@[5] == 'G' && "SUDO_UID"@[5] == 'U');
}

/// Appending one entry as the first directive leaves the named list
/// holding exactly its built-in seed plus that entry: for the check
/// list, whose seed is empty, exactly that entry.
pub proof fn lemma_append_single_entry(l: ListName, e: EntryModel)
    ensures
        fold_directives_spec(
            initial_lists(),
            seq![DirectiveModel::Append(l, Set::empty().insert(e))],
        ).list(l) == initial_lists().list(l).insert(e),
{
    let d = DirectiveModel::Append(l, Set::empty().insert(e));
    let ds = seq![d];
    let ds0 = Seq::<DirectiveModel>::empty();
    assert(fold_directives_spec(initial_lists(), ds0) == initial_lists());
    assert(ds.drop_last() =~= ds0);
    assert(ds.last() == d);
    assert(fold_directives_spec(initial_lists(), ds) == apply_directive(initial_lists(), d));
    assert(initial_lists().list(l).union(Set::empty().insert(e)) =~= initial_lists().list(
        l,
    ).insert(e));
}

/// A later assign fully replaces what an earlier assign put into the
/// named list, and leaves the other list untouched.
pub proof fn lemma_assign_overrides(l: ListName, first: Set<EntryModel>, second: Set<EntryModel>)
    ensures
        fold_directives_spec(
            initial_lists(),
            seq![DirectiveModel::Assign(l, first), DirectiveModel::Assign(l, second)],
        ).list(l) == second,
        l == ListName::Check ==> fold_directives_spec(
            initial_lists(),
            seq![DirectiveModel::Assign(l, first), DirectiveModel::Assign(l, second)],
        ).keep == initial_lists().keep,
        l == ListName::Keep ==> fold_directives_spec(
            initial_lists(),
            seq![DirectiveModel::Assign(l, first), DirectiveModel::Assign(l, second)],
        ).check == initial_lists().check,
{
    let d1 = DirectiveModel::Assign(l, first);
    let d2 = DirectiveModel::Assign(l, second);
    let ds = seq![d1, d2];
    let ds0 = Seq::<DirectiveModel>::empty();
    assert(fold_directives_spec(initial_lists(), ds0) == initial_lists());
    assert(seq![d1].drop_last() =~= ds0);
    assert(seq![d1].last() == d1);
    assert(fold_directives_spec(initial_lists(), seq![d1]) == apply_directive(
        initial_lists(),
        d1,
    ));
    assert(ds.drop_last() =~= seq![d1]);
    assert(ds.last() == d2);
    assert(fold_directives_spec(initial_lists(), ds) == apply_directive(
        apply_directive(initial_lists(), d1),
        d2,
    ));
}

/// Subtracting entries none of which is in the named list is a no-op:
/// the fold is total, the pair comes back unchanged, and no diagnostic
/// exists for it to produce.
pub proof fn lemma_subtract_absent_is_noop(p: ListPair, l: ListName, entries: Set<EntryModel>)
    requires
        forall|m: EntryModel| entries.contains(m) ==> !p.list(l).contains(m),
    ensures
        apply_directive(p, DirectiveModel::Subtract(l, entries)) == p,
{
    assert(p.list(l).difference(entries) =~= p.list(l));
    assert(apply_directive(p, DirectiveModel::Subtract(l, entries)) =~= p);
}

/// Negation does not block later growth: negate and then append yields
/// exactly the appended entries, not the empty set.
pub proof fn lemma_append_after_negate(p: ListPair, l: ListName, entries: Set<EntryModel>)
    ensures
        apply_directive(
            apply_directive(p, DirectiveModel::Negate(l)),
            DirectiveModel::Append(l, entries),
        ).list(l) == entries,
{
    assert(Set::<EntryModel>::empty().union(entries) =~= entries);
}

/// An override after negation is permitted: negate and then assign
/// yields exactly the assigned entries.
pub proof fn lemma_assign_after_negate(p: ListPair, l: ListName, entries: Set<EntryModel>)
    ensures
        apply_directive(
            apply_directive(p, DirectiveModel::Negate(l)),
            DirectiveModel::Assign(l, entries),
        ).list(l) == entries,
{
}

/// A check-list entry `NAME=value` whose pattern has no wildcard
/// preserves `NAME` exactly when the live value equals the pattern; any
/// other live value is dropped. Stated away from the inputs on which the
/// check list's own rules decide otherwise: a pattern that begins with
/// the function marker, the name `TERM`, and a keep-list match.
pub proof fn lemma_check_exact_value(
    name: Seq<char>,
    live: Seq<char>,
    pattern: Seq<char>,
    keep: Set<EntryModel>,
    check: Set<EntryModel>,
)
    requires
        check == Set::<EntryModel>::empty().insert(
            EntryModel { name: name, pattern: Some(pattern) },
        ),
        forall|k: int| 0 <= k < pattern.len() ==> pattern[k] != '*',
        !starts_with_function_marker(pattern),
        name != "TERM"@,
        !set_matches(keep, name, live),
    ensures
        spec_preserved(name, live, keep, check) <==> live == pattern,
{
    lemma_plain_pattern_matches_exactly(pattern, live);
    let m = EntryModel { name: name, pattern: Some(pattern) };
    if live == pattern {
        assert(check.contains(m) && entry_matches(m, name, live));
        assert(set_matches(check, name, live));
    }
    if spec_preserved(name, live, keep, check) {
        let m2 = choose|m2: EntryModel|
            check.contains(m2) && entry_matches(m2, name, live);
        assert(m2 == m);
    }
}

/// A bare unquoted `name=value` token parses as an entry whose name
/// carries the whole token, and therefore never matches the real
/// variable `name`.
pub proof fn lemma_unquoted_key_value_never_matches(
    name: Seq<char>,
    suffix: Seq<char>,
    value: Seq<char>,
)
    ensures
        !entry_matches(
            EntryModel { name: name + seq!['='] + suffix, pattern: None },
            name,
            value,
        ),
{
    let token = name + seq!['='] + suffix;
    assert(token.len() == name.len() + 1 + suffix.len());
}

/// A value that begins with the function marker is dropped only when it
/// would be preserved through the check list, never through the keep
/// list: a keep-list match (or the name `TERM`) preserves it, and
/// without such a match the variable is dropped whether or not the check
/// list matches.
pub proof fn lemma_function_marker_asymmetry(
    name: Seq<char>,
    value: Seq<char>,
    keep: Set<EntryModel>,
    check: Set<EntryModel>,
)
    requires
        starts_with_function_marker(value),
    ensures
        (name == "TERM"@ || set_matches(keep, name, value)) ==> spec_preserved(
            name,
            value,
            keep,
            check,
        ),
        (name != "TERM"@ && !set_matches(keep, name, value)) ==> !spec_preserved(
            name,
            value,
            keep,
            check,
        ),
{
}

/// The identity variables are overwritten to target-identity values
/// unless preserved from the invoking environment; and when exactly one
/// of `LOGNAME` and `USER` is preserved, the other one takes the same
/// preserved value.
pub proof fn lemma_identity_variables(
    env: Map<Seq<char>, Seq<char>>,
    keep: Set<EntryModel>,
    check: Set<EntryModel>,
    ident: TargetIdentity,
    facts: InvocationFacts,
)
    ensures
        ({
            let w = preserved_env(env, keep, check);
            let f = build_spec(env, keep, check, ident, facts);
            f.contains_key("HOME"@) && f.contains_key("LOGNAME"@) && f.contains_key("MAIL"@)
                && f.contains_key("USER"@) && f["HOME"@] == (if w.contains_key("HOME"@) {
                w["HOME"@]
            } else {
                ident.home@
            }) && f["MAIL"@] == (if w.contains_key("MAIL"@) {
                w["MAIL"@]
            } else {
                ident.mail@
            }) && f["LOGNAME"@] == (if w.contains_key("LOGNAME"@) {
                w["LOGNAME"@]
            } else if w.contains_key("USER"@) {
                w["USER"@]
            } else {
                ident.logname@
            }) && f["USER"@] == (if w.contains_key("USER"@) {
                w["USER"@]
            } else if w.contains_key("LOGNAME"@) {
                w["LOGNAME"@]
            } else {
                ident.user@
            })
        }),
{
    lemma_special_names_distinct();
}

/// The injected variables always carry the invocation facts in the
/// final mapping, never values from the invoking environment.
pub proof fn lemma_injected_variables(
    env: Map<Seq<char>, Seq<char>>,
    keep: Set<EntryModel>,
    check: Set<EntryModel>,
    ident: TargetIdentity,
    facts: InvocationFacts,
)
    ensures
        ({
            let f = build_spec(env, keep, check, ident, facts);
            f.contains_key("SUDO_COMMAND"@) && f.contains_key("SUDO_GID"@) && f.contains_key(
                "SUDO_UID"@,
            ) && f.contains_key("SUDO_USER"@) && f["SUDO_COMMAND"@] == facts.command@
                && f["SUDO_GID"@] == facts.gid@ && f["SUDO_UID"@] == facts.uid@
                && f["SUDO_USER"@] == facts.user@
        }),
{
    lemma_special_names_distinct();
}

/// `TERM` reaches the final mapping unmodified whenever the invoking
/// environment carries it, under every directive combination.
pub proof fn lemma_term_untouched(
    env: Map<Seq<char>, Seq<char>>,
    keep: Set<EntryModel>,
    check: Set<EntryModel>,
    ident: TargetIdentity,
    facts: InvocationFacts,
)
    requires
        env.contains_key("TERM"@),
    ensures
        build_spec(env, keep, check, ident, facts).contains_key("TERM"@),
        build_spec(env, keep, check, ident, facts)["TERM"@] == env["TERM"@],
{
    lemma_special_names_distinct();
    let w = preserved_env(env, keep, check);
    assert(w.contains_key("TERM"@) && w["TERM"@] == env["TERM"@]);
}

/// `PATH` survives with its invoking value exactly when it is preserved
/// by the classifier; otherwise the final mapping carries the fixed
/// secure default.
pub proof fn lemma_secure_path_fallback(
    env: Map<Seq<char>, Seq<char>>,
    keep: Set<EntryModel>,
    check: Set<EntryModel>,
    ident: TargetIdentity,
    facts: InvocationFacts,
)
    ensures
        build_spec(env, keep, check, ident, facts).contains_key("PATH"@),
        (env.contains_key("PATH"@) && spec_preserved("PATH"@, env["PATH"@], keep, check))
            ==> build_spec(env, keep, check, ident, facts)["PATH"@] == env["PATH"@],
        !(env.contains_key("PATH"@) && spec_preserved("PATH"@, env["PATH"@], keep, check))
            ==> build_spec(env, keep, check, ident, facts)["PATH"@] == default_path(),
{
    lemma_special_names_distinct();
}

} // verus!
