use env_policy::classify::{classify, Classification};
use env_policy::entry::Entry;
use env_policy::glob::{glob_match, str_eq};
use env_policy::policy::{fold_directives, Directive, ListName, PolicyList};

fn lists_of(directives: Vec<Directive>) -> (PolicyList, PolicyList) {
    fold_directives(&directives)
}

#[test]
fn glob_star_matches_any_run() {
    assert!(glob_match("*", ""));
    assert!(glob_match("*", "anything"));
    assert!(glob_match("()*", "() 42"));
    assert!(glob_match("a*c", "abc"));
    assert!(glob_match("a*c", "ac"));
    assert!(glob_match("a*c", "axxxc"));
    assert!(!glob_match("a*c", "ab"));
    assert!(!glob_match("()*", "(x) 42"));
}

#[test]
fn glob_without_wildcard_requires_exact_equality() {
    assert!(glob_match("value", "value"));
    assert!(!glob_match("value", "valu"));
    assert!(!glob_match("value", "value "));
    assert!(!glob_match("", "x"));
    assert!(glob_match("", ""));
}

#[test]
fn str_eq_compares_characters() {
    assert!(str_eq("TERM", "TERM"));
    assert!(!str_eq("TERM", "PATH"));
    assert!(!str_eq("TERM", "TERMINAL"));
    assert!(str_eq("", ""));
}

// a value that begins with `()` is dropped when preserved through the
// check list, never when preserved through the keep list
#[test]
fn function_marker_dropped_via_check_but_kept_via_keep() {
    let name = "FN";
    let value = "() { :; }";
    let (keep, check) = lists_of(vec![Directive::Assign(
        ListName::Keep,
        vec![Entry::bare(name)],
    )]);
    assert_eq!(Classification::Preserve, classify(name, value, &keep, &check));

    let (keep, check) = lists_of(vec![Directive::Assign(
        ListName::Check,
        vec![Entry::bare(name)],
    )]);
    assert_eq!(Classification::Drop, classify(name, value, &keep, &check));
}

// a check-list `NAME=value` entry preserves NAME exactly when the live
// value equals the pattern
#[test]
fn check_list_key_value_requires_exact_live_value() {
    let (keep, check) = lists_of(vec![Directive::Assign(
        ListName::Check,
        vec![Entry::with_pattern("KEY", "value")],
    )]);
    assert_eq!(Classification::Preserve, classify("KEY", "value", &keep, &check));
    assert_eq!(Classification::Drop, classify("KEY", "other", &keep, &check));
    assert_eq!(Classification::Drop, classify("KEY", "value ", &keep, &check));
    assert_eq!(Classification::Drop, classify("OTHER", "value", &keep, &check));
}

// an unquoted `name=value` token becomes a bare entry whose name carries
// the whole token and never matches the real variable
#[test]
fn unquoted_key_value_token_matches_nothing() {
    let (keep, check) = lists_of(vec![Directive::Assign(
        ListName::Keep,
        vec![Entry::bare("KEY=value")],
    )]);
    assert_eq!(Classification::Drop, classify("KEY", "value", &keep, &check));
    // only a variable literally named `KEY=value` would match, and such a
    // name cannot occur in an environment
    assert_eq!(
        Classification::Preserve,
        classify("KEY=value", "anything", &keep, &check)
    );
}

#[test]
fn term_always_preserved_even_with_marker_value() {
    let (keep, check) = lists_of(vec![Directive::Negate(ListName::Keep)]);
    assert_eq!(Classification::Preserve, classify("TERM", "() x", &keep, &check));
}

#[test]
fn default_names_preserved_without_directives() {
    let (keep, check) = lists_of(vec![]);
    assert_eq!(
        Classification::Preserve,
        classify("DISPLAY", ":0", &keep, &check)
    );
    assert_eq!(
        Classification::Preserve,
        classify("PATH", "/usr/bin", &keep, &check)
    );
    assert_eq!(Classification::Drop, classify("SECRET", "x", &keep, &check));
}

// a name with a pattern and the bare form of the same name are distinct
// list members: subtracting one leaves the other
#[test]
fn bare_name_and_pattern_are_distinct_members() {
    let (keep, check) = lists_of(vec![
        Directive::Assign(
            ListName::Keep,
            vec![Entry::bare("KEY"), Entry::with_pattern("KEY", "v")],
        ),
        Directive::Subtract(ListName::Keep, vec![Entry::bare("KEY")]),
    ]);
    // the pattern entry is still there: only the exact value matches
    assert_eq!(Classification::Preserve, classify("KEY", "v", &keep, &check));
    assert_eq!(Classification::Drop, classify("KEY", "w", &keep, &check));
}
