use env_policy::builder::{build, sanitize_env, InvocationFacts, TargetIdentity};
use env_policy::defaults::default_path_value;
use env_policy::entry::Entry;
use env_policy::envmap::EnvMap;
use env_policy::policy::{fold_directives, Directive, ListName};

fn target_identity() -> TargetIdentity {
    TargetIdentity {
        home: "/home/target".to_string(),
        logname: "target".to_string(),
        mail: "/var/mail/target".to_string(),
        user: "target".to_string(),
    }
}

fn invocation_facts() -> InvocationFacts {
    InvocationFacts {
        command: "/usr/bin/true".to_string(),
        gid: "1000".to_string(),
        uid: "1000".to_string(),
        user: "target".to_string(),
    }
}

fn env_of(pairs: &[(&str, &str)]) -> EnvMap {
    let mut m = EnvMap::new();
    for (name, value) in pairs {
        m.set_var(name, value);
    }
    m
}

fn run(directives: Vec<Directive>, pairs: &[(&str, &str)]) -> EnvMap {
    let env = env_of(pairs);
    sanitize_env(&env, &directives, &target_identity(), &invocation_facts())
}

// assigning {A, B} and then {A} leaves only A preserved
#[test]
fn assign_override_keeps_only_later_set() {
    let sudo_env = run(
        vec![
            Directive::Assign(ListName::Keep, vec![Entry::bare("A"), Entry::bare("B")]),
            Directive::Assign(ListName::Keep, vec![Entry::bare("A")]),
        ],
        &[("A", "1"), ("B", "2")],
    );
    assert_eq!(Some("1".to_string()), sudo_env.get("A"));
    assert_eq!(None, sudo_env.get("B"));
}

// subtracting a name that was never added drops nothing else and raises
// no error; the variable itself is simply not preserved
#[test]
fn subtract_of_never_added_name_is_silent() {
    let sudo_env = run(
        vec![Directive::Subtract(ListName::Keep, vec![Entry::bare("X")])],
        &[("X", "1")],
    );
    assert_eq!(None, sudo_env.get("X"));
}

#[test]
fn empty_environment_still_gets_identity_injected_and_path() {
    let sudo_env = run(vec![], &[]);
    assert_eq!(Some("/home/target".to_string()), sudo_env.get("HOME"));
    assert_eq!(Some("target".to_string()), sudo_env.get("LOGNAME"));
    assert_eq!(Some("/var/mail/target".to_string()), sudo_env.get("MAIL"));
    assert_eq!(Some("target".to_string()), sudo_env.get("USER"));
    assert_eq!(Some("/usr/bin/true".to_string()), sudo_env.get("SUDO_COMMAND"));
    assert_eq!(Some("1000".to_string()), sudo_env.get("SUDO_GID"));
    assert_eq!(Some("1000".to_string()), sudo_env.get("SUDO_UID"));
    assert_eq!(Some("target".to_string()), sudo_env.get("SUDO_USER"));
    assert_eq!(Some(default_path_value()), sudo_env.get("PATH"));
}

#[test]
fn path_from_invoking_env_survives_by_default() {
    let sudo_env = run(vec![], &[("PATH", "/opt/bin:/usr/bin")]);
    assert_eq!(Some("/opt/bin:/usr/bin".to_string()), sudo_env.get("PATH"));
}

#[test]
fn unlisted_variables_are_dropped() {
    let sudo_env = run(vec![], &[("SECRET_TOKEN", "hunter2"), ("TERM", "vt100")]);
    assert_eq!(None, sudo_env.get("SECRET_TOKEN"));
    assert_eq!(Some("vt100".to_string()), sudo_env.get("TERM"));
}

// preserving both LOGNAME and USER keeps each one's own value
#[test]
fn preserving_both_logname_and_user_keeps_both_values() {
    let sudo_env = run(
        vec![Directive::Assign(
            ListName::Keep,
            vec![Entry::bare("LOGNAME"), Entry::bare("USER")],
        )],
        &[("LOGNAME", "alpha"), ("USER", "beta")],
    );
    assert_eq!(Some("alpha".to_string()), sudo_env.get("LOGNAME"));
    assert_eq!(Some("beta".to_string()), sudo_env.get("USER"));
}

// a variable preserved through the check list keeps its incoming value
#[test]
fn check_list_preserves_exact_value_end_to_end() {
    let sudo_env = run(
        vec![Directive::Assign(
            ListName::Check,
            vec![Entry::with_pattern("COLORTERM", "truecolor")],
        )],
        &[("COLORTERM", "truecolor")],
    );
    assert_eq!(Some("truecolor".to_string()), sudo_env.get("COLORTERM"));
}

// the keep and check lists fold independently
#[test]
fn negating_one_list_leaves_the_other() {
    let sudo_env = run(
        vec![
            Directive::Assign(ListName::Check, vec![Entry::bare("KEPT_BY_CHECK")]),
            Directive::Negate(ListName::Keep),
        ],
        &[("KEPT_BY_CHECK", "ok")],
    );
    assert_eq!(Some("ok".to_string()), sudo_env.get("KEPT_BY_CHECK"));
}

// build can be driven with lists folded separately
#[test]
fn build_with_separately_folded_lists() {
    let directives = vec![Directive::Append(ListName::Keep, vec![Entry::bare("FOO")])];
    let (keep, check) = fold_directives(&directives);
    let env = env_of(&[("FOO", "bar")]);
    let sudo_env = build(&env, &keep, &check, &target_identity(), &invocation_facts());
    assert_eq!(Some("bar".to_string()), sudo_env.get("FOO"));
}

// an identity variable that fails its check-list constraint is recomputed
#[test]
fn identity_value_failing_check_is_recomputed() {
    let sudo_env = run(
        vec![Directive::Assign(
            ListName::Check,
            vec![Entry::with_pattern("HOME", "/home/*")],
        )],
        &[("HOME", "/tmp/evil")],
    );
    assert_eq!(Some("/home/target".to_string()), sudo_env.get("HOME"));
}

// an identity variable matching its check-list constraint survives
#[test]
fn identity_value_passing_check_is_preserved() {
    let sudo_env = run(
        vec![Directive::Assign(
            ListName::Check,
            vec![Entry::with_pattern("HOME", "/home/*")],
        )],
        &[("HOME", "/home/me")],
    );
    assert_eq!(Some("/home/me".to_string()), sudo_env.get("HOME"));
}
