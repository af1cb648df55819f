//! The environment builder: one pass over the invoking environment,
//! followed by identity-variable handling, engine-injected variables and
//! the secure default path.

use vstd::prelude::*;
use crate::envmap::{EnvMap, map_of, names_of, lemma_map_of_dom};
use crate::policy::{PolicyList, Directive, fold_directives, fold_directives_spec, initial_lists};
use crate::entry::EntryModel;
use crate::classify::{classify, Classification, spec_preserved};
use crate::defaults::{default_path, default_path_value};

verus! {

/// The target user's identity-derived values for the variables `HOME`,
/// `LOGNAME`, `MAIL` and `USER`.
pub struct TargetIdentity {
    pub home: String,
    pub logname: String,
    pub mail: String,
    pub user: String,
}

/// Facts about the invocation, rendered as the values of the
/// engine-injected variables: the resolved command path and the target
/// group id, user id and user name.
pub struct InvocationFacts {
    pub command: String,
    pub gid: String,
    pub uid: String,
    pub user: String,
}

/// The variables of the invoking environment that the classifier
/// preserves, with their incoming values.
pub open spec fn preserved_env(
    env: Map<Seq<char>, Seq<char>>,
    keep: Set<EntryModel>,
    check: Set<EntryModel>,
) -> Map<Seq<char>, Seq<char>> {
    Map::new(
        |k: Seq<char>| env.dom().contains(k) && spec_preserved(k, env[k], keep, check),
        |k: Seq<char>| env[k],
    )
}

/// Identity handling: a preserved identity variable keeps its incoming
/// value; an absent one is set to the target-identity value, except that
/// when exactly one of `LOGNAME` and `USER` was preserved, the other one
/// takes the preserved value instead.
pub open spec fn with_identity(w: Map<Seq<char>, Seq<char>>, ident: TargetIdentity) -> Map<
    Seq<char>,
    Seq<char>,
> {
    let home = if w.contains_key("HOME"@) {
        w["HOME"@]
    } else {
        ident.home@
    };
    let mail = if w.contains_key("MAIL"@) {
        w["MAIL"@]
    } else {
        ident.mail@
    };
    let logname = if w.contains_key("LOGNAME"@) {
        w["LOGNAME"@]
    } else if w.contains_key("USER"@) {
        w["USER"@]
    } else {
        ident.logname@
    };
    let user = if w.contains_key("USER"@) {
        w["USER"@]
    } else if w.contains_key("LOGNAME"@) {
        w["LOGNAME"@]
    } else {
        ident.user@
    };
    w.insert("HOME"@, home).insert("LOGNAME"@, logname).insert("MAIL"@, mail).insert(
        "USER"@,
        user,
    )
}

/// The engine-injected variables, set unconditionally from the
/// invocation facts, never from the invoking environment.
pub open spec fn with_injected(w: Map<Seq<char>, Seq<char>>, facts: InvocationFacts) -> Map<
    Seq<char>,
    Seq<char>,
> {
    w.insert("SUDO_COMMAND"@, facts.command@).insert("SUDO_GID"@, facts.gid@).insert(
        "SUDO_UID"@,
        facts.uid@,
    ).insert("SUDO_USER"@, facts.user@)
}

/// The secure-path fallback: a final mapping without `PATH` gets the
/// fixed secure default.
pub open spec fn with_secure_path(w: Map<Seq<char>, Seq<char>>) -> Map<Seq<char>, Seq<char>> {
    if w.contains_key("PATH"@) {
        w
    } else {
        w.insert("PATH"@, default_path())
    }
}

/// The final environment mapping: classification of every incoming
/// variable, then identity handling, then the injected variables, then
/// the secure-path fallback.
pub open spec fn build_spec(
    env: Map<Seq<char>, Seq<char>>,
    keep: Set<EntryModel>,
    check: Set<EntryModel>,
    ident: TargetIdentity,
    facts: InvocationFacts,
) -> Map<Seq<char>, Seq<char>> {
    with_secure_path(with_injected(with_identity(preserved_env(env, keep, check), ident), facts))
}

/// Build the final environment mapping for the command run as the target
/// user. Total: no input produces an error.
pub fn build(
    invoking_env: &EnvMap,
    keep: &PolicyList,
    check: &PolicyList,
    ident: &TargetIdentity,
    facts: &InvocationFacts,
) -> (w: EnvMap)
    requires
        invoking_env.wf(),
    ensures
        w.wf(),
        w@ == build_spec(invoking_env@, keep@, check@, *ident, *facts),
{
    let mut w = EnvMap::new();
    let mut i: usize = 0;
    proof {
        assert(invoking_env.vars@.take(0) =~= Seq::<crate::envmap::EnvVar>::empty());
        assert(w@ =~= preserved_env(map_of(invoking_env.vars@.take(0)), keep@, check@));
    }
    while i < invoking_env.vars.len()
        invariant
            i <= invoking_env.vars@.len(),
            invoking_env.wf(),
            w.wf(),
            w@ == preserved_env(map_of(invoking_env.vars@.take(i as int)), keep@, check@),
        decreases invoking_env.vars@.len() - i,
    {
        let ghost prefix = invoking_env.vars@.take(i as int);
        let ghost prefix1 = invoking_env.vars@.take(i + 1);
        let ghost nm = invoking_env.vars@[i as int].name@;
        let ghost vl = invoking_env.vars@[i as int].value@;
        let ghost w_before = w@;
        let v = &invoking_env.vars[i];
        let c = classify(v.name.as_str(), v.value.as_str(), keep, check);
        if c == Classification::Preserve {
            w.set_var(v.name.as_str(), v.value.as_str());
        }
        proof {
            assert(prefix1.drop_last() =~= prefix);
            assert(prefix1.last() == invoking_env.vars@[i as int]);
            let env0 = map_of(prefix);
            let env1 = map_of(prefix1);
            assert(env1 == env0.insert(nm, vl));
            lemma_map_of_dom(prefix);
            assert(!env0.contains_key(nm)) by {
                if env0.dom().contains(nm) {
                    assert(names_of(prefix).contains(nm));
                    let j = choose|j: int| 0 <= j < prefix.len() && prefix[j].name@ == nm;
                    assert(invoking_env.vars@[j].name@ != nm);
                }
            }
            let p = spec_preserved(nm, vl, keep@, check@);
            assert forall|k: Seq<char>| #![auto]
                preserved_env(env1, keep@, check@).dom().contains(k) == w@.dom().contains(
                k,
            ) && (w@.dom().contains(k) ==> preserved_env(env1, keep@, check@)[k] == w@[k]) by {
                if k == nm {
                    assert(env1[k] == vl);
                } else {
                    assert(env1.contains_key(k) == env0.contains_key(k));
                    if env0.contains_key(k) {
                        assert(env1[k] == env0[k]);
                    }
                }
            }
            assert(preserved_env(env1, keep@, check@) =~= w@);
        }
        i += 1;
    }
    proof {
        assert(invoking_env.vars@.take(invoking_env.vars@.len() as int) =~= invoking_env.vars@);
    }
    let ghost w1 = w@;
    // identity variables
    let home_val = match w.get("HOME") {
        Some(v) => v,
        None => ident.home.clone(),
    };
    let mail_val = match w.get("MAIL") {
        Some(v) => v,
        None => ident.mail.clone(),
    };
    let logname_opt = w.get("LOGNAME");
    let user_opt = w.get("USER");
    let logname_val = match (&logname_opt, &user_opt) {
        (Some(l), _) => l.clone(),
        (None, Some(u)) => u.clone(),
        (None, None) => ident.logname.clone(),
    };
    let user_val = match (&user_opt, &logname_opt) {
        (Some(u), _) => u.clone(),
        (None, Some(l)) => l.clone(),
        (None, None) => ident.user.clone(),
    };
    w.set_var("HOME", home_val.as_str());
    w.set_var("LOGNAME", logname_val.as_str());
    w.set_var("MAIL", mail_val.as_str());
    w.set_var("USER", user_val.as_str());
    proof {
        assert(w@ == with_identity(w1, *ident));
    }
    let ghost w2 = w@;
    // injected variables
    w.set_var("SUDO_COMMAND", facts.command.as_str());
    w.set_var("SUDO_GID", facts.gid.as_str());
    w.set_var("SUDO_UID", facts.uid.as_str());
    w.set_var("SUDO_USER", facts.user.as_str());
    proof {
        assert(w@ == with_injected(w2, *facts));
    }
    // secure-path fallback
    if !w.contains_name("PATH") {
        let p = default_path_value();
        w.set_var("PATH", p.as_str());
    }
    w
}

/// Fold the directives over the built-in seed and build the final
/// environment mapping in one pass.
pub fn sanitize_env(
    invoking_env: &EnvMap,
    directives: &Vec<Directive>,
    ident: &TargetIdentity,
    facts: &InvocationFacts,
) -> (w: EnvMap)
    requires
        invoking_env.wf(),
    ensures
        w.wf(),
        w@ == ({
            let lists = fold_directives_spec(
                initial_lists(),
                directives@.map_values(|d: Directive| d@),
            );
            build_spec(invoking_env@, lists.keep, lists.check, *ident, *facts)
        }),
{
    let (keep, check) = fold_directives(directives);
    build(invoking_env, &keep, &check, ident, facts)
}

} // verus!
