//! The environment that a child process is started with.
//!
//! A long-lived client holds provider credentials in its own environment. A
//! child receives such a variable only when its configuration names it.

use vstd::prelude::*;

use crate::string_map::StringMap;
use crate::text::{ends_with, spells, upper_chars};

verus! {

/// Whether `key`, in any case of its ASCII letters, names a credential.
pub open spec fn sensitive_key(key: Seq<char>) -> bool {
    let name = crate::text::upper(key);
    ||| "_API_KEY"@.is_suffix_of(name)
    ||| "_ACCESS_TOKEN"@.is_suffix_of(name)
    ||| "_AUTH_TOKEN"@.is_suffix_of(name)
    ||| name == "AWS_ACCESS_KEY_ID"@
    ||| name == "AWS_SECRET_ACCESS_KEY"@
    ||| name == "AWS_SESSION_TOKEN"@
    ||| name == "AZURE_CLIENT_SECRET"@
    ||| name == "GOOGLE_APPLICATION_CREDENTIALS"@
}

/// Whether a child must not receive the variable `key` merely because the
/// client has it. A configuration can still give a child any of these names.
pub fn is_sensitive_inherited_env_key(key: &str) -> (sensitive: bool)
    ensures
        sensitive == sensitive_key(key@),
{
    let name = upper_chars(key);
    ends_with(&name, "_API_KEY") || ends_with(&name, "_ACCESS_TOKEN") || ends_with(
        &name,
        "_AUTH_TOKEN",
    ) || spells(&name, "AWS_ACCESS_KEY_ID") || spells(&name, "AWS_SECRET_ACCESS_KEY") || spells(
        &name,
        "AWS_SESSION_TOKEN",
    ) || spells(&name, "AZURE_CLIENT_SECRET") || spells(&name, "GOOGLE_APPLICATION_CREDENTIALS")
}

/// The inherited variables that are no credentials, and over them the
/// configured ones.
pub open spec fn child_env(
    inherited: Map<Seq<char>, Seq<char>>,
    explicit: Map<Seq<char>, Seq<char>>,
) -> Map<Seq<char>, Seq<char>> {
    Map::new(
        |key: Seq<char>|
            explicit.contains_key(key) || (inherited.contains_key(key) && !sensitive_key(key)),
        |key: Seq<char>|
            if explicit.contains_key(key) {
                explicit[key]
            } else {
                inherited[key]
            },
    )
}

/// The environment of a child: what it inherits, less the credentials, with
/// what its configuration sets.
pub fn mcp_child_env(inherited: StringMap, explicit: &StringMap) -> (env: StringMap)
    ensures
        env@ == child_env(inherited@, explicit@),
{
    let mut env = StringMap::new();
    let n: usize = inherited.len();
    let ghost old_entries = inherited.entries();
    proof {
        crate::string_map::lemma_map_of(old_entries);
    }
    for i in 0..n
        invariant
            n == old_entries.len(),
            old_entries == inherited.entries(),
            inherited@ == crate::string_map::map_of(old_entries),
            forall|j: int|
                0 <= j < n ==> inherited@.contains_key((#[trigger] old_entries[j]).0)
                    && inherited@[old_entries[j].0] == old_entries[j].1,
            forall|k: Seq<char>| #[trigger]
                env@.contains_key(k) ==> inherited@.contains_key(k) && !sensitive_key(k) && env@[k]
                    == inherited@[k],
            forall|j: int|
                0 <= j < i && !sensitive_key((#[trigger] old_entries[j]).0) ==> env@.contains_key(
                    old_entries[j].0,
                ),
    {
        if !is_sensitive_inherited_env_key(inherited.key_at(i)) {
            env.insert(inherited.key_at(i).to_string(), inherited.value_at(i).to_string());
        }
    }
    let ghost kept = env@;
    let m: usize = explicit.len();
    let ghost new_entries = explicit.entries();
    proof {
        crate::string_map::lemma_map_of(new_entries);
        assert forall|k: Seq<char>| inherited@.contains_key(k) && !sensitive_key(k) implies
            env@.contains_key(k) by {
            let j = choose|j: int| 0 <= j < old_entries.len() && (#[trigger] old_entries[j]).0 == k;
            assert(!sensitive_key(old_entries[j].0));
        }
    }
    for i in 0..m
        invariant
            m == new_entries.len(),
            new_entries == explicit.entries(),
            explicit@ == crate::string_map::map_of(new_entries),
            forall|j: int|
                0 <= j < m ==> explicit@.contains_key((#[trigger] new_entries[j]).0)
                    && explicit@[new_entries[j].0] == new_entries[j].1,
            forall|k: Seq<char>| #[trigger]
                env@.contains_key(k) ==> (explicit@.contains_key(k) && env@[k] == explicit@[k]) || (
                kept.contains_key(k) && env@[k] == kept[k]),
            forall|k: Seq<char>| #[trigger] kept.contains_key(k) ==> env@.contains_key(k),
            forall|j: int|
                0 <= j < i ==> env@.contains_key((#[trigger] new_entries[j]).0)
                    && env@[new_entries[j].0] == new_entries[j].1,
    {
        env.insert(explicit.key_at(i).to_string(), explicit.value_at(i).to_string());
    }
    proof {
        assert forall|k: Seq<char>| explicit@.contains_key(k) implies env@.contains_key(k)
            && env@[k] == explicit@[k] by {
            let j = choose|j: int| 0 <= j < new_entries.len() && (#[trigger] new_entries[j]).0 == k;
            assert(env@.contains_key(new_entries[j].0));
        }
        assert(env@ =~= child_env(inherited@, explicit@));
    }
    env
}

/// The case of a name's ASCII letters does not hide a credential.
pub proof fn law_sensitivity_ignores_case(a: Seq<char>, b: Seq<char>)
    requires
        crate::text::upper(a) == crate::text::upper(b),
    ensures
        sensitive_key(a) == sensitive_key(b),
{
}

/// No inherited credential reaches a child that is not configured with it.
pub proof fn law_inherited_credentials_are_withheld(
    inherited: Map<Seq<char>, Seq<char>>,
    explicit: Map<Seq<char>, Seq<char>>,
    key: Seq<char>,
)
    requires
        sensitive_key(key),
        !explicit.contains_key(key),
    ensures
        !child_env(inherited, explicit).contains_key(key),
{
}

/// A configured variable reaches the child as configured, a credential too,
/// whatever the client's own environment holds.
pub proof fn law_configured_variables_win(
    inherited: Map<Seq<char>, Seq<char>>,
    explicit: Map<Seq<char>, Seq<char>>,
    key: Seq<char>,
)
    requires
        explicit.contains_key(key),
    ensures
        child_env(inherited, explicit).contains_key(key),
        child_env(inherited, explicit)[key] == explicit[key],
{
}

/// Every other inherited variable reaches the child unchanged.
pub proof fn law_other_variables_are_inherited(
    inherited: Map<Seq<char>, Seq<char>>,
    explicit: Map<Seq<char>, Seq<char>>,
    key: Seq<char>,
)
    requires
        inherited.contains_key(key),
        !sensitive_key(key),
        !explicit.contains_key(key),
    ensures
        child_env(inherited, explicit).contains_key(key),
        child_env(inherited, explicit)[key] == inherited[key],
{
}

/// The variables that a child holds come from nowhere else.
pub proof fn law_nothing_is_invented(
    inherited: Map<Seq<char>, Seq<char>>,
    explicit: Map<Seq<char>, Seq<char>>,
    key: Seq<char>,
)
    requires
        child_env(inherited, explicit).contains_key(key),
    ensures
        explicit.contains_key(key) || inherited.contains_key(key),
{
}

/// A child of a child, with the same configuration, has the same environment.
pub proof fn law_child_env_is_idempotent(
    inherited: Map<Seq<char>, Seq<char>>,
    explicit: Map<Seq<char>, Seq<char>>,
)
    ensures
        child_env(child_env(inherited, explicit), explicit) == child_env(inherited, explicit),
{
    assert(child_env(child_env(inherited, explicit), explicit) =~= child_env(inherited, explicit));
}

/// Whether `key` ends with `ending`, in any case of the ASCII letters.
pub open spec fn ends_like(key: Seq<char>, ending: Seq<char>) -> bool {
    &&& key.len() >= ending.len()
    &&& crate::text::alike(key.skip(key.len() - ending.len()), ending)
}

/// A name is that of a credential exactly if it has one of three endings or is
/// one of five names, in any case of the ASCII letters.
pub proof fn law_credentials_are_known_by_name(key: Seq<char>)
    ensures
        sensitive_key(key) <==> {
            ||| ends_like(key, "_API_KEY"@)
            ||| ends_like(key, "_ACCESS_TOKEN"@)
            ||| ends_like(key, "_AUTH_TOKEN"@)
            ||| crate::text::alike(key, "AWS_ACCESS_KEY_ID"@)
            ||| crate::text::alike(key, "AWS_SECRET_ACCESS_KEY"@)
            ||| crate::text::alike(key, "AWS_SESSION_TOKEN"@)
            ||| crate::text::alike(key, "AZURE_CLIENT_SECRET"@)
            ||| crate::text::alike(key, "GOOGLE_APPLICATION_CREDENTIALS"@)
        },
{
    reveal_strlit("_API_KEY");
    reveal_strlit("_ACCESS_TOKEN");
    reveal_strlit("_AUTH_TOKEN");
    reveal_strlit("AWS_ACCESS_KEY_ID");
    reveal_strlit("AWS_SECRET_ACCESS_KEY");
    reveal_strlit("AWS_SESSION_TOKEN");
    reveal_strlit("AZURE_CLIENT_SECRET");
    reveal_strlit("GOOGLE_APPLICATION_CREDENTIALS");
    lemma_ends_like(key, "_API_KEY"@);
    lemma_ends_like(key, "_ACCESS_TOKEN"@);
    lemma_ends_like(key, "_AUTH_TOKEN"@);
    crate::text::law_upper_case_is_shared_by_texts_alike(key, "AWS_ACCESS_KEY_ID"@);
    crate::text::law_upper_case_is_shared_by_texts_alike(key, "AWS_SECRET_ACCESS_KEY"@);
    crate::text::law_upper_case_is_shared_by_texts_alike(key, "AWS_SESSION_TOKEN"@);
    crate::text::law_upper_case_is_shared_by_texts_alike(key, "AZURE_CLIENT_SECRET"@);
    crate::text::law_upper_case_is_shared_by_texts_alike(key, "GOOGLE_APPLICATION_CREDENTIALS"@);
}

proof fn lemma_ends_like(key: Seq<char>, ending: Seq<char>)
    requires
        forall|i: int| 0 <= i < ending.len() ==> !('a' <= #[trigger] ending[i] <= 'z'),
    ensures
        ending.is_suffix_of(crate::text::upper(key)) <==> ends_like(key, ending),
{
    if key.len() >= ending.len() {
        let from = key.len() - ending.len();
        let tail = key.skip(from);
        let name = crate::text::upper(key);
        crate::text::law_upper_case_is_shared_by_texts_alike(tail, ending);
        assert(name.subrange(from, name.len() as int) =~= crate::text::upper(tail));
    }
}

/// Whatever stands before it, a name that ends with `_API_KEY`, `_ACCESS_TOKEN`
/// or `_AUTH_TOKEN`, in any case of its ASCII letters, is withheld from a child
/// that is not configured with it.
pub proof fn law_credentials_are_withheld_by_their_ending(
    inherited: Map<Seq<char>, Seq<char>>,
    explicit: Map<Seq<char>, Seq<char>>,
    start: Seq<char>,
    ending: Seq<char>,
)
    requires
        ({
            ||| crate::text::alike(ending, "_API_KEY"@)
            ||| crate::text::alike(ending, "_ACCESS_TOKEN"@)
            ||| crate::text::alike(ending, "_AUTH_TOKEN"@)
        }),
    ensures
        sensitive_key(start + ending),
        child_env(inherited, explicit).contains_key(start + ending) <==> explicit.contains_key(
            start + ending,
        ),
{
    let key = start + ending;
    law_credentials_are_known_by_name(key);
    assert(key.skip(start.len() as int) =~= ending);
}

/// A child holds the configured variables, and of the inherited ones exactly
/// those whose names have none of the endings of a credential and are none of
/// the names of one, in any case of the ASCII letters. Each has the value that
/// was configured, or else the inherited one.
pub proof fn law_child_holds_all_but_the_credentials(
    inherited: Map<Seq<char>, Seq<char>>,
    explicit: Map<Seq<char>, Seq<char>>,
    key: Seq<char>,
)
    ensures
        child_env(inherited, explicit).contains_key(key) <==> {
            ||| explicit.contains_key(key)
            ||| {
                &&& inherited.contains_key(key)
                &&& !ends_like(key, "_API_KEY"@)
                &&& !ends_like(key, "_ACCESS_TOKEN"@)
                &&& !ends_like(key, "_AUTH_TOKEN"@)
                &&& !crate::text::alike(key, "AWS_ACCESS_KEY_ID"@)
                &&& !crate::text::alike(key, "AWS_SECRET_ACCESS_KEY"@)
                &&& !crate::text::alike(key, "AWS_SESSION_TOKEN"@)
                &&& !crate::text::alike(key, "AZURE_CLIENT_SECRET"@)
                &&& !crate::text::alike(key, "GOOGLE_APPLICATION_CREDENTIALS"@)
            }
        },
        explicit.contains_key(key) ==> child_env(inherited, explicit)[key] == explicit[key],
        child_env(inherited, explicit).contains_key(key) && !explicit.contains_key(key)
            ==> child_env(inherited, explicit)[key] == inherited[key],
{
    law_credentials_are_known_by_name(key);
}

} // verus!
