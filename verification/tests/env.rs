use mcp_client::env::{is_sensitive_inherited_env_key, mcp_child_env};
use mcp_client::string_map::StringMap;

fn map(pairs: &[(&str, &str)]) -> StringMap {
    let mut owned = Vec::new();
    for (key, value) in pairs {
        owned.push((key.to_string(), value.to_string()));
    }
    StringMap::from_pairs(owned)
}

#[test]
fn inherited_mcp_env_scrubs_provider_credentials() {
    for key in [
        "ANTHROPIC_API_KEY",
        "openai_api_key",
        "CURSOR_ACCESS_TOKEN",
        "AWS_SECRET_ACCESS_KEY",
        "AWS_SESSION_TOKEN",
        "GOOGLE_APPLICATION_CREDENTIALS",
    ] {
        assert!(is_sensitive_inherited_env_key(key), "must scrub {key}");
    }
    for key in ["PATH", "HOME", "RUST_LOG", "JCODE_OPENROUTER_API_KEY_NAME"] {
        assert!(!is_sensitive_inherited_env_key(key), "must preserve {key}");
    }
}

#[test]
fn explicit_mcp_env_can_opt_a_credential_back_in() {
    let inherited = map(&[("PATH", "/bin"), ("ANTHROPIC_API_KEY", "daemon-secret")]);
    let explicit = map(&[("ANTHROPIC_API_KEY", "server-specific-secret")]);

    let env = mcp_child_env(inherited, &explicit);
    assert_eq!(env.get("PATH"), Some("/bin"));
    assert_eq!(env.get("ANTHROPIC_API_KEY"), Some("server-specific-secret"));
}

#[test]
fn every_listed_credential_name_is_scrubbed() {
    for key in [
        "AWS_ACCESS_KEY_ID",
        "aws_access_key_id",
        "AZURE_CLIENT_SECRET",
        "GITHUB_AUTH_TOKEN",
        "x_Auth_Token",
        "_API_KEY",
    ] {
        assert!(is_sensitive_inherited_env_key(key), "must scrub {key}");
    }
    for key in ["", "API_KEY", "AWS_ACCESS_KEY_ID_2", "MY_AZURE_CLIENT_SECRET", "_api_\u{212a}ey"] {
        assert!(!is_sensitive_inherited_env_key(key), "must preserve {key}");
    }
}

#[test]
fn inherited_credential_does_not_reach_the_child() {
    let inherited = map(&[("HOME", "/root"), ("openai_api_key", "secret"), ("LANG", "C")]);
    let env = mcp_child_env(inherited, &StringMap::new());
    assert_eq!(env.len(), 2);
    assert_eq!(env.get("openai_api_key"), None);
    assert_eq!(env.get("HOME"), Some("/root"));
    assert_eq!(env.get("LANG"), Some("C"));
}

#[test]
fn configured_variable_replaces_an_inherited_one() {
    let inherited = map(&[("PATH", "/bin"), ("LANG", "C")]);
    let explicit = map(&[("PATH", "/opt/bin"), ("EXTRA", "1")]);
    let once = mcp_child_env(inherited, &explicit);
    assert_eq!(once.get("PATH"), Some("/opt/bin"));
    assert_eq!(once.get("LANG"), Some("C"));
    assert_eq!(once.get("EXTRA"), Some("1"));
    assert_eq!(once.len(), 3);
    let pairs = once.pairs();
    let twice = mcp_child_env(once, &explicit);
    assert_eq!(twice.pairs(), pairs);
}

#[test]
fn map_keeps_one_entry_per_key() {
    let mut m = map(&[("a", "1"), ("b", "2"), ("a", "3")]);
    assert_eq!(m.len(), 2);
    assert_eq!(m.get("a"), Some("3"));
    m.insert("b".to_string(), "4".to_string());
    m.insert("c".to_string(), "5".to_string());
    let copy = m.clone();
    assert_eq!(
        copy.pairs(),
        vec![
            ("a".to_string(), "3".to_string()),
            ("b".to_string(), "4".to_string()),
            ("c".to_string(), "5".to_string()),
        ]
    );
    assert_eq!(m.key_at(1), "b");
    assert_eq!(m.value_at(1), "4");
    assert_eq!(m.get("d"), None);
}
