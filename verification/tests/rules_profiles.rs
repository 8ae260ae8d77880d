use ghr::error::Error;
use ghr::identity::Identity;
use ghr::profile::{apply, ConfigStore, Profile};
use ghr::rules::{select, Matcher, Rule};

fn id(host: &str, owner: &str, repo: &str) -> Identity {
    Identity {
        host: String::from(host),
        owner: String::from(owner),
        repo: String::from(repo),
    }
}

fn rule(host: Option<&str>, owner: Option<&str>, profile: &str) -> Rule {
    Rule {
        matcher: Matcher {
            host: host.map(String::from),
            owner: owner.map(String::from),
            repo: None,
        },
        profile: String::from(profile),
    }
}

#[test]
fn first_matching_rule_wins() {
    let rules = vec![
        rule(Some("git.example.com"), None, "work"),
        rule(None, Some("me"), "personal"),
    ];
    let picked = select(&id("git.example.com", "me", "x"), &rules);
    assert_eq!(picked, Some(String::from("work")));
}

#[test]
fn later_rule_matches_when_earlier_does_not() {
    let rules = vec![
        rule(Some("git.example.com"), None, "work"),
        rule(None, Some("me"), "personal"),
    ];
    let picked = select(&id("github.com", "me", "x"), &rules);
    assert_eq!(picked, Some(String::from("personal")));
}

#[test]
fn no_match_selects_nothing() {
    let rules = vec![rule(Some("git.example.com"), None, "work")];
    let picked = select(&id("github.com", "you", "x"), &rules);
    assert_eq!(picked, None);
}

#[test]
fn all_given_fields_must_match() {
    let rules = vec![rule(Some("github.com"), Some("me"), "both")];
    assert_eq!(select(&id("github.com", "me", "x"), &rules), Some(String::from("both")));
    assert_eq!(select(&id("github.com", "you", "x"), &rules), None);
}

fn profile(settings: &[(&str, &str)]) -> Profile {
    Profile {
        name: String::from("p"),
        settings: settings
            .iter()
            .map(|(k, v)| (String::from(*k), String::from(*v)))
            .collect(),
    }
}

#[test]
fn apply_writes_every_key_in_order() {
    let p = profile(&[("user.name", "alice"), ("user.email", "alice@example.com")]);
    let mut store = ConfigStore::new();
    apply(&p, &mut store).unwrap();
    assert_eq!(store.get(&String::from("user.name")), Some(&String::from("alice")));
    assert_eq!(
        store.get(&String::from("user.email")),
        Some(&String::from("alice@example.com"))
    );
    assert_eq!(store.get(&String::from("user.signingkey")), None);
}

#[test]
fn apply_is_idempotent() {
    let p = profile(&[("user.name", "alice"), ("user.name", "bob"), ("core.autocrlf", "input")]);
    let mut once = ConfigStore::new();
    apply(&p, &mut once).unwrap();
    let mut twice = ConfigStore::new();
    apply(&p, &mut twice).unwrap();
    apply(&p, &mut twice).unwrap();
    for key in ["user.name", "core.autocrlf"] {
        assert_eq!(once.get(&String::from(key)), twice.get(&String::from(key)));
    }
    // Last write per key wins.
    assert_eq!(once.get(&String::from("user.name")), Some(&String::from("bob")));
}

#[test]
fn invalid_key_is_surfaced_and_partial_application_kept() {
    let p = profile(&[("user.name", "alice"), ("nodot", "x"), ("user.email", "a@b")]);
    let mut store = ConfigStore::new();
    let r = apply(&p, &mut store);
    match r {
        Err(Error::ProfileApplyError(k)) => assert_eq!(k, "nodot"),
        _ => panic!("expected the rejected key to be surfaced"),
    }
    // The write before the rejected key is kept; the one after never ran.
    assert_eq!(store.get(&String::from("user.name")), Some(&String::from("alice")));
    assert_eq!(store.get(&String::from("user.email")), None);
}
