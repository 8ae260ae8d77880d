use ghr::cmd::browse;
use ghr::cmd::clone;
use ghr::config::{Config, Defaults};
use ghr::error::Error;
use ghr::git::clone_url;
use ghr::identity::Identity;
use ghr::path::Root;
use ghr::platform::{Descriptor, Kind, Registry};
use ghr::profile::Profile;
use ghr::reference::Pattern;
use ghr::rules::{Matcher, Rule};

fn config() -> Config {
    Config {
        patterns: vec![
            Pattern::Url,
            Pattern::OwnerRepo { host: String::from("github.com") },
            Pattern::Bare { host: String::from("github.com") },
        ],
        defaults: Defaults { owner: Some(String::from("alice")), open: None },
        rules: vec![Rule {
            matcher: Matcher { host: None, owner: Some(String::from("alice")), repo: None },
            profile: String::from("personal"),
        }],
        profiles: vec![Profile {
            name: String::from("personal"),
            settings: vec![(String::from("user.name"), String::from("alice"))],
        }],
        platforms: Registry {
            descriptors: vec![Descriptor {
                host: String::from("github.com"),
                kind: Kind::GitHubCompatible,
            }],
        },
    }
}

fn root() -> Root {
    Root { path: String::from("/ws") }
}

fn cmd(repos: &[&str]) -> clone::Cmd {
    clone::Cmd {
        repo: repos.iter().map(|s| String::from(*s)).collect(),
        recursive: false,
        cd: false,
        open: None,
    }
}

#[test]
fn plan_computes_target_remote_and_profile() {
    let outs = cmd(&["foo/bar"]).plan(&root(), &config()).unwrap();
    assert_eq!(outs.len(), 1);
    let t = outs[0].as_ref().unwrap();
    assert_eq!(t.raw, "foo/bar");
    assert_eq!(t.identity.host, "github.com");
    assert_eq!(t.target, "/ws/github.com/foo/bar");
    assert_eq!(t.remote, "https://github.com/foo/bar.git");
    assert_eq!(t.profile, None);
}

#[test]
fn plan_attaches_the_selected_profile() {
    let outs = cmd(&["my-tool"]).plan(&root(), &config()).unwrap();
    let t = outs[0].as_ref().unwrap();
    assert_eq!(t.identity.owner, "alice");
    assert_eq!(t.profile, Some(String::from("personal")));
}

#[test]
fn selected_profile_must_exist_in_the_registry() {
    let mut c = config();
    c.profiles = Vec::new();
    let outs = cmd(&["my-tool"]).plan(&root(), &c).unwrap();
    assert_eq!(outs[0].as_ref().unwrap().profile, None);
}

#[test]
fn duplicate_identities_are_rejected_upfront() {
    // Two spellings, one identity: the policy rejects the plan as a whole.
    let r = cmd(&["foo/bar", "https://github.com/foo/bar"]).plan(&root(), &config());
    match r {
        Err(Error::DuplicateTarget(p)) => assert_eq!(p, "/ws/github.com/foo/bar"),
        _ => panic!("expected the duplicate to be rejected"),
    }
}

#[test]
fn distinct_references_plan_to_distinct_targets() {
    let outs = cmd(&["foo/bar", "foo/baz", "other/bar"]).plan(&root(), &config()).unwrap();
    assert_eq!(outs.len(), 3);
    let t0 = outs[0].as_ref().unwrap();
    let t1 = outs[1].as_ref().unwrap();
    let t2 = outs[2].as_ref().unwrap();
    assert_ne!(t0.target, t1.target);
    assert_ne!(t0.target, t2.target);
    assert_ne!(t1.target, t2.target);
}

#[test]
fn one_unresolved_reference_fails_only_its_task() {
    let outs = cmd(&["foo/bar", "a/b/c/d"]).plan(&root(), &config()).unwrap();
    assert_eq!(outs.len(), 2);
    assert!(outs[0].is_ok());
    assert!(matches!(outs[1], Err(Error::UnresolvedReference)));
}

#[test]
fn a_traversal_identity_fails_only_its_task() {
    let outs = cmd(&["../escape", "foo/bar"]).plan(&root(), &config()).unwrap();
    assert!(matches!(outs[0], Err(Error::InvalidIdentitySegment)));
    assert!(outs[1].is_ok());
}

#[test]
fn browse_resolves_through_the_platform() {
    let b = browse::Cmd { repo: String::from("siketyan/ghr") };
    let url = b.browse_url(&config()).unwrap();
    assert_eq!(url, "https://github.com/siketyan/ghr");
}

#[test]
fn browse_falls_back_on_unknown_hosts() {
    let b = browse::Cmd { repo: String::from("https://git.example.com/a/b") };
    let url = b.browse_url(&config()).unwrap();
    assert_eq!(url, "https://git.example.com/a/b");
}

#[test]
fn browse_fails_on_unresolved_references() {
    let b = browse::Cmd { repo: String::from("") };
    assert!(matches!(b.browse_url(&config()), Err(Error::UnresolvedReference)));
}

#[test]
fn clone_url_appends_the_git_suffix() {
    let u = clone_url(&Identity {
        host: String::from("github.com"),
        owner: String::from("a"),
        repo: String::from("b"),
    });
    assert_eq!(u, "https://github.com/a/b.git");
}

#[test]
fn error_labels_are_stable() {
    assert_eq!(Error::UnresolvedReference.label(), "unresolved reference");
    assert_eq!(Error::NoMatchingPlatform.label(), "no matching platform");
    assert_eq!(Error::CloneError(String::from("x")).label(), "clone failed");
}
