use ghr::error::Error;
use ghr::reference::{resolve, Pattern};

fn patterns() -> Vec<Pattern> {
    vec![
        Pattern::Url,
        Pattern::OwnerRepo { host: String::from("github.com") },
        Pattern::Bare { host: String::from("github.com") },
    ]
}

#[test]
fn resolves_full_url() {
    let id = resolve("https://github.com/siketyan/ghr", &patterns(), None).unwrap();
    assert_eq!(id.host, "github.com");
    assert_eq!(id.owner, "siketyan");
    assert_eq!(id.repo, "ghr");
}

#[test]
fn resolves_url_host_lowercased() {
    let id = resolve("https://GitHub.com/Owner/Repo", &patterns(), None).unwrap();
    assert_eq!(id.host, "github.com");
    assert_eq!(id.owner, "Owner");
    assert_eq!(id.repo, "Repo");
}

#[test]
fn resolves_owner_repo_shorthand() {
    let id = resolve("foo/bar", &patterns(), None).unwrap();
    assert_eq!(id.host, "github.com");
    assert_eq!(id.owner, "foo");
    assert_eq!(id.repo, "bar");
}

#[test]
fn bare_reference_uses_default_owner() {
    let id = resolve("repo-name", &patterns(), Some("alice")).unwrap();
    assert_eq!(id.host, "github.com");
    assert_eq!(id.owner, "alice");
    assert_eq!(id.repo, "repo-name");
}

#[test]
fn bare_reference_without_default_owner_fails() {
    let r = resolve("repo-name", &patterns(), None);
    match r {
        Err(Error::UnresolvedReference) => {}
        _ => panic!("expected an unresolved reference"),
    }
}

#[test]
fn resolution_is_deterministic() {
    let a = resolve("https://github.com/foo/bar", &patterns(), Some("alice")).unwrap();
    let b = resolve("https://github.com/foo/bar", &patterns(), Some("alice")).unwrap();
    assert_eq!(a.host, b.host);
    assert_eq!(a.owner, b.owner);
    assert_eq!(a.repo, b.repo);
}

#[test]
fn first_matching_pattern_wins() {
    // A full URL fits only the URL pattern, which is tried first; the host
    // comes from the input, not from the later patterns' configured host.
    let id = resolve("https://example.org/a/b", &patterns(), None).unwrap();
    assert_eq!(id.host, "example.org");
    assert_eq!(id.owner, "a");
    assert_eq!(id.repo, "b");
}

#[test]
fn deep_paths_do_not_match() {
    let r = resolve("https://github.com/a/b/c", &patterns(), None);
    assert!(matches!(r, Err(Error::UnresolvedReference)));
}

#[test]
fn empty_reference_fails() {
    let r = resolve("", &patterns(), Some("alice"));
    assert!(matches!(r, Err(Error::UnresolvedReference)));
}

#[test]
fn no_patterns_means_no_resolution() {
    let r = resolve("foo/bar", &Vec::new(), Some("alice"));
    assert!(matches!(r, Err(Error::UnresolvedReference)));
}
