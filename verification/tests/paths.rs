use ghr::error::Error;
use ghr::identity::Identity;
use ghr::path::{resolve, Root};

fn id(host: &str, owner: &str, repo: &str) -> Identity {
    Identity {
        host: String::from(host),
        owner: String::from(owner),
        repo: String::from(repo),
    }
}

fn root() -> Root {
    Root { path: String::from("/home/me/ghr") }
}

#[test]
fn joins_root_host_owner_repo() {
    let p = resolve(&root(), &id("github.com", "siketyan", "ghr")).unwrap();
    assert_eq!(p, "/home/me/ghr/github.com/siketyan/ghr");
}

#[test]
fn distinct_identities_get_distinct_paths() {
    let a = resolve(&root(), &id("github.com", "foo", "bar")).unwrap();
    let b = resolve(&root(), &id("github.com", "foo", "baz")).unwrap();
    let c = resolve(&root(), &id("gitlab.com", "foo", "bar")).unwrap();
    assert_ne!(a, b);
    assert_ne!(a, c);
    assert_ne!(b, c);
}

#[test]
fn rejects_traversal_segments() {
    let r = resolve(&root(), &id("github.com", "..", "bar"));
    assert!(matches!(r, Err(Error::InvalidIdentitySegment)));
    let r = resolve(&root(), &id("github.com", "foo", "."));
    assert!(matches!(r, Err(Error::InvalidIdentitySegment)));
}

#[test]
fn rejects_separators_inside_segments() {
    let r = resolve(&root(), &id("github.com", "a/b", "bar"));
    assert!(matches!(r, Err(Error::InvalidIdentitySegment)));
    let r = resolve(&root(), &id("github.com", "foo", "a\\b"));
    assert!(matches!(r, Err(Error::InvalidIdentitySegment)));
}

#[test]
fn rejects_empty_segments() {
    let r = resolve(&root(), &id("", "foo", "bar"));
    assert!(matches!(r, Err(Error::InvalidIdentitySegment)));
}
