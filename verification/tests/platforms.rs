use ghr::error::Error;
use ghr::identity::Identity;
use ghr::platform::github::{Config, GitHub};
use ghr::platform::{
    browse_url_with_fallback, into_platform, plan_fork, Descriptor, Kind, Platform, Registry,
};

fn id(host: &str, owner: &str, repo: &str) -> Identity {
    Identity {
        host: String::from(host),
        owner: String::from(owner),
        repo: String::from(repo),
    }
}

fn registry() -> Registry {
    Registry {
        descriptors: vec![
            Descriptor { host: String::from("github.com"), kind: Kind::GitHubCompatible },
            Descriptor { host: String::from("mirror.example.com"), kind: Kind::Generic },
        ],
    }
}

#[test]
fn browse_uses_the_configured_platform() {
    let url = browse_url_with_fallback(&registry(), &id("github.com", "foo", "bar"));
    assert_eq!(url, "https://github.com/foo/bar");
}

#[test]
fn browse_falls_back_without_a_platform() {
    // No descriptor answers for this host: non-fatal for Browse.
    let url = browse_url_with_fallback(&registry(), &id("git.example.com", "foo", "bar"));
    assert_eq!(url, "https://git.example.com/foo/bar");
}

#[test]
fn fork_without_a_platform_is_fatal() {
    let r = plan_fork(&registry(), &id("git.example.com", "foo", "bar"), None);
    assert!(matches!(r, Err(Error::NoMatchingPlatform)));
}

#[test]
fn fork_on_a_generic_platform_is_not_supported() {
    let r = plan_fork(&registry(), &id("mirror.example.com", "foo", "bar"), None);
    assert!(matches!(r, Err(Error::CapabilityNotSupported)));
}

#[test]
fn fork_on_github_yields_a_plan() {
    let p = plan_fork(
        &registry(),
        &id("github.com", "foo", "bar"),
        Some(String::from("my-org")),
    )
    .unwrap();
    assert_eq!(p.host, "github.com");
    assert_eq!(p.owner, "foo");
    assert_eq!(p.repo, "bar");
    assert_eq!(p.into_owner, Some(String::from("my-org")));
}

#[test]
fn platform_construction_fails_fast_without_a_credential() {
    let d = Descriptor { host: String::from("github.com"), kind: Kind::GitHubCompatible };
    let r = into_platform(&d, None);
    assert!(matches!(r, Err(Error::PlatformInitError)));
}

#[test]
fn platform_construction_succeeds_with_a_credential() {
    let d = Descriptor { host: String::from("github.com"), kind: Kind::GitHubCompatible };
    let p = into_platform(&d, Some(String::from("SECRET-REDACTED"))).unwrap();
    match p {
        Platform::GitHubHost(g) => {
            assert_eq!(g.config.host, "github.com");
        }
        _ => panic!("expected a GitHub platform"),
    }
}

#[test]
fn generic_platform_needs_no_credential() {
    let d = Descriptor { host: String::from("mirror.example.com"), kind: Kind::Generic };
    let p = into_platform(&d, None).unwrap();
    let url = p.browse_url(&id("mirror.example.com", "a", "b"));
    assert_eq!(url, "https://mirror.example.com/a/b");
}

#[test]
fn api_base_is_implicit_for_hosted_github() {
    let g = GitHub::init(&Config::default(), Some(String::from("t"))).unwrap();
    assert_eq!(g.api_base_uri(), None);
}

#[test]
fn api_base_is_explicit_for_compatible_hosts() {
    let g = GitHub::init(
        &Config { host: String::from("ghe.corp.example.com") },
        Some(String::from("t")),
    )
    .unwrap();
    assert_eq!(g.api_base_uri(), Some(String::from("https://ghe.corp.example.com/api/v3")));
}

#[test]
fn browsable_url_is_parsed_by_the_url_library() {
    let g = GitHub::init(&Config::default(), Some(String::from("t"))).unwrap();
    let u = g.get_browsable_url(&id("github.com", "siketyan", "ghr")).unwrap();
    assert_eq!(u.as_str(), "https://github.com/siketyan/ghr");
    assert_eq!(u.host_str(), Some("github.com"));
}

#[test]
fn unparsable_identity_is_rejected_at_browse() {
    // A space in the host makes the built URL unparsable.
    let g = GitHub::init(&Config { host: String::from("bad host") }, Some(String::from("t")))
        .unwrap();
    let r = g.get_browsable_url(&id("bad host", "a", "b"));
    assert!(matches!(r, Err(Error::InvalidIdentitySegment)));
}

#[test]
fn fork_response_requires_the_html_url() {
    let ok = GitHub::fork_response_url(Some(String::from("https://github.com/me/ghr"))).unwrap();
    assert_eq!(ok, "https://github.com/me/ghr");
    let r = GitHub::fork_response_url(None);
    assert!(matches!(r, Err(Error::PlatformApiError(_))));
}
