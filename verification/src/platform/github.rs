use crate::error::Error;
use crate::identity::Identity;
use crate::weburl::{parse_url, url_parse_accepts};
use vstd::prelude::*;
use vstd::string::StringExecFns;

verus! {

/// The hosted GitHub domain; any other host is treated as a
/// GitHub-compatible installation.
pub fn default_host() -> (r: String)
    ensures
        r@ == "github.com"@,
{
    "github.com".to_owned()
}

/// Configuration of one GitHub-compatible platform: the host it answers
/// under.
pub struct Config {
    pub host: String,
}

impl Default for Config {
    /// The default configuration points at the hosted GitHub domain.
    fn default() -> (r: Self)
        ensures
            r.host@ == "github.com"@,
    {
        Config { host: default_host() }
    }
}

/// The browsable location of a repository on a GitHub-compatible host:
/// `https://host/owner/repo`.
pub open spec fn browse_url_view(host: Seq<char>, owner: Seq<char>, repo: Seq<char>) -> Seq<char> {
    "https://"@ + host + seq!['/'] + owner + seq!['/'] + repo
}

/// The API base a GitHub-compatible host answers under: the hosted domain
/// uses the well-known endpoint (no explicit base); any other host serves
/// the API under `https://host/api/v3`.
pub open spec fn api_base_view(host: Seq<char>) -> Option<Seq<char>> {
    if host == "github.com"@ {
        None
    } else {
        Some("https://"@ + host + "/api/v3"@)
    }
}

/// A constructed GitHub platform: its configuration plus the credential the
/// fork capability needs.
pub struct GitHub {
    pub config: Config,
    pub token: String,
}

impl GitHub {
    /// Second phase of platform construction: the credential was looked up
    /// outside; a missing credential fails fast here, before any capability
    /// is exercised.
    pub fn init(config: &Config, token: Option<String>) -> (r: Result<GitHub, Error>)
        ensures
            r is Ok <==> token is Some,
            r is Ok ==> r->Ok_0.config.host@ == config.host@ && r->Ok_0.token@
                == token->Some_0@,
            r is Err ==> r->Err_0 is PlatformInitError,
    {
        match token {
            Some(t) => Ok(GitHub { config: Config { host: config.host.clone() }, token: t }),
            None => Err(Error::PlatformInitError),
        }
    }

    /// The API base URI for this platform, if one must be set explicitly.
    pub fn api_base_uri(&self) -> (r: Option<String>)
        ensures
            match api_base_view(self.config.host@) {
                Some(u) => r is Some && r->Some_0@ == u,
                None => r is None,
            },
    {
        if self.config.host == default_host() {
            None
        } else {
            let u = String::from_str("https://").concat(self.config.host.as_str()).concat(
                "/api/v3",
            );
            proof {
                assert(u@ =~= "https://"@ + self.config.host@ + "/api/v3"@);
            }
            Some(u)
        }
    }

    /// The browsable URL string for a repository on this platform: a pure
    /// translation, no network call.
    pub fn browsable_url_string(&self, id: &Identity) -> (r: String)
        ensures
            r@ == browse_url_view(self.config.host@, id.owner@, id.repo@),
    {
        browse_url_string_for(&self.config.host, id)
    }

    /// The browsable URL of a repository, parsed. Rejection can only stem
    /// from malformed identity fields, so it surfaces as an invalid
    /// identity segment.
    pub fn get_browsable_url(&self, id: &Identity) -> (r: Result<url::Url, Error>)
        ensures
            r is Ok <==> url_parse_accepts(
                browse_url_view(self.config.host@, id.owner@, id.repo@),
            ),
            r is Err ==> r->Err_0 is InvalidIdentitySegment,
    {
        let s = self.browsable_url_string(id);
        match parse_url(s.as_str()) {
            Some(u) => Ok(u),
            None => Err(Error::InvalidIdentitySegment),
        }
    }

    /// What the fork endpoint's answer yields: the remote must name the new
    /// repository's HTML URL; its absence is a platform API error. Takes
    /// the remote's answer as a plain value, so it holds whatever the
    /// transport did.
    pub fn fork_response_url(html_url: Option<String>) -> (r: Result<String, Error>)
        ensures
            r is Ok <==> html_url is Some,
            r is Ok ==> r->Ok_0@ == html_url->Some_0@,
            r is Err ==> r->Err_0 is PlatformApiError,
    {
        match html_url {
            Some(u) => Ok(u),
            None => Err(
                Error::PlatformApiError(
                    String::from_str("the platform did not name an HTML URL for the repository"),
                ),
            ),
        }
    }
}

/// Builds `https://host/owner/repo` for any host.
pub fn browse_url_string_for(host: &String, id: &Identity) -> (r: String)
    ensures
        r@ == browse_url_view(host@, id.owner@, id.repo@),
{
    let u = String::from_str("https://").concat(host.as_str()).concat("/").concat(
        id.owner.as_str(),
    ).concat("/").concat(id.repo.as_str());
    proof {
        reveal_strlit("/");
        assert(u@ =~= browse_url_view(host@, id.owner@, id.repo@));
    }
    u
}

} // verus!
