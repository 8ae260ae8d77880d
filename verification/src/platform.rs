pub mod github;

use crate::error::Error;
use crate::identity::Identity;
use crate::platform::github::{browse_url_string_for, browse_url_view, Config, GitHub};
use vstd::prelude::*;

verus! {

/// Which family of platform a descriptor stands for, and with it which
/// capabilities exist: GitHub-compatible hosts offer Browse and Fork; a
/// generic host offers Browse only.
pub enum Kind {
    GitHubCompatible,
    Generic,
}

/// Configuration of one platform: the host it answers for and its family.
/// Looking a descriptor up is pure and total; constructing the platform is
/// the separate, fallible phase.
pub struct Descriptor {
    pub host: String,
    pub kind: Kind,
}

/// The configured platforms, in declared order.
pub struct Registry {
    pub descriptors: Vec<Descriptor>,
}

/// The position of the first descriptor that answers for the host, if any.
pub open spec fn spec_find(descriptors: Seq<Descriptor>, host: Seq<char>) -> Option<int>
    decreases descriptors.len(),
{
    if descriptors.len() == 0 {
        None
    } else if descriptors[0].host@ == host {
        Some(0)
    } else {
        match spec_find(descriptors.drop_first(), host) {
            Some(i) => Some(i + 1),
            None => None,
        }
    }
}

/// `spec_find` points at the first descriptor for the host; `None` means no
/// descriptor answers for it.
pub proof fn lemma_spec_find(descriptors: Seq<Descriptor>, host: Seq<char>)
    ensures
        match spec_find(descriptors, host) {
            Some(i) => 0 <= i < descriptors.len() && descriptors[i].host@ == host && (forall|
                j: int,
            |
                0 <= j < i ==> #[trigger] descriptors[j].host@ != host),
            None => forall|j: int|
                0 <= j < descriptors.len() ==> #[trigger] descriptors[j].host@ != host,
        },
    decreases descriptors.len(),
{
    if descriptors.len() > 0 && descriptors[0].host@ != host {
        lemma_spec_find(descriptors.drop_first(), host);
        match spec_find(descriptors.drop_first(), host) {
            Some(i) => {
                assert(descriptors.drop_first()[i] == descriptors[i + 1]);
                assert forall|j: int| 0 <= j < i + 1 implies #[trigger] descriptors[j].host@
                    != host by {
                    if j > 0 {
                        assert(descriptors.drop_first()[j - 1] == descriptors[j]);
                    }
                }
            },
            None => {
                assert forall|j: int| 0 <= j < descriptors.len() implies #[trigger] descriptors[j].host@
                    != host by {
                    if j > 0 {
                        assert(descriptors.drop_first()[j - 1] == descriptors[j]);
                    }
                }
            },
        }
    }
}

impl Registry {
    /// Pure descriptor lookup by the identity's host. `None` is a normal
    /// outcome, fatal only for capabilities that have no fallback.
    pub fn find(&self, id: &Identity) -> (r: Option<&Descriptor>)
        ensures
            r is Some <==> spec_find(self.descriptors@, id.host@) is Some,
            r is Some ==> *r->Some_0 == self.descriptors@[spec_find(
                self.descriptors@,
                id.host@,
            )->Some_0],
    {
        proof {
            lemma_spec_find(self.descriptors@, id.host@);
        }
        let n = self.descriptors.len();
        let mut i: usize = 0;
        while i < n
            invariant
                n == self.descriptors@.len(),
                i <= n,
                forall|j: int| 0 <= j < i ==> #[trigger] self.descriptors@[j].host@ != id.host@,
                match spec_find(self.descriptors@, id.host@) {
                    Some(k) => 0 <= k < n && self.descriptors@[k].host@ == id.host@ && (forall|
                        j: int,
                    |
                        0 <= j < k ==> #[trigger] self.descriptors@[j].host@ != id.host@),
                    None => forall|j: int|
                        0 <= j < n ==> #[trigger] self.descriptors@[j].host@ != id.host@,
                },
            decreases n - i,
        {
            if self.descriptors[i].host == id.host {
                return Some(&self.descriptors[i]);
            }
            i = i + 1;
        }
        None
    }
}

/// A constructed platform instance, selected by the identity's host.
pub enum Platform {
    GitHubHost(GitHub),
    GenericHost { host: String },
}

/// Second phase of platform resolution: constructing the instance. A
/// GitHub-compatible platform needs the credential; a generic one needs
/// nothing. Fails fast with a construction error rather than deferring to
/// the first capability call.
pub fn into_platform(d: &Descriptor, token: Option<String>) -> (r: Result<Platform, Error>)
    ensures
        d.kind is GitHubCompatible && token is Some ==> r is Ok && (r->Ok_0 matches
            Platform::GitHubHost(g) && g.config.host@ == d.host@ && g.token@ == token->Some_0@),
        d.kind is GitHubCompatible && token is None ==> r is Err && r->Err_0
            is PlatformInitError,
        d.kind is Generic ==> r is Ok && (r->Ok_0 matches Platform::GenericHost { host } && host@
            == d.host@),
{
    match d.kind {
        Kind::GitHubCompatible => {
            match GitHub::init(&Config { host: d.host.clone() }, token) {
                Ok(g) => Ok(Platform::GitHubHost(g)),
                Err(e) => Err(e),
            }
        },
        Kind::Generic => Ok(Platform::GenericHost { host: d.host.clone() }),
    }
}

impl Platform {
    /// The Browse capability, which every platform family offers: the
    /// browsable URL string for a repository.
    pub fn browse_url(&self, id: &Identity) -> (r: String)
        ensures
            self matches Platform::GitHubHost(g) ==> r@ == browse_url_view(
                g.config.host@,
                id.owner@,
                id.repo@,
            ),
            self matches Platform::GenericHost { host } ==> r@ == browse_url_view(
                host@,
                id.owner@,
                id.repo@,
            ),
    {
        match self {
            Platform::GitHubHost(g) => g.browsable_url_string(id),
            Platform::GenericHost { host } => browse_url_string_for(host, id),
        }
    }
}

/// What a fork has to do, decided ahead of the network call: the repository
/// to fork and the account to fork into, if one was named.
pub struct ForkPlan {
    pub host: String,
    pub owner: String,
    pub repo: String,
    pub into_owner: Option<String>,
}

/// The Fork capability has no fallback: no descriptor for the host is
/// fatal, and a generic platform does not offer it.
pub fn plan_fork(registry: &Registry, id: &Identity, into_owner: Option<String>) -> (r: Result<
    ForkPlan,
    Error,
>)
    ensures
        spec_find(registry.descriptors@, id.host@) is None ==> r is Err && r->Err_0
            is NoMatchingPlatform,
        spec_find(registry.descriptors@, id.host@) matches Some(i)
            && registry.descriptors@[i].kind is Generic ==> r is Err && r->Err_0
            is CapabilityNotSupported,
        spec_find(registry.descriptors@, id.host@) matches Some(i)
            && registry.descriptors@[i].kind is GitHubCompatible ==> r is Ok && {
            let p = r->Ok_0;
            &&& p.host@ == id.host@
            &&& p.owner@ == id.owner@
            &&& p.repo@ == id.repo@
            &&& p.into_owner == into_owner
        },
{
    match registry.find(id) {
        None => Err(Error::NoMatchingPlatform),
        Some(d) => {
            match d.kind {
                Kind::Generic => Err(Error::CapabilityNotSupported),
                Kind::GitHubCompatible => Ok(
                    ForkPlan {
                        host: id.host.clone(),
                        owner: id.owner.clone(),
                        repo: id.repo.clone(),
                        into_owner,
                    },
                ),
            }
        },
    }
}

/// Browsing with a fallback: the configured platform's translation when one
/// answers for the host, else the generic construction over the identity's
/// own host. Total — a missing platform is non-fatal for Browse.
pub fn browse_url_with_fallback(registry: &Registry, id: &Identity) -> (r: String)
    ensures
        r@ == match spec_find(registry.descriptors@, id.host@) {
            Some(i) => browse_url_view(
                registry.descriptors@[i].host@,
                id.owner@,
                id.repo@,
            ),
            None => browse_url_view(id.host@, id.owner@, id.repo@),
        },
{
    match registry.find(id) {
        Some(d) => browse_url_string_for(&d.host, id),
        None => browse_url_string_for(&id.host, id),
    }
}

} // verus!
