use crate::config::{default_owner_view, Config};
use crate::error::Error;
use crate::platform::{browse_url_with_fallback, spec_find};
use crate::platform::github::browse_url_view;
use crate::reference::{opt_view, resolve, spec_resolve};
use vstd::prelude::*;

verus! {

/// The browse command: one reference, to be opened in the browser.
pub struct Cmd {
    /// URL or pattern of the repository to be browsed.
    pub repo: String,
}

impl Cmd {
    /// The compute part of browsing: resolves the reference and translates
    /// it into a browsable URL. A host without a configured platform is
    /// non-fatal here: the generic construction is the fallback. Fails
    /// exactly when the reference does not resolve.
    pub fn browse_url(&self, config: &Config) -> (r: Result<String, Error>)
        ensures
            r is Ok <==> spec_resolve(
                self.repo@,
                config.patterns@,
                default_owner_view(&config.defaults),
            ) is Some,
            r is Ok ==> {
                let t = spec_resolve(
                    self.repo@,
                    config.patterns@,
                    default_owner_view(&config.defaults),
                )->Some_0;
                r->Ok_0@ == match spec_find(config.platforms.descriptors@, t.0) {
                    Some(i) => browse_url_view(
                        config.platforms.descriptors@[i].host@,
                        t.1,
                        t.2,
                    ),
                    None => browse_url_view(t.0, t.1, t.2),
                }
            },
            r is Err ==> r->Err_0 is UnresolvedReference,
    {
        let default_owner = match &config.defaults.owner {
            Some(o) => Some(o.as_str()),
            None => None,
        };
        proof {
            assert(opt_view(default_owner) == default_owner_view(&config.defaults));
        }
        let id = match resolve(self.repo.as_str(), &config.patterns, default_owner) {
            Ok(id) => id,
            Err(e) => {
                return Err(e);
            },
        };
        Ok(browse_url_with_fallback(&config.platforms, &id))
    }
}

} // verus!
