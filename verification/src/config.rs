use crate::platform::Registry;
use crate::profile::Profile;
use crate::reference::Pattern;
use crate::rules::Rule;
use vstd::prelude::*;

verus! {

/// Fallbacks the configuration supplies: the owner a bare reference is
/// completed with, and the application a cloned repository is opened in
/// when none is named on the invocation.
pub struct Defaults {
    pub owner: Option<String>,
    pub open: Option<String>,
}

/// Everything one invocation reads: loaded once, immutable for the run,
/// shared read-only by every task.
pub struct Config {
    pub patterns: Vec<Pattern>,
    pub defaults: Defaults,
    pub rules: Vec<Rule>,
    pub profiles: Vec<Profile>,
    pub platforms: Registry,
}

/// The view of the configured default owner.
pub open spec fn default_owner_view(d: &Defaults) -> Option<Seq<char>> {
    match d.owner {
        Some(o) => Some(o@),
        None => None,
    }
}

/// The position of the first profile carrying the name, if any.
pub open spec fn spec_profile_index(profiles: Seq<Profile>, name: Seq<char>) -> Option<int>
    decreases profiles.len(),
{
    if profiles.len() == 0 {
        None
    } else if profiles[0].name@ == name {
        Some(0)
    } else {
        match spec_profile_index(profiles.drop_first(), name) {
            Some(i) => Some(i + 1),
            None => None,
        }
    }
}

/// `spec_profile_index` points at the first profile with the name; `None`
/// means no profile carries it.
pub proof fn lemma_spec_profile_index(profiles: Seq<Profile>, name: Seq<char>)
    ensures
        match spec_profile_index(profiles, name) {
            Some(i) => 0 <= i < profiles.len() && profiles[i].name@ == name && (forall|j: int|
                0 <= j < i ==> #[trigger] profiles[j].name@ != name),
            None => forall|j: int|
                0 <= j < profiles.len() ==> #[trigger] profiles[j].name@ != name,
        },
    decreases profiles.len(),
{
    if profiles.len() > 0 && profiles[0].name@ != name {
        lemma_spec_profile_index(profiles.drop_first(), name);
        match spec_profile_index(profiles.drop_first(), name) {
            Some(i) => {
                assert(profiles.drop_first()[i] == profiles[i + 1]);
                assert forall|j: int| 0 <= j < i + 1 implies #[trigger] profiles[j].name@
                    != name by {
                    if j > 0 {
                        assert(profiles.drop_first()[j - 1] == profiles[j]);
                    }
                }
            },
            None => {
                assert forall|j: int| 0 <= j < profiles.len() implies #[trigger] profiles[j].name@
                    != name by {
                    if j > 0 {
                        assert(profiles.drop_first()[j - 1] == profiles[j]);
                    }
                }
            },
        }
    }
}

impl Config {
    /// Resolves a profile name to the first profile declared under it.
    pub fn profile_named(&self, name: &String) -> (r: Option<&Profile>)
        ensures
            r is Some <==> spec_profile_index(self.profiles@, name@) is Some,
            r is Some ==> *r->Some_0 == self.profiles@[spec_profile_index(
                self.profiles@,
                name@,
            )->Some_0],
    {
        proof {
            lemma_spec_profile_index(self.profiles@, name@);
        }
        let n = self.profiles.len();
        let mut i: usize = 0;
        while i < n
            invariant
                n == self.profiles@.len(),
                i <= n,
                forall|j: int| 0 <= j < i ==> #[trigger] self.profiles@[j].name@ != name@,
                match spec_profile_index(self.profiles@, name@) {
                    Some(k) => 0 <= k < n && self.profiles@[k].name@ == name@ && (forall|j: int|
                        0 <= j < k ==> #[trigger] self.profiles@[j].name@ != name@),
                    None => forall|j: int|
                        0 <= j < n ==> #[trigger] self.profiles@[j].name@ != name@,
                },
            decreases n - i,
        {
            if self.profiles[i].name == *name {
                return Some(&self.profiles[i]);
            }
            i = i + 1;
        }
        None
    }
}

} // verus!
