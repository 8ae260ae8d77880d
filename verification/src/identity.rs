use crate::strutil::is_ascii_lowercase_seq;
use vstd::prelude::*;

verus! {

/// The canonical coordinates of a remote repository: the host that serves
/// it, the account that owns it, and the repository's own name.
///
/// Built once by the reference resolver, consumed by every other component,
/// never mutated.
pub struct Identity {
    pub host: String,
    pub owner: String,
    pub repo: String,
}

impl Identity {
    /// Well-formed: all three fields are non-empty, and the host carries no
    /// ASCII uppercase letter (it is a normalized domain name).
    pub open spec fn wf(&self) -> bool {
        &&& self.host@.len() > 0
        &&& self.owner@.len() > 0
        &&& self.repo@.len() > 0
        &&& is_ascii_lowercase_seq(self.host@)
    }
}

} // verus!
