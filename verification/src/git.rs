use crate::identity::Identity;
use vstd::prelude::*;
use vstd::string::StringExecFns;

verus! {

/// How a repository is materialized: whether nested submodules are fetched
/// in the same call. A failed sub-fetch fails the whole clone; there is no
/// partial success.
pub struct CloneOptions {
    pub recursive: bool,
}

/// The remote locator a clone uses: `https://host/owner/repo.git`.
pub open spec fn clone_url_view(host: Seq<char>, owner: Seq<char>, repo: Seq<char>) -> Seq<char> {
    "https://"@ + host + seq!['/'] + owner + seq!['/'] + repo + ".git"@
}

/// Builds the remote locator for an identity.
pub fn clone_url(id: &Identity) -> (r: String)
    ensures
        r@ == clone_url_view(id.host@, id.owner@, id.repo@),
{
    let u = String::from_str("https://").concat(id.host.as_str()).concat("/").concat(
        id.owner.as_str(),
    ).concat("/").concat(id.repo.as_str()).concat(".git");
    proof {
        reveal_strlit("/");
        assert(u@ =~= clone_url_view(id.host@, id.owner@, id.repo@));
    }
    u
}

} // verus!
