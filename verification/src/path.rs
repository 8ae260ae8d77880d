use crate::error::Error;
use crate::identity::Identity;
use vstd::prelude::*;
use vstd::string::StrSliceExecFns;
use vstd::string::StringExecFns;

verus! {

/// The workspace root under which every repository is materialized. It is
/// discovered once per invocation, outside the core.
pub struct Root {
    pub path: String,
}

/// A path segment that cannot climb out of the root: non-empty, holds no
/// path separator, and is neither `.` nor `..`.
pub open spec fn valid_segment(s: Seq<char>) -> bool {
    &&& s.len() > 0
    &&& (forall|i: int| 0 <= i < s.len() ==> #[trigger] s[i] != '/' && s[i] != '\\')
    &&& s != seq!['.']
    &&& s != seq!['.', '.']
}

/// The target path for the given coordinates: `root/host/owner/repo`.
pub open spec fn path_view_of(
    root: Seq<char>,
    host: Seq<char>,
    owner: Seq<char>,
    repo: Seq<char>,
) -> Seq<char> {
    root + seq!['/'] + host + seq!['/'] + owner + seq!['/'] + repo
}

/// The target path for an identity: `root/host/owner/repo`.
pub open spec fn path_view(root: Seq<char>, id: Identity) -> Seq<char> {
    path_view_of(root, id.host@, id.owner@, id.repo@)
}

/// Whether every identity field is a segment that stays under the root.
pub open spec fn traversal_free(id: Identity) -> bool {
    valid_segment(id.host@) && valid_segment(id.owner@) && valid_segment(id.repo@)
}

/// Checks that a string is a path segment that stays under the root.
pub fn is_valid_segment(s: &str) -> (r: bool)
    ensures
        r == valid_segment(s@),
{
    let n = s.unicode_len();
    if n == 0 {
        return false;
    }
    if n == 1 && s.get_char(0) == '.' {
        assert(s@ =~= seq!['.']);
        return false;
    }
    if n == 2 && s.get_char(0) == '.' && s.get_char(1) == '.' {
        assert(s@ =~= seq!['.', '.']);
        return false;
    }
    let mut i: usize = 0;
    while i < n
        invariant
            n == s@.len(),
            i <= n,
            forall|j: int| 0 <= j < i ==> #[trigger] s@[j] != '/' && s@[j] != '\\',
        decreases n - i,
    {
        let c = s.get_char(i);
        if c == '/' || c == '\\' {
            return false;
        }
        i = i + 1;
    }
    assert(s@ != seq!['.'] && s@ != seq!['.', '.']) by {
        if s@ == seq!['.'] {
            assert(s@[0] == '.');
        }
        if s@ == seq!['.', '.'] {
            assert(s@[0] == '.' && s@[1] == '.');
        }
    }
    true
}

/// Maps an identity into the workspace: `root/host/owner/repo`. Pure; the
/// path's existence is not checked here. Rejects exactly the identities
/// whose fields could escape the root.
pub fn resolve(root: &Root, id: &Identity) -> (r: Result<String, Error>)
    ensures
        r is Ok <==> traversal_free(*id),
        r is Ok ==> r->Ok_0@ == path_view(root.path@, *id),
        r is Err ==> r->Err_0 is InvalidIdentitySegment,
{
    if !(is_valid_segment(id.host.as_str()) && is_valid_segment(id.owner.as_str())
        && is_valid_segment(id.repo.as_str())) {
        return Err(Error::InvalidIdentitySegment);
    }
    let p = String::from_str(root.path.as_str());
    let p = p.concat("/");
    let p = p.concat(id.host.as_str());
    let p = p.concat("/");
    let p = p.concat(id.owner.as_str());
    let p = p.concat("/");
    let p = p.concat(id.repo.as_str());
    proof {
        reveal_strlit("/");
        assert(p@ =~= path_view(root.path@, *id));
    }
    Ok(p)
}

/// If the part right of the last separator is separator-free on both sides,
/// a concatenation `a + "/" + b` determines `a` and `b`.
proof fn lemma_sep_split_right(a1: Seq<char>, b1: Seq<char>, a2: Seq<char>, b2: Seq<char>)
    requires
        forall|i: int| 0 <= i < b1.len() ==> #[trigger] b1[i] != '/',
        forall|i: int| 0 <= i < b2.len() ==> #[trigger] b2[i] != '/',
        a1 + seq!['/'] + b1 == a2 + seq!['/'] + b2,
    ensures
        a1 == a2,
        b1 == b2,
{
    let s = a1 + seq!['/'] + b1;
    let t = a2 + seq!['/'] + b2;
    assert(s.len() == t.len());
    if b1.len() < b2.len() {
        let p = s.len() - 1 - b1.len();
        assert(s[p] == '/');
        assert(t[p] == b2[p - a2.len() - 1]);
        assert(false);
    }
    if b2.len() < b1.len() {
        let p = s.len() - 1 - b2.len();
        assert(t[p] == '/');
        assert(s[p] == b1[p - a1.len() - 1]);
        assert(false);
    }
    assert(b1.len() == b2.len());
    assert(a1.len() == a2.len());
    assert forall|i: int| 0 <= i < a1.len() implies a1[i] == a2[i] by {
        assert(s[i] == a1[i]);
        assert(t[i] == a2[i]);
        assert(s[i] == t[i]);
    }
    assert(a1 =~= a2);
    assert forall|i: int| 0 <= i < b1.len() implies b1[i] == b2[i] by {
        assert(s[a1.len() + 1 + i] == b1[i]);
        assert(t[a2.len() + 1 + i] == b2[i]);
        assert(s[a1.len() + 1 + i] == t[a1.len() + 1 + i]);
    }
    assert(b1 =~= b2);
}

/// Law: for one root, the path resolver is injective on traversal-free
/// identities — identities that differ in any field resolve to different
/// paths.
pub proof fn lemma_path_resolver_injective(root: Seq<char>, id1: Identity, id2: Identity)
    requires
        traversal_free(id1),
        traversal_free(id2),
        !(id1.host@ == id2.host@ && id1.owner@ == id2.owner@ && id1.repo@ == id2.repo@),
    ensures
        path_view(root, id1) != path_view(root, id2),
{
    if path_view(root, id1) == path_view(root, id2) {
        let a1 = root + seq!['/'] + id1.host@ + seq!['/'] + id1.owner@;
        let a2 = root + seq!['/'] + id2.host@ + seq!['/'] + id2.owner@;
        assert(a1 + seq!['/'] + id1.repo@ =~= path_view(root, id1));
        assert(a2 + seq!['/'] + id2.repo@ =~= path_view(root, id2));
        lemma_sep_split_right(a1, id1.repo@, a2, id2.repo@);
        let c1 = root + seq!['/'] + id1.host@;
        let c2 = root + seq!['/'] + id2.host@;
        assert(c1 + seq!['/'] + id1.owner@ =~= a1);
        assert(c2 + seq!['/'] + id2.owner@ =~= a2);
        lemma_sep_split_right(c1, id1.owner@, c2, id2.owner@);
        assert(root + seq!['/'] + id1.host@ =~= c1);
        assert(root + seq!['/'] + id2.host@ =~= c2);
        lemma_sep_split_right(root, id1.host@, root, id2.host@);
        assert(false);
    }
}

} // verus!
