use crate::error::Error;
use crate::identity::Identity;
use crate::strutil::{
    ascii_lower, find, find_spec, free_of, lemma_find_spec, lemma_lower_seq_is_lowercase, lower_seq,
};
use vstd::prelude::*;
use vstd::string::StrSliceExecFns;

verus! {

/// A user-configured template that maps one shape of raw reference onto a
/// canonical identity. Patterns are tried in configuration order; the first
/// one that matches wins.
pub enum Pattern {
    /// A full URL `scheme://host/owner/repo`.
    Url,
    /// A positional shorthand `owner/repo`; the pattern supplies the host.
    OwnerRepo { host: String },
    /// A bare `repo` shorthand; the pattern supplies the host and the
    /// configured default owner supplies the owner.
    Bare { host: String },
}

/// What a successful match extracts: host (already lowercased), owner and
/// repo, in that order.
pub open spec fn url_match(raw: Seq<char>) -> Option<(Seq<char>, Seq<char>, Seq<char>)> {
    match find_spec(raw, ':') {
        None => None,
        Some(i) => {
            if i > 0 && i + 3 <= raw.len() && raw[i + 1] == '/' && raw[i + 2] == '/' {
                let rest = raw.subrange(i + 3, raw.len() as int);
                match find_spec(rest, '/') {
                    None => None,
                    Some(j) => {
                        if j > 0 {
                            let host = rest.subrange(0, j);
                            let tail = rest.subrange(j + 1, rest.len() as int);
                            match find_spec(tail, '/') {
                                None => None,
                                Some(k) => {
                                    let owner = tail.subrange(0, k);
                                    let repo = tail.subrange(k + 1, tail.len() as int);
                                    if k > 0 && repo.len() > 0 && free_of(repo, '/') {
                                        Some((lower_seq(host), owner, repo))
                                    } else {
                                        None
                                    }
                                },
                            }
                        } else {
                            None
                        }
                    },
                }
            } else {
                None
            }
        },
    }
}

/// An `owner/repo` shorthand: exactly one separator, both parts non-empty;
/// the pattern's host must be non-empty.
pub open spec fn owner_repo_match(host: Seq<char>, raw: Seq<char>) -> Option<
    (Seq<char>, Seq<char>, Seq<char>),
> {
    match find_spec(raw, '/') {
        None => None,
        Some(i) => {
            let owner = raw.subrange(0, i);
            let repo = raw.subrange(i + 1, raw.len() as int);
            if host.len() > 0 && i > 0 && repo.len() > 0 && free_of(repo, '/') {
                Some((lower_seq(host), owner, repo))
            } else {
                None
            }
        },
    }
}

/// A bare `repo` shorthand: no separator at all; the owner comes from the
/// configured default owner, so without one the pattern cannot complete.
pub open spec fn bare_match(
    host: Seq<char>,
    raw: Seq<char>,
    default_owner: Option<Seq<char>>,
) -> Option<(Seq<char>, Seq<char>, Seq<char>)> {
    if host.len() > 0 && raw.len() > 0 && free_of(raw, '/') {
        match default_owner {
            Some(o) => if o.len() > 0 {
                Some((lower_seq(host), o, raw))
            } else {
                None
            },
            None => None,
        }
    } else {
        None
    }
}

/// What one pattern extracts from a raw reference, if it matches.
pub open spec fn pattern_match(
    p: Pattern,
    raw: Seq<char>,
    default_owner: Option<Seq<char>>,
) -> Option<(Seq<char>, Seq<char>, Seq<char>)> {
    match p {
        Pattern::Url => url_match(raw),
        Pattern::OwnerRepo { host } => owner_repo_match(host@, raw),
        Pattern::Bare { host } => bare_match(host@, raw, default_owner),
    }
}

/// What the whole ordered pattern list extracts: the first match wins.
pub open spec fn spec_resolve(
    raw: Seq<char>,
    patterns: Seq<Pattern>,
    default_owner: Option<Seq<char>>,
) -> Option<(Seq<char>, Seq<char>, Seq<char>)>
    decreases patterns.len(),
{
    if patterns.len() == 0 {
        None
    } else {
        match pattern_match(patterns[0], raw, default_owner) {
            Some(t) => Some(t),
            None => spec_resolve(raw, patterns.drop_first(), default_owner),
        }
    }
}

/// The view of an optional borrowed string.
pub open spec fn opt_view(o: Option<&str>) -> Option<Seq<char>> {
    match o {
        Some(s) => Some(s@),
        None => None,
    }
}

/// If no pattern before position `i` matches, resolution over the whole list
/// equals resolution over the tail that starts at `i`.
proof fn lemma_resolve_skip(
    raw: Seq<char>,
    patterns: Seq<Pattern>,
    default_owner: Option<Seq<char>>,
    i: int,
)
    requires
        0 <= i <= patterns.len(),
        forall|j: int| 0 <= j < i ==> #[trigger] pattern_match(patterns[j], raw, default_owner)
            is None,
    ensures
        spec_resolve(raw, patterns, default_owner) == spec_resolve(
            raw,
            patterns.subrange(i, patterns.len() as int),
            default_owner,
        ),
    decreases i,
{
    if i == 0 {
        assert(patterns.subrange(0, patterns.len() as int) =~= patterns);
    }
    if i > 0 {
        lemma_resolve_skip(raw, patterns, default_owner, i - 1);
        let tail = patterns.subrange(i - 1, patterns.len() as int);
        assert(tail[0] == patterns[i - 1]);
        assert(pattern_match(tail[0], raw, default_owner) is None) by {
            assert(pattern_match(patterns[i - 1], raw, default_owner) is None);
        }
        assert(spec_resolve(raw, tail, default_owner) == spec_resolve(
            raw,
            tail.drop_first(),
            default_owner,
        ));
        assert(tail.drop_first() =~= patterns.subrange(i, patterns.len() as int));
    }
}

/// Tries the URL shape against a raw reference.
fn try_url(raw: &str) -> (r: Option<Identity>)
    ensures
        r is Some <==> url_match(raw@) is Some,
        r is Some ==> {
            let t = url_match(raw@)->Some_0;
            r->Some_0.host@ == t.0 && r->Some_0.owner@ == t.1 && r->Some_0.repo@ == t.2
        },
        r is Some ==> r->Some_0.wf(),
{
    let n = raw.unicode_len();
    let i = match find(raw, ':') {
        None => {
            return None;
        },
        Some(i) => i,
    };
    proof {
        lemma_find_spec(raw@, ':');
    }
    if !(i > 0 && n - i > 2 && raw.get_char(i + 1) == '/' && raw.get_char(i + 2) == '/') {
        return None;
    }
    let rest = raw.substring_char(i + 3, n);
    let rest_len = rest.unicode_len();
    let j = match find(rest, '/') {
        None => {
            return None;
        },
        Some(j) => j,
    };
    proof {
        lemma_find_spec(rest@, '/');
    }
    if j == 0 {
        return None;
    }
    let host = rest.substring_char(0, j);
    let tail = rest.substring_char(j + 1, rest_len);
    let tail_len = tail.unicode_len();
    let k = match find(tail, '/') {
        None => {
            return None;
        },
        Some(k) => k,
    };
    proof {
        lemma_find_spec(tail@, '/');
    }
    if k == 0 {
        return None;
    }
    let owner = tail.substring_char(0, k);
    let repo = tail.substring_char(k + 1, tail_len);
    if repo.unicode_len() == 0 {
        return None;
    }
    match find(repo, '/') {
        Some(_) => {
            proof {
                lemma_find_spec(repo@, '/');
            }
            None
        },
        None => {
            proof {
                lemma_find_spec(repo@, '/');
                lemma_lower_seq_is_lowercase(host@);
            }
            Some(
                Identity {
                    host: ascii_lower(host),
                    owner: owner.to_owned(),
                    repo: repo.to_owned(),
                },
            )
        },
    }
}

/// Tries the `owner/repo` shape against a raw reference.
fn try_owner_repo(host: &String, raw: &str) -> (r: Option<Identity>)
    ensures
        r is Some <==> owner_repo_match(host@, raw@) is Some,
        r is Some ==> {
            let t = owner_repo_match(host@, raw@)->Some_0;
            r->Some_0.host@ == t.0 && r->Some_0.owner@ == t.1 && r->Some_0.repo@ == t.2
        },
        r is Some ==> r->Some_0.wf(),
{
    let n = raw.unicode_len();
    let i = match find(raw, '/') {
        None => {
            return None;
        },
        Some(i) => i,
    };
    proof {
        lemma_find_spec(raw@, '/');
    }
    if host.as_str().unicode_len() == 0 || i == 0 {
        return None;
    }
    let owner = raw.substring_char(0, i);
    let repo = raw.substring_char(i + 1, n);
    if repo.unicode_len() == 0 {
        return None;
    }
    match find(repo, '/') {
        Some(_) => {
            proof {
                lemma_find_spec(repo@, '/');
            }
            None
        },
        None => {
            proof {
                lemma_find_spec(repo@, '/');
                lemma_lower_seq_is_lowercase(host@);
            }
            Some(
                Identity {
                    host: ascii_lower(host.as_str()),
                    owner: owner.to_owned(),
                    repo: repo.to_owned(),
                },
            )
        },
    }
}

/// Tries the bare `repo` shape against a raw reference.
fn try_bare(host: &String, raw: &str, default_owner: Option<&str>) -> (r: Option<Identity>)
    ensures
        r is Some <==> bare_match(host@, raw@, opt_view(default_owner)) is Some,
        r is Some ==> {
            let t = bare_match(host@, raw@, opt_view(default_owner))->Some_0;
            r->Some_0.host@ == t.0 && r->Some_0.owner@ == t.1 && r->Some_0.repo@ == t.2
        },
        r is Some ==> r->Some_0.wf(),
{
    if host.as_str().unicode_len() == 0 || raw.unicode_len() == 0 {
        return None;
    }
    match find(raw, '/') {
        Some(_) => {
            proof {
                lemma_find_spec(raw@, '/');
            }
            None
        },
        None => {
            proof {
                lemma_find_spec(raw@, '/');
            }
            match default_owner {
                None => None,
                Some(o) => {
                    if o.unicode_len() == 0 {
                        None
                    } else {
                        proof {
                            lemma_lower_seq_is_lowercase(host@);
                        }
                        Some(
                            Identity {
                                host: ascii_lower(host.as_str()),
                                owner: o.to_owned(),
                                repo: raw.to_owned(),
                            },
                        )
                    }
                },
            }
        },
    }
}

/// Parses a raw reference into a canonical identity: the configured
/// patterns are tried in order and the first match wins; a bare `repo`
/// shorthand is completed with the default owner. Fails with
/// `UnresolvedReference` exactly when no pattern matches.
pub fn resolve(raw: &str, patterns: &Vec<Pattern>, default_owner: Option<&str>) -> (r: Result<
    Identity,
    Error,
>)
    ensures
        r is Ok <==> spec_resolve(raw@, patterns@, opt_view(default_owner)) is Some,
        r is Ok ==> {
            let t = spec_resolve(raw@, patterns@, opt_view(default_owner))->Some_0;
            r->Ok_0.host@ == t.0 && r->Ok_0.owner@ == t.1 && r->Ok_0.repo@ == t.2
        },
        r is Ok ==> r->Ok_0.wf(),
        r is Err ==> r->Err_0 is UnresolvedReference,
{
    let ghost dov = opt_view(default_owner);
    let n = patterns.len();
    let mut i: usize = 0;
    while i < n
        invariant
            n == patterns@.len(),
            i <= n,
            dov == opt_view(default_owner),
            forall|j: int| 0 <= j < i ==> #[trigger] pattern_match(patterns@[j], raw@, dov)
                is None,
        decreases n - i,
    {
        let attempt = match &patterns[i] {
            Pattern::Url => try_url(raw),
            Pattern::OwnerRepo { host } => try_owner_repo(host, raw),
            Pattern::Bare { host } => try_bare(host, raw, default_owner),
        };
        match attempt {
            Some(id) => {
                proof {
                    lemma_resolve_skip(raw@, patterns@, dov, i as int);
                    let tail = patterns@.subrange(i as int, patterns@.len() as int);
                    assert(tail[0] == patterns@[i as int]);
                    assert(pattern_match(tail[0], raw@, dov) is Some);
                }
                return Ok(id);
            },
            None => {
                i = i + 1;
            },
        }
    }
    proof {
        lemma_resolve_skip(raw@, patterns@, dov, n as int);
        assert(patterns@.subrange(n as int, patterns@.len() as int) =~= Seq::<Pattern>::empty());
    }
    Err(Error::UnresolvedReference)
}

/// Law: resolution is deterministic. The result is a function of the raw
/// reference, the ordered pattern list, and the default owner alone: two
/// resolutions over the same inputs always agree.
pub proof fn lemma_resolve_deterministic(
    raw: Seq<char>,
    patterns: Seq<Pattern>,
    default_owner: Option<Seq<char>>,
    r1: Option<(Seq<char>, Seq<char>, Seq<char>)>,
    r2: Option<(Seq<char>, Seq<char>, Seq<char>)>,
)
    requires
        r1 == spec_resolve(raw, patterns, default_owner),
        r2 == spec_resolve(raw, patterns, default_owner),
    ensures
        r1 == r2,
{
}

} // verus!
