use crate::identity::Identity;
use vstd::prelude::*;

verus! {

/// A matcher over a canonical identity: every field it gives must equal the
/// identity's field; an absent field matches anything.
pub struct Matcher {
    pub host: Option<String>,
    pub owner: Option<String>,
    pub repo: Option<String>,
}

/// One configured rule: a matcher and the profile name it selects.
pub struct Rule {
    pub matcher: Matcher,
    pub profile: String,
}

/// Whether a matcher accepts an identity.
pub open spec fn matcher_accepts(m: Matcher, id: Identity) -> bool {
    &&& match m.host {
        Some(h) => h@ == id.host@,
        None => true,
    }
    &&& match m.owner {
        Some(o) => o@ == id.owner@,
        None => true,
    }
    &&& match m.repo {
        Some(r) => r@ == id.repo@,
        None => true,
    }
}

/// The profile selected by an ordered rule list: the first rule whose
/// matcher accepts the identity wins; no match selects nothing.
pub open spec fn spec_select(id: Identity, rules: Seq<Rule>) -> Option<Seq<char>>
    decreases rules.len(),
{
    if rules.len() == 0 {
        None
    } else if matcher_accepts(rules[0].matcher, id) {
        Some(rules[0].profile@)
    } else {
        spec_select(id, rules.drop_first())
    }
}

/// If no rule before position `i` accepts the identity, selection over the
/// whole list equals selection over the tail that starts at `i`.
proof fn lemma_select_skip(id: Identity, rules: Seq<Rule>, i: int)
    requires
        0 <= i <= rules.len(),
        forall|j: int| 0 <= j < i ==> !matcher_accepts(#[trigger] rules[j].matcher, id),
    ensures
        spec_select(id, rules) == spec_select(id, rules.subrange(i, rules.len() as int)),
    decreases i,
{
    if i == 0 {
        assert(rules.subrange(0, rules.len() as int) =~= rules);
    } else {
        lemma_select_skip(id, rules, i - 1);
        let tail = rules.subrange(i - 1, rules.len() as int);
        assert(tail[0] == rules[i - 1]);
        assert(!matcher_accepts(tail[0].matcher, id));
        assert(tail.drop_first() =~= rules.subrange(i, rules.len() as int));
    }
}

/// Whether a matcher accepts an identity.
pub fn accepts(m: &Matcher, id: &Identity) -> (r: bool)
    ensures
        r == matcher_accepts(*m, *id),
{
    let host_ok = match &m.host {
        Some(h) => *h == id.host,
        None => true,
    };
    let owner_ok = match &m.owner {
        Some(o) => *o == id.owner,
        None => true,
    };
    let repo_ok = match &m.repo {
        Some(rr) => *rr == id.repo,
        None => true,
    };
    host_ok && owner_ok && repo_ok
}

/// Scans the rules in declared order and returns the profile name of the
/// first rule whose matcher accepts the identity. Total and side-effect
/// free: no match is a valid outcome, not an error.
pub fn select(id: &Identity, rules: &Vec<Rule>) -> (r: Option<String>)
    ensures
        r is Some <==> spec_select(*id, rules@) is Some,
        r is Some ==> r->Some_0@ == spec_select(*id, rules@)->Some_0,
{
    let n = rules.len();
    let mut i: usize = 0;
    while i < n
        invariant
            n == rules@.len(),
            i <= n,
            forall|j: int| 0 <= j < i ==> !matcher_accepts(#[trigger] rules@[j].matcher, *id),
        decreases n - i,
    {
        if accepts(&rules[i].matcher, id) {
            proof {
                lemma_select_skip(*id, rules@, i as int);
                let tail = rules@.subrange(i as int, rules@.len() as int);
                assert(tail[0] == rules@[i as int]);
            }
            return Some(rules[i].profile.clone());
        }
        i = i + 1;
    }
    proof {
        lemma_select_skip(*id, rules@, n as int);
    }
    None
}

} // verus!
