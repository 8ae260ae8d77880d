use crate::error::Error;
use crate::strutil::{find, find_spec};
use vstd::prelude::*;
use vstd::string::StrSliceExecFns;

verus! {

/// A named batch of configuration writes, applied in declared order right
/// after a repository is materialized.
pub struct Profile {
    pub name: String,
    pub settings: Vec<(String, String)>,
}

/// A configuration key the store accepts: non-empty, with a section and a
/// name separated by a dot, as in `user.name`.
pub open spec fn valid_key(k: Seq<char>) -> bool {
    k.len() > 0 && find_spec(k, '.') is Some
}

/// The position of the first setting whose key the store rejects, if any.
pub open spec fn first_invalid(s: Seq<(String, String)>) -> Option<int>
    decreases s.len(),
{
    if s.len() == 0 {
        None
    } else if !valid_key(s[0].0@) {
        Some(0)
    } else {
        match first_invalid(s.drop_first()) {
            Some(i) => Some(i + 1),
            None => None,
        }
    }
}

/// `first_invalid` points at the first rejected key; `None` means every key
/// is accepted.
pub proof fn lemma_first_invalid(s: Seq<(String, String)>)
    ensures
        match first_invalid(s) {
            Some(i) => 0 <= i < s.len() && !valid_key(s[i].0@) && (forall|j: int|
                0 <= j < i ==> valid_key(#[trigger] s[j].0@)),
            None => forall|j: int| 0 <= j < s.len() ==> valid_key(#[trigger] s[j].0@),
        },
    decreases s.len(),
{
    if s.len() > 0 && valid_key(s[0].0@) {
        lemma_first_invalid(s.drop_first());
        match first_invalid(s.drop_first()) {
            Some(i) => {
                assert(s.drop_first()[i] == s[i + 1]);
                assert forall|j: int| 0 <= j < i + 1 implies valid_key(#[trigger] s[j].0@) by {
                    if j > 0 {
                        assert(s.drop_first()[j - 1] == s[j]);
                    }
                }
            },
            None => {
                assert forall|j: int| 0 <= j < s.len() implies valid_key(#[trigger] s[j].0@) by {
                    if j > 0 {
                        assert(s.drop_first()[j - 1] == s[j]);
                    }
                }
            },
        }
    }
}

/// The mapping that a prefix of writes leaves behind, last write per key
/// winning.
pub open spec fn apply_map(m: Map<Seq<char>, Seq<char>>, s: Seq<(String, String)>) -> Map<
    Seq<char>,
    Seq<char>,
>
    decreases s.len(),
{
    if s.len() == 0 {
        m
    } else {
        apply_map(m, s.drop_last()).insert(s.last().0@, s.last().1@)
    }
}

/// Whether some write in the batch touches the key.
pub open spec fn has_key(s: Seq<(String, String)>, k: Seq<char>) -> bool {
    exists|i: int| 0 <= i < s.len() && #[trigger] s[i].0@ == k
}

/// The value of the last write that touches the key.
pub open spec fn last_val(s: Seq<(String, String)>, k: Seq<char>) -> Seq<char>
    decreases s.len(),
{
    if s.len() == 0 {
        Seq::empty()
    } else if s.last().0@ == k {
        s.last().1@
    } else {
        last_val(s.drop_last(), k)
    }
}

/// What a batch of writes leaves behind: keys it touches carry their last
/// written value; every other key keeps the base mapping's value.
pub proof fn lemma_apply_map_characterized(m: Map<Seq<char>, Seq<char>>, s: Seq<(String, String)>)
    ensures
        forall|k: Seq<char>| #[trigger] apply_map(m, s).contains_key(k) <==> (m.contains_key(k)
            || has_key(s, k)),
        forall|k: Seq<char>| has_key(s, k) ==> #[trigger] apply_map(m, s)[k] == last_val(s, k),
        forall|k: Seq<char>| !has_key(s, k) && m.contains_key(k) ==> #[trigger] apply_map(m, s)[k]
            == m[k],
    decreases s.len(),
{
    if s.len() > 0 {
        lemma_apply_map_characterized(m, s.drop_last());
        let d = s.drop_last();
        let a = apply_map(m, d);
        let lk = s.last().0@;
        let lv = s.last().1@;
        assert(apply_map(m, s) == a.insert(lk, lv));
        assert(s[s.len() - 1].0@ == lk);
        assert forall|k: Seq<char>| has_key(s, k) implies #[trigger] apply_map(m, s)[k] == last_val(
            s,
            k,
        ) by {
            if k == lk {
                assert(a.insert(lk, lv)[k] == lv);
                assert(last_val(s, k) == lv);
            } else {
                let i = choose|i: int| 0 <= i < s.len() && #[trigger] s[i].0@ == k;
                assert(i < s.len() - 1);
                assert(d[i] == s[i]);
                assert(has_key(d, k));
                assert(a.insert(lk, lv)[k] == a[k]);
                assert(a[k] == last_val(d, k));
                assert(last_val(s, k) == last_val(d, k));
            }
        }
        assert forall|k: Seq<char>| #[trigger] apply_map(m, s).contains_key(k) implies (
        m.contains_key(k) || has_key(s, k)) by {
            if k != lk {
                assert(a.contains_key(k));
                if has_key(d, k) {
                    let i = choose|i: int| 0 <= i < d.len() && #[trigger] d[i].0@ == k;
                    assert(s[i] == d[i]);
                    assert(has_key(s, k));
                }
            } else {
                assert(has_key(s, k));
            }
        }
        assert forall|k: Seq<char>| m.contains_key(k) || has_key(s, k) implies #[trigger] apply_map(
            m,
            s,
        ).contains_key(k) by {
            if k != lk {
                if has_key(s, k) {
                    let i = choose|i: int| 0 <= i < s.len() && #[trigger] s[i].0@ == k;
                    assert(i < s.len() - 1);
                    assert(d[i] == s[i]);
                    assert(has_key(d, k));
                }
                assert(a.contains_key(k));
                assert(a.insert(lk, lv).contains_key(k));
            }
        }
        assert forall|k: Seq<char>| !has_key(s, k) && m.contains_key(k) implies #[trigger] apply_map(
            m,
            s,
        )[k] == m[k] by {
            assert(k != lk);
            assert(!has_key(d, k)) by {
                if has_key(d, k) {
                    let i = choose|i: int| 0 <= i < d.len() && #[trigger] d[i].0@ == k;
                    assert(s[i] == d[i]);
                }
            }
            assert(a.insert(lk, lv)[k] == a[k]);
            assert(a[k] == m[k]);
        }
    }
}

/// Law: profile application is idempotent. Applying the same batch of
/// writes twice leaves exactly the mapping that applying it once leaves.
pub proof fn lemma_profile_apply_idempotent(
    m: Map<Seq<char>, Seq<char>>,
    s: Seq<(String, String)>,
)
    ensures
        apply_map(apply_map(m, s), s) == apply_map(m, s),
{
    let once = apply_map(m, s);
    let twice = apply_map(once, s);
    lemma_apply_map_characterized(m, s);
    lemma_apply_map_characterized(once, s);
    assert forall|k: Seq<char>| twice.contains_key(k) implies once.contains_key(k) && #[trigger] twice[k]
        == once[k] by {
        if has_key(s, k) {
            assert(twice[k] == last_val(s, k));
            assert(once[k] == last_val(s, k));
        } else {
            assert(once.contains_key(k));
            assert(twice[k] == once[k]);
        }
    }
    assert(twice =~= once);
}

/// An in-memory model of a repository's local configuration: a journal of
/// writes whose view is the last-write-wins mapping it leaves behind.
pub struct ConfigStore {
    entries: Vec<(String, String)>,
}

impl View for ConfigStore {
    type V = Map<Seq<char>, Seq<char>>;

    closed spec fn view(&self) -> Map<Seq<char>, Seq<char>> {
        apply_map(Map::empty(), self.entries@)
    }
}

impl ConfigStore {
    /// An empty configuration.
    pub fn new() -> (r: Self)
        ensures
            r@ == Map::<Seq<char>, Seq<char>>::empty(),
    {
        ConfigStore { entries: Vec::new() }
    }

    /// Writes one key: the mapping afterwards carries the new value under
    /// the key and is otherwise unchanged.
    pub fn set(&mut self, key: &String, value: &String)
        ensures
            final(self)@ == old(self)@.insert(key@, value@),
    {
        let ghost before = self.entries@;
        self.entries.push((key.clone(), value.clone()));
        proof {
            assert(self.entries@.drop_last() =~= before);
        }
    }

    /// Reads one key from the mapping the writes so far leave behind.
    pub fn get(&self, key: &String) -> (r: Option<&String>)
        ensures
            r is Some <==> self@.contains_key(key@),
            r is Some ==> r->Some_0@ == self@[key@],
    {
        let n = self.entries.len();
        let mut i: usize = n;
        while i > 0
            invariant
                n == self.entries@.len(),
                i <= n,
                forall|j: int| i <= j < n ==> #[trigger] self.entries@[j].0@ != key@,
            decreases i,
        {
            i = i - 1;
            if self.entries[i].0 == *key {
                proof {
                    lemma_apply_map_characterized(Map::empty(), self.entries@);
                    lemma_last_val_at(self.entries@, key@, i as int);
                }
                return Some(&self.entries[i].1);
            }
        }
        proof {
            lemma_apply_map_characterized(Map::empty(), self.entries@);
            if has_key(self.entries@, key@) {
                let j = choose|j: int|
                    0 <= j < self.entries@.len() && #[trigger] self.entries@[j].0@ == key@;
                assert(false);
            }
        }
        None
    }
}

/// Reading a journal backwards: if position `i` holds the key and nothing
/// after it does, the last written value for the key is the value at `i`.
pub proof fn lemma_last_val_at(s: Seq<(String, String)>, k: Seq<char>, i: int)
    requires
        0 <= i < s.len(),
        s[i].0@ == k,
        forall|j: int| i < j < s.len() ==> #[trigger] s[j].0@ != k,
    ensures
        has_key(s, k),
        last_val(s, k) == s[i].1@,
    decreases s.len(),
{
    if i == s.len() - 1 {
    } else {
        assert(s.drop_last()[i] == s[i]);
        assert forall|j: int| i < j < s.drop_last().len() implies #[trigger] s.drop_last()[j].0@
            != k by {
            assert(s.drop_last()[j] == s[j]);
        }
        lemma_last_val_at(s.drop_last(), k, i);
    }
}

/// Applies a profile: each key/value pair is written in declared order.
/// Stops at the first key the store rejects, surfacing that key and keeping
/// the writes made up to it.
pub fn apply(profile: &Profile, store: &mut ConfigStore) -> (r: Result<(), Error>)
    ensures
        r is Ok <==> first_invalid(profile.settings@) is None,
        r is Ok ==> final(store)@ == apply_map(old(store)@, profile.settings@),
        r is Err ==> {
            let i = first_invalid(profile.settings@)->Some_0;
            &&& final(store)@ == apply_map(old(store)@, profile.settings@.subrange(0, i))
            &&& r->Err_0 matches Error::ProfileApplyError(k) && k@ == profile.settings@[i].0@
        },
{
    proof {
        lemma_first_invalid(profile.settings@);
    }
    let n = profile.settings.len();
    let mut i: usize = 0;
    while i < n
        invariant
            n == profile.settings@.len(),
            i <= n,
            forall|j: int| 0 <= j < i ==> valid_key(#[trigger] profile.settings@[j].0@),
            store@ == apply_map(old(store)@, profile.settings@.subrange(0, i as int)),
            match first_invalid(profile.settings@) {
                Some(fi) => 0 <= fi < n && !valid_key(profile.settings@[fi].0@) && (forall|j: int|
                    0 <= j < fi ==> valid_key(#[trigger] profile.settings@[j].0@)),
                None => forall|j: int|
                    0 <= j < n ==> valid_key(#[trigger] profile.settings@[j].0@),
            },
        decreases n - i,
    {
        let key = &profile.settings[i].0;
        let key_ok = key.as_str().unicode_len() > 0 && match find(key.as_str(), '.') {
            Some(_) => true,
            None => false,
        };
        if !key_ok {
            proof {
                assert(!valid_key(profile.settings@[i as int].0@));
                assert(first_invalid(profile.settings@) == Some(i as int));
            }
            return Err(Error::ProfileApplyError(key.clone()));
        }
        let value = &profile.settings[i].1;
        store.set(key, value);
        proof {
            let pre = profile.settings@.subrange(0, i as int);
            let post = profile.settings@.subrange(0, i as int + 1);
            assert(post.drop_last() =~= pre);
            assert(post.last() == profile.settings@[i as int]);
        }
        i = i + 1;
    }
    proof {
        assert(profile.settings@.subrange(0, n as int) =~= profile.settings@);
    }
    Ok(())
}

} // verus!
