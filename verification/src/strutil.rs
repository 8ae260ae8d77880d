use vstd::prelude::*;

verus! {

/// One character mapped to ASCII lowercase; every other character is kept.
pub open spec fn lower_char(c: char) -> char {
    if 'A' <= c && c <= 'Z' {
        (((c as u8) + 32) as char)
    } else {
        c
    }
}

/// A sequence of characters mapped to ASCII lowercase, position by position.
pub open spec fn lower_seq(s: Seq<char>) -> Seq<char> {
    s.map_values(|c: char| lower_char(c))
}

/// Whether the sequence holds no ASCII uppercase letter.
pub open spec fn is_ascii_lowercase_seq(s: Seq<char>) -> bool {
    forall|i: int| 0 <= i < s.len() ==> !('A' <= #[trigger] s[i] && s[i] <= 'Z')
}

/// Relies on alloc's `String::push`: appends the given character to the end
/// of the string.
pub assume_specification[ String::push ](s: &mut String, c: char)
    ensures
        final(s)@ == old(s)@.push(c),
;

/// ASCII-lowercases a string; characters outside `'A'..='Z'` are kept as
/// they are.
pub fn ascii_lower(s: &str) -> (r: String)
    ensures
        r@ == lower_seq(s@),
        r@.len() == s@.len(),
{
    let n = s.unicode_len();
    let mut r = String::new();
    let mut i: usize = 0;
    while i < n
        invariant
            n == s@.len(),
            i <= n,
            r@ == lower_seq(s@).take(i as int),
        decreases n - i,
    {
        let c = s.get_char(i);
        let lc = if 'A' <= c && c <= 'Z' {
            ((c as u8) + 32) as char
        } else {
            c
        };
        assert(lc == lower_char(s@[i as int]));
        r.push(lc);
        assert(r@ =~= lower_seq(s@).take(i as int + 1));
        i = i + 1;
    }
    assert(r@ =~= lower_seq(s@));
    r
}

/// Whether the sequence holds no occurrence of the character.
pub open spec fn free_of(s: Seq<char>, c: char) -> bool {
    forall|i: int| 0 <= i < s.len() ==> #[trigger] s[i] != c
}

/// The position of the first occurrence of a character, if any.
pub open spec fn find_spec(s: Seq<char>, c: char) -> Option<int>
    decreases s.len(),
{
    if s.len() == 0 {
        None
    } else if s[0] == c {
        Some(0)
    } else {
        match find_spec(s.drop_first(), c) {
            Some(i) => Some(i + 1),
            None => None,
        }
    }
}

/// `find_spec` returns the first occurrence: the character stands there and
/// nowhere earlier; `None` means the character does not occur at all.
pub proof fn lemma_find_spec(s: Seq<char>, c: char)
    ensures
        match find_spec(s, c) {
            Some(i) => 0 <= i < s.len() && s[i] == c && (forall|j: int|
                0 <= j < i ==> #[trigger] s[j] != c),
            None => free_of(s, c),
        },
    decreases s.len(),
{
    if s.len() > 0 && s[0] != c {
        lemma_find_spec(s.drop_first(), c);
        match find_spec(s.drop_first(), c) {
            Some(i) => {
                assert(s.drop_first()[i] == s[i + 1]);
                assert forall|j: int| 0 <= j < i + 1 implies #[trigger] s[j] != c by {
                    if j > 0 {
                        assert(s.drop_first()[j - 1] == s[j]);
                    }
                }
            },
            None => {
                assert forall|j: int| 0 <= j < s.len() implies #[trigger] s[j] != c by {
                    if j > 0 {
                        assert(s.drop_first()[j - 1] == s[j]);
                    }
                }
            },
        }
    }
}

/// Scans for the first occurrence of a character.
pub fn find(s: &str, c: char) -> (r: Option<usize>)
    ensures
        match r {
            Some(i) => find_spec(s@, c) == Some(i as int),
            None => find_spec(s@, c) is None,
        },
{
    proof {
        lemma_find_spec(s@, c);
    }
    let n = s.unicode_len();
    let mut i: usize = 0;
    while i < n
        invariant
            n == s@.len(),
            i <= n,
            forall|j: int| 0 <= j < i ==> #[trigger] s@[j] != c,
            match find_spec(s@, c) {
                Some(k) => 0 <= k < s@.len() && s@[k] == c && (forall|j: int|
                    0 <= j < k ==> #[trigger] s@[j] != c),
                None => free_of(s@, c),
            },
        decreases n - i,
    {
        if s.get_char(i) == c {
            return Some(i);
        }
        i = i + 1;
    }
    None
}

/// A lowercased sequence holds no ASCII uppercase letter.
pub proof fn lemma_lower_seq_is_lowercase(s: Seq<char>)
    ensures
        is_ascii_lowercase_seq(lower_seq(s)),
{
    assert forall|i: int| 0 <= i < lower_seq(s).len() implies !('A' <= #[trigger] lower_seq(s)[i]
        && lower_seq(s)[i] <= 'Z') by {
        assert(lower_seq(s)[i] == lower_char(s[i]));
    }
}

} // verus!
