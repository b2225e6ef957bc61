//! Identifiers of the form `https://swapi.dev/api/<category>/<digits>/`, and the
//! numeric keys and cursors derived from them.
use vstd::prelude::*;

verus! {

/// The fixed base that every identifier starts with.
pub const ID_PREFIX: &'static str = "https://swapi.dev/api/";

/// An identifier or cursor that does not have the identifier shape, or whose
/// numeric segment does not fit a `u32`.
#[derive(Debug, Clone, Copy, PartialEq, Eq, Structural)]
pub enum IdError {
    MalformedIdentifier,
}

pub open spec fn is_digit(c: char) -> bool {
    '0' <= c && c <= '9'
}

pub open spec fn all_digits(s: Seq<char>) -> bool {
    forall|i: int| 0 <= i < s.len() ==> #[trigger] is_digit(s[i])
}

pub open spec fn digit_value(c: char) -> nat {
    (c as int - '0' as int) as nat
}

/// The number written by a sequence of decimal digits, most significant first.
pub open spec fn digits_value(s: Seq<char>) -> nat
    decreases s.len(),
{
    if s.len() == 0 {
        0
    } else {
        digits_value(s.drop_last()) * 10 + digit_value(s.last())
    }
}

/// `s` is `ID_PREFIX`, a non-empty category without `/`, a `/` at index `k`,
/// a non-empty run of decimal digits, and a closing `/`.
pub open spec fn shape_at(s: Seq<char>, k: int) -> bool {
    let p = ID_PREFIX@.len() as int;
    &&& p < s.len()
    &&& s.subrange(0, p) == ID_PREFIX@
    &&& p < k && k + 1 < s.len() - 1
    &&& forall|j: int| p <= j < k ==> #[trigger] s[j] != '/'
    &&& s[k] == '/'
    &&& all_digits(s.subrange(k + 1, s.len() - 1))
    &&& s[s.len() - 1] == '/'
}

pub open spec fn has_id_shape(s: Seq<char>) -> bool {
    exists|k: int| shape_at(s, k)
}

/// The digit run of a well-shaped identifier.
pub open spec fn key_digits(s: Seq<char>) -> Seq<char> {
    let k = choose|k: int| shape_at(s, k);
    s.subrange(k + 1, s.len() - 1)
}

/// The ordered key of an identifier: `None` when it is malformed or its number
/// exceeds `u32::MAX`.
pub open spec fn spec_key(s: Seq<char>) -> Option<u32> {
    if has_id_shape(s) && digits_value(key_digits(s)) <= u32::MAX {
        Some(digits_value(key_digits(s)) as u32)
    } else {
        None
    }
}

pub open spec fn key_result(s: Seq<char>) -> Result<u32, IdError> {
    match spec_key(s) {
        Some(k) => Ok(k),
        None => Err(IdError::MalformedIdentifier),
    }
}

/// A cursor is the identifier string itself.
pub open spec fn spec_encode_cursor(id: Seq<char>) -> Seq<char> {
    id
}

proof fn lemma_shape_unique(s: Seq<char>, k1: int, k2: int)
    requires
        shape_at(s, k1),
        shape_at(s, k2),
    ensures
        k1 == k2,
{
    if k1 < k2 {
        assert(is_digit(s.subrange(k1 + 1, s.len() - 1)[k2 - k1 - 1]));
    } else if k2 < k1 {
        assert(is_digit(s.subrange(k2 + 1, s.len() - 1)[k1 - k2 - 1]));
    }
}

/// A slash at `k` followed only by non-slashes up to the closing character
/// leaves `k` as the only possible category/digits split.
proof fn lemma_shape_pins(s: Seq<char>, k: int)
    requires
        0 <= k < s.len() - 1,
        s[k] == '/',
        forall|j: int| k < j < s.len() - 1 ==> s[j] != '/',
    ensures
        forall|kk: int| shape_at(s, kk) ==> kk == k,
{
    assert forall|kk: int| shape_at(s, kk) implies kk == k by {
        if kk < k {
            assert(is_digit(s.subrange(kk + 1, s.len() - 1)[k - kk - 1]));
        }
    }
}

proof fn lemma_digits_value_monotone(s: Seq<char>, i: int)
    requires
        0 <= i <= s.len(),
    ensures
        digits_value(s.take(i)) <= digits_value(s),
    decreases s.len(),
{
    if i < s.len() {
        assert(s.drop_last().take(i) == s.take(i));
        lemma_digits_value_monotone(s.drop_last(), i);
    } else {
        assert(s.take(i) == s);
    }
}

/// Parses the numeric key out of an identifier.
pub fn extract_key(id: &str) -> (r: Result<u32, IdError>)
    ensures
        r == key_result(id@),
{
    proof {
        reveal_strlit("https://swapi.dev/api/");
    }
    let n = id.unicode_len();
    let p = ID_PREFIX.unicode_len();
    if n <= p {
        return Err(IdError::MalformedIdentifier);
    }
    let mut i: usize = 0;
    while i < p
        invariant
            p == ID_PREFIX@.len(),
            p < n == id@.len(),
            0 <= i <= p,
            id@.subrange(0, i as int) == ID_PREFIX@.subrange(0, i as int),
        decreases p - i,
    {
        if id.get_char(i) != ID_PREFIX.get_char(i) {
            assert(id@.subrange(0, p as int)[i as int] != ID_PREFIX@[i as int]);
            return Err(IdError::MalformedIdentifier);
        }
        assert(id@.subrange(0, i + 1) == id@.subrange(0, i as int).push(id@[i as int]));
        assert(ID_PREFIX@.subrange(0, i + 1) == ID_PREFIX@.subrange(0, i as int).push(
            ID_PREFIX@[i as int],
        ));
        i = i + 1;
    }
    assert(ID_PREFIX@.subrange(0, p as int) == ID_PREFIX@);
    if id.get_char(n - 1) != '/' {
        return Err(IdError::MalformedIdentifier);
    }
    // Walk back over the digit run that precedes the closing slash.
    let mut k: usize = n - 1;
    while k > p && id.get_char(k - 1) != '/'
        invariant
            p <= k <= n - 1,
            n == id@.len(),
            forall|j: int| k <= j < n - 1 ==> id@[j] != '/',
        decreases k,
    {
        k = k - 1;
    }
    if k <= p {
        assert forall|kk: int| !shape_at(id@, kk) by {
            if shape_at(id@, kk) {
                assert(id@[kk] == '/');
            }
        }
        return Err(IdError::MalformedIdentifier);
    }
    let k = k - 1;
    assert(id@[k as int] == '/');
    assert(forall|j: int| k < j < n - 1 ==> id@[j] != '/');
    proof {
        lemma_shape_pins(id@, k as int);
    }
    let mut j: usize = p;
    while j < k
        invariant
            p <= j <= k < n - 1,
            p == ID_PREFIX@.len(),
            n == id@.len(),
            forall|kk: int| shape_at(id@, kk) ==> kk == k,
            forall|m: int| p <= m < j ==> id@[m] != '/',
        decreases k - j,
    {
        if id.get_char(j) == '/' {
            assert(!has_id_shape(id@)) by {
                if has_id_shape(id@) {
                    let kk = choose|kk: int| shape_at(id@, kk);
                    assert(id@[j as int] == '/');
                }
            }
            return Err(IdError::MalformedIdentifier);
        }
        j = j + 1;
    }
    if k == p || k + 1 >= n - 1 {
        return Err(IdError::MalformedIdentifier);
    }
    let ghost digits = id@.subrange(k + 1, n - 1);
    let mut acc: u64 = 0;
    let mut d: usize = k + 1;
    while d < n - 1
        invariant
            k + 1 <= d <= n - 1,
            n == id@.len(),
            forall|kk: int| shape_at(id@, kk) ==> kk == k,
            digits == id@.subrange(k + 1, n - 1),
            forall|m: int| k + 1 <= m < d ==> #[trigger] is_digit(id@[m]),
            acc == digits_value(digits.take(d - k - 1)),
            acc <= u32::MAX,
        decreases n - 1 - d,
    {
        let c = id.get_char(d);
        if c < '0' || c > '9' {
            assert(!has_id_shape(id@)) by {
                if has_id_shape(id@) {
                    let kk = choose|kk: int| shape_at(id@, kk);
                    assert(kk == k);
                    assert(!is_digit(digits[d - k - 1]));
                }
            }
            return Err(IdError::MalformedIdentifier);
        }
        let ghost t = digits.take(d - k);
        assert(t.drop_last() == digits.take(d - k - 1));
        assert(t.last() == c);
        acc = acc * 10 + (c as u64 - '0' as u64);
        assert(acc == digits_value(t));
        if acc > u32::MAX as u64 {
            proof {
                lemma_digits_value_monotone(digits, d - k);
                if has_id_shape(id@) {
                    let kk = choose|kk: int| shape_at(id@, kk);
                    assert(kk == k);
                    assert(key_digits(id@) == digits);
                }
            }
            return Err(IdError::MalformedIdentifier);
        }
        d = d + 1;
    }
    assert(digits.take(d - k - 1) == digits);
    assert(all_digits(digits)) by {
        assert forall|i: int| 0 <= i < digits.len() implies #[trigger] is_digit(digits[i]) by {
            assert(digits[i] == id@[k + 1 + i]);
        }
    }
    assert(shape_at(id@, k as int));
    assert(key_digits(id@) == digits);
    Ok(acc as u32)
}

/// Renders an identifier as a cursor: the identifier string itself.
pub fn encode_cursor(id: &str) -> (r: String)
    ensures
        r@ == spec_encode_cursor(id@),
{
    id.to_owned()
}

/// Reads the ordered key that a cursor marks.
pub fn decode_cursor(cursor: &str) -> (r: Result<u32, IdError>)
    ensures
        r == key_result(cursor@),
{
    extract_key(cursor)
}

/// Decoding the cursor of an identifier gives that identifier's key.
pub proof fn lemma_cursor_round_trip(id: Seq<char>)
    ensures
        key_result(spec_encode_cursor(id)) == key_result(id),
{
}

/// Compares two strings character by character.
pub fn str_eq(a: &str, b: &str) -> (r: bool)
    ensures
        r == (a@ == b@),
{
    let n = a.unicode_len();
    if n != b.unicode_len() {
        return false;
    }
    let mut i: usize = 0;
    while i < n
        invariant
            0 <= i <= n,
            n == a@.len() == b@.len(),
            a@.take(i as int) == b@.take(i as int),
        decreases n - i,
    {
        if a.get_char(i) != b.get_char(i) {
            return false;
        }
        assert(a@.take(i + 1) == a@.take(i as int).push(a@[i as int]));
        assert(b@.take(i + 1) == b@.take(i as int).push(b@[i as int]));
        i = i + 1;
    }
    assert(a@ == a@.take(n as int));
    assert(b@ == b@.take(n as int));
    true
}

} // verus!
