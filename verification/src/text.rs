//! Text helpers: lossy UTF-8 decoding, NUL-terminated fields, trimming and
//! substring search, all over sequences of characters.

use vstd::prelude::*;
use vstd::std_specs::iter::IteratorSpec;
use vstd::string::*;
use vstd::utf8::{
    char_is_scalar, char_u32_cast, decode_utf8, encode_scalar, encode_utf8,
    encode_utf8_decode_utf8, encode_utf8_valid_utf8, has_width_1_encoding, is_scalar, valid_utf8,
};

verus! {

/// The characters that `String::from_utf8_lossy` produces for `bytes`.
pub uninterp spec fn utf8_lossy(bytes: Seq<u8>) -> Seq<char>;

/// Calls std's `String::from_utf8_lossy` and takes its result as an owned
/// `String`. Claimed: the text is `utf8_lossy(bytes)`; on valid UTF-8 it is
/// the decoded text unchanged; and bytes without a NUL give text without a
/// NUL, since std documents that each invalid sequence becomes U+FFFD. Which
/// invalid sequences are replaced, and by how many U+FFFD, is left unsaid.
#[verifier::external_body]
pub(crate) fn lossy_string(bytes: &[u8]) -> (s: String)
    ensures
        s@ == utf8_lossy(bytes@),
        valid_utf8(bytes@) ==> s@ == decode_utf8(bytes@),
        (forall|k: int| 0 <= k < bytes@.len() ==> bytes@[k] != 0) ==> (forall|k: int|
            0 <= k < s@.len() ==> s@[k] != '\0'),
{
    String::from_utf8_lossy(bytes).into_owned()
}

/// The characters of `bytes` decoded as lossy UTF-8.
pub fn decode_lossy(bytes: &[u8]) -> (chars: Vec<char>)
    ensures
        chars@ == utf8_lossy(bytes@),
        valid_utf8(bytes@) ==> chars@ == decode_utf8(bytes@),
        (forall|k: int| 0 <= k < bytes@.len() ==> bytes@[k] != 0) ==> (forall|k: int|
            0 <= k < chars@.len() ==> chars@[k] != '\0'),
{
    let s = lossy_string(bytes);
    str_chars(s.as_str())
}

/// Collects characters into a `String` with std's `String::from_iter`.
/// Claimed: the string holds exactly these characters, in order.
#[verifier::external_body]
pub(crate) fn string_from_chars(chars: &[char]) -> (s: String)
    ensures
        s@ == chars@,
{
    chars.iter().collect()
}

/// Unicode `White_Space`, the property that `str::trim` strips.
pub open spec fn is_white_space(c: char) -> bool {
    let u = c as u32;
    ||| 0x09 <= u <= 0x0D
    ||| u == 0x20
    ||| u == 0x85
    ||| u == 0xA0
    ||| u == 0x1680
    ||| 0x2000 <= u <= 0x200A
    ||| u == 0x2028
    ||| u == 0x2029
    ||| u == 0x202F
    ||| u == 0x205F
    ||| u == 0x3000
}

/// Whether `c` is Unicode white space.
pub fn is_white_space_char(c: char) -> (r: bool)
    ensures
        r == is_white_space(c),
{
    let u = c as u32;
    (0x09 <= u && u <= 0x0D) || u == 0x20 || u == 0x85 || u == 0xA0 || u == 0x1680 || (0x2000
        <= u && u <= 0x200A) || u == 0x2028 || u == 0x2029 || u == 0x202F || u == 0x205F || u
        == 0x3000
}


/// What a trim strips: NUL characters, or Unicode white space.
pub open spec fn strip_pred(nul: bool) -> spec_fn(char) -> bool {
    if nul {
        |c: char| c == '\0'
    } else {
        |c: char| is_white_space(c)
    }
}

/// `i` is the index of the first character of `s` that `p` does not strip
/// (or the length of `s` when `p` strips every character).
pub open spec fn is_trim_start(s: Seq<char>, p: spec_fn(char) -> bool, i: int) -> bool {
    &&& 0 <= i <= s.len()
    &&& forall|k: int| 0 <= k < i ==> p(#[trigger] s[k])
    &&& i < s.len() ==> !p(s[i])
}

/// `j` is the end of the kept part of `s` that begins at `i`: every character
/// from `j` on is stripped, and the one before `j` (if past `i`) is kept.
pub open spec fn is_trim_end(s: Seq<char>, p: spec_fn(char) -> bool, i: int, j: int) -> bool {
    &&& i <= j <= s.len()
    &&& forall|k: int| j <= k < s.len() ==> p(#[trigger] s[k])
    &&& j > i ==> !p(s[j - 1])
}

/// `s` with the characters that `p` strips removed from both ends.
pub open spec fn trim_by(s: Seq<char>, p: spec_fn(char) -> bool) -> Seq<char> {
    let (i, j) = choose|i: int, j: int| is_trim_start(s, p, i) && is_trim_end(s, p, i, j);
    s.subrange(i, j)
}

/// What `str::trim` returns: `s` without leading and trailing white space.
pub open spec fn trim_white_space(s: Seq<char>) -> Seq<char> {
    trim_by(s, strip_pred(false))
}

/// What `str::trim_matches('\0')` returns: `s` without leading and trailing NULs.
pub open spec fn trim_nul(s: Seq<char>) -> Seq<char> {
    trim_by(s, strip_pred(true))
}

/// The bounds of a trim are unique, so any pair that meets them gives the trim.
pub proof fn lemma_trim_by_bounds(s: Seq<char>, p: spec_fn(char) -> bool, i: int, j: int)
    requires
        is_trim_start(s, p, i),
        is_trim_end(s, p, i, j),
    ensures
        trim_by(s, p) == s.subrange(i, j),
{
    assert(is_trim_start(s, p, i) && is_trim_end(s, p, i, j));
    let (a, b) = choose|a: int, b: int| is_trim_start(s, p, a) && is_trim_end(s, p, a, b);
    if a < i {
        assert(p(s[a]));
    }
    if i < a {
        assert(p(s[i]));
    }
    assert(a == i);
    if b < j {
        assert(p(s[j - 1]));
    }
    if j < b {
        assert(p(s[b - 1]));
    }
    assert(b == j);
}

fn strips(c: char, nul: bool) -> (r: bool)
    ensures
        r == strip_pred(nul)(c),
{
    if nul {
        c == '\0'
    } else {
        is_white_space_char(c)
    }
}

/// The part of `chars` that a trim keeps: NULs are stripped when `nul` holds,
/// white space otherwise.
pub fn trim_slice(chars: &[char], nul: bool) -> (r: &[char])
    ensures
        r@ == trim_by(chars@, strip_pred(nul)),
{
    let n = chars.len();
    let mut i: usize = 0;
    while i < n && strips(chars[i], nul)
        invariant
            0 <= i <= n,
            n == chars@.len(),
            forall|k: int| 0 <= k < i ==> strip_pred(nul)(#[trigger] chars@[k]),
        decreases n - i,
    {
        i = i + 1;
    }
    let mut j: usize = n;
    while j > i && strips(chars[j - 1], nul)
        invariant
            i <= j <= n,
            n == chars@.len(),
            forall|k: int| j <= k < n ==> strip_pred(nul)(#[trigger] chars@[k]),
        decreases j,
    {
        j = j - 1;
    }
    proof {
        lemma_trim_by_bounds(chars@, strip_pred(nul), i as int, j as int);
    }
    vstd::slice::slice_subrange(chars, i, j)
}

/// `n` is the length of the text before the first NUL of `s` (all of `s` when
/// it holds none).
pub open spec fn is_c_str_len(s: Seq<u8>, n: int) -> bool {
    &&& 0 <= n <= s.len()
    &&& forall|k: int| 0 <= k < n ==> #[trigger] s[k] != 0
    &&& n < s.len() ==> s[n] == 0
}

/// The length of the text before the first NUL of `s`.
pub open spec fn c_str_len(s: Seq<u8>) -> int {
    choose|n: int| is_c_str_len(s, n)
}

/// The text length before the first NUL is unique.
pub proof fn lemma_c_str_len(s: Seq<u8>, n: int)
    requires
        is_c_str_len(s, n),
    ensures
        c_str_len(s) == n,
{
    let m = c_str_len(s);
    assert(is_c_str_len(s, m));
    if m < n {
        assert(s[m] != 0);
    }
    if n < m {
        assert(s[n] != 0);
    }
}

/// The index of the first NUL in `bytes`, or its length when it has none.
pub fn c_str_end(bytes: &[u8]) -> (n: usize)
    ensures
        n == c_str_len(bytes@),
        is_c_str_len(bytes@, n as int),
{
    let len = bytes.len();
    let mut i: usize = 0;
    while i < len && bytes[i] != 0
        invariant
            0 <= i <= len,
            len == bytes@.len(),
            forall|k: int| 0 <= k < i ==> #[trigger] bytes@[k] != 0,
        decreases len - i,
    {
        i = i + 1;
    }
    proof {
        lemma_c_str_len(bytes@, i as int);
    }
    i
}

/// The text of a fixed-size field: the bytes before the first NUL, decoded as
/// lossy UTF-8, with surrounding white space trimmed.
pub open spec fn utf8_field(bytes: Seq<u8>) -> Seq<char> {
    trim_white_space(utf8_lossy(bytes.take(c_str_len(bytes))))
}

/// Reads a NUL-terminated UTF-8 field: the text up to the first NUL (or the
/// whole field), decoded lossily, without leading and trailing white space.
pub fn read_utf8_string(bytes: &[u8]) -> (s: String)
    ensures
        s@ == utf8_field(bytes@),
        valid_utf8(bytes@.take(c_str_len(bytes@))) ==> s@ == utf8_field_text(bytes@),
        forall|k: int| 0 <= k < s@.len() ==> #[trigger] s@[k] != '\0',
        trim_white_space(s@) == s@,
{
    let end = c_str_end(bytes);
    let head = vstd::slice::slice_subrange(bytes, 0, end);
    assert(head@ == bytes@.take(end as int));
    assert forall|k: int| 0 <= k < head@.len() implies head@[k] != 0 by {
        assert(head@[k] == bytes@[k]);
    }
    let chars = decode_lossy(head);
    proof {
        let ws = strip_pred(false);
        let (i, j) = lemma_trim_bounds_exist(chars@, ws);
        let t = chars@.subrange(i, j);
        assert forall|k: int| 0 <= k < t.len() implies #[trigger] t[k] != '\0' by {
            assert(t[k] == chars@[i + k]);
        }
        lemma_trim_by_trimmed(chars@, ws);
    }
    let kept = trim_slice(chars.as_slice(), false);
    string_from_chars(kept)
}

/// `needle` occurs in `hay` starting at index `i`.
pub open spec fn occurs_at(hay: Seq<char>, needle: Seq<char>, i: int) -> bool {
    &&& 0 <= i
    &&& i + needle.len() <= hay.len()
    &&& hay.subrange(i, i + needle.len()) == needle
}

/// `needle` occurs somewhere in `hay`, as `str::contains` tests.
pub open spec fn contains_chars(hay: Seq<char>, needle: Seq<char>) -> bool {
    exists|i: int| occurs_at(hay, needle, i)
}

/// Whether `needle` occurs in `hay`.
pub fn contains(hay: &[char], needle: &[char]) -> (r: bool)
    ensures
        r == contains_chars(hay@, needle@),
{
    let n = hay.len();
    let m = needle.len();
    if m > n {
        assert forall|k: int| !occurs_at(hay@, needle@, k) by {}
        return false;
    }
    let mut i: usize = 0;
    while i <= n - m
        invariant
            n == hay@.len(),
            m == needle@.len(),
            m <= n,
            0 <= i <= n - m + 1,
            forall|k: int| 0 <= k < i ==> !occurs_at(hay@, needle@, k),
        decreases n - m + 1 - i,
    {
        let mut j: usize = 0;
        let mut same = true;
        while j < m && same
            invariant
                n == hay@.len(),
                m == needle@.len(),
                i + m <= n,
                0 <= j <= m,
                same ==> forall|l: int| 0 <= l < j ==> hay@[i + l] == needle@[l],
                !same ==> j > 0 && hay@[i + j - 1] != needle@[j - 1],
            decreases m - j,
        {
            same = hay[i + j] == needle[j];
            j = j + 1;
        }
        if same {
            assert(hay@.subrange(i as int, i + m) =~= needle@);
            assert(occurs_at(hay@, needle@, i as int));
            return true;
        }
        assert(hay@.subrange(i as int, i + m)[j - 1] != needle@[j - 1]);
        i = i + 1;
    }
    assert forall|k: int| !occurs_at(hay@, needle@, k) by {
        if 0 <= k < i {
        }
    }
    false
}

/// The characters of `s`.
pub fn str_chars(s: &str) -> (chars: Vec<char>)
    ensures
        chars@ == s@,
{
    broadcast use vstd::string::group_string_axioms;

    let mut it = s.chars();
    let mut chars: Vec<char> = Vec::new();
    loop
        invariant
            chars@ + it.remaining() == s@,
            it.decrease() is Some,
        ensures
            chars@ == s@,
        decreases it.decrease()->0,
    {
        match it.next() {
            Some(c) => {
                chars.push(c);
            },
            None => {
                assert(chars@ + seq![] =~= chars@);
                break;
            },
        }
    }
    chars
}

proof fn lemma_trim_start_exists(s: Seq<char>, p: spec_fn(char) -> bool, i: int) -> (r: int)
    requires
        0 <= i <= s.len(),
        forall|k: int| 0 <= k < i ==> p(#[trigger] s[k]),
    ensures
        is_trim_start(s, p, r),
    decreases s.len() - i,
{
    if i == s.len() || !p(s[i]) {
        i
    } else {
        lemma_trim_start_exists(s, p, i + 1)
    }
}

proof fn lemma_trim_end_exists(s: Seq<char>, p: spec_fn(char) -> bool, i: int, j: int) -> (r: int)
    requires
        0 <= i <= j <= s.len(),
        forall|k: int| j <= k < s.len() ==> p(#[trigger] s[k]),
    ensures
        is_trim_end(s, p, i, r),
    decreases j - i,
{
    if j == i || !p(s[j - 1]) {
        j
    } else {
        lemma_trim_end_exists(s, p, i, j - 1)
    }
}

/// Every sequence has trim bounds.
pub proof fn lemma_trim_bounds_exist(s: Seq<char>, p: spec_fn(char) -> bool) -> (r: (int, int))
    ensures
        is_trim_start(s, p, r.0),
        is_trim_end(s, p, r.0, r.1),
        trim_by(s, p) == s.subrange(r.0, r.1),
{
    let i = lemma_trim_start_exists(s, p, 0);
    let j = lemma_trim_end_exists(s, p, i, s.len() as int);
    lemma_trim_by_bounds(s, p, i, j);
    (i, j)
}

/// A trimmed sequence neither starts nor ends with a stripped character, and
/// trimming it again changes nothing.
pub proof fn lemma_trim_by_trimmed(s: Seq<char>, p: spec_fn(char) -> bool)
    ensures
        trim_by(s, p).len() > 0 ==> !p(trim_by(s, p)[0]) && !p(trim_by(s, p).last()),
        trim_by(trim_by(s, p), p) == trim_by(s, p),
{
    let (i, j) = lemma_trim_bounds_exist(s, p);
    let t = s.subrange(i, j);
    assert(is_trim_start(t, p, 0));
    assert(is_trim_end(t, p, 0, t.len() as int));
    lemma_trim_by_bounds(t, p, 0, t.len() as int);
    assert(t.subrange(0, t.len() as int) =~= t);
}

/// A field read by `read_utf8_string` has no white space at either end.
pub proof fn lemma_utf8_field_trimmed(bytes: Seq<u8>)
    ensures
        utf8_field(bytes).len() > 0 ==> !is_white_space(utf8_field(bytes)[0]) && !is_white_space(
            utf8_field(bytes).last(),
        ),
        trim_white_space(utf8_field(bytes)) == utf8_field(bytes),
{
    lemma_trim_by_trimmed(utf8_lossy(bytes.take(c_str_len(bytes))), strip_pred(false));
}

/// The text of a field whose bytes before the first NUL are valid UTF-8.
pub open spec fn utf8_field_text(bytes: Seq<u8>) -> Seq<char> {
    trim_white_space(decode_utf8(bytes.take(c_str_len(bytes))))
}

proof fn lemma_encode_scalar_nonzero(v: u32)
    requires
        is_scalar(v),
        v != 0,
    ensures
        forall|k: int| 0 <= k < encode_scalar(v).len() ==> #[trigger] encode_scalar(v)[k] != 0,
{
    if has_width_1_encoding(v) {
        assert((v & 0x7F) as u8 != 0) by (bit_vector)
            requires
                0 < v <= 0x7F,
        ;
    } else {
        assert(0xC0 | ((v >> 6) & 0x1F) as u8 != 0) by (bit_vector);
        assert(0xE0 | ((v >> 12) & 0x0F) as u8 != 0) by (bit_vector);
        assert(0xF0 | ((v >> 18) & 0x7) as u8 != 0) by (bit_vector);
        assert(0x80 | (v & 0x3F) as u8 != 0) by (bit_vector);
        assert(0x80 | ((v >> 6) & 0x3F) as u8 != 0) by (bit_vector);
        assert(0x80 | ((v >> 12) & 0x3F) as u8 != 0) by (bit_vector);
    }
}

/// UTF-8 holds a zero byte exactly where the text holds a NUL.
pub proof fn lemma_encode_utf8_nul_free(chars: Seq<char>)
    ensures
        (forall|k: int| 0 <= k < chars.len() ==> #[trigger] chars[k] != '\0') <==> (forall|k: int|
            0 <= k < encode_utf8(chars).len() ==> #[trigger] encode_utf8(chars)[k] != 0),
    decreases chars.len(),
{
    if chars.len() > 0 {
        let c = chars[0];
        let rest = chars.drop_first();
        lemma_encode_utf8_nul_free(rest);
        char_is_scalar(c);
        let e0 = encode_scalar(c as u32);
        let er = encode_utf8(rest);
        let all = encode_utf8(chars);
        assert(all == e0 + er);
        if c == '\0' {
            let z: u32 = c as u32;
            assert((z & 0x7F) as u8 == 0) by (bit_vector)
                requires
                    z == 0,
            ;
            assert(all[0] == 0);
        } else {
            if c as u32 == 0 {
                char_u32_cast(c, 0);
                char_u32_cast('\0', 0);
            }
            lemma_encode_scalar_nonzero(c as u32);
            assert((forall|k: int| 0 <= k < chars.len() ==> #[trigger] chars[k] != '\0') <==> (
            forall|k: int| 0 <= k < rest.len() ==> #[trigger] rest[k] != '\0')) by {
                if forall|k: int| 0 <= k < rest.len() ==> #[trigger] rest[k] != '\0' {
                    assert forall|k: int| 0 <= k < chars.len() implies #[trigger] chars[k]
                        != '\0' by {
                        if k > 0 {
                            assert(chars[k] == rest[k - 1]);
                        }
                    }
                }
                if forall|k: int| 0 <= k < chars.len() ==> #[trigger] chars[k] != '\0' {
                    assert forall|k: int| 0 <= k < rest.len() implies #[trigger] rest[k]
                        != '\0' by {
                        assert(rest[k] == chars[k + 1]);
                    }
                }
            }
            assert((forall|k: int| 0 <= k < all.len() ==> #[trigger] all[k] != 0) <==> (forall|
                k: int,
            |
                0 <= k < er.len() ==> #[trigger] er[k] != 0)) by {
                if forall|k: int| 0 <= k < er.len() ==> #[trigger] er[k] != 0 {
                    assert forall|k: int| 0 <= k < all.len() implies #[trigger] all[k] != 0 by {
                        if k < e0.len() {
                            assert(all[k] == e0[k]);
                        } else {
                            assert(all[k] == er[k - e0.len()]);
                        }
                    }
                }
                if forall|k: int| 0 <= k < all.len() ==> #[trigger] all[k] != 0 {
                    assert forall|k: int| 0 <= k < er.len() implies #[trigger] er[k] != 0 by {
                        assert(er[k] == all[k + e0.len()]);
                    }
                }
            }
        }
    }
}

/// A text without NUL and without white space at either end, written as
/// UTF-8 and read back as a field, comes back unchanged: its bytes hold no
/// NUL, are valid UTF-8, and decode to the text, which trimming leaves as it
/// is. With the contract of `read_utf8_string`, reading the bytes of what it
/// returned gives that again.
pub proof fn lemma_text_reread(t: Seq<char>)
    requires
        forall|k: int| 0 <= k < t.len() ==> #[trigger] t[k] != '\0',
        trim_white_space(t) == t,
    ensures
        valid_utf8(encode_utf8(t).take(c_str_len(encode_utf8(t)))),
        utf8_field_text(encode_utf8(t)) == t,
{
    let bt = encode_utf8(t);
    lemma_encode_utf8_nul_free(t);
    lemma_c_str_len(bt, bt.len() as int);
    assert(bt.take(bt.len() as int) =~= bt);
    encode_utf8_valid_utf8(t);
    encode_utf8_decode_utf8(t);
}

} // verus!
