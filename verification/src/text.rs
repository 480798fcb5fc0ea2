//! Character-level string predicates used throughout the library.

use vstd::prelude::*;
use vstd::utf8::*;
use vstd::string::StringSliceAdditionalSpecFns;

verus! {

broadcast use vstd::seq_lib::group_seq_properties;

/// `needle` occurs as a contiguous run of characters somewhere in `hay`.
pub open spec fn contains_seq(hay: Seq<char>, needle: Seq<char>) -> bool {
    exists|i: int|
        0 <= i && i + needle.len() <= hay.len() && #[trigger] hay.subrange(i, i + needle.len())
            == needle
}

/// Number of occurrences of `c` in `s`.
pub open spec fn count_char(s: Seq<char>, c: char) -> nat
    decreases s.len(),
{
    if s.len() == 0 {
        0
    } else {
        count_char(s.drop_last(), c) + if s.last() == c {
            1nat
        } else {
            0nat
        }
    }
}

/// `s` with every trailing occurrence of `pat` removed, one after the other.
pub open spec fn trim_end_all(s: Seq<char>, pat: Seq<char>) -> Seq<char>
    decreases s.len(),
{
    if pat.len() > 0 && pat.is_suffix_of(s) {
        trim_end_all(s.subrange(0, s.len() - pat.len()), pat)
    } else {
        s
    }
}

/// The Unicode lowercase mapping of a string, as `str::to_lowercase` computes it.
pub uninterp spec fn lowercase_of(s: Seq<char>) -> Seq<char>;

/// Every character of `s` is ASCII.
pub open spec fn ascii_only(s: Seq<char>) -> bool {
    forall|i: int| 0 <= i < s.len() ==> (#[trigger] s[i] as u32) < 128
}

/// 'A' to 'Z' become 'a' to 'z'; every other character stays.
pub open spec fn ascii_lower_char(c: char) -> char {
    if 65 <= (c as u32) <= 90 {
        ((c as u32) + 32) as char
    } else {
        c
    }
}

/// `s` with 'A' to 'Z' turned into 'a' to 'z'.
pub open spec fn ascii_lowercase(s: Seq<char>) -> Seq<char> {
    s.map_values(|c: char| ascii_lower_char(c))
}

/// Calls `str::to_lowercase`.  The contract names the result; of the
/// Unicode case tables that decide it, it states only what they do to ASCII
/// text: 'A' to 'Z' become 'a' to 'z' and every other character stays, as
/// with `to_ascii_lowercase`.  Nothing else is stated, in particular not
/// what a second lowering of non-ASCII text gives.
#[verifier::external_body]
pub(crate) fn to_lower(s: &str) -> (r: String)
    ensures
        r@ == lowercase_of(s@),
        ascii_only(s@) ==> r@ == ascii_lowercase(s@),
{
    s.to_lowercase()
}

/// Lowering ASCII text gives ASCII text that lowering leaves unchanged.
pub proof fn law_ascii_lowercase_stable(s: Seq<char>)
    ensures
        ascii_only(s) ==> ascii_only(ascii_lowercase(s)),
        ascii_lowercase(ascii_lowercase(s)) == ascii_lowercase(s),
{
    assert(ascii_lowercase(ascii_lowercase(s)) =~= ascii_lowercase(s));
}

/// The characters of `s`, in order.
pub fn chars_of(s: &str) -> (v: Vec<char>)
    ensures
        v@ == s@,
{
    let mut v: Vec<char> = Vec::new();
    for c in it: s.chars()
        invariant
            v@ == it.seq().take(it.index() as int),
    {
        v.push(c);
    }
    assert(v@ =~= s@);
    v
}

/// `needle` occurs in `hay` at character offset `i`.
fn matches_at(hay: &[char], needle: &[char], i: usize) -> (r: bool)
    requires
        i + needle@.len() <= hay@.len(),
    ensures
        r == (hay@.subrange(i as int, i + needle@.len()) == needle@),
{
    let n = needle.len();
    let hl = hay.len();
    let mut j: usize = 0;
    while j < n
        invariant
            n == needle@.len(),
            hl == hay@.len(),
            i + n <= hay@.len(),
            j <= n,
            forall|k: int| 0 <= k < j ==> hay@[i + k] == needle@[k],
        decreases n - j,
    {
        if hay[i + j] != needle[j] {
            assert(hay@.subrange(i as int, i + n)[j as int] != needle@[j as int]);
            return false;
        }
        j = j + 1;
    }
    assert(hay@.subrange(i as int, i + n) =~= needle@);
    true
}

/// Whether `needle` occurs anywhere in `hay`.
pub fn seq_contains(hay: &[char], needle: &[char]) -> (r: bool)
    ensures
        r == contains_seq(hay@, needle@),
{
    if needle.len() > hay.len() {
        return false;
    }
    let last = hay.len() - needle.len();
    let mut i: usize = 0;
    loop
        invariant
            i <= last,
            last + needle@.len() == hay@.len(),
            forall|k: int|
                0 <= k < i ==> #[trigger] hay@.subrange(k, k + needle@.len()) != needle@,
        decreases last - i,
    {
        if matches_at(hay, needle, i) {
            return true;
        }
        if i == last {
            return false;
        }
        i = i + 1;
    }
}

/// Whether the characters of `pat` occur in `hay`.
pub fn contains_str(hay: &[char], pat: &str) -> (r: bool)
    ensures
        r == contains_seq(hay@, pat@),
{
    let p = chars_of(pat);
    seq_contains(hay, p.as_slice())
}

/// Whether `hay` begins with the characters of `pat`.
pub fn seq_starts_with(hay: &[char], pat: &[char]) -> (r: bool)
    ensures
        r == pat@.is_prefix_of(hay@),
{
    if pat.len() > hay.len() {
        return false;
    }
    let r = matches_at(hay, pat, 0);
    assert(hay@.subrange(0, pat@.len() as int) =~= hay@.take(pat@.len() as int));
    r
}

/// Whether `hay` ends with the characters of `pat`.
pub fn seq_ends_with(hay: &[char], pat: &[char]) -> (r: bool)
    ensures
        r == pat@.is_suffix_of(hay@),
{
    if pat.len() > hay.len() {
        return false;
    }
    matches_at(hay, pat, hay.len() - pat.len())
}

/// Whether `hay` begins with the characters of the string `pat`.
pub fn starts_with_str(hay: &[char], pat: &str) -> (r: bool)
    ensures
        r == pat@.is_prefix_of(hay@),
{
    let p = chars_of(pat);
    seq_starts_with(hay, p.as_slice())
}

/// Whether `hay` ends with the characters of the string `pat`.
pub fn ends_with_str(hay: &[char], pat: &str) -> (r: bool)
    ensures
        r == pat@.is_suffix_of(hay@),
{
    let p = chars_of(pat);
    seq_ends_with(hay, p.as_slice())
}

/// Character-wise equality of two sequences.
pub fn seq_eq(a: &[char], b: &[char]) -> (r: bool)
    ensures
        r == (a@ == b@),
{
    if a.len() != b.len() {
        return false;
    }
    let r = matches_at(a, b, 0);
    assert(a@.subrange(0, b@.len() as int) =~= a@);
    r
}

/// Whether `a` is exactly the string `b`.
pub fn eq_str(a: &[char], b: &str) -> (r: bool)
    ensures
        r == (a@ == b@),
{
    let p = chars_of(b);
    seq_eq(a, p.as_slice())
}

/// Number of occurrences of `c` among the characters of `s`.
pub fn count_occurrences(s: &[char], c: char) -> (n: usize)
    ensures
        n == count_char(s@, c),
{
    let mut n: usize = 0;
    let mut i: usize = 0;
    while i < s.len()
        invariant
            i <= s@.len(),
            n == count_char(s@.take(i as int), c),
            n <= i,
        decreases s@.len() - i,
    {
        assert(s@.take(i + 1).drop_last() =~= s@.take(i as int));
        if s[i] == c {
            n = n + 1;
        }
        i = i + 1;
    }
    assert(s@.take(s@.len() as int) =~= s@);
    n
}

/// Whether `c` occurs in `s`.
pub fn has_char(s: &[char], c: char) -> (r: bool)
    ensures
        r == s@.contains(c),
{
    let mut i: usize = 0;
    while i < s.len()
        invariant
            i <= s@.len(),
            forall|k: int| 0 <= k < i ==> s@[k] != c,
        decreases s@.len() - i,
    {
        if s[i] == c {
            assert(s@[i as int] == c);
            return true;
        }
        i = i + 1;
    }
    false
}

/// Number of bytes in the UTF-8 encoding of `c`.
pub open spec fn utf8_width(c: char) -> nat {
    if has_width_1_encoding(c as u32) {
        1
    } else if has_width_2_encoding(c as u32) {
        2
    } else if has_width_3_encoding(c as u32) {
        3
    } else {
        4
    }
}

/// Number of bytes in the UTF-8 encoding of `s`.
pub open spec fn utf8_len(s: Seq<char>) -> nat
    decreases s.len(),
{
    if s.len() == 0 {
        0
    } else {
        utf8_len(s.drop_last()) + utf8_width(s.last())
    }
}

/// The encoding of a concatenation is the concatenation of the encodings.
pub proof fn lemma_encode_utf8_concat(a: Seq<char>, b: Seq<char>)
    ensures
        encode_utf8(a + b) == encode_utf8(a) + encode_utf8(b),
    decreases a.len(),
{
    if a.len() == 0 {
        assert(a + b =~= b);
        assert(encode_utf8(a) + encode_utf8(b) =~= encode_utf8(b));
    } else {
        assert((a + b).drop_first() =~= a.drop_first() + b);
        lemma_encode_utf8_concat(a.drop_first(), b);
        assert(encode_utf8(a + b) =~= encode_utf8(a) + encode_utf8(b));
    }
}

/// `utf8_len` is the length of vstd's `encode_utf8`.
pub proof fn lemma_utf8_len(s: Seq<char>)
    ensures
        encode_utf8(s).len() == utf8_len(s),
    decreases s.len(),
{
    if s.len() > 0 {
        let a = s.drop_last();
        let b = seq![s.last()];
        assert(s =~= a + b);
        lemma_encode_utf8_concat(a, b);
        lemma_utf8_len(a);
        assert(b.drop_first() =~= Seq::<char>::empty());
        assert(encode_utf8(b) =~= encode_scalar(s.last() as u32) + encode_utf8(b.drop_first()));
    }
}

/// UTF-8 length of a prefix is bounded by that of the whole.
proof fn lemma_utf8_len_prefix(s: Seq<char>, k: int)
    requires
        0 <= k <= s.len(),
    ensures
        utf8_len(s.take(k)) <= utf8_len(s),
    decreases s.len() - k,
{
    if k < s.len() {
        assert(s.take(k + 1).drop_last() =~= s.take(k));
        lemma_utf8_len_prefix(s, k + 1);
    } else {
        assert(s.take(k) =~= s);
    }
}

/// Number of bytes in the UTF-8 encoding of `c`.
fn char_width(c: char) -> (w: usize)
    ensures
        w == utf8_width(c),
{
    proof {
        char_is_scalar(c);
    }
    let u = c as u32;
    if u <= 0x7F {
        1
    } else if u <= 0x7FF {
        2
    } else if u <= 0xFFFF {
        3
    } else {
        4
    }
}

/// The byte length of a string is the UTF-8 length of its characters.
pub proof fn lemma_str_len(s: &str)
    ensures
        s.spec_bytes().len() == utf8_len(s@),
{
    lemma_utf8_len(s@);
}

/// UTF-8 length of the first `k` characters of `s`.
fn utf8_len_prefix(s: &[char], k: usize) -> (n: usize)
    requires
        k <= s@.len(),
        utf8_len(s@) <= usize::MAX,
    ensures
        n == utf8_len(s@.take(k as int)),
{
    let mut n: usize = 0;
    let mut i: usize = 0;
    proof {
        lemma_utf8_len_prefix(s@, k as int);
    }
    while i < k
        invariant
            i <= k <= s@.len(),
            n == utf8_len(s@.take(i as int)),
            utf8_len(s@.take(k as int)) <= usize::MAX,
            utf8_len(s@) <= usize::MAX,
        decreases k - i,
    {
        proof {
            assert(s@.take(i + 1).drop_last() =~= s@.take(i as int));
            lemma_utf8_len_prefix(s@, i + 1);
        }
        let w = char_width(s[i]);
        n = n + w;
        i = i + 1;
    }
    n
}

/// Number of bytes in the UTF-8 encoding of the characters of `s`.
pub fn utf8_len_of(s: &[char]) -> (n: usize)
    requires
        utf8_len(s@) <= usize::MAX,
    ensures
        n == utf8_len(s@),
{
    let n = utf8_len_prefix(s, s.len());
    assert(s@.take(s@.len() as int) =~= s@);
    n
}

/// `s` split after its first `k` characters.
pub fn char_split(s: &str, k: usize) -> (r: (&str, &str))
    requires
        k <= s@.len(),
    ensures
        r.0@ == s@.take(k as int),
        r.1@ == s@.skip(k as int),
{
    let cs = chars_of(s);
    let total = s.as_bytes().len();
    let ghost a = s@.take(k as int);
    let ghost b = s@.skip(k as int);
    proof {
        assert(s@ =~= a + b);
        lemma_encode_utf8_concat(a, b);
        lemma_utf8_len(a);
        lemma_utf8_len(s@);
        lemma_char_boundary_concat(a, b);
    }
    let bytes = utf8_len_prefix(cs.as_slice(), k);
    let (left, right) = s.split_at(bytes);
    proof {
        assert(encode_utf8(s@).subrange(0, bytes as int) =~= encode_utf8(a));
        assert(encode_utf8(s@).subrange(bytes as int, encode_utf8(s@).len() as int)
            =~= encode_utf8(b));
        broadcast use encode_utf8_decode_utf8;

        assert(left@ == decode_utf8(encode_utf8(left@)));
        assert(right@ == decode_utf8(encode_utf8(right@)));
    }
    (left, right)
}

/// The first `k` characters of `s`, as a string slice of `s`.
pub fn char_prefix(s: &str, k: usize) -> (r: &str)
    requires
        k <= s@.len(),
    ensures
        r@ == s@.take(k as int),
{
    char_split(s, k).0
}

/// The characters of `s` from position `k` on, as a string slice of `s`.
pub fn char_suffix(s: &str, k: usize) -> (r: &str)
    requires
        k <= s@.len(),
    ensures
        r@ == s@.skip(k as int),
{
    char_split(s, k).1
}

/// The end of an encoded prefix is a character boundary of the whole encoding.
proof fn lemma_char_boundary_concat(a: Seq<char>, b: Seq<char>)
    ensures
        is_char_boundary(encode_utf8(a + b), encode_utf8(a).len() as int),
    decreases a.len(),
{
    broadcast use encode_utf8_valid_utf8;

    if a.len() == 0 {
        assert(encode_utf8(a).len() == 0);
    } else {
        let ab = a + b;
        assert(ab.drop_first() =~= a.drop_first() + b);
        lemma_char_boundary_concat(a.drop_first(), b);
        encode_utf8_first_scalar(ab);
        let bytes = encode_utf8(ab);
        assert(pop_first_scalar(bytes) =~= encode_utf8(ab.drop_first()));
        assert(encode_utf8(a).len() == encode_scalar(a[0] as u32).len() + encode_utf8(
            a.drop_first(),
        ).len());
    }
}

/// `s` with every trailing occurrence of `pat` removed.
pub fn trim_end_matches<'a>(s: &'a str, pat: &str) -> (r: &'a str)
    ensures
        r@ == trim_end_all(s@, pat@),
{
    let cs = chars_of(s);
    let p = chars_of(pat);
    let mut k: usize = cs.len();
    if p.len() == 0 {
        return s;
    }
    assert(s@.take(k as int) =~= s@);
    while k >= p.len() && matches_at(cs.as_slice(), p.as_slice(), k - p.len())
        invariant
            k <= s@.len(),
            cs@ == s@,
            p@ == pat@,
            p@.len() > 0,
            trim_end_all(s@.take(k as int), pat@) == trim_end_all(s@, pat@),
        decreases k,
    {
        let ghost t = s@.take(k as int);
        assert(t.subrange(t.len() - p@.len(), t.len() as int) =~= s@.subrange(
            k - p@.len(),
            k as int,
        ));
        assert(t.subrange(0, t.len() - p@.len()) =~= s@.take(k - p@.len()));
        k = k - p.len();
    }
    proof {
        let t = s@.take(k as int);
        if pat@.is_suffix_of(t) {
            assert(t.subrange(t.len() - p@.len(), t.len() as int) =~= s@.subrange(
                k - p@.len(),
                k as int,
            ));
        }
        if k == s@.len() {
            assert(t =~= s@);
        }
    }
    char_prefix(s, k)
}


/// Byte offset `b` of the UTF-8 encoding of `s` falls between two of its
/// characters (or at one of its ends).
pub open spec fn at_char_boundary(s: Seq<char>, b: int) -> bool {
    exists|k: int| 0 <= k <= s.len() && #[trigger] utf8_len(s.take(k)) == b
}

/// Longer prefixes have longer encodings.
proof fn lemma_utf8_len_strict(s: Seq<char>, j: int, k: int)
    requires
        0 <= j < k <= s.len(),
    ensures
        utf8_len(s.take(j)) < utf8_len(s.take(k)),
    decreases k - j,
{
    assert(s.take(k).drop_last() =~= s.take(k - 1));
    if j < k - 1 {
        lemma_utf8_len_strict(s, j, k - 1);
    }
}

/// How many characters of `s` the first `b` bytes of its encoding hold,
/// `b` being a character boundary.
pub open spec fn chars_before(s: Seq<char>, b: int) -> int {
    choose|k: int| 0 <= k <= s.len() && #[trigger] utf8_len(s.take(k)) == b
}

/// The characters making up the first `b` bytes of `s`.
pub open spec fn byte_take(s: Seq<char>, b: int) -> Seq<char> {
    s.take(chars_before(s, b))
}

/// The characters of `s` after its first `b` bytes.
pub open spec fn byte_skip(s: Seq<char>, b: int) -> Seq<char> {
    s.skip(chars_before(s, b))
}

/// The number of characters whose encoding takes the first `b` bytes of `s`.
fn chars_in_bytes(s: &str, b: usize) -> (k: usize)
    requires
        at_char_boundary(s@, b as int),
    ensures
        k <= s@.len(),
        k == chars_before(s@, b as int),
        utf8_len(s@.take(k as int)) == b,
{
    let cs = chars_of(s);
    let total = s.as_bytes().len();
    proof {
        lemma_str_len(s);
    }
    let mut n: usize = 0;
    let mut i: usize = 0;
    let len = cs.len();
    let ghost target = chars_before(s@, b as int);
    proof {
        assert(s@.take(0) =~= Seq::<char>::empty());
    }
    while n < b
        invariant
            cs@ == s@,
            len == s@.len(),
            i <= target <= s@.len(),
            utf8_len(s@.take(target)) == b,
            n == utf8_len(s@.take(i as int)),
            utf8_len(s@) <= usize::MAX,
        decreases target - i,
    {
        proof {
            if i == target {
                assert(false);
            }
            assert(s@.take(i + 1).drop_last() =~= s@.take(i as int));
            lemma_utf8_len_prefix(s@, i + 1);
        }
        let w = char_width(cs[i]);
        n = n + w;
        i = i + 1;
        proof {
            if i as int > target {
                lemma_utf8_len_strict(s@, target, i as int);
            }
        }
    }
    proof {
        if (i as int) < target {
            lemma_utf8_len_strict(s@, i as int, target);
        }
    }
    i
}

/// The first `b` bytes of `s`, which end on a character boundary.
pub fn byte_prefix(s: &str, b: usize) -> (r: &str)
    requires
        at_char_boundary(s@, b as int),
    ensures
        r@ == byte_take(s@, b as int),
        utf8_len(r@) == b,
{
    let k = chars_in_bytes(s, b);
    char_prefix(s, k)
}

/// `s` from byte `b` on, `b` being a character boundary.
pub fn byte_suffix(s: &str, b: usize) -> (r: &str)
    requires
        at_char_boundary(s@, b as int),
    ensures
        r@ == byte_skip(s@, b as int),
{
    let k = chars_in_bytes(s, b);
    char_suffix(s, k)
}

} // verus!
