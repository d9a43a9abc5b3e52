//! The hyphenated text form of a UUID: 32 lower-case hexadecimal digits in
//! groups of 8, 4, 4, 4 and 12, separated by hyphens, as in
//! `67e55044-10b1-426f-9247-bb680e5fe0c8`.

use crate::id::Uuid;
use crate::outside::{is_random_version, string_push};
use vstd::prelude::*;

verus! {

/// The lower-case hexadecimal digit of a value below 16.
pub open spec fn hex_char(v: int) -> char {
    if v < 10 {
        (v + 48) as char
    } else {
        (v + 87) as char
    }
}

/// A hyphen stands before the bytes 4, 6, 8 and 10.
pub open spec fn starts_group(i: int) -> bool {
    i == 4 || i == 6 || i == 8 || i == 10
}

/// The text of the first `n` bytes: each byte as two digits, high nibble
/// first, with a hyphen before each byte that starts a group.
pub open spec fn hyphenated_prefix(bytes: Seq<u8>, n: nat) -> Seq<char>
    decreases n,
{
    if n == 0 {
        seq![]
    } else {
        let i = n - 1;
        hyphenated_prefix(bytes, (n - 1) as nat) + (if starts_group(i) {
            seq!['-']
        } else {
            seq![]
        }) + seq![hex_char(bytes[i] as int / 16), hex_char(bytes[i] as int % 16)]
    }
}

/// The hyphenated text of a UUID's 16 bytes.
pub open spec fn hyphenated(bytes: Seq<u8>) -> Seq<char> {
    hyphenated_prefix(bytes, 16)
}

/// The number of hyphens before the bytes `0..n`.
pub open spec fn hyphens_before(n: int) -> int {
    (if n > 4 { 1int } else { 0int }) + (if n > 6 { 1int } else { 0int }) + (if n > 8 {
        1int
    } else {
        0int
    }) + (if n > 10 { 1int } else { 0int })
}

/// Where the two digits of byte `i` stand in the text.
pub open spec fn byte_offset(i: int) -> int {
    2 * i + hyphens_before(i + 1)
}

proof fn lemma_hex_char_injective(v: int, w: int)
    requires
        0 <= v < 16,
        0 <= w < 16,
        hex_char(v) == hex_char(w),
    ensures
        v == w,
{
    assert((hex_char(v) as int) == (if v < 10 { v + 48 } else { v + 87 }));
    assert((hex_char(w) as int) == (if w < 10 { w + 48 } else { w + 87 }));
}

/// The length of the text of the first `n` bytes.
proof fn lemma_prefix_len(bytes: Seq<u8>, n: nat)
    ensures
        hyphenated_prefix(bytes, n).len() == 2 * n + hyphens_before(n as int),
    decreases n,
{
    if n > 0 {
        lemma_prefix_len(bytes, (n - 1) as nat);
    }
}

/// Where the digits of byte `i`, and the hyphen before it, stand in the
/// text of the first `n` bytes.
proof fn lemma_prefix_at(bytes: Seq<u8>, n: nat, i: int)
    requires
        0 <= i < n,
    ensures
        hyphenated_prefix(bytes, n)[byte_offset(i)] == hex_char(bytes[i] as int / 16),
        hyphenated_prefix(bytes, n)[byte_offset(i) + 1] == hex_char(bytes[i] as int % 16),
        starts_group(i) ==> hyphenated_prefix(bytes, n)[byte_offset(i) - 1] == '-',
    decreases n,
{
    lemma_prefix_len(bytes, n);
    lemma_prefix_len(bytes, (n - 1) as nat);
    if i < n - 1 {
        lemma_prefix_at(bytes, (n - 1) as nat, i);
        lemma_prefix_len(bytes, (i + 1) as nat);
    }
}

/// The text of a UUID is 36 characters long, with hyphens at 8, 13, 18 and
/// 23, and each byte's two digits, high nibble first, at its offset.
pub proof fn lemma_hyphenated_shape(bytes: Seq<u8>)
    requires
        bytes.len() == 16,
    ensures
        hyphenated(bytes).len() == 36,
        hyphenated(bytes)[8] == '-',
        hyphenated(bytes)[13] == '-',
        hyphenated(bytes)[18] == '-',
        hyphenated(bytes)[23] == '-',
        forall|i: int|
            0 <= i < 16 ==> {
                &&& #[trigger] hyphenated(bytes)[byte_offset(i)] == hex_char(bytes[i] as int / 16)
                &&& hyphenated(bytes)[byte_offset(i) + 1] == hex_char(bytes[i] as int % 16)
            },
{
    lemma_prefix_len(bytes, 16);
    lemma_prefix_at(bytes, 16, 4);
    lemma_prefix_at(bytes, 16, 6);
    lemma_prefix_at(bytes, 16, 8);
    lemma_prefix_at(bytes, 16, 10);
    assert forall|i: int| 0 <= i < 16 implies {
        &&& #[trigger] hyphenated(bytes)[byte_offset(i)] == hex_char(bytes[i] as int / 16)
        &&& hyphenated(bytes)[byte_offset(i) + 1] == hex_char(bytes[i] as int % 16)
    } by {
        lemma_prefix_at(bytes, 16, i);
    }
}

/// Two UUIDs with the same text are the same UUID: the text names the
/// identifier exactly.
pub proof fn lemma_hyphenated_injective(a: Seq<u8>, b: Seq<u8>)
    requires
        a.len() == 16,
        b.len() == 16,
        hyphenated(a) == hyphenated(b),
    ensures
        a == b,
{
    lemma_hyphenated_shape(a);
    lemma_hyphenated_shape(b);
    assert forall|i: int| 0 <= i < 16 implies a[i] == b[i] by {
        lemma_prefix_at(a, 16, i);
        lemma_prefix_at(b, 16, i);
        lemma_hex_char_injective(a[i] as int / 16, b[i] as int / 16);
        lemma_hex_char_injective(a[i] as int % 16, b[i] as int % 16);
    }
    assert(a =~= b);
}

/// In the text of a random (version 4) UUID the version digit, at 14, is
/// `4`, and the variant digit, at 19, is one of `8`, `9`, `a`, `b`.
pub proof fn lemma_random_version_text(bytes: Seq<u8>)
    requires
        is_random_version(bytes),
    ensures
        hyphenated(bytes)[14] == '4',
        hyphenated(bytes)[19] == '8' || hyphenated(bytes)[19] == '9' || hyphenated(bytes)[19]
            == 'a' || hyphenated(bytes)[19] == 'b',
{
    lemma_prefix_at(bytes, 16, 6);
    lemma_prefix_at(bytes, 16, 8);
    assert(8 <= bytes[8] / 16 < 12);
}

/// `a` comes before `b` in lexicographic order of bytes (for sequences of
/// one length, as UUIDs are).
pub open spec fn bytes_before(a: Seq<u8>, b: Seq<u8>) -> bool {
    exists|k: int|
        0 <= k < a.len() && k < b.len() && a.take(k) == b.take(k) && #[trigger] a[k] < b[k]
}

/// `s` comes before `t` in lexicographic order of characters (for texts of
/// one length, as UUID texts are).
pub open spec fn text_before(s: Seq<char>, t: Seq<char>) -> bool {
    exists|k: int|
        0 <= k < s.len() && k < t.len() && s.take(k) == t.take(k) && (#[trigger] s[k] as int) < (
        t[k] as int)
}

/// The positions of the hyphens in the text.
pub open spec fn is_hyphen_at(q: int) -> bool {
    q == 8 || q == 13 || q == 18 || q == 23
}

/// The byte whose digit stands at position `q` of the text (not a hyphen).
pub open spec fn byte_at(q: int) -> int {
    if q < 8 {
        q / 2
    } else if q < 13 {
        (q - 1) / 2
    } else if q < 18 {
        (q - 2) / 2
    } else if q < 23 {
        (q - 3) / 2
    } else {
        (q - 4) / 2
    }
}

proof fn lemma_hex_char_monotone(v: int, w: int)
    requires
        0 <= v < w < 16,
    ensures
        (hex_char(v) as int) < (hex_char(w) as int),
{
    assert((hex_char(v) as int) == (if v < 10 { v + 48 } else { v + 87 }));
    assert((hex_char(w) as int) == (if w < 10 { w + 48 } else { w + 87 }));
}

/// What stands at each position of the text: a hyphen, or the high or the
/// low digit of byte `byte_at(q)`.
proof fn lemma_char_at(x: Seq<u8>, q: int)
    requires
        x.len() == 16,
        0 <= q < 36,
    ensures
        hyphenated(x).len() == 36,
        is_hyphen_at(q) ==> hyphenated(x)[q] == '-',
        !is_hyphen_at(q) ==> 0 <= byte_at(q) < 16 && (q == byte_offset(byte_at(q)) || q
            == byte_offset(byte_at(q)) + 1),
        !is_hyphen_at(q) && q == byte_offset(byte_at(q)) ==> hyphenated(x)[q] == hex_char(
            x[byte_at(q)] as int / 16,
        ),
        !is_hyphen_at(q) && q == byte_offset(byte_at(q)) + 1 ==> hyphenated(x)[q] == hex_char(
            x[byte_at(q)] as int % 16,
        ),
{
    lemma_hyphenated_shape(x);
    if !is_hyphen_at(q) {
        lemma_prefix_at(x, 16, byte_at(q));
    }
}

/// Texts of UUIDs agree before the digits of byte `k` when the UUIDs agree
/// on their first `k` bytes.
proof fn lemma_text_agrees_before(a: Seq<u8>, b: Seq<u8>, k: int)
    requires
        a.len() == 16,
        b.len() == 16,
        0 <= k < 16,
        a.take(k) == b.take(k),
    ensures
        hyphenated(a).take(byte_offset(k)) == hyphenated(b).take(byte_offset(k)),
{
    assert forall|q: int| 0 <= q < byte_offset(k) implies hyphenated(a)[q] == hyphenated(b)[q] by {
        lemma_char_at(a, q);
        lemma_char_at(b, q);
        if !is_hyphen_at(q) {
            let j = byte_at(q);
            assert(j < k) by {
                if j >= k {
                    assert(byte_offset(j) >= byte_offset(k));
                }
            }
            assert(0 <= j);
            assert(a.take(k)[j] == a[j]);
            assert(b.take(k)[j] == b[j]);
            assert(a.take(k)[j] == b.take(k)[j]);
        }
    }
    lemma_hyphenated_shape(a);
    lemma_hyphenated_shape(b);
    assert(hyphenated(a).take(byte_offset(k)) =~= hyphenated(b).take(byte_offset(k)));
}

/// Texts order as the UUIDs' bytes do: one UUID's text comes before
/// another's exactly when its bytes do.
pub proof fn lemma_text_order(a: Seq<u8>, b: Seq<u8>)
    requires
        a.len() == 16,
        b.len() == 16,
    ensures
        bytes_before(a, b) <==> text_before(hyphenated(a), hyphenated(b)),
{
    let s = hyphenated(a);
    let t = hyphenated(b);
    lemma_hyphenated_shape(a);
    lemma_hyphenated_shape(b);
    if bytes_before(a, b) {
        let k = choose|k: int|
            0 <= k < a.len() && k < b.len() && a.take(k) == b.take(k) && #[trigger] a[k] < b[k];
        lemma_text_agrees_before(a, b, k);
        lemma_prefix_at(a, 16, k);
        lemma_prefix_at(b, 16, k);
        let p = byte_offset(k);
        if a[k] as int / 16 < b[k] as int / 16 {
            lemma_hex_char_monotone(a[k] as int / 16, b[k] as int / 16);
            assert(s.take(p) == t.take(p) && (s[p] as int) < (t[p] as int));
        } else {
            assert(a[k] as int / 16 == b[k] as int / 16);
            lemma_hex_char_monotone(a[k] as int % 16, b[k] as int % 16);
            assert(s.take(p + 1) =~= t.take(p + 1)) by {
                assert(s.take(p) == t.take(p));
                assert forall|q: int| 0 <= q < p + 1 implies s[q] == t[q] by {
                    if q < p {
                        assert(s.take(p)[q] == t.take(p)[q]);
                    }
                }
            }
            assert((s[p + 1] as int) < (t[p + 1] as int));
        }
    }
    if text_before(s, t) {
        let p = choose|p: int|
            0 <= p < s.len() && p < t.len() && s.take(p) == t.take(p) && (#[trigger] s[p] as int)
                < (t[p] as int);
        lemma_char_at(a, p);
        lemma_char_at(b, p);
        let k = byte_at(p);
        assert forall|j: int| 0 <= j < k implies a[j] == b[j] by {
            lemma_prefix_at(a, 16, j);
            lemma_prefix_at(b, 16, j);
            assert(byte_offset(j) + 1 < p);
            assert(s.take(p)[byte_offset(j)] == t.take(p)[byte_offset(j)]);
            assert(s.take(p)[byte_offset(j) + 1] == t.take(p)[byte_offset(j) + 1]);
            lemma_hex_char_injective(a[j] as int / 16, b[j] as int / 16);
            lemma_hex_char_injective(a[j] as int % 16, b[j] as int % 16);
        }
        assert(a.take(k) =~= b.take(k));
        if p == byte_offset(k) {
            if a[k] as int / 16 >= b[k] as int / 16 {
                if a[k] as int / 16 > b[k] as int / 16 {
                    lemma_hex_char_monotone(b[k] as int / 16, a[k] as int / 16);
                }
            }
            assert(a[k] < b[k]);
        } else {
            lemma_prefix_at(a, 16, k);
            lemma_prefix_at(b, 16, k);
            assert(s.take(p)[byte_offset(k)] == t.take(p)[byte_offset(k)]);
            lemma_hex_char_injective(a[k] as int / 16, b[k] as int / 16);
            if a[k] as int % 16 > b[k] as int % 16 {
                lemma_hex_char_monotone(b[k] as int % 16, a[k] as int % 16);
            }
            assert(a[k] < b[k]);
        }
        assert(bytes_before(a, b));
    }
}

/// The hexadecimal digit of a value below 16.
fn hex_digit(v: u8) -> (c: char)
    requires
        v < 16,
    ensures
        c == hex_char(v as int),
{
    if v < 10 {
        (v + 48) as char
    } else {
        (v + 87) as char
    }
}

impl Uuid {
    /// The hyphenated lower-case text of the UUID, such as
    /// `936da01f-9abd-4d9d-80c7-02af85c822a8`.
    pub fn to_string(&self) -> (s: String)
        ensures
            s@ == hyphenated(self@),
    {
        let mut s = String::new();
        let mut i: usize = 0;
        while i < 16
            invariant
                i <= 16,
                self@.len() == 16,
                s@ == hyphenated_prefix(self@, i as nat),
            decreases 16 - i,
        {
            proof {
                lemma_prefix_len(self@, i as nat);
            }
            if i == 4 || i == 6 || i == 8 || i == 10 {
                string_push(&mut s, '-');
            }
            let b: u8 = self.0[i];
            string_push(&mut s, hex_digit(b / 16));
            string_push(&mut s, hex_digit(b % 16));
            i = i + 1;
        }
        s
    }
}

} // verus!
