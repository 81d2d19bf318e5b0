//! Resolving the pagination cursor out of a response header collection.
//!
//! The tracker announces the next page of a paged result in a `link` header,
//! following the `rel="next"` convention. The resolver looks that header up,
//! decodes it as text, checks that the literal marker `rel="next"` occurs
//! anywhere in it, and then takes the first `;`-delimited segment, stripped
//! of leading `<` and trailing `>`, as the next-page URL. Taking the first
//! segment regardless of which relation it belongs to is a deliberate,
//! documented fragility of this resolver: a header that lists another
//! relation first is misread, and the behaviour is kept as documented.

use vstd::prelude::*;

use crate::ascii_bytes_to_string;
use crate::ascii_seq;
use crate::headers::Headers;
use crate::headers::is_link_name;
use crate::headers::link_value;

verus! {

/// Whether a byte may appear in a header value read as text:
/// horizontal tab, space, or a visible ASCII character.
pub open spec fn is_visible_byte(b: u8) -> bool {
    b == 9 || (32 <= b && b < 127)
}

/// Whether a whole header value decodes as text.
pub open spec fn header_text_ok(v: Seq<u8>) -> bool {
    forall|i: int| 0 <= i < v.len() ==> is_visible_byte(v[i])
}

/// The bytes of the literal marker `rel="next"`.
pub open spec fn rel_next_marker() -> Seq<u8> {
    seq![114u8, 101u8, 108u8, 61u8, 34u8, 110u8, 101u8, 120u8, 116u8, 34u8]
}

/// Whether `needle` occurs contiguously anywhere in `hay`.
pub open spec fn contains_subseq(hay: Seq<u8>, needle: Seq<u8>) -> bool {
    exists|i: int|
        0 <= i && i + needle.len() <= hay.len() && #[trigger] hay.subrange(i, i + needle.len())
            == needle
}

/// How many bytes precede the first `;` (the whole length when none occurs).
pub open spec fn first_segment_len(v: Seq<u8>) -> int
    decreases v.len(),
{
    if v.len() == 0 {
        0
    } else if v[0] == 59 {
        0
    } else {
        1 + first_segment_len(v.drop_first())
    }
}

/// The bytes before the first `;`.
pub open spec fn first_segment(v: Seq<u8>) -> Seq<u8> {
    v.take(first_segment_len(v))
}

/// The value without its leading `<` bytes.
pub open spec fn trim_lt(v: Seq<u8>) -> Seq<u8>
    decreases v.len(),
{
    if v.len() > 0 && v[0] == 60 {
        trim_lt(v.drop_first())
    } else {
        v
    }
}

/// The value without its trailing `>` bytes.
pub open spec fn trim_gt(v: Seq<u8>) -> Seq<u8>
    decreases v.len(),
{
    if v.len() > 0 && v[v.len() - 1] == 62 {
        trim_gt(v.drop_last())
    } else {
        v
    }
}

/// The next-page URL announced by a header collection, as bytes:
/// nothing without a `link` header, a value that is not text, or a value
/// without the `rel="next"` marker; otherwise the first `;`-delimited
/// segment, stripped of leading `<` and trailing `>`.
pub open spec fn next_url_bytes(hs: Seq<(Seq<u8>, Seq<u8>)>) -> Option<Seq<u8>> {
    match link_value(hs) {
        None => None,
        Some(v) => if !header_text_ok(v) {
            None
        } else if !contains_subseq(v, rel_next_marker()) {
            None
        } else {
            Some(trim_gt(trim_lt(first_segment(v))))
        },
    }
}

/// Law: a header collection without a `link` entry announces no next page.
pub proof fn lemma_no_link_entry_no_next(hs: Seq<(Seq<u8>, Seq<u8>)>)
    requires
        forall|k: int| 0 <= k < hs.len() ==> !is_link_name(hs[k].0),
    ensures
        next_url_bytes(hs) is None,
{
    crate::headers::lemma_no_link_entry_no_value(hs);
}

/// Whether a header value decodes as text.
fn text_ok(v: &Vec<u8>) -> (r: bool)
    ensures
        r == header_text_ok(v@),
{
    let n = v.len();
    let mut i: usize = 0;
    while i < n
        invariant
            0 <= i <= n,
            n == v@.len(),
            forall|k: int| 0 <= k < i ==> is_visible_byte(v@[k]),
        decreases n - i,
    {
        let b = v[i];
        if !(b == 9 || (32 <= b && b < 127)) {
            return false;
        }
        i = i + 1;
    }
    true
}

/// Whether the literal marker `rel="next"` occurs anywhere in the value.
fn contains_rel_next(v: &Vec<u8>) -> (r: bool)
    ensures
        r == contains_subseq(v@, rel_next_marker()),
{
    let n = v.len();
    if n < 10 {
        proof {
            assert(rel_next_marker().len() == 10);
        }
        return false;
    }
    let mut i: usize = 0;
    while i <= n - 10
        invariant
            0 <= i <= n - 9,
            n == v@.len(),
            10 <= n,
            forall|k: int|
                0 <= k < i ==> #[trigger] v@.subrange(k, k + rel_next_marker().len() as int)
                    != rel_next_marker(),
        decreases n - i,
    {
        let m = v[i] == 114 && v[i + 1] == 101 && v[i + 2] == 108 && v[i + 3] == 61 && v[i + 4]
            == 34 && v[i + 5] == 110 && v[i + 6] == 101 && v[i + 7] == 120 && v[i + 8] == 116
            && v[i + 9] == 34;
        proof {
            let s = v@.subrange(i as int, i as int + 10);
            assert(forall|j: int| 0 <= j < 10 ==> s[j] == v@[i + j]);
            if m {
                assert(s =~= rel_next_marker());
                assert(contains_subseq(v@, rel_next_marker()));
            } else {
                if s == rel_next_marker() {
                    assert(s[0] == 114 && s[1] == 101 && s[2] == 108 && s[3] == 61 && s[4] == 34
                        && s[5] == 110 && s[6] == 101 && s[7] == 120 && s[8] == 116 && s[9] == 34);
                    assert(m);
                }
            }
        }
        if m {
            return true;
        }
        i = i + 1;
    }
    proof {
        if contains_subseq(v@, rel_next_marker()) {
            let w = choose|w: int|
                0 <= w && w + rel_next_marker().len() <= v@.len() && #[trigger] v@.subrange(
                    w,
                    w + rel_next_marker().len() as int,
                ) == rel_next_marker();
            assert(v@.subrange(w, w + rel_next_marker().len() as int) != rel_next_marker());
        }
    }
    false
}

/// When the first `j` bytes are not `;` and the value ends or holds `;` at
/// `j`, the first segment is exactly `j` bytes long.
proof fn lemma_first_segment_len(v: Seq<u8>, j: int)
    requires
        0 <= j <= v.len(),
        forall|k: int| 0 <= k < j ==> v[k] != 59,
        j == v.len() || v[j] == 59,
    ensures
        first_segment_len(v) == j,
    decreases j,
{
    if j > 0 {
        assert(v[0] != 59);
        let rest = v.drop_first();
        assert(forall|k: int| 0 <= k < j - 1 ==> rest[k] == v[k + 1] && rest[k] != 59);
        assert(j - 1 == rest.len() || rest[j - 1] == 59);
        lemma_first_segment_len(rest, j - 1);
    }
}

/// When the first `s` bytes are `<` and the value ends or holds another byte
/// at `s`, trimming the lead drops exactly `s` bytes.
proof fn lemma_trim_lt(v: Seq<u8>, s: int)
    requires
        0 <= s <= v.len(),
        forall|k: int| 0 <= k < s ==> v[k] == 60,
        s == v.len() || v[s] != 60,
    ensures
        trim_lt(v) == v.skip(s),
    decreases s,
{
    if s > 0 {
        let rest = v.drop_first();
        assert(forall|k: int| 0 <= k < s - 1 ==> rest[k] == v[k + 1] && rest[k] == 60);
        assert(s - 1 == rest.len() || rest[s - 1] != 60);
        lemma_trim_lt(rest, s - 1);
        assert(rest.skip(s - 1) =~= v.skip(s));
    } else {
        assert(v.skip(0) =~= v);
    }
}

/// When the bytes from `t` on are `>` and the value starts or holds another
/// byte at `t - 1`, trimming the tail keeps exactly `t` bytes.
proof fn lemma_trim_gt(v: Seq<u8>, t: int)
    requires
        0 <= t <= v.len(),
        forall|k: int| t <= k < v.len() ==> v[k] == 62,
        t == 0 || v[t - 1] != 62,
    ensures
        trim_gt(v) == v.take(t),
    decreases v.len() - t,
{
    if t < v.len() {
        let rest = v.drop_last();
        assert(v[v.len() - 1] == 62);
        assert(forall|k: int| t <= k < rest.len() ==> rest[k] == v[k] && rest[k] == 62);
        lemma_trim_gt(rest, t);
        assert(rest.take(t) =~= v.take(t));
    } else {
        assert(v.take(v.len() as int) =~= v);
    }
}

/// The first `;`-delimited segment of the value, stripped of leading `<`
/// and trailing `>` bytes.
fn extract_url_bytes(v: &Vec<u8>) -> (r: Vec<u8>)
    ensures
        r@ == trim_gt(trim_lt(first_segment(v@))),
        header_text_ok(v@) ==> forall|i: int| 0 <= i < r@.len() ==> r@[i] < 128,
{
    let n = v.len();
    let mut j: usize = 0;
    while j < n && v[j] != 59
        invariant
            0 <= j <= n,
            n == v@.len(),
            forall|k: int| 0 <= k < j ==> v@[k] != 59,
        decreases n - j,
    {
        j = j + 1;
    }
    proof {
        lemma_first_segment_len(v@, j as int);
    }
    let ghost seg = first_segment(v@);
    proof {
        assert(seg =~= v@.subrange(0, j as int));
    }
    let mut s: usize = 0;
    while s < j && v[s] == 60
        invariant
            0 <= s <= j <= n,
            n == v@.len(),
            forall|k: int| 0 <= k < s ==> v@[k] == 60,
        decreases j - s,
    {
        s = s + 1;
    }
    proof {
        assert(forall|k: int| 0 <= k < seg.len() ==> seg[k] == v@[k]);
        lemma_trim_lt(seg, s as int);
    }
    let ghost led = trim_lt(seg);
    proof {
        assert(led =~= v@.subrange(s as int, j as int));
    }
    let mut t: usize = j;
    while t > s && v[t - 1] == 62
        invariant
            s <= t <= j <= n,
            n == v@.len(),
            forall|k: int| t <= k < j ==> v@[k] == 62,
        decreases t,
    {
        t = t - 1;
    }
    proof {
        assert(forall|k: int| 0 <= k < led.len() ==> led[k] == v@[s + k]);
        lemma_trim_gt(led, t - s);
        assert(trim_gt(led) =~= v@.subrange(s as int, t as int));
    }
    let mut r: Vec<u8> = Vec::new();
    let mut k: usize = s;
    while k < t
        invariant
            s <= k <= t <= n,
            n == v@.len(),
            r@ =~= v@.subrange(s as int, k as int),
        decreases t - k,
    {
        r.push(v[k]);
        k = k + 1;
    }
    proof {
        assert(r@ =~= trim_gt(trim_lt(first_segment(v@))));
        if header_text_ok(v@) {
            assert(forall|i: int| 0 <= i < r@.len() ==> r@[i] == v@[s + i] && is_visible_byte(
                v@[s + i],
            ));
        }
    }
    r
}

/// The next-page URL announced by a header collection, or nothing when the
/// collection announces none: no `link` header, a value that is not text, or
/// a value without the `rel="next"` marker.
pub fn contruct_new_url(headers: &Headers) -> (r: Option<String>)
    ensures
        (r is Some) == (next_url_bytes(headers@) is Some),
        r matches Some(url) ==> next_url_bytes(headers@) matches Some(b) && url@ == ascii_seq(b),
{
    match headers.link_header() {
        None => None,
        Some(v) => {
            if !text_ok(v) {
                None
            } else if !contains_rel_next(v) {
                None
            } else {
                let bytes = extract_url_bytes(v);
                Some(ascii_bytes_to_string(bytes))
            }
        },
    }
}

} // verus!
