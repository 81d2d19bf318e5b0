//! A model of an HTTP response header collection.
//!
//! The driver copies the response headers of each page fetch into this type,
//! so that the cursor resolution over them is ordinary verified code. Header
//! names are matched case-insensitively, as HTTP requires; values are kept as
//! raw bytes, since a header value need not be text.

use vstd::prelude::*;

verus! {

/// An ASCII upper-case byte folded to lower case; every other byte unchanged.
pub open spec fn lower_byte(b: u8) -> u8 {
    if 65 <= b && b <= 90 {
        (b + 32) as u8
    } else {
        b
    }
}

/// The bytes of the header name `link`.
pub open spec fn link_name() -> Seq<u8> {
    seq![108u8, 105u8, 110u8, 107u8]
}

/// Whether a header name is `link`, compared case-insensitively.
pub open spec fn is_link_name(name: Seq<u8>) -> bool {
    name.map_values(|b: u8| lower_byte(b)) == link_name()
}

/// The value of the first header named `link`, if any.
pub open spec fn link_value(hs: Seq<(Seq<u8>, Seq<u8>)>) -> Option<Seq<u8>>
    decreases hs.len(),
{
    if hs.len() == 0 {
        None
    } else if is_link_name(hs[0].0) {
        Some(hs[0].1)
    } else {
        link_value(hs.drop_first())
    }
}

/// A response header collection: named byte values, in arrival order.
pub struct Headers {
    entries: Vec<(Vec<u8>, Vec<u8>)>,
}

impl View for Headers {
    type V = Seq<(Seq<u8>, Seq<u8>)>;

    closed spec fn view(&self) -> Seq<(Seq<u8>, Seq<u8>)> {
        self.entries@.map_values(|e: (Vec<u8>, Vec<u8>)| (e.0@, e.1@))
    }
}

impl Headers {
    /// An empty header collection.
    pub fn new() -> (h: Headers)
        ensures
            h@ == Seq::<(Seq<u8>, Seq<u8>)>::empty(),
    {
        let h = Headers { entries: Vec::new() };
        proof {
            assert(h@ =~= Seq::<(Seq<u8>, Seq<u8>)>::empty());
        }
        h
    }

    /// Appends one header to the collection.
    pub fn push(&mut self, name: Vec<u8>, value: Vec<u8>)
        ensures
            final(self)@ == old(self)@.push((name@, value@)),
    {
        let ghost pre = self@;
        self.entries.push((name, value));
        proof {
            assert(self@ =~= pre.push((name@, value@)));
        }
    }

    /// The number of headers held.
    pub fn len(&self) -> (n: usize)
        ensures
            n == self@.len(),
    {
        self.entries.len()
    }

    /// The value of the first header named `link` (in any letter case),
    /// or nothing when the collection has none.
    pub fn link_header(&self) -> (r: Option<&Vec<u8>>)
        ensures
            (r is Some) == (link_value(self@) is Some),
            r matches Some(v) ==> link_value(self@) matches Some(s) && v@ == s,
    {
        let n = self.entries.len();
        let mut i: usize = 0;
        while i < n
            invariant
                0 <= i <= n,
                n == self.entries.len(),
                forall|k: int| 0 <= k < i ==> !is_link_name(self@[k].0),
            decreases n - i,
        {
            if name_is_link(&self.entries[i].0) {
                proof {
                    lemma_link_value_skip(self@, i as int);
                    assert(self@.skip(i as int)[0] == self@[i as int]);
                    assert(self@[i as int].0 == self.entries@[i as int].0@);
                }
                return Some(&self.entries[i].1);
            }
            proof {
                assert(self@[i as int].0 == self.entries@[i as int].0@);
            }
            i = i + 1;
        }
        proof {
            lemma_link_value_skip(self@, n as int);
            assert(self@.skip(n as int) =~= Seq::<(Seq<u8>, Seq<u8>)>::empty());
        }
        None
    }
}

/// When none of the first `i` headers is named `link`, the lookup over the
/// whole collection agrees with the lookup over the rest.
proof fn lemma_link_value_skip(hs: Seq<(Seq<u8>, Seq<u8>)>, i: int)
    requires
        0 <= i <= hs.len(),
        forall|k: int| 0 <= k < i ==> !is_link_name(hs[k].0),
    ensures
        link_value(hs) == link_value(hs.skip(i)),
    decreases i,
{
    if i > 0 {
        assert(!is_link_name(hs[0].0));
        lemma_link_value_skip(hs.drop_first(), i - 1);
        assert(hs.drop_first().skip(i - 1) =~= hs.skip(i));
    } else {
        assert(hs.skip(0) =~= hs);
    }
}

/// Law: a header collection without a `link` entry yields no link value.
pub proof fn lemma_no_link_entry_no_value(hs: Seq<(Seq<u8>, Seq<u8>)>)
    requires
        forall|k: int| 0 <= k < hs.len() ==> !is_link_name(hs[k].0),
    ensures
        link_value(hs) is None,
{
    lemma_link_value_skip(hs, hs.len() as int);
    assert(hs.skip(hs.len() as int) =~= Seq::<(Seq<u8>, Seq<u8>)>::empty());
}

/// An ASCII upper-case byte folded to lower case, executably.
fn lower_ascii(b: u8) -> (r: u8)
    ensures
        r == lower_byte(b),
{
    if 65 <= b && b <= 90 {
        b + 32
    } else {
        b
    }
}

/// Whether a header name is `link`, compared case-insensitively.
fn name_is_link(name: &Vec<u8>) -> (r: bool)
    ensures
        r == is_link_name(name@),
{
    let ghost folded = name@.map_values(|b: u8| lower_byte(b));
    proof {
        assert(folded.len() == name@.len());
    }
    if name.len() != 4 {
        proof {
            assert(link_name().len() == 4);
        }
        return false;
    }
    let m = lower_ascii(name[0]) == 108 && lower_ascii(name[1]) == 105 && lower_ascii(name[2])
        == 110 && lower_ascii(name[3]) == 107;
    proof {
        assert(folded[0] == lower_byte(name@[0]));
        assert(folded[1] == lower_byte(name@[1]));
        assert(folded[2] == lower_byte(name@[2]));
        assert(folded[3] == lower_byte(name@[3]));
        if m {
            assert(folded =~= link_name());
        } else {
            assert(folded != link_name());
        }
    }
    m
}

} // verus!
