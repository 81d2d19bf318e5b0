//! Fetching the open issues of one fixed GitHub repository: the pure logic.
//!
//! The library holds everything that can be decided without touching the
//! network: resolving the pagination cursor out of a response header
//! collection, filtering pull requests out of a page of issue records,
//! accumulating pages in order, and building the request URLs and header
//! values. A thin driver performs the HTTP calls and feeds the results back
//! in as plain values.

use vstd::prelude::*;

mod cursor;
mod headers;
mod issues;
mod reactions;
mod session;

pub use crate::cursor::contruct_new_url;
pub use crate::headers::Headers;
pub use crate::issues::{Issue, IssueFetcher, PageOutcome, filter_page, first_page_url, start_url};
pub use crate::reactions::{IssueReaction, User, reactions_url};
pub use crate::session::{Session, accept_media_type, user_agent};

verus! {

/// ASCII bytes read as the characters they stand for.
pub open spec fn ascii_seq(bytes: Seq<u8>) -> Seq<char> {
    bytes.map_values(|b: u8| b as char)
}

/// Relies on `String::from_utf8`: ASCII bytes are valid UTF-8 and decode to
/// exactly the characters they stand for, one character per byte.
#[verifier::external_body]
fn ascii_bytes_to_string(bytes: Vec<u8>) -> (r: String)
    requires
        forall|i: int| 0 <= i < bytes@.len() ==> bytes@[i] < 128,
    ensures
        r@ == ascii_seq(bytes@),
{
    match String::from_utf8(bytes) {
        Ok(s) => s,
        Err(_) => String::new(),
    }
}

} // verus!
