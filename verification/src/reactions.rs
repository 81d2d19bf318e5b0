//! Reaction records and the reactions-endpoint URL.
//!
//! Each issue can carry reactions: a reaction-type label and the login of
//! the user who left it. The tracker serves them at an endpoint addressed
//! by the issue's number; building that URL is the only logic of the
//! reaction fetch, the call itself being the driver's work.

use vstd::prelude::*;
use vstd::string::StringExecFns;

use crate::ascii_bytes_to_string;
use crate::ascii_seq;

verus! {

/// The user who left a reaction.
#[derive(Debug)]
pub struct User {
    pub login: String,
}

/// One reaction on an issue: its label and who left it.
#[derive(Debug)]
pub struct IssueReaction {
    pub content: String,
    pub user: User,
}

/// The character of one decimal digit.
pub open spec fn digit_char(d: nat) -> char {
    ((48 + d) as u8) as char
}

/// A number written in decimal digits, most significant first.
pub open spec fn dec_digits(n: nat) -> Seq<char>
    decreases n,
{
    if n < 10 {
        seq![digit_char(n)]
    } else {
        dec_digits(n / 10).push(digit_char(n % 10))
    }
}

/// The URL of the reactions endpoint for one issue of the fixed repository.
pub open spec fn reactions_url_spec(issue_number: nat) -> Seq<char> {
    "https://api.github.com/repos/araeies/password-gen/issues/"@ + dec_digits(issue_number)
        + "/reactions"@
}

/// A number written in decimal digits, as ASCII bytes.
fn dec_digit_bytes(n: usize) -> (r: Vec<u8>)
    ensures
        ascii_seq(r@) == dec_digits(n as nat),
        forall|i: int| 0 <= i < r@.len() ==> r@[i] < 128,
    decreases n,
{
    if n < 10 {
        let mut v: Vec<u8> = Vec::new();
        v.push(48 + n as u8);
        proof {
            assert(ascii_seq(v@) =~= dec_digits(n as nat));
        }
        v
    } else {
        let mut v = dec_digit_bytes(n / 10);
        v.push(48 + (n % 10) as u8);
        proof {
            assert(ascii_seq(v@) =~= dec_digits(n as nat));
        }
        v
    }
}

/// The URL of the reactions endpoint for one issue of the fixed repository.
pub fn reactions_url(issue_number: usize) -> (r: String)
    ensures
        r@ == reactions_url_spec(issue_number as nat),
{
    let digits = ascii_bytes_to_string(dec_digit_bytes(issue_number));
    let base = String::from_str("https://api.github.com/repos/araeies/password-gen/issues/");
    base.concat(digits.as_str()).concat("/reactions")
}

} // verus!
