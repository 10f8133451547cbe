//! Banners: the first bytes that a service sends unprompted after a
//! connection is made, read within a short deadline of their own and turned
//! into text.

use crate::outcome::ReadOutcome;
use crate::service::string_of;
use crate::text::{trim_end, trimmed_end};
use vstd::prelude::*;
use vstd::slice::slice_subrange;
use vstd::utf8::{decode_utf8, valid_utf8};

verus! {

/// The most bytes of a banner that are looked at.
pub const BANNER_CAPACITY: usize = 4096;

/// The deadline for reading a banner, in milliseconds. It runs apart from the
/// deadline of the connection attempt.
pub const BANNER_TIMEOUT_MS: u64 = 1200;

/// The text that `String::from_utf8_lossy` makes of `bytes`: their decoding as
/// UTF-8, with U+FFFD in place of each sequence that is not valid.
pub uninterp spec fn utf8_lossy(bytes: Seq<u8>) -> Seq<char>;

/// The part of what a read returned that counts as the banner: no more than
/// `BANNER_CAPACITY` bytes from the front.
pub open spec fn banner_bytes(bytes: Seq<u8>) -> Seq<u8> {
    if bytes.len() > BANNER_CAPACITY {
        bytes.take(BANNER_CAPACITY as int)
    } else {
        bytes
    }
}

/// The banner that the outcome of a read amounts to: the bytes that arrived,
/// as text without trailing white space; nothing where no byte arrived, the
/// read failed or its deadline passed.
pub open spec fn banner_text(read: ReadOutcome) -> Option<Seq<char>> {
    match read {
        ReadOutcome::Data(bytes) => if bytes@.len() == 0 {
            None
        } else {
            Some(trim_end(utf8_lossy(banner_bytes(bytes@))))
        },
        ReadOutcome::Failed => None,
        ReadOutcome::TimedOut => None,
    }
}

/// Calls `String::from_utf8_lossy`. The contract names its result, and claims
/// of it what the function's documentation says of well-formed input: bytes
/// that are valid UTF-8 come out as the text they encode.
#[verifier::external_body]
fn decode_lossy(bytes: &[u8]) -> (text: String)
    ensures
        text@ == utf8_lossy(bytes@),
        valid_utf8(bytes@) ==> text@ == decode_utf8(bytes@),
{
    String::from_utf8_lossy(bytes).into_owned()
}

/// The banner that the outcome of a read amounts to. A read that failed, ran
/// out of time or returned nothing gives no banner; it is never an error.
pub fn grab_banner(read: &ReadOutcome) -> (banner: Option<String>)
    ensures
        string_of(banner) == banner_text(*read),
        banner matches Some(text) ==> read matches ReadOutcome::Data(bytes) && (valid_utf8(
            banner_bytes(bytes@),
        ) ==> text@ == trim_end(decode_utf8(banner_bytes(bytes@)))),
{
    match read {
        ReadOutcome::Data(bytes) => {
            if bytes.len() == 0 {
                return None;
            }
            let kept: usize = if bytes.len() > BANNER_CAPACITY {
                BANNER_CAPACITY
            } else {
                bytes.len()
            };
            let front = slice_subrange(bytes.as_slice(), 0, kept);
            assert(front@ == banner_bytes(bytes@));
            Some(trimmed_end(decode_lossy(front)))
        },
        ReadOutcome::Failed => None,
        ReadOutcome::TimedOut => None,
    }
}

} // verus!
