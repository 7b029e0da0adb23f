//! Size text and the binary-content test.

use vstd::prelude::*;
use crate::render::decimal_of;

verus! {

/// How many leading bytes of a file the binary test looks at.
pub const SNIFF_LEN: usize = 1024;

/// What `humansize::format_size` returns for a size, with decimal units.
pub uninterp spec fn decimal_size_text(size: u64) -> Seq<char>;

/// A size in bytes as text with decimal units ("1 MB").
///
/// Relies on `humansize::format_size` with `humansize::DECIMAL`: its text
/// depends on the size alone, and below 1000 it is the number of bytes with no
/// decimals followed by " B".
#[verifier::external_body]
pub fn format_size(size: u64) -> (r: String)
    ensures
        r@ == decimal_size_text(size),
        size < 1000 ==> r@ == decimal_of(size as nat) + " B"@,
{
    humansize::format_size(size, humansize::DECIMAL)
}

/// A zero byte stands among the first `SNIFF_LEN` bytes.
pub open spec fn zero_in_sniff(b: Seq<u8>) -> bool {
    exists|i: int| 0 <= i < b.len() && i < SNIFF_LEN && #[trigger] b[i] == 0u8
}

/// Whether a file counts as binary, given its first bytes (`None` where the
/// file could not be opened or read): it does where they could not be read, or
/// where a zero byte stands among the first `SNIFF_LEN` of them.
pub fn is_binary(head: Option<&[u8]>) -> (r: bool)
    ensures
        head.is_none() ==> r,
        head.is_some() ==> r == zero_in_sniff(head.unwrap()@),
{
    let b: &[u8] = match head {
        None => {
            return true;
        },
        Some(b) => b,
    };
    assert(head.unwrap()@ == b@);
    let mut i: usize = 0;
    while i < b.len() && i < SNIFF_LEN
        invariant
            i <= b@.len(),
            i <= SNIFF_LEN,
            head.unwrap()@ == b@,
            forall|k: int| 0 <= k < i ==> b@[k] != 0,
        decreases b@.len() - i,
    {
        if b[i] == 0 {
            assert(b@[i as int] == 0u8);
            return true;
        }
        i = i + 1;
    }
    false
}

} // verus!
