//! The content digest behind the cache key: MD5, computed by the `md5`
//! crate, written out in lower-case hexadecimal.

use vstd::prelude::*;
use vstd::string::*;

verus! {

/// The sixteen hexadecimal digits, in order of value.
pub const HEX_DIGITS: &'static str = "0123456789abcdef";

/// The MD5 digest of the UTF-8 bytes of `text`, as the `md5` crate computes
/// it.
pub uninterp spec fn md5_of(text: Seq<char>) -> Seq<u8>;

/// `md5::compute` on the bytes of `text`: the sixteen bytes of the digest.
#[verifier::external_body]
pub(crate) fn md5_compute(text: &String) -> (digest: [u8; 16])
    ensures
        digest@ == md5_of(text@),
{
    md5::compute(text).0
}

/// The digit that stands for `nibble`, a value below sixteen.
pub open spec fn hex_char(nibble: int) -> char
    recommends
        0 <= nibble < 16,
{
    HEX_DIGITS@[nibble]
}

/// The lower-case hexadecimal writing of `bytes`: two digits for each byte,
/// the high half first.
pub open spec fn hex_of(bytes: Seq<u8>) -> Seq<char> {
    Seq::new(
        2 * bytes.len(),
        |i: int|
            if i % 2 == 0 {
                hex_char(bytes[i / 2] as int / 16)
            } else {
                hex_char(bytes[i / 2] as int % 16)
            },
    )
}

/// The key that stands for `text` in the header partition.
pub open spec fn digest_of(text: Seq<char>) -> Seq<char> {
    hex_of(md5_of(text))
}

/// Writes a digest out in lower-case hexadecimal.
pub fn digest_key(digest: [u8; 16]) -> (key: String)
    ensures
        key@ == hex_of(digest@),
        key@.len() == 32,
{
    proof {
        reveal_strlit("0123456789abcdef");
    }
    let mut key = String::new();
    let mut i: usize = 0;
    while i < 16
        invariant
            0 <= i <= 16,
            HEX_DIGITS@.len() == 16,
            key@ == hex_of(digest@.take(i as int)),
        decreases 16 - i,
    {
        let byte: u8 = digest[i];
        let high: usize = (byte / 16) as usize;
        let low: usize = (byte % 16) as usize;
        key.append(HEX_DIGITS.substring_char(high, high + 1));
        key.append(HEX_DIGITS.substring_char(low, low + 1));
        proof {
            let before = digest@.take(i as int);
            let after = digest@.take(i as int + 1);
            assert(after == before.push(byte));
            assert(key@ =~= hex_of(after)) by {
                assert forall|j: int| 0 <= j < 2 * after.len() implies key@[j] == hex_of(after)[j] by {
                    if j < 2 * before.len() {
                        assert(key@[j] == hex_of(before)[j]);
                        assert(after[j / 2] == before[j / 2]);
                    } else if j == 2 * before.len() {
                        assert(key@[j] == HEX_DIGITS@[high as int]);
                        assert(j / 2 == i);
                    } else {
                        assert(key@[j] == HEX_DIGITS@[low as int]);
                        assert(j / 2 == i);
                    }
                }
            }
        }
        i = i + 1;
    }
    proof {
        assert(digest@.take(16) =~= digest@);
    }
    key
}

/// The key that stands for `text` in the header partition: the MD5 digest
/// of its bytes in lower-case hexadecimal.
pub fn digest_text(text: &String) -> (key: String)
    ensures
        key@ == digest_of(text@),
        key@.len() == 32,
{
    digest_key(md5_compute(text))
}

} // verus!
