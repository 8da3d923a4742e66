//! A lending market: the top-level record that groups reserves and
//! obligations under one owner, authority and quote currency.

use vstd::prelude::*;

use vstd::utf8::{
    is_leading_byte_width_1, is_leading_byte_width_2, is_leading_byte_width_3,
    is_leading_byte_width_4, valid_first_scalar, valid_utf8,
};

use crate::keys::Pubkey;

verus! {

/// One lending protocol instance: who controls it, the derived authority
/// that owns its vaults and mints, and the quote currency all values are
/// expressed in.
#[derive(Clone, Copy, Debug)]
pub struct LendingMarket {
    /// Account allowed to add reserves and hand over ownership.
    pub owner: Pubkey,
    /// Derived authority that signs for the market's vaults and mints.
    pub authority: Pubkey,
    /// Derivation bump of `authority`.
    pub authority_bump: u8,
    /// Record-format version.
    pub version: u64,
    /// Derivation bump of the market account itself.
    pub bump_seed: u8,
    /// Quote currency identifier: an ASCII name or an opaque 32-byte id.
    pub quote_currency: [u8; 32],
    /// Token program all the market's vaults belong to.
    pub token_program_id: Pubkey,
}

/// True for the ASCII digits and letters.
pub open spec fn is_ascii_alphanumeric(byte: u8) -> bool {
    ||| 0x30 <= byte <= 0x39
    ||| 0x41 <= byte <= 0x5a
    ||| 0x61 <= byte <= 0x7a
}

/// Length of `bytes` once trailing zero bytes are dropped.
pub open spec fn trimmed_length(bytes: Seq<u8>) -> int
    decreases bytes.len(),
{
    if bytes.len() == 0 {
        0
    } else if bytes.last() != 0 {
        bytes.len() as int
    } else {
        trimmed_length(bytes.drop_last())
    }
}

/// How many bytes of the sequence are non-zero.
pub open spec fn count_nonzero(bytes: Seq<u8>) -> int
    decreases bytes.len(),
{
    if bytes.len() == 0 {
        0
    } else {
        count_nonzero(bytes.drop_last()) + if bytes.last() != 0 {
            1int
        } else {
            0int
        }
    }
}

/// What `validate_quote_currency` accepts: bytes that decode as UTF-8 must
/// be a non-empty run of ASCII alphanumerics padded with trailing zeros;
/// bytes that do not decode may pass as an opaque identifier when at least
/// 20 of them are non-zero.
pub open spec fn quote_currency_valid(bytes: Seq<u8>) -> bool {
    if valid_utf8(bytes) {
        let trimmed = trimmed_length(bytes);
        trimmed > 0 && forall|i: int| 0 <= i < trimmed ==> is_ascii_alphanumeric(bytes[i])
    } else {
        count_nonzero(bytes) >= 20
    }
}

/// Checks whether the 32 bytes form a valid UTF-8 encoding, scalar by
/// scalar.
fn utf8_check(bytes: &[u8; 32]) -> (r: bool)
    ensures
        r == valid_utf8(bytes@),
{
    proof {
        assert(bytes@.subrange(0, 32) =~= bytes@);
    }
    let mut i: usize = 0;
    while i < 32
        invariant
            0 <= i <= 32,
            valid_utf8(bytes@) == valid_utf8(bytes@.subrange(i as int, 32)),
        decreases 32 - i,
    {
        let ghost s = bytes@.subrange(i as int, 32);
        proof {
            assert(s.len() == 32 - i);
            assert(s[0] == bytes@[i as int]);
        }
        let b0 = bytes[i];
        if b0 <= 0x7f {
            let codepoint = (b0 & 0x7f) as u32;
            proof {
                assert(is_leading_byte_width_1(s[0]));
                assert(valid_first_scalar(s));
                assert(vstd::utf8::pop_first_scalar(s) =~= bytes@.subrange(i + 1, 32));
            }
            i = i + 1;
        } else if b0 >= 0xc0 && b0 <= 0xdf {
            if i + 1 >= 32 {
                proof {
                    assert(!valid_first_scalar(s));
                }
                return false;
            }
            let b1 = bytes[i + 1];
            proof {
                assert(s[1] == bytes@[i + 1]);
            }
            if !(b1 >= 0x80 && b1 <= 0xbf) {
                proof {
                    assert(!valid_first_scalar(s));
                }
                return false;
            }
            let codepoint = (((b0 & 0x1f) as u32) << 6u32) | ((b1 & 0x3f) as u32);
            proof {
                assert(vstd::utf8::decode_first_codepoint(s) == codepoint);
                assert(vstd::utf8::length_of_first_codepoint(s) == 2);
            }
            if codepoint < 0x80 {
                proof {
                    assert(!valid_first_scalar(s));
                }
                return false;
            }
            if 0xd800 <= codepoint && codepoint <= 0xdfff {
                proof {
                    assert(!valid_first_scalar(s));
                }
                return false;
            }
            proof {
                assert(valid_first_scalar(s));
                assert(vstd::utf8::pop_first_scalar(s) =~= bytes@.subrange(i + 2, 32));
            }
            i = i + 2;
        } else if b0 >= 0xe0 && b0 <= 0xef {
            if i + 2 >= 32 {
                proof {
                    assert(!valid_first_scalar(s));
                }
                return false;
            }
            let b1 = bytes[i + 1];
            let b2 = bytes[i + 2];
            proof {
                assert(s[1] == bytes@[i + 1]);
                assert(s[2] == bytes@[i + 2]);
            }
            if !(b1 >= 0x80 && b1 <= 0xbf) || !(b2 >= 0x80 && b2 <= 0xbf) {
                proof {
                    assert(!valid_first_scalar(s));
                }
                return false;
            }
            let codepoint = (((b0 & 0x0f) as u32) << 12u32) | (((b1 & 0x3f) as u32) << 6u32) | ((b2
                & 0x3f) as u32);
            proof {
                assert(vstd::utf8::decode_first_codepoint(s) == codepoint);
                assert(vstd::utf8::length_of_first_codepoint(s) == 3);
            }
            if codepoint < 0x800 {
                proof {
                    assert(!valid_first_scalar(s));
                }
                return false;
            }
            if 0xd800 <= codepoint && codepoint <= 0xdfff {
                proof {
                    assert(!valid_first_scalar(s));
                }
                return false;
            }
            proof {
                assert(valid_first_scalar(s));
                assert(vstd::utf8::pop_first_scalar(s) =~= bytes@.subrange(i + 3, 32));
            }
            i = i + 3;
        } else if b0 >= 0xf0 && b0 <= 0xf7 {
            if i + 3 >= 32 {
                proof {
                    assert(!valid_first_scalar(s));
                }
                return false;
            }
            let b1 = bytes[i + 1];
            let b2 = bytes[i + 2];
            let b3 = bytes[i + 3];
            proof {
                assert(s[1] == bytes@[i + 1]);
                assert(s[2] == bytes@[i + 2]);
                assert(s[3] == bytes@[i + 3]);
            }
            if !(b1 >= 0x80 && b1 <= 0xbf) || !(b2 >= 0x80 && b2 <= 0xbf) || !(b3 >= 0x80 && b3
                <= 0xbf) {
                proof {
                    assert(!valid_first_scalar(s));
                }
                return false;
            }
            let codepoint = (((b0 & 0x07) as u32) << 18u32) | (((b1 & 0x3f) as u32) << 12u32) | (((
            b2 & 0x3f) as u32) << 6u32) | ((b3 & 0x3f) as u32);
            proof {
                assert(vstd::utf8::decode_first_codepoint(s) == codepoint);
                assert(vstd::utf8::length_of_first_codepoint(s) == 4);
            }
            if !(codepoint >= 0x10000 && codepoint <= 0x10ffff) {
                proof {
                    assert(!valid_first_scalar(s));
                }
                return false;
            }
            if 0xd800 <= codepoint && codepoint <= 0xdfff {
                proof {
                    assert(!valid_first_scalar(s));
                }
                return false;
            }
            proof {
                assert(valid_first_scalar(s));
                assert(vstd::utf8::pop_first_scalar(s) =~= bytes@.subrange(i + 4, 32));
            }
            i = i + 4;
        } else {
            proof {
                assert(!is_leading_byte_width_1(s[0]));
                assert(!is_leading_byte_width_2(s[0]));
                assert(!is_leading_byte_width_3(s[0]));
                assert(!is_leading_byte_width_4(s[0]));
                assert(!valid_first_scalar(s));
            }
            return false;
        }
    }
    proof {
        assert(bytes@.subrange(32, 32).len() == 0);
    }
    true
}

impl LendingMarket {
    /// Record-format version written at initialization.
    pub const PROGRAM_VERSION: u8 = 1;

    /// Accepts a quote currency that is either a non-empty zero-padded run
    /// of ASCII alphanumerics, or, when the bytes are not UTF-8, an opaque
    /// identifier with at least 20 non-zero bytes.
    pub fn validate_quote_currency(currency: &[u8; 32]) -> (r: bool)
        ensures
            r == quote_currency_valid(currency@),
    {
        if utf8_check(currency) {
            proof {
                assert(currency@.subrange(0, 32) =~= currency@);
            }
            let mut end: usize = 32;
            while end > 0 && currency[end - 1] == 0
                invariant
                    0 <= end <= 32,
                    trimmed_length(currency@) == trimmed_length(
                        currency@.subrange(0, end as int),
                    ),
                decreases end,
            {
                proof {
                    assert(currency@.subrange(0, end as int).drop_last() =~= currency@.subrange(
                        0,
                        end - 1,
                    ));
                }
                end = end - 1;
            }
            proof {
                if end > 0 {
                    assert(currency@.subrange(0, end as int).last() == currency@[end - 1]);
                }
                assert(trimmed_length(currency@) == end);
            }
            if end == 0 {
                return false;
            }
            let mut i: usize = 0;
            while i < end
                invariant
                    0 <= i <= end <= 32,
                    forall|j: int| 0 <= j < i ==> is_ascii_alphanumeric(currency@[j]),
                    valid_utf8(currency@),
                    trimmed_length(currency@) == end,
                decreases end - i,
            {
                let b = currency[i];
                let alnum = (b >= 0x30 && b <= 0x39) || (b >= 0x41 && b <= 0x5a) || (b >= 0x61 && b
                    <= 0x7a);
                if !alnum {
                    return false;
                }
                i = i + 1;
            }
            true
        } else {
            let mut nonzero: usize = 0;
            let mut i: usize = 0;
            while i < 32
                invariant
                    0 <= i <= 32,
                    nonzero <= i,
                    nonzero == count_nonzero(currency@.subrange(0, i as int)),
                decreases 32 - i,
            {
                proof {
                    assert(currency@.subrange(0, i + 1).drop_last() =~= currency@.subrange(
                        0,
                        i as int,
                    ));
                    assert(currency@.subrange(0, i + 1).last() == currency@[i as int]);
                }
                if currency[i] != 0 {
                    nonzero = nonzero + 1;
                }
                i = i + 1;
            }
            proof {
                assert(currency@.subrange(0, 32) =~= currency@);
            }
            nonzero >= 20
        }
    }
}

} // verus!
