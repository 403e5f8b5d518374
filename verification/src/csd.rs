//! The CSD register and block addresses.

use vstd::prelude::*;
use crate::error::{CardType, SdError};
use crate::host::CmdResponse;

verus! {

/// The field of `bits` that starts at bit `lo` and is as wide as `mask`, a run of
/// ones from bit 0.
pub open spec fn field(bits: u128, lo: u128, mask: u128) -> int {
    ((bits >> lo) & mask) as int
}

/// CSD_STRUCTURE, bits 127..126.
pub open spec fn csd_structure(bits: u128) -> int {
    field(bits, 126, 0x3)
}

/// READ_BL_LEN of a version 1 CSD, bits 83..80.
pub open spec fn v1_read_bl_len(bits: u128) -> int {
    field(bits, 80, 0xF)
}

/// C_SIZE of a version 1 CSD, bits 73..62.
pub open spec fn v1_c_size(bits: u128) -> int {
    field(bits, 62, 0xFFF)
}

/// C_SIZE_MULT of a version 1 CSD, bits 49..47.
pub open spec fn v1_c_size_mult(bits: u128) -> int {
    field(bits, 47, 0x7)
}

/// C_SIZE of a version 2 CSD, bits 69..48.
pub open spec fn v2_c_size(bits: u128) -> int {
    field(bits, 48, 0x3F_FFFF)
}

/// The capacity in bytes that a version 1 CSD states.
pub open spec fn v1_capacity(bits: u128) -> int {
    (v1_c_size(bits) + 1) * vstd::arithmetic::power2::pow2((v1_c_size_mult(bits) + 2) as nat)
        * vstd::arithmetic::power2::pow2(v1_read_bl_len(bits) as nat)
}

/// The card type that a CSD implies.
pub open spec fn csd_card_type(bits: u128) -> CardType {
    if csd_structure(bits) == 1 {
        CardType::Sdhc
    } else {
        CardType::Sdsc
    }
}

/// The number of 512-byte blocks that a CSD states; 0 for a structure other than
/// version 1 or 2. The 2^32 blocks of the largest version 2 CSD do not fit a
/// 32-bit count, which wraps to 0.
pub open spec fn csd_block_count(bits: u128) -> int {
    if csd_structure(bits) == 0 {
        v1_capacity(bits) / 512
    } else if csd_structure(bits) == 1 {
        ((v2_c_size(bits) + 1) * 1024) % 0x1_0000_0000
    } else {
        0
    }
}

/// Parse a CSD register response and return the implied card type and the total
/// 512-byte block count.
///
/// The response must be aligned to the SD specification: CSD bit N is bit N of
/// the 128-bit value `rsp3 : rsp2 : rsp1 : rsp0`.
pub fn parse_csd(resp: CmdResponse) -> (parsed: (CardType, u32))
    ensures
        parsed.0 == csd_card_type(resp.bits()),
        parsed.1 == csd_block_count(resp.bits()),
{
    let csd: u128 = (resp.rsp3 as u128) << 96 | (resp.rsp2 as u128) << 64 | (resp.rsp1 as u128)
        << 32 | (resp.rsp0 as u128);
    proof {
        lemma_field_bounds(csd);
    }
    let csd_structure: u32 = ((csd >> 126) & 0x3) as u32;
    match csd_structure {
        0 => {
            let read_bl_len: u32 = ((csd >> 80) & 0xF) as u32;
            let c_size: u32 = ((csd >> 62) & 0xFFF) as u32;
            let c_size_mult: u32 = ((csd >> 47) & 0x7) as u32;
            let block_len: u32 = 1u32 << read_bl_len;
            let mult: u32 = 1u32 << (c_size_mult + 2);
            proof {
                lemma_small_power(read_bl_len);
                lemma_small_power((c_size_mult + 2) as u32);
                assert((c_size + 1) * mult <= 0x20_0000) by (nonlinear_arith)
                    requires
                        c_size <= 0xFFF,
                        mult <= 512,
                ;
                assert(0 <= (c_size + 1) * mult * block_len <= 0x10_0000_0000)
                    by (nonlinear_arith)
                    requires
                        0 <= (c_size + 1) * mult <= 0x20_0000,
                        0 <= block_len <= 0x8000,
                ;
            }
            let capacity_bytes: u64 = (c_size as u64 + 1) * mult as u64 * block_len as u64;
            (CardType::Sdsc, (capacity_bytes / 512) as u32)
        },
        1 => {
            let c_size: u32 = ((csd >> 48) & 0x3F_FFFF) as u32;
            (CardType::Sdhc, (c_size + 1).wrapping_mul(1024))
        },
        _ => (CardType::Sdsc, 0),
    }
}

proof fn lemma_field_bounds(csd: u128)
    ensures
        csd_structure(csd) <= 3,
        v1_read_bl_len(csd) <= 15,
        v1_c_size(csd) <= 0xFFF,
        v1_c_size_mult(csd) <= 7,
        v2_c_size(csd) <= 0x3F_FFFF,
{
    assert((csd >> 126) & 0x3 <= 3 && (csd >> 80) & 0xF <= 15 && (csd >> 62) & 0xFFF <= 0xFFF && (
    csd >> 47) & 0x7 <= 7 && (csd >> 48) & 0x3F_FFFF <= 0x3F_FFFF) by (bit_vector);
}

proof fn lemma_small_power(k: u32)
    requires
        k <= 15,
    ensures
        1u32 << k == vstd::arithmetic::power2::pow2(k as nat),
        1 <= vstd::arithmetic::power2::pow2(k as nat) <= 0x8000,
        k <= 9 ==> vstd::arithmetic::power2::pow2(k as nat) <= 512,
{
    vstd::arithmetic::power2::lemma2_to64();
    vstd::arithmetic::power2::lemma_pow2_pos(k as nat);
    if k < 15 {
        vstd::arithmetic::power2::lemma_pow2_strictly_increases(k as nat, 15);
    }
    if k < 9 {
        vstd::arithmetic::power2::lemma_pow2_strictly_increases(k as nat, 9);
    }
    vstd::bits::lemma_u32_shl_is_mul(1, k);
}

/// The hardware argument that addresses block `lba`, if there is one: the block
/// number on a block-addressed card, the byte offset on a byte-addressed card.
pub open spec fn card_address(card_type: CardType, lba: u32) -> Option<u32> {
    match card_type {
        CardType::Sdhc => Some(lba),
        CardType::Sdsc => if lba * 512 <= u32::MAX {
            Some((lba * 512) as u32)
        } else {
            None
        },
    }
}

/// Translate a logical block address to the hardware command argument.
///
/// SDHC/SDXC cards are block-addressed (argument = LBA). SDSC cards are
/// byte-addressed (argument = LBA * 512); an offset that does not fit is
/// `Err(SdError::Timeout)`.
pub fn block_address(card_type: CardType, lba: u32) -> (result: Result<u32, SdError>)
    ensures
        result == (match card_address(card_type, lba) {
            Some(address) => Ok::<u32, SdError>(address),
            None => Err(SdError::Timeout),
        }),
{
    match card_type {
        CardType::Sdhc => Ok(lba),
        CardType::Sdsc => match lba.checked_mul(512) {
            Some(address) => Ok(address),
            None => Err(SdError::Timeout),
        },
    }
}

/// Different blocks have different addresses.
pub proof fn law_addresses_distinct(card_type: CardType, a: u32, b: u32)
    requires
        a != b,
        card_address(card_type, a) is Some,
        card_address(card_type, b) is Some,
    ensures
        card_address(card_type, a) != card_address(card_type, b),
{
}

/// The first 2^23 blocks, 4 GiB, of every card have an address; on a high
/// capacity card all have.
pub proof fn law_addressable(card_type: CardType, lba: u32)
    ensures
        card_address(card_type, lba) is Some <==> (card_type == CardType::Sdhc || lba < 0x80_0000),
{
}

/// On a block-addressed card the address of a block is its index.
pub proof fn law_block_addressed(lba: u32)
    ensures
        card_address(CardType::Sdhc, lba) == Some(lba),
{
}

/// On a byte-addressed card block 0 is at 0, each next block 512 bytes further on,
/// as long as that fits 32 bits.
pub proof fn law_byte_addressed(lba: u32)
    ensures
        card_address(CardType::Sdsc, 0) == Some(0u32),
        card_address(CardType::Sdsc, lba) is Some <==> lba < 0x80_0000,
        card_address(CardType::Sdsc, lba) matches Some(address) ==> {
            &&& address == 512 * lba
            &&& lba < 0x7F_FFFF ==> card_address(CardType::Sdsc, (lba + 1) as u32) == Some(
                (address + 512) as u32,
            )
        },
{
}

/// Putting C_SIZE into bits 69..48 of any CSD whose bits 127..126 are 01 makes it
/// state `(C_SIZE + 1) * 1024` blocks of a high capacity card, whatever the other
/// bits; 2^32 blocks, which do not fit, wrap to 0.
pub proof fn law_high_capacity(bits: u128, c_size: u128)
    requires
        bits >> 126 == 1,
        c_size < 0x40_0000,
    ensures
        ({
            let csd = (bits & !(0x3F_FFFFu128 << 48)) | (c_size << 48);
            &&& csd_card_type(csd) == CardType::Sdhc
            &&& c_size < 0x3F_FFFF ==> csd_block_count(csd) == 1024 * c_size + 1024
            &&& c_size == 0x3F_FFFF ==> csd_block_count(csd) == 0
        }),
{
    let csd = (bits & !(0x3F_FFFFu128 << 48)) | (c_size << 48);
    assert((csd >> 126) & 0x3 == 1 && (csd >> 48) & 0x3F_FFFF == c_size) by (bit_vector)
        requires
            bits >> 126 == 1,
            c_size < 0x40_0000,
            csd == (bits & !(0x3F_FFFFu128 << 48)) | (c_size << 48),
    ;
}

/// Putting READ_BL_LEN into bits 83..80, C_SIZE into bits 73..62 and C_SIZE_MULT into
/// bits 49..47 of any CSD whose bits 127..126 are 00 makes it state
/// `(C_SIZE + 1) * 2^(C_SIZE_MULT + READ_BL_LEN + 2)` bytes of a standard capacity
/// card, in blocks of 512 bytes, whatever the other bits.
pub proof fn law_standard_capacity(bits: u128, read_bl_len: u128, c_size: u128, c_size_mult: u128)
    requires
        bits >> 126 == 0,
        read_bl_len < 16,
        c_size < 4096,
        c_size_mult < 8,
    ensures
        ({
            let rest = bits & !((0xFu128 << 80) | (0xFFFu128 << 62) | (0x7u128 << 47));
            let csd = rest | (read_bl_len << 80) | (c_size << 62) | (c_size_mult << 47);
            let bytes = (c_size + 1) * vstd::arithmetic::power2::pow2(
                (c_size_mult + read_bl_len + 2) as nat,
            );
            &&& csd_card_type(csd) == CardType::Sdsc
            &&& 512 * csd_block_count(csd) <= bytes < 512 * csd_block_count(csd) + 512
        }),
{
    let rest = bits & !((0xFu128 << 80) | (0xFFFu128 << 62) | (0x7u128 << 47));
    let csd = rest | (read_bl_len << 80) | (c_size << 62) | (c_size_mult << 47);
    assert((csd >> 126) & 0x3 == 0 && (csd >> 80) & 0xF == read_bl_len && (csd >> 62) & 0xFFF
        == c_size && (csd >> 47) & 0x7 == c_size_mult) by (bit_vector)
        requires
            bits >> 126 == 0,
            read_bl_len < 16,
            c_size < 4096,
            c_size_mult < 8,
            rest == bits & !((0xFu128 << 80) | (0xFFFu128 << 62) | (0x7u128 << 47)),
            csd == rest | (read_bl_len << 80) | (c_size << 62) | (c_size_mult << 47),
    ;
    let a = vstd::arithmetic::power2::pow2((c_size_mult + 2) as nat) as int;
    let b = vstd::arithmetic::power2::pow2(read_bl_len as nat) as int;
    vstd::arithmetic::power2::lemma_pow2_adds((c_size_mult + 2) as nat, read_bl_len as nat);
    assert((c_size + 1) * a * b == (c_size + 1) * (a * b)) by (nonlinear_arith);
}

/// A CSD whose bits 127..126 are neither 00 nor 01 states no blocks.
pub proof fn law_unknown_structure(bits: u128)
    requires
        bits >> 126 >= 2,
    ensures
        csd_card_type(bits) == CardType::Sdsc,
        csd_block_count(bits) == 0,
{
    assert((bits >> 126) & 0x3 == bits >> 126) by (bit_vector);
}

/// What `block_address` returns: on a high capacity card the block itself, on a standard
/// capacity card the number of its first byte, or a timeout if that does not fit 32 bits.
pub proof fn law_block_address(card_type: CardType, lba: u32, result: Result<u32, SdError>)
    requires
        call_ensures(block_address, (card_type, lba), result),
    ensures
        card_type is Sdhc ==> result == Ok::<u32, SdError>(lba),
        card_type is Sdsc && lba < 0x80_0000 ==> (result matches Ok(address) && address == 512
            * lba),
        card_type is Sdsc && lba >= 0x80_0000 ==> result == Err::<u32, SdError>(SdError::Timeout),
{
}

/// What `parse_csd` returns, by the words of the response. Bits 31..30 of the last word
/// tell the structure. Where they are 01, the card is of high capacity, and has
/// `(C_SIZE + 1) * 1024` blocks if that fits 32 bits; C_SIZE is made of six bits of the
/// third word above 16 of the second. Where they are 00, the card is of standard
/// capacity, and has `(C_SIZE + 1) * 2^(C_SIZE_MULT + READ_BL_LEN + 2)` bytes in blocks of
/// 512; C_SIZE is made of ten bits of the third word above two of the second.
pub proof fn law_parse_csd(resp: CmdResponse, parsed: (CardType, u32))
    requires
        call_ensures(parse_csd, (resp,), parsed),
    ensures
        ({
            let structure = resp.rsp3 >> 30;
            let v2_size = (resp.rsp2 & 0x3F) * 0x1_0000 + (resp.rsp1 >> 16);
            let v1_size = (resp.rsp2 & 0x3FF) * 4 + (resp.rsp1 >> 30);
            let mult = (resp.rsp1 >> 15) & 0x7;
            let len = (resp.rsp2 >> 16) & 0xF;
            let bytes = (v1_size + 1) * vstd::arithmetic::power2::pow2((mult + len + 2) as nat);
            &&& parsed.0 is Sdhc <==> structure == 1
            &&& structure == 1 ==> parsed.1 == if v2_size == 0x3F_FFFF {
                0
            } else {
                1024 * v2_size + 1024
            }
            &&& structure == 0 ==> 512 * parsed.1 <= bytes < 512 * parsed.1 + 512
            &&& structure >= 2 ==> parsed.1 == 0
        }),
{
    let (a, b, c, d) = (resp.rsp0, resp.rsp1, resp.rsp2, resp.rsp3);
    let bits = resp.bits();
    assert((bits >> 126) & 0x3 == d >> 30 && (bits >> 48) & 0x3F_FFFF == (c & 0x3F) * 0x1_0000 + (b
        >> 16) && (bits >> 62) & 0xFFF == (c & 0x3FF) * 4 + (b >> 30) && (bits >> 47) & 0x7 == (b
        >> 15) & 0x7 && (bits >> 80) & 0xF == (c >> 16) & 0xF && (c & 0x3F) * 0x1_0000 + (b >> 16)
        <= 0x3F_FFFF) by (bit_vector)
        requires
            bits == (d as u128) << 96 | (c as u128) << 64 | (b as u128) << 32 | (a as u128),
    ;
    let x = vstd::arithmetic::power2::pow2((v1_c_size_mult(bits) + 2) as nat) as int;
    let y = vstd::arithmetic::power2::pow2(v1_read_bl_len(bits) as nat) as int;
    vstd::arithmetic::power2::lemma_pow2_adds(
        (v1_c_size_mult(bits) + 2) as nat,
        v1_read_bl_len(bits) as nat,
    );
    let n = v1_c_size(bits) + 1;
    assert(n * x * y == n * (x * y)) by (nonlinear_arith);
}

} // verus!
