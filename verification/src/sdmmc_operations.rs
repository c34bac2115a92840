//! What the Card Specific Data says and what the checksums are, in terms of the
//! bits of the register and of how the checksums of related messages relate.
//!
//! Every law here is about a call: `call_ensures` relates the arguments of an
//! operation to what it returned, and the law says what the two have to do with
//! one another. The bits of the register are counted from 127, the first, down to
//! 0, the last.
use crate::sdmmc_proto::{
    crc16, crc16_bits, crc16_remainder, crc16_trace, crc7, crc7_bit, crc7_bits, crc7_remainder,
    crc7_trace, lemma_crc16_table_free, lemma_crc16_trace, lemma_crc7_trace, message_bit, CsdV1,
    CsdV2, ACMD41, CMD0, CMD12, CMD13, CMD17, CMD18, CMD24, CMD25, CMD55, CMD58, CMD59, CMD8, CMD9,
    DATA_RES_ACCEPTED, DATA_RES_MASK, DATA_START_BLOCK, ERROR_OK, R1_IDLE_STATE, R1_ILLEGAL_COMMAND,
    R1_READY_STATE, STOP_TRAN_TOKEN, WRITE_MULTIPLE_TOKEN,
};
use vstd::arithmetic::div_mod::{
    lemma_div_denominator, lemma_fundamental_div_mod, lemma_mod_breakdown,
};
use vstd::arithmetic::power2::{
    lemma2_to64, lemma_pow2_adds, lemma_pow2_pos, lemma_pow2_unfold, pow2,
};
use vstd::prelude::*;

verus! {

/// What a bit of a byte counts.
pub open spec fn weight(bit: int) -> int {
    if bit <= 0 {
        1
    } else if bit == 1 {
        2
    } else if bit == 2 {
        4
    } else if bit == 3 {
        8
    } else if bit == 4 {
        16
    } else if bit == 5 {
        32
    } else if bit == 6 {
        64
    } else {
        128
    }
}

/// A bit of the register, whose most significant byte is the first.
pub open spec fn register_bit(data: Seq<u8>, k: int) -> int {
    data[15 - k / 8] as int / weight(k % 8) % 2
}

/// The number in the bits of the register from `high` down to `low`.
pub open spec fn register_field(data: Seq<u8>, high: int, low: int) -> int
    decreases high - low + 1,
{
    if high < low {
        0
    } else {
        2 * register_field(data, high, low + 1) + register_bit(data, low)
    }
}

/// The number in some bits of a byte is the number in those bits of the register.
proof fn lemma_field_in_byte(data: Seq<u8>, at: int, start: int, n: int)
    requires
        0 <= at < 16,
        0 <= start,
        0 <= n,
        start + n <= 8,
    ensures
        register_field(data, 8 * (15 - at) + start + n - 1, 8 * (15 - at) + start) == (
        data[at] as int / pow2(start as nat) as int) % (pow2(n as nat) as int),
    decreases n,
{
    let low = 8 * (15 - at) + start;
    let high = low + n - 1;
    lemma2_to64();
    if n > 0 {
        let p = pow2(start as nat) as int;
        let m = pow2((n - 1) as nat) as int;
        let q = data[at] as int / p;
        lemma_field_in_byte(data, at, start + 1, n - 1);
        lemma_pow2_unfold((start + 1) as nat);
        lemma_pow2_unfold(n as nat);
        lemma_pow2_pos(start as nat);
        lemma_pow2_pos((n - 1) as nat);
        lemma_div_denominator(data[at] as int, p, 2);
        lemma_mod_breakdown(q, 2, m);
        assert(low / 8 == 15 - at);
        assert(low % 8 == start);
        assert(weight(start) == p);
        assert(register_bit(data, low) == q % 2);
    }
}

/// The number in some bits of the register is made up of the numbers in its upper
/// and in its lower bits.
proof fn lemma_joined(data: Seq<u8>, high: int, middle: int, low: int, scale: int)
    requires
        low <= middle <= high + 1,
        scale == pow2((middle - low) as nat),
    ensures
        register_field(data, high, low) == register_field(data, high, middle) * scale
            + register_field(data, middle - 1, low),
    decreases middle - low,
{
    let upper = register_field(data, high, middle);
    lemma2_to64();
    if low < middle {
        let half = pow2((middle - low - 1) as nat) as int;
        lemma_joined(data, high, middle, low + 1, half);
        lemma_pow2_unfold((middle - low) as nat);
        assert(2 * (upper * half) == upper * scale) by (nonlinear_arith)
            requires
                scale == 2 * half,
        ;
    } else {
        assert(upper * scale == upper) by (nonlinear_arith)
            requires
                scale == 1,
        ;
    }
}

/// The version, the access times and the speed of a version 1 card.
pub proof fn law_v1_access_fields(
    csd: &CsdV1,
    csd_ver: u8,
    data_read_access_time1: u8,
    data_read_access_time2: u8,
    max_data_transfer_rate: u8,
)
    requires
        call_ensures(CsdV1::csd_ver, (csd,), csd_ver),
        call_ensures(CsdV1::data_read_access_time1, (csd,), data_read_access_time1),
        call_ensures(CsdV1::data_read_access_time2, (csd,), data_read_access_time2),
        call_ensures(CsdV1::max_data_transfer_rate, (csd,), max_data_transfer_rate),
    ensures
        csd_ver == register_field(csd.data@, 127, 126),
        data_read_access_time1 == register_field(csd.data@, 119, 112),
        data_read_access_time2 == register_field(csd.data@, 111, 104),
        max_data_transfer_rate == register_field(csd.data@, 103, 96),
{
    lemma2_to64();
    let data = csd.data@;
    lemma_field_in_byte(data, 0, 6, 2);
    lemma_field_in_byte(data, 1, 0, 8);
    lemma_field_in_byte(data, 2, 0, 8);
    lemma_field_in_byte(data, 3, 0, 8);
}

/// What a version 1 card says about commands and the blocks it reads.
pub proof fn law_v1_command_fields(
    csd: &CsdV1,
    card_command_classes: u16,
    read_block_length: u8,
    read_partial_blocks: bool,
    write_block_misalignment: bool,
    read_block_misalignment: bool,
    dsr_implemented: bool,
)
    requires
        call_ensures(CsdV1::card_command_classes, (csd,), card_command_classes),
        call_ensures(CsdV1::read_block_length, (csd,), read_block_length),
        call_ensures(CsdV1::read_partial_blocks, (csd,), read_partial_blocks),
        call_ensures(CsdV1::write_block_misalignment, (csd,), write_block_misalignment),
        call_ensures(CsdV1::read_block_misalignment, (csd,), read_block_misalignment),
        call_ensures(CsdV1::dsr_implemented, (csd,), dsr_implemented),
    ensures
        card_command_classes == register_field(csd.data@, 95, 84),
        read_block_length == register_field(csd.data@, 83, 80),
        read_partial_blocks <==> register_bit(csd.data@, 79) == 1,
        write_block_misalignment <==> register_bit(csd.data@, 78) == 1,
        read_block_misalignment <==> register_bit(csd.data@, 77) == 1,
        dsr_implemented <==> register_bit(csd.data@, 76) == 1,
{
    lemma2_to64();
    let data = csd.data@;
    lemma_field_in_byte(data, 4, 0, 8);
    lemma_field_in_byte(data, 5, 4, 4);
    lemma_joined(data, 95, 88, 84, 16);
    lemma_field_in_byte(data, 5, 0, 4);
}

/// The size of a version 1 card, and the currents it takes.
pub proof fn law_v1_size_fields(
    csd: &CsdV1,
    device_size: u32,
    max_read_current_vdd_min: u8,
    max_read_current_vdd_max: u8,
    max_write_current_vdd_min: u8,
    max_write_current_vdd_max: u8,
    device_size_multiplier: u8,
)
    requires
        call_ensures(CsdV1::device_size, (csd,), device_size),
        call_ensures(CsdV1::max_read_current_vdd_min, (csd,), max_read_current_vdd_min),
        call_ensures(CsdV1::max_read_current_vdd_max, (csd,), max_read_current_vdd_max),
        call_ensures(CsdV1::max_write_current_vdd_min, (csd,), max_write_current_vdd_min),
        call_ensures(CsdV1::max_write_current_vdd_max, (csd,), max_write_current_vdd_max),
        call_ensures(CsdV1::device_size_multiplier, (csd,), device_size_multiplier),
    ensures
        device_size == register_field(csd.data@, 73, 62),
        max_read_current_vdd_min == register_field(csd.data@, 61, 59),
        max_read_current_vdd_max == register_field(csd.data@, 58, 56),
        max_write_current_vdd_min == register_field(csd.data@, 55, 53),
        max_write_current_vdd_max == register_field(csd.data@, 52, 50),
        device_size_multiplier == register_field(csd.data@, 49, 47),
{
    lemma2_to64();
    let data = csd.data@;
    lemma_field_in_byte(data, 6, 0, 2);
    lemma_field_in_byte(data, 7, 0, 8);
    lemma_field_in_byte(data, 8, 6, 2);
    lemma_joined(data, 73, 72, 64, 256);
    lemma_joined(data, 73, 64, 62, 4);
    lemma_field_in_byte(data, 8, 3, 3);
    lemma_field_in_byte(data, 8, 0, 3);
    lemma_field_in_byte(data, 9, 5, 3);
    lemma_field_in_byte(data, 9, 2, 3);
    lemma_field_in_byte(data, 9, 0, 2);
    lemma_field_in_byte(data, 10, 7, 1);
    lemma_joined(data, 49, 48, 47, 2);
}

/// What a version 1 card says about erasing and protecting.
pub proof fn law_v1_erase_fields(
    csd: &CsdV1,
    erase_single_block_enabled: bool,
    erase_sector_size: u8,
    write_protect_group_size: u8,
    write_protect_group_enable: bool,
)
    requires
        call_ensures(CsdV1::erase_single_block_enabled, (csd,), erase_single_block_enabled),
        call_ensures(CsdV1::erase_sector_size, (csd,), erase_sector_size),
        call_ensures(CsdV1::write_protect_group_size, (csd,), write_protect_group_size),
        call_ensures(CsdV1::write_protect_group_enable, (csd,), write_protect_group_enable),
    ensures
        erase_single_block_enabled <==> register_bit(csd.data@, 46) == 1,
        erase_sector_size == register_field(csd.data@, 45, 39),
        write_protect_group_size == register_field(csd.data@, 38, 32),
        write_protect_group_enable <==> register_bit(csd.data@, 31) == 1,
{
    lemma2_to64();
    let data = csd.data@;
    lemma_field_in_byte(data, 10, 0, 6);
    lemma_field_in_byte(data, 11, 7, 1);
    lemma_joined(data, 45, 40, 39, 2);
    lemma_field_in_byte(data, 11, 0, 7);
}

/// What a version 1 card says about writing.
pub proof fn law_v1_write_fields(
    csd: &CsdV1,
    write_speed_factor: u8,
    max_write_data_length: u8,
    write_partial_blocks: bool,
)
    requires
        call_ensures(CsdV1::write_speed_factor, (csd,), write_speed_factor),
        call_ensures(CsdV1::max_write_data_length, (csd,), max_write_data_length),
        call_ensures(CsdV1::write_partial_blocks, (csd,), write_partial_blocks),
    ensures
        write_speed_factor == register_field(csd.data@, 28, 26),
        max_write_data_length == register_field(csd.data@, 25, 22),
        write_partial_blocks <==> register_bit(csd.data@, 21) == 1,
{
    lemma2_to64();
    let data = csd.data@;
    lemma_field_in_byte(data, 12, 2, 3);
    lemma_field_in_byte(data, 12, 0, 2);
    lemma_field_in_byte(data, 13, 6, 2);
    lemma_joined(data, 25, 24, 22, 4);
}

/// The format and the checksum of a version 1 card.
pub proof fn law_v1_format_fields(
    csd: &CsdV1,
    file_format_group_set: bool,
    copy_flag_set: bool,
    permanent_write_protection: bool,
    temporary_write_protection: bool,
    file_format: u8,
    crc: u8,
)
    requires
        call_ensures(CsdV1::file_format_group_set, (csd,), file_format_group_set),
        call_ensures(CsdV1::copy_flag_set, (csd,), copy_flag_set),
        call_ensures(CsdV1::permanent_write_protection, (csd,), permanent_write_protection),
        call_ensures(CsdV1::temporary_write_protection, (csd,), temporary_write_protection),
        call_ensures(CsdV1::file_format, (csd,), file_format),
        call_ensures(CsdV1::crc, (csd,), crc),
    ensures
        file_format_group_set <==> register_bit(csd.data@, 15) == 1,
        copy_flag_set <==> register_bit(csd.data@, 14) == 1,
        permanent_write_protection <==> register_bit(csd.data@, 13) == 1,
        temporary_write_protection <==> register_bit(csd.data@, 12) == 1,
        file_format == register_field(csd.data@, 11, 10),
        crc == register_field(csd.data@, 7, 0),
{
    lemma2_to64();
    let data = csd.data@;
    lemma_field_in_byte(data, 14, 2, 2);
    lemma_field_in_byte(data, 15, 0, 8);
}

/// The version, the access times and the speed of a version 2 card.
pub proof fn law_v2_access_fields(
    csd: &CsdV2,
    csd_ver: u8,
    data_read_access_time1: u8,
    data_read_access_time2: u8,
    max_data_transfer_rate: u8,
)
    requires
        call_ensures(CsdV2::csd_ver, (csd,), csd_ver),
        call_ensures(CsdV2::data_read_access_time1, (csd,), data_read_access_time1),
        call_ensures(CsdV2::data_read_access_time2, (csd,), data_read_access_time2),
        call_ensures(CsdV2::max_data_transfer_rate, (csd,), max_data_transfer_rate),
    ensures
        csd_ver == register_field(csd.data@, 127, 126),
        data_read_access_time1 == register_field(csd.data@, 119, 112),
        data_read_access_time2 == register_field(csd.data@, 111, 104),
        max_data_transfer_rate == register_field(csd.data@, 103, 96),
{
    lemma2_to64();
    let data = csd.data@;
    lemma_field_in_byte(data, 0, 6, 2);
    lemma_field_in_byte(data, 1, 0, 8);
    lemma_field_in_byte(data, 2, 0, 8);
    lemma_field_in_byte(data, 3, 0, 8);
}

/// What a version 2 card says about commands and the blocks it reads.
pub proof fn law_v2_command_fields(
    csd: &CsdV2,
    card_command_classes: u16,
    read_block_length: u8,
    read_partial_blocks: bool,
    write_block_misalignment: bool,
    read_block_misalignment: bool,
    dsr_implemented: bool,
)
    requires
        call_ensures(CsdV2::card_command_classes, (csd,), card_command_classes),
        call_ensures(CsdV2::read_block_length, (csd,), read_block_length),
        call_ensures(CsdV2::read_partial_blocks, (csd,), read_partial_blocks),
        call_ensures(CsdV2::write_block_misalignment, (csd,), write_block_misalignment),
        call_ensures(CsdV2::read_block_misalignment, (csd,), read_block_misalignment),
        call_ensures(CsdV2::dsr_implemented, (csd,), dsr_implemented),
    ensures
        card_command_classes == register_field(csd.data@, 95, 84),
        read_block_length == register_field(csd.data@, 83, 80),
        read_partial_blocks <==> register_bit(csd.data@, 79) == 1,
        write_block_misalignment <==> register_bit(csd.data@, 78) == 1,
        read_block_misalignment <==> register_bit(csd.data@, 77) == 1,
        dsr_implemented <==> register_bit(csd.data@, 76) == 1,
{
    lemma2_to64();
    let data = csd.data@;
    lemma_field_in_byte(data, 4, 0, 8);
    lemma_field_in_byte(data, 5, 4, 4);
    lemma_joined(data, 95, 88, 84, 16);
    lemma_field_in_byte(data, 5, 0, 4);
}

/// The size of a version 2 card.
pub proof fn law_v2_size_fields(
    csd: &CsdV2,
    device_size: u32,
)
    requires
        call_ensures(CsdV2::device_size, (csd,), device_size),
    ensures
        device_size == register_field(csd.data@, 69, 48),
{
    lemma2_to64();
    let data = csd.data@;
    lemma_field_in_byte(data, 7, 0, 6);
    lemma_field_in_byte(data, 8, 0, 8);
    lemma_field_in_byte(data, 9, 0, 8);
    lemma_joined(data, 69, 64, 56, 256);
    lemma_joined(data, 69, 56, 48, 256);
}

/// What a version 2 card says about erasing and protecting.
pub proof fn law_v2_erase_fields(
    csd: &CsdV2,
    erase_single_block_enabled: bool,
    erase_sector_size: u8,
    write_protect_group_size: u8,
    write_protect_group_enable: bool,
)
    requires
        call_ensures(CsdV2::erase_single_block_enabled, (csd,), erase_single_block_enabled),
        call_ensures(CsdV2::erase_sector_size, (csd,), erase_sector_size),
        call_ensures(CsdV2::write_protect_group_size, (csd,), write_protect_group_size),
        call_ensures(CsdV2::write_protect_group_enable, (csd,), write_protect_group_enable),
    ensures
        erase_single_block_enabled <==> register_bit(csd.data@, 46) == 1,
        erase_sector_size == register_field(csd.data@, 45, 39),
        write_protect_group_size == register_field(csd.data@, 38, 32),
        write_protect_group_enable <==> register_bit(csd.data@, 31) == 1,
{
    lemma2_to64();
    let data = csd.data@;
    lemma_field_in_byte(data, 10, 0, 6);
    lemma_field_in_byte(data, 11, 7, 1);
    lemma_joined(data, 45, 40, 39, 2);
    lemma_field_in_byte(data, 11, 0, 7);
}

/// What a version 2 card says about writing.
pub proof fn law_v2_write_fields(
    csd: &CsdV2,
    write_speed_factor: u8,
    max_write_data_length: u8,
    write_partial_blocks: bool,
)
    requires
        call_ensures(CsdV2::write_speed_factor, (csd,), write_speed_factor),
        call_ensures(CsdV2::max_write_data_length, (csd,), max_write_data_length),
        call_ensures(CsdV2::write_partial_blocks, (csd,), write_partial_blocks),
    ensures
        write_speed_factor == register_field(csd.data@, 28, 26),
        max_write_data_length == register_field(csd.data@, 25, 22),
        write_partial_blocks <==> register_bit(csd.data@, 21) == 1,
{
    lemma2_to64();
    let data = csd.data@;
    lemma_field_in_byte(data, 12, 2, 3);
    lemma_field_in_byte(data, 12, 0, 2);
    lemma_field_in_byte(data, 13, 6, 2);
    lemma_joined(data, 25, 24, 22, 4);
}

/// The format and the checksum of a version 2 card.
pub proof fn law_v2_format_fields(
    csd: &CsdV2,
    file_format_group_set: bool,
    copy_flag_set: bool,
    permanent_write_protection: bool,
    temporary_write_protection: bool,
    file_format: u8,
    crc: u8,
)
    requires
        call_ensures(CsdV2::file_format_group_set, (csd,), file_format_group_set),
        call_ensures(CsdV2::copy_flag_set, (csd,), copy_flag_set),
        call_ensures(CsdV2::permanent_write_protection, (csd,), permanent_write_protection),
        call_ensures(CsdV2::temporary_write_protection, (csd,), temporary_write_protection),
        call_ensures(CsdV2::file_format, (csd,), file_format),
        call_ensures(CsdV2::crc, (csd,), crc),
    ensures
        file_format_group_set <==> register_bit(csd.data@, 15) == 1,
        copy_flag_set <==> register_bit(csd.data@, 14) == 1,
        permanent_write_protection <==> register_bit(csd.data@, 13) == 1,
        temporary_write_protection <==> register_bit(csd.data@, 12) == 1,
        file_format == register_field(csd.data@, 11, 10),
        crc == register_field(csd.data@, 7, 0),
{
    lemma2_to64();
    let data = csd.data@;
    lemma_field_in_byte(data, 14, 2, 2);
    lemma_field_in_byte(data, 15, 0, 8);
}

/// The capacity of a version 1 card in bytes is the product of the number that
/// follows its size and of two powers of two, and in blocks it is as many blocks
/// of 512 bytes as fit.
pub proof fn law_v1_capacity(
    csd: &CsdV1,
    device_size: u32,
    device_size_multiplier: u8,
    read_block_length: u8,
    bytes: u64,
    blocks: u32,
)
    requires
        call_ensures(CsdV1::device_size, (csd,), device_size),
        call_ensures(CsdV1::device_size_multiplier, (csd,), device_size_multiplier),
        call_ensures(CsdV1::read_block_length, (csd,), read_block_length),
        call_ensures(CsdV1::card_capacity_bytes, (csd,), bytes),
        call_ensures(CsdV1::card_capacity_blocks, (csd,), blocks),
    ensures
        bytes == (device_size + 1) * pow2((device_size_multiplier + 2) as nat) * pow2(
            read_block_length as nat,
        ),
        512 * blocks <= bytes < 512 * (blocks + 1),
{
    let a = (device_size_multiplier + 2) as nat;
    let b = read_block_length as nat;
    let n = device_size + 1;
    lemma_pow2_adds(a, b);
    let p = pow2(a) as int;
    let q = pow2(b) as int;
    assert(n * p * q == n * (p * q)) by (nonlinear_arith);
    lemma_fundamental_div_mod(bytes as int, 512);
}

/// The capacity of a version 2 card is 512 KiB times the number that follows its
/// size, in bytes and in blocks of 512 bytes.
pub proof fn law_v2_capacity(csd: &CsdV2, device_size: u32, bytes: u64, blocks: u32)
    requires
        call_ensures(CsdV2::device_size, (csd,), device_size),
        call_ensures(CsdV2::card_capacity_bytes, (csd,), bytes),
        call_ensures(CsdV2::card_capacity_blocks, (csd,), blocks),
    ensures
        bytes == (device_size + 1) * 0x8_0000,
        bytes == 512 * blocks,
{
}

/// New Card Specific Data is all zeros.
pub proof fn law_new_csd(v1: CsdV1, v2: CsdV2)
    requires
        call_ensures(CsdV1::new, (), v1),
        call_ensures(CsdV2::new, (), v2),
    ensures
        v1.data@.len() == 16,
        v2.data@.len() == 16,
        forall|i: int| 0 <= i < 16 ==> #[trigger] v1.data@[i] == 0,
        forall|i: int| 0 <= i < 16 ==> #[trigger] v2.data@[i] == 0,
{
}

/// What a byte does to a 16-bit checksum, without the bits one by one.
proof fn lemma_crc16_byte(crc: u16, byte: u8) -> (steps: (u16, u16, u16, u16))
    ensures
        steps.0 == (((crc >> 8) & 0xFF) | (crc << 8)) ^ (byte as u16),
        steps.1 == steps.0 ^ ((steps.0 & 0xFF) >> 4),
        steps.2 == steps.1 ^ (steps.1 << 12),
        steps.3 == steps.2 ^ ((steps.2 & 0xFF) << 5),
        steps.3 == crc16_bits(crc, byte, 8),
{
    let swapped: u16 = ((crc >> 8) & 0xFF) | (crc << 8);
    let mixed: u16 = swapped ^ (byte as u16);
    let low: u16 = mixed ^ ((mixed & 0xFF) >> 4);
    let high: u16 = low ^ (low << 12);
    let next: u16 = high ^ ((high & 0xFF) << 5);
    lemma_crc16_trace(crc, byte);
    let c = crc16_trace(crc, byte);
    lemma_crc16_table_free(
        crc, byte, c[1], c[2], c[3], c[4], c[5], c[6], c[7], c[8],
        swapped, mixed, low, high, next,
    );
    (mixed, low, high, next)
}

/// The 16-bit checksum of a message of one byte.
proof fn lemma_crc16_of_byte(data: Seq<u8>)
    requires
        data.len() == 1,
    ensures
        crc16_remainder(data) == crc16_bits(0, data[0], 8),
{
    assert(crc16_remainder(data.drop_last()) == 0);
}

/// The 16-bit checksum of the empty message is 0, and that of the byte 1 is
/// 0x1021. Doubling a byte doubles its checksum, less what is carried out of
/// sixteen bits: a carry counts 0x1021. The checksum of what two bytes do not
/// have in common is what their checksums do not have in common.
pub proof fn law_crc16_of_bytes(
    a: &[u8],
    b: &[u8],
    doubled: &[u8],
    apart: &[u8],
    crc_a: u16,
    crc_b: u16,
    crc_doubled: u16,
    crc_apart: u16,
)
    requires
        call_ensures(crc16, (a,), crc_a),
        call_ensures(crc16, (b,), crc_b),
        call_ensures(crc16, (doubled,), crc_doubled),
        call_ensures(crc16, (apart,), crc_apart),
        b@.len() == 1 && doubled@.len() == 1 && apart@.len() == 1,
        a@.len() <= 1,
    ensures
        a@.len() == 0 ==> crc_a == 0,
        a@.len() == 1 && a@[0] == 1 ==> crc_a == 0x1021,
        a@.len() == 1 && doubled@[0] == 2 * a@[0] ==> crc_doubled == if crc_a < 0x8000 {
            (2 * crc_a) as u16
        } else {
            ((2 * crc_a - 0x1_0000) as u16) ^ 0x1021
        },
        a@.len() == 1 && apart@[0] == a@[0] ^ b@[0] ==> crc_apart == crc_a ^ crc_b,
{
    lemma_crc16_of_byte(b@);
    lemma_crc16_of_byte(doubled@);
    lemma_crc16_of_byte(apart@);
    if a@.len() == 1 {
        lemma_crc16_of_byte(a@);
        let (x, y, d, z) = (a@[0], b@[0], doubled@[0], apart@[0]);
        let (m1, l1, h1, n1) = lemma_crc16_byte(0, x);
        let (m2, l2, h2, n2) = lemma_crc16_byte(0, y);
        let (m3, l3, h3, n3) = lemma_crc16_byte(0, d);
        let (m4, l4, h4, n4) = lemma_crc16_byte(0, z);
        lemma_crc16_bytes_relate(
            x,
            m1,
            l1,
            h1,
            n1,
            y,
            m2,
            l2,
            h2,
            n2,
            d,
            m3,
            l3,
            h3,
            n3,
            z,
            m4,
            l4,
            h4,
            n4,
        );
    }
}

/// The 16-bit checksums of related bytes.
proof fn lemma_crc16_bytes_relate(
    x: u8,
    m1: u16,
    l1: u16,
    h1: u16,
    n1: u16,
    y: u8,
    m2: u16,
    l2: u16,
    h2: u16,
    n2: u16,
    d: u8,
    m3: u16,
    l3: u16,
    h3: u16,
    n3: u16,
    z: u8,
    m4: u16,
    l4: u16,
    h4: u16,
    n4: u16,
)
    by (bit_vector)
    requires
        m1 == (((0u16 >> 8) & 0xFF) | (0u16 << 8)) ^ (x as u16),
        l1 == m1 ^ ((m1 & 0xFF) >> 4),
        h1 == l1 ^ (l1 << 12),
        n1 == h1 ^ ((h1 & 0xFF) << 5),
        m2 == (((0u16 >> 8) & 0xFF) | (0u16 << 8)) ^ (y as u16),
        l2 == m2 ^ ((m2 & 0xFF) >> 4),
        h2 == l2 ^ (l2 << 12),
        n2 == h2 ^ ((h2 & 0xFF) << 5),
        m3 == (((0u16 >> 8) & 0xFF) | (0u16 << 8)) ^ (d as u16),
        l3 == m3 ^ ((m3 & 0xFF) >> 4),
        h3 == l3 ^ (l3 << 12),
        n3 == h3 ^ ((h3 & 0xFF) << 5),
        m4 == (((0u16 >> 8) & 0xFF) | (0u16 << 8)) ^ (z as u16),
        l4 == m4 ^ ((m4 & 0xFF) >> 4),
        h4 == l4 ^ (l4 << 12),
        n4 == h4 ^ ((h4 & 0xFF) << 5),
    ensures
        x == 1 ==> n1 == 0x1021,
        x < 0x80 && d == x << 1 && n1 < 0x8000 ==> n3 == n1 << 1,
        x < 0x80 && d == x << 1 && n1 >= 0x8000 ==> n3 == (n1 << 1) ^ 0x1021,
        x < 0x80 ==> x << 1 == 2 * x,
        n1 < 0x8000 ==> n1 << 1 == 2 * n1,
        n1 >= 0x8000 ==> n1 << 1 == 2 * (n1 - 0x8000),
        z == x ^ y ==> n4 == n1 ^ n2,
{
}

/// The 16-bit checksum of a message that is longer by a byte is that of the single
/// byte in which this byte and the upper half of the checksum of the message
/// differ, with the lower half of the checksum of the message mixed into its upper
/// half.
pub proof fn law_crc16_of_longer_message(
    data: &[u8],
    longer: &[u8],
    single: &[u8],
    byte: u8,
    crc: u16,
    crc_longer: u16,
    crc_single: u16,
)
    requires
        call_ensures(crc16, (data,), crc),
        call_ensures(crc16, (longer,), crc_longer),
        call_ensures(crc16, (single,), crc_single),
        longer@ == data@.push(byte),
        single@ == seq![byte ^ ((crc / 0x100) as u8)],
    ensures
        crc_longer == crc_single ^ ((crc % 0x100 * 0x100) as u16),
{
    let other = byte ^ ((crc / 0x100) as u8);
    assert(longer@.drop_last() =~= data@);
    lemma_crc16_of_byte(single@);
    let (m1, l1, h1, n1) = lemma_crc16_byte(crc, byte);
    let (m2, l2, h2, n2) = lemma_crc16_byte(0, other);
    let upper = (crc / 0x100) as u8;
    assert(upper == crc / 0x100);
    assert(crc << 8 == crc % 0x100 * 0x100) by (bit_vector);
    assert(n1 == n2 ^ (crc << 8)) by (bit_vector)
        requires
            upper == crc / 0x100,
            other == byte ^ upper,
            m1 == (((crc >> 8) & 0xFF) | (crc << 8)) ^ (byte as u16),
            l1 == m1 ^ ((m1 & 0xFF) >> 4),
            h1 == l1 ^ (l1 << 12),
            n1 == h1 ^ ((h1 & 0xFF) << 5),
            m2 == (((0u16 >> 8) & 0xFF) | (0u16 << 8)) ^ (other as u16),
            l2 == m2 ^ ((m2 & 0xFF) >> 4),
            h2 == l2 ^ (l2 << 12),
            n2 == h2 ^ ((h2 & 0xFF) << 5),
    ;
}

/// The 7-bit checksum of a message of one byte.
proof fn lemma_crc7_of_byte(data: Seq<u8>)
    requires
        data.len() == 1,
    ensures
        crc7_remainder(data) == crc7_bits(0, data[0], 8),
{
    assert(crc7_remainder(data.drop_last()) == 0);
}

/// The 7-bit checksum, with the bit that follows it, is 1 for the empty message
/// and 0x13 for the byte 1. Without that bit, doubling a byte doubles its
/// checksum, less what is carried out of seven bits: a carry counts 0x12. And the
/// checksum of what two bytes do not have in common is what their checksums do
/// not have in common.
pub proof fn law_crc7_of_bytes(
    a: &[u8],
    b: &[u8],
    doubled: &[u8],
    apart: &[u8],
    crc_a: u8,
    crc_b: u8,
    crc_doubled: u8,
    crc_apart: u8,
)
    requires
        call_ensures(crc7, (a,), crc_a),
        call_ensures(crc7, (b,), crc_b),
        call_ensures(crc7, (doubled,), crc_doubled),
        call_ensures(crc7, (apart,), crc_apart),
        b@.len() == 1 && doubled@.len() == 1 && apart@.len() == 1,
        a@.len() <= 1,
    ensures
        crc_a % 2 == 1,
        a@.len() == 0 ==> crc_a == 1,
        a@.len() == 1 && a@[0] == 1 ==> crc_a == 0x13,
        a@.len() == 1 && doubled@[0] == 2 * a@[0] ==> crc_doubled - 1 == if crc_a < 0x80 {
            (2 * (crc_a - 1)) as u8
        } else {
            ((2 * (crc_a - 1) - 0x100) as u8) ^ 0x12
        },
        a@.len() == 1 && apart@[0] == a@[0] ^ b@[0] ==> crc_apart - 1 == ((crc_a - 1) as u8) ^ ((
        crc_b - 1) as u8),
{
    lemma_crc7_of_byte(b@);
    lemma_crc7_of_byte(doubled@);
    lemma_crc7_of_byte(apart@);
    if a@.len() == 1 {
        lemma_crc7_of_byte(a@);
        let (x, y, d, z) = (a@[0], b@[0], doubled@[0], apart@[0]);
        lemma_crc7_closed(x);
        lemma_crc7_closed(y);
        lemma_crc7_closed(d);
        lemma_crc7_closed(z);
        let (r1, r2, r3, r4) = (
            crc7_bits(0, x, 8),
            crc7_bits(0, y, 8),
            crc7_bits(0, d, 8),
            crc7_bits(0, z, 8),
        );
        let n1 = (2 * r1) as u8;
        let n2 = (2 * r2) as u8;
        let n3 = (2 * r3) as u8;
        let n4 = (2 * r4) as u8;
        lemma_crc7_bytes_relate(x, n1, y, n2, d, n3, z, n4);
    }
}

/// Twice the 7-bit checksum of a byte, without the bits one by one.
pub open spec fn crc7_closed(byte: u8) -> u8 {
    let m = byte ^ (byte >> 4) ^ (byte >> 7);
    (m << 1) ^ (m << 4)
}

/// The 7-bit checksum of a byte.
proof fn lemma_crc7_closed(byte: u8)
    ensures
        crc7_bits(0, byte, 8) < 0x80,
        2 * crc7_bits(0, byte, 8) == crc7_closed(byte),
{
    lemma_crc7_trace(0, byte);
    let c = crc7_trace(0, byte);
    lemma_crc7_closed_steps(byte, c[1], c[2], c[3], c[4], c[5], c[6], c[7], c[8]);
}

proof fn lemma_crc7_closed_steps(
    byte: u8,
    c1: u8,
    c2: u8,
    c3: u8,
    c4: u8,
    c5: u8,
    c6: u8,
    c7: u8,
    c8: u8,
)
    by (bit_vector)
    requires
        c1 == crc7_bit(0, message_bit(byte, 0)),
        c2 == crc7_bit(c1, message_bit(byte, 1)),
        c3 == crc7_bit(c2, message_bit(byte, 2)),
        c4 == crc7_bit(c3, message_bit(byte, 3)),
        c5 == crc7_bit(c4, message_bit(byte, 4)),
        c6 == crc7_bit(c5, message_bit(byte, 5)),
        c7 == crc7_bit(c6, message_bit(byte, 6)),
        c8 == crc7_bit(c7, message_bit(byte, 7)),
    ensures
        c8 < 0x80,
        c8 << 1 == crc7_closed(byte),
        c8 < 0x80 ==> c8 << 1 == 2 * c8,
{
}

/// The 7-bit checksums of related bytes.
proof fn lemma_crc7_bytes_relate(x: u8, n1: u8, y: u8, n2: u8, d: u8, n3: u8, z: u8, n4: u8)
    by (bit_vector)
    requires
        n1 == crc7_closed(x),
        n2 == crc7_closed(y),
        n3 == crc7_closed(d),
        n4 == crc7_closed(z),
    ensures
        x == 1 ==> n1 == 0x12,
        x < 0x80 && d == x << 1 && n1 < 0x80 ==> n3 == n1 << 1,
        x < 0x80 && d == x << 1 && n1 >= 0x80 ==> n3 == (n1 << 1) ^ 0x12,
        x < 0x80 ==> x << 1 == 2 * x,
        n1 < 0x80 ==> n1 << 1 == 2 * n1,
        n1 >= 0x80 ==> n1 << 1 == 2 * (n1 - 0x80),
        z == x ^ y ==> n4 == n1 ^ n2,
{
}

/// The 7-bit checksum of a message that is longer by a byte is that of the single
/// byte in which this byte and the checksum of the message, without the bit that
/// follows it, differ.
pub proof fn law_crc7_of_longer_message(
    data: &[u8],
    longer: &[u8],
    single: &[u8],
    byte: u8,
    crc: u8,
    crc_longer: u8,
    crc_single: u8,
)
    requires
        call_ensures(crc7, (data,), crc),
        call_ensures(crc7, (longer,), crc_longer),
        call_ensures(crc7, (single,), crc_single),
        longer@ == data@.push(byte),
        single@ == seq![byte ^ ((crc - 1) as u8)],
    ensures
        crc_longer == crc_single,
{
    let state = crc7_remainder(data@);
    let twice = (crc - 1) as u8;
    let other = byte ^ twice;
    assert(longer@.drop_last() =~= data@);
    lemma_crc7_of_byte(single@);
    lemma_crc7_trace(state, byte);
    lemma_crc7_trace(0, other);
    let c = crc7_trace(state, byte);
    let d = crc7_trace(0, other);
    assert(twice == 2 * state);
    lemma_crc7_absorbs(
        state,
        twice,
        byte,
        other,
        c[1],
        c[2],
        c[3],
        c[4],
        c[5],
        c[6],
        c[7],
        c[8],
        d[1],
        d[2],
        d[3],
        d[4],
        d[5],
        d[6],
        d[7],
        d[8],
    );
}

/// A division that goes on from a remainder is one from zero, with the remainder
/// mixed into the byte.
proof fn lemma_crc7_absorbs(
    state: u8,
    twice: u8,
    byte: u8,
    other: u8,
    c1: u8,
    c2: u8,
    c3: u8,
    c4: u8,
    c5: u8,
    c6: u8,
    c7: u8,
    c8: u8,
    d1: u8,
    d2: u8,
    d3: u8,
    d4: u8,
    d5: u8,
    d6: u8,
    d7: u8,
    d8: u8,
)
    by (bit_vector)
    requires
        twice == 2 * state,
        other == byte ^ twice,
        c1 == crc7_bit(state, message_bit(byte, 0)),
        c2 == crc7_bit(c1, message_bit(byte, 1)),
        c3 == crc7_bit(c2, message_bit(byte, 2)),
        c4 == crc7_bit(c3, message_bit(byte, 3)),
        c5 == crc7_bit(c4, message_bit(byte, 4)),
        c6 == crc7_bit(c5, message_bit(byte, 5)),
        c7 == crc7_bit(c6, message_bit(byte, 6)),
        c8 == crc7_bit(c7, message_bit(byte, 7)),
        d1 == crc7_bit(0, message_bit(other, 0)),
        d2 == crc7_bit(d1, message_bit(other, 1)),
        d3 == crc7_bit(d2, message_bit(other, 2)),
        d4 == crc7_bit(d3, message_bit(other, 3)),
        d5 == crc7_bit(d4, message_bit(other, 4)),
        d6 == crc7_bit(d5, message_bit(other, 5)),
        d7 == crc7_bit(d6, message_bit(other, 6)),
        d8 == crc7_bit(d7, message_bit(other, 7)),
    ensures
        c8 == d8,
{
}

/// The capacity of any version 2 card can be told in blocks, but for the largest,
/// whose number of blocks does not fit in 32 bits.
pub proof fn law_v2_capacity_is_possible(csd: &CsdV2, device_size: u32)
    requires
        call_ensures(CsdV2::device_size, (csd,), device_size),
        device_size < 0x3F_FFFF,
    ensures
        call_requires(CsdV2::card_capacity_blocks, (csd,)),
{
}

/// A command carries its number, and an application command too; the states and
/// the tokens are those that a card knows.
pub proof fn law_command_numbers()
    ensures
        CMD0 == 0 && CMD8 == 8 && CMD9 == 9 && CMD12 == 12 && CMD13 == 13 && CMD17 == 17,
        CMD18 == 18 && CMD24 == 24 && CMD25 == 25 && CMD55 == 55 && CMD58 == 58 && CMD59 == 59,
        ACMD41 == 41,
        ERROR_OK == 0,
        R1_READY_STATE == 0 && R1_IDLE_STATE == 1 && R1_ILLEGAL_COMMAND == 4,
        DATA_START_BLOCK == 0xFE && STOP_TRAN_TOKEN == 0xFD && WRITE_MULTIPLE_TOKEN == 0xFC,
        DATA_RES_MASK == 0x1F && DATA_RES_ACCEPTED == 5,
{
}

} // verus!
