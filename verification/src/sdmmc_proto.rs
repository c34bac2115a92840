//! SD card protocol: constants from the SD Specifications, the Card Specific
//! Data register and the checksums.
use vstd::arithmetic::power2::{lemma2_to64, lemma_pow2_adds, lemma_pow2_pos, pow2};
use vstd::bits::{lemma_u32_shl_is_mul, lemma_u32_shr_is_div, lemma_u64_shl_is_mul};
use vstd::prelude::*;

verus! {

// Possible errors the SD card can return

/// Card indicates last operation was a success
pub const ERROR_OK: u8 = 0x00;

// SD Card Commands

/// GO_IDLE_STATE - init card in spi mode if CS low
pub const CMD0: u8 = 0x00;

/// SEND_IF_COND - verify SD Memory Card interface operating condition.*/
pub const CMD8: u8 = 0x08;

/// SEND_CSD - read the Card Specific Data (CSD register)
pub const CMD9: u8 = 0x09;

/// STOP_TRANSMISSION - end multiple block read sequence
pub const CMD12: u8 = 0x0C;

/// SEND_STATUS - read the card status register
pub const CMD13: u8 = 0x0D;

/// READ_SINGLE_BLOCK - read a single data block from the card
pub const CMD17: u8 = 0x11;

/// READ_MULTIPLE_BLOCK - read a multiple data blocks from the card
pub const CMD18: u8 = 0x12;

/// WRITE_BLOCK - write a single data block to the card
pub const CMD24: u8 = 0x18;

/// WRITE_MULTIPLE_BLOCK - write blocks of data until a STOP_TRANSMISSION
pub const CMD25: u8 = 0x19;

/// APP_CMD - escape for application specific command
pub const CMD55: u8 = 0x37;

/// READ_OCR - read the OCR register of a card
pub const CMD58: u8 = 0x3A;

/// CRC_ON_OFF - enable or disable CRC checking
pub const CMD59: u8 = 0x3B;

/// SD_SEND_OP_COMD - Sends host capacity support information and activates
/// the card's initialization process
pub const ACMD41: u8 = 0x29;

/// status for card in the ready state
pub const R1_READY_STATE: u8 = 0x00;

/// status for card in the idle state
pub const R1_IDLE_STATE: u8 = 0x01;

/// status bit for illegal command
pub const R1_ILLEGAL_COMMAND: u8 = 0x04;

/// start data token for read or write single block*/
pub const DATA_START_BLOCK: u8 = 0xFE;

/// stop token for write multiple blocks*/
pub const STOP_TRAN_TOKEN: u8 = 0xFD;

/// start data token for write multiple blocks*/
pub const WRITE_MULTIPLE_TOKEN: u8 = 0xFC;

/// mask for data response tokens after a write block operation
pub const DATA_RES_MASK: u8 = 0x1F;

/// write data accepted token
pub const DATA_RES_ACCEPTED: u8 = 0x05;

/// Card Specific Data, version 1
pub struct CsdV1 {
    /// The 16-bytes of data in this Card Specific Data block
    pub data: [u8; 16],
}

/// Card Specific Data, version 2
pub struct CsdV2 {
    /// The 16-bytes of data in this Card Specific Data block
    pub data: [u8; 16],
}

/// Card Specific Data
pub enum Csd {
    /// A version 1 CSD
    V1(CsdV1),
    /// A version 2 CSD
    V2(CsdV2),
}

/// The number written in `num_bits` bits of `byte`, of which the least
/// significant one is bit `start_bit`.
pub open spec fn bit_field(byte: u8, start_bit: nat, num_bits: nat) -> int {
    (byte as int / pow2(start_bit) as int) % (pow2(num_bits) as int)
}

/// Two to the power of `n`.
fn power_of_two(n: u8) -> (power: u16)
    requires
        n <= 8,
    ensures
        power == pow2(n as nat),
{
    proof {
        lemma2_to64();
    }
    match n {
        0 => 1,
        1 => 2,
        2 => 4,
        3 => 8,
        4 => 16,
        5 => 32,
        6 => 64,
        7 => 128,
        _ => 256,
    }
}

/// Extracts a field from one byte.
fn extract_field(byte: u8, start_bit: u8, num_bits: u8) -> (value: u8)
    requires
        start_bit + num_bits <= 8,
    ensures
        value == bit_field(byte, start_bit as nat, num_bits as nat),
        value < pow2(num_bits as nat),
{
    let unit: u16 = power_of_two(start_bit);
    let size: u16 = power_of_two(num_bits);
    proof {
        lemma2_to64();
        lemma_pow2_pos(start_bit as nat);
        lemma_pow2_pos(num_bits as nat);
        vstd::arithmetic::div_mod::lemma_div_is_ordered_by_denominator(byte as int, 1, unit as int);
        vstd::arithmetic::div_mod::lemma_mod_bound(byte as int / unit as int, size as int);
        vstd::arithmetic::div_mod::lemma_mod_decreases(
            (byte as int / unit as int) as nat,
            size as nat,
        );
    }
    let quotient: u16 = byte as u16 / unit;
    (quotient % size) as u8
}

proof fn lemma_shift_fits(blocks: nat, multiplier: nat)
    requires
        blocks <= 4096,
        multiplier <= 24,
    ensures
        blocks * pow2(multiplier) <= u64::MAX,
        multiplier <= 15 ==> blocks * pow2(multiplier) <= u32::MAX,
{
    lemma2_to64();
    let limit: nat = if multiplier <= 15 {
        15
    } else {
        24
    };
    if multiplier < limit {
        vstd::arithmetic::power2::lemma_pow2_strictly_increases(multiplier, limit);
    }
    assert(blocks * pow2(multiplier) <= 4096 * pow2(limit)) by (nonlinear_arith)
        requires
            blocks <= 4096,
            pow2(multiplier) <= pow2(limit),
    ;
}

impl Default for CsdV1 {
    fn default() -> (csd: Self)
        ensures
            csd.data@ == Seq::new(16, |i: int| 0u8),
    {
        let csd = CsdV1 { data: [0u8; 16] };
        assert(csd.data@ =~= Seq::new(16, |i: int| 0u8));
        csd
    }
}

impl CsdV1 {
    /// Create a new, empty, CSD
    pub fn new() -> (csd: CsdV1)
        ensures
            csd.data@ == Seq::new(16, |i: int| 0u8),
    {
        CsdV1::default()
    }

    /// The field "csd ver".
    pub fn csd_ver(&self) -> (value: u8)
        ensures
            value == bit_field(self.data@[0], 6, 2),
    {
        extract_field(self.data[0], 6, 2)
    }

    /// The field "data read access time1".
    pub fn data_read_access_time1(&self) -> (value: u8)
        ensures
            value == bit_field(self.data@[1], 0, 8),
    {
        extract_field(self.data[1], 0, 8)
    }

    /// The field "data read access time2".
    pub fn data_read_access_time2(&self) -> (value: u8)
        ensures
            value == bit_field(self.data@[2], 0, 8),
    {
        extract_field(self.data[2], 0, 8)
    }

    /// The field "max data transfer rate".
    pub fn max_data_transfer_rate(&self) -> (value: u8)
        ensures
            value == bit_field(self.data@[3], 0, 8),
    {
        extract_field(self.data[3], 0, 8)
    }

    /// The field "card command classes".
    pub fn card_command_classes(&self) -> (value: u16)
        ensures
            value == self.spec_card_command_classes(),
            value < 4096,
    {
        proof {
            lemma2_to64();
        }
        let part1: u16 = extract_field(self.data[4], 0, 8) as u16;
        let part2: u16 = extract_field(self.data[5], 4, 4) as u16;
        part1 * 16 + part2
    }

    /// The field "card command classes".
    pub open spec fn spec_card_command_classes(&self) -> int {
        bit_field(self.data@[4], 0, 8) * 16 + bit_field(self.data@[5], 4, 4)
    }

    /// The field "read block length".
    pub fn read_block_length(&self) -> (value: u8)
        ensures
            value == self.spec_read_block_length(),
            value < 16,
    {
        proof {
            lemma2_to64();
        }
        extract_field(self.data[5], 0, 4)
    }

    /// The field "read block length".
    pub open spec fn spec_read_block_length(&self) -> int {
        bit_field(self.data@[5], 0, 4)
    }

    /// Whether the card sets "read partial blocks".
    pub fn read_partial_blocks(&self) -> (flag: bool)
        ensures
            flag == (bit_field(self.data@[6], 7, 1) == 1),
    {
        proof {
            lemma2_to64();
        }
        extract_field(self.data[6], 7, 1) != 0
    }

    /// Whether the card sets "write block misalignment".
    pub fn write_block_misalignment(&self) -> (flag: bool)
        ensures
            flag == (bit_field(self.data@[6], 6, 1) == 1),
    {
        proof {
            lemma2_to64();
        }
        extract_field(self.data[6], 6, 1) != 0
    }

    /// Whether the card sets "read block misalignment".
    pub fn read_block_misalignment(&self) -> (flag: bool)
        ensures
            flag == (bit_field(self.data@[6], 5, 1) == 1),
    {
        proof {
            lemma2_to64();
        }
        extract_field(self.data[6], 5, 1) != 0
    }

    /// Whether the card sets "dsr implemented".
    pub fn dsr_implemented(&self) -> (flag: bool)
        ensures
            flag == (bit_field(self.data@[6], 4, 1) == 1),
    {
        proof {
            lemma2_to64();
        }
        extract_field(self.data[6], 4, 1) != 0
    }

    /// The field "device size".
    pub fn device_size(&self) -> (value: u32)
        ensures
            value == self.spec_device_size(),
            value < 4096,
    {
        proof {
            lemma2_to64();
        }
        let part1: u32 = extract_field(self.data[6], 0, 2) as u32;
        let part2: u32 = extract_field(self.data[7], 0, 8) as u32;
        let part3: u32 = extract_field(self.data[8], 6, 2) as u32;
        part1 * 1024 + part2 * 4 + part3
    }

    /// The field "device size".
    pub open spec fn spec_device_size(&self) -> int {
        bit_field(self.data@[6], 0, 2) * 1024 + bit_field(self.data@[7], 0, 8) * 4 + bit_field(self.data@[8], 6, 2)
    }

    /// The field "max read current vdd max".
    pub fn max_read_current_vdd_max(&self) -> (value: u8)
        ensures
            value == bit_field(self.data@[8], 0, 3),
    {
        extract_field(self.data[8], 0, 3)
    }

    /// The field "max read current vdd min".
    pub fn max_read_current_vdd_min(&self) -> (value: u8)
        ensures
            value == bit_field(self.data@[8], 3, 3),
    {
        extract_field(self.data[8], 3, 3)
    }

    /// The field "max write current vdd max".
    pub fn max_write_current_vdd_max(&self) -> (value: u8)
        ensures
            value == bit_field(self.data@[9], 2, 3),
    {
        extract_field(self.data[9], 2, 3)
    }

    /// The field "max write current vdd min".
    pub fn max_write_current_vdd_min(&self) -> (value: u8)
        ensures
            value == bit_field(self.data@[9], 5, 3),
    {
        extract_field(self.data[9], 5, 3)
    }

    /// The field "device size multiplier".
    pub fn device_size_multiplier(&self) -> (value: u8)
        ensures
            value == self.spec_device_size_multiplier(),
            value < 8,
    {
        proof {
            lemma2_to64();
        }
        let part1: u8 = extract_field(self.data[9], 0, 2);
        let part2: u8 = extract_field(self.data[10], 7, 1);
        part1 * 2 + part2
    }

    /// The field "device size multiplier".
    pub open spec fn spec_device_size_multiplier(&self) -> int {
        bit_field(self.data@[9], 0, 2) * 2 + bit_field(self.data@[10], 7, 1)
    }

    /// Whether the card sets "erase single block enabled".
    pub fn erase_single_block_enabled(&self) -> (flag: bool)
        ensures
            flag == (bit_field(self.data@[10], 6, 1) == 1),
    {
        proof {
            lemma2_to64();
        }
        extract_field(self.data[10], 6, 1) != 0
    }

    /// The field "erase sector size".
    pub fn erase_sector_size(&self) -> (value: u8)
        ensures
            value == self.spec_erase_sector_size(),
            value < 128,
    {
        proof {
            lemma2_to64();
        }
        let part1: u8 = extract_field(self.data[10], 0, 6);
        let part2: u8 = extract_field(self.data[11], 7, 1);
        part1 * 2 + part2
    }

    /// The field "erase sector size".
    pub open spec fn spec_erase_sector_size(&self) -> int {
        bit_field(self.data@[10], 0, 6) * 2 + bit_field(self.data@[11], 7, 1)
    }

    /// The field "write protect group size".
    pub fn write_protect_group_size(&self) -> (value: u8)
        ensures
            value == bit_field(self.data@[11], 0, 7),
    {
        extract_field(self.data[11], 0, 7)
    }

    /// Whether the card sets "write protect group enable".
    pub fn write_protect_group_enable(&self) -> (flag: bool)
        ensures
            flag == (bit_field(self.data@[12], 7, 1) == 1),
    {
        proof {
            lemma2_to64();
        }
        extract_field(self.data[12], 7, 1) != 0
    }

    /// The field "write speed factor".
    pub fn write_speed_factor(&self) -> (value: u8)
        ensures
            value == bit_field(self.data@[12], 2, 3),
    {
        extract_field(self.data[12], 2, 3)
    }

    /// The field "max write data length".
    pub fn max_write_data_length(&self) -> (value: u8)
        ensures
            value == self.spec_max_write_data_length(),
            value < 16,
    {
        proof {
            lemma2_to64();
        }
        let part1: u8 = extract_field(self.data[12], 0, 2);
        let part2: u8 = extract_field(self.data[13], 6, 2);
        part1 * 4 + part2
    }

    /// The field "max write data length".
    pub open spec fn spec_max_write_data_length(&self) -> int {
        bit_field(self.data@[12], 0, 2) * 4 + bit_field(self.data@[13], 6, 2)
    }

    /// Whether the card sets "write partial blocks".
    pub fn write_partial_blocks(&self) -> (flag: bool)
        ensures
            flag == (bit_field(self.data@[13], 5, 1) == 1),
    {
        proof {
            lemma2_to64();
        }
        extract_field(self.data[13], 5, 1) != 0
    }

    /// The field "file format".
    pub fn file_format(&self) -> (value: u8)
        ensures
            value == bit_field(self.data@[14], 2, 2),
    {
        extract_field(self.data[14], 2, 2)
    }

    /// Whether the card sets "temporary write protection".
    pub fn temporary_write_protection(&self) -> (flag: bool)
        ensures
            flag == (bit_field(self.data@[14], 4, 1) == 1),
    {
        proof {
            lemma2_to64();
        }
        extract_field(self.data[14], 4, 1) != 0
    }

    /// Whether the card sets "permanent write protection".
    pub fn permanent_write_protection(&self) -> (flag: bool)
        ensures
            flag == (bit_field(self.data@[14], 5, 1) == 1),
    {
        proof {
            lemma2_to64();
        }
        extract_field(self.data[14], 5, 1) != 0
    }

    /// Whether the card sets "copy flag set".
    pub fn copy_flag_set(&self) -> (flag: bool)
        ensures
            flag == (bit_field(self.data@[14], 6, 1) == 1),
    {
        proof {
            lemma2_to64();
        }
        extract_field(self.data[14], 6, 1) != 0
    }

    /// Whether the card sets "file format group set".
    pub fn file_format_group_set(&self) -> (flag: bool)
        ensures
            flag == (bit_field(self.data@[14], 7, 1) == 1),
    {
        proof {
            lemma2_to64();
        }
        extract_field(self.data[14], 7, 1) != 0
    }

    /// The field "crc".
    pub fn crc(&self) -> (value: u8)
        ensures
            value == bit_field(self.data@[15], 0, 8),
    {
        extract_field(self.data[15], 0, 8)
    }

    /// The card capacity in bytes.
    pub open spec fn spec_card_capacity_bytes(&self) -> int {
        (self.spec_device_size() + 1) * pow2(
            (self.spec_device_size_multiplier() + self.spec_read_block_length() + 2) as nat,
        )
    }

    /// Returns the card capacity in bytes
    pub fn card_capacity_bytes(&self) -> (bytes: u64)
        ensures
            bytes == self.spec_card_capacity_bytes(),
    {
        let multiplier: u8 = self.device_size_multiplier() + self.read_block_length() + 2;
        let blocks: u64 = (self.device_size() as u64) + 1;
        proof {
            lemma_shift_fits(blocks as nat, multiplier as nat);
            lemma_u64_shl_is_mul(blocks, multiplier as u64);
        }
        blocks << multiplier
    }

    /// Returns the card capacity in 512-byte blocks
    pub fn card_capacity_blocks(&self) -> (blocks: u32)
        ensures
            blocks == self.spec_card_capacity_bytes() / 512,
    {
        let exponent: u8 = self.device_size_multiplier() + self.read_block_length();
        let size: u32 = self.device_size() + 1;
        proof {
            lemma_bytes_in_blocks(size as int, exponent as nat);
        }
        if exponent >= 7 {
            let multiplier: u8 = exponent - 7;
            proof {
                lemma_shift_fits(size as nat, multiplier as nat);
                lemma_u32_shl_is_mul(size, multiplier as u32);
            }
            size << multiplier
        } else {
            let divisor: u8 = 7 - exponent;
            proof {
                lemma_u32_shr_is_div(size, divisor as u32);
            }
            size >> divisor
        }
    }
}

/// How many whole blocks of 512 bytes there are in `size` times a power of two.
proof fn lemma_bytes_in_blocks(size: int, exponent: nat)
    requires
        size >= 0,
    ensures
        exponent >= 7 ==> {
            &&& size * pow2(exponent + 2) == 512 * (size * pow2((exponent - 7) as nat))
            &&& size * pow2(exponent + 2) / 512 == size * pow2((exponent - 7) as nat)
        },
        exponent < 7 ==> size * pow2(exponent + 2) / 512 == size / pow2((7 - exponent) as nat) as int,
{
    lemma2_to64();
    if exponent >= 7 {
        let small = pow2((exponent - 7) as nat) as int;
        lemma_pow2_adds((exponent - 7) as nat, 9);
        assert(size * (small * 512) == 512 * (size * small)) by (nonlinear_arith);
    } else {
        let p = pow2(exponent + 2) as int;
        let q = pow2((7 - exponent) as nat) as int;
        lemma_pow2_adds(exponent + 2, (7 - exponent) as nat);
        lemma_pow2_pos(exponent + 2);
        lemma_pow2_pos((7 - exponent) as nat);
        let d = size / q;
        let r = size % q;
        vstd::arithmetic::div_mod::lemma_fundamental_div_mod(size, q);
        assert(size * p == 512 * d + r * p && 0 <= r * p < 512) by (nonlinear_arith)
            requires
                size == q * d + r,
                0 <= r < q,
                p * q == 512,
                p > 0,
        ;
    }
}

impl Default for CsdV2 {
    fn default() -> (csd: Self)
        ensures
            csd.data@ == Seq::new(16, |i: int| 0u8),
    {
        let csd = CsdV2 { data: [0u8; 16] };
        assert(csd.data@ =~= Seq::new(16, |i: int| 0u8));
        csd
    }
}

impl CsdV2 {
    /// Create a new, empty, CSD
    pub fn new() -> (csd: CsdV2)
        ensures
            csd.data@ == Seq::new(16, |i: int| 0u8),
    {
        CsdV2::default()
    }

    /// The field "csd ver".
    pub fn csd_ver(&self) -> (value: u8)
        ensures
            value == bit_field(self.data@[0], 6, 2),
    {
        extract_field(self.data[0], 6, 2)
    }

    /// The field "data read access time1".
    pub fn data_read_access_time1(&self) -> (value: u8)
        ensures
            value == bit_field(self.data@[1], 0, 8),
    {
        extract_field(self.data[1], 0, 8)
    }

    /// The field "data read access time2".
    pub fn data_read_access_time2(&self) -> (value: u8)
        ensures
            value == bit_field(self.data@[2], 0, 8),
    {
        extract_field(self.data[2], 0, 8)
    }

    /// The field "max data transfer rate".
    pub fn max_data_transfer_rate(&self) -> (value: u8)
        ensures
            value == bit_field(self.data@[3], 0, 8),
    {
        extract_field(self.data[3], 0, 8)
    }

    /// The field "card command classes".
    pub fn card_command_classes(&self) -> (value: u16)
        ensures
            value == self.spec_card_command_classes(),
            value < 4096,
    {
        proof {
            lemma2_to64();
        }
        let part1: u16 = extract_field(self.data[4], 0, 8) as u16;
        let part2: u16 = extract_field(self.data[5], 4, 4) as u16;
        part1 * 16 + part2
    }

    /// The field "card command classes".
    pub open spec fn spec_card_command_classes(&self) -> int {
        bit_field(self.data@[4], 0, 8) * 16 + bit_field(self.data@[5], 4, 4)
    }

    /// The field "read block length".
    pub fn read_block_length(&self) -> (value: u8)
        ensures
            value == self.spec_read_block_length(),
            value < 16,
    {
        proof {
            lemma2_to64();
        }
        extract_field(self.data[5], 0, 4)
    }

    /// The field "read block length".
    pub open spec fn spec_read_block_length(&self) -> int {
        bit_field(self.data@[5], 0, 4)
    }

    /// Whether the card sets "read partial blocks".
    pub fn read_partial_blocks(&self) -> (flag: bool)
        ensures
            flag == (bit_field(self.data@[6], 7, 1) == 1),
    {
        proof {
            lemma2_to64();
        }
        extract_field(self.data[6], 7, 1) != 0
    }

    /// Whether the card sets "write block misalignment".
    pub fn write_block_misalignment(&self) -> (flag: bool)
        ensures
            flag == (bit_field(self.data@[6], 6, 1) == 1),
    {
        proof {
            lemma2_to64();
        }
        extract_field(self.data[6], 6, 1) != 0
    }

    /// Whether the card sets "read block misalignment".
    pub fn read_block_misalignment(&self) -> (flag: bool)
        ensures
            flag == (bit_field(self.data@[6], 5, 1) == 1),
    {
        proof {
            lemma2_to64();
        }
        extract_field(self.data[6], 5, 1) != 0
    }

    /// Whether the card sets "dsr implemented".
    pub fn dsr_implemented(&self) -> (flag: bool)
        ensures
            flag == (bit_field(self.data@[6], 4, 1) == 1),
    {
        proof {
            lemma2_to64();
        }
        extract_field(self.data[6], 4, 1) != 0
    }

    /// The field "device size".
    pub fn device_size(&self) -> (value: u32)
        ensures
            value == self.spec_device_size(),
            value < 4194304,
    {
        proof {
            lemma2_to64();
        }
        let part1: u32 = extract_field(self.data[7], 0, 6) as u32;
        let part2: u32 = extract_field(self.data[8], 0, 8) as u32;
        let part3: u32 = extract_field(self.data[9], 0, 8) as u32;
        part1 * 65536 + part2 * 256 + part3
    }

    /// The field "device size".
    pub open spec fn spec_device_size(&self) -> int {
        bit_field(self.data@[7], 0, 6) * 65536 + bit_field(self.data@[8], 0, 8) * 256 + bit_field(self.data@[9], 0, 8)
    }

    /// Whether the card sets "erase single block enabled".
    pub fn erase_single_block_enabled(&self) -> (flag: bool)
        ensures
            flag == (bit_field(self.data@[10], 6, 1) == 1),
    {
        proof {
            lemma2_to64();
        }
        extract_field(self.data[10], 6, 1) != 0
    }

    /// The field "erase sector size".
    pub fn erase_sector_size(&self) -> (value: u8)
        ensures
            value == self.spec_erase_sector_size(),
            value < 128,
    {
        proof {
            lemma2_to64();
        }
        let part1: u8 = extract_field(self.data[10], 0, 6);
        let part2: u8 = extract_field(self.data[11], 7, 1);
        part1 * 2 + part2
    }

    /// The field "erase sector size".
    pub open spec fn spec_erase_sector_size(&self) -> int {
        bit_field(self.data@[10], 0, 6) * 2 + bit_field(self.data@[11], 7, 1)
    }

    /// The field "write protect group size".
    pub fn write_protect_group_size(&self) -> (value: u8)
        ensures
            value == bit_field(self.data@[11], 0, 7),
    {
        extract_field(self.data[11], 0, 7)
    }

    /// Whether the card sets "write protect group enable".
    pub fn write_protect_group_enable(&self) -> (flag: bool)
        ensures
            flag == (bit_field(self.data@[12], 7, 1) == 1),
    {
        proof {
            lemma2_to64();
        }
        extract_field(self.data[12], 7, 1) != 0
    }

    /// The field "write speed factor".
    pub fn write_speed_factor(&self) -> (value: u8)
        ensures
            value == bit_field(self.data@[12], 2, 3),
    {
        extract_field(self.data[12], 2, 3)
    }

    /// The field "max write data length".
    pub fn max_write_data_length(&self) -> (value: u8)
        ensures
            value == self.spec_max_write_data_length(),
            value < 16,
    {
        proof {
            lemma2_to64();
        }
        let part1: u8 = extract_field(self.data[12], 0, 2);
        let part2: u8 = extract_field(self.data[13], 6, 2);
        part1 * 4 + part2
    }

    /// The field "max write data length".
    pub open spec fn spec_max_write_data_length(&self) -> int {
        bit_field(self.data@[12], 0, 2) * 4 + bit_field(self.data@[13], 6, 2)
    }

    /// Whether the card sets "write partial blocks".
    pub fn write_partial_blocks(&self) -> (flag: bool)
        ensures
            flag == (bit_field(self.data@[13], 5, 1) == 1),
    {
        proof {
            lemma2_to64();
        }
        extract_field(self.data[13], 5, 1) != 0
    }

    /// The field "file format".
    pub fn file_format(&self) -> (value: u8)
        ensures
            value == bit_field(self.data@[14], 2, 2),
    {
        extract_field(self.data[14], 2, 2)
    }

    /// Whether the card sets "temporary write protection".
    pub fn temporary_write_protection(&self) -> (flag: bool)
        ensures
            flag == (bit_field(self.data@[14], 4, 1) == 1),
    {
        proof {
            lemma2_to64();
        }
        extract_field(self.data[14], 4, 1) != 0
    }

    /// Whether the card sets "permanent write protection".
    pub fn permanent_write_protection(&self) -> (flag: bool)
        ensures
            flag == (bit_field(self.data@[14], 5, 1) == 1),
    {
        proof {
            lemma2_to64();
        }
        extract_field(self.data[14], 5, 1) != 0
    }

    /// Whether the card sets "copy flag set".
    pub fn copy_flag_set(&self) -> (flag: bool)
        ensures
            flag == (bit_field(self.data@[14], 6, 1) == 1),
    {
        proof {
            lemma2_to64();
        }
        extract_field(self.data[14], 6, 1) != 0
    }

    /// Whether the card sets "file format group set".
    pub fn file_format_group_set(&self) -> (flag: bool)
        ensures
            flag == (bit_field(self.data@[14], 7, 1) == 1),
    {
        proof {
            lemma2_to64();
        }
        extract_field(self.data[14], 7, 1) != 0
    }

    /// The field "crc".
    pub fn crc(&self) -> (value: u8)
        ensures
            value == bit_field(self.data@[15], 0, 8),
    {
        extract_field(self.data[15], 0, 8)
    }

    /// The card capacity in bytes.
    pub open spec fn spec_card_capacity_bytes(&self) -> int {
        (self.spec_device_size() + 1) * 512 * 1024
    }

    /// Returns the card capacity in bytes
    pub fn card_capacity_bytes(&self) -> (bytes: u64)
        ensures
            bytes == self.spec_card_capacity_bytes(),
    {
        ((self.device_size() as u64) + 1) * 512 * 1024
    }

    /// Returns the card capacity in 512-byte blocks
    pub fn card_capacity_blocks(&self) -> (blocks: u32)
        requires
            self.spec_device_size() + 1 < 0x40_0000,
        ensures
            blocks == (self.spec_device_size() + 1) * 1024,
    {
        (self.device_size() + 1) * 1024
    }
}

/// The capacity of a version 1 card in bytes is 512 times its capacity in
/// blocks, where a card is made up of whole blocks: where the size multiplier
/// and the length of its own blocks come to seven at least. Otherwise less than
/// a block is left over.
pub proof fn law_v1_capacities_agree(csd: CsdV1)
    ensures
        ({
            let exponent = csd.spec_device_size_multiplier() + csd.spec_read_block_length();
            let bytes = csd.spec_card_capacity_bytes();
            let blocks = bytes / 512;
            &&& 512 * blocks <= bytes < 512 * (blocks + 1)
            &&& exponent >= 7 ==> {
                &&& bytes == 512 * blocks
                &&& blocks == (csd.spec_device_size() + 1) * pow2((exponent - 7) as nat)
            }
        }),
{
    let exponent = csd.spec_device_size_multiplier() + csd.spec_read_block_length();
    if exponent >= 7 {
        assert(csd.spec_device_size() >= 0) by {
            lemma2_to64();
        }
        lemma_bytes_in_blocks(csd.spec_device_size() + 1, exponent as nat);
    }
}

/// The capacity of a version 2 card in bytes is 512 times its capacity in
/// blocks.
pub proof fn law_v2_capacities_agree(csd: CsdV2)
    ensures
        csd.spec_card_capacity_bytes() == 512 * ((csd.spec_device_size() + 1) * 1024),
{
}

/// Bit `i` of a byte, counted from the most significant one.
pub open spec fn message_bit(byte: u8, i: u8) -> bool {
    (byte >> ((7 - i) as u8)) & 1 == 1
}

/// Takes one message bit into a division by x^7 + x^3 + 1.
pub open spec fn crc7_bit(crc: u8, bit: bool) -> u8 {
    if (crc >= 0x40) != bit {
        ((crc << 1) & 0x7F) ^ 0x09
    } else {
        (crc << 1) & 0x7F
    }
}

/// Takes the first `n` bits of a byte into a division by x^7 + x^3 + 1.
pub open spec fn crc7_bits(crc: u8, byte: u8, n: int) -> u8
    decreases n,
{
    if n <= 0 {
        crc
    } else {
        crc7_bit(crc7_bits(crc, byte, n - 1), message_bit(byte, (n - 1) as u8))
    }
}

/// The remainder of the message, seven zero bits appended, on division by
/// x^7 + x^3 + 1: a polynomial of degree below seven.
pub open spec fn crc7_remainder(data: Seq<u8>) -> u8
    decreases data.len(),
{
    if data.len() == 0 {
        0
    } else {
        crc7_bits(crc7_remainder(data.drop_last()), data.last(), 8)
    }
}

/// Takes one message bit into a division by x^16 + x^12 + x^5 + 1.
pub open spec fn crc16_bit(crc: u16, bit: bool) -> u16 {
    if (crc >= 0x8000) != bit {
        (crc << 1) ^ 0x1021
    } else {
        crc << 1
    }
}

/// Takes the first `n` bits of a byte into a division by x^16 + x^12 + x^5 + 1.
pub open spec fn crc16_bits(crc: u16, byte: u8, n: int) -> u16
    decreases n,
{
    if n <= 0 {
        crc
    } else {
        crc16_bit(crc16_bits(crc, byte, n - 1), message_bit(byte, (n - 1) as u8))
    }
}

/// The remainder of the message, sixteen zero bits appended, on division by
/// x^16 + x^12 + x^5 + 1: a polynomial of degree below sixteen.
pub open spec fn crc16_remainder(data: Seq<u8>) -> u16
    decreases data.len(),
{
    if data.len() == 0 {
        0
    } else {
        crc16_bits(crc16_remainder(data.drop_last()), data.last(), 8)
    }
}

/// Perform the 7-bit CRC used on the SD card
pub fn crc7(data: &[u8]) -> (checksum: u8)
    ensures
        checksum == 2 * crc7_remainder(data@) + 1,
{
    let mut crc: u8 = 0;
    let mut i: usize = 0;
    assert(0u8 & 0x7F == 0u8) by (bit_vector);
    while i < data.len()
        invariant
            i <= data.len(),
            crc & 0x7F == crc7_remainder(data@.take(i as int)),
        decreases data.len() - i,
    {
        let byte: u8 = data[i];
        let ghost start = crc & 0x7F;
        let mut d: u8 = byte;
        let mut bit: u8 = 0;
        assert(byte == byte << 0) by (bit_vector);
        while bit < 8
            invariant
                bit <= 8,
                d == byte << bit,
                crc & 0x7F == crc7_bits(start, byte, bit as int),
            decreases 8 - bit,
        {
            let ghost before = crc;
            let ghost d_before = d;
            crc = crc << 1;
            if ((d & 0x80) ^ (crc & 0x80)) != 0 {
                crc = crc ^ 0x09;
            }
            d = d << 1;
            proof {
                assert(((d_before & 0x80) ^ ((before << 1) & 0x80) != 0) == (((before & 0x7F)
                    >= 0x40) != ((byte >> ((7 - bit) as u8)) & 1 == 1))) by (bit_vector)
                    requires
                        bit < 8,
                        d_before == byte << bit,
                ;
                assert(((before << 1) ^ 0x09) & 0x7F == ((((before & 0x7F) << 1) & 0x7F) ^ 0x09))
                    by (bit_vector);
                assert((before << 1) & 0x7F == ((before & 0x7F) << 1) & 0x7F) by (bit_vector);
                assert((byte << bit) << 1 == byte << ((bit + 1) as u8)) by (bit_vector)
                    requires
                        bit < 8,
                ;
            }
            bit = bit + 1;
        }
        assert(data@.take(i + 1).drop_last() =~= data@.take(i as int));
        i = i + 1;
    }
    assert(data@.take(i as int) =~= data@);
    assert((crc << 1) | 1 == 2 * (crc & 0x7F) + 1) by (bit_vector);
    (crc << 1) | 1
}

/// Perform the X25 CRC calculation, as used for data blocks.
pub fn crc16(data: &[u8]) -> (checksum: u16)
    ensures
        checksum == crc16_remainder(data@),
{
    let mut crc: u16 = 0;
    let mut i: usize = 0;
    while i < data.len()
        invariant
            i <= data.len(),
            crc == crc16_remainder(data@.take(i as int)),
        decreases data.len() - i,
    {
        let byte: u8 = data[i];
        let swapped: u16 = ((crc >> 8) & 0xFF) | (crc << 8);
        let mixed: u16 = swapped ^ (byte as u16);
        let low: u16 = mixed ^ ((mixed & 0xFF) >> 4);
        let high: u16 = low ^ (low << 12);
        let next: u16 = high ^ ((high & 0xFF) << 5);
        proof {
            lemma_crc16_trace(crc, byte);
            let c = crc16_trace(crc, byte);
            lemma_crc16_table_free(
                crc, byte, c[1], c[2], c[3], c[4], c[5], c[6], c[7], c[8],
                swapped, mixed, low, high, next,
            );
            assert(data@.take(i + 1).drop_last() =~= data@.take(i as int));
        }
        crc = next;
        i = i + 1;
    }
    assert(data@.take(i as int) =~= data@);
    crc
}

/// The states that a division goes through within one byte.
pub open spec fn crc16_trace(crc: u16, byte: u8) -> Seq<u16> {
    Seq::new(9, |n: int| crc16_bits(crc, byte, n))
}

pub(crate) proof fn lemma_crc16_trace(crc: u16, byte: u8)
    ensures
        ({
            let c = crc16_trace(crc, byte);
            &&& c[0] == crc
            &&& c[1] == crc16_bit(c[0], message_bit(byte, 0))
            &&& c[2] == crc16_bit(c[1], message_bit(byte, 1))
            &&& c[3] == crc16_bit(c[2], message_bit(byte, 2))
            &&& c[4] == crc16_bit(c[3], message_bit(byte, 3))
            &&& c[5] == crc16_bit(c[4], message_bit(byte, 4))
            &&& c[6] == crc16_bit(c[5], message_bit(byte, 5))
            &&& c[7] == crc16_bit(c[6], message_bit(byte, 6))
            &&& c[8] == crc16_bit(c[7], message_bit(byte, 7))
            &&& c[8] == crc16_bits(crc, byte, 8)
        }),
{
    reveal_with_fuel(crc16_bits, 2);
}

#[verifier::rlimit(50)]
pub(crate) proof fn lemma_crc16_table_free(
    crc: u16,
    byte: u8,
    c1: u16,
    c2: u16,
    c3: u16,
    c4: u16,
    c5: u16,
    c6: u16,
    c7: u16,
    c8: u16,
    swapped: u16,
    mixed: u16,
    low: u16,
    high: u16,
    next: u16,
)
    by (bit_vector)
    requires
        c1 == crc16_bit(crc, message_bit(byte, 0)),
        c2 == crc16_bit(c1, message_bit(byte, 1)),
        c3 == crc16_bit(c2, message_bit(byte, 2)),
        c4 == crc16_bit(c3, message_bit(byte, 3)),
        c5 == crc16_bit(c4, message_bit(byte, 4)),
        c6 == crc16_bit(c5, message_bit(byte, 5)),
        c7 == crc16_bit(c6, message_bit(byte, 6)),
        c8 == crc16_bit(c7, message_bit(byte, 7)),
        swapped == ((crc >> 8) & 0xFF) | (crc << 8),
        mixed == swapped ^ (byte as u16),
        low == mixed ^ ((mixed & 0xFF) >> 4),
        high == low ^ (low << 12),
        next == high ^ ((high & 0xFF) << 5),
    ensures
        next == c8,
{
}

/// A message followed by its checksum, the high byte first, has the checksum
/// zero.
pub proof fn law_crc16_residue(data: Seq<u8>)
    ensures
        crc16_remainder(
            data.push((crc16_remainder(data) / 256) as u8).push(
                (crc16_remainder(data) % 256) as u8,
            ),
        ) == 0,
{
    let crc = crc16_remainder(data);
    let high = (crc / 256) as u8;
    let low = (crc % 256) as u8;
    assert(data.push(high).push(low).drop_last() =~= data.push(high));
    assert(data.push(high).drop_last() =~= data);
    assert(crc == crc << 0) by (bit_vector);
    lemma_crc16_cancels(crc, crc, high, 0, 8);
    lemma_crc16_cancels(crc, crc << 8, low, 8, 8);
    assert(crc << 16 == 0) by (bit_vector);
    let first = data.push(high);
    assert(crc16_remainder(first) == crc16_bits(crc, high, 8));
    assert(crc16_remainder(first.push(low)) == crc16_bits(crc16_remainder(first), low, 8));
}

/// Feeding the checksum into the division cancels it bit by bit.
proof fn lemma_crc16_cancels(crc: u16, state: u16, byte: u8, fed: u16, n: int)
    requires
        0 <= n <= 8,
        fed == 0 && byte == crc / 256 || fed == 8 && byte == crc % 256,
        state == crc << fed,
    ensures
        crc16_bits(state, byte, n) == crc << ((fed + n) as u16),
    decreases n,
{
    if n > 0 {
        lemma_crc16_cancels(crc, state, byte, fed, n - 1);
        let k = (n - 1) as u8;
        assert(crc16_bit(crc << ((fed + k) as u16), message_bit(byte, k)) == crc << ((fed + k
            + 1) as u16)) by (bit_vector)
            requires
                k < 8,
                fed == 0 && byte == crc / 256 || fed == 8 && byte == crc % 256,
        ;
    }
}

proof fn lemma_crc16_bits_injective(c1: u16, c2: u16, byte: u8, n: int)
    requires
        crc16_bits(c1, byte, n) == crc16_bits(c2, byte, n),
    ensures
        c1 == c2,
    decreases n,
{
    if n > 0 {
        let d1 = crc16_bits(c1, byte, n - 1);
        let d2 = crc16_bits(c2, byte, n - 1);
        let bit = message_bit(byte, (n - 1) as u8);
        assert(crc16_bit(d1, bit) == crc16_bit(d2, bit) ==> d1 == d2) by (bit_vector);
        lemma_crc16_bits_injective(c1, c2, byte, n - 1);
    }
}

proof fn lemma_crc16_tells_bytes_apart(
    crc: u16,
    byte: u8,
    other: u8,
    c1: u16,
    c2: u16,
    c3: u16,
    c4: u16,
    c5: u16,
    c6: u16,
    c7: u16,
    c8: u16,
    d1: u16,
    d2: u16,
    d3: u16,
    d4: u16,
    d5: u16,
    d6: u16,
    d7: u16,
    d8: u16,
)
    by (bit_vector)
    requires
        c1 == crc16_bit(crc, message_bit(byte, 0)),
        c2 == crc16_bit(c1, message_bit(byte, 1)),
        c3 == crc16_bit(c2, message_bit(byte, 2)),
        c4 == crc16_bit(c3, message_bit(byte, 3)),
        c5 == crc16_bit(c4, message_bit(byte, 4)),
        c6 == crc16_bit(c5, message_bit(byte, 5)),
        c7 == crc16_bit(c6, message_bit(byte, 6)),
        c8 == crc16_bit(c7, message_bit(byte, 7)),
        d1 == crc16_bit(crc, message_bit(other, 0)),
        d2 == crc16_bit(d1, message_bit(other, 1)),
        d3 == crc16_bit(d2, message_bit(other, 2)),
        d4 == crc16_bit(d3, message_bit(other, 3)),
        d5 == crc16_bit(d4, message_bit(other, 4)),
        d6 == crc16_bit(d5, message_bit(other, 5)),
        d7 == crc16_bit(d6, message_bit(other, 6)),
        d8 == crc16_bit(d7, message_bit(other, 7)),
        byte != other,
    ensures
        c8 != d8,
{
}

/// Changing a single byte of a message changes its 16-bit checksum.
pub proof fn law_crc16_notices_one_byte(data: Seq<u8>, at: int, byte: u8)
    requires
        0 <= at < data.len(),
        byte != data[at],
    ensures
        crc16_remainder(data.update(at, byte)) != crc16_remainder(data),
    decreases data.len(),
{
    let changed = data.update(at, byte);
    let crc = crc16_remainder(data.drop_last());
    if at == data.len() - 1 {
        assert(changed.drop_last() =~= data.drop_last());
        lemma_crc16_trace(crc, byte);
        lemma_crc16_trace(crc, data.last());
        let c = crc16_trace(crc, byte);
        let d = crc16_trace(crc, data.last());
        lemma_crc16_tells_bytes_apart(
            crc,
            byte,
            data.last(),
            c[1],
            c[2],
            c[3],
            c[4],
            c[5],
            c[6],
            c[7],
            c[8],
            d[1],
            d[2],
            d[3],
            d[4],
            d[5],
            d[6],
            d[7],
            d[8],
        );
    } else {
        law_crc16_notices_one_byte(data.drop_last(), at, byte);
        assert(changed.drop_last() =~= data.drop_last().update(at, byte));
        if crc16_remainder(changed) == crc16_remainder(data) {
            lemma_crc16_bits_injective(
                crc16_remainder(changed.drop_last()),
                crc,
                data.last(),
                8,
            );
        }
    }
}

proof fn lemma_crc7_bits_below_128(crc: u8, byte: u8, n: int)
    requires
        crc < 128,
    ensures
        crc7_bits(crc, byte, n) < 128,
    decreases n,
{
    if n > 0 {
        lemma_crc7_bits_below_128(crc, byte, n - 1);
        let c = crc7_bits(crc, byte, n - 1);
        let bit = message_bit(byte, (n - 1) as u8);
        assert(crc7_bit(c, bit) < 128) by (bit_vector);
    }
}

proof fn lemma_crc7_below_128(data: Seq<u8>)
    ensures
        crc7_remainder(data) < 128,
    decreases data.len(),
{
    if data.len() > 0 {
        lemma_crc7_below_128(data.drop_last());
        lemma_crc7_bits_below_128(crc7_remainder(data.drop_last()), data.last(), 8);
    }
}

/// The 7-bit checksum of a message followed by its own checksum byte does not
/// depend on the message.
pub proof fn law_crc7_residue(data: Seq<u8>)
    ensures
        crc7_remainder(data.push((2 * crc7_remainder(data) + 1) as u8)) == 0x09,
{
    let crc = crc7_remainder(data);
    let checksum = (2 * crc + 1) as u8;
    lemma_crc7_below_128(data);
    lemma_crc7_cancels(crc, checksum, 7);
    assert(data.push(checksum).drop_last() =~= data);
    assert(crc7_bit((crc << 7) & 0x7F, message_bit(checksum, 7)) == 0x09) by (bit_vector)
        requires
            checksum == 2 * crc + 1,
    ;
}

/// Feeding the checksum into the division cancels it bit by bit.
proof fn lemma_crc7_cancels(crc: u8, checksum: u8, n: int)
    requires
        0 <= n <= 7,
        crc < 128,
        checksum == 2 * crc + 1,
    ensures
        crc7_bits(crc, checksum, n) == (crc << (n as u8)) & 0x7F,
    decreases n,
{
    if n > 0 {
        lemma_crc7_cancels(crc, checksum, n - 1);
        let k = (n - 1) as u8;
        assert(crc7_bit((crc << k) & 0x7F, message_bit(checksum, k)) == (crc << ((k + 1) as u8))
            & 0x7F) by (bit_vector)
            requires
                k < 7,
                crc < 128,
                checksum == 2 * crc + 1,
        ;
    } else {
        assert((crc << 0) & 0x7F == crc) by (bit_vector)
            requires
                crc < 128,
        ;
    }
}

proof fn lemma_crc7_bits_injective(c1: u8, c2: u8, byte: u8, n: int)
    requires
        c1 < 128,
        c2 < 128,
        crc7_bits(c1, byte, n) == crc7_bits(c2, byte, n),
    ensures
        c1 == c2,
    decreases n,
{
    if n > 0 {
        let d1 = crc7_bits(c1, byte, n - 1);
        let d2 = crc7_bits(c2, byte, n - 1);
        let bit = message_bit(byte, (n - 1) as u8);
        lemma_crc7_bits_below_128(c1, byte, n - 1);
        lemma_crc7_bits_below_128(c2, byte, n - 1);
        assert(crc7_bit(d1, bit) == crc7_bit(d2, bit) ==> d1 == d2) by (bit_vector)
            requires
                d1 < 128,
                d2 < 128,
        ;
        lemma_crc7_bits_injective(c1, c2, byte, n - 1);
    }
}

pub(crate) proof fn lemma_crc7_trace(crc: u8, byte: u8)
    ensures
        ({
            let c = crc7_trace(crc, byte);
            &&& c[0] == crc
            &&& c[1] == crc7_bit(c[0], message_bit(byte, 0))
            &&& c[2] == crc7_bit(c[1], message_bit(byte, 1))
            &&& c[3] == crc7_bit(c[2], message_bit(byte, 2))
            &&& c[4] == crc7_bit(c[3], message_bit(byte, 3))
            &&& c[5] == crc7_bit(c[4], message_bit(byte, 4))
            &&& c[6] == crc7_bit(c[5], message_bit(byte, 5))
            &&& c[7] == crc7_bit(c[6], message_bit(byte, 6))
            &&& c[8] == crc7_bit(c[7], message_bit(byte, 7))
            &&& c[8] == crc7_bits(crc, byte, 8)
        }),
{
    reveal_with_fuel(crc7_bits, 2);
}

/// The states that a division goes through within one byte.
pub open spec fn crc7_trace(crc: u8, byte: u8) -> Seq<u8> {
    Seq::new(9, |n: int| crc7_bits(crc, byte, n))
}

proof fn lemma_crc7_tells_bits_apart(
    crc: u8,
    byte: u8,
    other: u8,
    bit: u8,
    c1: u8,
    c2: u8,
    c3: u8,
    c4: u8,
    c5: u8,
    c6: u8,
    c7: u8,
    c8: u8,
    d1: u8,
    d2: u8,
    d3: u8,
    d4: u8,
    d5: u8,
    d6: u8,
    d7: u8,
    d8: u8,
)
    by (bit_vector)
    requires
        crc < 128,
        bit < 8,
        other == byte ^ (1u8 << bit),
        c1 == crc7_bit(crc, message_bit(byte, 0)),
        c2 == crc7_bit(c1, message_bit(byte, 1)),
        c3 == crc7_bit(c2, message_bit(byte, 2)),
        c4 == crc7_bit(c3, message_bit(byte, 3)),
        c5 == crc7_bit(c4, message_bit(byte, 4)),
        c6 == crc7_bit(c5, message_bit(byte, 5)),
        c7 == crc7_bit(c6, message_bit(byte, 6)),
        c8 == crc7_bit(c7, message_bit(byte, 7)),
        d1 == crc7_bit(crc, message_bit(other, 0)),
        d2 == crc7_bit(d1, message_bit(other, 1)),
        d3 == crc7_bit(d2, message_bit(other, 2)),
        d4 == crc7_bit(d3, message_bit(other, 3)),
        d5 == crc7_bit(d4, message_bit(other, 4)),
        d6 == crc7_bit(d5, message_bit(other, 5)),
        d7 == crc7_bit(d6, message_bit(other, 6)),
        d8 == crc7_bit(d7, message_bit(other, 7)),
    ensures
        c8 != d8,
{
}

/// Flipping a single bit of a message changes its 7-bit checksum.
pub proof fn law_crc7_notices_one_bit(data: Seq<u8>, at: int, bit: u8)
    requires
        0 <= at < data.len(),
        bit < 8,
    ensures
        crc7_remainder(data.update(at, data[at] ^ (1u8 << bit))) != crc7_remainder(data),
    decreases data.len(),
{
    let byte = data[at] ^ (1u8 << bit);
    let changed = data.update(at, byte);
    let crc = crc7_remainder(data.drop_last());
    lemma_crc7_below_128(data.drop_last());
    lemma_crc7_below_128(changed.drop_last());
    if at == data.len() - 1 {
        assert(changed.drop_last() =~= data.drop_last());
        lemma_crc7_trace(crc, data.last());
        lemma_crc7_trace(crc, byte);
        let c = crc7_trace(crc, data.last());
        let d = crc7_trace(crc, byte);
        lemma_crc7_tells_bits_apart(
            crc,
            data.last(),
            byte,
            bit,
            c[1],
            c[2],
            c[3],
            c[4],
            c[5],
            c[6],
            c[7],
            c[8],
            d[1],
            d[2],
            d[3],
            d[4],
            d[5],
            d[6],
            d[7],
            d[8],
        );
    } else {
        law_crc7_notices_one_bit(data.drop_last(), at, bit);
        assert(changed.drop_last() =~= data.drop_last().update(at, byte));
        if crc7_remainder(changed) == crc7_remainder(data) {
            lemma_crc7_bits_injective(
                crc7_remainder(changed.drop_last()),
                crc,
                data.last(),
                8,
            );
        }
    }
}

} // verus!
