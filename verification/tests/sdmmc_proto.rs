use tock_drivers::sdmmc_proto::{crc16, crc7, Csd, CsdV1, CsdV2};

const CSD_V1: [u8; 16] = [
    0x00, 0x26, 0x00, 0x32, 0x5F, 0x59, 0x83, 0xC8, 0xAD, 0xDB, 0xCF, 0xFF, 0xD2, 0x40, 0x40, 0xA5,
];

const CSD_V2: [u8; 16] = [
    0x40, 0x0E, 0x00, 0x32, 0x5B, 0x59, 0x00, 0x00, 0x1D, 0x69, 0x7F, 0x80, 0x0A, 0x40, 0x00, 0x8B,
];

#[test]
fn empty_card_data() {
    assert_eq!(CsdV1::new().data, [0u8; 16]);
    assert_eq!(CsdV1::default().data, [0u8; 16]);
    assert_eq!(CsdV2::new().data, [0u8; 16]);
    assert_eq!(CsdV2::default().data, [0u8; 16]);
    assert!(matches!(Csd::V1(CsdV1::new()), Csd::V1(_)));
}

#[test]
fn fields_of_version_one() {
    let csd = CsdV1 { data: CSD_V1 };
    assert_eq!(csd.csd_ver(), 0);
    assert_eq!(csd.data_read_access_time1(), 0x26);
    assert_eq!(csd.data_read_access_time2(), 0);
    assert_eq!(csd.max_data_transfer_rate(), 0x32);
    assert_eq!(csd.card_command_classes(), 0x5F5);
    assert_eq!(csd.read_block_length(), 9);
    assert!(csd.read_partial_blocks());
    assert!(!csd.write_block_misalignment());
    assert!(!csd.read_block_misalignment());
    assert!(!csd.dsr_implemented());
    assert_eq!(csd.device_size(), 3874);
    assert_eq!(csd.max_read_current_vdd_max(), 5);
    assert_eq!(csd.max_read_current_vdd_min(), 5);
    assert_eq!(csd.max_write_current_vdd_max(), 6);
    assert_eq!(csd.max_write_current_vdd_min(), 6);
    assert_eq!(csd.device_size_multiplier(), 7);
    assert!(csd.erase_single_block_enabled());
    assert_eq!(csd.erase_sector_size(), 0x1F);
    assert_eq!(csd.write_protect_group_size(), 0x7F);
    assert!(csd.write_protect_group_enable());
    assert_eq!(csd.write_speed_factor(), 4);
    assert_eq!(csd.max_write_data_length(), 9);
    assert!(!csd.write_partial_blocks());
    assert_eq!(csd.file_format(), 0);
    assert!(!csd.temporary_write_protection());
    assert!(!csd.permanent_write_protection());
    assert!(csd.copy_flag_set());
    assert!(!csd.file_format_group_set());
    assert_eq!(csd.crc(), 0xA5);
}

#[test]
fn capacity_of_version_one() {
    let csd = CsdV1 { data: CSD_V1 };
    assert_eq!(csd.card_capacity_bytes(), 1015808000);
    assert_eq!(csd.card_capacity_blocks(), 1984000);
    assert_eq!(csd.card_capacity_bytes(), 512 * csd.card_capacity_blocks() as u64);
}

#[test]
fn capacity_of_small_cards_of_version_one() {
    let mut data = [0u8; 16];
    // a device size of 4095, blocks of 64 bytes
    data[5] = 6;
    data[6] = 0x03;
    data[7] = 0xFF;
    data[8] = 0xC0;
    let csd = CsdV1 { data };
    assert_eq!(csd.device_size(), 4095);
    assert_eq!(csd.card_capacity_bytes(), 1048576);
    assert_eq!(csd.card_capacity_blocks(), 2048);
    // less than a block is left over
    data[5] = 0;
    data[7] = 0xF0;
    let csd = CsdV1 { data };
    assert_eq!(csd.card_capacity_bytes(), 16144);
    assert_eq!(csd.card_capacity_blocks(), 31);
    assert_eq!(CsdV1::new().card_capacity_blocks(), 0);
}

#[test]
fn fields_of_version_two() {
    let csd = CsdV2 { data: CSD_V2 };
    assert_eq!(csd.csd_ver(), 1);
    assert_eq!(csd.data_read_access_time1(), 0x0E);
    assert_eq!(csd.data_read_access_time2(), 0);
    assert_eq!(csd.max_data_transfer_rate(), 0x32);
    assert_eq!(csd.card_command_classes(), 0x5B5);
    assert_eq!(csd.read_block_length(), 9);
    assert!(!csd.read_partial_blocks());
    assert!(!csd.write_block_misalignment());
    assert!(!csd.read_block_misalignment());
    assert!(!csd.dsr_implemented());
    assert_eq!(csd.device_size(), 7529);
    assert!(csd.erase_single_block_enabled());
    assert_eq!(csd.erase_sector_size(), 0x7F);
    assert_eq!(csd.write_protect_group_size(), 0);
    assert!(!csd.write_protect_group_enable());
    assert_eq!(csd.write_speed_factor(), 2);
    assert_eq!(csd.max_write_data_length(), 9);
    assert!(!csd.write_partial_blocks());
    assert_eq!(csd.file_format(), 0);
    assert!(!csd.temporary_write_protection());
    assert!(!csd.permanent_write_protection());
    assert!(!csd.copy_flag_set());
    assert!(!csd.file_format_group_set());
    assert_eq!(csd.crc(), 0x8B);
}

#[test]
fn capacity_of_version_two() {
    let csd = CsdV2 { data: CSD_V2 };
    assert_eq!(csd.card_capacity_bytes(), 3947888640);
    assert_eq!(csd.card_capacity_blocks(), 7710720);
    assert_eq!(csd.card_capacity_bytes(), 512 * csd.card_capacity_blocks() as u64);
}

#[test]
fn checksums_of_card_data() {
    // the last byte of the data is the checksum of the others
    assert_eq!(crc7(&CSD_V1[0..15]), 0xA5);
    assert_eq!(crc7(&CSD_V2[0..15]), 0x8B);
}

#[test]
fn checksums_of_commands() {
    assert_eq!(crc7(&[0x40, 0, 0, 0, 0]), 0x95);
    assert_eq!(crc7(&[0x48, 0, 0, 0x01, 0xAA]), 0x87);
    assert_eq!(crc7(&[]), 0x01);
}

#[test]
fn checksums_of_data_blocks() {
    assert_eq!(crc16(&[]), 0);
    assert_eq!(crc16(b"123456789"), 0x31C3);
    assert_eq!(crc16(&[0xFF; 512]), 0x7FA1);
}

#[test]
fn data_with_its_checksum_has_checksum_zero() {
    let mut data = vec![1u8, 2, 3, 0xFE];
    let checksum = crc16(&data);
    data.push((checksum >> 8) as u8);
    data.push(checksum as u8);
    assert_eq!(crc16(&data), 0);
    assert_ne!(crc7(&[0x40, 0, 0, 0, 1]), 0x95);
}

#[test]
fn one_changed_byte_is_noticed() {
    let data = [7u8; 20];
    for at in 0..20 {
        for byte in [0u8, 1, 6, 8, 0xFF] {
            let mut changed = data;
            changed[at] = byte;
            assert_ne!(crc16(&changed), crc16(&data));
        }
    }
}

#[test]
fn one_changed_bit_is_noticed() {
    let data = [0x48u8, 0, 0, 1, 0xAA];
    for at in 0..5 {
        for bit in 0..8 {
            let mut changed = data;
            changed[at] ^= 1 << bit;
            assert_ne!(crc7(&changed), crc7(&data));
        }
    }
}

#[test]
fn data_with_its_short_checksum_has_a_fixed_checksum() {
    for data in [&[0x40u8, 0, 0, 0, 0][..], &[1, 2, 3], &[]] {
        let mut framed = data.to_vec();
        framed.push(crc7(data));
        assert_eq!(crc7(&framed), 2 * 0x09 + 1);
    }
}
