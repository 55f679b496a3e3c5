use flash_programmer::address::parse_hex_address;
use flash_programmer::checksum::{get_crc, u32_to_u8, u32_le_bytes};
use flash_programmer::command::Command;
use flash_programmer::packet::{build, frame_packet, sector_mask, Request, ValidationError};

fn bit_serial_crc(bytes: &[u8]) -> u32 {
    let mut c: u32 = 0xFFFF_FFFF;
    for b in bytes {
        c ^= *b as u32;
        for _ in 0..32 {
            c = if c & 0x8000_0000 != 0 { (c << 1) ^ 0x04C1_1DB7 } else { c << 1 };
        }
    }
    c
}

#[test]
fn checksum_of_empty_is_initial_value() {
    assert_eq!(get_crc(&[]), 0xFFFF_FFFF);
}

#[test]
fn checksum_known_values() {
    assert_eq!(get_crc(&[0x31]), 0x17F7_AD5C);
    assert_eq!(get_crc(&[0x05, 0xA1]), 0xF513_14EE);
    assert_eq!(get_crc(&[0x07, 0xA6, 0x05, 0x03]), 0x744B_5602);
}

#[test]
fn checksum_is_reproducible() {
    let data: Vec<u8> = (0..=255u8).collect();
    assert_eq!(get_crc(&data), get_crc(&data.clone()));
    assert_eq!(get_crc(&data), bit_serial_crc(&data));
}

#[test]
fn checksum_is_not_reflected_crc32() {
    // the usual reflected CRC-32 of "1" is 0x83DCEFB7
    assert_ne!(get_crc(&[0x31]), 0x83DC_EFB7);
}

#[test]
fn byte_extraction() {
    assert_eq!(u32_to_u8(0x1234_5678, 1), 0x78);
    assert_eq!(u32_to_u8(0x1234_5678, 2), 0x56);
    assert_eq!(u32_to_u8(0x1234_5678, 3), 0x34);
    assert_eq!(u32_to_u8(0x1234_5678, 4), 0x12);
    assert_eq!(u32_le_bytes(0xF513_14EE), [0xEE, 0x14, 0x13, 0xF5]);
}

#[test]
fn catalog_opcodes_and_lengths() {
    let table = [
        (Command::GetVersion, 0xA1, 6),
        (Command::GetHelp, 0xA2, 6),
        (Command::GetDeviceId, 0xA3, 6),
        (Command::GetRdpLevel, 0xA4, 6),
        (Command::JumpToAddress, 0xA5, 10),
        (Command::FlashErase, 0xA6, 8),
        (Command::MemoryWrite, 0xA7, 11),
        (Command::MemoryRead, 0xA8, 11),
        (Command::SetRwProtection, 0xA9, 8),
        (Command::GetRwProtection, 0xAA, 6),
    ];
    for (c, op, len) in table {
        assert_eq!(c.opcode(), op);
        assert_eq!(c.header_length(), len);
        assert_eq!(Command::from_opcode(op), Some(c));
    }
    assert_eq!(Command::from_opcode(0xA0), None);
    assert_eq!(Command::from_opcode(0xAB), None);
}

#[test]
fn get_version_packet_bytes() {
    let p = build(&Request::GetVersion).unwrap();
    assert_eq!(p, vec![0x05, 0xA1, 0xEE, 0x14, 0x13, 0xF5]);
}

#[test]
fn jump_packet_bytes() {
    let p = build(&Request::JumpToAddress { address: 0x0800_0000 }).unwrap();
    assert_eq!(p, vec![0x09, 0xA5, 0x00, 0x00, 0x00, 0x08, 0x1A, 0xFA, 0xFD, 0x56]);
}

#[test]
fn flash_erase_packet_bytes() {
    let p = build(&Request::FlashErase { base_sector: 5, sector_count: 3 }).unwrap();
    assert_eq!(p, vec![0x07, 0xA6, 0x05, 0x03, 0x02, 0x56, 0x4B, 0x74]);
}

#[test]
fn every_packet_has_catalog_shape() {
    let reqs = vec![
        Request::GetVersion,
        Request::GetHelp,
        Request::GetDeviceId,
        Request::GetRdpLevel,
        Request::JumpToAddress { address: 0x0800_4000 },
        Request::FlashErase { base_sector: 0, sector_count: 8 },
        Request::MemoryWrite { address: 0x2000_0000, data: vec![1, 2, 3] },
        Request::MemoryRead { address: 0x0800_0000, count: 16 },
        Request::SetRwProtection { sector_mask: 0x81, level: 2 },
        Request::GetRwProtection,
    ];
    for r in reqs {
        let extra = match &r {
            Request::MemoryWrite { data, .. } => data.len(),
            _ => 0,
        };
        let hl = r.command().header_length() as usize + extra;
        let p = build(&r).unwrap();
        assert_eq!(p.len(), hl);
        assert_eq!(p[0] as usize, hl - 1);
        assert_eq!(p[1], r.command().opcode());
        let n = p.len();
        assert_eq!(u32::from_le_bytes([p[n - 4], p[n - 3], p[n - 2], p[n - 1]]), get_crc(&p[..n - 4]));
    }
}

#[test]
fn memory_write_packet_layout() {
    let p = build(&Request::MemoryWrite { address: 0x1122_3344, data: vec![0xAA, 0xBB] }).unwrap();
    assert_eq!(p.len(), 13);
    assert_eq!(&p[..9], &[12, 0xA7, 0x44, 0x33, 0x22, 0x11, 2, 0xAA, 0xBB]);
}

#[test]
fn memory_read_packet_layout() {
    let p = build(&Request::MemoryRead { address: 0x0800_0010, count: 64 }).unwrap();
    assert_eq!(&p[..7], &[10, 0xA8, 0x10, 0x00, 0x00, 0x08, 64]);
}

#[test]
fn flash_erase_range_is_checked() {
    assert_eq!(
        build(&Request::FlashErase { base_sector: 6, sector_count: 3 }).unwrap_err(),
        ValidationError::TooManySectors
    );
    assert!(build(&Request::FlashErase { base_sector: 5, sector_count: 3 }).is_ok());
    assert_eq!(
        build(&Request::FlashErase { base_sector: 8, sector_count: 0 }).unwrap_err(),
        ValidationError::InvalidSector
    );
    assert!(build(&Request::FlashErase { base_sector: 7, sector_count: 1 }).is_ok());
}

#[test]
fn protection_level_is_checked() {
    for level in [0u8, 3, 255] {
        assert_eq!(
            build(&Request::SetRwProtection { sector_mask: 1, level }).unwrap_err(),
            ValidationError::InvalidProtectionLevel
        );
    }
    let p = build(&Request::SetRwProtection { sector_mask: 0x05, level: 1 }).unwrap();
    assert_eq!(&p[..4], &[7, 0xA9, 0x05, 0x01]);
}

#[test]
fn oversized_chunk_is_refused() {
    assert_eq!(
        build(&Request::MemoryWrite { address: 0, data: vec![0; 129] }).unwrap_err(),
        ValidationError::ChunkTooLarge
    );
    let p = build(&Request::MemoryWrite { address: 0, data: vec![0; 128] }).unwrap();
    assert_eq!(p.len(), 139);
    assert_eq!(p[0], 138);
}

#[test]
fn sector_list_to_mask() {
    assert_eq!(sector_mask(&[0, 3, 7]), Ok(0b1000_1001));
    assert_eq!(sector_mask(&[2, 2]), Ok(0b0000_0100));
    assert_eq!(sector_mask(&[]), Ok(0));
    assert_eq!(sector_mask(&[1, 8]), Err(ValidationError::InvalidSector));
}

#[test]
fn raw_framing() {
    assert_eq!(frame_packet(0xA1, &[]), vec![0x05, 0xA1, 0xEE, 0x14, 0x13, 0xF5]);
}

#[test]
fn hex_addresses() {
    assert_eq!(parse_hex_address(b"0x08004000"), Ok(0x0800_4000));
    assert_eq!(parse_hex_address(b"  8004000\n"), Ok(0x0800_4000));
    assert_eq!(parse_hex_address(b"0XdeadBEEF"), Ok(0xDEAD_BEEF));
    assert_eq!(parse_hex_address(b"ffffffff"), Ok(0xFFFF_FFFF));
    assert_eq!(parse_hex_address(b"000000000001"), Ok(1));
    for bad in [&b""[..], b"0x", b"   ", b"100000000", b"0x12g4", b"12 34"] {
        assert_eq!(parse_hex_address(bad), Err(ValidationError::InvalidHexAddress));
    }
}
