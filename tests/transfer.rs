use flash_programmer::checksum::get_crc;
use flash_programmer::packet::ValidationError;
use flash_programmer::ports::select_serial_ports;
use flash_programmer::reply::{Outcome, Reply, ReplyError};
use flash_programmer::transfer::{continue_after, write_memory, FailurePolicy};

#[test]
fn chunks_of_a_long_buffer() {
    let data: Vec<u8> = (0..300u32).map(|i| i as u8).collect();
    let ps = write_memory(0x0800_0000, &data).unwrap();
    assert_eq!(ps.len(), 3);
    let sizes: Vec<usize> = ps.iter().map(|p| p[6] as usize).collect();
    assert_eq!(sizes, vec![128, 128, 44]);
    let mut offset = 0usize;
    for p in &ps {
        let n = p[6] as usize;
        assert_eq!(p[0] as usize, 10 + n);
        assert_eq!(p[1], 0xA7);
        assert_eq!(u32::from_le_bytes([p[2], p[3], p[4], p[5]]), 0x0800_0000 + offset as u32);
        assert_eq!(&p[7..7 + n], &data[offset..offset + n]);
        let l = p.len();
        assert_eq!(l, 11 + n);
        assert_eq!(u32::from_le_bytes([p[l - 4], p[l - 3], p[l - 2], p[l - 1]]), get_crc(&p[..l - 4]));
        offset += n;
    }
    assert_eq!(offset, 300);
}

#[test]
fn exact_multiple_and_empty_buffers() {
    assert_eq!(write_memory(0, &vec![7u8; 256]).unwrap().len(), 2);
    assert_eq!(write_memory(0, &vec![7u8; 1]).unwrap().len(), 1);
    assert!(write_memory(0x1000, &[]).unwrap().is_empty());
}

#[test]
fn transfer_past_address_space_is_refused() {
    assert_eq!(write_memory(0xFFFF_FF00, &vec![0u8; 257]).unwrap_err(), ValidationError::AddressOverflow);
    let ps = write_memory(0xFFFF_FF00, &vec![0u8; 256]).unwrap();
    assert_eq!(&ps[1][2..6], &[0x80, 0xFF, 0xFF, 0xFF]);
}

#[test]
fn failure_policy() {
    let ok: Result<Reply, ReplyError> = Ok(Reply::MemoryWrite(Outcome::Success));
    let failed: Result<Reply, ReplyError> = Ok(Reply::MemoryWrite(Outcome::Failure));
    let nack: Result<Reply, ReplyError> = Err(ReplyError::Nack);
    assert!(continue_after(FailurePolicy::Abort, &ok));
    assert!(!continue_after(FailurePolicy::Abort, &failed));
    assert!(!continue_after(FailurePolicy::Abort, &nack));
    assert!(continue_after(FailurePolicy::Continue, &failed));
    assert!(continue_after(FailurePolicy::Continue, &nack));
}

#[test]
fn terminal_devices_are_selected() {
    let names = vec![
        "/dev/ttyUSB0".to_string(),
        "COM3".to_string(),
        "/dev/ttyACM1".to_string(),
        "/dev/cu.usbmodem1".to_string(),
        "/dev/tty".to_string(),
    ];
    let selected = select_serial_ports(&names);
    assert_eq!(selected, vec!["/dev/ttyUSB0".to_string(), "/dev/ttyACM1".to_string(), "/dev/tty".to_string()]);
    assert!(select_serial_ports(&vec![]).is_empty());
}
