use modality_can::candump::{
    can_data_frame, can_fd_frame, can_id, can_remote_frame, interface, parse, timestamp,
};
use modality_can::frame::{Id, Timestamp};

#[test]
fn timestamp_parser() {
    let (n, ts) = timestamp(b"(000000.000001)").unwrap();
    assert_eq!(n, b"(000000.000001)".len());
    assert_eq!(
        ts,
        Timestamp {
            seconds: 0,
            nanoseconds: 1,
        }
    );
    let (n, ts) = timestamp(b"(1717673394.196203)").unwrap();
    assert_eq!(n, b"(1717673394.196203)".len());
    assert_eq!(
        ts,
        Timestamp {
            seconds: 1717673394,
            nanoseconds: 196203,
        }
    );
}

#[test]
fn interface_parser() {
    let (n, name) = interface(b"vcan0", 0).unwrap();
    assert_eq!(n, 5);
    assert_eq!(name, b"vcan0".to_vec());
}

#[test]
fn can_id_parser() {
    let (n, id) = can_id(b"00A#", 0).unwrap();
    assert_eq!(n, 4);
    assert_eq!(id, Id::Standard(0xA));

    let (n, id) = can_id(b"10A#", 0).unwrap();
    assert_eq!(n, 4);
    assert_eq!(id, Id::Standard(0x10A));

    let (n, id) = can_id(b"00BCD#", 0).unwrap();
    assert_eq!(n, 6);
    assert_eq!(id, Id::Extended(0x00BCD));

    let (n, id) = can_id(b"1BED56DA#", 0).unwrap();
    assert_eq!(n, 9);
    assert_eq!(id, Id::Extended(0x1BED56DA));
}

#[test]
fn can_remote_frame_parser() {
    let (n, f) = can_remote_frame(b"1C9#R8", 0).unwrap();
    assert_eq!(n, 6);
    assert_eq!(f.id, Id::Standard(0x1C9));
    assert!(f.remote);
    assert_eq!(f.dlc, 8);
    assert!(f.data.is_empty());

    let (n, f) = can_remote_frame(b"25D#R", 0).unwrap();
    assert_eq!(n, 5);
    assert_eq!(f.id, Id::Standard(0x25D));
    assert!(f.remote);
    assert_eq!(f.dlc, 0);
    assert!(f.data.is_empty());
}

#[test]
fn remote_frame_dlc_is_one_hex_digit() {
    // The data-length code is a single hexadecimal digit; one above 8
    // fails the remote production.
    assert!(can_remote_frame(b"25D#RA", 0).is_none());
    assert!(can_remote_frame(b"25D#R9", 0).is_none());

    // Only one digit belongs to the code; the rest is left over.
    let (n, f) = can_remote_frame(b"1C9#R12", 0).unwrap();
    assert_eq!(n, 6);
    assert_eq!(f.dlc, 1);

    // The lower-case marker works the same way.
    let (n, f) = can_remote_frame(b"25D#r8", 0).unwrap();
    assert_eq!(n, 6);
    assert_eq!(f.dlc, 8);
}

#[test]
fn can_fd_frame_parser() {
    let (n, f) = can_fd_frame(b"6BD##4", 0).unwrap();
    assert_eq!(n, 6);
    assert_eq!(f.id, Id::Standard(0x6BD));
    assert!(f.fd);
    assert!(!f.remote);
    assert!(!f.brs);
    assert!(!f.esi);
    assert_eq!(f.dlc, 0);
    assert_eq!(f.data, Vec::<u8>::new());

    let (n, f) = can_fd_frame(b"17F4200A##410", 0).unwrap();
    assert_eq!(n, 13);
    assert_eq!(f.id, Id::Extended(0x17F4200A));
    assert!(f.fd);
    assert!(!f.brs);
    assert!(!f.esi);
    assert_eq!(f.dlc, 1);
    assert_eq!(f.data, vec![0x10]);

    let (n, f) = can_fd_frame(b"2CD##53A", 0).unwrap();
    assert_eq!(n, 8);
    assert_eq!(f.id, Id::Standard(0x2CD));
    assert!(f.fd);
    assert!(f.brs);
    assert!(!f.esi);
    assert_eq!(f.dlc, 1);
    assert_eq!(f.data, vec![0x3A]);

    let (n, f) = can_fd_frame(b"7AE##7EE", 0).unwrap();
    assert_eq!(n, 8);
    assert_eq!(f.id, Id::Standard(0x7AE));
    assert!(f.fd);
    assert!(f.brs);
    assert!(f.esi);
    assert_eq!(f.dlc, 1);
    assert_eq!(f.data, vec![0xEE]);
}

#[test]
fn can_data_frame_parser() {
    let (n, f) = can_data_frame(b"6BD#", 0).unwrap();
    assert_eq!(n, 4);
    assert_eq!(f.id, Id::Standard(0x6BD));
    assert!(!f.remote);
    assert!(!f.fd);
    assert_eq!(f.dlc, 0);
    assert_eq!(f.data, Vec::<u8>::new());

    let (n, f) = can_data_frame(b"27E#39.DB", 0).unwrap();
    assert_eq!(n, 9);
    assert_eq!(f.id, Id::Standard(0x27E));
    assert!(!f.remote);
    assert!(!f.fd);
    assert_eq!(f.dlc, 2);
    assert_eq!(f.data, vec![0x39, 0xDB]);
}

#[test]
fn parser() {
    let line = b"(1717689368.527737) vcan0 18A#F47E";
    let (n, ts, iface, f) = parse(line).unwrap();
    assert_eq!(n, line.len());
    assert_eq!(
        ts,
        Timestamp {
            seconds: 1717689368,
            nanoseconds: 527737,
        }
    );
    assert_eq!(iface, b"vcan0".to_vec());
    assert_eq!(f.id, Id::Standard(0x18A));
    assert!(!f.remote);
    assert!(!f.fd);
    assert_eq!(f.dlc, 2);
    assert_eq!(f.data, vec![0xF4, 0x7E]);
}

#[test]
fn parser_fd_long_payload_is_padded() {
    // Nine payload bytes are padded up to the next valid FD length, 12,
    // which renders as data-length code 9.
    let (n, f) = can_fd_frame(b"123##0112233445566778899", 0).unwrap();
    assert_eq!(n, 24);
    assert!(f.fd);
    assert!(!f.brs);
    assert!(!f.esi);
    assert_eq!(f.dlc, 9);
    assert_eq!(
        f.data,
        vec![0x11, 0x22, 0x33, 0x44, 0x55, 0x66, 0x77, 0x88, 0x99, 0, 0, 0]
    );
}

#[test]
fn parser_rejects_malformed_lines() {
    assert!(parse(b"not a log line").is_none());
    assert!(parse(b"(12.34)").is_none());
    assert!(parse(b"(12.34) vcan0 GGG#11").is_none());
    // A standard identifier must fit in 11 bits.
    assert!(can_id(b"FFF#", 0).is_none());
    // A classic data frame holds at most 8 payload bytes.
    assert!(can_data_frame(b"123#112233445566778899", 0).is_none());
    // A remote frame's data-length code is capped at 8.
    assert!(can_remote_frame(b"123#R9", 0).is_none());
}

#[test]
fn parser_timestamp_rejects_bad_shapes() {
    assert!(timestamp(b"123.456)").is_none());
    assert!(timestamp(b"(123456)").is_none());
    assert!(timestamp(b"(12.)").is_none());
    assert!(timestamp(b"(.12)").is_none());
    assert!(timestamp(b"(12.34").is_none());
}

#[test]
fn parser_fd_payload_size_limits() {
    let mut line = b"123##0".to_vec();
    line.extend(std::iter::repeat(b"AB".to_vec()).take(64).flatten());
    let (n, f) = can_fd_frame(&line, 0).unwrap();
    assert_eq!(n, line.len());
    assert_eq!(f.dlc, 15);
    assert_eq!(f.data.len(), 64);

    let mut line = b"123##0".to_vec();
    line.extend(std::iter::repeat(b"AB".to_vec()).take(65).flatten());
    assert!(can_fd_frame(&line, 0).is_none());
}
