use rust_tor::ds_load::build_snapshot;
use rust_tor::ds_load::decode_snapshot;
use rust_tor::ds_load::encode_snapshot;
use rust_tor::ds_load::parse_consensus;
use rust_tor::ds_load::DSInfo;
use rust_tor::ds_load::HostInfo;
use rust_tor::error::ErrorKind;
use rust_tor::ser::SerError;
use rust_tor::text::parse_dec_bounded;
use rust_tor::text::split_str;
use rust_tor::text::u64_to_dec;

#[test]
fn host_info_exact_bytes() {
    let h = HostInfo { host: "10.0.0.5".to_string(), port: 9001 };
    let mut buf: Vec<u8> = Vec::new();
    assert!(h.write(&mut buf).is_ok());
    assert_eq!(buf, vec![10u8, 0, 0, 5, 0x23, 0x29]);
    let mut pos: usize = 0;
    let back = HostInfo::read(&buf, &mut pos).unwrap();
    assert_eq!(back.host, "10.0.0.5");
    assert_eq!(back.port, 9001);
    assert_eq!(pos, 6);
}

#[test]
fn host_info_round_trip_values() {
    let cases = vec![
        ("0.0.0.0".to_string(), 0u16),
        ("255.255.255.255".to_string(), 65535u16),
        ("192.168.1.42".to_string(), 9050u16),
    ];
    for (host, port) in cases {
        let h = HostInfo { host: host.clone(), port };
        let mut buf: Vec<u8> = Vec::new();
        assert!(h.write(&mut buf).is_ok());
        assert_eq!(buf.len(), 6);
        let mut pos: usize = 0;
        let back = HostInfo::read(&buf, &mut pos).unwrap();
        assert_eq!(back.host, host);
        assert_eq!(back.port, port);
    }
}

#[test]
fn host_info_rejects_bad_octets() {
    let bad = vec![
        "10.a.0.5".to_string(),
        "256.0.0.1".to_string(),
        "1.2.3".to_string(),
        "1.2.3.4.5".to_string(),
        "".to_string(),
        "1.2.3.".to_string(),
        "+1.2.3.4".to_string(),
    ];
    for host in bad {
        let h = HostInfo { host, port: 80 };
        let mut buf: Vec<u8> = vec![7u8];
        let r = h.write(&mut buf);
        assert!(matches!(r, Err(SerError::CorruptedData)));
        assert_eq!(buf, vec![7u8], "buffer must stay unchanged on a refused host");
    }
}

#[test]
fn host_info_read_short_buffer() {
    let buf = vec![1u8, 2, 3, 4, 5];
    let mut pos: usize = 0;
    let r = HostInfo::read(&buf, &mut pos);
    assert!(r.is_err());
    assert_eq!(pos, 0);
}

#[test]
fn ds_info_round_trip() {
    let d = DSInfo {
        hosts: vec![
            HostInfo { host: "45.66.33.45".to_string(), port: 443 },
            HostInfo { host: "128.31.0.34".to_string(), port: 9101 },
        ],
        load_time: 1700000000123,
    };
    let mut buf: Vec<u8> = Vec::new();
    assert!(d.write(&mut buf).is_ok());
    assert_eq!(buf.len(), 8 + 8 + 2 * 6);
    let mut pos: usize = 0;
    let back = DSInfo::read(&buf, &mut pos).unwrap();
    assert_eq!(back.load_time, 1700000000123);
    assert_eq!(back.hosts.len(), 2);
    assert_eq!(back.hosts[0].host, "45.66.33.45");
    assert_eq!(back.hosts[0].port, 443);
    assert_eq!(back.hosts[1].host, "128.31.0.34");
    assert_eq!(back.hosts[1].port, 9101);
    assert_eq!(pos, buf.len());
}

#[test]
fn ds_info_empty_round_trip() {
    let d = DSInfo { hosts: Vec::new(), load_time: 0 };
    let mut buf: Vec<u8> = Vec::new();
    assert!(d.write(&mut buf).is_ok());
    assert_eq!(buf.len(), 16);
    let mut pos: usize = 0;
    let back = DSInfo::read(&buf, &mut pos).unwrap();
    assert_eq!(back.load_time, 0);
    assert!(back.hosts.is_empty());
}

#[test]
fn ds_info_write_refuses_large_load_time() {
    let d = DSInfo { hosts: Vec::new(), load_time: (u64::MAX as u128) + 1 };
    let mut buf: Vec<u8> = Vec::new();
    assert!(matches!(d.write(&mut buf), Err(SerError::CorruptedData)));
    assert!(buf.is_empty());
}

#[test]
fn ds_info_read_refuses_short_buffer() {
    // A declared count of two records, but only one record of bytes.
    let d = DSInfo {
        hosts: vec![HostInfo { host: "1.2.3.4".to_string(), port: 1 }],
        load_time: 7,
    };
    let mut buf: Vec<u8> = Vec::new();
    assert!(d.write(&mut buf).is_ok());
    buf[15] = 2;
    let mut pos: usize = 0;
    assert!(matches!(DSInfo::read(&buf, &mut pos), Err(SerError::CorruptedData)));
    assert_eq!(pos, 0);
    // A buffer too short even for the header.
    let short = vec![0u8; 15];
    let mut pos2: usize = 0;
    assert!(DSInfo::read(&short, &mut pos2).is_err());
}

#[test]
fn parse_consensus_skips_unmarked_lines() {
    let text = "r a b c d e 10.0.0.1 443\nx not a candidate\nr a b c d e 10.0.0.2 80\n\nr a b c d e 10.0.0.3 9050\n";
    let hosts = parse_consensus(text).unwrap();
    assert_eq!(hosts.len(), 3);
    assert_eq!(hosts[0].host, "10.0.0.1");
    assert_eq!(hosts[0].port, 443);
    assert_eq!(hosts[1].host, "10.0.0.2");
    assert_eq!(hosts[1].port, 80);
    assert_eq!(hosts[2].host, "10.0.0.3");
    assert_eq!(hosts[2].port, 9050);
}

#[test]
fn parse_consensus_bad_port_is_hard_error() {
    let text = "r a b c d e 10.0.0.1 443\nr a b c d e 10.0.0.2 no-port\n";
    let r = parse_consensus(text);
    assert!(matches!(r, Err(ref e) if matches!(e.kind, ErrorKind::ParseIntError(_))));
    let too_big = "r a b c d e 10.0.0.1 65536\n";
    assert!(parse_consensus(too_big).is_err());
    let ok_edge = "r a b c d e 10.0.0.1 65535\n";
    assert_eq!(parse_consensus(ok_edge).unwrap()[0].port, 65535);
}

#[test]
fn parse_consensus_short_candidate_line_is_hard_error() {
    let text = "r only three\n";
    assert!(parse_consensus(text).is_err());
}

#[test]
fn parse_consensus_empty_text() {
    let hosts = parse_consensus("").unwrap();
    assert!(hosts.is_empty());
}

#[test]
fn build_snapshot_stamps_load_time() {
    let text = "r a b c d e 10.0.0.1 443\n";
    let d = build_snapshot(text, 123456789).unwrap();
    assert_eq!(d.load_time, 123456789);
    assert_eq!(d.hosts.len(), 1);
}

#[test]
fn snapshot_store_round_trip() {
    let text = "r a b c d e 10.0.0.1 443\nr a b c d e 10.0.0.2 80\n";
    let d = build_snapshot(text, 42).unwrap();
    let bytes = encode_snapshot(&d).unwrap();
    let back = decode_snapshot(&bytes).unwrap();
    assert_eq!(back.load_time, 42);
    assert_eq!(back.hosts.len(), 2);
    assert_eq!(back.hosts[1].host, "10.0.0.2");
}

#[test]
fn refresh_persists_three_hosts() {
    // Three well-formed candidate lines and one line missing the
    // marker: the persisted snapshot holds exactly the three.
    let text = "r a b c d e 10.0.0.1 443\nr a b c d e 10.0.0.2 80\nq a b c d e 10.0.0.9 99\nr a b c d e 10.0.0.3 9050\n";
    let bytes = rust_tor::ds_load::snapshot_bytes_from_response(text, 777).unwrap();
    let persisted = decode_snapshot(&bytes).unwrap();
    assert_eq!(persisted.hosts.len(), 3);
    assert_eq!(persisted.hosts[0].host, "10.0.0.1");
    assert_eq!(persisted.hosts[1].host, "10.0.0.2");
    assert_eq!(persisted.hosts[2].host, "10.0.0.3");
    assert_eq!(persisted.load_time, 777);
}

#[test]
fn decimal_parse_edges() {
    assert_eq!(parse_dec_bounded("0", 255), Some(0));
    assert_eq!(parse_dec_bounded("00", 255), Some(0));
    assert_eq!(parse_dec_bounded("255", 255), Some(255));
    assert_eq!(parse_dec_bounded("256", 255), None);
    assert_eq!(parse_dec_bounded("", 255), None);
    assert_eq!(parse_dec_bounded("+5", 255), None);
    assert_eq!(parse_dec_bounded("1 2", 255), None);
    assert_eq!(parse_dec_bounded("65535", 65535), Some(65535));
    assert_eq!(parse_dec_bounded("65536", 65535), None);
    assert_eq!(u64_to_dec(0), "0");
    assert_eq!(u64_to_dec(907), "907");
    assert_eq!(u64_to_dec(18446744073709551615), "18446744073709551615");
}

#[test]
fn split_keeps_empty_fields() {
    assert_eq!(split_str("a,,b", ','), vec!["a".to_string(), "".to_string(), "b".to_string()]);
    assert_eq!(split_str("", ','), vec!["".to_string()]);
    assert_eq!(split_str("x", ','), vec!["x".to_string()]);
    assert_eq!(split_str(",", ','), vec!["".to_string(), "".to_string()]);
}

#[test]
fn decode_snapshot_garbage_is_store_error() {
    let bytes = vec![1u8, 2, 3];
    let r = decode_snapshot(&bytes);
    assert!(matches!(r, Err(ref e) if matches!(e.kind, ErrorKind::StoreError(_))));
}

#[test]
fn encode_snapshot_unencodable_host_is_store_error() {
    let d = DSInfo {
        hosts: vec![HostInfo { host: "not-an-ip".to_string(), port: 1 }],
        load_time: 7,
    };
    let r = encode_snapshot(&d);
    assert!(matches!(r, Err(ref e) if matches!(e.kind, ErrorKind::StoreError(_))));
}
