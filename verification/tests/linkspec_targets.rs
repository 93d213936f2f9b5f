use rust_tor::error::ErrorKind;
use rust_tor::linkspec::parse_sock_addr;
use rust_tor::linkspec::ChanTarget;
use rust_tor::linkspec::Ed25519Identity;
use rust_tor::linkspec::OwnedChanTarget;
use rust_tor::linkspec::RsaIdentity;

#[test]
fn targetinfo() {
    let ti = OwnedChanTarget::new(
        vec![parse_sock_addr("127.0.0.1:11").unwrap()],
        Some(Ed25519Identity::new(vec![42; 32])),
        Some(RsaIdentity::new(vec![45; 20])),
    );

    let ti2 = OwnedChanTarget::from_chan_target(&ti);
    assert_eq!(ti.addrs(), ti2.addrs());
    assert_eq!(ti.ed_identity(), ti2.ed_identity());
    assert_eq!(ti.rsa_identity(), ti2.rsa_identity());
}

#[test]
fn sock_addr_parses() {
    let a = parse_sock_addr("10.0.0.5:9001").unwrap();
    assert_eq!(a.host, "10.0.0.5");
    assert_eq!(a.port, 9001);
}

#[test]
fn sock_addr_rejections() {
    let bad = vec![
        "10.0.0.5",
        "10.0.0.5:",
        "10.0.0.5:65536",
        "10.0.0:80",
        "10.0.0.256:80",
        "10.0.00.5:80",
        "a.b.c.d:80",
        "10.0.0.5:80:81",
    ];
    for s in bad {
        let r = parse_sock_addr(s);
        assert!(
            matches!(r, Err(ref e) if matches!(e.kind, ErrorKind::AddrParseError(_))),
            "{} must be rejected",
            s
        );
    }
}

#[test]
fn set_identities() {
    let mut ti = OwnedChanTarget::new(vec![], None, None);
    assert!(ti.ed_identity().is_none());
    ti.set_ed_identity(Ed25519Identity::new(vec![1; 32]));
    ti.set_rsa_identity(RsaIdentity::new(vec![2; 20]));
    assert_eq!(ti.ed_identity().as_ref().unwrap().id, vec![1; 32]);
    assert_eq!(ti.rsa_identity().as_ref().unwrap().id, vec![2; 20]);
}
