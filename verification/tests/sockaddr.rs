use starry::errno::SysError;
use starry::sockaddr::{SockAddr, SocketAddr, SocketAddrV4, SocketAddrV6, AF_INET, AF_INET6};

#[test]
fn v4_bytes_match_sockaddr_in() {
    let a = SocketAddrV4 { ip: u32::from_be_bytes([192, 168, 1, 2]), port: 8080 };
    let s = SockAddr::from_v4(a);
    assert_eq!(s.addr_len(), 16);
    assert_eq!(s.family(), AF_INET);
    assert_eq!(s.bytes(), &[2, 0, 0x1f, 0x90, 192, 168, 1, 2, 0, 0, 0, 0, 0, 0, 0, 0]);
}

#[test]
fn v4_roundtrip() {
    let a = SocketAddrV4 { ip: 0x7f00_0001, port: 53 };
    let s = SockAddr::from_v4(a);
    assert_eq!(SocketAddrV4::try_from_sockaddr(&s), Ok(a));
    assert_eq!(SocketAddr::try_from_sockaddr(&s), Ok(SocketAddr::V4(a)));
}

#[test]
fn v6_roundtrip() {
    let a = SocketAddrV6 { ip: 1u128, port: 443, flowinfo: 0x12345, scope_id: 7 };
    let s = SockAddr::from_v6(a);
    assert_eq!(s.addr_len(), 28);
    assert_eq!(s.family(), AF_INET6);
    assert_eq!(&s.bytes()[0..8], &[10, 0, 0x01, 0xbb, 0, 0x01, 0x23, 0x45]);
    assert_eq!(&s.bytes()[24..28], &[7, 0, 0, 0]);
    assert_eq!(SocketAddrV6::try_from_sockaddr(&s), Ok(a));
    assert_eq!(SockAddr::from_addr(SocketAddr::V6(a)).bytes(), s.bytes());
    assert_eq!(SocketAddr::try_from_sockaddr(&s), Ok(SocketAddr::V6(a)));
}

#[test]
fn read_checks_the_length() {
    let bytes = [2u8; 200];
    assert!(matches!(SockAddr::read(&bytes, 1), Err(SysError::EINVAL)));
    assert!(matches!(SockAddr::read(&bytes, 129), Err(SysError::EINVAL)));
    let s = SockAddr::read(&bytes, 2).unwrap();
    assert_eq!(s.addr_len(), 2);
    assert_eq!(s.family(), 0x0202);
    let s = SockAddr::read(&bytes, 128).unwrap();
    assert_eq!(s.bytes().len(), 128);
}

#[test]
fn wrong_family_and_length() {
    let v4 = SockAddr::from_v4(SocketAddrV4 { ip: 1, port: 2 });
    assert_eq!(SocketAddrV6::try_from_sockaddr(&v4), Err(SysError::EAFNOSUPPORT));
    let mut long = v4.bytes().to_vec();
    long.extend([0u8; 4]);
    let s = SockAddr::read(&long, 20).unwrap();
    assert_eq!(SocketAddrV4::try_from_sockaddr(&s), Err(SysError::EINVAL));
    let unix = SockAddr::read(&[1, 0, 47], 3).unwrap();
    assert_eq!(SocketAddr::try_from_sockaddr(&unix), Err(SysError::EAFNOSUPPORT));
}

#[test]
fn short_address_reads_missing_bytes_as_zero() {
    let s = SockAddr::read(&[2, 0, 0, 80], 4).unwrap();
    assert_eq!(SocketAddrV4::try_from_sockaddr(&s), Ok(SocketAddrV4 { ip: 0, port: 80 }));
}
