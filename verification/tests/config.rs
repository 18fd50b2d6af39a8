use iaretis::config::{doh_endpoint, doh_setup, listen_address, DohSetup};
use iaretis::server::{dns_proxy_address, IpAddress, SocketAddress};
use iaretis::text::{same_text, trim_trailing_dots};

#[test]
fn endpoints() {
    assert_eq!(doh_endpoint(Some("s3cret")), "/dns-query/s3cret");
    assert_eq!(doh_endpoint(Some("")), "/dns-query");
    assert_eq!(doh_endpoint(None), "/dns-query");
}

#[test]
fn listen_addresses() {
    assert_eq!(listen_address(None), "0.0.0.0:5300");
    assert_eq!(listen_address(Some("127.0.0.1:53".to_string())), "127.0.0.1:53");
}

fn s(v: &str) -> Option<String> {
    Some(v.to_string())
}

#[test]
fn doh_setup_cases() {
    match doh_setup(s("0.0.0.0:443"), s("/c.pem"), s("/k.pem"), s("tok")) {
        DohSetup::Enabled(d) => {
            assert_eq!(d.listen_addr, "0.0.0.0:443");
            assert_eq!(d.cert_path, "/c.pem");
            assert_eq!(d.key_path, "/k.pem");
            assert_eq!(d.endpoint, "/dns-query/tok");
            assert!(d.token_protected);
        }
        other => panic!("unexpected {other:?}"),
    }
    match doh_setup(s("a"), s("b"), s("c"), s("")) {
        DohSetup::Enabled(d) => {
            assert_eq!(d.endpoint, "/dns-query");
            assert!(!d.token_protected);
        }
        other => panic!("unexpected {other:?}"),
    }
    assert!(matches!(doh_setup(None, None, None, s("tok")), DohSetup::Disabled));
    match doh_setup(s("a"), None, s("c"), None) {
        DohSetup::Incomplete { addr_set, cert_set, key_set } => {
            assert!(addr_set && !cert_set && key_set);
        }
        other => panic!("unexpected {other:?}"),
    }
}

#[test]
fn proxy_address() {
    let t = dns_proxy_address(SocketAddress { ip: IpAddress::V4([0, 0, 0, 0]), port: 5300 });
    assert!(matches!(t.ip, IpAddress::V4([127, 0, 0, 1])));
    assert_eq!(t.port, 5300);
    let t = dns_proxy_address(SocketAddress { ip: IpAddress::V4([10, 0, 0, 2]), port: 53 });
    assert!(matches!(t.ip, IpAddress::V4([10, 0, 0, 2])));
    let t = dns_proxy_address(SocketAddress { ip: IpAddress::V6([0; 8]), port: 53 });
    assert!(matches!(t.ip, IpAddress::V6([0, 0, 0, 0, 0, 0, 0, 1])));
    let t = dns_proxy_address(SocketAddress { ip: IpAddress::V6([0xfe80, 0, 0, 0, 0, 0, 0, 1]), port: 8053 });
    assert!(matches!(t.ip, IpAddress::V6([0xfe80, 0, 0, 0, 0, 0, 0, 1])));
    assert_eq!(t.port, 8053);
}

#[test]
fn text_helpers() {
    assert!(same_text("abc", "abc"));
    assert!(!same_text("abc", "abd"));
    assert!(!same_text("abc", "ab"));
    assert_eq!(trim_trailing_dots("a.b..."), "a.b");
    assert_eq!(trim_trailing_dots(""), "");
}
