use vstd::prelude::*;

verus! {

/// An IP address: four octets, or eight 16-bit groups.
#[derive(Clone, Copy, Debug)]
pub enum IpAddress {
    V4([u8; 4]),
    V6([u16; 8]),
}

/// An IP address and a port.
#[derive(Clone, Copy, Debug)]
pub struct SocketAddress {
    pub ip: IpAddress,
    pub port: u16,
}

/// The unspecified ("any") address of its family: `0.0.0.0` or `::`.
pub open spec fn is_unspecified(ip: IpAddress) -> bool {
    match ip {
        IpAddress::V4(o) => forall|i: int| 0 <= i < 4 ==> o@[i] == 0,
        IpAddress::V6(g) => forall|i: int| 0 <= i < 8 ==> g@[i] == 0,
    }
}

/// `127.0.0.1`.
pub open spec fn loopback_v4() -> Seq<u8> {
    seq![127u8, 0u8, 0u8, 1u8]
}

/// `::1`.
pub open spec fn loopback_v6() -> Seq<u16> {
    seq![0u16, 0u16, 0u16, 0u16, 0u16, 0u16, 0u16, 1u16]
}

/// An IPv4 address is unspecified exactly when all four octets are zero, and
/// an IPv6 address exactly when all eight groups are.
pub proof fn law_unspecified_means_all_zero(ip: IpAddress)
    ensures
        ip matches IpAddress::V4(o) ==> (is_unspecified(ip) <==> (o@[0] == 0 && o@[1] == 0 && o@[2]
            == 0 && o@[3] == 0)),
        ip matches IpAddress::V6(g) ==> (is_unspecified(ip) <==> (g@[0] == 0 && g@[1] == 0 && g@[2]
            == 0 && g@[3] == 0 && g@[4] == 0 && g@[5] == 0 && g@[6] == 0 && g@[7] == 0)),
{
    match ip {
        IpAddress::V4(o) => {
            if o@[0] == 0 && o@[1] == 0 && o@[2] == 0 && o@[3] == 0 {
                assert forall|i: int| 0 <= i < 4 implies o@[i] == 0 by {
                    assert(i == 0 || i == 1 || i == 2 || i == 3);
                }
            }
        },
        IpAddress::V6(g) => {
            if g@[0] == 0 && g@[1] == 0 && g@[2] == 0 && g@[3] == 0 && g@[4] == 0 && g@[5] == 0
                && g@[6] == 0 && g@[7] == 0 {
                assert forall|i: int| 0 <= i < 8 implies g@[i] == 0 by {
                    assert(i == 0 || i == 1 || i == 2 || i == 3 || i == 4 || i == 5 || i == 6 || i
                        == 7);
                }
            }
        },
    }
}

/// The address that the DoH server sends its DNS queries to: the DNS
/// server's own listen address, with an unspecified IP (`0.0.0.0`, `::`)
/// replaced by the loopback address of the same family; the port stays.
pub fn dns_proxy_address(listen: SocketAddress) -> (target: SocketAddress)
    ensures
        target.port == listen.port,
        match (listen.ip, target.ip) {
            (IpAddress::V4(l), IpAddress::V4(t)) => if is_unspecified(listen.ip) {
                t@ == loopback_v4()
            } else {
                t@ == l@
            },
            (IpAddress::V6(l), IpAddress::V6(t)) => if is_unspecified(listen.ip) {
                t@ == loopback_v6()
            } else {
                t@ == l@
            },
            _ => false,
        },
        listen.ip matches IpAddress::V4(l) ==> target.ip matches IpAddress::V4(t) && (
        (l@[0] != 0 || l@[1] != 0 || l@[2] != 0 || l@[3] != 0) ==> t@ == l@) && (
        (l@[0] == 0 && l@[1] == 0 && l@[2] == 0 && l@[3] == 0) ==> t@ == seq![127u8, 0u8, 0u8, 1u8]),
        listen.ip matches IpAddress::V6(l) ==> target.ip matches IpAddress::V6(t) && (
        (exists|i: int| 0 <= i < 8 && l@[i] != 0) ==> t@ == l@) && ((forall|i: int|
            0 <= i < 8 ==> l@[i] == 0) ==> t@ == seq![0u16, 0u16, 0u16, 0u16, 0u16, 0u16, 0u16, 1u16]),
{
    let ip = match listen.ip {
        IpAddress::V4(o) => {
            if o[0] == 0 && o[1] == 0 && o[2] == 0 && o[3] == 0 {
                let lo: [u8; 4] = [127, 0, 0, 1];
                assert(lo@ =~= loopback_v4());
                IpAddress::V4(lo)
            } else {
                proof {
                    if is_unspecified(listen.ip) {
                        assert(o@[0] == 0 && o@[1] == 0 && o@[2] == 0 && o@[3] == 0);
                    }
                }
                IpAddress::V4(o)
            }
        },
        IpAddress::V6(g) => {
            if g[0] == 0 && g[1] == 0 && g[2] == 0 && g[3] == 0 && g[4] == 0 && g[5] == 0 && g[6] == 0
                && g[7] == 0 {
                let lo: [u16; 8] = [0, 0, 0, 0, 0, 0, 0, 1];
                assert(lo@ =~= loopback_v6());
                IpAddress::V6(lo)
            } else {
                proof {
                    if is_unspecified(listen.ip) {
                        assert(g@[0] == 0 && g@[1] == 0 && g@[2] == 0 && g@[3] == 0);
                        assert(g@[4] == 0 && g@[5] == 0 && g@[6] == 0 && g@[7] == 0);
                    }
                }
                IpAddress::V6(g)
            }
        },
    };
    SocketAddress { ip, port: listen.port }
}

} // verus!
