//! Network addresses: where the server listens and whom it serves.
use vstd::prelude::*;
use crate::text::chars_of;
use crate::text::string_from_chars;

verus! {

/// An IP address: four octets, or eight 16-bit groups.
#[derive(Clone, Copy, Debug, PartialEq, Eq)]
pub enum IpAddress {
    V4([u8; 4]),
    V6([u16; 8]),
}

/// Whether an address is a loopback address: 127.0.0.0/8 for IPv4, ::1 for IPv6.
pub open spec fn loopback(ip: IpAddress) -> bool {
    match ip {
        IpAddress::V4(o) => o@[0] == 127,
        IpAddress::V6(g) => forall|i: int| 0 <= i < 8 ==> #[trigger] g@[i] == (if i == 7 { 1u16 } else { 0u16 }),
    }
}

/// Whether `ip` is a loopback address, that is, the request comes from the
/// machine the server runs on.
pub fn is_loopback(ip: &IpAddress) -> (res: bool)
    ensures
        res == loopback(*ip),
{
    match ip {
        IpAddress::V4(o) => o[0] == 127,
        IpAddress::V6(g) => {
            let mut i: usize = 0;
            while i < 8
                invariant
                    i <= 8,
                    *ip == IpAddress::V6(*g),
                    forall|j: int| 0 <= j < i ==> #[trigger] g@[j] == (if j == 7 { 1u16 } else { 0u16 }),
                decreases 8 - i,
            {
                let want: u16 = if i == 7 { 1 } else { 0 };
                if g[i] != want {
                    assert(g@[i as int] != (if i == 7 { 1u16 } else { 0u16 }));
                    assert(!loopback(*ip)) by {
                        assert(*ip matches IpAddress::V6(h) && h == *g);
                        let k = i as int;
                        assert(0 <= k < 8);
                        assert(!(g@[k] == (if k == 7 { 1u16 } else { 0u16 })));
                    }
                    return false;
                }
                i = i + 1;
            }
            true
        },
    }
}

/// The host as an address literal: the text between the brackets when the
/// host is written in brackets, as in a URL ("[::1]"), else the host itself.
pub open spec fn bare_host_of(host: Seq<char>) -> Seq<char> {
    if host.len() >= 2 && host[0] == '[' && host[host.len() - 1] == ']' {
        host.subrange(1, host.len() - 1)
    } else {
        host
    }
}

/// The host without the brackets of the URL form of an IPv6 address: "[::1]"
/// gives "::1"; a host without both brackets stays as it is.
pub fn bare_host(host: &str) -> (res: String)
    ensures
        res@ == bare_host_of(host@),
{
    let c = chars_of(host);
    let n = c.len();
    if n >= 2 && c[0] == '[' && c[n - 1] == ']' {
        let mut inner: Vec<char> = Vec::new();
        let mut i: usize = 1;
        while i < n - 1
            invariant
                c@ == host@,
                n == c.len(),
                n >= 2,
                1 <= i <= n - 1,
                inner@ == c@.subrange(1, i as int),
            decreases n - 1 - i,
        {
            inner.push(c[i]);
            assert(c@.subrange(1, i + 1) =~= c@.subrange(1, i as int).push(c@[i as int]));
            i = i + 1;
        }
        string_from_chars(&inner)
    } else {
        host.to_owned()
    }
}

/// Something the server says at startup about who can reach it.
#[derive(Clone, Copy, Debug, PartialEq, Eq, Structural)]
pub enum StartupNotice {
    /// Other machines can reach the server, which has no authentication.
    Reachable,
    /// Whoever reaches it can rename files.
    RenamingOpen,
    /// The System and Folder buttons work only in a browser on this machine.
    LocalButtonsOnly,
    /// Remote mode: videos play in the browser.
    RemoteMode,
}

/// The notices at startup: when the address is not a loopback address, that
/// the server is reachable, that renaming is open unless read-only, and that
/// the system buttons work only locally unless in remote mode; and in remote
/// mode, that it is on.
pub open spec fn startup_notices_of(loopback: bool, read_only: bool, remote: bool) -> Seq<StartupNotice> {
    (if loopback {
        seq![]
    } else {
        seq![StartupNotice::Reachable] + (if read_only {
            seq![]
        } else {
            seq![StartupNotice::RenamingOpen]
        }) + (if remote {
            seq![]
        } else {
            seq![StartupNotice::LocalButtonsOnly]
        })
    }) + (if remote {
        seq![StartupNotice::RemoteMode]
    } else {
        seq![]
    })
}

/// The notices to print at startup, in order.
pub fn startup_notices(listen: &IpAddress, read_only: bool, remote: bool) -> (res: Vec<StartupNotice>)
    ensures
        res@ == startup_notices_of(loopback(*listen), read_only, remote),
{
    let mut v: Vec<StartupNotice> = Vec::new();
    if !is_loopback(listen) {
        v.push(StartupNotice::Reachable);
        if !read_only {
            v.push(StartupNotice::RenamingOpen);
        }
        if !remote {
            v.push(StartupNotice::LocalButtonsOnly);
        }
    }
    if remote {
        v.push(StartupNotice::RemoteMode);
    }
    assert(v@ =~= startup_notices_of(loopback(*listen), read_only, remote));
    v
}

} // verus!
