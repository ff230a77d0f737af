//! The ports that are probed where the caller names none.

use vstd::prelude::*;

verus! {

/// The sixteen well-known ports of the built-in list, in the order in which
/// they are probed.
pub const DEFAULT_SCAN_PORTS: [u16; 16] = [
    22,  // SSH
    80,  // HTTP
    443,  // HTTPS
    21,  // FTP
    23,  // Telnet
    25,  // SMTP
    53,  // DNS
    110,  // POP3
    135,  // RPC
    139,  // NetBIOS session service
    445,  // SMB
    3389,  // RDP
    5900,  // VNC
    8080,  // HTTP, alternative
    8443,  // HTTPS, alternative
    8000,  // HTTP, alternative
];

/// The built-in list as a sequence.
pub open spec fn default_ports() -> Seq<u16> {
    seq![22, 80, 443, 21, 23, 25, 53, 110, 135, 139, 445, 3389, 5900, 8080, 8443, 8000]
}

/// A fresh copy of the built-in list.
pub fn default_scan_ports() -> (ports: Vec<u16>)
    ensures
        ports@ == default_ports(),
        ports.len() == 16,
{
    let mut ports: Vec<u16> = Vec::new();
    let mut i: usize = 0;
    while i < 16
        invariant
            0 <= i <= 16,
            ports.len() == i,
            forall|j: int| 0 <= j < i ==> ports[j] == DEFAULT_SCAN_PORTS[j],
        decreases 16 - i,
    {
        ports.push(DEFAULT_SCAN_PORTS[i]);
        i += 1;
    }
    assert(ports@ =~= default_ports());
    ports
}

} // verus!
