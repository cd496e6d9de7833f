//! A remote locator: IP bytes, the port the peer listens on, and the port it
//! happened to dial from, where one is known.
//!
//! Equality is over the IP alone: a peer behind NAT may accept on one port
//! and dial from another, and the address book must still find it.

use vstd::prelude::*;

verus! {

/// The mathematical value of a locator.
pub ghost struct SocketAddrBiView {
    pub ip: Seq<u8>,
    pub lport: u16,
    pub iport: Option<u16>,
}

/// A remote locator. The IP is held as its raw bytes: four for version 4,
/// sixteen for version 6.
#[derive(Debug)]
pub struct SocketAddrBi {
    ip: Vec<u8>,
    lport: u16,
    iport: Option<u16>,
}

impl View for SocketAddrBi {
    type V = SocketAddrBiView;

    closed spec fn view(&self) -> SocketAddrBiView {
        SocketAddrBiView { ip: self.ip@, lport: self.lport, iport: self.iport }
    }
}

impl SocketAddrBi {
    /// An IP is four or sixteen bytes.
    pub open spec fn wf(&self) -> bool {
        self@.ip.len() == 4 || self@.ip.len() == 16
    }

    pub fn new(ip: &[u8], lport: u16, iport: Option<u16>) -> (r: Self)
        ensures
            r@ == (SocketAddrBiView { ip: ip@, lport, iport }),
    {
        Self { ip: vstd::slice::slice_to_vec(ip), lport, iport }
    }

    /// The raw IP bytes.
    pub fn ip(&self) -> (r: Vec<u8>)
        ensures
            r@ == self@.ip,
    {
        self.ip.clone()
    }

    /// The port the peer listens on.
    pub fn listen_port(&self) -> (r: u16)
        ensures
            r == self@.lport,
    {
        self.lport
    }

    /// The port the peer dialed from, where one is known.
    pub fn incoming_port(&self) -> (r: Option<u16>)
        ensures
            r == self@.iport,
    {
        self.iport
    }

    /// True when the two locators name the same IP, whatever their ports.
    pub fn same_ip(&self, other: &Self) -> (r: bool)
        ensures
            r == (self@.ip == other@.ip),
    {
        let n = self.ip.len();
        if n != other.ip.len() {
            return false;
        }
        let mut i: usize = 0;
        while i < n
            invariant
                n == self@.ip.len(),
                n == other@.ip.len(),
                i <= n,
                forall|j: int| 0 <= j < i ==> self@.ip[j] == other@.ip[j],
            decreases n - i,
        {
            if self.ip[i] != other.ip[i] {
                return false;
            }
            i += 1;
        }
        proof {
            assert(self@.ip =~= other@.ip);
        }
        true
    }
}

impl Clone for SocketAddrBi {
    /// A cloned locator names the same IP and ports.
    fn clone(&self) -> (r: Self)
        ensures
            r@ == self@,
    {
        SocketAddrBi { ip: self.ip.clone(), lport: self.lport, iport: self.iport }
    }
}

impl PartialEq for SocketAddrBi {
    /// Locators are equal exactly when their IPs are: the ports are free to
    /// differ across NAT.
    fn eq(&self, other: &Self) -> (r: bool) {
        self.same_ip(other)
    }
}

impl vstd::std_specs::cmp::PartialEqSpecImpl for SocketAddrBi {
    open spec fn obeys_eq_spec() -> bool {
        true
    }

    open spec fn eq_spec(&self, other: &SocketAddrBi) -> bool {
        self@.ip == other@.ip
    }
}

impl Eq for SocketAddrBi {}

} // verus!
