//! The capability a relay-control plane offers the engine: bootstrap,
//! heartbeat, the inbound-message callback, and the relay receipt. The
//! engine is parametric over it; alternative planes share the route table
//! and the wire frame but replace the state machine.

use vstd::prelude::*;

use crate::identity::Peer;
use crate::mlbt::MlbtRelayCtlContext;
use crate::msg_header::RelayMethodKind;
use crate::route::RouteTable;

verus! {

/// A relay-control plane. Every operation preserves the plane's and the
/// route table's structural soundness, and the two driving operations — the
/// inbound callback and the heartbeat — answer to plane-specific relations
/// that say what they left behind and what they emitted.
pub trait RelayCtl: Sized {
    /// The plane's own structural soundness.
    spec fn ctl_wf(&self) -> bool;

    /// What one inbound message leaves behind and what it emits.
    spec fn callback_spec(
        pre: Self,
        pre_rt: RouteTable,
        sender: Seq<u8>,
        msg: Seq<u8>,
        post: Self,
        post_rt: RouteTable,
        out: Seq<(Peer, Vec<u8>)>,
    ) -> bool;

    /// What one heartbeat leaves behind and what it emits.
    spec fn heartbeat_spec(
        pre: Self,
        pre_rt: RouteTable,
        post: Self,
        out: Seq<(Peer, Vec<u8>)>,
    ) -> bool;

    /// Whether the plane can take one more inbound message (its sequence
    /// counter has headroom).
    spec fn ctl_can_step(&self) -> bool;

    /// Whether the plane can run one heartbeat over this route table.
    spec fn ctl_can_heartbeat(&self, route_ctl: &RouteTable) -> bool;

    fn new(route_ctl: &RouteTable) -> (r: Self)
        requires
            route_ctl.wf(),
        ensures
            r.ctl_wf(),
    ;

    /// The runtime test of `ctl_can_step`, for callers outside the proofs.
    fn can_step(&self) -> (r: bool)
        ensures
            r == self.ctl_can_step(),
    ;

    /// The runtime test of `ctl_can_heartbeat`, for callers outside the
    /// proofs.
    fn can_heartbeat(&self, route_ctl: &RouteTable) -> (r: bool)
        ensures
            r == self.ctl_can_heartbeat(route_ctl),
    ;

    fn get_relay_method(&self) -> RelayMethodKind;

    fn bootstrap(&mut self, route_ctl: &mut RouteTable) -> (r: Vec<(Peer, Vec<u8>)>)
        requires
            old(self).ctl_wf(),
            old(route_ctl).wf(),
        ensures
            final(self).ctl_wf(),
            final(route_ctl).wf(),
    ;

    fn relay_ctl_callback(&mut self, route_ctl: &mut RouteTable, sender: &Peer, msg: &[u8]) -> (r:
        Vec<(Peer, Vec<u8>)>)
        requires
            old(self).ctl_wf(),
            old(route_ctl).wf(),
            old(self).ctl_can_step(),
        ensures
            final(self).ctl_wf(),
            final(route_ctl).wf(),
            Self::callback_spec(
                *old(self),
                *old(route_ctl),
                sender@,
                msg@,
                *final(self),
                *final(route_ctl),
                r@,
            ),
    ;

    fn heartbeat(&mut self, route_ctl: &mut RouteTable) -> (r: Vec<(Peer, Vec<u8>)>)
        requires
            old(self).ctl_wf(),
            old(route_ctl).wf(),
            old(self).ctl_can_heartbeat(old(route_ctl)),
        ensures
            final(self).ctl_wf(),
            final(route_ctl).wf(),
            *final(route_ctl) == *old(route_ctl),
            Self::heartbeat_spec(*old(self), *old(route_ctl), *final(self), r@),
    ;

    fn relay_receipt(&mut self, route_ctl: &mut RouteTable, all_success: bool)
        requires
            old(self).ctl_wf(),
            old(route_ctl).wf(),
        ensures
            final(self).ctl_wf(),
            final(route_ctl).wf(),
    ;
}

impl RelayCtl for MlbtRelayCtlContext {
    open spec fn ctl_wf(&self) -> bool {
        self.wf()
    }

    open spec fn callback_spec(
        pre: Self,
        pre_rt: RouteTable,
        sender: Seq<u8>,
        msg: Seq<u8>,
        post: Self,
        post_rt: RouteTable,
        out: Seq<(Peer, Vec<u8>)>,
    ) -> bool {
        crate::mlbt::callback_post(pre, pre_rt, sender, msg, post, post_rt, out)
    }

    open spec fn heartbeat_spec(
        pre: Self,
        pre_rt: RouteTable,
        post: Self,
        out: Seq<(Peer, Vec<u8>)>,
    ) -> bool {
        exists|mid: MlbtRelayCtlContext, now: u64|
            #![trigger crate::mlbt::sweep_post(pre, mid, now)]
            mid.wf() && crate::mlbt::sweep_post(pre, mid, now) && crate::mlbt::heartbeat_post(
                mid,
                pre_rt,
                post,
                out,
            )
    }

    open spec fn ctl_can_step(&self) -> bool {
        self.seq_spec() < u64::MAX - 2
    }

    open spec fn ctl_can_heartbeat(&self, route_ctl: &RouteTable) -> bool {
        self.seq_spec() + 2 * route_ctl.del_spec().len() + 2 < u64::MAX
    }

    fn new(route_ctl: &RouteTable) -> (r: Self) {
        MlbtRelayCtlContext::new(route_ctl)
    }

    fn can_step(&self) -> (r: bool) {
        self.seq_val() < u64::MAX - 2
    }

    fn can_heartbeat(&self, route_ctl: &RouteTable) -> (r: bool) {
        let srcs = route_ctl.src_count();
        (self.seq_val() as u128) + 2 * (srcs as u128) + 2 < (u64::MAX as u128)
    }

    fn get_relay_method(&self) -> RelayMethodKind {
        MlbtRelayCtlContext::get_relay_method(self)
    }

    fn bootstrap(&mut self, route_ctl: &mut RouteTable) -> (r: Vec<(Peer, Vec<u8>)>) {
        MlbtRelayCtlContext::bootstrap(self, route_ctl)
    }

    fn relay_ctl_callback(&mut self, route_ctl: &mut RouteTable, sender: &Peer, msg: &[u8]) -> (r:
        Vec<(Peer, Vec<u8>)>) {
        MlbtRelayCtlContext::relay_ctl_callback(self, route_ctl, sender, msg)
    }

    fn heartbeat(&mut self, route_ctl: &mut RouteTable) -> (r: Vec<(Peer, Vec<u8>)>) {
        MlbtRelayCtlContext::heartbeat(self, route_ctl)
    }

    fn relay_receipt(&mut self, route_ctl: &mut RouteTable, all_success: bool) {
        MlbtRelayCtlContext::relay_receipt(self, route_ctl, all_success)
    }
}

} // verus!
