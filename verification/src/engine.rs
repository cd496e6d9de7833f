//! The pure decision core of the overlay engine: the prioritized send
//! buffer, the reconciliation of a message's carried upstream id with the
//! locator it arrived from, and the relay fan-out plan. The event loop that
//! owns sockets and tasks drives these from outside the library.

use vstd::prelude::*;

use crate::bidirct_hashmap::{BidirctHashmap, book_has_ip, book_has_pair, book_insert_keeps, book_wf};
use crate::identity::{Peer, ids_of};
use crate::message::OverlayMessage;
use crate::peer_map::{pm_at, pm_has};
use crate::route::RouteTable;
use crate::sock::SocketAddrBi;

verus! {

/// One queued send: where to, how urgent, and what.
pub struct MsgWithPriority {
    dst: Peer,
    priority: u32,
    msg: OverlayMessage,
}

impl MsgWithPriority {
    pub fn new(dst: &Peer, priority: u32, msg: OverlayMessage) -> (r: Self)
        ensures
            r.dst_spec() == dst@,
            r.priority_spec() == priority,
            r.msg_spec() == msg@,
    {
        Self { dst: dst.clone(), priority, msg }
    }

    /// Where the message goes.
    pub closed spec fn dst_spec(&self) -> Seq<u8> {
        self.dst@
    }

    /// How urgent the send is; higher drains first.
    pub closed spec fn priority_spec(&self) -> u32 {
        self.priority
    }

    /// The message itself.
    pub closed spec fn msg_spec(&self) -> crate::message::OverlayMessageView {
        self.msg@
    }

    pub fn dst(&self) -> (r: &Peer)
        ensures
            r@ == self.dst_spec(),
    {
        &self.dst
    }

    pub fn priority(&self) -> (r: u32)
        ensures
            r == self.priority_spec(),
    {
        self.priority
    }

    pub fn msg(&self) -> (r: &OverlayMessage)
        ensures
            r@ == self.msg_spec(),
    {
        &self.msg
    }
}

/// The prioritized send buffer: sends drain highest priority first, and
/// first-queued first among equal priorities.
pub struct SendBuffer {
    items: Vec<MsgWithPriority>,
}

impl SendBuffer {
    /// The queued sends, in arrival order.
    pub closed spec fn items_spec(&self) -> Seq<MsgWithPriority> {
        self.items@
    }

    /// An empty buffer.
    pub fn new() -> (r: Self)
        ensures
            r.items_spec().len() == 0,
    {
        Self { items: Vec::new() }
    }

    /// How many sends are queued.
    pub fn len(&self) -> (r: usize)
        ensures
            r == self.items_spec().len(),
    {
        self.items.len()
    }

    /// Queue one send behind the ones already waiting.
    pub fn push(&mut self, task: MsgWithPriority)
        ensures
            final(self).items_spec() == old(self).items_spec().push(task),
    {
        self.items.push(task);
    }

    /// Take the most urgent send: the one with the highest priority, and the
    /// earliest-queued among those. `None` exactly when the buffer is empty.
    pub fn pop_max(&mut self) -> (r: Option<MsgWithPriority>)
        ensures
            old(self).items_spec().len() == 0 ==> r is None && final(self).items_spec() == old(self).items_spec(),
            old(self).items_spec().len() > 0 ==> (r matches Some(x) && exists|i: int|
                0 <= i < old(self).items_spec().len() && x == old(self).items_spec()[i] && final(self).items_spec() == old(self).items_spec().remove(i) && (forall|j: int|
                    0 <= j < old(self).items_spec().len()
                        ==> (#[trigger] old(self).items_spec()[j]).priority_spec()
                        <= old(self).items_spec()[i].priority_spec()) && (forall|j: int|
                    0 <= j < i ==> (#[trigger] old(self).items_spec()[j]).priority_spec() < old(self).items_spec()[i].priority_spec())),
    {
        let n = self.items.len();
        if n == 0 {
            return None;
        }
        let mut best: usize = 0;
        let mut k: usize = 1;
        while k < n
            invariant
                n == self.items_spec().len(),
                best < k <= n,
                forall|j: int|
                    0 <= j < k ==> (#[trigger] self.items_spec()[j]).priority_spec()
                        <= self.items_spec()[best as int].priority_spec(),
                forall|j: int|
                    0 <= j < best ==> (#[trigger] self.items_spec()[j]).priority_spec()
                        < self.items_spec()[best as int].priority_spec(),
            decreases n - k,
        {
            if self.items[k].priority > self.items[best].priority {
                best = k;
            }
            k += 1;
        }
        let task = self.items.remove(best);
        Some(task)
    }
}

/// Reconcile a message's carried upstream id with the locator it arrived
/// from, updating the address book:
/// - a real carried id is authoritative: an unknown peer is added under the
///   arrival locator, a known one that moved is re-mapped;
/// - a placeholder id is resolved by the arrival locator, and the message is
///   dropped when the book does not know it.
///
/// The returned message carries the resolved upstream id; everything else of
/// it is untouched.
pub fn from_id_handler(
    book: &mut BidirctHashmap,
    from_addr: &SocketAddrBi,
    msg: &OverlayMessage,
) -> (r: Option<OverlayMessage>)
    requires
        book_wf(old(book)@),
    ensures
        book_wf(final(book)@),
        msg@.from != Peer::broadcast_id_spec() ==> {
            &&& (r matches Some(m) && m@ == msg@)
            &&& book_has_pair(final(book)@, msg@.from, from_addr@)
            &&& book_insert_keeps(old(book)@, final(book)@, msg@.from, from_addr@)
        },
        msg@.from == Peer::broadcast_id_spec() ==> final(book)@ == old(book)@ && (match r {
            Some(m) => book_has_ip(old(book)@, from_addr@.ip) && (exists|i: int|
                0 <= i < old(book)@.len() && old(book)@[i].1.ip == from_addr@.ip && m@ == (
                crate::message::OverlayMessageView { from: old(book)@[i].0, ..msg@ })),
            None => !book_has_ip(old(book)@, from_addr@.ip),
        }),
{
    let carried = msg.from();
    if carried.common() {
        // A real id: insert or move the peer to the arrival locator. A
        // locator equal by IP is still rewritten, which keeps the freshest
        // ports and the same mapping.
        book.insert(&carried, from_addr);
        Some(msg.clone())
    } else {
        match book.get_by_value(from_addr) {
            Some(stored) => {
                let resolved = stored.clone();
                let mut m = msg.clone();
                m.set_from(&resolved);
                Some(m)
            },
            None => None,
        }
    }
}

/// The relay fan-out plan for one inbound message: nothing unless the relay
/// flag is set; otherwise one send per child listed for the message's
/// source, in list order, each carrying this node as the new upstream. A
/// node with no children for the source forwards nothing, so a leaf never
/// re-broadcasts.
pub fn relay_plan(route_table: &RouteTable, me: &Peer, msg: &OverlayMessage) -> (r: Vec<
    (Peer, OverlayMessage),
>)
    requires
        route_table.wf(),
    ensures
        !crate::msg_header::spec_relay_flag(msg@.header) ==> r@.len() == 0,
        crate::msg_header::spec_relay_flag(msg@.header) && !pm_has(
            route_table.relay_spec(),
            msg@.src,
        ) ==> r@.len() == 0,
        crate::msg_header::spec_relay_flag(msg@.header) && pm_has(
            route_table.relay_spec(),
            msg@.src,
        ) ==> {
            let children = ids_of(pm_at(route_table.relay_spec(), msg@.src)@);
            &&& r@.len() == children.len()
            &&& forall|i: int|
                0 <= i < r@.len() ==> (#[trigger] r@[i]).0@ == children[i] && r@[i].1@ == (
                crate::message::OverlayMessageView { from: me@, ..msg@ })
        },
{
    let mut out: Vec<(Peer, OverlayMessage)> = Vec::new();
    if !msg.is_relay() {
        return out;
    }
    let src = msg.src();
    let relay_list = route_table.get_relay(&src);
    let ghost children = ids_of(pm_at(route_table.relay_spec(), msg@.src)@);
    let n = relay_list.len();
    let mut i: usize = 0;
    while i < n
        invariant
            n == relay_list@.len(),
            i <= n,
            out@.len() == i,
            pm_has(route_table.relay_spec(), msg@.src) ==> ids_of(relay_list@) == children,
            forall|j: int|
                0 <= j < i ==> (#[trigger] out@[j]).0@ == relay_list@[j]@ && out@[j].1@ == (
                crate::message::OverlayMessageView { from: me@, ..msg@ }),
        decreases n - i,
    {
        let mut m = msg.clone();
        m.set_from(me);
        let child = relay_list[i].clone();
        out.push((child, m));
        i += 1;
    }
    proof {
        if pm_has(route_table.relay_spec(), msg@.src) {
            assert forall|j: int| 0 <= j < out@.len() implies (#[trigger] out@[j]).0@
                == children[j] && out@[j].1@ == (crate::message::OverlayMessageView {
                from: me@,
                ..msg@
            }) by {
                assert(ids_of(relay_list@)[j] == relay_list@[j]@);
            }
        }
    }
    out
}

} // verus!
