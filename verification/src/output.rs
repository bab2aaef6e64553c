//! The actions a handler asks the runtime to perform. The session logic
//! never touches a socket: it returns a list of outputs, and the runtime
//! sends, multicasts, or disconnects accordingly. "Real" multicasts go only
//! to active participants; plain multicasts reach queued peers too.

use vstd::prelude::*;
use crate::packet::Packet;

verus! {

/// One action for the runtime.
pub enum Output {
    /// Send the packet to one peer over TCP.
    Send { peer: u16, packet: Packet },
    /// Send the packet to every connected peer over TCP.
    Multicast { packet: Packet },
    /// Send the packet to every active participant over TCP.
    MulticastReal { packet: Packet },
    /// Send the packet to every connected peer but one over TCP.
    MulticastExcept { except: u16, packet: Packet },
    /// Send the packet to every active participant but one over TCP.
    MulticastRealExcept { except: u16, packet: Packet },
    /// Send the packet as one datagram to the address behind this token.
    UdpSendAddr { addr: u64, packet: Packet },
    /// Send the packet as one datagram to every recorded game participant.
    UdpMulticast { packet: Packet },
    /// As `UdpMulticast`, but skip the address behind this token.
    UdpMulticastExceptAddr { except: u64, packet: Packet },
    /// Send a force-disconnect carrying the reason, then close the peer's
    /// connection.
    Disconnect { peer: u16, reason: &'static str },
}

impl Output {
    /// True when this output carries a TCP packet whose type byte is `code`.
    pub open spec fn is_tcp_packet_of_type(self, code: u8) -> bool {
        match self {
            Output::Send { packet, .. } => packet.bytes().len() >= 2 && packet.bytes()[1] == code,
            Output::Multicast { packet } => packet.bytes().len() >= 2 && packet.bytes()[1] == code,
            Output::MulticastReal { packet } => packet.bytes().len() >= 2 && packet.bytes()[1]
                == code,
            Output::MulticastExcept { packet, .. } => packet.bytes().len() >= 2 && packet.bytes()[1]
                == code,
            Output::MulticastRealExcept { packet, .. } => packet.bytes().len() >= 2
                && packet.bytes()[1] == code,
            _ => false,
        }
    }

    /// True when this output disconnects `peer`.
    pub open spec fn disconnects(self, peer: u16) -> bool {
        match self {
            Output::Disconnect { peer: p, .. } => p == peer,
            _ => false,
        }
    }
}


/// The output sends exactly these bytes to this peer over TCP.
pub open spec fn is_send(o: Output, peer: u16, bytes: Seq<u8>) -> bool {
    o matches Output::Send { peer: p, packet } && p == peer && packet.bytes() == bytes
}

/// The output sends exactly these bytes to every connected peer.
pub open spec fn is_multicast(o: Output, bytes: Seq<u8>) -> bool {
    o matches Output::Multicast { packet } && packet.bytes() == bytes
}

/// The output sends exactly these bytes to every active participant.
pub open spec fn is_multicast_real(o: Output, bytes: Seq<u8>) -> bool {
    o matches Output::MulticastReal { packet } && packet.bytes() == bytes
}

/// The output sends exactly these bytes to every connected peer but one.
pub open spec fn is_multicast_except(o: Output, except: u16, bytes: Seq<u8>) -> bool {
    o matches Output::MulticastExcept { except: e, packet } && e == except && packet.bytes()
        == bytes
}

/// The output sends exactly these bytes to every active participant but one.
pub open spec fn is_multicast_real_except(o: Output, except: u16, bytes: Seq<u8>) -> bool {
    o matches Output::MulticastRealExcept { except: e, packet } && e == except && packet.bytes()
        == bytes
}

/// Some output at or after position `base` sends these bytes to this peer.
pub open spec fn sent_to(s: Seq<Output>, base: int, peer: u16, bytes: Seq<u8>) -> bool {
    exists|k: int| 0 <= k && base <= k < s.len() && is_send(#[trigger] s[k], peer, bytes)
}

/// Some output at or after position `base` multicasts these bytes to the
/// active participants.
pub open spec fn multicast_real_after(s: Seq<Output>, base: int, bytes: Seq<u8>) -> bool {
    exists|k: int| 0 <= k && base <= k < s.len() && is_multicast_real(#[trigger] s[k], bytes)
}


/// Some output at or after position `base` multicasts these bytes to the
/// active participants but one.
pub open spec fn multicast_real_except_after(
    s: Seq<Output>,
    base: int,
    except: u16,
    bytes: Seq<u8>,
) -> bool {
    exists|k: int|
        0 <= k && base <= k < s.len() && is_multicast_real_except(#[trigger] s[k], except, bytes)
}


/// Some output at or after position `base` multicasts these bytes to every
/// connected peer.
pub open spec fn multicast_after(s: Seq<Output>, base: int, bytes: Seq<u8>) -> bool {
    exists|k: int| 0 <= k && base <= k < s.len() && is_multicast(#[trigger] s[k], bytes)
}

/// Some output at or after position `base` multicasts to the active
/// participants a packet with this type byte and this first payload byte.
pub open spec fn multicast_real_op_after(s: Seq<Output>, base: int, code: u8, sub: u8) -> bool {
    exists|k: int|
        0 <= k && base <= k < s.len() && ((#[trigger] s[k]) matches Output::MulticastReal { packet }
            && packet.bytes().len() >= 3 && packet.bytes()[1] == code && packet.bytes()[2] == sub)
}

/// Some output at or after position `base` carries a TCP packet with this
/// type byte.
pub open spec fn tcp_type_after(s: Seq<Output>, base: int, code: u8) -> bool {
    exists|k: int| 0 <= k && base <= k < s.len() && (#[trigger] s[k]).is_tcp_packet_of_type(code)
}

/// An output already recorded keeps its place when more are appended, so
/// every send, multicast or disconnect observed of a prefix holds of the
/// grown list.
pub proof fn lemma_outputs_grow(s1: Seq<Output>, s2: Seq<Output>)
    requires
        s1.len() <= s2.len(),
        forall|k: int| 0 <= k < s1.len() ==> s2[k] == s1[k],
    ensures
        forall|base: int, p: u16, b: Seq<u8>|
            sent_to(s1, base, p, b) ==> #[trigger] sent_to(s2, base, p, b),
        forall|base: int, b: Seq<u8>|
            multicast_real_after(s1, base, b) ==> #[trigger] multicast_real_after(s2, base, b),
        forall|base: int, e: u16, b: Seq<u8>|
            multicast_real_except_after(s1, base, e, b) ==> #[trigger] multicast_real_except_after(
                s2,
                base,
                e,
                b,
            ),
        forall|p: u16| any_disconnect(s1, p) ==> #[trigger] any_disconnect(s2, p),
        forall|base: int, b: Seq<u8>|
            multicast_after(s1, base, b) ==> #[trigger] multicast_after(s2, base, b),
        forall|base: int, c: u8| tcp_type_after(s1, base, c) ==> #[trigger] tcp_type_after(
            s2,
            base,
            c,
        ),
        forall|base: int, c: u8, sub: u8|
            multicast_real_op_after(s1, base, c, sub) ==> #[trigger] multicast_real_op_after(
                s2,
                base,
                c,
                sub,
            ),
{
    assert forall|base: int, p: u16, b: Seq<u8>| sent_to(s1, base, p, b) implies #[trigger] sent_to(
        s2,
        base,
        p,
        b,
    ) by {
        assert(exists|k: int| 0 <= k && base <= k < s1.len() && is_send(#[trigger] s1[k], p, b));
        let k = choose|k: int| 0 <= k && base <= k < s1.len() && is_send(#[trigger] s1[k], p, b);
        assert(0 <= k && base <= k < s1.len() && is_send(s1[k], p, b));
        assert(s2[k] == s1[k]);
        assert(is_send(s2[k], p, b));
    }
    assert forall|base: int, b: Seq<u8>| multicast_real_after(s1, base, b)
        implies #[trigger] multicast_real_after(s2, base, b) by {
        let k = choose|k: int| 0 <= k && base <= k < s1.len() && is_multicast_real(#[trigger] s1[k], b);
        assert(0 <= k && base <= k < s1.len() && is_multicast_real(s1[k], b));
        assert(s2[k] == s1[k]);
        assert(is_multicast_real(s2[k], b));
    }
    assert forall|base: int, e: u16, b: Seq<u8>| multicast_real_except_after(s1, base, e, b)
        implies #[trigger] multicast_real_except_after(s2, base, e, b) by {
        let k = choose|k: int|
            0 <= k && base <= k < s1.len() && is_multicast_real_except(#[trigger] s1[k], e, b);
        assert(0 <= k && base <= k < s1.len() && is_multicast_real_except(s1[k], e, b));
        assert(s2[k] == s1[k]);
        assert(is_multicast_real_except(s2[k], e, b));
    }
    assert forall|base: int, b: Seq<u8>| multicast_after(s1, base, b)
        implies #[trigger] multicast_after(s2, base, b) by {
        let k = choose|k: int| 0 <= k && base <= k < s1.len() && is_multicast(#[trigger] s1[k], b);
        assert(0 <= k && base <= k < s1.len() && is_multicast(s1[k], b));
        assert(s2[k] == s1[k]);
        assert(is_multicast(s2[k], b));
    }
    assert forall|base: int, c: u8| tcp_type_after(s1, base, c)
        implies #[trigger] tcp_type_after(s2, base, c) by {
        let k = choose|k: int|
            0 <= k && base <= k < s1.len() && (#[trigger] s1[k]).is_tcp_packet_of_type(c);
        assert(0 <= k && base <= k < s1.len() && s1[k].is_tcp_packet_of_type(c));
        assert(s2[k] == s1[k]);
        assert(s2[k].is_tcp_packet_of_type(c));
    }
    assert forall|base: int, c: u8, sub: u8| multicast_real_op_after(s1, base, c, sub)
        implies #[trigger] multicast_real_op_after(s2, base, c, sub) by {
        let k = choose|k: int|
            0 <= k && base <= k < s1.len() && ((#[trigger] s1[k]) matches Output::MulticastReal {
                packet,
            } && packet.bytes().len() >= 3 && packet.bytes()[1] == c && packet.bytes()[2] == sub);
        assert(s2[k] == s1[k]);
    }
    assert forall|p: u16| any_disconnect(s1, p) implies #[trigger] any_disconnect(s2, p) by {
        let k = choose|k: int| 0 <= k && k < s1.len() && (#[trigger] s1[k]).disconnects(p);
        assert(0 <= k < s1.len() && s1[k].disconnects(p));
        assert(s2[k] == s1[k]);
        assert(s2[k].disconnects(p));
    }
}


/// Append a disconnect for this peer, leaving everything before it in place.
pub fn push_disconnect(out: &mut Vec<Output>, peer: u16, reason: &'static str)
    ensures
        final(out)@ == old(out)@.push(Output::Disconnect { peer, reason }),
        final(out)@.len() == old(out)@.len() + 1,
        forall|k: int| 0 <= k < old(out)@.len() ==> final(out)@[k] == old(out)@[k],
        any_disconnect(final(out)@, peer),
{
    out.push(Output::Disconnect { peer, reason });
    proof {
        assert(out@.last().disconnects(peer));
    }
}

/// How many outputs of `s` carry a TCP packet with type byte `code`.
pub open spec fn count_of_type(s: Seq<Output>, code: u8) -> int
    decreases s.len(),
{
    if s.len() == 0 {
        0
    } else {
        count_of_type(s.drop_last(), code) + if s.last().is_tcp_packet_of_type(code) {
            1int
        } else {
            0int
        }
    }
}

/// Appending one output adds its own contribution to the count.
pub proof fn lemma_count_of_type_push(s: Seq<Output>, o: Output, code: u8)
    ensures
        count_of_type(s.push(o), code) == count_of_type(s, code) + if o.is_tcp_packet_of_type(
            code,
        ) {
            1int
        } else {
            0int
        },
{
    assert(s.push(o).drop_last() =~= s);
    assert(s.push(o).last() == o);
}

/// True when some output of `s` disconnects `peer`.
pub open spec fn any_disconnect(s: Seq<Output>, peer: u16) -> bool {
    exists|i: int| 0 <= i < s.len() && #[trigger] s[i].disconnects(peer)
}

} // verus!
