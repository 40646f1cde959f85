//! The packet router of the virtual-LAN variant: a shared tunnel device,
//! per-peer virtual addresses, and the handshake that communicates them.
//!
//! The host owns the private network: it keeps `10.10.10.1` for itself
//! and assigns each newly connected peer the next unused host octet,
//! from `.2` up to `.254`; once the range is exhausted new peers are
//! refused rather than octets reused. The assignment travels to the peer
//! as a tagged text message over its transport connection. In steady
//! state, raw IP packets move between the tunnel device and the peers;
//! handshake payloads are control traffic and never enter the tunnel.

use vstd::prelude::*;
use vstd::utf8::is_ascii_chars;
use crate::metrics::{NetworkMetrics, record_packet_received};
use crate::minecraft_discovery::spec_extract_tag;
use crate::minecraft_discovery::extract_tag_value;
use crate::text::{
    dec_str, is_digit, lemma_dec_str_value, lemma_find_first_found, matches_at, has_prefix,
    parse_u16, spec_parse_u16, u64_to_string,
};

verus! {

/// First host octet handed to a guest (`.1` is the host itself).
pub const VIP_FIRST_OCTET: u8 = 2;

/// Last host octet handed to a guest.
pub const VIP_LAST_OCTET: u8 = 254;

/// The tunnel device, as the router sees it: two in-memory packet
/// queues. The process embedding this crate moves packets between these
/// queues and the operating system's interface.
pub struct VpnDevice {
    /// Packets the router wrote, bound for the device's network side.
    pub to_device: Vec<Vec<u8>>,
    /// Packets the device produced, awaiting the router.
    pub from_device: Vec<Vec<u8>>,
}

impl VpnDevice {
    /// Open a device for `ip`/`netmask`, with nothing queued yet in
    /// either direction.
    pub fn new(ip: &str, netmask: &str) -> (r: Result<VpnDevice, String>)
        ensures
            match r {
                Ok(d) => d.to_device.deep_view() =~= Seq::<Seq<u8>>::empty()
                    && d.from_device.deep_view() =~= Seq::<Seq<u8>>::empty(),
                Err(_) => false,
            },
    {
        Ok(VpnDevice { to_device: Vec::new(), from_device: Vec::new() })
    }

    /// The device produced a packet for the router (the network side
    /// handing one up).
    pub fn push_inbound(&mut self, packet: Vec<u8>)
        ensures
            final(self).from_device.deep_view() =~= old(self).from_device.deep_view().push(packet@),
            final(self).to_device == old(self).to_device,
    {
        self.from_device.push(packet);
        proof {
            assert(self.from_device.deep_view() =~~= old(self).from_device.deep_view().push(packet@));
        }
    }

    /// Take the oldest packet the device produced, if any.
    pub fn read_from_device(&mut self) -> (r: Option<Vec<u8>>)
        ensures
            final(self).to_device == old(self).to_device,
            match r {
                Some(p) => {
                    &&& old(self).from_device.deep_view().len() > 0
                    &&& p@ == old(self).from_device.deep_view()[0]
                    &&& final(self).from_device.deep_view() == old(self).from_device.deep_view().drop_first()
                },
                None => {
                    &&& old(self).from_device.deep_view().len() == 0
                    &&& final(self).from_device == old(self).from_device
                },
            },
    {
        if self.from_device.len() == 0 {
            None
        } else {
            let p = self.from_device.remove(0);
            proof {
                assert(self.from_device.deep_view() =~~= old(self).from_device.deep_view().drop_first());
            }
            Some(p)
        }
    }
}

/// Hands out the next unused host octet of the private `/24`.
pub struct IpAllocator {
    /// The octet the next successful assignment returns.
    pub next_octet: u8,
}

/// What one assignment does: below the last guest octet it hands out
/// `next_octet` and moves on; past it, it refuses.
pub open spec fn spec_assign(a: IpAllocator) -> (Option<u8>, IpAllocator) {
    if a.next_octet <= VIP_LAST_OCTET {
        (Some(a.next_octet), IpAllocator { next_octet: (a.next_octet + 1) as u8 })
    } else {
        (None, a)
    }
}

/// The allocator after `k` assignment requests from a fresh one.
pub open spec fn alloc_after(k: int) -> IpAllocator {
    IpAllocator {
        next_octet: if VIP_FIRST_OCTET + k <= 255 {
            (VIP_FIRST_OCTET + k) as u8
        } else {
            255u8
        },
    }
}

impl IpAllocator {
    /// A fresh allocator: the first guest gets `.2`.
    pub fn new() -> (a: IpAllocator)
        ensures
            a == alloc_after(0),
            a.next_octet == VIP_FIRST_OCTET,
    {
        IpAllocator { next_octet: VIP_FIRST_OCTET }
    }

    /// Assign the next unused octet, or refuse once the range is
    /// exhausted.
    pub fn assign(&mut self) -> (r: Option<u8>)
        ensures
            r == spec_assign(*old(self)).0,
            *final(self) == spec_assign(*old(self)).1,
    {
        if self.next_octet <= VIP_LAST_OCTET {
            let o = self.next_octet;
            self.next_octet = self.next_octet + 1;
            Some(o)
        } else {
            None
        }
    }
}

/// Sequential assignments from a fresh allocator hand out `.2`, `.3`, …,
/// `.254` — the request number `k` (counting from zero) yields octet
/// `k + 2` while octets remain, and every later request is refused.
pub proof fn lemma_ip_assignment_run(k: int)
    requires
        0 <= k,
    ensures
        spec_assign(alloc_after(k)).1 == alloc_after(k + 1),
        k < 253 ==> spec_assign(alloc_after(k)).0 == Some((k + VIP_FIRST_OCTET) as u8),
        k < 253 ==> VIP_FIRST_OCTET <= k + VIP_FIRST_OCTET <= VIP_LAST_OCTET,
        k >= 253 ==> spec_assign(alloc_after(k)).0 is None,
{
}

/// No octet is handed out twice: two distinct successful requests get
/// distinct addresses.
pub proof fn lemma_ip_assignments_distinct(i: int, j: int)
    requires
        0 <= i < j < 253,
    ensures
        spec_assign(alloc_after(i)).0 is Some,
        spec_assign(alloc_after(j)).0 is Some,
        spec_assign(alloc_after(i)).0 != spec_assign(alloc_after(j)).0,
{
}

/// The dotted text of the virtual address with host octet `octet`.
pub open spec fn spec_vip_text(octet: u8) -> Seq<char> {
    "10.10.10."@ + dec_str(octet as nat)
}

/// The tagged assignment message for host octet `octet`:
/// `[VIP]10.10.10.octet[/VIP]`.
pub open spec fn spec_ip_assignment_message(octet: u8) -> Seq<char> {
    "[VIP]"@ + spec_vip_text(octet) + "[/VIP]"@
}

/// The dotted virtual address for `octet`, as text.
pub fn format_virtual_ip(octet: u8) -> (r: String)
    ensures
        r@ == spec_vip_text(octet),
{
    let mut s = String::from_str("10.10.10.");
    let o = u64_to_string(octet as u64);
    s.append(o.as_str());
    s
}

/// Build the assignment message announcing `octet` to its peer.
pub fn build_ip_assignment(octet: u8) -> (r: String)
    ensures
        r@ == spec_ip_assignment_message(octet),
{
    let mut s = String::from_str("[VIP]");
    let vip = format_virtual_ip(octet);
    s.append(vip.as_str());
    s.append("[/VIP]");
    proof {
        assert(s@ =~= spec_ip_assignment_message(octet));
    }
    s
}

/// What [`parse_ip_assignment`] returns: the host octet of the address
/// inside the first `[VIP]…[/VIP]` pair, provided the value is the
/// private prefix followed by a number one byte wide.
pub open spec fn spec_parse_ip_assignment(msg: Seq<char>) -> Option<u8> {
    match spec_extract_tag(msg, "VIP"@) {
        None => None,
        Some(v) => if matches_at(v, "10.10.10."@, 0) {
            match spec_parse_u16(v.skip("10.10.10."@.len() as int)) {
                Some(n) => if n <= 255 {
                    Some(n as u8)
                } else {
                    None
                },
                None => None,
            }
        } else {
            None
        },
    }
}

/// Read the assigned host octet out of an assignment message.
pub fn parse_ip_assignment(msg: &str) -> (r: Option<u8>)
    ensures
        r == spec_parse_ip_assignment(msg@),
{
    let v = match extract_tag_value(msg, "VIP") {
        Some(v) => v,
        None => {
            return None;
        },
    };
    let prefix = "10.10.10.";
    if !has_prefix(v, prefix) {
        return None;
    }
    let vlen = v.unicode_len();
    let plen = prefix.unicode_len();
    let octet_text = v.substring_char(plen, vlen);
    proof {
        assert(octet_text@ =~= v@.skip(prefix@.len() as int));
    }
    match parse_u16(octet_text) {
        Some(n) => {
            if n <= 255 {
                Some(n as u8)
            } else {
                None
            }
        },
        None => None,
    }
}

/// Whether `p` begins with the bytes of the handshake marker `[VIP]` —
/// such a payload is control traffic and never enters the tunnel.
pub open spec fn spec_is_handshake_packet(p: Seq<u8>) -> bool {
    let m = "[VIP]"@;
    p.len() >= m.len() && (forall|i: int| 0 <= i < m.len() ==> p[i] == #[trigger] m[i] as u8)
}

/// The marker bytes that open every handshake payload.
fn handshake_marker_bytes() -> (r: Vec<u8>)
    ensures
        r@.len() == "[VIP]"@.len(),
        forall|i: int| 0 <= i < r@.len() ==> r@[i] == #[trigger] "[VIP]"@[i] as u8,
{
    let s = "[VIP]";
    proof {
        reveal_strlit("[VIP]");
        assert forall|i: int|
            0 <= i < s@.len() implies '\0' <= #[trigger] s@[i] <= '\u{7f}' by {
        }
        assert(is_ascii_chars(s@));
        vstd::string::is_ascii_spec_bytes(s);
    }
    s.as_bytes_vec()
}

/// Whether `p` is a handshake payload.
pub fn is_handshake_packet(p: &Vec<u8>) -> (r: bool)
    ensures
        r == spec_is_handshake_packet(p@),
{
    let marker = handshake_marker_bytes();
    let mlen = marker.len();
    if p.len() < mlen {
        return false;
    }
    let mut i: usize = 0;
    while i < mlen
        invariant
            0 <= i <= mlen == marker@.len() == "[VIP]"@.len(),
            p@.len() >= mlen,
            forall|j: int| 0 <= j < mlen ==> marker@[j] == #[trigger] "[VIP]"@[j] as u8,
            forall|j: int| 0 <= j < i ==> p@[j] == #[trigger] "[VIP]"@[j] as u8,
        decreases mlen - i,
    {
        if p[i] != marker[i] {
            proof {
                assert(p@[i as int] != "[VIP]"@[i as int] as u8);
            }
            return false;
        }
        i = i + 1;
    }
    true
}

/// Deliver one transport payload on the virtual-LAN path: a payload that
/// carries data and is not a handshake is written to the device and
/// counted as received; a handshake, and a zero-length keep-alive, never
/// enter the tunnel.
pub fn route_from_peer(
    device: &mut VpnDevice,
    packet: Vec<u8>,
    metrics: &mut NetworkMetrics,
) -> (forwarded: bool)
    ensures
        forwarded == (packet@.len() > 0 && !spec_is_handshake_packet(packet@)),
        final(device).from_device == old(device).from_device,
        forwarded ==> final(device).to_device.deep_view() =~= old(device).to_device.deep_view().push(packet@),
        forwarded ==> *final(metrics) == (NetworkMetrics {
            packets_received: old(metrics).packets_received.saturating_add(1),
            bytes_received: old(metrics).bytes_received.saturating_add(packet@.len() as u64),
            ..*old(metrics)
        }),
        !forwarded ==> final(device).to_device == old(device).to_device && *final(metrics)
            == *old(metrics),
{
    if packet.len() == 0 {
        return false;
    }
    if is_handshake_packet(&packet) {
        return false;
    }
    record_packet_received(metrics, packet.len() as u64);
    self_push_to_device(device, packet);
    true
}

/// Append one packet to the device-bound queue.
fn self_push_to_device(device: &mut VpnDevice, packet: Vec<u8>)
    ensures
        final(device).to_device.deep_view() =~= old(device).to_device.deep_view().push(packet@),
        final(device).from_device == old(device).from_device,
{
    device.to_device.push(packet);
    proof {
        assert(device.to_device.deep_view() =~~= old(device).to_device.deep_view().push(packet@));
    }
}

/// An assignment message round-trips: the peer reads back exactly the
/// octet the host assigned.
pub proof fn lemma_ip_assignment_round_trip(octet: u8)
    ensures
        spec_parse_ip_assignment(spec_ip_assignment_message(octet)) == Some(octet),
{
    reveal_strlit("[VIP]");
    reveal_strlit("[/VIP]");
    reveal_strlit("10.10.10.");
    lemma_dec_str_value(octet as nat);
    let m0 = "[VIP]"@;
    let m1 = "[/VIP]"@;
    let pre = "10.10.10."@;
    let d = dec_str(octet as nat);
    let vip = pre + d;
    let msg = spec_ip_assignment_message(octet);
    let vlen = vip.len() as int;
    assert(msg.len() == 5 + vlen + 6);
    // The opening tag stands at position 0 and nowhere earlier.
    assert(msg.subrange(0, 5) =~= m0);
    assert(matches_at(msg, m0, 0));
    lemma_find_first_found(msg, m0, 0, 0);
    // Between the tags no '[' occurs, so the closing tag's first
    // occurrence is the one the builder placed.
    let i1 = 5 + vlen;
    assert(msg.subrange(i1, i1 + 6) =~= m1);
    assert(matches_at(msg, m1, i1));
    assert forall|j: int| 0 <= j < i1 implies !matches_at(msg, m1, j) by {
        if matches_at(msg, m1, j) {
            assert(msg.subrange(j, j + 6)[0] == m1[0]);
            assert(msg[j] == '[');
            if j == 0 {
                assert(msg.subrange(0, 6)[1] == m1[1]);
                assert(msg[1] == '/');
                assert(msg[1] == m0[1]);
            } else if j < 5 {
                assert(msg[j] == m0[j]);
            } else if j < 5 + 9 {
                assert(msg[j] == pre[j - 5]);
            } else {
                assert(msg[j] == d[j - 14]);
                assert(is_digit(d[j - 14]));
            }
        }
    }
    lemma_find_first_found(msg, m1, 0, i1);
    // So the extracted tag value is exactly the dotted address.
    assert(spec_extract_tag(msg, "VIP"@) == Some(msg.subrange(5, i1))) by {
        reveal_strlit("[");
        reveal_strlit("]");
        reveal_strlit("[/");
        reveal_strlit("VIP");
        assert(("["@ + "VIP"@ + "]"@) =~= m0);
        assert(("[/"@ + "VIP"@ + "]"@) =~= m1);
    }
    assert(msg.subrange(5, i1) =~= vip);
    assert(vip.subrange(0, 9) =~= pre);
    assert(matches_at(vip, pre, 0));
    assert(vip.skip(9) =~= d);
    assert(spec_parse_u16(d) == Some(octet as u16));
}

} // verus!
