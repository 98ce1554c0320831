//! The magic packet: six synchronisation bytes followed by sixteen copies
//! of the hardware address.

use crate::address::{is_mac_text, lemma_mac_value_octets, mac_value, text_octet, MAC_LIMIT};
use vstd::prelude::*;

verus! {

/// Number of synchronisation bytes at the start of a magic packet.
pub const SYNC_LEN: usize = 6;

/// Number of bytes in a hardware address.
pub const MAC_LEN: usize = 6;

/// Number of times a magic packet repeats the hardware address.
pub const REPETITIONS: usize = 16;

/// Number of bytes in a magic packet.
pub const PACKET_LEN: usize = 102;

/// The value of every synchronisation byte.
pub const SYNC_BYTE: u8 = 0xff;

/// Byte `k` of the six low-order bytes of `mac`, counted from the most
/// significant one.
pub open spec fn mac_octet(mac: u64, k: int) -> u8 {
    ((mac >> ((8 * (5 - k)) as u64)) & 0xff) as u8
}

/// The six low-order bytes of `mac` in network byte order.
pub open spec fn mac_octets(mac: u64) -> Seq<u8> {
    Seq::new(MAC_LEN as nat, |k: int| mac_octet(mac, k))
}

/// The number that `octets` write in base 256, most significant byte first.
pub open spec fn octets_value(octets: Seq<u8>) -> nat
    decreases octets.len(),
{
    if octets.len() == 0 {
        0
    } else {
        256 * octets_value(octets.drop_last()) + octets.last() as nat
    }
}

/// The magic packet for `mac`: byte `j` is a synchronisation byte while
/// `j < 6`, and after that the bytes of the address come round every six
/// positions.
pub open spec fn magic_packet_bytes(mac: u64) -> Seq<u8> {
    Seq::new(
        PACKET_LEN as nat,
        |j: int|
            if j < SYNC_LEN {
                SYNC_BYTE
            } else {
                mac_octet(mac, (j - SYNC_LEN) % (MAC_LEN as int))
            },
    )
}

/// The six bytes of `packet` that make up its repetition `i` of the address.
pub open spec fn packet_block(packet: Seq<u8>, i: int) -> Seq<u8> {
    packet.subrange(SYNC_LEN + MAC_LEN * i, SYNC_LEN + MAC_LEN * i + MAC_LEN)
}

/// The bytes of an address are the address: read back as one big-endian
/// number, the six octets of `mac` give its low 48 bits.
pub proof fn lemma_octets_roundtrip(mac: u64)
    ensures
        octets_value(mac_octets(mac)) == mac % MAC_LIMIT,
        mac < MAC_LIMIT ==> octets_value(mac_octets(mac)) == mac,
{
    let o = mac_octets(mac);
    let o5 = o.drop_last();
    let o4 = o5.drop_last();
    let o3 = o4.drop_last();
    let o2 = o3.drop_last();
    let o1 = o2.drop_last();
    let o0 = o1.drop_last();
    assert(octets_value(o0) == 0);
    assert(octets_value(o1) == o[0]);
    assert(octets_value(o2) == 256 * octets_value(o1) + o[1]);
    assert(octets_value(o3) == 256 * octets_value(o2) + o[2]);
    assert(octets_value(o4) == 256 * octets_value(o3) + o[3]);
    assert(octets_value(o5) == 256 * octets_value(o4) + o[4]);
    assert(octets_value(o) == 256 * octets_value(o5) + o[5]);
    let b0: u64 = (mac >> 40) & 0xff;
    let b1: u64 = (mac >> 32) & 0xff;
    let b2: u64 = (mac >> 24) & 0xff;
    let b3: u64 = (mac >> 16) & 0xff;
    let b4: u64 = (mac >> 8) & 0xff;
    let b5: u64 = mac & 0xff;
    assert(mac >> 0 == mac) by (bit_vector);
    assert(b0 <= 0xff && b1 <= 0xff && b2 <= 0xff && b3 <= 0xff && b4 <= 0xff && b5 <= 0xff)
        by (bit_vector)
        requires
            b0 == (mac >> 40) & 0xff,
            b1 == (mac >> 32) & 0xff,
            b2 == (mac >> 24) & 0xff,
            b3 == (mac >> 16) & 0xff,
            b4 == (mac >> 8) & 0xff,
            b5 == mac & 0xff,
    ;
    assert(((((b0 * 256 + b1) * 256 + b2) * 256 + b3) * 256 + b4) * 256 + b5 == mac
        % 0x1_0000_0000_0000) by (bit_vector)
        requires
            b0 == (mac >> 40) & 0xff,
            b1 == (mac >> 32) & 0xff,
            b2 == (mac >> 24) & 0xff,
            b3 == (mac >> 16) & 0xff,
            b4 == (mac >> 8) & 0xff,
            b5 == mac & 0xff,
    ;
}

/// Round trip: each of the sixteen blocks of the magic packet for `mac`
/// holds the six bytes of `mac`, and they read back as its low 48 bits.
pub proof fn lemma_block_roundtrip(mac: u64, i: int)
    requires
        0 <= i < REPETITIONS,
    ensures
        packet_block(magic_packet_bytes(mac), i) == mac_octets(mac),
        octets_value(packet_block(magic_packet_bytes(mac), i)) == mac % MAC_LIMIT,
        mac < MAC_LIMIT ==> octets_value(packet_block(magic_packet_bytes(mac), i)) == mac,
{
    assert(packet_block(magic_packet_bytes(mac), i) =~= mac_octets(mac));
    lemma_octets_roundtrip(mac);
}

/// Parsing and encoding agree: the packet for a parsed address carries the
/// octets in the order in which the text writes them.
pub proof fn lemma_parsed_octets(text: Seq<char>)
    requires
        is_mac_text(text),
    ensures
        mac_value(text) < MAC_LIMIT,
        forall|k: int|
            0 <= k < MAC_LEN ==> #[trigger] mac_octets(mac_value(text) as u64)[k] == text_octet(
                text,
                k,
            ),
{
    lemma_mac_value_octets(text);
    let t0 = text_octet(text, 0) as u64;
    let t1 = text_octet(text, 1) as u64;
    let t2 = text_octet(text, 2) as u64;
    let t3 = text_octet(text, 3) as u64;
    let t4 = text_octet(text, 4) as u64;
    let t5 = text_octet(text, 5) as u64;
    assert(t0 < 256 && t1 < 256 && t2 < 256 && t3 < 256 && t4 < 256 && t5 < 256);
    let mac = mac_value(text) as u64;
    assert(mac == ((((t0 * 256 + t1) * 256 + t2) * 256 + t3) * 256 + t4) * 256 + t5);
    assert(mac >> 0 == mac) by (bit_vector);
    assert((mac >> 40) & 0xff == t0 && (mac >> 32) & 0xff == t1 && (mac >> 24) & 0xff == t2 && (mac
        >> 16) & 0xff == t3 && (mac >> 8) & 0xff == t4 && mac & 0xff == t5) by (bit_vector)
        requires
            t0 < 256 && t1 < 256 && t2 < 256 && t3 < 256 && t4 < 256 && t5 < 256,
            mac == ((((t0 * 256 + t1) * 256 + t2) * 256 + t3) * 256 + t4) * 256 + t5,
    ;
}

/// The six low-order bytes of `mac` in network byte order. The upper
/// sixteen bits of `mac` play no part.
pub fn mac_bytes(mac: u64) -> (octets: [u8; 6])
    ensures
        octets@ == mac_octets(mac),
{
    let b0: u64 = (mac >> 40) & 0xff;
    let b1: u64 = (mac >> 32) & 0xff;
    let b2: u64 = (mac >> 24) & 0xff;
    let b3: u64 = (mac >> 16) & 0xff;
    let b4: u64 = (mac >> 8) & 0xff;
    let b5: u64 = mac & 0xff;
    proof {
        assert((mac >> 40) & 0xff <= 0xff) by (bit_vector);
        assert((mac >> 32) & 0xff <= 0xff) by (bit_vector);
        assert((mac >> 24) & 0xff <= 0xff) by (bit_vector);
        assert((mac >> 16) & 0xff <= 0xff) by (bit_vector);
        assert((mac >> 8) & 0xff <= 0xff) by (bit_vector);
        assert(mac & 0xff <= 0xff) by (bit_vector);
        assert(mac >> 0 == mac) by (bit_vector);
    }
    let octets = [b0 as u8, b1 as u8, b2 as u8, b3 as u8, b4 as u8, b5 as u8];
    proof {
        assert(octets@ =~= mac_octets(mac));
    }
    octets
}

/// Builds the magic packet for the hardware address `mac`.
///
/// The packet is 102 bytes long. Its first six bytes are `0xFF`, and each of
/// the sixteen six-byte blocks after them holds the address in network
/// byte order.
pub fn magic_packet(mac: u64) -> (packet: [u8; 102])
    ensures
        packet@ == magic_packet_bytes(mac),
        packet@.len() == PACKET_LEN,
        forall|j: int| 0 <= j < SYNC_LEN ==> packet@[j] == SYNC_BYTE,
        forall|i: int|
            0 <= i < REPETITIONS ==> #[trigger] packet_block(packet@, i) == mac_octets(mac),
{
    let octets = mac_bytes(mac);
    let mut packet = [SYNC_BYTE; PACKET_LEN];
    let mut i: usize = 0;
    while i < REPETITIONS
        invariant
            i <= REPETITIONS,
            octets@ == mac_octets(mac),
            forall|j: int|
                0 <= j < SYNC_LEN + MAC_LEN * i ==> packet@[j] == magic_packet_bytes(mac)[j],
            forall|j: int| SYNC_LEN + MAC_LEN * i <= j < PACKET_LEN ==> packet@[j] == SYNC_BYTE,
        decreases REPETITIONS - i,
    {
        let start: usize = SYNC_LEN + i * MAC_LEN;
        let mut k: usize = 0;
        while k < MAC_LEN
            invariant
                i < REPETITIONS,
                k <= MAC_LEN,
                start == SYNC_LEN + MAC_LEN * i,
                octets@ == mac_octets(mac),
                forall|j: int| 0 <= j < start + k ==> packet@[j] == magic_packet_bytes(mac)[j],
                forall|j: int| start + k <= j < PACKET_LEN ==> packet@[j] == SYNC_BYTE,
            decreases MAC_LEN - k,
        {
            packet[start + k] = octets[k];
            k += 1;
        }
        i += 1;
    }
    proof {
        assert(packet@ =~= magic_packet_bytes(mac));
        assert forall|i: int| 0 <= i < REPETITIONS implies #[trigger] packet_block(packet@, i)
            == mac_octets(mac) by {
            lemma_block_roundtrip(mac, i);
        }
    }
    packet
}

} // verus!
