//! Packets on a byte stream: eight bytes of length, then the packet.

use crate::bytes::{
    big_endian, big_endian_value, lemma_big_endian_len, lemma_big_endian_round_trip,
    law_big_endian_digits, lemma_eight_bytes,
};
use vstd::arithmetic::power::pow;
use vstd::prelude::*;

verus! {

/// The number of bytes in front of every packet.
pub const HEADER_LEN: usize = 8;

/// The length of a packet as it stands in front of the packet.
pub open spec fn header(len: nat) -> Seq<u8> {
    big_endian(len, HEADER_LEN as nat)
}

/// A packet as it travels: its length, then its bytes.
pub open spec fn frame(packet: Seq<u8>) -> Seq<u8> {
    header(packet.len()) + packet
}

/// The bytes of several packets, one frame after the other.
pub open spec fn frames(packets: Seq<Seq<u8>>) -> Seq<u8>
    decreases packets.len(),
{
    if packets.len() == 0 {
        Seq::empty()
    } else {
        frames(packets.drop_last()) + frame(packets.last())
    }
}

/// Packets that a stream can carry: an empty one stands for the end of the stream, and none is
/// longer than a buffer can be.
pub open spec fn all_sendable(packets: Seq<Seq<u8>>) -> bool {
    forall|i: int| 0 <= i < packets.len() ==> sendable(#[trigger] packets[i])
}

/// One packet that a stream can carry.
pub open spec fn sendable(packet: Seq<u8>) -> bool {
    0 < packet.len() <= isize::MAX
}

/// The length can be read back from a header.
pub proof fn lemma_header(len: nat)
    requires
        len <= u64::MAX,
    ensures
        header(len).len() == HEADER_LEN,
        big_endian_value(header(len)) == len,
{
    lemma_eight_bytes();
    lemma_big_endian_len(len, 8);
    lemma_big_endian_round_trip(len, 8);
}

/// Putting one more packet behind others.
pub proof fn lemma_frames_push(packets: Seq<Seq<u8>>, packet: Seq<u8>)
    ensures
        frames(packets.push(packet)) == frames(packets) + frame(packet),
{
    assert(packets.push(packet).drop_last() =~= packets);
}

/// The stream of the first packets comes first.
pub proof fn lemma_frames_prefix(first: Seq<Seq<u8>>, packets: Seq<Seq<u8>>)
    requires
        first.is_prefix_of(packets),
    ensures
        frames(first).is_prefix_of(frames(packets)),
    decreases packets.len(),
{
    if first.len() == packets.len() {
        assert(first =~= packets);
    } else {
        let shorter = packets.drop_last();
        assert(first.is_prefix_of(shorter)) by {
            assert(first =~= shorter.take(first.len() as int));
        }
        lemma_frames_prefix(first, shorter);
        let n = frames(first).len() as int;
        assert(frames(packets).take(n) =~= frames(shorter).take(n));
    }
}

/// The frame of the first packet comes first.
pub proof fn lemma_frames_first(packets: Seq<Seq<u8>>)
    requires
        packets.len() > 0,
    ensures
        frames(packets) == frame(packets[0]) + frames(packets.drop_first()),
    decreases packets.len(),
{
    if packets.len() == 1 {
        assert(packets.drop_last() =~= Seq::empty());
        assert(packets.drop_first() =~= Seq::empty());
        assert(frames(packets) =~= frame(packets[0]) + frames(packets.drop_first()));
    } else {
        let front = packets.drop_last();
        let tail = packets.drop_first();
        lemma_frames_first(front);
        assert(front.drop_first() =~= tail.drop_last());
        assert(frames(packets) =~= frame(packets[0]) + (frames(tail.drop_last()) + frame(
            tail.last(),
        )));
    }
}

/// If two byte strings that both begin with a frame are equal, they begin with the same frame.
pub proof fn lemma_first_frame_is_unique(a: Seq<u8>, b: Seq<u8>, after_a: Seq<u8>, after_b: Seq<u8>)
    requires
        a.len() <= u64::MAX,
        b.len() <= u64::MAX,
        frame(a) + after_a == frame(b) + after_b,
    ensures
        a == b,
        after_a == after_b,
{
    lemma_header(a.len());
    lemma_header(b.len());
    let whole = frame(a) + after_a;
    assert(whole.take(8) =~= header(a.len()));
    assert((frame(b) + after_b).take(8) =~= header(b.len()));
    assert(a.len() == b.len());
    assert(whole.subrange(8, 8 + a.len() as int) =~= a);
    assert((frame(b) + after_b).subrange(8, 8 + b.len() as int) =~= b);
    assert(whole.skip((8 + a.len()) as int) =~= after_a);
    assert((frame(b) + after_b).skip((8 + b.len()) as int) =~= after_b);
}

/// Packets that were read off the front of a stream of packets are its first packets, and what
/// follows them is the stream of the others.
pub proof fn lemma_frames_read_off(read: Seq<Seq<u8>>, after: Seq<u8>, packets: Seq<Seq<u8>>)
    requires
        frames(read) + after == frames(packets),
        forall|i: int| 0 <= i < read.len() ==> (#[trigger] read[i]).len() <= u64::MAX,
        all_sendable(packets),
    ensures
        read.len() <= packets.len(),
        read == packets.take(read.len() as int),
        after == frames(packets.skip(read.len() as int)),
    decreases read.len(),
{
    if read.len() == 0 {
        assert(after =~= frames(packets));
        assert(packets.skip(0) =~= packets);
        assert(packets.take(0) =~= read);
    } else {
        lemma_frames_first(read);
        lemma_header(read[0].len());
        assert(frames(read).len() >= 8);
        if packets.len() == 0 {
            assert((frames(read) + after).len() >= 8);
            assert(frames(packets).len() == 0);
        }
        lemma_frames_first(packets);
        let read_rest = read.drop_first();
        let rest = packets.drop_first();
        assert(sendable(packets[0]));
        assert(frames(read) + after =~= frame(read[0]) + (frames(read_rest) + after));
        lemma_first_frame_is_unique(read[0], packets[0], frames(read_rest) + after, frames(rest));
        assert forall|i: int| 0 <= i < read_rest.len() implies (#[trigger] read_rest[i]).len()
            <= u64::MAX by {
            assert(read_rest[i] == read[i + 1]);
        }
        assert forall|i: int| 0 <= i < rest.len() implies sendable(#[trigger] rest[i]) by {
            assert(rest[i] == packets[i + 1]);
        }
        lemma_frames_read_off(read_rest, after, rest);
        assert(read =~= seq![read[0]] + read_rest);
        assert(packets.take(read.len() as int) =~= seq![packets[0]] + rest.take(
            read_rest.len() as int,
        ));
        assert(rest.skip(read_rest.len() as int) =~= packets.skip(read.len() as int));
    }
}

/// A frame has eight bytes more than its packet. These are the digits of the packet's length to the
/// base 256, the most significant first, and behind them stands the packet as it is.
pub proof fn law_frame_layout(packet: Seq<u8>, i: int)
    requires
        0 <= i < 8,
    ensures
        frame(packet).len() == 8 + packet.len(),
        frame(packet)[i] as int == (packet.len() as int / pow(256, (7 - i) as nat)) % 256,
        frame(packet).skip(8) == packet,
{
    law_big_endian_digits(packet.len(), 8, i);
    assert(frame(packet).skip(8) =~= packet);
}

/// The stream of some packets and then others is the stream of the former and then that of the
/// latter; no packets make no bytes, and one makes its frame.
pub proof fn law_streams_follow_each_other(
    first: Seq<Seq<u8>>,
    then_these: Seq<Seq<u8>>,
    one: Seq<u8>,
)
    ensures
        frames(first + then_these) == frames(first) + frames(then_these),
        frames(seq![one]) == frame(one),
        frames(Seq::empty()) == Seq::<u8>::empty(),
    decreases then_these.len(),
{
    reveal_with_fuel(frames, 2);
    assert(seq![one].drop_last() =~= Seq::empty());
    assert(frames(seq![one]) =~= frame(one));
    if then_these.len() == 0 {
        assert(first + then_these =~= first);
        assert(frames(first) + frames(then_these) =~= frames(first));
    } else {
        law_streams_follow_each_other(first, then_these.drop_last(), one);
        assert((first + then_these).drop_last() =~= first + then_these.drop_last());
        assert((first + then_these).last() == then_these.last());
        assert(frames(first + then_these) =~= frames(first) + frames(then_these));
    }
}

/// A stream can carry a packet just when the packet is not empty and not longer than a buffer, and
/// several just when it can carry each of them.
pub proof fn law_what_is_sendable(packet: Seq<u8>, packets: Seq<Seq<u8>>)
    ensures
        sendable(packet) <==> 0 < packet.len() && packet.len() <= isize::MAX,
        all_sendable(packets) <==> forall|i: int|
            0 <= i < packets.len() ==> 0 < (#[trigger] packets[i]).len() && packets[i].len()
                <= isize::MAX,
{
}

/// A header is the eight digits of the length to the base 256, the most significant first.
pub proof fn law_header_layout(len: nat, i: int)
    requires
        0 <= i < 8,
    ensures
        header(len).len() == 8,
        header(len)[i] as int == (len as int / pow(256, (7 - i) as nat)) % 256,
{
    law_big_endian_digits(len, 8, i);
}

} // verus!
