//! Promises on websocket frames, byte by byte.
use vstd::prelude::*;

use crate::codec::bytes_text;
use crate::error::Error;
use crate::frame::be_bytes;
use crate::frame::be_value;
use crate::frame::extra;
use crate::frame::frame_head;
use crate::frame::lemma_be_value_of_bytes;
use crate::frame::masked;
use crate::frame::reading;
use crate::frame::text_frame;
use crate::frame::Decoded;
use crate::frame::Reading;

verus! {

/// The number that two bytes give, the high one first.
pub open spec fn two_bytes(b: Seq<u8>) -> int {
    b[0] * 256 + b[1]
}

/// The number that eight bytes give, the highest one first.
pub open spec fn eight_bytes(b: Seq<u8>) -> int {
    b[0] * 0x100_0000_0000_0000 + b[1] * 0x1_0000_0000_0000 + b[2] * 0x100_0000_0000 + b[3]
        * 0x1_0000_0000 + b[4] * 0x100_0000 + b[5] * 0x1_0000 + b[6] * 0x100 + b[7]
}

proof fn lemma_two(b: Seq<u8>)
    requires
        b.len() == 2,
    ensures
        be_value(b) == two_bytes(b),
{
    reveal_with_fuel(be_value, 3);
    assert(b.drop_last().last() == b[0]);
}

proof fn lemma_eight(b: Seq<u8>)
    requires
        b.len() == 8,
    ensures
        be_value(b) == eight_bytes(b),
{
    reveal_with_fuel(be_value, 9);
    let b7 = b.drop_last();
    let b6 = b7.drop_last();
    let b5 = b6.drop_last();
    let b4 = b5.drop_last();
    let b3 = b4.drop_last();
    let b2 = b3.drop_last();
    let b1 = b2.drop_last();
    assert(b7.last() == b[6] && b6.last() == b[5] && b5.last() == b[4] && b4.last() == b[3]
        && b3.last() == b[2] && b2.last() == b[1] && b1.last() == b[0]);
    assert(be_value(b1) == b[0]);
    assert(be_value(b2) == be_value(b1) * 256 + b[1]);
    assert(be_value(b3) == be_value(b2) * 256 + b[2]);
    assert(be_value(b4) == be_value(b3) * 256 + b[3]);
    assert(be_value(b5) == be_value(b4) * 256 + b[4]);
    assert(be_value(b6) == be_value(b5) * 256 + b[5]);
    assert(be_value(b7) == be_value(b6) * 256 + b[6]);
    assert(be_value(b) == be_value(b7) * 256 + b[7]);
}

/// What comes unmasked is read as it stands, in each of the three forms in which
/// its length can be given, whatever follows: the payload is what stands behind the
/// whole length.
pub proof fn law_unmasked_frame_reads_back(
    first: u8,
    length: Seq<u8>,
    payload: Seq<u8>,
    rest: Seq<u8>,
)
    requires
        first % 16 != 8,
    ensures
        payload.len() <= 125 ==> reading(seq![first, payload.len() as u8] + payload + rest) == (
        Reading::Payload { size: 2int + payload.len(), payload }),
        length.len() == 2 && two_bytes(length) == payload.len() ==> reading(
            seq![first, 126u8] + length + payload + rest,
        ) == (Reading::Payload { size: 4int + payload.len(), payload }),
        length.len() == 8 && eight_bytes(length) == payload.len() ==> reading(
            seq![first, 127u8] + length + payload + rest,
        ) == (Reading::Payload { size: 10int + payload.len(), payload }),
{
    if payload.len() <= 125 {
        let read = seq![first, payload.len() as u8] + payload + rest;
        assert(read[0] == first && read[1] == payload.len() as u8);
        assert(read.subrange(2, 2int + payload.len()) =~= payload);
    }
    if length.len() == 2 && two_bytes(length) == payload.len() {
        lemma_two(length);
        let read = seq![first, 126u8] + length + payload + rest;
        assert(read[0] == first && read[1] == 126u8);
        assert(extra(126u8) == 2);
        assert(read.subrange(2, 4) =~= length);
        assert(read.subrange(4, 4int + payload.len()) =~= payload);
    }
    if length.len() == 8 && eight_bytes(length) == payload.len() {
        lemma_eight(length);
        let read = seq![first, 127u8] + length + payload + rest;
        assert(read[0] == first && read[1] == 127u8);
        assert(extra(127u8) == 8);
        assert(read.subrange(2, 10) =~= length);
        assert(read.subrange(10, 10int + payload.len()) =~= payload);
    }
}

/// What comes masked is read with the key that comes with it, each byte of it with
/// its byte of the key, in each of the three forms of the length.
pub proof fn law_masked_frame_reads_back(
    first: u8,
    length: Seq<u8>,
    key: Seq<u8>,
    sent: Seq<u8>,
    payload: Seq<u8>,
    rest: Seq<u8>,
)
    requires
        first % 16 != 8,
        key.len() == 4,
        sent.len() == payload.len(),
        forall|i: int| 0 <= i < payload.len() ==> #[trigger] payload[i] == sent[i] ^ key[i % 4],
    ensures
        payload.len() <= 125 ==> reading(
            seq![first, (128 + payload.len()) as u8] + key + sent + rest,
        ) == (Reading::Payload { size: 6int + payload.len(), payload }),
        length.len() == 2 && two_bytes(length) == payload.len() ==> reading(
            seq![first, 254u8] + length + key + sent + rest,
        ) == (Reading::Payload { size: 8int + payload.len(), payload }),
        length.len() == 8 && eight_bytes(length) == payload.len() ==> reading(
            seq![first, 255u8] + length + key + sent + rest,
        ) == (Reading::Payload { size: 14int + payload.len(), payload }),
{
    assert(masked(sent, key) =~= payload);
    if payload.len() <= 125 {
        let read = seq![first, (128 + payload.len()) as u8] + key + sent + rest;
        assert(read[0] == first && read[1] == (128 + payload.len()) as u8);
        assert(read.subrange(2, 6) =~= key);
        assert(read.subrange(6, 6int + payload.len()) =~= sent);
    }
    if length.len() == 2 && two_bytes(length) == payload.len() {
        lemma_two(length);
        let read = seq![first, 254u8] + length + key + sent + rest;
        assert(read[0] == first && read[1] == 254u8);
        assert(extra(254u8) == 2);
        assert(read.subrange(2, 4) =~= length);
        assert(read.subrange(4, 8) =~= key);
        assert(read.subrange(8, 8int + payload.len()) =~= sent);
    }
    if length.len() == 8 && eight_bytes(length) == payload.len() {
        lemma_eight(length);
        let read = seq![first, 255u8] + length + key + sent + rest;
        assert(read[0] == first && read[1] == 255u8);
        assert(extra(255u8) == 8);
        assert(read.subrange(2, 10) =~= length);
        assert(read.subrange(10, 14) =~= key);
        assert(read.subrange(14, 14int + payload.len()) =~= sent);
    }
}

/// A frame that closes the connection does so once all of it is there, and no other
/// frame does.
pub proof fn law_close_frame_closes(first: u8, payload: Seq<u8>, rest: Seq<u8>)
    requires
        payload.len() <= 125,
    ensures
        first % 16 == 8 <==> reading(seq![first, payload.len() as u8] + payload + rest) == (
        Reading::Closed { size: 2int + payload.len() }),
{
    let read = seq![first, payload.len() as u8] + payload + rest;
    assert(read[0] == first && read[1] == payload.len() as u8);
}

/// Where the payload of a frame starts that is sent: behind two bytes, the rest of
/// the length and the key.
pub open spec fn sent_start(len: nat) -> int {
    if len <= 125 {
        6
    } else if len <= 65535 {
        8
    } else {
        14
    }
}

/// The first byte alone decides whether a frame closes the connection, in every form
/// of it, and makes no difference to where the frame ends.
pub proof fn law_first_byte_decides(bytes: Seq<u8>, first: u8)
    requires
        reading(bytes).size() is Some,
    ensures
        bytes.len() >= 2,
        reading(bytes) is Closed <==> bytes[0] % 16 == 8,
        reading(bytes.update(0, first)).size() == reading(bytes).size(),
{
    let other = bytes.update(0, first);
    assert(other[1] == bytes[1]);
    let end = 2 + extra(bytes[1]);
    assert(other.subrange(2, end) =~= bytes.subrange(2, end));
}

/// What is sent is a text frame in one piece, masked with the four bytes 0x42, 0x69,
/// 0x6f and 0x4e, with its length in the shortest form.
pub proof fn law_sent_frame_layout(text: Seq<char>)
    requires
        vstd::utf8::encode_utf8(text).len() <= u64::MAX,
    ensures
        ({
            let payload = vstd::utf8::encode_utf8(text);
            let sent = text_frame(text);
            let len = payload.len();
            let start = sent_start(len);
            &&& sent.len() == start + len
            &&& sent[0] == 0x81
            &&& len <= 125 ==> sent[1] == 128 + len
            &&& 125 < len <= 65535 ==> sent[1] == 254 && two_bytes(sent.subrange(2, 4)) == len
            &&& len > 65535 ==> sent[1] == 255 && eight_bytes(sent.subrange(2, 10)) == len
            &&& sent.subrange(start - 4, start) == seq![0x42u8, 0x69u8, 0x6fu8, 0x4eu8]
            &&& forall|i: int|
                0 <= i < len ==> #[trigger] sent[start + i] == payload[i] ^ seq![
                    0x42u8,
                    0x69u8,
                    0x6fu8,
                    0x4eu8,
                ][i % 4]
        }),
{
    let payload = vstd::utf8::encode_utf8(text);
    let sent = text_frame(text);
    let len = payload.len();
    let head = frame_head(len);
    let key = seq![0x42u8, 0x69u8, 0x6fu8, 0x4eu8];
    assert(crate::frame::WS_MASK@ =~= key);
    reveal(vstd::arithmetic::power::pow);
    reveal_with_fuel(vstd::arithmetic::power::pow, 9);
    if len <= 125 {
    } else if len <= 65535 {
        lemma_be_value_of_bytes(len, 2);
        lemma_two(be_bytes(len, 2));
        assert(sent.subrange(2, 4) =~= be_bytes(len, 2));
    } else {
        lemma_be_value_of_bytes(len, 8);
        lemma_eight(be_bytes(len, 8));
        assert(sent.subrange(2, 10) =~= be_bytes(len, 8));
    }
    let start = head.len() as int + 4;
    assert(sent.subrange(start - 4, start) =~= key);
    assert forall|i: int| 0 <= i < len implies #[trigger] sent[start + i] == payload[i] ^ key[i
        % 4] by {
        assert(sent[start + i] == masked(payload, key)[i]);
    }
}

/// A text is sent in the bytes that stand for it, and these bytes stand for it.
pub proof fn law_texts_are_sent_as_they_are(text: Seq<char>)
    ensures
        bytes_text(vstd::utf8::encode_utf8(text)) == text,
{
    vstd::utf8::encode_utf8_valid_utf8(text);
    vstd::utf8::encode_utf8_decode_utf8(text);
}

/// What the reader of frames is told is what the bytes amount to.
pub proof fn law_reader_is_told_the_truth(told: Decoded, n: int, size: int, payload: Seq<u8>)
    ensures
        told.tells(Reading::More(n)) <==> (told matches Decoded::More(m) && m == n),
        told.tells(Reading::Closed { size }) <==> (told matches Decoded::Frame {
            size: s,
            outcome,
        } && s == size && outcome == Err::<String, Error>(Error::WebsocketClosed)),
        told.tells(Reading::Payload { size, payload }) <==> (told matches Decoded::Frame {
            size: s,
            outcome,
        } && s == size && outcome is Ok && outcome->Ok_0@ == bytes_text(payload)),
{
}

} // verus!
