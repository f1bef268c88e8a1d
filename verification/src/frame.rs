//! Websocket frames.
use vstd::prelude::*;

use crate::codec::bytes_text;
use crate::codec::text_from_bytes;
use crate::error::Error;

verus! {

/// The key with which outgoing frames are masked.
pub const WS_MASK: [u8; 4] = [0x42, 0x69, 0x6f, 0x4e];

/// `n` in `k` bytes, the most significant first.
pub open spec fn be_bytes(n: nat, k: nat) -> Seq<u8>
    decreases k,
{
    if k == 0 {
        Seq::empty()
    } else {
        be_bytes(n / 256, (k - 1) as nat).push((n % 256) as u8)
    }
}

/// The number that bytes denote, the most significant first.
pub open spec fn be_value(bytes: Seq<u8>) -> nat
    decreases bytes.len(),
{
    if bytes.len() == 0 {
        0
    } else {
        be_value(bytes.drop_last()) * 256 + bytes.last() as nat
    }
}

/// Bytes combined with a key of four bytes that repeats.
pub open spec fn masked(bytes: Seq<u8>, key: Seq<u8>) -> Seq<u8> {
    Seq::new(bytes.len(), |i: int| bytes[i] ^ key[i % 4])
}

/// What stands before the key in the frame of a payload of `len` bytes: a final
/// text frame, masked, and its length in the shortest of three forms.
pub open spec fn frame_head(len: nat) -> Seq<u8> {
    if len <= 125 {
        seq![0x81u8, (128 + len) as u8]
    } else if len <= 65535 {
        seq![0x81u8, 254u8] + be_bytes(len, 2)
    } else {
        seq![0x81u8, 255u8] + be_bytes(len, 8)
    }
}

/// The frame that carries a payload.
pub open spec fn frame(payload: Seq<u8>) -> Seq<u8> {
    frame_head(payload.len()) + WS_MASK@ + masked(payload, WS_MASK@)
}

/// The frame that carries a text.
pub open spec fn text_frame(text: Seq<char>) -> Seq<u8> {
    frame(vstd::utf8::encode_utf8(text))
}

/// What the bytes read so far amount to.
pub enum Reading {
    /// So many bytes are still to be read before more can be said.
    More(int),
    /// The first `size` bytes are a frame that closes the connection.
    Closed { size: int },
    /// The first `size` bytes are a frame with this payload.
    Payload { size: int, payload: Seq<u8> },
}

/// The length of the length field that follows the first two bytes.
pub open spec fn extra(second: u8) -> int {
    if second % 128 == 126 {
        2
    } else if second % 128 == 127 {
        8
    } else {
        0
    }
}

/// What the bytes read so far amount to: first two bytes, then the rest of the
/// length, then the key of a masked frame, then the payload.
pub open spec fn reading(read: Seq<u8>) -> Reading {
    if read.len() < 2 {
        Reading::More(2 - read.len())
    } else if read.len() < 2 + extra(read[1]) {
        Reading::More(2 + extra(read[1]) - read.len())
    } else {
        let len = if extra(read[1]) == 0 {
            (read[1] % 128) as nat
        } else {
            be_value(read.subrange(2, 2 + extra(read[1])))
        };
        let is_masked = read[1] >= 128;
        let start = 2 + extra(read[1]) + if is_masked {
            4int
        } else {
            0
        };
        if read.len() < start {
            Reading::More(start - read.len())
        } else if read.len() < start + len {
            Reading::More(start + len - read.len())
        } else if read[0] % 16 == 8 {
            Reading::Closed { size: start + len as int }
        } else {
            let sent = read.subrange(start, start + len as int);
            Reading::Payload {
                size: start + len as int,
                payload: if is_masked {
                    masked(sent, read.subrange(start - 4, start))
                } else {
                    sent
                },
            }
        }
    }
}

/// What the bytes read so far amount to.
#[derive(Debug, PartialEq, Eq)]
pub enum Decoded {
    /// So many bytes are still to be read before more can be said.
    More(u64),
    /// The first `size` bytes are a frame: a text, or the end of the connection.
    Frame { size: usize, outcome: Result<String, Error> },
}

impl Decoded {
    /// Tells whether this is what `reading` says.
    pub open spec fn tells(self, reading: Reading) -> bool {
        match reading {
            Reading::More(n) => self matches Decoded::More(m) && m == n,
            Reading::Closed { size } => {
                &&& self matches Decoded::Frame { size: found, outcome }
                &&& found == size
                &&& outcome matches Err(error)
                &&& error == Error::WebsocketClosed
            },
            Reading::Payload { size, payload } => {
                &&& self matches Decoded::Frame { size: found, outcome }
                &&& found == size
                &&& outcome matches Ok(text)
                &&& text@ == bytes_text(payload)
            },
        }
    }
}

/// The frame that carries a message.
pub fn encode_ws_frame(msg: &str) -> (out: Vec<u8>)
    ensures
        out@ == text_frame(msg@),
{
    let payload = msg.as_bytes();
    let n: usize = payload.len();
    let len: u64 = n as u64;
    let mut out: Vec<u8> = Vec::new();
    out.push(0x81);
    if len <= 125 {
        out.push(128 + len as u8);
        assert(out@ =~= frame_head(len as nat));
    } else if len <= 65535 {
        out.push(254);
        out.push((len / 256) as u8);
        out.push((len % 256) as u8);
        proof {
            reveal_with_fuel(be_bytes, 3);
            assert(be_bytes(len as nat, 2) =~= seq![(len / 256) as u8, (len % 256) as u8]);
            assert(out@ =~= frame_head(len as nat));
        }
    } else {
        out.push(255);
        push_be(&mut out, len);
        assert(out@ =~= frame_head(len as nat));
    }
    let key = WS_MASK;
    let mut k: usize = 0;
    while k < 4
        invariant
            k <= 4,
            key@ == WS_MASK@,
            out@ == frame_head(len as nat) + WS_MASK@.take(k as int),
        decreases 4 - k,
    {
        out.push(key[k]);
        k = k + 1;
        assert(out@ =~= frame_head(len as nat) + WS_MASK@.take(k as int));
    }
    assert(WS_MASK@.take(4) =~= WS_MASK@);
    let ghost head = frame_head(len as nat) + WS_MASK@;
    let ghost all = masked(payload@, WS_MASK@);
    assert(out@ =~= head + all.take(0));
    let mut i: usize = 0;
    while i < n
        invariant
            n == payload@.len(),
            i <= n,
            key@ == WS_MASK@,
            all == masked(payload@, WS_MASK@),
            out@ == head + all.take(i as int),
        decreases n - i,
    {
        out.push(payload[i] ^ key[i % 4]);
        i = i + 1;
        assert(out@ =~= head + all.take(i as int));
    }
    assert(all.take(n as int) =~= all);
    out
}

fn push_be(out: &mut Vec<u8>, n: u64)
    ensures
        final(out)@ == old(out)@ + be_bytes(n as nat, 8),
{
    let ghost before = out@;
    out.push((n >> 56) as u8);
    out.push((n >> 48) as u8);
    out.push((n >> 40) as u8);
    out.push((n >> 32) as u8);
    out.push((n >> 24) as u8);
    out.push((n >> 16) as u8);
    out.push((n >> 8) as u8);
    out.push(n as u8);
    proof {
        assert({
            &&& (n >> 56) as u8 == n / 256 / 256 / 256 / 256 / 256 / 256 / 256 % 256
            &&& (n >> 48) as u8 == n / 256 / 256 / 256 / 256 / 256 / 256 % 256
            &&& (n >> 40) as u8 == n / 256 / 256 / 256 / 256 / 256 % 256
            &&& (n >> 32) as u8 == n / 256 / 256 / 256 / 256 % 256
            &&& (n >> 24) as u8 == n / 256 / 256 / 256 % 256
            &&& (n >> 16) as u8 == n / 256 / 256 % 256
            &&& (n >> 8) as u8 == n / 256 % 256
            &&& n as u8 == n % 256
        }) by (bit_vector);
        reveal_with_fuel(be_bytes, 9);
        assert(out@ =~= before + be_bytes(n as nat, 8));
    }
}

/// The number in the `k` bytes from `at`, the most significant first.
fn read_be(read: &[u8], at: usize, k: usize) -> (n: u64)
    requires
        at + k <= read@.len(),
        k <= 8,
    ensures
        n as nat == be_value(read@.subrange(at as int, at + k)),
{
    let total: usize = read.len();
    let mut n: u64 = 0;
    let mut i: usize = 0;
    assert(vstd::arithmetic::power::pow(256, 0) == 1) by {
        vstd::arithmetic::power::lemma_pow0(256);
    }
    while i < k
        invariant
            total == read@.len(),
            at + k <= total,
            i <= k <= 8,
            n as nat == be_value(read@.subrange(at as int, at + i)),
            n < vstd::arithmetic::power::pow(256, i as nat),
        decreases k - i,
    {
        let ghost longer = read@.subrange(at as int, at + i + 1);
        proof {
            assert(longer.drop_last() =~= read@.subrange(at as int, at + i));
            lemma_pow_256(i as nat);
        }
        n = n * 256 + read[at + i] as u64;
        i = i + 1;
    }
    n
}

proof fn lemma_pow_256(i: nat)
    requires
        i < 8,
    ensures
        vstd::arithmetic::power::pow(256, i + 1) == 256 * vstd::arithmetic::power::pow(256, i),
        vstd::arithmetic::power::pow(256, i + 1) <= u64::MAX + 1,
{
    reveal(vstd::arithmetic::power::pow);
    reveal_with_fuel(vstd::arithmetic::power::pow, 10);
}

/// Says what the bytes read so far amount to. A reader starts with no bytes and
/// reads as many more as it is told, until there is a frame.
pub fn decode_ws_frame(read: &[u8]) -> (out: Decoded)
    ensures
        out.tells(reading(read@)),
{
    let have: u64 = read.len() as u64;
    if have < 2 {
        return Decoded::More(2 - have);
    }
    let opcode: u8 = read[0] % 16;
    let is_masked = read[1] >= 128;
    let short: u8 = read[1] % 128;
    let extra: usize = if short == 126 {
        2
    } else if short == 127 {
        8
    } else {
        0
    };
    if have < 2 + extra as u64 {
        return Decoded::More(2 + extra as u64 - have);
    }
    let len: u64 = if extra == 0 {
        short as u64
    } else {
        read_be(read, 2, extra)
    };
    let start: usize = if is_masked {
        2 + extra + 4
    } else {
        2 + extra
    };
    if have < start as u64 {
        return Decoded::More(start as u64 - have);
    }
    let body: u64 = have - start as u64;
    if body < len {
        return Decoded::More(len - body);
    }
    let size: usize = start + len as usize;
    if opcode == 8 {
        return Decoded::Frame { size, outcome: Err(Error::WebsocketClosed) };
    }
    let ghost sent = read@.subrange(start as int, size as int);
    let ghost key = read@.subrange(start - 4, start as int);
    let ghost whole = if is_masked {
        masked(sent, key)
    } else {
        sent
    };
    let mut payload: Vec<u8> = Vec::new();
    let mut i: usize = 0;
    let n: usize = len as usize;
    while i < n
        invariant
            i <= n,
            size == start + n,
            size <= read@.len(),
            is_masked ==> start >= 4,
            sent == read@.subrange(start as int, size as int),
            is_masked ==> key == read@.subrange(start - 4, start as int),
            whole == (if is_masked {
                masked(sent, key)
            } else {
                sent
            }),
            payload@ == whole.take(i as int),
        decreases n - i,
    {
        let byte: u8 = read[start + i];
        if is_masked {
            payload.push(byte ^ read[start - 4 + i % 4]);
        } else {
            payload.push(byte);
        }
        i = i + 1;
        assert(payload@ =~= whole.take(i as int));
    }
    assert(whole.take(n as int) =~= whole);
    Decoded::Frame { size, outcome: Ok(text_from_bytes(payload.as_slice())) }
}

/// Bytes give back the number that they were made of.
pub proof fn lemma_be_value_of_bytes(n: nat, k: nat)
    requires
        n < vstd::arithmetic::power::pow(256, k),
    ensures
        be_value(be_bytes(n, k)) == n,
        be_bytes(n, k).len() == k,
    decreases k,
{
    reveal(vstd::arithmetic::power::pow);
    if k > 0 {
        assert(n / 256 < vstd::arithmetic::power::pow(256, (k - 1) as nat)) by (nonlinear_arith)
            requires
                n < 256 * vstd::arithmetic::power::pow(256, (k - 1) as nat),
        ;
        lemma_be_value_of_bytes(n / 256, (k - 1) as nat);
        assert(be_bytes(n, k).drop_last() =~= be_bytes(n / 256, (k - 1) as nat));
    }
}

/// Masking twice with one key gives the bytes back.
pub proof fn law_masking_undoes_itself(bytes: Seq<u8>, key: Seq<u8>)
    ensures
        masked(masked(bytes, key), key) == bytes,
{
    assert forall|i: int| 0 <= i < bytes.len() implies masked(masked(bytes, key), key)[i]
        == bytes[i] by {
        let b = bytes[i];
        let k = key[i % 4];
        assert((b ^ k) ^ k == b) by (bit_vector);
    }
    assert(masked(masked(bytes, key), key) =~= bytes);
}

/// A reader finds the payload of a frame, and where the frame ends, whatever
/// follows it.
pub proof fn law_frame_reads_back(payload: Seq<u8>, rest: Seq<u8>)
    requires
        payload.len() <= u64::MAX,
    ensures
        reading(frame(payload) + rest) == (Reading::Payload {
            size: frame(payload).len() as int,
            payload,
        }),
{
    let read = frame(payload) + rest;
    let len = payload.len();
    let head = frame_head(len);
    reveal(vstd::arithmetic::power::pow);
    reveal_with_fuel(vstd::arithmetic::power::pow, 9);
    if len <= 125 {
        assert(head.len() == 2);
    } else if len <= 65535 {
        lemma_be_value_of_bytes(len, 2);
        assert(read.subrange(2, 4) =~= be_bytes(len, 2));
    } else {
        lemma_be_value_of_bytes(len, 8);
        assert(read.subrange(2, 10) =~= be_bytes(len, 8));
    }
    assert(read[0] == 0x81u8);
    assert(read[1] == head[1]);
    assert(head.len() == 2 + extra(read[1]));
    let start = head.len() as int + 4;
    assert(read.subrange(start - 4, start) =~= WS_MASK@);
    assert(read.subrange(start, start + len) =~= masked(payload, WS_MASK@));
    law_masking_undoes_itself(payload, WS_MASK@);
}

/// A reader finds the text of a frame: what is sent is what is received.
pub proof fn law_text_reads_back(text: Seq<char>, rest: Seq<u8>)
    requires
        vstd::utf8::encode_utf8(text).len() <= u64::MAX,
    ensures
        reading(text_frame(text) + rest) matches Reading::Payload { size, payload } && size
            == text_frame(text).len() && bytes_text(payload) == text,
{
    law_frame_reads_back(vstd::utf8::encode_utf8(text), rest);
    vstd::utf8::encode_utf8_valid_utf8(text);
    vstd::utf8::encode_utf8_decode_utf8(text);
}

impl Reading {
    /// The size of the frame, where there is one.
    pub open spec fn size(self) -> Option<int> {
        match self {
            Reading::More(_) => None,
            Reading::Closed { size } => Some(size),
            Reading::Payload { size, .. } => Some(size),
        }
    }
}

/// A reader is never told to read past the end of a frame, and is told to read on
/// as long as the frame is not complete, whoever sends it and whatever follows it.
pub proof fn law_reader_stops_at_frame_end(bytes: Seq<u8>, k: int)
    requires
        reading(bytes).size() matches Some(size) && 0 <= k < size,
    ensures
        reading(bytes.take(k)) matches Reading::More(n) && 0 < n && k + n
            <= reading(bytes).size()->Some_0,
{
    let read = bytes.take(k);
    if k >= 2 {
        assert(read[1] == bytes[1]);
        let end = 2 + extra(bytes[1]);
        if k >= end {
            assert(read.subrange(2, end) =~= bytes.subrange(2, end));
        }
    }
}

} // verus!
