//! Cutting frames out of a received byte stream and turning them into events.

use vstd::prelude::*;
use crate::checksum::{fletcher16, spec_fletcher16};
use crate::packet::{
    has_whole_payload, is_known_response, known_response, parse_response, speed_negation_overflows,
    START_BYTE,
};
use crate::types::RobotResponse;

verus! {

/// Events that the transport layer reports.
#[derive(Debug, Clone)]
pub enum RobotEvent {
    Connected(String),
    Disconnected,
    Error(String),
    Packet(RobotResponse),
}

/// Number of bytes before the first start byte (the whole length when there is none).
pub open spec fn noise_len(buf: Seq<u8>) -> nat
    decreases buf.len(),
{
    if buf.len() == 0 {
        0
    } else if buf[0] == START_BYTE {
        0
    } else {
        1 + noise_len(buf.drop_first())
    }
}

/// Total length of the frame whose header starts `f`: header, payload and checksum.
pub open spec fn frame_len(f: Seq<u8>) -> int {
    5 + f[2]
}

/// The last two bytes of `pkt` are the Fletcher-16 checksum of everything between
/// the start byte and them.
pub open spec fn checksum_matches(pkt: Seq<u8>) -> bool {
    spec_fletcher16(pkt.subrange(1, pkt.len() - 2)) == pkt.subrange(pkt.len() - 2, pkt.len() as int)
}

/// The effect of one call of `try_parse_packet` on a buffer holding `buf`: what stays
/// in the buffer, and the frame taken out, if any.
///
/// Noise before the first start byte is dropped; a frame that is not complete yet is
/// left in place; a frame whose checksum does not match loses only its start byte,
/// and the search goes on from the next start byte.
pub open spec fn scan(buf: Seq<u8>) -> (Seq<u8>, Option<Seq<u8>>)
    decreases buf.len(),
{
    let lead = noise_len(buf);
    if lead >= buf.len() {
        (buf, None)
    } else {
        let f = buf.skip(lead as int);
        if f.len() < 3 {
            (f, None)
        } else if f.len() < frame_len(f) {
            (f, None)
        } else if checksum_matches(f.take(frame_len(f))) {
            (f.skip(frame_len(f)), Some(f.take(frame_len(f))))
        } else {
            scan(f.skip(1))
        }
    }
}

pub proof fn lemma_noise_len_bound(buf: Seq<u8>)
    ensures
        noise_len(buf) <= buf.len(),
        noise_len(buf) < buf.len() ==> buf[noise_len(buf) as int] == START_BYTE,
        forall|j: int| 0 <= j < noise_len(buf) ==> buf[j] != START_BYTE,
    decreases buf.len(),
{
    if buf.len() > 0 && buf[0] != START_BYTE {
        lemma_noise_len_bound(buf.drop_first());
        assert forall|j: int| 0 <= j < noise_len(buf) implies buf[j] != START_BYTE by {
            if j > 0 {
                assert(buf[j] == buf.drop_first()[j - 1]);
            }
        }
    }
}

proof fn lemma_noise_len_skip(buf: Seq<u8>, i: int)
    requires
        0 <= i <= buf.len(),
        forall|j: int| 0 <= j < i ==> buf[j] != START_BYTE,
    ensures
        noise_len(buf) == i + noise_len(buf.skip(i)),
    decreases i,
{
    if i > 0 {
        assert(buf.drop_first().skip(i - 1) =~= buf.skip(i));
        lemma_noise_len_skip(buf.drop_first(), i - 1);
    } else {
        assert(buf.skip(0) =~= buf);
    }
}

/// Index of the first start byte at or after `from`, or the length when there is none.
fn find_start(buf: &Vec<u8>, from: usize) -> (pos: usize)
    requires
        from <= buf@.len(),
    ensures
        pos == from + noise_len(buf@.skip(from as int)),
        pos <= buf@.len(),
{
    let mut i = from;
    while i < buf.len() && buf[i] != START_BYTE
        invariant
            from <= i <= buf@.len(),
            forall|j: int| from <= j < i ==> buf@[j] != START_BYTE,
        decreases buf@.len() - i,
    {
        i = i + 1;
    }
    proof {
        let s = buf@.skip(from as int);
        assert forall|j: int| 0 <= j < i - from implies s[j] != START_BYTE by {
            assert(s[j] == buf@[from + j]);
        }
        lemma_noise_len_skip(s, i - from);
        assert(s.skip(i - from) =~= buf@.skip(i as int));
        if i < buf@.len() {
            assert(buf@.skip(i as int)[0] == START_BYTE);
        } else {
            assert(buf@.skip(i as int).len() == 0);
        }
    }
    i
}

/// Takes the first complete frame with a matching checksum out of `buf`.
///
/// Format: `[0xAA][CMD][LEN][DATA...][CK2][CK1]`, `3 + LEN + 2` bytes in all.
/// Bytes before the first `0xAA` are dropped. When the frame at the front is not
/// complete yet, `None` comes back and it stays in `buf` for the next call. When its
/// checksum does not match, only its `0xAA` is dropped (it may be noise whose length
/// byte is garbage) and the search goes on.
pub fn try_parse_packet(buf: &mut Vec<u8>) -> (res: Option<Vec<u8>>)
    ensures
        final(buf)@ == scan(old(buf)@).0,
        res matches Some(p) ==> scan(old(buf)@).1 == Some(p@),
        res is None ==> scan(old(buf)@).1 is None,
{
    let ghost orig = buf@;
    let mut cut: usize = 0;
    assert(orig.skip(0) =~= orig);
    loop
        invariant
            buf@ == orig,
            old(buf)@ == orig,
            cut <= buf@.len(),
            scan(orig) == scan(orig.skip(cut as int)),
        decreases buf@.len() - cut,
    {
        let ghost rest = orig.skip(cut as int);
        let start = find_start(buf, cut);
        proof {
            lemma_noise_len_bound(rest);
        }
        if start >= buf.len() {
            proof {
                assert(noise_len(rest) >= rest.len());
                assert(scan(rest) == (rest, None::<Seq<u8>>));
            }
            let tail = buf.split_off(cut);
            assert(tail@ =~= rest);
            *buf = tail;
            assert(buf@ == scan(orig).0);
            return None;
        }
        let ghost f = orig.skip(start as int);
        proof {
            assert(rest.skip(noise_len(rest) as int) =~= f);
        }
        if buf.len() - start < 3 {
            assert(scan(rest) == (f, None::<Seq<u8>>));
            let tail = buf.split_off(start);
            assert(tail@ =~= f);
            *buf = tail;
            assert(buf@ == scan(orig).0);
            return None;
        }
        let total: usize = 5 + buf[start + 2] as usize;
        assert(total == frame_len(f));
        if buf.len() - start < total {
            assert(scan(rest) == (f, None::<Seq<u8>>));
            let tail = buf.split_off(start);
            assert(tail@ =~= f);
            *buf = tail;
            return None;
        }
        let mut pkt: Vec<u8> = Vec::new();
        let mut k: usize = 0;
        while k < total
            invariant
                buf@ == orig,
                start + total <= buf.len(),
                k <= total,
                pkt@ =~= orig.subrange(start as int, start + k),
            decreases total - k,
        {
            pkt.push(buf[start + k]);
            k = k + 1;
        }
        assert(pkt@ =~= f.take(total as int));
        let mut body: Vec<u8> = Vec::new();
        let mut k: usize = 1;
        while k < total - 2
            invariant
                pkt@.len() == total,
                total >= 5,
                1 <= k <= total - 2,
                body@ =~= pkt@.subrange(1, k as int),
            decreases total - 2 - k,
        {
            body.push(pkt[k]);
            k = k + 1;
        }
        let expected = fletcher16(body.as_slice());
        let matches = expected[0] == pkt[total - 2] && expected[1] == pkt[total - 1];
        proof {
            let want = pkt@.subrange(total - 2, total as int);
            assert(expected@[0] == expected[0] && expected@[1] == expected[1]);
            if matches {
                assert(expected@ =~= want);
            } else {
                assert(expected@ != want) by {
                    if expected@ == want {
                        assert(expected@[0] == want[0] && expected@[1] == want[1]);
                    }
                }
            }
        }
        if matches {
            assert(scan(rest) == (f.skip(total as int), Some(f.take(total as int))));
            let tail = buf.split_off(start + total);
            proof {
                assert(tail@ =~= f.skip(total as int));
            }
            *buf = tail;
            return Some(pkt);
        }
        proof {
            assert(scan(rest) == scan(f.skip(1)));
            assert(f.skip(1) =~= orig.skip(start + 1));
        }
        cut = start + 1;
    }
}

/// What `parse_response` gives for `data`, as stated by its contract.
pub open spec fn parses_to(data: Seq<u8>, res: Option<RobotResponse>) -> bool {
    if !has_whole_payload(data) {
        res is None
    } else if is_known_response(data[1]) {
        res == known_response(data)
    } else {
        res matches Some(RobotResponse::Unknown(v)) && v@ == data
    }
}

/// Turns raw frame bytes into a `Packet` event, when they decode as a response.
pub fn packet_to_event(raw: Vec<u8>) -> (res: Option<RobotEvent>)
    requires
        !speed_negation_overflows(raw@),
    ensures
        match res {
            None => parses_to(raw@, None),
            Some(RobotEvent::Packet(r)) => parses_to(raw@, Some(r)),
            Some(_) => false,
        },
{
    match parse_response(raw.as_slice()) {
        Some(r) => Some(RobotEvent::Packet(r)),
        None => None,
    }
}


pub proof fn lemma_scan_shrinks(buf: Seq<u8>)
    ensures
        scan(buf).1 is Some ==> scan(buf).0.len() < buf.len(),
        scan(buf).0.len() <= buf.len(),
    decreases buf.len(),
{
    lemma_noise_len_bound(buf);
    let lead = noise_len(buf);
    if lead < buf.len() {
        let f = buf.skip(lead as int);
        if f.len() >= 3 && f.len() >= frame_len(f) && !checksum_matches(f.take(frame_len(f))) {
            lemma_scan_shrinks(f.skip(1));
        }
    }
}

/// Repeated framing until no frame is left: what stays in the buffer, and the frames
/// taken out, in order.
pub open spec fn drain(buf: Seq<u8>) -> (Seq<u8>, Seq<Seq<u8>>)
    decreases buf.len(),
{
    let (rest, frame) = scan(buf);
    match frame {
        None => (rest, Seq::empty()),
        Some(f) => {
            proof {
                lemma_scan_shrinks(buf);
            }
            let more = drain(rest);
            (more.0, seq![f] + more.1)
        },
    }
}

/// Takes every complete frame out of `buf`, in order, as `try_parse_packet` would
/// one call at a time.
pub fn drain_frames(buf: &mut Vec<u8>) -> (frames: Vec<Vec<u8>>)
    ensures
        final(buf)@ == drain(old(buf)@).0,
        frames@.map_values(|f: Vec<u8>| f@) == drain(old(buf)@).1,
{
    let mut frames: Vec<Vec<u8>> = Vec::new();
    let ghost orig = buf@;
    proof {
        assert(frames@.map_values(|f: Vec<u8>| f@) + drain(buf@).1 =~= drain(orig).1);
    }
    loop
        invariant
            old(buf)@ == orig,
            drain(buf@).0 == drain(orig).0,
            frames@.map_values(|f: Vec<u8>| f@) + drain(buf@).1 == drain(orig).1,
        decreases buf@.len(),
    {
        let ghost before = buf@;
        let ghost seen = frames@.map_values(|f: Vec<u8>| f@);
        match try_parse_packet(buf) {
            None => {
                proof {
                    assert(drain(before).0 == buf@);
                    assert(drain(before).1 =~= Seq::<Seq<u8>>::empty());
                    assert(frames@.map_values(|f: Vec<u8>| f@) =~= drain(orig).1);
                }
                return frames;
            },
            Some(p) => {
                proof {
                    lemma_scan_shrinks(before);
                }
                let ghost pv = p@;
                frames.push(p);
                proof {
                    assert(frames@.map_values(|f: Vec<u8>| f@) =~= seen.push(pv));
                    assert(drain(before).1 == seq![pv] + drain(buf@).1);
                    assert(frames@.map_values(|f: Vec<u8>| f@) + drain(buf@).1 =~= seen + drain(before).1);
                }
            },
        }
    }
}

/// Whether `parse_response` can decode `data` (a speed response whose backward
/// magnitude byte is `0x80` cannot be negated in an `i8`).
pub fn response_fits(data: &[u8]) -> (b: bool)
    ensures
        b == !speed_negation_overflows(data@),
{
    if data.len() < 3 || data[0] != START_BYTE || data.len() < 3 + data[2] as usize {
        return true;
    }
    if data[1] != 0x11 || data[2] < 7 {
        return true;
    }
    !((data[5] != 0x46 && data[6] == 0x80) || (data[8] != 0x46 && data[9] == 0x80))
}

} // verus!
