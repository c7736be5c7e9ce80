//! The hunter on a stream that arrives in pieces. The main loop looks into its
//! buffer after every read, takes out what the hunter finds and drops what the
//! hunter is done with. What it takes out does not depend on how the stream was
//! cut into reads: byte by byte or all at once, the hunter finds the same
//! frames and is done with the same bytes.
//!
//! Positions are counted from the start of the stream. The buffer of the main
//! loop holds the stream from the first byte that is not dropped; by
//! `lemma_hunt_shift` the hunt in the buffer is the hunt in the stream from
//! that byte on.
use crate::frame::{frame_intact, frame_len, hunt, lemma_hunt_bounds, marker_at};
use vstd::prelude::*;

verus! {

/// What a run of looks took out of a stream: the positions at which the
/// frames start that were found, in order, and the position up to which the
/// stream is done with.
pub struct Drained {
    pub frames: Seq<int>,
    pub processed: int,
}

/// Looks into the stream `s` from position `p` on, again and again, until a
/// look is done with no further byte.
pub open spec fn drain(s: Seq<u8>, p: int) -> Drained
    decreases s.len() - p,
{
    let found = hunt(s, p);
    if p < 0 || p >= s.len() || found.processed <= p || found.processed > s.len() {
        Drained { frames: Seq::empty(), processed: p }
    } else {
        let rest = drain(s, found.processed);
        match found.frame {
            Some(at) => Drained { frames: seq![at] + rest.frames, processed: rest.processed },
            None => rest,
        }
    }
}

/// Hands the first `k` bytes of the stream `s` over one by one, and after each
/// of them looks into what has arrived from where the looks before were done.
pub open spec fn feed(s: Seq<u8>, k: int) -> Drained
    decreases k,
{
    if k <= 0 {
        Drained { frames: Seq::empty(), processed: 0 }
    } else {
        let before = feed(s, k - 1);
        let now = drain(s.take(k), before.processed);
        Drained { frames: before.frames + now.frames, processed: now.processed }
    }
}

/// The hunt in a buffer that holds the stream from position `p` on is the hunt
/// in the stream from `p` on, counted from `p`.
pub proof fn lemma_hunt_shift(s: Seq<u8>, p: int, q: int)
    requires
        0 <= p <= q <= s.len(),
    ensures
        hunt(s, q).processed == hunt(s.skip(p), q - p).processed + p,
        hunt(s, q).frame is Some <==> hunt(s.skip(p), q - p).frame is Some,
        hunt(s, q).frame matches Some(at) ==> hunt(s.skip(p), q - p).frame == Some(at - p),
    decreases s.len() - q,
{
    let t = s.skip(p);
    let r = q - p;
    if s.len() - q < 4 {
    } else {
        assert(t[r] == s[q] && t[r + 1] == s[q + 1]);
        assert(t[r + 2] == s[q + 2] && t[r + 3] == s[q + 3]);
        if !marker_at(s, q) {
            lemma_hunt_shift(s, p, q + 1);
        } else if s.len() - q < frame_len(s, q) {
        } else {
            let total = frame_len(s, q);
            assert(t.subrange(r, r + total - 2) =~= s.subrange(q, q + total - 2));
            assert(t[r + total - 2] == s[q + total - 2] && t[r + total - 1] == s[q + total - 1]);
            if frame_intact(s, q) {
            } else {
                lemma_hunt_shift(s, p, q + total);
            }
        }
    }
}

/// A hunt in the first `k` bytes of a stream decides as the hunt in the whole
/// stream does, as far as it gets: a frame that it finds is the frame that
/// the hunt in the whole stream finds, and where it finds none, the hunt in
/// the whole stream goes on from where it stopped.
pub proof fn lemma_hunt_prefix(s: Seq<u8>, k: int, p: int)
    requires
        0 <= p <= k <= s.len(),
    ensures
        hunt(s.take(k), p).frame is Some ==> hunt(s, p) == hunt(s.take(k), p),
        hunt(s.take(k), p).frame is None ==> hunt(s, p) == hunt(s, hunt(s.take(k), p).processed),
    decreases k - p,
{
    let t = s.take(k);
    if k - p < 4 {
    } else {
        assert(t[p] == s[p] && t[p + 1] == s[p + 1]);
        assert(t[p + 2] == s[p + 2] && t[p + 3] == s[p + 3]);
        if !marker_at(t, p) {
            lemma_hunt_prefix(s, k, p + 1);
        } else if k - p < frame_len(t, p) {
        } else {
            let total = frame_len(t, p);
            assert(t.subrange(p, p + total - 2) =~= s.subrange(p, p + total - 2));
            assert(t[p + total - 2] == s[p + total - 2] && t[p + total - 1] == s[p + total - 1]);
            if frame_intact(t, p) {
            } else {
                lemma_hunt_prefix(s, k, p + total);
            }
        }
    }
}

/// A run of looks never goes back and never leaves the stream.
pub proof fn lemma_drain_bounds(s: Seq<u8>, p: int)
    requires
        0 <= p <= s.len(),
    ensures
        p <= drain(s, p).processed <= s.len(),
    decreases s.len() - p,
{
    let found = hunt(s, p);
    if !(p >= s.len() || found.processed <= p || found.processed > s.len()) {
        lemma_drain_bounds(s, found.processed);
    }
}

/// Two positions from which the hunt gives the same give the same run.
proof fn lemma_drain_same_hunt(s: Seq<u8>, p: int, q: int)
    requires
        0 <= p <= q <= s.len(),
        hunt(s, p) == hunt(s, q),
    ensures
        drain(s, p) == drain(s, q),
{
    lemma_hunt_bounds(s, q);
    lemma_hunt_bounds(s, p);
    let found = hunt(s, q);
    if p < q {
        if found.processed == q {
            assert(found.frame is None);
            assert(drain(s, q) == Drained { frames: Seq::empty(), processed: q });
            assert(drain(s, p) == drain(s, q));
        } else {
            assert(q < s.len());
        }
    }
}

/// A run in the first `k` bytes of a stream, followed by a run in the whole
/// stream from where the first was done, finds what a run in the whole
/// stream finds.
pub proof fn lemma_drain_prefix(s: Seq<u8>, k: int, p: int)
    requires
        0 <= p <= k <= s.len(),
    ensures
        p <= drain(s.take(k), p).processed <= k,
        drain(s, p).frames == drain(s.take(k), p).frames + drain(
            s,
            drain(s.take(k), p).processed,
        ).frames,
        drain(s, p).processed == drain(s, drain(s.take(k), p).processed).processed,
    decreases k - p,
{
    let t = s.take(k);
    let found = hunt(t, p);
    lemma_hunt_bounds(t, p);
    lemma_hunt_bounds(s, p);
    lemma_drain_bounds(t, p);
    lemma_hunt_prefix(s, k, p);
    if p >= k || found.processed <= p {
        assert(drain(t, p).frames =~= Seq::<int>::empty());
        assert(drain(s, p).frames =~= drain(t, p).frames + drain(s, p).frames);
    } else {
        let next = found.processed;
        lemma_drain_prefix(s, k, next);
        match found.frame {
            Some(at) => {
                assert(hunt(s, p) == found);
                assert(drain(s, p).frames == seq![at] + drain(s, next).frames);
                assert(drain(t, p).frames == seq![at] + drain(t, next).frames);
                assert(drain(s, p).frames =~= drain(t, p).frames + drain(
                    s,
                    drain(t, p).processed,
                ).frames);
            },
            None => {
                lemma_drain_same_hunt(s, p, next);
            },
        }
    }
}

/// Byte by byte, the first `k` bytes of a stream give what they give at once.
pub proof fn lemma_feed_is_drain(s: Seq<u8>, k: int)
    requires
        0 <= k <= s.len(),
    ensures
        feed(s, k) == drain(s.take(k), 0),
    decreases k,
{
    if k == 0 {
        assert(drain(s.take(0), 0).frames =~= Seq::<int>::empty());
    } else {
        lemma_feed_is_drain(s, k - 1);
        let whole = s.take(k);
        assert(whole.take(k - 1) =~= s.take(k - 1));
        lemma_drain_prefix(whole, k - 1, 0);
        assert(feed(s, k).frames =~= drain(whole, 0).frames);
    }
}

/// Handing a stream to the hunter byte by byte, and taking out after every
/// byte what the hunter finds, gives the same frames in the same order and is
/// done with the same number of bytes as handing it over all at once.
pub proof fn lemma_bytewise_same(s: Seq<u8>)
    ensures
        feed(s, s.len() as int) == drain(s, 0),
{
    lemma_feed_is_drain(s, s.len() as int);
    assert(s.take(s.len() as int) =~= s);
}

} // verus!
