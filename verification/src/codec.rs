//! A byte-level snapshot format for the session, so that it can be persisted
//! wholesale on shutdown and restored later.
//!
//! The layout is two bytes for the current pair, then two bytes for each
//! history entry, oldest first. Decoding a record that does not fit this
//! layout falls back to the fresh session, so a corrupted or missing record
//! simply yields the zero state with an empty history.

use vstd::prelude::*;

use crate::brain::{zero_state, Brain, State};

verus! {

/// The bytes that stand for a history sequence: two per entry, oldest first.
pub open spec fn encode_history_spec(h: Seq<State>) -> Seq<u8>
    decreases h.len(),
{
    if h.len() == 0 {
        Seq::empty()
    } else {
        encode_history_spec(h.drop_last()).push(h.last().counterA).push(h.last().counterB)
    }
}

/// The bytes that stand for a whole session: the current pair, then the
/// history.
pub open spec fn encode_spec(s: State, h: Seq<State>) -> Seq<u8> {
    seq![s.counterA, s.counterB] + encode_history_spec(h)
}

/// The history sequence read back from its bytes. Bytes come in pairs; a
/// trailing odd byte is ignored.
pub open spec fn decode_history_spec(b: Seq<u8>) -> Seq<State>
    decreases b.len(),
{
    if b.len() < 2 {
        Seq::empty()
    } else {
        decode_history_spec(b.drop_last().drop_last()).push(
            State { counterA: b[b.len() - 2], counterB: b[b.len() - 1] },
        )
    }
}

/// The session read back from a record: the first two bytes are the current
/// pair and the rest is the history. A record that is too short or of odd
/// length is not in the format's image and yields the fresh session.
pub open spec fn decode_spec(b: Seq<u8>) -> (State, Seq<State>) {
    if b.len() >= 2 && b.len() % 2 == 0 {
        (State { counterA: b[0], counterB: b[1] }, decode_history_spec(b.skip(2)))
    } else {
        (zero_state(), Seq::empty())
    }
}

/// A history's record is exactly two bytes per entry.
pub proof fn lemma_encode_history_len(h: Seq<State>)
    ensures
        encode_history_spec(h).len() == 2 * h.len(),
    decreases h.len(),
{
    if h.len() > 0 {
        lemma_encode_history_len(h.drop_last());
    }
}

/// Decoding undoes encoding on the history part of a record.
pub proof fn lemma_decode_encode_history(h: Seq<State>)
    ensures
        decode_history_spec(encode_history_spec(h)) == h,
    decreases h.len(),
{
    if h.len() == 0 {
        assert(decode_history_spec(encode_history_spec(h)) =~= h);
    } else {
        lemma_decode_encode_history(h.drop_last());
        lemma_encode_history_len(h.drop_last());
        let e = encode_history_spec(h);
        assert(e.drop_last().drop_last() =~= encode_history_spec(h.drop_last()));
        assert(e[e.len() - 2] == h.last().counterA);
        assert(e[e.len() - 1] == h.last().counterB);
        assert((State { counterA: h.last().counterA, counterB: h.last().counterB })
            == h.last());
        assert(decode_history_spec(e) =~= h);
    }
}

/// Law: a session written out and read back comes back field for field
/// equal, whatever it held.
pub proof fn lemma_codec_roundtrip(s: State, h: Seq<State>)
    ensures
        decode_spec(encode_spec(s, h)).0 == s,
        decode_spec(encode_spec(s, h)).1 == h,
{
    lemma_encode_history_len(h);
    lemma_decode_encode_history(h);
    let e = encode_spec(s, h);
    assert(e.len() == 2 + 2 * h.len());
    assert(e[0] == s.counterA);
    assert(e[1] == s.counterB);
    assert((State { counterA: e[0], counterB: e[1] }) == s);
    assert(e.skip(2) =~= encode_history_spec(h));
}

/// Write the session out as one record, exactly [`encode_spec`].
pub fn encode(brain: &Brain) -> (r: Vec<u8>)
    ensures
        r@ == encode_spec(brain.state, brain.state_history@),
{
    let ghost h = brain.state_history@;
    let mut out: Vec<u8> = Vec::new();
    out.push(brain.state.counterA);
    out.push(brain.state.counterB);
    let mut i: usize = 0;
    while i < brain.state_history.len()
        invariant
            i <= h.len(),
            h == brain.state_history@,
            out@ == seq![brain.state.counterA, brain.state.counterB] + encode_history_spec(
                h.take(i as int),
            ),
        decreases h.len() - i,
    {
        let entry = brain.state_history[i];
        out.push(entry.counterA);
        out.push(entry.counterB);
        proof {
            let prev = h.take(i as int);
            let next = h.take(i as int + 1);
            assert(next.drop_last() =~= prev);
            assert(next.last() == h[i as int]);
            assert(out@ =~= seq![brain.state.counterA, brain.state.counterB]
                + encode_history_spec(next));
        }
        i = i + 1;
    }
    proof {
        assert(h.take(h.len() as int) =~= h);
    }
    out
}

/// Read a session back from a record, exactly [`decode_spec`].
pub fn decode(bytes: &[u8]) -> (r: Brain)
    ensures
        r.state == decode_spec(bytes@).0,
        r.state_history@ == decode_spec(bytes@).1,
{
    if bytes.len() < 2 || bytes.len() % 2 != 0 {
        return Brain::new();
    }
    let state = State { counterA: bytes[0], counterB: bytes[1] };
    let mut history: Vec<State> = Vec::new();
    let mut i: usize = 2;
    while i + 1 < bytes.len()
        invariant
            2 <= i <= bytes@.len(),
            i % 2 == 0,
            bytes@.len() % 2 == 0,
            bytes@.len() >= 2,
            history@ == decode_history_spec(bytes@.subrange(2, i as int)),
        decreases bytes@.len() - i,
    {
        history.push(State { counterA: bytes[i], counterB: bytes[i + 1] });
        proof {
            let grown = bytes@.subrange(2, i as int + 2);
            assert(grown.drop_last().drop_last() =~= bytes@.subrange(2, i as int));
            assert(grown[grown.len() - 2] == bytes@[i as int]);
            assert(grown[grown.len() - 1] == bytes@[i as int + 1]);
            assert(history@ =~= decode_history_spec(grown));
        }
        i = i + 2;
    }
    proof {
        assert(i == bytes@.len());
        assert(bytes@.subrange(2, bytes@.len() as int) =~= bytes@.skip(2));
    }
    Brain { state, state_history: history }
}

} // verus!
