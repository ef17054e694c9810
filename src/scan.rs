use vstd::prelude::*;

use crate::sampler::{sampled, should_sample};

verus! {

/// Where the scan stands between two events.
#[derive(Debug, Clone, Copy, PartialEq, Eq, Structural)]
pub enum Phase {
    /// Waiting for the next packet of the container.
    Feeding,
    /// Pulling decoded frames; `flushing` once the decoder was told that the
    /// packets are over.
    Draining { flushing: bool },
    /// Waiting for the classifier's verdict on the current frame.
    Classifying { flushing: bool },
    /// The scan is over, with the index of the matching frame if there was one.
    Finished { matched: Option<u64> },
}

/// What the driver reports back after carrying out an action.
#[derive(Debug, Clone, Copy, PartialEq, Eq, Structural)]
pub enum ScanEvent {
    /// The container handed out a packet of the given stream.
    Packet { stream: usize },
    /// The container has no packets left.
    PacketsExhausted,
    /// The decoder handed out a frame.
    Frame,
    /// The decoder has no frame available.
    NoFrame,
    /// The classifier's verdict on the current frame.
    Verdict { matched: bool },
}

/// What the driver is asked to do next.
#[derive(Debug, Clone, Copy, PartialEq, Eq, Structural)]
pub enum ScanAction {
    /// Read the next packet from the container.
    NextPacket,
    /// Send the current packet to the decoder, then ask it for a frame.
    SendPacket,
    /// Signal end of stream to the decoder, then ask it for a frame.
    SendEof,
    /// Ask the decoder for its next frame.
    ReceiveFrame,
    /// Convert the current frame to RGB and classify it.
    Classify { frame_index: u64 },
    /// Stop: the current frame, with this index, is the match.
    Found { frame_index: u64 },
    /// Stop: the stream ended without a match.
    NoMatch,
    /// The event does not fit the phase; nothing changes.
    Idle,
}

/// The decisions of a scan over one video stream.
#[derive(Debug, Clone, Copy, PartialEq, Eq, Structural)]
pub struct ScanState {
    /// The index of the selected video stream.
    pub stream: usize,
    /// The number of frames decoded so far and not classified positive.
    pub frame_index: u64,
    pub phase: Phase,
}

/// The state after a frame at `s.frame_index` was passed over, and the action
/// that asks for the next frame.
pub open spec fn skip_frame(s: ScanState, flushing: bool) -> (ScanState, ScanAction) {
    (
        ScanState {
            frame_index: (s.frame_index + 1) as u64,
            phase: Phase::Draining { flushing },
            ..s
        },
        ScanAction::ReceiveFrame,
    )
}

/// The transition of the scan on one event.
pub open spec fn next(s: ScanState, e: ScanEvent) -> (ScanState, ScanAction) {
    match (s.phase, e) {
        (Phase::Feeding, ScanEvent::Packet { stream }) => if stream == s.stream {
            (ScanState { phase: Phase::Draining { flushing: false }, ..s }, ScanAction::SendPacket)
        } else {
            (s, ScanAction::NextPacket)
        },
        (Phase::Feeding, ScanEvent::PacketsExhausted) => (
            ScanState { phase: Phase::Draining { flushing: true }, ..s },
            ScanAction::SendEof,
        ),
        (Phase::Draining { flushing }, ScanEvent::Frame) => if sampled(s.frame_index as int) {
            (
                ScanState { phase: Phase::Classifying { flushing }, ..s },
                ScanAction::Classify { frame_index: s.frame_index },
            )
        } else {
            skip_frame(s, flushing)
        },
        (Phase::Draining { flushing }, ScanEvent::NoFrame) => if flushing {
            (ScanState { phase: Phase::Finished { matched: None }, ..s }, ScanAction::NoMatch)
        } else {
            (ScanState { phase: Phase::Feeding, ..s }, ScanAction::NextPacket)
        },
        (Phase::Classifying { flushing }, ScanEvent::Verdict { matched }) => if matched {
            (
                ScanState { phase: Phase::Finished { matched: Some(s.frame_index) }, ..s },
                ScanAction::Found { frame_index: s.frame_index },
            )
        } else {
            skip_frame(s, flushing)
        },
        _ => (s, ScanAction::Idle),
    }
}

/// The state reached from `s` after the events `evs`, in order.
pub open spec fn run(s: ScanState, evs: Seq<ScanEvent>) -> ScanState
    decreases evs.len(),
{
    if evs.len() == 0 {
        s
    } else {
        run(next(s, evs[0]).0, evs.drop_first())
    }
}

impl ScanState {
    /// A scan of the stream `stream` that has seen no frame yet.
    pub fn new(stream: usize) -> (r: ScanState)
        ensures
            r == (ScanState { stream, frame_index: 0, phase: Phase::Feeding }),
    {
        ScanState { stream, frame_index: 0, phase: Phase::Feeding }
    }

    /// Whether the scan is over.
    pub fn is_finished(&self) -> (r: bool)
        ensures
            r == (self.phase is Finished),
    {
        match self.phase {
            Phase::Finished { .. } => true,
            _ => false,
        }
    }

    /// The index of the matching frame, once the scan has found one.
    pub fn matched(&self) -> (r: Option<u64>)
        ensures
            r == (match self.phase {
                Phase::Finished { matched } => matched,
                _ => None,
            }),
    {
        match self.phase {
            Phase::Finished { matched } => matched,
            _ => None,
        }
    }

    /// Takes the event `e` and returns the action that follows.
    pub fn step(&mut self, e: ScanEvent) -> (r: ScanAction)
        requires
            old(self).frame_index < u64::MAX,
        ensures
            (*final(self), r) == next(*old(self), e),
    {
        let s = *self;
        match (s.phase, e) {
            (Phase::Feeding, ScanEvent::Packet { stream }) => {
                if stream == s.stream {
                    self.phase = Phase::Draining { flushing: false };
                    ScanAction::SendPacket
                } else {
                    ScanAction::NextPacket
                }
            },
            (Phase::Feeding, ScanEvent::PacketsExhausted) => {
                self.phase = Phase::Draining { flushing: true };
                ScanAction::SendEof
            },
            (Phase::Draining { flushing }, ScanEvent::Frame) => {
                if should_sample(s.frame_index) {
                    self.phase = Phase::Classifying { flushing };
                    ScanAction::Classify { frame_index: s.frame_index }
                } else {
                    self.frame_index = s.frame_index + 1;
                    self.phase = Phase::Draining { flushing };
                    ScanAction::ReceiveFrame
                }
            },
            (Phase::Draining { flushing }, ScanEvent::NoFrame) => {
                if flushing {
                    self.phase = Phase::Finished { matched: None };
                    ScanAction::NoMatch
                } else {
                    self.phase = Phase::Feeding;
                    ScanAction::NextPacket
                }
            },
            (Phase::Classifying { flushing }, ScanEvent::Verdict { matched }) => {
                if matched {
                    self.phase = Phase::Finished { matched: Some(s.frame_index) };
                    ScanAction::Found { frame_index: s.frame_index }
                } else {
                    self.frame_index = s.frame_index + 1;
                    self.phase = Phase::Draining { flushing };
                    ScanAction::ReceiveFrame
                }
            },
            _ => ScanAction::Idle,
        }
    }
}

/// The classifier is asked only about the current frame, and only when its
/// index is sampled.
pub proof fn lemma_classify_only_sampled(s: ScanState, e: ScanEvent)
    ensures
        next(s, e).1 is Classify ==> sampled(s.frame_index as int) && next(s, e).1 == (
        ScanAction::Classify { frame_index: s.frame_index }),
{
}

/// Every event moves the frame index by at most one, and it moves exactly when a
/// decoded frame is passed over: skipped by the sampler or classified negative.
pub proof fn lemma_index_advances_by_one(s: ScanState, e: ScanEvent)
    requires
        s.frame_index < u64::MAX,
    ensures
        next(s, e).0.frame_index == s.frame_index + 1 <==> ((s.phase is Draining && e is Frame
            && !sampled(s.frame_index as int)) || (s.phase is Classifying && e
            == (ScanEvent::Verdict { matched: false }))),
        next(s, e).0.frame_index == s.frame_index || next(s, e).0.frame_index == s.frame_index
            + 1,
        next(s, e).0.stream == s.stream,
{
}

/// A finished scan stays as it is, whatever events follow: nothing more is
/// decoded or classified after the first match.
pub proof fn lemma_finished_is_final(s: ScanState, evs: Seq<ScanEvent>)
    requires
        (s.phase is Finished),
    ensures
        run(s, evs) == s,
        forall|e: ScanEvent| next(s, e) == (s, ScanAction::Idle),
    decreases evs.len(),
{
    if evs.len() > 0 {
        lemma_finished_is_final(next(s, evs[0]).0, evs.drop_first());
    }
}

/// A positive verdict ends the scan at once with the current frame index, and
/// no later event changes that result.
pub proof fn lemma_match_short_circuits(s: ScanState, flushing: bool, evs: Seq<ScanEvent>)
    requires
        s.phase == (Phase::Classifying { flushing }),
    ensures
        next(s, ScanEvent::Verdict { matched: true }).1 == (ScanAction::Found {
            frame_index: s.frame_index,
        }),
        run(s, seq![ScanEvent::Verdict { matched: true }] + evs) == (ScanState {
            phase: Phase::Finished { matched: Some(s.frame_index) },
            ..s
        }),
{
    let evs2 = seq![ScanEvent::Verdict { matched: true }] + evs;
    assert(evs2[0] == ScanEvent::Verdict { matched: true });
    assert(evs2.drop_first() =~= evs);
    lemma_finished_is_final(next(s, evs2[0]).0, evs);
}

/// Without a positive verdict the scan never reports a match, however long the
/// stream.
pub proof fn lemma_no_match_without_positive_verdict(s: ScanState, evs: Seq<ScanEvent>)
    requires
        !(s.phase matches Phase::Finished { matched: Some(_) }),
        forall|i: int| 0 <= i < evs.len() ==> evs[i] != (ScanEvent::Verdict { matched: true }),
    ensures
        !(run(s, evs).phase matches Phase::Finished { matched: Some(_) }),
    decreases evs.len(),
{
    if evs.len() > 0 {
        let rest = evs.drop_first();
        assert forall|i: int| 0 <= i < rest.len() implies rest[i] != (ScanEvent::Verdict {
            matched: true,
        }) by {
            assert(rest[i] == evs[i + 1]);
        }
        lemma_no_match_without_positive_verdict(next(s, evs[0]).0, rest);
    }
}

/// Once the packets are exhausted and the flushed decoder yields no frame, the
/// scan is over with no match.
pub proof fn lemma_exhausted_stream_ends(s: ScanState)
    requires
        (s.phase is Feeding),
    ensures
        run(s, seq![ScanEvent::PacketsExhausted, ScanEvent::NoFrame]).phase == (Phase::Finished {
            matched: None,
        }),
{
    let evs = seq![ScanEvent::PacketsExhausted, ScanEvent::NoFrame];
    assert(evs.drop_first() =~= seq![ScanEvent::NoFrame]);
    assert(evs.drop_first().drop_first() =~= Seq::<ScanEvent>::empty());
    let s1 = next(s, ScanEvent::PacketsExhausted).0;
    let s2 = next(s1, ScanEvent::NoFrame).0;
    assert(run(s2, Seq::<ScanEvent>::empty()) == s2);
    assert(run(s1, seq![ScanEvent::NoFrame]) == s2);
}

/// The events of draining decoded frames from index `i` on: each frame, then,
/// where its index is sampled, the classifier's verdict `qs[k]` on it.
pub open spec fn frame_events(i: int, qs: Seq<bool>) -> Seq<ScanEvent>
    decreases qs.len(),
{
    if qs.len() == 0 {
        Seq::empty()
    } else {
        let head = if sampled(i) {
            seq![ScanEvent::Frame, ScanEvent::Verdict { matched: qs[0] }]
        } else {
            seq![ScanEvent::Frame]
        };
        head + frame_events(i + 1, qs.drop_first())
    }
}

/// The index of the first frame from `i` on that is sampled and classified
/// positive, where `qs[k]` is the verdict the frame at `i + k` would get.
pub open spec fn first_match(i: int, qs: Seq<bool>) -> Option<int>
    decreases qs.len(),
{
    if qs.len() == 0 {
        None
    } else if sampled(i) && qs[0] {
        Some(i)
    } else {
        first_match(i + 1, qs.drop_first())
    }
}

/// `first_match` is the least sampled index with a positive verdict.
pub proof fn lemma_first_match_is_least(i: int, qs: Seq<bool>)
    ensures
        first_match(i, qs) matches Some(j) ==> i <= j < i + qs.len() && sampled(j) && qs[j - i]
            && forall|k: int| i <= k < j ==> !(sampled(k) && qs[k - i]),
        first_match(i, qs) is None ==> forall|k: int|
            i <= k < i + qs.len() ==> !(sampled(k) && qs[k - i]),
    decreases qs.len(),
{
    if qs.len() > 0 {
        let rest = qs.drop_first();
        lemma_first_match_is_least(i + 1, rest);
    }
}

/// Verdicts on frames that are not sampled never change the outcome.
pub proof fn lemma_unsampled_frames_do_not_matter(i: int, qs: Seq<bool>, rs: Seq<bool>)
    requires
        qs.len() == rs.len(),
        forall|k: int| 0 <= k < qs.len() && sampled(i + k) ==> qs[k] == rs[k],
    ensures
        first_match(i, qs) == first_match(i, rs),
    decreases qs.len(),
{
    if qs.len() > 0 {
        let (q2, r2) = (qs.drop_first(), rs.drop_first());
        assert forall|k: int| 0 <= k < q2.len() && sampled(i + 1 + k) implies q2[k] == r2[k] by {
            assert(sampled(i + (k + 1)));
        }
        lemma_unsampled_frames_do_not_matter(i + 1, q2, r2);
    }
}

/// Draining a run of decoded frames either stops at the first sampled frame with
/// a positive verdict, leaving every later event without effect, or passes over
/// all of them, advancing the frame index by their number.
pub proof fn lemma_drain_frames(s: ScanState, flushing: bool, qs: Seq<bool>, tail: Seq<ScanEvent>)
    requires
        s.phase == (Phase::Draining { flushing }),
        s.frame_index + qs.len() < u64::MAX,
    ensures
        first_match(s.frame_index as int, qs) matches Some(j) ==> run(
            s,
            frame_events(s.frame_index as int, qs) + tail,
        ) == (ScanState {
            frame_index: j as u64,
            phase: Phase::Finished { matched: Some(j as u64) },
            ..s
        }),
        first_match(s.frame_index as int, qs) is None ==> run(
            s,
            frame_events(s.frame_index as int, qs) + tail,
        ) == run(ScanState { frame_index: (s.frame_index + qs.len()) as u64, ..s }, tail),
    decreases qs.len(),
{
    let i = s.frame_index as int;
    let evs = frame_events(i, qs) + tail;
    if qs.len() == 0 {
        assert(evs =~= tail);
        assert(ScanState { frame_index: (s.frame_index + qs.len()) as u64, ..s } == s);
    } else {
        let rest = qs.drop_first();
        let later = frame_events(i + 1, rest) + tail;
        let s1 = next(s, ScanEvent::Frame).0;
        if sampled(i) {
            assert(evs =~= seq![ScanEvent::Frame, ScanEvent::Verdict { matched: qs[0] }] + later);
            assert(evs.drop_first() =~= seq![ScanEvent::Verdict { matched: qs[0] }] + later);
            assert(evs.drop_first().drop_first() =~= later);
            let s2 = next(s1, ScanEvent::Verdict { matched: qs[0] }).0;
            assert(run(s, evs) == run(s1, evs.drop_first()));
            assert(run(s1, evs.drop_first()) == run(s2, later));
            if qs[0] {
                lemma_finished_is_final(s2, later);
            } else {
                lemma_drain_frames(s2, flushing, rest, tail);
            }
        } else {
            assert(evs =~= seq![ScanEvent::Frame] + later);
            assert(evs.drop_first() =~= later);
            assert(run(s, evs) == run(s1, later));
            lemma_drain_frames(s1, flushing, rest, tail);
        }
    }
}

/// A scan whose decoder gives out all its frames after the end of the packets
/// ends, once drained, with the first sampled frame classified positive, or with
/// no match when there is none.
pub proof fn lemma_scan_outcome(s: ScanState, qs: Seq<bool>)
    requires
        (s.phase is Feeding),
        s.frame_index + qs.len() < u64::MAX,
    ensures
        run(
            s,
            seq![ScanEvent::PacketsExhausted] + frame_events(s.frame_index as int, qs) + seq![
                ScanEvent::NoFrame,
            ],
        ).phase == (Phase::Finished {
            matched: match first_match(s.frame_index as int, qs) {
                Some(j) => Some(j as u64),
                None => None,
            },
        }),
{
    let i = s.frame_index as int;
    let evs = seq![ScanEvent::PacketsExhausted] + frame_events(i, qs) + seq![ScanEvent::NoFrame];
    let s1 = next(s, ScanEvent::PacketsExhausted).0;
    assert(evs.drop_first() =~= frame_events(i, qs) + seq![ScanEvent::NoFrame]);
    lemma_drain_frames(s1, true, qs, seq![ScanEvent::NoFrame]);
    if first_match(i, qs) is None {
        let s2 = ScanState { frame_index: (s.frame_index + qs.len()) as u64, ..s1 };
        assert(seq![ScanEvent::NoFrame].drop_first() =~= Seq::<ScanEvent>::empty());
        assert(run(s2, seq![ScanEvent::NoFrame]) == run(
            next(s2, ScanEvent::NoFrame).0,
            Seq::<ScanEvent>::empty(),
        ));
    }
}

/// A clip whose frames before index 900 fail the classifier and whose later
/// frames pass it matches at 930, the first sampled index after 900.
pub proof fn lemma_first_sampled_marker_frame(qs: Seq<bool>)
    requires
        qs.len() > 930,
        forall|k: int| 0 <= k < qs.len() ==> qs[k] == (k >= 900),
    ensures
        first_match(0, qs) == Some(930int),
{
    lemma_first_match_is_least(0, qs);
    assert(sampled(930));
    match first_match(0, qs) {
        Some(j) => {
            assert(j <= 930);
            assert(j >= 900);
        },
        None => {
            assert(!(sampled(930) && qs[930]));
        },
    }
}

} // verus!
