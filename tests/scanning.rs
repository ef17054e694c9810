use std::collections::VecDeque;
use title_card::frame::{classify, RgbFrame};
use title_card::scan::{Phase, ScanAction, ScanEvent, ScanState};

const BLUE: [u8; 3] = [0, 100, 255];
const RED: [u8; 3] = [255, 0, 0];

/// A container of packets, each with the stream it belongs to and the frames
/// it decodes to, and the frames the decoder gives out only once flushed.
struct Stub {
    packets: Vec<(usize, Vec<[u8; 3]>)>,
    flush: Vec<[u8; 3]>,
}

struct Outcome {
    matched: Option<u64>,
    classified: Vec<u64>,
    state: ScanState,
}

fn receive(queue: &mut VecDeque<[u8; 3]>, current: &mut Option<[u8; 3]>) -> ScanEvent {
    match queue.pop_front() {
        Some(f) => {
            *current = Some(f);
            ScanEvent::Frame
        }
        None => ScanEvent::NoFrame,
    }
}

fn drive(stub: &Stub, stream: usize) -> Outcome {
    let mut state = ScanState::new(stream);
    let mut action = ScanAction::NextPacket;
    let mut next_packet = 0;
    let mut packet = 0;
    let mut queue = VecDeque::new();
    let mut current = None;
    let mut classified = Vec::new();
    loop {
        let event = match action {
            ScanAction::NextPacket => {
                if next_packet < stub.packets.len() {
                    packet = next_packet;
                    next_packet += 1;
                    ScanEvent::Packet { stream: stub.packets[packet].0 }
                } else {
                    ScanEvent::PacketsExhausted
                }
            }
            ScanAction::SendPacket => {
                queue.extend(stub.packets[packet].1.iter().copied());
                receive(&mut queue, &mut current)
            }
            ScanAction::SendEof => {
                queue.extend(stub.flush.iter().copied());
                receive(&mut queue, &mut current)
            }
            ScanAction::ReceiveFrame => receive(&mut queue, &mut current),
            ScanAction::Classify { frame_index } => {
                classified.push(frame_index);
                let frame = RgbFrame::from_raw(1, 1, current.unwrap().to_vec()).unwrap();
                ScanEvent::Verdict { matched: classify(frame).is_some() }
            }
            ScanAction::Found { frame_index } => {
                return Outcome { matched: Some(frame_index), classified, state };
            }
            ScanAction::NoMatch => return Outcome { matched: None, classified, state },
            ScanAction::Idle => panic!("event out of phase"),
        };
        action = state.step(event);
    }
}

/// `n` frames in packets of `per_packet`, coloured by `colour(index)`, with
/// the last `held` frames surfacing only on flush and an audio packet (stream
/// 1) after every video packet.
fn clip(n: usize, per_packet: usize, held: usize, colour: impl Fn(usize) -> [u8; 3]) -> Stub {
    let frames: Vec<[u8; 3]> = (0..n).map(colour).collect();
    let (fed, flush) = frames.split_at(n - held);
    let mut packets = Vec::new();
    for chunk in fed.chunks(per_packet) {
        packets.push((0, chunk.to_vec()));
        packets.push((1, vec![BLUE]));
    }
    Stub { packets, flush: flush.to_vec() }
}

#[test]
fn stream_without_eligible_frames_ends_with_no_match() {
    let stub = clip(500, 7, 3, |_| BLUE);
    let out = drive(&stub, 0);
    assert_eq!(out.matched, None);
    assert!(out.classified.is_empty());
    assert_eq!(out.state.frame_index, 500);
    assert_eq!(out.state.phase, Phase::Finished { matched: None });
}

#[test]
fn stream_without_marker_is_scanned_to_the_end() {
    let stub = clip(1000, 4, 40, |_| RED);
    let out = drive(&stub, 0);
    assert_eq!(out.matched, None);
    assert_eq!(out.classified, vec![930, 960, 990]);
    assert_eq!(out.state.frame_index, 1000);
}

#[test]
fn scan_stops_at_first_match() {
    let stub = clip(1500, 5, 2, |i| if i >= 960 { BLUE } else { RED });
    let out = drive(&stub, 0);
    assert_eq!(out.matched, Some(960));
    assert_eq!(out.classified, vec![930, 960]);
    assert_eq!(out.state.phase, Phase::Finished { matched: Some(960) });
    let mut done = out.state;
    assert_eq!(done.step(ScanEvent::Frame), ScanAction::Idle);
    assert_eq!(done.step(ScanEvent::Verdict { matched: true }), ScanAction::Idle);
    assert_eq!(done, out.state);
}

#[test]
fn red_then_blue_clip_matches_first_sampled_blue_frame() {
    let stub = clip(1200, 1, 0, |i| if i >= 900 { BLUE } else { RED });
    let out = drive(&stub, 0);
    assert_eq!(out.matched, Some(930));
    assert_eq!(out.classified, vec![930]);
}

#[test]
fn match_can_surface_during_flush() {
    let stub = clip(1000, 10, 100, |i| if i >= 950 { BLUE } else { RED });
    let out = drive(&stub, 0);
    assert_eq!(out.matched, Some(960));
    assert_eq!(out.classified, vec![930, 960]);
}

#[test]
fn other_streams_are_skipped() {
    let mut s = ScanState::new(0);
    assert_eq!(s.step(ScanEvent::Packet { stream: 1 }), ScanAction::NextPacket);
    assert_eq!(s, ScanState::new(0));
    assert_eq!(s.step(ScanEvent::Packet { stream: 0 }), ScanAction::SendPacket);
    assert_eq!(s.step(ScanEvent::NoFrame), ScanAction::NextPacket);
    assert_eq!(s.step(ScanEvent::PacketsExhausted), ScanAction::SendEof);
    assert_eq!(s.step(ScanEvent::NoFrame), ScanAction::NoMatch);
    assert!(s.is_finished());
    assert_eq!(s.matched(), None);
}
