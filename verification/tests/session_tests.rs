use nano_entropy::DecodeError;
use nano_entropy::SessionError;
use nano_entropy::TransportError;
use nano_entropy::join::Packet;
use nano_entropy::join::Identity;
use nano_entropy::join::build_join_sequence;
use nano_entropy::config::PresentationConfig;
use nano_entropy::registry::dimension_from_protocol;
use nano_entropy::session::DrainResult;
use nano_entropy::session::DrainStep;
use nano_entropy::session::InboundEvent;
use nano_entropy::session::KEEP_ALIVE_INTERVAL_MS;
use nano_entropy::session::RaceEnd;
use nano_entropy::session::SessionEnd;
use nano_entropy::session::drain_step;
use nano_entropy::session::keep_alive_packets;
use nano_entropy::session::keep_alive_schedule;
use nano_entropy::session::run_drain;
use nano_entropy::session::session_result;

#[test]
fn drain_step_absorbs_dispatch_and_no_handler() {
    assert_eq!(drain_step(InboundEvent::Dispatched), DrainStep::Continue);
    assert_eq!(drain_step(InboundEvent::NoHandler), DrainStep::Continue);
}

#[test]
fn drain_step_stops_cleanly_at_end_of_stream() {
    assert_eq!(
        drain_step(InboundEvent::Transport(TransportError::Eof)),
        DrainStep::Stop(DrainResult::Finished)
    );
}

#[test]
fn drain_step_propagates_other_transport_failures() {
    assert_eq!(
        drain_step(InboundEvent::Transport(TransportError::Failed(17))),
        DrainStep::Stop(DrainResult::Failed(17))
    );
}

#[test]
fn drain_loop_ends_with_success_at_clean_end_of_stream() {
    let events = vec![
        InboundEvent::NoHandler,
        InboundEvent::Dispatched,
        InboundEvent::NoHandler,
        InboundEvent::Transport(TransportError::Eof),
    ];
    assert_eq!(run_drain(&events), Some(DrainResult::Finished));
}

#[test]
fn drain_loop_keeps_looping_on_repeated_no_handler() {
    let events = vec![InboundEvent::NoHandler; 50];
    assert_eq!(run_drain(&events), None);
}

#[test]
fn drain_loop_stops_at_the_first_terminal_event() {
    let events = vec![
        InboundEvent::NoHandler,
        InboundEvent::Transport(TransportError::Failed(3)),
        InboundEvent::Transport(TransportError::Eof),
    ];
    assert_eq!(run_drain(&events), Some(DrainResult::Failed(3)));
}

#[test]
fn twenty_seconds_of_five_second_ticks_is_four_keep_alives() {
    let ticks = keep_alive_schedule(20_000, KEEP_ALIVE_INTERVAL_MS);
    assert_eq!(ticks, vec![0, 5_000, 10_000, 15_000]);
    assert_eq!(ticks.len(), 4);
}

#[test]
fn keep_alive_schedule_edges() {
    assert_eq!(keep_alive_schedule(0, KEEP_ALIVE_INTERVAL_MS).len(), 0);
    assert_eq!(keep_alive_schedule(1, KEEP_ALIVE_INTERVAL_MS), vec![0]);
    assert_eq!(keep_alive_schedule(5_000, KEEP_ALIVE_INTERVAL_MS), vec![0]);
    assert_eq!(keep_alive_schedule(5_001, KEEP_ALIVE_INTERVAL_MS), vec![0, 5_000]);
    assert_eq!(keep_alive_schedule(20_001, KEEP_ALIVE_INTERVAL_MS).len(), 5);
}

#[test]
fn keep_alive_identifiers_are_the_clock_and_non_decreasing() {
    let base: u64 = 1_660_000_000_000;
    let clocks: Vec<u64> = vec![base, base + 5_000, base + 10_001, base + 15_001];
    let packets = keep_alive_packets(&clocks);
    assert_eq!(packets.len(), 4);
    let mut last: u64 = 0;
    for (i, p) in packets.iter().enumerate() {
        match p {
            Packet::KeepAlive { id } => {
                assert_eq!(*id, clocks[i]);
                assert!(*id >= last);
                last = *id;
            },
            _ => panic!("the broadcaster emits keep-alives only"),
        }
    }
}

#[test]
fn session_ends_with_success_when_the_drain_finishes_cleanly() {
    assert_eq!(session_result(SessionEnd::FirstFinished(RaceEnd::Drain(DrainResult::Finished))), Ok(()));
}

#[test]
fn session_surfaces_the_first_failure() {
    assert_eq!(
        session_result(SessionEnd::FirstFinished(RaceEnd::Drain(DrainResult::Failed(9)))),
        Err(SessionError::Transport(TransportError::Failed(9)))
    );
    assert_eq!(
        session_result(SessionEnd::FirstFinished(RaceEnd::Pings(TransportError::Failed(4)))),
        Err(SessionError::Transport(TransportError::Failed(4)))
    );
    assert_eq!(
        session_result(SessionEnd::FirstFinished(RaceEnd::Pings(TransportError::Eof))),
        Err(SessionError::Transport(TransportError::Eof))
    );
    assert_eq!(
        session_result(SessionEnd::JoinWriteFailed(TransportError::Failed(2))),
        Err(SessionError::Transport(TransportError::Failed(2)))
    );
    assert_eq!(
        session_result(SessionEnd::JoinDecodeFailed(DecodeError::Truncated)),
        Err(SessionError::Decode(DecodeError::Truncated))
    );
}

/// The whole session, end to end, against simulated transport outcomes:
/// connect as Tester on protocol version 760, onboard with the nine packets,
/// keep the connection alive every five seconds, and end cleanly when the
/// peer closes the stream.
#[test]
fn end_to_end_session_with_a_clean_close() {
    let registry = dimension_from_protocol(760).expect("registry should load");
    let cfg = PresentationConfig {
        title: "A Minimal World".to_owned(),
        subtitle: "nothing happens here".to_owned(),
        motd: "a quiet server".to_owned(),
        max_players: 20,
        online_players: 0,
        favicon: None,
    };
    let identity = Identity {
        name: "Tester".to_owned(),
        id: 0x123e4567_e89b_12d3_a456_426614174000,
        key: None,
    };
    let packets = build_join_sequence(&identity, 760, &cfg, &registry);
    assert_eq!(packets.len(), 9);
    assert!(matches!(&packets[2], Packet::Brand { channel, .. } if channel == "minecraft:brand"));

    // Twenty simulated seconds of liveness before the peer closes.
    let ticks = keep_alive_schedule(20_000, KEEP_ALIVE_INTERVAL_MS);
    let base: u64 = 1_660_000_000_000;
    let clocks: Vec<u64> = ticks.iter().map(|t| base + t).collect();
    let keep_alives = keep_alive_packets(&clocks);
    assert_eq!(keep_alives.len(), 4);

    // The peer closes the connection: the drain loop sees a clean end of
    // stream after some unhandled inbound traffic, and the session ends
    // with no propagated error.
    let events = vec![
        InboundEvent::NoHandler,
        InboundEvent::NoHandler,
        InboundEvent::Transport(TransportError::Eof),
    ];
    let drain = run_drain(&events).expect("the close ends the loop");
    assert_eq!(drain, DrainResult::Finished);
    assert_eq!(session_result(SessionEnd::FirstFinished(RaceEnd::Drain(drain))), Ok(()));
}
