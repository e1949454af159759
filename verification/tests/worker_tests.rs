use pixelmap_artnet::worker::{
    inbound_step, outbound_step, InboundAction, InboundEvent, OutboundAction, OutboundEvent,
    WorkerState,
};
use pixelmap_artnet::{encode, ArtNetServer, Command, DecodeError, EncodeError};

#[test]
fn inbound_queues_a_datagram_that_decodes() {
    let command = Command::output(3, vec![1, 2, 3, 4]);
    let frame = encode(&command).unwrap();
    assert_eq!(
        inbound_step(WorkerState::Running, InboundEvent::Datagram(&frame)),
        (WorkerState::Running, InboundAction::Enqueue(command))
    );
}

#[test]
fn inbound_drops_a_datagram_that_does_not_decode() {
    assert_eq!(
        inbound_step(WorkerState::Running, InboundEvent::Datagram(&[1, 2, 3])),
        (WorkerState::Running, InboundAction::Discard(DecodeError::Truncated))
    );
    assert_eq!(
        inbound_step(WorkerState::Running, InboundEvent::Datagram(&[0; 30])),
        (WorkerState::Running, InboundAction::Discard(DecodeError::BadMagic))
    );
}

#[test]
fn inbound_survives_garbage_and_queues_what_follows() {
    let mut state = WorkerState::Running;
    let mut seed: u32 = 12345;
    for round in 0..500usize {
        let garbage: Vec<u8> = (0..round % 40)
            .map(|_| {
                seed = seed.wrapping_mul(1_664_525).wrapping_add(1_013_904_223);
                (seed >> 24) as u8
            })
            .collect();
        let (next, action) = inbound_step(state, InboundEvent::Datagram(&garbage));
        assert_eq!(next, WorkerState::Running);
        assert!(matches!(action, InboundAction::Discard(_)));
        state = next;
    }
    let command = Command::output(77, vec![9, 8, 7, 6, 5, 4]);
    let frame = encode(&command).unwrap();
    assert_eq!(
        inbound_step(state, InboundEvent::Datagram(&frame)),
        (WorkerState::Running, InboundAction::Enqueue(command))
    );
}

#[test]
fn inbound_keeps_the_order_of_arrival() {
    let mut state = WorkerState::Running;
    let mut queued = Vec::new();
    for universe in 0..20u16 {
        let frame = encode(&Command::output(universe, vec![universe as u8, 1])).unwrap();
        let (next, action) = inbound_step(state, InboundEvent::Datagram(&frame));
        if let InboundAction::Enqueue(command) = action {
            queued.push(command.universe());
        }
        let (next, _) = inbound_step(next, InboundEvent::Datagram(b"noise"));
        state = next;
    }
    assert_eq!(queued, (0..20u16).collect::<Vec<u16>>());
    assert_eq!(state, WorkerState::Running);
}

#[test]
fn inbound_waits_after_a_timeout() {
    assert_eq!(
        inbound_step(WorkerState::Running, InboundEvent::TimedOut),
        (WorkerState::Running, InboundAction::Wait)
    );
}

#[test]
fn inbound_reports_a_socket_failure_once_and_stops() {
    let (state, action) = inbound_step(WorkerState::Running, InboundEvent::SocketFailed);
    assert_eq!((state, action), (WorkerState::Stopped, InboundAction::ReportFailure));
    assert_eq!(
        inbound_step(state, InboundEvent::SocketFailed),
        (WorkerState::Stopped, InboundAction::Exit)
    );
}

#[test]
fn inbound_stops_on_shutdown_and_stays_stopped() {
    let (state, action) = inbound_step(WorkerState::Running, InboundEvent::Shutdown);
    assert_eq!((state, action), (WorkerState::Stopped, InboundAction::Exit));
    let frame = encode(&Command::output(3, vec![1, 2])).unwrap();
    for event in [
        InboundEvent::Datagram(&frame),
        InboundEvent::TimedOut,
        InboundEvent::SocketFailed,
        InboundEvent::Shutdown,
    ] {
        assert_eq!(inbound_step(state, event), (WorkerState::Stopped, InboundAction::Exit));
    }
}

#[test]
fn outbound_sends_the_frame_of_a_command() {
    let command = Command::output(3, vec![1, 2, 3, 4]);
    let frame = encode(&command).unwrap();
    assert_eq!(
        outbound_step(WorkerState::Running, OutboundEvent::Dequeued(command)),
        (WorkerState::Running, OutboundAction::Transmit(frame))
    );
}

#[test]
fn outbound_skips_a_command_without_a_frame() {
    for (command, error) in [
        (Command::output(3, vec![0; 513]), EncodeError::PayloadTooLarge),
        (Command::output(40_000, vec![]), EncodeError::UniverseOutOfRange),
        (Command::output(40_000, vec![1]), EncodeError::UniverseOutOfRange),
    ] {
        assert_eq!(
            outbound_step(WorkerState::Running, OutboundEvent::Dequeued(command)),
            (WorkerState::Running, OutboundAction::Skip(error))
        );
    }
}

#[test]
fn outbound_sends_the_header_alone_for_a_command_without_data() {
    let command = Command::output(3, vec![]);
    let (state, action) = outbound_step(WorkerState::Running, OutboundEvent::Dequeued(command));
    assert_eq!(state, WorkerState::Running);
    let frame = match action {
        OutboundAction::Transmit(frame) => frame,
        other => panic!("nothing to transmit: {:?}", other),
    };
    assert_eq!(frame.len(), 18);
    assert_eq!(
        inbound_step(WorkerState::Running, InboundEvent::Datagram(&frame)),
        (WorkerState::Running, InboundAction::Enqueue(Command::output(3, vec![])))
    );
}

#[test]
fn outbound_sends_what_follows_a_skipped_command() {
    let (state, action) = outbound_step(
        WorkerState::Running,
        OutboundEvent::Dequeued(Command::output(3, vec![0; 600])),
    );
    assert_eq!((state, action), (WorkerState::Running, OutboundAction::Skip(EncodeError::PayloadTooLarge)));
    let command = Command::output(3, vec![1, 2]);
    let frame = encode(&command).unwrap();
    assert_eq!(
        outbound_step(state, OutboundEvent::Dequeued(command)),
        (WorkerState::Running, OutboundAction::Transmit(frame))
    );
}

#[test]
fn outbound_goes_on_after_a_failed_send() {
    let (state, action) = outbound_step(WorkerState::Running, OutboundEvent::SendFailed);
    assert_eq!((state, action), (WorkerState::Running, OutboundAction::ReportSendFailure));
    let command = Command::output(1, vec![5, 6]);
    let frame = encode(&command).unwrap();
    assert_eq!(
        outbound_step(state, OutboundEvent::Dequeued(command)),
        (WorkerState::Running, OutboundAction::Transmit(frame))
    );
}

#[test]
fn outbound_stops_when_the_queue_closes() {
    let (state, action) = outbound_step(WorkerState::Running, OutboundEvent::QueueClosed);
    assert_eq!((state, action), (WorkerState::Stopped, OutboundAction::Exit));
    for event in [
        OutboundEvent::Dequeued(Command::output(1, vec![5, 6])),
        OutboundEvent::SendFailed,
        OutboundEvent::QueueClosed,
    ] {
        assert_eq!(outbound_step(state, event), (WorkerState::Stopped, OutboundAction::Exit));
    }
}

#[test]
fn the_inbound_queue_gets_the_commands_and_nothing_for_garbage() {
    let (mut server, mut ends) = ArtNetServer::new();
    let mut state = WorkerState::Running;
    let mut expected = Vec::new();
    for round in 0..50u16 {
        let noise = vec![round as u8; (round % 30) as usize];
        let (next, action) = ends.inbound.handle(state, InboundEvent::Datagram(&noise));
        assert!(matches!(action, InboundAction::Discard(_)));
        let (next, action) = ends.inbound.handle(next, InboundEvent::TimedOut);
        assert_eq!(action, InboundAction::Wait);
        let command = Command::output(round, vec![round as u8, 1, 2, 3]);
        let frame = encode(&command).unwrap();
        let (next, action) = ends.inbound.handle(next, InboundEvent::Datagram(&frame));
        assert_eq!(action, InboundAction::Enqueue(command.clone()));
        assert_eq!(next, WorkerState::Running);
        expected.push(command);
        state = next;
    }
    assert_eq!(server.pending(), 50);
    assert_eq!(server.poll_all(), expected);
}

#[test]
fn the_inbound_worker_stops_when_the_handle_is_gone() {
    let (server, mut ends) = ArtNetServer::new();
    drop(server);
    let frame = encode(&Command::output(1, vec![1, 2])).unwrap();
    assert_eq!(
        ends.inbound.handle(WorkerState::Running, InboundEvent::Datagram(&frame)),
        (WorkerState::Stopped, InboundAction::Exit)
    );
    // what is no command is dropped as ever
    assert_eq!(
        ends.inbound.handle(WorkerState::Running, InboundEvent::Datagram(&[1, 2, 3])).0,
        WorkerState::Running
    );
}

#[test]
fn a_stopped_inbound_worker_queues_nothing() {
    let (mut server, mut ends) = ArtNetServer::new();
    let frame = encode(&Command::output(1, vec![1, 2])).unwrap();
    assert_eq!(
        ends.inbound.handle(WorkerState::Stopped, InboundEvent::Datagram(&frame)),
        (WorkerState::Stopped, InboundAction::Exit)
    );
    assert_eq!(server.pending(), 0);
}

#[test]
fn a_sent_command_reaches_the_peer_unchanged() {
    let (mut sender, sender_ends) = ArtNetServer::new();
    let (mut receiver, mut receiver_ends) = ArtNetServer::new();
    let command = Command::output(258, vec![255, 0, 0, 0, 255, 0]);
    assert_eq!(sender.send(command.clone()), Ok(()));

    // the sender's outbound worker
    let dequeued = sender_ends.outbound.recv().unwrap();
    let (state, action) = outbound_step(WorkerState::Running, OutboundEvent::Dequeued(dequeued));
    assert_eq!(state, WorkerState::Running);
    let datagram = match action {
        OutboundAction::Transmit(frame) => frame,
        other => panic!("nothing to transmit: {:?}", other),
    };

    // the peer's inbound worker
    let (state, action) =
        receiver_ends.inbound.handle(WorkerState::Running, InboundEvent::Datagram(&datagram));
    assert_eq!(state, WorkerState::Running);
    assert_eq!(action, InboundAction::Enqueue(command.clone()));
    assert_eq!(receiver.poll(), Some(command));
    assert_eq!(receiver.poll(), None);
}
