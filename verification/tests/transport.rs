use soxy::api::{ChannelControl, Chunk, Error};
use soxy::backend::{
    after_write, backend_to_frontend, AfterWrite, Instance, Link, SymbolNames, ToFrontend,
};
use soxy::citrix::{
    accepts_write_size, channel_mask, poll_result, step_at_limit, step_for, DriverClose,
    DriverError, DriverQueryInformation, DriverSetInformation, Outbound, PollStatus, PollStep,
    WriteOutcome,
};
use soxy::svc::{
    init_event, open_event, Command, Control, ControlOutput, InitEvent, OpenEvent, Response,
    State, SvcError, Transport, WriteStatus, MAX_CHUNKS_IN_FLIGHT,
};

#[test]
fn host_events_have_their_codes() {
    assert_eq!(init_event(0), Some(InitEvent::Initialized));
    assert_eq!(init_event(1), Some(InitEvent::Connected));
    assert_eq!(init_event(2), Some(InitEvent::Disconnected));
    assert_eq!(init_event(3), Some(InitEvent::Terminated));
    assert_eq!(init_event(4), None);
    assert_eq!(init_event(10), None);
    assert_eq!(open_event(10), Some(OpenEvent::DataReceived));
    assert_eq!(open_event(11), Some(OpenEvent::WriteComplete));
    assert_eq!(open_event(12), Some(OpenEvent::WriteCancelled));
    assert_eq!(open_event(13), None);
    assert_eq!(open_event(0), None);
}

#[test]
fn sixty_four_writes_at_most_are_under_way() {
    let mut status = WriteStatus::new();
    for i in 0..MAX_CHUNKS_IN_FLIGHT as u32 {
        let marker = status.next_marker();
        assert_eq!(marker, i);
        assert!(status.try_acquire());
        assert_eq!(status.written(marker, vec![i as u8], 0), Ok(()));
    }
    assert!(!status.try_acquire());
    assert_eq!(status.completed(3), Some(vec![3]));
    // a second report on the same write gives nothing back
    assert_eq!(status.completed(3), None);
    assert!(status.try_acquire());
    assert!(!status.try_acquire());
    let marker = status.next_marker();
    assert_eq!(marker, 64);
    assert_eq!(status.written(marker, vec![64], 0), Ok(()));
    assert!(!status.try_acquire());
    status.reset();
    assert_eq!(status.completed(4), None);
    for _ in 0..64 {
        assert!(status.try_acquire());
    }
    assert!(!status.try_acquire());
}

#[test]
fn a_refused_write_gives_its_permit_back() {
    let mut status = WriteStatus::new();
    for _ in 0..64 {
        assert!(status.try_acquire());
    }
    let marker = status.next_marker();
    assert_eq!(
        status.written(marker, vec![1], 17),
        Err(SvcError::VirtualChannel(17))
    );
    assert_eq!(status.completed(marker), None);
    assert!(status.try_acquire());
    assert!(!status.try_acquire());
}

#[test]
fn a_write_without_permit_is_not_taken() {
    let mut status = WriteStatus::new();
    assert_eq!(status.written(0, vec![1], 0), Err(SvcError::NotReady));
    assert_eq!(status.written(0, vec![1], 5), Err(SvcError::NotReady));
    assert_eq!(status.completed(0), None);
    let mut n = 0;
    while status.try_acquire() {
        n += 1;
    }
    assert_eq!(n, 64);
}

#[test]
fn a_reset_leaves_the_writes_that_are_being_made_their_permits() {
    let mut status = WriteStatus::new();
    for marker in 0..10u32 {
        assert!(status.try_acquire());
        status.written(marker, vec![], 0).unwrap();
    }
    for _ in 0..3 {
        assert!(status.try_acquire());
    }
    status.reset();
    assert_eq!(status.completed(0), None);
    let mut n = 0;
    while status.try_acquire() {
        n += 1;
    }
    assert_eq!(n, 61);
    for marker in 0..64u32 {
        status.written(marker, vec![], 1).unwrap_err();
    }
    assert_eq!(status.written(64, vec![], 1), Err(SvcError::NotReady));
    let mut n = 0;
    while status.try_acquire() {
        n += 1;
    }
    assert_eq!(n, 64);
}

#[test]
fn a_marker_in_flight_is_not_given_again() {
    let mut status = WriteStatus::new();
    assert!(status.try_acquire());
    status.written(2, vec![2], 0).unwrap();
    assert!(status.try_acquire());
    status.written(3, vec![3], 0).unwrap();
    assert_eq!(status.next_marker(), 0);
    assert_eq!(status.next_marker(), 1);
    assert_eq!(status.next_marker(), 4);
    assert_eq!(status.completed(2), Some(vec![2]));
    assert_eq!(status.next_marker(), 5);
    // a buffer under a marker that is kept already takes its place
    assert!(status.try_acquire());
    status.written(3, vec![9], 0).unwrap();
    assert_eq!(status.completed(3), Some(vec![9]));
    assert_eq!(status.completed(3), None);
    let mut n = 0;
    while status.try_acquire() {
        n += 1;
    }
    assert_eq!(n, 64);
}

#[test]
fn transport_follows_the_events_of_the_host() {
    let mut transport = Transport::new();
    assert_eq!(transport.begin_write(10), Err(SvcError::NotReady));
    assert_eq!(transport.try_acquire(), Err(SvcError::NotReady));
    assert_eq!(
        transport.end_write(0, vec![], 0),
        Err(SvcError::NotReady)
    );
    assert!(matches!(
        transport.on_init_event(InitEvent::Initialized, None),
        Response::ChangeState(State::Initialized)
    ));
    match transport.on_init_event(InitEvent::Connected, Some("server".to_string())) {
        Response::ChangeState(State::Connected(Some(name))) => assert_eq!(name, "server"),
        other => panic!("unexpected {:?}", other),
    }
    assert_eq!(transport.begin_write(1600), Ok(0));
    assert_eq!(transport.try_acquire(), Ok(true));
    assert_eq!(transport.end_write(0, vec![1, 2, 3], 0), Ok(()));
    assert_eq!(transport.begin_write(1600), Ok(1));
    assert_eq!(transport.try_acquire(), Ok(true));
    assert_eq!(
        transport.end_write(1, vec![1, 2, 3], 5),
        Err(SvcError::VirtualChannel(5))
    );
    for _ in 0..63 {
        let marker = transport.begin_write(1600).unwrap();
        assert_eq!(transport.try_acquire(), Ok(true));
        assert_eq!(transport.end_write(marker, vec![7], 0), Ok(()));
    }
    assert_eq!(transport.try_acquire(), Ok(false));
    assert!(transport
        .on_open_event(OpenEvent::WriteComplete, vec![], 0)
        .is_none());
    assert_eq!(transport.try_acquire(), Ok(true));
    assert_eq!(transport.try_acquire(), Ok(false));
    // the end of a write that is not under way frees nothing
    assert!(matches!(
        transport.on_open_event(OpenEvent::WriteCancelled, vec![], 1),
        Some(Response::WriteCancelled)
    ));
    assert_eq!(transport.try_acquire(), Ok(false));
    assert!(matches!(
        transport.on_open_event(OpenEvent::WriteCancelled, vec![], 2),
        Some(Response::WriteCancelled)
    ));
    assert_eq!(transport.try_acquire(), Ok(true));
    assert_eq!(transport.try_acquire(), Ok(false));
    // the two writes that hold a permit are refused by the host
    assert_eq!(transport.end_write(0, vec![], 1), Err(SvcError::VirtualChannel(1)));
    assert_eq!(transport.end_write(0, vec![], 1), Err(SvcError::VirtualChannel(1)));
    assert_eq!(transport.end_write(0, vec![], 1), Err(SvcError::NotReady));
    match transport.on_open_event(OpenEvent::DataReceived, vec![4, 5], 0) {
        Some(Response::ReceivedData(data)) => assert_eq!(data, vec![4, 5]),
        other => panic!("unexpected {:?}", other),
    }
    assert!(matches!(
        transport.on_init_event(InitEvent::Disconnected, None),
        Response::ChangeState(State::Disconnected)
    ));
    for _ in 0..64 {
        assert_eq!(transport.try_acquire(), Ok(true));
    }
    assert_eq!(transport.try_acquire(), Ok(false));
    // markers go on where they were
    assert_eq!(transport.begin_write(1), Ok(65));
    assert!(matches!(
        transport.on_init_event(InitEvent::Terminated, None),
        Response::ChangeState(State::Terminated)
    ));
    assert_eq!(transport.begin_write(10), Err(SvcError::NotReady));
}

#[test]
fn control_keeps_the_channel_open_and_shuts_the_multiplexer_down() {
    let mut control = Control::new();
    let r = control.control_from_svc(Response::ChangeState(State::Initialized));
    assert!(r.outputs.is_empty() && r.dropped.is_empty());
    let r = control.control_from_svc(Response::ChangeState(State::Connected(None)));
    assert!(matches!(
        r.outputs[..],
        [ControlOutput::ToSvc(Command::Open)]
    ));
    for state in [State::Disconnected, State::Terminated] {
        let r = control.control_from_svc(Response::ChangeState(state));
        assert!(matches!(
            r.outputs[..],
            [
                ControlOutput::ToFrontend(ChannelControl::Shutdown),
                ControlOutput::ToSvc(Command::Open)
            ]
        ));
    }
    let r = control.control_from_svc(Response::WriteCancelled);
    assert!(matches!(
        r.outputs[..],
        [
            ControlOutput::ToSvc(Command::Close),
            ControlOutput::ToFrontend(ChannelControl::Shutdown),
            ControlOutput::ToSvc(Command::Open)
        ]
    ));
    assert!(matches!(
        Control::control_to_svc(ChannelControl::Shutdown),
        Command::Close
    ));
    assert!(matches!(
        Control::control_to_svc(ChannelControl::SendChunk(Chunk::end(1))),
        Command::Channel(ChannelControl::SendChunk(_))
    ));
    assert!(matches!(
        Control::control_to_svc(ChannelControl::ResetClient),
        Command::Channel(ChannelControl::ResetClient)
    ));
}

fn chunk_payloads(outputs: &[ControlOutput]) -> Vec<Vec<u8>> {
    outputs
        .iter()
        .map(|o| match o {
            ControlOutput::ToFrontend(ChannelControl::SendChunk(c)) => c.payload().to_vec(),
            other => panic!("unexpected {:?}", other),
        })
        .collect()
}

#[test]
fn control_cuts_received_bytes_into_chunks() {
    let mut control = Control::new();
    let mut wire = Chunk::data(1, &[1]).unwrap().serialized();
    wire.extend_from_slice(&Chunk::data(1, &[2, 2]).unwrap().serialized());
    let tail = Chunk::data(1, &[3, 3, 3]).unwrap().serialized();
    wire.extend_from_slice(&tail[..4]);
    let r = control.control_from_svc(Response::ReceivedData(wire));
    assert!(r.dropped.is_empty());
    assert_eq!(chunk_payloads(&r.outputs), vec![vec![1], vec![2, 2]]);
    let r = control.control_from_svc(Response::ReceivedData(tail[4..].to_vec()));
    assert!(r.dropped.is_empty());
    assert_eq!(chunk_payloads(&r.outputs), vec![vec![3, 3, 3]]);
}

#[test]
fn control_drops_a_frame_that_is_no_chunk_and_goes_on() {
    let mut control = Control::new();
    let mut wire = Chunk::data(1, &[1]).unwrap().serialized();
    wire.extend_from_slice(&[7, 0, 0, 0, 1, 0x3a, 0x06]);
    wire.extend_from_slice(&vec![0u8; 1594]);
    wire.extend_from_slice(&Chunk::data(1, &[2]).unwrap().serialized());
    wire.extend_from_slice(&[7, 0, 0, 0, 5, 1, 0, 9]);
    wire.extend_from_slice(&Chunk::data(1, &[3]).unwrap().serialized());
    let r = control.control_from_svc(Response::ReceivedData(wire));
    assert_eq!(chunk_payloads(&r.outputs), vec![vec![1], vec![2], vec![3]]);
    assert_eq!(
        r.dropped,
        vec![
            Error::InvalidChunkSize(1601),
            Error::InvalidChunkType(Some(5))
        ]
    );
}

fn poll(outbound: &mut Outbound) -> (Vec<u8>, PollStatus) {
    let mut written = Vec::new();
    let mut step = outbound.poll_start();
    loop {
        match step {
            PollStep::Write(frame) => {
                written.push(frame[0]);
                step = outbound.poll_written(frame, WriteOutcome::Success);
            }
            PollStep::Finished(status) => return (written, status),
        }
    }
}

#[test]
fn a_poll_writes_eight_frames_at_most() {
    let mut outbound = Outbound::new();
    assert_eq!(outbound.poll_start(), PollStep::Finished(PollStatus::Success));
    for i in 0..20u8 {
        outbound.queue(vec![i]).unwrap();
    }
    assert_eq!(
        poll(&mut outbound),
        ((0..8).collect::<Vec<u8>>(), PollStatus::Retry)
    );
    // the next two polls write the rest, in order
    assert_eq!(
        poll(&mut outbound),
        ((8..16).collect::<Vec<u8>>(), PollStatus::Retry)
    );
    assert_eq!(
        poll(&mut outbound),
        ((16..20).collect::<Vec<u8>>(), PollStatus::Success)
    );
    assert_eq!(poll(&mut outbound), (vec![], PollStatus::Success));
}

#[test]
fn exactly_eight_frames_end_the_poll_with_success() {
    let mut outbound = Outbound::new();
    for i in 0..8u8 {
        outbound.queue(vec![i]).unwrap();
    }
    let (written, status) = poll(&mut outbound);
    assert_eq!((written.len(), status), (8, PollStatus::Success));
}

#[test]
fn a_frame_without_output_buffer_is_written_first_by_the_next_poll() {
    let mut outbound = Outbound::new();
    outbound.queue(vec![1]).unwrap();
    outbound.queue(vec![2]).unwrap();
    let frame = match outbound.poll_start() {
        PollStep::Write(frame) => frame,
        other => panic!("unexpected {:?}", other),
    };
    assert_eq!(frame, vec![1]);
    assert_eq!(
        outbound.poll_written(frame, WriteOutcome::NoOutBuf),
        PollStep::Finished(PollStatus::Retry)
    );
    assert_eq!(outbound.poll_start(), PollStep::Write(vec![1]));
    assert_eq!(
        outbound.poll_written(vec![1], WriteOutcome::Success),
        PollStep::Write(vec![2])
    );
    assert_eq!(
        outbound.poll_written(vec![2], WriteOutcome::Failed),
        PollStep::Finished(PollStatus::Error)
    );
    assert_eq!(outbound.poll_start(), PollStep::Finished(PollStatus::Success));
}

#[test]
fn the_outbound_queue_holds_sixty_four_frames() {
    let mut outbound = Outbound::new();
    for i in 0..64u8 {
        outbound.queue(vec![i]).unwrap();
    }
    let mut all = Vec::new();
    let mut polls = 0;
    loop {
        let (written, status) = poll(&mut outbound);
        polls += 1;
        all.extend(written);
        if status == PollStatus::Success {
            break;
        }
    }
    assert_eq!(polls, 8);
    assert_eq!(all, (0..64).collect::<Vec<u8>>());
    assert!(accepts_write_size(1599));
    assert!(accepts_write_size(u16::MAX));
    assert!(!accepts_write_size(1598));
}

#[test]
fn the_driver_answers_its_calls() {
    assert_eq!(poll_result(PollStatus::Success), Ok(()));
    assert_eq!(poll_result(PollStatus::Retry), Err(DriverError::Retry));
    assert_eq!(poll_result(PollStatus::Error), Err(DriverError::Error));
    assert_eq!(step_for(Some(vec![1, 2])), PollStep::Write(vec![1, 2]));
    assert_eq!(step_for(None), PollStep::Finished(PollStatus::Success));
    assert_eq!(step_at_limit(true), PollStep::Finished(PollStatus::Success));
    assert_eq!(step_at_limit(false), PollStep::Finished(PollStatus::Retry));
    let mut handle = Some(Outbound::new());
    handle.as_ref().unwrap().queue(vec![1]).unwrap();
    assert_eq!(DriverClose(&mut handle), Ok(()));
    assert!(handle.is_none());
    assert_eq!(DriverClose(&mut handle), Ok(()));
    assert_eq!(DriverQueryInformation(), Err(DriverError::Error));
    assert_eq!(DriverSetInformation(), Ok(()));
}

#[test]
fn symbol_names_follow_the_library() {
    let names = SymbolNames::from(Instance::Citrix);
    assert_eq!(names.open, "WFVirtualChannelOpen");
    assert_eq!(names.read, "WFVirtualChannelRead");
    assert_eq!(names.write, "WFVirtualChannelWrite");
    assert_eq!(names.query, "WFVirtualChannelQuery");
    assert_eq!(SymbolNames::from(Instance::Horizon).open, "VDP_VirtualChannelOpen");
    assert_eq!(SymbolNames::from(Instance::Xrdp).read, "WTSVirtualChannelRead");
    assert_eq!(SymbolNames::from(Instance::Windows).query, "WTSVirtualChannelQuery");
}

#[test]
fn backend_writes_chunks_and_lets_go_on_shutdown() {
    assert_eq!(
        backend_to_frontend(ChannelControl::SendChunk(Chunk::data(2, &[9]).unwrap())),
        ToFrontend::Write(vec![2, 0, 0, 0, 1, 1, 0, 9])
    );
    assert_eq!(
        backend_to_frontend(ChannelControl::Shutdown),
        ToFrontend::Disconnect
    );
    assert_eq!(
        backend_to_frontend(ChannelControl::ResetClient),
        ToFrontend::Discard
    );
}

#[test]
fn backend_link_passes_chunks_on_and_drops_a_bad_frame() {
    let mut link = Link::new();
    let wire = Chunk::data(1, &[1, 2]).unwrap().serialized();
    let r = link.frontend_to_backend(Some(&wire[..5]));
    assert!(r.chunks.is_empty() && r.dropped.is_empty() && !r.disconnect);
    let r = link.frontend_to_backend(Some(&wire[5..]));
    assert_eq!(r.chunks.len(), 1);
    assert_eq!(r.chunks[0].payload(), &[1, 2]);
    assert!(!r.disconnect);

    let mut bad = wire.clone();
    bad.extend_from_slice(&[7, 0, 0, 0, 1, 0x3a, 0x06]);
    bad.extend_from_slice(&vec![0u8; 1594]);
    bad.extend_from_slice(&Chunk::end(1).serialized());
    bad.extend_from_slice(&[9, 0, 0, 0, 0x10, 0, 0]);
    bad.extend_from_slice(&wire[..3]);
    let r = link.frontend_to_backend(Some(&bad));
    assert_eq!(r.chunks.len(), 2);
    assert_eq!(r.chunks[0].payload(), &[1, 2]);
    assert!(r.chunks[1].is_end());
    assert_eq!(
        r.dropped,
        vec![
            Error::InvalidChunkSize(1601),
            Error::InvalidChunkType(Some(0x10))
        ]
    );
    assert!(!r.disconnect);
    // what was left over is kept for the bytes that follow
    let r = link.frontend_to_backend(Some(&wire[3..]));
    assert_eq!(r.chunks.len(), 1);
    assert_eq!(r.chunks[0].payload(), &[1, 2]);
    assert!(r.dropped.is_empty() && !r.disconnect);

    // a read that failed ends the link, and what was left over goes
    link.frontend_to_backend(Some(&wire[..5]));
    let r = link.frontend_to_backend(None);
    assert!(r.chunks.is_empty() && r.dropped.is_empty() && r.disconnect);
    let r = link.frontend_to_backend(Some(&wire));
    assert_eq!(r.chunks.len(), 1);
}

#[test]
fn libraries_are_tried_in_order() {
    assert_eq!(
        Instance::candidates(false),
        vec![Instance::Citrix, Instance::Horizon, Instance::Xrdp]
    );
    assert_eq!(
        Instance::candidates(true),
        vec![
            Instance::Citrix,
            Instance::Horizon,
            Instance::Windows,
            Instance::Xrdp
        ]
    );
    assert_eq!(Instance::Citrix.library(), "wfapi64");
    assert_eq!(Instance::Horizon.library(), "vdp_rdpvcbridge");
    assert_eq!(Instance::Windows.library(), "wtsapi32");
    assert_eq!(Instance::Xrdp.library(), "xrdpapi");
}

#[test]
fn a_write_that_took_nothing_is_made_again() {
    assert_eq!(after_write(true, 1600, 1600), AfterWrite::Written(1600));
    assert_eq!(after_write(true, 0, 0), AfterWrite::Written(0));
    assert_eq!(after_write(true, 0, 1600), AfterWrite::Retry);
    assert_eq!(after_write(false, 0, 1600), AfterWrite::Retry);
    assert_eq!(after_write(true, 100, 1600), AfterWrite::Failed);
    assert_eq!(after_write(false, 1600, 1600), AfterWrite::Failed);
}

#[test]
fn channels_have_their_bit() {
    assert_eq!(channel_mask(0), 1);
    assert_eq!(channel_mask(5), 32);
    assert_eq!(channel_mask(31), 0x8000_0000);
    assert_eq!(channel_mask(32), 1);
    assert_eq!(channel_mask(37), 32);
}
