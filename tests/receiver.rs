use libvpuppr::receiver::{
    ChannelEvent, Endpoint, Phase, PollAction, Receiver, StartOutcome, StartPlan, Status,
    StopAction, KEEP_ALIVE_REQUEST, LOCAL_PORT,
};

fn endpoint() -> Endpoint {
    Endpoint { address: u32::from_be_bytes([192, 168, 1, 2]), port: 21412 }
}

#[test]
fn stop_before_start_is_unavailable() {
    let mut r = Receiver::new(Some(endpoint()));
    let a = r.stop();
    assert_eq!(a, StopAction { status: Status::Unavailable, join_worker: false });
    assert_eq!(r.phase, Phase::Created);
}

#[test]
fn start_plan_and_second_start_refused() {
    let mut r = Receiver::new(Some(endpoint()));
    let plan = r.start().unwrap();
    assert_eq!(plan, StartPlan { local_port: 21412, remote: endpoint(), read_timeout_ms: 100 });
    assert_eq!(r.start_finished(StartOutcome::Ready), Status::Success);
    assert_eq!(r.phase, Phase::Running);
    assert_eq!(r.start(), Err(Status::AlreadyRunning));
}

#[test]
fn unconfigured_start_refused() {
    let r = Receiver::new(None);
    assert_eq!(r.start(), Err(Status::Unconfigured));
}

#[test]
fn failed_setups_keep_receiver_stopped() {
    for (o, s) in [
        (StartOutcome::BindFailed, Status::CantConnect),
        (StartOutcome::SetBlockingFailed, Status::CantCreate),
        (StartOutcome::ConnectFailed, Status::CantConnect),
    ] {
        let mut r = Receiver::new(Some(endpoint()));
        assert!(r.start().is_ok());
        assert_eq!(r.start_finished(o), s);
        assert_eq!(r.phase, Phase::Created);
    }
}

#[test]
fn stop_after_start_joins_then_restart() {
    let mut r = Receiver::new(Some(endpoint()));
    r.start().unwrap();
    r.start_finished(StartOutcome::Ready);
    assert_eq!(r.stop(), StopAction { status: Status::Success, join_worker: true });
    assert_eq!(r.phase, Phase::Stopped);
    assert_eq!(r.stop(), StopAction { status: Status::Unavailable, join_worker: false });
    assert!(r.start().is_ok());
}

#[test]
fn poll_events() {
    let mut r = Receiver::new(Some(endpoint()));
    r.start().unwrap();
    r.start_finished(StartOutcome::Ready);
    assert_eq!(r.poll(ChannelEvent::Empty), PollAction::Nothing);
    assert_eq!(r.poll(ChannelEvent::Frame), PollAction::Apply);
    assert_eq!(
        r.poll(ChannelEvent::Disconnected),
        PollAction::Stop(StopAction { status: Status::Success, join_worker: true })
    );
    assert_eq!(r.phase, Phase::Stopped);
}

#[test]
fn keep_alive_request_names_the_port() {
    assert_eq!(LOCAL_PORT, 21412);
    assert!(KEEP_ALIVE_REQUEST.contains("\"messageType\": \"iOSTrackingDataRequest\""));
    assert!(KEEP_ALIVE_REQUEST.contains("\"ports\": [21412]"));
}
