use webxr_api::{FramePump, PumpAction, PumpEvent, SessionMsgKind};

fn msg(kind: SessionMsgKind) -> PumpEvent {
    PumpEvent::Message(kind)
}

#[test]
fn new_pump_is_running_and_idle() {
    let p = FramePump::new();
    assert_eq!(p.frame_count(), 0);
    assert!(p.running());
    assert!(!p.awaiting_frame());
}

#[test]
fn render_counts_one_frame_and_delivers_before_next_message() {
    let mut p = FramePump::new();
    assert_eq!(p.step(msg(SessionMsgKind::StartRenderLoop)), PumpAction::WaitForFrame);
    assert_eq!(p.step(PumpEvent::FrameReady), PumpAction::DeliverFrame);
    for n in 1..=3u64 {
        assert_eq!(p.step(msg(SessionMsgKind::RenderAnimationFrame)), PumpAction::RenderThenWait);
        assert_eq!(p.frame_count(), n);
        assert!(p.awaiting_frame());
        assert!(!p.accepts(msg(SessionMsgKind::RenderAnimationFrame)));
        assert_eq!(p.step(msg(SessionMsgKind::RenderAnimationFrame)), PumpAction::Ignore);
        assert_eq!(p.frame_count(), n);
        assert_eq!(p.step(PumpEvent::FrameReady), PumpAction::DeliverFrame);
        assert!(!p.awaiting_frame());
    }
}

#[test]
fn forwarded_messages_leave_frames_alone() {
    let mut p = FramePump::new();
    assert_eq!(p.step(msg(SessionMsgKind::SetEventDest)), PumpAction::Forward);
    assert_eq!(p.step(msg(SessionMsgKind::UpdateClipPlanes)), PumpAction::Forward);
    assert_eq!(p.frame_count(), 0);
    assert!(p.running());
    assert!(!p.awaiting_frame());
}

#[test]
fn quit_ends_session_and_no_frame_follows() {
    let mut p = FramePump::new();
    p.step(msg(SessionMsgKind::RenderAnimationFrame));
    p.step(PumpEvent::FrameReady);
    assert_eq!(p.step(msg(SessionMsgKind::Quit)), PumpAction::QuitDevice);
    assert!(!p.running());
    for e in [
        msg(SessionMsgKind::RenderAnimationFrame),
        PumpEvent::FrameReady,
        msg(SessionMsgKind::StartRenderLoop),
        msg(SessionMsgKind::Quit),
    ] {
        assert_eq!(p.step(e), PumpAction::Ignore);
    }
    assert_eq!(p.frame_count(), 1);
}

#[test]
fn exhausted_device_stops_without_error() {
    let mut p = FramePump::new();
    p.step(msg(SessionMsgKind::RenderAnimationFrame));
    assert_eq!(p.step(PumpEvent::FramesExhausted), PumpAction::Stop);
    assert!(!p.running());
    assert!(!p.awaiting_frame());
    assert_eq!(p.step(PumpEvent::FrameReady), PumpAction::Ignore);
}

#[test]
fn main_thread_step_stops_after_one_frame() {
    let mut p = FramePump::new();
    let start = p.frame_count();
    let events = [
        msg(SessionMsgKind::SetEventDest),
        msg(SessionMsgKind::RenderAnimationFrame),
        PumpEvent::FrameReady,
        msg(SessionMsgKind::RenderAnimationFrame),
        PumpEvent::FrameReady,
    ];
    let mut taken = 0;
    for e in events {
        if !p.keeps_stepping(start) {
            break;
        }
        p.step(e);
        taken += 1;
    }
    assert_eq!(taken, 3);
    assert_eq!(p.frame_count(), start + 1);
    assert!(!p.keeps_stepping(start));
}

#[test]
fn main_thread_step_keeps_going_while_frame_awaited() {
    let mut p = FramePump::new();
    p.step(msg(SessionMsgKind::RenderAnimationFrame));
    assert!(p.keeps_stepping(0));
    p.step(PumpEvent::FrameReady);
    assert!(!p.keeps_stepping(0));
    assert!(p.keeps_stepping(1));
}
