use webxr_api::{
    Discovery, Error, MainThreadRegistry, MainThreadSession, MockDiscovery, SessionBuilder,
    SessionId, SessionMode,
};

/// A backend that answers from fixed settings.
struct FakeDiscovery {
    name: &'static str,
    modes: Vec<SessionMode>,
    grants: bool,
    resident: Option<u32>,
}

fn fake(name: &'static str, modes: Vec<SessionMode>, grants: bool) -> FakeDiscovery {
    FakeDiscovery { name, modes, grants, resident: None }
}

impl Discovery<(String, SessionId, u32), FakeSession, u32> for FakeDiscovery {
    fn supports_session(&self, mode: SessionMode) -> bool {
        self.modes.contains(&mode)
    }

    fn request_session(
        &mut self,
        mode: SessionMode,
        xr: &mut SessionBuilder<FakeSession, u32>,
    ) -> Result<(String, SessionId, u32), Error> {
        if !self.grants || !self.modes.contains(&mode) {
            return Err(Error::NoMatchingDevice);
        }
        if let Some(frames) = self.resident {
            xr.run_on_main_thread(FakeSession { frames_left: frames });
        }
        Ok((self.name.to_string(), xr.id(), *xr.frame_sender()))
    }
}

struct FakeMock {
    connects: bool,
}

impl MockDiscovery<FakeDiscovery, Vec<SessionMode>, &'static str> for FakeMock {
    fn simulate_device_connection(
        &mut self,
        init: &Vec<SessionMode>,
    ) -> Result<(FakeDiscovery, &'static str), Error> {
        if self.connects {
            Ok((fake("mock", init.clone(), true), "control"))
        } else {
            Err(Error::NoMatchingDevice)
        }
    }
}

/// A main-thread session that runs for a fixed number of ticks.
struct FakeSession {
    frames_left: u32,
}

impl MainThreadSession for FakeSession {
    fn run_one_frame(&mut self) {
        self.frames_left = self.frames_left.saturating_sub(1);
    }

    fn running(&self) -> bool {
        self.frames_left > 0
    }
}

type Reg = MainThreadRegistry<FakeDiscovery, FakeMock, FakeSession, u32>;

#[test]
fn failing_discovery_is_skipped_for_the_next() {
    let mut reg: Reg = MainThreadRegistry::new(77);
    reg.register(fake("first", vec![SessionMode::ImmersiveVR], false));
    reg.register(fake("second", vec![SessionMode::ImmersiveVR], true));
    let r = reg.request_session(SessionMode::ImmersiveVR);
    assert_eq!(r.unwrap().0, "second");
}

#[test]
fn no_discovery_grants_gives_no_matching_device() {
    let mut reg: Reg = MainThreadRegistry::new(77);
    reg.register(fake("first", vec![SessionMode::Inline], true));
    let r = reg.request_session(SessionMode::ImmersiveAR);
    assert!(matches!(r, Err(Error::NoMatchingDevice)));
    let mut empty: Reg = MainThreadRegistry::new(77);
    assert!(matches!(empty.request_session(SessionMode::Inline), Err(Error::NoMatchingDevice)));
}

#[test]
fn granted_sessions_get_fresh_ids() {
    let mut reg: Reg = MainThreadRegistry::new(77);
    reg.register(fake("only", vec![SessionMode::Inline], true));
    let a = reg.request_session(SessionMode::Inline).unwrap().1;
    let b = reg.request_session(SessionMode::Inline).unwrap().1;
    assert_eq!(a, SessionId(0));
    assert_eq!(b, SessionId(1));
}

#[test]
fn support_query_is_first_match() {
    let mut reg: Reg = MainThreadRegistry::new(77);
    reg.register(fake("a", vec![SessionMode::Inline], true));
    reg.register(fake("b", vec![SessionMode::ImmersiveAR], false));
    assert!(reg.supports_session(SessionMode::ImmersiveAR).is_ok());
    assert!(reg.supports_session(SessionMode::Inline).is_ok());
    assert!(matches!(reg.supports_session(SessionMode::ImmersiveVR), Err(Error::NoMatchingDevice)));
}

#[test]
fn simulated_device_is_asked_before_real_ones() {
    let mut reg: Reg = MainThreadRegistry::new(77);
    reg.register(fake("real", vec![SessionMode::ImmersiveVR], true));
    reg.register_mock(FakeMock { connects: false });
    reg.register_mock(FakeMock { connects: true });
    let control = reg.simulate_device_connection(&vec![SessionMode::ImmersiveVR]);
    assert_eq!(control.unwrap(), "control");
    let r = reg.request_session(SessionMode::ImmersiveVR);
    assert_eq!(r.unwrap().0, "mock");
}

#[test]
fn simulation_without_connecting_mock_fails() {
    let mut reg: Reg = MainThreadRegistry::new(77);
    reg.register(fake("real", vec![SessionMode::ImmersiveVR], true));
    reg.register_mock(FakeMock { connects: false });
    let control = reg.simulate_device_connection(&vec![SessionMode::ImmersiveVR]);
    assert!(matches!(control, Err(Error::NoMatchingDevice)));
    assert_eq!(reg.request_session(SessionMode::ImmersiveVR).unwrap().0, "real");
}

#[test]
fn main_thread_sessions_are_stepped_and_dropped_when_done() {
    let mut reg: Reg = MainThreadRegistry::new(77);
    let mut d = fake("resident", vec![SessionMode::ImmersiveVR], true);
    d.resident = Some(2);
    reg.register(d);
    assert!(!reg.running());
    reg.request_session(SessionMode::ImmersiveVR).unwrap();
    reg.run_on_main_thread(FakeSession { frames_left: 1 });
    assert!(reg.running());
    reg.run_one_frame();
    assert!(reg.running());
    reg.run_one_frame();
    assert!(!reg.running());
}

#[test]
fn failed_request_registers_no_session() {
    let mut reg: Reg = MainThreadRegistry::new(77);
    let mut d = fake("refuses", vec![SessionMode::Inline], false);
    d.resident = Some(5);
    reg.register(d);
    assert!(reg.request_session(SessionMode::Inline).is_err());
    assert!(!reg.running());
}

#[test]
fn builders_carry_the_registry_frame_sender() {
    let mut reg: Reg = MainThreadRegistry::new(42);
    reg.register(fake("only", vec![SessionMode::Inline], true));
    assert_eq!(reg.request_session(SessionMode::Inline).unwrap().2, 42);
}

#[test]
fn unasked_backends_are_left_alone() {
    let mut reg: Reg = MainThreadRegistry::new(1);
    reg.register(fake("first", vec![SessionMode::Inline], true));
    reg.register(fake("second", vec![SessionMode::Inline], true));
    assert_eq!(reg.request_session(SessionMode::Inline).unwrap().0, "first");
    assert_eq!(reg.request_session(SessionMode::Inline).unwrap().0, "first");
}
