use vstd::prelude::*;

use crate::error::Error;
use crate::session::{SessionBuilder, SessionId, SessionMode};

verus! {

/// A backend's entry point: answers whether it can offer a session of a mode,
/// and tries to create one. `S` is the content-facing session handle; `T` is a
/// session that the backend hands to the registry to be stepped on the main
/// thread; `F` is the sender on which sessions deliver their frames.
pub trait Discovery<S, T, F> {
    /// Whether the backend offers sessions of `mode`; what this is for a
    /// given backend is known only through its answers.
    closed spec fn spec_supports(&self, mode: SessionMode) -> bool {
        arbitrary()
    }

    /// The backend, in this state, may answer a request for a session of
    /// `mode`, made with a builder carrying `id` and `frame_sender`, with
    /// `granted` (the session, or none), having handed `handed` to the builder
    /// to be stepped on the main thread. Known only through `request_session`.
    closed spec fn spec_answers(
        &self,
        mode: SessionMode,
        id: SessionId,
        frame_sender: F,
        granted: Option<S>,
        handed: Seq<T>,
    ) -> bool {
        arbitrary()
    }

    /// Answers without side effects.
    fn supports_session(&self, mode: SessionMode) -> (r: bool)
        ensures
            r == self.spec_supports(mode),
    ;

    /// Tries to create a session; on success the backend may have handed a
    /// main-thread session to `xr`.
    fn request_session(&mut self, mode: SessionMode, xr: &mut SessionBuilder<T, F>) -> (r: Result<
        S,
        Error,
    >)
        requires
            old(xr).resident() == Seq::<T>::empty(),
        ensures
            old(self).spec_answers(
                mode,
                old(xr).spec_id(),
                old(xr).spec_frame_sender(),
                grant_of(r),
                final(xr).resident(),
            ),
    ;
}

/// A backend that can simulate the connection of a device: on success it
/// yields a discovery for the new device and the handle that controls it.
pub trait MockDiscovery<D, I, C> {
    /// The backend, in this state, may answer a simulated connection of the
    /// device described by `init` with `connected` (the new device's discovery
    /// and its control handle, or none). Known only through
    /// `simulate_device_connection`.
    closed spec fn spec_connects(&self, init: I, connected: Option<(D, C)>) -> bool {
        arbitrary()
    }

    fn simulate_device_connection(&mut self, init: &I) -> (r: Result<(D, C), Error>)
        ensures
            old(self).spec_connects(*init, grant_of(r)),
    ;
}

/// The value of a successful answer, or none.
pub open spec fn grant_of<A>(r: Result<A, Error>) -> Option<A> {
    match r {
        Ok(a) => Some(a),
        Err(_) => None,
    }
}

/// A session stepped from the registry's own thread, once per tick.
pub trait MainThreadSession {
    /// Whether the session has yet to end; known only through `running`.
    closed spec fn spec_running(&self) -> bool {
        arbitrary()
    }

    /// `next` is what one step of this session may leave; known only through
    /// `run_one_frame`.
    closed spec fn spec_steps_to(&self, next: &Self) -> bool {
        arbitrary()
    }

    fn run_one_frame(&mut self)
        ensures
            old(self).spec_steps_to(&*final(self)),
    ;

    fn running(&self) -> (r: bool)
        ensures
            r == self.spec_running(),
    ;
}

/// Receives the answer to a support query.
pub trait SessionSupportCallback {
    fn callback(&mut self, result: Result<(), Error>);
}

/// Receives the answer to a session request: the content-facing session `S`.
pub trait SessionRequestCallback<S> {
    fn callback(&mut self, result: Result<S, Error>);
}

/// Receives the answer to a simulated device connection: the handle `C` that
/// controls the new device.
pub trait MockDeviceCallback<C> {
    fn callback(&mut self, result: Result<C, Error>);
}

/// The sessions of `s` that are still running, in order.
pub open spec fn still_running<T: MainThreadSession>(s: Seq<T>) -> Seq<T> {
    s.filter(|t: T| t.spec_running())
}

/// The registry of backends and of main-thread sessions. It lives on one
/// thread; other threads reach it only by messages that its owner hands to
/// these methods. `F` is the shared sender on which sessions deliver frames.
pub struct MainThreadRegistry<D, M, T, F> {
    discoveries: Vec<D>,
    sessions: Vec<T>,
    mocks: Vec<M>,
    frame_sender: F,
    next_id: u32,
}

impl<D, M, T, F> MainThreadRegistry<D, M, T, F> {
    /// The backends, in the order in which they are asked.
    pub closed spec fn discoveries(&self) -> Seq<D> {
        self.discoveries@
    }

    /// The sessions stepped on each tick.
    pub closed spec fn sessions(&self) -> Seq<T> {
        self.sessions@
    }

    /// The backends that can simulate device connections.
    pub closed spec fn mocks(&self) -> Seq<M> {
        self.mocks@
    }

    /// The sender that every builder receives a clone of.
    pub closed spec fn frame_sender(&self) -> F {
        self.frame_sender
    }

    /// The id that the next granted session receives.
    pub closed spec fn next_id(&self) -> u32 {
        self.next_id
    }

    pub fn new(frame_sender: F) -> (r: Self)
        ensures
            r.discoveries() == Seq::<D>::empty(),
            r.sessions() == Seq::<T>::empty(),
            r.mocks() == Seq::<M>::empty(),
            r.frame_sender() == frame_sender,
            r.next_id() == 0,
    {
        MainThreadRegistry {
            discoveries: Vec::new(),
            sessions: Vec::new(),
            mocks: Vec::new(),
            frame_sender,
            next_id: 0,
        }
    }

    /// Adds a backend after those already registered.
    pub fn register(&mut self, discovery: D)
        ensures
            final(self).discoveries() == old(self).discoveries().push(discovery),
            final(self).sessions() == old(self).sessions(),
            final(self).mocks() == old(self).mocks(),
            final(self).frame_sender() == old(self).frame_sender(),
            final(self).next_id() == old(self).next_id(),
    {
        self.discoveries.push(discovery);
    }

    /// Adds a backend that simulates device connections.
    pub fn register_mock(&mut self, discovery: M)
        ensures
            final(self).mocks() == old(self).mocks().push(discovery),
            final(self).discoveries() == old(self).discoveries(),
            final(self).sessions() == old(self).sessions(),
            final(self).frame_sender() == old(self).frame_sender(),
            final(self).next_id() == old(self).next_id(),
    {
        self.mocks.push(discovery);
    }

    /// Adds a session to be stepped on each tick.
    pub fn run_on_main_thread(&mut self, session: T)
        ensures
            final(self).sessions() == old(self).sessions().push(session),
            final(self).discoveries() == old(self).discoveries(),
            final(self).mocks() == old(self).mocks(),
            final(self).frame_sender() == old(self).frame_sender(),
            final(self).next_id() == old(self).next_id(),
    {
        self.sessions.push(session);
    }

    /// Takes in what a granting backend left in its builder: the sessions it
    /// handed over join those stepped on each tick, and the id is used up.
    fn accept_grant(&mut self, xr: SessionBuilder<T, F>)
        requires
            old(self).next_id < u32::MAX,
        ensures
            final(self).sessions@ == old(self).sessions@ + xr.resident(),
            final(self).next_id == old(self).next_id + 1,
            final(self).discoveries == old(self).discoveries,
            final(self).mocks == old(self).mocks,
            final(self).frame_sender == old(self).frame_sender,
    {
        let mut resident = xr.into_resident();
        self.sessions.append(&mut resident);
        self.next_id = self.next_id + 1;
    }
}

/// The answer of one backend during a session request: the frame sender its
/// builder carried, the session it granted (or none), and the main-thread
/// sessions it handed to its builder.
pub type Answer<S, T, F> = (F, Option<S>, Seq<T>);

/// A session request that got the answers `a`, in list order: every backend
/// asked got a fresh builder with the next id and a clone of the frame sender;
/// the scan stopped at the first that granted, and asked all of them
/// otherwise; the backends not asked are untouched. A grant is the result, uses
/// up the id, and the sessions its backend handed over join those stepped on
/// each tick.
pub open spec fn request_scan<D: Discovery<S, T, F>, M, T, F: Clone, S>(
    before: MainThreadRegistry<D, M, T, F>,
    after: MainThreadRegistry<D, M, T, F>,
    mode: SessionMode,
    r: Option<S>,
    a: Seq<Answer<S, T, F>>,
) -> bool {
    let n = before.discoveries().len();
    &&& after.discoveries().len() == n
    &&& forall|i: int| a.len() <= i < n ==> #[trigger] after.discoveries()[i] == before.discoveries()[i]
    &&& after.mocks() == before.mocks()
    &&& after.frame_sender() == before.frame_sender()
    &&& if before.next_id() < u32::MAX {
        &&& a.len() <= n
        &&& forall|j: int|
            0 <= j < a.len() ==> {
                &&& before.discoveries()[j].spec_answers(
                    mode,
                    SessionId(before.next_id()),
                    (#[trigger] a[j]).0,
                    a[j].1,
                    a[j].2,
                )
                &&& cloned(before.frame_sender(), a[j].0)
            }
        &&& forall|j: int| 0 <= j < a.len() - 1 ==> (#[trigger] a[j]).1 is None
        &&& r is Some <==> (a.len() > 0 && a.last().1 is Some)
        &&& r is Some ==> r == a.last().1
        &&& r is None ==> a.len() == n
        &&& after.next_id() == if r is Some {
            (before.next_id() + 1) as u32
        } else {
            before.next_id()
        }
        &&& after.sessions() == if r is Some {
            before.sessions() + a.last().2
        } else {
            before.sessions()
        }
    } else {
        &&& r is None && a.len() == 0
        &&& after.next_id() == before.next_id()
        &&& after.sessions() == before.sessions()
    }
}

/// What a session request did to the registry, whatever the backends answered.
pub open spec fn request_post<D: Discovery<S, T, F>, M, T, F: Clone, S>(
    before: MainThreadRegistry<D, M, T, F>,
    after: MainThreadRegistry<D, M, T, F>,
    mode: SessionMode,
    r: Option<S>,
) -> bool {
    exists|a: Seq<Answer<S, T, F>>| #[trigger] request_scan(before, after, mode, r, a)
}

/// A simulated connection that got the answers `a` from the mock backends, in
/// list order: the scan stopped at the first that connected a device, and
/// asked all of them otherwise; the mocks not asked are untouched. On a
/// connection, that device's discovery now stands before every backend
/// registered earlier, and its handle is the result.
pub open spec fn connection_scan<D, M: MockDiscovery<D, I, C>, T, F, I, C>(
    before: MainThreadRegistry<D, M, T, F>,
    after: MainThreadRegistry<D, M, T, F>,
    init: I,
    r: Option<C>,
    a: Seq<Option<(D, C)>>,
) -> bool {
    let n = before.mocks().len();
    &&& a.len() <= n
    &&& forall|j: int| 0 <= j < a.len() ==> before.mocks()[j].spec_connects(init, #[trigger] a[j])
    &&& forall|j: int| 0 <= j < a.len() - 1 ==> (#[trigger] a[j]) is None
    &&& after.mocks().len() == n
    &&& forall|i: int| a.len() <= i < n ==> #[trigger] after.mocks()[i] == before.mocks()[i]
    &&& after.sessions() == before.sessions()
    &&& after.frame_sender() == before.frame_sender()
    &&& after.next_id() == before.next_id()
    &&& if a.len() > 0 && a.last() is Some {
        &&& r == Some(a.last()->Some_0.1)
        &&& after.discoveries() == seq![a.last()->Some_0.0] + before.discoveries()
    } else {
        &&& r is None && a.len() == n
        &&& after.discoveries() == before.discoveries()
    }
}

/// What a simulated connection did to the registry, whatever the mocks
/// answered.
pub open spec fn connection_post<D, M: MockDiscovery<D, I, C>, T, F, I, C>(
    before: MainThreadRegistry<D, M, T, F>,
    after: MainThreadRegistry<D, M, T, F>,
    init: I,
    r: Option<C>,
) -> bool {
    exists|a: Seq<Option<(D, C)>>| #[trigger] connection_scan(before, after, init, r, a)
}

/// `stepped[i]` is what one step of `sessions[i]` left, for every `i`.
pub open spec fn each_stepped<T: MainThreadSession>(sessions: Seq<T>, stepped: Seq<T>) -> bool {
    &&& stepped.len() == sessions.len()
    &&& forall|i: int| 0 <= i < stepped.len() ==> sessions[i].spec_steps_to(&#[trigger] stepped[i])
}

impl<D, M, T: MainThreadSession, F> MainThreadRegistry<D, M, T, F> {
    /// Whether some registered session is still running.
    pub fn running(&self) -> (r: bool)
        ensures
            r == exists|i: int| 0 <= i < self.sessions().len() && #[trigger] self.sessions()[i].spec_running(),
    {
        let mut i: usize = 0;
        while i < self.sessions.len()
            invariant
                0 <= i <= self.sessions@.len(),
                forall|j: int| 0 <= j < i ==> !#[trigger] self.sessions@[j].spec_running(),
            decreases self.sessions@.len() - i,
        {
            if self.sessions[i].running() {
                assert(self.sessions()[i as int].spec_running());
                return true;
            }
            i = i + 1;
        }
        false
    }

    /// Steps every registered session once, in order, then drops those that
    /// are no longer running.
    pub fn run_one_frame(&mut self)
        ensures
            exists|stepped: Seq<T>|
                each_stepped(old(self).sessions(), stepped) && final(self).sessions()
                    == #[trigger] still_running(stepped),
            forall|i: int|
                0 <= i < final(self).sessions().len() ==> #[trigger] final(self).sessions()[i].spec_running(),
            final(self).discoveries() == old(self).discoveries(),
            final(self).mocks() == old(self).mocks(),
            final(self).frame_sender() == old(self).frame_sender(),
            final(self).next_id() == old(self).next_id(),
    {
        let mut rest: Vec<T> = Vec::new();
        std::mem::swap(&mut rest, &mut self.sessions);
        let ghost orig = rest@;
        let ghost n = rest@.len();
        let ghost stepped: Seq<T> = Seq::empty();
        let mut kept: Vec<T> = Vec::new();
        while rest.len() > 0
            invariant
                stepped.len() + rest@.len() == n,
                n == orig.len(),
                rest@ == orig.subrange(stepped.len() as int, n as int),
                forall|i: int| 0 <= i < stepped.len() ==> orig[i].spec_steps_to(&#[trigger] stepped[i]),
                kept@ == still_running(stepped),
                forall|i: int| 0 <= i < kept@.len() ==> #[trigger] kept@[i].spec_running(),
            decreases rest@.len(),
        {
            let ghost k = stepped.len();
            let mut t = rest.remove(0);
            assert(t == orig[k as int]);
            let ghost t0 = t;
            t.run_one_frame();
            proof {
                stepped.lemma_filter_push(t, |t: T| t.spec_running());
                stepped = stepped.push(t);
                assert(rest@ =~= orig.subrange(stepped.len() as int, n as int));
                assert forall|i: int| 0 <= i < stepped.len() implies orig[i].spec_steps_to(
                    &#[trigger] stepped[i],
                ) by {
                    if i == k {
                        assert(t0.spec_steps_to(&t));
                    }
                }
            }
            if t.running() {
                kept.push(t);
            }
        }
        self.sessions = kept;
        assert(each_stepped(old(self).sessions(), stepped) && self.sessions@ == still_running(stepped));
    }
}

impl<D, M, T, F: Clone> MainThreadRegistry<D, M, T, F> {
    /// Answers whether some registered backend offers sessions of `mode`.
    pub fn supports_session<S>(&self, mode: SessionMode) -> (r: Result<(), Error>) where
        D: Discovery<S, T, F>,

        ensures
            r is Ok <==> exists|i: int|
                0 <= i < self.discoveries().len() && #[trigger] self.discoveries()[i].spec_supports(mode),
            r is Err ==> r->Err_0 is NoMatchingDevice,
    {
        let mut i: usize = 0;
        while i < self.discoveries.len()
            invariant
                0 <= i <= self.discoveries@.len(),
                forall|j: int| 0 <= j < i ==> !#[trigger] self.discoveries@[j].spec_supports(mode),
            decreases self.discoveries@.len() - i,
        {
            if self.discoveries[i].supports_session(mode) {
                assert(self.discoveries()[i as int].spec_supports(mode));
                return Ok(());
            }
            i = i + 1;
        }
        Err(Error::NoMatchingDevice)
    }

    /// Asks the backends in list order for a session of `mode`, each with a
    /// fresh builder carrying the next id and a clone of the frame sender; a
    /// backend's failure means trying the next one. Fails with
    /// `NoMatchingDevice` when none grants it.
    pub fn request_session<S>(&mut self, mode: SessionMode) -> (r: Result<S, Error>) where
        D: Discovery<S, T, F>,

        ensures
            request_post(*old(self), *final(self), mode, grant_of(r)),
            r is Err ==> r->Err_0 is NoMatchingDevice,
    {
        if self.next_id == u32::MAX {
            assert(request_scan(*self, *self, mode, None, Seq::<Answer<S, T, F>>::empty()));
            return Err(Error::NoMatchingDevice);
        }
        let id = SessionId(self.next_id);
        let ghost before = *self;
        let ghost answers: Seq<Answer<S, T, F>> = Seq::empty();
        let mut granted: Option<S> = None;
        let mut i: usize = 0;
        while i < self.discoveries.len() && granted.is_none()
            invariant
                0 <= i <= self.discoveries@.len(),
                answers.len() == i,
                self.discoveries@.len() == before.discoveries@.len(),
                forall|j: int|
                    i <= j < before.discoveries@.len() ==> #[trigger] self.discoveries@[j]
                        == before.discoveries@[j],
                self.mocks == before.mocks,
                self.frame_sender == before.frame_sender,
                before.next_id < u32::MAX,
                id == SessionId(before.next_id),
                forall|j: int|
                    0 <= j < answers.len() ==> {
                        &&& before.discoveries@[j].spec_answers(
                            mode,
                            id,
                            (#[trigger] answers[j]).0,
                            answers[j].1,
                            answers[j].2,
                        )
                        &&& cloned(before.frame_sender, answers[j].0)
                    },
                forall|j: int| 0 <= j < answers.len() - 1 ==> (#[trigger] answers[j]).1 is None,
                granted is None ==> forall|j: int| 0 <= j < i ==> (#[trigger] answers[j]).1 is None,
                granted is None ==> self.sessions == before.sessions,
                granted is None ==> self.next_id == before.next_id,
                granted is Some ==> {
                    &&& i > 0 && answers.last().1 == granted
                    &&& self.next_id == before.next_id + 1
                    &&& self.sessions@ == before.sessions@ + answers.last().2
                },
            decreases self.discoveries@.len() - i,
        {
            let frame_sender = self.frame_sender.clone();
            assert(cloned(self.frame_sender, frame_sender));
            let mut xr: SessionBuilder<T, F> = SessionBuilder::new(id, frame_sender);
            let answer = self.discoveries[i].request_session(mode, &mut xr);
            proof {
                answers = answers.push((frame_sender, grant_of(answer), xr.resident()));
            }
            match answer {
                Ok(session) => {
                    self.accept_grant(xr);
                    granted = Some(session);
                },
                Err(_) => {},
            }
            i = i + 1;
        }
        assert(request_scan(before, *self, mode, granted, answers));
        match granted {
            Some(session) => Ok(session),
            None => Err(Error::NoMatchingDevice),
        }
    }

    /// Asks the mock backends in list order to simulate a device connection.
    /// The first that connects one has the new device's discovery put at the
    /// front of the list, so that it is asked before every backend registered
    /// earlier; the caller receives the handle that controls the device.
    pub fn simulate_device_connection<I, C>(&mut self, init: &I) -> (r: Result<C, Error>) where
        M: MockDiscovery<D, I, C>,

        ensures
            connection_post(*old(self), *final(self), *init, grant_of(r)),
            r is Err ==> r->Err_0 is NoMatchingDevice,
    {
        let ghost before = *self;
        let ghost answers: Seq<Option<(D, C)>> = Seq::empty();
        let mut control: Option<C> = None;
        let mut i: usize = 0;
        while i < self.mocks.len() && control.is_none()
            invariant
                0 <= i <= self.mocks@.len(),
                answers.len() == i,
                self.mocks@.len() == before.mocks@.len(),
                forall|j: int| i <= j < before.mocks@.len() ==> #[trigger] self.mocks@[j] == before.mocks@[j],
                self.sessions == before.sessions,
                self.frame_sender == before.frame_sender,
                self.next_id == before.next_id,
                forall|j: int| 0 <= j < answers.len() ==> before.mocks@[j].spec_connects(*init, #[trigger] answers[j]),
                forall|j: int| 0 <= j < answers.len() - 1 ==> (#[trigger] answers[j]) is None,
                control is None ==> self.discoveries == before.discoveries,
                control is None ==> forall|j: int| 0 <= j < i ==> (#[trigger] answers[j]) is None,
                control is Some ==> {
                    &&& i > 0 && answers.last() is Some
                    &&& control == Some(answers.last()->Some_0.1)
                    &&& self.discoveries@ == seq![answers.last()->Some_0.0] + before.discoveries@
                },
            decreases self.mocks@.len() - i,
        {
            let answer = self.mocks[i].simulate_device_connection(init);
            proof {
                answers = answers.push(grant_of(answer));
            }
            match answer {
                Ok((discovery, handle)) => {
                    self.discoveries.insert(0, discovery);
                    assert(self.discoveries@ =~= seq![answers.last()->Some_0.0] + before.discoveries@);
                    control = Some(handle);
                },
                Err(_) => {},
            }
            i = i + 1;
        }
        assert(connection_scan(before, *self, *init, control, answers));
        match control {
            Some(handle) => Ok(handle),
            None => Err(Error::NoMatchingDevice),
        }
    }
}

/// After a simulated connection succeeds, the next session request asks the
/// new device's discovery first, with the next id; when that discovery grants
/// the session, its session is the result and no backend registered earlier
/// is asked at all.
pub proof fn lemma_mock_asked_first<D: Discovery<S, T, F>, M: MockDiscovery<D, I, C>, T, F: Clone, S, I, C>(
    r0: MainThreadRegistry<D, M, T, F>,
    r1: MainThreadRegistry<D, M, T, F>,
    r2: MainThreadRegistry<D, M, T, F>,
    init: I,
    control: C,
    mode: SessionMode,
    r: Option<S>,
)
    requires
        connection_post(r0, r1, init, Some(control)),
        request_post(r1, r2, mode, r),
        r1.next_id() < u32::MAX,
    ensures
        exists|j: int|
            0 <= j < r0.mocks().len() && #[trigger] r0.mocks()[j].spec_connects(
                init,
                Some((r1.discoveries()[0], control)),
            ),
        exists|fs: F, g: Option<S>, h: Seq<T>|
            #[trigger] r1.discoveries()[0].spec_answers(mode, SessionId(r1.next_id()), fs, g, h) && (
            g is Some ==> {
                &&& r == g
                &&& r2.sessions() == r1.sessions() + h
                &&& forall|i: int|
                    1 <= i < r2.discoveries().len() ==> #[trigger] r2.discoveries()[i]
                        == r1.discoveries()[i]
            }),
{
    let b = choose|b: Seq<Option<(D, C)>>| #[trigger] connection_scan(r0, r1, init, Some(control), b);
    let a = choose|a: Seq<Answer<S, T, F>>| #[trigger] request_scan(r1, r2, mode, r, a);
    let k = b.len() - 1;
    let d = b.last()->Some_0.0;
    assert(b[k] == b.last());
    assert(r1.discoveries()[0] == d);
    assert(r0.mocks()[k].spec_connects(init, b[k]));
    assert(a.len() >= 1);
    assert(r1.discoveries()[0].spec_answers(mode, SessionId(r1.next_id()), a[0].0, a[0].1, a[0].2));
    if a[0].1 is Some {
        assert(a.len() == 1);
        assert(a.last() == a[0]);
    }
}

/// A granted request uses up its id: the next request hands its backends a
/// different one.
pub proof fn lemma_granted_ids_fresh<D: Discovery<S, T, F>, M, T, F: Clone, S>(
    r0: MainThreadRegistry<D, M, T, F>,
    r1: MainThreadRegistry<D, M, T, F>,
    mode: SessionMode,
    s: S,
)
    requires
        r0.next_id() < u32::MAX,
        request_post(r0, r1, mode, Some(s)),
    ensures
        SessionId(r1.next_id()) != SessionId(r0.next_id()),
{
    let a = choose|a: Seq<Answer<S, T, F>>| #[trigger] request_scan(r0, r1, mode, Some(s), a);
}

} // verus!
