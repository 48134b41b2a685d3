use vstd::prelude::*;

verus! {

/// The kinds of control message a session's worker handles. Their payloads
/// (an event destination, clip planes) are carried by the driver and
/// handed to the device when the pump answers `Forward`.
#[derive(Clone, Copy, Debug, PartialEq, Eq, Structural)]
pub enum SessionMsgKind {
    SetEventDest,
    UpdateClipPlanes,
    StartRenderLoop,
    RenderAnimationFrame,
    Quit,
}

/// What the driver of a session hands to the pump: a control message, or the
/// outcome of the device's blocking wait for the next animation frame.
#[derive(Clone, Copy, Debug, PartialEq, Eq, Structural)]
pub enum PumpEvent {
    Message(SessionMsgKind),
    FrameReady,
    FramesExhausted,
}

/// What the driver must do in answer to an event.
#[derive(Clone, Copy, Debug, PartialEq, Eq, Structural)]
pub enum PumpAction {
    /// Hand the message's payload to the device; no frame is involved.
    Forward,
    /// Block on the device for the next animation frame.
    WaitForFrame,
    /// Render the device's current frame, then block for the next one.
    RenderThenWait,
    /// Send the frame that the device produced to the subscribed consumer.
    DeliverFrame,
    /// Tell the device to quit; the session ends.
    QuitDevice,
    /// The device produced no more frames; the session ends without error.
    Stop,
    /// Nothing to do: the session has ended, or the event is out of turn.
    Ignore,
}

/// The abstract state of a frame pump.
pub struct PumpModel {
    pub frame_count: nat,
    pub running: bool,
    pub awaiting_frame: bool,
}

impl PumpModel {
    /// A session that has ended waits for no frame.
    pub open spec fn wf(self) -> bool {
        !self.running ==> !self.awaiting_frame
    }

    /// While a frame is awaited only the outcome of the wait is taken; in
    /// between, only control messages are.
    pub open spec fn accepts(self, e: PumpEvent) -> bool {
        self.running && (self.awaiting_frame <==> !(e is Message))
    }
}

/// One transition of the frame pump.
pub open spec fn next(m: PumpModel, e: PumpEvent) -> (PumpModel, PumpAction) {
    if !m.accepts(e) {
        (m, PumpAction::Ignore)
    } else {
        match e {
            PumpEvent::Message(kind) => match kind {
                SessionMsgKind::StartRenderLoop => (
                    PumpModel { awaiting_frame: true, ..m },
                    PumpAction::WaitForFrame,
                ),
                SessionMsgKind::RenderAnimationFrame => (
                    PumpModel { frame_count: m.frame_count + 1, awaiting_frame: true, ..m },
                    PumpAction::RenderThenWait,
                ),
                SessionMsgKind::Quit => (PumpModel { running: false, ..m }, PumpAction::QuitDevice),
                _ => (m, PumpAction::Forward),
            },
            PumpEvent::FrameReady => (
                PumpModel { awaiting_frame: false, ..m },
                PumpAction::DeliverFrame,
            ),
            PumpEvent::FramesExhausted => (
                PumpModel { running: false, awaiting_frame: false, ..m },
                PumpAction::Stop,
            ),
        }
    }
}

/// The state after taking `events` in order.
pub open spec fn after(m: PumpModel, events: Seq<PumpEvent>) -> PumpModel
    decreases events.len(),
{
    if events.len() == 0 {
        m
    } else {
        after(next(m, events[0]).0, events.drop_first())
    }
}

/// The actions answered to `events`, in order.
pub open spec fn actions(m: PumpModel, events: Seq<PumpEvent>) -> Seq<PumpAction>
    decreases events.len(),
{
    if events.len() == 0 {
        Seq::empty()
    } else {
        seq![next(m, events[0]).1] + actions(next(m, events[0]).0, events.drop_first())
    }
}

/// A main-thread step goes on while a frame is awaited, or while the session
/// runs and has not yet advanced past `start`.
pub open spec fn keeps_stepping(m: PumpModel, start: nat) -> bool {
    m.awaiting_frame || (m.running && m.frame_count == start)
}

/// The state in which one main-thread step that began at frame `start` ends,
/// when the events that arrive before the timeout are `events`.
pub open spec fn step_once(m: PumpModel, start: nat, events: Seq<PumpEvent>) -> PumpModel
    decreases events.len(),
{
    if events.len() == 0 || !keeps_stepping(m, start) {
        m
    } else {
        step_once(next(m, events[0]).0, start, events.drop_first())
    }
}

/// The decisions of one session's worker: which device call each control
/// message leads to, how many animation frames have been rendered, and when the
/// session ends.
pub struct FramePump {
    frame_count: u64,
    running: bool,
    awaiting_frame: bool,
}

impl View for FramePump {
    type V = PumpModel;

    closed spec fn view(&self) -> PumpModel {
        PumpModel {
            frame_count: self.frame_count as nat,
            running: self.running,
            awaiting_frame: self.awaiting_frame,
        }
    }
}

impl FramePump {
    /// A running session that has rendered no frame and waits for none.
    pub fn new() -> (r: FramePump)
        ensures
            r@ == (PumpModel { frame_count: 0, running: true, awaiting_frame: false }),
            r@.wf(),
    {
        FramePump { frame_count: 0, running: true, awaiting_frame: false }
    }

    pub fn frame_count(&self) -> (r: u64)
        ensures
            r as nat == self@.frame_count,
    {
        self.frame_count
    }

    pub fn running(&self) -> (r: bool)
        ensures
            r == self@.running,
    {
        self.running
    }

    pub fn awaiting_frame(&self) -> (r: bool)
        ensures
            r == self@.awaiting_frame,
    {
        self.awaiting_frame
    }

    /// Whether `event` is taken in the current state, rather than ignored.
    pub fn accepts(&self, event: PumpEvent) -> (r: bool)
        ensures
            r == self@.accepts(event),
    {
        let is_message = match event {
            PumpEvent::Message(_) => true,
            _ => false,
        };
        self.running && (self.awaiting_frame == !is_message)
    }

    /// Whether a main-thread step that began at frame `start` goes on.
    pub fn keeps_stepping(&self, start: u64) -> (r: bool)
        ensures
            r == keeps_stepping(self@, start as nat),
    {
        self.awaiting_frame || (self.running && self.frame_count == start)
    }

    /// Takes one event and answers the action that the driver must perform.
    /// A render request counts one more frame.
    pub fn step(&mut self, event: PumpEvent) -> (r: PumpAction)
        requires
            event == PumpEvent::Message(SessionMsgKind::RenderAnimationFrame) ==> old(self)@.frame_count
                < u64::MAX,
        ensures
            (final(self)@, r) == next(old(self)@, event),
            old(self)@.wf() ==> final(self)@.wf(),
    {
        if !self.accepts(event) {
            return PumpAction::Ignore;
        }
        match event {
            PumpEvent::Message(kind) => match kind {
                SessionMsgKind::StartRenderLoop => {
                    self.awaiting_frame = true;
                    PumpAction::WaitForFrame
                },
                SessionMsgKind::RenderAnimationFrame => {
                    self.frame_count = self.frame_count + 1;
                    self.awaiting_frame = true;
                    PumpAction::RenderThenWait
                },
                SessionMsgKind::Quit => {
                    self.running = false;
                    PumpAction::QuitDevice
                },
                _ => PumpAction::Forward,
            },
            PumpEvent::FrameReady => {
                self.awaiting_frame = false;
                PumpAction::DeliverFrame
            },
            PumpEvent::FramesExhausted => {
                self.running = false;
                self.awaiting_frame = false;
                PumpAction::Stop
            },
        }
    }
}

/// Every transition keeps a pump well formed.
pub proof fn lemma_next_wf(m: PumpModel, e: PumpEvent)
    requires
        m.wf(),
    ensures
        next(m, e).0.wf(),
{
}

/// The frame count never decreases, and grows by one for each render request
/// taken, whatever the events.
pub proof fn lemma_frame_count_monotone(m: PumpModel, events: Seq<PumpEvent>)
    ensures
        after(m, events).frame_count >= m.frame_count,
        forall|e: PumpEvent|
            #[trigger] next(m, e).0.frame_count == m.frame_count + if m.accepts(e) && e
                == PumpEvent::Message(SessionMsgKind::RenderAnimationFrame) {
                1int
            } else {
                0int
            },
    decreases events.len(),
{
    if events.len() > 0 {
        lemma_frame_count_monotone(next(m, events[0]).0, events.drop_first());
    }
}

/// A render request counts exactly one more frame and makes the pump wait; the
/// only event taken after it is the outcome of that wait, and a produced frame
/// is delivered before any further message is handled.
pub proof fn lemma_render_then_deliver(m: PumpModel, e: PumpEvent)
    requires
        m.wf(),
        m.running,
        !m.awaiting_frame,
    ensures
        ({
            let (m1, a1) = next(m, PumpEvent::Message(SessionMsgKind::RenderAnimationFrame));
            &&& a1 == PumpAction::RenderThenWait
            &&& m1.frame_count == m.frame_count + 1
            &&& m1.running && m1.awaiting_frame
            &&& e is Message ==> next(m1, e) == (m1, PumpAction::Ignore)
            &&& next(m1, PumpEvent::FrameReady) == (
                PumpModel { awaiting_frame: false, ..m1 },
                PumpAction::DeliverFrame,
            )
        }),
{
}

/// Once a session has ended, whatever arrives is ignored: no frame is
/// delivered and the device is asked for nothing.
pub proof fn lemma_ended_ignores_all(m: PumpModel, events: Seq<PumpEvent>)
    requires
        !m.running,
    ensures
        after(m, events) == m,
        actions(m, events).len() == events.len(),
        forall|i: int| 0 <= i < events.len() ==> #[trigger] actions(m, events)[i] == PumpAction::Ignore,
    decreases events.len(),
{
    if events.len() > 0 {
        lemma_ended_ignores_all(m, events.drop_first());
        assert(next(m, events[0]).0 == m);
        assert forall|i: int| 0 <= i < events.len() implies #[trigger] actions(m, events)[i]
            == PumpAction::Ignore by {
            if i > 0 {
                assert(actions(m, events)[i] == actions(m, events.drop_first())[i - 1]);
            }
        }
    }
}

/// A quit message handled between frames asks the device to quit and ends the
/// session; nothing that arrives afterwards produces a frame.
pub proof fn lemma_quit_ends_session(m: PumpModel, later: Seq<PumpEvent>)
    requires
        m.wf(),
        m.running,
        !m.awaiting_frame,
    ensures
        ({
            let (m1, a1) = next(m, PumpEvent::Message(SessionMsgKind::Quit));
            &&& a1 == PumpAction::QuitDevice
            &&& !m1.running
            &&& forall|i: int| 0 <= i < later.len() ==> #[trigger] actions(m1, later)[i]
                != PumpAction::DeliverFrame
        }),
{
    let m1 = next(m, PumpEvent::Message(SessionMsgKind::Quit)).0;
    lemma_ended_ignores_all(m1, later);
}

/// Taking `a` and then `b` is taking `a + b`.
pub proof fn lemma_after_concat(m: PumpModel, a: Seq<PumpEvent>, b: Seq<PumpEvent>)
    ensures
        after(m, a + b) == after(after(m, a), b),
        actions(m, a + b) == actions(m, a) + actions(after(m, a), b),
    decreases a.len(),
{
    if a.len() == 0 {
        assert(a + b =~= b);
        assert(actions(m, a) + actions(after(m, a), b) =~= actions(m, b));
    } else {
        let m1 = next(m, a[0]).0;
        assert((a + b).drop_first() =~= a.drop_first() + b);
        assert((a + b)[0] == a[0]);
        lemma_after_concat(m1, a.drop_first(), b);
        assert(actions(m, a + b) =~= actions(m, a) + actions(after(m, a), b));
    }
}

/// `n` render requests, each followed by the frame that its wait produced.
pub open spec fn render_rounds(n: nat) -> Seq<PumpEvent>
    decreases n,
{
    if n == 0 {
        Seq::empty()
    } else {
        render_rounds((n - 1) as nat) + seq![
            PumpEvent::Message(SessionMsgKind::RenderAnimationFrame),
            PumpEvent::FrameReady,
        ]
    }
}

/// The answers owed to `render_rounds(n)`: render then wait, then deliver, `n`
/// times over.
pub open spec fn delivered_rounds(n: nat) -> Seq<PumpAction>
    decreases n,
{
    if n == 0 {
        Seq::empty()
    } else {
        delivered_rounds((n - 1) as nat) + seq![PumpAction::RenderThenWait, PumpAction::DeliverFrame]
    }
}

/// Pumping `n` frames counts exactly `n` frames and delivers each frame before
/// the next render request is taken; a quit that follows asks the device to
/// quit and ends the session.
pub proof fn lemma_pump_then_quit(m: PumpModel, n: nat)
    requires
        m.wf(),
        m.running,
        !m.awaiting_frame,
    ensures
        after(m, render_rounds(n)) == (PumpModel { frame_count: m.frame_count + n, ..m }),
        actions(m, render_rounds(n)) == delivered_rounds(n),
        ({
            let events = render_rounds(n).push(PumpEvent::Message(SessionMsgKind::Quit));
            &&& after(m, events) == (PumpModel {
                frame_count: m.frame_count + n,
                running: false,
                awaiting_frame: false,
            })
            &&& actions(m, events) == delivered_rounds(n).push(PumpAction::QuitDevice)
        }),
    decreases n,
{
    let round = seq![
        PumpEvent::Message(SessionMsgKind::RenderAnimationFrame),
        PumpEvent::FrameReady,
    ];
    if n > 0 {
        lemma_pump_then_quit(m, (n - 1) as nat);
        let mid = after(m, render_rounds((n - 1) as nat));
        lemma_after_concat(m, render_rounds((n - 1) as nat), round);
        let m1 = next(mid, round[0]).0;
        assert(round.drop_first().drop_first() =~= Seq::<PumpEvent>::empty());
        assert(round.drop_first()[0] == PumpEvent::FrameReady);
        let rd = round.drop_first();
        let m2 = next(m1, rd[0]).0;
        assert(next(mid, round[0]).1 == PumpAction::RenderThenWait);
        assert(next(m1, rd[0]).1 == PumpAction::DeliverFrame);
        assert(actions(m2, rd.drop_first()) == Seq::<PumpAction>::empty());
        assert(actions(m1, rd) == seq![next(m1, rd[0]).1] + actions(m2, rd.drop_first()));
        assert(actions(mid, round) == seq![next(mid, round[0]).1] + actions(m1, rd));
        assert(after(m2, rd.drop_first()) == m2);
        assert(after(mid, round) == after(m1, rd));
        assert(actions(mid, round) =~= seq![PumpAction::RenderThenWait, PumpAction::DeliverFrame]);
    }
    let quit = seq![PumpEvent::Message(SessionMsgKind::Quit)];
    lemma_after_concat(m, render_rounds(n), quit);
    assert(render_rounds(n).push(PumpEvent::Message(SessionMsgKind::Quit)) =~= render_rounds(n) + quit);
    let end = after(m, render_rounds(n));
    assert(quit.drop_first() =~= Seq::<PumpEvent>::empty());
    let e1 = next(end, quit[0]).0;
    assert(actions(e1, quit.drop_first()) == Seq::<PumpAction>::empty());
    assert(after(e1, quit.drop_first()) == e1);
    assert(actions(end, quit) == seq![next(end, quit[0]).1] + actions(e1, quit.drop_first()));
    assert(actions(end, quit) =~= seq![PumpAction::QuitDevice]);
    assert(delivered_rounds(n) + seq![PumpAction::QuitDevice] =~= delivered_rounds(n).push(
        PumpAction::QuitDevice,
    ));
}

/// One main-thread step advances the frame count by at most one, whatever
/// events arrive before it returns.
pub proof fn lemma_step_once_bounded(m: PumpModel, events: Seq<PumpEvent>)
    requires
        m.wf(),
    ensures
        m.frame_count <= step_once(m, m.frame_count, events).frame_count <= m.frame_count + 1,
{
    lemma_step_once_bounded_from(m, m.frame_count, events);
}

/// A main-thread step on a session that has ended takes no event and leaves
/// the pump as it was.
pub proof fn lemma_ended_step_takes_nothing(m: PumpModel, start: nat, events: Seq<PumpEvent>)
    requires
        m.wf(),
        !m.running,
    ensures
        !keeps_stepping(m, start),
        step_once(m, start, events) == m,
{
}

proof fn lemma_step_once_bounded_from(m: PumpModel, start: nat, events: Seq<PumpEvent>)
    requires
        m.wf(),
        start <= m.frame_count <= start + 1,
    ensures
        start <= step_once(m, start, events).frame_count <= start + 1,
    decreases events.len(),
{
    if events.len() > 0 && keeps_stepping(m, start) {
        lemma_next_wf(m, events[0]);
        lemma_step_once_bounded_from(next(m, events[0]).0, start, events.drop_first());
    }
}

} // verus!
