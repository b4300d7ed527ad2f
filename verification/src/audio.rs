use vstd::prelude::*;

use crate::protocol::SPECTRUM_BAND_COUNT;
use crate::text::concat;
use crate::track::Track;

verus! {

/// Why an audio backend refused an operation.
#[derive(Debug)]
pub enum BackendError {
    Unavailable(String),
    Failed(String),
}

/// The text a user sees for each backend error.
pub open spec fn backend_error_text(error: BackendError) -> Seq<char> {
    match error {
        BackendError::Unavailable(detail) => "audio backend is unavailable: "@ + detail@,
        BackendError::Failed(detail) => "audio backend failed: "@ + detail@,
    }
}

impl BackendError {
    /// The human-readable description of the error.
    pub fn message(&self) -> (text: String)
        ensures
            text@ == backend_error_text(*self),
    {
        match self {
            BackendError::Unavailable(detail) => concat("audio backend is unavailable: ", detail.as_str()),
            BackendError::Failed(detail) => concat("audio backend failed: ", detail.as_str()),
        }
    }
}

/// Why the player refused an operation.
#[derive(Debug)]
pub enum PlayerError {
    Backend(BackendError),
    InvalidState(&'static str),
}

/// What a backend reports about the sound it is making.
#[derive(Clone, Copy, Debug, PartialEq, Eq)]
pub struct BackendTelemetry {
    pub position_ms: u64,
    pub duration_ms: u64,
    pub buffered_ms: u64,
    pub underrun_count: u64,
    pub spectrum: [u8; 24],
    pub ended: bool,
}

impl Default for BackendTelemetry {
    fn default() -> (telemetry: BackendTelemetry)
        ensures
            telemetry.position_ms == 0,
            telemetry.duration_ms == 0,
            telemetry.buffered_ms == 0,
            telemetry.underrun_count == 0,
            !telemetry.ended,
            forall|i: int| 0 <= i < SPECTRUM_BAND_COUNT ==> telemetry.spectrum[i] == 0,
    {
        BackendTelemetry {
            position_ms: 0,
            duration_ms: 0,
            buffered_ms: 0,
            underrun_count: 0,
            spectrum: [0u8; 24],
            ended: false,
        }
    }
}

/// Where audio comes from: a URL or a local path, and the HTTP headers to send.
#[derive(Debug)]
pub struct StreamSource {
    pub url: String,
    pub headers: Vec<(String, String)>,
}

impl StreamSource {
    /// A source at `url` with no headers.
    pub fn new(url: &str) -> (source: StreamSource)
        ensures
            source.url@ == url@,
            source.headers@.len() == 0,
    {
        StreamSource { url: url.to_owned(), headers: Vec::new() }
    }

    /// The same source with one more header at the end.
    pub fn with_header(self, name: &str, value: &str) -> (source: StreamSource)
        ensures
            source.url == self.url,
            source.headers@.len() == self.headers@.len() + 1,
            source.headers@.subrange(0, self.headers@.len() as int) == self.headers@,
            source.headers@.last().0@ == name@,
            source.headers@.last().1@ == value@,
    {
        let mut headers = self.headers;
        let ghost before = headers@;
        headers.push((name.to_owned(), value.to_owned()));
        assert(headers@.subrange(0, before.len() as int) =~= before);
        StreamSource { url: self.url, headers }
    }
}

/// A track and where to stream it from.
#[derive(Debug)]
pub struct QueueItem {
    pub track: Track,
    pub source: StreamSource,
}

impl QueueItem {
    pub fn new(track: Track, source: StreamSource) -> (item: QueueItem)
        ensures
            item.track == track,
            item.source == source,
    {
        QueueItem { track, source }
    }
}

/// Crossfade settings.
#[derive(Clone, Copy, Debug, PartialEq, Eq, Structural)]
pub struct CrossfadeConfig {
    pub enabled: bool,
    pub duration_ms: u64,
    pub trim_silence: bool,
}

impl Default for CrossfadeConfig {
    /// Crossfading is on, lasts six seconds, and trims silence.
    fn default() -> (config: CrossfadeConfig)
        ensures
            config == (CrossfadeConfig { enabled: true, duration_ms: 6000, trim_silence: true }),
    {
        CrossfadeConfig { enabled: true, duration_ms: 6000, trim_silence: true }
    }
}

/// Something that can play one stream at a time. Implementations are the user's:
/// nothing is assumed of what they return.
pub trait AudioBackend {
    fn load(&mut self, source: &StreamSource) -> Result<(), BackendError>;

    fn play(&mut self) -> Result<(), BackendError>;

    fn pause(&mut self) -> Result<(), BackendError>;

    fn stop(&mut self) -> Result<(), BackendError>;

    /// Jumps to `position_ms`; backends without seeking refuse.
    fn seek(&mut self, position_ms: u64) -> (result: Result<(), BackendError>)
        default_ensures
            result matches Err(BackendError::Unavailable(m)) && m@ == "seeking is not supported"@,
    {
        Err(BackendError::Unavailable("seeking is not supported".to_owned()))
    }

    /// The backend's report; by default, silence at the start.
    fn telemetry(&self) -> (telemetry: BackendTelemetry)
        default_ensures
            telemetry.position_ms == 0,
            telemetry.duration_ms == 0,
            telemetry.buffered_ms == 0,
            telemetry.underrun_count == 0,
            !telemetry.ended,
            forall|i: int| 0 <= i < SPECTRUM_BAND_COUNT ==> telemetry.spectrum[i] == 0,
    {
        BackendTelemetry::default()
    }
}

/// A call the library makes on a backend.
pub enum BackendCall {
    Stop,
    Load(StreamSource),
    Play,
    Pause,
}

/// What the library saw while driving a backend: a guard's answer, or a call with
/// what it returned.
pub enum BackendEvent {
    Asked(bool),
    Called(BackendCall, Result<(), BackendError>),
}

/// The outcome of the last call in `events`.
pub open spec fn last_outcome(events: Seq<BackendEvent>) -> Result<(), BackendError> {
    match events.last() {
        BackendEvent::Called(_, outcome) => outcome,
        BackendEvent::Asked(_) => Ok(()),
    }
}

/// Whether `after` is `before` with one more `call`, whatever it returned.
pub open spec fn called(before: Seq<BackendEvent>, after: Seq<BackendEvent>, call: BackendCall) -> bool {
    after == before.push(BackendEvent::Called(call, last_outcome(after)))
}

fn logged_stop<B: AudioBackend>(backend: &mut B, log: &mut Ghost<Seq<BackendEvent>>) -> (outcome: Result<(), BackendError>)
    ensures
        final(log)@ == old(log)@.push(BackendEvent::Called(BackendCall::Stop, outcome)),
{
    let outcome = backend.stop();
    proof {
        log@ = log@.push(BackendEvent::Called(BackendCall::Stop, outcome));
    }
    outcome
}

fn logged_load<B: AudioBackend>(backend: &mut B, source: &StreamSource, log: &mut Ghost<Seq<BackendEvent>>) -> (outcome: Result<(), BackendError>)
    ensures
        final(log)@ == old(log)@.push(BackendEvent::Called(BackendCall::Load(*source), outcome)),
{
    let outcome = backend.load(source);
    proof {
        log@ = log@.push(BackendEvent::Called(BackendCall::Load(*source), outcome));
    }
    outcome
}

fn logged_play<B: AudioBackend>(backend: &mut B, log: &mut Ghost<Seq<BackendEvent>>) -> (outcome: Result<(), BackendError>)
    ensures
        final(log)@ == old(log)@.push(BackendEvent::Called(BackendCall::Play, outcome)),
{
    let outcome = backend.play();
    proof {
        log@ = log@.push(BackendEvent::Called(BackendCall::Play, outcome));
    }
    outcome
}

fn logged_pause<B: AudioBackend>(backend: &mut B, log: &mut Ghost<Seq<BackendEvent>>) -> (outcome: Result<(), BackendError>)
    ensures
        final(log)@ == old(log)@.push(BackendEvent::Called(BackendCall::Pause, outcome)),
{
    let outcome = backend.pause();
    proof {
        log@ = log@.push(BackendEvent::Called(BackendCall::Pause, outcome));
    }
    outcome
}

/// How far a transition has got.
#[derive(Clone, Copy, Debug, PartialEq, Eq, Structural)]
pub enum TransitionPhase {
    Begin,
    Stopped,
    Loaded,
    Played,
}

/// What a transition does next.
#[derive(Clone, Copy, Debug, PartialEq, Eq, Structural)]
pub enum TransitionAction {
    Stop,
    Load,
    Play,
    /// Stop again and return what stopping returns.
    StopAndFinish,
    /// Return success.
    Finish,
}

/// A transition stops, loads and plays, asking the guard before each step and
/// once more at the end. Told no before anything is loaded it just finishes; told
/// no after loading or playing it stops again.
pub open spec fn transition_step_view(phase: TransitionPhase, answer: bool) -> TransitionAction {
    match phase {
        TransitionPhase::Begin => if answer { TransitionAction::Stop } else { TransitionAction::Finish },
        TransitionPhase::Stopped => if answer { TransitionAction::Load } else { TransitionAction::Finish },
        TransitionPhase::Loaded => if answer { TransitionAction::Play } else { TransitionAction::StopAndFinish },
        TransitionPhase::Played => if answer { TransitionAction::Finish } else { TransitionAction::StopAndFinish },
    }
}

/// The next step of a transition in `phase` whose guard answered `answer`.
pub fn transition_step(phase: TransitionPhase, answer: bool) -> (action: TransitionAction)
    ensures
        action == transition_step_view(phase, answer),
{
    match phase {
        TransitionPhase::Begin => if answer { TransitionAction::Stop } else { TransitionAction::Finish },
        TransitionPhase::Stopped => if answer { TransitionAction::Load } else { TransitionAction::Finish },
        TransitionPhase::Loaded => if answer { TransitionAction::Play } else { TransitionAction::StopAndFinish },
        TransitionPhase::Played => if answer { TransitionAction::Finish } else { TransitionAction::StopAndFinish },
    }
}

/// How many steps a transition in `phase` may still take.
pub open spec fn phase_rank(phase: TransitionPhase) -> nat {
    match phase {
        TransitionPhase::Begin => 3,
        TransitionPhase::Stopped => 2,
        TransitionPhase::Loaded => 1,
        TransitionPhase::Played => 0,
    }
}

/// Whether `events` is a transition from `phase` to `source` that returned
/// `result`: each guard answer is followed by the step it calls for, a failing
/// call ends the transition with its error, and a cancellation after loading or
/// playing ends with what stopping again returned.
pub open spec fn transition_events(events: Seq<BackendEvent>, phase: TransitionPhase, source: StreamSource, result: Result<(), BackendError>) -> bool
    decreases events.len(),
{
    if events.len() == 0 {
        false
    } else {
        match events[0] {
            BackendEvent::Called(..) => false,
            BackendEvent::Asked(answer) => match transition_step_view(phase, answer) {
                TransitionAction::Finish => events.len() == 1 && result is Ok,
                TransitionAction::StopAndFinish => events.len() == 2 && events[1] == BackendEvent::Called(
                    BackendCall::Stop,
                    result,
                ),
                TransitionAction::Stop => step_events(events, BackendCall::Stop, TransitionPhase::Stopped, source, result),
                TransitionAction::Load => step_events(events, BackendCall::Load(source), TransitionPhase::Loaded, source, result),
                TransitionAction::Play => step_events(events, BackendCall::Play, TransitionPhase::Played, source, result),
            },
        }
    }
}

/// Whether `events`, after its guard answer, calls `call`, and either ends there
/// with the call's error or goes on as a transition from `next`.
pub open spec fn step_events(
    events: Seq<BackendEvent>,
    call: BackendCall,
    next: TransitionPhase,
    source: StreamSource,
    result: Result<(), BackendError>,
) -> bool
    decreases events.len(), 0nat,
{
    events.len() >= 2 && match events[1] {
        BackendEvent::Called(c, outcome) => c == call && match outcome {
            Err(_) => events.len() == 2 && result == outcome,
            Ok(()) => transition_events(events.subrange(2, events.len() as int), next, source, result),
        },
        BackendEvent::Asked(_) => false,
    }
}

/// Whether every guard answer in `events` is one `should_continue` may give.
pub open spec fn answers_from<F: Fn() -> bool>(events: Seq<BackendEvent>, should_continue: F) -> bool {
    forall|i: int| 0 <= i < events.len() && #[trigger] events[i] is Asked ==> should_continue.ensures((), events[i]->Asked_0)
}

/// Runs a transition from `phase`, recording each guard answer and backend call in
/// `log`.
pub fn transition_from<B: AudioBackend, F: Fn() -> bool>(
    backend: &mut B,
    source: &StreamSource,
    should_continue: &F,
    phase: TransitionPhase,
    log: &mut Ghost<Seq<BackendEvent>>,
) -> (result: Result<(), BackendError>)
    requires
        forall|| #[trigger] should_continue.requires(()),
    ensures
        old(log)@.len() <= final(log)@.len(),
        final(log)@.subrange(0, old(log)@.len() as int) == old(log)@,
        transition_events(final(log)@.subrange(old(log)@.len() as int, final(log)@.len() as int), phase, *source, result),
        answers_from(final(log)@.subrange(old(log)@.len() as int, final(log)@.len() as int), *should_continue),
        final(log)@.len() == old(log)@.len() + 1 ==> *final(backend) == *old(backend),
    decreases phase_rank(phase),
{
    let ghost start = log@;
    let answer = should_continue();
    proof {
        log@ = log@.push(BackendEvent::Asked(answer));
    }
    let ghost asked = log@;
    let action = transition_step(phase, answer);
    let (outcome, next) = match action {
        TransitionAction::Finish => {
            assert(log@.subrange(start.len() as int, log@.len() as int) =~= seq![BackendEvent::Asked(answer)]);
            assert(log@.subrange(0, start.len() as int) =~= start);
            return Ok(());
        },
        TransitionAction::StopAndFinish => {
            let result = logged_stop(backend, log);
            assert(log@.subrange(start.len() as int, log@.len() as int) =~= seq![
                BackendEvent::Asked(answer),
                BackendEvent::Called(BackendCall::Stop, result),
            ]);
            assert(log@.subrange(0, start.len() as int) =~= start);
            return result;
        },
        TransitionAction::Stop => (logged_stop(backend, log), TransitionPhase::Stopped),
        TransitionAction::Load => (logged_load(backend, source, log), TransitionPhase::Loaded),
        TransitionAction::Play => (logged_play(backend, log), TransitionPhase::Played),
    };
    let ghost called_log = log@;
    assert(called_log.subrange(0, start.len() as int) =~= start);
    if outcome.is_err() {
        assert(called_log.subrange(start.len() as int, called_log.len() as int) =~= seq![
            BackendEvent::Asked(answer),
            called_log.last(),
        ]);
        return outcome;
    }
    let result = transition_from(backend, source, should_continue, next, log);
    proof {
        let head = called_log.subrange(start.len() as int, called_log.len() as int);
        let rest = log@.subrange(called_log.len() as int, log@.len() as int);
        let whole = log@.subrange(start.len() as int, log@.len() as int);
        assert(head =~= seq![BackendEvent::Asked(answer), called_log.last()]);
        assert(whole =~= head + rest);
        assert(whole.subrange(2, whole.len() as int) =~= rest);
        assert(whole[0] == BackendEvent::Asked(answer));
        assert(whole[1] == called_log.last());
        assert(log@.subrange(0, start.len() as int) =~= start) by {
            assert(log@.subrange(0, called_log.len() as int) == called_log);
            assert(log@.subrange(0, start.len() as int) =~= called_log.subrange(0, start.len() as int));
        }
        assert forall|i: int| 0 <= i < whole.len() && #[trigger] whole[i] is Asked implies should_continue.ensures((), whole[i]->Asked_0) by {
            if i >= 2 {
                assert(whole[i] == rest[i - 2]);
            }
        }
    }
    result
}

/// When every guard answer is yes and every call works, a transition stops the
/// backend, loads `source`, plays it, and succeeds.
pub proof fn lemma_transition_stops_loads_and_plays(events: Seq<BackendEvent>, source: StreamSource, result: Result<(), BackendError>)
    requires
        transition_events(events, TransitionPhase::Begin, source, result),
        forall|i: int| 0 <= i < events.len() && #[trigger] events[i] is Asked ==> events[i]->Asked_0,
        forall|i: int| 0 <= i < events.len() && #[trigger] events[i] is Called ==> events[i]->Called_1 is Ok,
    ensures
        result is Ok,
        events == seq![
            BackendEvent::Asked(true),
            BackendEvent::Called(BackendCall::Stop, Ok(())),
            BackendEvent::Asked(true),
            BackendEvent::Called(BackendCall::Load(source), Ok(())),
            BackendEvent::Asked(true),
            BackendEvent::Called(BackendCall::Play, Ok(())),
            BackendEvent::Asked(true),
        ],
{
    assert(events.len() > 0 && events[0] is Asked);
    assert(events[0] == BackendEvent::Asked(true));
    assert(step_events(events, BackendCall::Stop, TransitionPhase::Stopped, source, result));
    assert(events[1] is Called && events[1]->Called_1 is Ok);
    assert(events[1]->Called_0 == BackendCall::Stop);
    assert(events[1]->Called_1 == Ok::<(), BackendError>(())) by {
        if let Ok(unit) = events[1]->Called_1 {
            assert(unit == ());
        }
    }
    assert(events[1] == BackendEvent::Called(BackendCall::Stop, Ok(())));
    let e2 = events.subrange(2, events.len() as int);
    assert(transition_events(e2, TransitionPhase::Stopped, source, result));
    assert(e2[0] == events[2] && events[2] is Asked);
    assert(e2[0] == BackendEvent::Asked(true));
    assert(step_events(e2, BackendCall::Load(source), TransitionPhase::Loaded, source, result));
    assert(e2[1] == events[3] && events[3] is Called && events[3]->Called_1 is Ok);
    assert(events[3]->Called_0 == BackendCall::Load(source));
    assert(events[3]->Called_1 == Ok::<(), BackendError>(())) by {
        if let Ok(unit) = events[3]->Called_1 {
            assert(unit == ());
        }
    }
    assert(events[3] == BackendEvent::Called(BackendCall::Load(source), Ok(())));
    let e4 = e2.subrange(2, e2.len() as int);
    assert(transition_events(e4, TransitionPhase::Loaded, source, result));
    assert(e4[0] == events[4] && events[4] is Asked);
    assert(e4[0] == BackendEvent::Asked(true));
    assert(step_events(e4, BackendCall::Play, TransitionPhase::Played, source, result));
    assert(e4[1] == events[5] && events[5] is Called && events[5]->Called_1 is Ok);
    assert(events[5]->Called_0 == BackendCall::Play);
    assert(events[5]->Called_1 == Ok::<(), BackendError>(())) by {
        if let Ok(unit) = events[5]->Called_1 {
            assert(unit == ());
        }
    }
    assert(events[5] == BackendEvent::Called(BackendCall::Play, Ok(())));
    let e6 = e4.subrange(2, e4.len() as int);
    assert(transition_events(e6, TransitionPhase::Played, source, result));
    assert(e6[0] == events[6] && events[6] is Asked);
    assert(e6[0] == BackendEvent::Asked(true));
    assert(e6.len() == 1);
    assert(events.len() == 7);
    assert(events =~= seq![
        BackendEvent::Asked(true),
        BackendEvent::Called(BackendCall::Stop, Ok(())),
        BackendEvent::Asked(true),
        BackendEvent::Called(BackendCall::Load(source), Ok(())),
        BackendEvent::Asked(true),
        BackendEvent::Called(BackendCall::Play, Ok(())),
        BackendEvent::Asked(true),
    ]);
}

/// A transition whose guard only ever says no makes no call and succeeds.
pub proof fn lemma_refused_transition_makes_no_call(events: Seq<BackendEvent>, source: StreamSource, result: Result<(), BackendError>)
    requires
        transition_events(events, TransitionPhase::Begin, source, result),
        forall|i: int| 0 <= i < events.len() && #[trigger] events[i] is Asked ==> !events[i]->Asked_0,
    ensures
        result is Ok,
        events == seq![BackendEvent::Asked(false)],
{
    assert(events[0] is Asked);
    assert(events =~= seq![BackendEvent::Asked(false)]);
}

/// Switches `backend` to `source`: stop, load, play, asking `should_continue`
/// before each step and once more at the end, and stopping again when it says no
/// after loading or playing. Returns the first error a step reports, or what the
/// final stop returns. A transition cancelled before it starts leaves the backend
/// untouched. The calls are the ones `transition_from` records.
pub fn transition_to_guarded<B: AudioBackend, F: Fn() -> bool>(
    backend: &mut B,
    source: &StreamSource,
    should_continue: &F,
) -> (result: Result<(), BackendError>)
    requires
        forall|| #[trigger] should_continue.requires(()),
    ensures
        (forall|answer: bool| should_continue.ensures((), answer) ==> !answer) ==> result is Ok
            && *final(backend) == *old(backend),
        exists|events: Seq<BackendEvent>| #[trigger] transition_events(events, TransitionPhase::Begin, *source, result)
            && answers_from(events, *should_continue),
{
    let mut log: Ghost<Seq<BackendEvent>> = Ghost(Seq::empty());
    let result = transition_from(backend, source, should_continue, TransitionPhase::Begin, &mut log);
    proof {
        assert(log@.subrange(0, log@.len() as int) =~= log@);
        let events = log@;
        assert(transition_events(events, TransitionPhase::Begin, *source, result));
        if forall|answer: bool| should_continue.ensures((), answer) ==> !answer {
            assert(events[0] is Asked);
            assert(should_continue.ensures((), events[0]->Asked_0));
        }
    }
    result
}

/// Switches `backend` to `source` without a way to cancel: stop, load and play,
/// ending at the first step that fails.
pub fn transition_to<B: AudioBackend>(backend: &mut B, source: &StreamSource) -> (result: Result<(), BackendError>)
    ensures
        exists|events: Seq<BackendEvent>| #[trigger] transition_events(events, TransitionPhase::Begin, *source, result)
            && (forall|i: int| 0 <= i < events.len() && #[trigger] events[i] is Asked ==> events[i]->Asked_0),
{
    let always = || -> (answer: bool)
        ensures
            answer,
    { true };
    let result = transition_to_guarded(backend, source, &always);
    proof {
        let events = choose|events: Seq<BackendEvent>| #[trigger] transition_events(events, TransitionPhase::Begin, *source, result)
            && answers_from(events, always);
        assert(transition_events(events, TransitionPhase::Begin, *source, result));
    }
    result
}

/// The state a simple player is in.
#[derive(Clone, Copy, Debug, PartialEq, Eq, Structural)]
pub enum PlayerState {
    Idle,
    Buffering,
    Playing,
    Paused,
    Ended,
}

impl Default for PlayerState {
    fn default() -> (state: PlayerState)
        ensures
            state == PlayerState::Idle,
    {
        PlayerState::Idle
    }
}

/// The abstract state of a player: its waiting items, the item loaded, and its state.
pub struct PlayerView {
    pub queue: Seq<QueueItem>,
    pub current: Option<QueueItem>,
    pub state: PlayerState,
}

/// A queue of items played one after another on a single backend.
pub struct Player<B> {
    backend: B,
    queue: Vec<QueueItem>,
    current: Option<QueueItem>,
    state: PlayerState,
    log: Ghost<Seq<BackendEvent>>,
}

impl<B> Player<B> {
    /// The backend the player drives.
    pub closed spec fn backend_of(&self) -> B {
        self.backend
    }

    /// Every call the player has made on its backend, with what it returned.
    pub closed spec fn calls(&self) -> Seq<BackendEvent> {
        self.log@
    }
}

impl<B> View for Player<B> {
    type V = PlayerView;

    closed spec fn view(&self) -> PlayerView {
        PlayerView { queue: self.queue@, current: self.current, state: self.state }
    }
}

/// The state after the first waiting item has been loaded: it leaves the queue
/// and becomes current, and the player buffers it.
pub open spec fn after_load(p: PlayerView) -> PlayerView {
    PlayerView { queue: p.queue.drop_first(), current: Some(p.queue[0]), state: PlayerState::Buffering }
}

/// The state when nothing is left to play.
pub open spec fn after_end(p: PlayerView) -> PlayerView {
    PlayerView { current: None, state: PlayerState::Ended, ..p }
}

/// Whether a player in `before`, having made the calls `calls_before`, starts its
/// next item as `after` with the calls `calls_after` and `result`: with nothing
/// queued it ends without a call; otherwise it loads the first item's source, and
/// that item becomes current when loading works, while a failed load leaves it
/// as it was and returns the backend's error.
pub open spec fn starts_next(
    before: PlayerView,
    after: PlayerView,
    calls_before: Seq<BackendEvent>,
    calls_after: Seq<BackendEvent>,
    result: Result<(), PlayerError>,
) -> bool {
    if before.queue.len() == 0 {
        result is Ok && after == after_end(before) && calls_after == calls_before
    } else {
        &&& called(calls_before, calls_after, BackendCall::Load(before.queue[0].source))
        &&& match last_outcome(calls_after) {
            Ok(()) => result is Ok && after == after_load(before),
            Err(error) => result == Err::<(), PlayerError>(PlayerError::Backend(error)) && after == before,
        }
    }
}

/// Whether a player in `before` made one more `call` and, when it worked, moved to
/// `state`; a failure leaves it as it was and returns the backend's error.
pub open spec fn switches_state(
    before: PlayerView,
    after: PlayerView,
    calls_before: Seq<BackendEvent>,
    calls_after: Seq<BackendEvent>,
    call: BackendCall,
    state: PlayerState,
    result: Result<(), PlayerError>,
) -> bool {
    &&& called(calls_before, calls_after, call)
    &&& match last_outcome(calls_after) {
        Ok(()) => result is Ok && after == (PlayerView { state, ..before }),
        Err(error) => result == Err::<(), PlayerError>(PlayerError::Backend(error)) && after == before,
    }
}

impl<B: AudioBackend> Player<B> {
    /// An idle player with nothing queued.
    pub fn new(backend: B) -> (player: Player<B>)
        ensures
            player@.queue.len() == 0,
            player@.current is None,
            player@.state == PlayerState::Idle,
            player.calls().len() == 0,
            player.backend_of() == backend,
    {
        Player { backend, queue: Vec::new(), current: None, state: PlayerState::Idle, log: Ghost(Seq::empty()) }
    }

    pub fn state(&self) -> (state: PlayerState)
        ensures
            state == self@.state,
    {
        self.state
    }

    pub fn current(&self) -> (item: Option<&QueueItem>)
        ensures
            match self@.current {
                Some(c) => item matches Some(i) && *i == c,
                None => item is None,
            },
    {
        match &self.current {
            Some(item) => Some(item),
            None => None,
        }
    }

    pub fn backend(&self) -> (backend: &B)
        ensures
            *backend == self.backend_of(),
    {
        &self.backend
    }

    /// Puts `item` at the end of the queue.
    pub fn enqueue(&mut self, item: QueueItem)
        ensures
            final(self)@ == (PlayerView { queue: old(self)@.queue.push(item), ..old(self)@ }),
            final(self).calls() == old(self).calls(),
            final(self).backend_of() == old(self).backend_of(),
    {
        self.queue.push(item);
    }

    /// Loads the first waiting item; with none left, the player has ended. When the
    /// backend cannot load, queue, current item and state stay as they were.
    fn start_next(&mut self) -> (result: Result<(), PlayerError>)
        ensures
            starts_next(old(self)@, final(self)@, old(self).calls(), final(self).calls(), result),
            old(self)@.queue.len() == 0 ==> final(self).backend_of() == old(self).backend_of(),
    {
        if self.queue.len() == 0 {
            self.current = None;
            self.state = PlayerState::Ended;
            return Ok(());
        }
        match logged_load(&mut self.backend, &self.queue[0].source, &mut self.log) {
            Ok(()) => {},
            Err(error) => return Err(PlayerError::Backend(error)),
        }
        let item = self.queue.remove(0);
        self.current = Some(item);
        self.state = PlayerState::Buffering;
        Ok(())
    }

    /// Starts the next item when idle or ended, resumes when paused, and does
    /// nothing while buffering or playing. Resuming never reloads the stream.
    pub fn play(&mut self) -> (result: Result<(), PlayerError>)
        ensures
            (old(self)@.state == PlayerState::Idle || old(self)@.state == PlayerState::Ended) ==> starts_next(
                old(self)@,
                final(self)@,
                old(self).calls(),
                final(self).calls(),
                result,
            ),
            old(self)@.state == PlayerState::Paused ==> switches_state(
                old(self)@,
                final(self)@,
                old(self).calls(),
                final(self).calls(),
                BackendCall::Play,
                PlayerState::Playing,
                result,
            ),
            (old(self)@.state == PlayerState::Buffering || old(self)@.state == PlayerState::Playing)
                ==> result is Ok && final(self)@ == old(self)@ && final(self).calls() == old(self).calls(),
            (old(self)@.state == PlayerState::Buffering || old(self)@.state == PlayerState::Playing || ((old(self)@.state
                == PlayerState::Idle || old(self)@.state == PlayerState::Ended) && old(self)@.queue.len() == 0))
                ==> final(self).backend_of() == old(self).backend_of(),
    {
        match self.state {
            PlayerState::Idle | PlayerState::Ended => self.start_next(),
            PlayerState::Paused => {
                match logged_play(&mut self.backend, &mut self.log) {
                    Ok(()) => {},
                    Err(error) => return Err(PlayerError::Backend(error)),
                }
                self.state = PlayerState::Playing;
                Ok(())
            },
            PlayerState::Buffering | PlayerState::Playing => Ok(()),
        }
    }

    /// Starts playing the buffered item; refused unless the player is buffering.
    pub fn mark_ready(&mut self) -> (result: Result<(), PlayerError>)
        ensures
            old(self)@.state != PlayerState::Buffering ==> (result matches Err(PlayerError::InvalidState(m)) && m@
                == "not buffering"@) && final(self)@ == old(self)@ && final(self).backend_of() == old(self).backend_of()
                && final(self).calls() == old(self).calls(),
            old(self)@.state == PlayerState::Buffering ==> switches_state(
                old(self)@,
                final(self)@,
                old(self).calls(),
                final(self).calls(),
                BackendCall::Play,
                PlayerState::Playing,
                result,
            ),
    {
        if self.state != PlayerState::Buffering {
            return Err(PlayerError::InvalidState("not buffering"));
        }
        match logged_play(&mut self.backend, &mut self.log) {
            Ok(()) => {},
            Err(error) => return Err(PlayerError::Backend(error)),
        }
        self.state = PlayerState::Playing;
        Ok(())
    }

    /// Pauses playback; refused unless the player is playing.
    pub fn pause(&mut self) -> (result: Result<(), PlayerError>)
        ensures
            old(self)@.state != PlayerState::Playing ==> (result matches Err(PlayerError::InvalidState(m)) && m@
                == "not playing"@) && final(self)@ == old(self)@ && final(self).backend_of() == old(self).backend_of()
                && final(self).calls() == old(self).calls(),
            old(self)@.state == PlayerState::Playing ==> switches_state(
                old(self)@,
                final(self)@,
                old(self).calls(),
                final(self).calls(),
                BackendCall::Pause,
                PlayerState::Paused,
                result,
            ),
    {
        if self.state != PlayerState::Playing {
            return Err(PlayerError::InvalidState("not playing"));
        }
        match logged_pause(&mut self.backend, &mut self.log) {
            Ok(()) => {},
            Err(error) => return Err(PlayerError::Backend(error)),
        }
        self.state = PlayerState::Paused;
        Ok(())
    }

    /// Stops the current item, if any, and then starts the next. If stopping
    /// fails, the player stays as it was and returns the backend's error.
    pub fn skip_to_next(&mut self) -> (result: Result<(), PlayerError>)
        ensures
            old(self)@.current is None ==> starts_next(old(self)@, final(self)@, old(self).calls(), final(self).calls(), result),
            old(self)@.current is None && old(self)@.queue.len() == 0 ==> final(self).backend_of() == old(self).backend_of(),
            old(self)@.current is Some ==> {
                let stopped = final(self).calls()[old(self).calls().len() as int];
                &&& old(self).calls().len() < final(self).calls().len()
                &&& final(self).calls().subrange(0, old(self).calls().len() as int) == old(self).calls()
                &&& stopped matches BackendEvent::Called(BackendCall::Stop, outcome) && match outcome {
                    Err(error) => result == Err::<(), PlayerError>(PlayerError::Backend(error)) && final(self)@ == old(self)@
                        && final(self).calls() == old(self).calls().push(stopped),
                    Ok(()) => starts_next(
                        old(self)@,
                        final(self)@,
                        old(self).calls().push(stopped),
                        final(self).calls(),
                        result,
                    ),
                }
            },
    {
        if self.current.is_some() {
            let ghost before = self.log@;
            match logged_stop(&mut self.backend, &mut self.log) {
                Ok(()) => {},
                Err(error) => {
                    assert(self.log@.subrange(0, before.len() as int) =~= before);
                    return Err(PlayerError::Backend(error));
                },
            }
            let ghost stopped = self.log@;
            let result = self.start_next();
            proof {
                assert(self.log@.subrange(0, before.len() as int) =~= before) by {
                    if self.log@.len() > stopped.len() {
                        assert(self.log@ == stopped.push(self.log@.last()));
                    }
                }
                assert(self.log@[before.len() as int] == stopped.last());
            }
            return result;
        }
        self.start_next()
    }
}

} // verus!
