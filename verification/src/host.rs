//! What plugins tell their host: one-shot signals, the extensions the host
//! serves, log lines, and which thread plays which role.

use crate::posix_fd::{drain_due, FdEvent, FdRegistry};
use crate::text::{append_signed, same_text, text_of_c, text_of_opt_c};
use crate::timers::{fire_due_timers, Timers};
use vstd::prelude::*;

verus! {

/// Name the host gives itself towards plugins.
pub const HOST_NAME: &'static str = "CLAP-Host-RS";

pub const HOST_VENDOR: &'static str = "lxndrbe";

pub const HOST_URL: &'static str = "https://github.com/lxndrbe/clap-host-rs";

pub const HOST_VERSION: &'static str = "0.1.0";

/// Signals a plugin can raise. Each stays raised until the host takes it.
#[derive(Clone, Copy, Debug, PartialEq, Eq, Structural)]
pub enum Signal {
    /// `request_callback`: the plugin wants its main-thread callback.
    Callback,
    /// `request_restart`: the audio session is to be reopened.
    Restart,
    /// `gui.closed`: the plugin's window is gone.
    GuiClosed,
    /// `gui.request_show`: the plugin's window should become visible.
    GuiShow,
    /// `gui.request_hide`: the plugin's window should be hidden.
    GuiHide,
    /// `params.rescan` or `params.clear`: the parameter list is to be read again.
    ParamsDirty,
    /// `params.request_flush`: the audio thread is to flush the parameters.
    ParamsFlush,
    /// `state.mark_dirty`: the state changed since it was last saved.
    StateDirty,
    /// `latency.changed`: the latency is to be asked for again.
    Latency,
    /// `tail.changed`: the tail is to be asked for again.
    Tail,
    /// `note_name.changed`: the note names are to be read again.
    NoteName,
    /// `remote_controls.changed`: the page list changed.
    RemoteControls,
    /// `preset_load.loaded`: a preset was applied, values are to be read again.
    PresetLoaded,
}

/// Everything plugins have signalled and the host has not taken yet.
pub struct HostFlags {
    pub callback: bool,
    pub restart: bool,
    pub gui_closed: bool,
    pub gui_show: bool,
    pub gui_hide: bool,
    pub params_dirty: bool,
    pub params_flush: bool,
    pub state_dirty: bool,
    pub latency: bool,
    pub tail: bool,
    pub note_name: bool,
    pub remote_controls: bool,
    pub preset_loaded: bool,
    /// Latest `gui.request_resize`, width and height. Only meaningful while a
    /// plugin window is embedded: floating windows size themselves.
    pub resize: Option<(u32, u32)>,
    /// Latest `preset_load.on_error` message.
    pub preset_load_error: Option<String>,
}

impl HostFlags {
    /// Whether a signal is raised.
    pub open spec fn raised(self, signal: Signal) -> bool {
        match signal {
            Signal::Callback => self.callback,
            Signal::Restart => self.restart,
            Signal::GuiClosed => self.gui_closed,
            Signal::GuiShow => self.gui_show,
            Signal::GuiHide => self.gui_hide,
            Signal::ParamsDirty => self.params_dirty,
            Signal::ParamsFlush => self.params_flush,
            Signal::StateDirty => self.state_dirty,
            Signal::Latency => self.latency,
            Signal::Tail => self.tail,
            Signal::NoteName => self.note_name,
            Signal::RemoteControls => self.remote_controls,
            Signal::PresetLoaded => self.preset_loaded,
        }
    }

    /// The same flags with one signal raised or lowered.
    pub open spec fn with(self, signal: Signal, on: bool) -> HostFlags {
        match signal {
            Signal::Callback => HostFlags { callback: on, ..self },
            Signal::Restart => HostFlags { restart: on, ..self },
            Signal::GuiClosed => HostFlags { gui_closed: on, ..self },
            Signal::GuiShow => HostFlags { gui_show: on, ..self },
            Signal::GuiHide => HostFlags { gui_hide: on, ..self },
            Signal::ParamsDirty => HostFlags { params_dirty: on, ..self },
            Signal::ParamsFlush => HostFlags { params_flush: on, ..self },
            Signal::StateDirty => HostFlags { state_dirty: on, ..self },
            Signal::Latency => HostFlags { latency: on, ..self },
            Signal::Tail => HostFlags { tail: on, ..self },
            Signal::NoteName => HostFlags { note_name: on, ..self },
            Signal::RemoteControls => HostFlags { remote_controls: on, ..self },
            Signal::PresetLoaded => HostFlags { preset_loaded: on, ..self },
        }
    }

    /// The same flags with another preset error pending.
    pub open spec fn with_error(self, error: Option<String>) -> HostFlags {
        HostFlags { preset_load_error: error, ..self }
    }

    /// No signal is raised and nothing is pending.
    pub open spec fn quiet(self) -> bool {
        &&& forall|signal: Signal| !self.raised(signal)
        &&& self.resize is None
        &&& self.preset_load_error is None
    }

    pub fn new() -> (flags: HostFlags)
        ensures
            flags.quiet(),
    {
        HostFlags {
            callback: false,
            restart: false,
            gui_closed: false,
            gui_show: false,
            gui_hide: false,
            params_dirty: false,
            params_flush: false,
            state_dirty: false,
            latency: false,
            tail: false,
            note_name: false,
            remote_controls: false,
            preset_loaded: false,
            resize: None,
            preset_load_error: None,
        }
    }
}

/// Lower a flag and answer whether it was raised.
fn take(flag: &mut bool) -> (was: bool)
    ensures
        was == *old(flag),
        !*final(flag),
{
    let was = *flag;
    *flag = false;
    was
}

/// `request_callback` from the plugin.
pub fn host_request_callback(flags: &mut HostFlags)
    ensures
        *final(flags) == old(flags).with(Signal::Callback, true),
{
    flags.callback = true;
}

/// True once per `request_restart` from the plugin.
pub fn take_restart_request(flags: &mut HostFlags) -> (taken: bool)
    ensures
        taken == old(flags).raised(Signal::Restart),
        *final(flags) == old(flags).with(Signal::Restart, false),
{
    take(&mut flags.restart)
}

/// `request_restart` from the plugin.
pub fn host_request_restart(flags: &mut HostFlags)
    ensures
        *final(flags) == old(flags).with(Signal::Restart, true),
{
    flags.restart = true;
}

/// True once per `gui.closed` from the plugin.
pub fn take_gui_closed(flags: &mut HostFlags) -> (taken: bool)
    ensures
        taken == old(flags).raised(Signal::GuiClosed),
        *final(flags) == old(flags).with(Signal::GuiClosed, false),
{
    take(&mut flags.gui_closed)
}

/// `gui.closed` from the plugin.
pub fn host_gui_closed(flags: &mut HostFlags)
    ensures
        *final(flags) == old(flags).with(Signal::GuiClosed, true),
{
    flags.gui_closed = true;
}

/// True once per `gui.request_show` from the plugin.
pub fn take_gui_show_requested(flags: &mut HostFlags) -> (taken: bool)
    ensures
        taken == old(flags).raised(Signal::GuiShow),
        *final(flags) == old(flags).with(Signal::GuiShow, false),
{
    take(&mut flags.gui_show)
}

/// `gui.request_show` from the plugin, always accepted.
pub fn host_gui_request_show(flags: &mut HostFlags) -> (accepted: bool)
    ensures
        accepted,
        *final(flags) == old(flags).with(Signal::GuiShow, true),
{
    flags.gui_show = true;
    true
}

/// True once per `gui.request_hide` from the plugin.
pub fn take_gui_hide_requested(flags: &mut HostFlags) -> (taken: bool)
    ensures
        taken == old(flags).raised(Signal::GuiHide),
        *final(flags) == old(flags).with(Signal::GuiHide, false),
{
    take(&mut flags.gui_hide)
}

/// `gui.request_hide` from the plugin, always accepted.
pub fn host_gui_request_hide(flags: &mut HostFlags) -> (accepted: bool)
    ensures
        accepted,
        *final(flags) == old(flags).with(Signal::GuiHide, true),
{
    flags.gui_hide = true;
    true
}

/// True once per `params.rescan` or `params.clear` from the plugin.
pub fn take_params_dirty(flags: &mut HostFlags) -> (taken: bool)
    ensures
        taken == old(flags).raised(Signal::ParamsDirty),
        *final(flags) == old(flags).with(Signal::ParamsDirty, false),
{
    take(&mut flags.params_dirty)
}

/// `params.rescan` from the plugin.
pub fn host_params_rescan(flags: &mut HostFlags)
    ensures
        *final(flags) == old(flags).with(Signal::ParamsDirty, true),
{
    flags.params_dirty = true;
}

/// `params.clear` from the plugin.
pub fn host_params_clear(flags: &mut HostFlags)
    ensures
        *final(flags) == old(flags).with(Signal::ParamsDirty, true),
{
    flags.params_dirty = true;
}

/// True once per `params.request_flush`; the engine asks on the audio thread
/// and flushes the parameters there.
pub fn take_params_flush_requested(flags: &mut HostFlags) -> (taken: bool)
    ensures
        taken == old(flags).raised(Signal::ParamsFlush),
        *final(flags) == old(flags).with(Signal::ParamsFlush, false),
{
    take(&mut flags.params_flush)
}

/// `params.request_flush` from the plugin.
pub fn host_params_request_flush(flags: &mut HostFlags)
    ensures
        *final(flags) == old(flags).with(Signal::ParamsFlush, true),
{
    flags.params_flush = true;
}

/// True once per `state.mark_dirty` from the plugin.
pub fn take_state_dirty(flags: &mut HostFlags) -> (taken: bool)
    ensures
        taken == old(flags).raised(Signal::StateDirty),
        *final(flags) == old(flags).with(Signal::StateDirty, false),
{
    take(&mut flags.state_dirty)
}

/// `state.mark_dirty` from the plugin.
pub fn host_state_mark_dirty(flags: &mut HostFlags)
    ensures
        *final(flags) == old(flags).with(Signal::StateDirty, true),
{
    flags.state_dirty = true;
}

/// True once per `latency.changed` from the plugin.
pub fn take_latency_changed(flags: &mut HostFlags) -> (taken: bool)
    ensures
        taken == old(flags).raised(Signal::Latency),
        *final(flags) == old(flags).with(Signal::Latency, false),
{
    take(&mut flags.latency)
}

/// `latency.changed` from the plugin.
pub fn host_latency_changed(flags: &mut HostFlags)
    ensures
        *final(flags) == old(flags).with(Signal::Latency, true),
{
    flags.latency = true;
}

/// True once per `tail.changed` from the plugin.
pub fn take_tail_changed(flags: &mut HostFlags) -> (taken: bool)
    ensures
        taken == old(flags).raised(Signal::Tail),
        *final(flags) == old(flags).with(Signal::Tail, false),
{
    take(&mut flags.tail)
}

/// `tail.changed` from the plugin.
pub fn host_tail_changed(flags: &mut HostFlags)
    ensures
        *final(flags) == old(flags).with(Signal::Tail, true),
{
    flags.tail = true;
}

/// True once per `note_name.changed` from the plugin.
pub fn take_note_name_changed(flags: &mut HostFlags) -> (taken: bool)
    ensures
        taken == old(flags).raised(Signal::NoteName),
        *final(flags) == old(flags).with(Signal::NoteName, false),
{
    take(&mut flags.note_name)
}

/// `note_name.changed` from the plugin.
pub fn host_note_name_changed(flags: &mut HostFlags)
    ensures
        *final(flags) == old(flags).with(Signal::NoteName, true),
{
    flags.note_name = true;
}

/// True once per `remote_controls.changed` from the plugin.
pub fn take_remote_controls_dirty(flags: &mut HostFlags) -> (taken: bool)
    ensures
        taken == old(flags).raised(Signal::RemoteControls),
        *final(flags) == old(flags).with(Signal::RemoteControls, false),
{
    take(&mut flags.remote_controls)
}

/// `remote_controls.changed` from the plugin.
pub fn host_remote_controls_changed(flags: &mut HostFlags)
    ensures
        *final(flags) == old(flags).with(Signal::RemoteControls, true),
{
    flags.remote_controls = true;
}

/// True once per `preset_load.loaded` from the plugin.
pub fn take_preset_loaded(flags: &mut HostFlags) -> (taken: bool)
    ensures
        taken == old(flags).raised(Signal::PresetLoaded),
        *final(flags) == old(flags).with(Signal::PresetLoaded, false),
{
    take(&mut flags.preset_loaded)
}

/// `preset_load.loaded` from the plugin.
pub fn host_preset_load_loaded(flags: &mut HostFlags)
    ensures
        *final(flags) == old(flags).with(Signal::PresetLoaded, true),
{
    flags.preset_loaded = true;
}

/// How far a pump of the plugin's main-thread work has come.
#[derive(Clone, Copy, Debug, PartialEq, Eq, Structural)]
pub enum PumpPhase {
    /// The callback comes next, where the plugin asked for it.
    Callback,
    /// Due timers are delivered.
    Timers,
    /// Events of watched descriptors are delivered.
    Fds,
    /// Nothing is left to do.
    Over,
}

/// What a pump does next, on the main thread.
#[derive(Clone, Copy, Debug, PartialEq, Eq, Structural)]
pub enum PumpStep {
    /// Call the plugin's `on_main_thread`.
    Callback,
    /// Call its `on_timer` with this id.
    Timer(u32),
    /// Call its `on_fd` with this event.
    Fd(FdEvent),
    /// The pump is through.
    Done,
}

/// The main-thread functions that a plugin has.
#[derive(Clone, Copy, Debug, PartialEq, Eq, Structural)]
pub struct MainThreadCalls {
    pub on_main_thread: bool,
    pub on_timer: bool,
    pub on_fd: bool,
}

/// Everything that a pump looks at.
#[verifier::ext_equal]
pub struct PumpState {
    pub phase: PumpPhase,
    /// The plugin asked for its callback.
    pub asked: bool,
    /// Timers that are registered, and ids that became due.
    pub timers: Seq<crate::timers::Timer>,
    pub due: Seq<u32>,
    /// Descriptors that are registered, and events that are queued.
    pub watched: Map<i32, u32>,
    pub events: Seq<FdEvent>,
}

/// The state of a pump over these parts of the host.
pub open spec fn pump_state(
    phase: PumpPhase,
    flags: HostFlags,
    timers: Timers,
    fds: FdRegistry,
) -> PumpState {
    PumpState {
        phase,
        asked: flags.raised(Signal::Callback),
        timers: timers.timers@,
        due: timers.due@,
        watched: fds.watched(),
        events: fds.due@,
    }
}

impl PumpState {
    /// The due ids that are still registered.
    pub open spec fn is_live(self) -> spec_fn(u32) -> bool {
        |id: u32| crate::timers::registered(self.timers, id)
    }

    /// The queued events of descriptors that are still registered.
    pub open spec fn is_watched(self) -> spec_fn(FdEvent) -> bool {
        |e: FdEvent| self.watched.contains_key(e.fd)
    }

    /// The first queued event that the plugin takes, if any.
    pub open spec fn fd_step(self, calls: MainThreadCalls) -> PumpStep {
        let at = crate::queue::first_where(self.events, self.is_watched());
        if calls.on_fd && at < self.events.len() {
            PumpStep::Fd(self.events[at])
        } else {
            PumpStep::Done
        }
    }

    /// The first due timer that the plugin takes, if any, or else what follows.
    pub open spec fn timer_step(self, calls: MainThreadCalls) -> PumpStep {
        let at = crate::queue::first_where(self.due, self.is_live());
        if calls.on_timer && at < self.due.len() {
            PumpStep::Timer(self.due[at])
        } else {
            self.fd_step(calls)
        }
    }

    /// What comes next.
    pub open spec fn step(self, calls: MainThreadCalls) -> PumpStep {
        match self.phase {
            PumpPhase::Callback => if self.asked && calls.on_main_thread {
                PumpStep::Callback
            } else {
                self.timer_step(calls)
            },
            PumpPhase::Timers => self.timer_step(calls),
            PumpPhase::Fds => self.fd_step(calls),
            PumpPhase::Over => PumpStep::Done,
        }
    }

    /// The phase that a step leads to.
    pub open spec fn phase_after(self, calls: MainThreadCalls) -> PumpPhase {
        match self.step(calls) {
            PumpStep::Callback => PumpPhase::Timers,
            PumpStep::Timer(_) => PumpPhase::Timers,
            PumpStep::Fd(_) => PumpPhase::Fds,
            PumpStep::Done => PumpPhase::Over,
        }
    }

    /// The pump after a step: what was delivered or is no longer wanted left its
    /// queue, and a queue that the plugin has no function for is emptied.
    pub open spec fn after(self, calls: MainThreadCalls) -> PumpState {
        let step = self.step(calls);
        let timers_looked_at = (self.phase is Callback || self.phase is Timers) && !(step is Callback);
        let fds_looked_at = !(self.phase is Over) && (step is Fd || step is Done);
        PumpState {
            phase: self.phase_after(calls),
            asked: self.asked && !(self.phase is Callback),
            due: if !timers_looked_at {
                self.due
            } else if calls.on_timer {
                crate::queue::after_first(self.due, self.is_live())
            } else {
                Seq::empty()
            },
            events: if !fds_looked_at {
                self.events
            } else if calls.on_fd {
                crate::queue::after_first(self.events, self.is_watched())
            } else {
                Seq::empty()
            },
            ..self
        }
    }
}

/// A step of a pump, called from the UI event loop until it is through. Between
/// two steps the plugin is called and may change what is registered.
pub fn pump_step(
    phase: &mut PumpPhase,
    flags: &mut HostFlags,
    timers: &mut Timers,
    fds: &mut FdRegistry,
    calls: MainThreadCalls,
) -> (step: PumpStep)
    ensures
        step == pump_state(*old(phase), *old(flags), *old(timers), *old(fds)).step(calls),
        pump_state(*final(phase), *final(flags), *final(timers), *final(fds)) == pump_state(
            *old(phase),
            *old(flags),
            *old(timers),
            *old(fds),
        ).after(calls),
        *final(flags) == if *old(phase) is Callback {
            old(flags).with(Signal::Callback, false)
        } else {
            *old(flags)
        },
        final(timers).timers == old(timers).timers,
        final(timers).next_id == old(timers).next_id,
        final(timers).due.capacity() == old(timers).due.capacity(),
        old(timers).due.wf() ==> final(timers).due.wf(),
        final(fds).has_poller == old(fds).has_poller,
        final(fds).fds == old(fds).fds,
        final(fds).due.capacity() == old(fds).due.capacity(),
        old(fds).due.wf() ==> final(fds).due.wf(),
{
    let ghost state = pump_state(*phase, *flags, *timers, *fds);
    if *phase == PumpPhase::Callback {
        *phase = PumpPhase::Timers;
        if take(&mut flags.callback) && calls.on_main_thread {
            return PumpStep::Callback;
        }
    }
    if *phase == PumpPhase::Timers {
        let id = fire_due_timers(timers, calls.on_timer);
        proof {
            assert(state.is_live() =~= (|id: u32| crate::timers::registered(state.timers, id)));
        }
        if let Some(id) = id {
            return PumpStep::Timer(id);
        }
        *phase = PumpPhase::Fds;
    }
    if *phase == PumpPhase::Fds {
        let event = drain_due(fds, calls.on_fd);
        proof {
            assert(state.is_watched() =~= (|e: FdEvent| state.watched.contains_key(e.fd)));
        }
        if let Some(event) = event {
            return PumpStep::Fd(event);
        }
        *phase = PumpPhase::Over;
    }
    PumpStep::Done
}

/// Run the plugin's pending main-thread work: its callback, its due timers and
/// the queued events of its descriptors, all on the calling thread. This is the
/// first step and how far the pump has come; [`pump_step`] goes on from there
/// until it is through.
pub fn pump_main_thread(
    flags: &mut HostFlags,
    timers: &mut Timers,
    fds: &mut FdRegistry,
    calls: MainThreadCalls,
) -> (begun: (PumpStep, PumpPhase))
    ensures
        ({
            let state = pump_state(PumpPhase::Callback, *old(flags), *old(timers), *old(fds));
            &&& begun.0 == state.step(calls)
            &&& pump_state(begun.1, *final(flags), *final(timers), *final(fds)) == state.after(
                calls,
            )
        }),
        *final(flags) == old(flags).with(Signal::Callback, false),
        final(timers).timers == old(timers).timers,
        final(timers).next_id == old(timers).next_id,
        final(timers).due.capacity() == old(timers).due.capacity(),
        old(timers).due.wf() ==> final(timers).due.wf(),
        final(fds).has_poller == old(fds).has_poller,
        final(fds).fds == old(fds).fds,
        final(fds).due.capacity() == old(fds).due.capacity(),
        old(fds).due.wf() ==> final(fds).due.wf(),
{
    let mut phase = PumpPhase::Callback;
    let step = pump_step(&mut phase, flags, timers, fds, calls);
    (step, phase)
}

/// The order of phases and steps.
pub open spec fn phase_rank(phase: PumpPhase) -> int {
    match phase {
        PumpPhase::Callback => 0,
        PumpPhase::Timers => 1,
        PumpPhase::Fds => 2,
        PumpPhase::Over => 3,
    }
}

pub open spec fn step_rank(step: PumpStep) -> int {
    match step {
        PumpStep::Callback => 0,
        PumpStep::Timer(_) => 1,
        PumpStep::Fd(_) => 2,
        PumpStep::Done => 3,
    }
}

/// The states that the steps of one pump find: each has the phase that the step
/// before led to. What is asked for, registered and queued may be anything,
/// because the plugin and the background threads go on.
pub open spec fn one_pump(states: Seq<PumpState>, calls: MainThreadCalls) -> bool {
    &&& states.len() > 0 ==> states[0].phase is Callback
    &&& forall|i: int|
        0 < i < states.len() ==> (#[trigger] states[i]).phase == states[i - 1].phase_after(calls)
}

/// Law: whatever the plugin and the background threads do meanwhile, a pump
/// calls back once at most, and first, then it fires timers, then it delivers
/// descriptor events, and once it is through it stays so. Only timers that are
/// registered fire, and only events of registered descriptors are delivered.
pub proof fn pumps_keep_their_order(
    states: Seq<PumpState>,
    calls: MainThreadCalls,
    i: int,
    j: int,
)
    requires
        one_pump(states, calls),
        0 <= i <= j < states.len(),
    ensures
        states[j].step(calls) is Callback ==> j == 0,
        step_rank(states[i].step(calls)) <= step_rank(states[j].step(calls)),
        match states[j].step(calls) {
            PumpStep::Timer(id) => crate::timers::registered(states[j].timers, id),
            PumpStep::Fd(e) => states[j].watched.contains_key(e.fd),
            _ => true,
        },
{
    ranks_grow(states, calls, i, j);
    if j > 0 {
        assert(states[j].phase == states[j - 1].phase_after(calls));
    }
    let s = states[j];
    crate::queue::first_where_is_first(s.due, s.is_live());
    crate::queue::first_where_is_first(s.events, s.is_watched());
}

proof fn ranks_grow(states: Seq<PumpState>, calls: MainThreadCalls, i: int, j: int)
    requires
        one_pump(states, calls),
        0 <= i <= j < states.len(),
    ensures
        step_rank(states[i].step(calls)) <= step_rank(states[j].step(calls)),
    decreases j - i,
{
    if i < j {
        ranks_grow(states, calls, i, j - 1);
        assert(states[j].phase == states[j - 1].phase_after(calls));
    }
}

/// The steps of a pump that nothing disturbs, up to the end.
pub open spec fn pumped(state: PumpState, calls: MainThreadCalls) -> Seq<PumpStep>
    decreases 3 - phase_rank(state.phase), state.due.len() + state.events.len(),
{
    proof {
        crate::queue::wanted_one_by_one(state.due, state.is_live());
        crate::queue::wanted_one_by_one(state.events, state.is_watched());
    }
    if state.phase is Over {
        Seq::empty()
    } else {
        seq![state.step(calls)] + pumped(state.after(calls), calls)
    }
}

/// The state in which such a pump ends.
pub open spec fn pumped_to(state: PumpState, calls: MainThreadCalls) -> PumpState
    decreases 3 - phase_rank(state.phase), state.due.len() + state.events.len(),
{
    proof {
        crate::queue::wanted_one_by_one(state.due, state.is_live());
        crate::queue::wanted_one_by_one(state.events, state.is_watched());
    }
    if state.phase is Over {
        state
    } else {
        pumped_to(state.after(calls), calls)
    }
}

/// Timers to deliver: those due that are registered, in the order in which they
/// became due; none where the plugin takes none.
pub open spec fn live_timers(state: PumpState, calls: MainThreadCalls) -> Seq<PumpStep> {
    if calls.on_timer {
        crate::queue::wanted_of(state.due, state.is_live()).map_values(
            |id: u32| PumpStep::Timer(id),
        )
    } else {
        Seq::empty()
    }
}

/// Events to deliver: those queued of registered descriptors, in order; none
/// where the plugin takes none.
pub open spec fn live_events(state: PumpState, calls: MainThreadCalls) -> Seq<PumpStep> {
    if calls.on_fd {
        crate::queue::wanted_of(state.events, state.is_watched()).map_values(
            |e: FdEvent| PumpStep::Fd(e),
        )
    } else {
        Seq::empty()
    }
}

/// Law: a pump calls back where the plugin asked for it, then fires every due
/// timer that is registered, then delivers every queued event of a registered
/// descriptor, in order and each once. Afterwards nothing is asked for or queued.
pub proof fn pumps_deliver_everything(state: PumpState, calls: MainThreadCalls)
    requires
        state.phase is Callback,
    ensures
        pumped(state, calls) == (if state.asked && calls.on_main_thread {
            seq![PumpStep::Callback]
        } else {
            Seq::empty()
        }) + live_timers(state, calls) + live_events(state, calls) + seq![PumpStep::Done],
        pumped_to(state, calls) == (PumpState {
            phase: PumpPhase::Over,
            asked: false,
            due: Seq::empty(),
            events: Seq::empty(),
            ..state
        }),
{
    timers_then_events(PumpState { phase: PumpPhase::Timers, asked: false, ..state }, calls);
    let begun = PumpState { phase: PumpPhase::Timers, asked: false, ..state };
    assert(begun.is_live() =~= state.is_live());
    assert(begun.is_watched() =~= state.is_watched());
    if state.asked && calls.on_main_thread {
        assert(state.after(calls) =~= begun);
        assert(pumped(state, calls) =~= seq![PumpStep::Callback] + pumped(begun, calls));
    } else {
        assert(state.step(calls) == begun.step(calls));
        assert(state.after(calls) =~= begun.after(calls));
        assert(pumped(state, calls) =~= pumped(begun, calls));
    }
    assert(pumped(state, calls) =~= (if state.asked && calls.on_main_thread {
        seq![PumpStep::Callback]
    } else {
        Seq::empty()
    }) + live_timers(state, calls) + live_events(state, calls) + seq![PumpStep::Done]);
}

proof fn events_at_last(state: PumpState, calls: MainThreadCalls)
    requires
        state.phase is Fds,
    ensures
        pumped(state, calls) == live_events(state, calls) + seq![PumpStep::Done],
        pumped_to(state, calls) == (PumpState {
            phase: PumpPhase::Over,
            events: Seq::empty(),
            ..state
        }),
    decreases state.events.len(),
{
    let next = state.after(calls);
    crate::queue::wanted_one_by_one(state.events, state.is_watched());
    assert(next.is_watched() =~= state.is_watched());
    if state.step(calls) is Fd {
        events_at_last(next, calls);
        assert(pumped_to(state, calls) == pumped_to(next, calls));
        assert(live_events(state, calls) =~= seq![state.step(calls)] + live_events(next, calls));
        assert(pumped(state, calls) =~= live_events(state, calls) + seq![PumpStep::Done]);
    } else {
        assert(live_events(state, calls) =~= Seq::empty());
        assert(pumped(next, calls) =~= Seq::empty());
        assert(pumped(state, calls) =~= seq![PumpStep::Done]);
        assert(next =~= (PumpState { phase: PumpPhase::Over, events: Seq::empty(), ..state }));
        assert(pumped_to(next, calls) == next);
        assert(pumped_to(state, calls) == pumped_to(next, calls));
    }
}

proof fn timers_then_events(state: PumpState, calls: MainThreadCalls)
    requires
        state.phase is Timers,
    ensures
        pumped(state, calls) == live_timers(state, calls) + live_events(state, calls) + seq![
            PumpStep::Done,
        ],
        pumped_to(state, calls) == (PumpState {
            phase: PumpPhase::Over,
            due: Seq::empty(),
            events: Seq::empty(),
            ..state
        }),
    decreases state.due.len(),
{
    let next = state.after(calls);
    crate::queue::wanted_one_by_one(state.due, state.is_live());
    assert(next.is_live() =~= state.is_live());
    assert(next.is_watched() =~= state.is_watched());
    if state.step(calls) is Timer {
        timers_then_events(next, calls);
        assert(live_timers(state, calls) =~= seq![state.step(calls)] + live_timers(next, calls));
        assert(pumped(state, calls) =~= live_timers(state, calls) + live_events(state, calls)
            + seq![PumpStep::Done]);
    } else {
        let rest = PumpState { phase: PumpPhase::Fds, due: Seq::empty(), ..state };
        assert(live_timers(state, calls) =~= Seq::empty());
        assert(rest.is_watched() =~= state.is_watched());
        events_at_last(rest, calls);
        assert(state.step(calls) == rest.step(calls));
        assert(state.after(calls) =~= rest.after(calls));
        assert(pumped(state, calls) =~= pumped(rest, calls));
        assert(pumped(state, calls) =~= live_timers(state, calls) + live_events(state, calls)
            + seq![PumpStep::Done]);
    }
}

/// `gui.request_resize` from the plugin, always accepted. The size waits until
/// the window that shows the plugin takes it; a later request replaces it.
pub fn host_gui_request_resize(flags: &mut HostFlags, width: u32, height: u32) -> (accepted: bool)
    ensures
        accepted,
        *final(flags) == (HostFlags { resize: Some((width, height)), ..*old(flags) }),
{
    flags.resize = Some((width, height));
    true
}

/// The plugin's latest `gui.request_resize`, once.
pub fn take_requested_resize(flags: &mut HostFlags) -> (size: Option<(u32, u32)>)
    ensures
        size == old(flags).resize,
        *final(flags) == (HostFlags { resize: None, ..*old(flags) }),
{
    flags.resize.take()
}

/// The message kept of a failed preset load.
pub open spec fn preset_error_text(os_error: i32, msg: Option<Seq<u8>>) -> Seq<char> {
    "preset load error: "@ + crate::text::opt_c_text(msg) + " (os error "@
        + crate::text::signed_decimal(os_error as int) + ")"@
}

/// `preset_load.on_error` from the plugin; a later error replaces it.
pub fn host_preset_load_on_error(flags: &mut HostFlags, os_error: i32, msg: Option<&[u8]>)
    ensures
        final(flags).with_error(None) == old(flags).with_error(None),
        final(flags).preset_load_error is Some,
        final(flags).preset_load_error->0@ == preset_error_text(
            os_error,
            crate::text::opt_bytes(msg),
        ),
{
    let mut text = "preset load error: ".to_owned();
    text.append(text_of_opt_c(msg).as_str());
    text.append(" (os error ");
    append_signed(&mut text, os_error);
    text.append(")");
    flags.preset_load_error = Some(text);
}

/// The plugin's last `preset_load.on_error` message, once.
pub fn take_preset_load_error(flags: &mut HostFlags) -> (error: Option<String>)
    ensures
        error == old(flags).preset_load_error,
        *final(flags) == old(flags).with_error(None),
{
    flags.preset_load_error.take()
}

/// Law: signals are one-shot. A raised signal is seen once and then no more
/// until it is raised again.
pub proof fn signals_are_one_shot(flags: HostFlags, signal: Signal)
    ensures
        flags.with(signal, true).raised(signal),
        !flags.with(signal, true).with(signal, false).raised(signal),
{
}

/// Law: raising a signal again before it is taken changes nothing, so any
/// number of requests is answered by one.
pub proof fn raising_again_changes_nothing(flags: HostFlags, signal: Signal)
    ensures
        flags.with(signal, true).with(signal, true) == flags.with(signal, true),
{
    let once = flags.with(signal, true);
    assert(once.raised(signal));
    raised_already(once, signal);
}

/// Raising what is raised is the identity.
proof fn raised_already(flags: HostFlags, signal: Signal)
    requires
        flags.raised(signal),
    ensures
        flags.with(signal, true) == flags,
{
}

/// Law: signals do not disturb each other, nor a pending resize or error.
pub proof fn signals_are_independent(flags: HostFlags, a: Signal, b: Signal, on: bool)
    requires
        a != b,
    ensures
        flags.with(a, on).raised(b) == flags.raised(b),
        flags.with(a, on).resize == flags.resize,
        flags.with(a, on).preset_load_error == flags.preset_load_error,
{
}

/// Severities of plugin log lines.
pub const CLAP_LOG_INFO: i32 = 1;

pub const CLAP_LOG_WARNING: i32 = 2;

pub const CLAP_LOG_ERROR: i32 = 3;

pub const CLAP_LOG_FATAL: i32 = 4;

pub const CLAP_LOG_HOST_MISBEHAVING: i32 = 5;

pub const CLAP_LOG_PLUGIN_MISBEHAVING: i32 = 6;

/// The word a log line carries for its severity. Unknown ones count as debug.
pub open spec fn severity_tag(severity: i32) -> Seq<char> {
    if severity == CLAP_LOG_INFO {
        "info"@
    } else if severity == CLAP_LOG_WARNING {
        "warn"@
    } else if severity == CLAP_LOG_ERROR {
        "error"@
    } else if severity == CLAP_LOG_FATAL {
        "fatal"@
    } else if severity == CLAP_LOG_HOST_MISBEHAVING {
        "host-misbehaving"@
    } else if severity == CLAP_LOG_PLUGIN_MISBEHAVING {
        "plugin-misbehaving"@
    } else {
        "debug"@
    }
}

fn tag_of(severity: i32) -> (tag: &'static str)
    ensures
        tag@ == severity_tag(severity),
{
    if severity == CLAP_LOG_INFO {
        "info"
    } else if severity == CLAP_LOG_WARNING {
        "warn"
    } else if severity == CLAP_LOG_ERROR {
        "error"
    } else if severity == CLAP_LOG_FATAL {
        "fatal"
    } else if severity == CLAP_LOG_HOST_MISBEHAVING {
        "host-misbehaving"
    } else if severity == CLAP_LOG_PLUGIN_MISBEHAVING {
        "plugin-misbehaving"
    } else {
        "debug"
    }
}

/// The line printed for a plugin's log message.
pub fn host_log(severity: i32, msg: Option<&[u8]>) -> (line: String)
    ensures
        line@ == "[plugin/"@ + severity_tag(severity) + "] "@ + match msg {
            Some(m) => crate::text::c_text(m@),
            None => "(null)"@,
        },
{
    let mut line = "[plugin/".to_owned();
    line.append(tag_of(severity));
    line.append("] ");
    match msg {
        Some(m) => line.append(text_of_c(m).as_str()),
        None => line.append("(null)"),
    }
    line
}

/// Which threads take the two roles that CLAP knows. A role, once given, stays
/// with its thread. Threads go by numbers that the program assigns.
pub struct ThreadRoles {
    pub main: Option<u64>,
    pub audio: Option<u64>,
}

/// A role after a thread asked for it: the first one keeps it.
pub open spec fn first_holder(role: Option<u64>, thread: u64) -> Option<u64> {
    match role {
        Some(t) => Some(t),
        None => Some(thread),
    }
}

impl ThreadRoles {
    pub fn new() -> (roles: ThreadRoles)
        ensures
            roles.main is None,
            roles.audio is None,
    {
        ThreadRoles { main: None, audio: None }
    }
}

/// The calling thread made the host.
pub fn mark_main_thread(roles: &mut ThreadRoles, thread: u64)
    ensures
        *final(roles) == (ThreadRoles {
            main: first_holder(old(roles).main, thread),
            ..*old(roles)
        }),
{
    if roles.main.is_none() {
        roles.main = Some(thread);
    }
}

/// What a host tells plugins of itself.
pub struct HostIdentity {
    pub name: &'static str,
    pub vendor: &'static str,
    pub url: &'static str,
    pub version: &'static str,
}

/// The host that plugins are given, made on the main thread.
pub fn make_host(roles: &mut ThreadRoles, thread: u64) -> (host: HostIdentity)
    ensures
        *final(roles) == (ThreadRoles {
            main: first_holder(old(roles).main, thread),
            ..*old(roles)
        }),
        host.name@ == "CLAP-Host-RS"@,
        host.vendor@ == "lxndrbe"@,
        host.url@ == "https://github.com/lxndrbe/clap-host-rs"@,
        host.version@ == "0.1.0"@,
{
    mark_main_thread(roles, thread);
    HostIdentity {
        name: HOST_NAME,
        vendor: HOST_VENDOR,
        url: HOST_URL,
        version: HOST_VERSION,
    }
}

/// The calling thread runs the audio callback.
pub fn mark_audio_thread(roles: &mut ThreadRoles, thread: u64)
    ensures
        *final(roles) == (ThreadRoles {
            audio: first_holder(old(roles).audio, thread),
            ..*old(roles)
        }),
{
    if roles.audio.is_none() {
        roles.audio = Some(thread);
    }
}

fn holds(role: Option<u64>, thread: u64) -> (r: bool)
    ensures
        r == (role == Some(thread)),
{
    match role {
        Some(t) => t == thread,
        None => false,
    }
}

pub fn host_is_main_thread(roles: &ThreadRoles, thread: u64) -> (r: bool)
    ensures
        r == (roles.main == Some(thread)),
{
    holds(roles.main, thread)
}

pub fn host_is_audio_thread(roles: &ThreadRoles, thread: u64) -> (r: bool)
    ensures
        r == (roles.audio == Some(thread)),
{
    holds(roles.audio, thread)
}

/// The extensions the host serves to plugins.
#[derive(Clone, Copy, Debug, PartialEq, Eq, Structural)]
pub enum HostExtension {
    Log,
    ThreadCheck,
    Gui,
    Params,
    State,
    TimerSupport,
    Latency,
    Tail,
    NoteName,
    RemoteControls,
    PresetLoad,
}

/// The extension that an identifier names. Two of them go by a draft name too.
pub open spec fn extension_named(id: Seq<char>) -> Option<HostExtension> {
    if id == "clap.log"@ {
        Some(HostExtension::Log)
    } else if id == "clap.thread-check"@ {
        Some(HostExtension::ThreadCheck)
    } else if id == "clap.gui"@ {
        Some(HostExtension::Gui)
    } else if id == "clap.params"@ {
        Some(HostExtension::Params)
    } else if id == "clap.state"@ {
        Some(HostExtension::State)
    } else if id == "clap.timer-support"@ {
        Some(HostExtension::TimerSupport)
    } else if id == "clap.latency"@ {
        Some(HostExtension::Latency)
    } else if id == "clap.tail"@ {
        Some(HostExtension::Tail)
    } else if id == "clap.note-name"@ {
        Some(HostExtension::NoteName)
    } else if id == "clap.remote-controls/2"@ || id == "clap.remote-controls.draft/2"@ {
        Some(HostExtension::RemoteControls)
    } else if id == "clap.preset-load/2"@ || id == "clap.preset-load.draft/2"@ {
        Some(HostExtension::PresetLoad)
    } else {
        None
    }
}

/// The extension a plugin asks for. `None` stands for a missing identifier.
pub fn host_get_extension(id: Option<&str>) -> (ext: Option<HostExtension>)
    ensures
        ext == match id {
            Some(i) => extension_named(i@),
            None => None,
        },
{
    let id = match id {
        Some(i) => i,
        None => return None,
    };
    if same_text(id, "clap.log") {
        Some(HostExtension::Log)
    } else if same_text(id, "clap.thread-check") {
        Some(HostExtension::ThreadCheck)
    } else if same_text(id, "clap.gui") {
        Some(HostExtension::Gui)
    } else if same_text(id, "clap.params") {
        Some(HostExtension::Params)
    } else if same_text(id, "clap.state") {
        Some(HostExtension::State)
    } else if same_text(id, "clap.timer-support") {
        Some(HostExtension::TimerSupport)
    } else if same_text(id, "clap.latency") {
        Some(HostExtension::Latency)
    } else if same_text(id, "clap.tail") {
        Some(HostExtension::Tail)
    } else if same_text(id, "clap.note-name") {
        Some(HostExtension::NoteName)
    } else if same_text(id, "clap.remote-controls/2") || same_text(id, "clap.remote-controls.draft/2") {
        Some(HostExtension::RemoteControls)
    } else if same_text(id, "clap.preset-load/2") || same_text(id, "clap.preset-load.draft/2") {
        Some(HostExtension::PresetLoad)
    } else {
        None
    }
}

/// Law: every signal is kept under its own name, and a host that has just started
/// has none.
pub proof fn signals_go_by_their_names(flags: HostFlags, on: bool, error: Option<String>)
    ensures
        flags.raised(Signal::Callback) == flags.callback,
        flags.with(Signal::Callback, on).callback == on,
        flags.raised(Signal::Restart) == flags.restart,
        flags.with(Signal::Restart, on).restart == on,
        flags.raised(Signal::GuiClosed) == flags.gui_closed,
        flags.with(Signal::GuiClosed, on).gui_closed == on,
        flags.raised(Signal::GuiShow) == flags.gui_show,
        flags.with(Signal::GuiShow, on).gui_show == on,
        flags.raised(Signal::GuiHide) == flags.gui_hide,
        flags.with(Signal::GuiHide, on).gui_hide == on,
        flags.raised(Signal::ParamsDirty) == flags.params_dirty,
        flags.with(Signal::ParamsDirty, on).params_dirty == on,
        flags.raised(Signal::ParamsFlush) == flags.params_flush,
        flags.with(Signal::ParamsFlush, on).params_flush == on,
        flags.raised(Signal::StateDirty) == flags.state_dirty,
        flags.with(Signal::StateDirty, on).state_dirty == on,
        flags.raised(Signal::Latency) == flags.latency,
        flags.with(Signal::Latency, on).latency == on,
        flags.raised(Signal::Tail) == flags.tail,
        flags.with(Signal::Tail, on).tail == on,
        flags.raised(Signal::NoteName) == flags.note_name,
        flags.with(Signal::NoteName, on).note_name == on,
        flags.raised(Signal::RemoteControls) == flags.remote_controls,
        flags.with(Signal::RemoteControls, on).remote_controls == on,
        flags.raised(Signal::PresetLoaded) == flags.preset_loaded,
        flags.with(Signal::PresetLoaded, on).preset_loaded == on,
        flags.quiet() ==> flags.resize is None && flags.preset_load_error is None && !flags.callback
            && !flags.restart && !flags.gui_closed && !flags.gui_show && !flags.gui_hide
            && !flags.params_dirty && !flags.params_flush && !flags.state_dirty && !flags.latency
            && !flags.tail && !flags.note_name && !flags.remote_controls && !flags.preset_loaded,
        flags.with_error(error).preset_load_error == error,
        flags.with_error(error).resize == flags.resize,
        forall|signal: Signal| #[trigger]
            flags.with_error(error).raised(signal) == flags.raised(signal),
{
    if flags.quiet() {
        assert(!flags.raised(Signal::Callback) && !flags.raised(Signal::Restart) && !flags.raised(
            Signal::GuiClosed,
        ) && !flags.raised(Signal::GuiShow) && !flags.raised(Signal::GuiHide) && !flags.raised(
            Signal::ParamsDirty,
        ) && !flags.raised(Signal::ParamsFlush) && !flags.raised(Signal::StateDirty)
            && !flags.raised(Signal::Latency) && !flags.raised(Signal::Tail) && !flags.raised(
            Signal::NoteName,
        ) && !flags.raised(Signal::RemoteControls) && !flags.raised(Signal::PresetLoaded));
    }
}

/// Law: lowering or raising a signal says what it is from then on, whatever it
/// was.
pub proof fn signals_are_what_they_were_set_to(flags: HostFlags, signal: Signal, on: bool)
    ensures
        flags.with(signal, on).raised(signal) == on,
{
}

/// Law: a pump looks at what is registered and queued now.
pub proof fn pumps_look_at_the_host(
    phase: PumpPhase,
    flags: HostFlags,
    timers: Timers,
    fds: FdRegistry,
    id: u32,
    e: FdEvent,
)
    ensures
        ({
            let state = pump_state(phase, flags, timers, fds);
            &&& state.phase == phase
            &&& state.asked == flags.callback
            &&& state.timers == timers.timers@
            &&& state.due == timers.due@
            &&& state.watched == fds.fds@
            &&& state.events == fds.due@
            &&& state.is_live()(id) == crate::timers::registered(timers.timers@, id)
            &&& state.is_watched()(e) == fds.fds@.contains_key(e.fd)
        }),
{
}

/// Law: what a pump delivers to a plugin that takes it are the due ids that are
/// registered and the queued events of registered descriptors, each once and in
/// order; nothing is delivered to a plugin that takes none.
pub proof fn deliveries_are_live(state: PumpState, calls: MainThreadCalls)
    ensures
        calls.on_timer ==> live_timers(state, calls) == state.due.filter(
            |id: u32| crate::timers::registered(state.timers, id),
        ).map_values(|id: u32| PumpStep::Timer(id)),
        !calls.on_timer ==> live_timers(state, calls).len() == 0,
        calls.on_fd ==> live_events(state, calls) == state.events.filter(
            |e: FdEvent| state.watched.contains_key(e.fd),
        ).map_values(|e: FdEvent| PumpStep::Fd(e)),
        !calls.on_fd ==> live_events(state, calls).len() == 0,
{
    let live = |id: u32| crate::timers::registered(state.timers, id);
    let watched = |e: FdEvent| state.watched.contains_key(e.fd);
    assert(state.is_live() =~= live);
    assert(state.is_watched() =~= watched);
    crate::queue::wanted_messages_keep_their_order(state.due, live);
    crate::queue::wanted_messages_keep_their_order(state.events, watched);
}

/// Law: in one pump no callback follows a timer or an event, no timer follows an
/// event, and nothing follows the end.
#[verifier::spinoff_prover]
#[verifier::rlimit(30)]
pub proof fn later_steps_come_later(
    states: Seq<PumpState>,
    calls: MainThreadCalls,
    i: int,
    j: int,
)
    requires
        one_pump(states, calls),
        0 <= i < j < states.len(),
    ensures
        ({
            let (a, b) = (states[i].step(calls), states[j].step(calls));
            &&& !(b is Callback)
            &&& a is Fd ==> b is Fd || b is Done
            &&& a is Done ==> b is Done
        }),
{
    ranks_grow(states, calls, i, j);
    later_kinds(states[i].step(calls), states[j].step(calls));
    assert(states[j].phase == states[j - 1].phase_after(calls));
    no_second_callback(states[j - 1], states[j], calls);
}

proof fn no_second_callback(before: PumpState, state: PumpState, calls: MainThreadCalls)
    requires
        state.phase == before.phase_after(calls),
    ensures
        !(state.step(calls) is Callback),
{
    assert(!(state.phase is Callback));
}

proof fn later_kinds(a: PumpStep, b: PumpStep)
    requires
        step_rank(a) <= step_rank(b),
    ensures
        a is Fd ==> b is Fd || b is Done,
        a is Done ==> b is Done,
{
}

/// Law: every severity has its own word in the log, and unknown ones count as
/// debug.
pub proof fn severities_have_their_words(severity: i32)
    ensures
        severity_tag(1) == "info"@,
        severity_tag(2) == "warn"@,
        severity_tag(3) == "error"@,
        severity_tag(4) == "fatal"@,
        severity_tag(5) == "host-misbehaving"@,
        severity_tag(6) == "plugin-misbehaving"@,
        severity < 1 || severity > 6 ==> severity_tag(severity) == "debug"@,
{
}

/// Law: a failed preset load is told in the plugin's words and with its error
/// number.
pub proof fn preset_errors_are_told(os_error: i32, msg: Seq<u8>)
    ensures
        preset_error_text(os_error, Some(msg)) == "preset load error: "@ + crate::text::c_text(msg)
            + " (os error "@ + crate::text::signed_decimal(os_error as int) + ")"@,
        preset_error_text(os_error, None) == "preset load error: "@ + Seq::<char>::empty()
            + " (os error "@ + crate::text::signed_decimal(os_error as int) + ")"@,
{
    crate::text::texts_of_plugins_are_read(msg);
    assert(crate::text::opt_c_text(None) =~= Seq::<char>::empty());
}

/// Law: the first thread that takes a role keeps it.
pub proof fn roles_stay_with_their_thread(role: Option<u64>, first: u64, second: u64)
    ensures
        role is None ==> first_holder(role, first) == Some(first),
        first_holder(first_holder(role, first), second) == first_holder(role, first),
        role is Some ==> first_holder(role, first) == role,
{
}

/// Law: the host serves the extensions that it has, each under its own name, two
/// of them under a draft name too, and no others.
pub proof fn extensions_go_by_their_names(id: Seq<char>)
    ensures
        extension_named(id) is Some <==> id == "clap.log"@ || id == "clap.thread-check"@ || id == "clap.gui"@ || id == "clap.params"@ || id == "clap.state"@ || id == "clap.timer-support"@ || id == "clap.latency"@ || id == "clap.tail"@ || id == "clap.note-name"@ || id == "clap.remote-controls/2"@ || id == "clap.remote-controls.draft/2"@ || id == "clap.preset-load/2"@ || id == "clap.preset-load.draft/2"@,
        extension_named(id) == Some(HostExtension::Log) ==> id == "clap.log"@,
        extension_named(id) == Some(HostExtension::ThreadCheck) ==> id == "clap.thread-check"@,
        extension_named(id) == Some(HostExtension::Gui) ==> id == "clap.gui"@,
        extension_named(id) == Some(HostExtension::Params) ==> id == "clap.params"@,
        extension_named(id) == Some(HostExtension::State) ==> id == "clap.state"@,
        extension_named(id) == Some(HostExtension::TimerSupport) ==> id == "clap.timer-support"@,
        extension_named(id) == Some(HostExtension::Latency) ==> id == "clap.latency"@,
        extension_named(id) == Some(HostExtension::Tail) ==> id == "clap.tail"@,
        extension_named(id) == Some(HostExtension::NoteName) ==> id == "clap.note-name"@,
        extension_named(id) == Some(HostExtension::RemoteControls) ==> id == "clap.remote-controls/2"@ || id == "clap.remote-controls.draft/2"@,
        extension_named(id) == Some(HostExtension::PresetLoad) ==> id == "clap.preset-load/2"@ || id == "clap.preset-load.draft/2"@,
{
}

} // verus!
