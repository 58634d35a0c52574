//! The audio engine: which plugin call comes next, which events a block carries,
//! and how samples move between device, capture queue and plugin.
//!
//! Samples are the bit patterns of 32-bit floats; nothing here computes with
//! them. Silence is the pattern of zero.

use crate::events::{Dialect, EvList, RawMidi, UiEvent};
use crate::host::{take_params_flush_requested, HostFlags};
use crate::loader::{ParamInfo, PluginPtr};
use crate::queue::{Queue, QUEUE_CAP};
use vstd::prelude::*;

verus! {

/// Frames per block at most, also what the plugin is activated with.
pub const MAX_FRAMES: usize = 4096;

/// UI events that one callback takes at most. A burst (slider drag) spreads over
/// several callbacks instead of landing in one huge event list.
pub const MAX_UI_EVENTS: usize = 32;

/// Events that one callback collects at most: all MIDI messages that a queue of
/// the usual depth holds, and the UI events. The event list has room for them
/// from the start, so the callback never allocates.
pub const EVENT_CAP: usize = QUEUE_CAP + MAX_UI_EVENTS;

/// Captured samples that wait for the plugin at most.
pub const CAPTURE_CAP: usize = 0x1_0000;

/// Stream options the user can override; `None` = device/backend default.
#[derive(Clone, Copy, Debug, PartialEq, Eq, Structural)]
pub struct StreamSettings {
    pub sample_rate: Option<u32>,
    pub buffer_size: Option<u32>,
}

/// Buffer sizes (frames per callback) offered in the UI.
pub const BUFFER_SIZES: [u32; 6] = [64, 128, 256, 512, 1024, 2048];

/// The host's note of one parameter: id and the plugin's cookie for it.
#[derive(Clone, Copy, Debug, PartialEq, Eq, Structural)]
pub struct ParamCookie {
    pub id: u32,
    pub cookie: u64,
}

/// Channels of all ports together.
pub open spec fn channel_sum(counts: Seq<u32>) -> nat
    decreases counts.len(),
{
    if counts.len() == 0 {
        0
    } else {
        channel_sum(counts.drop_last()) + counts.last() as nat
    }
}

/// The output ports the plugin is served with: a plugin that declares no output
/// channel still has to be heard somehow, on one stereo port.
pub open spec fn served_outputs(counts: Seq<u32>) -> Seq<u32> {
    if channel_sum(counts) == 0 {
        seq![2u32]
    } else {
        counts
    }
}

/// Everything the engine keeps between two callbacks.
#[verifier::ext_equal]
pub struct EngineState {
    pub plugin: PluginPtr,
    pub device_channels: nat,
    /// One buffer per channel: those of all input ports, then those of all
    /// output ports.
    pub bufs: Seq<Seq<u32>>,
    pub in_counts: Seq<u32>,
    pub out_counts: Seq<u32>,
    pub cookies: Seq<ParamCookie>,
    /// Events for the next block.
    pub events: Seq<crate::events::Event>,
    pub dialect: Dialect,
    pub steady_time: int,
    pub started: bool,
    pub start_failed: bool,
}

impl EngineState {
    /// Where the first output port begins, behind all input channels.
    pub open spec fn main_out_offset(self) -> nat {
        channel_sum(self.in_counts)
    }

    /// Channels of the first output port, what the device actually hears.
    pub open spec fn main_out_channels(self) -> nat {
        if self.out_counts[0] == 0 {
            1
        } else {
            self.out_counts[0] as nat
        }
    }

    /// The buffer that a device channel plays. Fewer plugin channels than device
    /// channels: the last one is repeated (mono to stereo).
    pub open spec fn source(self, channel: int) -> int {
        self.main_out_offset() + if channel < self.main_out_channels() {
            channel
        } else {
            self.main_out_channels() - 1
        }
    }

    /// Where the buffers of a port begin.
    pub open spec fn port_base(self, is_input: bool, port: int) -> nat {
        if is_input {
            channel_sum(self.in_counts.take(port))
        } else {
            self.main_out_offset() + channel_sum(self.out_counts.take(port))
        }
    }

    /// What the audio callback does next.
    pub open spec fn step(self, stop: bool) -> ProcessStep {
        if self.device_channels == 0 {
            ProcessStep::Skip
        } else if stop {
            ProcessStep::Halt { stop_processing: self.started }
        } else if self.start_failed {
            ProcessStep::Silent
        } else if self.started {
            ProcessStep::Run
        } else {
            ProcessStep::Start
        }
    }

    /// The engine after a block.
    pub open spec fn after_block(self, frames: nat) -> EngineState {
        EngineState { events: Seq::empty(), steady_time: self.steady_time + frames, ..self }
    }

    /// The engine after the plugin answered whether it started.
    pub open spec fn after_start(self, ok: bool) -> EngineState {
        if ok {
            EngineState { started: true, ..self }
        } else {
            EngineState { start_failed: true, ..self }
        }
    }

    pub open spec fn wf(self) -> bool {
        &&& self.out_counts.len() > 0
        &&& channel_sum(self.in_counts) <= u32::MAX
        &&& channel_sum(self.out_counts) <= u32::MAX
        &&& channel_sum(self.out_counts) > 0
        &&& self.bufs.len() == channel_sum(self.in_counts) + channel_sum(self.out_counts)
        &&& forall|c: int| 0 <= c < self.bufs.len() ==> (#[trigger] self.bufs[c]).len() == MAX_FRAMES
        &&& 0 <= self.steady_time
        &&& !(self.started && self.start_failed)
    }
}

proof fn first_port_fits(counts: Seq<u32>)
    requires
        counts.len() > 0,
    ensures
        counts[0] <= channel_sum(counts),
    decreases counts.len(),
{
    if counts.len() > 1 {
        first_port_fits(counts.drop_last());
        assert(counts.drop_last()[0] == counts[0]);
    }
}

/// Every device channel plays a buffer that exists.
proof fn source_exists(state: EngineState, channel: int)
    requires
        state.wf(),
        0 <= channel,
    ensures
        0 <= state.source(channel) < state.bufs.len(),
{
    first_port_fits(state.out_counts);
}

fn sum_channels(counts: &Vec<u32>) -> (sum: u32)
    requires
        channel_sum(counts@) <= u32::MAX,
    ensures
        sum == channel_sum(counts@),
{
    let mut sum: u32 = 0;
    let mut i: usize = 0;
    assert(channel_sum(counts@.take(0)) == 0);
    while i < counts.len()
        invariant
            i <= counts@.len(),
            channel_sum(counts@) <= u32::MAX,
            sum == channel_sum(counts@.take(i as int)),
        decreases counts@.len() - i,
    {
        assert(counts@.take(i + 1).drop_last() =~= counts@.take(i as int));
        proof {
            prefix_sum_fits(counts@, i + 1);
        }
        sum = sum + counts[i];
        i = i + 1;
    }
    assert(counts@.take(counts@.len() as int) =~= counts@);
    sum
}

proof fn prefix_sum_fits(counts: Seq<u32>, n: int)
    requires
        0 <= n <= counts.len(),
    ensures
        channel_sum(counts.take(n)) <= channel_sum(counts),
    decreases counts.len() - n,
{
    if n == counts.len() {
        assert(counts.take(n) =~= counts);
    } else {
        prefix_sum_fits(counts, n + 1);
        assert(counts.take(n + 1).drop_last() =~= counts.take(n));
    }
}

/// What the audio callback does next.
#[derive(Clone, Copy, Debug, PartialEq, Eq, Structural)]
pub enum ProcessStep {
    /// Leave the device buffer alone: the device has no channels.
    Skip,
    /// Emit silence and acknowledge the stop. `stop_processing` says whether the
    /// plugin is to stop first.
    Halt { stop_processing: bool },
    /// Call the plugin's `start_processing`, report its answer, and ask again.
    Start,
    /// Emit silence: the plugin did not start.
    Silent,
    /// Collect events and process the buffer block by block.
    Run,
}

/// What the plugin's `process` is told of one block.
#[derive(Clone, Copy, Debug, PartialEq, Eq, Structural)]
pub struct Block {
    pub steady_time: i64,
    pub frames_count: u32,
    pub audio_inputs_count: u32,
    pub audio_outputs_count: u32,
}

/// The cookie noted for a parameter; 0 if there is none.
pub open spec fn noted_cookie(cookies: Seq<ParamCookie>, id: u32) -> u64
    decreases cookies.len(),
{
    if cookies.len() == 0 {
        0
    } else if cookies[0].id == id {
        cookies[0].cookie
    } else {
        noted_cookie(cookies.skip(1), id)
    }
}

fn find_cookie(cookies: &Vec<ParamCookie>, id: u32) -> (cookie: u64)
    ensures
        cookie == noted_cookie(cookies@, id),
{
    let mut i: usize = 0;
    assert(cookies@.skip(0) =~= cookies@);
    while i < cookies.len()
        invariant
            i <= cookies@.len(),
            noted_cookie(cookies@, id) == noted_cookie(cookies@.skip(i as int), id),
        decreases cookies@.len() - i,
    {
        if cookies[i].id == id {
            return cookies[i].cookie;
        }
        assert(cookies@.skip(i as int).skip(1) =~= cookies@.skip(i + 1));
        i = i + 1;
    }
    0
}

/// What the engine notes of the plugin's parameters.
pub open spec fn notes(params: Seq<ParamInfo>) -> Seq<ParamCookie> {
    params.map_values(|p: ParamInfo| ParamCookie { id: p.id, cookie: p.cookie })
}

/// The event for a UI request, if the dialect has one.
pub open spec fn ui_event(
    event: UiEvent,
    cookies: Seq<ParamCookie>,
    dialect: Dialect,
) -> Option<crate::events::Event> {
    match event {
        UiEvent::Param { id, value } => Some(
            crate::events::param_event(id, value, noted_cookie(cookies, id), 0),
        ),
        UiEvent::Midi(msg) => crate::events::midi_event(msg, dialect, 0),
    }
}

/// A list of events after MIDI messages were added to it.
pub open spec fn with_midi(
    events: Seq<crate::events::Event>,
    messages: Seq<RawMidi>,
    dialect: Dialect,
) -> Seq<crate::events::Event>
    decreases messages.len(),
{
    if messages.len() == 0 {
        events
    } else {
        crate::events::with_event(
            with_midi(events, messages.drop_last(), dialect),
            crate::events::midi_event(messages.last(), dialect, 0),
        )
    }
}

/// A list of events after UI requests were added to it.
pub open spec fn with_ui(
    events: Seq<crate::events::Event>,
    requests: Seq<UiEvent>,
    cookies: Seq<ParamCookie>,
    dialect: Dialect,
) -> Seq<crate::events::Event>
    decreases requests.len(),
{
    if requests.len() == 0 {
        events
    } else {
        crate::events::with_event(
            with_ui(events, requests.drop_last(), cookies, dialect),
            ui_event(requests.last(), cookies, dialect),
        )
    }
}

/// How many UI requests one callback takes.
pub open spec fn taken(waiting: nat) -> nat {
    if waiting <= MAX_UI_EVENTS {
        waiting
    } else {
        MAX_UI_EVENTS as nat
    }
}

/// A captured sample; silence where there is none.
pub open spec fn sample_at(samples: Seq<u32>, at: int) -> u32 {
    if 0 <= at < samples.len() {
        samples[at]
    } else {
        0
    }
}

/// The channel buffers after the inputs of a block were filled in: one sample
/// per frame and input channel from the capture, frame by frame, or silence.
pub open spec fn with_inputs(
    bufs: Seq<Seq<u32>>,
    inputs: nat,
    frames: nat,
    captured: Option<Seq<u32>>,
) -> Seq<Seq<u32>> {
    Seq::new(
        bufs.len(),
        |c: int|
            if c < inputs {
                Seq::new(
                    bufs[c].len(),
                    |i: int|
                        if i < frames {
                            match captured {
                                Some(samples) => sample_at(samples, i * inputs + c),
                                None => 0,
                            }
                        } else {
                            bufs[c][i]
                        },
                )
            } else {
                bufs[c]
            },
    )
}

/// What is left of captured samples after `n` were asked for.
pub open spec fn samples_left(samples: Seq<u32>, n: int) -> Seq<u32> {
    if n <= samples.len() {
        samples.skip(n)
    } else {
        Seq::empty()
    }
}

/// Move captured samples into the input buffers of a block.
fn deinterleave(bufs: &mut Vec<Vec<u32>>, capture: &mut Queue<u32>, inputs: usize, frames: usize)
    requires
        inputs <= old(bufs)@.len(),
        forall|c: int|
            0 <= c < old(bufs)@.len() ==> (#[trigger] old(bufs)@[c])@.len() >= frames,
    ensures
        final(bufs)@.map_values(|b: Vec<u32>| b@) == with_inputs(
            old(bufs)@.map_values(|b: Vec<u32>| b@),
            inputs as nat,
            frames as nat,
            Some(old(capture)@),
        ),
        final(capture)@ == samples_left(old(capture)@, frames * inputs),
        final(capture).capacity() == old(capture).capacity(),
{
    let ghost samples = capture@;
    let ghost before = bufs@;
    let mut i: usize = 0;
    assert(samples.skip(0) =~= samples);
    assert(0 * inputs == 0) by (nonlinear_arith);
    while i < frames
        invariant
            i <= frames,
            inputs <= before.len(),
            bufs@.len() == before.len(),
            forall|c: int| 0 <= c < before.len() ==> (#[trigger] before[c])@.len() >= frames,
            forall|c: int|
                0 <= c < before.len() ==> (#[trigger] bufs@[c])@.len() == before[c]@.len(),
            capture.capacity() == old(capture).capacity(),
            capture@ == samples_left(samples, i * inputs),
            forall|c: int, k: int|
                0 <= c < before.len() && 0 <= k < before[c]@.len() ==> #[trigger] bufs@[c]@[k] == (
                if c < inputs && k < i {
                    sample_at(samples, k * inputs + c)
                } else {
                    before[c]@[k]
                }),
        decreases frames - i,
    {
        let mut ch: usize = 0;
        while ch < inputs
            invariant
                i < frames,
                ch <= inputs,
                inputs <= before.len(),
                bufs@.len() == before.len(),
                forall|c: int| 0 <= c < before.len() ==> (#[trigger] before[c])@.len() >= frames,
                forall|c: int|
                    0 <= c < before.len() ==> (#[trigger] bufs@[c])@.len() == before[c]@.len(),
                capture.capacity() == old(capture).capacity(),
                capture@ == samples_left(samples, i * inputs + ch),
                0 <= i * inputs,
                forall|c: int, k: int|
                    0 <= c < before.len() && 0 <= k < before[c]@.len() ==> #[trigger] bufs@[c]@[k]
                        == (if c < inputs && (k < i || (k == i && c < ch)) {
                        sample_at(samples, k * inputs + c)
                    } else {
                        before[c]@[k]
                    }),
            decreases inputs - ch,
        {
            let ghost left = capture@;
            let ghost at = i * inputs + ch;
            let sample: u32 = match capture.pop() {
                Some(s) => s,
                None => 0,
            };
            proof {
                if at < samples.len() {
                    assert(left[0] == samples[at]);
                    assert(left.skip(1) =~= samples.skip(at + 1));
                } else {
                    assert(left.len() == 0);
                    assert(samples_left(samples, at + 1) =~= Seq::empty());
                    assert(left =~= Seq::empty());
                }
                assert(sample == sample_at(samples, at));
            }
            bufs[ch][i] = sample;
            ch = ch + 1;
        }
        assert((i + 1) * inputs == i * inputs + inputs) by (nonlinear_arith);
        assert(0 <= (i + 1) * inputs) by (nonlinear_arith);
        i = i + 1;
    }
    proof {
        let after = bufs@.map_values(|b: Vec<u32>| b@);
        let wanted = with_inputs(
            before.map_values(|b: Vec<u32>| b@),
            inputs as nat,
            frames as nat,
            Some(samples),
        );
        assert forall|c: int| 0 <= c < after.len() implies after[c] == wanted[c] by {
            assert(after[c] =~= wanted[c]);
        }
        assert(after =~= wanted);
    }
}

/// Silence in the input buffers of a block.
fn clear_inputs(bufs: &mut Vec<Vec<u32>>, inputs: usize, frames: usize)
    requires
        inputs <= old(bufs)@.len(),
        forall|c: int|
            0 <= c < old(bufs)@.len() ==> (#[trigger] old(bufs)@[c])@.len() >= frames,
    ensures
        final(bufs)@.map_values(|b: Vec<u32>| b@) == with_inputs(
            old(bufs)@.map_values(|b: Vec<u32>| b@),
            inputs as nat,
            frames as nat,
            None,
        ),
{
    let ghost before = bufs@;
    let mut ch: usize = 0;
    while ch < inputs
        invariant
            ch <= inputs <= before.len(),
            bufs@.len() == before.len(),
            forall|c: int| 0 <= c < before.len() ==> (#[trigger] before[c])@.len() >= frames,
            forall|c: int|
                0 <= c < before.len() ==> (#[trigger] bufs@[c])@.len() == before[c]@.len(),
            forall|c: int, k: int|
                0 <= c < before.len() && 0 <= k < before[c]@.len() ==> #[trigger] bufs@[c]@[k] == (
                if c < ch && k < frames {
                    0
                } else {
                    before[c]@[k]
                }),
        decreases inputs - ch,
    {
        let mut i: usize = 0;
        while i < frames
            invariant
                i <= frames,
                ch < inputs <= before.len(),
                bufs@.len() == before.len(),
                forall|c: int| 0 <= c < before.len() ==> (#[trigger] before[c])@.len() >= frames,
                forall|c: int|
                    0 <= c < before.len() ==> (#[trigger] bufs@[c])@.len() == before[c]@.len(),
                forall|c: int, k: int|
                    0 <= c < before.len() && 0 <= k < before[c]@.len() ==> #[trigger] bufs@[c]@[k]
                        == (if (c < ch && k < frames) || (c == ch && k < i) {
                        0
                    } else {
                        before[c]@[k]
                    }),
            decreases frames - i,
        {
            bufs[ch][i] = 0;
            i = i + 1;
        }
        ch = ch + 1;
    }
    proof {
        let after = bufs@.map_values(|b: Vec<u32>| b@);
        let wanted = with_inputs(
            before.map_values(|b: Vec<u32>| b@),
            inputs as nat,
            frames as nat,
            None,
        );
        assert forall|c: int| 0 <= c < after.len() implies after[c] == wanted[c] by {
            assert(after[c] =~= wanted[c]);
        }
        assert(after =~= wanted);
    }
}

/// How many frames the next block has, with `left` frames to go.
pub open spec fn block_frames(left: nat) -> nat {
    if left <= MAX_FRAMES {
        left
    } else {
        MAX_FRAMES as nat
    }
}

/// Frames of the next block of a callback with `total` frames, `done` of them
/// processed.
pub fn next_block(total: usize, done: usize) -> (frames: usize)
    requires
        done <= total,
    ensures
        frames == block_frames((total - done) as nat),
{
    if total - done <= MAX_FRAMES {
        total - done
    } else {
        MAX_FRAMES
    }
}

/// What the audio callback does for its next block.
#[derive(Clone, Copy, Debug, PartialEq, Eq, Structural)]
pub enum BlockStep {
    /// Every frame of the callback is processed.
    Done,
    /// Process a block of this many frames. `flush` says whether the plugin is
    /// to flush its parameters first.
    Block { frames: usize, flush: bool },
}

/// The next block of a callback with `total` frames, `done` of them processed.
/// A parameter flush that the plugin asked for happens before a block, on the
/// audio thread. `flags` is missing where another thread holds them; the request
/// then waits for a later block.
pub fn block_step(flags: Option<&mut HostFlags>, total: usize, done: usize) -> (step: BlockStep)
    requires
        done <= total,
    ensures
        step == if done == total {
            BlockStep::Done
        } else {
            BlockStep::Block {
                frames: block_frames((total - done) as nat) as usize,
                flush: match flags {
                    Some(f) => (*f).raised(crate::host::Signal::ParamsFlush),
                    None => false,
                },
            }
        },
        match flags {
            Some(f) => *final(f) == if done == total {
                *f
            } else {
                (*f).with(crate::host::Signal::ParamsFlush, false)
            },
            None => true,
        },
{
    if done == total {
        return BlockStep::Done;
    }
    let flush = match flags {
        Some(f) => take_params_flush_requested(f),
        None => false,
    };
    BlockStep::Block { frames: next_block(total, done), flush }
}

/// Owns everything the audio thread touches. Buffers are allocated once.
pub struct Engine {
    plugin: PluginPtr,
    device_channels: usize,
    bufs: Vec<Vec<u32>>,
    in_counts: Vec<u32>,
    out_counts: Vec<u32>,
    events: EvList,
    param_cookies: Vec<ParamCookie>,
    dialect: Dialect,
    steady_time: i64,
    started: bool,
    start_failed: bool,
}

impl View for Engine {
    type V = EngineState;

    closed spec fn view(&self) -> EngineState {
        EngineState {
            plugin: self.plugin,
            device_channels: self.device_channels as nat,
            bufs: self.bufs@.map_values(|b: Vec<u32>| b@),
            in_counts: self.in_counts@,
            out_counts: self.out_counts@,
            cookies: self.param_cookies@,
            events: self.events@,
            dialect: self.dialect,
            steady_time: self.steady_time as int,
            started: self.started,
            start_failed: self.start_failed,
        }
    }
}

fn silence(len: usize) -> (buf: Vec<u32>)
    ensures
        buf@ == Seq::new(len as nat, |i: int| 0u32),
{
    let buf: Vec<u32> = vec![0u32; len];
    assert(buf@ =~= Seq::new(len as nat, |i: int| 0u32));
    buf
}

impl Engine {
    /// An engine for a plugin with these ports, parameters and note dialect.
    /// All channels of one side are counted in 32 bits.
    pub fn new(
        plugin: PluginPtr,
        device_channels: usize,
        in_counts: Vec<u32>,
        out_counts: Vec<u32>,
        params: &Vec<ParamInfo>,
        dialect: Dialect,
    ) -> (engine: Engine)
        requires
            channel_sum(in_counts@) <= u32::MAX,
            channel_sum(out_counts@) <= u32::MAX,
            channel_sum(in_counts@) + channel_sum(served_outputs(out_counts@)) <= usize::MAX,
        ensures
            engine@.wf(),
            engine@ == (EngineState {
                plugin,
                device_channels: device_channels as nat,
                bufs: Seq::new(
                    channel_sum(in_counts@) + channel_sum(served_outputs(out_counts@)),
                    |c: int| Seq::new(MAX_FRAMES as nat, |i: int| 0u32),
                ),
                in_counts: in_counts@,
                out_counts: served_outputs(out_counts@),
                cookies: notes(params@),
                events: Seq::empty(),
                dialect,
                steady_time: 0,
                started: false,
                start_failed: false,
            }),
            engine@.plugin == plugin,
            engine@.dialect == dialect,
            engine@.device_channels == device_channels,
            engine@.in_counts == in_counts@,
    {
        let mut outs: Vec<u32> = out_counts;
        if sum_channels(&outs) == 0 {
            outs = vec![2u32];
            assert(outs@ =~= seq![2u32]);
        }
        proof {
            let two = seq![2u32];
            assert(two.drop_last() =~= Seq::empty());
            assert(channel_sum(two.drop_last()) == 0);
            assert(channel_sum(two) == 2);
        }
        let total: usize = sum_channels(&in_counts) as usize + sum_channels(&outs) as usize;
        let mut bufs: Vec<Vec<u32>> = Vec::new();
        let mut c: usize = 0;
        while c < total
            invariant
                c <= total,
                bufs@.len() == c,
                forall|k: int|
                    0 <= k < c ==> (#[trigger] bufs@[k])@ == Seq::new(
                        MAX_FRAMES as nat,
                        |i: int| 0u32,
                    ),
            decreases total - c,
        {
            bufs.push(silence(MAX_FRAMES));
            c = c + 1;
        }
        let mut param_cookies: Vec<ParamCookie> = Vec::new();
        let mut p: usize = 0;
        while p < params.len()
            invariant
                p <= params@.len(),
                param_cookies@ == notes(params@).take(p as int),
            decreases params@.len() - p,
        {
            param_cookies.push(ParamCookie { id: params[p].id, cookie: params[p].cookie });
            p = p + 1;
            assert(param_cookies@ =~= notes(params@).take(p as int));
        }
        assert(param_cookies@ =~= notes(params@));
        let engine = Engine {
            plugin,
            device_channels,
            bufs,
            in_counts,
            out_counts: outs,
            events: EvList::with_capacity(EVENT_CAP),
            param_cookies,
            dialect,
            steady_time: 0,
            started: false,
            start_failed: false,
        };
        assert(engine@.bufs =~= Seq::new(total as nat, |c: int|
            Seq::new(MAX_FRAMES as nat, |i: int| 0u32)));
        engine
    }

    /// Channels per port, inputs and outputs.
    pub fn port_layout(&self) -> (layout: (Vec<u32>, Vec<u32>))
        ensures
            layout.0@ == self@.in_counts,
            layout.1@ == self@.out_counts,
    {
        (self.in_counts.clone(), self.out_counts.clone())
    }

    pub fn dialect(&self) -> (d: Dialect)
        ensures
            d == self@.dialect,
    {
        self.dialect
    }

    pub fn plugin(&self) -> (p: PluginPtr)
        ensures
            p == self@.plugin,
    {
        self.plugin
    }

    /// The buffer of one channel, for the plugin to read or write.
    pub fn channel(&mut self, channel: usize) -> (buf: &mut [u32])
        requires
            channel < old(self)@.bufs.len(),
        ensures
            buf@ == old(self)@.bufs[channel as int],
            final(self)@ == (EngineState {
                bufs: old(self)@.bufs.update(channel as int, final(buf)@),
                ..old(self)@
            }),
    {
        self.bufs[channel].as_mut_slice()
    }

    /// How many frames an interleaved device buffer of this length holds.
    pub fn frames(&self, len: usize) -> (n: usize)
        requires
            self@.device_channels > 0,
        ensures
            n == len as nat / self@.device_channels,
    {
        len / self.device_channels
    }

    /// Where the first output port begins.
    fn main_out_offset(&self) -> (offset: usize)
        requires
            self@.wf(),
        ensures
            offset == self@.main_out_offset(),
    {
        sum_channels(&self.in_counts) as usize
    }

    /// Channels of the first output port.
    fn main_out_channels(&self) -> (n: usize)
        requires
            self@.wf(),
        ensures
            n == self@.main_out_channels(),
    {
        if self.out_counts[0] == 0 {
            1
        } else {
            self.out_counts[0] as usize
        }
    }

    /// Where the buffers of a port begin.
    pub fn port_base(&self, is_input: bool, port: usize) -> (base: usize)
        requires
            self@.wf(),
            is_input ==> port < self@.in_counts.len(),
            !is_input ==> port < self@.out_counts.len(),
        ensures
            base == self@.port_base(is_input, port as int),
            base + (if is_input {
                self@.in_counts[port as int]
            } else {
                self@.out_counts[port as int]
            }) <= self@.bufs.len(),
    {
        let counts = if is_input {
            &self.in_counts
        } else {
            &self.out_counts
        };
        let mut base: usize = if is_input {
            0
        } else {
            self.main_out_offset()
        };
        let ghost first = base;
        let ghost all = counts@;
        assert(self@.bufs.len() == self.bufs.len());
        let mut p: usize = 0;
        assert(channel_sum(all.take(0)) == 0);
        while p < port
            invariant
                p <= port < counts@.len(),
                counts@ == all,
                first + channel_sum(all) <= usize::MAX,
                base == first + channel_sum(all.take(p as int)),
            decreases port - p,
        {
            assert(all.take(p + 1).drop_last() =~= all.take(p as int));
            proof {
                prefix_sum_fits(all, p + 1);
            }
            base = base + counts[p] as usize;
            p = p + 1;
        }
        proof {
            assert(all.take(port + 1).drop_last() =~= all.take(port as int));
            prefix_sum_fits(all, port + 1);
        }
        base
    }

    /// cpal callback body, up to the blocks: what to do now. `stop` is the
    /// session's command to stop; start and stop of processing belong on the
    /// audio thread, so they happen here.
    pub fn process(&mut self, stop: bool) -> (step: ProcessStep)
        ensures
            step == old(self)@.step(stop),
            final(self)@ == if step is Halt {
                EngineState { started: false, ..old(self)@ }
            } else {
                old(self)@
            },
            step is Halt ==> !final(self)@.started,
            !(step is Halt) ==> final(self)@.started == old(self)@.started,
            final(self)@.start_failed == old(self)@.start_failed,
            final(self)@.steady_time == old(self)@.steady_time,
            final(self)@.events == old(self)@.events,
    {
        if self.device_channels == 0 {
            return ProcessStep::Skip;
        }
        if stop {
            return ProcessStep::Halt { stop_processing: self.halt_processing() };
        }
        if !self.started && !self.start_failed {
            return ProcessStep::Start;
        }
        if self.start_failed {
            return ProcessStep::Silent;
        }
        ProcessStep::Run
    }

    /// Whether the plugin is to stop processing: once after it started.
    fn halt_processing(&mut self) -> (stop_processing: bool)
        ensures
            stop_processing == old(self)@.started,
            final(self)@ == (EngineState { started: false, ..old(self)@ }),
    {
        let started = self.started;
        self.started = false;
        started
    }

    /// The plugin's answer to `start_processing`; true where it has none to
    /// ask. A plugin that did not start stays silent and is not asked again.
    pub fn start_result(&mut self, ok: bool)
        ensures
            final(self)@ == old(self)@.after_start(ok),
    {
        if ok {
            self.started = true;
        } else {
            self.start_failed = true;
        }
    }

    /// Collect the events for this callback: every queued MIDI message, then
    /// some UI requests, all at frame 0. What is over the cap stays queued.
    pub fn collect_events(&mut self, midi_rx: &mut Queue<RawMidi>, ui_rx: &mut Queue<UiEvent>)
        ensures
            final(midi_rx)@ == Seq::<RawMidi>::empty(),
            final(midi_rx).capacity() == old(midi_rx).capacity(),
            final(midi_rx).wf(),
            final(ui_rx)@ == old(ui_rx)@.skip(taken(old(ui_rx)@.len()) as int),
            final(ui_rx).capacity() == old(ui_rx).capacity(),
            old(ui_rx).wf() ==> final(ui_rx).wf(),
            final(self)@ == (EngineState {
                events: with_ui(
                    with_midi(Seq::empty(), old(midi_rx)@, old(self)@.dialect),
                    old(ui_rx)@.take(taken(old(ui_rx)@.len()) as int),
                    old(self)@.cookies,
                    old(self)@.dialect,
                ),
                ..old(self)@
            }),
            final(self)@.events == old(midi_rx)@.filter_map(
                |m: RawMidi| crate::events::midi_event(m, old(self)@.dialect, 0),
            ) + old(ui_rx)@.take(taken(old(ui_rx)@.len()) as int).filter_map(
                |r: UiEvent|
                    match r {
                        UiEvent::Param { id, value } => Some(
                            crate::events::param_event(
                                id,
                                value,
                                noted_cookie(old(self)@.cookies, id),
                                0,
                            ),
                        ),
                        UiEvent::Midi(m) => crate::events::midi_event(m, old(self)@.dialect, 0),
                    },
            ),
    {
        let ghost messages = midi_rx@;
        let ghost requests = ui_rx@;
        let ghost start = self@;
        self.events.clear();
        let ghost mut n: int = 0;
        assert(messages.skip(0) =~= messages);
        while !midi_rx.is_empty()
            invariant
                messages == old(midi_rx)@,
                midi_rx.capacity() == old(midi_rx).capacity(),
                0 <= n <= messages.len(),
                midi_rx@ == messages.skip(n),
                self@ == (EngineState {
                    events: with_midi(Seq::empty(), messages.take(n), start.dialect),
                    ..start
                }),
            decreases midi_rx@.len(),
        {
            let ghost left = midi_rx@;
            if let Some(msg) = midi_rx.pop() {
                self.events.push_midi(msg, self.dialect, 0);
                proof {
                    assert(msg == left[0]);
                    assert(messages.take(n + 1).drop_last() =~= messages.take(n));
                    assert(left.skip(1) =~= messages.skip(n + 1));
                    n = n + 1;
                }
            }
        }
        assert(messages.take(n) =~= messages);
        let ghost midi = with_midi(Seq::empty(), messages, start.dialect);
        let mut i: usize = 0;
        assert(requests.take(0) =~= Seq::empty());
        assert(requests.skip(0) =~= requests);
        while i < MAX_UI_EVENTS && !ui_rx.is_empty()
            invariant
                requests == old(ui_rx)@,
                ui_rx.capacity() == old(ui_rx).capacity(),
                i <= MAX_UI_EVENTS,
                i <= requests.len(),
                ui_rx@ == requests.skip(i as int),
                self@ == (EngineState {
                    events: with_ui(midi, requests.take(i as int), start.cookies, start.dialect),
                    ..start
                }),
            ensures
                i == taken(requests.len()),
            decreases MAX_UI_EVENTS - i,
        {
            let ghost left = ui_rx@;
            if let Some(event) = ui_rx.pop() {
                match event {
                    UiEvent::Param { id, value } => {
                        let cookie: u64 = find_cookie(&self.param_cookies, id);
                        self.events.push_param(id, value, cookie, 0);
                    },
                    UiEvent::Midi(msg) => self.events.push_midi(msg, self.dialect, 0),
                }
                proof {
                    assert(event == left[0]);
                    assert(requests.take(i + 1).drop_last() =~= requests.take(i as int));
                    assert(left.skip(1) =~= requests.skip(i + 1));
                }
            }
            i = i + 1;
        }
        proof {
            let first = requests.take(taken(requests.len()) as int);
            messages_arrive_in_the_dialect(Seq::empty(), messages, start.dialect);
            requests_arrive_in_order(midi, first, start.cookies, start.dialect);
            let heard = |m: RawMidi| crate::events::midi_event(m, start.dialect, 0);
            assert(Seq::empty() + messages.filter_map(heard) =~= messages.filter_map(heard));
        }
    }

    /// Prepare one block: fill the plugin's input buffers from the capture, or
    /// with silence where there is none, and say what the plugin is told.
    pub fn process_block(&mut self, capture: Option<&mut Queue<u32>>, frames: usize) -> (
        block: Block)
        requires
            old(self)@.wf(),
            frames <= MAX_FRAMES,
        ensures
            final(self)@.wf(),
            final(self)@ == (EngineState {
                bufs: with_inputs(
                    old(self)@.bufs,
                    old(self)@.main_out_offset(),
                    frames as nat,
                    match capture {
                        Some(queue) => Some((*queue)@),
                        None => None,
                    },
                ),
                ..old(self)@
            }),
            match capture {
                Some(queue) => {
                    &&& final(queue)@ == samples_left(
                        (*queue)@,
                        frames * old(self)@.main_out_offset(),
                    )
                    &&& final(queue).capacity() == (*queue).capacity()
                    &&& (*queue).wf() ==> final(queue).wf()
                },
                None => true,
            },
            block.steady_time == old(self)@.steady_time,
            block.frames_count == frames,
            block.audio_inputs_count == old(self)@.in_counts.len() as u32,
            block.audio_outputs_count == old(self)@.out_counts.len() as u32,
    {
        let inputs: usize = self.main_out_offset();
        let ghost before = self@;
        proof {
            assert forall|c: int| 0 <= c < self.bufs@.len() implies (#[trigger] self.bufs@[c])@.len()
                >= frames by {
                assert(self@.bufs[c].len() == MAX_FRAMES);
            }
        }
        match capture {
            Some(queue) => deinterleave(&mut self.bufs, queue, inputs, frames),
            None => clear_inputs(&mut self.bufs, inputs, frames),
        }
        Block {
            steady_time: self.steady_time,
            frames_count: frames as u32,
            audio_inputs_count: self.in_counts.len() as u32,
            audio_outputs_count: self.out_counts.len() as u32,
        }
    }

    /// Plugin output, channel by channel, into the interleaved device buffer.
    pub fn interleave(&self, data: &mut [u32], frame_offset: usize, frames: usize)
        requires
            self@.wf(),
            frames <= MAX_FRAMES,
            (frame_offset + frames) * self@.device_channels <= old(data)@.len(),
        ensures
            final(data)@ == interleaved(self@, old(data)@, frame_offset as nat, frames as nat),
    {
        let dev: usize = self.device_channels;
        let offset: usize = self.main_out_offset();
        let main: usize = self.main_out_channels();
        let ghost before = data@;
        let mut i: usize = 0;
        assert(data.len() == before.len());
        proof {
            assert(frame_offset * dev <= (frame_offset + frames) * dev) by (nonlinear_arith);
            assert((frame_offset + 0) * dev == frame_offset * dev);
        }
        while i < frames
            invariant
                i <= frames <= MAX_FRAMES,
                self@.wf(),
                dev == self@.device_channels,
                offset == self@.main_out_offset(),
                main == self@.main_out_channels(),
                data@.len() == before.len(),
                before.len() <= usize::MAX,
                (frame_offset + frames) * dev <= before.len(),
                forall|k: int|
                    0 <= k < before.len() ==> #[trigger] data@[k] == if frame_offset * dev <= k < (
                    frame_offset + i) * dev {
                        played(self@, k - frame_offset * dev)
                    } else {
                        before[k]
                    },
            decreases frames - i,
        {
            let ghost row = (frame_offset + i) * dev;
            proof {
                assert((frame_offset + i + 1) * dev == row + dev) by (nonlinear_arith)
                    requires
                        row == (frame_offset + i) * dev,
                ;
                assert((frame_offset + i + 1) * dev <= (frame_offset + frames) * dev)
                    by (nonlinear_arith)
                    requires
                        i < frames,
                ;
                assert(row == frame_offset * dev + i * dev) by (nonlinear_arith)
                    requires
                        row == (frame_offset + i) * dev,
                ;
                assert(0 <= i * dev) by (nonlinear_arith);
                assert(0 <= frame_offset * dev) by (nonlinear_arith);
                assert(dev > 0 ==> frame_offset + i <= (frame_offset + i) * dev) by (
                    nonlinear_arith
                );
            }
            let mut ch: usize = 0;
            while ch < dev
                invariant
                    ch <= dev,
                    i < frames <= MAX_FRAMES,
                    self@.wf(),
                    dev == self@.device_channels,
                    offset == self@.main_out_offset(),
                    main == self@.main_out_channels(),
                    data@.len() == before.len(),
                    before.len() <= usize::MAX,
                    row == (frame_offset + i) * dev,
                    row == frame_offset * dev + i * dev,
                    0 <= i * dev,
                    0 <= frame_offset * dev,
                    dev > 0 ==> frame_offset + i <= row,
                    row + dev <= before.len(),
                    forall|k: int|
                        0 <= k < before.len() ==> #[trigger] data@[k] == if frame_offset * dev <= k
                            < row + ch {
                            played(self@, k - frame_offset * dev)
                        } else {
                            before[k]
                        },
                decreases dev - ch,
            {
                proof {
                    source_exists(self@, ch as int);
                    assert(self@.bufs.len() == self.bufs.len());
                    played_in_row(self@, i as int, ch as int);
                }
                let from: usize = offset + if ch < main {
                    ch
                } else {
                    main - 1
                };
                assert(self@.bufs[from as int].len() == MAX_FRAMES);
                data[(frame_offset + i) * dev + ch] = self.bufs[from][i];
                ch = ch + 1;
            }
            i = i + 1;
        }
        assert(data@ =~= interleaved(self@, before, frame_offset as nat, frames as nat));
    }

    /// A block is through: its events were for it alone, and time went on.
    pub fn finish_block(&mut self, frames: usize)
        requires
            frames <= MAX_FRAMES,
            old(self)@.steady_time + frames <= i64::MAX,
        ensures
            final(self)@ == old(self)@.after_block(frames as nat),
    {
        self.events.clear();
        self.steady_time = self.steady_time + frames as i64;
    }

    /// The events of the block at hand.
    pub fn events(&self) -> (events: &EvList)
        ensures
            events@ == self@.events,
    {
        &self.events
    }
}

/// The sample that the device plays at a place counted from the start of a
/// block: frame by frame, one sample per device channel.
pub open spec fn played(state: EngineState, at: int) -> u32 {
    let frame = at / (state.device_channels as int);
    let channel = at % (state.device_channels as int);
    state.bufs[state.source(channel)][frame]
}

/// A device buffer after a block was written into it.
pub open spec fn interleaved(
    state: EngineState,
    data: Seq<u32>,
    frame_offset: nat,
    frames: nat,
) -> Seq<u32> {
    let from = frame_offset * state.device_channels;
    let to = (frame_offset + frames) * state.device_channels;
    Seq::new(
        data.len(),
        |k: int|
            if from <= k < to {
                played(state, k - from)
            } else {
                data[k]
            },
    )
}

proof fn played_in_row(state: EngineState, frame: int, channel: int)
    requires
        0 <= frame,
        0 <= channel < state.device_channels,
    ensures
        played(state, frame * state.device_channels + channel) == state.bufs[state.source(
            channel,
        )][frame],
{
    let dev = state.device_channels as int;
    vstd::arithmetic::div_mod::lemma_fundamental_div_mod_converse(
        frame * dev + channel,
        dev,
        frame,
        channel,
    );
}

/// The blocks that a callback with `total` frames is cut into.
pub open spec fn blocks(total: nat) -> Seq<nat>
    decreases total,
{
    if total == 0 {
        Seq::empty()
    } else {
        let frames = block_frames(total);
        seq![frames] + blocks((total - frames) as nat)
    }
}

/// Frames of several blocks together.
pub open spec fn frame_sum(blocks: Seq<nat>) -> nat
    decreases blocks.len(),
{
    if blocks.len() == 0 {
        0
    } else {
        blocks[0] + frame_sum(blocks.skip(1))
    }
}

/// The engine after several blocks.
pub open spec fn after_blocks(state: EngineState, blocks: Seq<nat>) -> EngineState
    decreases blocks.len(),
{
    if blocks.len() == 0 {
        state
    } else {
        after_blocks(state.after_block(blocks[0]), blocks.skip(1))
    }
}

/// A block is the one that comes next once those before it are done, of `total`
/// frames.
pub open spec fn follows(blocks: Seq<nat>, i: int, total: nat) -> bool {
    let done = frame_sum(blocks.take(i));
    done < total && blocks[i] == block_frames((total - done) as nat)
}

/// Law: a callback is cut into blocks that the plugin can take and that cover
/// its frames exactly, as few as possible: all are of the largest size but the
/// last. Each is the one that `block_step` names once those before it are done.
pub proof fn blocks_cover_the_callback(total: nat)
    ensures
        frame_sum(blocks(total)) == total,
        MAX_FRAMES == 4096,
        blocks(total).len() == (total + MAX_FRAMES - 1) / (MAX_FRAMES as int),
        forall|i: int|
            0 <= i < blocks(total).len() ==> 0 < #[trigger] blocks(total)[i] <= MAX_FRAMES,
        forall|i: int|
            0 <= i < blocks(total).len() - 1 ==> #[trigger] blocks(total)[i] == MAX_FRAMES,
        forall|i: int| 0 <= i < blocks(total).len() ==> #[trigger] follows(blocks(total), i, total),
    decreases total,
{
    if total > 0 {
        let frames = block_frames(total);
        let rest = blocks((total - frames) as nat);
        let all = blocks(total);
        blocks_cover_the_callback((total - frames) as nat);
        assert(all.skip(1) =~= rest);
        assert forall|i: int| 0 <= i < all.len() implies 0 < #[trigger] all[i] <= MAX_FRAMES by {
            if i > 0 {
                assert(all[i] == rest[i - 1]);
            }
        }
        assert forall|i: int| 0 <= i < all.len() - 1 implies #[trigger] all[i] == MAX_FRAMES by {
            if i > 0 {
                assert(all[i] == rest[i - 1]);
            }
        }
        assert forall|i: int| 0 <= i < all.len() implies #[trigger] follows(all, i, total) by {
            if i > 0 {
                assert(follows(rest, i - 1, (total - frames) as nat));
                assert(all[i] == rest[i - 1]);
                assert(all.take(i).skip(1) =~= rest.take(i - 1));
                assert(all.take(i)[0] == frames);
            }
        }
    }
}

/// Law: the steady time that a block is told counts the frames of all blocks
/// before it, whatever callbacks they belong to, on from where it stood.
pub proof fn steady_time_counts_frames(state: EngineState, blocks: Seq<nat>)
    ensures
        after_blocks(state, blocks).steady_time == state.steady_time + frame_sum(blocks),
    decreases blocks.len(),
{
    if blocks.len() > 0 {
        steady_time_counts_frames(state.after_block(blocks[0]), blocks.skip(1));
    }
}

/// Law: events reach the first block of a callback only, and the steady time
/// grows by exactly the frames of the callback; nothing else changes between
/// blocks.
pub proof fn blocks_keep_time(state: EngineState, total: nat)
    ensures
        after_blocks(state, blocks(total)) == (EngineState {
            events: if total > 0 {
                Seq::empty()
            } else {
                state.events
            },
            steady_time: state.steady_time + total,
            ..state
        }),
    decreases total,
{
    if total > 0 {
        let frames = block_frames(total);
        let rest = blocks((total - frames) as nat);
        assert(blocks(total).skip(1) =~= rest);
        blocks_keep_time(state.after_block(frames), (total - frames) as nat);
    }
}

/// Law: the ports of one side lie one behind the other: each begins where the
/// one before ends, inputs first, and together they use every buffer.
pub proof fn ports_lie_in_a_row(state: EngineState, is_input: bool, port: int)
    requires
        state.wf(),
        0 <= port < if is_input {
            state.in_counts.len()
        } else {
            state.out_counts.len()
        },
    ensures
        ({
            let counts = if is_input {
                state.in_counts
            } else {
                state.out_counts
            };
            state.port_base(is_input, port + 1) == state.port_base(is_input, port) + counts[port]
        }),
        state.port_base(true, 0) == 0,
        state.port_base(true, state.in_counts.len() as int) == state.port_base(false, 0),
        state.port_base(false, state.out_counts.len() as int) == state.bufs.len(),
{
    let counts = if is_input {
        state.in_counts
    } else {
        state.out_counts
    };
    assert(counts.take(port + 1).drop_last() =~= counts.take(port));
    assert(state.in_counts.take(state.in_counts.len() as int) =~= state.in_counts);
    assert(state.out_counts.take(state.out_counts.len() as int) =~= state.out_counts);
    assert(channel_sum(state.in_counts.take(0)) == 0);
    assert(channel_sum(state.out_counts.take(0)) == 0);
}

/// Law: every device channel that the plugin has a channel for plays that
/// channel of the first output port; those beyond repeat its last channel.
pub proof fn devices_hear_the_first_port(state: EngineState, channel: int)
    requires
        state.wf(),
        0 <= channel,
    ensures
        0 <= state.source(channel) < state.bufs.len(),
        channel < state.out_counts[0] ==> state.source(channel) == state.port_base(false, 0)
            + channel,
        channel >= state.out_counts[0] > 0 ==> state.source(channel) == state.port_base(false, 0)
            + state.out_counts[0] - 1,
        state.out_counts[0] == 0 ==> state.source(channel) == state.port_base(false, 0),
{
    source_exists(state, channel);
    assert(channel_sum(state.out_counts.take(0)) == 0);
}

/// Law: a block that was written into a device buffer plays, in every frame and
/// on every device channel, the sample of the buffer that the channel listens
/// to, and the rest of the device buffer is as before.
pub proof fn frames_play_their_channels(
    state: EngineState,
    data: Seq<u32>,
    frame_offset: nat,
    frames: nat,
    f: int,
    c: int,
)
    requires
        state.wf(),
        frames <= MAX_FRAMES,
        (frame_offset + frames) * state.device_channels <= data.len(),
        0 <= f < frames,
        0 <= c < state.device_channels,
    ensures
        interleaved(state, data, frame_offset, frames)[(frame_offset + f) * state.device_channels
            + c] == state.bufs[state.source(c)][f],
        interleaved(state, data, frame_offset, frames).len() == data.len(),
        forall|k: int|
            0 <= k < data.len() && !(frame_offset * state.device_channels <= k < (frame_offset
                + frames) * state.device_channels) ==> #[trigger] interleaved(
                state,
                data,
                frame_offset,
                frames,
            )[k] == data[k],
{
    let dev = state.device_channels as int;
    let at = (frame_offset + f) * dev + c;
    assert(at - frame_offset * dev == f * dev + c) by (nonlinear_arith)
        requires
            at == (frame_offset + f) * dev + c,
    ;
    assert(0 <= f * dev) by (nonlinear_arith)
        requires
            0 <= f,
            0 <= dev,
    ;
    assert((frame_offset + f + 1) * dev == (frame_offset + f) * dev + dev) by (nonlinear_arith);
    assert((frame_offset + f + 1) * dev <= (frame_offset + frames) * dev) by (nonlinear_arith)
        requires
            f + 1 <= frames,
            0 <= dev,
    ;
    assert(0 <= frame_offset * dev) by (nonlinear_arith)
        requires
            0 <= dev,
    ;
    played_in_row(state, f, c);
}

/// Law: an event for a parameter carries the cookie that the plugin gave for
/// it, the same as when the parameter is set while the plugin is deactivated.
pub proof fn cookies_agree(params: Seq<ParamInfo>, id: u32)
    ensures
        noted_cookie(notes(params), id) == crate::loader::cookie_for(params, id),
    decreases params.len(),
{
    if params.len() > 0 {
        assert(notes(params)[0].id == params[0].id);
        if params[0].id != id {
            assert(notes(params).skip(1) =~= notes(params.skip(1)));
            cookies_agree(params.skip(1), id);
        }
    }
}

/// Law: no request of the UI is lost or taken twice by a callback, and their
/// order is kept: what one callback takes and what it leaves are what waited.
pub proof fn bursts_are_spread(waiting: Seq<UiEvent>)
    ensures
        waiting.take(taken(waiting.len()) as int) + waiting.skip(taken(waiting.len()) as int)
            == waiting,
        taken(waiting.len()) <= MAX_UI_EVENTS,
        waiting.len() > 0 ==> taken(waiting.len()) > 0,
        waiting.len() <= 32 ==> taken(waiting.len()) == waiting.len(),
        waiting.len() > 32 ==> taken(waiting.len()) == 32,
{
}

/// Law: one callback never collects more events than the event list has room
/// for.
pub proof fn collected_events_fit(
    messages: Seq<RawMidi>,
    requests: Seq<UiEvent>,
    cookies: Seq<ParamCookie>,
    dialect: Dialect,
)
    requires
        messages.len() <= QUEUE_CAP,
        requests.len() <= MAX_UI_EVENTS,
    ensures
        with_ui(with_midi(Seq::empty(), messages, dialect), requests, cookies, dialect).len()
            <= EVENT_CAP,
{
    midi_adds_few(Seq::empty(), messages, dialect);
    ui_adds_few(with_midi(Seq::empty(), messages, dialect), requests, cookies, dialect);
}

proof fn midi_adds_few(
    events: Seq<crate::events::Event>,
    messages: Seq<RawMidi>,
    dialect: Dialect,
)
    ensures
        with_midi(events, messages, dialect).len() <= events.len() + messages.len(),
    decreases messages.len(),
{
    if messages.len() > 0 {
        midi_adds_few(events, messages.drop_last(), dialect);
    }
}

proof fn ui_adds_few(
    events: Seq<crate::events::Event>,
    requests: Seq<UiEvent>,
    cookies: Seq<ParamCookie>,
    dialect: Dialect,
)
    ensures
        with_ui(events, requests, cookies, dialect).len() <= events.len() + requests.len(),
    decreases requests.len(),
{
    if requests.len() > 0 {
        ui_adds_few(events, requests.drop_last(), cookies, dialect);
    }
}

/// Law: a callback hands the plugin its MIDI messages in the plugin's own
/// dialect. Behind the events that were there stand, in order, the events that
/// the messages become at frame 0; messages that the dialect cannot express leave
/// nothing behind.
pub proof fn messages_arrive_in_the_dialect(
    events: Seq<crate::events::Event>,
    messages: Seq<RawMidi>,
    dialect: Dialect,
)
    ensures
        with_midi(events, messages, dialect) == events + messages.filter_map(
            |m: RawMidi| crate::events::midi_event(m, dialect, 0),
        ),
    decreases messages.len(),
{
    let heard = |m: RawMidi| crate::events::midi_event(m, dialect, 0);
    if messages.len() > 0 {
        messages_arrive_in_the_dialect(events, messages.drop_last(), dialect);
    }
    assert(with_midi(events, messages, dialect) =~= events + messages.filter_map(heard));
}

/// Law: a plugin that takes CLAP notes is handed notes only, one that takes MIDI
/// is handed every message as it came, each once and in order, and one without a
/// note port is handed nothing.
pub proof fn plugins_hear_their_dialect(messages: Seq<RawMidi>, k: int)
    ensures
        with_midi(Seq::empty(), messages, Dialect::Absent).len() == 0,
        with_midi(Seq::empty(), messages, Dialect::Midi).len() == messages.len(),
        0 <= k < messages.len() ==> {
            let event = with_midi(Seq::empty(), messages, Dialect::Midi)[k];
            &&& event.body == (crate::events::EventBody::Midi {
                port_index: 0u16,
                data: messages[k],
            })
            &&& event.header.time == 0
        },
        0 <= k < with_midi(Seq::empty(), messages, Dialect::Clap).len() ==> with_midi(
            Seq::empty(),
            messages,
            Dialect::Clap,
        )[k].body is Note && with_midi(Seq::empty(), messages, Dialect::Clap)[k].header.time == 0,
    decreases messages.len(),
{
    if messages.len() > 0 {
        plugins_hear_their_dialect(messages.drop_last(), k);
        crate::events::note_fields_are_the_low_bits(messages.last(), 0);
        crate::events::midi_dialect_is_transparent(messages.last(), 0);
    }
}

/// Law: a note message in the queue is heard by a plugin of the CLAP dialect,
/// wherever it stands in the queue: its channel, key and velocity are among the
/// events, and every event comes from such a message.
pub proof fn queued_notes_are_heard(messages: Seq<RawMidi>)
    ensures
        ({
            let events = with_midi(Seq::empty(), messages, Dialect::Clap);
            &&& forall|k: int|
                0 <= k < messages.len() && (messages[k][0] / 16 == 8 || (#[trigger] messages[k])[0]
                    / 16 == 9) ==> events.contains(
                    crate::events::midi_event(messages[k], Dialect::Clap, 0)->0,
                )
            &&& forall|j: int| #![trigger events[j]]
                0 <= j < events.len() ==> exists|k: int|
                    0 <= k < messages.len() && crate::events::midi_event(
                        #[trigger] messages[k],
                        Dialect::Clap,
                        0,
                    ) == Some(events[j])
        }),
    decreases messages.len(),
{
    let events = with_midi(Seq::empty(), messages, Dialect::Clap);
    if messages.len() > 0 {
        let front = messages.drop_last();
        let before = with_midi(Seq::empty(), front, Dialect::Clap);
        let heard = crate::events::midi_event(messages.last(), Dialect::Clap, 0);
        queued_notes_are_heard(front);
        crate::events::clap_dialect_is_notes_only(messages.last(), 0);
        assert forall|k: int|
            0 <= k < messages.len() && (messages[k][0] / 16 == 8 || (#[trigger] messages[k])[0] / 16
                == 9) implies events.contains(
            crate::events::midi_event(messages[k], Dialect::Clap, 0)->0,
        ) by {
            if k < front.len() {
                assert(messages[k] == front[k]);
                let e = crate::events::midi_event(front[k], Dialect::Clap, 0)->0;
                assert(before.contains(e));
                let at = choose|at: int| 0 <= at < before.len() && before[at] == e;
                assert(events[at] == e);
            } else {
                assert(events.last() == heard->0);
            }
        }
        assert forall|j: int| #![trigger events[j]] 0 <= j < events.len() implies exists|k: int|
            0 <= k < messages.len() && crate::events::midi_event(
                #[trigger] messages[k],
                Dialect::Clap,
                0,
            ) == Some(events[j]) by {
            if j < before.len() {
                assert(events[j] == before[j]);
                let k = choose|k: int|
                    0 <= k < front.len() && crate::events::midi_event(
                        #[trigger] front[k],
                        Dialect::Clap,
                        0,
                    ) == Some(before[j]);
                assert(messages[k] == front[k]);
            } else {
                assert(messages[messages.len() - 1] == messages.last());
            }
        }
    }
}

/// Law: requests of the UI reach the plugin in order, behind the events that were
/// there: a moved slider sets its parameter to its value with the plugin's
/// cookie, a played key arrives in the plugin's dialect.
pub proof fn requests_arrive_in_order(
    events: Seq<crate::events::Event>,
    requests: Seq<UiEvent>,
    cookies: Seq<ParamCookie>,
    dialect: Dialect,
)
    ensures
        with_ui(events, requests, cookies, dialect) == events + requests.filter_map(
            |r: UiEvent|
                match r {
                    UiEvent::Param { id, value } => Some(
                        crate::events::param_event(id, value, noted_cookie(cookies, id), 0),
                    ),
                    UiEvent::Midi(m) => crate::events::midi_event(m, dialect, 0),
                },
        ),
    decreases requests.len(),
{
    let heard = |r: UiEvent|
        match r {
            UiEvent::Param { id, value } => Some(
                crate::events::param_event(id, value, noted_cookie(cookies, id), 0),
            ),
            UiEvent::Midi(m) => crate::events::midi_event(m, dialect, 0),
        };
    if requests.len() > 0 {
        requests_arrive_in_order(events, requests.drop_last(), cookies, dialect);
    }
    assert(with_ui(events, requests, cookies, dialect) =~= events + requests.filter_map(heard));
}

/// Law: a parameter's event carries the cookie that the plugin gave with the
/// first parameter of that id, and none where the plugin has no such parameter.
pub proof fn cookies_are_the_plugins(params: Seq<ParamInfo>, id: u32, i: int)
    ensures
        0 <= i < params.len() && params[i].id == id && (forall|j: int|
            0 <= j < i ==> (#[trigger] params[j]).id != id) ==> noted_cookie(notes(params), id)
            == params[i].cookie,
        (forall|j: int| 0 <= j < params.len() ==> (#[trigger] params[j]).id != id) ==> noted_cookie(
            notes(params),
            id,
        ) == 0,
    decreases params.len(),
{
    if params.len() > 0 {
        let rest = params.skip(1);
        assert(notes(params)[0].id == params[0].id);
        assert(notes(params).skip(1) =~= notes(rest));
        cookies_are_the_plugins(rest, id, i - 1);
        assert forall|j: int| 0 <= j < rest.len() implies #[trigger] rest[j] == params[j + 1] by {}
    }
}

/// Law: captured samples reach the input channels frame by frame: sample number
/// `frame * inputs + channel` is heard on that channel in that frame, silence
/// where the capture ran out or there is none. Nothing else changes.
pub proof fn captured_samples_reach_their_channel(
    bufs: Seq<Seq<u32>>,
    inputs: nat,
    frames: nat,
    captured: Option<Seq<u32>>,
    c: int,
    f: int,
)
    requires
        0 <= c < bufs.len(),
        0 <= f < bufs[c].len(),
    ensures
        with_inputs(bufs, inputs, frames, captured).len() == bufs.len(),
        with_inputs(bufs, inputs, frames, captured)[c].len() == bufs[c].len(),
        c < inputs && f < frames && captured is Some && f * inputs + c < captured->0.len()
            ==> with_inputs(bufs, inputs, frames, captured)[c][f] == captured->0[f * inputs + c],
        c < inputs && f < frames && captured is Some && f * inputs + c >= captured->0.len()
            ==> with_inputs(bufs, inputs, frames, captured)[c][f] == 0,
        c < inputs && f < frames && captured is None ==> with_inputs(
            bufs,
            inputs,
            frames,
            captured,
        )[c][f] == 0,
        c >= inputs || f >= frames ==> with_inputs(bufs, inputs, frames, captured)[c][f]
            == bufs[c][f],
{
    assert(0 <= f * inputs) by (nonlinear_arith)
        requires
            0 <= f,
    ;
}

/// Law: every captured sample is used once. A block takes as many from the front
/// as it has frames and input channels, and the next one goes on from there.
pub proof fn captured_samples_are_used_once(samples: Seq<u32>, a: nat, b: nat)
    ensures
        a <= samples.len() ==> samples.take(a as int) + samples_left(samples, a as int) == samples,
        a >= samples.len() ==> samples_left(samples, a as int).len() == 0,
        samples_left(samples_left(samples, a as int), b as int) == samples_left(
            samples,
            (a + b) as int,
        ),
{
    assert(a <= samples.len() ==> samples.take(a as int) + samples_left(samples, a as int)
        =~= samples);
    assert(samples_left(samples_left(samples, a as int), b as int) =~= samples_left(
        samples,
        (a + b) as int,
    ));
}

/// Law: channels of ports add up.
pub proof fn channels_add_up(a: Seq<u32>, b: Seq<u32>, n: u32)
    ensures
        channel_sum(Seq::empty()) == 0,
        channel_sum(seq![n]) == n,
        channel_sum(a + b) == channel_sum(a) + channel_sum(b),
    decreases b.len(),
{
    assert(seq![n].drop_last() =~= Seq::empty());
    assert(channel_sum(seq![n].drop_last()) == 0);
    if b.len() > 0 {
        channels_add_up(a, b.drop_last(), n);
        assert((a + b).drop_last() =~= a + b.drop_last());
    } else {
        assert(a + b =~= a);
    }
}

proof fn no_channels(counts: Seq<u32>)
    ensures
        channel_sum(counts) == 0 <==> forall|i: int|
            0 <= i < counts.len() ==> #[trigger] counts[i] == 0,
    decreases counts.len(),
{
    if counts.len() > 0 {
        let front = counts.drop_last();
        no_channels(front);
        assert(counts[counts.len() - 1] == counts.last());
        assert forall|i: int| 0 <= i < front.len() implies #[trigger] front[i] == counts[i] by {}
        if channel_sum(counts) == 0 {
            assert forall|i: int| 0 <= i < counts.len() implies #[trigger] counts[i] == 0 by {
                if i < front.len() {
                    assert(front[i] == counts[i]);
                }
            }
        }
    }
}

/// Law: a plugin keeps the output ports that it has, and one without any output
/// channel is given one stereo port.
pub proof fn every_plugin_has_an_output(counts: Seq<u32>)
    ensures
        (exists|i: int| 0 <= i < counts.len() && #[trigger] counts[i] > 0) ==> served_outputs(counts)
            == counts,
        (forall|i: int| 0 <= i < counts.len() ==> #[trigger] counts[i] == 0) ==> served_outputs(
            counts,
        ) == seq![2u32],
{
    no_channels(counts);
}

/// Law: what a callback does is decided in this order: a device without channels
/// is skipped, a command to stop is obeyed, a plugin that would not start stays
/// silent, a started one runs, and any other is started. A plugin that started
/// runs from then on; one that would not is not asked again.
pub proof fn callbacks_do_one_thing(state: EngineState, stop: bool, ok: bool)
    ensures
        state.step(stop) is Skip <==> state.device_channels == 0,
        state.step(stop) is Halt <==> stop && state.device_channels > 0,
        state.step(stop) is Halt ==> state.step(stop)->stop_processing == state.started,
        state.step(stop) is Silent <==> !stop && state.device_channels > 0 && state.start_failed,
        state.step(stop) is Run <==> !stop && state.device_channels > 0 && !state.start_failed
            && state.started,
        state.step(stop) is Start <==> !stop && state.device_channels > 0 && !state.start_failed
            && !state.started,
        state.step(false) is Start ==> state.after_start(true).step(false) is Run
            && state.after_start(false).step(false) is Silent,
        state.after_start(ok).events == state.events,
        state.after_start(ok).steady_time == state.steady_time,
        state.after_start(ok).bufs == state.bufs,
{
}

/// A call that the audio thread makes to the plugin.
pub enum AudioCall {
    /// `start_processing`, with its answer.
    Start(bool),
    /// `process`, for all blocks of a callback.
    Process,
    /// `stop_processing`.
    Stop,
}

/// The calls of one callback: `stop` is the command of the session, `ok` what
/// `start_processing` answers if it is called.
pub open spec fn callback_calls(state: EngineState, stop: bool, ok: bool) -> Seq<AudioCall> {
    match state.step(stop) {
        ProcessStep::Halt { stop_processing } => if stop_processing {
            seq![AudioCall::Stop]
        } else {
            seq![]
        },
        ProcessStep::Start => if state.after_start(ok).step(stop) is Run {
            seq![AudioCall::Start(ok), AudioCall::Process]
        } else {
            seq![AudioCall::Start(ok)]
        },
        ProcessStep::Run => seq![AudioCall::Process],
        _ => seq![],
    }
}

/// The engine after one callback, as far as starting and stopping goes.
pub open spec fn after_callback(state: EngineState, stop: bool, ok: bool) -> EngineState {
    match state.step(stop) {
        ProcessStep::Halt { .. } => EngineState { started: false, ..state },
        ProcessStep::Start => state.after_start(ok),
        _ => state,
    }
}

/// The engine after several callbacks.
pub open spec fn after_callbacks(
    state: EngineState,
    callbacks: Seq<(bool, bool)>,
) -> EngineState
    decreases callbacks.len(),
{
    if callbacks.len() == 0 {
        state
    } else {
        let (stop, ok) = callbacks.last();
        after_callback(after_callbacks(state, callbacks.drop_last()), stop, ok)
    }
}

/// The calls of several callbacks, in order.
pub open spec fn all_calls(state: EngineState, callbacks: Seq<(bool, bool)>) -> Seq<AudioCall>
    decreases callbacks.len(),
{
    if callbacks.len() == 0 {
        Seq::empty()
    } else {
        let (stop, ok) = callbacks.last();
        all_calls(state, callbacks.drop_last()) + callback_calls(
            after_callbacks(state, callbacks.drop_last()),
            stop,
            ok,
        )
    }
}

/// Whether the plugin is started after these calls: a start succeeded and no
/// stop came since.
pub open spec fn is_running(calls: Seq<AudioCall>) -> bool
    decreases calls.len(),
{
    calls.len() > 0 && match calls.last() {
        AudioCall::Start(ok) => ok || is_running(calls.drop_last()),
        AudioCall::Process => is_running(calls.drop_last()),
        AudioCall::Stop => false,
    }
}

/// Calls that the plugin allows: it is processed and stopped only while it is
/// started, and asked to start only while it is not and has never refused.
pub open spec fn in_good_order(calls: Seq<AudioCall>) -> bool
    decreases calls.len(),
{
    calls.len() == 0 || {
        let before = calls.drop_last();
        &&& in_good_order(before)
        &&& match calls.last() {
            AudioCall::Start(_) => !is_running(before) && !before.contains(AudioCall::Start(false)),
            AudioCall::Process => is_running(before),
            AudioCall::Stop => is_running(before),
        }
    }
}

/// How often a call was made.
pub open spec fn times(calls: Seq<AudioCall>, call: AudioCall) -> nat
    decreases calls.len(),
{
    if calls.len() == 0 {
        0
    } else {
        times(calls.drop_last(), call) + if calls.last() == call {
            1
        } else {
            0nat
        }
    }
}

proof fn one_more_call(calls: Seq<AudioCall>, call: AudioCall)
    ensures
        calls.push(call).drop_last() == calls,
        calls.push(call).last() == call,
        calls.push(call).contains(AudioCall::Start(false)) == (calls.contains(
            AudioCall::Start(false),
        ) || call == AudioCall::Start(false)),
        is_running(calls.push(call)) == match call {
            AudioCall::Start(ok) => ok || is_running(calls),
            AudioCall::Process => is_running(calls),
            AudioCall::Stop => false,
        },
        in_good_order(calls.push(call)) == (in_good_order(calls) && match call {
            AudioCall::Start(_) => !is_running(calls) && !calls.contains(AudioCall::Start(false)),
            AudioCall::Process => is_running(calls),
            AudioCall::Stop => is_running(calls),
        }),
        forall|c: AudioCall| #[trigger] times(calls.push(call), c) == times(calls, c) + if c == call {
            1
        } else {
            0nat
        },
{
    let longer = calls.push(call);
    let refusal = AudioCall::Start(false);
    assert(longer.drop_last() =~= calls);
    if calls.contains(refusal) {
        let i = choose|i: int| 0 <= i < calls.len() && calls[i] == refusal;
        assert(longer[i] == refusal);
    }
    if call == refusal {
        assert(longer[calls.len() as int] == refusal);
    }
    if longer.contains(refusal) && call != refusal {
        let i = choose|i: int| 0 <= i < longer.len() && longer[i] == refusal;
        assert(calls[i] == refusal);
    }
}

/// Law: however callbacks and stop commands follow each other, the plugin is
/// processed only after a successful start, it is not asked to start while it is
/// started nor once it refused, and it is stopped exactly once per successful
/// start, or will be by the next callback that is told to stop.
pub proof fn starts_and_stops_alternate(state: EngineState, callbacks: Seq<(bool, bool)>)
    requires
        !state.started,
        !state.start_failed,
    ensures
        ({
            let calls = all_calls(state, callbacks);
            let end = after_callbacks(state, callbacks);
            &&& in_good_order(calls)
            &&& end.started == is_running(calls)
            &&& end.start_failed == calls.contains(AudioCall::Start(false))
            &&& end.device_channels == state.device_channels
            &&& times(calls, AudioCall::Start(true)) == times(calls, AudioCall::Stop)
                + if end.started {
                1
            } else {
                0nat
            }
        }),
    decreases callbacks.len(),
{
    let calls = all_calls(state, callbacks);
    if callbacks.len() > 0 {
        let (stop, ok) = callbacks.last();
        let before = all_calls(state, callbacks.drop_last());
        let mid = after_callbacks(state, callbacks.drop_last());
        starts_and_stops_alternate(state, callbacks.drop_last());
        let added = callback_calls(mid, stop, ok);
        if added.len() == 0 {
            assert(calls =~= before);
        } else {
            one_more_call(before, added[0]);
            if added.len() == 1 {
                assert(calls =~= before.push(added[0]));
            } else {
                one_more_call(before.push(added[0]), added[1]);
                assert(calls =~= before.push(added[0]).push(added[1]));
            }
        }
    }
}

/// Law: once the session commands a stop, the next callback leaves the plugin
/// stopped, whatever state it was in, as long as the device has channels.
pub proof fn a_stop_is_obeyed(state: EngineState, ok: bool)
    requires
        state.device_channels > 0,
    ensures
        state.step(true) is Halt,
        !after_callback(state, true, ok).started,
        callback_calls(state, true, ok) == if state.started {
            seq![AudioCall::Stop]
        } else {
            seq![]
        },
{
}

} // verus!
