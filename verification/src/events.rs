//! CLAP event plumbing: the messages that feed the audio thread, the input
//! event list, the translation of raw MIDI into a plugin's note dialect and
//! the capture of a plugin's output events.

use crate::queue::{Queue, Slot};
use clap_sys::events::{
    clap_event_midi, clap_event_note, clap_event_param_gesture, clap_event_param_value,
};
use core::mem::size_of;
use vstd::prelude::*;

verus! {

/// `clap_sys::events::clap_event_note`, of which only the size matters here.
#[verifier::external_type_specification]
#[verifier::external_body]
pub struct ExClapEventNote(clap_event_note);

/// `clap_sys::events::clap_event_midi`, of which only the size matters here.
#[verifier::external_type_specification]
#[verifier::external_body]
pub struct ExClapEventMidi(clap_event_midi);

/// `clap_sys::events::clap_event_param_value`, of which only the size matters
/// here.
#[verifier::external_type_specification]
#[verifier::external_body]
pub struct ExClapEventParamValue(clap_event_param_value);

/// `clap_sys::events::clap_event_param_gesture`, of which only the size
/// matters here.
#[verifier::external_type_specification]
#[verifier::external_body]
pub struct ExClapEventParamGesture(clap_event_param_gesture);

pub const CLAP_CORE_EVENT_SPACE_ID: u16 = 0;

pub const CLAP_EVENT_IS_LIVE: u32 = 1;

pub const CLAP_EVENT_NOTE_ON: u16 = 0;

pub const CLAP_EVENT_NOTE_OFF: u16 = 1;

pub const CLAP_EVENT_PARAM_VALUE: u16 = 5;

pub const CLAP_EVENT_PARAM_GESTURE_BEGIN: u16 = 7;

pub const CLAP_EVENT_PARAM_GESTURE_END: u16 = 8;

pub const CLAP_EVENT_MIDI: u16 = 10;

/// Raw three-byte MIDI message.
pub type RawMidi = [u8; 3];

/// The message that a port delivered as `bytes`: shorter ones are filled up with
/// zeros. Empty and longer ones are dropped.
pub fn raw_midi(bytes: &[u8]) -> (msg: Option<RawMidi>)
    ensures
        msg is Some <==> 1 <= bytes@.len() <= 3,
        msg is Some ==> msg->0@ == bytes@ + Seq::new((3 - bytes@.len()) as nat, |i: int| 0u8),
{
    let n = bytes.len();
    if n == 0 || n > 3 {
        return None;
    }
    let second: u8 = if n > 1 {
        bytes[1]
    } else {
        0
    };
    let third: u8 = if n > 2 {
        bytes[2]
    } else {
        0
    };
    let msg: RawMidi = [bytes[0], second, third];
    assert(msg@ =~= bytes@ + Seq::new((3 - bytes@.len()) as nat, |i: int| 0u8));
    Some(msg)
}

/// Anything the main or UI thread sends to the audio thread mid-stream.
/// `value` is the bit pattern of the parameter's value.
#[derive(Clone, Copy, Debug, PartialEq, Eq)]
pub enum UiEvent {
    Param { id: u32, value: u64 },
    Midi(RawMidi),
}

/// Parameter feedback from the plugin. `value` is the bit pattern of the
/// parameter's value.
#[derive(Clone, Copy, Debug, PartialEq, Eq)]
pub enum PluginOutEvent {
    Value { id: u32, value: u64 },
    GestureBegin { id: u32 },
    GestureEnd { id: u32 },
}

/// Which note dialect the plugin's first input note port wants.
#[derive(Clone, Copy, Debug, PartialEq, Eq, Structural)]
pub enum Dialect {
    /// Raw MIDI events.
    Midi,
    /// Note-on and note-off events.
    Clap,
    /// Plugin has no input note port: MIDI is dropped.
    Absent,
}

/// The leading fields of every CLAP event.
#[derive(Clone, Copy, Debug, PartialEq, Eq)]
pub struct EventHeader {
    pub size: u32,
    pub time: u32,
    pub space_id: u16,
    pub type_: u16,
    pub flags: u32,
}

/// What follows the header of an input event.
#[allow(inconsistent_fields)]
#[derive(Clone, Copy, Debug, PartialEq, Eq)]
pub enum EventBody {
    /// `velocity` counts in 127ths of full velocity.
    Note { note_id: i32, port_index: i16, channel: i16, key: i16, velocity: u8 },
    Midi { port_index: u16, data: RawMidi },
    /// `cookie` is an address, `value` a bit pattern.
    Param {
        param_id: u32,
        cookie: u64,
        note_id: i32,
        port_index: i16,
        channel: i16,
        key: i16,
        value: u64,
    },
}

/// One event of an input list.
#[derive(Clone, Copy, Debug, PartialEq, Eq)]
pub struct Event {
    pub header: EventHeader,
    pub body: EventBody,
}

/// Header of a live event in the core event space.
pub open spec fn live_header(type_: u16, size: nat, time: u32) -> EventHeader {
    EventHeader {
        size: size as u32,
        time,
        space_id: CLAP_CORE_EVENT_SPACE_ID,
        type_,
        flags: CLAP_EVENT_IS_LIVE,
    }
}

fn header(type_: u16, size: usize, time: u32) -> (h: EventHeader)
    ensures
        h == live_header(type_, size as nat, time),
{
    EventHeader {
        size: size as u32,
        time,
        space_id: CLAP_CORE_EVENT_SPACE_ID,
        type_,
        flags: CLAP_EVENT_IS_LIVE,
    }
}

/// The event that sets a parameter for every note, port, channel and key.
pub open spec fn param_event(param_id: u32, value: u64, cookie: u64, time: u32) -> Event {
    Event {
        header: live_header(
            CLAP_EVENT_PARAM_VALUE,
            vstd::layout::size_of::<clap_event_param_value>(),
            time,
        ),
        body: EventBody::Param {
            param_id,
            cookie,
            note_id: (-1) as i32,
            port_index: (-1) as i16,
            channel: (-1) as i16,
            key: (-1) as i16,
            value,
        },
    }
}

/// A note-on status byte with a velocity above zero.
pub open spec fn is_note_on(msg: RawMidi) -> bool {
    msg[0] / 16 == 9 && msg[2] % 128 > 0
}

/// A note-off status byte, or a note-on with velocity zero.
pub open spec fn is_note_off(msg: RawMidi) -> bool {
    msg[0] / 16 == 8 || (msg[0] / 16 == 9 && msg[2] % 128 == 0)
}

/// The note event of a MIDI note message: channel from the low half of the
/// status byte, key and velocity from the low seven bits of the data bytes.
pub open spec fn note_event(type_: u16, msg: RawMidi, time: u32) -> Event {
    Event {
        header: live_header(type_, vstd::layout::size_of::<clap_event_note>(), time),
        body: EventBody::Note {
            note_id: (-1) as i32,
            port_index: 0,
            channel: (msg[0] % 16) as i16,
            key: (msg[1] % 128) as i16,
            velocity: (msg[2] % 128) as u8,
        },
    }
}

/// The event a MIDI message becomes in a dialect, if the dialect can express it.
pub open spec fn midi_event(msg: RawMidi, dialect: Dialect, time: u32) -> Option<Event> {
    match dialect {
        Dialect::Absent => None,
        Dialect::Midi => Some(
            Event {
                header: live_header(
                    CLAP_EVENT_MIDI,
                    vstd::layout::size_of::<clap_event_midi>(),
                    time,
                ),
                body: EventBody::Midi { port_index: 0, data: msg },
            },
        ),
        Dialect::Clap => if is_note_on(msg) {
            Some(note_event(CLAP_EVENT_NOTE_ON, msg, time))
        } else if is_note_off(msg) {
            Some(note_event(CLAP_EVENT_NOTE_OFF, msg, time))
        } else {
            None
        },
    }
}

/// A list with one more event, where there is one.
pub open spec fn with_event(events: Seq<Event>, event: Option<Event>) -> Seq<Event> {
    match event {
        Some(e) => events.push(e),
        None => events,
    }
}

/// Input event list handed to the plugin. Rebuilt per block.
pub struct EvList {
    items: Vec<Event>,
}

impl View for EvList {
    type V = Seq<Event>;

    closed spec fn view(&self) -> Seq<Event> {
        self.items@
    }
}

impl EvList {
    /// An empty list that holds `cap` events before it grows.
    pub fn with_capacity(cap: usize) -> (list: Self)
        requires
            cap <= isize::MAX / 64,
        ensures
            list@ == Seq::<Event>::empty(),
    {
        EvList { items: Vec::with_capacity(cap) }
    }

    pub fn clear(&mut self)
        ensures
            final(self)@ == Seq::<Event>::empty(),
    {
        self.items.clear();
    }

    /// `cookie` is the plugin's own address for this parameter, if the host
    /// knows it. Echoing it back lets the plugin skip its id lookup.
    pub fn push_param(&mut self, param_id: u32, value: u64, cookie: u64, time: u32)
        ensures
            final(self)@ == old(self)@.push(param_event(param_id, value, cookie, time)),
    {
        self.items.push(
            Event {
                header: header(CLAP_EVENT_PARAM_VALUE, size_of::<clap_event_param_value>(), time),
                body: EventBody::Param {
                    param_id,
                    cookie,
                    note_id: -1,
                    port_index: -1,
                    channel: -1,
                    key: -1,
                    value,
                },
            },
        );
    }

    /// Translate one raw MIDI message into the plugin's dialect. Messages the
    /// dialect cannot express are dropped.
    pub fn push_midi(&mut self, msg: RawMidi, dialect: Dialect, time: u32)
        ensures
            final(self)@ == with_event(old(self)@, midi_event(msg, dialect, time)),
    {
        match dialect {
            Dialect::Absent => {},
            Dialect::Midi => self.items.push(
                Event {
                    header: header(CLAP_EVENT_MIDI, size_of::<clap_event_midi>(), time),
                    body: EventBody::Midi { port_index: 0, data: msg },
                },
            ),
            Dialect::Clap => {
                let status: u8 = msg[0] / 16;
                let velocity: u8 = msg[2] % 128;
                let type_: u16 = if status == 9 && velocity > 0 {
                    CLAP_EVENT_NOTE_ON
                } else if status == 8 || status == 9 {
                    CLAP_EVENT_NOTE_OFF
                } else {
                    return;
                };
                self.items.push(
                    Event {
                        header: header(type_, size_of::<clap_event_note>(), time),
                        body: EventBody::Note {
                            note_id: -1,
                            port_index: 0,
                            channel: (msg[0] % 16) as i16,
                            key: (msg[1] % 128) as i16,
                            velocity,
                        },
                    },
                );
            },
        }
    }

    /// How many events the list reports to the plugin.
    pub fn size(&self) -> (n: u32)
        ensures
            n == self@.len() as u32,
    {
        self.items.len() as u32
    }

    /// The event at an index, if there is one.
    pub fn get(&self, index: u32) -> (event: Option<&Event>)
        ensures
            event is Some <==> index < self@.len(),
            event is Some ==> *event->0 == self@[index as int],
    {
        if (index as usize) < self.items.len() {
            Some(&self.items[index as usize])
        } else {
            None
        }
    }

    /// The events as the plugin reads them during one call.
    pub fn as_input_events(&self) -> (events: &[Event])
        ensures
            events@ == self@,
    {
        self.items.as_slice()
    }
}

/// Empty input event list for calls that carry no events.
pub fn empty_input_events() -> (list: EvList)
    ensures
        list@ == Seq::<Event>::empty(),
{
    EvList { items: Vec::new() }
}

/// An event a plugin pushed. `param_id` and `value` are read from behind the
/// header only where [`output_class`] says that the event is long enough.
#[derive(Clone, Copy, Debug, PartialEq, Eq)]
pub struct OutEvent {
    pub header: EventHeader,
    pub param_id: u32,
    pub value: u64,
}

/// What an output event is to the host.
#[derive(Clone, Copy, Debug, PartialEq, Eq, Structural)]
pub enum OutputClass {
    Value,
    GestureBegin,
    GestureEnd,
    /// Of another kind or event space, or shorter than its kind.
    Ignored,
}

pub open spec fn spec_output_class(h: EventHeader) -> OutputClass {
    if h.space_id != CLAP_CORE_EVENT_SPACE_ID {
        OutputClass::Ignored
    } else if h.type_ == CLAP_EVENT_PARAM_VALUE && h.size >= vstd::layout::size_of::<
        clap_event_param_value,
    >() {
        OutputClass::Value
    } else if h.type_ == CLAP_EVENT_PARAM_GESTURE_BEGIN && h.size >= vstd::layout::size_of::<
        clap_event_param_gesture,
    >() {
        OutputClass::GestureBegin
    } else if h.type_ == CLAP_EVENT_PARAM_GESTURE_END && h.size >= vstd::layout::size_of::<
        clap_event_param_gesture,
    >() {
        OutputClass::GestureEnd
    } else {
        OutputClass::Ignored
    }
}

/// Sort an output event by its header alone.
pub fn output_class(h: EventHeader) -> (class: OutputClass)
    ensures
        class == spec_output_class(h),
{
    if h.space_id != CLAP_CORE_EVENT_SPACE_ID {
        return OutputClass::Ignored;
    }
    if h.type_ == CLAP_EVENT_PARAM_VALUE {
        if (h.size as usize) < size_of::<clap_event_param_value>() {
            OutputClass::Ignored
        } else {
            OutputClass::Value
        }
    } else if h.type_ == CLAP_EVENT_PARAM_GESTURE_BEGIN || h.type_ == CLAP_EVENT_PARAM_GESTURE_END {
        if (h.size as usize) < size_of::<clap_event_param_gesture>() {
            OutputClass::Ignored
        } else if h.type_ == CLAP_EVENT_PARAM_GESTURE_BEGIN {
            OutputClass::GestureBegin
        } else {
            OutputClass::GestureEnd
        }
    } else {
        OutputClass::Ignored
    }
}

/// The feedback an output event carries, if it carries any.
pub open spec fn feedback(event: OutEvent) -> Option<PluginOutEvent> {
    match spec_output_class(event.header) {
        OutputClass::Value => Some(
            PluginOutEvent::Value { id: event.param_id, value: event.value },
        ),
        OutputClass::GestureBegin => Some(PluginOutEvent::GestureBegin { id: event.param_id }),
        OutputClass::GestureEnd => Some(PluginOutEvent::GestureEnd { id: event.param_id }),
        OutputClass::Ignored => None,
    }
}

/// Where the output events of one plugin call go.
#[derive(Clone, Copy, Debug, PartialEq, Eq, Structural)]
pub enum OutputEvents {
    /// Everything the plugin emits is discarded.
    Sink,
    /// Parameter values and gestures go into a queue.
    Capture,
}

/// Output event list that discards everything the plugin emits.
pub fn sink_output_events() -> (out: OutputEvents)
    ensures
        out == OutputEvents::Sink,
{
    OutputEvents::Sink
}

/// Output list that forwards parameter value and gesture events.
pub fn capturing_output_events() -> (out: OutputEvents)
    ensures
        out == OutputEvents::Capture,
{
    OutputEvents::Capture
}

/// The answer to a pushed event: a sink takes everything, a capturing list
/// refuses a missing event and one that a full queue has no room for.
pub open spec fn push_accepted(
    out: OutputEvents,
    held: nat,
    capacity: nat,
    event: Option<OutEvent>,
) -> bool {
    match out {
        OutputEvents::Sink => true,
        OutputEvents::Capture => match event {
            Some(e) => feedback(e) is Some ==> held < capacity,
            None => false,
        },
    }
}

/// The feedback that a pushed event adds to the queue.
pub open spec fn pushed_feedback(out: OutputEvents, event: Option<OutEvent>) -> Seq<
    PluginOutEvent,
> {
    match (out, event) {
        (OutputEvents::Capture, Some(e)) => match feedback(e) {
            Some(f) => seq![f],
            None => seq![],
        },
        _ => seq![],
    }
}

/// What becomes of a pushed event.
#[derive(Clone, Copy, Debug, PartialEq, Eq)]
pub enum OutPush {
    /// Answer at once.
    Answer(bool),
    /// Queue this and answer whether there was room.
    Queue(PluginOutEvent),
}

/// What a list does with a pushed event; `None` stands for a missing event.
pub open spec fn out_push(out: OutputEvents, event: Option<OutEvent>) -> OutPush {
    match (out, event) {
        (OutputEvents::Sink, _) => OutPush::Answer(true),
        (OutputEvents::Capture, None) => OutPush::Answer(false),
        (OutputEvents::Capture, Some(e)) => match feedback(e) {
            Some(f) => OutPush::Queue(f),
            None => OutPush::Answer(true),
        },
    }
}

/// The plugin pushes an event: what becomes of it.
pub fn pushed_event(out: OutputEvents, event: Option<OutEvent>) -> (push: OutPush)
    ensures
        push == out_push(out, event),
{
    if out == OutputEvents::Sink {
        return OutPush::Answer(true);
    }
    let e = match event {
        Some(e) => e,
        None => return OutPush::Answer(false),
    };
    match output_class(e.header) {
        OutputClass::Value => OutPush::Queue(
            PluginOutEvent::Value { id: e.param_id, value: e.value },
        ),
        OutputClass::GestureBegin => OutPush::Queue(
            PluginOutEvent::GestureBegin { id: e.param_id },
        ),
        OutputClass::GestureEnd => OutPush::Queue(PluginOutEvent::GestureEnd { id: e.param_id }),
        OutputClass::Ignored => OutPush::Answer(true),
    }
}

/// The plugin pushes an event. `list` is the queue of the list that it handed
/// in: that of a sink, or of no list at all, is `None`. A capturing function
/// refuses an event that it has no queue for.
pub fn try_push(
    out: OutputEvents,
    list: Option<&mut Queue<PluginOutEvent>>,
    event: Option<OutEvent>,
) -> (accepted: bool)
    requires
        list is Some ==> (*list->0).wf(),
    ensures
        match list {
            Some(q) => {
                &&& final(q).wf()
                &&& final(q).capacity() == (*q).capacity()
                &&& accepted == push_accepted(out, (*q)@.len(), (*q).capacity(), event)
                &&& final(q)@ == crate::queue::pushed(
                    (*q)@,
                    pushed_feedback(out, event),
                    (*q).capacity(),
                )
            },
            None => accepted == push_accepted(out, 0, 0, event),
        },
{
    match pushed_event(out, event) {
        OutPush::Answer(accepted) => {
            proof {
                if let Some(q) = list {
                    assert((*q)@ + Seq::<PluginOutEvent>::empty() =~= (*q)@);
                }
            }
            accepted
        },
        OutPush::Queue(f) => match list {
            Some(q) => q.push(f).is_ok(),
            None => false,
        },
    }
}

/// The three bytes of a message as one number.
pub open spec fn midi_word(msg: RawMidi) -> u64 {
    (msg[0] + 0x100 * msg[1] + 0x1_0000 * msg[2]) as u64
}

pub open spec fn word_midi(word: u64) -> RawMidi {
    [(word % 0x100) as u8, (word / 0x100 % 0x100) as u8, (word / 0x1_0000 % 0x100) as u8]
}

proof fn midi_word_read_back(msg: RawMidi)
    ensures
        word_midi(midi_word(msg)) == msg,
{
    assert(word_midi(midi_word(msg)) =~= msg);
}

fn pack_midi(msg: RawMidi) -> (word: u64)
    ensures
        word == midi_word(msg),
{
    msg[0] as u64 + 0x100 * (msg[1] as u64) + 0x1_0000 * (msg[2] as u64)
}

fn unpack_midi(word: u64) -> (msg: RawMidi)
    ensures
        msg == word_midi(word),
{
    [(word % 0x100) as u8, (word / 0x100 % 0x100) as u8, (word / 0x1_0000 % 0x100) as u8]
}

impl Slot for RawMidi {
    open spec fn words(self) -> (u64, u64) {
        (midi_word(self), 0)
    }

    open spec fn of_words(words: (u64, u64)) -> Self {
        word_midi(words.0)
    }

    proof fn stored_is_read_back(self) {
        midi_word_read_back(self);
    }

    fn pack(self) -> (words: (u64, u64)) {
        (pack_midi(self), 0)
    }

    fn unpack(words: (u64, u64)) -> (message: Self) {
        unpack_midi(words.0)
    }
}

impl Slot for UiEvent {
    open spec fn words(self) -> (u64, u64) {
        match self {
            UiEvent::Param { id, value } => (id as u64, value),
            UiEvent::Midi(msg) => (0x1_0000_0000, midi_word(msg)),
        }
    }

    open spec fn of_words(words: (u64, u64)) -> Self {
        if words.0 < 0x1_0000_0000 {
            UiEvent::Param { id: words.0 as u32, value: words.1 }
        } else {
            UiEvent::Midi(word_midi(words.1))
        }
    }

    proof fn stored_is_read_back(self) {
        if let UiEvent::Midi(msg) = self {
            midi_word_read_back(msg);
        }
    }

    fn pack(self) -> (words: (u64, u64)) {
        match self {
            UiEvent::Param { id, value } => (id as u64, value),
            UiEvent::Midi(msg) => (0x1_0000_0000, pack_midi(msg)),
        }
    }

    fn unpack(words: (u64, u64)) -> (message: Self) {
        if words.0 < 0x1_0000_0000 {
            UiEvent::Param { id: words.0 as u32, value: words.1 }
        } else {
            UiEvent::Midi(unpack_midi(words.1))
        }
    }
}

impl Slot for PluginOutEvent {
    open spec fn words(self) -> (u64, u64) {
        match self {
            PluginOutEvent::Value { id, value } => (id as u64, value),
            PluginOutEvent::GestureBegin { id } => ((0x1_0000_0000 + id) as u64, 0),
            PluginOutEvent::GestureEnd { id } => ((0x2_0000_0000 + id) as u64, 0),
        }
    }

    open spec fn of_words(words: (u64, u64)) -> Self {
        let id = (words.0 % 0x1_0000_0000) as u32;
        if words.0 < 0x1_0000_0000 {
            PluginOutEvent::Value { id, value: words.1 }
        } else if words.0 < 0x2_0000_0000 {
            PluginOutEvent::GestureBegin { id }
        } else {
            PluginOutEvent::GestureEnd { id }
        }
    }

    proof fn stored_is_read_back(self) {
    }

    fn pack(self) -> (words: (u64, u64)) {
        match self {
            PluginOutEvent::Value { id, value } => (id as u64, value),
            PluginOutEvent::GestureBegin { id } => (0x1_0000_0000 + id as u64, 0),
            PluginOutEvent::GestureEnd { id } => (0x2_0000_0000 + id as u64, 0),
        }
    }

    fn unpack(words: (u64, u64)) -> (message: Self) {
        let id: u32 = (words.0 % 0x1_0000_0000) as u32;
        if words.0 < 0x1_0000_0000 {
            PluginOutEvent::Value { id, value: words.1 }
        } else if words.0 < 0x2_0000_0000 {
            PluginOutEvent::GestureBegin { id }
        } else {
            PluginOutEvent::GestureEnd { id }
        }
    }
}

/// Law: the CLAP dialect hears exactly the note messages of MIDI, and a
/// note-on it hears never has velocity zero.
pub proof fn clap_dialect_is_notes_only(msg: RawMidi, time: u32)
    ensures
        midi_event(msg, Dialect::Clap, time) is Some <==> msg[0] / 16 == 8 || msg[0] / 16 == 9,
        ({
            let event = midi_event(msg, Dialect::Clap, time);
            event is Some && event->0.header.type_ == CLAP_EVENT_NOTE_ON ==> event->0.body->velocity
                > 0
        }),
{
}

/// Law: a channel is one of sixteen, a key and a velocity one of 128.
pub proof fn note_fields_are_in_range(msg: RawMidi, time: u32)
    ensures
        ({
            let event = midi_event(msg, Dialect::Clap, time);
            event is Some ==> {
                &&& 0 <= event->0.body->Note_channel < 16
                &&& 0 <= event->0.body->Note_key < 128
                &&& event->0.body->velocity < 128
            }
        }),
{
}

/// Law: the MIDI dialect passes every message on as it came, and without an
/// input note port nothing arrives.
pub proof fn midi_dialect_is_transparent(msg: RawMidi, time: u32)
    ensures
        midi_event(msg, Dialect::Midi, time) is Some,
        midi_event(msg, Dialect::Midi, time)->0.body == (EventBody::Midi {
            port_index: 0,
            data: msg,
        }),
        midi_event(msg, Dialect::Absent, time) is None,
{
}

/// Law: a translated event keeps the time it was queued for.
pub proof fn events_keep_their_time(msg: RawMidi, dialect: Dialect, time: u32)
    ensures
        midi_event(msg, dialect, time) is Some ==> midi_event(msg, dialect, time)->0.header.time
            == time,
{
}

/// Law: what is behind the header of an event that is not captured has no
/// influence on anything.
pub proof fn ignored_events_are_not_read(a: OutEvent, b: OutEvent)
    requires
        a.header == b.header,
        spec_output_class(a.header) == OutputClass::Ignored,
    ensures
        feedback(a) == feedback(b),
        feedback(a) is None,
{
}

/// Law: a pressed key arrives as it was played. In the CLAP dialect a note-on
/// for a channel and a key names that channel, that key and that velocity; a
/// note-on with velocity zero is a release of the same key.
pub proof fn pressed_keys_arrive(channel: u8, key: u8, velocity: u8, time: u32)
    requires
        channel < 16,
        key < 128,
        velocity < 128,
    ensures
        ({
            let event = midi_event([(0x90 + channel) as u8, key, velocity], Dialect::Clap, time);
            &&& event is Some
            &&& event->0.body == (EventBody::Note {
                note_id: -1i32,
                port_index: 0i16,
                channel: channel as i16,
                key: key as i16,
                velocity,
            })
            &&& event->0.header.type_ == if velocity > 0 {
                CLAP_EVENT_NOTE_ON
            } else {
                CLAP_EVENT_NOTE_OFF
            }
        }),
{
}

/// Law: a released key arrives as it was played. In the CLAP dialect a note-off
/// for a channel and a key names that channel, that key and that velocity.
pub proof fn released_keys_arrive(channel: u8, key: u8, velocity: u8, time: u32)
    requires
        channel < 16,
        key < 128,
        velocity < 128,
    ensures
        ({
            let event = midi_event([(0x80 + channel) as u8, key, velocity], Dialect::Clap, time);
            &&& event is Some
            &&& event->0.body == (EventBody::Note {
                note_id: -1i32,
                port_index: 0i16,
                channel: channel as i16,
                key: key as i16,
                velocity,
            })
            &&& event->0.header.type_ == CLAP_EVENT_NOTE_OFF
        }),
{
}

/// Law: whatever the data bytes are, the channel is the low half of the status
/// byte, and key and velocity are the low seven bits of the data bytes, for
/// presses and for releases.
pub proof fn note_fields_are_the_low_bits(msg: RawMidi, time: u32)
    ensures
        ({
            let event = midi_event(msg, Dialect::Clap, time);
            event is Some ==> {
                &&& event->0.body is Note
                &&& event->0.body->Note_channel == (msg[0] & 0x0f) as i16
                &&& event->0.body->Note_key == (msg[1] & 0x7f) as i16
                &&& event->0.body->velocity == msg[2] & 0x7f
            }
        }),
{
    let (a, b, c) = (msg[0], msg[1], msg[2]);
    assert(a & 0x0f == a % 16) by (bit_vector);
    assert(b & 0x7f == b % 128) by (bit_vector);
    assert(c & 0x7f == c % 128) by (bit_vector);
}

/// Law: a release ends the note that the press began. Messages for the same
/// channel and with the same second byte name the same channel and key, whatever
/// their kind and velocity.
pub proof fn releases_end_presses(on: RawMidi, off: RawMidi, pressed: u32, released: u32)
    requires
        on[0] / 16 == 9,
        on[2] % 128 != 0,
        off[0] / 16 == 8 || (off[0] / 16 == 9 && off[2] % 128 == 0),
        on[0] % 16 == off[0] % 16,
        on[1] == off[1],
    ensures
        ({
            let a = midi_event(on, Dialect::Clap, pressed);
            let b = midi_event(off, Dialect::Clap, released);
            &&& a is Some && b is Some
            &&& a->0.header.type_ == CLAP_EVENT_NOTE_ON
            &&& b->0.header.type_ == CLAP_EVENT_NOTE_OFF
            &&& a->0.body->Note_channel == b->0.body->Note_channel
            &&& a->0.body->Note_key == b->0.body->Note_key
            &&& a->0.body->Note_note_id == b->0.body->Note_note_id
            &&& a->0.body->Note_port_index == b->0.body->Note_port_index
        }),
{
}

/// Law: different keys, channels or velocities never become the same event.
pub proof fn notes_are_told_apart(a: RawMidi, b: RawMidi, time: u32)
    requires
        midi_event(a, Dialect::Clap, time) is Some,
        midi_event(a, Dialect::Clap, time) == midi_event(b, Dialect::Clap, time),
    ensures
        a[0] % 16 == b[0] % 16,
        a[1] % 128 == b[1] % 128,
        a[2] % 128 == b[2] % 128,
{
}

/// Law: every event for the plugin is a live event of the core event space with
/// the type and the size of what follows its header.
pub proof fn events_describe_themselves(msg: RawMidi, dialect: Dialect, time: u32)
    ensures
        ({
            let event = midi_event(msg, dialect, time);
            event is Some ==> {
                &&& event->0.header.space_id == 0
                &&& event->0.header.flags == 1
                &&& event->0.header.time == time
                &&& event->0.body is Midi <==> dialect is Midi
                &&& event->0.body is Note <==> dialect is Clap
                &&& event->0.body is Midi ==> event->0.header.type_ == 10
                    && event->0.header.size == vstd::layout::size_of::<clap_event_midi>() as u32
                &&& event->0.body is Note ==> (event->0.header.type_ == 0
                    || event->0.header.type_ == 1) && event->0.header.size
                    == vstd::layout::size_of::<clap_event_note>() as u32
            }
        }),
{
}

/// Law: a parameter event is live, sets this parameter to this value, hands the
/// cookie back and is for every note, port, channel and key.
pub proof fn param_events_set_their_param(param_id: u32, value: u64, cookie: u64, time: u32)
    ensures
        ({
            let event = param_event(param_id, value, cookie, time);
            &&& event.header.space_id == 0
            &&& event.header.flags == 1
            &&& event.header.type_ == 5
            &&& event.header.time == time
            &&& event.header.size == vstd::layout::size_of::<clap_event_param_value>() as u32
            &&& event.body is Param
            &&& event.body->param_id == param_id
            &&& event.body->value == value
            &&& event.body->cookie == cookie
            &&& event.body->Param_note_id == -1
            &&& event.body->Param_port_index == -1
            &&& event.body->Param_channel == -1
            &&& event.body->Param_key == -1
        }),
{
}

/// Law: an output event counts for what its header says it is, where it belongs
/// to the core event space and is as long as its kind, and for nothing else.
pub proof fn output_events_are_sorted(h: EventHeader)
    ensures
        spec_output_class(h) is Value <==> h.space_id == 0 && h.type_ == 5 && h.size
            >= vstd::layout::size_of::<clap_event_param_value>(),
        spec_output_class(h) is GestureBegin <==> h.space_id == 0 && h.type_ == 7 && h.size
            >= vstd::layout::size_of::<clap_event_param_gesture>(),
        spec_output_class(h) is GestureEnd <==> h.space_id == 0 && h.type_ == 8 && h.size
            >= vstd::layout::size_of::<clap_event_param_gesture>(),
{
}

/// Law: feedback names the parameter and carries the value that the plugin sent.
pub proof fn feedback_is_what_the_plugin_sent(event: OutEvent)
    ensures
        feedback(event) is Some <==> !(spec_output_class(event.header) is Ignored),
        spec_output_class(event.header) is Value ==> feedback(event) == Some(
            PluginOutEvent::Value { id: event.param_id, value: event.value },
        ),
        spec_output_class(event.header) is GestureBegin ==> feedback(event) == Some(
            PluginOutEvent::GestureBegin { id: event.param_id },
        ),
        spec_output_class(event.header) is GestureEnd ==> feedback(event) == Some(
            PluginOutEvent::GestureEnd { id: event.param_id },
        ),
{
}

/// Law: a sink takes everything and keeps nothing. A capturing list refuses a
/// missing event, takes one without feedback and keeps nothing of it, and keeps
/// feedback exactly where it takes the event, which it does while there is room.
pub proof fn lists_answer_what_they_did(
    out: OutputEvents,
    event: Option<OutEvent>,
    held: Seq<PluginOutEvent>,
    capacity: nat,
)
    requires
        held.len() <= capacity,
    ensures
        ({
            let accepted = push_accepted(out, held.len(), capacity, event);
            let after = crate::queue::pushed(held, pushed_feedback(out, event), capacity);
            &&& out is Sink ==> accepted && after == held && out_push(out, event)
                == OutPush::Answer(true)
            &&& out is Capture && event is None ==> !accepted && after == held && out_push(
                out,
                event,
            ) == OutPush::Answer(false)
            &&& out is Capture && event is Some && feedback(event->0) is None ==> accepted && after
                == held && out_push(out, event) == OutPush::Answer(true)
            &&& out is Capture && event is Some && feedback(event->0) is Some ==> {
                &&& accepted <==> held.len() < capacity
                &&& accepted ==> after == held.push(feedback(event->0)->0)
                &&& !accepted ==> after == held
                &&& out_push(out, event) == OutPush::Queue(feedback(event->0)->0)
            }
        }),
{
    assert(held + Seq::<PluginOutEvent>::empty() =~= held);
    if out is Capture && event is Some && feedback(event->0) is Some {
        let f = feedback(event->0)->0;
        assert(held + seq![f] =~= held.push(f));
        assert(held + seq![f].take(0) =~= held);
    }
}

/// Law: a new event goes behind those that are there.
pub proof fn events_are_added_at_the_end(events: Seq<Event>, event: Event)
    ensures
        with_event(events, Some(event)) == events.push(event),
        with_event(events, None) == events,
{
}

} // verus!
