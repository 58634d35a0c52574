use clap_host::events::{
    capturing_output_events, empty_input_events, output_class, pushed_event, raw_midi,
    sink_output_events, try_push, Dialect, EvList, EventBody, EventHeader, OutEvent, OutPush,
    OutputClass, PluginOutEvent, UiEvent,
    CLAP_CORE_EVENT_SPACE_ID, CLAP_EVENT_IS_LIVE, CLAP_EVENT_MIDI, CLAP_EVENT_NOTE_OFF,
    CLAP_EVENT_NOTE_ON, CLAP_EVENT_PARAM_GESTURE_BEGIN, CLAP_EVENT_PARAM_GESTURE_END,
    CLAP_EVENT_PARAM_VALUE,
};
use clap_host::queue::{queue, Queue, QUEUE_CAP};
use clap_sys::events as c;
use std::mem::size_of;

fn header(type_: u16, size: usize, time: u32) -> EventHeader {
    EventHeader {
        size: size as u32,
        time,
        space_id: CLAP_CORE_EVENT_SPACE_ID,
        type_,
        flags: CLAP_EVENT_IS_LIVE,
    }
}

fn value_event(param_id: u32, value: f64, size: usize) -> OutEvent {
    OutEvent {
        header: header(CLAP_EVENT_PARAM_VALUE, size, 0),
        param_id,
        value: value.to_bits(),
    }
}

#[test]
fn event_layout_and_dialect() {
    let mut l = EvList::with_capacity(8);
    l.push_param(7, 0.25f64.to_bits(), 0, 0);
    l.push_midi([0x91, 60, 100], Dialect::Midi, 1);
    l.push_midi([0x91, 60, 100], Dialect::Clap, 2);
    l.push_midi([0x81, 60, 0], Dialect::Clap, 3);
    l.push_midi([0xB0, 7, 100], Dialect::Clap, 4); // CC: dropped
    l.push_midi([0x91, 60, 100], Dialect::Absent, 5); // no port: dropped

    assert_eq!(l.size(), 4);

    let types: Vec<u16> = (0..4).map(|i| l.get(i).unwrap().header.type_).collect();
    assert_eq!(
        types,
        vec![
            CLAP_EVENT_PARAM_VALUE,
            CLAP_EVENT_MIDI,
            CLAP_EVENT_NOTE_ON,
            CLAP_EVENT_NOTE_OFF
        ]
    );

    let times: Vec<u32> = (0..4).map(|i| l.get(i).unwrap().header.time).collect();
    assert_eq!(times, vec![0, 1, 2, 3]);

    assert!(l.get(4).is_none());
}

#[test]
fn event_bodies_and_sizes() {
    let mut l = EvList::with_capacity(8);
    l.push_param(7, 0.25f64.to_bits(), 99, 3);
    l.push_midi([0x91, 60, 100], Dialect::Midi, 1);
    l.push_midi([0x9f, 0xbc, 100], Dialect::Clap, 2);
    l.push_midi([0x90, 60, 0], Dialect::Clap, 2);
    let events = l.as_input_events();
    assert_eq!(
        events[0].header.size as usize,
        size_of::<clap_sys::events::clap_event_param_value>()
    );
    assert_eq!(
        events[0].body,
        EventBody::Param {
            param_id: 7,
            cookie: 99,
            note_id: -1,
            port_index: -1,
            channel: -1,
            key: -1,
            value: 0.25f64.to_bits()
        }
    );
    assert_eq!(
        events[1].header.size as usize,
        size_of::<clap_sys::events::clap_event_midi>()
    );
    assert_eq!(
        events[1].body,
        EventBody::Midi { port_index: 0, data: [0x91, 60, 100] }
    );
    assert_eq!(
        events[2].header.size as usize,
        size_of::<clap_sys::events::clap_event_note>()
    );
    assert_eq!(
        events[2].body,
        EventBody::Note { note_id: -1, port_index: 0, channel: 15, key: 0x3c, velocity: 100 }
    );
    // A note-on with velocity 0 is a note-off.
    assert_eq!(events[3].header.type_, CLAP_EVENT_NOTE_OFF);
    l.clear();
    assert_eq!(l.size(), 0);
    assert_eq!(empty_input_events().size(), 0);
}

#[test]
fn capturing_output_keeps_param_value_and_gestures() {
    let mut q: Queue<PluginOutEvent> = queue();
    let out = capturing_output_events();

    let val = value_event(42, 0.75, size_of::<clap_sys::events::clap_event_param_value>());
    let gesture = size_of::<clap_sys::events::clap_event_param_gesture>();
    let begin = OutEvent {
        header: header(CLAP_EVENT_PARAM_GESTURE_BEGIN, gesture, 0),
        param_id: 42,
        value: 0,
    };
    let end = OutEvent {
        header: header(CLAP_EVENT_PARAM_GESTURE_END, gesture, 0),
        param_id: 42,
        value: 0,
    };

    assert!(try_push(out, Some(&mut q), Some(val)));
    assert!(try_push(out, Some(&mut q), Some(begin)));
    assert!(try_push(out, Some(&mut q), Some(end)));

    assert_eq!(
        q.pop(),
        Some(PluginOutEvent::Value { id: 42, value: 0.75f64.to_bits() })
    );
    assert_eq!(q.pop(), Some(PluginOutEvent::GestureBegin { id: 42 }));
    assert_eq!(q.pop(), Some(PluginOutEvent::GestureEnd { id: 42 }));
    assert!(q.pop().is_none());
}

#[test]
fn capturing_output_ignores_unknown_types_but_returns_true() {
    let mut q: Queue<PluginOutEvent> = queue();
    let out = capturing_output_events();
    let note = OutEvent {
        header: header(
            CLAP_EVENT_NOTE_ON,
            size_of::<clap_sys::events::clap_event_note>(),
            0,
        ),
        param_id: 60,
        value: 1.0f64.to_bits(),
    };
    assert!(try_push(out, Some(&mut q), Some(note)));
    assert!(q.pop().is_none());
}

#[test]
fn capturing_output_returns_false_when_queue_is_full() {
    let mut q: Queue<PluginOutEvent> = queue();
    let out = capturing_output_events();
    let val = value_event(7, 0.5, size_of::<clap_sys::events::clap_event_param_value>());
    for _ in 0..QUEUE_CAP {
        assert!(try_push(out, Some(&mut q), Some(val)));
    }
    assert!(!try_push(out, Some(&mut q), Some(val)));
}

#[test]
fn capturing_output_tolerates_undersized_and_null_headers() {
    let mut q: Queue<PluginOutEvent> = queue();
    let out = capturing_output_events();
    let undersized = value_event(7, 0.5, size_of::<clap_sys::events::clap_event_header>());
    assert!(try_push(out, Some(&mut q), Some(undersized)));
    assert!(q.pop().is_none());
    assert!(!try_push(out, Some(&mut q), None));
    // The list of a sink has no queue.
    assert!(!try_push(out, None, None));
}

#[test]
fn sinks_take_everything_and_keep_nothing() {
    let mut q: Queue<PluginOutEvent> = queue();
    let sink = sink_output_events();
    let val = value_event(7, 0.5, size_of::<clap_sys::events::clap_event_param_value>());
    assert!(try_push(sink, Some(&mut q), Some(val)));
    assert!(try_push(sink, None, Some(val)) && try_push(sink, None, None));
    assert!(q.pop().is_none());
    assert_eq!(pushed_event(sink, Some(val)), OutPush::Answer(true));
    let out = capturing_output_events();
    assert!(!try_push(out, None, Some(val)));
    let value = PluginOutEvent::Value { id: 7, value: 0.5f64.to_bits() };
    assert_eq!(pushed_event(out, Some(val)), OutPush::Queue(value));
    assert_eq!(pushed_event(out, None), OutPush::Answer(false));
}

#[test]
fn short_messages_are_filled_up() {
    assert_eq!(raw_midi(&[]), None);
    assert_eq!(raw_midi(&[0xf8]), Some([0xf8, 0, 0]));
    assert_eq!(raw_midi(&[0xc0, 5]), Some([0xc0, 5, 0]));
    assert_eq!(raw_midi(&[0x90, 60, 100]), Some([0x90, 60, 100]));
    assert_eq!(raw_midi(&[0xf0, 1, 2, 0xf7]), None);
}

#[test]
fn other_event_spaces_are_ignored() {
    let mut h = header(
        CLAP_EVENT_PARAM_VALUE,
        size_of::<clap_sys::events::clap_event_param_value>(),
        0,
    );
    assert_eq!(output_class(h), OutputClass::Value);
    h.space_id = 1;
    assert_eq!(output_class(h), OutputClass::Ignored);
}

#[test]
fn queued_messages_come_back_as_they_were() {
    let mut ui: Queue<UiEvent> = queue();
    let sent = [
        UiEvent::Midi([0xff, 0x7f, 0x01]),
        UiEvent::Param { id: u32::MAX, value: 0.1f64.to_bits() },
        UiEvent::Param { id: 0, value: u64::MAX },
    ];
    for e in sent {
        assert!(ui.push(e).is_ok());
    }
    for e in sent {
        assert_eq!(ui.pop(), Some(e));
    }
    assert_eq!(ui.pop(), None);
}

#[test]
fn event_constants_are_those_of_the_format() {
    assert_eq!(CLAP_CORE_EVENT_SPACE_ID, c::CLAP_CORE_EVENT_SPACE_ID);
    assert_eq!(CLAP_EVENT_IS_LIVE, c::CLAP_EVENT_IS_LIVE);
    assert_eq!(CLAP_EVENT_NOTE_ON, c::CLAP_EVENT_NOTE_ON);
    assert_eq!(CLAP_EVENT_NOTE_OFF, c::CLAP_EVENT_NOTE_OFF);
    assert_eq!(CLAP_EVENT_PARAM_VALUE, c::CLAP_EVENT_PARAM_VALUE);
    assert_eq!(CLAP_EVENT_PARAM_GESTURE_BEGIN, c::CLAP_EVENT_PARAM_GESTURE_BEGIN);
    assert_eq!(CLAP_EVENT_PARAM_GESTURE_END, c::CLAP_EVENT_PARAM_GESTURE_END);
    assert_eq!(CLAP_EVENT_MIDI, c::CLAP_EVENT_MIDI);
}
