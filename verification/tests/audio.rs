use clap_host::audio::{
    block_step, next_block, BlockStep, Engine, ProcessStep, StreamSettings, BUFFER_SIZES,
    CAPTURE_CAP, EVENT_CAP, MAX_FRAMES, MAX_UI_EVENTS,
};
use clap_host::events::{
    Dialect, EventBody, RawMidi, UiEvent, CLAP_EVENT_MIDI, CLAP_EVENT_PARAM_VALUE,
};
use clap_host::loader::{ParamInfo, PluginPtr};
use clap_host::host::{host_params_request_flush, HostFlags};
use clap_host::queue::{queue, Queue};
use clap_host::session::{
    capture, close, device_label, input_devices, open, open_input, output_devices, pick_input,
    pick_output, sample_rates, Closing, DeviceChoice, DeviceConfig, InputCall, InputReply,
    Opening, RateRange, SessionCall, SessionReply,
};

fn bits(x: f32) -> u32 {
    x.to_bits()
}

fn param(id: u32, cookie: u64) -> ParamInfo {
    ParamInfo { id, name: "p".to_string(), min: 0, max: 0, value: 0, cookie }
}

fn engine(device_channels: usize, ins: Vec<u32>, outs: Vec<u32>) -> Engine {
    Engine::new(
        PluginPtr(1),
        device_channels,
        ins,
        outs,
        &vec![param(7, 70), param(8, 80), param(7, 71)],
        Dialect::Midi,
    )
}

/// One callback of the audio thread; the calls it makes are noted.
fn callback(e: &mut Engine, data: &mut [u32], stop: bool, calls: &mut Vec<&'static str>) {
    match e.process(stop) {
        ProcessStep::Skip => {}
        ProcessStep::Halt { stop_processing } => {
            if stop_processing {
                calls.push("stop");
            }
            data.fill(0);
        }
        ProcessStep::Start => {
            calls.push("start");
            e.start_result(true);
            callback(e, data, stop, calls);
        }
        ProcessStep::Silent => data.fill(0),
        ProcessStep::Run => {
            let mut midi: Queue<RawMidi> = queue();
            let mut ui: Queue<UiEvent> = queue();
            e.collect_events(&mut midi, &mut ui);
            let total = e.frames(data.len());
            let mut done = 0;
            while let BlockStep::Block { frames, .. } = block_step(None, total, done) {
                e.process_block(None, frames);
                calls.push("process");
                e.interleave(data, done, frames);
                e.finish_block(frames);
                done += frames;
            }
        }
    }
}

#[test]
fn start_and_stop_processing_run_on_the_process_thread() {
    let mut e = engine(2, vec![], vec![]);
    let mut data = vec![bits(0.5); 512];
    let mut calls = Vec::new();
    callback(&mut e, &mut data, false, &mut calls);
    callback(&mut e, &mut data, false, &mut calls);
    assert!(calls.iter().any(|c| *c == "process"), "process ran: {calls:?}");
    assert_eq!(
        calls.iter().filter(|c| **c == "start").count(),
        1,
        "start_processing exactly once: {calls:?}"
    );
    callback(&mut e, &mut data, true, &mut calls);
    assert_eq!(
        calls.iter().filter(|c| **c == "stop").count(),
        1,
        "stop_processing exactly once: {calls:?}"
    );
    // Stopping again does nothing but emit silence.
    data.fill(bits(1.0));
    callback(&mut e, &mut data, true, &mut calls);
    assert_eq!(calls.iter().filter(|c| **c == "stop").count(), 1);
    assert!(data.iter().all(|s| *s == 0));
}

#[test]
fn a_plugin_that_does_not_start_stays_silent() {
    let mut e = engine(2, vec![], vec![2]);
    assert_eq!(e.process(false), ProcessStep::Start);
    e.start_result(false);
    assert_eq!(e.process(false), ProcessStep::Silent);
    assert_eq!(e.process(false), ProcessStep::Silent);
    assert_eq!(e.process(true), ProcessStep::Halt { stop_processing: false });
    let mut none = engine(0, vec![], vec![2]);
    assert_eq!(none.process(true), ProcessStep::Skip);
}

#[test]
fn plugins_without_outputs_get_a_stereo_port() {
    assert_eq!(engine(2, vec![1], vec![]).port_layout(), (vec![1], vec![2]));
    assert_eq!(engine(2, vec![], vec![0, 0]).port_layout(), (vec![], vec![2]));
    assert_eq!(engine(2, vec![], vec![0, 1]).port_layout(), (vec![], vec![0, 1]));
    assert_eq!(engine(2, vec![], vec![]).dialect(), Dialect::Midi);
    assert_eq!(engine(2, vec![], vec![]).plugin(), PluginPtr(1));
}

#[test]
fn ports_lie_one_behind_the_other() {
    let e = engine(2, vec![2, 1], vec![2, 4]);
    assert_eq!(e.port_base(true, 0), 0);
    assert_eq!(e.port_base(true, 1), 2);
    assert_eq!(e.port_base(false, 0), 3);
    assert_eq!(e.port_base(false, 1), 5);
}

#[test]
fn mono_is_played_on_every_device_channel() {
    let mut e = engine(3, vec![1], vec![2]);
    e.channel(1)[0] = bits(0.1);
    e.channel(1)[1] = bits(0.2);
    e.channel(2)[0] = bits(0.3);
    e.channel(2)[1] = bits(0.4);
    let mut data = vec![7u32; 12];
    e.interleave(&mut data, 1, 2);
    assert_eq!(
        data,
        vec![
            7,
            7,
            7,
            bits(0.1),
            bits(0.3),
            bits(0.3),
            bits(0.2),
            bits(0.4),
            bits(0.4),
            7,
            7,
            7
        ]
    );
}

#[test]
fn inputs_come_from_the_capture_frame_by_frame() {
    let mut e = engine(2, vec![2], vec![2]);
    let mut q: Queue<u32> = Queue::with_capacity(CAPTURE_CAP);
    // A mono device feeds both input channels.
    capture(&mut q, &[10, 20, 30], 1, 2);
    e.channel(0)[3] = 99;
    let block = e.process_block(Some(&mut q), 2);
    assert_eq!(&e.channel(0)[..4], &[10, 20, 0, 99]);
    assert_eq!(&e.channel(1)[..2], &[10, 20]);
    assert_eq!((block.frames_count, block.steady_time), (2, 0));
    assert_eq!((block.audio_inputs_count, block.audio_outputs_count), (1, 1));
    // What is missing is silence.
    e.process_block(Some(&mut q), 2);
    assert_eq!(&e.channel(0)[..2], &[30, 0]);
    assert_eq!(&e.channel(1)[..2], &[30, 0]);
    assert!(q.is_empty());
    e.channel(0)[0] = 5;
    e.process_block(None, 1);
    assert_eq!(e.channel(0)[0], 0);
}

#[test]
fn captures_are_remixed() {
    let mut q: Queue<u32> = Queue::with_capacity(CAPTURE_CAP);
    // Three device channels to two: the first ones. The last frame is cut short.
    capture(&mut q, &[1, 2, 3, 4, 5, 6, 7], 3, 2);
    let mut got = Vec::new();
    while let Some(s) = q.pop() {
        got.push(s);
    }
    assert_eq!(got, vec![1, 2, 4, 5, 7, 0]);
    let mut small: Queue<u32> = Queue::with_capacity(3);
    capture(&mut small, &[1, 2, 3, 4], 2, 3);
    let mut got = Vec::new();
    while let Some(s) = small.pop() {
        got.push(s);
    }
    // Channel 2 repeats the last device channel; the rest had no room.
    assert_eq!(got, vec![1, 2, 2]);
}

#[test]
fn events_are_collected_once_and_ui_bursts_are_spread() {
    let mut e = engine(2, vec![], vec![2]);
    let mut midi: Queue<RawMidi> = queue();
    let mut ui: Queue<UiEvent> = queue();
    midi.push([0x90, 60, 100]).unwrap();
    midi.push([0x80, 60, 0]).unwrap();
    ui.push(UiEvent::Param { id: 7, value: 5 }).unwrap();
    ui.push(UiEvent::Param { id: 9, value: 6 }).unwrap();
    for i in 0..40u8 {
        ui.push(UiEvent::Midi([0xb0, i, 1])).unwrap();
    }
    e.collect_events(&mut midi, &mut ui);
    assert!(midi.is_empty());
    assert_eq!(e.events().size() as usize, 2 + MAX_UI_EVENTS);
    let at = |i: u32| *e.events().get(i).unwrap();
    assert_eq!(at(0).header.type_, CLAP_EVENT_MIDI);
    assert_eq!(at(2).header.type_, CLAP_EVENT_PARAM_VALUE);
    match at(2).body {
        EventBody::Param { param_id, cookie, value, .. } => {
            assert_eq!((param_id, cookie, value), (7, 70, 5))
        }
        _ => panic!("a parameter event"),
    }
    match at(3).body {
        EventBody::Param { param_id, cookie, .. } => assert_eq!((param_id, cookie), (9, 0)),
        _ => panic!("a parameter event"),
    }
    // The events belong to the first block only, and time goes on.
    e.finish_block(100);
    assert_eq!(e.events().size(), 0);
    assert_eq!(e.process_block(None, 1).steady_time, 100);
    e.collect_events(&mut midi, &mut ui);
    assert_eq!(e.events().size(), 10);
    assert!(ui.is_empty());
}

#[test]
fn a_callback_has_as_few_blocks_as_possible() {
    for (total, blocks) in [(0, 0), (1, 1), (4096, 1), (4097, 2), (10000, 3), (12288, 3)] {
        let mut e = engine(2, vec![], vec![2]);
        e.start_result(true);
        let (mut done, mut count) = (0, 0);
        while let BlockStep::Block { frames, flush } = block_step(None, total, done) {
            assert!(!flush);
            assert!(1 <= frames && frames <= MAX_FRAMES);
            assert_eq!(e.process_block(None, frames).steady_time, done as i64);
            e.finish_block(frames);
            done += frames;
            count += 1;
        }
        assert_eq!((done, count), (total, blocks));
        assert_eq!(e.frames(2 * total + 1), total);
    }
}

#[test]
fn a_flush_comes_before_one_block() {
    let mut flags = HostFlags::new();
    host_params_request_flush(&mut flags);
    assert_eq!(block_step(Some(&mut flags), 8, 8), BlockStep::Done);
    assert_eq!(block_step(None, 8, 0), BlockStep::Block { frames: 8, flush: false });
    assert_eq!(
        block_step(Some(&mut flags), 8, 0),
        BlockStep::Block { frames: 8, flush: true }
    );
    assert_eq!(
        block_step(Some(&mut flags), 8, 0),
        BlockStep::Block { frames: 8, flush: false }
    );
}

#[test]
fn a_full_queue_and_a_burst_fit_the_event_list() {
    let mut e = engine(2, vec![], vec![2]);
    let mut midi: Queue<RawMidi> = queue();
    let mut ui: Queue<UiEvent> = queue();
    while midi.push([0x90, 60, 1]).is_ok() {}
    while ui.push(UiEvent::Midi([0x80, 60, 0])).is_ok() {}
    e.collect_events(&mut midi, &mut ui);
    assert_eq!(e.events().size() as usize, EVENT_CAP);
    assert_eq!(EVENT_CAP, 1024 + MAX_UI_EVENTS);
}

#[test]
fn callbacks_are_cut_into_blocks() {
    assert_eq!(next_block(10000, 0), MAX_FRAMES);
    assert_eq!(next_block(10000, 8192), 1808);
    assert_eq!(next_block(5, 5), 0);
    assert_eq!(BUFFER_SIZES, [64, 128, 256, 512, 1024, 2048]);
}

#[test]
fn rates_start_with_the_default() {
    let r = |min: u32, max: u32| RateRange { min, max };
    assert_eq!(sample_rates(None, &vec![r(0, 1_000_000)]), Vec::<u32>::new());
    assert_eq!(sample_rates(Some(48000), &vec![]), vec![48000]);
    assert_eq!(
        sample_rates(Some(48000), &vec![r(44100, 48000), r(96000, 96000)]),
        vec![48000, 44100, 96000]
    );
    assert_eq!(
        sample_rates(Some(22050), &vec![r(0, 1_000_000)]),
        vec![22050, 44100, 48000, 88200, 96000, 176400, 192000]
    );
}

fn names(list: &[&str]) -> Vec<String> {
    list.iter().map(|s| s.to_string()).collect()
}

#[test]
fn devices_are_found_by_label() {
    assert_eq!(device_label(None), "<unnamed>");
    assert_eq!(
        output_devices(Some(vec![Some("A".to_string()), None])),
        names(&["A", "<unnamed>"])
    );
    assert!(output_devices(None).is_empty());
    assert_eq!(input_devices(Some(vec![Some("M".to_string())])), names(&["M"]));
    let list = Ok(names(&["A", "B", "B"]));
    assert_eq!(pick_output(Some("B"), &list, false), Ok(DeviceChoice::Listed(1)));
    assert_eq!(pick_output(None, &list, true), Ok(DeviceChoice::Standard));
    assert_eq!(
        pick_output(Some("C"), &list, true),
        Err("no output device named \"C\"".to_string())
    );
    assert_eq!(pick_output(None, &list, false), Err("no default output device".to_string()));
    let broken = Err("alsa".to_string());
    assert_eq!(
        pick_output(Some("A"), &broken, true),
        Err("output devices: alsa".to_string())
    );
    assert_eq!(pick_input(Some("B"), &list, false), Ok(DeviceChoice::Listed(1)));
    assert_eq!(pick_input(None, &list, true), Ok(DeviceChoice::Standard));
    assert_eq!(
        pick_input(Some("C"), &list, true),
        Err("input device 'Some(\"C\")' not found".to_string())
    );
    assert_eq!(
        pick_input(None, &list, false),
        Err("input device 'None' not found".to_string())
    );
    assert_eq!(pick_input(Some("A"), &broken, true), Err("alsa".to_string()));
}

fn config() -> SessionReply {
    SessionReply::Config(Ok(DeviceConfig {
        sample_rate: 48000,
        channels: 2,
        is_f32: true,
        format: "F32".to_string(),
    }))
}

fn opened(settings: StreamSettings, inputs: u32, replies: Vec<SessionReply>) -> Opening {
    let mut o = open(settings, inputs);
    for r in replies {
        assert_eq!(o.reply(r), None);
    }
    o
}

const DEFAULTS: StreamSettings = StreamSettings { sample_rate: None, buffer_size: None };

#[test]
fn sessions_open_at_the_device_rate() {
    let o = opened(
        DEFAULTS,
        0,
        vec![
            SessionReply::Device(Ok("Dev".to_string())),
            config(),
            SessionReply::Activated(true),
            SessionReply::Built(Ok(())),
            SessionReply::Playing(Ok(())),
        ],
    );
    assert_eq!(o.call(), SessionCall::Done);
    assert_eq!((o.sample_rate(), o.channels(), o.has_capture()), (48000, 2, false));
    let s = o.into_session(PluginPtr(4), vec![], vec![2], Dialect::Clap);
    assert_eq!((s.plugin, s.sample_rate, s.device_channels), (PluginPtr(4), 48000, 2));
    assert_eq!((s.in_ports, s.out_ports, s.dialect), (vec![], vec![2], Dialect::Clap));
}

#[test]
fn sessions_check_the_wanted_rate() {
    let settings = StreamSettings { sample_rate: Some(96000), buffer_size: Some(64) };
    let start = || {
        opened(
            settings,
            1,
            vec![SessionReply::Device(Ok("Dev".to_string())), config()],
        )
    };
    let mut o = start();
    assert_eq!(o.call(), SessionCall::Ranges);
    o.reply(SessionReply::Ranges(Ok(vec![RateRange { min: 44100, max: 96000 }])));
    assert_eq!((o.call(), o.sample_rate()), (SessionCall::Input, 96000));
    o.reply(SessionReply::Input(Ok(())));
    assert!(o.has_capture());
    assert_eq!(o.call(), SessionCall::Activate);
    o.reply(SessionReply::Activated(true));
    assert_eq!(o.call(), SessionCall::Build { buffer_size: Some(64) });
    assert_eq!(
        o.reply(SessionReply::Built(Err("busy".to_string()))).as_deref(),
        Some("warn: fixed buffer size 64 rejected (busy) — using backend default")
    );
    assert_eq!(o.call(), SessionCall::Build { buffer_size: None });
    o.reply(SessionReply::Built(Ok(())));
    assert_eq!(o.call(), SessionCall::Play);
    let mut o = start();
    o.reply(SessionReply::Ranges(Ok(vec![RateRange { min: 44100, max: 48000 }])));
    assert_eq!(o.call(), SessionCall::Failed { deactivate: false });
    assert_eq!(o.error(), "sample rate 96000 Hz not supported by Dev");
    let mut o = start();
    o.reply(SessionReply::Ranges(Err("x".to_string())));
    assert_eq!(o.error(), "output configs: x");
}

#[test]
fn sessions_that_fail_are_rolled_back() {
    let o = opened(DEFAULTS, 0, vec![SessionReply::Device(Err("none".to_string()))]);
    assert_eq!((o.call(), o.error()), (SessionCall::Failed { deactivate: false }, "none"));
    let dev = || SessionReply::Device(Ok("Dev".to_string()));
    let o = opened(DEFAULTS, 0, vec![dev(), SessionReply::Config(Err("c".to_string()))]);
    assert_eq!(o.error(), "output config: c");
    let odd = SessionReply::Config(Ok(DeviceConfig {
        sample_rate: 1,
        channels: 1,
        is_f32: false,
        format: "I16".to_string(),
    }));
    let o = opened(DEFAULTS, 0, vec![dev(), odd]);
    assert_eq!(o.error(), "unsupported sample format I16 — add conversion if needed");
    let o = opened(DEFAULTS, 0, vec![dev(), config(), SessionReply::Activated(false)]);
    assert_eq!(o.call(), SessionCall::Failed { deactivate: false });
    assert_eq!(o.error(), "plugin.activate returned false");
    let o = opened(
        DEFAULTS,
        0,
        vec![
            dev(),
            config(),
            SessionReply::Activated(true),
            SessionReply::Built(Err("b".to_string())),
        ],
    );
    assert_eq!(o.call(), SessionCall::Failed { deactivate: true });
    assert_eq!(o.error(), "build_output_stream: b");
    let o = opened(
        DEFAULTS,
        0,
        vec![
            dev(),
            config(),
            SessionReply::Activated(true),
            SessionReply::Built(Ok(())),
            SessionReply::Playing(Err("p".to_string())),
        ],
    );
    assert_eq!(o.call(), SessionCall::Failed { deactivate: true });
    assert_eq!(o.error(), "stream.play: p");
}

#[test]
fn a_missing_input_is_not_fatal() {
    let mut o = opened(
        DEFAULTS,
        2,
        vec![SessionReply::Device(Ok("Dev".to_string())), config()],
    );
    assert_eq!(
        o.reply(SessionReply::Input(Err("gone".to_string()))).as_deref(),
        Some("warn: audio input: gone — plugin inputs will be silence")
    );
    assert_eq!(o.call(), SessionCall::Activate);
    assert!(!o.has_capture());
}

#[test]
fn capture_streams_open_step_by_step() {
    let cfg = |is_f32: bool| {
        InputReply::Config(Ok(DeviceConfig {
            sample_rate: 48000,
            channels: 1,
            is_f32,
            format: "U8".to_string(),
        }))
    };
    let e = |s: &str| Err(s.to_string());
    assert_eq!(open_input(InputReply::Device(Ok(()))), Ok(InputCall::Config));
    assert_eq!(open_input(InputReply::Device(e("d"))), Err("d".to_string()));
    assert_eq!(open_input(cfg(true)), Ok(InputCall::Build { channels: 1 }));
    assert_eq!(open_input(cfg(false)), Err("input format U8 is not f32".to_string()));
    assert_eq!(
        open_input(InputReply::Config(Err("c".to_string()))),
        Err("input config: c".to_string())
    );
    assert_eq!(open_input(InputReply::Built(Ok(()))), Ok(InputCall::Play));
    assert_eq!(open_input(InputReply::Built(e("b"))), Err("build_input_stream: b".to_string()));
    assert_eq!(open_input(InputReply::Playing(Ok(()))), Ok(InputCall::Done));
    assert_eq!(open_input(InputReply::Playing(e("p"))), Err("stream.play: p".to_string()));
}

#[test]
fn closing_waits_for_the_audio_thread_but_not_forever() {
    // A callback is told to stop, answers, and the next look ends the session.
    let mut e = engine(2, vec![], vec![2]);
    let (mut data, mut calls) = (vec![0; 4], Vec::new());
    callback(&mut e, &mut data, false, &mut calls);
    assert_eq!(close(false, 0), Closing::Wait);
    callback(&mut e, &mut data, true, &mut calls);
    callback(&mut e, &mut data, true, &mut calls);
    assert_eq!(calls, vec!["start", "process", "stop"]);
    assert_eq!(close(true, 0), Closing::Deactivate);
    assert_eq!(close(false, 249), Closing::Wait);
    assert_eq!(close(false, 250), Closing::StopAndDeactivate);
    assert_eq!(close(true, 1000), Closing::Deactivate);
}
