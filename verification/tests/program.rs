use clap_host::cli::{
    parse_args, parse_set, plan, set_value_text, without_args, Args, ParamSet, Parsed, Step,
    NEED_OUT, NEED_PLUGIN, USAGE,
};
use clap_host::events::{Dialect, UiEvent};
use clap_host::gui::{
    cap_editor, filter_params, grown_window, midi_status, param_changed, pick_port, poll, port_of_row, push_note,
    remote_nav, remote_rows, row_update, state_loaded, state_path, state_saved, stopped_status,
    toggle_gui, Embedding, Paging, RowUpdate, ToggleCall, ToggleReply, WindowSize, NOTE_OFF,
    NOTE_ON,
};
use clap_host::host::{
    host_gui_closed, host_gui_request_hide, host_gui_request_resize, host_gui_request_show,
    host_params_rescan, host_preset_load_loaded, host_preset_load_on_error,
    host_remote_controls_changed, host_request_restart, host_state_mark_dirty, take_state_dirty,
    take_tail_changed, host_tail_changed, HostFlags,
};
use clap_host::loader::{Descriptor, ParamInfo};
use clap_host::preset::ListedPreset;
use clap_host::queue::{queue, Queue};
use clap_host::remote_controls::PageInfo;
use clap_host::report::{
    found_line, list_text, name_lines, param_line, params_headline, playing_line, plugin_line, ports_line,
    preset_lines, status_line,
};
use clap_host::text::{parse_number, split_at_char, text_of_c, trim};
use clap_host::win32_embed::Extent;

fn parse(argv: &[&str]) -> Parsed {
    let argv: Vec<String> = argv.iter().map(|s| s.to_string()).collect();
    let numbers: Vec<Option<u64>> = argv
        .iter()
        .map(|a| set_value_text(a).and_then(|v| v.parse::<f64>().ok()).map(f64::to_bits))
        .collect();
    parse_args(&argv, &numbers)
}

fn args(argv: &[&str]) -> Args {
    let p = parse(argv);
    assert!(p.error.is_none());
    assert!(p.warnings.is_empty());
    p.args
}

#[test]
fn options_are_read() {
    let a = args(&[
        "--plugin", "x.clap", "--id", "com.x", "--output-device", "Out", "--input-device", "In",
        "--sample-rate", "48000", "--buffer-size", "256", "--list-params", "--list-presets",
        "--pull-preset", "k", "--out", "o.bin", "--set", "3=0.5", "--set", " 4 = -1e3 ",
        "--load-state", "l", "--save-state", "s", "--load-preset", "p", "--play", "--gui",
        "--list-midi", "--midi-in", "Keys", "--list-devices", "--scan",
    ]);
    assert_eq!(a.plugin_path.as_deref(), Some("x.clap"));
    assert_eq!(a.plugin_id.as_deref(), Some("com.x"));
    assert_eq!(a.output_device.as_deref(), Some("Out"));
    assert_eq!(a.input_device.as_deref(), Some("In"));
    assert_eq!((a.sample_rate, a.buffer_size), (Some(48000), Some(256)));
    assert!(a.list_params && a.list_presets && a.play && a.gui);
    assert!(a.list_midi && a.list_devices && a.scan);
    assert_eq!(a.pull_preset.as_deref(), Some("k"));
    assert_eq!(a.pull_out.as_deref(), Some("o.bin"));
    assert_eq!(
        a.sets,
        vec![
            ParamSet { id: 3, value: 0.5f64.to_bits() },
            ParamSet { id: 4, value: (-1000.0f64).to_bits() }
        ]
    );
    assert_eq!(a.load_state.as_deref(), Some("l"));
    assert_eq!(a.save_state.as_deref(), Some("s"));
    assert_eq!(a.load_preset.as_deref(), Some("p"));
    assert_eq!(a.midi_in.as_deref(), Some("Keys"));
}

#[test]
fn unknown_options_are_warned_of() {
    let p = parse(&["--what", "--play", "x"]);
    assert_eq!(p.warnings, vec!["warn: unknown arg --what", "warn: unknown arg x"]);
    assert!(p.args.play && p.error.is_none());
}

#[test]
fn a_missing_value_clears_the_option() {
    let p = parse(&["--plugin", "a", "--plugin"]);
    assert!(p.args.plugin_path.is_none() && p.error.is_none());
    // A value is taken even where it looks like an option.
    assert_eq!(args(&["--plugin", "--play"]).plugin_path.as_deref(), Some("--play"));
}

#[test]
fn bad_values_end_the_reading() {
    let p = parse(&["--x", "--set", "nope", "--y"]);
    assert_eq!(
        p.error.as_deref(),
        Some("error: --set wants <param_id>=<value>, got Some(\"nope\")")
    );
    assert_eq!(p.warnings, vec!["warn: unknown arg --x"]);
    assert_eq!(
        parse(&["--set"]).error.as_deref(),
        Some("error: --set wants <param_id>=<value>, got None")
    );
    for bad in ["=1", "1=", "1=x", "-1=1", "4294967296=1", "a=1"] {
        assert!(parse(&["--set", bad]).error.is_some(), "{bad}");
    }
    assert_eq!(
        parse(&["--sample-rate", "48k"]).error.as_deref(),
        Some("error: --sample-rate wants <hz>, got Some(\"48k\")")
    );
    assert_eq!(
        parse(&["--buffer-size"]).error.as_deref(),
        Some("error: --buffer-size wants <frames>, got None")
    );
}

#[test]
fn sets_are_split_at_the_first_equals_sign() {
    assert_eq!(set_value_text("3=0.5"), Some("0.5"));
    assert_eq!(set_value_text(" 3 = 1=2 "), Some("1=2"));
    assert_eq!(set_value_text("3"), None);
    assert_eq!(parse_set("3=0.5", Some(9)), Some(ParamSet { id: 3, value: 9 }));
    assert_eq!(parse_set("3=0.5", None), None);
    assert_eq!(parse_set("3", Some(9)), None);
}

#[test]
fn queries_work_without_a_plugin() {
    assert_eq!(plan(&args(&["--scan"])), vec![Step::ListScanned]);
    assert_eq!(
        plan(&args(&["--list-devices", "--list-midi"])),
        vec![Step::ListMidi, Step::ListDevices]
    );
    assert!(USAGE.starts_with("usage: clap-host-rs "));
    assert!(without_args(true) && !without_args(false));
}

#[test]
fn queries_are_answered_before_a_missing_plugin_fails() {
    assert_eq!(plan(&args(&[])), vec![Step::NeedPlugin]);
    assert_eq!(plan(&args(&["--play"])), vec![Step::NeedPlugin]);
    for (needy, query) in [
        (vec!["--list-midi", "--play"], Step::ListMidi),
        (vec!["--scan", "--list-presets"], Step::ListScanned),
        (vec!["--list-devices", "--set", "1=1"], Step::ListDevices),
        (vec!["--scan", "--save-state", "s"], Step::ListScanned),
    ] {
        assert_eq!(plan(&args(&needy)), vec![query, Step::NeedPlugin]);
    }
    assert_eq!(NEED_PLUGIN, "error: --plugin <path.clap> is required");
}

#[test]
fn plugins_are_worked_on_in_order() {
    assert_eq!(plan(&args(&["--plugin", "p"])), vec![Step::OpenPlugin]);
    assert_eq!(
        plan(&args(&["--plugin", "p", "--list-presets"])),
        vec![Step::OpenPlugin, Step::ListPresets]
    );
    assert_eq!(
        plan(&args(&[
            "--save-state", "s", "--play", "--list-params", "--set", "1=1", "--pull-preset", "k",
            "--out", "o", "--load-state", "l", "--load-preset", "f", "--plugin", "p",
        ])),
        vec![
            Step::OpenPlugin,
            Step::Instantiate,
            Step::LoadState,
            Step::LoadPreset,
            Step::SetParams,
            Step::PullPreset,
            Step::SaveState,
            Step::ListParams,
            Step::RunPlay,
            Step::DestroyPlugin
        ]
    );
    assert_eq!(
        plan(&args(&["--plugin", "p", "--play", "--gui"])),
        vec![Step::OpenPlugin, Step::Instantiate, Step::RunGui, Step::DestroyPlugin]
    );
    assert_eq!(
        plan(&args(&["--plugin", "p", "--pull-preset", "k"])),
        vec![Step::OpenPlugin, Step::NeedOut]
    );
    assert_eq!(NEED_OUT, "error: --pull-preset needs --out <file>");
}

#[test]
fn listings_read_well() {
    assert_eq!(found_line(2, "x.clap"), "found 2 plugin(s) in x.clap");
    let d = Descriptor { id: Some(b"com.x\0".to_vec()), name: Some(b"X".to_vec()) };
    assert_eq!(plugin_line(1, &d), "  [1] X  id=com.x");
    let presets = vec![ListedPreset { key: "k".to_string(), name: "Init".to_string() }];
    assert_eq!(
        preset_lines(&presets),
        vec!["1 factory preset(s):", "  [0] Init  key=k"]
    );
    assert_eq!(preset_lines(&vec![]), vec!["0 factory preset(s)"]);
    assert_eq!(
        name_lines(&vec!["Keys".to_string()], " MIDI input port(s)"),
        vec!["1 MIDI input port(s):", "  [0] Keys"]
    );
    assert_eq!(name_lines(&vec![], " MIDI input port(s)"), vec!["0 MIDI input port(s):"]);
    assert_eq!(
        param_line(3, 7, "Gain", "0.5000", "-6 dB", "0.0000", "1.0000"),
        "  [3] id=7 Gain = 0.5000 (-6 dB)  [0.0000..1.0000]"
    );
    assert_eq!(params_headline(0), "  (no params)");
    assert_eq!(params_headline(12), "12 param(s):");
    assert_eq!(list_text(&vec![]), format!("{:?}", Vec::<u32>::new()));
    assert_eq!(list_text(&vec![2, 10, 1]), format!("{:?}", vec![2, 10, 1]));
    assert_eq!(
        ports_line(&vec![], &vec![2, 2], Dialect::Absent),
        "audio ports: in [] / out [2, 2] (channels per port), note dialect None"
    );
    assert_eq!(playing_line(48000, 2), "playing at 48000 Hz, 2ch — ctrl+c to stop");
    assert_eq!(
        status_line(44100, 2, &vec![1], &vec![2], Dialect::Clap),
        "44100 Hz · 2 ch · ports in [1] / out [2] · notes Clap"
    );
}

fn param(id: u32) -> ParamInfo {
    ParamInfo { id, name: "p".to_string(), min: 0, max: 0, value: 0, cookie: 0 }
}

fn page(name: &str, params: Vec<u32>) -> PageInfo {
    PageInfo { page_id: 1, name: name.to_string(), params }
}

#[test]
fn remote_pages_are_paged_through() {
    let mut p = Paging::new(2);
    p.prev();
    assert_eq!(p.page, 0);
    p.next();
    p.next();
    assert_eq!(p.page, 1);
    p.refresh(5);
    assert_eq!(p, Paging { page: 1, count: 5 });
    p.refresh(1);
    assert_eq!(p, Paging { page: 0, count: 1 });
    p.refresh(0);
    p.next();
    assert_eq!(p, Paging { page: 0, count: 0 });
    let params = vec![param(5), param(6), param(7)];
    let pages = vec![page("A", vec![7, 9, 5]), page("B", vec![])];
    assert_eq!(remote_rows(&params, &pages, 0), vec![2, 0]);
    assert!(remote_rows(&params, &pages, 1).is_empty());
    assert!(remote_rows(&params, &pages, 2).is_empty());
    let nav = remote_nav(&pages, 1);
    assert_eq!((nav.name.as_str(), nav.page, nav.count), ("B", 1, 2));
    let nav = remote_nav(&pages, 2);
    assert_eq!((nav.name.as_str(), nav.page, nav.count), ("", 0, 0));
}

#[test]
fn parameters_are_filtered_by_name() {
    let named = |name: &str| ParamInfo { name: name.to_string(), ..param(1) };
    let params = vec![named("Osc 1 Level"), named("Filter"), named("osc 2 pan")];
    assert_eq!(filter_params(&params, "OSC"), vec![0, 2]);
    assert_eq!(filter_params(&params, ""), vec![0, 1, 2]);
    assert!(filter_params(&params, "reverb").is_empty());
}

#[test]
fn rows_are_updated_where_they_differ() {
    assert!(matches!(row_update(2, &vec![true]), RowUpdate::Replace));
    match row_update(4, &vec![true, false, true, false]) {
        RowUpdate::Rows(rows) => assert_eq!(rows, vec![1, 3]),
        RowUpdate::Replace => panic!("the number of rows is the same"),
    }
}

#[test]
fn parameter_changes_and_notes_are_queued() {
    let mut q: Queue<UiEvent> = queue();
    assert!(!param_changed(&mut q, true, 3, 4));
    assert!(param_changed(&mut q, false, 5, 6));
    push_note(&mut q, NOTE_ON, 60);
    push_note(&mut q, NOTE_OFF, 60);
    push_note(&mut q, NOTE_ON, 128);
    push_note(&mut q, NOTE_ON, -1);
    assert_eq!(q.pop(), Some(UiEvent::Param { id: 3, value: 4 }));
    assert_eq!(q.pop(), Some(UiEvent::Midi([0x90, 60, 100])));
    assert_eq!(q.pop(), Some(UiEvent::Midi([0x80, 60, 0])));
    assert_eq!(q.pop(), None);
}

#[test]
fn midi_ports_are_found_by_a_part_of_their_name() {
    let ports = vec!["Midi Through".to_string(), "MPK mini".to_string()];
    assert_eq!(pick_port(&ports, "mpk"), Ok(1));
    assert_eq!(pick_port(&ports, "MI"), Ok(0));
    assert_eq!(pick_port(&ports, "x"), Err("no port matching \"x\"".to_string()));
    assert_eq!(port_of_row(0, 2), None);
    assert_eq!(port_of_row(2, 2), Some(1));
    assert_eq!(port_of_row(3, 2), None);
    assert_eq!(port_of_row(-1, 2), None);
    assert_eq!(midi_status(None, Ok(())), "no MIDI input");
    assert_eq!(midi_status(Some("MPK"), Ok(())), "listening on MPK");
    assert_eq!(midi_status(Some("MPK"), Err("busy".to_string())), "busy");
    assert_eq!(stopped_status("x"), "stopped — x");
    assert_eq!(state_path("/a/b.clap"), "/a/b.clap.state.bin");
}

#[test]
fn the_plugin_window_is_toggled() {
    assert!(matches!(toggle_gui(ToggleReply::WasOpen(true)), ToggleCall::Close));
    assert!(matches!(toggle_gui(ToggleReply::WasOpen(false)), ToggleCall::OpenFloating));
    assert!(matches!(toggle_gui(ToggleReply::Floated(Ok(()))), ToggleCall::Opened));
    let failed = |e: Embedding| toggle_gui(ToggleReply::Floated(Err(("f".to_string(), e))));
    match failed(Embedding::Unavailable) {
        ToggleCall::Log(t) => assert_eq!(t, "plugin GUI: f"),
        _ => panic!("a text"),
    }
    assert!(matches!(failed(Embedding::Refused), ToggleCall::Nothing));
    match failed(Embedding::Possible) {
        ToggleCall::Embed(t) => assert_eq!(t, "f"),
        _ => panic!("an embedding"),
    }
    assert!(matches!(toggle_gui(ToggleReply::Embedded(Ok(()))), ToggleCall::Opened));
    match toggle_gui(ToggleReply::Embedded(Err(("f".to_string(), "e".to_string())))) {
        ToggleCall::Log(t) => assert_eq!(t, "plugin GUI: f; embed: e"),
        _ => panic!("a text"),
    }
}

#[test]
fn windows_grow_for_an_editor_and_shrink_back() {
    let e = |width: u32, height: u32| Extent { width, height };
    assert_eq!(cap_editor(e(3000, 500), Some(e(1920, 1080))), e(1920, 500));
    assert_eq!(cap_editor(e(3000, 500), None), e(3000, 500));
    assert_eq!(grown_window(e(640, 600), e(800, 600)), e(832, 1096));
    assert_eq!(grown_window(e(2000, 2000), e(800, 600)), e(2000, 2000));
    assert_eq!(grown_window(e(1, 1), e(u32::MAX, 0)), e(u32::MAX, 496));
    let mut w = WindowSize::new();
    assert_eq!(w.close(), None);
    assert_eq!(w.embed(e(640, 600), e(800, 600)), e(832, 1096));
    assert_eq!(w.embed(e(832, 1096), e(900, 600)), e(932, 1096));
    assert_eq!(w.close(), Some(e(640, 600)));
    assert_eq!(w.close(), None);
}

#[test]
fn polls_take_every_signal_once() {
    let mut f = HostFlags::new();
    host_gui_closed(&mut f);
    host_request_restart(&mut f);
    host_state_mark_dirty(&mut f);
    host_remote_controls_changed(&mut f);
    host_params_rescan(&mut f);
    host_preset_load_loaded(&mut f);
    host_gui_request_show(&mut f);
    host_gui_request_hide(&mut f);
    host_gui_request_resize(&mut f, 5, 6);
    host_preset_load_on_error(&mut f, 1, Some(b"m"));
    host_tail_changed(&mut f);
    let a = poll(&mut f, true);
    assert!(a.close_gui && a.restart_audio && a.mark_dirty && a.refresh_remote);
    assert!(a.reread_params && a.reread_values && a.show_gui && a.hide_gui);
    assert_eq!(a.resize, Some(Extent { width: 5, height: 6 }));
    assert_eq!(a.log.as_deref(), Some("preset load error: m (os error 1)"));
    let b = poll(&mut f, true);
    assert!(!b.close_gui && !b.restart_audio && !b.mark_dirty && !b.refresh_remote);
    assert!(b.resize.is_none() && b.log.is_none());
    assert!(take_tail_changed(&mut f));
    // Floating windows size themselves.
    host_gui_request_resize(&mut f, 5, 6);
    assert!(poll(&mut f, false).resize.is_none());
    assert!(poll(&mut f, true).resize.is_none());
}

#[test]
fn saving_clears_the_dirty_mark() {
    let mut f = HostFlags::new();
    host_state_mark_dirty(&mut f);
    let bad = state_saved(&mut f, "s.bin", Err("full".to_string()));
    assert_eq!((bad.log.as_str(), bad.dirty), ("save state: full", None));
    let good = state_saved(&mut f, "s.bin", Ok(()));
    assert_eq!((good.log.as_str(), good.dirty), ("state saved to s.bin", Some(false)));
    assert!(!take_state_dirty(&mut f));
    let good = state_loaded(&mut f, "s.bin", Ok(()));
    assert_eq!((good.log.as_str(), good.dirty), ("state loaded from s.bin", Some(false)));
    let bad = state_loaded(&mut f, "s.bin", Err("no".to_string()));
    assert_eq!((bad.log.as_str(), bad.dirty), ("load state: no", None));
}

#[test]
fn exactly_white_space_is_trimmed() {
    let mut blank: Vec<u32> = Vec::new();
    for n in 0..0x11_0000 {
        if let Some(c) = char::from_u32(n) {
            let text = c.to_string();
            if trim(&text).is_empty() {
                blank.push(n);
            } else {
                assert_eq!(trim(&text), text);
            }
        }
    }
    let mut expected: Vec<u32> = (0x9..=0xd).collect();
    expected.extend([0x20, 0x85, 0xa0, 0x1680]);
    expected.extend(0x2000..=0x200a);
    expected.extend([0x2028, 0x2029, 0x202f, 0x205f, 0x3000]);
    assert_eq!(blank, expected);
}

#[test]
fn valid_texts_of_plugins_come_through() {
    for text in ["", "plain", "Größe \u{1f3b9}"] {
        let mut bytes = text.as_bytes().to_vec();
        assert_eq!(text_of_c(&bytes), text);
        bytes.extend([0, b'x']);
        assert_eq!(text_of_c(&bytes), text);
    }
    assert_eq!(text_of_c(b"a\xffb\0"), "a\u{fffd}b");
}

#[test]
fn texts_are_trimmed_split_and_read() {
    assert_eq!(trim(" \u{a0}a b\t\n"), "a b");
    assert_eq!(trim(" \t"), "");
    assert_eq!(split_at_char("a;;b", ';'), vec!["a", "", "b"]);
    assert_eq!(split_at_char("", ';'), vec![""]);
    assert_eq!(parse_number("+007", 10), Some(7));
    assert_eq!(parse_number("11", 10), None);
    assert_eq!(parse_number("", 10), None);
    assert_eq!(parse_number("+", 10), None);
    assert_eq!(parse_number("18446744073709551615", u64::MAX), Some(u64::MAX));
    assert_eq!(parse_number("18446744073709551616", u64::MAX), None);
    assert_eq!(text_of_c(b"caf\xc3\xa9\0x"), "café");
    assert_eq!(text_of_c(b"\xff"), "\u{fffd}");
}
