use clap_host::host::{
    host_get_extension, host_gui_closed, host_gui_request_hide, host_gui_request_resize,
    host_gui_request_show, host_is_audio_thread, host_is_main_thread, host_latency_changed,
    host_log, host_note_name_changed, host_params_clear, host_params_request_flush,
    host_params_rescan, host_preset_load_loaded, host_preset_load_on_error,
    host_remote_controls_changed, host_request_callback, host_request_restart,
    host_state_mark_dirty, host_tail_changed, make_host, mark_audio_thread, pump_main_thread,
    pump_step,
    take_gui_closed, take_gui_hide_requested, take_gui_show_requested, take_latency_changed,
    take_note_name_changed, take_params_dirty, take_params_flush_requested,
    take_preset_load_error, take_preset_loaded, take_remote_controls_dirty, take_requested_resize,
    take_restart_request, take_state_dirty, take_tail_changed, HostExtension, HostFlags,
    MainThreadCalls, PumpPhase, PumpStep, ThreadRoles, CLAP_LOG_ERROR, CLAP_LOG_FATAL, CLAP_LOG_HOST_MISBEHAVING, CLAP_LOG_INFO,
    CLAP_LOG_PLUGIN_MISBEHAVING, CLAP_LOG_WARNING,
};
use clap_sys::ext;
use clap_sys::ext::log as c;
use clap_host::posix_fd::{
    init_poll_thread, queue_events, register_fd, unregister_fd, FdEvent, FdRegistry, Interest,
};
use clap_host::timers::{
    cancel_timer, fire_due_timers, host_timer_register, request_timer, tick, Timers,
};

const ALL_CALLS: MainThreadCalls =
    MainThreadCalls { on_main_thread: true, on_timer: true, on_fd: true };

/// Pump to the end; `during` happens at the first timer.
fn pump(
    flags: &mut HostFlags,
    timers: &mut Timers,
    fds: &mut FdRegistry,
    calls: MainThreadCalls,
    during: impl Fn(&mut Timers, &mut FdRegistry),
) -> Vec<PumpStep> {
    let (mut step, mut phase) = pump_main_thread(flags, timers, fds, calls);
    let mut steps = Vec::new();
    while step != PumpStep::Done {
        if matches!(step, PumpStep::Timer(_)) {
            during(timers, fds);
        }
        steps.push(step);
        step = pump_step(&mut phase, flags, timers, fds, calls);
    }
    assert_eq!(phase, PumpPhase::Over);
    steps
}

fn called_back(flags: &mut HostFlags, on_main_thread: bool) -> bool {
    let calls = MainThreadCalls { on_main_thread, ..ALL_CALLS };
    let (mut timers, mut fds) = (Timers::new(), init_poll_thread(false));
    pump(flags, &mut timers, &mut fds, calls, |_, _| ()) == vec![PumpStep::Callback]
}

#[test]
fn dirty_and_changed_flags_are_one_shot() {
    let mut f = HostFlags::new();
    host_params_rescan(&mut f);
    assert!(take_params_dirty(&mut f));
    assert!(!take_params_dirty(&mut f));

    host_params_request_flush(&mut f);
    assert!(take_params_flush_requested(&mut f));
    assert!(!take_params_flush_requested(&mut f));

    host_state_mark_dirty(&mut f);
    assert!(take_state_dirty(&mut f));
    assert!(!take_state_dirty(&mut f));

    host_latency_changed(&mut f);
    assert!(take_latency_changed(&mut f));
    assert!(!take_latency_changed(&mut f));

    host_tail_changed(&mut f);
    assert!(take_tail_changed(&mut f));
    assert!(!take_tail_changed(&mut f));

    host_note_name_changed(&mut f);
    assert!(take_note_name_changed(&mut f));
    assert!(!take_note_name_changed(&mut f));

    host_remote_controls_changed(&mut f);
    assert!(take_remote_controls_dirty(&mut f));
    assert!(!take_remote_controls_dirty(&mut f));

    host_gui_request_resize(&mut f, 640, 480);
    assert_eq!(take_requested_resize(&mut f), Some((640, 480)));
    assert_eq!(take_requested_resize(&mut f), None);

    host_gui_request_show(&mut f);
    assert!(take_gui_show_requested(&mut f));
    assert!(!take_gui_show_requested(&mut f));

    host_gui_request_hide(&mut f);
    assert!(take_gui_hide_requested(&mut f));
    assert!(!take_gui_hide_requested(&mut f));

    host_preset_load_loaded(&mut f);
    assert!(take_preset_loaded(&mut f));
    assert!(!take_preset_loaded(&mut f));

    host_preset_load_on_error(&mut f, 42, Some(b"file not found"));
    let err = take_preset_load_error(&mut f).expect("on_error message pending");
    assert!(err.contains("file not found"));
    assert!(take_preset_load_error(&mut f).is_none());
}

#[test]
fn further_signals_are_one_shot_too() {
    let mut f = HostFlags::new();
    host_params_clear(&mut f);
    host_params_rescan(&mut f);
    assert!(take_params_dirty(&mut f));
    assert!(!take_params_dirty(&mut f));
    host_request_restart(&mut f);
    host_gui_closed(&mut f);
    assert!(take_gui_closed(&mut f));
    assert!(!take_gui_closed(&mut f));
    assert!(take_restart_request(&mut f));
    assert!(!take_restart_request(&mut f));
    host_request_callback(&mut f);
    assert!(called_back(&mut f, true));
    assert!(!called_back(&mut f, true));
    host_request_callback(&mut f);
    assert!(!called_back(&mut f, false));
    assert!(!called_back(&mut f, true));
    assert!(host_gui_request_show(&mut f));
    assert!(host_gui_request_hide(&mut f));
    assert!(host_gui_request_resize(&mut f, 1, 2));
    assert!(host_gui_request_resize(&mut f, 3, 4));
    assert_eq!(take_requested_resize(&mut f), Some((3, 4)));
}

#[test]
fn preset_errors_name_the_system_error() {
    let mut f = HostFlags::new();
    host_preset_load_on_error(&mut f, -42, Some(b"gone\0junk"));
    assert_eq!(
        take_preset_load_error(&mut f).as_deref(),
        Some("preset load error: gone (os error -42)")
    );
    host_preset_load_on_error(&mut f, 0, None);
    assert_eq!(
        take_preset_load_error(&mut f).as_deref(),
        Some("preset load error:  (os error 0)")
    );
}

#[test]
fn timer_registers_ticks_and_fires_on_main_thread() {
    let mut timers = Timers::new();
    let id = request_timer(&mut timers, 5, 0).expect("period 5 is valid");
    assert!(!cancel_timer(&mut timers, id + 1_000_000));
    let mut fires = 0;
    // 60 ms of ticks, every 5 ms, then the main thread pumps.
    for t in 1..=12u64 {
        tick(&mut timers, t * 5_000_000);
    }
    let (mut flags, mut fds) = (HostFlags::new(), init_poll_thread(false));
    for step in pump(&mut flags, &mut timers, &mut fds, ALL_CALLS, |_, _| ()) {
        assert_eq!(step, PumpStep::Timer(id));
        fires += 1;
    }
    assert!(fires > 0, "due timer ids should be delivered via on_timer");
    assert_eq!(fires, 12);
    assert!(cancel_timer(&mut timers, id));
    assert!(!cancel_timer(&mut timers, id));
}

fn watching(fds: &[i32]) -> FdRegistry {
    let mut reg = init_poll_thread(true);
    for fd in fds {
        assert!(register_fd(&mut reg, *fd, 1, true));
    }
    reg
}

fn ready(fds: &[i32]) -> Vec<Interest> {
    fds.iter()
        .map(|fd| Interest { key: *fd as usize, readable: true, writable: false })
        .collect()
}

#[test]
fn a_pump_delivers_callback_timers_and_fds_in_order() {
    let mut flags = HostFlags::new();
    let mut timers = Timers::new();
    let a = request_timer(&mut timers, 1, 0).unwrap();
    let b = request_timer(&mut timers, 1, 0).unwrap();
    let mut fds = watching(&[4, 7]);
    host_request_callback(&mut flags);
    tick(&mut timers, 1_000_000);
    tick(&mut timers, 2_000_000);
    queue_events(&mut fds, &ready(&[7, 9, 4]));
    let steps = pump(&mut flags, &mut timers, &mut fds, ALL_CALLS, |_, _| ());
    let fd = |fd: i32| PumpStep::Fd(FdEvent { fd, flags: 1 });
    assert_eq!(
        steps,
        vec![
            PumpStep::Callback,
            PumpStep::Timer(a),
            PumpStep::Timer(b),
            PumpStep::Timer(a),
            PumpStep::Timer(b),
            fd(7),
            fd(4),
        ]
    );
    assert!(pump(&mut flags, &mut timers, &mut fds, ALL_CALLS, |_, _| ()).is_empty());
}

#[test]
fn a_pump_sees_what_the_plugin_takes_back() {
    let mut flags = HostFlags::new();
    let mut timers = Timers::new();
    let a = request_timer(&mut timers, 1, 0).unwrap();
    let b = request_timer(&mut timers, 1, 0).unwrap();
    let mut fds = watching(&[4, 7]);
    host_request_callback(&mut flags);
    tick(&mut timers, 1_000_000);
    queue_events(&mut fds, &ready(&[4, 7]));
    // The first timer cancels the second and forgets a descriptor.
    let steps = pump(&mut flags, &mut timers, &mut fds, ALL_CALLS, |timers, fds| {
        cancel_timer(timers, b);
        unregister_fd(fds, 4);
    });
    assert_eq!(
        steps,
        vec![
            PumpStep::Callback,
            PumpStep::Timer(a),
            PumpStep::Fd(FdEvent { fd: 7, flags: 1 }),
        ]
    );
}

#[test]
fn a_pump_skips_what_the_plugin_cannot_take() {
    let mut flags = HostFlags::new();
    let mut timers = Timers::new();
    request_timer(&mut timers, 1, 0).unwrap();
    let mut fds = watching(&[4]);
    host_request_callback(&mut flags);
    tick(&mut timers, 1_000_000);
    queue_events(&mut fds, &ready(&[4]));
    let none = MainThreadCalls { on_main_thread: false, on_timer: false, on_fd: false };
    assert!(pump(&mut flags, &mut timers, &mut fds, none, |_, _| ()).is_empty());
    // What could not be taken is gone.
    assert!(pump(&mut flags, &mut timers, &mut fds, ALL_CALLS, |_, _| ()).is_empty());
    let mut phase = PumpPhase::Over;
    host_request_callback(&mut flags);
    assert_eq!(
        pump_step(&mut phase, &mut flags, &mut timers, &mut fds, ALL_CALLS),
        PumpStep::Done
    );
    assert!(called_back(&mut flags, true));
}

#[test]
fn timers_wait_for_their_period() {
    let mut timers = Timers::new();
    assert_eq!(request_timer(&mut timers, 0, 0), None);
    let slow = request_timer(&mut timers, 10, 1_000_000).unwrap();
    assert_eq!(slow, 1);
    let fast = host_timer_register(&mut timers, 3, true, 1_000_000).unwrap();
    assert_eq!(fast, 2);
    assert_eq!(host_timer_register(&mut timers, 3, false, 0), None);
    tick(&mut timers, 3_999_999);
    assert_eq!(fire_due_timers(&mut timers, true), None);
    tick(&mut timers, 4_000_000);
    assert_eq!(fire_due_timers(&mut timers, true), Some(fast));
    tick(&mut timers, 11_000_000);
    // A timer cancelled after it became due is dropped.
    assert!(cancel_timer(&mut timers, slow));
    assert_eq!(fire_due_timers(&mut timers, true), Some(fast));
    assert_eq!(fire_due_timers(&mut timers, true), None);
    // A clock that runs backwards fires nothing.
    tick(&mut timers, 0);
    assert_eq!(fire_due_timers(&mut timers, true), None);
}

#[test]
fn plugins_without_timers_empty_the_queue() {
    let mut timers = Timers::new();
    let id = request_timer(&mut timers, 1, 0).unwrap();
    for t in 1..=300u64 {
        tick(&mut timers, t * 1_000_000);
    }
    // At most 256 ids wait; the rest was dropped.
    let mut n = 0;
    while fire_due_timers(&mut timers, true) == Some(id) {
        n += 1;
    }
    assert_eq!(n, 256);
    tick(&mut timers, 400_000_000);
    assert_eq!(fire_due_timers(&mut timers, false), None);
    assert_eq!(fire_due_timers(&mut timers, true), None);
}

#[test]
fn host_get_extension_serves_every_extension() {
    for id in [
        ext::log::CLAP_EXT_LOG,
        ext::thread_check::CLAP_EXT_THREAD_CHECK,
        ext::gui::CLAP_EXT_GUI,
        ext::params::CLAP_EXT_PARAMS,
        ext::state::CLAP_EXT_STATE,
        ext::timer_support::CLAP_EXT_TIMER_SUPPORT,
        ext::latency::CLAP_EXT_LATENCY,
        ext::tail::CLAP_EXT_TAIL,
        ext::note_name::CLAP_EXT_NOTE_NAME,
        ext::remote_controls::CLAP_EXT_REMOTE_CONTROLS,
        ext::remote_controls::CLAP_EXT_REMOTE_CONTROLS_COMPAT,
        ext::preset_load::CLAP_EXT_PRESET_LOAD,
        ext::preset_load::CLAP_EXT_PRESET_LOAD_COMPAT,
    ] {
        assert!(
            host_get_extension(Some(id.to_str().unwrap())).is_some(),
            "missing {id:?}"
        );
    }
    assert!(host_get_extension(Some("clap.definitely-not-real")).is_none());
    assert!(host_get_extension(None).is_none());
    assert_eq!(
        host_get_extension(ext::gui::CLAP_EXT_GUI.to_str().ok()),
        Some(HostExtension::Gui)
    );
    assert_eq!(
        host_get_extension(ext::preset_load::CLAP_EXT_PRESET_LOAD_COMPAT.to_str().ok()),
        Some(HostExtension::PresetLoad)
    );
    assert_eq!(
        host_get_extension(
            ext::remote_controls::CLAP_EXT_REMOTE_CONTROLS_COMPAT.to_str().ok()
        ),
        Some(HostExtension::RemoteControls)
    );
}

#[test]
fn log_lines_carry_the_severity() {
    assert_eq!(host_log(CLAP_LOG_INFO, Some(b"hi\0")), "[plugin/info] hi");
    assert_eq!(host_log(CLAP_LOG_WARNING, Some(b"hi")), "[plugin/warn] hi");
    assert_eq!(host_log(CLAP_LOG_ERROR, Some(b"hi")), "[plugin/error] hi");
    assert_eq!(host_log(CLAP_LOG_FATAL, Some(b"hi")), "[plugin/fatal] hi");
    assert_eq!(
        host_log(CLAP_LOG_HOST_MISBEHAVING, Some(b"hi")),
        "[plugin/host-misbehaving] hi"
    );
    assert_eq!(
        host_log(CLAP_LOG_PLUGIN_MISBEHAVING, Some(b"hi")),
        "[plugin/plugin-misbehaving] hi"
    );
    assert_eq!(host_log(77, None), "[plugin/debug] (null)");
    assert_eq!(host_log(0, Some(&[0xff, b'a'])), "[plugin/debug] \u{fffd}a");
    assert_eq!(CLAP_LOG_INFO, c::CLAP_LOG_INFO);
    assert_eq!(CLAP_LOG_WARNING, c::CLAP_LOG_WARNING);
    assert_eq!(CLAP_LOG_ERROR, c::CLAP_LOG_ERROR);
    assert_eq!(CLAP_LOG_FATAL, c::CLAP_LOG_FATAL);
    assert_eq!(CLAP_LOG_HOST_MISBEHAVING, c::CLAP_LOG_HOST_MISBEHAVING);
    assert_eq!(CLAP_LOG_PLUGIN_MISBEHAVING, c::CLAP_LOG_PLUGIN_MISBEHAVING);
}

#[test]
fn thread_roles_stay_with_the_first() {
    let mut roles = ThreadRoles::new();
    assert!(!host_is_main_thread(&roles, 1));
    let host = make_host(&mut roles, 1);
    assert_eq!(host.name, "CLAP-Host-RS");
    assert_eq!(host.vendor, "lxndrbe");
    assert_eq!(host.url, "https://github.com/lxndrbe/clap-host-rs");
    make_host(&mut roles, 2);
    mark_audio_thread(&mut roles, 3);
    mark_audio_thread(&mut roles, 4);
    assert!(host_is_main_thread(&roles, 1));
    assert!(!host_is_main_thread(&roles, 2));
    assert!(host_is_audio_thread(&roles, 3));
    assert!(!host_is_audio_thread(&roles, 4));
    assert!(!host_is_audio_thread(&roles, 1));
}
