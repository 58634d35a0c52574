use clap_host::events::{Dialect, EventBody};
use clap_host::loader::{
    audio_port_channels, cookie_of, find_param, flush_params, is_visible, note_dialect,
    param_text, param_value, params, plugin_ext, set_param, AudioPorts, Descriptor, Loader,
    NoteDialects, NotePorts, OpenCall, OpenReply, ParamInfo, Params, RawParam,
    CLAP_NOTE_DIALECT_CLAP, CLAP_NOTE_DIALECT_MIDI, CLAP_PARAM_IS_HIDDEN, NO_VALUE,
};
use clap_host::plugin_gui::{supports_floating, FloatCall, FloatReply, FloatingGui, GuiExt};
use clap_host::preset::{
    file_loaded, list, load_file, load_file_available, preset_ext, pull, pull_step, pulled_line,
    Discovery, ListCall, ListReply, Listing, Provider, PullCall, PullReply,
    CLAP_PRESET_DISCOVERY_LOCATION_FILE, CLAP_PRESET_DISCOVERY_LOCATION_PLUGIN,
};
use clap_host::remote_controls::{
    available, pages, rc_ext, RawPage, RemoteControls, CLAP_REMOTE_CONTROLS_COUNT,
};
use clap_host::state::{
    load, load_from, loaded, save, saved, stream_read, stream_write, written, StateError,
    StreamBuf,
};
use clap_host::win32_embed::{
    supports_embedded, CloseCalls, EmbedCall, EmbedReply, EmbeddedGui, Extent,
};

fn err(s: &str) -> String {
    s.to_string()
}

#[test]
fn opening_a_file_goes_step_by_step() {
    assert_eq!(Loader::open(OpenReply::Loaded(Ok(()))), Ok(OpenCall::FindEntry));
    assert_eq!(Loader::open(OpenReply::Entry(Ok((true, true)))), Ok(OpenCall::Init));
    assert_eq!(Loader::open(OpenReply::Started(Ok(true))), Ok(OpenCall::FindFactory));
    assert_eq!(Loader::open(OpenReply::Factory(true)), Ok(OpenCall::Done));
}

#[test]
fn every_step_of_opening_can_fail() {
    assert_eq!(Loader::open(OpenReply::Loaded(Err(err("no")))), Err(err("dlopen: no")));
    assert_eq!(
        Loader::open(OpenReply::Entry(Err(err("no")))),
        Err(err("clap_entry symbol: no"))
    );
    assert_eq!(
        Loader::open(OpenReply::Entry(Ok((false, false)))),
        Err(err("entry.init is null"))
    );
    assert_eq!(
        Loader::open(OpenReply::Entry(Ok((true, false)))),
        Err(err("entry.get_factory is null"))
    );
    assert_eq!(Loader::open(OpenReply::Started(Err(err("nul")))), Err(err("nul")));
    assert_eq!(
        Loader::open(OpenReply::Started(Ok(false))),
        Err(err("entry.init returned false"))
    );
    assert_eq!(
        Loader::open(OpenReply::Factory(false)),
        Err(err("get_factory: no plugin factory"))
    );
}

fn desc(id: &str) -> Option<Descriptor> {
    Some(Descriptor { id: Some(id.as_bytes().to_vec()), name: Some(b"n".to_vec()) })
}

#[test]
fn plugins_are_created_by_id_or_in_order() {
    let l = Loader::new(
        vec![
            None,
            Some(Descriptor { id: None, name: None }),
            desc("a"),
            desc("b\0x"),
            desc("a"),
        ],
        true,
    );
    assert_eq!(l.plugin_count(), 5);
    assert!(l.descriptor(0).is_none());
    assert!(l.descriptor(2).is_some());
    assert!(l.descriptor(5).is_none());
    assert_eq!(l.create(None, 0), Ok(2));
    assert_eq!(l.create(None, 3), Ok(3));
    assert_eq!(l.create(Some("b"), 0), Ok(3));
    assert_eq!(l.create(Some("a"), 3), Ok(4));
    assert_eq!(l.create(Some("a"), 5), Err(err("plugin id=\"a\" not found")));
    assert_eq!(l.create(Some("q\"z"), 0), Err(err("plugin id=\"q\\\"z\" not found")));
    assert_eq!(
        l.create(None, 5),
        Err(err("factory.create_plugin returned null for all plugins"))
    );
    let none = Loader::new(vec![desc("a")], false);
    assert_eq!(none.create(None, 0), Err(err("factory.create_plugin is null")));
}

#[test]
fn missing_extensions_have_no_address() {
    assert_eq!(plugin_ext(None), None);
    assert_eq!(plugin_ext(Some(0)), None);
    assert_eq!(plugin_ext(Some(7)), Some(7));
}

#[test]
fn audio_ports_are_all_counted() {
    assert!(audio_port_channels(&None).is_empty());
    assert!(audio_port_channels(&Some(AudioPorts { count: Some(2), channels: None })).is_empty());
    assert!(audio_port_channels(&Some(AudioPorts { count: None, channels: Some(vec![Some(2)]) }))
        .is_empty());
    assert_eq!(
        audio_port_channels(&Some(AudioPorts {
            count: Some(3),
            channels: Some(vec![Some(2), None, Some(1)])
        })),
        vec![2, 0, 1]
    );
}

#[test]
fn note_dialects_prefer_what_the_port_prefers() {
    let port = |preferred: u32, supported: u32| {
        note_dialect(Some(NotePorts {
            count: Some(1),
            first: Some(NoteDialects { preferred, supported }),
        }))
    };
    assert_eq!(note_dialect(None), Dialect::Absent);
    assert_eq!(note_dialect(Some(NotePorts { count: None, first: None })), Dialect::Absent);
    assert_eq!(note_dialect(Some(NotePorts { count: Some(1), first: None })), Dialect::Absent);
    assert_eq!(
        note_dialect(Some(NotePorts {
            count: Some(0),
            first: Some(NoteDialects { preferred: 3, supported: 3 })
        })),
        Dialect::Absent
    );
    assert_eq!(port(CLAP_NOTE_DIALECT_MIDI, CLAP_NOTE_DIALECT_CLAP), Dialect::Midi);
    assert_eq!(port(CLAP_NOTE_DIALECT_CLAP, CLAP_NOTE_DIALECT_MIDI), Dialect::Clap);
    assert_eq!(port(3, 0), Dialect::Midi);
    assert_eq!(port(4, CLAP_NOTE_DIALECT_CLAP), Dialect::Clap);
    assert_eq!(port(4, 4), Dialect::Absent);
    assert_eq!(CLAP_NOTE_DIALECT_CLAP, clap_sys::ext::note_ports::CLAP_NOTE_DIALECT_CLAP);
    assert_eq!(CLAP_NOTE_DIALECT_MIDI, clap_sys::ext::note_ports::CLAP_NOTE_DIALECT_MIDI);
}

fn raw(id: u32, flags: u32, value: Option<f64>) -> Option<RawParam> {
    Some(RawParam {
        id,
        flags,
        name: b"gain\0\0".to_vec(),
        min: 0.0f64.to_bits(),
        max: 1.0f64.to_bits(),
        value: value.map(f64::to_bits),
        cookie: 100 + id as u64,
    })
}

fn three_params() -> Vec<ParamInfo> {
    params(&Some(Params {
        count: Some(5),
        infos: Some(vec![
            raw(1, 0, Some(0.5)),
            raw(2, CLAP_PARAM_IS_HIDDEN, Some(0.5)),
            None,
            raw(3, 1, None),
            raw(1, 0, Some(0.25)),
        ]),
    }))
}

#[test]
fn hidden_params_are_not_listed() {
    let list = three_params();
    assert_eq!(list.iter().map(|p| p.id).collect::<Vec<_>>(), vec![1, 3, 1]);
    assert_eq!(list[0].name, "gain");
    assert_eq!(f64::from_bits(list[0].value), 0.5);
    assert_eq!(f64::from_bits(list[0].max), 1.0);
    assert!(f64::from_bits(list[1].value).is_nan());
    assert_eq!(list[1].value, f64::NAN.to_bits());
    assert_eq!(NO_VALUE, f64::NAN.to_bits());
    assert!(params(&None).is_empty());
    assert!(params(&Some(Params { count: Some(1), infos: None })).is_empty());
    assert!(params(&Some(Params { count: None, infos: Some(vec![raw(1, 0, None)]) })).is_empty());
    assert!(is_visible(3) && !is_visible(CLAP_PARAM_IS_HIDDEN | 1));
    assert_eq!(CLAP_PARAM_IS_HIDDEN, clap_sys::ext::params::CLAP_PARAM_IS_HIDDEN);
}

#[test]
fn setting_a_param_echoes_the_cookie() {
    let list = three_params();
    assert_eq!(find_param(&list, 3), Some(1));
    assert_eq!(find_param(&list, 2), None);
    assert_eq!(cookie_of(&list, 1), 101);
    assert_eq!(cookie_of(&list, 9), 0);
    let evs = set_param(Some(true), &list, 3, 0.75f64.to_bits()).ok().unwrap();
    assert_eq!(evs.size(), 1);
    let e = evs.get(0).unwrap();
    assert_eq!(e.header.time, 0);
    match e.body {
        EventBody::Param { param_id, cookie, value, .. } => {
            assert_eq!((param_id, cookie, value), (3, 103, 0.75f64.to_bits()))
        }
        _ => panic!("a parameter event"),
    }
    assert_eq!(
        set_param(None, &list, 3, 0).err().unwrap(),
        "plugin has no clap.params extension"
    );
    assert_eq!(set_param(Some(false), &list, 3, 0).err().unwrap(), "clap.params has no flush");
    assert!(flush_params(Some(true)));
    assert!(!flush_params(Some(false)));
    assert!(!flush_params(None));
}

#[test]
fn param_texts_fall_back_to_the_plain_number() {
    let mut buf = [0u8; 64];
    buf[..7].copy_from_slice(b"-6.0 dB");
    assert_eq!(param_text(Some(&buf), "0.50"), "-6.0 dB");
    assert_eq!(param_text(Some(&[b'x'; 64]), "0.50"), "0.50");
    assert_eq!(param_text(None, "0.50"), "0.50");
    assert_eq!(param_value(Some((true, 7))), Some(7));
    assert_eq!(param_value(Some((false, 7))), None);
    assert_eq!(param_value(None), None);
}

#[test]
fn stream_buffer_roundtrip() {
    let mut buf = StreamBuf::new();
    assert_eq!(stream_write(&mut buf, Some(b"hello")), 5);
    assert_eq!(buf.bytes(), b"hello");

    let mut readback = [0u8; 5];
    let n = stream_read(&mut buf, Some(&mut readback));
    assert_eq!(n, 5);
    assert_eq!(&readback, b"hello");
}

#[test]
fn streams_are_read_in_any_pieces() {
    let mut buf = StreamBuf::default();
    assert_eq!(stream_write(&mut buf, Some(b"hel")), 3);
    assert_eq!(stream_write(&mut buf, Some(b"")), 0);
    assert_eq!(stream_write(&mut buf, Some(b"lo world")), 8);
    assert_eq!(stream_write(&mut buf, None), -1);
    let mut got = Vec::new();
    for size in [1usize, 4, 0, 100] {
        let mut piece = vec![0xaau8; size];
        let n = stream_read(&mut buf, Some(piece.as_mut_slice()));
        assert!(piece[n as usize..].iter().all(|b| *b == 0xaa));
        got.extend_from_slice(&piece[..n as usize]);
    }
    assert_eq!(got, b"hello world");
    let mut more = [0u8; 4];
    assert_eq!(stream_read(&mut buf, Some(&mut more)), 0);
    assert_eq!(stream_read(&mut buf, None), -1);
}

#[test]
fn saving_and_loading_a_state() {
    let mut out = save(Some(true)).ok().unwrap();
    stream_write(&mut out, Some(b"blob"));
    let bytes = saved(out, true).ok().unwrap();
    assert_eq!(bytes, b"blob");
    assert!(written(Ok(())).is_ok());
    assert!(load(Some(true)).is_ok());
    let mut back = load_from(Ok(bytes)).ok().unwrap();
    let mut got = [0u8; 4];
    assert_eq!(stream_read(&mut back, Some(&mut got)), 4);
    assert_eq!(&got, b"blob");
    assert!(loaded(true).is_ok());
}

#[test]
fn state_failures_are_told() {
    let text = |e: StateError| e.message("/s.bin");
    assert_eq!(text(save(None).err().unwrap()), "plugin has no state extension");
    assert_eq!(text(save(Some(false)).err().unwrap()), "state.save is null");
    assert_eq!(
        text(saved(StreamBuf::new(), false).err().unwrap()),
        "state.save returned false"
    );
    assert_eq!(text(written(Err(err("full"))).err().unwrap()), "write /s.bin: full");
    assert_eq!(text(load(None).err().unwrap()), "plugin has no state extension");
    assert_eq!(text(load(Some(false)).err().unwrap()), "state.load is null");
    assert_eq!(text(load_from(Err(err("gone"))).err().unwrap()), "read /s.bin: gone");
    assert_eq!(text(loaded(false).err().unwrap()), "plugin rejected state blob");
}

fn page(i: u32) -> Option<RawPage> {
    let mut name = format!("Page {i}").into_bytes();
    name.resize(256, 0);
    Some(RawPage { page_id: 100 + i, name, param_ids: vec![10, 11, 12, 13, 14, 15, 16, 17] })
}

#[test]
fn available_and_pages_read_the_plugin_extension() {
    assert!(available(Some(1), None));
    let ext = Some(RemoteControls { count: Some(2), pages: Some(vec![page(0), page(1)]) });
    let pages = pages(&ext);
    assert_eq!(pages.len(), 2);
    assert_eq!(pages[0].page_id, 100);
    assert_eq!(pages[0].name, "Page 0");
    assert_eq!(pages[0].params, vec![10, 11, 12, 13, 14, 15, 16, 17]);
    assert_eq!(pages[1].page_id, 101);
}

#[test]
fn missing_extension_means_no_pages() {
    assert!(!available(None, None));
    assert!(pages(&None).is_empty());
}

#[test]
fn incomplete_extensions_mean_no_pages() {
    assert!(pages(&Some(RemoteControls { count: None, pages: Some(vec![page(0)]) })).is_empty());
    assert!(pages(&Some(RemoteControls { count: Some(1), pages: None })).is_empty());
    assert!(pages(&Some(RemoteControls { count: Some(2), pages: Some(vec![page(0), None]) }))
        .is_empty());
}

#[test]
fn pages_end_at_the_first_empty_slot() {
    let ext = Some(RemoteControls {
        count: Some(2),
        pages: Some(vec![
            Some(RawPage { page_id: 1, name: b"a".to_vec(), param_ids: vec![5, 6, 0, 7] }),
            Some(RawPage {
                page_id: 2,
                name: b"".to_vec(),
                param_ids: vec![1, 2, 3, 4, 5, 6, 7, 8, 9, 10],
            }),
        ]),
    });
    let list = pages(&ext);
    assert_eq!(list[0].params, vec![5, 6]);
    assert_eq!(list[1].params, vec![1, 2, 3, 4, 5, 6, 7, 8]);
    assert_eq!(
        CLAP_REMOTE_CONTROLS_COUNT,
        clap_sys::ext::remote_controls::CLAP_REMOTE_CONTROLS_COUNT
    );
    assert_eq!(rc_ext(Some(1), Some(2)), Some(1));
    assert_eq!(rc_ext(None, Some(2)), Some(2));
    assert!(available(None, Some(2)));
}

#[test]
fn load_file_uses_file_location_and_null_load_key() {
    let path = "C:/tmp/init.clap-preset";
    assert!(load_file_available(Some(1), None));
    let request = load_file(Some(true), path).ok().expect("from_location called");
    assert_eq!(
        request.kind,
        clap_sys::factory::preset_discovery::CLAP_PRESET_DISCOVERY_LOCATION_FILE
    );
    assert_eq!(request.location.as_deref(), Some("C:/tmp/init.clap-preset"));
    assert!(request.load_key.is_none());
    assert!(file_loaded(path, Ok(true)).is_ok());
}

#[test]
fn load_file_errors_without_extension() {
    assert!(!load_file_available(None, None));
    let err = load_file(None, "x.clap-preset").err().unwrap();
    assert!(err.contains("preset-load"));
}

#[test]
fn preset_file_failures_are_told() {
    assert!(load_file_available(None, Some(1)));
    assert_eq!(preset_ext(Some(1), Some(2)), Some(1));
    assert_eq!(preset_ext(None, Some(2)), Some(2));
    assert_eq!(preset_ext(None, None), None);
    assert_eq!(load_file(None, "p").err().unwrap(), "plugin has no clap.preset-load");
    assert_eq!(
        load_file(Some(false), "p").err().unwrap(),
        "preset-load.from_location is null"
    );
    assert_eq!(file_loaded("p", Ok(false)), Err(err("preset-load rejected p")));
    assert_eq!(file_loaded("p", Err(err("nul"))), Err(err("nul")));
    assert_eq!(
        CLAP_PRESET_DISCOVERY_LOCATION_FILE,
        clap_sys::factory::preset_discovery::CLAP_PRESET_DISCOVERY_LOCATION_FILE
    );
    assert_eq!(
        CLAP_PRESET_DISCOVERY_LOCATION_PLUGIN,
        clap_sys::factory::preset_discovery::CLAP_PRESET_DISCOVERY_LOCATION_PLUGIN
    );
}

#[test]
fn presets_need_a_complete_factory() {
    let f = |count: bool, get_descriptor: bool, create: bool| {
        list(Some(Discovery { count, get_descriptor, create }))
    };
    assert_eq!(
        list(None),
        Err(err("no preset-discovery factory (plugin has empty factory_presets?)"))
    );
    assert_eq!(f(false, false, false), Err(err("discovery.count is null")));
    assert_eq!(f(true, false, true), Err(err("discovery.get_descriptor is null")));
    assert_eq!(f(true, true, false), Err(err("discovery.create is null")));
    assert_eq!(f(true, true, true), Ok(()));
}

#[test]
fn providers_are_listed_one_by_one_and_destroyed() {
    let full = Provider { init: true, get_metadata: true, destroy: true };
    let mut l = Listing::new(4);
    assert_eq!((l.call(), l.index()), (ListCall::Create, 0));
    l.reply(ListReply::Created(None));
    assert_eq!((l.call(), l.index()), (ListCall::Create, 1));
    // Fails to initialise: destroyed, nothing listed.
    l.reply(ListReply::Created(Some(full)));
    assert_eq!(l.call(), ListCall::Init);
    l.reply(ListReply::Initialised(false));
    assert_eq!(l.call(), ListCall::Destroy);
    l.reply(ListReply::Destroyed);
    assert_eq!((l.call(), l.index()), (ListCall::Create, 2));
    l.reply(ListReply::Created(Some(full)));
    l.reply(ListReply::Initialised(true));
    assert_eq!(l.call(), ListCall::GetMetadata);
    l.begin_preset(Some(b"Init\0"), Some(b"k1"));
    l.begin_preset(None, None);
    l.reply(ListReply::Asked);
    assert_eq!(l.call(), ListCall::Destroy);
    l.reply(ListReply::Destroyed);
    // No init, no destroy.
    l.reply(ListReply::Created(Some(Provider {
        init: false,
        get_metadata: true,
        destroy: false,
    })));
    assert_eq!(l.call(), ListCall::GetMetadata);
    l.begin_preset(Some(b"Last"), Some(b"k2"));
    l.reply(ListReply::Asked);
    assert_eq!(l.call(), ListCall::Done);
    let presets = l.into_presets();
    let rows: Vec<(&str, &str)> =
        presets.iter().map(|p| (p.name.as_str(), p.key.as_str())).collect();
    assert_eq!(rows, vec![("Init", "k1"), ("", ""), ("Last", "k2")]);
    assert_eq!(Listing::new(0).call(), ListCall::Done);
}

#[test]
fn pulling_a_preset_writes_a_state() {
    let request = pull(Some(true), "k").ok().unwrap();
    assert_eq!(request.kind, CLAP_PRESET_DISCOVERY_LOCATION_PLUGIN);
    assert!(request.location.is_none());
    assert_eq!(request.load_key.as_deref(), Some("k"));
    let step = |in_dir: bool, reply: PullReply| pull_step("k", "d/o.bin", in_dir, reply);
    assert_eq!(step(true, PullReply::Loaded(Ok(true))), Ok(PullCall::AskState));
    assert_eq!(step(true, PullReply::State(Some(true))), Ok(PullCall::Save));
    assert_eq!(
        step(true, PullReply::Saved { answer: true, size: 3 }),
        Ok(PullCall::MakeDir)
    );
    assert_eq!(step(false, PullReply::Saved { answer: true, size: 3 }), Ok(PullCall::Write));
    assert_eq!(step(true, PullReply::DirMade(Ok(()))), Ok(PullCall::Write));
    assert_eq!(step(true, PullReply::Written(Ok(()))), Ok(PullCall::Done));
    assert_eq!(pulled_line(12, "d/o.bin", "k"), "wrote 12 bytes → d/o.bin (key=k)");
}

#[test]
fn pull_failures_are_told() {
    let step = |reply: PullReply| pull_step("a\"b", "o.bin", true, reply).err().unwrap();
    assert_eq!(pull(None, "k").err().unwrap(), "plugin has no clap.preset-load");
    assert_eq!(pull(Some(false), "k").err().unwrap(), "preset-load.from_location is null");
    assert_eq!(step(PullReply::Loaded(Err(err("nul")))), "nul");
    assert_eq!(
        step(PullReply::Loaded(Ok(false))),
        "preset-load failed for key \"a\\\"b\""
    );
    assert_eq!(step(PullReply::State(None)), "plugin has no clap.state");
    assert_eq!(step(PullReply::State(Some(false))), "clap.state.save is null");
    assert_eq!(
        step(PullReply::Saved { answer: false, size: 9 }),
        "clap.state.save returned false"
    );
    assert_eq!(step(PullReply::Saved { answer: true, size: 0 }), "state blob is empty");
    assert_eq!(step(PullReply::DirMade(Err(err("ro")))), "create dir: ro");
    assert_eq!(step(PullReply::Written(Err(err("ro")))), "write o.bin: ro");
}

const GUI: GuiExt = GuiExt {
    is_api_supported: Some(true),
    create: true,
    destroy: true,
    suggest_title: true,
    get_size: true,
    set_parent: true,
    show: true,
    hide: true,
};

#[test]
fn floating_windows_open_and_close() {
    let mut w = FloatingGui::open(Some(GUI), "Synth").ok().unwrap();
    assert_eq!(w.call(), FloatCall::Create);
    w.reply(FloatReply::Created(true));
    assert_eq!(w.call(), FloatCall::SuggestTitle);
    w.reply(FloatReply::Titled);
    assert_eq!(w.call(), FloatCall::Show);
    w.reply(FloatReply::Shown(true));
    assert_eq!(w.call(), FloatCall::Done);
    assert!(w.show() && w.hide_window());
    assert!(w.close());
    // A title that is no C string is not suggested.
    let mut odd = FloatingGui::open(Some(GUI), "a\0b").ok().unwrap();
    odd.reply(FloatReply::Created(true));
    assert_eq!(odd.call(), FloatCall::Show);
}

#[test]
fn floating_windows_that_fail_are_destroyed() {
    let fails = |g: Option<GuiExt>| FloatingGui::open(g, "t").err().unwrap();
    assert_eq!(fails(None), "plugin has no clap.gui extension");
    let embed_only = GuiExt { is_api_supported: Some(false), ..GUI };
    assert_eq!(fails(Some(embed_only)), "plugin supports embedded (non-floating) GUIs only");
    assert!(!supports_floating(Some(embed_only)));
    assert!(!supports_floating(Some(GuiExt { is_api_supported: None, ..GUI })));
    assert!(!supports_floating(None));
    assert_eq!(fails(Some(GuiExt { create: false, ..GUI })), "clap.gui has no create");

    let mut w = FloatingGui::open(Some(GUI), "t").ok().unwrap();
    w.reply(FloatReply::Created(false));
    assert_eq!(w.call(), FloatCall::Failed { destroy: false });
    assert_eq!(w.error(), "gui.create returned false");

    let mut w = FloatingGui::open(Some(GUI), "t").ok().unwrap();
    w.reply(FloatReply::Created(true));
    w.reply(FloatReply::Titled);
    w.reply(FloatReply::Shown(false));
    assert_eq!(w.call(), FloatCall::Failed { destroy: true });
    assert_eq!(w.error(), "gui.show returned false");

    let mute = GuiExt { show: false, suggest_title: false, ..GUI };
    let mut w = FloatingGui::open(Some(mute), "t").ok().unwrap();
    w.reply(FloatReply::Created(true));
    assert_eq!(w.call(), FloatCall::Failed { destroy: true });
    assert_eq!(w.error(), "clap.gui has no show");
}

#[test]
fn editors_are_embedded_with_their_size() {
    let mut e = EmbeddedGui::open(Some(GUI)).ok().unwrap();
    e.reply(EmbedReply::Created(true));
    assert_eq!(e.call(), EmbedCall::GetSize);
    e.reply(EmbedReply::Size(Some(Extent { width: 800, height: 600 })));
    assert_eq!(
        e.call(),
        EmbedCall::Socket { size: Extent { width: 800, height: 600 } }
    );
    e.reply(EmbedReply::SocketCreated(true));
    assert_eq!(e.call(), EmbedCall::SetParent);
    e.reply(EmbedReply::Parented(true));
    assert_eq!(e.call(), EmbedCall::Show);
    e.reply(EmbedReply::Shown(true));
    assert_eq!(e.call(), EmbedCall::Done);
    assert!(e.show() && e.hide_window());
    assert_eq!(e.close(), CloseCalls { hide: true, destroy: true, destroy_socket: true });
    let default = EmbedCall::Socket { size: Extent { width: 400, height: 300 } };
    for named in [None, Some(Extent { width: 0, height: 9 }), Some(Extent { width: 9, height: 0 })]
    {
        let mut e = EmbeddedGui::open(Some(GUI)).ok().unwrap();
        e.reply(EmbedReply::Created(true));
        e.reply(EmbedReply::Size(named));
        assert_eq!(e.call(), default);
    }
    let mut e = EmbeddedGui::open(Some(GuiExt { get_size: false, ..GUI })).ok().unwrap();
    e.reply(EmbedReply::Created(true));
    assert_eq!(e.call(), default);
    assert_eq!(EmbeddedGui::size(None), Extent { width: 0, height: 0 });
    assert_eq!(
        EmbeddedGui::size(Some(Extent { width: 3, height: 4 })),
        Extent { width: 3, height: 4 }
    );
}

fn embedding(gui: GuiExt, replies: &[EmbedReply]) -> EmbeddedGui {
    let mut e = EmbeddedGui::open(Some(gui)).ok().unwrap();
    for r in replies {
        e.reply(*r);
    }
    e
}

#[test]
fn editors_that_fail_are_undone() {
    let fails = |g: Option<GuiExt>| EmbeddedGui::open(g).err().unwrap();
    assert_eq!(fails(None), "plugin has no clap.gui extension");
    let float_only = GuiExt { is_api_supported: Some(false), ..GUI };
    assert_eq!(fails(Some(float_only)), "plugin does not support embedded (non-floating) GUIs");
    assert!(!supports_embedded(Some(float_only)) && supports_embedded(Some(GUI)));
    assert_eq!(fails(Some(GuiExt { create: false, ..GUI })), "clap.gui has no create");
    let e = embedding(GUI, &[EmbedReply::Created(false)]);
    assert_eq!(e.call(), EmbedCall::Failed { destroy: false, destroy_socket: false });
    assert_eq!(e.error(), "gui.create returned false");
    let made = [EmbedReply::Created(true), EmbedReply::Size(None)];
    let e = embedding(GUI, &[made[0], made[1], EmbedReply::SocketCreated(false)]);
    assert_eq!(e.call(), EmbedCall::Failed { destroy: true, destroy_socket: false });
    assert_eq!(e.error(), "CreateWindowExW failed");
    let orphan = GuiExt { set_parent: false, destroy: false, ..GUI };
    let e = embedding(orphan, &[made[0], made[1], EmbedReply::SocketCreated(true)]);
    assert_eq!(e.call(), EmbedCall::Failed { destroy: false, destroy_socket: true });
    assert_eq!(e.error(), "gui.set_parent returned false");
    let socket = EmbedReply::SocketCreated(true);
    let e = embedding(GUI, &[made[0], made[1], socket, EmbedReply::Parented(false)]);
    assert_eq!(e.call(), EmbedCall::Failed { destroy: true, destroy_socket: true });
    let parented = EmbedReply::Parented(true);
    let e = embedding(GUI, &[made[0], made[1], socket, parented, EmbedReply::Shown(false)]);
    assert_eq!(e.call(), EmbedCall::Failed { destroy: true, destroy_socket: true });
    assert_eq!(e.error(), "gui.show returned false");
    let quiet = GuiExt { show: false, ..GUI };
    assert_eq!(
        embedding(quiet, &[made[0], made[1], socket, parented]).call(),
        EmbedCall::Done
    );
}
