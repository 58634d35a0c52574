//! The command line: what the arguments ask for, and in which order it is done.
//!
//! The values of `--set` are numbers with a fraction, which the program reads;
//! here they are the bit patterns of 64-bit floats.

use crate::text::{
    append_quoted_option, chars_of, find_char, joined_texts, parse_number, same_text, trim,
};
use vstd::prelude::*;

verus! {

pub const USAGE: &'static str =
    "usage: clap-host-rs [--scan | --plugin <path.clap> [--id <clap-id>] [--list-params] [--list-presets] [--pull-preset <key> --out <file>] [--set <id>=<val>]... [--load-preset <file>] [--load-state <file>] [--save-state <file>] [--play | --gui [--output-device <name>] [--input-device <name>] [--sample-rate <hz>] [--buffer-size <frames>]] [--list-midi] [--midi-in <name>]] [--list-devices]";

/// A parameter to set before activation.
#[derive(Clone, Copy, Debug, PartialEq, Eq, Structural)]
pub struct ParamSet {
    pub id: u32,
    pub value: u64,
}

/// What the arguments ask for.
pub struct Args {
    /// Plugin file to open.
    pub plugin_path: Option<String>,
    /// Which plugin of the file to instantiate.
    pub plugin_id: Option<String>,
    /// Output device, where not the default.
    pub output_device: Option<String>,
    /// Input device, where not the default.
    pub input_device: Option<String>,
    /// MIDI input port.
    pub midi_in: Option<String>,
    /// Key of the factory preset to pull.
    pub pull_preset: Option<String>,
    /// File that a pulled preset goes to.
    pub pull_out: Option<String>,
    /// State file to load.
    pub load_state: Option<String>,
    /// State file to save to.
    pub save_state: Option<String>,
    /// Preset file for the plugin to load.
    pub load_preset: Option<String>,
    /// Sample rate, where not the device's.
    pub sample_rate: Option<u32>,
    /// Buffer size, where not the backend's.
    pub buffer_size: Option<u32>,
    /// Parameters to set, in order.
    pub sets: Vec<ParamSet>,
    /// List the parameters.
    pub list_params: bool,
    /// List the factory presets.
    pub list_presets: bool,
    /// Open the audio device and process.
    pub play: bool,
    /// Open the window.
    pub gui: bool,
    /// List MIDI input ports.
    pub list_midi: bool,
    /// List audio devices and MIDI input ports.
    pub list_devices: bool,
    /// List the plugins in the standard directories.
    pub scan: bool,
}

/// What the arguments ask for, as texts.
#[verifier::ext_equal]
pub struct Asked {
    pub plugin_path: Option<Seq<char>>,
    pub plugin_id: Option<Seq<char>>,
    pub output_device: Option<Seq<char>>,
    pub input_device: Option<Seq<char>>,
    pub midi_in: Option<Seq<char>>,
    pub pull_preset: Option<Seq<char>>,
    pub pull_out: Option<Seq<char>>,
    pub load_state: Option<Seq<char>>,
    pub save_state: Option<Seq<char>>,
    pub load_preset: Option<Seq<char>>,
    pub sample_rate: Option<u32>,
    pub buffer_size: Option<u32>,
    pub sets: Seq<ParamSet>,
    pub list_params: bool,
    pub list_presets: bool,
    pub play: bool,
    pub gui: bool,
    pub list_midi: bool,
    pub list_devices: bool,
    pub scan: bool,
}

/// The text of an optional string.
pub open spec fn opt_string(s: Option<String>) -> Option<Seq<char>> {
    match s {
        Some(t) => Some(t@),
        None => None,
    }
}

impl View for Args {
    type V = Asked;

    open spec fn view(&self) -> Asked {
        Asked {
            plugin_path: opt_string(self.plugin_path),
            plugin_id: opt_string(self.plugin_id),
            output_device: opt_string(self.output_device),
            input_device: opt_string(self.input_device),
            midi_in: opt_string(self.midi_in),
            pull_preset: opt_string(self.pull_preset),
            pull_out: opt_string(self.pull_out),
            load_state: opt_string(self.load_state),
            save_state: opt_string(self.save_state),
            load_preset: opt_string(self.load_preset),
            sample_rate: self.sample_rate,
            buffer_size: self.buffer_size,
            sets: self.sets@,
            list_params: self.list_params,
            list_presets: self.list_presets,
            play: self.play,
            gui: self.gui,
            list_midi: self.list_midi,
            list_devices: self.list_devices,
            scan: self.scan,
        }
    }
}

impl Asked {
    /// Nothing is asked for.
    pub open spec fn nothing() -> Asked {
        Asked {
            plugin_path: None,
            plugin_id: None,
            output_device: None,
            input_device: None,
            midi_in: None,
            pull_preset: None,
            pull_out: None,
            load_state: None,
            save_state: None,
            load_preset: None,
            sample_rate: None,
            buffer_size: None,
            sets: Seq::empty(),
            list_params: false,
            list_presets: false,
            play: false,
            gui: false,
            list_midi: false,
            list_devices: false,
            scan: false,
        }
    }
}

impl Args {
    /// Nothing is asked for.
    pub fn new() -> (args: Args)
        ensures
            args@ == Asked::nothing(),
    {
        Args {
            plugin_path: None,
            plugin_id: None,
            output_device: None,
            input_device: None,
            midi_in: None,
            pull_preset: None,
            pull_out: None,
            load_state: None,
            save_state: None,
            load_preset: None,
            sample_rate: None,
            buffer_size: None,
            sets: Vec::new(),
            list_params: false,
            list_presets: false,
            play: false,
            gui: false,
            list_midi: false,
            list_devices: false,
            scan: false,
        }
    }
}

/// The options of the command line.
#[derive(Clone, Copy, Debug, PartialEq, Eq, Structural)]
pub enum Flag {
    Plugin,
    Id,
    OutputDevice,
    InputDevice,
    MidiIn,
    PullPreset,
    Out,
    LoadState,
    SaveState,
    LoadPreset,
    SampleRate,
    BufferSize,
    SetParam,
    ListParams,
    ListPresets,
    Play,
    Gui,
    ListMidi,
    ListDevices,
    Scan,
    Unknown,
}

/// The option that an argument names.
pub open spec fn flag_of(arg: Seq<char>) -> Flag {
    if arg == "--plugin"@ {
        Flag::Plugin
    } else if arg == "--id"@ {
        Flag::Id
    } else if arg == "--output-device"@ {
        Flag::OutputDevice
    } else if arg == "--input-device"@ {
        Flag::InputDevice
    } else if arg == "--midi-in"@ {
        Flag::MidiIn
    } else if arg == "--pull-preset"@ {
        Flag::PullPreset
    } else if arg == "--out"@ {
        Flag::Out
    } else if arg == "--load-state"@ {
        Flag::LoadState
    } else if arg == "--save-state"@ {
        Flag::SaveState
    } else if arg == "--load-preset"@ {
        Flag::LoadPreset
    } else if arg == "--sample-rate"@ {
        Flag::SampleRate
    } else if arg == "--buffer-size"@ {
        Flag::BufferSize
    } else if arg == "--set"@ {
        Flag::SetParam
    } else if arg == "--list-params"@ {
        Flag::ListParams
    } else if arg == "--list-presets"@ {
        Flag::ListPresets
    } else if arg == "--play"@ {
        Flag::Play
    } else if arg == "--gui"@ {
        Flag::Gui
    } else if arg == "--list-midi"@ {
        Flag::ListMidi
    } else if arg == "--list-devices"@ {
        Flag::ListDevices
    } else if arg == "--scan"@ {
        Flag::Scan
    } else {
        Flag::Unknown
    }
}

fn read_flag(arg: &str) -> (flag: Flag)
    ensures
        flag == flag_of(arg@),
{
    if same_text(arg, "--plugin") {
        Flag::Plugin
    } else if same_text(arg, "--id") {
        Flag::Id
    } else if same_text(arg, "--output-device") {
        Flag::OutputDevice
    } else if same_text(arg, "--input-device") {
        Flag::InputDevice
    } else if same_text(arg, "--midi-in") {
        Flag::MidiIn
    } else if same_text(arg, "--pull-preset") {
        Flag::PullPreset
    } else if same_text(arg, "--out") {
        Flag::Out
    } else if same_text(arg, "--load-state") {
        Flag::LoadState
    } else if same_text(arg, "--save-state") {
        Flag::SaveState
    } else if same_text(arg, "--load-preset") {
        Flag::LoadPreset
    } else if same_text(arg, "--sample-rate") {
        Flag::SampleRate
    } else if same_text(arg, "--buffer-size") {
        Flag::BufferSize
    } else if same_text(arg, "--set") {
        Flag::SetParam
    } else if same_text(arg, "--list-params") {
        Flag::ListParams
    } else if same_text(arg, "--list-presets") {
        Flag::ListPresets
    } else if same_text(arg, "--play") {
        Flag::Play
    } else if same_text(arg, "--gui") {
        Flag::Gui
    } else if same_text(arg, "--list-midi") {
        Flag::ListMidi
    } else if same_text(arg, "--list-devices") {
        Flag::ListDevices
    } else if same_text(arg, "--scan") {
        Flag::Scan
    } else {
        Flag::Unknown
    }
}

/// Whether an option is followed by a value.
pub open spec fn takes_value(flag: Flag) -> bool {
    match flag {
        Flag::ListParams => false,
        Flag::ListPresets => false,
        Flag::Play => false,
        Flag::Gui => false,
        Flag::ListMidi => false,
        Flag::ListDevices => false,
        Flag::Scan => false,
        Flag::Unknown => false,
        _ => true,
    }
}

fn wants_value(flag: Flag) -> (r: bool)
    ensures
        r == takes_value(flag),
{
    match flag {
        Flag::ListParams => false,
        Flag::ListPresets => false,
        Flag::Play => false,
        Flag::Gui => false,
        Flag::ListMidi => false,
        Flag::ListDevices => false,
        Flag::Scan => false,
        Flag::Unknown => false,
        _ => true,
    }
}

/// The text of the value in `<id>=<value>`: what follows the first equals sign,
/// trimmed.
pub open spec fn set_value(text: Seq<char>) -> Option<Seq<char>> {
    let at = crate::text::first_at(text, '=') as int;
    if at < text.len() {
        Some(crate::text::trimmed(text.skip(at + 1)))
    } else {
        None
    }
}

/// The text of the value in `<id>=<value>`, for the program to read as a
/// number.
pub fn set_value_text(text: &str) -> (value: Option<&str>)
    ensures
        crate::text::opt_text(value) == set_value(text@),
{
    let chars = chars_of(text);
    let at = find_char(&chars, 0, '=');
    assert(text@.skip(0) =~= text@);
    if at < chars.len() {
        let rest = text.substring_char(at + 1, chars.len());
        assert(rest@ =~= text@.skip(at + 1));
        Some(trim(rest))
    } else {
        None
    }
}

/// What `<id>=<value>` sets, given the number that its value text writes.
pub open spec fn param_set(text: Seq<char>, value: Option<u64>) -> Option<ParamSet> {
    let at = crate::text::first_at(text, '=') as int;
    let id = crate::text::number_value(crate::text::trimmed(text.take(at)));
    if at < text.len() && id is Some && id->0 <= u32::MAX && value is Some {
        Some(ParamSet { id: id->0 as u32, value: value->0 })
    } else {
        None
    }
}

/// `"3=0.5"` sets parameter 3. `value` is the number that the text behind the
/// equals sign writes, if it writes one.
pub fn parse_set(text: &str, value: Option<u64>) -> (r: Option<ParamSet>)
    ensures
        r == param_set(text@, value),
{
    let chars = chars_of(text);
    let at = find_char(&chars, 0, '=');
    assert(text@.skip(0) =~= text@);
    if at == chars.len() {
        return None;
    }
    let id = text.substring_char(0, at);
    assert(id@ =~= text@.take(at as int));
    match (parse_number(trim(id), u32::MAX as u64), value) {
        (Some(id), Some(value)) => Some(ParamSet { id: id as u32, value }),
        _ => None,
    }
}

/// The number that an optional text writes, in 32 bits.
pub open spec fn number_of(text: Option<Seq<char>>) -> Option<u32> {
    match text {
        Some(t) => match crate::text::number_value(t) {
            Some(n) => if n <= u32::MAX {
                Some(n as u32)
            } else {
                None
            },
            None => None,
        },
        None => None,
    }
}

fn read_number(text: Option<&str>) -> (n: Option<u32>)
    ensures
        n == number_of(crate::text::opt_text(text)),
{
    match text {
        Some(t) => match parse_number(t, u32::MAX as u64) {
            Some(n) => Some(n as u32),
            None => None,
        },
        None => None,
    }
}

/// How far reading the arguments has come: what they ask for, the warnings so
/// far, and the error that ended it, if any.
#[verifier::ext_equal]
pub struct Reading {
    pub asked: Asked,
    pub warnings: Seq<Seq<char>>,
    pub error: Option<Seq<char>>,
}

/// Reading an option: `arg` is its text, `text` the argument behind it, and
/// `number` the number that the value in it writes, where it is `<id>=<value>`.
#[verifier::opaque]
pub open spec fn with_option(
    state: Reading,
    arg: Seq<char>,
    text: Option<Seq<char>>,
    number: Option<u64>,
) -> Reading {
    let a = state.asked;
    let got = crate::text::quoted_option(text);
    match flag_of(arg) {
        Flag::Plugin => Reading { asked: Asked { plugin_path: text, ..a }, ..state },
        Flag::Id => Reading { asked: Asked { plugin_id: text, ..a }, ..state },
        Flag::OutputDevice => Reading { asked: Asked { output_device: text, ..a }, ..state },
        Flag::InputDevice => Reading { asked: Asked { input_device: text, ..a }, ..state },
        Flag::MidiIn => Reading { asked: Asked { midi_in: text, ..a }, ..state },
        Flag::PullPreset => Reading { asked: Asked { pull_preset: text, ..a }, ..state },
        Flag::Out => Reading { asked: Asked { pull_out: text, ..a }, ..state },
        Flag::LoadState => Reading { asked: Asked { load_state: text, ..a }, ..state },
        Flag::SaveState => Reading { asked: Asked { save_state: text, ..a }, ..state },
        Flag::LoadPreset => Reading { asked: Asked { load_preset: text, ..a }, ..state },
        Flag::SampleRate => if number_of(text) is Some {
            Reading { asked: Asked { sample_rate: number_of(text), ..a }, ..state }
        } else {
            Reading { error: Some("error: --sample-rate wants <hz>, got "@ + got), ..state }
        },
        Flag::BufferSize => if number_of(text) is Some {
            Reading { asked: Asked { buffer_size: number_of(text), ..a }, ..state }
        } else {
            Reading { error: Some("error: --buffer-size wants <frames>, got "@ + got), ..state }
        },
        Flag::SetParam => if text is Some && param_set(text->0, number) is Some {
            Reading {
                asked: Asked { sets: a.sets.push(param_set(text->0, number)->0), ..a },
                ..state
            }
        } else {
            Reading { error: Some("error: --set wants <param_id>=<value>, got "@ + got), ..state }
        },
        Flag::ListParams => Reading { asked: Asked { list_params: true, ..a }, ..state },
        Flag::ListPresets => Reading { asked: Asked { list_presets: true, ..a }, ..state },
        Flag::Play => Reading { asked: Asked { play: true, ..a }, ..state },
        Flag::Gui => Reading { asked: Asked { gui: true, ..a }, ..state },
        Flag::ListMidi => Reading { asked: Asked { list_midi: true, ..a }, ..state },
        Flag::ListDevices => Reading { asked: Asked { list_devices: true, ..a }, ..state },
        Flag::Scan => Reading { asked: Asked { scan: true, ..a }, ..state },
        Flag::Unknown => Reading {
            warnings: state.warnings.push("warn: unknown arg "@ + arg),
            ..state
        },
    }
}

/// The argument at a place, if there is one.
pub open spec fn arg_at(argv: Seq<Seq<char>>, i: int) -> Option<Seq<char>> {
    if 0 <= i < argv.len() {
        Some(argv[i])
    } else {
        None
    }
}

/// Reading the arguments from a place on, until the end or the first error.
pub open spec fn read_from(
    argv: Seq<Seq<char>>,
    numbers: Seq<Option<u64>>,
    i: int,
    state: Reading,
) -> Reading
    decreases
            if i < argv.len() {
                argv.len() - i
            } else {
                0
            },
{
    if i < 0 || i >= argv.len() || state.error is Some {
        state
    } else {
        let flag = flag_of(argv[i]);
        let text = if takes_value(flag) {
            arg_at(argv, i + 1)
        } else {
            None
        };
        let number = if takes_value(flag) && i + 1 < numbers.len() {
            numbers[i + 1]
        } else {
            None
        };
        let next = if takes_value(flag) {
            i + 2
        } else {
            i + 1
        };
        read_from(argv, numbers, next, with_option(state, argv[i], text, number))
    }
}

/// What the arguments ask for, the warnings to print, and the error that ends
/// the program, if any.
pub struct Parsed {
    pub args: Args,
    pub warnings: Vec<String>,
    pub error: Option<String>,
}

impl View for Parsed {
    type V = Reading;

    open spec fn view(&self) -> Reading {
        Reading {
            asked: self.args@,
            warnings: crate::text::strings(self.warnings@),
            error: opt_string(self.error),
        }
    }
}

fn owned(text: Option<&str>) -> (r: Option<String>)
    ensures
        opt_string(r) == crate::text::opt_text(text),
{
    match text {
        Some(t) => Some(t.to_owned()),
        None => None,
    }
}

fn refusal(message: &str, text: Option<&str>) -> (r: Option<String>)
    ensures
        opt_string(r) == Some(message@ + crate::text::quoted_option(crate::text::opt_text(text))),
{
    let mut error = message.to_owned();
    append_quoted_option(&mut error, text);
    Some(error)
}

impl Parsed {
    fn set_text(&mut self, flag: Flag, arg: &str, text: Option<&str>)
        requires
            flag == flag_of(arg@),
            !(flag is SetParam) && !(flag is SampleRate) && !(flag is BufferSize),
        ensures
            final(self)@ == with_option(old(self)@, arg@, crate::text::opt_text(text), None),
    {
        reveal(with_option);
        match flag {
            Flag::Plugin => self.args.plugin_path = owned(text),
            Flag::Id => self.args.plugin_id = owned(text),
            Flag::OutputDevice => self.args.output_device = owned(text),
            Flag::InputDevice => self.args.input_device = owned(text),
            Flag::MidiIn => self.args.midi_in = owned(text),
            Flag::PullPreset => self.args.pull_preset = owned(text),
            Flag::Out => self.args.pull_out = owned(text),
            Flag::LoadState => self.args.load_state = owned(text),
            Flag::SaveState => self.args.save_state = owned(text),
            Flag::LoadPreset => self.args.load_preset = owned(text),
            Flag::ListParams => self.args.list_params = true,
            Flag::ListPresets => self.args.list_presets = true,
            Flag::Play => self.args.play = true,
            Flag::Gui => self.args.gui = true,
            Flag::ListMidi => self.args.list_midi = true,
            Flag::ListDevices => self.args.list_devices = true,
            Flag::Scan => self.args.scan = true,
            _ => {
                let warning = joined_texts("warn: unknown arg ", arg);
                let ghost line = warning@;
                self.warnings.push(warning);
                assert(self@.warnings =~= old(self)@.warnings.push(line));
            },
        }
    }

    fn option(&mut self, flag: Flag, arg: &str, text: Option<&str>, number: Option<u64>)
        requires
            flag == flag_of(arg@),
        ensures
            final(self)@ == with_option(old(self)@, arg@, crate::text::opt_text(text), number),
    {
        reveal(with_option);
        match flag {
            Flag::SampleRate => match read_number(text) {
                Some(n) => self.args.sample_rate = Some(n),
                None => self.error = refusal("error: --sample-rate wants <hz>, got ", text),
            },
            Flag::BufferSize => match read_number(text) {
                Some(n) => self.args.buffer_size = Some(n),
                None => self.error = refusal("error: --buffer-size wants <frames>, got ", text),
            },
            Flag::SetParam => {
                let set = match text {
                    Some(t) => parse_set(t, number),
                    None => None,
                };
                match set {
                    Some(set) => self.args.sets.push(set),
                    None => self.error = refusal(
                        "error: --set wants <param_id>=<value>, got ",
                        text,
                    ),
                }
            },
            _ => self.set_text(flag, arg, text),
        }
    }
}

/// Read the arguments, the program's own name left out. `numbers` holds for
/// every argument the number that its [`set_value_text`] writes, if it writes
/// one.
pub fn parse_args(argv: &Vec<String>, numbers: &Vec<Option<u64>>) -> (parsed: Parsed)
    ensures
        parsed@ == read_from(
            crate::text::strings(argv@),
            numbers@,
            0,
            Reading { asked: Asked::nothing(), warnings: Seq::empty(), error: None },
        ),
{
    let mut parsed = Parsed { args: Args::new(), warnings: Vec::new(), error: None };
    let ghost all = crate::text::strings(argv@);
    let ghost start = parsed@;
    assert(start.warnings =~= Seq::empty());
    let mut i: usize = 0;
    while i < argv.len() && parsed.error.is_none()
        invariant
            i <= argv.len(),
            all == crate::text::strings(argv@),
            read_from(all, numbers@, 0, start) == read_from(all, numbers@, i as int, parsed@),
        ensures
            i == argv.len() || parsed@.error is Some,
            read_from(all, numbers@, 0, start) == read_from(all, numbers@, i as int, parsed@),
        decreases argv.len() - i,
    {
        let arg = argv[i].as_str();
        assert(all[i as int] == arg@);
        let flag = read_flag(arg);
        if wants_value(flag) {
            if i + 1 < argv.len() {
                assert(all[i + 1] == argv@[i + 1]@);
                let number: Option<u64> = if i + 1 < numbers.len() {
                    numbers[i + 1]
                } else {
                    None
                };
                parsed.option(flag, arg, Some(argv[i + 1].as_str()), number);
                i = i + 2;
            } else {
                let number: Option<u64> = if i + 1 < numbers.len() {
                    numbers[i + 1]
                } else {
                    None
                };
                parsed.option(flag, arg, None, number);
                assert(read_from(all, numbers@, i + 2, parsed@) == parsed@);
                assert(read_from(all, numbers@, i + 1, parsed@) == parsed@);
                i = i + 1;
            }
        } else {
            parsed.option(flag, arg, None, None);
            i = i + 1;
        }
    }
    parsed
}

/// Law: arguments that name no option are warned of and change nothing else.
pub proof fn unknown_args_are_ignored(
    state: Reading,
    arg: Seq<char>,
    text: Option<Seq<char>>,
    number: Option<u64>,
)
    requires
        flag_of(arg) is Unknown,
    ensures
        with_option(state, arg, text, number) == (Reading {
            warnings: state.warnings.push("warn: unknown arg "@ + arg),
            ..state
        }),
{
    reveal(with_option);
}

/// What the program does, step by step.
#[derive(Clone, Copy, Debug, PartialEq, Eq, Structural)]
pub enum Step {
    ListMidi,
    ListDevices,
    ListScanned,
    /// Open the plugin file and list its plugins.
    OpenPlugin,
    ListPresets,
    /// Instantiate the plugin and initialise it.
    Instantiate,
    LoadState,
    LoadPreset,
    /// Set parameters, while the plugin is deactivated.
    SetParams,
    PullPreset,
    SaveState,
    ListParams,
    RunGui,
    RunPlay,
    DestroyPlugin,
    /// Fail: no plugin file was named, though one is needed.
    NeedPlugin,
    /// Fail: a preset is to be pulled, but no file was named for it.
    NeedOut,
}

impl Asked {
    /// Something is asked of a plugin instance.
    pub open spec fn needs_instance(self) -> bool {
        ||| self.list_params
        ||| self.play
        ||| self.gui
        ||| self.sets.len() > 0
        ||| self.pull_preset is Some
        ||| self.load_state is Some
        ||| self.save_state is Some
        ||| self.load_preset is Some
    }

    /// Something is asked that needs no plugin, and nothing that does.
    pub open spec fn standalone(self) -> bool {
        &&& self.list_midi || self.list_devices || self.scan
        &&& !self.list_presets
        &&& !self.needs_instance()
    }
}

/// A step where it is asked for.
pub open spec fn step_if(asked: bool, step: Step) -> Seq<Step> {
    if asked {
        seq![step]
    } else {
        Seq::empty()
    }
}

/// The queries that need no plugin.
#[verifier::opaque]
pub open spec fn query_steps(a: Asked) -> Seq<Step> {
    step_if(a.list_midi, Step::ListMidi) + step_if(a.list_devices, Step::ListDevices) + step_if(
        a.scan,
        Step::ListScanned,
    )
}

/// What is done with a plugin instance before it runs: the state is loaded
/// right after `init`, and saved after parameters were set and a preset was
/// pulled.
#[verifier::opaque]
pub open spec fn instance_steps(a: Asked) -> Seq<Step> {
    seq![Step::Instantiate] + step_if(a.load_state is Some, Step::LoadState) + step_if(
        a.load_preset is Some,
        Step::LoadPreset,
    ) + step_if(a.sets.len() > 0, Step::SetParams) + step_if(
        a.pull_preset is Some,
        Step::PullPreset,
    ) + step_if(a.save_state is Some, Step::SaveState) + step_if(
        a.list_params,
        Step::ListParams,
    )
}

/// How the plugin runs, in the window or else on the console, and its end.
#[verifier::opaque]
pub open spec fn run_steps(a: Asked) -> Seq<Step> {
    step_if(a.gui, Step::RunGui) + step_if(a.play && !a.gui, Step::RunPlay) + seq![
        Step::DestroyPlugin,
    ]
}

/// What is done with an open plugin file.
pub open spec fn plugin_steps(a: Asked) -> Seq<Step> {
    seq![Step::OpenPlugin] + step_if(a.list_presets, Step::ListPresets) + if !a.needs_instance() {
        Seq::empty()
    } else if a.pull_preset is Some && a.pull_out is None {
        seq![Step::NeedOut]
    } else {
        instance_steps(a) + run_steps(a)
    }
}

/// What is done with the plugin file, once the queries are answered. Without
/// one the program fails, unless the queries were all that was asked for.
pub open spec fn file_steps(a: Asked) -> Seq<Step> {
    if a.plugin_path is Some {
        plugin_steps(a)
    } else {
        step_if(!a.standalone(), Step::NeedPlugin)
    }
}

/// Everything the program does for these arguments, in order.
pub open spec fn steps(a: Asked) -> Seq<Step> {
    query_steps(a) + file_steps(a)
}

fn push_if(list: &mut Vec<Step>, asked: bool, step: Step)
    ensures
        final(list)@ == old(list)@ + step_if(asked, step),
{
    if asked {
        list.push(step);
    }
    assert(list@ =~= old(list)@ + step_if(asked, step));
}

fn needs_instance(args: &Args) -> (r: bool)
    ensures
        r == args@.needs_instance(),
{
    args.list_params || args.play || args.gui || args.sets.len() > 0 || args.pull_preset.is_some()
        || args.load_state.is_some() || args.save_state.is_some() || args.load_preset.is_some()
}

fn list_queries(args: &Args) -> (list: Vec<Step>)
    ensures
        list@ == query_steps(args@),
{
    reveal(query_steps);
    let mut list: Vec<Step> = Vec::new();
    push_if(&mut list, args.list_midi, Step::ListMidi);
    push_if(&mut list, args.list_devices, Step::ListDevices);
    push_if(&mut list, args.scan, Step::ListScanned);
    assert(list@ =~= query_steps(args@));
    list
}

fn list_instance(args: &Args) -> (list: Vec<Step>)
    ensures
        list@ == instance_steps(args@),
{
    reveal(instance_steps);
    let mut list: Vec<Step> = Vec::new();
    list.push(Step::Instantiate);
    assert(list@ =~= seq![Step::Instantiate]);
    push_if(&mut list, args.load_state.is_some(), Step::LoadState);
    push_if(&mut list, args.load_preset.is_some(), Step::LoadPreset);
    push_if(&mut list, args.sets.len() > 0, Step::SetParams);
    push_if(&mut list, args.pull_preset.is_some(), Step::PullPreset);
    push_if(&mut list, args.save_state.is_some(), Step::SaveState);
    push_if(&mut list, args.list_params, Step::ListParams);
    list
}

fn list_run(args: &Args) -> (list: Vec<Step>)
    ensures
        list@ == run_steps(args@),
{
    reveal(run_steps);
    let mut list: Vec<Step> = Vec::new();
    push_if(&mut list, args.gui, Step::RunGui);
    push_if(&mut list, args.play && !args.gui, Step::RunPlay);
    list.push(Step::DestroyPlugin);
    assert(list@ =~= run_steps(args@));
    list
}

/// The steps of the program.
pub fn plan(args: &Args) -> (list: Vec<Step>)
    ensures
        list@ == steps(args@),
{
    let ghost a = args@;
    let instance = needs_instance(args);
    let mut list = list_queries(args);
    if args.plugin_path.is_none() {
        let queries = args.list_midi || args.list_devices || args.scan;
        push_if(&mut list, !queries || args.list_presets || instance, Step::NeedPlugin);
        return list;
    }
    list.push(Step::OpenPlugin);
    push_if(&mut list, args.list_presets, Step::ListPresets);
    let ghost opened = seq![Step::OpenPlugin] + step_if(a.list_presets, Step::ListPresets);
    assert(list@ =~= query_steps(a) + opened);
    if instance {
        if args.pull_preset.is_some() && args.pull_out.is_none() {
            list.push(Step::NeedOut);
            assert(list@ =~= query_steps(a) + (opened + seq![Step::NeedOut]));
        } else {
            let mut more = list_instance(args);
            let mut last = list_run(args);
            list.append(&mut more);
            list.append(&mut last);
            assert(list@ =~= query_steps(a) + (opened + (instance_steps(a) + run_steps(a))));
        }
    } else {
        assert(list@ =~= query_steps(a) + (opened + Seq::<Step>::empty()));
    }
    list
}

/// The message of the step that fails for want of a plugin file. The usage
/// follows it.
pub const NEED_PLUGIN: &'static str = "error: --plugin <path.clap> is required";

/// The message of the step that fails for want of a file to pull a preset into.
pub const NEED_OUT: &'static str = "error: --pull-preset needs --out <file>";

/// What the program does with no arguments at all: let the user pick a plugin,
/// where there is a terminal to ask on, or else show the usage and fail.
pub fn without_args(stdin_is_terminal: bool) -> (pick: bool)
    ensures
        pick == stdin_is_terminal,
{
    stdin_is_terminal
}

/// The place of a step in the fixed order of all steps.
pub open spec fn rank(step: Step) -> int {
    match step {
        Step::ListMidi => 0,
        Step::ListDevices => 1,
        Step::ListScanned => 2,
        Step::NeedPlugin => 3,
        Step::OpenPlugin => 4,
        Step::ListPresets => 5,
        Step::NeedOut => 6,
        Step::Instantiate => 7,
        Step::LoadState => 8,
        Step::LoadPreset => 9,
        Step::SetParams => 10,
        Step::PullPreset => 11,
        Step::SaveState => 12,
        Step::ListParams => 13,
        Step::RunGui => 14,
        Step::RunPlay => 15,
        Step::DestroyPlugin => 16,
    }
}

/// The steps follow the fixed order, each at most once, from rank `from` up to
/// before rank `to`.
pub open spec fn in_order(list: Seq<Step>, from: int, to: int) -> bool {
    &&& forall|i: int, j: int|
        0 <= i < j < list.len() ==> rank(#[trigger] list[i]) < rank(#[trigger] list[j])
    &&& forall|i: int| 0 <= i < list.len() ==> from <= rank(#[trigger] list[i]) < to
}

proof fn order_of_two(a: Seq<Step>, b: Seq<Step>, from: int, mid: int, to: int)
    requires
        in_order(a, from, mid),
        in_order(b, mid, to),
        from <= mid <= to,
    ensures
        in_order(a + b, from, to),
{
    let list = a + b;
    assert forall|i: int| 0 <= i < list.len() implies from <= rank(#[trigger] list[i]) < to by {
        if i < a.len() {
            assert(list[i] == a[i]);
        } else {
            assert(list[i] == b[i - a.len()]);
        }
    }
    assert forall|i: int, j: int| 0 <= i < j < list.len() implies rank(#[trigger] list[i]) < rank(
        #[trigger] list[j],
    ) by {
        if i < a.len() {
            assert(list[i] == a[i]);
        } else {
            assert(list[i] == b[i - a.len()]);
        }
        if j < a.len() {
            assert(list[j] == a[j]);
        } else {
            assert(list[j] == b[j - a.len()]);
        }
    }
}

proof fn order_of_step(list: Seq<Step>, from: int, asked: bool, step: Step)
    requires
        in_order(list, from, rank(step)),
        from <= rank(step),
    ensures
        in_order(list + step_if(asked, step), from, rank(step) + 1),
{
    order_of_two(list, step_if(asked, step), from, rank(step), rank(step) + 1);
}

/// Law: whatever is asked for, the steps come in one fixed order and each once.
/// In particular a state is loaded right after the plugin was instantiated,
/// before parameters are set, and saved after parameters were set and a preset
/// was pulled; and an instance is destroyed last.
pub proof fn steps_come_in_order(a: Asked)
    ensures
        in_order(steps(a), 0, 17),
{
    queries_in_order(a);
    late_steps(a);
    order_of_two(query_steps(a), file_steps(a), 0, 3, 17);
}

proof fn late_steps(a: Asked)
    ensures
        in_order(file_steps(a), 3, 17),
        a.plugin_path is Some ==> in_order(file_steps(a), 4, 17),
{
    let opened = seq![Step::OpenPlugin];
    assert(in_order(opened, 4, 5));
    order_of_step(opened, 4, a.list_presets, Step::ListPresets);
    let p = opened + step_if(a.list_presets, Step::ListPresets);
    instance_in_order(a);
    let rest = if !a.needs_instance() {
        Seq::empty()
    } else if a.pull_preset is Some && a.pull_out is None {
        seq![Step::NeedOut]
    } else {
        instance_steps(a) + run_steps(a)
    };
    assert(in_order(rest, 6, 17));
    order_of_two(p, rest, 4, 6, 17);
}

proof fn queries_in_order(a: Asked)
    ensures
        in_order(query_steps(a), 0, 3),
{
    reveal(query_steps);
    let none = Seq::<Step>::empty();
    order_of_step(none, 0, a.list_midi, Step::ListMidi);
    assert(none + step_if(a.list_midi, Step::ListMidi) =~= step_if(a.list_midi, Step::ListMidi));
    let q1 = step_if(a.list_midi, Step::ListMidi);
    order_of_step(q1, 0, a.list_devices, Step::ListDevices);
    let q2 = q1 + step_if(a.list_devices, Step::ListDevices);
    order_of_step(q2, 0, a.scan, Step::ListScanned);
}

proof fn instance_in_order(a: Asked)
    ensures
        in_order(instance_steps(a) + run_steps(a), 7, 17),
{
    reveal(instance_steps);
    reveal(run_steps);
    let s0 = seq![Step::Instantiate];
    assert(in_order(s0, 7, 8));
    order_of_step(s0, 7, a.load_state is Some, Step::LoadState);
    let s1 = s0 + step_if(a.load_state is Some, Step::LoadState);
    order_of_step(s1, 7, a.load_preset is Some, Step::LoadPreset);
    let s2 = s1 + step_if(a.load_preset is Some, Step::LoadPreset);
    order_of_step(s2, 7, a.sets.len() > 0, Step::SetParams);
    let s3 = s2 + step_if(a.sets.len() > 0, Step::SetParams);
    order_of_step(s3, 7, a.pull_preset is Some, Step::PullPreset);
    let s4 = s3 + step_if(a.pull_preset is Some, Step::PullPreset);
    order_of_step(s4, 7, a.save_state is Some, Step::SaveState);
    let s5 = s4 + step_if(a.save_state is Some, Step::SaveState);
    order_of_step(s5, 7, a.list_params, Step::ListParams);
    let r0 = step_if(a.gui, Step::RunGui);
    assert(in_order(r0, 14, 15));
    order_of_step(r0, 14, a.play && !a.gui, Step::RunPlay);
    let r1 = r0 + step_if(a.play && !a.gui, Step::RunPlay);
    order_of_step(r1, 14, true, Step::DestroyPlugin);
    order_of_two(instance_steps(a), run_steps(a), 7, 14, 17);
}

/// Law: every plugin that is instantiated is destroyed in the end; without a
/// plugin file nothing is instantiated.
pub proof fn instances_are_destroyed(a: Asked)
    requires
        steps(a).contains(Step::Instantiate),
    ensures
        a.plugin_path is Some,
        steps(a).last() is DestroyPlugin,
{
    let i = choose|i: int| 0 <= i < steps(a).len() && steps(a)[i] == Step::Instantiate;
    let q = query_steps(a);
    queries_in_order(a);
    let opened = seq![Step::OpenPlugin] + step_if(a.list_presets, Step::ListPresets);
    if a.plugin_path is None {
        assert(i < q.len() ==> rank(q[i]) < 3);
    } else if !a.needs_instance() {
        assert(steps(a) =~= q + opened);
        assert(i < q.len() ==> rank(q[i]) < 3);
    } else if a.pull_preset is Some && a.pull_out is None {
        assert(steps(a) =~= q + (opened + seq![Step::NeedOut]));
        assert(i < q.len() ==> rank(q[i]) < 3);
    } else {
        reveal(run_steps);
        assert(steps(a).last() == run_steps(a).last());
    }
}

/// Law: the queries that are asked for are always answered, and first.
pub proof fn queries_come_first(a: Asked)
    ensures
        query_steps(a).is_prefix_of(steps(a)),
        a.list_midi <==> steps(a).contains(Step::ListMidi),
        a.list_devices <==> steps(a).contains(Step::ListDevices),
        a.scan <==> steps(a).contains(Step::ListScanned),
{
    reveal(query_steps);
    let (q, f) = (query_steps(a), file_steps(a));
    let all = steps(a);
    let m = step_if(a.list_midi, Step::ListMidi).len() as int;
    let d = step_if(a.list_devices, Step::ListDevices).len() as int;
    assert(a.list_midi ==> all[0] == Step::ListMidi);
    assert(a.list_devices ==> all[m] == Step::ListDevices);
    assert(a.scan ==> all[m + d] == Step::ListScanned);
    late_steps(a);
    assert forall|i: int| q.len() <= i < all.len() implies rank(#[trigger] all[i]) >= 3 by {
        assert(all[i] == f[i - q.len()]);
    }
}

/// Law: a plugin file is asked for exactly where none was named and something
/// needs one, or nothing was asked for; nothing is done after that.
pub proof fn missing_plugins_end_the_program(a: Asked)
    ensures
        steps(a).contains(Step::NeedPlugin) <==> a.plugin_path is None && !a.standalone(),
        steps(a).contains(Step::NeedPlugin) ==> steps(a) == query_steps(a).push(Step::NeedPlugin),
{
    let q = query_steps(a);
    queries_in_order(a);
    late_steps(a);
    if a.plugin_path is None && !a.standalone() {
        assert(steps(a) =~= q.push(Step::NeedPlugin));
        assert(steps(a).last() == Step::NeedPlugin);
    } else if steps(a).contains(Step::NeedPlugin) {
        let i = choose|i: int| 0 <= i < steps(a).len() && steps(a)[i] == Step::NeedPlugin;
        assert(i < q.len() ==> rank(q[i]) < 3);
        assert(i >= q.len() ==> rank(file_steps(a)[i - q.len()]) >= 4);
    }
}

/// Law: the queries are valid without a plugin, alone or together.
pub proof fn queries_need_no_plugin(a: Asked)
    requires
        a == (Asked {
            scan: a.scan,
            list_midi: a.list_midi,
            list_devices: a.list_devices,
            ..Asked::nothing()
        }),
        a.scan || a.list_midi || a.list_devices,
    ensures
        a.standalone(),
        steps(a) == query_steps(a),
{
    assert(steps(a) =~= query_steps(a));
}

/// Law: every option goes by its own name, and everything else is unknown.
pub proof fn options_go_by_their_names(arg: Seq<char>)
    ensures
        flag_of(arg) is Plugin ==> arg == "--plugin"@,
        flag_of(arg) is Id ==> arg == "--id"@,
        flag_of(arg) is OutputDevice ==> arg == "--output-device"@,
        flag_of(arg) is InputDevice ==> arg == "--input-device"@,
        flag_of(arg) is MidiIn ==> arg == "--midi-in"@,
        flag_of(arg) is PullPreset ==> arg == "--pull-preset"@,
        flag_of(arg) is Out ==> arg == "--out"@,
        flag_of(arg) is LoadState ==> arg == "--load-state"@,
        flag_of(arg) is SaveState ==> arg == "--save-state"@,
        flag_of(arg) is LoadPreset ==> arg == "--load-preset"@,
        flag_of(arg) is SampleRate ==> arg == "--sample-rate"@,
        flag_of(arg) is BufferSize ==> arg == "--buffer-size"@,
        flag_of(arg) is SetParam ==> arg == "--set"@,
        flag_of(arg) is ListParams ==> arg == "--list-params"@,
        flag_of(arg) is ListPresets ==> arg == "--list-presets"@,
        flag_of(arg) is Play ==> arg == "--play"@,
        flag_of(arg) is Gui ==> arg == "--gui"@,
        flag_of(arg) is ListMidi ==> arg == "--list-midi"@,
        flag_of(arg) is ListDevices ==> arg == "--list-devices"@,
        flag_of(arg) is Scan ==> arg == "--scan"@,
        flag_of(arg) is Unknown <==> arg != "--plugin"@ && arg != "--id"@ && arg != "--output-device"@ && arg != "--input-device"@ && arg != "--midi-in"@ && arg != "--pull-preset"@ && arg != "--out"@ && arg != "--load-state"@ && arg != "--save-state"@ && arg != "--load-preset"@ && arg != "--sample-rate"@ && arg != "--buffer-size"@ && arg != "--set"@ && arg != "--list-params"@ && arg != "--list-presets"@ && arg != "--play"@ && arg != "--gui"@ && arg != "--list-midi"@ && arg != "--list-devices"@ && arg != "--scan"@,
{
}

/// Law: the options that only switch something on stand alone; all others take the
/// argument behind them.
pub proof fn switches_stand_alone(flag: Flag)
    ensures
        takes_value(flag) <==> !(flag is ListParams || flag is ListPresets || flag is Play || flag is Gui || flag is ListMidi || flag is ListDevices || flag is Scan || flag is Unknown),
{
}

/// Law: an option asks for its own thing and leaves everything else as it was.
pub proof fn options_ask_for_their_own(
    state: Reading,
    arg: Seq<char>,
    text: Option<Seq<char>>,
    number: Option<u64>,
)
    ensures
        flag_of(arg) is Plugin ==> with_option(state, arg, text, number) == (Reading {
            asked: Asked { plugin_path: text, ..state.asked },
            ..state
        }),
        flag_of(arg) is Id ==> with_option(state, arg, text, number) == (Reading {
            asked: Asked { plugin_id: text, ..state.asked },
            ..state
        }),
        flag_of(arg) is OutputDevice ==> with_option(state, arg, text, number) == (Reading {
            asked: Asked { output_device: text, ..state.asked },
            ..state
        }),
        flag_of(arg) is InputDevice ==> with_option(state, arg, text, number) == (Reading {
            asked: Asked { input_device: text, ..state.asked },
            ..state
        }),
        flag_of(arg) is MidiIn ==> with_option(state, arg, text, number) == (Reading {
            asked: Asked { midi_in: text, ..state.asked },
            ..state
        }),
        flag_of(arg) is PullPreset ==> with_option(state, arg, text, number) == (Reading {
            asked: Asked { pull_preset: text, ..state.asked },
            ..state
        }),
        flag_of(arg) is Out ==> with_option(state, arg, text, number) == (Reading {
            asked: Asked { pull_out: text, ..state.asked },
            ..state
        }),
        flag_of(arg) is LoadState ==> with_option(state, arg, text, number) == (Reading {
            asked: Asked { load_state: text, ..state.asked },
            ..state
        }),
        flag_of(arg) is SaveState ==> with_option(state, arg, text, number) == (Reading {
            asked: Asked { save_state: text, ..state.asked },
            ..state
        }),
        flag_of(arg) is LoadPreset ==> with_option(state, arg, text, number) == (Reading {
            asked: Asked { load_preset: text, ..state.asked },
            ..state
        }),
        flag_of(arg) is ListParams ==> with_option(state, arg, text, number) == (Reading {
            asked: Asked { list_params: true, ..state.asked },
            ..state
        }),
        flag_of(arg) is ListPresets ==> with_option(state, arg, text, number) == (Reading {
            asked: Asked { list_presets: true, ..state.asked },
            ..state
        }),
        flag_of(arg) is Play ==> with_option(state, arg, text, number) == (Reading {
            asked: Asked { play: true, ..state.asked },
            ..state
        }),
        flag_of(arg) is Gui ==> with_option(state, arg, text, number) == (Reading {
            asked: Asked { gui: true, ..state.asked },
            ..state
        }),
        flag_of(arg) is ListMidi ==> with_option(state, arg, text, number) == (Reading {
            asked: Asked { list_midi: true, ..state.asked },
            ..state
        }),
        flag_of(arg) is ListDevices ==> with_option(state, arg, text, number) == (Reading {
            asked: Asked { list_devices: true, ..state.asked },
            ..state
        }),
        flag_of(arg) is Scan ==> with_option(state, arg, text, number) == (Reading {
            asked: Asked { scan: true, ..state.asked },
            ..state
        }),
{
    reveal(with_option);
}

/// Law: a sample rate, a buffer size and a parameter to set are taken where the
/// argument behind them can be read; otherwise reading ends with an error that
/// shows the argument, and nothing is asked for by it.
pub proof fn values_are_read_or_refused(
    state: Reading,
    arg: Seq<char>,
    text: Option<Seq<char>>,
    number: Option<u64>,
)
    ensures
        flag_of(arg) is SampleRate && number_of(text) is Some ==> with_option(
            state,
            arg,
            text,
            number,
        ) == (Reading {
            asked: Asked { sample_rate: number_of(text), ..state.asked },
            ..state
        }),
        flag_of(arg) is BufferSize && number_of(text) is Some ==> with_option(
            state,
            arg,
            text,
            number,
        ) == (Reading {
            asked: Asked { buffer_size: number_of(text), ..state.asked },
            ..state
        }),
        flag_of(arg) is SetParam && text is Some && param_set(text->0, number) is Some
            ==> with_option(state, arg, text, number) == (Reading {
            asked: Asked {
                sets: state.asked.sets.push(param_set(text->0, number)->0),
                ..state.asked
            },
            ..state
        }),
        flag_of(arg) is SampleRate && number_of(text) is None ==> with_option(
            state,
            arg,
            text,
            number,
        ) == (Reading {
            error: Some(
                "error: --sample-rate wants <hz>, got "@ + crate::text::quoted_option(text),
            ),
            ..state
        }),
        flag_of(arg) is BufferSize && number_of(text) is None ==> with_option(
            state,
            arg,
            text,
            number,
        ) == (Reading {
            error: Some(
                "error: --buffer-size wants <frames>, got "@ + crate::text::quoted_option(text),
            ),
            ..state
        }),
        flag_of(arg) is SetParam && (text is None || param_set(text->0, number) is None)
            ==> with_option(state, arg, text, number) == (Reading {
            error: Some(
                "error: --set wants <param_id>=<value>, got "@ + crate::text::quoted_option(text),
            ),
            ..state
        }),
{
    reveal(with_option);
}

/// Law: a written id, an equals sign and a value set that parameter to the number
/// that the value writes. What stands behind the first equals sign is the value,
/// without the blanks around it; a text without one sets nothing.
pub proof fn sets_name_a_param_and_a_value(n: nat, rest: Seq<char>, value: Option<u64>)
    ensures
        ({
            let text = crate::text::decimal(n) + seq!['='] + rest;
            &&& set_value(text) == Some(crate::text::trimmed(rest))
            &&& n <= u32::MAX && value is Some ==> param_set(text, value) == Some(
                ParamSet { id: n as u32, value: value->0 },
            )
            &&& n > u32::MAX || value is None ==> param_set(text, value) is None
        }),
        !rest.contains('=') ==> set_value(rest) is None && param_set(rest, value) is None,
{
    let id = crate::text::decimal(n);
    let text = id + seq!['='] + rest;
    crate::text::written_numbers_are_not_blank(n);
    crate::text::written_numbers_are_read_back(n);
    crate::text::characters_are_found_first(id, '=', rest);
    assert(text.take(id.len() as int) =~= id);
    assert(text.skip(id.len() as int + 1) =~= rest);
    if !rest.contains('=') {
        crate::text::characters_are_found_first(rest, '=', Seq::empty());
    }
}

/// Law: the value behind a text without an equals sign in front of it is what
/// follows the sign, whatever the text is.
pub proof fn values_follow_the_first_sign(front: Seq<char>, rest: Seq<char>)
    requires
        !front.contains('='),
    ensures
        set_value(front + seq!['='] + rest) == Some(crate::text::trimmed(rest)),
{
    crate::text::characters_are_found_first(front, '=', rest);
    assert((front + seq!['='] + rest).skip(front.len() as int + 1) =~= rest);
}

/// Law: a written number is taken where it fits into 32 bits.
pub proof fn written_numbers_are_taken(n: nat)
    ensures
        n <= u32::MAX ==> number_of(Some(crate::text::decimal(n))) == Some(n as u32),
        n > u32::MAX ==> number_of(Some(crate::text::decimal(n))) is None,
        number_of(None) is None,
{
    crate::text::written_numbers_are_read_back(n);
}

/// Law: arguments are read from the front, each once. A switch takes one argument,
/// any other option the one behind it too, and reading ends with the arguments or
/// with the first error.
pub proof fn arguments_are_read_in_order(
    argv: Seq<Seq<char>>,
    numbers: Seq<Option<u64>>,
    i: int,
    state: Reading,
)
    ensures
        i >= argv.len() || state.error is Some ==> read_from(argv, numbers, i, state) == state,
        0 <= i < argv.len() && state.error is None && !takes_value(flag_of(argv[i])) ==> read_from(
            argv,
            numbers,
            i,
            state,
        ) == read_from(argv, numbers, i + 1, with_option(state, argv[i], None, None)),
        0 <= i < argv.len() - 1 && state.error is None && takes_value(flag_of(argv[i])) && i + 1
            < numbers.len() ==> read_from(argv, numbers, i, state) == read_from(
            argv,
            numbers,
            i + 2,
            with_option(state, argv[i], Some(argv[i + 1]), numbers[i + 1]),
        ),
        i == argv.len() - 1 && 0 <= i && state.error is None && takes_value(flag_of(argv[i]))
            && numbers.len() == argv.len() ==> read_from(argv, numbers, i, state) == with_option(
            state,
            argv[i],
            None,
            None,
        ),
{
    if i == argv.len() - 1 && 0 <= i && state.error is None && takes_value(flag_of(argv[i])) {
        let last = with_option(state, argv[i], None, None);
        assert(read_from(argv, numbers, i + 2, last) == last);
    }
}

/// Law: an instance is needed exactly where something is asked of a plugin, and
/// queries stand alone exactly where nothing is.
pub proof fn instances_are_needed(a: Asked)
    ensures
        a.needs_instance() <==> a.list_params || a.play || a.gui || a.sets.len() > 0 || a.pull_preset
            is Some || a.load_state is Some || a.save_state is Some || a.load_preset is Some,
        a.standalone() <==> (a.list_midi || a.list_devices || a.scan) && !a.list_presets
            && !a.needs_instance(),
        Asked::nothing().sets.len() == 0 && !Asked::nothing().needs_instance() && !Asked::nothing(
            ).standalone() && Asked::nothing().plugin_path is None && !Asked::nothing().list_presets,
{
}

/// The plugin is opened and worked with.
pub open spec fn can_run(a: Asked) -> bool {
    &&& a.plugin_path is Some
    &&& a.list_params || a.play || a.gui || a.sets.len() > 0 || a.pull_preset is Some
        || a.load_state is Some || a.save_state is Some || a.load_preset is Some
    &&& a.pull_preset is None || a.pull_out is Some
}

/// Law: what is asked of a plugin is done, and nothing else: each step is there
/// exactly where it was asked for. A window takes the place of the console.
pub proof fn asked_steps_are_done(a: Asked)
    ensures
        can_run(a) ==> steps(a).contains(Step::OpenPlugin) && steps(a).contains(Step::Instantiate)
            && steps(a).contains(Step::DestroyPlugin) && !steps(a).contains(Step::NeedOut),
        a.plugin_path is Some ==> (steps(a).contains(Step::ListPresets) <==> a.list_presets),
        can_run(a) ==> (steps(a).contains(Step::LoadState) <==> a.load_state is Some),
        can_run(a) ==> (steps(a).contains(Step::LoadPreset) <==> a.load_preset is Some),
        can_run(a) ==> (steps(a).contains(Step::SetParams) <==> a.sets.len() > 0),
        can_run(a) ==> (steps(a).contains(Step::PullPreset) <==> a.pull_preset is Some),
        can_run(a) ==> (steps(a).contains(Step::SaveState) <==> a.save_state is Some),
        can_run(a) ==> (steps(a).contains(Step::ListParams) <==> a.list_params),
        can_run(a) ==> (steps(a).contains(Step::RunGui) <==> a.gui),
        can_run(a) ==> (steps(a).contains(Step::RunPlay) <==> a.play && !a.gui),
        a.plugin_path is Some && a.pull_preset is Some && a.pull_out is None ==> steps(a).last()
            is NeedOut && !steps(a).contains(Step::Instantiate),
        a.plugin_path is Some && !a.needs_instance() ==> !steps(a).contains(Step::Instantiate),
{
    let list = seq![
        Step::OpenPlugin,
        Step::ListPresets,
        Step::NeedOut,
        Step::Instantiate,
        Step::LoadState,
        Step::LoadPreset,
        Step::SetParams,
        Step::PullPreset,
        Step::SaveState,
        Step::ListParams,
        Step::RunGui,
        Step::RunPlay,
        Step::DestroyPlugin,
    ];
    assert forall|step: Step| list.contains(step) implies #[trigger] steps(a).contains(step)
        == file_steps(a).contains(step) by {
        queries_in_order(a);
        in_two(query_steps(a), file_steps(a), step);
        if query_steps(a).contains(step) {
            let i = choose|i: int| 0 <= i < query_steps(a).len() && query_steps(a)[i] == step;
            assert(rank(query_steps(a)[i]) < 3);
        }
    }
    assert forall|i: int| 0 <= i < 13 implies list.contains(#[trigger] list[i]) by {}
    assert(list.contains(list[0]) && list.contains(list[1]) && list.contains(list[2])
        && list.contains(list[3]) && list.contains(list[4]) && list.contains(list[5])
        && list.contains(list[6]) && list.contains(list[7]) && list.contains(list[8])
        && list.contains(list[9]) && list.contains(list[10]) && list.contains(list[11])
        && list.contains(list[12]));
    if a.plugin_path is Some {
        let opened = seq![Step::OpenPlugin];
        let listed = step_if(a.list_presets, Step::ListPresets);
        let rest = if !a.needs_instance() {
            Seq::empty()
        } else if a.pull_preset is Some && a.pull_out is None {
            seq![Step::NeedOut]
        } else {
            instance_steps(a) + run_steps(a)
        };
        assert forall|step: Step| #[trigger] file_steps(a).contains(step) == (step == Step::OpenPlugin
            || (a.list_presets && step == Step::ListPresets) || rest.contains(step)) by {
            in_two(opened + listed, rest, step);
            in_two(opened, listed, step);
            in_step(a.list_presets, Step::ListPresets, step);
            in_step(true, Step::OpenPlugin, step);
        }
        assert forall|step: Step| #[trigger] (instance_steps(a) + run_steps(a)).contains(step) == (
        asked_of_instance(a, step)) by {
            instance_holds(a, step);
        }
        if a.needs_instance() && a.pull_preset is Some && a.pull_out is None {
            assert(steps(a).last() == Step::NeedOut);
            assert(!rest.contains(Step::Instantiate));
            assert(rest[0] == Step::NeedOut);
        }
    }
}

spec fn asked_of_instance(a: Asked, step: Step) -> bool {
    ||| step == Step::Instantiate
    ||| a.load_state is Some && step == Step::LoadState
    ||| a.load_preset is Some && step == Step::LoadPreset
    ||| a.sets.len() > 0 && step == Step::SetParams
    ||| a.pull_preset is Some && step == Step::PullPreset
    ||| a.save_state is Some && step == Step::SaveState
    ||| a.list_params && step == Step::ListParams
    ||| a.gui && step == Step::RunGui
    ||| a.play && !a.gui && step == Step::RunPlay
    ||| step == Step::DestroyPlugin
}

proof fn in_two(a: Seq<Step>, b: Seq<Step>, step: Step)
    ensures
        (a + b).contains(step) <==> a.contains(step) || b.contains(step),
{
    let all = a + b;
    if all.contains(step) {
        let i = choose|i: int| 0 <= i < all.len() && all[i] == step;
        if i < a.len() {
            assert(a[i] == step);
        } else {
            assert(b[i - a.len()] == step);
        }
    }
    if a.contains(step) {
        let i = choose|i: int| 0 <= i < a.len() && a[i] == step;
        assert(all[i] == step);
    }
    if b.contains(step) {
        let i = choose|i: int| 0 <= i < b.len() && b[i] == step;
        assert(all[a.len() + i] == step);
    }
}

proof fn in_step(asked: bool, step: Step, other: Step)
    ensures
        step_if(asked, step).contains(other) <==> asked && other == step,
        seq![step].contains(other) <==> other == step,
{
    assert(seq![step][0] == step);
}

proof fn instance_holds(a: Asked, step: Step)
    ensures
        (instance_steps(a) + run_steps(a)).contains(step) <==> asked_of_instance(a, step),
{
    reveal(instance_steps);
    reveal(run_steps);
    in_two(instance_steps(a), run_steps(a), step);
    let s0 = seq![Step::Instantiate];
    let s1 = s0 + step_if(a.load_state is Some, Step::LoadState);
    let s2 = s1 + step_if(a.load_preset is Some, Step::LoadPreset);
    let s3 = s2 + step_if(a.sets.len() > 0, Step::SetParams);
    let s4 = s3 + step_if(a.pull_preset is Some, Step::PullPreset);
    let s5 = s4 + step_if(a.save_state is Some, Step::SaveState);
    in_step(true, Step::Instantiate, step);
    in_two(s0, step_if(a.load_state is Some, Step::LoadState), step);
    in_step(a.load_state is Some, Step::LoadState, step);
    in_two(s1, step_if(a.load_preset is Some, Step::LoadPreset), step);
    in_step(a.load_preset is Some, Step::LoadPreset, step);
    in_two(s2, step_if(a.sets.len() > 0, Step::SetParams), step);
    in_step(a.sets.len() > 0, Step::SetParams, step);
    in_two(s3, step_if(a.pull_preset is Some, Step::PullPreset), step);
    in_step(a.pull_preset is Some, Step::PullPreset, step);
    in_two(s4, step_if(a.save_state is Some, Step::SaveState), step);
    in_step(a.save_state is Some, Step::SaveState, step);
    in_two(s5, step_if(a.list_params, Step::ListParams), step);
    in_step(a.list_params, Step::ListParams, step);
    let r0 = step_if(a.gui, Step::RunGui);
    let r1 = r0 + step_if(a.play && !a.gui, Step::RunPlay);
    in_step(a.gui, Step::RunGui, step);
    in_two(r0, step_if(a.play && !a.gui, Step::RunPlay), step);
    in_step(a.play && !a.gui, Step::RunPlay, step);
    in_two(r1, seq![Step::DestroyPlugin], step);
    in_step(true, Step::DestroyPlugin, step);
}

/// Law: the fixed order of the steps. Queries come before the plugin, a state is
/// loaded before a preset, both before parameters are set, and saved after a preset
/// was pulled; then the parameters are listed, the plugin runs, and is destroyed.
pub proof fn steps_have_a_fixed_order()
    ensures
        rank(Step::ListMidi) < rank(Step::ListDevices),
        rank(Step::ListDevices) < rank(Step::ListScanned),
        rank(Step::ListScanned) < rank(Step::NeedPlugin),
        rank(Step::NeedPlugin) < rank(Step::OpenPlugin),
        rank(Step::OpenPlugin) < rank(Step::ListPresets),
        rank(Step::ListPresets) < rank(Step::NeedOut),
        rank(Step::NeedOut) < rank(Step::Instantiate),
        rank(Step::Instantiate) < rank(Step::LoadState),
        rank(Step::LoadState) < rank(Step::LoadPreset),
        rank(Step::LoadPreset) < rank(Step::SetParams),
        rank(Step::SetParams) < rank(Step::PullPreset),
        rank(Step::PullPreset) < rank(Step::SaveState),
        rank(Step::SaveState) < rank(Step::ListParams),
        rank(Step::ListParams) < rank(Step::RunGui),
        rank(Step::RunGui) < rank(Step::RunPlay),
        rank(Step::RunPlay) < rank(Step::DestroyPlugin),
{
}

} // verus!
