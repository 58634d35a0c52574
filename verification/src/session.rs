//! Audio sessions: choosing devices and rates, the steps of opening and closing
//! a stream around a plugin, and the capture side.

use crate::audio::StreamSettings;
use crate::events::Dialect;
use crate::loader::PluginPtr;
use crate::queue::Queue;
use crate::text::{append_number, append_quoted_option, find_string, joined_texts, quoted};
use vstd::prelude::*;

verus! {

/// Rates that are offered where the device supports them.
pub const COMMON_RATES: [u32; 6] = [44100, 48000, 88200, 96000, 176400, 192000];

/// How long closing a session waits for the audio thread.
pub const STOP_TIMEOUT_MS: u64 = 250;

/// User-facing label for a device, where it has a name.
pub fn device_label(name: Option<&str>) -> (label: String)
    ensures
        label@ == match name {
            Some(n) => n@,
            None => "<unnamed>"@,
        },
{
    match name {
        Some(n) => n.to_owned(),
        None => "<unnamed>".to_owned(),
    }
}

/// The label of a device in a list.
pub open spec fn label_text(name: Option<String>) -> Seq<char> {
    match name {
        Some(n) => n@,
        None => "<unnamed>"@,
    }
}

fn labels(names: Option<Vec<Option<String>>>) -> (list: Vec<String>)
    ensures
        names is None ==> list@.len() == 0,
        names is Some ==> {
            &&& list@.len() == names->0@.len()
            &&& forall|i: int|
                0 <= i < list@.len() ==> (#[trigger] list@[i])@ == label_text(names->0@[i])
        },
{
    let names = match names {
        None => return Vec::new(),
        Some(names) => names,
    };
    let mut list: Vec<String> = Vec::new();
    let mut i: usize = 0;
    while i < names.len()
        invariant
            i <= names@.len(),
            list@.len() == i,
            forall|k: int| 0 <= k < i ==> (#[trigger] list@[k])@ == label_text(names@[k]),
        decreases names@.len() - i,
    {
        let label = match &names[i] {
            Some(n) => device_label(Some(n.as_str())),
            None => device_label(None),
        };
        list.push(label);
        i = i + 1;
    }
    list
}

/// Names of the available output devices, in the order of the backend; none
/// where the backend cannot list them.
pub fn output_devices(names: Option<Vec<Option<String>>>) -> (list: Vec<String>)
    ensures
        names is None ==> list@.len() == 0,
        names is Some ==> {
            &&& list@.len() == names->0@.len()
            &&& forall|i: int|
                0 <= i < list@.len() ==> (#[trigger] list@[i])@ == label_text(names->0@[i])
        },
{
    labels(names)
}

/// Names of the available input devices.
pub fn input_devices(names: Option<Vec<Option<String>>>) -> (list: Vec<String>)
    ensures
        names is None ==> list@.len() == 0,
        names is Some ==> {
            &&& list@.len() == names->0@.len()
            &&& forall|i: int|
                0 <= i < list@.len() ==> (#[trigger] list@[i])@ == label_text(names->0@[i])
        },
{
    labels(names)
}

/// The rates from the lowest to the highest of one supported configuration.
#[derive(Clone, Copy, Debug, PartialEq, Eq, Structural)]
pub struct RateRange {
    pub min: u32,
    pub max: u32,
}

/// Whether some configuration supports a rate.
pub open spec fn supported(ranges: Seq<RateRange>, rate: u32) -> bool {
    exists|i: int| 0 <= i < ranges.len() && (#[trigger] ranges[i]).min <= rate <= ranges[i].max
}

fn is_supported(ranges: &Vec<RateRange>, rate: u32) -> (r: bool)
    ensures
        r == supported(ranges@, rate),
{
    let mut i: usize = 0;
    while i < ranges.len()
        invariant
            i <= ranges@.len(),
            forall|k: int|
                0 <= k < i ==> !((#[trigger] ranges@[k]).min <= rate <= ranges@[k].max),
        decreases ranges@.len() - i,
    {
        if ranges[i].min <= rate && rate <= ranges[i].max {
            return true;
        }
        i = i + 1;
    }
    false
}

/// The first `n` common rates that a device supports, other than its default.
pub open spec fn offered(ranges: Seq<RateRange>, default_rate: u32, n: nat) -> Seq<u32>
    decreases n,
{
    if n == 0 {
        Seq::empty()
    } else {
        let before = offered(ranges, default_rate, (n - 1) as nat);
        let rate = COMMON_RATES@[n - 1];
        if supported(ranges, rate) && rate != default_rate {
            before.push(rate)
        } else {
            before
        }
    }
}

/// Sample rates a device supports, its current default rate first. Common rates
/// only; just the default where no configuration could be enumerated. Nothing
/// where there is no device or it names no default.
pub fn sample_rates(default_rate: Option<u32>, ranges: &Vec<RateRange>) -> (rates: Vec<u32>)
    ensures
        default_rate is None ==> rates@.len() == 0,
        default_rate is Some ==> rates@ == seq![default_rate->0] + offered(
            ranges@,
            default_rate->0,
            6,
        ),
        default_rate is Some ==> rates@.len() > 0 && rates@[0] == default_rate->0,
        default_rate is Some ==> forall|rate: u32| #[trigger]
            rates@.contains(rate) <==> rate == default_rate->0 || (supported(ranges@, rate) && (rate
                == 44100 || rate == 48000 || rate == 88200 || rate == 96000 || rate == 176400 || rate
                == 192000)),
{
    let default_rate: u32 = match default_rate {
        None => return Vec::new(),
        Some(rate) => rate,
    };
    let mut rates: Vec<u32> = Vec::new();
    rates.push(default_rate);
    assert(rates@ =~= seq![default_rate] + offered(ranges@, default_rate, 0));
    let mut i: usize = 0;
    while i < 6
        invariant
            i <= 6,
            rates@ == seq![default_rate] + offered(ranges@, default_rate, i as nat),
        decreases 6 - i,
    {
        let rate: u32 = COMMON_RATES[i];
        let ghost before = rates@;
        if is_supported(ranges, rate) && rate != default_rate {
            rates.push(rate);
        }
        assert(rates@ =~= seq![default_rate] + offered(ranges@, default_rate, (i + 1) as nat));
        i = i + 1;
    }
    proof {
        let rest = offered(ranges@, default_rate, 6);
        assert forall|rate: u32| #[trigger] rates@.contains(rate) <==> rate == default_rate || (
        supported(ranges@, rate) && (rate == 44100 || rate == 48000 || rate == 88200 || rate == 96000
            || rate == 176400 || rate == 192000)) by {
            supported_rates_are_offered(ranges@, default_rate, rate);
            if rest.contains(rate) {
                let k = choose|k: int| 0 <= k < rest.len() && rest[k] == rate;
                assert(rates@[k + 1] == rate);
            }
            if rates@.contains(rate) && rate != default_rate {
                let k = choose|k: int| 0 <= k < rates@.len() && rates@[k] == rate;
                assert(rest[k - 1] == rate);
            }
            assert(rates@[0] == default_rate);
        }
    }
    rates
}

/// Law: the default rate comes first and only once, and every other rate that
/// is offered is supported.
pub proof fn offered_rates_are_supported(ranges: Seq<RateRange>, default_rate: u32, n: nat)
    ensures
        !offered(ranges, default_rate, n).contains(default_rate),
        forall|i: int|
            0 <= i < offered(ranges, default_rate, n).len() ==> supported(
                ranges,
                #[trigger] offered(ranges, default_rate, n)[i],
            ),
    decreases n,
{
    if n > 0 {
        offered_rates_are_supported(ranges, default_rate, (n - 1) as nat);
        let before = offered(ranges, default_rate, (n - 1) as nat);
        let list = offered(ranges, default_rate, n);
        assert forall|i: int| 0 <= i < list.len() implies supported(ranges, #[trigger] list[i])
            && list[i] != default_rate by {
            if i < before.len() {
                assert(list[i] == before[i]);
                assert(before.contains(before[i]));
            }
        }
    }
}

/// Which device a session uses.
#[derive(Clone, Copy, Debug, PartialEq, Eq, Structural)]
pub enum DeviceChoice {
    /// The default device of the backend.
    Standard,
    /// The device at this place of the list.
    Listed(usize),
}

/// Pick the output device: the first with the wanted label, or the default
/// where none is wanted. `devices` are the labels in the order of the backend,
/// or why they cannot be listed.
pub fn pick_output(
    want: Option<&str>,
    devices: &Result<Vec<String>, String>,
    has_default: bool,
) -> (r: Result<DeviceChoice, String>)
    ensures
        match want {
            None => {
                &&& r is Ok <==> has_default
                &&& r is Ok ==> r->Ok_0 == DeviceChoice::Standard
                &&& r is Err ==> r->Err_0@ == "no default output device"@
            },
            Some(name) => match *devices {
                Err(e) => r is Err && r->Err_0@ == "output devices: "@ + e@,
                Ok(list) => {
                    let at = crate::text::first_equal(crate::text::strings(list@), name@);
                    &&& r is Ok <==> at < list@.len()
                    &&& r is Ok ==> r->Ok_0 == DeviceChoice::Listed(at as usize)
                    &&& r is Err ==> r->Err_0@ == "no output device named "@
                        + crate::text::quoted_text(name@)
                },
            },
        },
        r matches Ok(DeviceChoice::Listed(i)) ==> want is Some && devices is Ok && {
            let list = devices->Ok_0@;
            &&& i < list.len()
            &&& list[i as int]@ == want->0@
            &&& forall|j: int| 0 <= j < i ==> (#[trigger] list[j])@ != want->0@
        },
        r is Err && want is Some && devices is Ok ==> forall|j: int|
            0 <= j < devices->Ok_0@.len() ==> (#[trigger] devices->Ok_0@[j])@ != want->0@,
{
    match want {
        None => {
            if has_default {
                Ok(DeviceChoice::Standard)
            } else {
                Err("no default output device".to_owned())
            }
        },
        Some(name) => match devices {
            Err(e) => Err(joined_texts("output devices: ", e.as_str())),
            Ok(list) => match find_string(list, name) {
                Some(i) => Ok(DeviceChoice::Listed(i)),
                None => Err(joined_texts("no output device named ", quoted(name).as_str())),
            },
        },
    }
}

/// Pick the input device in the same way.
pub fn pick_input(
    want: Option<&str>,
    devices: &Result<Vec<String>, String>,
    has_default: bool,
) -> (r: Result<DeviceChoice, String>)
    ensures
        match want {
            None => {
                &&& r is Ok <==> has_default
                &&& r is Ok ==> r->Ok_0 == DeviceChoice::Standard
                &&& r is Err ==> r->Err_0@ == input_missing(None)
            },
            Some(name) => match *devices {
                Err(e) => r is Err && r->Err_0@ == e@,
                Ok(list) => {
                    let at = crate::text::first_equal(crate::text::strings(list@), name@);
                    &&& r is Ok <==> at < list@.len()
                    &&& r is Ok ==> r->Ok_0 == DeviceChoice::Listed(at as usize)
                    &&& r is Err ==> r->Err_0@ == input_missing(Some(name@))
                },
            },
        },
        r matches Ok(DeviceChoice::Listed(i)) ==> want is Some && devices is Ok && {
            let list = devices->Ok_0@;
            &&& i < list.len()
            &&& list[i as int]@ == want->0@
            &&& forall|j: int| 0 <= j < i ==> (#[trigger] list[j])@ != want->0@
        },
        r is Err && want is Some && devices is Ok ==> forall|j: int|
            0 <= j < devices->Ok_0@.len() ==> (#[trigger] devices->Ok_0@[j])@ != want->0@,
{
    match want {
        None => {
            if has_default {
                return Ok(DeviceChoice::Standard);
            }
        },
        Some(name) => match devices {
            Err(e) => return Err(e.as_str().to_owned()),
            Ok(list) => if let Some(i) = find_string(list, name) {
                return Ok(DeviceChoice::Listed(i));
            },
        },
    }
    let mut text = "input device '".to_owned();
    append_quoted_option(&mut text, want);
    text.append("' not found");
    Err(text)
}

/// The message where the wanted input device does not exist.
pub open spec fn input_missing(want: Option<Seq<char>>) -> Seq<char> {
    "input device '"@ + crate::text::quoted_option(want) + "' not found"@
}

/// What a device says of the way it runs: rate, channels, and its sample format
/// by name and whether that is 32-bit float.
pub struct DeviceConfig {
    pub sample_rate: u32,
    pub channels: u16,
    pub is_f32: bool,
    pub format: String,
}

/// What opening a session waits for.
#[derive(Clone, Copy, Debug, PartialEq, Eq, Structural)]
pub enum SessionCall {
    /// Pick the output device.
    Device,
    /// Ask the device for its configuration.
    Config,
    /// Ask the device for the rates it supports.
    Ranges,
    /// Open the capture stream.
    Input,
    /// Activate the plugin.
    Activate,
    /// Build the output stream, with this buffer size or the backend's own.
    Build { buffer_size: Option<u32> },
    /// Start the output stream.
    Play,
    /// The session is open.
    Done,
    /// The session could not be opened; `deactivate` says whether the plugin is
    /// to be deactivated again.
    Failed { deactivate: bool },
}

/// The answer to a call while a session is opened.
pub enum SessionReply {
    /// The label of the picked device, or the message of the failure.
    Device(Result<String, String>),
    Config(Result<DeviceConfig, String>),
    Ranges(Result<Vec<RateRange>, String>),
    Input(Result<(), String>),
    /// What `activate` returned; true where the plugin has none.
    Activated(bool),
    Built(Result<(), String>),
    Playing(Result<(), String>),
}

/// How far the opening of a session has come.
pub struct OpenState {
    pub settings: StreamSettings,
    /// Channels of all input ports of the plugin.
    pub in_channels: nat,
    pub call: SessionCall,
    pub label: Seq<char>,
    pub sample_rate: u32,
    pub channels: u16,
    /// The capture stream is open.
    pub capture: bool,
    /// The plugin was activated.
    pub activated: bool,
    /// The message of a failure.
    pub error: Seq<char>,
}

impl OpenState {
    pub open spec fn start(settings: StreamSettings, in_channels: nat) -> OpenState {
        OpenState {
            settings,
            in_channels,
            call: SessionCall::Device,
            label: Seq::empty(),
            sample_rate: 0,
            channels: 0,
            capture: false,
            activated: false,
            error: Seq::empty(),
        }
    }

    /// Whether this reply answers the call that is waited for.
    pub open spec fn answered_by(self, reply: SessionReply) -> bool {
        match reply {
            SessionReply::Device(_) => self.call is Device,
            SessionReply::Config(_) => self.call is Config,
            SessionReply::Ranges(_) => self.call is Ranges,
            SessionReply::Input(_) => self.call is Input,
            SessionReply::Activated(_) => self.call is Activate,
            SessionReply::Built(_) => self.call is Build,
            SessionReply::Playing(_) => self.call is Play,
        }
    }

    /// A failure: what was activated is to be deactivated.
    pub open spec fn failed(self, error: Seq<char>) -> OpenState {
        OpenState { call: SessionCall::Failed { deactivate: self.activated }, error, ..self }
    }

    /// The rate is settled: a capture stream comes next where the plugin has
    /// inputs.
    pub open spec fn rate_settled(self) -> OpenState {
        OpenState {
            call: if self.in_channels > 0 {
                SessionCall::Input
            } else {
                SessionCall::Activate
            },
            ..self
        }
    }

    pub open spec fn after(self, reply: SessionReply) -> OpenState {
        match reply {
            SessionReply::Device(Ok(label)) => OpenState {
                call: SessionCall::Config,
                label: label@,
                ..self
            },
            SessionReply::Device(Err(e)) => self.failed(e@),
            SessionReply::Config(Err(e)) => self.failed("output config: "@ + e@),
            SessionReply::Config(Ok(config)) => if !config.is_f32 {
                self.failed(
                    "unsupported sample format "@ + config.format@
                        + " — add conversion if needed"@,
                )
            } else {
                match self.settings.sample_rate {
                    Some(rate) => OpenState {
                        call: SessionCall::Ranges,
                        sample_rate: rate,
                        channels: config.channels,
                        ..self
                    },
                    None => OpenState {
                        sample_rate: config.sample_rate,
                        channels: config.channels,
                        ..self
                    }.rate_settled(),
                }
            },
            SessionReply::Ranges(Err(e)) => self.failed("output configs: "@ + e@),
            SessionReply::Ranges(Ok(ranges)) => if supported(ranges@, self.sample_rate) {
                self.rate_settled()
            } else {
                self.failed(
                    "sample rate "@ + crate::text::decimal(self.sample_rate as nat)
                        + " Hz not supported by "@ + self.label,
                )
            },
            SessionReply::Input(input) => OpenState {
                call: SessionCall::Activate,
                capture: input is Ok,
                ..self
            },
            SessionReply::Activated(ok) => if ok {
                OpenState {
                    call: SessionCall::Build { buffer_size: self.settings.buffer_size },
                    activated: true,
                    ..self
                }
            } else {
                self.failed("plugin.activate returned false"@)
            },
            SessionReply::Built(Ok(())) => OpenState { call: SessionCall::Play, ..self },
            SessionReply::Built(Err(e)) => if self.call->buffer_size is Some {
                OpenState { call: SessionCall::Build { buffer_size: None }, ..self }
            } else {
                self.failed("build_output_stream: "@ + e@)
            },
            SessionReply::Playing(Ok(())) => OpenState { call: SessionCall::Done, ..self },
            SessionReply::Playing(Err(e)) => self.failed("stream.play: "@ + e@),
        }
    }

    /// What is printed on the way: failures that do not end the opening.
    pub open spec fn warning(self, reply: SessionReply) -> Option<Seq<char>> {
        match reply {
            SessionReply::Input(Err(e)) => Some(
                "warn: audio input: "@ + e@ + " — plugin inputs will be silence"@,
            ),
            SessionReply::Built(Err(e)) => match self.call->buffer_size {
                Some(size) => Some(
                    "warn: fixed buffer size "@ + crate::text::decimal(size as nat)
                        + " rejected ("@ + e@ + ") — using backend default"@,
                ),
                None => None,
            },
            _ => None,
        }
    }
}

/// The opening of a session: activate the plugin at the device's rate and start
/// streaming. Settings override sample rate and buffer size.
pub struct Opening {
    settings: StreamSettings,
    in_channels: u32,
    call: SessionCall,
    label: String,
    sample_rate: u32,
    channels: u16,
    capture: bool,
    activated: bool,
    error: String,
}

impl View for Opening {
    type V = OpenState;

    closed spec fn view(&self) -> OpenState {
        OpenState {
            settings: self.settings,
            in_channels: self.in_channels as nat,
            call: self.call,
            label: self.label@,
            sample_rate: self.sample_rate,
            channels: self.channels,
            capture: self.capture,
            activated: self.activated,
            error: self.error@,
        }
    }
}

/// Begin to open a session for a plugin with `in_channels` input channels.
pub fn open(settings: StreamSettings, in_channels: u32) -> (opening: Opening)
    ensures
        opening@ == OpenState::start(settings, in_channels as nat),
{
    let opening = Opening {
        settings,
        in_channels,
        call: SessionCall::Device,
        label: String::new(),
        sample_rate: 0,
        channels: 0,
        capture: false,
        activated: false,
        error: String::new(),
    };
    assert(opening@.label =~= Seq::empty());
    assert(opening@.error =~= Seq::empty());
    opening
}

impl Opening {
    /// What to do next.
    pub fn call(&self) -> (call: SessionCall)
        ensures
            call == self@.call,
    {
        self.call
    }

    /// The rate to run at, once it is settled.
    pub fn sample_rate(&self) -> (rate: u32)
        ensures
            rate == self@.sample_rate,
    {
        self.sample_rate
    }

    /// Channels of the device, once its configuration is known.
    pub fn channels(&self) -> (n: u16)
        ensures
            n == self@.channels,
    {
        self.channels
    }

    /// Whether the plugin's inputs are captured.
    pub fn has_capture(&self) -> (r: bool)
        ensures
            r == self@.capture,
    {
        self.capture
    }

    /// The message of a failure.
    pub fn error(&self) -> (text: &str)
        ensures
            text@ == self@.error,
    {
        self.error.as_str()
    }

    fn fail(&mut self, error: String)
        ensures
            final(self)@ == old(self)@.failed(error@),
    {
        self.call = SessionCall::Failed { deactivate: self.activated };
        self.error = error;
    }

    fn rate_settled(&mut self)
        ensures
            final(self)@ == old(self)@.rate_settled(),
    {
        self.call = if self.in_channels > 0 {
            SessionCall::Input
        } else {
            SessionCall::Activate
        };
    }

    fn configured(&mut self, config: &DeviceConfig)
        ensures
            final(self)@ == old(self)@.after(SessionReply::Config(Ok(*config))),
    {
        if !config.is_f32 {
            let mut text = "unsupported sample format ".to_owned();
            text.append(config.format.as_str());
            text.append(" — add conversion if needed");
            self.fail(text);
            return;
        }
        self.channels = config.channels;
        match self.settings.sample_rate {
            Some(rate) => {
                self.sample_rate = rate;
                self.call = SessionCall::Ranges;
            },
            None => {
                self.sample_rate = config.sample_rate;
                self.rate_settled();
            },
        }
    }

    fn ranged(&mut self, ranges: &Vec<RateRange>)
        ensures
            final(self)@ == old(self)@.after(SessionReply::Ranges(Ok(*ranges))),
    {
        if is_supported(ranges, self.sample_rate) {
            self.rate_settled();
        } else {
            let mut text = "sample rate ".to_owned();
            append_number(&mut text, self.sample_rate as u64);
            text.append(" Hz not supported by ");
            text.append(self.label.as_str());
            self.fail(text);
        }
    }

    /// The stream was refused: once more without a fixed size where one was
    /// asked for. Some backends reject fixed buffer sizes.
    fn refused(&mut self, reason: &String) -> (warning: Option<String>)
        requires
            old(self)@.call is Build,
        ensures
            final(self)@ == old(self)@.after(SessionReply::Built(Err(*reason))),
            same_warning(warning, old(self)@.warning(SessionReply::Built(Err(*reason)))),
    {
        if let SessionCall::Build { buffer_size: Some(size) } = self.call {
            let mut text = "warn: fixed buffer size ".to_owned();
            append_number(&mut text, size as u64);
            text.append(" rejected (");
            text.append(reason.as_str());
            text.append(") — using backend default");
            self.call = SessionCall::Build { buffer_size: None };
            Some(text)
        } else {
            self.fail(joined_texts("build_output_stream: ", reason.as_str()));
            None
        }
    }

    /// Take the answer to the call that was waited for. The result is a warning
    /// to print, if there is one.
    pub fn reply(&mut self, reply: SessionReply) -> (warning: Option<String>)
        requires
            old(self)@.answered_by(reply),
        ensures
            final(self)@ == old(self)@.after(reply),
            same_warning(warning, old(self)@.warning(reply)),
    {
        match reply {
            SessionReply::Device(Ok(label)) => {
                self.label = label;
                self.call = SessionCall::Config;
                None
            },
            SessionReply::Device(Err(e)) => {
                self.fail(e);
                None
            },
            SessionReply::Config(Err(e)) => {
                self.fail(joined_texts("output config: ", e.as_str()));
                None
            },
            SessionReply::Config(Ok(config)) => {
                self.configured(&config);
                None
            },
            SessionReply::Ranges(Err(e)) => {
                self.fail(joined_texts("output configs: ", e.as_str()));
                None
            },
            SessionReply::Ranges(Ok(ranges)) => {
                self.ranged(&ranges);
                None
            },
            SessionReply::Input(input) => {
                self.call = SessionCall::Activate;
                match input {
                    Ok(()) => {
                        self.capture = true;
                        None
                    },
                    Err(e) => {
                        self.capture = false;
                        let mut text = "warn: audio input: ".to_owned();
                        text.append(e.as_str());
                        text.append(" — plugin inputs will be silence");
                        Some(text)
                    },
                }
            },
            SessionReply::Activated(ok) => {
                if ok {
                    self.activated = true;
                    self.call = SessionCall::Build { buffer_size: self.settings.buffer_size };
                } else {
                    self.fail("plugin.activate returned false".to_owned());
                }
                None
            },
            SessionReply::Built(Ok(())) => {
                self.call = SessionCall::Play;
                None
            },
            SessionReply::Built(Err(e)) => self.refused(&e),
            SessionReply::Playing(Ok(())) => {
                self.call = SessionCall::Done;
                None
            },
            SessionReply::Playing(Err(e)) => {
                self.fail(joined_texts("stream.play: ", e.as_str()));
                None
            },
        }
    }
}

/// A running stream and the plugin activation that belongs to it.
pub struct Session {
    pub plugin: PluginPtr,
    pub sample_rate: u32,
    pub device_channels: usize,
    pub in_ports: Vec<u32>,
    pub out_ports: Vec<u32>,
    pub dialect: Dialect,
}

impl Opening {
    /// The open session of a plugin with these ports and this dialect.
    pub fn into_session(
        self,
        plugin: PluginPtr,
        in_ports: Vec<u32>,
        out_ports: Vec<u32>,
        dialect: Dialect,
    ) -> (session: Session)
        requires
            self@.call is Done,
        ensures
            session.plugin == plugin,
            session.sample_rate == self@.sample_rate,
            session.device_channels == self@.channels,
            session.in_ports == in_ports,
            session.out_ports == out_ports,
            session.dialect == dialect,
    {
        Session {
            plugin,
            sample_rate: self.sample_rate,
            device_channels: self.channels as usize,
            in_ports,
            out_ports,
            dialect,
        }
    }
}

/// A warning with the expected text, or none.
pub open spec fn same_warning(warning: Option<String>, text: Option<Seq<char>>) -> bool {
    match text {
        None => warning is None,
        Some(t) => warning is Some && warning->0@ == t,
    }
}

/// The opening after a run of replies.
pub open spec fn ran(state: OpenState, replies: Seq<SessionReply>) -> OpenState
    decreases replies.len(),
{
    if replies.len() == 0 {
        state
    } else {
        ran(state, replies.drop_last()).after(replies.last())
    }
}

/// The runs that can happen: every reply answers the call waited for.
pub open spec fn possible(state: OpenState, replies: Seq<SessionReply>) -> bool
    decreases replies.len(),
{
    replies.len() == 0 || {
        &&& possible(state, replies.drop_last())
        &&& ran(state, replies.drop_last()).answered_by(replies.last())
    }
}

/// How often the plugin was activated.
pub open spec fn activations(replies: Seq<SessionReply>) -> nat
    decreases replies.len(),
{
    if replies.len() == 0 {
        0
    } else {
        activations(replies.drop_last()) + if replies.last() == SessionReply::Activated(true) {
            1
        } else {
            0nat
        }
    }
}

/// How often the backend was asked for a stream.
pub open spec fn builds(replies: Seq<SessionReply>) -> nat
    decreases replies.len(),
{
    if replies.len() == 0 {
        0
    } else {
        builds(replies.drop_last()) + if replies.last() is Built {
            1
        } else {
            0nat
        }
    }
}

/// Law: a session that could not be opened leaves the plugin as it was: it asks
/// for a deactivation exactly if the plugin was activated, which happens once
/// at most; an open session has its plugin activated.
pub proof fn failures_are_rolled_back(
    settings: StreamSettings,
    in_channels: nat,
    replies: Seq<SessionReply>,
)
    requires
        possible(OpenState::start(settings, in_channels), replies),
    ensures
        ({
            let end = ran(OpenState::start(settings, in_channels), replies);
            &&& activations(replies) == if end.activated {
                1
            } else {
                0nat
            }
            &&& end.call is Failed ==> end.call->deactivate == end.activated
            &&& end.call is Done ==> end.activated
            &&& end.call is Build || end.call is Play ==> end.activated
            &&& end.call is Device || end.call is Config || end.call is Ranges || end.call is Input
                || end.call is Activate ==> !end.activated
        }),
    decreases replies.len(),
{
    if replies.len() > 0 {
        failures_are_rolled_back(settings, in_channels, replies.drop_last());
    }
}

/// Law: the stream is built once, and a second time only where a fixed buffer
/// size was asked for and rejected, then with the backend's own size.
pub proof fn a_fixed_size_is_tried_once(
    settings: StreamSettings,
    in_channels: nat,
    replies: Seq<SessionReply>,
)
    requires
        possible(OpenState::start(settings, in_channels), replies),
    ensures
        ({
            let end = ran(OpenState::start(settings, in_channels), replies);
            &&& end.settings == settings
            &&& end.call is Build && end.call->buffer_size is Some ==> end.call->buffer_size
                == settings.buffer_size && builds(replies) == 0
            &&& end.call is Build && end.call->buffer_size is None ==> builds(replies)
                == if settings.buffer_size is Some {
                1
            } else {
                0nat
            }
            &&& builds(replies) <= if settings.buffer_size is Some {
                2
            } else {
                1nat
            }
            &&& !(end.call is Build || end.call is Play || end.call is Done || end.call is Failed)
                ==> builds(replies) == 0
        }),
    decreases replies.len(),
{
    if replies.len() > 0 {
        a_fixed_size_is_tried_once(settings, in_channels, replies.drop_last());
    }
}

/// Whether the device said, during a run, that it supports a rate.
pub open spec fn confirmed(replies: Seq<SessionReply>, rate: u32) -> bool
    decreases replies.len(),
{
    replies.len() > 0 && {
        ||| confirmed(replies.drop_last(), rate)
        ||| replies.last() matches SessionReply::Ranges(Ok(ranges)) && supported(ranges@, rate)
    }
}

/// Law: an open session runs at the rate that the user asked for, where they
/// did, and only after the device said that it supports that rate; a capture
/// stream is open only for plugins with inputs.
pub proof fn open_sessions_keep_the_settings(
    settings: StreamSettings,
    in_channels: nat,
    replies: Seq<SessionReply>,
)
    requires
        possible(OpenState::start(settings, in_channels), replies),
    ensures
        ({
            let end = ran(OpenState::start(settings, in_channels), replies);
            let configured = !(end.call is Device || end.call is Config || end.call is Failed);
            let asked = settings.sample_rate;
            &&& end.settings == settings
            &&& end.in_channels == in_channels
            &&& configured && asked is Some ==> end.sample_rate == asked->0
            &&& configured && !(end.call is Ranges) && asked is Some ==> confirmed(
                replies,
                asked->0,
            )
            &&& end.call is Ranges ==> asked is Some
            &&& end.capture ==> in_channels > 0
        }),
    decreases replies.len(),
{
    if replies.len() > 0 {
        open_sessions_keep_the_settings(settings, in_channels, replies.drop_last());
    }
}

/// The answer to a call while the capture stream is opened.
pub enum InputReply {
    /// A device was picked, or the message of the failure.
    Device(Result<(), String>),
    Config(Result<DeviceConfig, String>),
    Built(Result<(), String>),
    Playing(Result<(), String>),
}

/// What opening the capture stream does next.
#[derive(Clone, Copy, Debug, PartialEq, Eq, Structural)]
pub enum InputCall {
    Config,
    Build { channels: u16 },
    Play,
    Done,
}

/// What follows a reply on the capture side: the next call, or the message of
/// the failure.
pub open spec fn after_input_reply(reply: InputReply) -> Result<InputCall, Seq<char>> {
    match reply {
        InputReply::Device(Ok(())) => Ok(InputCall::Config),
        InputReply::Device(Err(e)) => Err(e@),
        InputReply::Config(Err(e)) => Err("input config: "@ + e@),
        InputReply::Config(Ok(config)) => if config.is_f32 {
            Ok(InputCall::Build { channels: config.channels })
        } else {
            Err("input format "@ + config.format@ + " is not f32"@)
        },
        InputReply::Built(Ok(())) => Ok(InputCall::Play),
        InputReply::Built(Err(e)) => Err("build_input_stream: "@ + e@),
        InputReply::Playing(Ok(())) => Ok(InputCall::Done),
        InputReply::Playing(Err(e)) => Err("stream.play: "@ + e@),
    }
}

/// A step of opening the capture stream. Failures are not fatal: the caller
/// warns and falls back to silence.
pub fn open_input(reply: InputReply) -> (next: Result<InputCall, String>)
    ensures
        next is Ok <==> after_input_reply(reply) is Ok,
        next is Ok ==> next->Ok_0 == after_input_reply(reply)->Ok_0,
        next is Err ==> next->Err_0@ == after_input_reply(reply)->Err_0,
{
    match reply {
        InputReply::Device(Ok(())) => Ok(InputCall::Config),
        InputReply::Device(Err(e)) => Err(e),
        InputReply::Config(Err(e)) => Err(joined_texts("input config: ", e.as_str())),
        InputReply::Config(Ok(config)) => {
            if config.is_f32 {
                Ok(InputCall::Build { channels: config.channels })
            } else {
                let mut text = joined_texts("input format ", config.format.as_str());
                text.append(" is not f32");
                Err(text)
            }
        },
        InputReply::Built(Ok(())) => Ok(InputCall::Play),
        InputReply::Built(Err(e)) => Err(joined_texts("build_input_stream: ", e.as_str())),
        InputReply::Playing(Ok(())) => Ok(InputCall::Done),
        InputReply::Playing(Err(e)) => Err(joined_texts("stream.play: ", e.as_str())),
    }
}

/// The reply that answers a call of the capture side; the first one answers the
/// choice of a device.
pub open spec fn input_answers(reply: InputReply, call: Option<InputCall>) -> bool {
    match reply {
        InputReply::Device(_) => call is None,
        InputReply::Config(_) => call matches Some(InputCall::Config),
        InputReply::Built(_) => call matches Some(InputCall::Build { .. }),
        InputReply::Playing(_) => call matches Some(InputCall::Play),
    }
}

/// A run of replies that the capture side can get: each answers the call that
/// the reply before led to.
pub open spec fn input_conversation(replies: Seq<InputReply>) -> bool {
    &&& replies.len() > 0 ==> input_answers(replies[0], None)
    &&& forall|i: int|
        0 < i < replies.len() ==> {
            &&& after_input_reply(replies[i - 1]) is Ok
            &&& input_answers(#[trigger] replies[i], Some(after_input_reply(replies[i - 1])->Ok_0))
        }
}

/// Law: a capture stream counts as open only after a device was picked, it runs
/// with 32-bit float samples, and a stream with its channels was built and
/// started; nothing is built for a device that runs otherwise. Opening ends
/// after four replies at most.
pub proof fn open_captures_are_ready(replies: Seq<InputReply>)
    requires
        input_conversation(replies),
        replies.len() > 0,
    ensures
        replies.len() <= 4,
        replies.last() is Built || replies.last() is Playing ==> {
            &&& replies[0] matches InputReply::Device(Ok(_))
            &&& replies[1] matches InputReply::Config(Ok(config)) && config.is_f32
            &&& after_input_reply(replies[1]) == Ok::<InputCall, Seq<char>>(
                InputCall::Build { channels: replies[1]->Config_0->Ok_0.channels },
            )
        },
        after_input_reply(replies.last()) == Ok::<InputCall, Seq<char>>(InputCall::Done) ==> {
            &&& replies.len() == 4
            &&& replies[2] matches InputReply::Built(Ok(_))
            &&& replies[3] matches InputReply::Playing(Ok(_))
        },
{
    let n = replies.len() as int;
    if n > 1 {
        assert(input_answers(replies[1], Some(after_input_reply(replies[0])->Ok_0)));
    }
    if n > 2 {
        assert(input_answers(replies[2], Some(after_input_reply(replies[1])->Ok_0)));
    }
    if n > 3 {
        assert(input_answers(replies[3], Some(after_input_reply(replies[2])->Ok_0)));
    }
    if n > 4 {
        assert(input_answers(replies[4], Some(after_input_reply(replies[3])->Ok_0)));
    }
}

/// How many frames an interleaved buffer holds, the last one possibly cut short.
pub open spec fn frame_count(len: nat, channels: nat) -> nat
    decreases len,
{
    if len == 0 || channels == 0 {
        0
    } else if len <= channels {
        1
    } else {
        1 + frame_count((len - channels) as nat, channels)
    }
}

/// One frame of a capture remixed to the plugin's channels: the last device
/// channel is repeated where the plugin wants more, and what is missing from a
/// cut frame is silence.
pub open spec fn remixed_frame(frame: Seq<u32>, dev_channels: nat, plugin_channels: nat) -> Seq<
    u32,
> {
    Seq::new(
        plugin_channels,
        |c: int|
            crate::audio::sample_at(
                frame,
                if c < dev_channels {
                    c
                } else {
                    dev_channels - 1
                },
            ),
    )
}

/// A whole capture remixed, frame by frame.
pub open spec fn remixed(data: Seq<u32>, dev_channels: nat, plugin_channels: nat) -> Seq<u32>
    decreases data.len(),
{
    if data.len() == 0 || dev_channels == 0 {
        Seq::empty()
    } else {
        let n = if data.len() < dev_channels {
            data.len() as int
        } else {
            dev_channels as int
        };
        remixed_frame(data.take(n), dev_channels, plugin_channels) + remixed(
            data.skip(n),
            dev_channels,
            plugin_channels,
        )
    }
}

/// Queue what the capture device delivered, remixed to the plugin's channels.
/// What a full queue has no room for is dropped.
pub fn capture(tx: &mut Queue<u32>, data: &[u32], dev_channels: usize, plugin_channels: usize)
    requires
        old(tx).wf(),
        dev_channels > 0,
    ensures
        final(tx).wf(),
        final(tx).capacity() == old(tx).capacity(),
        final(tx)@ == crate::queue::pushed(
            old(tx)@,
            remixed(data@, dev_channels as nat, plugin_channels as nat),
            old(tx).capacity(),
        ),
{
    let ghost held = tx@;
    let ghost capacity = tx.capacity();
    let ghost all = remixed(data@, dev_channels as nat, plugin_channels as nat);
    let ghost mut sent: Seq<u32> = Seq::empty();
    let mut from: usize = 0;
    proof {
        assert(crate::queue::pushed(held, sent, capacity) =~= held);
        assert(data@.skip(0) =~= data@);
        assert(sent + all =~= all);
    }
    while from < data.len()
        invariant
            from <= data.len(),
            dev_channels > 0,
            tx.wf(),
            tx.capacity() == capacity,
            held.len() <= capacity,
            tx@ == crate::queue::pushed(held, sent, capacity),
            all == sent + remixed(
                data@.skip(from as int),
                dev_channels as nat,
                plugin_channels as nat,
            ),
        decreases data@.len() - from,
    {
        let n: usize = if data.len() - from < dev_channels {
            data.len() - from
        } else {
            dev_channels
        };
        let ghost rest = data@.skip(from as int);
        let ghost frame = rest.take(n as int);
        let ghost out = remixed_frame(frame, dev_channels as nat, plugin_channels as nat);
        let ghost before = sent;
        let mut ch: usize = 0;
        assert(before + out.take(0) =~= before);
        while ch < plugin_channels
            invariant
                ch <= plugin_channels,
                dev_channels > 0,
                from + n <= data.len(),
                0 < n <= dev_channels,
                frame == data@.skip(from as int).take(n as int),
                out == remixed_frame(frame, dev_channels as nat, plugin_channels as nat),
                tx.wf(),
                tx.capacity() == capacity,
                held.len() <= capacity,
                tx@ == crate::queue::pushed(held, before + out.take(ch as int), capacity),
            decreases plugin_channels - ch,
        {
            let c: usize = if ch < dev_channels {
                ch
            } else {
                dev_channels - 1
            };
            let sample: u32 = if c < n {
                data[from + c]
            } else {
                0
            };
            assert(sample == out[ch as int]);
            let _ = tx.push(sample);
            proof {
                crate::queue::pushing_in_batches(
                    held,
                    before + out.take(ch as int),
                    seq![sample],
                    capacity,
                );
                assert(before + out.take(ch as int) + seq![sample] =~= before + out.take(ch + 1));
            }
            ch = ch + 1;
        }
        proof {
            assert(out.take(plugin_channels as int) =~= out);
            sent = before + out;
            assert(rest.skip(n as int) =~= data@.skip(from + n));
            assert(before + (out + remixed(
                data@.skip(from + n),
                dev_channels as nat,
                plugin_channels as nat,
            )) =~= sent + remixed(
                data@.skip(from + n),
                dev_channels as nat,
                plugin_channels as nat,
            ));
        }
        from = from + n;
    }
    assert(sent + Seq::<u32>::empty() =~= sent);
}

/// Law: a capture hands the plugin one sample per frame and input channel, so
/// frames never shift against channels.
pub proof fn captures_hold_whole_frames(data: Seq<u32>, dev_channels: nat, plugin_channels: nat)
    requires
        dev_channels > 0,
    ensures
        remixed(data, dev_channels, plugin_channels).len() == frame_count(
            data.len(),
            dev_channels,
        ) * plugin_channels,
    decreases data.len(),
{
    if data.len() > 0 {
        let n = if data.len() < dev_channels {
            data.len() as int
        } else {
            dev_channels as int
        };
        captures_hold_whole_frames(data.skip(n), dev_channels, plugin_channels);
        let rest = frame_count((data.len() - n) as nat, dev_channels);
        assert((1 + rest) * plugin_channels == plugin_channels + rest * plugin_channels)
            by (nonlinear_arith);
        assert(frame_count(data.len(), dev_channels) == 1 + rest);
    } else {
        assert(0 * plugin_channels == 0) by (nonlinear_arith);
    }
}

proof fn remixed_at(data: Seq<u32>, dev_channels: nat, plugin_channels: nat, f: int, c: int)
    requires
        dev_channels > 0,
        0 <= f < frame_count(data.len(), dev_channels),
        0 <= c < plugin_channels,
    ensures
        0 <= f * plugin_channels + c < remixed(data, dev_channels, plugin_channels).len(),
        remixed(data, dev_channels, plugin_channels)[f * plugin_channels + c]
            == crate::audio::sample_at(
            data,
            f * dev_channels + if c < dev_channels {
                c
            } else {
                dev_channels - 1
            },
        ),
    decreases f,
{
    let n = if data.len() < dev_channels {
        data.len() as int
    } else {
        dev_channels as int
    };
    let k = if c < dev_channels {
        c
    } else {
        dev_channels - 1
    };
    let frame = remixed_frame(data.take(n), dev_channels, plugin_channels);
    let rest = data.skip(n);
    let all = remixed(data, dev_channels, plugin_channels);
    assert(all == frame + remixed(rest, dev_channels, plugin_channels));
    if f == 0 {
        assert(0 * plugin_channels == 0 && 0 * dev_channels == 0) by (nonlinear_arith);
        assert(all[c] == frame[c]);
    } else {
        assert(n == dev_channels);
        remixed_at(rest, dev_channels, plugin_channels, f - 1, c);
        assert((f - 1) * plugin_channels + plugin_channels == f * plugin_channels)
            by (nonlinear_arith);
        assert((f - 1) * dev_channels + dev_channels == f * dev_channels) by (nonlinear_arith);
        assert(0 <= (f - 1) * dev_channels) by (nonlinear_arith)
            requires
                f >= 1,
        ;
        let at = f * plugin_channels + c;
        assert(all[at] == remixed(rest, dev_channels, plugin_channels)[at - plugin_channels]);
        let from = f * dev_channels + k;
        if from < data.len() {
            assert(rest[from - dev_channels] == data[from]);
        }
    }
}

/// Law: what the capture device delivers reaches the plugin's inputs: frame by
/// frame, every input channel gets the device channel of its number, and those
/// beyond the device's get its last channel.
pub proof fn captures_reach_the_inputs(
    bufs: Seq<Seq<u32>>,
    inputs: nat,
    frames: nat,
    data: Seq<u32>,
    dev_channels: nat,
    f: int,
    c: int,
)
    requires
        dev_channels > 0,
        inputs <= bufs.len(),
        0 <= f < frames,
        f < frame_count(data.len(), dev_channels),
        0 <= c < inputs,
        f < bufs[c].len(),
    ensures
        crate::audio::with_inputs(
            bufs,
            inputs,
            frames,
            Some(remixed(data, dev_channels, inputs)),
        )[c][f] == crate::audio::sample_at(
            data,
            f * dev_channels + if c < dev_channels {
                c
            } else {
                dev_channels - 1
            },
        ),
{
    remixed_at(data, dev_channels, inputs, f, c);
}

/// What closing a session does next.
#[derive(Clone, Copy, Debug, PartialEq, Eq, Structural)]
pub enum Closing {
    /// Sleep a little and look again.
    Wait,
    /// The audio thread stopped the plugin: deactivate it.
    Deactivate,
    /// The audio thread never answered: stop the plugin from here, as a last
    /// resort, then deactivate it.
    StopAndDeactivate,
}

/// What closing does next, from the answer of the audio thread so far and how
/// long it was waited for.
pub open spec fn closing(stopped: bool, waited_ms: u64) -> Closing {
    if stopped {
        Closing::Deactivate
    } else if waited_ms < STOP_TIMEOUT_MS {
        Closing::Wait
    } else {
        Closing::StopAndDeactivate
    }
}

/// Closing a session, after the stop was commanded: `stopped` is the answer of
/// the audio thread so far, `waited_ms` how long it was waited for.
pub fn close(stopped: bool, waited_ms: u64) -> (next: Closing)
    ensures
        next == closing(stopped, waited_ms),
{
    if stopped {
        Closing::Deactivate
    } else if waited_ms < STOP_TIMEOUT_MS {
        Closing::Wait
    } else {
        Closing::StopAndDeactivate
    }
}

/// What happens to an open session.
pub enum LifeEvent {
    /// The device calls back; `ok` is what `start_processing` answers if it is
    /// called.
    Callback { ok: bool },
    /// The session is to end: the stop is commanded.
    Command,
    /// Closing looks for the answer of the audio thread.
    Look { waited_ms: u64 },
}

/// An open session, from the activation of its plugin to the deactivation.
pub struct Life {
    /// The callbacks so far, as [`crate::audio::all_calls`] takes them.
    pub callbacks: Seq<(bool, bool)>,
    pub commanded: bool,
    /// The audio thread answered the command.
    pub stopped: bool,
    /// Stops from outside the audio thread.
    pub off_thread_stops: nat,
    pub deactivations: nat,
    /// Looks that led to waiting, and the time of the last one.
    pub waits: nat,
    pub waited_ms: Option<u64>,
}

impl Life {
    pub open spec fn start() -> Life {
        Life {
            callbacks: Seq::empty(),
            commanded: false,
            stopped: false,
            off_thread_stops: 0,
            deactivations: 0,
            waits: 0,
            waited_ms: None,
        }
    }

    /// What can happen now: the stop is commanded once and looked after from
    /// then on, some time apart, until the plugin is deactivated; then the
    /// streams are gone.
    pub open spec fn allows(self, event: LifeEvent) -> bool {
        match event {
            LifeEvent::Callback { .. } => self.deactivations == 0,
            LifeEvent::Command => !self.commanded,
            LifeEvent::Look { waited_ms } => {
                &&& self.commanded
                &&& self.deactivations == 0
                &&& self.waited_ms is Some ==> self.waited_ms->0 < waited_ms
            },
        }
    }

    pub open spec fn after(self, engine: crate::audio::EngineState, event: LifeEvent) -> Life {
        match event {
            LifeEvent::Callback { ok } => Life {
                callbacks: self.callbacks.push((self.commanded, ok)),
                stopped: self.stopped || crate::audio::after_callbacks(
                    engine,
                    self.callbacks,
                ).step(self.commanded) is Halt,
                ..self
            },
            LifeEvent::Command => Life { commanded: true, ..self },
            LifeEvent::Look { waited_ms } => match closing(self.stopped, waited_ms) {
                Closing::Wait => Life {
                    waits: self.waits + 1,
                    waited_ms: Some(waited_ms),
                    ..self
                },
                Closing::Deactivate => Life { deactivations: self.deactivations + 1, ..self },
                Closing::StopAndDeactivate => Life {
                    off_thread_stops: self.off_thread_stops + 1,
                    deactivations: self.deactivations + 1,
                    ..self
                },
            },
        }
    }
}

/// A session with this engine after a run of events.
pub open spec fn lived(engine: crate::audio::EngineState, events: Seq<LifeEvent>) -> Life
    decreases events.len(),
{
    if events.len() == 0 {
        Life::start()
    } else {
        lived(engine, events.drop_last()).after(engine, events.last())
    }
}

/// The runs that can happen.
pub open spec fn can_live(engine: crate::audio::EngineState, events: Seq<LifeEvent>) -> bool
    decreases events.len(),
{
    events.len() == 0 || {
        &&& can_live(engine, events.drop_last())
        &&& lived(engine, events.drop_last()).allows(events.last())
    }
}

/// Law: over the whole life of a session the plugin is processed only after a
/// successful start, which comes once at most. When the plugin is deactivated,
/// once, and the audio thread had answered, every successful start was followed
/// by exactly one stop. Where it never answered, the audio thread stopped
/// nothing and the plugin gets exactly one stop from outside. Waiting for the
/// answer is bounded, and after it, or after the time-out, the next look
/// deactivates.
pub proof fn sessions_end_in_order(
    engine: crate::audio::EngineState,
    events: Seq<LifeEvent>,
)
    requires
        !engine.started,
        !engine.start_failed,
        can_live(engine, events),
    ensures
        ({
            let life = lived(engine, events);
            let calls = crate::audio::all_calls(engine, life.callbacks);
            let starts = crate::audio::times(calls, crate::audio::AudioCall::Start(true));
            let stops = crate::audio::times(calls, crate::audio::AudioCall::Stop);
            &&& crate::audio::in_good_order(calls)
            &&& starts <= 1
            &&& life.deactivations <= 1
            &&& life.stopped ==> life.commanded && starts == stops
                && !crate::audio::is_running(calls)
            &&& !life.stopped ==> stops == 0
            &&& life.off_thread_stops == if life.deactivations == 1 && !life.stopped {
                1
            } else {
                0nat
            }
            &&& life.deactivations > 0 ==> life.commanded
            &&& life.waits <= STOP_TIMEOUT_MS
            &&& forall|waited_ms: u64|
                life.allows(LifeEvent::Look { waited_ms }) && (life.stopped || waited_ms
                    >= STOP_TIMEOUT_MS) ==> (#[trigger] life.after(
                    engine,
                    LifeEvent::Look { waited_ms },
                )).deactivations == 1
        }),
{
    life_invariant(engine, events);
}

proof fn life_invariant(engine: crate::audio::EngineState, events: Seq<LifeEvent>)
    requires
        !engine.started,
        !engine.start_failed,
        can_live(engine, events),
    ensures
        ({
            let life = lived(engine, events);
            let calls = crate::audio::all_calls(engine, life.callbacks);
            let starts = crate::audio::times(calls, crate::audio::AudioCall::Start(true));
            let stops = crate::audio::times(calls, crate::audio::AudioCall::Stop);
            let now = crate::audio::after_callbacks(engine, life.callbacks);
            &&& crate::audio::in_good_order(calls)
            &&& now.started == crate::audio::is_running(calls)
            &&& now.device_channels == engine.device_channels
            &&& starts == stops + if now.started {
                1
            } else {
                0nat
            }
            &&& starts <= 1
            &&& life.deactivations <= 1
            &&& life.deactivations > 0 ==> life.commanded
            &&& life.stopped ==> life.commanded && !now.started && engine.device_channels > 0
            &&& !life.stopped ==> stops == 0
            &&& life.off_thread_stops == if life.deactivations == 1 && !life.stopped {
                1
            } else {
                0nat
            }
            &&& life.waited_ms is Some ==> life.waited_ms->0 < STOP_TIMEOUT_MS && life.waits
                <= life.waited_ms->0 + 1
            &&& life.waited_ms is None ==> life.waits == 0
        }),
    decreases events.len(),
{
    let life = lived(engine, events);
    crate::audio::starts_and_stops_alternate(engine, life.callbacks);
    if events.len() > 0 {
        let before = lived(engine, events.drop_last());
        life_invariant(engine, events.drop_last());
        if let LifeEvent::Callback { ok } = events.last() {
            let now = crate::audio::after_callbacks(engine, before.callbacks);
            let calls = crate::audio::all_calls(engine, before.callbacks);
            let added = crate::audio::callback_calls(now, before.commanded, ok);
            assert(life.callbacks.drop_last() =~= before.callbacks);
            assert(crate::audio::all_calls(engine, life.callbacks) == calls + added);
            stops_of_a_callback(calls, now, before.commanded, ok);
        }
    }
}

/// A callback stops the plugin exactly where it is told to and the plugin is
/// started.
proof fn stops_of_a_callback(
    calls: Seq<crate::audio::AudioCall>,
    now: crate::audio::EngineState,
    stop: bool,
    ok: bool,
)
    ensures
        crate::audio::times(
            calls + crate::audio::callback_calls(now, stop, ok),
            crate::audio::AudioCall::Stop,
        ) == crate::audio::times(calls, crate::audio::AudioCall::Stop) + if stop && now.started
            && now.device_channels > 0 {
            1
        } else {
            0nat
        },
{
    let added = crate::audio::callback_calls(now, stop, ok);
    if added.len() == 0 {
        assert(calls + added =~= calls);
    } else {
        let one = calls.push(added[0]);
        assert(one.drop_last() =~= calls);
        assert(one.last() == added[0]);
        assert(crate::audio::times(one, crate::audio::AudioCall::Stop) == crate::audio::times(
            calls,
            crate::audio::AudioCall::Stop,
        ) + if added[0] is Stop {
            1
        } else {
            0nat
        });
        if added.len() == 1 {
            assert(calls + added =~= one);
        } else {
            assert((calls + added).drop_last() =~= one);
            assert((calls + added).last() == added[1]);
        }
    }
}

/// Law: a rate that the user asked for is refused exactly where no listed
/// configuration has it, at whatever place of the list. Where one has it the
/// opening goes on, with the capture for a plugin with inputs and with the
/// activation otherwise, at that rate.
pub proof fn a_listed_rate_is_accepted(state: OpenState, ranges: Vec<RateRange>)
    ensures
        ({
            let next = state.after(SessionReply::Ranges(Ok(ranges)));
            let rate = state.sample_rate;
            let listed = exists|i: int|
                0 <= i < ranges@.len() && (#[trigger] ranges@[i]).min <= rate && rate
                    <= ranges@[i].max;
            &&& next.call is Failed <==> !listed
            &&& listed && state.in_channels > 0 ==> next.call is Input
            &&& listed && state.in_channels == 0 ==> next.call is Activate
            &&& next.sample_rate == rate
            &&& next.channels == state.channels
            &&& next.activated == state.activated
            &&& !listed ==> next.call->deactivate == state.activated
        }),
{
    let rate = state.sample_rate;
    if supported(ranges@, rate) {
        let i = choose|i: int|
            0 <= i < ranges@.len() && (#[trigger] ranges@[i]).min <= rate <= ranges@[i].max;
        assert(ranges@[i].min <= rate && rate <= ranges@[i].max);
    }
}

/// Law: more configurations never cost a rate, and their order does not matter:
/// a list supports a rate exactly if one of its two parts does.
pub proof fn support_is_per_configuration(
    front: Seq<RateRange>,
    one: RateRange,
    back: Seq<RateRange>,
    rate: u32,
)
    ensures
        !supported(Seq::empty(), rate),
        supported(seq![one], rate) <==> one.min <= rate && rate <= one.max,
        supported(front + back, rate) <==> supported(front, rate) || supported(back, rate),
{
    if one.min <= rate && rate <= one.max {
        assert(seq![one][0] == one);
    }
    let all = front + back;
    if supported(all, rate) {
        let i = choose|i: int|
            0 <= i < all.len() && (#[trigger] all[i]).min <= rate <= all[i].max;
        if i < front.len() {
            assert(front[i] == all[i]);
        } else {
            assert(back[i - front.len()] == all[i]);
        }
    }
    if supported(front, rate) {
        let i = choose|i: int|
            0 <= i < front.len() && (#[trigger] front[i]).min <= rate <= front[i].max;
        assert(all[i] == front[i]);
    }
    if supported(back, rate) {
        let i = choose|i: int|
            0 <= i < back.len() && (#[trigger] back[i]).min <= rate <= back[i].max;
        assert(all[front.len() + i] == back[i]);
    }
}

/// Law: a device without faults is opened. Its label, its 32-bit float format,
/// an activation, a stream and its start are enough, at the device's rate where
/// none was asked for, whatever becomes of the capture.
pub proof fn sound_devices_open(
    buffer_size: Option<u32>,
    in_channels: nat,
    label: String,
    config: DeviceConfig,
    input: Result<(), String>,
)
    requires
        config.is_f32,
    ensures
        ({
            let settings = StreamSettings { sample_rate: None, buffer_size };
            let s1 = OpenState::start(settings, in_channels).after(SessionReply::Device(Ok(label)));
            let s2 = s1.after(SessionReply::Config(Ok(config)));
            let s3 = if in_channels > 0 {
                s2.after(SessionReply::Input(input))
            } else {
                s2
            };
            let s4 = s3.after(SessionReply::Activated(true));
            let s5 = s4.after(SessionReply::Built(Ok(())));
            let s6 = s5.after(SessionReply::Playing(Ok(())));
            &&& OpenState::start(settings, in_channels).call is Device
            &&& s1.call is Config
            &&& s2.call is Input <==> in_channels > 0
            &&& s3.call is Activate
            &&& s4.call == (SessionCall::Build { buffer_size })
            &&& s5.call is Play
            &&& s6.call is Done
            &&& s6.label == label@
            &&& s6.sample_rate == config.sample_rate
            &&& s6.channels == config.channels
            &&& s6.capture <==> in_channels > 0 && input is Ok
        }),
{
}

/// Law: every fault but two ends the opening, with the backend's own words in the
/// message: a capture that cannot be opened leaves the plugin's inputs silent, and
/// a buffer size that is rejected is replaced by the backend's own. Both are
/// warned of, and nothing else is.
pub proof fn faults_end_the_opening(state: OpenState, reply: SessionReply)
    requires
        state.answered_by(reply),
    ensures
        ({
            let next = state.after(reply);
            let fault = match reply {
                SessionReply::Device(r) => r is Err,
                SessionReply::Config(r) => r is Err || !r->Ok_0.is_f32,
                SessionReply::Ranges(r) => r is Err || !supported(r->Ok_0@, state.sample_rate),
                SessionReply::Input(_) => false,
                SessionReply::Activated(ok) => !ok,
                SessionReply::Built(r) => r is Err && state.call == (SessionCall::Build {
                    buffer_size: None,
                }),
                SessionReply::Playing(r) => r is Err,
            };
            let spared = match reply {
                SessionReply::Input(r) => r is Err,
                SessionReply::Built(r) => r is Err && !(state.call == (SessionCall::Build {
                    buffer_size: None,
                })),
                _ => false,
            };
            &&& next.call is Failed <==> fault
            &&& fault ==> next.call->deactivate == state.activated && next.activated
                == state.activated
            &&& state.warning(reply) is Some <==> spared
            &&& reply matches SessionReply::Device(Err(e)) ==> next.error == e@
            &&& reply matches SessionReply::Config(Err(e)) ==> next.error == "output config: "@ + e@
            &&& reply matches SessionReply::Ranges(Err(e)) ==> next.error == "output configs: "@
                + e@
            &&& fault && reply is Built ==> next.error == "build_output_stream: "@
                + reply->Built_0->Err_0@
            &&& reply matches SessionReply::Playing(Err(e)) ==> next.error == "stream.play: "@ + e@
            &&& reply is Built && spared ==> next.call
                == (SessionCall::Build { buffer_size: None })
            &&& reply matches SessionReply::Input(r) ==> next.call is Activate && next.capture == (r
                is Ok)
        }),
{
}

/// Law: a rate that was asked for is put to the device before anything is opened,
/// and is the rate of the session; otherwise the device's own rate is.
pub proof fn asked_rates_are_checked(state: OpenState, config: DeviceConfig)
    requires
        config.is_f32,
    ensures
        ({
            let next = state.after(SessionReply::Config(Ok(config)));
            &&& next.channels == config.channels
            &&& state.settings.sample_rate is Some ==> next.call is Ranges && next.sample_rate
                == state.settings.sample_rate->0
            &&& state.settings.sample_rate is None ==> next.sample_rate == config.sample_rate && (
            next.call is Input || next.call is Activate)
        }),
{
}

/// Law: of the common rates exactly those that the device supports are offered
/// beside its default, from the lowest to the highest.
pub proof fn supported_rates_are_offered(ranges: Seq<RateRange>, default_rate: u32, rate: u32)
    ensures
        offered(ranges, default_rate, 6).contains(rate) <==> supported(ranges, rate) && rate
            != default_rate && (rate == 44100 || rate == 48000 || rate == 88200 || rate == 96000
            || rate == 176400 || rate == 192000),
        forall|i: int, j: int|
            0 <= i < j < offered(ranges, default_rate, 6).len() ==> #[trigger] offered(
                ranges,
                default_rate,
                6,
            )[i] < #[trigger] offered(ranges, default_rate, 6)[j],
{
    offered_of_first(ranges, default_rate, 6, rate);
    assert(COMMON_RATES@ =~= seq![44100u32, 48000, 88200, 96000, 176400, 192000]);
    let first = COMMON_RATES@.take(6);
    assert(first =~= COMMON_RATES@);
    if rate == 44100 {
        assert(first[0] == rate);
    }
    if rate == 48000 {
        assert(first[1] == rate);
    }
    if rate == 88200 {
        assert(first[2] == rate);
    }
    if rate == 96000 {
        assert(first[3] == rate);
    }
    if rate == 176400 {
        assert(first[4] == rate);
    }
    if rate == 192000 {
        assert(first[5] == rate);
    }
}

proof fn offered_of_first(ranges: Seq<RateRange>, default_rate: u32, n: nat, rate: u32)
    requires
        n <= 6,
    ensures
        offered(ranges, default_rate, n).contains(rate) <==> supported(ranges, rate) && rate
            != default_rate && COMMON_RATES@.take(n as int).contains(rate),
        forall|i: int|
            0 <= i < offered(ranges, default_rate, n).len() ==> COMMON_RATES@.take(
                n as int,
            ).contains(#[trigger] offered(ranges, default_rate, n)[i]),
        forall|i: int, j: int|
            0 <= i < j < offered(ranges, default_rate, n).len() ==> #[trigger] offered(
                ranges,
                default_rate,
                n,
            )[i] < #[trigger] offered(ranges, default_rate, n)[j],
    decreases n,
{
    if n > 0 {
        let m = (n - 1) as nat;
        offered_of_first(ranges, default_rate, m, rate);
        let before = offered(ranges, default_rate, m);
        let list = offered(ranges, default_rate, n);
        let (few, more) = (COMMON_RATES@.take(m as int), COMMON_RATES@.take(n as int));
        let next = COMMON_RATES@[m as int];
        assert(COMMON_RATES@ =~= seq![44100u32, 48000, 88200, 96000, 176400, 192000]);
        assert(more =~= few.push(next));
        assert forall|r: u32| more.contains(r) <==> few.contains(r) || r == next by {
            if few.contains(r) {
                let k = choose|k: int| 0 <= k < few.len() && few[k] == r;
                assert(more[k] == r);
            }
            assert(more[m as int] == next);
        }
        assert forall|i: int| 0 <= i < list.len() implies more.contains(#[trigger] list[i]) by {
            if i < before.len() {
                assert(list[i] == before[i]);
            }
        }
        assert forall|i: int| 0 <= i < before.len() implies #[trigger] before[i] < next by {
            let k = choose|k: int| 0 <= k < few.len() && few[k] == before[i];
            assert(few[k] < next);
        }
        if before.contains(rate) {
            let k = choose|k: int| 0 <= k < before.len() && before[k] == rate;
            assert(list[k] == rate);
        }
        if list.len() > before.len() {
            assert(list[before.len() as int] == next);
        }
        assert forall|i: int, j: int| 0 <= i < j < list.len() implies #[trigger] list[i]
            < #[trigger] list[j] by {
            assert(list[i] == before[i]);
        }
    }
}

/// Law: an input device that runs with 32-bit float samples is opened with its
/// channels, step by step, and every fault ends the capture with its message.
pub proof fn sound_captures_open(config: DeviceConfig, e: String)
    ensures
        after_input_reply(InputReply::Device(Ok(()))) == Ok::<InputCall, Seq<char>>(
            InputCall::Config,
        ),
        config.is_f32 ==> after_input_reply(InputReply::Config(Ok(config))) == Ok::<
            InputCall,
            Seq<char>,
        >(InputCall::Build { channels: config.channels }),
        !config.is_f32 ==> after_input_reply(InputReply::Config(Ok(config))) is Err,
        after_input_reply(InputReply::Built(Ok(()))) == Ok::<InputCall, Seq<char>>(InputCall::Play),
        after_input_reply(InputReply::Playing(Ok(()))) == Ok::<InputCall, Seq<char>>(
            InputCall::Done,
        ),
        after_input_reply(InputReply::Device(Err(e))) == Err::<InputCall, Seq<char>>(e@),
        after_input_reply(InputReply::Config(Err(e))) == Err::<InputCall, Seq<char>>(
            "input config: "@ + e@,
        ),
        after_input_reply(InputReply::Built(Err(e))) == Err::<InputCall, Seq<char>>(
            "build_input_stream: "@ + e@,
        ),
        after_input_reply(InputReply::Playing(Err(e))) == Err::<InputCall, Seq<char>>(
            "stream.play: "@ + e@,
        ),
{
}

/// Law: a capture has as many frames as its samples begin: all whole frames, and
/// one more where the last is cut.
pub proof fn frames_are_counted(len: nat, channels: nat)
    requires
        channels > 0,
    ensures
        len <= frame_count(len, channels) * channels,
        frame_count(len, channels) * channels < len + channels,
    decreases len,
{
    if len == 0 {
        assert(0 * channels == 0) by (nonlinear_arith);
    } else if len <= channels {
        assert(1 * channels == channels) by (nonlinear_arith);
    } else {
        let rest = frame_count((len - channels) as nat, channels);
        frames_are_counted((len - channels) as nat, channels);
        assert((1 + rest) * channels == channels + rest * channels) by (nonlinear_arith);
    }
}

/// Law: closing deactivates as soon as the audio thread answered, waits for the
/// answer for a limited time, and stops the plugin from outside only after that.
pub proof fn closing_waits_for_the_answer(stopped: bool, waited_ms: u64)
    ensures
        closing(stopped, waited_ms) is Deactivate <==> stopped,
        closing(stopped, waited_ms) is Wait <==> !stopped && waited_ms < 250,
        closing(stopped, waited_ms) is StopAndDeactivate <==> !stopped && waited_ms >= 250,
{
}

/// Law: a device is listed under its own name.
pub proof fn devices_go_by_their_names(name: Option<String>)
    ensures
        name is Some ==> label_text(name) == name->0@,
        name is None ==> label_text(name) == "<unnamed>"@,
{
}

} // verus!
