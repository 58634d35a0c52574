//! Loading plugins: the steps of opening a plugin file, which of its plugins to
//! instantiate, and what a plugin says of its ports and parameters.
//!
//! Addresses are plain numbers here, 0 for none. Parameter values are the bit
//! patterns of 64-bit floats.

use crate::events::{Dialect, EvList};
use crate::text::{find_nul, joined_texts, quoted, same_bytes, text_of_c};
use vstd::prelude::*;

verus! {

/// Answers of the outside world while a plugin file is opened, each to the call
/// that [`Loader::open`] asked for before.
pub enum OpenReply {
    /// The dynamic library was loaded, or why not.
    Loaded(Result<(), String>),
    /// Its `clap_entry` symbol, or why it is missing: whether the entry has
    /// `init` and whether it has `get_factory`.
    Entry(Result<(bool, bool), String>),
    /// What `init` returned for the path, or why the path cannot be passed.
    Started(Result<bool, String>),
    /// Whether `get_factory` has a plugin factory.
    Factory(bool),
}

/// The next call while a plugin file is opened.
#[derive(Clone, Copy, Debug, PartialEq, Eq, Structural)]
pub enum OpenCall {
    FindEntry,
    Init,
    FindFactory,
    /// Nothing is left to do, the file is open.
    Done,
}

/// What follows a reply: the next call, or the message of the failure.
pub open spec fn after_reply(reply: OpenReply) -> Result<OpenCall, Seq<char>> {
    match reply {
        OpenReply::Loaded(Ok(())) => Ok(OpenCall::FindEntry),
        OpenReply::Loaded(Err(e)) => Err("dlopen: "@ + e@),
        OpenReply::Entry(Err(e)) => Err("clap_entry symbol: "@ + e@),
        OpenReply::Entry(Ok((init, get_factory))) => if !init {
            Err("entry.init is null"@)
        } else if !get_factory {
            Err("entry.get_factory is null"@)
        } else {
            Ok(OpenCall::Init)
        },
        OpenReply::Started(Err(e)) => Err(e@),
        OpenReply::Started(Ok(started)) => if started {
            Ok(OpenCall::FindFactory)
        } else {
            Err("entry.init returned false"@)
        },
        OpenReply::Factory(found) => if found {
            Ok(OpenCall::Done)
        } else {
            Err("get_factory: no plugin factory"@)
        },
    }
}

/// The call that a reply answers.
pub open spec fn answers(reply: OpenReply, call: Option<OpenCall>) -> bool {
    match reply {
        OpenReply::Loaded(_) => call is None,
        OpenReply::Entry(_) => call == Some(OpenCall::FindEntry),
        OpenReply::Started(_) => call == Some(OpenCall::Init),
        OpenReply::Factory(_) => call == Some(OpenCall::FindFactory),
    }
}

/// A run of replies that the outside world can give: each answers the call
/// that the reply before led to.
pub open spec fn conversation(replies: Seq<OpenReply>) -> bool {
    &&& replies.len() > 0 ==> answers(replies[0], None)
    &&& forall|i: int|
        0 < i < replies.len() ==> {
            &&& after_reply(replies[i - 1]) is Ok
            &&& answers(#[trigger] replies[i], Some(after_reply(replies[i - 1])->Ok_0))
        }
}

/// Law: a file counts as open only after its library was loaded, its entry has
/// both functions, `init` returned true and a factory was found; `init` is
/// never called before the entry is known to be complete.
pub proof fn open_files_are_ready(replies: Seq<OpenReply>)
    requires
        conversation(replies),
        replies.len() > 0,
    ensures
        replies.last() is Started ==> replies.len() == 3,
        replies.last() is Started || replies.last() is Factory ==> replies[1]
            == OpenReply::Entry(Ok((true, true))),
        after_reply(replies.last()) == Ok::<OpenCall, Seq<char>>(OpenCall::Done) ==> {
            &&& replies.len() == 4
            &&& replies[0] matches OpenReply::Loaded(Ok(_))
            &&& replies[1] == OpenReply::Entry(Ok((true, true)))
            &&& replies[2] == OpenReply::Started(Ok(true))
            &&& replies[3] == OpenReply::Factory(true)
        },
{
    let n = replies.len() as int;
    if n > 1 {
        assert(answers(replies[1], Some(after_reply(replies[0])->Ok_0)));
    }
    if n > 2 {
        assert(answers(replies[2], Some(after_reply(replies[1])->Ok_0)));
    }
    if n > 3 {
        assert(answers(replies[3], Some(after_reply(replies[2])->Ok_0)));
    }
    if n > 4 {
        assert(answers(replies[4], Some(after_reply(replies[3])->Ok_0)));
    }
}

/// What a plugin file says of one of its plugins: C strings, where present.
pub struct Descriptor {
    pub id: Option<Vec<u8>>,
    pub name: Option<Vec<u8>>,
}

/// An open plugin file: the descriptors its factory hands out, and whether the
/// factory can create plugins.
pub struct Loader {
    plugins: Vec<Option<Descriptor>>,
    can_create: bool,
}

impl View for Loader {
    type V = Seq<Option<Descriptor>>;

    closed spec fn view(&self) -> Seq<Option<Descriptor>> {
        self.plugins@
    }
}

/// Whether a descriptor is one to try for a wanted id: it has an id, and the
/// wanted one if there is any.
pub open spec fn matches(descriptor: Option<Descriptor>, want: Option<Seq<u8>>) -> bool {
    &&& descriptor is Some
    &&& descriptor->0.id is Some
    &&& want is Some ==> crate::text::before_nul(descriptor->0.id->0@) == want->0
}

/// UTF-8 of a wanted id.
pub open spec fn wanted_bytes(want: Option<&str>) -> Option<Seq<u8>> {
    match want {
        Some(id) => Some(vstd::utf8::encode_utf8(id@)),
        None => None,
    }
}

/// The message where no plugin could be created.
pub open spec fn create_error(can_create: bool, want: Option<&str>) -> Seq<char> {
    if !can_create {
        "factory.create_plugin is null"@
    } else {
        match want {
            Some(id) => "plugin id="@ + crate::text::quoted_text(id@) + " not found"@,
            None => "factory.create_plugin returned null for all plugins"@,
        }
    }
}

impl Loader {
    /// Whether the factory has `create_plugin`.
    pub closed spec fn can_create(&self) -> bool {
        self.can_create
    }

    /// The factory counts its plugins in 32 bits.
    pub open spec fn wf(&self) -> bool {
        self@.len() <= u32::MAX
    }

    /// A step of opening a plugin file. The first call, before any reply, is to
    /// load the library.
    pub fn open(reply: OpenReply) -> (next: Result<OpenCall, String>)
        ensures
            next is Ok <==> after_reply(reply) is Ok,
            next is Ok ==> next->Ok_0 == after_reply(reply)->Ok_0,
            next is Err ==> next->Err_0@ == after_reply(reply)->Err_0,
    {
        match reply {
            OpenReply::Loaded(Ok(())) => Ok(OpenCall::FindEntry),
            OpenReply::Loaded(Err(e)) => Err(joined_texts("dlopen: ", e.as_str())),
            OpenReply::Entry(Err(e)) => Err(joined_texts("clap_entry symbol: ", e.as_str())),
            OpenReply::Entry(Ok((init, get_factory))) => {
                if !init {
                    Err("entry.init is null".to_owned())
                } else if !get_factory {
                    Err("entry.get_factory is null".to_owned())
                } else {
                    Ok(OpenCall::Init)
                }
            },
            OpenReply::Started(Err(e)) => Err(e),
            OpenReply::Started(Ok(started)) => {
                if started {
                    Ok(OpenCall::FindFactory)
                } else {
                    Err("entry.init returned false".to_owned())
                }
            },
            OpenReply::Factory(found) => {
                if found {
                    Ok(OpenCall::Done)
                } else {
                    Err("get_factory: no plugin factory".to_owned())
                }
            },
        }
    }

    /// What the factory of an open file answered.
    pub fn new(plugins: Vec<Option<Descriptor>>, can_create: bool) -> (loader: Loader)
        ensures
            loader@ == plugins@,
            loader.can_create() == can_create,
    {
        Loader { plugins, can_create }
    }

    pub fn plugin_count(&self) -> (n: u32)
        requires
            self.wf(),
        ensures
            n == self@.len(),
    {
        self.plugins.len() as u32
    }

    pub fn descriptor(&self, index: u32) -> (d: Option<&Descriptor>)
        ensures
            d is Some <==> index < self@.len() && self@[index as int] is Some,
            d is Some ==> *d->0 == self@[index as int]->0,
    {
        if (index as usize) < self.plugins.len() {
            self.plugins[index as usize].as_ref()
        } else {
            None
        }
    }

    /// Create the first plugin whose id matches `want` (or the first plugin if
    /// `want` is `None`): the plugin to try next, where all before `from` were
    /// tried. A plugin that the factory does not create is passed over.
    pub fn create(&self, want: Option<&str>, from: u32) -> (r: Result<u32, String>)
        requires
            self.wf(),
        ensures
            r is Ok <==> self.can_create() && exists|i: int|
                from <= i < self@.len() && #[trigger] matches(self@[i], wanted_bytes(want)),
            r is Ok ==> {
                &&& from <= r->Ok_0 < self@.len()
                &&& matches(self@[r->Ok_0 as int], wanted_bytes(want))
                &&& forall|i: int|
                    from <= i < r->Ok_0 ==> !#[trigger] matches(self@[i], wanted_bytes(want))
            },
            r is Ok && want is Some ==> crate::text::before_nul(self@[r->Ok_0 as int]->0.id->0@)
                == vstd::utf8::encode_utf8(want->0@),
            r is Ok ==> self@[r->Ok_0 as int] is Some && self@[r->Ok_0 as int]->0.id is Some,
            r is Err ==> r->Err_0@ == create_error(self.can_create(), want),
    {
        if !self.can_create {
            return Err("factory.create_plugin is null".to_owned());
        }
        let n: u32 = self.plugin_count();
        let mut i: u32 = from;
        while i < n
            invariant
                self.wf(),
                self.can_create(),
                n == self@.len(),
                from <= i,
                forall|k: int|
                    from <= k < i && k < n ==> !#[trigger] matches(self@[k], wanted_bytes(want)),
            decreases n - i,
        {
            if is_candidate(&self.plugins[i as usize], want) {
                return Ok(i);
            }
            i = i + 1;
        }
        match want {
            Some(id) => {
                let mut text = "plugin id=".to_owned();
                text.append(quoted(id).as_str());
                text.append(" not found");
                Err(text)
            },
            None => Err("factory.create_plugin returned null for all plugins".to_owned()),
        }
    }
}

fn is_candidate(descriptor: &Option<Descriptor>, want: Option<&str>) -> (r: bool)
    ensures
        r == matches(*descriptor, wanted_bytes(want)),
{
    match descriptor {
        None => false,
        Some(d) => match &d.id {
            None => false,
            Some(id) => match want {
                None => true,
                Some(want) => {
                    let end = find_nul(id.as_slice());
                    same_bytes(
                        vstd::slice::slice_subrange(id.as_slice(), 0, end),
                        want.as_bytes(),
                    )
                },
            },
        },
    }
}

/// Law: trying one plugin after the other in the order that `create` names
/// reaches every match once: the next one named lies behind the last, and no
/// match lies between.
pub proof fn every_match_is_tried(
    plugins: Seq<Option<Descriptor>>,
    want: Option<Seq<u8>>,
    tried: Seq<int>,
    at: int,
)
    requires
        forall|k: int|
            0 <= k < tried.len() ==> {
                let from = if k == 0 {
                    0
                } else {
                    tried[k - 1] + 1
                };
                &&& from <= #[trigger] tried[k] < plugins.len()
                &&& forall|i: int|
                    from <= i < tried[k] ==> !#[trigger] matches(plugins[i], want)
            },
        tried.len() > 0,
        0 <= at <= tried.last(),
        matches(plugins[at], want),
    ensures
        tried.contains(at),
    decreases tried.len(),
{
    let last = tried.len() - 1;
    assert(tried[last] == tried.last());
    if at == tried.last() {
        assert(tried.contains(tried[last]));
    } else if last == 0 {
        assert(!matches(plugins[at], want));
    } else {
        let shorter = tried.drop_last();
        assert(shorter.last() == tried[last - 1]);
        if at > tried[last - 1] {
            assert(!matches(plugins[at], want));
        }
        assert forall|k: int| 0 <= k < shorter.len() implies ({
            let from = if k == 0 {
                0
            } else {
                shorter[k - 1] + 1
            };
            &&& from <= #[trigger] shorter[k] < plugins.len()
            &&& forall|i: int| from <= i < shorter[k] ==> !#[trigger] matches(plugins[i], want)
        }) by {
            assert(shorter[k] == tried[k]);
        }
        every_match_is_tried(plugins, want, shorter, at);
        let k = choose|k: int| 0 <= k < shorter.len() && shorter[k] == at;
        assert(tried[k] == at);
    }
}

/// The extension a plugin hands out: `None` if it has no `get_extension` or
/// answers with no address.
pub fn plugin_ext(answer: Option<u64>) -> (ext: Option<u64>)
    ensures
        ext == if answer == Some(0u64) {
            None
        } else {
            answer
        },
{
    match answer {
        Some(0) => None,
        other => other,
    }
}

/// What a plugin says of the audio ports on one side: `count`, and `get` for
/// every port, giving its channels. A function the plugin lacks answers
/// nothing; `get` can fail.
pub struct AudioPorts {
    pub count: Option<u32>,
    pub channels: Option<Vec<Option<u32>>>,
}

/// How many ports a plugin with the extension counts.
pub open spec fn counted(count: Option<u32>) -> u32 {
    match count {
        Some(n) => n,
        None => 0,
    }
}

/// Channels of one port; a port that cannot be asked for has none.
pub open spec fn port_channels(channels: Seq<Option<u32>>, port: int) -> u32 {
    if port < channels.len() && channels[port] is Some {
        channels[port]->0
    } else {
        0
    }
}

/// Channel count of every audio port on one side. The host must hand the plugin
/// a buffer for each declared port, so this returns all of them, not just the
/// main one.
pub fn audio_port_channels(ports: &Option<AudioPorts>) -> (channels: Vec<u32>)
    ensures
        ports is None || ports->0.channels is None ==> channels@.len() == 0,
        ports is Some && ports->0.channels is Some ==> channels@ == Seq::new(
            counted(ports->0.count) as nat,
            |i: int| port_channels(ports->0.channels->0@, i),
        ),
        ports is Some && ports->0.channels is Some && ports->0.count is Some ==> channels@.len()
            == ports->0.count->0,
        ports is Some && ports->0.channels is Some ==> forall|i: int|
            0 <= i < channels@.len() && i < ports->0.channels->0@.len() && ports->0.channels->0@[i]
                is Some ==> #[trigger] channels@[i] == ports->0.channels->0@[i]->0,
{
    let ports = match ports {
        Some(ports) => ports,
        None => return Vec::new(),
    };
    let answers = match &ports.channels {
        Some(answers) => answers,
        None => return Vec::new(),
    };
    let count: u32 = match ports.count {
        Some(n) => n,
        None => 0,
    };
    let mut channels: Vec<u32> = Vec::new();
    let mut i: u32 = 0;
    while i < count
        invariant
            i <= count,
            channels@ == Seq::new(i as nat, |k: int| port_channels(answers@, k)),
        decreases count - i,
    {
        let mut n: u32 = 0;
        if (i as usize) < answers.len() {
            if let Some(c) = answers[i as usize] {
                n = c;
            }
        }
        channels.push(n);
        i = i + 1;
        assert(channels@ =~= Seq::new(i as nat, |k: int| port_channels(answers@, k)));
    }
    channels
}

/// Bits of the note dialects a port speaks.
pub const CLAP_NOTE_DIALECT_CLAP: u32 = 1;

pub const CLAP_NOTE_DIALECT_MIDI: u32 = 2;

/// What a plugin says of its input note ports: `count`, and `get` for the
/// first, giving its preferred and its supported dialects. A function the plugin
/// lacks, or that fails, answers nothing.
pub struct NotePorts {
    pub count: Option<u32>,
    pub first: Option<NoteDialects>,
}

/// Dialect bits of one note port.
#[derive(Clone, Copy, Debug, PartialEq, Eq, Structural)]
pub struct NoteDialects {
    pub preferred: u32,
    pub supported: u32,
}

/// The dialect a set of dialect bits is served in.
pub open spec fn dialect_in(bits: u32) -> Dialect {
    if bits & CLAP_NOTE_DIALECT_MIDI != 0 {
        Dialect::Midi
    } else if bits & CLAP_NOTE_DIALECT_CLAP != 0 {
        Dialect::Clap
    } else {
        Dialect::Absent
    }
}

fn dialect_of(bits: u32) -> (d: Dialect)
    ensures
        d == dialect_in(bits),
{
    if bits & CLAP_NOTE_DIALECT_MIDI != 0 {
        Dialect::Midi
    } else if bits & CLAP_NOTE_DIALECT_CLAP != 0 {
        Dialect::Clap
    } else {
        Dialect::Absent
    }
}

/// Note dialect the plugin's first input note port prefers, or else any that it
/// supports.
pub fn note_dialect(ports: Option<NotePorts>) -> (d: Dialect)
    ensures
        d == match ports {
            None => Dialect::Absent,
            Some(p) => if counted(p.count) == 0 || p.first is None {
                Dialect::Absent
            } else if dialect_in(p.first->0.preferred) != Dialect::Absent {
                dialect_in(p.first->0.preferred)
            } else {
                dialect_in(p.first->0.supported)
            },
        },
        ports is None || ports->0.count is None || ports->0.count == Some(0u32) || ports->0.first
            is None ==> d is Absent,
        ports is Some && ports->0.count is Some && ports->0.count->0 > 0 && ports->0.first is Some
            ==> {
            let preferred = ports->0.first->0.preferred;
            let supported = ports->0.first->0.supported;
            let silent = preferred & 2 == 0 && preferred & 1 == 0;
            &&& preferred & 2 != 0 ==> d is Midi
            &&& preferred & 2 == 0 && preferred & 1 != 0 ==> d is Clap
            &&& silent && supported & 2 != 0 ==> d is Midi
            &&& silent && supported & 2 == 0 && supported & 1 != 0 ==> d is Clap
            &&& silent && supported & 2 == 0 && supported & 1 == 0 ==> d is Absent
        },
{
    let ports = match ports {
        None => return Dialect::Absent,
        Some(p) => p,
    };
    let count: u32 = match ports.count {
        None => 0,
        Some(n) => n,
    };
    if count == 0 {
        return Dialect::Absent;
    }
    match ports.first {
        None => Dialect::Absent,
        Some(port) => match dialect_of(port.preferred) {
            Dialect::Absent => dialect_of(port.supported),
            d => d,
        },
    }
}

/// Flag of parameters that the plugin keeps from the user.
pub const CLAP_PARAM_IS_HIDDEN: u32 = 4;

/// One visible parameter, as the UI and the CLI listing both want it.
pub struct ParamInfo {
    pub id: u32,
    pub name: String,
    pub min: u64,
    pub max: u64,
    pub value: u64,
    /// The plugin's own address for this parameter. Echo it back in parameter
    /// events so the plugin can skip the id lookup.
    pub cookie: u64,
}

/// One parameter as the plugin fills it in; the name ends at its first NUL
/// byte. `value` is what the plugin answers for the current value, if it does.
pub struct RawParam {
    pub id: u32,
    pub flags: u32,
    pub name: Vec<u8>,
    pub min: u64,
    pub max: u64,
    pub value: Option<u64>,
    pub cookie: u64,
}

/// What a plugin says of its parameters: `count`, and `get_info` for every one.
/// A function the plugin lacks answers nothing; `get_info` can fail.
pub struct Params {
    pub count: Option<u32>,
    pub infos: Option<Vec<Option<RawParam>>>,
}

/// Bit pattern of the value shown where the plugin names none: not a number.
pub const NO_VALUE: u64 = 0x7ff8_0000_0000_0000;

/// Whether a parameter is one for the user.
pub open spec fn visible(param: Option<RawParam>) -> bool {
    param is Some && param->0.flags & CLAP_PARAM_IS_HIDDEN == 0
}

/// What is shown of a parameter.
pub open spec fn describes(info: ParamInfo, raw: RawParam) -> bool {
    &&& info.id == raw.id
    &&& info.name@ == crate::text::c_text(raw.name@)
    &&& crate::text::keeps_text(raw.name@, info.name@)
    &&& info.min == raw.min
    &&& info.max == raw.max
    &&& info.cookie == raw.cookie
    &&& info.value == match raw.value {
        Some(v) => v,
        None => NO_VALUE,
    }
}

/// The parameters for the user, in the plugin's order.
pub open spec fn visible_params(infos: Seq<Option<RawParam>>) -> Seq<RawParam>
    decreases infos.len(),
{
    if infos.len() == 0 {
        Seq::empty()
    } else {
        let before = visible_params(infos.drop_last());
        if visible(infos.last()) {
            before.push(infos.last()->0)
        } else {
            before
        }
    }
}

/// The answers to `get_info` for all parameters that the plugin counts; none
/// where it cannot be asked.
pub open spec fn answered(params: Option<Params>) -> Seq<Option<RawParam>> {
    if params is None || params->0.infos is None {
        Seq::empty()
    } else {
        let infos = params->0.infos->0@;
        let n = counted(params->0.count) as int;
        if n <= infos.len() {
            infos.take(n)
        } else {
            infos
        }
    }
}

/// Whether the flags are those of a parameter for the user.
pub fn is_visible(flags: u32) -> (r: bool)
    ensures
        r == (flags & CLAP_PARAM_IS_HIDDEN == 0),
{
    flags & CLAP_PARAM_IS_HIDDEN == 0
}

/// Every non-hidden parameter, with its current value.
pub fn params(ext: &Option<Params>) -> (list: Vec<ParamInfo>)
    ensures
        list@.len() == visible_params(answered(*ext)).len(),
        forall|i: int|
            0 <= i < list@.len() ==> describes(
                #[trigger] list@[i],
                visible_params(answered(*ext))[i],
            ),
{
    let params_ext = match ext {
        Some(p) => p,
        None => return Vec::new(),
    };
    let infos = match &params_ext.infos {
        Some(infos) => infos,
        None => return Vec::new(),
    };
    let count: u32 = match params_ext.count {
        Some(n) => n,
        None => 0,
    };
    let ghost all = answered(*ext);
    let mut list: Vec<ParamInfo> = Vec::new();
    let mut i: usize = 0;
    while i < infos.len() && (i as u64) < count as u64
        invariant
            i <= all.len(),
            all.len() <= infos@.len(),
            all.len() == infos@.len() || all.len() == count,
            all.len() <= count,
            forall|k: int| 0 <= k < all.len() ==> all[k] == infos@[k],
            list@.len() == visible_params(all.take(i as int)).len(),
            forall|k: int|
                0 <= k < list@.len() ==> describes(
                    #[trigger] list@[k],
                    visible_params(all.take(i as int))[k],
                ),
        ensures
            i == all.len(),
        decreases infos@.len() - i,
    {
        assert(all.take(i + 1).drop_last() =~= all.take(i as int));
        assert(all.take(i + 1).last() == infos@[i as int]);
        if let Some(raw) = &infos[i] {
            if is_visible(raw.flags) {
                list.push(
                    ParamInfo {
                        id: raw.id,
                        name: text_of_c(raw.name.as_slice()),
                        min: raw.min,
                        max: raw.max,
                        value: match raw.value {
                            Some(v) => v,
                            None => NO_VALUE,
                        },
                        cookie: raw.cookie,
                    },
                );
            }
        }
        i = i + 1;
    }
    assert(all.take(all.len() as int) =~= all);
    list
}

/// Place of the first parameter with an id; the length where there is none.
pub open spec fn first_with_id(params: Seq<ParamInfo>, id: u32) -> nat
    decreases params.len(),
{
    if params.len() == 0 || params[0].id == id {
        0
    } else {
        1 + first_with_id(params.skip(1), id)
    }
}

/// Where the plugin keeps the parameter with this id; 0 if the host does not
/// know.
pub open spec fn cookie_for(params: Seq<ParamInfo>, id: u32) -> u64 {
    let at = first_with_id(params, id);
    if at < params.len() {
        params[at as int].cookie
    } else {
        0
    }
}

/// Place of the first parameter with an id, if there is one.
pub fn find_param(params: &[ParamInfo], id: u32) -> (at: Option<usize>)
    ensures
        at == if first_with_id(params@, id) < params@.len() {
            Some(first_with_id(params@, id) as usize)
        } else {
            None
        },
        at is Some ==> at->0 < params@.len() && params@[at->0 as int].id == id,
        at is None ==> forall|i: int| 0 <= i < params@.len() ==> (#[trigger] params@[i]).id != id,
{
    let mut i: usize = 0;
    assert(params@.skip(0) =~= params@);
    while i < params.len()
        invariant
            i <= params.len(),
            first_with_id(params@, id) == i + first_with_id(params@.skip(i as int), id),
            forall|k: int| 0 <= k < i ==> (#[trigger] params@[k]).id != id,
        decreases params@.len() - i,
    {
        if params[i].id == id {
            return Some(i);
        }
        assert(params@.skip(i as int).skip(1) =~= params@.skip(i + 1));
        i = i + 1;
    }
    None
}

/// The cookie to send along with an event for a parameter.
pub fn cookie_of(params: &[ParamInfo], id: u32) -> (cookie: u64)
    ensures
        cookie == cookie_for(params@, id),
{
    match find_param(params, id) {
        Some(i) => params[i].cookie,
        None => 0,
    }
}

/// Whether the plugin is to flush with no events, the audio-thread half of
/// `params.request_flush`. `flush` says what it offers: no parameter extension,
/// or one with or without `flush`.
pub fn flush_params(flush: Option<bool>) -> (r: bool)
    ensures
        r == (flush == Some(true)),
{
    match flush {
        Some(has) => has,
        None => false,
    }
}

/// Set one parameter on the deactivated plugin: the events to flush into it.
/// The plugin's own cookie goes along where the host knows it. `flush` says what
/// it offers: no parameter extension, or one with or without `flush`.
pub fn set_param(flush: Option<bool>, params: &[ParamInfo], id: u32, value: u64) -> (r: Result<
    EvList,
    String,
>)
    ensures
        r is Ok <==> flush == Some(true),
        r is Ok ==> r->Ok_0@ == seq![
            crate::events::param_event(id, value, cookie_for(params@, id), 0),
        ],
        flush is None ==> r->Err_0@ == "plugin has no clap.params extension"@,
        flush == Some(false) ==> r->Err_0@ == "clap.params has no flush"@,
{
    match flush {
        None => Err("plugin has no clap.params extension".to_owned()),
        Some(false) => Err("clap.params has no flush".to_owned()),
        Some(true) => {
            let cookie: u64 = cookie_of(params, id);
            let mut evs = EvList::with_capacity(1);
            evs.push_param(id, value, cookie, 0);
            assert(evs@ =~= seq![crate::events::param_event(id, value, cookie, 0)]);
            Ok(evs)
        },
    }
}

/// Current value of one parameter, from what the plugin answered: nothing where
/// it has no `get_value` or that failed.
pub fn param_value(answer: Option<(bool, u64)>) -> (value: Option<u64>)
    ensures
        value == match answer {
            Some((ok, v)) => if ok {
                Some(v)
            } else {
                None
            },
            None => None,
        },
{
    match answer {
        Some((true, v)) => Some(v),
        _ => None,
    }
}

/// The plugin's own formatting for a value ("-6.0 dB"). `answer` is the buffer
/// that the plugin filled in, where it can and did. Falls back to the plain
/// number where it did not, or where no text ends in the buffer.
pub fn param_text(answer: Option<&[u8]>, plain: &str) -> (text: String)
    ensures
        text@ == match answer {
            Some(buf) => if buf@.contains(0u8) {
                crate::text::c_text(buf@)
            } else {
                plain@
            },
            None => plain@,
        },
        answer is Some && answer->0@.contains(0u8) ==> crate::text::keeps_text(answer->0@, text@),
{
    match answer {
        None => plain.to_owned(),
        Some(buf) => {
            if find_nul(buf) < buf.len() {
                text_of_c(buf)
            } else {
                plain.to_owned()
            }
        },
    }
}

/// Address of a plugin instance.
#[derive(Clone, Copy, Debug, PartialEq, Eq, Structural)]
pub struct PluginPtr(pub u64);

/// Law: no hidden parameter is ever listed.
pub proof fn hidden_params_stay_hidden(infos: Seq<Option<RawParam>>)
    ensures
        forall|i: int|
            0 <= i < visible_params(infos).len() ==> (#[trigger] visible_params(infos)[i]).flags
                & CLAP_PARAM_IS_HIDDEN == 0,
        forall|i: int|
            0 <= i < infos.len() && visible(#[trigger] infos[i]) ==> visible_params(
                infos,
            ).contains(infos[i]->0),
    decreases infos.len(),
{
    if infos.len() > 0 {
        let rest = infos.drop_last();
        hidden_params_stay_hidden(rest);
        let list = visible_params(infos);
        let before = visible_params(rest);
        assert forall|i: int| 0 <= i < list.len() implies (#[trigger] list[i]).flags
            & CLAP_PARAM_IS_HIDDEN == 0 by {
            if i < before.len() {
                assert(list[i] == before[i]);
            }
        }
        assert forall|i: int| 0 <= i < infos.len() && visible(#[trigger] infos[i]) implies list
            .contains(infos[i]->0) by {
            if i < rest.len() {
                assert(rest[i] == infos[i]);
                let k = choose|k: int| 0 <= k < before.len() && before[k] == infos[i]->0;
                assert(list[k] == infos[i]->0);
            } else {
                assert(list[list.len() - 1] == infos[i]->0);
            }
        }
    }
}

/// Law: a wanted id is compared byte for byte and to its end. A descriptor with
/// an id matches exactly if the UTF-8 of the wanted id stands in front of the
/// first zero byte of its own, and nothing else does.
pub proof fn ids_match_byte_for_byte(d: Descriptor, want: &str)
    requires
        d.id is Some,
    ensures
        ({
            let id = d.id->0@;
            let bytes = vstd::utf8::encode_utf8(want@);
            matches(Some(d), wanted_bytes(Some(want))) <==> {
                &&& bytes.len() <= id.len()
                &&& forall|k: int| 0 <= k < bytes.len() ==> #[trigger] id[k] == bytes[k] && id[k] != 0
                &&& bytes.len() < id.len() ==> id[bytes.len() as int] == 0
            }
        }),
{
    crate::text::c_strings_are_compared_whole(d.id->0@, vstd::utf8::encode_utf8(want@));
}

/// Law: plugins with different ids never match the same wanted id, so `create`
/// cannot take one for another; and different wanted ids never match the same
/// plugin.
pub proof fn ids_are_told_apart(a: Descriptor, b: Descriptor, want: &str, other: &str)
    requires
        a.id is Some,
        b.id is Some,
    ensures
        matches(Some(a), wanted_bytes(Some(want))) && matches(Some(b), wanted_bytes(Some(want)))
            ==> crate::text::before_nul(a.id->0@) == crate::text::before_nul(b.id->0@),
        matches(Some(a), wanted_bytes(Some(want))) && matches(Some(a), wanted_bytes(Some(other)))
            ==> want@ == other@,
{
    vstd::utf8::encode_utf8_decode_utf8(want@);
    vstd::utf8::encode_utf8_decode_utf8(other@);
}

/// Law: where no id is wanted, every plugin that has one will do; a plugin
/// without an id never does.
pub proof fn any_plugin_will_do(d: Option<Descriptor>, want: Option<&str>)
    ensures
        d is None || d->0.id is None ==> !matches(d, wanted_bytes(want)),
        d is Some && d->0.id is Some ==> matches(d, wanted_bytes(None)),
{
}

/// Law: a sound plugin file opens, step by step, and every fault ends the opening
/// with its message.
pub proof fn sound_files_open(init: bool, get_factory: bool, e: String)
    ensures
        after_reply(OpenReply::Loaded(Ok(()))) == Ok::<OpenCall, Seq<char>>(OpenCall::FindEntry),
        after_reply(OpenReply::Entry(Ok((init, get_factory)))) is Ok <==> init && get_factory,
        init && get_factory ==> after_reply(OpenReply::Entry(Ok((init, get_factory)))) == Ok::<
            OpenCall,
            Seq<char>,
        >(OpenCall::Init),
        after_reply(OpenReply::Started(Ok(true))) == Ok::<OpenCall, Seq<char>>(
            OpenCall::FindFactory,
        ),
        after_reply(OpenReply::Started(Ok(false))) == Err::<OpenCall, Seq<char>>(
            "entry.init returned false"@,
        ),
        after_reply(OpenReply::Factory(true)) == Ok::<OpenCall, Seq<char>>(OpenCall::Done),
        after_reply(OpenReply::Factory(false)) == Err::<OpenCall, Seq<char>>(
            "get_factory: no plugin factory"@,
        ),
        after_reply(OpenReply::Loaded(Err(e))) == Err::<OpenCall, Seq<char>>("dlopen: "@ + e@),
        after_reply(OpenReply::Entry(Err(e))) == Err::<OpenCall, Seq<char>>(
            "clap_entry symbol: "@ + e@,
        ),
        after_reply(OpenReply::Started(Err(e))) == Err::<OpenCall, Seq<char>>(e@),
{
}

/// Law: a plugin is served in MIDI wherever it takes MIDI, in CLAP notes where it
/// takes those and no MIDI, and otherwise not at all.
pub proof fn midi_is_preferred(bits: u32)
    ensures
        dialect_in(bits) is Midi <==> bits & 2 != 0,
        dialect_in(bits) is Clap <==> bits & 2 == 0 && bits & 1 != 0,
        dialect_in(bits) is Absent <==> bits & 2 == 0 && bits & 1 == 0,
{
}

/// Law: a port has the channels that the plugin says, and none where the plugin
/// does not say.
pub proof fn ports_have_their_channels(channels: Seq<Option<u32>>, port: int)
    requires
        0 <= port,
    ensures
        port < channels.len() && channels[port] is Some ==> Some(port_channels(channels, port))
            == channels[port],
        port >= channels.len() || channels[port] is None ==> port_channels(channels, port) == 0,
        counted(None) == 0,
        forall|n: u32| #[trigger] counted(Some(n)) == n,
{
}

/// Law: the user's parameters are the answers of the plugin that are not hidden,
/// each once and in the plugin's order.
pub proof fn visible_params_keep_their_order(infos: Seq<Option<RawParam>>)
    ensures
        visible_params(infos) == infos.filter_map(
            |p: Option<RawParam>|
                match p {
                    Some(raw) => if raw.flags & 4 == 0 {
                        Some(raw)
                    } else {
                        None
                    },
                    None => None,
                },
        ),
    decreases infos.len(),
{
    let shown = |p: Option<RawParam>|
        match p {
            Some(raw) => if raw.flags & 4 == 0 {
                Some(raw)
            } else {
                None
            },
            None => None,
        };
    if infos.len() > 0 {
        visible_params_keep_their_order(infos.drop_last());
    }
    assert(visible_params(infos) =~= infos.filter_map(shown));
}

/// Law: the plugin is asked for as many parameters as it counts.
pub proof fn every_counted_param_is_asked_for(params: Params, i: int)
    requires
        params.infos is Some,
        params.count is Some,
        params.infos->0@.len() >= params.count->0,
        0 <= i < params.count->0,
    ensures
        answered(Some(params)).len() == params.count->0,
        answered(Some(params))[i] == params.infos->0@[i],
{
}

/// Law: a plugin that answers for fewer parameters than it counts is taken at its
/// answers, and one that cannot be asked has none.
pub proof fn missing_answers_are_no_params(params: Params)
    ensures
        answered(None).len() == 0,
        params.infos is None || params.count is None ==> answered(Some(params)).len() == 0,
        params.infos is Some && params.count is Some && params.infos->0@.len() <= params.count->0
            ==> answered(Some(params)) == params.infos->0@,
{
    if params.infos is Some && params.count is Some && params.infos->0@.len() <= params.count->0 {
        assert(answered(Some(params)) =~= params.infos->0@);
    }
}

/// Law: what is shown of a parameter is what the plugin said of it.
pub proof fn params_are_described(info: ParamInfo, raw: RawParam)
    requires
        describes(info, raw),
    ensures
        info.id == raw.id,
        info.min == raw.min,
        info.max == raw.max,
        info.cookie == raw.cookie,
        raw.value is Some ==> info.value == raw.value->0,
        raw.value is None ==> info.value == 0x7ff8_0000_0000_0000,
        info.name@ == crate::text::c_text(raw.name@),
{
}

/// Law: a parameter is found at the first place where its id stands, and its
/// cookie is the one that the plugin gave there.
pub proof fn params_are_found_by_id(params: Seq<ParamInfo>, id: u32, i: int)
    requires
        0 <= i <= params.len(),
        forall|j: int| 0 <= j < i ==> (#[trigger] params[j]).id != id,
        i < params.len() ==> params[i].id == id,
    ensures
        first_with_id(params, id) == i,
        i < params.len() ==> cookie_for(params, id) == params[i].cookie,
        i == params.len() ==> cookie_for(params, id) == 0,
    decreases params.len(),
{
    if i > 0 {
        let rest = params.skip(1);
        assert forall|j: int| 0 <= j < i - 1 implies (#[trigger] rest[j]).id != id by {
            assert(rest[j] == params[j + 1]);
        }
        params_are_found_by_id(rest, id, i - 1);
    }
}

} // verus!
