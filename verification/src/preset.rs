//! Factory presets: listing them through the providers of a plugin file, pulling
//! one into a state file, and handing a preset file to the plugin.

use crate::text::{append_number, quoted, text_of_opt_c};
use vstd::prelude::*;

verus! {

/// Where a preset lies, as plugins are told.
pub const CLAP_PRESET_DISCOVERY_LOCATION_FILE: u32 = 0;

pub const CLAP_PRESET_DISCOVERY_LOCATION_PLUGIN: u32 = 1;

/// Name the host gives itself towards preset providers.
pub const INDEXER_NAME: &'static str = "clap-host-rs";

/// One factory preset as advertised by preset-discovery.
pub struct ListedPreset {
    pub key: String,
    pub name: String,
}

/// Which functions the preset-discovery factory of a plugin file has.
#[derive(Clone, Copy, Debug, PartialEq, Eq, Structural)]
pub struct Discovery {
    pub count: bool,
    pub get_descriptor: bool,
    pub create: bool,
}

/// Why presets cannot be listed, if so.
pub open spec fn list_error(factory: Option<Discovery>) -> Option<Seq<char>> {
    match factory {
        None => Some("no preset-discovery factory (plugin has empty factory_presets?)"@),
        Some(f) => if !f.count {
            Some("discovery.count is null"@)
        } else if !f.get_descriptor {
            Some("discovery.get_descriptor is null"@)
        } else if !f.create {
            Some("discovery.create is null"@)
        } else {
            None
        },
    }
}

/// Enumerate factory presets without a plugin instance: whether that is
/// possible. The listing itself is a [`Listing`].
pub fn list(factory: Option<Discovery>) -> (r: Result<(), String>)
    ensures
        r is Ok <==> list_error(factory) is None,
        r is Err ==> r->Err_0@ == list_error(factory)->0,
{
    match factory {
        None => Err(
            "no preset-discovery factory (plugin has empty factory_presets?)".to_owned(),
        ),
        Some(f) => {
            if !f.count {
                Err("discovery.count is null".to_owned())
            } else if !f.get_descriptor {
                Err("discovery.get_descriptor is null".to_owned())
            } else if !f.create {
                Err("discovery.create is null".to_owned())
            } else {
                Ok(())
            }
        },
    }
}

/// Which functions a preset provider has.
#[derive(Clone, Copy, Debug, PartialEq, Eq, Structural)]
pub struct Provider {
    pub init: bool,
    pub get_metadata: bool,
    pub destroy: bool,
}

/// What the listing waits for.
#[derive(Clone, Copy, Debug, PartialEq, Eq, Structural)]
pub enum ListCall {
    /// Create the provider with the current index.
    Create,
    /// Initialise it.
    Init,
    /// Ask it for its presets.
    GetMetadata,
    /// Destroy it.
    Destroy,
    /// Nothing is left to do.
    Done,
}

/// The answer to a call of the listing.
#[derive(Clone, Copy, Debug, PartialEq, Eq, Structural)]
pub enum ListReply {
    /// The provider, or that there is none: no descriptor, no id, not created.
    Created(Option<Provider>),
    Initialised(bool),
    /// The provider is through; what it answers does not matter.
    Asked,
    Destroyed,
}

/// How far a listing has come.
pub struct ListState {
    pub call: ListCall,
    /// Provider at hand, while there is one.
    pub provider: Option<Provider>,
    /// Index of the next provider to create, and how many there are.
    pub index: nat,
    pub count: nat,
    /// Presets of the provider at hand, and of those before it.
    pub current: Seq<ListedPreset>,
    pub found: Seq<ListedPreset>,
}

impl ListState {
    /// The beginning of a listing over `count` providers.
    pub open spec fn start(count: nat) -> ListState {
        ListState {
            call: if count == 0 {
                ListCall::Done
            } else {
                ListCall::Create
            },
            provider: None,
            index: 0,
            count,
            current: Seq::empty(),
            found: Seq::empty(),
        }
    }

    /// Whether this reply answers the call that is waited for.
    pub open spec fn answered_by(self, reply: ListReply) -> bool {
        match reply {
            ListReply::Created(_) => self.call == ListCall::Create,
            ListReply::Initialised(_) => self.call == ListCall::Init,
            ListReply::Asked => self.call == ListCall::GetMetadata,
            ListReply::Destroyed => self.call == ListCall::Destroy,
        }
    }

    /// The listing is done with one provider.
    pub open spec fn next_provider(self) -> ListState {
        ListState {
            call: if self.index + 1 >= self.count {
                ListCall::Done
            } else {
                ListCall::Create
            },
            provider: None,
            index: self.index + 1,
            current: Seq::empty(),
            found: self.found + self.current,
            ..self
        }
    }

    /// The provider at hand is no longer needed.
    pub open spec fn release(self) -> ListState {
        if self.provider->0.destroy {
            ListState { call: ListCall::Destroy, ..self }
        } else {
            self.next_provider()
        }
    }

    /// The provider at hand is ready to be asked.
    pub open spec fn ready(self) -> ListState {
        if self.provider->0.get_metadata {
            ListState { call: ListCall::GetMetadata, ..self }
        } else {
            self.release()
        }
    }

    /// The listing after an answer.
    pub open spec fn after(self, reply: ListReply) -> ListState {
        match reply {
            ListReply::Created(None) => self.next_provider(),
            ListReply::Created(Some(p)) => {
                let held = ListState { provider: Some(p), ..self };
                if p.init {
                    ListState { call: ListCall::Init, ..held }
                } else {
                    held.ready()
                }
            },
            ListReply::Initialised(ok) => if ok {
                self.ready()
            } else {
                self.release()
            },
            ListReply::Asked => self.release(),
            ListReply::Destroyed => self.next_provider(),
        }
    }

    /// The listing after the provider advertised a preset.
    pub open spec fn with_preset(self, preset: ListedPreset) -> ListState {
        ListState { current: self.current.push(preset), ..self }
    }

    /// A provider is at hand exactly while one of its calls is waited for, and
    /// indices stay in range.
    pub open spec fn wf(self) -> bool {
        &&& self.provider is Some <==> self.call == ListCall::Init || self.call
            == ListCall::GetMetadata || self.call == ListCall::Destroy
        &&& self.call == ListCall::Done <==> self.index >= self.count
        &&& self.index <= self.count
        &&& self.provider is None ==> self.current.len() == 0
        &&& self.call == ListCall::Init ==> self.current.len() == 0
        &&& self.call == ListCall::Destroy ==> self.provider->0.destroy
    }
}

/// A listing of factory presets, one provider after the other.
pub struct Listing {
    call: ListCall,
    provider: Option<Provider>,
    index: u32,
    count: u32,
    current: Vec<ListedPreset>,
    found: Vec<ListedPreset>,
}

impl View for Listing {
    type V = ListState;

    closed spec fn view(&self) -> ListState {
        ListState {
            call: self.call,
            provider: self.provider,
            index: self.index as nat,
            count: self.count as nat,
            current: self.current@,
            found: self.found@,
        }
    }
}

impl Listing {
    /// A listing over the providers that the factory counts.
    pub fn new(count: u32) -> (listing: Listing)
        ensures
            listing@ == ListState::start(count as nat),
            listing@.wf(),
    {
        Listing {
            call: if count == 0 {
                ListCall::Done
            } else {
                ListCall::Create
            },
            provider: None,
            index: 0,
            count,
            current: Vec::new(),
            found: Vec::new(),
        }
    }

    /// What to do next.
    pub fn call(&self) -> (call: ListCall)
        ensures
            call == self@.call,
    {
        self.call
    }

    /// Index of the provider to create.
    pub fn index(&self) -> (index: u32)
        ensures
            index == self@.index,
    {
        self.index
    }

    fn next_provider(&mut self)
        requires
            old(self)@.index < old(self)@.count,
        ensures
            final(self)@ == old(self)@.next_provider(),
    {
        self.provider = None;
        self.index = self.index + 1;
        self.call = if self.index >= self.count {
            ListCall::Done
        } else {
            ListCall::Create
        };
        let mut current: Vec<ListedPreset> = Vec::new();
        std::mem::swap(&mut self.current, &mut current);
        self.found.append(&mut current);
        assert(self@.found =~= old(self)@.found + old(self)@.current);
        assert(self@.current =~= Seq::empty());
    }

    fn release(&mut self, provider: Provider)
        requires
            old(self)@.index < old(self)@.count,
            old(self)@.provider == Some(provider),
        ensures
            final(self)@ == old(self)@.release(),
    {
        if provider.destroy {
            self.call = ListCall::Destroy;
        } else {
            self.next_provider();
        }
    }

    fn ready(&mut self, provider: Provider)
        requires
            old(self)@.index < old(self)@.count,
            old(self)@.provider == Some(provider),
        ensures
            final(self)@ == old(self)@.ready(),
    {
        if provider.get_metadata {
            self.call = ListCall::GetMetadata;
        } else {
            self.release(provider);
        }
    }

    /// Take the answer to the call that was waited for.
    pub fn reply(&mut self, reply: ListReply)
        requires
            old(self)@.wf(),
            old(self)@.answered_by(reply),
        ensures
            final(self)@ == old(self)@.after(reply),
            final(self)@.wf(),
    {
        match reply {
            ListReply::Created(None) => self.next_provider(),
            ListReply::Created(Some(p)) => {
                self.provider = Some(p);
                if p.init {
                    self.call = ListCall::Init;
                } else {
                    self.ready(p);
                }
            },
            ListReply::Initialised(ok) => {
                if let Some(p) = self.provider {
                    if ok {
                        self.ready(p);
                    } else {
                        self.release(p);
                    }
                }
            },
            ListReply::Asked => {
                if let Some(p) = self.provider {
                    self.release(p);
                }
            },
            ListReply::Destroyed => self.next_provider(),
        }
    }

    /// The provider advertises a preset while it is asked. Missing strings are
    /// empty.
    pub fn begin_preset(&mut self, name: Option<&[u8]>, load_key: Option<&[u8]>)
        requires
            old(self)@.wf(),
            old(self)@.call == ListCall::GetMetadata,
        ensures
            final(self)@ == old(self)@.with_preset(final(self)@.current.last()),
            final(self)@.current.last().name@ == crate::text::opt_c_text(
                crate::text::opt_bytes(name),
            ),
            final(self)@.current.last().key@ == crate::text::opt_c_text(
                crate::text::opt_bytes(load_key),
            ),
            crate::text::keeps_opt_text(
                crate::text::opt_bytes(name),
                final(self)@.current.last().name@,
            ),
            crate::text::keeps_opt_text(
                crate::text::opt_bytes(load_key),
                final(self)@.current.last().key@,
            ),
            final(self)@.wf(),
    {
        let preset = ListedPreset { key: text_of_opt_c(load_key), name: text_of_opt_c(name) };
        self.current.push(preset);
    }

    /// All presets, once nothing is left to do.
    pub fn into_presets(self) -> (presets: Vec<ListedPreset>)
        requires
            self@.call == ListCall::Done,
        ensures
            presets@ == self@.found,
    {
        self.found
    }
}

/// What happens during a listing.
pub enum ListEvent {
    Reply(ListReply),
    Preset(ListedPreset),
}

/// The listing after a run of events.
pub open spec fn ran(state: ListState, events: Seq<ListEvent>) -> ListState
    decreases events.len(),
{
    if events.len() == 0 {
        state
    } else {
        let before = ran(state, events.drop_last());
        match events.last() {
            ListEvent::Reply(reply) => before.after(reply),
            ListEvent::Preset(preset) => before.with_preset(preset),
        }
    }
}

/// The runs that can happen: every reply answers the call waited for, and
/// presets come only from a provider that is being asked.
pub open spec fn possible(state: ListState, events: Seq<ListEvent>) -> bool
    decreases events.len(),
{
    events.len() == 0 || {
        let before = ran(state, events.drop_last());
        &&& possible(state, events.drop_last())
        &&& match events.last() {
            ListEvent::Reply(reply) => before.answered_by(reply),
            ListEvent::Preset(_) => before.call == ListCall::GetMetadata,
        }
    }
}

/// How many providers that can be destroyed were created.
pub open spec fn created(events: Seq<ListEvent>) -> nat
    decreases events.len(),
{
    if events.len() == 0 {
        0
    } else {
        created(events.drop_last()) + match events.last() {
            ListEvent::Reply(ListReply::Created(Some(p))) => if p.destroy {
                1
            } else {
                0nat
            },
            _ => 0,
        }
    }
}

/// How many providers were destroyed.
pub open spec fn destroyed(events: Seq<ListEvent>) -> nat
    decreases events.len(),
{
    if events.len() == 0 {
        0
    } else {
        destroyed(events.drop_last()) + match events.last() {
            ListEvent::Reply(ListReply::Destroyed) => 1,
            _ => 0nat,
        }
    }
}

/// How many providers were asked for, created or not.
pub open spec fn asked_for(events: Seq<ListEvent>) -> nat
    decreases events.len(),
{
    if events.len() == 0 {
        0
    } else {
        asked_for(events.drop_last()) + match events.last() {
            ListEvent::Reply(ListReply::Created(_)) => 1,
            _ => 0nat,
        }
    }
}

/// The presets advertised during a run, in order.
pub open spec fn advertised(events: Seq<ListEvent>) -> Seq<ListedPreset>
    decreases events.len(),
{
    if events.len() == 0 {
        Seq::empty()
    } else {
        match events.last() {
            ListEvent::Preset(preset) => advertised(events.drop_last()).push(preset),
            _ => advertised(events.drop_last()),
        }
    }
}

proof fn run_invariant(count: nat, events: Seq<ListEvent>)
    requires
        possible(ListState::start(count), events),
    ensures
        ({
            let end = ran(ListState::start(count), events);
            &&& end.wf()
            &&& end.count == count
            &&& created(events) == destroyed(events) + if end.provider is Some
                && end.provider->0.destroy {
                1
            } else {
                0nat
            }
            &&& advertised(events) == end.found + end.current
            &&& asked_for(events) == end.index + if end.provider is Some {
                1
            } else {
                0nat
            }
        }),
    decreases events.len(),
{
    let start = ListState::start(count);
    let end = ran(start, events);
    if events.len() > 0 {
        run_invariant(count, events.drop_last());
        let before = ran(start, events.drop_last());
        match events.last() {
            ListEvent::Preset(preset) => {
                assert((before.found + before.current).push(preset) =~= before.found
                    + before.current.push(preset));
            },
            ListEvent::Reply(reply) => {
                assert(before.found + before.current + Seq::<ListedPreset>::empty()
                    =~= before.found + before.current);
            },
        }
    }
    assert(advertised(events) =~= end.found + end.current);
}

/// Law: every provider that was created and can be destroyed is destroyed, once,
/// before the next one is created and before the listing ends, whether or not
/// it could be initialised.
pub proof fn every_provider_is_destroyed(count: nat, events: Seq<ListEvent>)
    requires
        possible(ListState::start(count), events),
    ensures
        ({
            let end = ran(ListState::start(count), events);
            &&& destroyed(events) <= created(events) <= destroyed(events) + 1
            &&& end.call == ListCall::Create || end.call == ListCall::Done ==> created(events)
                == destroyed(events)
        }),
{
    run_invariant(count, events);
}

/// Law: a finished listing asked for every provider once and holds every preset
/// that was advertised, in order.
pub proof fn finished_listings_are_complete(count: nat, events: Seq<ListEvent>)
    requires
        possible(ListState::start(count), events),
        ran(ListState::start(count), events).call == ListCall::Done,
    ensures
        ran(ListState::start(count), events).found == advertised(events),
        asked_for(events) == count,
{
    run_invariant(count, events);
    let end = ran(ListState::start(count), events);
    assert(end.found + end.current =~= end.found);
}

/// What a plugin is asked to load: a location of a kind, and a key in it.
pub struct LoadRequest {
    pub kind: u32,
    pub location: Option<String>,
    pub load_key: Option<String>,
}

/// Why a plugin cannot be asked to load presets, if so. `from_location` says
/// what it offers: no preset-load extension, or one with or without the
/// function.
pub open spec fn no_preset_load(from_location: Option<bool>) -> Option<Seq<char>> {
    match from_location {
        None => Some("plugin has no clap.preset-load"@),
        Some(false) => Some("preset-load.from_location is null"@),
        Some(true) => None,
    }
}

/// Load factory preset `key`: the request to the plugin.
pub fn pull(from_location: Option<bool>, key: &str) -> (r: Result<LoadRequest, String>)
    ensures
        r is Ok <==> no_preset_load(from_location) is None,
        r is Err ==> r->Err_0@ == no_preset_load(from_location)->0,
        r is Ok ==> {
            &&& r->Ok_0.kind == CLAP_PRESET_DISCOVERY_LOCATION_PLUGIN
            &&& r->Ok_0.location is None
            &&& r->Ok_0.load_key is Some
            &&& r->Ok_0.load_key->0@ == key@
        },
{
    match from_location {
        None => Err("plugin has no clap.preset-load".to_owned()),
        Some(false) => Err("preset-load.from_location is null".to_owned()),
        Some(true) => Ok(
            LoadRequest {
                kind: CLAP_PRESET_DISCOVERY_LOCATION_PLUGIN,
                location: None,
                load_key: Some(key.to_owned()),
            },
        ),
    }
}

/// Answers of the outside world once a pull was asked for.
pub enum PullReply {
    /// The plugin's answer to the request, or why it cannot be passed on.
    Loaded(Result<bool, String>),
    /// What the plugin offers to save its state with: no state extension, or
    /// one with or without `save`.
    State(Option<bool>),
    /// The plugin's answer to `save`, and how many bytes it wrote.
    Saved { answer: bool, size: usize },
    /// The directory of the file exists now, or why not.
    DirMade(Result<(), String>),
    /// The file was written, or why not.
    Written(Result<(), String>),
}

/// The next step of a pull.
#[derive(Clone, Copy, Debug, PartialEq, Eq, Structural)]
pub enum PullCall {
    AskState,
    Save,
    MakeDir,
    Write,
    Done,
}

/// What a pull of `key` into the file `out` does after a reply. `in_dir` says
/// whether `out` names a directory to lie in.
pub open spec fn after_pull_reply(
    key: Seq<char>,
    out: Seq<char>,
    in_dir: bool,
    reply: PullReply,
) -> Result<PullCall, Seq<char>> {
    match reply {
        PullReply::Loaded(Err(e)) => Err(e@),
        PullReply::Loaded(Ok(loaded)) => if loaded {
            Ok(PullCall::AskState)
        } else {
            Err("preset-load failed for key "@ + crate::text::quoted_text(key))
        },
        PullReply::State(None) => Err("plugin has no clap.state"@),
        PullReply::State(Some(save)) => if save {
            Ok(PullCall::Save)
        } else {
            Err("clap.state.save is null"@)
        },
        PullReply::Saved { answer, size } => if !answer {
            Err("clap.state.save returned false"@)
        } else if size == 0 {
            Err("state blob is empty"@)
        } else if in_dir {
            Ok(PullCall::MakeDir)
        } else {
            Ok(PullCall::Write)
        },
        PullReply::DirMade(Ok(())) => Ok(PullCall::Write),
        PullReply::DirMade(Err(e)) => Err("create dir: "@ + e@),
        PullReply::Written(Ok(())) => Ok(PullCall::Done),
        PullReply::Written(Err(e)) => Err("write "@ + out + ": "@ + e@),
    }
}

/// A step of a pull, after the request to load the preset.
pub fn pull_step(key: &str, out: &str, in_dir: bool, reply: PullReply) -> (next: Result<
    PullCall,
    String,
>)
    ensures
        next is Ok <==> after_pull_reply(key@, out@, in_dir, reply) is Ok,
        next is Ok ==> next->Ok_0 == after_pull_reply(key@, out@, in_dir, reply)->Ok_0,
        next is Err ==> next->Err_0@ == after_pull_reply(key@, out@, in_dir, reply)->Err_0,
{
    match reply {
        PullReply::Loaded(Err(e)) => Err(e),
        PullReply::Loaded(Ok(loaded)) => {
            if loaded {
                Ok(PullCall::AskState)
            } else {
                let mut text = "preset-load failed for key ".to_owned();
                text.append(quoted(key).as_str());
                Err(text)
            }
        },
        PullReply::State(None) => Err("plugin has no clap.state".to_owned()),
        PullReply::State(Some(save)) => {
            if save {
                Ok(PullCall::Save)
            } else {
                Err("clap.state.save is null".to_owned())
            }
        },
        PullReply::Saved { answer, size } => {
            if !answer {
                Err("clap.state.save returned false".to_owned())
            } else if size == 0 {
                Err("state blob is empty".to_owned())
            } else if in_dir {
                Ok(PullCall::MakeDir)
            } else {
                Ok(PullCall::Write)
            }
        },
        PullReply::DirMade(Ok(())) => Ok(PullCall::Write),
        PullReply::DirMade(Err(e)) => {
            let mut text = "create dir: ".to_owned();
            text.append(e.as_str());
            Err(text)
        },
        PullReply::Written(Ok(())) => Ok(PullCall::Done),
        PullReply::Written(Err(e)) => {
            let mut text = "write ".to_owned();
            text.append(out);
            text.append(": ");
            text.append(e.as_str());
            Err(text)
        },
    }
}

/// The reply that answers a step of a pull; before the first step it is that to
/// the request.
pub open spec fn pull_answers(reply: PullReply, call: Option<PullCall>) -> bool {
    match reply {
        PullReply::Loaded(_) => call is None,
        PullReply::State(_) => call == Some(PullCall::AskState),
        PullReply::Saved { .. } => call == Some(PullCall::Save),
        PullReply::DirMade(_) => call == Some(PullCall::MakeDir),
        PullReply::Written(_) => call == Some(PullCall::Write),
    }
}

/// A run of replies that a pull can get: each answers the step that the reply
/// before led to.
pub open spec fn pull_conversation(
    key: Seq<char>,
    out: Seq<char>,
    in_dir: bool,
    replies: Seq<PullReply>,
) -> bool {
    &&& replies.len() > 0 ==> pull_answers(replies[0], None)
    &&& forall|i: int|
        0 < i < replies.len() ==> {
            &&& after_pull_reply(key, out, in_dir, replies[i - 1]) is Ok
            &&& pull_answers(
                #[trigger] replies[i],
                Some(after_pull_reply(key, out, in_dir, replies[i - 1])->Ok_0),
            )
        }
}

/// Law: a file is written only with a state that the plugin saved after it
/// loaded the preset, and never an empty one.
pub proof fn pulled_files_hold_a_state(
    key: Seq<char>,
    out: Seq<char>,
    in_dir: bool,
    replies: Seq<PullReply>,
)
    requires
        pull_conversation(key, out, in_dir, replies),
        replies.len() > 0,
        replies.last() is Written,
    ensures
        replies.len() == if in_dir {
            5nat
        } else {
            4nat
        },
        replies[0] matches PullReply::Loaded(Ok(loaded)) && loaded,
        replies[1] == PullReply::State(Some(true)),
        replies[2] matches PullReply::Saved { answer, size } && answer && size > 0,
{
    let n = replies.len() as int;
    if n > 1 {
        assert(pull_answers(
            replies[1],
            Some(after_pull_reply(key, out, in_dir, replies[0])->Ok_0),
        ));
    }
    if n > 2 {
        assert(pull_answers(
            replies[2],
            Some(after_pull_reply(key, out, in_dir, replies[1])->Ok_0),
        ));
    }
    if n > 3 {
        assert(pull_answers(
            replies[3],
            Some(after_pull_reply(key, out, in_dir, replies[2])->Ok_0),
        ));
    }
    if n > 4 {
        assert(pull_answers(
            replies[4],
            Some(after_pull_reply(key, out, in_dir, replies[3])->Ok_0),
        ));
    }
    if n > 5 {
        assert(pull_answers(
            replies[5],
            Some(after_pull_reply(key, out, in_dir, replies[4])->Ok_0),
        ));
    }
}

/// What is printed of a finished pull.
pub fn pulled_line(size: u64, out: &str, key: &str) -> (line: String)
    ensures
        line@ == "wrote "@ + crate::text::decimal(size as nat) + " bytes → "@ + out@ + " (key="@
            + key@ + ")"@,
{
    let mut line = "wrote ".to_owned();
    append_number(&mut line, size);
    line.append(" bytes → ");
    line.append(out);
    line.append(" (key=");
    line.append(key);
    line.append(")");
    line
}

/// Address of the preset-load extension to ask: under its name or else under its
/// draft name.
pub fn preset_ext(current: Option<u64>, draft: Option<u64>) -> (ext: Option<u64>)
    ensures
        ext == if current is Some {
            current
        } else {
            draft
        },
{
    match current {
        Some(_) => current,
        None => draft,
    }
}

/// Does the plugin implement preset loading, under its name or its draft name?
/// A pull asks under the final name only; some plugins still answer to the
/// draft.
pub fn load_file_available(current: Option<u64>, draft: Option<u64>) -> (r: bool)
    ensures
        r == (current is Some || draft is Some),
{
    preset_ext(current, draft).is_some()
}

/// Ask the plugin to load a preset file, for formats only the plugin itself
/// understands: the request. The host hands over a path, and the plugin applies
/// the preset in place.
pub fn load_file(from_location: Option<bool>, path: &str) -> (r: Result<LoadRequest, String>)
    ensures
        r is Ok <==> no_preset_load(from_location) is None,
        r is Err ==> r->Err_0@ == no_preset_load(from_location)->0,
        r is Ok ==> {
            &&& r->Ok_0.kind == CLAP_PRESET_DISCOVERY_LOCATION_FILE
            &&& r->Ok_0.location is Some
            &&& r->Ok_0.location->0@ == path@
            &&& r->Ok_0.load_key is None
        },
{
    match from_location {
        None => Err("plugin has no clap.preset-load".to_owned()),
        Some(false) => Err("preset-load.from_location is null".to_owned()),
        Some(true) => Ok(
            LoadRequest {
                kind: CLAP_PRESET_DISCOVERY_LOCATION_FILE,
                location: Some(path.to_owned()),
                load_key: None,
            },
        ),
    }
}

/// The plugin answered the request to load a preset file, or the path could not
/// be passed on.
pub fn file_loaded(path: &str, answer: Result<bool, String>) -> (r: Result<(), String>)
    ensures
        r is Ok <==> answer == Ok::<bool, String>(true),
        answer is Err ==> r->Err_0@ == answer->Err_0@,
        answer == Ok::<bool, String>(false) ==> r->Err_0@ == "preset-load rejected "@ + path@,
{
    match answer {
        Err(e) => Err(e),
        Ok(true) => Ok(()),
        Ok(false) => {
            let mut text = "preset-load rejected ".to_owned();
            text.append(path);
            Err(text)
        },
    }
}

/// Law: a provider that can be asked is asked: one that needs no initialisation at
/// once, another after it was initialised, and never one that could not be.
pub proof fn sound_providers_are_asked(state: ListState, p: Provider)
    ensures
        ({
            let held = state.after(ListReply::Created(Some(p)));
            &&& p.init ==> held.call is Init && held.provider == Some(p)
            &&& !p.init && p.get_metadata ==> held.call is GetMetadata && held.provider == Some(p)
            &&& !p.init && !p.get_metadata && p.destroy ==> held.call is Destroy
            &&& held.call is Init || held.call is GetMetadata ==> held.index == state.index
                && held.found == state.found && held.current == state.current
        }),
        state.provider == Some(p) && p.get_metadata ==> state.after(
            ListReply::Initialised(true),
        ).call is GetMetadata,
        state.provider == Some(p) ==> !(state.after(ListReply::Initialised(false)).call is
            GetMetadata),
{
}

/// Law: a provider that is done with, whatever became of it, is destroyed where it
/// can be, and then the next one is taken. Its presets are kept, behind those of
/// the providers before it, and the listing ends after the last one.
pub proof fn listings_go_on(state: ListState, p: Provider, preset: ListedPreset)
    ensures
        state.provider == Some(p) && p.destroy ==> state.after(ListReply::Asked).call is Destroy
            && state.after(ListReply::Initialised(false)).call is Destroy && state.after(
            ListReply::Asked,
        ).current == state.current && state.after(ListReply::Asked).found == state.found,
        ({
            let next = state.after(ListReply::Destroyed);
            &&& next.index == state.index + 1
            &&& next.found == state.found + state.current
            &&& next.current.len() == 0
            &&& next.provider is None
            &&& next.call is Done <==> state.index + 1 >= state.count
            &&& next.call is Create <==> state.index + 1 < state.count
            &&& state.after(ListReply::Created(None)) == next
            &&& state.provider == Some(p) && !p.destroy ==> state.after(ListReply::Asked) == next
        }),
        state.with_preset(preset).current == state.current.push(preset),
        state.with_preset(preset).found == state.found,
        state.with_preset(preset).call == state.call,
        ListState::start(state.count).call is Done <==> state.count == 0,
        ListState::start(state.count).index == 0,
        ListState::start(state.count).found.len() == 0,
{
}

/// Law: presets can be listed exactly where the file has a factory with all three
/// functions.
pub proof fn complete_factories_are_listed(f: Discovery)
    ensures
        list_error(Some(f)) is None <==> f.count && f.get_descriptor && f.create,
        list_error(None) == Some("no preset-discovery factory (plugin has empty factory_presets?)"@),
        !f.count ==> list_error(Some(f)) == Some("discovery.count is null"@),
{
}

/// Law: a plugin can be asked to load presets exactly where it has the extension
/// and its function.
pub proof fn presets_need_the_function(from_location: Option<bool>)
    ensures
        no_preset_load(from_location) is None <==> from_location == Some(true),
        no_preset_load(None) == Some("plugin has no clap.preset-load"@),
        no_preset_load(Some(false)) == Some("preset-load.from_location is null"@),
{
    match from_location {
        Some(true) => {},
        Some(false) => {},
        None => {},
    }
}

/// Law: a pull without faults writes the file: once the preset is loaded and the
/// state was saved, in its directory where it has one. Every fault ends it, with
/// its message.
pub proof fn sound_pulls_write_the_file(
    key: Seq<char>,
    out: Seq<char>,
    in_dir: bool,
    size: usize,
    e: String,
)
    ensures
        after_pull_reply(key, out, in_dir, PullReply::Loaded(Ok(true))) == Ok::<
            PullCall,
            Seq<char>,
        >(PullCall::AskState),
        after_pull_reply(key, out, in_dir, PullReply::State(Some(true))) == Ok::<
            PullCall,
            Seq<char>,
        >(PullCall::Save),
        size > 0 ==> after_pull_reply(
            key,
            out,
            in_dir,
            PullReply::Saved { answer: true, size },
        ) == Ok::<PullCall, Seq<char>>(
            if in_dir {
                PullCall::MakeDir
            } else {
                PullCall::Write
            },
        ),
        after_pull_reply(key, out, in_dir, PullReply::DirMade(Ok(()))) == Ok::<PullCall, Seq<char>>(
            PullCall::Write,
        ),
        after_pull_reply(key, out, in_dir, PullReply::Written(Ok(()))) == Ok::<PullCall, Seq<char>>(
            PullCall::Done,
        ),
        after_pull_reply(key, out, in_dir, PullReply::Loaded(Ok(false))) == Err::<
            PullCall,
            Seq<char>,
        >("preset-load failed for key "@ + crate::text::quoted_text(key)),
        after_pull_reply(key, out, in_dir, PullReply::Loaded(Err(e))) == Err::<PullCall, Seq<char>>(
            e@,
        ),
        after_pull_reply(key, out, in_dir, PullReply::State(None)) is Err,
        after_pull_reply(key, out, in_dir, PullReply::State(Some(false))) is Err,
        after_pull_reply(key, out, in_dir, PullReply::Saved { answer: false, size }) is Err,
        after_pull_reply(key, out, in_dir, PullReply::Saved { answer: true, size: 0 }) is Err,
        after_pull_reply(key, out, in_dir, PullReply::DirMade(Err(e))) == Err::<
            PullCall,
            Seq<char>,
        >("create dir: "@ + e@),
        after_pull_reply(key, out, in_dir, PullReply::Written(Err(e))) == Err::<
            PullCall,
            Seq<char>,
        >("write "@ + out + ": "@ + e@),
{
}

} // verus!
