//! What the window of the host decides: paging of remote controls, where
//! parameter changes and notes go, when and how the plugin's own window is
//! shown, and what a poll of the plugin's signals asks for.

use crate::events::UiEvent;
use crate::host::{
    take_gui_closed, take_gui_hide_requested, take_gui_show_requested, take_params_dirty,
    take_preset_load_error, take_preset_loaded, take_remote_controls_dirty, take_requested_resize,
    take_restart_request, take_state_dirty, HostFlags,
};
use crate::loader::{find_param, ParamInfo};
use crate::queue::Queue;
use crate::remote_controls::PageInfo;
use crate::text::{contains, joined_texts, lowercase, quoted};
use crate::win32_embed::Extent;
use vstd::prelude::*;

verus! {

/// How often the window re-reads parameter values and runs the plugin's
/// main-thread work.
pub const POLL_MS: u64 = 50;

/// Where the embedded plugin socket sits in the window's client area, in
/// physical pixels.
pub const EMBED_X: u32 = 16;

pub const EMBED_Y: u32 = 480;

/// Room around an embedded editor.
pub const EMBED_MARGIN: u32 = 16;

/// Velocity of notes played on the computer keyboard.
pub const KEY_VELOCITY: u8 = 100;

pub const NOTE_ON: u8 = 0x90;

pub const NOTE_OFF: u8 = 0x80;

/// The remote-controls page at hand, and how many there are.
#[derive(Clone, Copy, Debug, PartialEq, Eq, Structural)]
pub struct Paging {
    pub page: usize,
    pub count: usize,
}

impl Paging {
    /// The page at hand exists, or there are none and it is the first.
    pub open spec fn wf(self) -> bool {
        self.page < self.count || (self.page == 0 && self.count == 0)
    }

    /// One page back, as long as there is one.
    pub open spec fn back(self) -> Paging {
        Paging {
            page: if self.page > 0 {
                (self.page - 1) as usize
            } else {
                0
            },
            ..self
        }
    }

    /// One page on, as long as there is one.
    pub open spec fn on(self) -> Paging {
        Paging {
            page: if self.page + 1 < self.count {
                (self.page + 1) as usize
            } else {
                self.page
            },
            ..self
        }
    }

    /// The plugin has `count` pages now: the page at hand stays, or becomes the
    /// last one.
    pub open spec fn refreshed(self, count: usize) -> Paging {
        Paging {
            page: if self.page < count {
                self.page
            } else if count > 0 {
                (count - 1) as usize
            } else {
                0
            },
            count,
        }
    }

    /// The first of `count` pages.
    pub fn new(count: usize) -> (paging: Paging)
        ensures
            paging == (Paging { page: 0, count }),
            paging.wf(),
    {
        Paging { page: 0, count }
    }

    pub fn prev(&mut self)
        ensures
            *final(self) == old(self).back(),
    {
        if self.page > 0 {
            self.page = self.page - 1;
        }
    }

    pub fn next(&mut self)
        ensures
            *final(self) == old(self).on(),
    {
        if self.count > 0 && self.page < self.count - 1 {
            self.page = self.page + 1;
        }
    }

    pub fn refresh(&mut self, count: usize)
        ensures
            *final(self) == old(self).refreshed(count),
    {
        self.count = count;
        if self.page >= count {
            self.page = if count > 0 {
                count - 1
            } else {
                0
            };
        }
    }
}

/// Law: paging never leaves the pages there are, whether the user pages or the
/// plugin changes its pages.
pub proof fn paging_stays_in_range(paging: Paging, count: usize)
    requires
        paging.wf(),
    ensures
        paging.back().wf(),
        paging.on().wf(),
        paging.refreshed(count).wf(),
{
}

/// Law: a page on and a page back undo each other, except at the ends.
pub proof fn paging_back_returns(paging: Paging)
    requires
        paging.wf(),
    ensures
        paging.page + 1 < paging.count ==> paging.on().back() == paging,
        paging.page > 0 ==> paging.back().on() == paging,
{
}

/// What the page header shows.
pub struct NavInfo {
    pub name: String,
    pub page: usize,
    pub count: usize,
}

/// Page name and indices for the header; page and count are 0 where there is no
/// page.
pub fn remote_nav(pages: &Vec<PageInfo>, page: usize) -> (nav: NavInfo)
    ensures
        page < pages@.len() ==> {
            &&& nav.name@ == pages@[page as int].name@
            &&& nav.page == page
            &&& nav.count == pages@.len()
        },
        page >= pages@.len() ==> nav.name@.len() == 0 && nav.page == 0 && nav.count == 0,
{
    if page < pages.len() {
        NavInfo { name: pages[page].name.as_str().to_owned(), page, count: pages.len() }
    } else {
        NavInfo { name: String::new(), page: 0, count: 0 }
    }
}

/// The places in the parameter list of the parameters with these ids, in order;
/// ids that are not in the list are left out.
pub open spec fn rows_of(params: Seq<ParamInfo>, ids: Seq<u32>) -> Seq<usize>
    decreases ids.len(),
{
    if ids.len() == 0 {
        Seq::empty()
    } else {
        let before = rows_of(params, ids.drop_last());
        let at = crate::loader::first_with_id(params, ids.last());
        if at < params.len() {
            before.push(at as usize)
        } else {
            before
        }
    }
}

/// The rows of the current remote-controls page, as places in the parameter
/// list. Parameters that the plugin did not expose in its regular list are
/// skipped.
pub fn remote_rows(params: &Vec<ParamInfo>, pages: &Vec<PageInfo>, page: usize) -> (rows: Vec<
    usize,
>)
    ensures
        page >= pages@.len() ==> rows@.len() == 0,
        page < pages@.len() ==> rows@ == rows_of(params@, pages@[page as int].params@),
        forall|k: int| 0 <= k < rows@.len() ==> #[trigger] rows@[k] < params@.len(),
{
    let mut rows: Vec<usize> = Vec::new();
    if page >= pages.len() {
        return rows;
    }
    let ids = &pages[page].params;
    let mut i: usize = 0;
    assert(rows_of(params@, ids@.take(0)) =~= Seq::empty());
    while i < ids.len()
        invariant
            i <= ids@.len(),
            rows@ == rows_of(params@, ids@.take(i as int)),
            forall|k: int| 0 <= k < rows@.len() ==> #[trigger] rows@[k] < params@.len(),
        decreases ids@.len() - i,
    {
        assert(ids@.take(i + 1).drop_last() =~= ids@.take(i as int));
        if let Some(at) = find_param(params.as_slice(), ids[i]) {
            rows.push(at);
        }
        i = i + 1;
    }
    assert(ids@.take(ids@.len() as int) =~= ids@);
    rows
}

/// Whether a parameter is one that the user filters for: its name contains the
/// text, whatever the case.
pub open spec fn param_matches(param: ParamInfo, filter: Seq<char>) -> bool {
    crate::text::occurs(crate::text::lowercased(filter), crate::text::lowercased(param.name@))
}

/// The places of the parameters that pass the filter, in order.
pub open spec fn matching_params(params: Seq<ParamInfo>, filter: Seq<char>) -> Seq<usize>
    decreases params.len(),
{
    if params.len() == 0 {
        Seq::empty()
    } else {
        let before = matching_params(params.drop_last(), filter);
        if param_matches(params.last(), filter) {
            before.push((params.len() - 1) as usize)
        } else {
            before
        }
    }
}

/// The rows of the filtered parameter list, as places in the parameter list.
pub fn filter_params(params: &Vec<ParamInfo>, filter: &str) -> (rows: Vec<usize>)
    ensures
        rows@ == matching_params(params@, filter@),
        forall|k: int| 0 <= k < rows@.len() ==> #[trigger] rows@[k] < params@.len(),
{
    let needle = lowercase(filter);
    let mut rows: Vec<usize> = Vec::new();
    let mut i: usize = 0;
    assert(matching_params(params@.take(0), filter@) =~= Seq::empty());
    while i < params.len()
        invariant
            i <= params@.len(),
            needle@ == crate::text::lowercased(filter@),
            rows@ == matching_params(params@.take(i as int), filter@),
            forall|k: int| 0 <= k < rows@.len() ==> #[trigger] rows@[k] < i,
        decreases params@.len() - i,
    {
        assert(params@.take(i + 1).drop_last() =~= params@.take(i as int));
        if contains(lowercase(params[i].name.as_str()).as_str(), needle.as_str()) {
            rows.push(i);
        }
        i = i + 1;
    }
    assert(params@.take(params@.len() as int) =~= params@);
    rows
}

/// How a list of rows on the screen is brought up to date.
pub enum RowUpdate {
    /// The number of rows changed: replace them all.
    Replace,
    /// Set the rows at these places.
    Rows(Vec<usize>),
}

/// The places of the rows that differ.
pub open spec fn differing(same: Seq<bool>) -> Seq<usize>
    decreases same.len(),
{
    if same.len() == 0 {
        Seq::empty()
    } else {
        let before = differing(same.drop_last());
        if same.last() {
            before
        } else {
            before.push((same.len() - 1) as usize)
        }
    }
}

/// Bring `shown` rows up to date with new ones; `same` says of each new row
/// whether the one shown at its place is equal.
pub fn row_update(shown: usize, same: &Vec<bool>) -> (update: RowUpdate)
    ensures
        update is Replace <==> shown != same@.len(),
        update matches RowUpdate::Rows(rows) ==> rows@ == differing(same@),
{
    if shown != same.len() {
        return RowUpdate::Replace;
    }
    let mut rows: Vec<usize> = Vec::new();
    let mut i: usize = 0;
    assert(differing(same@.take(0)) =~= Seq::empty());
    while i < same.len()
        invariant
            i <= same.len(),
            rows@ == differing(same@.take(i as int)),
        decreases same.len() - i,
    {
        assert(same@.take(i + 1).drop_last() =~= same@.take(i as int));
        if !same[i] {
            rows.push(i);
        }
        i = i + 1;
    }
    assert(same@.take(same@.len() as int) =~= same@);
    RowUpdate::Rows(rows)
}

/// A slider moved. While a stream runs the audio thread applies it: it is queued
/// then, and dropped where the queue is full. Otherwise the caller sets the
/// parameter directly, which the result asks for.
pub fn param_changed(ui_q: &mut Queue<UiEvent>, running: bool, id: u32, value: u64) -> (direct:
    bool)
    requires
        old(ui_q).wf(),
    ensures
        direct == !running,
        final(ui_q).wf(),
        final(ui_q).capacity() == old(ui_q).capacity(),
        final(ui_q)@ == if running {
            crate::queue::pushed(
                old(ui_q)@,
                seq![UiEvent::Param { id, value }],
                old(ui_q).capacity(),
            )
        } else {
            old(ui_q)@
        },
{
    if running {
        let _ = ui_q.push(UiEvent::Param { id, value });
        false
    } else {
        true
    }
}

/// The message for a key of the computer keyboard; nothing for keys beyond those
/// of MIDI.
pub open spec fn note_message(status: u8, key: i32) -> Option<[u8; 3]> {
    if 0 <= key <= 127 {
        Some([status, key as u8, if status == NOTE_ON {
            KEY_VELOCITY
        } else {
            0
        }])
    } else {
        None
    }
}

/// A key of the computer keyboard was pressed or released.
pub fn push_note(ui_q: &mut Queue<UiEvent>, status: u8, key: i32)
    requires
        old(ui_q).wf(),
    ensures
        final(ui_q).wf(),
        final(ui_q).capacity() == old(ui_q).capacity(),
        final(ui_q)@ == match note_message(status, key) {
            Some(msg) => crate::queue::pushed(
                old(ui_q)@,
                seq![UiEvent::Midi(msg)],
                old(ui_q).capacity(),
            ),
            None => old(ui_q)@,
        },
{
    if key < 0 || key > 127 {
        return;
    }
    let velocity: u8 = if status == NOTE_ON {
        KEY_VELOCITY
    } else {
        0
    };
    let _ = ui_q.push(UiEvent::Midi([status, key as u8, velocity]));
}

/// Where the state of a plugin is kept: next to the plugin file, with a suffix.
pub fn state_path(plugin_path: &str) -> (path: String)
    ensures
        path@ == plugin_path@ + ".state.bin"@,
{
    joined_texts(plugin_path, ".state.bin")
}

/// Whether a port is one that the user asked for: its name contains the text,
/// whatever the case.
pub open spec fn port_matches(port: Seq<char>, want: Seq<char>) -> bool {
    crate::text::occurs(crate::text::lowercased(want), crate::text::lowercased(port))
}

/// The first MIDI port that the user asked for, or the status to show.
pub fn pick_port(ports: &Vec<String>, want: &str) -> (r: Result<usize, String>)
    ensures
        r is Ok <==> exists|i: int|
            0 <= i < ports@.len() && port_matches((#[trigger] ports@[i])@, want@),
        r is Ok ==> {
            &&& r->Ok_0 < ports@.len()
            &&& port_matches(ports@[r->Ok_0 as int]@, want@)
            &&& forall|i: int| 0 <= i < r->Ok_0 ==> !port_matches((#[trigger] ports@[i])@, want@)
        },
        r is Err ==> r->Err_0@ == "no port matching "@ + crate::text::quoted_text(want@),
{
    let needle = lowercase(want);
    let mut i: usize = 0;
    while i < ports.len()
        invariant
            i <= ports@.len(),
            needle@ == crate::text::lowercased(want@),
            forall|k: int| 0 <= k < i ==> !port_matches((#[trigger] ports@[k])@, want@),
        decreases ports@.len() - i,
    {
        if contains(lowercase(ports[i].as_str()).as_str(), needle.as_str()) {
            return Ok(i);
        }
        i = i + 1;
    }
    Err(joined_texts("no port matching ", quoted(want).as_str()))
}

/// The MIDI port of a row of the list on the screen; row 0 is none.
pub fn port_of_row(row: i32, ports: usize) -> (port: Option<usize>)
    ensures
        port == if 1 <= row && row <= ports {
            Some((row - 1) as usize)
        } else {
            None
        },
{
    if row >= 1 && (row as u64) <= ports as u64 {
        Some((row - 1) as usize)
    } else {
        None
    }
}

/// What the status line says of MIDI.
pub fn midi_status(port: Option<&str>, opened: Result<(), String>) -> (text: String)
    ensures
        text@ == match port {
            None => "no MIDI input"@,
            Some(name) => match opened {
                Ok(_) => "listening on "@ + name@,
                Err(e) => e@,
            },
        },
{
    match port {
        None => "no MIDI input".to_owned(),
        Some(name) => match opened {
            Ok(()) => joined_texts("listening on ", name),
            Err(e) => e,
        },
    }
}

/// What the status line says of audio that could not be started.
pub fn stopped_status(error: &str) -> (text: String)
    ensures
        text@ == "stopped — "@ + error@,
{
    joined_texts("stopped — ", error)
}

/// What became of the plugin's window so far, once the user toggled it.
pub enum ToggleReply {
    /// Whether it was open before.
    WasOpen(bool),
    /// The floating window was opened, or why not, and whether the editor can be
    /// embedded instead: where the system has no embedding, or else whether
    /// plugin and window can.
    Floated(Result<(), (String, Embedding)>),
    /// The editor was embedded, or why not, after floating failed for the first
    /// reason.
    Embedded(Result<(), (String, String)>),
}

/// Whether an editor can be embedded.
#[derive(Clone, Copy, Debug, PartialEq, Eq, Structural)]
pub enum Embedding {
    /// The system has no embedding.
    Unavailable,
    /// It has, but plugin or window do not support it.
    Refused,
    Possible,
}

/// What toggling the plugin's window does next.
pub enum ToggleCall {
    /// Close the window that is open.
    Close,
    OpenFloating,
    /// Embed the editor; the reason why it cannot float goes along.
    Embed(String),
    /// The window is open.
    Opened,
    /// Nothing is open; show this text.
    Log(String),
    /// Nothing is open, and nothing is said.
    Nothing,
}

/// What toggling does next, as texts.
pub enum ToggleText {
    Close,
    OpenFloating,
    Embed(Seq<char>),
    Opened,
    Log(Seq<char>),
    Nothing,
}

impl View for ToggleCall {
    type V = ToggleText;

    open spec fn view(&self) -> ToggleText {
        match *self {
            ToggleCall::Close => ToggleText::Close,
            ToggleCall::OpenFloating => ToggleText::OpenFloating,
            ToggleCall::Embed(e) => ToggleText::Embed(e@),
            ToggleCall::Opened => ToggleText::Opened,
            ToggleCall::Log(t) => ToggleText::Log(t@),
            ToggleCall::Nothing => ToggleText::Nothing,
        }
    }
}

/// The plugin's window is closed if it is open, else it floats if it can, else
/// it is embedded if that is possible.
pub open spec fn toggled(reply: ToggleReply) -> ToggleText {
    match reply {
        ToggleReply::WasOpen(open) => if open {
            ToggleText::Close
        } else {
            ToggleText::OpenFloating
        },
        ToggleReply::Floated(Ok(())) => ToggleText::Opened,
        ToggleReply::Floated(Err((e, embedding))) => match embedding {
            Embedding::Unavailable => ToggleText::Log("plugin GUI: "@ + e@),
            Embedding::Refused => ToggleText::Nothing,
            Embedding::Possible => ToggleText::Embed(e@),
        },
        ToggleReply::Embedded(Ok(())) => ToggleText::Opened,
        ToggleReply::Embedded(Err((float, embed))) => ToggleText::Log(
            "plugin GUI: "@ + float@ + "; embed: "@ + embed@,
        ),
    }
}

/// A step of toggling the plugin's window.
pub fn toggle_gui(reply: ToggleReply) -> (call: ToggleCall)
    ensures
        call@ == toggled(reply),
{
    match reply {
        ToggleReply::WasOpen(open) => {
            if open {
                ToggleCall::Close
            } else {
                ToggleCall::OpenFloating
            }
        },
        ToggleReply::Floated(Ok(())) => ToggleCall::Opened,
        ToggleReply::Floated(Err((e, embedding))) => match embedding {
            Embedding::Unavailable => ToggleCall::Log(joined_texts("plugin GUI: ", e.as_str())),
            Embedding::Refused => ToggleCall::Nothing,
            Embedding::Possible => ToggleCall::Embed(e),
        },
        ToggleReply::Embedded(Ok(())) => ToggleCall::Opened,
        ToggleReply::Embedded(Err((float, embed))) => {
            let mut text = joined_texts("plugin GUI: ", float.as_str());
            text.append("; embed: ");
            text.append(embed.as_str());
            ToggleCall::Log(text)
        },
    }
}

/// The reply that answers a step of toggling; the first one answers whether the
/// window is open. A failure to embed brings along why the window could not
/// float.
pub open spec fn toggle_answers(reply: ToggleReply, call: Option<ToggleText>) -> bool {
    match reply {
        ToggleReply::WasOpen(_) => call is None,
        ToggleReply::Floated(_) => call == Some(ToggleText::OpenFloating),
        ToggleReply::Embedded(r) => {
            &&& call matches Some(ToggleText::Embed(reason))
            &&& r matches Err((float, _)) ==> float@ == reason
        },
    }
}

/// A run of replies that toggling can get: each answers the step that the reply
/// before led to.
pub open spec fn toggle_conversation(replies: Seq<ToggleReply>) -> bool {
    &&& replies.len() > 0 ==> toggle_answers(replies[0], None)
    &&& forall|i: int|
        0 < i < replies.len() ==> toggle_answers(
            #[trigger] replies[i],
            Some(toggled(replies[i - 1])),
        )
}

/// Law: toggling ends after three replies at most. An open window is closed and
/// nothing else happens. A closed one floats if it can; it is embedded only
/// after it could not float and where embedding is possible. It counts as open
/// exactly if one of the two succeeded, and where both failed both reasons are
/// shown.
pub proof fn toggling_tries_floating_first(replies: Seq<ToggleReply>)
    requires
        toggle_conversation(replies),
        replies.len() > 0,
    ensures
        ({
            let last = toggled(replies.last());
            &&& replies.len() <= 3
            &&& replies.len() == 3 ==> !(last is OpenFloating) && !(last is Embed)
            &&& last is Close <==> replies[0] == ToggleReply::WasOpen(true)
            &&& last is Close ==> replies.len() == 1
            &&& last is Opened <==> (replies.last() matches ToggleReply::Floated(Ok(_))
                || replies.last() matches ToggleReply::Embedded(Ok(_)))
            &&& replies.last() is Embedded ==> {
                &&& replies.len() == 3
                &&& replies[1] matches ToggleReply::Floated(Err((_, embedding))) && embedding
                    == Embedding::Possible
            }
            &&& replies.last() matches ToggleReply::Embedded(Err((_, embed))) ==> last
                == ToggleText::Log(
                "plugin GUI: "@ + replies[1]->Floated_0->Err_0.0@ + "; embed: "@ + embed@,
            )
        }),
{
    let n = replies.len() as int;
    if n > 1 {
        assert(toggle_answers(replies[1], Some(toggled(replies[0]))));
    }
    if n > 2 {
        assert(toggle_answers(replies[2], Some(toggled(replies[1]))));
    }
    if n > 3 {
        assert(toggle_answers(replies[3], Some(toggled(replies[2]))));
    }
}

/// The smaller of two numbers.
pub open spec fn at_most(n: u32, limit: u32) -> u32 {
    if n <= limit {
        n
    } else {
        limit
    }
}

/// The size an embedded editor gets: what it asks for, capped to the work area
/// of the monitor.
pub open spec fn capped(editor: Extent, area: Option<Extent>) -> Extent {
    match area {
        Some(area) => Extent {
            width: at_most(editor.width, area.width),
            height: at_most(editor.height, area.height),
        },
        None => editor,
    }
}

/// Cap an editor to the work area of the monitor, where that is known.
pub fn cap_editor(editor: Extent, area: Option<Extent>) -> (size: Extent)
    ensures
        size == capped(editor, area),
{
    match area {
        None => editor,
        Some(area) => Extent {
            width: if editor.width <= area.width {
                editor.width
            } else {
                area.width
            },
            height: if editor.height <= area.height {
                editor.height
            } else {
                area.height
            },
        },
    }
}

/// How far a window has to reach for what begins at `from` and is `size` long;
/// no further than can be counted.
pub open spec fn reach(from: u32, size: u32) -> int {
    let end = from + size + EMBED_MARGIN;
    if end <= u32::MAX {
        end
    } else {
        u32::MAX as int
    }
}

/// The size of the host's window with an embedded editor: it grows where the
/// editor needs room and never shrinks.
pub fn grown_window(window: Extent, editor: Extent) -> (size: Extent)
    ensures
        16 + editor.width + 16 <= u32::MAX ==> size.width >= 16 + editor.width + 16,
        480 + editor.height + 16 <= u32::MAX ==> size.height >= 480 + editor.height + 16,
        16 + editor.width + 16 <= window.width ==> size.width == window.width,
        480 + editor.height + 16 <= window.height ==> size.height == window.height,
        size.width >= window.width,
        size.height >= window.height,
        size.width == if window.width >= reach(EMBED_X, editor.width) {
            window.width as int
        } else {
            reach(EMBED_X, editor.width)
        },
        size.height == if window.height >= reach(EMBED_Y, editor.height) {
            window.height as int
        } else {
            reach(EMBED_Y, editor.height)
        },
{
    let right: u32 = EMBED_X.saturating_add(editor.width).saturating_add(EMBED_MARGIN);
    let bottom: u32 = EMBED_Y.saturating_add(editor.height).saturating_add(EMBED_MARGIN);
    Extent {
        width: if window.width >= right {
            window.width
        } else {
            right
        },
        height: if window.height >= bottom {
            window.height
        } else {
            bottom
        },
    }
}

/// What is kept of a window's size when an editor is embedded or resized: the
/// size before the first editor.
pub open spec fn kept_size(before: Option<Extent>, window: Extent) -> Option<Extent> {
    match before {
        Some(s) => Some(s),
        None => Some(window),
    }
}

/// The window's size before an editor was embedded, to be restored.
pub struct WindowSize {
    pub before: Option<Extent>,
}

impl WindowSize {
    pub fn new() -> (w: WindowSize)
        ensures
            w.before is None,
    {
        WindowSize { before: None }
    }

    /// An editor of this size is embedded into a window of that size: the new
    /// size of the window. The size before the first editor is kept.
    pub fn embed(&mut self, window: Extent, editor: Extent) -> (size: Extent)
        ensures
            final(self).before == kept_size(old(self).before, window),
            size.width == if window.width >= reach(EMBED_X, editor.width) {
                window.width as int
            } else {
                reach(EMBED_X, editor.width)
            },
            size.height == if window.height >= reach(EMBED_Y, editor.height) {
                window.height as int
            } else {
                reach(EMBED_Y, editor.height)
            },
    {
        if self.before.is_none() {
            self.before = Some(window);
        }
        grown_window(window, editor)
    }

    /// The editor closed: the size to restore, if there was one.
    pub fn close(&mut self) -> (size: Option<Extent>)
        ensures
            size == old(self).before,
            final(self).before is None,
    {
        self.before.take()
    }
}

/// What is kept after an editor was embedded into a window of the first size and
/// resized while the window had the others.
pub open spec fn kept_after(windows: Seq<Extent>) -> Option<Extent>
    decreases windows.len(),
{
    if windows.len() == 0 {
        None
    } else {
        kept_size(kept_after(windows.drop_last()), windows.last())
    }
}

/// Law: however often an editor resizes while it is embedded, the window gets
/// back the size it had before the editor was embedded.
pub proof fn closing_restores_the_window(windows: Seq<Extent>)
    requires
        windows.len() > 0,
    ensures
        kept_after(windows) == Some(windows[0]),
    decreases windows.len(),
{
    if windows.len() > 1 {
        closing_restores_the_window(windows.drop_last());
    } else {
        assert(kept_after(windows.drop_last()) is None);
    }
}

/// Law: an embedded editor never exceeds the work area of the monitor, and gets
/// the size it asks for where that fits.
pub proof fn editors_fit_the_monitor(editor: Extent, area: Extent)
    ensures
        capped(editor, Some(area)).width <= area.width,
        capped(editor, Some(area)).height <= area.height,
        editor.width <= area.width && editor.height <= area.height ==> capped(editor, Some(area))
            == editor,
{
}

/// What a poll of the plugin's signals asks the window to do, in this order.
pub struct PollActions {
    /// The plugin closed its window.
    pub close_gui: bool,
    /// Reopen the audio session.
    pub restart_audio: bool,
    /// Show that the state changed since it was saved.
    pub mark_dirty: bool,
    /// Read the remote-controls pages again.
    pub refresh_remote: bool,
    /// Read the parameter list again.
    pub reread_params: bool,
    /// Read the parameter values again.
    pub reread_values: bool,
    /// Show or hide the plugin's window.
    pub show_gui: bool,
    pub hide_gui: bool,
    /// Resize the embedded editor.
    pub resize: Option<Extent>,
    /// Show this text.
    pub log: Option<String>,
}

/// Take the plugin's signals. `embedded` says whether its editor is embedded:
/// floating windows size themselves, and a request to resize one is dropped.
pub fn poll(flags: &mut HostFlags, embedded: bool) -> (actions: PollActions)
    ensures
        actions.close_gui == old(flags).gui_closed,
        actions.restart_audio == old(flags).restart,
        actions.mark_dirty == old(flags).state_dirty,
        actions.refresh_remote == old(flags).remote_controls,
        actions.reread_params == old(flags).params_dirty,
        actions.reread_values == old(flags).preset_loaded,
        actions.show_gui == old(flags).gui_show,
        actions.hide_gui == old(flags).gui_hide,
        actions.resize == match old(flags).resize {
            Some((width, height)) => if embedded {
                Some(Extent { width, height })
            } else {
                None
            },
            None => None,
        },
        actions.log == old(flags).preset_load_error,
        *final(flags) == (HostFlags {
            gui_closed: false,
            restart: false,
            state_dirty: false,
            remote_controls: false,
            params_dirty: false,
            preset_loaded: false,
            gui_show: false,
            gui_hide: false,
            resize: None,
            preset_load_error: None,
            ..*old(flags)
        }),
{
    let close_gui = take_gui_closed(flags);
    let restart_audio = take_restart_request(flags);
    let mark_dirty = take_state_dirty(flags);
    let refresh_remote = take_remote_controls_dirty(flags);
    let reread_params = take_params_dirty(flags);
    let reread_values = take_preset_loaded(flags);
    let show_gui = take_gui_show_requested(flags);
    let hide_gui = take_gui_hide_requested(flags);
    let resize = match take_requested_resize(flags) {
        Some((width, height)) => {
            if embedded {
                Some(Extent { width, height })
            } else {
                None
            }
        },
        None => None,
    };
    let log = take_preset_load_error(flags);
    PollActions {
        close_gui,
        restart_audio,
        mark_dirty,
        refresh_remote,
        reread_params,
        reread_values,
        show_gui,
        hide_gui,
        resize,
        log,
    }
}

/// What the window shows after the state was saved or loaded: a text, and
/// whether the state still counts as changed.
pub struct StateShown {
    pub log: String,
    /// `None` leaves the mark as it is.
    pub dirty: Option<bool>,
}

/// The state was saved to `path`, or not. A success clears the mark, together
/// with a change that raced the save.
pub fn state_saved(flags: &mut HostFlags, path: &str, r: Result<(), String>) -> (shown: StateShown)
    ensures
        shown.log@ == match r {
            Ok(_) => "state saved to "@ + path@,
            Err(e) => "save state: "@ + e@,
        },
        shown.dirty == if r is Ok {
            Some(false)
        } else {
            None
        },
        *final(flags) == if r is Ok {
            HostFlags { state_dirty: false, ..*old(flags) }
        } else {
            *old(flags)
        },
{
    match r {
        Ok(()) => {
            let _ = take_state_dirty(flags);
            StateShown { log: joined_texts("state saved to ", path), dirty: Some(false) }
        },
        Err(e) => StateShown { log: joined_texts("save state: ", e.as_str()), dirty: None },
    }
}

/// The state was loaded from `path`, or not.
pub fn state_loaded(flags: &mut HostFlags, path: &str, r: Result<(), String>) -> (shown:
    StateShown)
    ensures
        shown.log@ == match r {
            Ok(_) => "state loaded from "@ + path@,
            Err(e) => "load state: "@ + e@,
        },
        shown.dirty == if r is Ok {
            Some(false)
        } else {
            None
        },
        *final(flags) == if r is Ok {
            HostFlags { state_dirty: false, ..*old(flags) }
        } else {
            *old(flags)
        },
{
    match r {
        Ok(()) => {
            let _ = take_state_dirty(flags);
            StateShown { log: joined_texts("state loaded from ", path), dirty: Some(false) }
        },
        Err(e) => StateShown { log: joined_texts("load state: ", e.as_str()), dirty: None },
    }
}

/// Law: paging goes one page at a time and stops at the ends; a plugin that
/// changes its pages leaves the user where they are, or on the last page.
pub proof fn pages_are_turned_one_by_one(paging: Paging, count: usize)
    requires
        paging.wf(),
    ensures
        paging.on().count == paging.count && paging.back().count == paging.count,
        paging.page + 1 < paging.count ==> paging.on().page == paging.page + 1,
        paging.page + 1 >= paging.count ==> paging.on() == paging,
        paging.page > 0 ==> paging.back().page + 1 == paging.page,
        paging.page == 0 ==> paging.back() == paging,
        paging.refreshed(count).count == count,
        paging.page < count ==> paging.refreshed(count).page == paging.page,
        0 < count <= paging.page ==> paging.refreshed(count).page + 1 == count,
        paging.wf() <==> paging.page < paging.count || (paging.page == 0 && paging.count == 0),
{
}

/// Law: a page shows, for each of its ids and in its order, the first parameter
/// with that id, and leaves out ids that no parameter has.
pub proof fn pages_show_their_params(params: Seq<ParamInfo>, ids: Seq<u32>)
    ensures
        rows_of(params, ids) == ids.filter_map(
            |id: u32|
                if crate::loader::first_with_id(params, id) < params.len() {
                    Some(crate::loader::first_with_id(params, id) as usize)
                } else {
                    None
                },
        ),
    decreases ids.len(),
{
    let place = |id: u32|
        if crate::loader::first_with_id(params, id) < params.len() {
            Some(crate::loader::first_with_id(params, id) as usize)
        } else {
            None
        };
    if ids.len() > 0 {
        pages_show_their_params(params, ids.drop_last());
    }
    assert(rows_of(params, ids) =~= ids.filter_map(place));
}

/// Law: parameters and ports are found by any part of their name, whatever the
/// case.
pub proof fn names_are_found_by_parts(param: ParamInfo, text: Seq<char>, port: Seq<char>)
    ensures
        param_matches(param, text) <==> crate::text::occurs(
            crate::text::lowercased(text),
            crate::text::lowercased(param.name@),
        ),
        port_matches(port, text) <==> crate::text::occurs(
            crate::text::lowercased(text),
            crate::text::lowercased(port),
        ),
{
}

/// Law: the filtered list shows exactly the parameters that pass the filter, each
/// once and in order.
pub proof fn matching_params_are_shown(params: Seq<ParamInfo>, filter: Seq<char>)
    requires
        params.len() <= usize::MAX,
    ensures
        forall|k: int| #![trigger matching_params(params, filter)[k]]
            0 <= k < matching_params(params, filter).len() ==> matching_params(params, filter)[k] < params.len() && param_matches(params[matching_params(params, filter)[k] as int], filter),
        forall|a: int, b: int|
            0 <= a < b < matching_params(params, filter).len() ==> #[trigger] matching_params(params, filter)[a] < #[trigger] matching_params(params, filter)[b],
        forall|i: int|
            0 <= i < params.len() && param_matches((#[trigger] params[i]), filter) ==> matching_params(params, filter).contains(i as usize),
    decreases params.len(),
{
    if params.len() > 0 {
        let rest = params.drop_last();
        matching_params_are_shown(rest, filter);
        let before = matching_params(rest, filter);
        let rows = matching_params(params, filter);
        assert forall|k: int| #![trigger rows[k]] 0 <= k < rows.len() implies rows[k] < params.len()
            && param_matches(params[rows[k] as int], filter) by {
            if k < before.len() {
                assert(rows[k] == before[k]);
                assert(rest[before[k] as int] == params[before[k] as int]);
            }
        }
        assert forall|a: int, b: int| 0 <= a < b < rows.len() implies #[trigger] rows[a]
            < #[trigger] rows[b] by {
            assert(rows[a] == before[a]);
            if b < before.len() {
                assert(rows[b] == before[b]);
            }
        }
        assert forall|i: int| 0 <= i < params.len() && param_matches((#[trigger] params[i]), filter) implies rows.contains(
            i as usize,
        ) by {
            if i < rest.len() {
                assert(rest[i] == params[i]);
                let k = choose|k: int| 0 <= k < before.len() && before[k] == i as usize;
                assert(rows[k] == i as usize);
            } else {
                assert(rows[rows.len() - 1] == i as usize);
            }
        }
    }
}

/// Law: exactly the rows that differ are set again, each once and in order.
pub proof fn changed_rows_are_set(same: Seq<bool>)
    requires
        same.len() <= usize::MAX,
    ensures
        forall|k: int| #![trigger differing(same)[k]]
            0 <= k < differing(same).len() ==> differing(same)[k] < same.len() && !same[differing(same)[k] as int],
        forall|a: int, b: int|
            0 <= a < b < differing(same).len() ==> #[trigger] differing(same)[a] < #[trigger] differing(same)[b],
        forall|i: int|
            0 <= i < same.len() && !(#[trigger] same[i]) ==> differing(same).contains(i as usize),
    decreases same.len(),
{
    if same.len() > 0 {
        let rest = same.drop_last();
        changed_rows_are_set(rest);
        let before = differing(rest);
        let rows = differing(same);
        assert forall|k: int| #![trigger rows[k]] 0 <= k < rows.len() implies rows[k] < same.len()
            && !same[rows[k] as int] by {
            if k < before.len() {
                assert(rows[k] == before[k]);
                assert(rest[before[k] as int] == same[before[k] as int]);
            }
        }
        assert forall|a: int, b: int| 0 <= a < b < rows.len() implies #[trigger] rows[a]
            < #[trigger] rows[b] by {
            assert(rows[a] == before[a]);
            if b < before.len() {
                assert(rows[b] == before[b]);
            }
        }
        assert forall|i: int| 0 <= i < same.len() && !(#[trigger] same[i]) implies rows.contains(
            i as usize,
        ) by {
            if i < rest.len() {
                assert(rest[i] == same[i]);
                let k = choose|k: int| 0 <= k < before.len() && before[k] == i as usize;
                assert(rows[k] == i as usize);
            } else {
                assert(rows[rows.len() - 1] == i as usize);
            }
        }
    }
}

/// Law: a key of the computer keyboard plays the MIDI key of its number: pressed
/// with a fixed velocity, released with none. Other numbers play nothing.
pub proof fn keys_play_their_note(key: i32)
    ensures
        note_message(0x90, key) is Some <==> 0 <= key && key <= 127,
        note_message(0x80, key) is Some <==> 0 <= key && key <= 127,
        0 <= key <= 127 ==> note_message(0x90, key) == Some([0x90u8, key as u8, 100u8]),
        0 <= key <= 127 ==> note_message(0x80, key) == Some([0x80u8, key as u8, 0u8]),
{
}

/// Law: what toggling does next is told by what became of the window: a closed one
/// floats, and one that cannot is embedded where that is possible; otherwise the
/// reason is shown where the system has no embedding, and nothing is said where
/// the plugin refuses it.
pub proof fn toggling_goes_on(e: String)
    ensures
        toggled(ToggleReply::WasOpen(true)) is Close,
        toggled(ToggleReply::WasOpen(false)) is OpenFloating,
        toggled(ToggleReply::Floated(Ok(()))) is Opened,
        toggled(ToggleReply::Embedded(Ok(()))) is Opened,
        toggled(ToggleReply::Floated(Err((e, Embedding::Possible)))) == ToggleText::Embed(e@),
        toggled(ToggleReply::Floated(Err((e, Embedding::Unavailable)))) == ToggleText::Log(
            "plugin GUI: "@ + e@,
        ),
        toggled(ToggleReply::Floated(Err((e, Embedding::Refused)))) is Nothing,
{
}

/// Law: an editor is cut in each direction by itself, only where the monitor is too
/// small, and then to what the monitor has; not at all where that is unknown.
pub proof fn editors_are_cut_to_the_monitor(editor: Extent, area: Extent)
    ensures
        capped(editor, None) == editor,
        editor.width <= area.width ==> capped(editor, Some(area)).width == editor.width,
        editor.width > area.width ==> capped(editor, Some(area)).width == area.width,
        editor.height <= area.height ==> capped(editor, Some(area)).height == editor.height,
        editor.height > area.height ==> capped(editor, Some(area)).height == area.height,
{
}

/// Law: a window reaches as far as what it holds and a margin, or as far as can be
/// counted.
pub proof fn windows_hold_their_editor(from: u32, size: u32)
    ensures
        reach(from, size) == from + size + 16 || (reach(from, size) == u32::MAX && from + size + 16
            > u32::MAX),
        reach(from, size) <= u32::MAX,
{
}

/// Law: the size before the first editor is kept until it is restored.
pub proof fn the_first_size_is_kept(before: Extent, window: Extent)
    ensures
        kept_size(None, window) == Some(window),
        kept_size(Some(before), window) == Some(before),
{
}

} // verus!
