//! The plugin's own window, embedded into the host's window: a socket window is
//! created inside the host's, and the plugin's editor becomes its child.
//!
//! Some plugins can only be embedded, which is why this path exists beside the
//! floating one of `plugin_gui`.

use crate::plugin_gui::GuiExt;
use vstd::prelude::*;

verus! {

/// Size of an editor that names none.
pub const DEFAULT_WIDTH: u32 = 400;

pub const DEFAULT_HEIGHT: u32 = 300;

/// A size in physical pixels.
#[derive(Clone, Copy, Debug, PartialEq, Eq, Structural)]
pub struct Extent {
    pub width: u32,
    pub height: u32,
}

/// Can this plugin embed into a window we provide?
pub fn supports_embedded(gui: Option<GuiExt>) -> (r: bool)
    ensures
        r == crate::plugin_gui::supported(gui),
{
    match gui {
        Some(g) => match g.is_api_supported {
            Some(answer) => answer,
            None => false,
        },
        None => false,
    }
}

/// What opening the editor does next.
#[derive(Clone, Copy, Debug, PartialEq, Eq, Structural)]
pub enum EmbedCall {
    Create,
    GetSize,
    /// Create the socket window with this size.
    Socket { size: Extent },
    SetParent,
    Show,
    /// The editor is embedded.
    Done,
    /// It could not be; the flags say what is to be undone: the plugin's editor
    /// first, then the socket window.
    Failed { destroy: bool, destroy_socket: bool },
}

/// The answer to a call while the editor is opened.
#[derive(Clone, Copy, Debug, PartialEq, Eq, Structural)]
pub enum EmbedReply {
    Created(bool),
    /// The size that the plugin names, where it does.
    Size(Option<Extent>),
    SocketCreated(bool),
    Parented(bool),
    Shown(bool),
}

/// How far the opening has come.
pub struct EmbedState {
    pub gui: GuiExt,
    pub call: EmbedCall,
    /// The plugin created its editor.
    pub created: bool,
    /// The socket window exists.
    pub socket: bool,
    /// The message of a failure.
    pub error: Seq<char>,
}

/// The size an editor gets: what the plugin names, where that is not empty.
pub open spec fn editor_size(named: Option<Extent>) -> Extent {
    let fallback = Extent { width: DEFAULT_WIDTH, height: DEFAULT_HEIGHT };
    match named {
        Some(size) => if size.width > 0 && size.height > 0 {
            size
        } else {
            fallback
        },
        None => fallback,
    }
}

impl EmbedState {
    pub open spec fn failed(self, error: Seq<char>) -> EmbedState {
        EmbedState {
            call: EmbedCall::Failed {
                destroy: self.created && self.gui.destroy,
                destroy_socket: self.socket,
            },
            error,
            ..self
        }
    }

    pub open spec fn sized(self, named: Option<Extent>) -> EmbedState {
        EmbedState {
            call: EmbedCall::Socket { size: editor_size(named) },
            ..self
        }
    }

    pub open spec fn answered_by(self, reply: EmbedReply) -> bool {
        match reply {
            EmbedReply::Created(_) => self.call is Create,
            EmbedReply::Size(_) => self.call is GetSize,
            EmbedReply::SocketCreated(_) => self.call is Socket,
            EmbedReply::Parented(_) => self.call is SetParent,
            EmbedReply::Shown(_) => self.call is Show,
        }
    }

    pub open spec fn after(self, reply: EmbedReply) -> EmbedState {
        match reply {
            EmbedReply::Created(ok) => if !ok {
                self.failed("gui.create returned false"@)
            } else {
                let held = EmbedState { created: true, ..self };
                if self.gui.get_size {
                    EmbedState { call: EmbedCall::GetSize, ..held }
                } else {
                    held.sized(None)
                }
            },
            EmbedReply::Size(named) => self.sized(named),
            EmbedReply::SocketCreated(ok) => if !ok {
                self.failed("CreateWindowExW failed"@)
            } else {
                let held = EmbedState { socket: true, ..self };
                if self.gui.set_parent {
                    EmbedState { call: EmbedCall::SetParent, ..held }
                } else {
                    held.failed("gui.set_parent returned false"@)
                }
            },
            EmbedReply::Parented(ok) => if !ok {
                self.failed("gui.set_parent returned false"@)
            } else if self.gui.show {
                EmbedState { call: EmbedCall::Show, ..self }
            } else {
                EmbedState { call: EmbedCall::Done, ..self }
            },
            EmbedReply::Shown(ok) => if ok {
                EmbedState { call: EmbedCall::Done, ..self }
            } else {
                self.failed("gui.show returned false"@)
            },
        }
    }
}

/// Why the editor cannot be embedded at all, if so.
pub open spec fn embed_error(gui: Option<GuiExt>) -> Option<Seq<char>> {
    if gui is None {
        Some("plugin has no clap.gui extension"@)
    } else if !crate::plugin_gui::supported(gui) {
        Some("plugin does not support embedded (non-floating) GUIs"@)
    } else if !gui->0.create {
        Some("clap.gui has no create"@)
    } else {
        None
    }
}

/// What closing an editor calls, in this order.
#[derive(Clone, Copy, Debug, PartialEq, Eq, Structural)]
pub struct CloseCalls {
    pub hide: bool,
    pub destroy: bool,
    pub destroy_socket: bool,
}

/// A plugin editor that is being embedded, or is.
pub struct EmbeddedGui {
    gui: GuiExt,
    call: EmbedCall,
    created: bool,
    socket: bool,
    error: String,
}

impl View for EmbeddedGui {
    type V = EmbedState;

    closed spec fn view(&self) -> EmbedState {
        EmbedState {
            gui: self.gui,
            call: self.call,
            created: self.created,
            socket: self.socket,
            error: self.error@,
        }
    }
}

impl EmbeddedGui {
    /// Begin to create a socket, sized to the plugin's own preferred size, and
    /// to embed the plugin into it.
    pub fn open(gui: Option<GuiExt>) -> (r: Result<EmbeddedGui, String>)
        ensures
            r is Ok <==> embed_error(gui) is None,
            r is Err ==> r->Err_0@ == embed_error(gui)->0,
            r is Ok ==> r->Ok_0@ == (EmbedState {
                gui: gui->0,
                call: EmbedCall::Create,
                created: false,
                socket: false,
                error: Seq::empty(),
            }),
    {
        let ext = match gui {
            Some(g) => g,
            None => return Err("plugin has no clap.gui extension".to_owned()),
        };
        if !supports_embedded(gui) {
            return Err("plugin does not support embedded (non-floating) GUIs".to_owned());
        }
        if !ext.create {
            return Err("clap.gui has no create".to_owned());
        }
        let editor = EmbeddedGui {
            gui: ext,
            call: EmbedCall::Create,
            created: false,
            socket: false,
            error: String::new(),
        };
        assert(editor@.error =~= Seq::empty());
        Ok(editor)
    }

    /// What to do next.
    pub fn call(&self) -> (call: EmbedCall)
        ensures
            call == self@.call,
    {
        self.call
    }

    /// The message of a failure.
    pub fn error(&self) -> (text: &str)
        ensures
            text@ == self@.error,
    {
        self.error.as_str()
    }

    fn fail(&mut self, error: &str)
        ensures
            final(self)@ == old(self)@.failed(error@),
    {
        self.call = EmbedCall::Failed {
            destroy: self.created && self.gui.destroy,
            destroy_socket: self.socket,
        };
        self.error = error.to_owned();
    }

    fn sized(&mut self, named: Option<Extent>)
        ensures
            final(self)@ == old(self)@.sized(named),
    {
        let mut size = Extent { width: DEFAULT_WIDTH, height: DEFAULT_HEIGHT };
        if let Some(asked) = named {
            if asked.width > 0 && asked.height > 0 {
                size = asked;
            }
        }
        self.call = EmbedCall::Socket { size };
    }

    /// Take the answer to the call that was waited for.
    pub fn reply(&mut self, reply: EmbedReply)
        requires
            old(self)@.answered_by(reply),
        ensures
            final(self)@ == old(self)@.after(reply),
    {
        match reply {
            EmbedReply::Created(ok) => {
                if !ok {
                    self.fail("gui.create returned false");
                } else {
                    self.created = true;
                    if self.gui.get_size {
                        self.call = EmbedCall::GetSize;
                    } else {
                        self.sized(None);
                    }
                }
            },
            EmbedReply::Size(named) => self.sized(named),
            EmbedReply::SocketCreated(ok) => {
                if !ok {
                    self.fail("CreateWindowExW failed");
                } else {
                    self.socket = true;
                    if self.gui.set_parent {
                        self.call = EmbedCall::SetParent;
                    } else {
                        self.fail("gui.set_parent returned false");
                    }
                }
            },
            EmbedReply::Parented(ok) => {
                if !ok {
                    self.fail("gui.set_parent returned false");
                } else if self.gui.show {
                    self.call = EmbedCall::Show;
                } else {
                    self.call = EmbedCall::Done;
                }
            },
            EmbedReply::Shown(ok) => {
                if ok {
                    self.call = EmbedCall::Done;
                } else {
                    self.fail("gui.show returned false");
                }
            },
        }
    }

    /// The socket's current size in physical pixels, from the corner of its
    /// client area; nothing where the system does not tell.
    pub fn size(client: Option<Extent>) -> (size: Extent)
        ensures
            size == match client {
                Some(corner) => corner,
                None => Extent { width: 0, height: 0 },
            },
    {
        match client {
            Some(corner) => corner,
            None => Extent { width: 0, height: 0 },
        }
    }

    /// Whether an embedded editor can be shown again: the plugin is then asked.
    pub fn show(&self) -> (r: bool)
        ensures
            r == self@.gui.show,
    {
        self.gui.show
    }

    /// Whether an embedded editor can be hidden: the plugin is then asked.
    pub fn hide_window(&self) -> (r: bool)
        ensures
            r == self@.gui.hide,
    {
        self.gui.hide
    }

    /// Closing an embedded editor: hide and destroy the plugin's editor, then
    /// the socket window.
    pub fn close(self) -> (calls: CloseCalls)
        ensures
            calls == (CloseCalls {
                hide: self@.created && self@.gui.hide,
                destroy: self@.created && self@.gui.destroy,
                destroy_socket: self@.socket,
            }),
    {
        CloseCalls {
            hide: self.created && self.gui.hide,
            destroy: self.created && self.gui.destroy,
            destroy_socket: self.socket,
        }
    }
}

/// The opening after a run of replies.
pub open spec fn ran(state: EmbedState, replies: Seq<EmbedReply>) -> EmbedState
    decreases replies.len(),
{
    if replies.len() == 0 {
        state
    } else {
        ran(state, replies.drop_last()).after(replies.last())
    }
}

/// The runs that can happen: every reply answers the call waited for.
pub open spec fn possible(state: EmbedState, replies: Seq<EmbedReply>) -> bool
    decreases replies.len(),
{
    replies.len() == 0 || {
        &&& possible(state, replies.drop_last())
        &&& ran(state, replies.drop_last()).answered_by(replies.last())
    }
}

/// Law: an editor that could not be embedded leaves nothing behind: the plugin's
/// editor is destroyed exactly if it was created and can be, and the socket
/// window exactly if it was created. An embedded editor has both.
pub proof fn failed_editors_are_undone(start: EmbedState, replies: Seq<EmbedReply>)
    requires
        start.call is Create,
        !start.created,
        !start.socket,
        possible(start, replies),
    ensures
        ({
            let end = ran(start, replies);
            let created = replies.contains(EmbedReply::Created(true));
            let socket = replies.contains(EmbedReply::SocketCreated(true));
            &&& end.created == created
            &&& end.socket == socket
            &&& end.gui == start.gui
            &&& end.call is Failed ==> {
                &&& end.call->destroy == (created && start.gui.destroy)
                &&& end.call->destroy_socket == socket
            }
            &&& end.call is Done ==> created && socket
            &&& socket ==> created
            &&& end.call is Socket || end.call is GetSize ==> created
            &&& end.call is SetParent || end.call is Show ==> socket
        }),
    decreases replies.len(),
{
    if replies.len() > 0 {
        let before = replies.drop_last();
        let last = replies.last();
        failed_editors_are_undone(start, before);
        assert(replies =~= before.push(last));
        assert forall|r: EmbedReply| #[trigger] replies.contains(r) == (before.contains(r) || r
            == last) by {
            if before.contains(r) {
                let i = choose|i: int| 0 <= i < before.len() && before[i] == r;
                assert(replies[i] == r);
            }
            if r == last {
                assert(replies[replies.len() - 1] == r);
            }
            if replies.contains(r) && r != last {
                let i = choose|i: int| 0 <= i < replies.len() && replies[i] == r;
                assert(before[i] == r);
            }
        }
    }
}

/// Law: no editor is opened with an empty window.
pub proof fn sockets_are_not_empty(named: Option<Extent>)
    ensures
        editor_size(named).width > 0,
        editor_size(named).height > 0,
{
}

/// Law: an editor gets the size that it names, and a fixed one where it names none
/// or an empty one.
pub proof fn editors_get_their_size(size: Extent)
    ensures
        size.width > 0 && size.height > 0 ==> editor_size(Some(size)) == size,
        size.width == 0 || size.height == 0 ==> editor_size(Some(size)) == editor_size(None),
        editor_size(None) == (Extent { width: 400, height: 300 }),
{
}

/// Law: a plugin without faults gets its editor embedded: created, asked for its
/// size where it tells one, put into a window of that size, and shown where it can
/// be.
pub proof fn sound_editors_are_embedded(state: EmbedState, named: Option<Extent>)
    requires
        state.gui.set_parent,
    ensures
        ({
            let s1 = state.after(EmbedReply::Created(true));
            let s2 = if state.gui.get_size {
                s1.after(EmbedReply::Size(named))
            } else {
                s1
            };
            let s3 = s2.after(EmbedReply::SocketCreated(true));
            let s4 = s3.after(EmbedReply::Parented(true));
            let s5 = if state.gui.show {
                s4.after(EmbedReply::Shown(true))
            } else {
                s4
            };
            &&& s1.created
            &&& s1.call is GetSize <==> state.gui.get_size
            &&& s2.call == (EmbedCall::Socket {
                size: editor_size(
                    if state.gui.get_size {
                        named
                    } else {
                        None
                    },
                ),
            })
            &&& s3.call is SetParent && s3.socket
            &&& s4.call is Show <==> state.gui.show
            &&& s5.call is Done
            &&& s5.created && s5.socket
        }),
{
}

/// Law: every call that fails ends the embedding with its message.
pub proof fn faults_end_the_embedding(state: EmbedState)
    ensures
        state.after(EmbedReply::Created(false)).call is Failed,
        state.after(EmbedReply::Created(false)).error == "gui.create returned false"@,
        state.after(EmbedReply::SocketCreated(false)).call is Failed,
        state.after(EmbedReply::SocketCreated(false)).error == "CreateWindowExW failed"@,
        state.after(EmbedReply::Parented(false)).call is Failed,
        state.after(EmbedReply::Parented(false)).error == "gui.set_parent returned false"@,
        state.after(EmbedReply::Shown(false)).call is Failed,
        state.after(EmbedReply::Shown(false)).error == "gui.show returned false"@,
        !state.gui.set_parent ==> state.after(EmbedReply::SocketCreated(true)).call
            == (EmbedCall::Failed {
            destroy: state.created && state.gui.destroy,
            destroy_socket: true,
        }),
{
}

/// Law: an editor can be embedded exactly where the plugin has the extension,
/// supports being embedded, and can create its editor.
pub proof fn able_plugins_are_embedded(gui: GuiExt)
    ensures
        embed_error(Some(gui)) is None <==> gui.is_api_supported == Some(true) && gui.create,
        embed_error(None) == Some("plugin has no clap.gui extension"@),
{
}

} // verus!
