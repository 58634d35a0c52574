//! The plugin's own window, floating: the steps of opening it, and what is undone
//! where a step fails.
//!
//! Some plugins are embed-only and refuse to float; see `win32_embed`.

use crate::text::chars_of;
use vstd::prelude::*;

verus! {

/// What a plugin's GUI extension offers.
#[derive(Clone, Copy, Debug, PartialEq, Eq, Structural)]
pub struct GuiExt {
    /// Its answer to `is_api_supported` for the window kind at hand, where it
    /// has the function.
    pub is_api_supported: Option<bool>,
    pub create: bool,
    pub destroy: bool,
    pub suggest_title: bool,
    pub get_size: bool,
    pub set_parent: bool,
    pub show: bool,
    pub hide: bool,
}

/// Whether the plugin supports the window kind that it was asked about.
pub open spec fn supported(gui: Option<GuiExt>) -> bool {
    gui is Some && gui->0.is_api_supported == Some(true)
}

/// Can this plugin put up its own top-level window?
pub fn supports_floating(gui: Option<GuiExt>) -> (r: bool)
    ensures
        r == supported(gui),
{
    match gui {
        Some(g) => match g.is_api_supported {
            Some(answer) => answer,
            None => false,
        },
        None => false,
    }
}

/// What opening the window does next.
#[derive(Clone, Copy, Debug, PartialEq, Eq, Structural)]
pub enum FloatCall {
    Create,
    SuggestTitle,
    Show,
    /// The window is open.
    Done,
    /// It could not be opened; `destroy` says whether what was created is to be
    /// destroyed.
    Failed { destroy: bool },
}

/// The answer to a call while the window is opened.
#[derive(Clone, Copy, Debug, PartialEq, Eq, Structural)]
pub enum FloatReply {
    Created(bool),
    Titled,
    Shown(bool),
}

/// How far the opening has come.
pub struct FloatState {
    pub gui: GuiExt,
    /// The title can be passed on as a C string.
    pub has_title: bool,
    pub call: FloatCall,
    /// The plugin created its window.
    pub created: bool,
    /// The message of a failure.
    pub error: Seq<char>,
}

impl FloatState {
    pub open spec fn failed(self, error: Seq<char>) -> FloatState {
        FloatState {
            call: FloatCall::Failed { destroy: self.created && self.gui.destroy },
            error,
            ..self
        }
    }

    pub open spec fn to_show(self) -> FloatState {
        if self.gui.show {
            FloatState { call: FloatCall::Show, ..self }
        } else {
            self.failed("clap.gui has no show"@)
        }
    }

    pub open spec fn answered_by(self, reply: FloatReply) -> bool {
        match reply {
            FloatReply::Created(_) => self.call is Create,
            FloatReply::Titled => self.call is SuggestTitle,
            FloatReply::Shown(_) => self.call is Show,
        }
    }

    pub open spec fn after(self, reply: FloatReply) -> FloatState {
        match reply {
            FloatReply::Created(ok) => if !ok {
                self.failed("gui.create returned false"@)
            } else {
                let held = FloatState { created: true, ..self };
                if self.gui.suggest_title && self.has_title {
                    FloatState { call: FloatCall::SuggestTitle, ..held }
                } else {
                    held.to_show()
                }
            },
            FloatReply::Titled => self.to_show(),
            FloatReply::Shown(ok) => if ok {
                FloatState { call: FloatCall::Done, ..self }
            } else {
                self.failed("gui.show returned false"@)
            },
        }
    }
}

/// Why the window cannot be opened at all, if so.
pub open spec fn float_error(gui: Option<GuiExt>) -> Option<Seq<char>> {
    if gui is None {
        Some("plugin has no clap.gui extension"@)
    } else if !supported(gui) {
        Some("plugin supports embedded (non-floating) GUIs only"@)
    } else if !gui->0.create {
        Some("clap.gui has no create"@)
    } else {
        None
    }
}

/// A plugin window that is opened or open.
pub struct FloatingGui {
    gui: GuiExt,
    has_title: bool,
    call: FloatCall,
    created: bool,
    error: String,
}

impl View for FloatingGui {
    type V = FloatState;

    closed spec fn view(&self) -> FloatState {
        FloatState {
            gui: self.gui,
            has_title: self.has_title,
            call: self.call,
            created: self.created,
            error: self.error@,
        }
    }
}

fn has_nul(text: &str) -> (r: bool)
    ensures
        r == text@.contains('\0'),
{
    let chars = chars_of(text);
    let mut i: usize = 0;
    while i < chars.len()
        invariant
            i <= chars@.len(),
            chars@ == text@,
            forall|k: int| 0 <= k < i ==> #[trigger] chars@[k] != '\0',
        decreases chars@.len() - i,
    {
        if chars[i] == '\0' {
            assert(text@[i as int] == '\0');
            return true;
        }
        i = i + 1;
    }
    false
}

impl FloatingGui {
    /// Begin to create and show the plugin's floating window.
    pub fn open(gui: Option<GuiExt>, title: &str) -> (r: Result<FloatingGui, String>)
        ensures
            r is Ok <==> float_error(gui) is None,
            r is Err ==> r->Err_0@ == float_error(gui)->0,
            r is Ok ==> r->Ok_0@ == (FloatState {
                gui: gui->0,
                has_title: !title@.contains('\0'),
                call: FloatCall::Create,
                created: false,
                error: Seq::empty(),
            }),
    {
        let ext = match gui {
            Some(g) => g,
            None => return Err("plugin has no clap.gui extension".to_owned()),
        };
        if !supports_floating(gui) {
            return Err("plugin supports embedded (non-floating) GUIs only".to_owned());
        }
        if !ext.create {
            return Err("clap.gui has no create".to_owned());
        }
        let window = FloatingGui {
            gui: ext,
            has_title: !has_nul(title),
            call: FloatCall::Create,
            created: false,
            error: String::new(),
        };
        assert(window@.error =~= Seq::empty());
        Ok(window)
    }

    /// What to do next.
    pub fn call(&self) -> (call: FloatCall)
        ensures
            call == self@.call,
    {
        self.call
    }

    /// The message of a failure.
    pub fn error(&self) -> (text: &str)
        ensures
            text@ == self@.error,
    {
        self.error.as_str()
    }

    fn fail(&mut self, error: &str)
        ensures
            final(self)@ == old(self)@.failed(error@),
    {
        self.call = FloatCall::Failed { destroy: self.created && self.gui.destroy };
        self.error = error.to_owned();
    }

    fn to_show(&mut self)
        ensures
            final(self)@ == old(self)@.to_show(),
    {
        if self.gui.show {
            self.call = FloatCall::Show;
        } else {
            self.fail("clap.gui has no show");
        }
    }

    /// Take the answer to the call that was waited for.
    pub fn reply(&mut self, reply: FloatReply)
        requires
            old(self)@.answered_by(reply),
        ensures
            final(self)@ == old(self)@.after(reply),
    {
        match reply {
            FloatReply::Created(ok) => {
                if !ok {
                    self.fail("gui.create returned false");
                } else {
                    self.created = true;
                    if self.gui.suggest_title && self.has_title {
                        self.call = FloatCall::SuggestTitle;
                    } else {
                        self.to_show();
                    }
                }
            },
            FloatReply::Titled => self.to_show(),
            FloatReply::Shown(ok) => {
                if ok {
                    self.call = FloatCall::Done;
                } else {
                    self.fail("gui.show returned false");
                }
            },
        }
    }

    /// Whether an open window can be shown again: the plugin is then asked.
    pub fn show(&self) -> (r: bool)
        ensures
            r == self@.gui.show,
    {
        self.gui.show
    }

    /// Whether an open window can be hidden: the plugin is then asked.
    pub fn hide_window(&self) -> (r: bool)
        ensures
            r == self@.gui.hide,
    {
        self.gui.hide
    }

    /// Closing an open window: whether the plugin is to destroy it.
    pub fn close(self) -> (destroy: bool)
        ensures
            destroy == (self@.created && self@.gui.destroy),
    {
        self.created && self.gui.destroy
    }
}

/// The opening after a run of replies.
pub open spec fn ran(state: FloatState, replies: Seq<FloatReply>) -> FloatState
    decreases replies.len(),
{
    if replies.len() == 0 {
        state
    } else {
        ran(state, replies.drop_last()).after(replies.last())
    }
}

/// The runs that can happen: every reply answers the call waited for.
pub open spec fn possible(state: FloatState, replies: Seq<FloatReply>) -> bool
    decreases replies.len(),
{
    replies.len() == 0 || {
        &&& possible(state, replies.drop_last())
        &&& ran(state, replies.drop_last()).answered_by(replies.last())
    }
}

/// Law: a window that could not be opened leaves nothing behind: what the
/// plugin created is destroyed, and nothing is destroyed that it did not create.
/// An open window was created and shown.
pub proof fn failed_windows_are_destroyed(start: FloatState, replies: Seq<FloatReply>)
    requires
        start.call is Create,
        !start.created,
        possible(start, replies),
    ensures
        ({
            let end = ran(start, replies);
            let created = replies.len() > 0 && replies[0] == FloatReply::Created(true);
            &&& end.created == created
            &&& end.gui == start.gui
            &&& end.call is Failed ==> end.call->destroy == (created && start.gui.destroy)
            &&& end.call is Done ==> created && replies.last() == FloatReply::Shown(true)
            &&& end.call is Create ==> replies.len() == 0
            &&& end.call is SuggestTitle || end.call is Show ==> created
        }),
    decreases replies.len(),
{
    if replies.len() > 0 {
        let before = replies.drop_last();
        failed_windows_are_destroyed(start, before);
        if before.len() > 0 {
            assert(before[0] == replies[0]);
        }
    }
}

/// Law: a window can be opened exactly where the plugin has the extension, supports
/// the kind of window, and can create it.
pub proof fn able_plugins_open_windows(gui: GuiExt)
    ensures
        !supported(None),
        supported(Some(gui)) <==> gui.is_api_supported == Some(true),
        float_error(Some(gui)) is None <==> gui.is_api_supported == Some(true) && gui.create,
        float_error(None) == Some("plugin has no clap.gui extension"@),
{
}

/// Law: a plugin without faults gets its window: it is created, titled where that
/// can be, and shown. Each call that fails ends the opening with its message.
pub proof fn sound_windows_open(state: FloatState)
    requires
        state.gui.show,
    ensures
        ({
            let titled = state.gui.suggest_title && state.has_title;
            let s1 = state.after(FloatReply::Created(true));
            let s2 = if titled {
                s1.after(FloatReply::Titled)
            } else {
                s1
            };
            let s3 = s2.after(FloatReply::Shown(true));
            &&& s1.created
            &&& s1.call is SuggestTitle <==> titled
            &&& s2.call is Show
            &&& s3.call is Done
            &&& s3.created
            &&& s3.gui == state.gui
            &&& state.after(FloatReply::Created(false)).call is Failed
            &&& state.after(FloatReply::Created(false)).error == "gui.create returned false"@
            &&& s2.after(FloatReply::Shown(false)).call is Failed
            &&& s2.after(FloatReply::Shown(false)).error == "gui.show returned false"@
        }),
{
}

/// Law: a plugin that cannot show its window fails, and what it created is
/// destroyed.
pub proof fn windows_must_be_shown(state: FloatState)
    requires
        !state.gui.show,
        !state.gui.suggest_title || !state.has_title,
    ensures
        state.after(FloatReply::Created(true)).call == (FloatCall::Failed {
            destroy: state.gui.destroy,
        }),
        state.after(FloatReply::Created(true)).error == "clap.gui has no show"@,
{
}

} // verus!
