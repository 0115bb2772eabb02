//! What the display server side has to carry out, in the order given.
use vstd::prelude::*;

use crate::event::text_view;
use crate::module::PointerLocation;
use crate::text::views;

verus! {

/// A step that the display server side carries out.
#[allow(inconsistent_fields)]
#[derive(Debug, PartialEq)]
pub enum Action {
    /// Configure a new toplevel: maximized and activated, of this size.
    ConfigureNew { window: u64, w: i32, h: i32 },
    /// Configure a toplevel with this size.
    Configure { window: u64, w: i32, h: i32 },
    /// Place a window in the space, on top of all others.
    Place { window: u64, x: i32, y: i32, activate: bool },
    /// Raise a window.
    Raise { window: u64, activate: bool },
    /// Take a window out of the space.
    Remove { window: u64 },
    /// Ask a toplevel to close.
    SendClose { window: u64 },
    /// Let the window take up the state that its client committed.
    CommitWindow { window: u64 },
    /// Tell a surface the scale and transform of an output.
    SendScale { surface: u64, output: u64 },
    /// Move the keyboard focus.
    SetKeyboardFocus { surface: Option<u64> },
    /// Move the text input focus.
    SetTextInputFocus { surface: Option<u64> },
    /// Hand the key that is being processed to the focused surface.
    ResendKey,
    /// Release a key that is held down.
    ReleaseKey { keycode: u32 },
    /// Move the pointer.
    WarpPointer { location: PointerLocation },
    /// Set the keyboard layouts.
    SetXkbConfig { layouts: String, options: Option<String> },
    /// Make a keyboard layout the current one.
    SetXkbLayout { index: usize },
    /// Commit text through the input method.
    ImCommit { text: String },
    /// Apply the stored configuration of an output.
    ApplyOutputConfig { name: String },
    /// Serialise a report of the state and send it to Emacs.
    ReportState,
    /// Create an activation token for Emacs.
    CreateActivationToken,
    /// Make a text the content of the clipboard, offered as these types.
    SetSelection { mime_types: Vec<String>, text: String },
    /// Read the clipboard as this type, and take up what was read.
    ReadSelection { mime_type: String },
    /// Drop an activation token that was used.
    RemoveToken { token: u64 },
    /// Confirm the lock to the client.
    ConfirmLock { locker: u64 },
    /// Drop the request for a lock, which tells the client that it failed.
    DropLock { locker: u64 },
    /// Configure a lock surface with this size.
    ConfigureLockSurface { surface: u64, w: u32, h: u32 },
    /// Send the first configure event of a layer surface.
    ConfigureLayer { surface: u64 },
    /// Close a layer surface.
    CloseLayer { surface: u64 },
    /// Import a surface's buffer before it is drawn.
    EarlyImport { surface: u64 },
    /// Map an output at this place.
    MapOutput { output: u64, x: i32, y: i32 },
    /// Unmap an output.
    UnmapOutput { output: u64 },
    /// Draw an output.
    Render { output: u64 },
    /// Send frame callbacks to the surfaces of an output.
    SendFrames { output: u64 },
    /// Cancel a timer.
    CancelTimer { timer: u64 },
    /// Stop a screen cast and tell its session that it is closed.
    StopCast { session_id: usize },
    /// Tell the idle notifier that the user is active.
    NotifyActivity,
    /// Leave the event loop.
    StopLoop,
}

/// What an [`Action`] holds.
#[allow(inconsistent_fields)]
#[verifier::ext_equal]
pub enum ActionView {
    ConfigureNew { window: u64, w: i32, h: i32 },
    Configure { window: u64, w: i32, h: i32 },
    Place { window: u64, x: i32, y: i32, activate: bool },
    Raise { window: u64, activate: bool },
    Remove { window: u64 },
    SendClose { window: u64 },
    CommitWindow { window: u64 },
    SendScale { surface: u64, output: u64 },
    SetKeyboardFocus { surface: Option<u64> },
    SetTextInputFocus { surface: Option<u64> },
    ResendKey,
    ReleaseKey { keycode: u32 },
    WarpPointer { location: PointerLocation },
    SetXkbConfig { layouts: Seq<char>, options: Option<Seq<char>> },
    SetXkbLayout { index: usize },
    ImCommit { text: Seq<char> },
    ApplyOutputConfig { name: Seq<char> },
    ReportState,
    CreateActivationToken,
    SetSelection { mime_types: Seq<Seq<char>>, text: Seq<char> },
    ReadSelection { mime_type: Seq<char> },
    RemoveToken { token: u64 },
    ConfirmLock { locker: u64 },
    DropLock { locker: u64 },
    ConfigureLockSurface { surface: u64, w: u32, h: u32 },
    ConfigureLayer { surface: u64 },
    CloseLayer { surface: u64 },
    EarlyImport { surface: u64 },
    MapOutput { output: u64, x: i32, y: i32 },
    UnmapOutput { output: u64 },
    Render { output: u64 },
    SendFrames { output: u64 },
    CancelTimer { timer: u64 },
    StopCast { session_id: usize },
    NotifyActivity,
    StopLoop,
}

impl View for Action {
    type V = ActionView;

    open spec fn view(&self) -> ActionView {
        match self {
            Action::ConfigureNew { window, w, h } => ActionView::ConfigureNew {
                window: *window,
                w: *w,
                h: *h,
            },
            Action::Configure { window, w, h } => ActionView::Configure {
                window: *window,
                w: *w,
                h: *h,
            },
            Action::Place { window, x, y, activate } => ActionView::Place {
                window: *window,
                x: *x,
                y: *y,
                activate: *activate,
            },
            Action::Raise { window, activate } => ActionView::Raise {
                window: *window,
                activate: *activate,
            },
            Action::Remove { window } => ActionView::Remove { window: *window },
            Action::SendClose { window } => ActionView::SendClose { window: *window },
            Action::CommitWindow { window } => ActionView::CommitWindow { window: *window },
            Action::SendScale { surface, output } => ActionView::SendScale {
                surface: *surface,
                output: *output,
            },
            Action::SetKeyboardFocus { surface } => ActionView::SetKeyboardFocus {
                surface: *surface,
            },
            Action::SetTextInputFocus { surface } => ActionView::SetTextInputFocus {
                surface: *surface,
            },
            Action::ResendKey => ActionView::ResendKey,
            Action::ReleaseKey { keycode } => ActionView::ReleaseKey { keycode: *keycode },
            Action::WarpPointer { location } => ActionView::WarpPointer { location: *location },
            Action::SetXkbConfig { layouts, options } => ActionView::SetXkbConfig {
                layouts: layouts@,
                options: text_view(*options),
            },
            Action::SetXkbLayout { index } => ActionView::SetXkbLayout { index: *index },
            Action::ImCommit { text } => ActionView::ImCommit { text: text@ },
            Action::ApplyOutputConfig { name } => ActionView::ApplyOutputConfig { name: name@ },
            Action::ReportState => ActionView::ReportState,
            Action::CreateActivationToken => ActionView::CreateActivationToken,
            Action::SetSelection { mime_types, text } => ActionView::SetSelection {
                mime_types: views(mime_types@),
                text: text@,
            },
            Action::ReadSelection { mime_type } => ActionView::ReadSelection {
                mime_type: mime_type@,
            },
            Action::RemoveToken { token } => ActionView::RemoveToken { token: *token },
            Action::ConfirmLock { locker } => ActionView::ConfirmLock { locker: *locker },
            Action::DropLock { locker } => ActionView::DropLock { locker: *locker },
            Action::ConfigureLockSurface { surface, w, h } => ActionView::ConfigureLockSurface {
                surface: *surface,
                w: *w,
                h: *h,
            },
            Action::ConfigureLayer { surface } => ActionView::ConfigureLayer { surface: *surface },
            Action::CloseLayer { surface } => ActionView::CloseLayer { surface: *surface },
            Action::EarlyImport { surface } => ActionView::EarlyImport { surface: *surface },
            Action::MapOutput { output, x, y } => ActionView::MapOutput {
                output: *output,
                x: *x,
                y: *y,
            },
            Action::UnmapOutput { output } => ActionView::UnmapOutput { output: *output },
            Action::Render { output } => ActionView::Render { output: *output },
            Action::SendFrames { output } => ActionView::SendFrames { output: *output },
            Action::CancelTimer { timer } => ActionView::CancelTimer { timer: *timer },
            Action::StopCast { session_id } => ActionView::StopCast { session_id: *session_id },
            Action::NotifyActivity => ActionView::NotifyActivity,
            Action::StopLoop => ActionView::StopLoop,
        }
    }
}

/// What a list of actions holds.
pub open spec fn action_views(actions: Seq<Action>) -> Seq<ActionView> {
    Seq::new(actions.len(), |i: int| actions[i]@)
}

} // verus!
