//! What the screen says about the dashboard's state: the subtitle, the key hints in the
//! footer, and how far an open dialog scrolls.
use vstd::prelude::*;
use crate::text::{owned, push_str};
use crate::tiles::{plain_char, plain_text};
use super::{App, Modal};

verus! {

impl Modal {
    /// The line of the dialog that must stay in view: the selected field's value (three
    /// lines to a field), the selected profile's details (two lines to a profile), or the
    /// selected kind below a header; the help text keeps its own scroll.
    pub open spec fn focus_line(self) -> int {
        match self {
            Modal::Settings { selected, .. } => selected * 3 + 2,
            Modal::ProfileSettings { selected, .. } => selected * 3 + 2,
            Modal::SaveProfile { selected, .. } => selected * 3 + 2,
            Modal::Profiles { selected } => selected * 2 + 2,
            Modal::Add { selected, .. } => selected + 3,
            Modal::Help { .. } => 0,
        }
    }

    /// The lines that the dialog scrolls past so that its focus line shows among `visible`
    /// lines; none when that line's number does not fit in a `usize`.
    pub fn scroll(&self, visible: usize) -> (r: Option<usize>)
        ensures
            r == (if self.focus_line() <= usize::MAX {
                Some((if self.focus_line() > visible { self.focus_line() - visible } else { 0 }) as usize)
            } else {
                None::<usize>
            }),
    {
        let line: Option<usize> = match self {
            Modal::Settings { selected, .. } | Modal::ProfileSettings { selected, .. } | Modal::SaveProfile { selected, .. } =>
                if *selected <= (usize::MAX - 2) / 3 { Some(*selected * 3 + 2) } else { None },
            Modal::Profiles { selected } => if *selected <= (usize::MAX - 2) / 2 { Some(*selected * 2 + 2) } else { None },
            Modal::Add { selected, .. } => if *selected <= usize::MAX - 3 { Some(*selected + 3) } else { None },
            Modal::Help { .. } => Some(0),
        };
        match line {
            Some(l) => Some(if l > visible { l - visible } else { 0 }),
            None => None,
        }
    }
}

/// The key hints in the footer, which follow the open dialog, the preview, the editor and
/// the terminal's `width`.
pub open spec fn footer_text(modal: Option<Modal>, previewing: bool, editing: bool, width: u16) -> Seq<char> {
    match modal {
        Some(Modal::Settings { .. }) => "Tab field  Enter apply\nEsc close  Ctrl+u clear"@,
        Some(Modal::ProfileSettings { .. }) => "Tab field  Enter apply\nEsc close  Ctrl+u clear"@,
        Some(Modal::SaveProfile { .. }) => "Enter create copy\nEsc close  Ctrl+u clear"@,
        Some(Modal::Profiles { .. }) => "↑/↓ select  Enter switch\nEsc close"@,
        Some(Modal::Add { replace, .. }) => if replace {
            "↑/↓ select  Enter replace\nEsc close"@
        } else {
            "↑/↓ select  Enter add\nEsc close"@
        },
        Some(Modal::Help { .. }) => "↑/↓ scroll  Esc close"@,
        None => if previewing {
            "Enter apply  Esc discard\nArrows move  h/l width  k/j height"@
        } else if editing && width < 75 {
            "s save  Esc cancel  ? help\ng profile  n copy  p next"@
        } else if editing {
            "Tab select  arrows move  h/j/k/l resize  a add  r replace  t settings\ns save  Esc cancel  u undo  p next  g profile  n copy  c theme  ? help"@
        } else if width < 50 {
            "p profiles  [/] switch\ne edit  ? help  q quit"@
        } else {
            "e edit  p profiles  [/] switch  ? help  q quit"@
        },
    }
}

/// The profile line under the header: whether the profile is pinned ("Manual") or follows
/// the terminal ("Auto"), its name as plain text, and in the editor whether the session
/// changed anything.
pub open spec fn subtitle_text(pinned: bool, name: Seq<char>, editing: bool, dirty: bool) -> Seq<char> {
    let base = " "@ + (if pinned { "Manual"@ } else { "Auto"@ }) + " · "@ + name.map_values(|c: char| plain_char(c));
    if editing { base + " · "@ + (if dirty { "unsaved"@ } else { "unchanged"@ }) } else { base }
}

impl App {
    /// The key hints in the footer for a terminal `width` columns wide; see [`footer_text`].
    pub fn footer_hint(&self, width: u16) -> (r: &'static str)
        ensures
            r@ == footer_text(self.modal, self.candidate is Some, self.editing, width),
    {
        match &self.modal {
            Some(Modal::Settings { .. }) | Some(Modal::ProfileSettings { .. }) => "Tab field  Enter apply\nEsc close  Ctrl+u clear",
            Some(Modal::SaveProfile { .. }) => "Enter create copy\nEsc close  Ctrl+u clear",
            Some(Modal::Profiles { .. }) => "↑/↓ select  Enter switch\nEsc close",
            Some(Modal::Add { replace, .. }) => if *replace {
                "↑/↓ select  Enter replace\nEsc close"
            } else {
                "↑/↓ select  Enter add\nEsc close"
            },
            Some(Modal::Help { .. }) => "↑/↓ scroll  Esc close",
            None => if self.candidate.is_some() {
                "Enter apply  Esc discard\nArrows move  h/l width  k/j height"
            } else if self.editing && width < 75 {
                "s save  Esc cancel  ? help\ng profile  n copy  p next"
            } else if self.editing {
                "Tab select  arrows move  h/j/k/l resize  a add  r replace  t settings\ns save  Esc cancel  u undo  p next  g profile  n copy  c theme  ? help"
            } else if width < 50 {
                "p profiles  [/] switch\ne edit  ? help  q quit"
            } else {
                "e edit  p profiles  [/] switch  ? help  q quit"
            },
        }
    }

    /// The profile line under the header for the shown profile; see [`subtitle_text`].
    pub fn subtitle(&self) -> (r: String)
        requires
            self.profile < self.config@.profiles.len(),
        ensures
            r@ == subtitle_text(self.config@.active_profile is Some, self.shown().name, self.editing,
                self.original matches Some(o) && o@ != self.config@),
    {
        let mut s = owned(" ");
        push_str(&mut s, if self.config.active_profile.is_some() { "Manual" } else { "Auto" });
        push_str(&mut s, " · ");
        let name = plain_text(self.config.profiles[self.profile].name.as_str());
        push_str(&mut s, name.as_str());
        if self.editing {
            push_str(&mut s, " · ");
            push_str(&mut s, if self.is_dirty() { "unsaved" } else { "unchanged" });
        }
        s
    }
}

} // verus!
