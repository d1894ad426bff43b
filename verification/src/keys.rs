//! What each key press does in the explorer: the command it stands for in
//! the current state, the change it makes, and what is left for the
//! terminal to do (send a save, load a board, open the editor, copy).

use vstd::prelude::*;

use crate::actions::{
    collapse_result, expand_result, noticed, refresh_result, selected_card, target_view, toggle_result, RefreshTarget,
};
use crate::board::opt_text;
use crate::drafts::{
    draft_discarded, draft_ensured, filter_closed, filter_edit_result, filter_finished, filter_started,
    save_request_result, title_applied, title_cancelled, title_edit_result, title_started, EditOp, SaveRequest,
};
use crate::events::{live_cleared, live_switched};
use crate::explorer::{project_has_hit, project_payload_ok, CardDraft, FastCopy, TreeKey};
use crate::nav::{active_query, moved_by};
use crate::state::{frame, no_changes, tree_view, Changes, ExplorerState, PaneFocus};
use crate::text::str_eq;
use crate::tree::{is_live_target, KeyView};

verus! {

/// A key as the terminal reports it.
#[derive(Debug, Clone, Copy, PartialEq, Eq, Structural)]
pub enum Key {
    Char(char),
    Esc,
    Enter,
    Left,
    Right,
    Up,
    Down,
    Home,
    End,
    Backspace,
    Delete,
    Tab,
    BackTab,
    PageUp,
    PageDown,
    /// A key the explorer has no use for.
    Other,
}

/// A pressed key, and whether Ctrl was held.
#[derive(Debug, Clone, Copy, PartialEq, Eq)]
pub struct KeyPress {
    pub key: Key,
    pub ctrl: bool,
}

/// Why a key was refused while the card draft has unsaved changes.
#[derive(Debug, Clone, Copy, PartialEq, Eq)]
pub enum Warning {
    Quit,
    View,
    Refresh,
    Selection,
}

/// The notice shown for a refused key.
pub open spec fn warning_text(w: Warning) -> Seq<char> {
    match w {
        Warning::Quit => "Unsaved card changes. Ctrl-s save • Ctrl-x discard."@,
        Warning::View => "Save or discard dirty card before changing explorer view."@,
        Warning::Refresh => "Save or discard dirty card before refreshing hierarchy."@,
        Warning::Selection => "Save or discard dirty card before changing selection."@,
    }
}

/// What a key press asks of the explorer.
#[derive(Debug, Clone, Copy, PartialEq, Eq)]
pub enum KeyCommand {
    Quit,
    /// A save is under way: keys wait.
    SaveBusy,
    TitleCancel,
    TitleSubmit,
    TitleEdit(EditOp),
    FilterClose,
    FilterFinish,
    FilterEdit(EditOp),
    Warn(Warning),
    ToggleFocus,
    Save,
    Discard,
    StartFilter,
    ToggleView,
    Refresh,
    EditTitle,
    EditDescription,
    ToggleLive,
    ScrollTop,
    ScrollBottom,
    ScrollBy(i32),
    ToggleDebug,
    CopyJson,
    CopyCommand,
    Move(isize),
    Collapse,
    Expand,
    FocusExplorer,
    FocusDetails,
    Ignore,
}

/// What the terminal does after a key press.
#[derive(Debug)]
pub enum KeyEffect {
    Nothing,
    Quit,
    /// Send the card changes to the server.
    Save(SaveRequest),
    /// Load part of the hierarchy again.
    Refresh(RefreshTarget),
    /// Load the board's snapshot.
    LoadBoard(String),
    /// Open the card's description in the editor, starting from `current`.
    EditDescription { card_id: String, current: Option<String> },
    /// Close the live socket.
    StopLive,
    /// Close the live socket, if any, and open one for the board in the
    /// given session.
    StartLive { board_id: String, session_id: u64 },
    /// Copy the entity's JSON, or its snapshot command, to the clipboard.
    Copy { payload: FastCopy, command: bool },
}

/// Whether the card draft has unsaved changes.
pub open spec fn has_dirty(st: &ExplorerState) -> bool {
    st.card_draft is Some && st.card_draft->0.spec_is_dirty()
}

/// The edit a key makes in a text editor, apart from typing.
pub open spec fn editor_op(k: Key) -> Option<EditOp> {
    match k {
        Key::Left => Some(EditOp::Left),
        Key::Right => Some(EditOp::Right),
        Key::Home => Some(EditOp::Home),
        Key::End => Some(EditOp::End),
        Key::Backspace => Some(EditOp::Backspace),
        Key::Delete => Some(EditOp::Delete),
        _ => None,
    }
}

/// A navigation key: refused while the draft is dirty when the explorer
/// has the focus.
pub open spec fn nav_command(st: &ExplorerState, in_explorer: KeyCommand, in_details: KeyCommand) -> KeyCommand {
    if st.focus == PaneFocus::Explorer {
        if has_dirty(st) {
            KeyCommand::Warn(Warning::Selection)
        } else {
            in_explorer
        }
    } else {
        in_details
    }
}

/// What a character key does outside the editors.
pub open spec fn char_command(st: &ExplorerState, c: char, ctrl: bool) -> KeyCommand {
    let dirty = has_dirty(st);
    let details = st.focus == PaneFocus::Details;
    if c == 'q' {
        if dirty {
            KeyCommand::Warn(Warning::Quit)
        } else {
            KeyCommand::Quit
        }
    } else if c == 's' && ctrl {
        KeyCommand::Save
    } else if c == 'x' && ctrl && dirty {
        KeyCommand::Discard
    } else if c == '/' {
        KeyCommand::StartFilter
    } else if c == 'v' {
        if dirty {
            KeyCommand::Warn(Warning::View)
        } else {
            KeyCommand::ToggleView
        }
    } else if (c == 'r' || c == 'R') && !ctrl {
        if dirty {
            KeyCommand::Warn(Warning::Refresh)
        } else {
            KeyCommand::Refresh
        }
    } else if c == 'e' {
        KeyCommand::EditTitle
    } else if c == 'E' {
        KeyCommand::EditDescription
    } else if c == 'L' {
        KeyCommand::ToggleLive
    } else if c == 'g' && details {
        KeyCommand::ScrollTop
    } else if c == 'G' && details {
        KeyCommand::ScrollBottom
    } else if c == 'd' && details && ctrl {
        KeyCommand::ScrollBy(10i32)
    } else if c == 'u' && details && ctrl {
        KeyCommand::ScrollBy(-10i32)
    } else if (c == 'd' || c == 'D') && !ctrl {
        KeyCommand::ToggleDebug
    } else if c == 'y' && !ctrl {
        KeyCommand::CopyJson
    } else if c == 'Y' && !ctrl {
        KeyCommand::CopyCommand
    } else if c == 'j' {
        nav_command(st, KeyCommand::Move(1isize), KeyCommand::ScrollBy(1i32))
    } else if c == 'k' {
        nav_command(st, KeyCommand::Move(-1isize), KeyCommand::ScrollBy(-1i32))
    } else if c == 'h' {
        nav_command(st, KeyCommand::Collapse, KeyCommand::FocusExplorer)
    } else if c == 'l' {
        nav_command(st, KeyCommand::Expand, KeyCommand::FocusDetails)
    } else {
        KeyCommand::Ignore
    }
}

/// What a key does when no editor is open.
pub open spec fn browse_command(st: &ExplorerState, k: KeyPress) -> KeyCommand {
    let details = st.focus == PaneFocus::Details;
    match k.key {
        Key::Char(c) => char_command(st, c, k.ctrl),
        Key::Esc => if has_dirty(st) {
            KeyCommand::Warn(Warning::Quit)
        } else {
            KeyCommand::Quit
        },
        Key::Tab | Key::BackTab => KeyCommand::ToggleFocus,
        Key::PageDown => if details {
            KeyCommand::ScrollBy(10i32)
        } else {
            KeyCommand::Ignore
        },
        Key::PageUp => if details {
            KeyCommand::ScrollBy(-10i32)
        } else {
            KeyCommand::Ignore
        },
        Key::Down => nav_command(st, KeyCommand::Move(1isize), KeyCommand::ScrollBy(1i32)),
        Key::Up => nav_command(st, KeyCommand::Move(-1isize), KeyCommand::ScrollBy(-1i32)),
        Key::Left => nav_command(st, KeyCommand::Collapse, KeyCommand::FocusExplorer),
        Key::Right | Key::Enter => nav_command(st, KeyCommand::Expand, KeyCommand::FocusDetails),
        _ => KeyCommand::Ignore,
    }
}

/// The command a key press stands for: Ctrl-c always quits; while a save
/// is under way keys wait; an open title or filter editor takes the keys;
/// otherwise the explorer's bindings apply.
pub open spec fn key_command(st: &ExplorerState, k: KeyPress) -> KeyCommand {
    if k.key == Key::Char('c') && k.ctrl {
        KeyCommand::Quit
    } else if st.saving_card is Some {
        KeyCommand::SaveBusy
    } else if st.title_editor is Some {
        match k.key {
            Key::Esc => KeyCommand::TitleCancel,
            Key::Enter => KeyCommand::TitleSubmit,
            Key::Char(c) => if k.ctrl {
                KeyCommand::Ignore
            } else {
                KeyCommand::TitleEdit(EditOp::Insert(c))
            },
            _ => match editor_op(k.key) {
                Some(op) => KeyCommand::TitleEdit(op),
                None => KeyCommand::Ignore,
            },
        }
    } else if st.filter_editor is Some {
        match k.key {
            Key::Esc => KeyCommand::FilterClose,
            Key::Enter => KeyCommand::FilterFinish,
            Key::Char(c) => if k.ctrl {
                KeyCommand::Ignore
            } else {
                KeyCommand::FilterEdit(EditOp::Insert(c))
            },
            _ => match editor_op(k.key) {
                Some(op) => KeyCommand::FilterEdit(op),
                None => KeyCommand::Ignore,
            },
        }
    } else {
        browse_command(st, k)
    }
}

/// The editors' cursors lie within their texts.
pub open spec fn editors_wf(st: &ExplorerState) -> bool {
    &&& st.title_editor matches Some(e) ==> e.wf()
    &&& st.filter_editor matches Some(e) ==> e.wf()
}

/// What applying the title editor does: its text becomes the draft title.
pub open spec fn title_applied_to(a: &ExplorerState, b: &ExplorerState) -> bool {
    &&& frame(a, b, Changes { draft: true, title_editor: true, ..no_changes() })
    &&& b.title_editor is None
    &&& b.card_draft == title_applied(a)
}

/// What Enter in the title editor does: the title is applied and the card
/// saved; when there is nothing to save, a clean draft is announced.
pub open spec fn title_submitted(a: &ExplorerState, b: &ExplorerState, r: KeyEffect) -> bool {
    exists|m1: ExplorerState, m2: ExplorerState, q: Option<SaveRequest>|
        #![trigger title_applied_to(a, &m1), save_request_result(&m1, &m2, q)]
        {
            &&& title_applied_to(a, &m1)
            &&& save_request_result(&m1, &m2, q)
            &&& match q {
                Some(req) => *b == m2 && r == KeyEffect::Save(req),
                None => r is Nothing && if has_dirty(&m2) {
                    *b == m2
                } else {
                    noticed(&m2, b, "No title changes to save."@)
                },
            }
        }
}

/// The pane focus moved to `f`.
pub open spec fn focused(a: &ExplorerState, b: &ExplorerState, f: PaneFocus) -> bool {
    frame(a, b, Changes { ui: true, ..no_changes() }) && b.focus == f && b.show_debug_log == a.show_debug_log
}

/// The other pane.
pub open spec fn other_pane(f: PaneFocus) -> PaneFocus {
    match f {
        PaneFocus::Explorer => PaneFocus::Details,
        PaneFocus::Details => PaneFocus::Explorer,
    }
}

/// What opening the description editor does: the selected card gets a
/// draft, whose description the editor starts from.
pub open spec fn description_opened(a: &ExplorerState, b: &ExplorerState, r: KeyEffect) -> bool {
    match selected_card(a) {
        None => noticed(a, b, "Select card first to edit description."@) && r is Nothing,
        Some(cid) => exists|ok: bool|
            #![trigger draft_ensured(a, b, ok)]
            {
                &&& draft_ensured(a, b, ok)
                &&& r matches KeyEffect::EditDescription { card_id, current }
                &&& card_id@ == cid
                &&& opt_text(current) == if ok {
                    opt_text(b.card_draft->0.draft_description)
                } else {
                    None
                }
            },
    }
}

/// The selected board's id.
pub open spec fn live_target_of(st: &ExplorerState) -> Option<Seq<char>> {
    match st.selected {
        Some(k) => match k@ {
            KeyView::Board(id) => Some(id),
            _ => None,
        },
        None => None,
    }
}

/// What L does: on the live board it stops live sync, on another board it
/// follows that board live, elsewhere it asks for a board.
pub open spec fn live_toggled(a: &ExplorerState, b: &ExplorerState, r: KeyEffect) -> bool {
    match live_target_of(a) {
        None => noticed(a, b, "Select a board to make it live."@) && r is Nothing,
        Some(bid) => if is_live_target(tree_view(a), bid) {
            live_cleared(a, b) && r is StopLive
        } else {
            &&& live_switched(a, b, bid)
            &&& r matches KeyEffect::StartLive { board_id, session_id }
            &&& board_id@ == bid
            &&& session_id == b.active_socket_session_id
        },
    }
}

/// What y and Y do: the selected entity's copy payload goes to the
/// clipboard; without one, the user is told to select a node.
pub open spec fn copied(a: &ExplorerState, b: &ExplorerState, r: KeyEffect, command: bool) -> bool {
    let found = a.selected is Some && exists|pi: int|
        0 <= pi < a.projects@.len() && project_has_hit(#[trigger] a.projects@[pi], a.selected->0);
    if found {
        &&& *b == *a
        &&& r matches KeyEffect::Copy { payload, command: c }
        &&& c == command
        &&& exists|pi: int|
            0 <= pi < a.projects@.len() && project_payload_ok(#[trigger] a.projects@[pi], a.selected->0, payload)
    } else {
        noticed(a, b, "Select a node to copy its ID hierarchy."@) && r is Nothing
    }
}

/// What scrolling the details does.
pub open spec fn scrolled_to(a: &ExplorerState, b: &ExplorerState, pos: usize) -> bool {
    &&& frame(a, b, Changes { selection: true, ..no_changes() })
    &&& b.selected == a.selected
    &&& b.detail_scroll == pos
}

/// The change a command makes to the explorer, and what it leaves for the
/// terminal to do.
pub open spec fn command_result(a: &ExplorerState, b: &ExplorerState, cmd: KeyCommand, r: KeyEffect) -> bool {
    let lines = crate::panes::detail_pane(a).len();
    match cmd {
        KeyCommand::Quit => *b == *a && r is Quit,
        KeyCommand::SaveBusy => noticed(a, b, "Save in progress… please wait."@) && r is Nothing,
        KeyCommand::TitleCancel => title_cancelled(a, b) && r is Nothing,
        KeyCommand::TitleSubmit => title_submitted(a, b, r),
        KeyCommand::TitleEdit(op) => title_edit_result(a, b, op) && r is Nothing,
        KeyCommand::FilterClose => filter_closed(a, b) && r is Nothing,
        KeyCommand::FilterFinish => filter_finished(a, b) && r is Nothing,
        KeyCommand::FilterEdit(op) => filter_edit_result(a, b, op) && r is Nothing,
        KeyCommand::Warn(w) => noticed(a, b, warning_text(w)) && r is Nothing,
        KeyCommand::ToggleFocus => focused(a, b, other_pane(a.focus)) && r is Nothing,
        KeyCommand::Save => match r {
            KeyEffect::Save(req) => save_request_result(a, b, Some(req)),
            KeyEffect::Nothing => save_request_result(a, b, None),
            _ => false,
        },
        KeyCommand::Discard => r is Nothing && exists|m: ExplorerState|
            #![trigger draft_discarded(a, &m)]
            draft_discarded(a, &m) && noticed(&m, b, "Discarded local card edits."@),
        KeyCommand::StartFilter => filter_started(a, b) && r is Nothing,
        KeyCommand::ToggleView => toggle_result(a, b) && r is Nothing,
        KeyCommand::Refresh => match r {
            KeyEffect::Refresh(t) => refresh_result(a, b, target_view(Some(t))),
            KeyEffect::Nothing => refresh_result(a, b, None),
            _ => false,
        },
        KeyCommand::EditTitle => r is Nothing && if selected_card(a) is Some {
            title_started(a, b)
        } else {
            noticed(a, b, "Select card first to edit title."@)
        },
        KeyCommand::EditDescription => description_opened(a, b, r),
        KeyCommand::ToggleLive => live_toggled(a, b, r),
        KeyCommand::ScrollTop => scrolled_to(a, b, 0) && r is Nothing,
        KeyCommand::ScrollBottom => scrolled_to(
            a,
            b,
            if lines == 0 {
                0
            } else {
                (lines - 1) as usize
            },
        ) && r is Nothing,
        KeyCommand::ScrollBy(d) => scrolled_to(a, b, crate::actions::scrolled(a.detail_scroll, d, lines as usize))
            && r is Nothing,
        KeyCommand::ToggleDebug => frame(a, b, Changes { ui: true, ..no_changes() }) && b.focus == a.focus
            && b.show_debug_log == !a.show_debug_log && r is Nothing,
        KeyCommand::CopyJson => copied(a, b, r, false),
        KeyCommand::CopyCommand => copied(a, b, r, true),
        KeyCommand::Move(d) => moved_by(a, b, d) && r is Nothing,
        KeyCommand::Collapse => collapse_result(a, b, crate::text::spec_trim(active_query(a)).len() > 0)
            && r is Nothing,
        KeyCommand::Expand => match r {
            KeyEffect::LoadBoard(id) => expand_result(a, b, Some(id@)),
            KeyEffect::Nothing => expand_result(a, b, None),
            _ => false,
        },
        KeyCommand::FocusExplorer => focused(a, b, PaneFocus::Explorer) && r is Nothing,
        KeyCommand::FocusDetails => focused(a, b, PaneFocus::Details) && r is Nothing,
        KeyCommand::Ignore => *b == *a && r is Nothing,
    }
}

/// The description kept after the editor closes on `text`: the current
/// one when the text is it (with or without a final newline), nothing when
/// the text is blank, else the text.
pub open spec fn spec_edited_description(current: Option<Seq<char>>, text: Seq<char>) -> Option<Seq<char>> {
    if current is Some && (text == current->0 || text == current->0.push('\n')) {
        current
    } else if crate::text::spec_trim(text).len() == 0 {
        None
    } else {
        Some(text)
    }
}

/// The description kept after the editor closes on `text`.
pub fn edited_description(current: Option<&str>, text: &str) -> (r: Option<String>)
    ensures
        opt_text(r) == spec_edited_description(crate::config::opt_view(current), text@),
{
    match current {
        Some(existing) => {
            let with_newline = crate::detail::cat(existing, "\n");
            proof {
                reveal_strlit("\n");
                assert(with_newline@ =~= existing@.push('\n'));
            }
            if str_eq(text, existing) || str_eq(text, with_newline.as_str()) {
                return Some(existing.to_string());
            }
        },
        None => {},
    }
    let trimmed = crate::text::trim(text);
    if trimmed.as_str().is_empty() {
        None
    } else {
        Some(text.to_string())
    }
}

/// The notice for a refused key.
fn warning_message(w: Warning) -> (r: String)
    ensures
        r@ == warning_text(w),
{
    match w {
        Warning::Quit => "Unsaved card changes. Ctrl-s save • Ctrl-x discard.".to_string(),
        Warning::View => "Save or discard dirty card before changing explorer view.".to_string(),
        Warning::Refresh => "Save or discard dirty card before refreshing hierarchy.".to_string(),
        Warning::Selection => "Save or discard dirty card before changing selection.".to_string(),
    }
}

/// The edit a key makes in a text editor, apart from typing.
fn editor_op_exec(k: Key) -> (r: Option<EditOp>)
    ensures
        r == editor_op(k),
{
    match k {
        Key::Left => Some(EditOp::Left),
        Key::Right => Some(EditOp::Right),
        Key::Home => Some(EditOp::Home),
        Key::End => Some(EditOp::End),
        Key::Backspace => Some(EditOp::Backspace),
        Key::Delete => Some(EditOp::Delete),
        _ => None,
    }
}

impl ExplorerState {
    /// Whether the editors' cursors lie within their texts.
    pub fn editors_consistent(&self) -> (r: bool)
        ensures
            r == editors_wf(self),
    {
        let title_ok = match &self.title_editor {
            Some(e) => e.cursor <= crate::editor::char_count(&e.buffer),
            None => true,
        };
        let filter_ok = match &self.filter_editor {
            Some(e) => e.cursor <= crate::editor::char_count(&e.buffer),
            None => true,
        };
        title_ok && filter_ok
    }

    /// Moves the focus to the other pane.
    pub fn toggle_focus(&mut self)
        ensures
            focused(old(self), final(self), other_pane(old(self).focus)),
    {
        self.focus = match self.focus {
            PaneFocus::Explorer => PaneFocus::Details,
            PaneFocus::Details => PaneFocus::Explorer,
        };
    }

    /// Gives the focus to the explorer.
    pub fn focus_explorer(&mut self)
        ensures
            focused(old(self), final(self), PaneFocus::Explorer),
    {
        self.focus = PaneFocus::Explorer;
    }

    /// Gives the focus to the details.
    pub fn focus_details(&mut self)
        ensures
            focused(old(self), final(self), PaneFocus::Details),
    {
        self.focus = PaneFocus::Details;
    }

    /// Shows or hides the log of recent live events.
    pub fn toggle_debug_log(&mut self)
        ensures
            frame(old(self), final(self), Changes { ui: true, ..no_changes() }),
            final(self).focus == old(self).focus,
            final(self).show_debug_log == !old(self).show_debug_log,
    {
        self.show_debug_log = !self.show_debug_log;
    }

    /// What is copied for the selected row.
    pub fn fast_copy(&self) -> (r: Option<FastCopy>)
        ensures
            r is None <==> !(self.selected is Some && exists|pi: int|
                0 <= pi < self.projects@.len() && project_has_hit(#[trigger] self.projects@[pi], self.selected->0)),
            r matches Some(fc) ==> self.selected is Some && exists|pi: int|
                0 <= pi < self.projects@.len() && project_payload_ok(
                    #[trigger] self.projects@[pi],
                    self.selected->0,
                    fc,
                ),
    {
        match &self.selected {
            Some(k) => crate::explorer::fast_copy_for(self.projects.as_slice(), k),
            None => None,
        }
    }

    /// What a character key stands for outside the editors.
    fn char_command_exec(&self, c: char, ctrl: bool) -> (r: KeyCommand)
        ensures
            r == char_command(self, c, ctrl),
    {
        let dirty = self.has_dirty_card_draft();
        let details = self.focus == PaneFocus::Details;
        let explorer = !details;
        if c == 'q' {
            if dirty { KeyCommand::Warn(Warning::Quit) } else { KeyCommand::Quit }
        } else if c == 's' && ctrl {
            KeyCommand::Save
        } else if c == 'x' && ctrl && dirty {
            KeyCommand::Discard
        } else if c == '/' {
            KeyCommand::StartFilter
        } else if c == 'v' {
            if dirty { KeyCommand::Warn(Warning::View) } else { KeyCommand::ToggleView }
        } else if (c == 'r' || c == 'R') && !ctrl {
            if dirty { KeyCommand::Warn(Warning::Refresh) } else { KeyCommand::Refresh }
        } else if c == 'e' {
            KeyCommand::EditTitle
        } else if c == 'E' {
            KeyCommand::EditDescription
        } else if c == 'L' {
            KeyCommand::ToggleLive
        } else if c == 'g' && details {
            KeyCommand::ScrollTop
        } else if c == 'G' && details {
            KeyCommand::ScrollBottom
        } else if c == 'd' && details && ctrl {
            KeyCommand::ScrollBy(10)
        } else if c == 'u' && details && ctrl {
            KeyCommand::ScrollBy(-10)
        } else if (c == 'd' || c == 'D') && !ctrl {
            KeyCommand::ToggleDebug
        } else if c == 'y' && !ctrl {
            KeyCommand::CopyJson
        } else if c == 'Y' && !ctrl {
            KeyCommand::CopyCommand
        } else if c == 'j' {
            if explorer { if dirty { KeyCommand::Warn(Warning::Selection) } else { KeyCommand::Move(1) } } else { KeyCommand::ScrollBy(1) }
        } else if c == 'k' {
            if explorer { if dirty { KeyCommand::Warn(Warning::Selection) } else { KeyCommand::Move(-1) } } else { KeyCommand::ScrollBy(-1) }
        } else if c == 'h' {
            if explorer { if dirty { KeyCommand::Warn(Warning::Selection) } else { KeyCommand::Collapse } } else { KeyCommand::FocusExplorer }
        } else if c == 'l' {
            if explorer { if dirty { KeyCommand::Warn(Warning::Selection) } else { KeyCommand::Expand } } else { KeyCommand::FocusDetails }
        } else {
            KeyCommand::Ignore
        }
    }

    /// What a key press stands for in the current state.
    pub fn command_for_key(&self, k: KeyPress) -> (r: KeyCommand)
        ensures
            r == key_command(self, k),
    {
        if k.key == Key::Char('c') && k.ctrl {
            return KeyCommand::Quit;
        }
        if self.saving_card.is_some() {
            return KeyCommand::SaveBusy;
        }
        if self.title_editor.is_some() {
            return match k.key {
                Key::Esc => KeyCommand::TitleCancel,
                Key::Enter => KeyCommand::TitleSubmit,
                Key::Char(c) => if k.ctrl { KeyCommand::Ignore } else { KeyCommand::TitleEdit(EditOp::Insert(c)) },
                _ => match editor_op_exec(k.key) {
                    Some(op) => KeyCommand::TitleEdit(op),
                    None => KeyCommand::Ignore,
                },
            };
        }
        if self.filter_editor.is_some() {
            return match k.key {
                Key::Esc => KeyCommand::FilterClose,
                Key::Enter => KeyCommand::FilterFinish,
                Key::Char(c) => if k.ctrl { KeyCommand::Ignore } else { KeyCommand::FilterEdit(EditOp::Insert(c)) },
                _ => match editor_op_exec(k.key) {
                    Some(op) => KeyCommand::FilterEdit(op),
                    None => KeyCommand::Ignore,
                },
            };
        }
        let details = self.focus == PaneFocus::Details;
        let explorer = !details;
        let dirty = self.has_dirty_card_draft();
        match k.key {
            Key::Char(c) => self.char_command_exec(c, k.ctrl),
            Key::Esc => if dirty { KeyCommand::Warn(Warning::Quit) } else { KeyCommand::Quit },
            Key::Tab | Key::BackTab => KeyCommand::ToggleFocus,
            Key::PageDown => if details { KeyCommand::ScrollBy(10) } else { KeyCommand::Ignore },
            Key::PageUp => if details { KeyCommand::ScrollBy(-10) } else { KeyCommand::Ignore },
            Key::Down => if explorer { if dirty { KeyCommand::Warn(Warning::Selection) } else { KeyCommand::Move(1) } } else { KeyCommand::ScrollBy(1) },
            Key::Up => if explorer { if dirty { KeyCommand::Warn(Warning::Selection) } else { KeyCommand::Move(-1) } } else { KeyCommand::ScrollBy(-1) },
            Key::Left => if explorer { if dirty { KeyCommand::Warn(Warning::Selection) } else { KeyCommand::Collapse } } else { KeyCommand::FocusExplorer },
            Key::Right | Key::Enter => if explorer { if dirty { KeyCommand::Warn(Warning::Selection) } else { KeyCommand::Expand } } else { KeyCommand::FocusDetails },
            _ => KeyCommand::Ignore,
        }
    }

    /// Enter in the title editor: applies the title and saves the card.
    fn submit_title(&mut self) -> (r: KeyEffect)
        ensures
            title_submitted(old(self), final(self), r),
    {
        let ghost a = *self;
        self.apply_title_editor();
        let ghost m1 = *self;
        assert(title_applied_to(&a, &m1));
        let req = self.save_request();
        let ghost q = req;
        let ghost m2 = *self;
        assert(save_request_result(&m1, &m2, q));
        match req {
            Some(x) => KeyEffect::Save(x),
            None => {
                if !self.has_dirty_card_draft() {
                    self.set_notice("No title changes to save.".to_string());
                }
                KeyEffect::Nothing
            },
        }
    }

    /// Carries out a command.
    pub fn run_command(&mut self, cmd: KeyCommand) -> (r: KeyEffect)
        requires
            editors_wf(old(self)),
        ensures
            command_result(old(self), final(self), cmd, r),
            editors_wf(final(self)),
    {
        match cmd {
            KeyCommand::Quit => KeyEffect::Quit,
            KeyCommand::SaveBusy => {
                self.set_notice("Save in progress… please wait.".to_string());
                KeyEffect::Nothing
            },
            KeyCommand::TitleCancel => {
                self.cancel_title_editor();
                KeyEffect::Nothing
            },
            KeyCommand::TitleSubmit => self.submit_title(),
            KeyCommand::TitleEdit(op) => {
                self.edit_title(op);
                KeyEffect::Nothing
            },
            KeyCommand::FilterClose => {
                self.clear_or_close_filter_editor();
                KeyEffect::Nothing
            },
            KeyCommand::FilterFinish => {
                self.finish_filter_editor();
                KeyEffect::Nothing
            },
            KeyCommand::FilterEdit(op) => {
                self.edit_filter(op);
                KeyEffect::Nothing
            },
            KeyCommand::Warn(w) => {
                self.set_notice(warning_message(w));
                KeyEffect::Nothing
            },
            KeyCommand::ToggleFocus => {
                self.toggle_focus();
                KeyEffect::Nothing
            },
            KeyCommand::Save => match self.save_request() {
                Some(q) => KeyEffect::Save(q),
                None => KeyEffect::Nothing,
            },
            KeyCommand::Discard => {
                let ghost a = *self;
                self.discard_card_draft();
                let ghost m = *self;
                assert(draft_discarded(&a, &m));
                self.set_notice("Discarded local card edits.".to_string());
                KeyEffect::Nothing
            },
            KeyCommand::StartFilter => {
                self.start_filter_editor();
                KeyEffect::Nothing
            },
            KeyCommand::ToggleView => {
                self.toggle_explorer_view();
                KeyEffect::Nothing
            },
            KeyCommand::Refresh => match self.queue_hierarchy_refresh() {
                Some(t) => KeyEffect::Refresh(t),
                None => KeyEffect::Nothing,
            },
            KeyCommand::EditTitle => {
                if self.selected_card_id().is_some() {
                    self.start_title_editor();
                } else {
                    self.set_notice("Select card first to edit title.".to_string());
                }
                KeyEffect::Nothing
            },
            KeyCommand::EditDescription => match self.selected_card_id() {
                Some(id) => {
                    let card_id = id.to_string();
                    let ok = self.ensure_card_draft();
                    let current = if ok {
                        match &self.card_draft {
                            Some(d) => match &d.draft_description {
                                Some(t) => Some(t.clone()),
                                None => None,
                            },
                            None => None,
                        }
                    } else {
                        None
                    };
                    KeyEffect::EditDescription { card_id, current }
                },
                None => {
                    self.set_notice("Select card first to edit description.".to_string());
                    KeyEffect::Nothing
                },
            },
            KeyCommand::ToggleLive => match self.selected_board_id() {
                Some(id) => {
                    let board_id = id.to_string();
                    if self.is_live_target(board_id.as_str()) {
                        self.clear_live_board();
                        KeyEffect::StopLive
                    } else {
                        self.switch_live_board(board_id.as_str());
                        KeyEffect::StartLive { board_id, session_id: self.active_socket_session_id }
                    }
                },
                None => {
                    self.set_notice("Select a board to make it live.".to_string());
                    KeyEffect::Nothing
                },
            },
            KeyCommand::ScrollTop => {
                self.scroll_details_to_top();
                KeyEffect::Nothing
            },
            KeyCommand::ScrollBottom => {
                self.scroll_details_to_bottom();
                KeyEffect::Nothing
            },
            KeyCommand::ScrollBy(d) => {
                self.scroll_details_by(d);
                KeyEffect::Nothing
            },
            KeyCommand::ToggleDebug => {
                self.toggle_debug_log();
                KeyEffect::Nothing
            },
            KeyCommand::CopyJson => match self.fast_copy() {
                Some(p) => KeyEffect::Copy { payload: p, command: false },
                None => {
                    self.set_notice("Select a node to copy its ID hierarchy.".to_string());
                    KeyEffect::Nothing
                },
            },
            KeyCommand::CopyCommand => match self.fast_copy() {
                Some(p) => KeyEffect::Copy { payload: p, command: true },
                None => {
                    self.set_notice("Select a node to copy its ID hierarchy.".to_string());
                    KeyEffect::Nothing
                },
            },
            KeyCommand::Move(d) => {
                self.select_relative(d);
                KeyEffect::Nothing
            },
            KeyCommand::Collapse => {
                self.collapse_or_ascend();
                KeyEffect::Nothing
            },
            KeyCommand::Expand => match self.expand_or_descend() {
                Some(id) => KeyEffect::LoadBoard(id),
                None => KeyEffect::Nothing,
            },
            KeyCommand::FocusExplorer => {
                self.focus_explorer();
                KeyEffect::Nothing
            },
            KeyCommand::FocusDetails => {
                self.focus_details();
                KeyEffect::Nothing
            },
            KeyCommand::Ignore => KeyEffect::Nothing,
        }
    }

    /// Handles a key press: carries out the command it stands for and says
    /// what the terminal has to do.
    pub fn handle_key(&mut self, k: KeyPress) -> (r: KeyEffect)
        requires
            editors_wf(old(self)),
        ensures
            command_result(old(self), final(self), key_command(old(self), k), r),
            editors_wf(final(self)),
    {
        let cmd = self.command_for_key(k);
        self.run_command(cmd)
    }
}

/// The draft takes the edited description, when the card has a draft.
pub open spec fn description_put(a: &ExplorerState, b: &ExplorerState, ok: bool, desc: Option<String>) -> bool {
    if ok && a.card_draft is Some {
        frame(a, b, Changes { draft: true, ..no_changes() }) && b.card_draft == Some(
            CardDraft { draft_description: desc, ..a.card_draft->0 },
        )
    } else {
        *b == *a
    }
}

/// What closing the description editor does: an editor failure is
/// announced; otherwise the selected card's draft takes the description,
/// and unless it is unchanged the card is saved (an unchanged or clean
/// draft is announced).
pub open spec fn description_finished(
    a: &ExplorerState,
    b: &ExplorerState,
    current: Option<Seq<char>>,
    outcome: Result<Option<String>, String>,
    r: Option<SaveRequest>,
) -> bool {
    match outcome {
        Err(message) => noticed(a, b, message@) && r is None,
        Ok(desc) => exists|m1: ExplorerState, ok: bool, m2: ExplorerState|
            #![trigger draft_ensured(a, &m1, ok), description_put(&m1, &m2, ok, desc)]
            {
                &&& draft_ensured(a, &m1, ok)
                &&& description_put(&m1, &m2, ok, desc)
                &&& if opt_text(desc) == current {
                    noticed(&m2, b, "No description changes from $EDITOR."@) && r is None
                } else {
                    exists|m3: ExplorerState|
                        #![trigger save_request_result(&m2, &m3, r)]
                        {
                            &&& save_request_result(&m2, &m3, r)
                            &&& if r is Some || has_dirty(&m3) {
                                *b == m3
                            } else {
                                noticed(&m3, b, "No description changes to save."@)
                            }
                        }
                }
            },
    }
}

fn copy_opt_string(o: &Option<String>) -> (r: Option<String>)
    ensures
        r == *o,
{
    match o {
        Some(s) => Some(s.clone()),
        None => None,
    }
}

fn same_text(a: &Option<String>, b: &Option<String>) -> (r: bool)
    ensures
        r == (opt_text(*a) == opt_text(*b)),
{
    match (a, b) {
        (Some(x), Some(y)) => str_eq(x.as_str(), y.as_str()),
        (None, None) => true,
        _ => false,
    }
}

/// The notice after a copy to the clipboard.
pub open spec fn copy_notice(command: bool, breadcrumb: Seq<char>, outcome: Result<(), String>) -> Seq<char> {
    match outcome {
        Ok(_) => if command {
            "Copied snapshot command → clipboard: "@ + breadcrumb
        } else {
            "Copied JSON → clipboard: "@ + breadcrumb
        },
        Err(message) => "Copy failed: "@ + message@,
    }
}

impl ExplorerState {
    /// Takes what the description editor gave back (`current` being the
    /// text it started from) and returns the save to send, if any.
    pub fn finish_description_edit(&mut self, current: Option<String>, outcome: Result<Option<String>, String>) -> (r:
        Option<SaveRequest>)
        ensures
            description_finished(old(self), final(self), opt_text(current), outcome, r),
    {
        let ghost a = *self;
        match outcome {
            Err(message) => {
                self.set_notice(message);
                None
            },
            Ok(desc) => {
                let ok = self.ensure_card_draft();
                let ghost m1 = *self;
                let ghost d = desc;
                if ok {
                    match &mut self.card_draft {
                        Some(draft) => {
                            draft.draft_description = copy_opt_string(&desc);
                        },
                        None => {},
                    }
                }
                let ghost m2 = *self;
                assert(draft_ensured(&a, &m1, ok));
                assert(description_put(&m1, &m2, ok, d));
                if same_text(&desc, &current) {
                    self.set_notice("No description changes from $EDITOR.".to_string());
                    None
                } else {
                    let req = self.save_request();
                    let ghost m3 = *self;
                    assert(save_request_result(&m2, &m3, req));
                    if req.is_none() && !self.has_dirty_card_draft() {
                        self.set_notice("No description changes to save.".to_string());
                    }
                    req
                }
            },
        }
    }

    /// Announces how a copy to the clipboard went.
    pub fn finish_copy(&mut self, command: bool, breadcrumb: &str, outcome: Result<(), String>)
        ensures
            noticed(old(self), final(self), copy_notice(command, breadcrumb@, outcome)),
    {
        let message = match outcome {
            Ok(()) => if command {
                crate::detail::cat("Copied snapshot command → clipboard: ", breadcrumb)
            } else {
                crate::detail::cat("Copied JSON → clipboard: ", breadcrumb)
            },
            Err(e) => crate::detail::cat("Copy failed: ", e.as_str()),
        };
        self.set_notice(message);
    }
}

} // verus!
