//! Editing in the explorer: the draft of a card's title and description,
//! the inline title editor, the filter editor, and the request that saves
//! a draft.

use vstd::prelude::*;

use crate::actions::selected_card;
use crate::board::{opt_text, CardView};
use crate::editor::{seq_insert, seq_remove, FilterEditorState, InlineEditorState};
use crate::explorer::{spec_truncate, truncate, CardDraft};
use crate::lookup::card_of;
use crate::nav::{selection_kept, shown_rows};
use crate::state::{frame, no_changes, tree_view, Changes, ExplorerState};
use crate::text::{push_str, spec_trim, str_eq};

verus! {

/// A change to the edited text or the cursor.
#[derive(Debug, Clone, Copy, PartialEq, Eq)]
pub enum EditOp {
    Insert(char),
    Backspace,
    Delete,
    Left,
    Right,
    Home,
    End,
}

/// The text and cursor after an edit. A cursor past the end inserts at the
/// end.
pub open spec fn edit_text(text: Seq<char>, cursor: int, op: EditOp) -> (Seq<char>, int) {
    match op {
        EditOp::Insert(c) => {
            let at = if cursor <= text.len() {
                cursor
            } else {
                text.len() as int
            };
            (seq_insert(text, at, c), at + 1)
        },
        EditOp::Backspace => if cursor == 0 {
            (text, cursor)
        } else {
            (seq_remove(text, cursor - 1), cursor - 1)
        },
        EditOp::Delete => if cursor >= text.len() {
            (text, cursor)
        } else {
            (seq_remove(text, cursor), cursor)
        },
        EditOp::Left => (text, if cursor == 0 { 0 } else { cursor - 1 }),
        EditOp::Right => (text, if cursor >= text.len() { text.len() as int } else { cursor + 1 }),
        EditOp::Home => (text, 0),
        EditOp::End => (text, text.len() as int),
    }
}

/// Whether an edit needs the cursor within the text (it would fail
/// otherwise).
pub open spec fn needs_cursor_inside(op: EditOp, inline: bool) -> bool {
    match op {
        EditOp::Insert(_) => inline,
        EditOp::Backspace => true,
        _ => false,
    }
}

/// A change to a card: the title or description is kept, set, or (for the
/// description) cleared.
#[derive(Debug, Clone, PartialEq, Eq)]
pub enum DraftFieldUpdate<T> {
    Unchanged,
    Assign(T),
    Clear,
}

/// What saving a draft asks for: the card, and the change of its title and
/// of its description.
#[derive(Debug)]
pub struct SaveRequest {
    pub card_id: String,
    pub title: DraftFieldUpdate<String>,
    pub description: DraftFieldUpdate<String>,
}

/// A draft field update as text.
pub open spec fn update_view(u: DraftFieldUpdate<String>) -> DraftFieldUpdate<Seq<char>> {
    match u {
        DraftFieldUpdate::Unchanged => DraftFieldUpdate::Unchanged,
        DraftFieldUpdate::Assign(v) => DraftFieldUpdate::Assign(v@),
        DraftFieldUpdate::Clear => DraftFieldUpdate::Clear,
    }
}

/// The draft of the selected card exists: a fresh one from the card unless
/// the draft already is of that card.
pub open spec fn draft_ensured(a: &ExplorerState, b: &ExplorerState, r: bool) -> bool {
    match selected_card(a) {
        None => *b == *a && !r,
        Some(cid) => match card_of(a, cid) {
            None => *b == *a && !r,
            Some(c) => r && if a.card_draft is Some && a.card_draft->0.card_id@ == c.id {
                *b == *a
            } else {
                frame(a, b, Changes { draft: true, ..no_changes() }) && b.card_draft is Some && fresh_draft(
                    b.card_draft->0,
                    c,
                )
            },
        },
    }
}

/// A draft fresh from a card: nothing changed yet.
pub open spec fn fresh_draft(d: CardDraft, c: CardView) -> bool {
    &&& d.card_id@ == c.id
    &&& d.base_title@ == c.name
    &&& d.draft_title@ == c.name
    &&& opt_text(d.base_description) == c.description
    &&& opt_text(d.draft_description) == c.description
    &&& !d.remote_changed
}

/// The request to save a draft: the changed fields only, a removed
/// description as a clear.
pub open spec fn save_request_of(d: CardDraft) -> (Seq<char>, DraftFieldUpdate<Seq<char>>, DraftFieldUpdate<Seq<char>>) {
    (
        d.card_id@,
        if d.base_title@ == d.draft_title@ {
            DraftFieldUpdate::Unchanged
        } else {
            DraftFieldUpdate::Assign(d.draft_title@)
        },
        if opt_text(d.base_description) == opt_text(d.draft_description) {
            DraftFieldUpdate::Unchanged
        } else {
            match d.draft_description {
                Some(v) => DraftFieldUpdate::Assign(v@),
                None => DraftFieldUpdate::Clear,
            }
        },
    )
}

/// The draft after the title editor's text is applied to it.
pub open spec fn title_applied(a: &ExplorerState) -> Option<CardDraft> {
    match (a.title_editor, a.card_draft) {
        (Some(e), Some(d)) => if d.card_id@ == e.card_id@ {
            Some(CardDraft { draft_title: e.buffer, ..d })
        } else {
            a.card_draft
        },
        _ => a.card_draft,
    }
}

/// A save request as text.
pub open spec fn request_view(r: Option<SaveRequest>) -> Option<
    (Seq<char>, DraftFieldUpdate<Seq<char>>, DraftFieldUpdate<Seq<char>>),
> {
    match r {
        Some(q) => Some((q.card_id@, update_view(q.title), update_view(q.description))),
        None => None,
    }
}

/// What asking to save does: the title editor's text goes into the draft;
/// then without a draft nothing more happens; an unchanged draft or a save
/// in progress is refused with a notice; otherwise the save starts.
pub open spec fn save_request_result(a: &ExplorerState, b: &ExplorerState, r: Option<SaveRequest>) -> bool {
    let d = title_applied(a);
    &&& b.card_draft == d
    &&& b.title_editor == if a.title_editor is Some {
        None
    } else {
        a.title_editor
    }
    &&& match d {
        None => frame(a, b, Changes { draft: true, title_editor: true, ..no_changes() }) && r is None,
        Some(draft) => if !draft.spec_is_dirty() {
            frame(a, b, Changes { draft: true, title_editor: true, notice: true, ..no_changes() }) && opt_text(
                b.notice,
            ) == Some("No unsaved card changes."@) && r is None
        } else if a.saving_card is Some {
            frame(a, b, Changes { draft: true, title_editor: true, notice: true, ..no_changes() }) && opt_text(
                b.notice,
            ) == Some("Save already in progress."@) && r is None
        } else {
            &&& frame(
                a,
                b,
                Changes { draft: true, title_editor: true, saving_card: true, notice: true, ..no_changes() },
            )
            &&& opt_text(b.saving_card) == Some(draft.card_id@)
            &&& opt_text(b.notice) == Some("Saving card changes…"@)
            &&& request_view(r) == Some(save_request_of(draft))
        },
    }
}

/// What an edit of the title does: the editor's text and cursor change.
pub open spec fn title_edit_result(a: &ExplorerState, b: &ExplorerState, op: EditOp) -> bool {
    &&& frame(a, b, Changes { title_editor: true, ..no_changes() })
    &&& match a.title_editor {
        None => b.title_editor is None,
        Some(e) => {
            let r = edit_text(e.buffer@, e.cursor as int, op);
            b.title_editor is Some && b.title_editor->0.card_id == e.card_id && b.title_editor->0.buffer@ == r.0
                && b.title_editor->0.cursor == r.1
        },
    }
}

/// What an edit of the filter does: the editor's text and cursor change,
/// the query follows the text, and the selection stays on a shown row.
pub open spec fn filter_edit_result(a: &ExplorerState, b: &ExplorerState, op: EditOp) -> bool {
    match a.filter_editor {
        None => *b == *a,
        Some(e) => {
            let r = edit_text(e.buffer@, e.cursor as int, op);
            let text_changed = match op {
                EditOp::Insert(_) => true,
                EditOp::Backspace => e.cursor != 0,
                EditOp::Delete => e.cursor < e.buffer@.len(),
                _ => false,
            };
            &&& b.filter_editor is Some
            &&& b.filter_editor->0.buffer@ == r.0
            &&& b.filter_editor->0.cursor == r.1
            &&& if text_changed {
                &&& frame(a, b, Changes { filter: true, selection: true, ..no_changes() })
                &&& b.filter_query@ == r.0
                &&& selection_kept(a.selected, a.detail_scroll, shown_rows(tree_view(b)), b)
            } else {
                frame(a, b, Changes { filter: true, ..no_changes() }) && b.filter_query == a.filter_query
            }
        },
    }
}

fn copy_opt(o: &Option<String>) -> (r: Option<String>)
    ensures
        r == *o,
{
    match o {
        Some(s) => Some(s.clone()),
        None => None,
    }
}

impl InlineEditorState {
    /// Applies an edit.
    pub fn edit(&mut self, op: EditOp)
        requires
            needs_cursor_inside(op, true) ==> old(self).wf(),
        ensures
            final(self).card_id == old(self).card_id,
            final(self).buffer@ == edit_text(old(self).buffer@, old(self).cursor as int, op).0,
            final(self).cursor == edit_text(old(self).buffer@, old(self).cursor as int, op).1,
    {
        match op {
            EditOp::Insert(c) => self.insert(c),
            EditOp::Backspace => self.backspace(),
            EditOp::Delete => self.delete(),
            EditOp::Left => self.move_left(),
            EditOp::Right => self.move_right(),
            EditOp::Home => self.move_home(),
            EditOp::End => self.move_end(),
        }
    }
}

impl FilterEditorState {
    /// Applies an edit.
    pub fn edit(&mut self, op: EditOp)
        requires
            needs_cursor_inside(op, false) ==> old(self).wf(),
        ensures
            final(self).buffer@ == edit_text(old(self).buffer@, old(self).cursor as int, op).0,
            final(self).cursor == edit_text(old(self).buffer@, old(self).cursor as int, op).1,
    {
        match op {
            EditOp::Insert(c) => self.insert(c),
            EditOp::Backspace => self.backspace(),
            EditOp::Delete => self.delete(),
            EditOp::Left => self.move_left(),
            EditOp::Right => self.move_right(),
            EditOp::Home => self.move_home(),
            EditOp::End => self.move_end(),
        }
    }
}

impl ExplorerState {
    /// Whether the draft has unsaved changes.
    pub fn has_dirty_card_draft(&self) -> (r: bool)
        ensures
            r == (self.card_draft is Some && self.card_draft->0.spec_is_dirty()),
    {
        match &self.card_draft {
            Some(d) => d.is_dirty(),
            None => false,
        }
    }

    /// The draft of card `card_id`, if the draft is of that card.
    pub fn current_card_draft(&self, card_id: &str) -> (r: Option<&CardDraft>)
        ensures
            match r {
                Some(d) => self.card_draft == Some(*d) && d.card_id@ == card_id@,
                None => !(self.card_draft is Some && self.card_draft->0.card_id@ == card_id@),
            },
    {
        match &self.card_draft {
            Some(d) => if str_eq(d.card_id.as_str(), card_id) {
                Some(d)
            } else {
                None
            },
            None => None,
        }
    }

    /// The name of the card being saved: its draft title, else its name.
    pub fn saving_card_label(&self) -> (r: Option<&str>)
        ensures
            crate::config::opt_view(r) == match self.saving_card {
                Some(cid) => if self.card_draft is Some && self.card_draft->0.card_id@ == cid@ {
                    Some(self.card_draft->0.draft_title@)
                } else {
                    match card_of(self, cid@) {
                        Some(c) => Some(c.name),
                        None => None,
                    }
                },
                None => None,
            },
    {
        match &self.saving_card {
            Some(card_id) => match self.current_card_draft(card_id.as_str()) {
                Some(d) => Some(d.draft_title.as_str()),
                None => match self.card_summary(card_id.as_str()) {
                    Some(c) => Some(c.name.as_str()),
                    None => None,
                },
            },
            None => None,
        }
    }

    /// Makes sure a draft of the selected card exists; tells whether it
    /// does.
    pub fn ensure_card_draft(&mut self) -> (r: bool)
        ensures
            draft_ensured(old(self), final(self), r),
    {
        let card_id = match self.selected_card_id() {
            Some(c) => c.to_string(),
            None => {
                return false;
            },
        };
        let draft = match self.card_summary(card_id.as_str()) {
            Some(card) => {
                let keep = match &self.card_draft {
                    Some(d) => str_eq(d.card_id.as_str(), card.id.as_str()),
                    None => false,
                };
                if keep {
                    return true;
                }
                CardDraft {
                    card_id: card.id.clone(),
                    base_title: card.name.clone(),
                    draft_title: card.name.clone(),
                    base_description: copy_opt(&card.description),
                    draft_description: copy_opt(&card.description),
                    remote_changed: false,
                }
            },
            None => {
                return false;
            },
        };
        self.card_draft = Some(draft);
        true
    }

    /// Opens the title editor on the selected card's draft.
    pub fn start_title_editor(&mut self)
        ensures
            title_started(old(self), final(self)),
    {
        let ghost a = *self;
        if !self.ensure_card_draft() {
            return;
        }
        let ghost m = *self;
        let editor = match &self.card_draft {
            Some(d) => InlineEditorState::new(d.card_id.clone(), d.draft_title.clone()),
            None => {
                return;
            },
        };
        self.title_editor = Some(editor);
        self.notice = Some("Editing card title. Type to edit • Enter apply • Esc cancel.".to_owned());
        assert(draft_ensured(&a, &m, true));
    }

    /// Closes the title editor without applying it.
    pub fn cancel_title_editor(&mut self)
        ensures
            title_cancelled(old(self), final(self)),
    {
        self.title_editor = None;
        self.notice = Some("Cancelled title edit.".to_owned());
    }

    /// Closes the title editor, putting its text into the draft of its card.
    pub fn apply_title_editor(&mut self)
        ensures
            frame(old(self), final(self), Changes { draft: true, title_editor: true, ..no_changes() }),
            final(self).title_editor is None,
            final(self).card_draft == title_applied(old(self)),
    {
        let editor = match self.title_editor.take() {
            Some(e) => e,
            None => {
                return;
            },
        };
        match &mut self.card_draft {
            Some(d) => {
                if str_eq(d.card_id.as_str(), editor.card_id.as_str()) {
                    d.draft_title = editor.buffer;
                }
            },
            None => {},
        }
    }

    /// Drops the draft, the title editor, the save in progress and the
    /// notice.
    pub fn discard_card_draft(&mut self)
        ensures
            draft_discarded(old(self), final(self)),
    {
        self.card_draft = None;
        self.title_editor = None;
        self.saving_card = None;
        self.notice = None;
    }

    /// Asks to save the draft; returns what to send.
    pub fn save_request(&mut self) -> (r: Option<SaveRequest>)
        ensures
            save_request_result(old(self), final(self), r),
    {
        if self.title_editor.is_some() {
            self.apply_title_editor();
        }
        let (card_id, title, description) = match &self.card_draft {
            None => {
                return None;
            },
            Some(draft) => {
                if !draft.is_dirty() {
                    self.notice = Some("No unsaved card changes.".to_owned());
                    return None;
                }
                if self.saving_card.is_some() {
                    self.notice = Some("Save already in progress.".to_owned());
                    return None;
                }
                let title = if str_eq(draft.base_title.as_str(), draft.draft_title.as_str()) {
                    DraftFieldUpdate::Unchanged
                } else {
                    DraftFieldUpdate::Assign(draft.draft_title.clone())
                };
                let same_description = match (&draft.base_description, &draft.draft_description) {
                    (Some(a), Some(b)) => str_eq(a.as_str(), b.as_str()),
                    (None, None) => true,
                    _ => false,
                };
                let description = if same_description {
                    DraftFieldUpdate::Unchanged
                } else {
                    match &draft.draft_description {
                        Some(v) => DraftFieldUpdate::Assign(v.clone()),
                        None => DraftFieldUpdate::Clear,
                    }
                };
                (draft.card_id.clone(), title, description)
            },
        };
        self.saving_card = Some(card_id.clone());
        self.notice = Some("Saving card changes…".to_owned());
        Some(SaveRequest { card_id, title, description })
    }

    /// Applies an edit to the title editor, when it is open.
    pub fn edit_title(&mut self, op: EditOp)
        requires
            old(self).title_editor is Some && needs_cursor_inside(op, true) ==> old(self).title_editor->0.wf(),
        ensures
            title_edit_result(old(self), final(self), op),
    {
        match &mut self.title_editor {
            Some(e) => e.edit(op),
            None => {},
        }
    }

    /// Types a character into the title editor.
    pub fn edit_title_insert(&mut self, ch: char)
        requires
            old(self).title_editor is Some ==> old(self).title_editor->0.wf(),
        ensures
            title_edit_result(old(self), final(self), EditOp::Insert(ch)),
    {
        self.edit_title(EditOp::Insert(ch));
    }

    /// Deletes the character before the title editor's cursor.
    pub fn edit_title_backspace(&mut self)
        requires
            old(self).title_editor is Some ==> old(self).title_editor->0.wf(),
        ensures
            title_edit_result(old(self), final(self), EditOp::Backspace),
    {
        self.edit_title(EditOp::Backspace);
    }

    /// Deletes the character under the title editor's cursor.
    pub fn edit_title_delete(&mut self)
        ensures
            title_edit_result(old(self), final(self), EditOp::Delete),
    {
        self.edit_title(EditOp::Delete);
    }

    /// Moves the title editor's cursor left.
    pub fn edit_title_move_left(&mut self)
        ensures
            title_edit_result(old(self), final(self), EditOp::Left),
    {
        self.edit_title(EditOp::Left);
    }

    /// Moves the title editor's cursor right.
    pub fn edit_title_move_right(&mut self)
        ensures
            title_edit_result(old(self), final(self), EditOp::Right),
    {
        self.edit_title(EditOp::Right);
    }

    /// Moves the title editor's cursor to the start.
    pub fn edit_title_move_home(&mut self)
        ensures
            title_edit_result(old(self), final(self), EditOp::Home),
    {
        self.edit_title(EditOp::Home);
    }

    /// Moves the title editor's cursor to the end.
    pub fn edit_title_move_end(&mut self)
        ensures
            title_edit_result(old(self), final(self), EditOp::End),
    {
        self.edit_title(EditOp::End);
    }

    /// The filter query follows the filter editor's text; the selection
    /// stays on a shown row.
    fn sync_filter_editor(&mut self)
        ensures
            match old(self).filter_editor {
                None => *final(self) == *old(self),
                Some(e) => {
                    &&& frame(old(self), final(self), Changes { filter: true, selection: true, ..no_changes() })
                    &&& final(self).filter_editor == old(self).filter_editor
                    &&& final(self).filter_query@ == e.buffer@
                    &&& selection_kept(old(self).selected, old(self).detail_scroll, shown_rows(tree_view(final(self))), final(self))
                },
            },
    {
        let query = match &self.filter_editor {
            Some(e) => e.buffer.clone(),
            None => {
                return;
            },
        };
        self.filter_query = query;
        self.ensure_selected_visible();
    }

    /// Applies an edit to the filter editor, when it is open; the filter
    /// follows a changed text.
    pub fn edit_filter(&mut self, op: EditOp)
        requires
            old(self).filter_editor is Some && needs_cursor_inside(op, false) ==> old(self).filter_editor->0.wf(),
        ensures
            filter_edit_result(old(self), final(self), op),
    {
        let text_changed = match &self.filter_editor {
            None => {
                return;
            },
            Some(e) => match op {
                EditOp::Insert(_) => true,
                EditOp::Backspace => e.cursor != 0,
                EditOp::Delete => {
                    let n = crate::text::chars_of(e.buffer.as_str()).len();
                    e.cursor < n
                },
                _ => false,
            },
        };
        match &mut self.filter_editor {
            Some(e) => e.edit(op),
            None => {},
        }
        if text_changed {
            self.sync_filter_editor();
        }
    }

    /// Types a character into the filter editor.
    pub fn edit_filter_insert(&mut self, ch: char)
        ensures
            filter_edit_result(old(self), final(self), EditOp::Insert(ch)),
    {
        self.edit_filter(EditOp::Insert(ch));
    }

    /// Deletes the character before the filter editor's cursor.
    pub fn edit_filter_backspace(&mut self)
        requires
            old(self).filter_editor is Some ==> old(self).filter_editor->0.wf(),
        ensures
            filter_edit_result(old(self), final(self), EditOp::Backspace),
    {
        self.edit_filter(EditOp::Backspace);
    }

    /// Deletes the character under the filter editor's cursor.
    pub fn edit_filter_delete(&mut self)
        ensures
            filter_edit_result(old(self), final(self), EditOp::Delete),
    {
        self.edit_filter(EditOp::Delete);
    }

    /// Moves the filter editor's cursor left.
    pub fn edit_filter_move_left(&mut self)
        ensures
            filter_edit_result(old(self), final(self), EditOp::Left),
    {
        self.edit_filter(EditOp::Left);
    }

    /// Moves the filter editor's cursor right.
    pub fn edit_filter_move_right(&mut self)
        ensures
            filter_edit_result(old(self), final(self), EditOp::Right),
    {
        self.edit_filter(EditOp::Right);
    }

    /// Moves the filter editor's cursor to the start.
    pub fn edit_filter_move_home(&mut self)
        ensures
            filter_edit_result(old(self), final(self), EditOp::Home),
    {
        self.edit_filter(EditOp::Home);
    }

    /// Moves the filter editor's cursor to the end.
    pub fn edit_filter_move_end(&mut self)
        ensures
            filter_edit_result(old(self), final(self), EditOp::End),
    {
        self.edit_filter(EditOp::End);
    }

    /// Opens the filter editor on the current query.
    pub fn start_filter_editor(&mut self)
        ensures
            filter_started(old(self), final(self)),
    {
        self.filter_editor = Some(FilterEditorState::new(self.filter_query.clone()));
        self.notice = Some("Filter explorer rows by text or glob (*, ?).".to_owned());
    }

    /// Closes the filter editor, keeping its query, and announces the
    /// filter.
    pub fn finish_filter_editor(&mut self)
        ensures
            filter_finished(old(self), final(self)),
    {
        self.sync_filter_editor();
        self.filter_editor = None;
        if self.has_active_filter() {
            let mut notice = String::new();
            push_str(&mut notice, "Explorer filter active: ");
            let cut = truncate(self.active_filter_query(), 60);
            push_str(&mut notice, cut.as_str());
            self.notice = Some(notice);
        } else {
            self.notice = Some("Explorer filter cleared.".to_owned());
        }
    }

    /// Empties the filter editor, or closes it when it is empty already.
    pub fn clear_or_close_filter_editor(&mut self)
        ensures
            filter_closed(old(self), final(self)),
    {
        let empty = match &self.filter_editor {
            None => {
                return;
            },
            Some(e) => e.buffer.as_str().is_empty(),
        };
        if empty {
            self.filter_editor = None;
            self.notice = Some("Exited filter mode.".to_owned());
        } else {
            match &mut self.filter_editor {
                Some(e) => e.clear(),
                None => {},
            }
            self.sync_filter_editor();
            self.notice = Some("Explorer filter cleared. Esc again to close filter mode.".to_owned());
        }
    }
}

/// What cancelling the title editor does: the editor closes and says so.
pub open spec fn title_cancelled(a: &ExplorerState, b: &ExplorerState) -> bool {
    &&& (frame(a, b, Changes { title_editor: true, notice: true, ..no_changes() }))
    &&& (b.title_editor is None)
    &&& (opt_text(b.notice) == Some("Cancelled title edit."@))
}

/// What Esc in the filter editor does: an empty editor closes, a non-empty one is emptied and the filter cleared.
pub open spec fn filter_closed(a: &ExplorerState, b: &ExplorerState) -> bool {
    &&& (match a.filter_editor {
        None => *b == *a,
        Some(e) => if e.buffer@.len() == 0 {
            frame(a, b, Changes { filter: true, notice: true, ..no_changes() })
                && b.filter_editor is None && b.filter_query == a.filter_query
                && opt_text(b.notice) == Some("Exited filter mode."@)
        } else {
            &&& frame(a, b, Changes { filter: true, selection: true, notice: true, ..no_changes() })
            &&& b.filter_editor is Some
            &&& b.filter_editor->0.buffer@.len() == 0
            &&& b.filter_editor->0.cursor == 0
            &&& b.filter_query@.len() == 0
            &&& selection_kept(a.selected, a.detail_scroll, shown_rows(tree_view(b)), b)
            &&& opt_text(b.notice) == Some("Explorer filter cleared. Esc again to close filter mode."@)
        }
    })
}

/// What closing the filter editor does: its text becomes the filter, and the filter is announced.
pub open spec fn filter_finished(a: &ExplorerState, b: &ExplorerState) -> bool {
    &&& (b.filter_editor is None)
    &&& (({
        let q = match a.filter_editor {
            Some(e) => e.buffer@,
            None => a.filter_query@,
        };
        &&& b.filter_query@ == q
        &&& opt_text(b.notice) == Some(
            if spec_trim(q).len() > 0 {
                "Explorer filter active: "@ + spec_truncate(q, 60)
            } else {
                "Explorer filter cleared."@
            },
        )
        &&& frame(a, b, Changes { filter: true, selection: true, notice: true, ..no_changes() })
    }))
    &&& (a.filter_editor is None ==> b.selected == a.selected && b.detail_scroll
        == a.detail_scroll)
    &&& (a.filter_editor is Some ==> selection_kept(
        a.selected,
        a.detail_scroll,
        shown_rows(tree_view(b)),
        b
    ))
}

/// What opening the filter editor does: it starts from the current filter, with the cursor at its end.
pub open spec fn filter_started(a: &ExplorerState, b: &ExplorerState) -> bool {
    &&& (frame(a, b, Changes { filter: true, notice: true, ..no_changes() }))
    &&& (b.filter_query == a.filter_query)
    &&& (b.filter_editor is Some)
    &&& (b.filter_editor->0.wf())
    &&& (b.filter_editor->0.buffer@ == a.filter_query@)
    &&& (b.filter_editor->0.cursor == a.filter_query@.len())
    &&& (opt_text(b.notice) == Some("Filter explorer rows by text or glob (*, ?)."@))
}

/// What discarding the draft does: the draft, the title editor, the saving mark and the notice are dropped.
pub open spec fn draft_discarded(a: &ExplorerState, b: &ExplorerState) -> bool {
    &&& (frame(
        a,
        b,
        Changes { draft: true, title_editor: true, saving_card: true, notice: true, ..no_changes() }
    ))
    &&& (b.card_draft is None && b.title_editor is None && b.saving_card is None
        && b.notice is None)
}

/// What opening the title editor does, when a card is selected: it edits the card's draft title, the draft made fresh unless it already is the card's.
pub open spec fn title_started(a: &ExplorerState, b: &ExplorerState) -> bool {
    &&& (({
        let ensured = selected_card(a) is Some && card_of(a, selected_card(a)->0) is Some;
        if !ensured {
            *b == *a
        } else {
            &&& frame(a, b, Changes { draft: true, title_editor: true, notice: true, ..no_changes() })
            &&& b.card_draft is Some
            &&& b.title_editor is Some
            &&& b.title_editor->0.wf()
            &&& b.title_editor->0.card_id == b.card_draft->0.card_id
            &&& b.title_editor->0.buffer@ == b.card_draft->0.draft_title@
            &&& b.title_editor->0.cursor == b.card_draft->0.draft_title@.len()
            &&& opt_text(b.notice) == Some(
                "Editing card title. Type to edit • Enter apply • Esc cancel."@,
            )
        }
    }))
    &&& (selected_card(a) is Some && card_of(a, selected_card(a)->0) is Some ==> {
        let c = card_of(a, selected_card(a)->0)->0;
        if a.card_draft is Some && a.card_draft->0.card_id@ == c.id {
            b.card_draft == a.card_draft
        } else {
            fresh_draft(b.card_draft->0, c)
        }
    })
}

} // verus!
