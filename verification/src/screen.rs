//! The texts of the explorer screen around its panes: a tree row as styled
//! pieces, the header chips, the explorer pane's title, the empty-tree
//! message and the key help.

use vstd::prelude::*;

use crate::detail::{cat, Hue, Segment, Tone};
use crate::explorer::{spec_truncate, truncate};
use crate::keys::has_dirty;
use crate::nav::active_query;
use crate::order::views;
use crate::state::ExplorerState;
use crate::text::{push_str, spec_trim};
use crate::tree::{TreeKind, TreeRow};

verus! {

/// How a piece of a tree row is shown.
#[derive(Debug, Clone, Copy, PartialEq, Eq)]
pub enum RowTone {
    /// Unstyled: indentation and spacing.
    Plain,
    /// The expansion marker (dark gray).
    Marker,
    /// The kind's icon, in the kind's colour.
    Icon(TreeKind),
    /// The label, in the kind's colour (bold for projects).
    Label(TreeKind),
    /// The live badge (light green, bold).
    Live,
    /// The row's meta text (gray).
    Meta,
}

/// A piece of a tree row.
#[derive(Debug, Clone)]
pub struct RowPiece {
    pub text: String,
    pub tone: RowTone,
}

impl View for RowPiece {
    type V = (Seq<char>, RowTone);

    open spec fn view(&self) -> (Seq<char>, RowTone) {
        (self.text@, self.tone)
    }
}

/// Two spaces per level.
pub open spec fn indent(depth: nat) -> Seq<char>
    decreases depth,
{
    if depth == 0 {
        Seq::empty()
    } else {
        indent((depth - 1) as nat) + "  "@
    }
}

/// The expansion marker: open, closed, or a leaf.
pub open spec fn marker(has_children: bool, expanded: bool) -> Seq<char> {
    if has_children {
        if expanded {
            "▾"@
        } else {
            "▸"@
        }
    } else {
        "•"@
    }
}

/// The icon of a row kind.
pub open spec fn icon(k: TreeKind) -> Seq<char> {
    match k {
        TreeKind::Project => "◼"@,
        TreeKind::Board => "▣"@,
        TreeKind::List => "≡"@,
        TreeKind::LabelGroup => "◌"@,
        TreeKind::Card => "·"@,
    }
}

/// A tree row as pieces: indentation, marker, icon, the label cut to 60
/// characters, the live badge, and the meta text cut to 40 characters.
pub open spec fn row_pieces(row: TreeRow) -> Seq<(Seq<char>, RowTone)> {
    seq![
        (indent(row.depth as nat), RowTone::Plain),
        (marker(row.has_children, row.expanded) + " "@, RowTone::Marker),
        (icon(row.kind) + " "@, RowTone::Icon(row.kind)),
        (spec_truncate(row.label@, 60), RowTone::Label(row.kind)),
    ] + (if row.live {
        seq![(" "@, RowTone::Plain), ("LIVE"@, RowTone::Live)]
    } else {
        Seq::empty()
    }) + match row.meta {
        Some(m) => seq![("  "@, RowTone::Plain), (spec_truncate(m@, 40), RowTone::Meta)],
        None => Seq::empty(),
    }
}

fn push_piece(v: &mut Vec<RowPiece>, text: String, tone: RowTone)
    ensures
        views(final(v)@) == views(old(v)@).push((text@, tone)),
{
    let ghost t = text@;
    v.push(RowPiece { text, tone });
    assert(views(v@) =~= views(old(v)@).push((t, tone)));
}

/// The pieces of a tree row.
pub fn render_tree_row(row: &TreeRow) -> (r: Vec<RowPiece>)
    ensures
        views(r@) == row_pieces(*row),
{
    let mut pad = String::new();
    let mut d: usize = 0;
    while d < row.depth
        invariant
            d <= row.depth,
            pad@ == indent(d as nat),
        decreases row.depth - d,
    {
        push_str(&mut pad, "  ");
        d = d + 1;
    }
    let mark = if row.has_children {
        if row.expanded {
            "▾ "
        } else {
            "▸ "
        }
    } else {
        "• "
    };
    let sign = match row.kind {
        TreeKind::Project => "◼ ",
        TreeKind::Board => "▣ ",
        TreeKind::List => "≡ ",
        TreeKind::LabelGroup => "◌ ",
        TreeKind::Card => "· ",
    };
    proof {
        reveal_strlit("▾ ");
        reveal_strlit("▸ ");
        reveal_strlit("• ");
        reveal_strlit("▾");
        reveal_strlit("▸");
        reveal_strlit("•");
        reveal_strlit(" ");
        reveal_strlit("◼ ");
        reveal_strlit("▣ ");
        reveal_strlit("≡ ");
        reveal_strlit("◌ ");
        reveal_strlit("· ");
        reveal_strlit("◼");
        reveal_strlit("▣");
        reveal_strlit("≡");
        reveal_strlit("◌");
        reveal_strlit("·");
        assert(mark@ =~= marker(row.has_children, row.expanded) + " "@);
        assert(sign@ =~= icon(row.kind) + " "@);
    }
    let mut v: Vec<RowPiece> = Vec::new();
    push_piece(&mut v, pad, RowTone::Plain);
    push_piece(&mut v, mark.to_string(), RowTone::Marker);
    push_piece(&mut v, sign.to_string(), RowTone::Icon(row.kind));
    push_piece(&mut v, truncate(row.label.as_str(), 60), RowTone::Label(row.kind));
    let ghost head = views(v@);
    if row.live {
        push_piece(&mut v, " ".to_string(), RowTone::Plain);
        push_piece(&mut v, "LIVE".to_string(), RowTone::Live);
    }
    let ghost mid = views(v@);
    match &row.meta {
        Some(m) => {
            push_piece(&mut v, "  ".to_string(), RowTone::Plain);
            push_piece(&mut v, truncate(m.as_str(), 40), RowTone::Meta);
        },
        None => {},
    }
    assert(views(v@) =~= row_pieces(*row));
    v
}

/// The chips of the header: editing, filtering, a dirty or remotely
/// changed draft, and a save under way.
pub open spec fn header_chips(st: &ExplorerState) -> Seq<(Seq<char>, Tone)> {
    let sep = ("  •  "@, Tone::Plain);
    let filtering = spec_trim(active_query(st)).len() > 0;
    (if st.title_editor is Some {
        seq![sep, crate::panes::chip("EDITING TITLE"@, Hue::LightYellow)]
    } else {
        Seq::empty()
    }) + (if st.filter_editor is Some {
        seq![sep, crate::panes::chip("FILTER MODE"@, Hue::Magenta)]
    } else if filtering {
        seq![sep, crate::panes::chip("FILTER"@, Hue::Magenta)]
    } else {
        Seq::empty()
    }) + (if has_dirty(st) {
        seq![sep, crate::panes::chip("DIRTY"@, Hue::Yellow)]
    } else {
        Seq::empty()
    }) + (if has_dirty(st) && st.card_draft->0.remote_changed {
        seq![sep, crate::panes::chip("REMOTE CHANGED"@, Hue::LightRed)]
    } else {
        Seq::empty()
    }) + (if st.saving_card is Some {
        seq![sep, crate::panes::chip("SAVING"@, Hue::LightBlue)]
    } else {
        Seq::empty()
    })
}

fn push_chip_pair(v: &mut Vec<Segment>, text: &str, hue: Hue)
    ensures
        views(final(v)@) == views(old(v)@) + seq![("  •  "@, Tone::Plain), crate::panes::chip(text@, hue)],
{
    v.push(Segment { text: "  •  ".to_string(), tone: Tone::Plain });
    v.push(Segment { text: crate::detail::cat3(" ", text, " "), tone: Tone::Chip(hue) });
    assert(views(v@) =~= views(old(v)@) + seq![("  •  "@, Tone::Plain), crate::panes::chip(text@, hue)]);
}

/// The help line: what the keys do in the current mode.
pub open spec fn key_help(st: &ExplorerState) -> Seq<char> {
    if st.saving_card is Some {
        "SAVING: waiting for server response • controls paused • Ctrl-c force quit"@
    } else if st.title_editor is Some {
        "TITLE MODE: type text • ←/→ move • Enter save • Esc cancel • Ctrl-c force quit"@
    } else if st.filter_editor is Some {
        "FILTER MODE: type text • * and ? globs • Enter keep • Esc clear/close • Ctrl-c force quit"@
    } else {
        "↑/↓ nav • / filter • →/Enter expand • r refresh • v toggle view • L live on/off • e edit title • E edit description ($EDITOR) • y copy JSON • Y copy cmd • D debug log • Ctrl-c quit"@
    }
}

impl ExplorerState {
    /// The chips of the header.
    pub fn header_chip_segments(&self) -> (r: Vec<Segment>)
        ensures
            views(r@) == header_chips(self),
    {
        let mut v: Vec<Segment> = Vec::new();
        let filtering = self.has_active_filter();
        let dirty = self.has_dirty_card_draft();
        assert(views(v@) =~= Seq::<(Seq<char>, Tone)>::empty());
        if self.title_editor.is_some() {
            push_chip_pair(&mut v, "EDITING TITLE", Hue::LightYellow);
        }
        let ghost a = views(v@);
        if self.filter_editor.is_some() {
            push_chip_pair(&mut v, "FILTER MODE", Hue::Magenta);
        } else if filtering {
            push_chip_pair(&mut v, "FILTER", Hue::Magenta);
        }
        let ghost b = views(v@);
        if dirty {
            push_chip_pair(&mut v, "DIRTY", Hue::Yellow);
        }
        let ghost c = views(v@);
        let remote = match &self.card_draft {
            Some(d) => dirty && d.remote_changed,
            None => false,
        };
        if remote {
            push_chip_pair(&mut v, "REMOTE CHANGED", Hue::LightRed);
        }
        let ghost d = views(v@);
        if self.saving_card.is_some() {
            push_chip_pair(&mut v, "SAVING", Hue::LightBlue);
        }
        assert(views(v@) =~= header_chips(self));
        v
    }

    /// The help line for the current mode.
    pub fn key_help(&self) -> (r: &'static str)
        ensures
            r@ == key_help(self),
    {
        if self.saving_card.is_some() {
            "SAVING: waiting for server response • controls paused • Ctrl-c force quit"
        } else if self.title_editor.is_some() {
            "TITLE MODE: type text • ←/→ move • Enter save • Esc cancel • Ctrl-c force quit"
        } else if self.filter_editor.is_some() {
            "FILTER MODE: type text • * and ? globs • Enter keep • Esc clear/close • Ctrl-c force quit"
        } else {
            "↑/↓ nav • / filter • →/Enter expand • r refresh • v toggle view • L live on/off • e edit title • E edit description ($EDITOR) • y copy JSON • Y copy cmd • D debug log • Ctrl-c quit"
        }
    }

    /// The title of the explorer pane: the view, and the filter when one
    /// is active.
    pub fn explorer_title(&self) -> (r: String)
        ensures
            r@ == "explorer • "@ + crate::actions::view_label(self.explorer_view) + if spec_trim(active_query(self)).len()
                > 0 {
                " • filter: "@ + spec_truncate(active_query(self), 24)
            } else {
                ""@
            },
    {
        let mut out = cat("explorer • ", self.explorer_view.label());
        if self.has_active_filter() {
            push_str(&mut out, " • filter: ");
            push_str(&mut out, truncate(self.active_filter_query(), 24).as_str());
        } else {
            proof {
                reveal_strlit("");
                assert(out@ + ""@ =~= out@);
            }
        }
        out
    }

    /// What the explorer pane says when no row is shown.
    pub fn empty_tree_message(&self) -> (r: String)
        ensures
            r@ == if spec_trim(active_query(self)).len() > 0 {
                "No nodes match filter '"@ + spec_truncate(active_query(self), 60) + "'"@
            } else {
                "No projects visible for this user."@
            },
    {
        if self.has_active_filter() {
            crate::detail::cat3("No nodes match filter '", truncate(self.active_filter_query(), 60).as_str(), "'")
        } else {
            "No projects visible for this user.".to_string()
        }
    }

    /// The filter as the session line shows it: the active query cut to 30
    /// characters, or "none".
    pub fn filter_summary(&self) -> (r: String)
        ensures
            r@ == if spec_trim(active_query(self)).len() > 0 {
                spec_truncate(active_query(self), 30)
            } else {
                "none"@
            },
    {
        if self.has_active_filter() {
            truncate(self.active_filter_query(), 30)
        } else {
            "none".to_string()
        }
    }
}


/// An editor's text split at its cursor: before it, the character under it
/// (a space at the end), and after it.
pub open spec fn cursor_split(text: Seq<char>, cursor: nat) -> (Seq<char>, Seq<char>, Seq<char>) {
    let c = if cursor <= text.len() {
        cursor as int
    } else {
        text.len() as int
    };
    if c < text.len() {
        (text.take(c), seq![text[c]], text.skip(c + 1))
    } else {
        (text, seq![' '], Seq::empty())
    }
}

/// Splits an editor's text at its cursor for display.
pub fn split_at_cursor(text: &str, cursor: usize) -> (r: (String, String, String))
    ensures
        (r.0@, r.1@, r.2@) == cursor_split(text@, cursor as nat),
{
    let cs = crate::text::chars_of(text);
    let c = if cursor <= cs.len() {
        cursor
    } else {
        cs.len()
    };
    let mut before = String::new();
    let mut i: usize = 0;
    while i < c
        invariant
            i <= c <= cs.len(),
            cs@ == text@,
            before@ == cs@.take(i as int),
        decreases c - i,
    {
        crate::text::push_char(&mut before, cs[i]);
        assert(cs@.take(i as int).push(cs@[i as int]) =~= cs@.take(i + 1));
        i = i + 1;
    }
    if c < cs.len() {
        let mut at = String::new();
        crate::text::push_char(&mut at, cs[c]);
        let mut after = String::new();
        let mut j: usize = c + 1;
        while j < cs.len()
            invariant
                c + 1 <= j <= cs.len(),
                cs@ == text@,
                after@ == cs@.subrange(c + 1, j as int),
            decreases cs.len() - j,
        {
            crate::text::push_char(&mut after, cs[j]);
            assert(cs@.subrange(c + 1, j as int).push(cs@[j as int]) =~= cs@.subrange(c + 1, j + 1));
            j = j + 1;
        }
        assert(after@ =~= cs@.skip(c + 1));
        assert(at@ =~= seq![cs@[c as int]]);
        (before, at, after)
    } else {
        assert(before@ =~= text@);
        proof {
            reveal_strlit(" ");
        }
        let at = " ".to_string();
        assert(at@ =~= seq![' ']);
        (before, at, String::new())
    }
}

} // verus!
