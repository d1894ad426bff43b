//! Pure logic of the terminal explorer: text truncation, row filtering by
//! substring or glob, label grouping keys, the clipboard payload copied for
//! a selected entity, and the Base64 encoding used to send it to the
//! terminal clipboard.

use vstd::prelude::*;

use crate::text::{chars_of, contains_chars, is_substring, push_char, push_str, spec_to_lowercase, to_lowercase};

verus! {

/// The first `max` characters of `text`, followed by an ellipsis when
/// characters were cut off.
pub open spec fn spec_truncate(text: Seq<char>, max: nat) -> Seq<char> {
    if text.len() > max {
        text.subrange(0, max as int).push('…')
    } else {
        text
    }
}

/// Shortens `text` to at most `max` characters, marking the cut with `…`.
pub fn truncate(text: &str, max: usize) -> (r: String)
    ensures
        r@ == spec_truncate(text@, max as nat),
{
    let cs = chars_of(text);
    let mut out = String::new();
    let mut i: usize = 0;
    while i < cs.len() && i < max
        invariant
            i <= cs.len(),
            i <= max,
            cs@ == text@,
            out@ == text@.subrange(0, i as int),
        decreases cs.len() - i,
    {
        push_char(&mut out, cs[i]);
        assert(text@.subrange(0, i as int).push(text@[i as int]) =~= text@.subrange(0, i + 1));
        i = i + 1;
    }
    if cs.len() > max {
        push_char(&mut out, '…');
    } else {
        assert(text@.subrange(0, i as int) =~= text@);
    }
    out
}

/// A control character (Unicode general category Cc): U+0000–U+001F and
/// U+007F–U+009F, as `char::is_control` reports.
pub open spec fn is_control(c: char) -> bool {
    (c as u32) <= 0x1f || (0x7f <= (c as u32) && (c as u32) <= 0x9f)
}

/// Every control character replaced by a space.
pub open spec fn spec_sanitize(text: Seq<char>) -> Seq<char> {
    text.map_values(|c: char| if is_control(c) { ' ' } else { c })
}

/// Replaces control characters with spaces so that untrusted names cannot
/// break out of a shell comment line.
pub fn sanitize_shell_comment(text: &str) -> (r: String)
    ensures
        r@ == spec_sanitize(text@),
{
    let cs = chars_of(text);
    let mut out = String::new();
    let mut i: usize = 0;
    while i < cs.len()
        invariant
            i <= cs.len(),
            cs@ == text@,
            out@ == spec_sanitize(text@.subrange(0, i as int)),
        decreases cs.len() - i,
    {
        let c = cs[i];
        let code = c as u32;
        let d = if code <= 0x1f || (0x7f <= code && code <= 0x9f) { ' ' } else { c };
        push_char(&mut out, d);
        assert(spec_sanitize(text@.subrange(0, i + 1)) =~= spec_sanitize(text@.subrange(0, i as int)).push(d));
        i = i + 1;
    }
    assert(text@.subrange(0, cs.len() as int) =~= text@);
    out
}

/// A sanitized text holds no control character, in particular no line break.
pub proof fn law_sanitized_has_no_controls(text: Seq<char>)
    ensures
        forall|i: int| 0 <= i < spec_sanitize(text).len() ==> !is_control(#[trigger] spec_sanitize(text)[i]),
        spec_sanitize(text).len() == text.len(),
{
}

/// `text` with every `'` replaced by `'\''`.
pub open spec fn escape_quotes(text: Seq<char>) -> Seq<char>
    decreases text.len(),
{
    if text.len() == 0 {
        seq![]
    } else {
        let rest = escape_quotes(text.drop_last());
        if text.last() == '\'' {
            rest + "'\\''"@
        } else {
            rest.push(text.last())
        }
    }
}

/// A path quoted for a POSIX shell: wrapped in single quotes, with each
/// single quote written as `'\''`.
pub open spec fn spec_shell_escape(path: Seq<char>) -> Seq<char> {
    seq!['\''] + escape_quotes(path) + seq!['\'']
}

/// Quotes a path for use in a shell command line.
pub fn shell_escape(path: &str) -> (r: String)
    ensures
        r@ == spec_shell_escape(path@),
{
    let cs = chars_of(path);
    let mut out = String::new();
    push_char(&mut out, '\'');
    let mut i: usize = 0;
    while i < cs.len()
        invariant
            i <= cs.len(),
            cs@ == path@,
            out@ == seq!['\''] + escape_quotes(path@.subrange(0, i as int)),
        decreases cs.len() - i,
    {
        let c = cs[i];
        let ghost before = out@;
        if c == '\'' {
            push_str(&mut out, "'\\''");
        } else {
            push_char(&mut out, c);
        }
        assert(path@.subrange(0, i + 1).drop_last() =~= path@.subrange(0, i as int));
        assert(out@ =~= seq!['\''] + escape_quotes(path@.subrange(0, i + 1)));
        i = i + 1;
    }
    assert(path@.subrange(0, cs.len() as int) =~= path@);
    push_char(&mut out, '\'');
    assert(out@ =~= spec_shell_escape(path@));
    out
}

/// The key of a label group row: board, list and label ids joined by `::`,
/// with `__unlabeled` for the group of cards without labels.
pub open spec fn spec_label_group_key(board_id: Seq<char>, list_id: Seq<char>, label_id: Option<Seq<char>>) -> Seq<char> {
    board_id + "::"@ + list_id + "::"@ + match label_id {
        Some(l) => l,
        None => "__unlabeled"@,
    }
}

/// Builds the key of a label group row.
pub fn label_group_key(board_id: &str, list_id: &str, label_id: Option<&str>) -> (r: String)
    ensures
        r@ == spec_label_group_key(board_id@, list_id@, crate::config::opt_view(label_id)),
{
    let mut out = String::new();
    push_str(&mut out, board_id);
    push_str(&mut out, "::");
    push_str(&mut out, list_id);
    push_str(&mut out, "::");
    match label_id {
        Some(l) => push_str(&mut out, l),
        None => push_str(&mut out, "__unlabeled"),
    }
    out
}

/// Texts joined with a separator between consecutive items.
pub open spec fn join_with(items: Seq<Seq<char>>, sep: Seq<char>) -> Seq<char>
    decreases items.len(),
{
    if items.len() == 0 {
        seq![]
    } else if items.len() == 1 {
        items[0]
    } else {
        join_with(items.drop_last(), sep) + sep + items.last()
    }
}

/// Joins texts with a separator.
pub fn join_strings(items: &Vec<String>, sep: &str) -> (r: String)
    ensures
        r@ == join_with(items.deep_view(), sep@),
{
    let ghost v = items.deep_view();
    let mut out = String::new();
    let mut i: usize = 0;
    while i < items.len()
        invariant
            i <= items.len(),
            v == items.deep_view(),
            out@ == join_with(v.subrange(0, i as int), sep@),
        decreases items.len() - i,
    {
        if i > 0 {
            push_str(&mut out, sep);
        }
        push_str(&mut out, items[i].as_str());
        assert(v.subrange(0, i + 1).drop_last() =~= v.subrange(0, i as int));
        assert(v[i as int] == items@[i as int]@);
        i = i + 1;
    }
    assert(v.subrange(0, items.len() as int) =~= v);
    out
}


/// Glob matching where `*` matches any run of characters (possibly empty)
/// and `?` matches exactly one character; other characters match themselves.
pub open spec fn glob(pattern: Seq<char>, text: Seq<char>) -> bool
    decreases pattern.len(), text.len(),
{
    if pattern.len() == 0 {
        text.len() == 0
    } else if pattern.last() == '*' {
        glob(pattern.drop_last(), text) || (text.len() > 0 && glob(pattern, text.drop_last()))
    } else if text.len() == 0 {
        false
    } else if pattern.last() == '?' {
        glob(pattern.drop_last(), text.drop_last())
    } else {
        pattern.last() == text.last() && glob(pattern.drop_last(), text.drop_last())
    }
}

/// Whether `text` matches the glob `pattern` as a whole, computed by dynamic
/// programming over pattern and text prefixes.
pub fn glob_matches(pattern: &str, text: &str) -> (r: bool)
    ensures
        r == glob(pattern@, text@),
{
    let p = chars_of(pattern);
    let t = chars_of(text);
    let ghost ps = p@;
    let ghost ts = t@;
    // row[j] == glob(p[..i], t[..j])
    let mut row: Vec<bool> = Vec::new();
    row.push(true);
    let mut j: usize = 0;
    while j < t.len()
        invariant
            j <= t.len(),
            ts == t@,
            row@.len() == j + 1,
            forall|k: int| 0 <= k <= j ==> #[trigger] row@[k] == glob(ps.subrange(0, 0), ts.subrange(0, k)),
        decreases t.len() - j,
    {
        assert(glob(ps.subrange(0, 0), ts.subrange(0, j + 1)) == false);
        row.push(false);
        j = j + 1;
    }
    let mut i: usize = 0;
    while i < p.len()
        invariant
            i <= p.len(),
            ps == p@,
            ts == t@,
            row@.len() == t.len() + 1,
            forall|k: int| 0 <= k <= t.len() ==> #[trigger] row@[k] == glob(ps.subrange(0, i as int), ts.subrange(0, k)),
        decreases p.len() - i,
    {
        let pc = p[i];
        let ghost pre = ps.subrange(0, i as int);
        let ghost cur = ps.subrange(0, i + 1);
        assert(cur.drop_last() =~= pre);
        assert(cur.last() == pc);
        let mut next: Vec<bool> = Vec::new();
        let first = if pc == '*' { row[0] } else { false };
        assert(first == glob(cur, ts.subrange(0, 0)));
        next.push(first);
        let mut j: usize = 0;
        while j < t.len()
            invariant
                j <= t.len(),
                i < ps.len(),
                ps == p@,
                ts == t@,
                pc == ps[i as int],
                pre == ps.subrange(0, i as int),
                cur == ps.subrange(0, i + 1),
                cur.drop_last() == pre,
                cur.last() == pc,
                row@.len() == t.len() + 1,
                forall|k: int| 0 <= k <= t.len() ==> #[trigger] row@[k] == glob(pre, ts.subrange(0, k)),
                next@.len() == j + 1,
                forall|k: int| 0 <= k <= j ==> #[trigger] next@[k] == glob(cur, ts.subrange(0, k)),
            decreases t.len() - j,
        {
            let v = if pc == '*' {
                row[j + 1] || next[j]
            } else if pc == '?' {
                row[j]
            } else {
                row[j] && pc == t[j]
            };
            assert(ts.subrange(0, j + 1).drop_last() =~= ts.subrange(0, j as int));
            assert(ts.subrange(0, j + 1).last() == t@[j as int]);
            proof {
                let tt = ts.subrange(0, j + 1);
                assert(tt.len() > 0);
                assert(row@[j as int] == glob(pre, ts.subrange(0, j as int)));
                assert(row@[j + 1] == glob(pre, tt));
                assert(next@[j as int] == glob(cur, ts.subrange(0, j as int)));
                assert(v == glob(cur, tt));
            }
            next.push(v);
            j = j + 1;
        }
        row = next;
        i = i + 1;
    }
    assert(ps.subrange(0, p.len() as int) =~= ps);
    assert(ts.subrange(0, t.len() as int) =~= ts);
    row[t.len()]
}

/// Whether an explorer row label matches a filter query, ignoring case: a
/// query holding `*` or `?` is a glob over the whole label, any other query
/// must occur in the label.
pub open spec fn spec_filter_matches(query: Seq<char>, label: Seq<char>) -> bool {
    let q = spec_to_lowercase(query);
    let l = spec_to_lowercase(label);
    if q.contains('*') || q.contains('?') {
        glob(q, l)
    } else {
        is_substring(q, l)
    }
}

/// Whether a row label matches the explorer filter query.
pub fn filter_matches(query: &str, label: &str) -> (r: bool)
    ensures
        r == spec_filter_matches(query@, label@),
{
    let q = to_lowercase(query);
    let l = to_lowercase(label);
    let qc = chars_of(q.as_str());
    let mut has_wildcard = false;
    let mut i: usize = 0;
    while i < qc.len()
        invariant
            i <= qc.len(),
            has_wildcard == (exists|k: int| 0 <= k < i && (qc@[k] == '*' || qc@[k] == '?')),
        decreases qc.len() - i,
    {
        if qc[i] == '*' || qc[i] == '?' {
            has_wildcard = true;
        }
        i = i + 1;
    }
    assert(has_wildcard == (q@.contains('*') || q@.contains('?'))) by {
        if q@.contains('*') {
            let k = choose|k: int| 0 <= k < q@.len() && q@[k] == '*';
            assert(qc@[k] == '*');
        }
        if q@.contains('?') {
            let k = choose|k: int| 0 <= k < q@.len() && q@[k] == '?';
            assert(qc@[k] == '?');
        }
    }
    if has_wildcard {
        glob_matches(q.as_str(), l.as_str())
    } else {
        let lc = chars_of(l.as_str());
        contains_chars(&lc, &qc)
    }
}

/// The Base64 alphabet of RFC 4648: `A`–`Z`, `a`–`z`, `0`–`9`, `+`, `/`.
pub open spec fn b64_char(v: int) -> char {
    if v < 26 {
        ((('A' as int) + v) as u8) as char
    } else if v < 52 {
        ((('a' as int) + v - 26) as u8) as char
    } else if v < 62 {
        ((('0' as int) + v - 52) as u8) as char
    } else if v == 62 {
        '+'
    } else {
        '/'
    }
}

/// Standard padded Base64 (RFC 4648): each group of three bytes becomes four
/// characters; a final group of one or two bytes is padded with `=`.
pub open spec fn spec_base64(input: Seq<u8>) -> Seq<char>
    decreases input.len(),
{
    if input.len() == 0 {
        seq![]
    } else if input.len() == 1 {
        let b0 = input[0] as int;
        seq![b64_char(b0 / 4), b64_char((b0 % 4) * 16), '=', '=']
    } else if input.len() == 2 {
        let b0 = input[0] as int;
        let b1 = input[1] as int;
        seq![b64_char(b0 / 4), b64_char((b0 % 4) * 16 + b1 / 16), b64_char((b1 % 16) * 4), '=']
    } else {
        let b0 = input[0] as int;
        let b1 = input[1] as int;
        let b2 = input[2] as int;
        seq![
            b64_char(b0 / 4),
            b64_char((b0 % 4) * 16 + b1 / 16),
            b64_char((b1 % 16) * 4 + b2 / 64),
            b64_char(b2 % 64),
        ] + spec_base64(input.skip(3))
    }
}

fn b64_char_exec(v: u8) -> (c: char)
    requires
        v < 64,
    ensures
        c == b64_char(v as int),
{
    if v < 26 {
        (65u8 + v) as char
    } else if v < 52 {
        (97u8 + v - 26) as char
    } else if v < 62 {
        (48u8 + v - 52) as char
    } else if v == 62 {
        '+'
    } else {
        '/'
    }
}

/// Encodes bytes as standard padded Base64.
pub fn base64_encode(input: &[u8]) -> (r: String)
    ensures
        r@ == spec_base64(input@),
{
    let mut out = String::new();
    let mut i: usize = 0;
    let n = input.len();
    assert(input@.skip(0) =~= input@);
    while n - i >= 3
        invariant
            i <= n,
            n == input@.len(),
            spec_base64(input@) == out@ + spec_base64(input@.skip(i as int)),
        decreases n - i,
    {
        let b0 = input[i];
        let b1 = input[i + 1];
        let b2 = input[i + 2];
        let ghost rest = input@.skip(i as int);
        assert(rest[0] == b0 && rest[1] == b1 && rest[2] == b2);
        assert(rest.skip(3) =~= input@.skip(i + 3));
        push_char(&mut out, b64_char_exec(b0 / 4));
        push_char(&mut out, b64_char_exec((b0 % 4) * 16 + b1 / 16));
        push_char(&mut out, b64_char_exec((b1 % 16) * 4 + b2 / 64));
        push_char(&mut out, b64_char_exec(b2 % 64));
        i = i + 3;
    }
    let ghost rest = input@.skip(i as int);
    if n - i == 1 {
        let b0 = input[i];
        assert(rest[0] == b0);
        push_char(&mut out, b64_char_exec(b0 / 4));
        push_char(&mut out, b64_char_exec((b0 % 4) * 16));
        push_char(&mut out, '=');
        push_char(&mut out, '=');
    } else if n - i == 2 {
        let b0 = input[i];
        let b1 = input[i + 1];
        assert(rest[0] == b0 && rest[1] == b1);
        push_char(&mut out, b64_char_exec(b0 / 4));
        push_char(&mut out, b64_char_exec((b0 % 4) * 16 + b1 / 16));
        push_char(&mut out, b64_char_exec((b1 % 16) * 4));
        push_char(&mut out, '=');
    }
    assert(out@ =~= spec_base64(input@));
    out
}

/// Base64 output has four characters for every started group of three bytes.
pub proof fn law_base64_length(input: Seq<u8>)
    ensures
        spec_base64(input).len() == 4 * ((input.len() + 2) / 3),
    decreases input.len(),
{
    if input.len() >= 3 {
        law_base64_length(input.skip(3));
    }
}


/// A board label as the explorer shows it.
#[derive(Debug, Clone, PartialEq, Eq)]
pub struct LabelSummary {
    pub id: String,
    pub name: String,
    pub color: Option<String>,
}

/// A user as the explorer shows it.
#[derive(Debug, Clone, PartialEq, Eq)]
pub struct UserSummary {
    pub id: String,
    pub name: String,
    pub username: String,
}

/// A card attachment as the explorer shows it.
#[derive(Debug, Clone, PartialEq, Eq)]
pub struct AttachmentSummary {
    pub id: String,
    pub name: String,
    pub url: Option<String>,
}

/// A task as the explorer shows it.
#[derive(Debug, Clone, PartialEq, Eq)]
pub struct TaskSummary {
    pub id: String,
    pub name: String,
    pub is_completed: bool,
    pub assignee: Option<UserSummary>,
}

/// A task list with its tasks.
#[derive(Debug, Clone, PartialEq, Eq)]
pub struct TaskListSummary {
    pub id: String,
    pub name: String,
    pub tasks: Vec<TaskSummary>,
}

/// A comment with its author, when known.
#[derive(Debug, Clone, PartialEq, Eq)]
pub struct CommentSummary {
    pub id: String,
    pub text: String,
    pub created_at: String,
    pub updated_at: Option<String>,
    pub author: Option<UserSummary>,
}

/// A card of the explorer tree. `position` is the order key of the card's
/// wire position: keys compare as the positions do.
#[derive(Debug, Clone, PartialEq, Eq)]
pub struct CardSummary {
    pub id: String,
    pub name: String,
    pub description: Option<String>,
    pub position: u64,
    pub is_closed: bool,
    pub comments_total: usize,
    pub due_date: Option<String>,
    pub creator: Option<UserSummary>,
    pub labels: Vec<LabelSummary>,
    pub assignees: Vec<UserSummary>,
    pub attachments: Vec<AttachmentSummary>,
    pub task_lists: Vec<TaskListSummary>,
    pub is_subscribed: bool,
}

/// An active list of a board, with its cards and their counts.
#[derive(Debug, Clone, PartialEq, Eq)]
pub struct ListSummary {
    pub id: String,
    pub name: String,
    pub position: u64,
    pub card_count: usize,
    pub active_card_count: usize,
    pub closed_card_count: usize,
    pub cards: Vec<CardSummary>,
}

/// A board with its active lists, labels and members.
#[derive(Debug, Clone, PartialEq, Eq)]
pub struct BoardSummary {
    pub id: String,
    pub name: String,
    pub project_id: String,
    pub position: u64,
    pub total_cards: usize,
    pub active_card_count: usize,
    pub closed_card_count: usize,
    pub active_lists: Vec<ListSummary>,
    pub labels: Vec<LabelSummary>,
    pub members: Vec<UserSummary>,
}

/// A project with its boards.
#[derive(Debug, Clone, PartialEq, Eq)]
pub struct ProjectTree {
    pub id: String,
    pub name: String,
    pub description: Option<String>,
    pub boards: Vec<BoardSummary>,
}

impl BoardSummary {
    /// A board known only by its place in a project, not yet hydrated.
    pub fn stub(project_id: String, id: String, name: String, position: u64) -> (r: Self)
        ensures
            r.id == id && r.name == name && r.project_id == project_id && r.position == position,
            r.total_cards == 0 && r.active_card_count == 0 && r.closed_card_count == 0,
            r.active_lists@.len() == 0 && r.labels@.len() == 0 && r.members@.len() == 0,
    {
        BoardSummary {
            id,
            name,
            project_id,
            position,
            total_cards: 0,
            active_card_count: 0,
            closed_card_count: 0,
            active_lists: Vec::new(),
            labels: Vec::new(),
            members: Vec::new(),
        }
    }

    /// Whether the board's snapshot has been loaded: it has lists or cards.
    pub fn is_loaded(&self) -> (r: bool)
        ensures
            r == (self.active_lists@.len() > 0 || self.total_cards > 0),
    {
        !self.active_lists.is_empty() || self.total_cards > 0
    }
}

/// Label names joined with ", ".
pub open spec fn spec_join_label_names(labels: Seq<LabelSummary>) -> Seq<char> {
    join_with(labels.map_values(|l: LabelSummary| l.name@), ", "@)
}

/// Joins label names with ", ".
pub fn join_label_names(labels: &[LabelSummary]) -> (r: String)
    ensures
        r@ == spec_join_label_names(labels@),
{
    let mut names: Vec<String> = Vec::new();
    let mut i: usize = 0;
    while i < labels.len()
        invariant
            i <= labels.len(),
            names@.len() == i,
            forall|k: int| 0 <= k < i ==> (#[trigger] names@[k])@ == labels@[k].name@,
        decreases labels.len() - i,
    {
        names.push(labels[i].name.clone());
        i = i + 1;
    }
    assert(names.deep_view() =~= labels@.map_values(|l: LabelSummary| l.name@));
    join_strings(&names, ", ")
}

/// A user shown as "name (username)".
pub open spec fn user_display(u: UserSummary) -> Seq<char> {
    u.name@ + " ("@ + u.username@ + ")"@
}

/// Users shown as "name (username)", joined with ", ".
pub open spec fn spec_join_user_names(users: Seq<UserSummary>) -> Seq<char> {
    join_with(users.map_values(|u: UserSummary| user_display(u)), ", "@)
}

/// Joins users as "name (username)" with ", ".
pub fn join_user_names(users: &[UserSummary]) -> (r: String)
    ensures
        r@ == spec_join_user_names(users@),
{
    let mut shown: Vec<String> = Vec::new();
    let mut i: usize = 0;
    while i < users.len()
        invariant
            i <= users.len(),
            shown@.len() == i,
            forall|k: int| 0 <= k < i ==> (#[trigger] shown@[k])@ == user_display(users@[k]),
        decreases users.len() - i,
    {
        let mut one = String::new();
        push_str(&mut one, users[i].name.as_str());
        push_str(&mut one, " (");
        push_str(&mut one, users[i].username.as_str());
        push_str(&mut one, ")");
        shown.push(one);
        i = i + 1;
    }
    assert(shown.deep_view() =~= users@.map_values(|u: UserSummary| user_display(u)));
    join_strings(&shown, ", ")
}

/// Unsaved edits of a card's title and description.
#[derive(Debug, Clone, PartialEq, Eq)]
pub struct CardDraft {
    pub card_id: String,
    pub base_title: String,
    pub draft_title: String,
    pub base_description: Option<String>,
    pub draft_description: Option<String>,
    pub remote_changed: bool,
}

impl CardDraft {
    /// The draft differs from what it was based on.
    pub open spec fn spec_is_dirty(&self) -> bool {
        self.base_title@ != self.draft_title@ || self.base_description.deep_view() != self.draft_description.deep_view()
    }

    /// Whether the title or the description was changed.
    pub fn is_dirty(&self) -> (r: bool)
        ensures
            r == self.spec_is_dirty(),
    {
        let title_changed = !(self.base_title == self.draft_title);
        let description_changed = match (&self.base_description, &self.draft_description) {
            (Some(a), Some(b)) => !(*a == *b),
            (None, None) => false,
            _ => true,
        };
        title_changed || description_changed
    }
}

/// How the explorer tree is organised below a list.
#[derive(Debug, Clone, Copy, PartialEq, Eq)]
pub enum ExplorerView {
    Hierarchy,
    Labels,
}

impl ExplorerView {
    /// The view's name as shown in the status line.
    pub fn label(self) -> (r: &'static str)
        ensures
            self == ExplorerView::Hierarchy ==> r == "hierarchy",
            self == ExplorerView::Labels ==> r == "labels",
    {
        match self {
            ExplorerView::Hierarchy => "hierarchy",
            ExplorerView::Labels => "labels",
        }
    }

    /// The other view.
    pub fn toggle(self) -> (r: Self)
        ensures
            r == spec_toggle(self),
    {
        match self {
            ExplorerView::Hierarchy => ExplorerView::Labels,
            ExplorerView::Labels => ExplorerView::Hierarchy,
        }
    }
}

/// The other view.
pub open spec fn spec_toggle(v: ExplorerView) -> ExplorerView {
    match v {
        ExplorerView::Hierarchy => ExplorerView::Labels,
        ExplorerView::Labels => ExplorerView::Hierarchy,
    }
}

/// Toggling the view twice returns to where it started.
pub proof fn law_toggle_involution(v: ExplorerView)
    ensures
        spec_toggle(spec_toggle(v)) == v,
        spec_toggle(v) != v,
{
}

/// The state of the live websocket connection.
#[derive(Debug, Clone, PartialEq, Eq)]
pub enum ConnectionState {
    /// No board has been made the live target yet.
    Idle,
    Loading,
    Connecting,
    Live,
    Error(String),
}

impl ConnectionState {
    /// The status line text of the state.
    pub open spec fn spec_label(&self) -> Seq<char> {
        match self {
            ConnectionState::Idle => "no live target"@,
            ConnectionState::Loading => "loading"@,
            ConnectionState::Connecting => "connecting raw websocket"@,
            ConnectionState::Live => "live websocket connected"@,
            ConnectionState::Error(message) => "error: "@ + message@,
        }
    }

    /// The status line text of the state.
    pub fn label(&self) -> (r: String)
        ensures
            r@ == self.spec_label(),
    {
        match self {
            ConnectionState::Idle => "no live target".to_owned(),
            ConnectionState::Loading => "loading".to_owned(),
            ConnectionState::Connecting => "connecting raw websocket".to_owned(),
            ConnectionState::Live => "live websocket connected".to_owned(),
            ConnectionState::Error(message) => {
                let mut out = String::new();
                push_str(&mut out, "error: ");
                push_str(&mut out, message.as_str());
                out
            },
        }
    }
}


/// The key of an explorer tree row.
#[derive(Debug, Clone, PartialEq, Eq)]
pub enum TreeKey {
    Project(String),
    Board(String),
    List(String),
    LabelGroup { board_id: String, list_id: String, label_id: Option<String> },
    Card(String),
    GroupedCard { group_key: String, card_id: String },
}

/// What is copied for a selected entity: its breadcrumb, a JSON object of
/// the ids and names along the path, and a shell snippet that fetches it.
#[derive(Debug, Clone, PartialEq, Eq)]
pub struct FastCopy {
    pub breadcrumb: String,
    pub json: String,
    pub command: String,
}

/// A lowercase hexadecimal digit.
pub open spec fn hex_digit(n: int) -> char {
    if n < 10 {
        (n + 48) as char
    } else {
        (n + 87) as char
    }
}

/// How `serde_json` writes one character inside a string literal: `"` and
/// `\` after a backslash, backspace, tab, line feed, form feed and carriage
/// return as `\b`, `\t`, `\n`, `\f`, `\r`, any other character below
/// U+0020 as `\u00` and two lowercase hex digits, and every other character
/// as itself.
pub open spec fn json_escaped_char(c: char) -> Seq<char> {
    if c == '"' {
        seq!['\\', '"']
    } else if c == '\\' {
        seq!['\\', '\\']
    } else if c == '\u{08}' {
        seq!['\\', 'b']
    } else if c == '\t' {
        seq!['\\', 't']
    } else if c == '\n' {
        seq!['\\', 'n']
    } else if c == '\u{0c}' {
        seq!['\\', 'f']
    } else if c == '\r' {
        seq!['\\', 'r']
    } else if (c as u32) < 0x20 {
        seq!['\\', 'u', '0', '0', hex_digit((c as int) / 16), hex_digit((c as int) % 16)]
    } else {
        seq![c]
    }
}

/// The characters of a text as `serde_json` escapes them.
pub open spec fn json_escaped(s: Seq<char>) -> Seq<char>
    decreases s.len(),
{
    if s.len() == 0 {
        seq![]
    } else {
        json_escaped(s.drop_last()) + json_escaped_char(s.last())
    }
}

/// The JSON string literal `serde_json` writes for a text: the escaped text
/// in double quotes.
pub open spec fn spec_json_string(s: Seq<char>) -> Seq<char> {
    seq!['"'] + json_escaped(s) + seq!['"']
}

/// Calls `serde_json::to_string` on a string slice, which yields the quoted,
/// escaped JSON string (`format_escaped_str` with its `ESCAPE` table);
/// serialising a string cannot fail.
#[verifier::external_body]
pub(crate) fn json_string_literal(s: &str) -> (r: String)
    ensures
        r@ == spec_json_string(s@),
{
    serde_json::to_string(s).unwrap_or_default()
}

/// The compact JSON object `{"id":…,"name":…}`.
pub open spec fn spec_id_name_object(id: Seq<char>, name: Seq<char>) -> Seq<char> {
    "{\"id\":"@ + spec_json_string(id) + ",\"name\":"@ + spec_json_string(name) + "}"@
}

/// Renders `{"id":…,"name":…}` with JSON string escaping.
pub fn id_name_object(id: &str, name: &str) -> (r: String)
    ensures
        r@ == spec_id_name_object(id@, name@),
{
    let mut out = String::new();
    push_str(&mut out, "{\"id\":");
    let q = json_string_literal(id);
    push_str(&mut out, q.as_str());
    push_str(&mut out, ",\"name\":");
    let q = json_string_literal(name);
    push_str(&mut out, q.as_str());
    push_str(&mut out, "}");
    out
}

/// An optional item as a sequence of zero or one items.
pub open spec fn opt_seq<A>(o: Option<A>) -> Seq<A> {
    match o {
        Some(a) => seq![a],
        None => seq![],
    }
}

/// The names along a path, joined with " > ".
pub open spec fn spec_breadcrumb(
    p: ProjectTree,
    b: Option<BoardSummary>,
    l: Option<ListSummary>,
    c: Option<CardSummary>,
) -> Seq<char> {
    join_with(
        seq![p.name@] + opt_seq(b).map_values(|x: BoardSummary| x.name@) + opt_seq(l).map_values(
            |x: ListSummary| x.name@,
        ) + opt_seq(c).map_values(|x: CardSummary| x.name@),
        " > "@,
    )
}

/// The JSON object describing a path.
pub open spec fn spec_path_json(
    p: ProjectTree,
    b: Option<BoardSummary>,
    l: Option<ListSummary>,
    c: Option<CardSummary>,
) -> Seq<char> {
    "{\"project\":"@ + spec_id_name_object(p.id@, p.name@) + match b {
        Some(x) => ",\"board\":"@ + spec_id_name_object(x.id@, x.name@),
        None => seq![],
    } + match l {
        Some(x) => ",\"list\":"@ + spec_id_name_object(x.id@, x.name@),
        None => seq![],
    } + match c {
        Some(x) => ",\"card\":"@ + spec_id_name_object(x.id@, x.name@),
        None => seq![],
    } + "}"@
}

/// The CLI command that fetches the deepest entity of a path as JSON.
pub open spec fn spec_snapshot_command(
    p: ProjectTree,
    b: Option<BoardSummary>,
    l: Option<ListSummary>,
    c: Option<CardSummary>,
) -> Seq<char> {
    match c {
        Some(x) => "plnk card snapshot "@ + x.id@ + " --output json"@,
        None => match l {
            Some(x) => "plnk list get "@ + x.id@ + " --output json"@,
            None => match b {
                Some(x) => "plnk board snapshot "@ + x.id@ + " --output json"@,
                None => "plnk project snapshot "@ + p.id@ + " --output json"@,
            },
        },
    }
}

/// The copy payload of a path: breadcrumb, JSON, and a shell snippet made of
/// a comment line holding the sanitized breadcrumb and the command line.
pub open spec fn payload_is(
    fc: FastCopy,
    p: ProjectTree,
    b: Option<BoardSummary>,
    l: Option<ListSummary>,
    c: Option<CardSummary>,
) -> bool {
    &&& fc.breadcrumb@ == spec_breadcrumb(p, b, l, c)
    &&& fc.json@ == spec_path_json(p, b, l, c)
    &&& fc.command@ == "# "@ + spec_sanitize(spec_breadcrumb(p, b, l, c)) + "\n"@ + spec_snapshot_command(p, b, l, c)
        + "\n"@
}

/// Builds the copy payload of a path made of the project and whichever of
/// board, list and card are given; the command fetches the deepest given.
pub fn build_payload(
    project: &ProjectTree,
    board: Option<&BoardSummary>,
    list: Option<&ListSummary>,
    card: Option<&CardSummary>,
) -> (r: FastCopy)
    ensures
        payload_is(r, *project, crate::explorer::opt_deref(board), opt_deref(list), opt_deref(card)),
{
    let ghost pb = opt_deref(board);
    let ghost pl = opt_deref(list);
    let ghost pc = opt_deref(card);
    let mut parts: Vec<String> = Vec::new();
    parts.push(project.name.clone());
    let mut json = String::new();
    push_str(&mut json, "{\"project\":");
    let o = id_name_object(project.id.as_str(), project.name.as_str());
    push_str(&mut json, o.as_str());
    let ghost j0 = json@;
    if let Some(b) = board {
        parts.push(b.name.clone());
        push_str(&mut json, ",\"board\":");
        let o = id_name_object(b.id.as_str(), b.name.as_str());
        push_str(&mut json, o.as_str());
    }
    let ghost j1 = json@;
    assert(j1 =~= j0 + match pb {
        Some(x) => ",\"board\":"@ + spec_id_name_object(x.id@, x.name@),
        None => seq![],
    });
    if let Some(l) = list {
        parts.push(l.name.clone());
        push_str(&mut json, ",\"list\":");
        let o = id_name_object(l.id.as_str(), l.name.as_str());
        push_str(&mut json, o.as_str());
    }
    let ghost j2 = json@;
    assert(j2 =~= j1 + match pl {
        Some(x) => ",\"list\":"@ + spec_id_name_object(x.id@, x.name@),
        None => seq![],
    });
    if let Some(c) = card {
        parts.push(c.name.clone());
        push_str(&mut json, ",\"card\":");
        let o = id_name_object(c.id.as_str(), c.name.as_str());
        push_str(&mut json, o.as_str());
    }
    let ghost j3 = json@;
    assert(j3 =~= j2 + match pc {
        Some(x) => ",\"card\":"@ + spec_id_name_object(x.id@, x.name@),
        None => seq![],
    });
    push_str(&mut json, "}");
    assert(json@ =~= spec_path_json(*project, pb, pl, pc));
    assert(parts.deep_view() =~= seq![project.name@] + opt_seq(pb).map_values(|x: BoardSummary| x.name@)
        + opt_seq(pl).map_values(|x: ListSummary| x.name@) + opt_seq(pc).map_values(|x: CardSummary| x.name@));
    let breadcrumb = join_strings(&parts, " > ");
    let mut snapshot = String::new();
    match card {
        Some(c) => {
            push_str(&mut snapshot, "plnk card snapshot ");
            push_str(&mut snapshot, c.id.as_str());
        },
        None => match list {
            Some(l) => {
                push_str(&mut snapshot, "plnk list get ");
                push_str(&mut snapshot, l.id.as_str());
            },
            None => match board {
                Some(b) => {
                    push_str(&mut snapshot, "plnk board snapshot ");
                    push_str(&mut snapshot, b.id.as_str());
                },
                None => {
                    push_str(&mut snapshot, "plnk project snapshot ");
                    push_str(&mut snapshot, project.id.as_str());
                },
            },
        },
    }
    push_str(&mut snapshot, " --output json");
    let safe = sanitize_shell_comment(breadcrumb.as_str());
    let mut command = String::new();
    push_str(&mut command, "# ");
    push_str(&mut command, safe.as_str());
    push_str(&mut command, "\n");
    push_str(&mut command, snapshot.as_str());
    push_str(&mut command, "\n");
    FastCopy { breadcrumb, json, command }
}

/// A borrowed optional value, as a value.
pub open spec fn opt_deref<A>(o: Option<&A>) -> Option<A> {
    match o {
        Some(a) => Some(*a),
        None => None,
    }
}

/// The card id a selection targets (a card row or a card in a label group).
pub open spec fn sel_card(sel: TreeKey) -> Option<Seq<char>> {
    match sel {
        TreeKey::Card(id) => Some(id@),
        TreeKey::GroupedCard { card_id, .. } => Some(card_id@),
        _ => None,
    }
}

/// The list id a selection targets (a list row or a label group of a list).
pub open spec fn sel_list(sel: TreeKey) -> Option<Seq<char>> {
    match sel {
        TreeKey::List(id) => Some(id@),
        TreeKey::LabelGroup { list_id, .. } => Some(list_id@),
        _ => None,
    }
}

/// The board id a selection targets.
pub open spec fn sel_board(sel: TreeKey) -> Option<Seq<char>> {
    match sel {
        TreeKey::Board(id) => Some(id@),
        _ => None,
    }
}

/// The project id a selection targets.
pub open spec fn sel_project(sel: TreeKey) -> Option<Seq<char>> {
    match sel {
        TreeKey::Project(id) => Some(id@),
        _ => None,
    }
}

/// The list is targeted, or holds the targeted card.
pub open spec fn list_has_hit(l: ListSummary, sel: TreeKey) -> bool {
    ||| sel_list(sel) == Some(l.id@)
    ||| (sel_card(sel) is Some && exists|ci: int| 0 <= ci < l.cards@.len() && (#[trigger] l.cards@[ci]).id@ == sel_card(sel)->0)
}

/// The board is targeted, or one of its lists has a hit.
pub open spec fn board_has_hit(b: BoardSummary, sel: TreeKey) -> bool {
    ||| sel_board(sel) == Some(b.id@)
    ||| exists|li: int| 0 <= li < b.active_lists@.len() && list_has_hit(#[trigger] b.active_lists@[li], sel)
}

/// The project is targeted, or one of its boards has a hit.
pub open spec fn project_has_hit(p: ProjectTree, sel: TreeKey) -> bool {
    ||| sel_project(sel) == Some(p.id@)
    ||| exists|bi: int| 0 <= bi < p.boards@.len() && board_has_hit(#[trigger] p.boards@[bi], sel)
}

/// The payload describes the first hit within the list: the list itself,
/// or else the first of its cards with the targeted id.
pub open spec fn list_payload_ok(p: ProjectTree, b: BoardSummary, l: ListSummary, sel: TreeKey, fc: FastCopy) -> bool {
    ||| (sel_list(sel) == Some(l.id@) && payload_is(fc, p, Some(b), Some(l), None))
    ||| (sel_list(sel) != Some(l.id@) && exists|ci: int|
        0 <= ci < l.cards@.len() && sel_card(sel) == Some((#[trigger] l.cards@[ci]).id@) && (forall|k: int|
            0 <= k < ci ==> Some((#[trigger] l.cards@[k]).id@) != sel_card(sel)) && payload_is(
            fc,
            p,
            Some(b),
            Some(l),
            Some(l.cards@[ci]),
        ))
}

/// The payload describes the first hit within the board: the board itself,
/// or else the first hit of its first list that has one.
pub open spec fn board_payload_ok(p: ProjectTree, b: BoardSummary, sel: TreeKey, fc: FastCopy) -> bool {
    ||| (sel_board(sel) == Some(b.id@) && payload_is(fc, p, Some(b), None, None))
    ||| (sel_board(sel) != Some(b.id@) && exists|li: int|
        0 <= li < b.active_lists@.len() && (forall|k: int|
            0 <= k < li ==> !list_has_hit(#[trigger] b.active_lists@[k], sel)) && list_payload_ok(
            p,
            b,
            #[trigger] b.active_lists@[li],
            sel,
            fc,
        ))
}

/// The payload describes the first hit within the project: the project
/// itself, or else the first hit of its first board that has one.
pub open spec fn project_payload_ok(p: ProjectTree, sel: TreeKey, fc: FastCopy) -> bool {
    ||| (sel_project(sel) == Some(p.id@) && payload_is(fc, p, None, None, None))
    ||| (sel_project(sel) != Some(p.id@) && exists|bi: int|
        0 <= bi < p.boards@.len() && (forall|k: int| 0 <= k < bi ==> !board_has_hit(#[trigger] p.boards@[k], sel))
            && board_payload_ok(p, #[trigger] p.boards@[bi], sel, fc))
}

fn search_list(project: &ProjectTree, board: &BoardSummary, list: &ListSummary, selected: &TreeKey) -> (r: Option<FastCopy>)
    ensures
        r is None <==> !list_has_hit(*list, *selected),
        r matches Some(fc) ==> list_payload_ok(*project, *board, *list, *selected, fc),
{
    let target_list: Option<&String> = match selected {
        TreeKey::List(id) => Some(id),
        TreeKey::LabelGroup { list_id, .. } => Some(list_id),
        _ => None,
    };
    let target_card: Option<&String> = match selected {
        TreeKey::Card(id) => Some(id),
        TreeKey::GroupedCard { card_id, .. } => Some(card_id),
        _ => None,
    };
    if let Some(t) = target_list {
        if str_eq_string(&list.id, t) {
            let fc = build_payload(project, Some(board), Some(list), None);
            return Some(fc);
        }
    }
    if let Some(t) = target_card {
        let mut ci: usize = 0;
        while ci < list.cards.len()
            invariant
                ci <= list.cards@.len(),
                sel_card(*selected) == Some(t@),
                forall|k: int| 0 <= k < ci ==> (#[trigger] list.cards@[k]).id@ != t@,
            decreases list.cards.len() - ci,
        {
            if str_eq_string(&list.cards[ci].id, t) {
                let fc = build_payload(project, Some(board), Some(list), Some(&list.cards[ci]));
                return Some(fc);
            }
            ci = ci + 1;
        }
    }
    None
}

fn search_board(project: &ProjectTree, board: &BoardSummary, selected: &TreeKey) -> (r: Option<FastCopy>)
    ensures
        r is None <==> !board_has_hit(*board, *selected),
        r matches Some(fc) ==> board_payload_ok(*project, *board, *selected, fc),
{
    if let TreeKey::Board(id) = selected {
        if str_eq_string(&board.id, id) {
            return Some(build_payload(project, Some(board), None, None));
        }
    }
    let mut li: usize = 0;
    while li < board.active_lists.len()
        invariant
            li <= board.active_lists@.len(),
            sel_board(*selected) != Some(board.id@),
            forall|k: int| 0 <= k < li ==> !list_has_hit(#[trigger] board.active_lists@[k], *selected),
        decreases board.active_lists.len() - li,
    {
        let found = search_list(project, board, &board.active_lists[li], selected);
        if let Some(fc) = found {
            assert(list_payload_ok(*project, *board, board.active_lists@[li as int], *selected, fc));
            return Some(fc);
        }
        li = li + 1;
    }
    None
}

fn search_project(project: &ProjectTree, selected: &TreeKey) -> (r: Option<FastCopy>)
    ensures
        r is None <==> !project_has_hit(*project, *selected),
        r matches Some(fc) ==> project_payload_ok(*project, *selected, fc),
{
    if let TreeKey::Project(id) = selected {
        if str_eq_string(&project.id, id) {
            return Some(build_payload(project, None, None, None));
        }
    }
    let mut bi: usize = 0;
    while bi < project.boards.len()
        invariant
            bi <= project.boards@.len(),
            sel_project(*selected) != Some(project.id@),
            forall|k: int| 0 <= k < bi ==> !board_has_hit(#[trigger] project.boards@[k], *selected),
        decreases project.boards.len() - bi,
    {
        let found = search_board(project, &project.boards[bi], selected);
        if let Some(fc) = found {
            assert(board_payload_ok(*project, project.boards@[bi as int], *selected, fc));
            return Some(fc);
        }
        bi = bi + 1;
    }
    None
}

/// The copy payload for the selected row: the first project, board, list or
/// card of the tree that the selection targets, with its path; a label
/// group resolves to its list and a grouped card to the card. `None` when
/// nothing in the tree is targeted.
pub fn fast_copy_for(projects: &[ProjectTree], selected: &TreeKey) -> (r: Option<FastCopy>)
    ensures
        r is None <==> forall|pi: int| 0 <= pi < projects@.len() ==> !project_has_hit(#[trigger] projects@[pi], *selected),
        r matches Some(fc) ==> exists|pi: int|
            0 <= pi < projects@.len() && (forall|k: int| 0 <= k < pi ==> !project_has_hit(#[trigger] projects@[k], *selected))
                && project_payload_ok(#[trigger] projects@[pi], *selected, fc),
{
    let mut pi: usize = 0;
    while pi < projects.len()
        invariant
            pi <= projects@.len(),
            forall|k: int| 0 <= k < pi ==> !project_has_hit(#[trigger] projects@[k], *selected),
        decreases projects.len() - pi,
    {
        let found = search_project(&projects[pi], selected);
        if let Some(fc) = found {
            assert(project_payload_ok(projects@[pi as int], *selected, fc));
            return Some(fc);
        }
        pi = pi + 1;
    }
    None
}

/// String equality of two owned strings by value.
fn str_eq_string(a: &String, b: &String) -> (r: bool)
    ensures
        r == (a@ == b@),
{
    *a == *b
}

} // verus!
