//! The detail pane: the lines shown for the selected project, board, list,
//! label group or card, as styled text segments. The terminal maps each
//! tone to a colour and weight.

use vstd::prelude::*;

use crate::order::views;
use crate::text::{decimal, push_decimal, push_str, spec_trim, trim};

verus! {

/// The colour of a status chip.
#[derive(Debug, Clone, Copy, PartialEq, Eq)]
pub enum Hue {
    Yellow,
    LightYellow,
    LightGreen,
    LightBlue,
    Gray,
    LightRed,
    Magenta,
}

/// How a piece of detail text is shown.
#[derive(Debug, Clone, Copy, PartialEq, Eq)]
pub enum Tone {
    /// Unstyled text.
    Plain,
    /// The kind of the selected entity (magenta, bold).
    Kind,
    /// A prominent value: the entity's name, a comment's author (white, bold).
    Strong,
    /// A section heading (light cyan, bold).
    Heading,
    /// A field label (yellow, bold).
    Key,
    /// A name next to its id (white).
    Name,
    /// A value or a muted note (gray).
    Soft,
    /// Ids, bullets, timestamps and empty states (dark gray).
    Faint,
    /// A status chip (bold, in its colour).
    Chip(Hue),
}

/// A run of text in one tone.
#[derive(Debug, Clone)]
pub struct Segment {
    pub text: String,
    pub tone: Tone,
}

/// One line of the detail pane; a line without segments is blank.
#[derive(Debug, Clone)]
pub struct DetailLine {
    pub segments: Vec<Segment>,
}

impl View for Segment {
    type V = (Seq<char>, Tone);

    open spec fn view(&self) -> (Seq<char>, Tone) {
        (self.text@, self.tone)
    }
}

impl View for DetailLine {
    type V = Seq<(Seq<char>, Tone)>;

    open spec fn view(&self) -> Seq<(Seq<char>, Tone)> {
        views(self.segments@)
    }
}

/// A plain line.
pub open spec fn ln_plain(t: Seq<char>) -> Seq<(Seq<char>, Tone)> {
    seq![(t, Tone::Plain)]
}

/// A blank line.
pub open spec fn ln_blank() -> Seq<(Seq<char>, Tone)> {
    Seq::empty()
}

/// The first line: "selected <kind>".
pub open spec fn ln_title(kind: Seq<char>) -> Seq<(Seq<char>, Tone)> {
    seq![("selected "@ + kind, Tone::Kind)]
}

/// The entity's name, prominent.
pub open spec fn ln_header(value: Seq<char>) -> Seq<(Seq<char>, Tone)> {
    seq![(value, Tone::Strong)]
}

/// "<kind> id: <id>", faint.
pub open spec fn ln_id(kind: Seq<char>, id: Seq<char>) -> Seq<(Seq<char>, Tone)> {
    seq![(kind + " id: "@ + id, Tone::Faint)]
}

/// A section heading "─ <title> ─".
pub open spec fn ln_section(title: Seq<char>) -> Seq<(Seq<char>, Tone)> {
    seq![("─ "@ + title + " ─"@, Tone::Heading)]
}

/// "<label>: <name>  [<id>]" for an enclosing entity.
pub open spec fn ln_context(label: Seq<char>, name: Seq<char>, id: Seq<char>) -> Seq<(Seq<char>, Tone)> {
    seq![(label + ": "@, Tone::Key), (name, Tone::Name), ("  "@, Tone::Plain), ("["@ + id + "]"@, Tone::Faint)]
}

/// "<label>: <value>".
pub open spec fn ln_kv(label: Seq<char>, value: Seq<char>) -> Seq<(Seq<char>, Tone)> {
    seq![(label + ": "@, Tone::Key), (value, Tone::Soft)]
}

/// A note that a section is empty, faint.
pub open spec fn ln_empty_state(text: Seq<char>) -> Seq<(Seq<char>, Tone)> {
    seq![(text, Tone::Faint)]
}

/// "• <name>  <meta>".
pub open spec fn ln_bullet(name: Seq<char>, meta: Seq<char>) -> Seq<(Seq<char>, Tone)> {
    seq![("• "@, Tone::Faint), (name, Tone::Name), ("  "@, Tone::Plain), (meta, Tone::Faint)]
}

/// A muted line indented by four spaces.
pub open spec fn ln_muted_indented(text: Seq<char>) -> Seq<(Seq<char>, Tone)> {
    seq![("    "@ + text, Tone::Soft)]
}

/// A muted line.
pub open spec fn ln_muted(text: Seq<char>) -> Seq<(Seq<char>, Tone)> {
    seq![(text, Tone::Soft)]
}

/// The lines of `s` from its front, `cur` being the line read so far.
pub open spec fn lines_from(s: Seq<char>, cur: Seq<char>) -> Seq<Seq<char>>
    decreases s.len(),
{
    if s.len() == 0 {
        if cur.len() == 0 {
            Seq::empty()
        } else {
            seq![cur]
        }
    } else if s[0] == '\n' {
        seq![strip_cr(cur)] + lines_from(s.drop_first(), Seq::empty())
    } else {
        lines_from(s.drop_first(), cur.push(s[0]))
    }
}

/// A line before a newline loses a final carriage return.
pub open spec fn strip_cr(line: Seq<char>) -> Seq<char> {
    if line.len() > 0 && line.last() == '\r' {
        line.drop_last()
    } else {
        line
    }
}

/// The lines of `s` as `str::lines` yields them: split at each newline, a
/// carriage return right before a newline dropped, no line after a final
/// newline.
pub open spec fn text_lines(s: Seq<char>) -> Seq<Seq<char>> {
    lines_from(s, Seq::empty())
}

/// Each of `ls` as a plain line behind `prefix`.
pub open spec fn plain_lines(ls: Seq<Seq<char>>, prefix: Seq<char>) -> Seq<Seq<(Seq<char>, Tone)>>
    decreases ls.len(),
{
    if ls.len() == 0 {
        Seq::empty()
    } else {
        plain_lines(ls.drop_last(), prefix).push(ln_plain(prefix + ls.last()))
    }
}

/// An optional text, trimmed, one plain line per line; `empty` when there
/// is no text or only whitespace.
pub open spec fn text_block(text: Option<Seq<char>>, empty: Seq<char>) -> Seq<Seq<(Seq<char>, Tone)>> {
    match text {
        None => seq![ln_plain(empty)],
        Some(t) => if spec_trim(t).len() == 0 {
            seq![ln_plain(empty)]
        } else {
            plain_lines(text_lines(spec_trim(t)), Seq::empty())
        },
    }
}

/// A text, trimmed, one plain line per line behind `prefix`; `<empty>`
/// behind the prefix when only whitespace.
pub open spec fn prefixed_block(text: Seq<char>, prefix: Seq<char>) -> Seq<Seq<(Seq<char>, Tone)>> {
    if spec_trim(text).len() == 0 {
        seq![ln_plain(prefix + "<empty>"@)]
    } else {
        plain_lines(text_lines(spec_trim(text)), prefix)
    }
}

/// `a` followed by `b`.
pub fn cat(a: &str, b: &str) -> (r: String)
    ensures
        r@ == a@ + b@,
{
    let mut out = String::new();
    push_str(&mut out, a);
    push_str(&mut out, b);
    out
}

/// `a`, `b` and `c` in a row.
pub fn cat3(a: &str, b: &str, c: &str) -> (r: String)
    ensures
        r@ == a@ + b@ + c@,
{
    let mut out = String::new();
    push_str(&mut out, a);
    push_str(&mut out, b);
    push_str(&mut out, c);
    out
}

/// A line of one segment.
fn line1(text: String, tone: Tone) -> (r: DetailLine)
    ensures
        r@ == seq![(text@, tone)],
{
    let ghost t = text@;
    let mut v: Vec<Segment> = Vec::new();
    v.push(Segment { text, tone });
    assert(views(v@) =~= seq![(t, tone)]);
    DetailLine { segments: v }
}

/// A line of two segments.
fn line2(a: String, ta: Tone, b: String, tb: Tone) -> (r: DetailLine)
    ensures
        r@ == seq![(a@, ta), (b@, tb)],
{
    let ghost (x, y) = (a@, b@);
    let mut v: Vec<Segment> = Vec::new();
    v.push(Segment { text: a, tone: ta });
    v.push(Segment { text: b, tone: tb });
    assert(views(v@) =~= seq![(x, ta), (y, tb)]);
    DetailLine { segments: v }
}

/// A line of four segments.
fn line4(a: String, ta: Tone, b: String, tb: Tone, c: String, tc: Tone, d: String, td: Tone) -> (r: DetailLine)
    ensures
        r@ == seq![(a@, ta), (b@, tb), (c@, tc), (d@, td)],
{
    let ghost (x, y, z, w) = (a@, b@, c@, d@);
    let mut v: Vec<Segment> = Vec::new();
    v.push(Segment { text: a, tone: ta });
    v.push(Segment { text: b, tone: tb });
    v.push(Segment { text: c, tone: tc });
    v.push(Segment { text: d, tone: td });
    assert(views(v@) =~= seq![(x, ta), (y, tb), (z, tc), (w, td)]);
    DetailLine { segments: v }
}

/// A blank line.
pub fn blank() -> (r: DetailLine)
    ensures
        r@ == ln_blank(),
{
    let v: Vec<Segment> = Vec::new();
    assert(views(v@) =~= Seq::<(Seq<char>, Tone)>::empty());
    DetailLine { segments: v }
}

/// A plain line.
pub fn plain(text: &str) -> (r: DetailLine)
    ensures
        r@ == ln_plain(text@),
{
    line1(text.to_string(), Tone::Plain)
}

/// "selected <kind>".
pub fn title_line(kind: &str) -> (r: DetailLine)
    ensures
        r@ == ln_title(kind@),
{
    line1(cat("selected ", kind), Tone::Kind)
}

/// The entity's name, prominent.
pub fn header_line(value: &str) -> (r: DetailLine)
    ensures
        r@ == ln_header(value@),
{
    line1(value.to_string(), Tone::Strong)
}

/// "<kind> id: <id>".
pub fn id_line(kind: &str, id: &str) -> (r: DetailLine)
    ensures
        r@ == ln_id(kind@, id@),
{
    line1(cat3(kind, " id: ", id), Tone::Faint)
}

/// "─ <title> ─".
pub fn section_line(title: &str) -> (r: DetailLine)
    ensures
        r@ == ln_section(title@),
{
    line1(cat3("─ ", title, " ─"), Tone::Heading)
}

/// "<label>: <name>  [<id>]".
pub fn context_line(label: &str, name: &str, id: &str) -> (r: DetailLine)
    ensures
        r@ == ln_context(label@, name@, id@),
{
    line4(cat(label, ": "), Tone::Key, name.to_string(), Tone::Name, "  ".to_string(), Tone::Plain, cat3("[", id, "]"), Tone::Faint)
}

/// "<label>: <value>".
pub fn kv_line(label: &str, value: &str) -> (r: DetailLine)
    ensures
        r@ == ln_kv(label@, value@),
{
    line2(cat(label, ": "), Tone::Key, value.to_string(), Tone::Soft)
}

/// A faint note that a section is empty.
pub fn empty_state_line(text: &str) -> (r: DetailLine)
    ensures
        r@ == ln_empty_state(text@),
{
    line1(text.to_string(), Tone::Faint)
}

/// "• <name>  <meta>".
pub fn bullet_line(name: &str, meta: &str) -> (r: DetailLine)
    ensures
        r@ == ln_bullet(name@, meta@),
{
    line4("• ".to_string(), Tone::Faint, name.to_string(), Tone::Name, "  ".to_string(), Tone::Plain, meta.to_string(), Tone::Faint)
}

/// A muted line indented by four spaces.
pub fn muted_indented_line(text: &str) -> (r: DetailLine)
    ensures
        r@ == ln_muted_indented(text@),
{
    line1(cat("    ", text), Tone::Soft)
}

/// A muted line.
pub fn muted_line(text: &str) -> (r: DetailLine)
    ensures
        r@ == ln_muted(text@),
{
    line1(text.to_string(), Tone::Soft)
}

/// Appends `line`.
pub fn push_line(lines: &mut Vec<DetailLine>, line: DetailLine)
    ensures
        views(final(lines)@) == views(old(lines)@).push(line@),
{
    let ghost l = line@;
    lines.push(line);
    assert(views(lines@) =~= views(old(lines)@).push(l));
}

proof fn lemma_lines_from_step(s: Seq<char>, i: int, cur: Seq<char>)
    requires
        0 <= i < s.len(),
    ensures
        s[i] == '\n' ==> lines_from(s.skip(i), cur) == seq![strip_cr(cur)] + lines_from(s.skip(i + 1), Seq::empty()),
        s[i] != '\n' ==> lines_from(s.skip(i), cur) == lines_from(s.skip(i + 1), cur.push(s[i])),
{
    assert(s.skip(i).drop_first() =~= s.skip(i + 1));
    assert(s.skip(i)[0] == s[i]);
}

proof fn lemma_plain_lines_append(a: Seq<Seq<char>>, b: Seq<Seq<char>>, prefix: Seq<char>)
    ensures
        plain_lines(a + b, prefix) == plain_lines(a, prefix) + plain_lines(b, prefix),
    decreases b.len(),
{
    if b.len() == 0 {
        assert(a + b =~= a);
        assert(plain_lines(a, prefix) + plain_lines(b, prefix) =~= plain_lines(a, prefix));
    } else {
        lemma_plain_lines_append(a, b.drop_last(), prefix);
        assert((a + b).drop_last() =~= a + b.drop_last());
        assert((a + b).last() == b.last());
        assert(plain_lines(a, prefix) + plain_lines(b.drop_last(), prefix).push(ln_plain(prefix + b.last()))
            =~= (plain_lines(a, prefix) + plain_lines(b.drop_last(), prefix)).push(ln_plain(prefix + b.last())));
    }
}

/// Appends the lines of `text` as plain lines behind `prefix`.
fn push_text_lines(lines: &mut Vec<DetailLine>, text: &str, prefix: &str)
    ensures
        views(final(lines)@) == views(old(lines)@) + plain_lines(text_lines(text@), prefix@),
{
    let cs = crate::text::chars_of(text);
    let mut cur: Vec<char> = Vec::new();
    let mut i: usize = 0;
    let ghost s = text@;
    proof {
        assert(s.skip(0) =~= s);
        assert(views(lines@) + plain_lines(Seq::empty(), prefix@) =~= views(lines@));
    }
    while i < cs.len()
        invariant
            i <= cs.len(),
            cs@ == s,
            s == text@,
            views(old(lines)@) + plain_lines(text_lines(s), prefix@) == views(lines@) + plain_lines(
                lines_from(s.skip(i as int), cur@),
                prefix@,
            ),
        decreases cs.len() - i,
    {
        let c = cs[i];
        proof {
            lemma_lines_from_step(s, i as int, cur@);
        }
        if c == '\n' {
            let ghost before = cur@;
            let n = cur.len();
            if n > 0 && cur[n - 1] == '\r' {
                cur.pop();
                assert(cur@ =~= before.drop_last());
            }
            assert(cur@ == strip_cr(before));
            let piece = crate::text::string_from_chars(&cur);
            let line = line1(cat(prefix, piece.as_str()), Tone::Plain);
            let ghost rest = lines_from(s.skip(i + 1), Seq::empty());
            proof {
                let one = seq![strip_cr(before)];
                lemma_plain_lines_append(one, rest, prefix@);
                assert(one.drop_last() =~= Seq::<Seq<char>>::empty());
                assert(plain_lines(one.drop_last(), prefix@) == Seq::<Seq<(Seq<char>, Tone)>>::empty());
                assert(plain_lines(one, prefix@) == plain_lines(one.drop_last(), prefix@).push(
                    ln_plain(prefix@ + strip_cr(before)),
                ));
                assert(plain_lines(one, prefix@) =~= seq![ln_plain(prefix@ + strip_cr(before))]);
            }
            push_line(lines, line);
            cur = Vec::new();
            assert(views(lines@) + plain_lines(lines_from(s.skip(i + 1), cur@), prefix@) =~= views(old(lines)@)
                + plain_lines(text_lines(s), prefix@));
        } else {
            cur.push(c);
        }
        i = i + 1;
    }
    assert(s.skip(i as int) =~= Seq::<char>::empty());
    if cur.len() > 0 {
        let ghost last = cur@;
        let piece = crate::text::string_from_chars(&cur);
        let line = line1(cat(prefix, piece.as_str()), Tone::Plain);
        proof {
            assert(seq![last].drop_last() =~= Seq::<Seq<char>>::empty());
            assert(plain_lines(seq![last].drop_last(), prefix@) == Seq::<Seq<(Seq<char>, Tone)>>::empty());
            assert(plain_lines(seq![last], prefix@) =~= seq![ln_plain(prefix@ + last)]);
        }
        push_line(lines, line);
        assert(views(lines@) =~= views(old(lines)@) + plain_lines(text_lines(s), prefix@));
    } else {
        assert(views(lines@) =~= views(old(lines)@) + plain_lines(text_lines(s), prefix@));
    }
}

/// Appends an optional text as a block, or `empty` when there is none.
pub fn push_text_block(lines: &mut Vec<DetailLine>, text: Option<&str>, empty: &str)
    ensures
        views(final(lines)@) == views(old(lines)@) + text_block(crate::config::opt_view(text), empty@),
{
    match text {
        None => {
            assert(text_block(crate::config::opt_view(text), empty@) == seq![ln_plain(empty@)]);
            push_line(lines, plain(empty));
            assert(views(lines@) =~= views(old(lines)@) + text_block(crate::config::opt_view(text), empty@));
        },
        Some(t) => {
            let trimmed = trim(t);
            if trimmed.as_str().is_empty() {
                push_line(lines, plain(empty));
                assert(views(lines@) =~= views(old(lines)@) + text_block(crate::config::opt_view(text), empty@));
            } else {
                proof {
                    reveal_strlit("");
                    assert(""@ =~= Seq::<char>::empty());
                }
                push_text_lines(lines, trimmed.as_str(), "");
            }
        },
    }
}

/// Appends a text as a block behind `prefix`, or `<empty>` behind it when
/// the text is only whitespace.
pub fn push_prefixed_block(lines: &mut Vec<DetailLine>, text: &str, prefix: &str)
    ensures
        views(final(lines)@) == views(old(lines)@) + prefixed_block(text@, prefix@),
{
    let trimmed = trim(text);
    if trimmed.as_str().is_empty() {
        push_line(lines, plain(cat(prefix, "<empty>").as_str()));
        assert(views(lines@) =~= views(old(lines)@) + prefixed_block(text@, prefix@));
    } else {
        push_text_lines(lines, trimmed.as_str(), prefix);
    }
}

} // verus!
