//! The explorer's exchanges with the server that do not need the network
//! to be decided: the login outcome, the body of a card update, a
//! project's boards, and the board subscription's answer.

use vstd::prelude::*;

use crate::board::BoardView;
use crate::detail::cat;
use crate::drafts::{update_view, DraftFieldUpdate};
use crate::explorer::{
    join_strings, join_with, json_string_literal, spec_json_string, BoardSummary, CommentSummary, ProjectTree, UserSummary,
};
use crate::order::{sort_stable, sorted_stable, views};
use crate::snapshot::{board_from_snapshot, last_user, BoardSnapshot};
use crate::text::{decimal, push_decimal, push_str};

verus! {

/// What a login answer means.
#[derive(Debug, Clone, Copy, PartialEq, Eq)]
pub enum LoginReply {
    /// A success: the body holds the token.
    Token,
    /// A refusal that may ask for the terms to be accepted first.
    TermsOrRefusal,
    /// A refusal.
    Refused,
}

/// What a login answer with status `status` means: success for 2xx, a
/// possible terms step for 403, a refusal otherwise.
pub open spec fn spec_login_reply(status: u16) -> LoginReply {
    if 200 <= status <= 299 {
        LoginReply::Token
    } else if status == 403 {
        LoginReply::TermsOrRefusal
    } else {
        LoginReply::Refused
    }
}

/// Reads a login answer's status.
pub fn login_reply(status: u16) -> (r: LoginReply)
    ensures
        r == spec_login_reply(status),
{
    if 200 <= status && status <= 299 {
        LoginReply::Token
    } else if status == 403 {
        LoginReply::TermsOrRefusal
    } else {
        LoginReply::Refused
    }
}

/// Whether a 403 login answer asks for the terms to be accepted.
pub fn needs_terms(step: &str) -> (r: bool)
    ensures
        r == (step@ == "accept-terms"@),
{
    crate::text::str_eq(step, "accept-terms")
}

/// The members of a card update's JSON body: the description when it is
/// set or cleared, then the title (`name`) when it is set, as `serde_json`
/// orders an object's keys.
pub open spec fn patch_members(
    title: DraftFieldUpdate<Seq<char>>,
    description: DraftFieldUpdate<Seq<char>>,
) -> Seq<Seq<char>> {
    (match description {
        DraftFieldUpdate::Assign(d) => seq!["\"description\":"@ + spec_json_string(d)],
        DraftFieldUpdate::Clear => seq!["\"description\":null"@],
        DraftFieldUpdate::Unchanged => Seq::empty(),
    }) + match title {
        DraftFieldUpdate::Assign(t) => seq!["\"name\":"@ + spec_json_string(t)],
        _ => Seq::empty(),
    }
}

/// The JSON body of a card update.
pub open spec fn card_patch(title: DraftFieldUpdate<Seq<char>>, description: DraftFieldUpdate<Seq<char>>) -> Seq<
    char,
> {
    "{"@ + join_with(patch_members(title, description), ","@) + "}"@
}

/// Writes the JSON body of a card update.
pub fn card_patch_body(title: &DraftFieldUpdate<String>, description: &DraftFieldUpdate<String>) -> (r: String)
    ensures
        r@ == card_patch(update_view(*title), update_view(*description)),
{
    let mut members: Vec<String> = Vec::new();
    match description {
        DraftFieldUpdate::Assign(d) => members.push(cat("\"description\":", json_string_literal(d.as_str()).as_str())),
        DraftFieldUpdate::Clear => members.push("\"description\":null".to_string()),
        DraftFieldUpdate::Unchanged => {},
    }
    let ghost first = members.deep_view();
    match title {
        DraftFieldUpdate::Assign(t) => members.push(cat("\"name\":", json_string_literal(t.as_str()).as_str())),
        _ => {},
    }
    assert(members.deep_view() =~= patch_members(update_view(*title), update_view(*description)));
    let joined = join_strings(&members, ",");
    crate::detail::cat3("{", joined.as_str(), "}")
}

/// The path of a card update.
pub fn card_path(card_id: &str) -> (r: String)
    ensures
        r@ == "api/cards/"@ + card_id@,
{
    cat("api/cards/", card_id)
}

/// A board of a project snapshot, known by id, name and order key only.
pub open spec fn stub_view(project_id: Seq<char>, b: (String, String, u64)) -> BoardView {
    BoardView {
        id: b.0@,
        name: b.1@,
        project_id,
        position: b.2,
        total_cards: 0,
        active_card_count: 0,
        closed_card_count: 0,
        lists: Seq::empty(),
        labels: Seq::empty(),
        members: Seq::empty(),
    }
}

/// The boards of a project snapshot as stubs.
pub open spec fn stub_views(project_id: Seq<char>, boards: Seq<(String, String, u64)>) -> Seq<BoardView> {
    Seq::new(boards.len(), |i: int| stub_view(project_id, boards[i]))
}

/// A project of the explorer from its snapshot: each board as a stub, the
/// boards in order of position (`position` being the board's order key).
pub fn project_tree_from(
    id: String,
    name: String,
    description: Option<String>,
    boards: Vec<(String, String, u64)>,
) -> (r: ProjectTree)
    ensures
        r.id == id,
        r.name == name,
        r.description == description,
        r.boards@.len() == boards@.len(),
        views(r.boards@) == sorted_stable::<BoardSummary>(stub_views(id@, boards@)),
{
    let ghost spec_boards = stub_views(id@, boards@);
    let mut stubs: Vec<BoardSummary> = Vec::new();
    let mut i: usize = 0;
    while i < boards.len()
        invariant
            i <= boards.len(),
            stubs@.len() == i,
            spec_boards == stub_views(id@, boards@),
            forall|k: int| 0 <= k < i ==> (#[trigger] stubs@[k])@ == spec_boards[k],
        decreases boards.len() - i,
    {
        let (bid, bname, pos) = &boards[i];
        let stub = BoardSummary::stub(id.clone(), bid.clone(), bname.clone(), *pos);
        assert(views(stub.active_lists@) =~= Seq::<crate::board::ListView>::empty());
        assert(views(stub.labels@) =~= Seq::<crate::board::LabelView>::empty());
        assert(views(stub.members@) =~= Seq::<crate::board::UserView>::empty());
        assert(stub@ == spec_boards[i as int]);
        stubs.push(stub);
        i = i + 1;
    }
    assert(views(stubs@) =~= spec_boards);
    let sorted = sort_stable(stubs);
    proof {
        crate::order::lemma_sorted_stable_len::<BoardSummary>(spec_boards);
        assert(views(sorted@).len() == sorted@.len());
    }
    ProjectTree { id, name, description, boards: sorted }
}

/// The board of a subscription answer, or the error when its status is
/// not 200.
pub fn board_from_subscription(status: u16, snapshot: BoardSnapshot) -> (r: Result<BoardSummary, String>)
    ensures
        status == 200 ==> (r matches Ok(b) && b@ == board_from_snapshot(snapshot)),
        status != 200 ==> (r matches Err(m) && m@ == "board subscribe returned status "@ + decimal(status as nat)),
{
    if status != 200 {
        let mut m = String::new();
        push_str(&mut m, "board subscribe returned status ");
        push_decimal(&mut m, status as u64);
        return Err(m);
    }
    Ok(BoardSummary::from_snapshot(snapshot))
}


/// A comment as the server lists it, with its author's id.
#[derive(Debug, Clone, PartialEq, Eq)]
pub struct CommentRecord {
    pub id: String,
    pub text: String,
    pub created_at: String,
    pub updated_at: Option<String>,
    pub user_id: String,
}

/// The comments of a card with their authors: each comment's author is
/// the last of `users` with its author id, if any.
pub fn comments_with_authors(items: Vec<CommentRecord>, users: &Vec<UserSummary>) -> (r: Vec<CommentSummary>)
    ensures
        r@.len() == items@.len(),
        forall|i: int|
            0 <= i < items@.len() ==> {
                let c = #[trigger] r@[i];
                let it = items@[i];
                &&& c.id == it.id
                &&& c.text == it.text
                &&& c.created_at == it.created_at
                &&& c.updated_at == it.updated_at
                &&& crate::board::opt_views(c.author) == last_user(views(users@), it.user_id@)
            },
{
    let mut out: Vec<CommentSummary> = Vec::new();
    let mut i: usize = 0;
    while i < items.len()
        invariant
            i <= items.len(),
            out@.len() == i,
            forall|k: int|
                0 <= k < i ==> {
                    let c = #[trigger] out@[k];
                    let it = items@[k];
                    &&& c.id == it.id
                    &&& c.text == it.text
                    &&& c.created_at == it.created_at
                    &&& c.updated_at == it.updated_at
                    &&& crate::board::opt_views(c.author) == last_user(views(users@), it.user_id@)
                },
        decreases items.len() - i,
    {
        let it = &items[i];
        let author = crate::snapshot::last_user_exec(users, it.user_id.as_str());
        let updated_at = match &it.updated_at {
            Some(u) => Some(u.clone()),
            None => None,
        };
        out.push(
            CommentSummary {
                id: it.id.clone(),
                text: it.text.clone(),
                created_at: it.created_at.clone(),
                updated_at,
                author,
            },
        );
        i = i + 1;
    }
    out
}

} // verus!
