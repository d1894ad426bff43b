//! The log of recent live events shown in the debug overlay, and the
//! one-line summaries of event payloads.

use vstd::prelude::*;

use crate::detail::{cat, cat3};
use crate::events::ExplorerEvent;
use crate::explorer::{spec_truncate, truncate};
use crate::text::push_str;

verus! {

/// How many records the log keeps.
pub const LOG_CAPACITY: usize = 24;

/// A logged event: its name and a one-line summary.
#[derive(Debug, Clone, PartialEq, Eq)]
pub struct LogRecord {
    pub name: String,
    pub summary: String,
}

impl View for LogRecord {
    type V = (Seq<char>, Seq<char>);

    open spec fn view(&self) -> (Seq<char>, Seq<char>) {
        (self.name@, self.summary@)
    }
}

/// The most recent events, newest first.
#[derive(Debug, Clone)]
pub struct EventLog {
    records: Vec<LogRecord>,
}

impl View for EventLog {
    type V = Seq<(Seq<char>, Seq<char>)>;

    closed spec fn view(&self) -> Seq<(Seq<char>, Seq<char>)> {
        crate::order::views(self.records@)
    }
}

/// `s` cut to its first `n` items.
pub open spec fn at_most<A>(s: Seq<A>, n: nat) -> Seq<A> {
    if s.len() <= n {
        s
    } else {
        s.take(n as int)
    }
}

impl EventLog {
    /// The log holds at most its capacity.
    pub closed spec fn wf(&self) -> bool {
        self.records@.len() <= LOG_CAPACITY
    }

    /// An empty log.
    pub fn new() -> (r: Self)
        ensures
            r@ == Seq::<(Seq<char>, Seq<char>)>::empty(),
            r.wf(),
    {
        let r = EventLog { records: Vec::new() };
        assert(r@ =~= Seq::<(Seq<char>, Seq<char>)>::empty());
        r
    }

    /// Logs an event in front of the others, dropping the oldest beyond
    /// the capacity.
    pub fn push(&mut self, name: String, summary: String)
        requires
            old(self).wf(),
        ensures
            final(self).wf(),
            final(self)@ == at_most(seq![(name@, summary@)] + old(self)@, LOG_CAPACITY as nat),
    {
        let ghost before = self@;
        let ghost entry = (name@, summary@);
        self.records.insert(0, LogRecord { name, summary });
        assert(crate::order::views(self.records@) =~= seq![entry] + before);
        if self.records.len() > LOG_CAPACITY {
            self.records.truncate(LOG_CAPACITY);
        }
        assert(self@ =~= at_most(seq![entry] + before, LOG_CAPACITY as nat));
    }

    /// The logged events, newest first.
    pub fn records(&self) -> (r: &Vec<LogRecord>)
        ensures
            crate::order::views(r@) == self@,
    {
        &self.records
    }

    /// The status line's account of the latest event.
    pub fn latest_summary(&self) -> (r: String)
        ensures
            self@.len() == 0 ==> r@ == "waiting for live websocket events"@,
            self@.len() > 0 ==> r@ == self@[0].0 + " :: "@ + self@[0].1,
    {
        if self.records.len() == 0 {
            "waiting for live websocket events".to_string()
        } else {
            let first = &self.records[0];
            assert(self@[0] == first@);
            cat3(first.name.as_str(), " :: ", first.summary.as_str())
        }
    }
}

/// The record logged when background work fails: the failed project or
/// board refresh, with its id and message.
pub open spec fn failure_log(event: ExplorerEvent) -> Option<(Seq<char>, Seq<char>)> {
    match event {
        ExplorerEvent::ProjectRefreshFailed { project_id, message } => Some(
            ("projectRefreshError"@, project_id@ + " :: "@ + message@),
        ),
        ExplorerEvent::BoardLoadFailed { board_id, message } => Some(
            ("boardLoadError"@, board_id@ + " :: "@ + message@),
        ),
        _ => None,
    }
}

/// The record logged for an event that reports failed background work.
pub fn failure_record(event: &ExplorerEvent) -> (r: Option<LogRecord>)
    ensures
        match r {
            Some(rec) => failure_log(*event) == Some(rec@),
            None => failure_log(*event) is None,
        },
{
    match event {
        ExplorerEvent::ProjectRefreshFailed { project_id, message } => Some(
            LogRecord {
                name: "projectRefreshError".to_string(),
                summary: cat3(project_id.as_str(), " :: ", message.as_str()),
            },
        ),
        ExplorerEvent::BoardLoadFailed { board_id, message } => Some(
            LogRecord {
                name: "boardLoadError".to_string(),
                summary: cat3(board_id.as_str(), " :: ", message.as_str()),
            },
        ),
        _ => None,
    }
}

/// What the summary of an event payload reads: whether it has an `item`,
/// the item's `name` and `id` when they are texts, the payload's own
/// `name` when it is a text, and the payload as compact JSON.
#[derive(Debug, Clone, PartialEq, Eq)]
pub struct PayloadFacts {
    pub has_item: bool,
    pub item_name: Option<String>,
    pub item_id: Option<String>,
    pub name: Option<String>,
    pub rendered: String,
}

/// The one-line summary of an event payload: the item's name and id, or
/// the item's id, or the payload's name, or else the payload itself, cut
/// to 120 characters.
pub open spec fn payload_summary(f: PayloadFacts) -> Seq<char> {
    let text = if f.has_item && f.item_name is Some {
        f.item_name->0@ + " ["@ + match f.item_id {
            Some(id) => id@,
            None => "?"@,
        } + "]"@
    } else if f.has_item && f.item_id is Some {
        "item ["@ + f.item_id->0@ + "]"@
    } else if f.name is Some {
        f.name->0@
    } else {
        f.rendered@
    };
    spec_truncate(text, 120)
}

/// Summarises an event payload in one line.
pub fn summarize_payload(f: &PayloadFacts) -> (r: String)
    ensures
        r@ == payload_summary(*f),
{
    if f.has_item {
        match &f.item_name {
            Some(n) => {
                let mut text = String::new();
                push_str(&mut text, n.as_str());
                push_str(&mut text, " [");
                match &f.item_id {
                    Some(id) => push_str(&mut text, id.as_str()),
                    None => push_str(&mut text, "?"),
                }
                push_str(&mut text, "]");
                return truncate(text.as_str(), 120);
            },
            None => {},
        }
        match &f.item_id {
            Some(id) => {
                let text = cat3("item [", id.as_str(), "]");
                return truncate(text.as_str(), 120);
            },
            None => {},
        }
    }
    match &f.name {
        Some(n) => truncate(n.as_str(), 120),
        None => truncate(f.rendered.as_str(), 120),
    }
}

} // verus!
