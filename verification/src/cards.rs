//! Card-level logic of the API client: label and list filtering of a board
//! snapshot, assembling the result of a batched card fetch, and locating an
//! attachment's download path.

use vstd::prelude::*;

use crate::error::PlankaError;
use crate::models::CardLabel;
use crate::text::{chars_of, find_chars, occurs_at, is_substring, push_str, str_eq};

verus! {

/// The parts of a card that snapshot filtering reads: its id and its list.
#[derive(Debug, Clone, PartialEq, Eq)]
pub struct CardKey {
    pub id: String,
    pub list_id: String,
}

/// The card carries the label according to the card-label associations.
pub open spec fn card_has_label(card_labels: Seq<CardLabel>, card_id: Seq<char>, label_id: Seq<char>) -> bool {
    exists|j: int|
        0 <= j < card_labels.len() && #[trigger] card_labels[j].card_id@ == card_id && card_labels[j].label_id@
            == label_id
}

/// A card passes the filter: it is in the requested list (when one is
/// requested) and carries every requested label.
pub open spec fn card_kept(
    card: CardKey,
    card_labels: Seq<CardLabel>,
    list_id: Option<Seq<char>>,
    label_ids: Seq<String>,
) -> bool {
    &&& (list_id matches Some(l) ==> card.list_id@ == l)
    &&& forall|k: int| 0 <= k < label_ids.len() ==> card_has_label(card_labels, card.id@, #[trigger] label_ids[k]@)
}

/// The positions, in increasing order, of the first `n` cards that pass the filter.
pub open spec fn kept_positions(
    cards: Seq<CardKey>,
    card_labels: Seq<CardLabel>,
    list_id: Option<Seq<char>>,
    label_ids: Seq<String>,
    n: nat,
) -> Seq<usize>
    decreases n,
{
    if n == 0 {
        seq![]
    } else {
        let rest = kept_positions(cards, card_labels, list_id, label_ids, (n - 1) as nat);
        if card_kept(cards[n - 1], card_labels, list_id, label_ids) {
            rest.push((n - 1) as usize)
        } else {
            rest
        }
    }
}

fn has_label(card_labels: &[CardLabel], card_id: &str, label_id: &str) -> (r: bool)
    ensures
        r == card_has_label(card_labels@, card_id@, label_id@),
{
    let mut j: usize = 0;
    while j < card_labels.len()
        invariant
            j <= card_labels.len(),
            forall|k: int|
                0 <= k < j ==> !(#[trigger] card_labels@[k].card_id@ == card_id@ && card_labels@[k].label_id@
                    == label_id@),
        decreases card_labels.len() - j,
    {
        if str_eq(card_labels[j].card_id.as_str(), card_id) && str_eq(card_labels[j].label_id.as_str(), label_id) {
            return true;
        }
        j = j + 1;
    }
    false
}

fn kept(card: &CardKey, card_labels: &[CardLabel], list_id: Option<&str>, label_ids: &[String]) -> (r: bool)
    ensures
        r == card_kept(*card, card_labels@, crate::config::opt_view(list_id), label_ids@),
{
    if let Some(target) = list_id {
        if !str_eq(card.list_id.as_str(), target) {
            return false;
        }
    }
    let mut k: usize = 0;
    while k < label_ids.len()
        invariant
            k <= label_ids.len(),
            forall|m: int| 0 <= m < k ==> card_has_label(card_labels@, card.id@, #[trigger] label_ids@[m]@),
        decreases label_ids.len() - k,
    {
        if !has_label(card_labels, card.id.as_str(), label_ids[k].as_str()) {
            return false;
        }
        k = k + 1;
    }
    true
}

/// Filters the cards of a board snapshot: keeps the cards of `list_id` (all
/// lists when `None`) that carry every label in `label_ids` (labels combine
/// with AND; no labels keeps every card). Returns the positions of the kept
/// cards, in the order they came in.
pub fn filter_cards_from_board_snapshot(
    cards: &[CardKey],
    card_labels: &[CardLabel],
    list_id: Option<&str>,
    label_ids: &[String],
) -> (r: Vec<usize>)
    ensures
        r@ == kept_positions(cards@, card_labels@, crate::config::opt_view(list_id), label_ids@, cards@.len()),
{
    let mut out: Vec<usize> = Vec::new();
    let mut i: usize = 0;
    while i < cards.len()
        invariant
            i <= cards.len(),
            out@ == kept_positions(cards@, card_labels@, crate::config::opt_view(list_id), label_ids@, i as nat),
        decreases cards.len() - i,
    {
        if kept(&cards[i], card_labels, list_id, label_ids) {
            out.push(i);
        }
        i = i + 1;
    }
    out
}

/// Every kept position names a card that passes the filter, and the
/// positions strictly increase (the cards keep their order, none repeats).
pub proof fn law_filter_sound(
    cards: Seq<CardKey>,
    card_labels: Seq<CardLabel>,
    list_id: Option<Seq<char>>,
    label_ids: Seq<String>,
    n: nat,
)
    requires
        n <= cards.len() <= usize::MAX,
    ensures
        forall|k: int|
            0 <= k < kept_positions(cards, card_labels, list_id, label_ids, n).len() ==> {
                let p = #[trigger] kept_positions(cards, card_labels, list_id, label_ids, n)[k];
                p < n && card_kept(cards[p as int], card_labels, list_id, label_ids)
            },
        forall|a: int, b: int|
            0 <= a < b < kept_positions(cards, card_labels, list_id, label_ids, n).len() ==> #[trigger] kept_positions(
                cards,
                card_labels,
                list_id,
                label_ids,
                n,
            )[a] < #[trigger] kept_positions(cards, card_labels, list_id, label_ids, n)[b],
    decreases n,
{
    if n > 0 {
        law_filter_sound(cards, card_labels, list_id, label_ids, (n - 1) as nat);
        let s = kept_positions(cards, card_labels, list_id, label_ids, n);
        let rest = kept_positions(cards, card_labels, list_id, label_ids, (n - 1) as nat);
        let last_kept = card_kept(cards[n - 1], card_labels, list_id, label_ids);
        if last_kept {
            assert(s == rest.push((n - 1) as usize));
        } else {
            assert(s == rest);
        }
        assert forall|k: int| 0 <= k < s.len() implies {
            let p = #[trigger] s[k];
            p < n && card_kept(cards[p as int], card_labels, list_id, label_ids)
        } by {
            if k < rest.len() {
                assert(s[k] == rest[k]);
                let p = rest[k];
                assert(p < n - 1 && card_kept(cards[p as int], card_labels, list_id, label_ids));
            }
        }
        assert forall|a: int, b: int| 0 <= a < b < s.len() implies #[trigger] s[a] < #[trigger] s[b] by {
            if b < rest.len() {
                assert(rest[a] < rest[b]);
            } else {
                let p = rest[a];
                assert(p < n - 1);
            }
        }
    }
}

/// Every card that passes the filter is kept.
pub proof fn law_filter_complete(
    cards: Seq<CardKey>,
    card_labels: Seq<CardLabel>,
    list_id: Option<Seq<char>>,
    label_ids: Seq<String>,
    n: nat,
    i: int,
)
    requires
        n <= cards.len() <= usize::MAX,
        0 <= i < n,
        card_kept(cards[i], card_labels, list_id, label_ids),
    ensures
        kept_positions(cards, card_labels, list_id, label_ids, n).contains(i as usize),
    decreases n,
{
    let s = kept_positions(cards, card_labels, list_id, label_ids, n);
    if i == n - 1 {
        assert(s[s.len() - 1] == i as usize);
    } else {
        law_filter_complete(cards, card_labels, list_id, label_ids, (n - 1) as nat, i);
        let rest = kept_positions(cards, card_labels, list_id, label_ids, (n - 1) as nat);
        let j = choose|j: int| 0 <= j < rest.len() && rest[j] == i as usize;
        assert(s[j] == i as usize);
    }
}

/// The download path of an attachment: the part of its data URL from
/// `/attachments/` on (the whole URL when that text does not occur), or
/// `/attachments/{id}/download/{name}` when there is no URL.
pub open spec fn spec_download_path(url: Option<Seq<char>>, attachment_id: Seq<char>, name: Seq<char>) -> Seq<char> {
    match url {
        Some(u) => if is_substring("/attachments/"@, u) {
            let idx = choose|i: int|
                occurs_at(u, "/attachments/"@, i) && forall|k: int| 0 <= k < i ==> !occurs_at(u, "/attachments/"@, k);
            u.subrange(idx, u.len() as int)
        } else {
            u
        },
        None => "/attachments/"@ + attachment_id + "/download/"@ + name,
    }
}

/// Computes the path an attachment is downloaded from.
pub fn attachment_download_path(url: Option<&str>, attachment_id: &str, name: &str) -> (r: String)
    ensures
        r@ == spec_download_path(crate::config::opt_view(url), attachment_id@, name@),
{
    match url {
        Some(u) => {
            let hay = chars_of(u);
            let needle = chars_of("/attachments/");
            match find_chars(&hay, &needle) {
                Some(idx) => {
                    let mut out = String::new();
                    let mut i = idx;
                    while i < hay.len()
                        invariant
                            idx <= i <= hay.len(),
                            out@ == hay@.subrange(idx as int, i as int),
                        decreases hay.len() - i,
                    {
                        crate::text::push_char(&mut out, hay[i]);
                        assert(hay@.subrange(idx as int, i as int).push(hay@[i as int]) =~= hay@.subrange(
                            idx as int,
                            i + 1,
                        ));
                        i = i + 1;
                    }
                    proof {
                        let w = choose|i: int|
                            occurs_at(u@, "/attachments/"@, i) && forall|k: int|
                                0 <= k < i ==> !occurs_at(u@, "/attachments/"@, k);
                        assert(hay@.subrange(idx as int, idx + needle@.len()) == needle@);
                        assert(is_substring("/attachments/"@, u@));
                        if w < idx {
                            assert(!occurs_at(u@, "/attachments/"@, w));
                        } else if w > idx {
                            assert(!occurs_at(u@, "/attachments/"@, idx as int));
                        }
                    }
                    out
                },
                None => u.to_owned(),
            }
        },
        None => {
            let mut out = String::new();
            push_str(&mut out, "/attachments/");
            push_str(&mut out, attachment_id);
            push_str(&mut out, "/download/");
            push_str(&mut out, name);
            out
        },
    }
}


/// One card of a batch fetch that could not be read for a reason other
/// than its absence.
#[derive(Debug, Clone, PartialEq, Eq)]
pub struct CardBatchFailure {
    pub id: String,
    pub error_type: String,
    pub message: String,
}

/// What fetching one card of a batch came to.
#[derive(Debug)]
pub enum CardFetch<C> {
    Found(C),
    Missing,
    Failed(CardBatchFailure),
}

/// The result of a batch fetch, each part in the order the ids were requested.
#[derive(Debug)]
pub struct CardBatchGetResult<C> {
    pub cards: Vec<C>,
    pub missing_ids: Vec<String>,
    pub failures: Vec<CardBatchFailure>,
    pub requested_count: usize,
    pub concurrency: usize,
}

/// An error that means the card does not exist (or is not visible).
pub open spec fn spec_is_missing_error(e: PlankaError) -> bool {
    e matches PlankaError::Remote404 { .. } || e matches PlankaError::NotFound { .. }
}

/// Sorts the result of fetching one card: found, missing (a not-found
/// error), or failed (any other error, reported with its type and message).
pub fn classify_card_fetch<C>(id: String, result: Result<C, PlankaError>) -> (r: CardFetch<C>)
    ensures
        result matches Ok(c) ==> r == CardFetch::Found(c),
        result matches Err(e) ==> (spec_is_missing_error(e) <==> r is Missing),
        result matches Err(e) ==> (!spec_is_missing_error(e) ==> (r matches CardFetch::Failed(f) && f.id == id
            && f.error_type@ == e.spec_error_type()@ && (crate::error::spec_message(&e) is Some ==> f.message@
            == crate::error::spec_message(&e)->0))),
{
    match result {
        Ok(c) => CardFetch::Found(c),
        Err(e) => match e {
            PlankaError::Remote404 { .. } | PlankaError::NotFound { .. } => CardFetch::Missing,
            other => {
                let kind_name = other.error_type();
                CardFetch::Failed(
                    CardBatchFailure { id, error_type: kind_name.to_owned(), message: other.message() },
                )
            },
        },
    }
}

/// Checks the requested parallelism of a batch fetch: at least one.
pub fn check_batch_concurrency(concurrency: usize) -> (r: Result<(), PlankaError>)
    ensures
        r is Ok <==> concurrency >= 1,
        r matches Err(e) ==> e matches PlankaError::InvalidOptionValue { field, message } && field@
            == "concurrency"@ && message@ == "must be at least 1"@,
{
    if concurrency == 0 {
        return Err(
            PlankaError::InvalidOptionValue {
                field: "concurrency".to_owned(),
                message: "must be at least 1".to_owned(),
            },
        );
    }
    Ok(())
}

/// The parallelism actually used: the requested one, capped by the
/// transport's in-flight limit.
pub fn effective_concurrency(requested: usize, max_in_flight: usize) -> (r: usize)
    ensures
        r == if requested < max_in_flight { requested } else { max_in_flight },
{
    if requested < max_in_flight { requested } else { max_in_flight }
}

/// The fetch results of a batch carry distinct request positions below `n`.
pub open spec fn positions_distinct_below<C>(results: Seq<(usize, String, CardFetch<C>)>, n: nat) -> bool {
    &&& forall|j: int| 0 <= j < results.len() ==> (#[trigger] results[j]).0 < n
    &&& forall|a: int, b: int| 0 <= a < b < results.len() ==> (#[trigger] results[a]).0 != (#[trigger] results[b]).0
}

/// The result fetched for request position `k`, if any.
pub open spec fn result_at<C>(results: Seq<(usize, String, CardFetch<C>)>, k: int) -> Option<(String, CardFetch<C>)> {
    if exists|j: int| 0 <= j < results.len() && (#[trigger] results[j]).0 == k {
        let j = choose|j: int| 0 <= j < results.len() && (#[trigger] results[j]).0 == k;
        Some((results[j].1, results[j].2))
    } else {
        None
    }
}

/// The found cards among the first `m` request positions, in order.
pub open spec fn found_upto<C>(results: Seq<(usize, String, CardFetch<C>)>, m: nat) -> Seq<C>
    decreases m,
{
    if m == 0 {
        seq![]
    } else {
        let rest = found_upto(results, (m - 1) as nat);
        match result_at(results, m - 1) {
            Some((_, CardFetch::Found(c))) => rest.push(c),
            _ => rest,
        }
    }
}

/// The missing ids among the first `m` request positions, in order.
pub open spec fn missing_upto<C>(results: Seq<(usize, String, CardFetch<C>)>, m: nat) -> Seq<String>
    decreases m,
{
    if m == 0 {
        seq![]
    } else {
        let rest = missing_upto(results, (m - 1) as nat);
        match result_at(results, m - 1) {
            Some((id, CardFetch::Missing)) => rest.push(id),
            _ => rest,
        }
    }
}

/// The failures among the first `m` request positions, in order.
pub open spec fn failures_upto<C>(results: Seq<(usize, String, CardFetch<C>)>, m: nat) -> Seq<CardBatchFailure>
    decreases m,
{
    if m == 0 {
        seq![]
    } else {
        let rest = failures_upto(results, (m - 1) as nat);
        match result_at(results, m - 1) {
            Some((_, CardFetch::Failed(f))) => rest.push(f),
            _ => rest,
        }
    }
}

/// Assembles the result of a batch fetch from per-card results arriving in
/// any order, each tagged with its request position: found cards, missing
/// ids and failures are each reported in request order.
pub fn assemble_card_batch<C>(requested_count: usize, concurrency: usize, results: Vec<(usize, String, CardFetch<C>)>) -> (r:
    CardBatchGetResult<C>)
    requires
        positions_distinct_below(results@, requested_count as nat),
    ensures
        r.cards@ == found_upto(results@, requested_count as nat),
        r.missing_ids@ == missing_upto(results@, requested_count as nat),
        r.failures@ == failures_upto(results@, requested_count as nat),
        r.requested_count == requested_count,
        r.concurrency == concurrency,
{
    let ghost orig = results@;
    let mut slots: Vec<Option<(String, CardFetch<C>)>> = Vec::new();
    let mut k: usize = 0;
    while k < requested_count
        invariant
            k <= requested_count,
            slots@.len() == k,
            forall|m: int| 0 <= m < k ==> (#[trigger] slots@[m]) is None,
        decreases requested_count - k,
    {
        slots.push(None);
        k = k + 1;
    }
    let mut pending = results;
    while pending.len() > 0
        invariant
            pending@ == orig.subrange(0, pending@.len() as int),
            pending@.len() <= orig.len(),
            positions_distinct_below(orig, requested_count as nat),
            slots@.len() == requested_count,
            forall|m: int|
                0 <= m < requested_count ==> #[trigger] slots@[m] == (if exists|j: int|
                    pending@.len() <= j < orig.len() && (#[trigger] orig[j]).0 == m {
                    result_at(orig, m)
                } else {
                    None
                }),
        decreases pending@.len(),
    {
        let ghost before = slots@;
        let ghost t = (pending@.len() - 1) as int;
        let entry = pending.pop().unwrap();
        let (idx, id, fetch) = entry;
        assert(orig[t] == (idx, id, fetch));
        slots.set(idx, Some((id, fetch)));
        proof {
            assert forall|m: int| 0 <= m < requested_count implies #[trigger] slots@[m] == (if exists|j: int|
                pending@.len() <= j < orig.len() && (#[trigger] orig[j]).0 == m {
                result_at(orig, m)
            } else {
                None
            }) by {
                if m == idx as int {
                    assert(orig[t].0 == m);
                    let w = choose|j: int| 0 <= j < orig.len() && (#[trigger] orig[j]).0 == m;
                    if w != t {
                        assert(orig[w].0 != orig[t].0);
                    }
                } else {
                    if exists|j: int| pending@.len() <= j < orig.len() && (#[trigger] orig[j]).0 == m {
                        let j = choose|j: int| pending@.len() <= j < orig.len() && (#[trigger] orig[j]).0 == m;
                        assert(j != t);
                    }
                }
            }
        }
    }
    let mut cards: Vec<C> = Vec::new();
    let mut missing_ids: Vec<String> = Vec::new();
    let mut failures: Vec<CardBatchFailure> = Vec::new();
    let mut k: usize = 0;
    while k < requested_count
        invariant
            k <= requested_count,
            slots@.len() == requested_count,
            positions_distinct_below(orig, requested_count as nat),
            forall|m: int| k <= m < requested_count ==> #[trigger] slots@[m] == result_at(orig, m),
            cards@ == found_upto(orig, k as nat),
            missing_ids@ == missing_upto(orig, k as nat),
            failures@ == failures_upto(orig, k as nat),
        decreases requested_count - k,
    {
        let mut taken: Option<(String, CardFetch<C>)> = None;
        slots.set_and_swap(k, &mut taken);
        match taken {
            Some((id, fetch)) => match fetch {
                CardFetch::Found(c) => cards.push(c),
                CardFetch::Missing => missing_ids.push(id),
                CardFetch::Failed(f) => failures.push(f),
            },
            None => {},
        }
        k = k + 1;
    }
    CardBatchGetResult { cards, missing_ids, failures, requested_count, concurrency }
}

proof fn lemma_first_occurrence(u: Seq<char>, needle: Seq<char>, i: int)
    requires
        occurs_at(u, needle, i),
    ensures
        exists|f: int| occurs_at(u, needle, f) && forall|k: int| 0 <= k < f ==> !occurs_at(u, needle, k),
    decreases i,
{
    if exists|k: int| 0 <= k < i && occurs_at(u, needle, k) {
        let k = choose|k: int| 0 <= k < i && occurs_at(u, needle, k);
        lemma_first_occurrence(u, needle, k);
    } else {
        assert(occurs_at(u, needle, i) && forall|k: int| 0 <= k < i ==> !occurs_at(u, needle, k));
    }
}

/// The download path of an attachment whose URL holds `/attachments/` is
/// the end of the URL from the first `/attachments/` on: it begins with
/// `/attachments/`, the URL ends with it, and no `/attachments/` starts
/// before it. A URL without that text is used whole; without a URL the path
/// is `/attachments/<id>/download/<name>`.
pub proof fn law_download_path_is_attachments_suffix(url: Seq<char>, attachment_id: Seq<char>, name: Seq<char>)
    ensures
        ({
            let marker = "/attachments/"@;
            let r = spec_download_path(Some(url), attachment_id, name);
            &&& is_substring(marker, url) ==> {
                &&& marker.len() <= r.len() <= url.len()
                &&& r.subrange(0, marker.len() as int) == marker
                &&& url.subrange(url.len() - r.len(), url.len() as int) == r
                &&& forall|k: int| 0 <= k < url.len() - r.len() ==> !occurs_at(url, marker, k)
            }
            &&& !is_substring(marker, url) ==> r == url
        }),
        spec_download_path(None, attachment_id, name) == "/attachments/"@ + attachment_id + "/download/"@ + name,
{
    let marker = "/attachments/"@;
    if is_substring(marker, url) {
        let i = choose|i: int| 0 <= i && i + marker.len() <= url.len() && #[trigger] url.subrange(i, i + marker.len()) == marker;
        assert(occurs_at(url, marker, i));
        lemma_first_occurrence(url, marker, i);
        let idx = choose|j: int| occurs_at(url, marker, j) && forall|k: int| 0 <= k < j ==> !occurs_at(url, marker, k);
        let r = url.subrange(idx, url.len() as int);
        assert(r == spec_download_path(Some(url), attachment_id, name));
        assert(r.subrange(0, marker.len() as int) =~= url.subrange(idx, idx + marker.len()));
        assert(url.subrange(url.len() - r.len(), url.len() as int) =~= r);
    }
}

proof fn lemma_result_at_position<C>(results: Seq<(usize, String, CardFetch<C>)>, n: nat, j: int)
    requires
        positions_distinct_below(results, n),
        0 <= j < results.len(),
    ensures
        result_at(results, results[j].0 as int) == Some((results[j].1, results[j].2)),
{
    let k = results[j].0 as int;
    assert(results[j].0 == k);
    let w = choose|w: int| 0 <= w < results.len() && (#[trigger] results[w]).0 == k;
    if w != j {
        if w < j {
            assert(results[w].0 != results[j].0);
        } else {
            assert(results[j].0 != results[w].0);
        }
    }
}

proof fn lemma_batch_prefix<C>(results: Seq<(usize, String, CardFetch<C>)>, m: nat, n: nat)
    requires
        m <= n,
    ensures
        found_upto(results, m).len() <= found_upto(results, n).len(),
        found_upto(results, n).subrange(0, found_upto(results, m).len() as int) == found_upto(results, m),
        missing_upto(results, m).len() <= missing_upto(results, n).len(),
        missing_upto(results, n).subrange(0, missing_upto(results, m).len() as int) == missing_upto(results, m),
        failures_upto(results, m).len() <= failures_upto(results, n).len(),
        failures_upto(results, n).subrange(0, failures_upto(results, m).len() as int) == failures_upto(results, m),
    decreases n,
{
    if m < n {
        lemma_batch_prefix(results, m, (n - 1) as nat);
        let f0 = found_upto(results, (n - 1) as nat);
        let m0 = missing_upto(results, (n - 1) as nat);
        let x0 = failures_upto(results, (n - 1) as nat);
        let fm = found_upto(results, m);
        let mm = missing_upto(results, m);
        let xm = failures_upto(results, m);
        assert(found_upto(results, n).subrange(0, fm.len() as int) =~= f0.subrange(0, fm.len() as int));
        assert(missing_upto(results, n).subrange(0, mm.len() as int) =~= m0.subrange(0, mm.len() as int));
        assert(failures_upto(results, n).subrange(0, xm.len() as int) =~= x0.subrange(0, xm.len() as int));
    } else {
        assert(found_upto(results, n).subrange(0, found_upto(results, n).len() as int) =~= found_upto(results, n));
        assert(missing_upto(results, n).subrange(0, missing_upto(results, n).len() as int) =~= missing_upto(
            results,
            n,
        ));
        assert(failures_upto(results, n).subrange(0, failures_upto(results, n).len() as int) =~= failures_upto(
            results,
            n,
        ));
    }
}

proof fn lemma_result_at_source<C>(results: Seq<(usize, String, CardFetch<C>)>, k: int)
    ensures
        result_at(results, k) is Some <==> position_has_result(results, k),
        result_at(results, k) is Some ==> exists|j: int|
            0 <= j < results.len() && (#[trigger] results[j]).0 == k && results[j].1 == (result_at(results, k)->0).0
                && results[j].2 == (result_at(results, k)->0).1,
{
    reveal(result_at);
}

proof fn lemma_batch_sources<C>(results: Seq<(usize, String, CardFetch<C>)>, m: nat)
    ensures
        forall|a: int| 0 <= a < missing_upto(results, m).len() ==> exists|j: int|
            0 <= j < results.len() && results[j].0 < m && results[j].2 is Missing && results[j].1
                == #[trigger] missing_upto(results, m)[a],
        forall|a: int| 0 <= a < failures_upto(results, m).len() ==> exists|j: int|
            0 <= j < results.len() && results[j].0 < m && results[j].2 == CardFetch::<C>::Failed(
                #[trigger] failures_upto(results, m)[a],
            ),
        forall|a: int| 0 <= a < found_upto(results, m).len() ==> exists|j: int|
            0 <= j < results.len() && results[j].0 < m && results[j].2 == CardFetch::<C>::Found(
                #[trigger] found_upto(results, m)[a],
            ),
    decreases m,
{
    if m > 0 {
        let p = (m - 1) as nat;
        lemma_batch_sources(results, p);
        let k = m - 1;
        let mp = missing_upto(results, p);
        let xp = failures_upto(results, p);
        let fp = found_upto(results, p);
        let mm = missing_upto(results, m);
        let xm = failures_upto(results, m);
        let fm = found_upto(results, m);
        lemma_result_at_source(results, k);
        if result_at(results, k) is Some {
            let w = choose|j: int|
                0 <= j < results.len() && (#[trigger] results[j]).0 == k && results[j].1 == (result_at(results, k)->0).0
                    && results[j].2 == (result_at(results, k)->0).1;
            assert forall|a: int| 0 <= a < mm.len() implies exists|j2: int|
                0 <= j2 < results.len() && results[j2].0 < m && results[j2].2 is Missing && results[j2].1
                    == #[trigger] mm[a] by {
                if a < mp.len() {
                    assert(mm[a] == mp[a]);
                    let j2 = choose|j2: int|
                        0 <= j2 < results.len() && results[j2].0 < p && results[j2].2 is Missing && results[j2].1
                            == #[trigger] mp[a];
                    assert(results[j2].0 < m);
                } else {
                    assert(mm[a] == results[w].1);
                }
            }
            assert forall|a: int| 0 <= a < xm.len() implies exists|j2: int|
                0 <= j2 < results.len() && results[j2].0 < m && results[j2].2 == CardFetch::<C>::Failed(
                    #[trigger] xm[a],
                ) by {
                if a < xp.len() {
                    assert(xm[a] == xp[a]);
                    let j2 = choose|j2: int|
                        0 <= j2 < results.len() && results[j2].0 < p && results[j2].2 == CardFetch::<C>::Failed(
                            #[trigger] xp[a],
                        );
                    assert(results[j2].0 < m);
                } else {
                    assert(results[w].2 == CardFetch::<C>::Failed(xm[a]));
                }
            }
            assert forall|a: int| 0 <= a < fm.len() implies exists|j2: int|
                0 <= j2 < results.len() && results[j2].0 < m && results[j2].2 == CardFetch::<C>::Found(
                    #[trigger] fm[a],
                ) by {
                if a < fp.len() {
                    assert(fm[a] == fp[a]);
                    let j2 = choose|j2: int|
                        0 <= j2 < results.len() && results[j2].0 < p && results[j2].2 == CardFetch::<C>::Found(
                            #[trigger] fp[a],
                        );
                    assert(results[j2].0 < m);
                } else {
                    assert(results[w].2 == CardFetch::<C>::Found(fm[a]));
                }
            }
        } else {
            assert(result_at(results, k) is None);
            assert(mm == mp && xm == xp && fm == fp);
            assert forall|a: int| 0 <= a < mm.len() implies exists|j2: int|
                0 <= j2 < results.len() && results[j2].0 < m && results[j2].2 is Missing && results[j2].1
                    == #[trigger] mm[a] by {
                let j2 = choose|j2: int|
                    0 <= j2 < results.len() && results[j2].0 < p && results[j2].2 is Missing && results[j2].1
                        == #[trigger] mp[a];
                assert(results[j2].0 < m);
            }
            assert forall|a: int| 0 <= a < xm.len() implies exists|j2: int|
                0 <= j2 < results.len() && results[j2].0 < m && results[j2].2 == CardFetch::<C>::Failed(
                    #[trigger] xm[a],
                ) by {
                let j2 = choose|j2: int|
                    0 <= j2 < results.len() && results[j2].0 < p && results[j2].2 == CardFetch::<C>::Failed(
                        #[trigger] xp[a],
                    );
                assert(results[j2].0 < m);
            }
            assert forall|a: int| 0 <= a < fm.len() implies exists|j2: int|
                0 <= j2 < results.len() && results[j2].0 < m && results[j2].2 == CardFetch::<C>::Found(
                    #[trigger] fm[a],
                ) by {
                let j2 = choose|j2: int|
                    0 <= j2 < results.len() && results[j2].0 < p && results[j2].2 == CardFetch::<C>::Found(
                        #[trigger] fp[a],
                    );
                assert(results[j2].0 < m);
            }
        }
    }
}

/// Some fetch result reports the card with id `id` missing.
pub open spec fn missing_result_for<C>(results: Seq<(usize, String, CardFetch<C>)>, id: String) -> bool {
    exists|j: int| 0 <= j < results.len() && results[j].2 is Missing && results[j].1 == id
}

/// Some fetch result is the failure `f`.
pub open spec fn failed_result_for<C>(results: Seq<(usize, String, CardFetch<C>)>, f: CardBatchFailure) -> bool {
    exists|j: int| 0 <= j < results.len() && results[j].2 == CardFetch::<C>::Failed(f)
}

/// Some fetch result found the card `c`.
pub open spec fn found_result_for<C>(results: Seq<(usize, String, CardFetch<C>)>, c: C) -> bool {
    exists|j: int| 0 <= j < results.len() && results[j].2 == CardFetch::<C>::Found(c)
}

/// Some fetch result carries request position `k`.
pub open spec fn position_has_result<C>(results: Seq<(usize, String, CardFetch<C>)>, k: int) -> bool {
    exists|j: int| 0 <= j < results.len() && (#[trigger] results[j]).0 == k
}

proof fn lemma_batch_total<C>(results: Seq<(usize, String, CardFetch<C>)>, m: nat)
    requires
        forall|k: int| 0 <= k < m ==> #[trigger] position_has_result(results, k),
    ensures
        found_upto(results, m).len() + missing_upto(results, m).len() + failures_upto(results, m).len() == m,
    decreases m,
{
    if m > 0 {
        let p = (m - 1) as nat;
        assert forall|k: int| 0 <= k < p implies #[trigger] position_has_result(results, k) by {
            assert(position_has_result(results, k));
        }
        lemma_batch_total(results, p);
        let k = m - 1;
        assert(position_has_result(results, k));
        assert(result_at(results, k) is Some);
    }
}

/// What a batch fetch reports, in terms of the per-card results: every
/// missing card's id is among the missing ids, every found card among the
/// cards and every failure among the failures, each part in request order
/// (of two positions, the earlier one's entry comes first); every reported
/// entry comes from a result of that kind; and when every requested
/// position has a result, the three parts together have one entry per
/// request.
pub proof fn law_batch_reports_every_result<C>(results: Seq<(usize, String, CardFetch<C>)>, n: nat)
    requires
        positions_distinct_below(results, n),
    ensures
        forall|j: int| 0 <= j < results.len() && (#[trigger] results[j]).2 is Missing ==> missing_upto(results, n).contains(
            results[j].1,
        ),
        forall|j: int|
            0 <= j < results.len() && (#[trigger] results[j]).2 is Found ==> found_upto(results, n).contains(results[j].2->Found_0),
        forall|j: int|
            0 <= j < results.len() && (#[trigger] results[j]).2 is Failed ==> failures_upto(results, n).contains(
        results[j].2->Failed_0,
            ),
        forall|j1: int, j2: int|
            0 <= j1 < results.len() && 0 <= j2 < results.len() && (#[trigger] results[j1]).2 is Missing
        && (#[trigger] results[j2]).2 is Missing && results[j1].0 < results[j2].0 ==> exists|a: int, b: int|
        0 <= a < b < missing_upto(results, n).len() && missing_upto(results, n)[a] == results[j1].1 && missing_upto(results, n)[b] == results[j2].1,
        forall|a: int| 0 <= a < missing_upto(results, n).len() ==> #[trigger] missing_result_for(results, missing_upto(results, n)[a]),
        forall|a: int| 0 <= a < failures_upto(results, n).len() ==> #[trigger] failed_result_for(
            results,
            failures_upto(results, n)[a],
        ),
        forall|a: int| 0 <= a < found_upto(results, n).len() ==> #[trigger] found_result_for(results, found_upto(results, n)[a]),
        (forall|k: int| 0 <= k < n ==> #[trigger] position_has_result(results, k)) ==> found_upto(results, n).len()
            + missing_upto(results, n).len() + failures_upto(results, n).len() == n,
{
    let found = found_upto(results, n);
    let missing = missing_upto(results, n);
    let failures = failures_upto(results, n);
    lemma_batch_sources(results, n);
    assert forall|a: int| 0 <= a < missing.len() implies #[trigger] missing_result_for(results, missing[a]) by {
        lemma_batch_sources(results, n);
        let x = missing_upto(results, n)[a];
        assert(exists|j: int|
            0 <= j < results.len() && results[j].0 < n && results[j].2 is Missing && results[j].1 == x);
    }
    assert forall|a: int| 0 <= a < failures.len() implies #[trigger] failed_result_for(results, failures[a]) by {
        lemma_batch_sources(results, n);
        let x = failures_upto(results, n)[a];
        assert(exists|j: int|
            0 <= j < results.len() && results[j].0 < n && results[j].2 == CardFetch::<C>::Failed(x));
    }
    assert forall|a: int| 0 <= a < found.len() implies #[trigger] found_result_for(results, found[a]) by {
        lemma_batch_sources(results, n);
        let x = found_upto(results, n)[a];
        assert(exists|j: int| 0 <= j < results.len() && results[j].0 < n && results[j].2 == CardFetch::<C>::Found(x));
    }
    assert forall|j: int| 0 <= j < results.len() && (#[trigger] results[j]).2 is Missing implies missing.contains(
        results[j].1,
    ) by {
        let k = results[j].0 as nat;
        lemma_result_at_position(results, n, j);
        lemma_batch_prefix(results, k + 1, n);
        let before = missing_upto(results, (k + 1) as nat);
        assert(before == missing_upto(results, k).push(results[j].1));
        assert(missing[before.len() - 1] == before[before.len() - 1]);
    }
    assert forall|j: int|
        0 <= j < results.len() && (#[trigger] results[j]).2 is Found implies found.contains(
        results[j].2->Found_0,
    ) by {
        let k = results[j].0 as nat;
        lemma_result_at_position(results, n, j);
        lemma_batch_prefix(results, k + 1, n);
        let before = found_upto(results, (k + 1) as nat);
        assert(before == found_upto(results, k).push(results[j].2->Found_0));
        assert(found[before.len() - 1] == before[before.len() - 1]);
    }
    assert forall|j: int|
        0 <= j < results.len() && (#[trigger] results[j]).2 is Failed implies failures.contains(
        results[j].2->Failed_0,
    ) by {
        let k = results[j].0 as nat;
        lemma_result_at_position(results, n, j);
        lemma_batch_prefix(results, k + 1, n);
        let before = failures_upto(results, (k + 1) as nat);
        assert(before == failures_upto(results, k).push(results[j].2->Failed_0));
        assert(failures[before.len() - 1] == before[before.len() - 1]);
    }
    assert forall|j1: int, j2: int|
        0 <= j1 < results.len() && 0 <= j2 < results.len() && (#[trigger] results[j1]).2 is Missing
            && (#[trigger] results[j2]).2 is Missing && results[j1].0 < results[j2].0 implies exists|a: int, b: int|
        0 <= a < b < missing.len() && missing[a] == results[j1].1 && missing[b] == results[j2].1 by {
        let k1 = results[j1].0 as nat;
        let k2 = results[j2].0 as nat;
        lemma_result_at_position(results, n, j1);
        lemma_result_at_position(results, n, j2);
        lemma_batch_prefix(results, k1 + 1, k2);
        lemma_batch_prefix(results, k2 + 1, n);
        lemma_batch_prefix(results, k1 + 1, n);
        let b1 = missing_upto(results, (k1 + 1) as nat);
        let b2 = missing_upto(results, (k2 + 1) as nat);
        assert(b1 == missing_upto(results, k1).push(results[j1].1));
        assert(b2 == missing_upto(results, k2).push(results[j2].1));
        let a = b1.len() - 1;
        let b = b2.len() - 1;
        assert(missing[a] == b1[a]);
        assert(missing[b] == b2[b]);
    }
    if forall|k: int| 0 <= k < n ==> #[trigger] position_has_result(results, k) {
        lemma_batch_total(results, n);
    }
}

} // verus!
