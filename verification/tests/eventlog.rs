use plnk::eventlog::{failure_record, summarize_payload, EventLog, PayloadFacts, LOG_CAPACITY};
use plnk::events::ExplorerEvent;

#[test]
fn log_keeps_the_newest_first_up_to_capacity() {
    let mut log = EventLog::new();
    assert_eq!(log.latest_summary(), "waiting for live websocket events");
    for i in 0..30 {
        log.push(format!("e{i}"), format!("s{i}"));
    }
    assert_eq!(log.records().len(), LOG_CAPACITY);
    assert_eq!(log.records()[0].name, "e29");
    assert_eq!(log.records()[LOG_CAPACITY - 1].name, "e6");
    assert_eq!(log.latest_summary(), "e29 :: s29");
}

#[test]
fn failures_are_logged_with_id_and_message() {
    let rec = failure_record(&ExplorerEvent::BoardLoadFailed { board_id: "b1".into(), message: "boom".into() })
        .unwrap();
    assert_eq!(rec.name, "boardLoadError");
    assert_eq!(rec.summary, "b1 :: boom");
    let rec = failure_record(&ExplorerEvent::ProjectRefreshFailed { project_id: "p1".into(), message: "x".into() })
        .unwrap();
    assert_eq!(rec.name, "projectRefreshError");
    assert!(failure_record(&ExplorerEvent::SocketError { session_id: 0, message: "m".into() }).is_none());
}

#[test]
fn payload_summaries() {
    let facts = |has_item: bool, item_name: Option<&str>, item_id: Option<&str>, name: Option<&str>| PayloadFacts {
        has_item,
        item_name: item_name.map(String::from),
        item_id: item_id.map(String::from),
        name: name.map(String::from),
        rendered: "{\"x\":1}".into(),
    };
    assert_eq!(summarize_payload(&facts(true, Some("Card"), Some("c1"), None)), "Card [c1]");
    assert_eq!(summarize_payload(&facts(true, Some("Card"), None, None)), "Card [?]");
    assert_eq!(summarize_payload(&facts(true, None, Some("c1"), Some("n"))), "item [c1]");
    assert_eq!(summarize_payload(&facts(true, None, None, Some("n"))), "n");
    assert_eq!(summarize_payload(&facts(false, Some("Card"), None, None)), "{\"x\":1}");
    let long = "x".repeat(130);
    assert_eq!(summarize_payload(&facts(false, None, None, Some(&long))).chars().count(), 121);
}
