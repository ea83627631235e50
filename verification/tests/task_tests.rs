use wealth_tracker::message::StockCammnd;
use wealth_tracker::stock::KLineScale;
use wealth_tracker::task::{StockTask, TaskAction, TaskEvent};

fn quote_codes(actions: &[TaskAction]) -> Vec<String> {
    let mut out = Vec::new();
    for a in actions {
        if let TaskAction::FetchQuotes(codes) = a {
            out.extend(codes.iter().cloned());
        }
    }
    out
}

#[test]
fn new_task_splits_the_code_list() {
    let task = StockTask::new("sh000001,sz399001,sh000300,sh601127");
    let names: Vec<&str> = task.codes().iter().map(|c| c.as_str()).collect();
    assert_eq!(names, vec!["sh000001", "sz399001", "sh000300", "sh601127"]);
}

#[test]
fn empty_code_list_tracks_nothing() {
    let mut task = StockTask::new("");
    assert!(task.codes().is_empty());
    // No tracked codes: a refresh is a no-op, not an error.
    assert!(task.step(TaskEvent::QuoteTick).is_empty());
    assert!(task.step(TaskEvent::HistoryTick).is_empty());
    assert!(task.startup_actions().is_empty());
    // Empty pieces between commas are dropped too.
    let other = StockTask::new(",sh000001,,");
    assert_eq!(other.codes().len(), 1);
}

#[test]
fn startup_fetches_quotes_then_history() {
    let task = StockTask::new("sh000001,sh601127");
    let acts = task.startup_actions();
    assert_eq!(acts.len(), 3);
    assert!(matches!(&acts[0], TaskAction::FetchQuotes(codes) if codes.len() == 2));
    assert!(
        matches!(&acts[1], TaskAction::FetchKlines(code, scale, len)
            if code == "sh000001" && *scale == 15 && *len == 100)
    );
    assert!(
        matches!(&acts[2], TaskAction::FetchKlines(code, scale, len)
            if code == "sh601127" && *scale == 15 && *len == 100)
    );
}

#[test]
fn add_then_refresh_covers_the_new_code() {
    let mut task = StockTask::new("sh000001");
    let acts = task.step(TaskEvent::Command(StockCammnd::StockAdd(String::from("sh601127"))));
    assert!(acts.is_empty());
    let refresh = task.step(TaskEvent::QuoteTick);
    let codes = quote_codes(&refresh);
    assert_eq!(codes, vec!["sh000001", "sh601127"]);
    // Adding a code that is already tracked leaves the watch-list unchanged.
    task.step(TaskEvent::Command(StockCammnd::StockAdd(String::from("sh601127"))));
    assert_eq!(task.codes().len(), 2);
}

#[test]
fn remove_then_refresh_never_mentions_the_code() {
    let mut task = StockTask::new("sh000001,sh601127,sh000001");
    task.step(TaskEvent::Command(StockCammnd::StockDel(String::from("sh000001"))));
    assert_eq!(task.codes().len(), 1);
    let refresh = task.step(TaskEvent::QuoteTick);
    assert!(!quote_codes(&refresh).contains(&String::from("sh000001")));
    let history = task.step(TaskEvent::HistoryTick);
    for a in &history {
        if let TaskAction::FetchKlines(code, _, _) = a {
            assert_ne!(code, "sh000001");
        }
    }
    assert_eq!(history.len(), 1);
}

#[test]
fn set_resolution_triggers_one_immediate_update() {
    let mut task = StockTask::new("sh000001,sh601127");
    let acts = task.step(TaskEvent::Command(StockCammnd::StockKLine(
        String::from("sh601127"),
        KLineScale::Day,
    )));
    // Exactly one history fetch, right away, independent of the timer.
    assert_eq!(acts.len(), 1);
    assert!(
        matches!(&acts[0], TaskAction::FetchKlines(code, scale, len)
            if code == "sh601127" && *scale == 240 && *len == 100)
    );
    // The binding sticks: the next history tick uses it, and only for that
    // code.
    let history = task.step(TaskEvent::HistoryTick);
    assert_eq!(history.len(), 2);
    assert!(
        matches!(&history[0], TaskAction::FetchKlines(code, scale, _)
            if code == "sh000001" && *scale == 15)
    );
    assert!(
        matches!(&history[1], TaskAction::FetchKlines(code, scale, _)
            if code == "sh601127" && *scale == 240)
    );
    // A later binding for the same code replaces the earlier one.
    task.step(TaskEvent::Command(StockCammnd::StockKLine(
        String::from("sh601127"),
        KLineScale::Week,
    )));
    assert_eq!(task.scale_for_code("sh601127"), KLineScale::Week);
    assert_eq!(task.scale_for_code("sh000001"), KLineScale::Munute15);
}

#[test]
fn interval_command_replaces_the_timer() {
    let mut task = StockTask::new("sh000001");
    let acts = task.step(TaskEvent::Command(StockCammnd::SetInterval(500)));
    assert_eq!(acts.len(), 1);
    assert!(matches!(&acts[0], TaskAction::SetQuoteInterval(ms) if *ms == 500));
}

#[test]
fn refresh_command_fetches_at_once() {
    let mut task = StockTask::new("sh000001");
    let acts = task.step(TaskEvent::Command(StockCammnd::Refresh));
    assert_eq!(quote_codes(&acts), vec!["sh000001"]);
}

#[test]
fn channel_closure_stops_the_loop() {
    let mut task = StockTask::new("sh000001");
    let acts = task.step(TaskEvent::Closed);
    assert_eq!(acts.len(), 1);
    assert!(matches!(&acts[0], TaskAction::Stop));
}
