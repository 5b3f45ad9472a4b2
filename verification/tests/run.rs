use ddui::api::ci_run::{
    ci_run, is_complete, scripted_events, start_run, CiRunRequest, Level, RunError, RunEvent,
    RunStream, Summary, CONTENT_TYPE, INTER_EVENT_DELAY_MS,
};
use ddui::clock::{current_stamp, stamp_or_fallback};
use ddui::config::{AppConfig, EnvVars};
use ddui::entitlements::Entitlements;
use ddui::json::{number, quote};

fn settings() -> AppConfig {
    AppConfig::from_env(EnvVars {
        bind: None,
        scan_kind: None,
        scan_root: None,
        refresh_interval: None,
        license_env: None,
        license_path: None,
    })
    .unwrap()
}

fn request() -> CiRunRequest {
    CiRunRequest { mode: "apply".to_string() }
}

fn without_runs() -> Entitlements {
    let mut ents = Entitlements::default();
    ents.features.ci_api = false;
    ents
}

fn info(msg: &str) -> RunEvent {
    RunEvent { level: Level::Info, ts: None, msg: Some(msg.to_string()), edition: None, summary: None }
}

fn done(hosts: u64, stacks: u64, changed: u64, failed: u64) -> RunEvent {
    RunEvent {
        level: Level::Done,
        ts: None,
        msg: None,
        edition: None,
        summary: Some(Summary { hosts, stacks, changed, failed }),
    }
}

#[test]
fn run_without_capability_is_refused_with_no_events() {
    let r = start_run(&without_runs(), &request(), "2024-05-01T10:00:00Z".to_string());
    assert!(matches!(r, Err(RunError::NotEntitled)));
    let r = ci_run(&settings(), &without_runs(), &request());
    assert!(matches!(r, Err(RunError::NotEntitled)));
    assert_eq!(RunError::NotEntitled.message(), "the license does not grant runs");
}

#[test]
fn granted_run_ends_with_exactly_one_terminal_event() {
    let mut run = start_run(&Entitlements::default(), &request(), "t0".to_string()).unwrap();
    let mut events = Vec::new();
    while let Some(e) = run.next_event() {
        events.push(e);
    }
    assert!(!events.is_empty());
    let last = events.last().unwrap();
    assert_eq!(last.level, Level::Done);
    assert_eq!(last.summary, Some(Summary { hosts: 0, stacks: 0, changed: 0, failed: 0 }));
    for e in &events[..events.len() - 1] {
        assert_ne!(e.level, Level::Done);
        assert!(e.summary.is_none());
    }
}

#[test]
fn scripted_run_has_the_four_events_in_order() {
    let events = scripted_events("Pro", "2024-05-01T10:00:00Z".to_string());
    assert_eq!(events.len(), 4);
    assert_eq!(events[0].level, Level::Info);
    assert_eq!(events[0].ts.as_deref(), Some("2024-05-01T10:00:00Z"));
    assert_eq!(events[0].msg.as_deref(), Some("run started"));
    assert_eq!(events[0].edition.as_deref(), Some("Pro"));
    assert!(events[0].summary.is_none());
    assert_eq!(events[1].level, Level::Info);
    assert_eq!(events[1].msg.as_deref(), Some("planning"));
    assert!(events[1].ts.is_none() && events[1].edition.is_none() && events[1].summary.is_none());
    assert_eq!(events[2].level, Level::Info);
    assert_eq!(events[2].msg.as_deref(), Some("nothing to change"));
    assert!(events[2].ts.is_none() && events[2].edition.is_none() && events[2].summary.is_none());
    assert_eq!(events[3].level, Level::Done);
    assert!(events[3].ts.is_none() && events[3].msg.is_none() && events[3].edition.is_none());
    assert_eq!(events[3].summary, Some(Summary { hosts: 0, stacks: 0, changed: 0, failed: 0 }));
    assert!(is_complete(&events));
}

#[test]
fn scripted_run_lines_are_exact() {
    let run = start_run(&Entitlements::default(), &request(), "2024-05-01T10:00:00Z".to_string()).unwrap();
    let lines = run.into_lines();
    assert_eq!(
        lines,
        vec![
            "{\"edition\":\"Community\",\"level\":\"info\",\"msg\":\"run started\",\"ts\":\"2024-05-01T10:00:00Z\"}\n",
            "{\"level\":\"info\",\"msg\":\"planning\"}\n",
            "{\"level\":\"info\",\"msg\":\"nothing to change\"}\n",
            "{\"level\":\"done\",\"summary\":{\"changed\":0,\"failed\":0,\"hosts\":0,\"stacks\":0}}\n",
        ]
    );
}

#[test]
fn lines_parse_as_json_objects() {
    let run = start_run(&Entitlements::default(), &request(), "2024-05-01T10:00:00Z".to_string()).unwrap();
    let lines = run.into_lines();
    let first: serde_json::Value = serde_json::from_str(&lines[0]).unwrap();
    assert_eq!(first["edition"].as_str(), Some("Community"));
    assert_eq!(first["level"].as_str(), Some("info"));
    assert_eq!(first["msg"].as_str(), Some("run started"));
    assert_eq!(first["ts"].as_str(), Some("2024-05-01T10:00:00Z"));
    let last: serde_json::Value = serde_json::from_str(&lines[3]).unwrap();
    assert_eq!(last["level"].as_str(), Some("done"));
    assert_eq!(last["summary"]["hosts"].as_u64(), Some(0));
    assert_eq!(last["summary"]["stacks"].as_u64(), Some(0));
    assert_eq!(last["summary"]["changed"].as_u64(), Some(0));
    assert_eq!(last["summary"]["failed"].as_u64(), Some(0));
    assert_eq!(last.as_object().unwrap().len(), 2);
}

#[test]
fn events_come_one_at_a_time_in_emission_order() {
    let mut run = RunStream::scripted("Community", "t0".to_string());
    assert_eq!(run.remaining(), 4);
    assert_eq!(run.next_event().unwrap().msg.as_deref(), Some("run started"));
    assert_eq!(run.remaining(), 3);
    assert_eq!(run.next_line().unwrap(), "{\"level\":\"info\",\"msg\":\"planning\"}\n");
    assert_eq!(run.remaining(), 2);
    assert_eq!(run.next_event().unwrap().msg.as_deref(), Some("nothing to change"));
    assert_eq!(run.next_event().unwrap().level, Level::Done);
    assert_eq!(run.remaining(), 0);
}

#[test]
fn nothing_follows_the_terminal_event() {
    let mut run = RunStream::scripted("Community", "t0".to_string());
    for _ in 0..4 {
        assert!(run.next_event().is_some());
    }
    assert!(run.next_event().is_none());
    assert!(run.next_line().is_none());
    assert!(run.next_event().is_none());
    assert_eq!(run.remaining(), 0);
    assert!(run.into_lines().is_empty());
}

#[test]
fn into_lines_gives_only_what_is_left() {
    let mut run = RunStream::scripted("Community", "t0".to_string());
    run.next_event();
    run.next_event();
    let lines = run.into_lines();
    assert_eq!(
        lines,
        vec![
            "{\"level\":\"info\",\"msg\":\"nothing to change\"}\n",
            "{\"level\":\"done\",\"summary\":{\"changed\":0,\"failed\":0,\"hosts\":0,\"stacks\":0}}\n",
        ]
    );
}

#[test]
fn a_stream_takes_only_a_finished_report() {
    assert!(RunStream::from_events(vec![]).is_none());
    assert!(RunStream::from_events(vec![info("a")]).is_none());
    assert!(RunStream::from_events(vec![done(0, 0, 0, 0), info("late")]).is_none());
    assert!(RunStream::from_events(vec![info("a"), done(1, 1, 0, 0), done(1, 1, 0, 0)]).is_none());
    let mut no_summary = done(0, 0, 0, 0);
    no_summary.summary = None;
    assert!(RunStream::from_events(vec![info("a"), no_summary]).is_none());
    let run = RunStream::from_events(vec![done(2, 3, 1, 0)]).unwrap();
    assert_eq!(run.remaining(), 1);
    let mut run = RunStream::from_events(vec![info("a"), info("b"), done(2, 3, 1, 1)]).unwrap();
    assert_eq!(run.remaining(), 3);
    assert_eq!(run.next_event().unwrap().msg.as_deref(), Some("a"));
}

#[test]
fn completeness_is_decided_by_the_levels_and_the_last_summary() {
    assert!(!is_complete(&vec![]));
    assert!(is_complete(&vec![done(0, 0, 0, 0)]));
    assert!(is_complete(&vec![info("x"), done(0, 0, 0, 5)]));
    assert!(!is_complete(&vec![info("x")]));
    assert!(!is_complete(&vec![done(0, 0, 0, 0), done(0, 0, 0, 0)]));
}

#[test]
fn failed_run_reports_its_counts_in_the_terminal_line() {
    let run = RunStream::from_events(vec![info("deploying"), done(12, 305, 7, 2)]).unwrap();
    let lines = run.into_lines();
    assert_eq!(
        lines[1],
        "{\"level\":\"done\",\"summary\":{\"changed\":7,\"failed\":2,\"hosts\":12,\"stacks\":305}}\n"
    );
}

#[test]
fn line_has_every_member_that_is_present() {
    let e = RunEvent {
        level: Level::Done,
        ts: Some("t".to_string()),
        msg: Some("m".to_string()),
        edition: Some("e".to_string()),
        summary: Some(Summary { hosts: 1, stacks: 2, changed: 3, failed: 4 }),
    };
    assert_eq!(
        e.to_line(),
        "{\"edition\":\"e\",\"level\":\"done\",\"msg\":\"m\",\"summary\":{\"changed\":3,\"failed\":4,\"hosts\":1,\"stacks\":2},\"ts\":\"t\"}\n"
    );
    let bare = RunEvent { level: Level::Info, ts: None, msg: None, edition: None, summary: None };
    assert_eq!(bare.to_line(), "{\"level\":\"info\"}\n");
}

#[test]
fn texts_are_escaped_so_that_a_line_stays_one_line() {
    let e = RunEvent {
        level: Level::Info,
        ts: None,
        msg: Some("two\nlines \"quoted\" back\\slash\ttab".to_string()),
        edition: Some("Com\u{1}munity\r".to_string()),
        summary: None,
    };
    let line = e.to_line();
    assert_eq!(
        line,
        "{\"edition\":\"Com\\u0001munity\\r\",\"level\":\"info\",\"msg\":\"two\\nlines \\\"quoted\\\" back\\\\slash\\ttab\"}\n"
    );
    assert!(line.ends_with('\n'));
    assert_eq!(line.matches('\n').count(), 1);
    let back: serde_json::Value = serde_json::from_str(&line).unwrap();
    assert_eq!(back["msg"].as_str(), Some("two\nlines \"quoted\" back\\slash\ttab"));
    assert_eq!(back["edition"].as_str(), Some("Com\u{1}munity\r"));
}

#[test]
fn quote_writes_a_json_string_literal() {
    assert_eq!(quote(""), "\"\"");
    assert_eq!(quote("plain"), "\"plain\"");
    assert_eq!(quote("a\"b"), "\"a\\\"b\"");
    assert_eq!(quote("a\nb"), "\"a\\nb\"");
    assert_eq!(quote("h\u{e9}llo"), "\"h\u{e9}llo\"");
}

#[test]
fn number_writes_decimal_numerals() {
    assert_eq!(number(0), "0");
    assert_eq!(number(7), "7");
    assert_eq!(number(10), "10");
    assert_eq!(number(305), "305");
    assert_eq!(number(1234567890), "1234567890");
    assert_eq!(number(u64::MAX), "18446744073709551615");
}

#[test]
fn stamp_falls_back_when_formatting_fails() {
    assert_eq!(stamp_or_fallback(Ok("2024-05-01T10:00:00Z".to_string())), "2024-05-01T10:00:00Z");
    assert_eq!(stamp_or_fallback(Err(time::error::Format::InvalidComponent("year"))), "now");
}

fn digits(text: &str) -> bool {
    !text.is_empty() && text.bytes().all(|b| b.is_ascii_digit())
}

fn offset(text: &str) -> bool {
    let b = text.as_bytes();
    text == "Z"
        || (b.len() == 6
            && (b[0] == b'+' || b[0] == b'-')
            && digits(&text[1..3])
            && b[3] == b':'
            && digits(&text[4..6]))
}

fn rfc3339(text: &str) -> bool {
    let b = text.as_bytes();
    if !text.is_ascii() || b.len() < 20 {
        return false;
    }
    let head = digits(&text[0..4])
        && b[4] == b'-'
        && digits(&text[5..7])
        && b[7] == b'-'
        && digits(&text[8..10])
        && b[10] == b'T'
        && digits(&text[11..13])
        && b[13] == b':'
        && digits(&text[14..16])
        && b[16] == b':'
        && digits(&text[17..19]);
    let tail = &text[19..];
    let rest = match tail.strip_prefix('.') {
        Some(after) => {
            let n = after.bytes().take_while(|c| c.is_ascii_digit()).count();
            if n < 1 || n > 9 {
                return false;
            }
            &after[n..]
        }
        None => tail,
    };
    head && offset(rest)
}

#[test]
fn shape_test_tells_stamps_apart() {
    assert!(rfc3339("2024-05-01T10:00:00Z"));
    assert!(rfc3339("2024-05-01T10:00:00.123456789Z"));
    assert!(rfc3339("2024-05-01T10:00:00.5+02:30"));
    assert!(rfc3339("2024-05-01T10:00:00-11:00"));
    assert!(!rfc3339("now"));
    assert!(!rfc3339(""));
    assert!(!rfc3339("2024-05-01 10:00:00Z"));
    assert!(!rfc3339("2024-05-01T10:00:00"));
    assert!(!rfc3339("2024-05-01T10:00:00.Z"));
    assert!(!rfc3339("2024-05-01T10:00:00.1234567890Z"));
}

#[test]
fn current_stamp_is_an_rfc3339_text_in_utc() {
    let stamp = current_stamp();
    assert!(rfc3339(&stamp));
    assert!(stamp.ends_with('Z'));
    assert!(stamp[..4].parse::<u32>().unwrap() >= 2024);
    let month = stamp[5..7].parse::<u32>().unwrap();
    assert!((1..=12).contains(&month));
    let day = stamp[8..10].parse::<u32>().unwrap();
    assert!((1..=31).contains(&day));
    assert!(stamp[11..13].parse::<u32>().unwrap() < 24);
    assert!(stamp[14..16].parse::<u32>().unwrap() < 60);
}

#[test]
fn run_started_now_opens_with_the_edition_and_a_stamp() {
    let mut ents = Entitlements::default();
    ents.edition = "Enterprise".to_string();
    let mut run = ci_run(&settings(), &ents, &request()).unwrap();
    assert_eq!(run.remaining(), 4);
    let first = run.next_event().unwrap();
    assert_eq!(first.level, Level::Info);
    assert_eq!(first.msg.as_deref(), Some("run started"));
    assert_eq!(first.edition.as_deref(), Some("Enterprise"));
    let ts = first.ts.unwrap();
    assert!(rfc3339(&ts));
    assert!(ts.ends_with('Z'));
    let rest = run.into_lines();
    assert_eq!(rest.len(), 3);
    assert_eq!(rest[2], "{\"level\":\"done\",\"summary\":{\"changed\":0,\"failed\":0,\"hosts\":0,\"stacks\":0}}\n");
}

#[test]
fn pacing_and_content_type() {
    assert_eq!(INTER_EVENT_DELAY_MS, 200);
    assert_eq!(CONTENT_TYPE, "application/x-ndjson");
}
