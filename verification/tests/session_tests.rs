use codex_session_manager::browser::{
    matching_summary, resume_command, BannerTone, LaunchPlatform, ResumeReport, ResumeStatus, SessionBrowser,
};
use codex_session_manager::role::MessageRole;
use codex_session_manager::scan::{extract_text, ScanProgress, SessionError, SessionScan};
use codex_session_manager::session::{
    is_session_log_name, sort_newest_first, PreviewMessage, SessionEntry,
};
use codex_session_manager::json::JsonValue;
use codex_session_manager::time::{instant_of_rfc3339, Timestamp};

fn entry(id: &str, seconds: i64, title: Option<&str>) -> SessionEntry {
    SessionEntry {
        id: id.to_string(),
        file_path: format!("/tmp/{id}.jsonl"),
        created_at: Timestamp { seconds, nanos: 0 },
        originator: Some("codex_cli_rs".to_string()),
        instructions: None,
        cwd: Some("/home/dev/Project".to_string()),
        title: title.map(|t| t.to_string()),
        preview_items: vec![PreviewMessage {
            role: MessageRole::User,
            text: "Ünïcode Question".to_string(),
        }],
    }
}

fn scan(lines: &[&str]) -> Result<Option<SessionEntry>, SessionError> {
    let mut scan = SessionScan::new();
    for line in lines {
        if scan.feed_line(line)? == ScanProgress::Done {
            break;
        }
    }
    let fallback = if scan.needs_fallback_time() {
        Some(Timestamp { seconds: 7, nanos: 0 })
    } else {
        None
    };
    Ok(scan.finish("/tmp/s.jsonl".to_string(), fallback))
}

const META: &str = r#"{"type":"session_meta","payload":{"id":"abc-123","timestamp":"2025-01-02T03:04:05.5+01:00","cwd":"/work","originator":"codex_cli_rs","instructions":"be nice"}}"#;

#[test]
fn scan_reads_meta_and_messages() {
    let user = r#"{"type":"response_item","payload":{"type":"message","role":"user","content":[{"type":"input_text","text":"<environment_context>x</environment_context>"},{"type":"input_text","text":"Refactor the parser"}]}}"#;
    let reply = r#"{"type":"response_item","payload":{"type":"message","role":"assistant","content":{"text":"Done."}}}"#;
    let tool = r#"{"type":"response_item","payload":{"type":"message","role":"tool","content":[{"type":"tool_use","name":"shell"},{"type":"tool_result"}]}}"#;
    let other = r#"{"type":"response_item","payload":{"type":"reasoning","role":"assistant","content":{"text":"hidden"}}}"#;
    let e = scan(&[META, "", "   ", user, reply, tool, other]).unwrap().unwrap();
    assert_eq!(e.id, "abc-123");
    assert_eq!(e.created_at, Timestamp { seconds: 1735783445, nanos: 500_000_000 });
    assert_eq!(e.cwd.as_deref(), Some("/work"));
    assert_eq!(e.originator.as_deref(), Some("codex_cli_rs"));
    assert_eq!(e.instructions.as_deref(), Some("be nice"));
    assert_eq!(e.preview_items.len(), 3);
    assert_eq!(e.preview_items[0].role, MessageRole::User);
    assert_eq!(
        e.preview_items[0].text,
        "<environment_context>x</environment_context>\n\nRefactor the parser"
    );
    assert_eq!(e.preview_items[1].role, MessageRole::Assistant);
    assert_eq!(e.preview_items[1].text, "Done.");
    assert_eq!(e.preview_items[2].role, MessageRole::Tool);
    assert_eq!(e.preview_items[2].text, "[shell]");
    assert_eq!(e.title, Some("Done.".to_string()));
    assert_eq!(e.display_title(), "Done.");
}

#[test]
fn scan_title_from_first_user_prompt() {
    let user = r#"{"type":"response_item","payload":{"type":"message","role":"user","content":[{"type":"input_text","text":"  Explain   lifetimes\nplease"}]}}"#;
    let e = scan(&[META, user]).unwrap().unwrap();
    assert_eq!(e.title, Some("Explain lifetimes".to_string()));
}

#[test]
fn scan_without_id_gives_no_session() {
    let user = r#"{"type":"response_item","payload":{"type":"message","role":"user","content":{"text":"hi"}}}"#;
    assert!(scan(&[user]).unwrap().is_none());
}

#[test]
fn scan_uses_fallback_time_without_timestamp() {
    let meta = r#"{"type":"session_meta","payload":{"id":"x","timestamp":"not a time"}}"#;
    let e = scan(&[meta]).unwrap().unwrap();
    assert_eq!(e.created_at, Timestamp { seconds: 7, nanos: 0 });
    assert_eq!(e.cwd, None);
    assert_eq!(e.title, None);
    assert_eq!(e.display_title(), "x");
}

#[test]
fn scan_rejects_a_line_that_is_not_json() {
    assert!(matches!(scan(&[META, "{not json"]), Err(SessionError::InvalidJson(_))));
}

#[test]
fn scan_stops_after_sixteen_messages() {
    let msg = r#"{"type":"response_item","payload":{"type":"message","role":"assistant","content":{"text":"ok"}}}"#;
    let mut lines = vec![META];
    for _ in 0..20 {
        lines.push(msg);
    }
    lines.push("{broken");
    let e = scan(&lines).unwrap().unwrap();
    assert_eq!(e.preview_items.len(), 16);
}

#[test]
fn scan_stops_after_four_hundred_lines() {
    let mut s = SessionScan::new();
    let mut done_at = None;
    for i in 0..500 {
        if s.feed_line("").unwrap() == ScanProgress::Done {
            done_at = Some(i);
            break;
        }
    }
    assert_eq!(done_at, Some(399));
    assert!(s.is_done());
    assert_eq!(s.feed_line("{broken").unwrap(), ScanProgress::Done);
}

#[test]
fn preview_text_is_cut_to_six_hundred_characters() {
    let long = "x".repeat(1000);
    let line = format!(
        r#"{{"type":"response_item","payload":{{"type":"message","role":"user","content":{{"text":"{long}"}}}}}}"#
    );
    let e = scan(&[META, &line]).unwrap().unwrap();
    assert_eq!(e.preview_items[0].text.chars().count(), 600);
    assert!(e.preview_items[0].text.ends_with('…'));
}

#[test]
fn extract_text_cases() {
    assert_eq!(extract_text(None), None);
    let arr = JsonValue::Array(vec![
        JsonValue::Object(vec![
            ("type".to_string(), JsonValue::Str("output_text".to_string())),
            ("text".to_string(), JsonValue::Str("".to_string())),
        ]),
        JsonValue::Object(vec![
            ("type".to_string(), JsonValue::Str("text".to_string())),
            ("text".to_string(), JsonValue::Str("a".to_string())),
        ]),
        JsonValue::Object(vec![
            ("type".to_string(), JsonValue::Str("tool_result".to_string())),
            ("name".to_string(), JsonValue::Str("grep".to_string())),
        ]),
    ]);
    assert_eq!(extract_text(Some(&arr)), Some("a\n\n[grep]".to_string()));
    assert_eq!(extract_text(Some(&JsonValue::Array(vec![]))), None);
    assert_eq!(extract_text(Some(&JsonValue::Str("plain".to_string()))), None);
    let obj = JsonValue::Object(vec![("text".to_string(), JsonValue::Number("3".to_string()))]);
    assert_eq!(extract_text(Some(&obj)), None);
}

#[test]
fn rfc3339_instants() {
    assert_eq!(
        instant_of_rfc3339("1970-01-01T00:00:10Z"),
        Some(Timestamp { seconds: 10, nanos: 0 })
    );
    assert_eq!(instant_of_rfc3339("2025-13-01T00:00:00Z"), None);
}

#[test]
fn filter_is_case_insensitive_over_fields() {
    let e = entry("ID-42", 1, Some("Title Here"));
    assert!(e.matches_filter(""));
    assert!(e.matches_filter("   "));
    assert!(e.matches_filter("id-4"));
    assert!(e.matches_filter("TITLE"));
    assert!(e.matches_filter("project"));
    assert!(e.matches_filter("CODEX_CLI"));
    assert!(e.matches_filter("üNÏCODE"));
    assert!(!e.matches_filter("missing"));
    let untitled = entry("ID-42", 1, None);
    assert!(!untitled.matches_filter("title"));
}

#[test]
fn display_title_from_first_message() {
    let mut e = entry("sess", 1, None);
    assert_eq!(e.display_title(), "User Ünïcode Question");
    e.preview_items[0].text = "z".repeat(100);
    let t = e.display_title();
    assert_eq!(t.chars().count(), 80);
    assert!(t.starts_with("User zzz"));
    e.preview_items.clear();
    assert_eq!(e.display_title(), "sess");
}

#[test]
fn sort_is_newest_first_and_stable() {
    let list = vec![entry("a", 5, None), entry("b", 9, None), entry("c", 5, None), entry("d", 1, None), entry("e", 9, None)];
    let sorted = sort_newest_first(list);
    let ids: Vec<&str> = sorted.iter().map(|e| e.id.as_str()).collect();
    assert_eq!(ids, vec!["b", "e", "a", "c", "d"]);
    let mut same = vec![entry("x", 3, None), entry("y", 3, None)];
    same[1].created_at.nanos = 1;
    let ids: Vec<String> = sort_newest_first(same).into_iter().map(|e| e.id).collect();
    assert_eq!(ids, vec!["y".to_string(), "x".to_string()]);
    assert!(sort_newest_first(vec![]).is_empty());
}

#[test]
fn session_log_names() {
    assert!(is_session_log_name("rollout-2025.jsonl"));
    assert!(is_session_log_name("a.jsonl"));
    assert!(!is_session_log_name(".jsonl"));
    assert!(!is_session_log_name("a.json"));
    assert!(!is_session_log_name("a.jsonl.bak"));
}

#[test]
fn browser_filter_and_selection() {
    let mut b = SessionBrowser::new(Ok(vec![entry("one", 2, Some("Alpha")), entry("two", 1, Some("Beta"))]));
    assert_eq!(b.filtered_indices(), vec![0, 1]);
    assert!(!b.can_open_selected_session());
    assert!(b.hover_session(1));
    assert!(!b.hover_session(1));
    b.set_filter("  ".to_string());
    assert_eq!(b.hovered_session(), Some(1));
    b.set_filter("beta".to_string());
    assert_eq!(b.hovered_session(), None);
    assert_eq!(b.filtered_indices(), vec![1]);
    assert_eq!(b.select_session(1), Some("two".to_string()));
    assert_eq!(b.preview_idx(), Some(1));
    assert!(b.can_open_selected_session());
    b.clear_filter();
    assert_eq!(b.filter(), "");
    assert_eq!(b.hovered_session(), None);
    assert_eq!(b.filtered_indices(), vec![0, 1]);
}

#[test]
fn browser_load_failure_is_reported() {
    let b = SessionBrowser::new(Err("No Codex sessions found at /x".to_string()));
    assert!(b.sessions().is_empty());
    assert_eq!(
        b.load_error().map(|s| s.as_str()),
        Some("Failed to load sessions: No Codex sessions found at /x")
    );
}

#[test]
fn resume_requests_and_reports() {
    let mut b = SessionBrowser::new(Ok(vec![entry("one", 2, None), entry("two", 1, None)]));
    assert!(b.status_banner().is_none());
    assert_eq!(b.trigger_resume(0), Some("one".to_string()));
    assert!(b.resume_pending());
    assert_eq!(b.trigger_resume(0), None);
    assert_eq!(
        b.status_banner(),
        Some(("Launching `codex resume one`...".to_string(), BannerTone::Info))
    );
    b.resume_reported(ResumeReport::Finished("one".to_string(), Ok(())));
    assert!(!b.resume_pending());
    assert_eq!(
        b.status_banner(),
        Some(("Opened session one in a new terminal window.".to_string(), BannerTone::Success))
    );
    assert_eq!(b.trigger_resume(1), Some("two".to_string()));
    b.resume_reported(ResumeReport::Disconnected);
    assert_eq!(
        b.status_banner(),
        Some(("Failed to resume two: Resume task ended unexpectedly".to_string(), BannerTone::Error))
    );
    b.resume_reported(ResumeReport::Finished("two".to_string(), Ok(())));
    assert!(matches!(b.status_banner(), Some((_, BannerTone::Error))));
    assert_eq!(b.trigger_resume(1), Some("two".to_string()));
    b.resume_reported(ResumeReport::Finished("two".to_string(), Err("spawn failed".to_string())));
    assert_eq!(
        b.status_banner(),
        Some(("Failed to resume two: spawn failed".to_string(), BannerTone::Error))
    );
    let _ = ResumeStatus::InFlight(String::new());
}

#[test]
fn matching_summary_text() {
    assert_eq!(matching_summary(0), "0 matching sessions");
    assert_eq!(matching_summary(1), "1 matching session");
    assert_eq!(matching_summary(1234), "1234 matching sessions");
}

#[test]
fn preview_follows_hover_then_selection() {
    let mut b = SessionBrowser::new(Ok(vec![entry("one", 2, None), entry("two", 1, None)]));
    assert_eq!(b.preview_idx(), None);
    b.hover_session(1);
    assert_eq!(b.preview_idx(), Some(1));
    assert_eq!(b.select_session(0), Some("one".to_string()));
    b.hover_session(1);
    assert_eq!(b.preview_idx(), Some(1));
    b.set_filter("two".to_string());
    assert_eq!(b.preview_idx(), Some(0));
}

#[test]
fn click_launches_resume_once() {
    let mut b = SessionBrowser::new(Ok(vec![entry("one", 2, None)]));
    assert_eq!(b.select_session(0), Some("one".to_string()));
    assert!(b.resume_pending());
    assert_eq!(
        b.status_banner(),
        Some(("Launching `codex resume one`...".to_string(), BannerTone::Info))
    );
    assert_eq!(b.select_session(0), None);
    assert_eq!(b.selected_session(), Some(0));
}

#[test]
fn resume_command_per_platform() {
    assert_eq!(
        resume_command(LaunchPlatform::MacOs, "abc"),
        "tell application \"Terminal\"\nactivate\ndo script \"codex resume abc\"\nend tell"
    );
    assert_eq!(
        resume_command(LaunchPlatform::Windows, "abc"),
        "Start-Process cmd -ArgumentList '/K codex resume abc'"
    );
    assert_eq!(resume_command(LaunchPlatform::Other, "abc"), "(codex resume abc &)");
}

#[test]
fn narrower_filter_matches_less() {
    let sessions = vec![entry("alpha-1", 2, Some("Fix Parser")), entry("beta-2", 1, Some("Parse logs"))];
    for e in &sessions {
        if e.matches_filter("FIX PARSER") {
            assert!(e.matches_filter("parser"));
        }
    }
    assert!(sessions[0].matches_filter("FIX PARSER"));
    assert!(!sessions[1].matches_filter("FIX PARSER"));
    assert!(!sessions[1].matches_filter("parser"));
    assert!(sessions[1].matches_filter("parse"));
}

#[test]
fn lines_after_four_hundred_are_ignored() {
    let mut lines: Vec<&str> = vec![META];
    for _ in 0..399 {
        lines.push("");
    }
    let first = scan(&lines).unwrap().unwrap();
    lines.push("{broken");
    lines.push(r#"{"type":"session_meta","payload":{"id":"other"}}"#);
    let all = scan(&lines).unwrap().unwrap();
    assert_eq!(first.id, all.id);
    assert_eq!(all.id, "abc-123");
    assert_eq!(first.created_at, all.created_at);
}

#[test]
fn longer_ascii_filter_matches_less() {
    let sessions = vec![entry("alpha-1", 2, Some("Fix Parser")), entry("beta-2", 1, Some("Parse logs"))];
    let longer = "Fix Parser";
    let shorter = "Parse";
    assert!(longer.contains(shorter));
    for e in &sessions {
        if e.matches_filter(longer) {
            assert!(e.matches_filter(shorter));
        }
    }
    assert_eq!(sessions.iter().filter(|e| e.matches_filter(longer)).count(), 1);
    assert_eq!(sessions.iter().filter(|e| e.matches_filter(shorter)).count(), 2);
}
