use dwo_agent::dashboard::{
    display_timestamp, is_date_dir_name, job_runs, join_limited, load_mcp, log_order,
    mcp_overview_label, preview, run_order, schedule_label, session_log_events, session_mode_label,
    session_tool_names, short_id, skill_order, skill_row, McpFile, SkillRow, JOB_RUNS_LIMIT,
};
use dwo_agent::automation::{
    begin_run, AutomationJobConfig, AutomationRunRecord, AutomationSchedule,
    AutomationSessionConfig, ChannelResponseDetail,
};
use dwo_agent::skills::read_properties;
use dwo_agent::days::DayTable;
use dwo_agent::heatmap::{
    heat_level, heatmap_day_line, heatmap_month_header, heatmap_start_date, heatmap_week_count,
    month_header, month_label, weekday_label, HeatCell, HeatLevel,
};
use dwo_agent::json::{Json, Member};
use dwo_agent::models::{AgentTools, ToolSwitch};
use dwo_agent::order::{sort_order, sort_order_by_two};
use dwo_agent::tui::{focus_label, App, FocusPane, ItemCounts, KeyAction, KeyPress, Page};
use dwo_agent::usage::{
    add_daily_calls, daily_model_usage, model_call_days_from_transcript, parse_date_prefix,
    peak_calls, session_date, session_dir_date, token_days, token_days_from_transcript,
    total_calls, DailyModelUsage, SessionUsage, TranscriptNews,
};

fn row(name: &str, path: &str) -> SkillRow {
    skill_row(Err("broken".to_string()), name, "resources/skills", path)
}

#[test]
fn skills_are_shown_by_name_and_path() {
    let skill =
        read_properties("---\nname: good\ndescription: does\n---\n", "/s/good/SKILL.md").unwrap();
    let shown = skill_row(Ok(skill), "dir", "external: /s", "/s/good/SKILL.md");
    assert_eq!((shown.name.as_str(), shown.description.as_str()), ("good", "does"));
    assert_eq!((shown.status, shown.source.as_str()), ("available", "external: /s"));
    let rows =
        vec![row("b", "/a/x"), row("a", "/a-b/x"), shown, row("a", "/a/x"), row("a", "/a/x")];
    assert_eq!((rows[0].status, rows[0].description.as_str()), ("invalid", "broken"));
    assert_eq!(skill_order(&rows, false), vec![3, 4, 1, 0, 2]);
    let paths = ["a", "/z", "../a", "./a", "/z/b", "/a", "a/b", "a-"];
    let rows: Vec<SkillRow> = paths.iter().map(|path| row("a", path)).collect();
    let shown: Vec<&str> = skill_order(&rows, false).into_iter().map(|i| paths[i]).collect();
    assert_eq!(shown, vec!["/a", "/z", "/z/b", "./a", "../a", "a", "a/b", "a-"]);
    let paths = [r"a\b", r"d:\a", r"C:/b", r"c:\a", r"\\h\s\a", r"\\?\C:\a", r"\a"];
    let rows: Vec<SkillRow> = paths.iter().map(|path| row("a", path)).collect();
    let shown: Vec<&str> = skill_order(&rows, true).into_iter().map(|i| paths[i]).collect();
    assert_eq!(
        shown,
        vec![r"\\?\C:\a", r"\\h\s\a", r"c:\a", r"C:/b", r"d:\a", r"\a", r"a\b"]
    );
}

#[test]
fn newest_runs_of_a_job_are_shown() {
    let run = |id: &str, started_at: &str| {
        let job = AutomationJobConfig {
            id: id.to_string(),
            enabled: true,
            workspace_dir: ".".to_string(),
            session: AutomationSessionConfig::New,
            schedule: AutomationSchedule::Interval { every_seconds: 60 },
            prompt: "run".to_string(),
            response_detail: ChannelResponseDetail::Brief,
            notify: Vec::new(),
        };
        begin_run(&job, "r", "s", started_at)
    };
    let mut runs: Vec<AutomationRunRecord> =
        (0..15).map(|i| run("job", &format!("t{:02}", i))).collect();
    runs.push(run("other", "t99"));
    let order = run_order(&runs);
    assert_eq!(order[0], 15);
    let shown = job_runs(&runs, &order, "job");
    assert_eq!(shown.len(), JOB_RUNS_LIMIT);
    assert_eq!((shown[0], shown[11]), (14, 3));
    assert_eq!(job_runs(&runs, &order, "other"), vec![15]);
    assert!(job_runs(&runs, &order, "none").is_empty());
}

fn transcript_line(updated_at: &str, update_type: &str, update: &str) -> String {
    let mut update: serde_json::Value = serde_json::from_str(update).unwrap();
    update.as_object_mut().unwrap().insert(
        "session_update".to_string(),
        serde_json::Value::String(update_type.to_string()),
    );
    let mut line = serde_json::Map::new();
    line.insert(
        "updated_at".to_string(),
        serde_json::Value::String(updated_at.to_string()),
    );
    line.insert("update".to_string(), update);
    serde_json::to_string(&line).unwrap()
}

fn day(year: i32, month: u32, day: u32) -> i32 {
    chrono::Datelike::num_days_from_ce(&chrono::NaiveDate::from_ymd_opt(year, month, day).unwrap())
}

#[test]
fn model_call_days_collapse_stream_chunks() {
    let text = [
        transcript_line("2026-06-13T10:00:00Z", "user_message_chunk", "{}"),
        transcript_line("2026-06-13T10:00:01Z", "agent_thought_chunk", "{}"),
        transcript_line("2026-06-13T10:00:02Z", "agent_thought_chunk", "{}"),
        transcript_line("2026-06-13T10:00:03Z", "tool_call", "{}"),
        transcript_line("2026-06-13T10:00:04Z", "tool_call_update", "{}"),
        transcript_line("2026-06-13T10:00:05Z", "agent_message_chunk", "{}"),
    ]
    .join("\n");

    let days = model_call_days_from_transcript(&text).unwrap();
    assert_eq!(days.get(day(2026, 6, 13)), Some(2));
}

#[test]
fn token_days_use_usage_deltas() {
    let text = [
        transcript_line(
            "2026-06-13T10:00:00Z",
            "usage_update",
            r#"{"used": 100, "size": 1000}"#,
        ),
        transcript_line(
            "2026-06-13T10:10:00Z",
            "usage_update",
            r#"{"used": 160, "size": 1000}"#,
        ),
        transcript_line(
            "2026-06-14T09:00:00Z",
            "usage_update",
            r#"{"used": 40, "size": 1000}"#,
        ),
    ]
    .join("\n");

    let days = token_days_from_transcript(&text).unwrap();
    assert_eq!(days.get(day(2026, 6, 13)), Some(160));
    assert_eq!(days.get(day(2026, 6, 14)), Some(40));
}

#[test]
fn unreadable_lines_tell_nothing() {
    assert!(model_call_days_from_transcript("not json\n{}").unwrap().is_empty());
    let usage = |used: u64| TranscriptNews {
        kind: "usage_update".to_string(),
        day: Some(1),
        used: Some(used),
    };
    assert!(token_days(&vec![usage(u64::MAX), usage(1)]).is_none());
    assert_eq!(token_days(&vec![usage(5), usage(3)]).unwrap().get(1), Some(8));
}

#[test]
fn load_mcp_lists_servers_from_config() {
    let text = r#"{
        "mcpServers": {
            "remote": {
                "url": "https://example.test/mcp",
                "headers": {"Authorization": "Bearer secret"}
            },
            "local": {
                "command": "node",
                "args": ["server.js"],
                "env": {"TOKEN": "secret-value"}
            }
        }
    }"#;

    let mcp = load_mcp(McpFile::Text(text.to_string()));

    assert_eq!(mcp.status, "available");
    assert_eq!(mcp.servers.len(), 2);
    assert_eq!(mcp.servers[0].name, "local");
    assert_eq!(mcp.servers[0].transport, "stdio");
    assert_eq!(mcp.servers[0].target, "node");
    assert!(mcp.servers[0].details.contains(&"env keys: TOKEN".to_string()));
    assert!(!mcp.servers[0].details.iter().any(|line| line.contains("secret-value")));
    assert_eq!(mcp.servers[1].name, "remote");
    assert_eq!(mcp.servers[1].transport, "http");
    assert_eq!(mcp.servers[1].target, "https://example.test/mcp");
    assert!(mcp.servers[1]
        .details
        .contains(&"header keys: Authorization".to_string()));
    assert_eq!(mcp_overview_label(&mcp), "available (2 servers)");
}

#[test]
fn load_mcp_reports_missing_config() {
    let mcp = load_mcp(McpFile::Missing);
    assert_eq!(mcp.status, "missing");
    assert!(mcp.servers.is_empty());
    assert!(mcp.error.is_none());
}

#[test]
fn load_mcp_reports_what_is_wrong() {
    let broken = load_mcp(McpFile::Text("{".to_string()));
    assert_eq!(broken.status, "invalid");
    assert!(broken.error.is_some());
    let unreadable = load_mcp(McpFile::Unreadable("no".to_string()));
    assert_eq!(unreadable.error.as_deref(), Some("no"));
    let empty = load_mcp(McpFile::Text("{}".to_string()));
    assert_eq!(empty.status, "empty");
    assert_eq!(empty.error.as_deref(), Some("no mcpServers object found"));
    let none = load_mcp(McpFile::Text(r#"{"servers": {}}"#.to_string()));
    assert_eq!(none.status, "empty");
    assert!(none.error.is_none());
    let odd = load_mcp(McpFile::Text(
        r#"{"mcpServers": {"x": 1, "y": {"zeta": 1, "alpha": 2}}}"#.to_string(),
    ));
    assert_eq!(odd.servers[0].transport, "invalid");
    assert_eq!(odd.servers[1].transport, "unknown");
    assert_eq!(odd.servers[1].target, "-");
    assert_eq!(odd.servers[1].details, vec!["other keys: alpha, zeta".to_string()]);
}

#[test]
fn days_are_read() {
    assert_eq!(parse_date_prefix("2026-06-13T10:00:00Z"), Some(day(2026, 6, 13)));
    assert_eq!(parse_date_prefix("2026-06-1"), None);
    assert_eq!(parse_date_prefix("2026-13-01T"), None);
    assert_eq!(parse_date_prefix("日日日日日日"), None);
    assert_eq!(session_dir_date("2026", "06", "13"), Some(day(2026, 6, 13)));
    assert_eq!(session_date(None, Some(5)), Some(5));
    assert_eq!(session_date(Some("x"), Some(5)), Some(5));
    assert_eq!(session_date(Some("2026-06-13T"), Some(5)), Some(day(2026, 6, 13)));
}

fn counted(entries: &[(i32, u64)]) -> DayTable<u64> {
    let mut table = DayTable::new();
    for (day, n) in entries {
        table.put(*day, *n);
    }
    table
}

#[test]
fn daily_usage_adds_up() {
    let sessions = vec![
        SessionUsage {
            date: Some(3),
            call_days: counted(&[(2, 4), (1, 1)]),
            token_days: DayTable::new(),
            model_call_count: 9,
            used: 70,
        },
        SessionUsage {
            date: Some(2),
            call_days: DayTable::new(),
            token_days: counted(&[(2, 5)]),
            model_call_count: 6,
            used: 8,
        },
    ];
    let usage = daily_model_usage(&sessions);
    assert_eq!(usage.get(1), Some(DailyModelUsage { calls: 1, tokens: 0 }));
    assert_eq!(usage.get(2), Some(DailyModelUsage { calls: 10, tokens: 5 }));
    assert_eq!(usage.get(3), Some(DailyModelUsage { calls: 0, tokens: 70 }));
    let days: Vec<i32> = usage.entries().iter().map(|e| e.day).collect();
    assert_eq!(days, vec![1, 2, 3]);
    assert_eq!(total_calls(&usage.entries()), Some(11));
    assert_eq!(peak_calls(&usage.entries()), 10);
    let mut full = DayTable::new();
    add_daily_calls(&mut full, 1, u32::MAX);
    add_daily_calls(&mut full, 1, 5);
    assert_eq!(full.get(1), Some(DailyModelUsage { calls: u32::MAX, tokens: 0 }));
}

#[test]
fn heat_map_ends_this_week() {
    assert_eq!(heatmap_week_count(0), 4);
    assert_eq!(heatmap_week_count(26), 10);
    assert_eq!(heatmap_week_count(500), 53);
    let today = day(2026, 6, 13);
    assert_eq!(heatmap_start_date(today, 1), day(2026, 6, 8));
    assert_eq!(heatmap_start_date(today, 3), day(2026, 5, 25));
    let header: String = heatmap_month_header(day(2026, 5, 25), 3).unwrap().into_iter().collect();
    assert_eq!(header, "    MaJun ");
    let plain: String = month_header(&vec![1, 1, 1, 1]).into_iter().collect();
    assert_eq!(plain, "    Jan     ");
    assert!(heatmap_month_header(i32::MAX - 100, 2).is_none());
    let mut usage = DayTable::new();
    add_daily_calls(&mut usage, day(2026, 6, 9), 7);
    let line = heatmap_day_line(1, day(2026, 6, 1), day(2026, 6, 9), 3, &usage);
    assert_eq!(line, vec![HeatCell::Calls(0), HeatCell::Calls(7), HeatCell::Ahead]);
    assert_eq!(heat_level(0, 8), HeatLevel::Cold);
    assert_eq!(heat_level(2, 8), HeatLevel::UpToQuarter);
    assert_eq!(heat_level(3, 8), HeatLevel::UpToHalf);
    assert_eq!(heat_level(6, 8), HeatLevel::UpToThreeQuarters);
    assert_eq!(heat_level(7, 8), HeatLevel::Above);
    assert_eq!(month_label(12), "Dec");
    assert_eq!(weekday_label(6), "Sun");
}

fn counts() -> ItemCounts {
    ItemCounts { logs: 3, skills: 2, servers: 0, rules: 1, sessions: 5, jobs: 0 }
}

#[test]
fn keys_lead_to_what_is_there() {
    let mut app = App::new();
    assert_eq!(app.page(), Page::Overview);
    assert_eq!(app.press(KeyPress::Up, &counts()), KeyAction::Redraw);
    assert_eq!(app.page(), Page::Overview);
    app.press(KeyPress::Char('3'), &counts());
    assert_eq!(app.page(), Page::Sessions);
    app.press(KeyPress::Enter, &counts());
    assert_eq!(app.focus(), FocusPane::Content);
    for _ in 0..9 {
        app.press(KeyPress::Down, &counts());
    }
    assert_eq!(app.selected_index(), 4);
    app.press(KeyPress::Char('k'), &counts());
    assert_eq!(app.selected_index(), 3);
    let fewer = ItemCounts { sessions: 2, ..counts() };
    app.clamp_selection(&fewer);
    assert_eq!(app.selected_index(), 1);
    assert_eq!(app.press(KeyPress::Esc, &counts()), KeyAction::Redraw);
    assert_eq!(app.focus(), FocusPane::Nav);
    assert_eq!(app.press(KeyPress::Esc, &counts()), KeyAction::Quit);
    assert_eq!(app.press(KeyPress::Char('q'), &counts()), KeyAction::Quit);
    assert_eq!(app.press(KeyPress::Char('r'), &counts()), KeyAction::Refresh);
    assert_eq!(app.press(KeyPress::Other, &counts()), KeyAction::Ignore);
    app.press(KeyPress::Char('2'), &counts());
    assert_eq!(app.press(KeyPress::Char(']'), &counts()), KeyAction::Ignore);
    app.press(KeyPress::Tab, &counts());
    app.press(KeyPress::Char('['), &counts());
    assert_eq!(app.agent_tab_index(), 3);
    app.press(KeyPress::Char(']'), &counts());
    assert_eq!(app.agent_tab_index(), 0);
    assert_eq!(focus_label(app.focus()), "content");
    assert_eq!(app.page().title(), "Agent");
}

#[test]
fn texts_are_shortened() {
    let list = |v: &[&str]| v.iter().map(|s| s.to_string()).collect::<Vec<_>>();
    assert_eq!(join_limited(&Vec::new(), 5), "-");
    assert_eq!(join_limited(&list(&["a", "b"]), 5), "a, b");
    assert_eq!(join_limited(&list(&["aa", "bb", "cc"]), 6), "aa, bb, ...");
    assert_eq!(short_id("0123456789"), "01234567");
    assert_eq!(
        display_timestamp("2026-06-13T10:00:00.123+00:00"),
        "2026-06-13 10:00:00"
    );
    assert_eq!(display_timestamp("10:00+00:00"), "10:00Z");
    assert!(is_date_dir_name("2026", 4));
    assert!(!is_date_dir_name("202x", 4));
    assert!(!is_date_dir_name("26", 4));
}

#[test]
fn transcripts_are_logged_backwards() {
    let text = [
        transcript_line("t1", "a", "{}"),
        transcript_line("t2", "b", r#"{"type": "tool"}"#),
        "broken".to_string(),
        transcript_line("t3", "c", r#"{"method": "run"}"#),
    ]
    .join("\n");
    let logs = session_log_events(&text, "0123456789", "p");
    assert_eq!(logs.len(), 2);
    assert_eq!(logs[0].timestamp, "t3");
    assert_eq!(logs[0].summary, "01234567 run");
    assert_eq!(logs[1].summary, "01234567 tool");
    assert_eq!(log_order(&logs), vec![0, 1]);
}

#[test]
fn tools_are_shown_once() {
    let tools = AgentTools {
        mcp: ToolSwitch::Disable,
        file_edit: ToolSwitch::Enable,
        terminal: ToolSwitch::Disable,
        subagent: ToolSwitch::Enable,
    };
    let named = |name: &str| {
        Json::Object(vec![Member {
            key: "name".to_string(),
            value: Json::Text(name.to_string()),
        }])
    };
    let names = session_tool_names(&tools, &vec![named("x"), named("file_edit"), Json::Null]);
    assert_eq!(
        names,
        vec!["file_edit".to_string(), "subagent".to_string(), "x".to_string()]
    );
}

#[test]
fn files_and_jobs_are_described() {
    assert_eq!(preview(None).status, "missing");
    assert_eq!(preview(Some(" \n ")).status, "empty");
    let shown = preview(Some("a\nb\n"));
    assert_eq!(shown.status, "available");
    assert_eq!(shown.lines, vec!["a".to_string(), "b".to_string()]);
    assert_eq!(preview(Some(&"x\n".repeat(500))).lines.len(), 120);
    assert_eq!(
        schedule_label(&AutomationSchedule::Interval { every_seconds: 60 }),
        "interval 60s"
    );
    assert_eq!(
        session_mode_label(&AutomationSessionConfig::Fixed { session_id: "s1".to_string() }),
        "fixed s1"
    );
}

#[test]
fn orders_are_stable() {
    let list = |v: &[&str]| v.iter().map(|s| s.to_string()).collect::<Vec<_>>();
    assert_eq!(sort_order(&list(&["b", "a", "b", "a"]), false), vec![1, 3, 0, 2]);
    assert_eq!(sort_order(&list(&["b", "a", "b", "a"]), true), vec![0, 2, 1, 3]);
    assert_eq!(
        sort_order_by_two(&list(&["b", "a", "b", "a"]), &list(&["2", "2", "1", "1"])),
        vec![3, 1, 2, 0]
    );
}
