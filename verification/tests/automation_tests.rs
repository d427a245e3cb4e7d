use dwo_agent::automation::{
    automation_holder, automation_run_dir, begin_run, fixed_session_id, next_schedule_delay,
    notification_record, parse_daily_seconds, prepare_existing_session, render_notification_text,
    resolve_config_path, sanitize_filename, skipped_run, sticky_state, sticky_state_path,
    unattended_decision, validate_job, AutomationConfig, AutomationJobConfig, AutomationNotificationStatus,
    AutomationNotifyChannel, AutomationNotifyConfig, AutomationNotifyRecipient,
    AutomationRunStatus, AutomationSchedule, AutomationSessionConfig, ChannelResponseDetail,
    NotificationReply, SessionSelection,
};
use dwo_agent::bridge::SessionLeaseRegistry;
use dwo_agent::turn::{judge_answer, CallVerdict};

fn job(id: &str) -> AutomationJobConfig {
    AutomationJobConfig {
        id: id.to_string(),
        enabled: true,
        workspace_dir: ".".to_string(),
        session: AutomationSessionConfig::New,
        schedule: AutomationSchedule::Interval { every_seconds: 60 },
        prompt: "run".to_string(),
        response_detail: ChannelResponseDetail::Brief,
        notify: Vec::new(),
    }
}

#[test]
fn mod_interval_schedule_requires_positive_seconds() {
    let err = next_schedule_delay(&AutomationSchedule::Interval { every_seconds: 0 }, 0)
        .unwrap_err();
    assert!(err.contains("positive"));
}

#[test]
fn mod_daily_schedule_accepts_hh_mm_and_hh_mm_ss() {
    assert_eq!(parse_daily_seconds("09:30").unwrap(), 9 * 3600 + 30 * 60);
    assert_eq!(
        parse_daily_seconds("23:59:58").unwrap(),
        23 * 3600 + 59 * 60 + 58
    );
    assert!(parse_daily_seconds("24:00").is_err());
}

#[test]
fn mod_sanitize_filename_removes_path_separators() {
    assert_eq!(sanitize_filename("daily:digest/one"), "daily-digest-one");
}

#[test]
fn automation_run_dir_lives_under_session_dir() {
    let session_dir = "sessions/2026/06/12/session-1";
    let run_dir = automation_run_dir(session_dir, "daily:digest/one", "run-1", false);
    assert_eq!(
        run_dir,
        "sessions/2026/06/12/session-1/automation/daily-digest-one/runs/run-1"
    );
}

#[test]
fn sticky_state_path_uses_sanitized_job_id() {
    assert_eq!(
        sticky_state_path("agent", "daily:digest/one", false),
        "agent/automation_state/daily-digest-one/state.yaml"
    );
}

#[test]
fn daily_job_waits_until_its_time() {
    let daily = AutomationSchedule::Daily { at: "09:30".to_string() };
    assert_eq!(next_schedule_delay(&daily, 9 * 3600).unwrap(), 1800);
    assert_eq!(next_schedule_delay(&daily, 9 * 3600 + 1800).unwrap(), 86400);
    assert_eq!(next_schedule_delay(&daily, 10 * 3600).unwrap(), 86400 - 1800);
    let hourly = AutomationSchedule::Interval { every_seconds: 3600 };
    assert_eq!(next_schedule_delay(&hourly, 5).unwrap(), 3600);
    for wrong in ["", "9", "09:60", "09:30:60", "aa:bb", "1:2:3:4"] {
        assert!(parse_daily_seconds(wrong).is_err(), "{wrong}");
    }
}

#[test]
fn file_names_stay_in_their_directory() {
    for name in ["..", ".", "", "a/../b", "\\\\x"] {
        let clean = sanitize_filename(name);
        assert!(!clean.is_empty());
        assert!(!clean.contains('/') && !clean.contains('\\'));
    }
}

#[test]
fn jobs_are_validated() {
    assert!(validate_job(&job("one")).is_ok());
    assert!(validate_job(&job(" ")).is_err());
    let mut silent = job("one");
    silent.prompt = "  ".to_string();
    assert!(validate_job(&silent).is_err());
    assert!(fixed_session_id(" ").is_err());
    assert_eq!(fixed_session_id(" s1 ").unwrap(), "s1");
}

#[test]
fn jobs_count_only_when_enabled() {
    let mut config = AutomationConfig::default();
    assert!(!config.has_enabled_jobs());
    config.enabled = true;
    config.jobs.push(job("one"));
    assert!(config.has_enabled_jobs());
    config.jobs[0].enabled = false;
    assert!(!config.has_enabled_jobs());
}

#[test]
fn busy_session_is_skipped() {
    let mut leases = SessionLeaseRegistry::new();
    leases.acquire_sync("s1", "weixin:user", "now").unwrap();
    assert!(matches!(
        prepare_existing_session(&mut leases, "job", "s1", false, "now"),
        SessionSelection::Skipped { .. }
    ));
    assert_eq!(leases.holder_sync("s1").as_deref(), Some("weixin:user"));
    assert!(matches!(
        prepare_existing_session(&mut leases, "job", "s2", true, "now"),
        SessionSelection::Skipped { .. }
    ));
    assert!(matches!(
        prepare_existing_session(&mut leases, "job", "s2", false, "now"),
        SessionSelection::Ready { .. }
    ));
    assert_eq!(leases.holder_sync("s2"), Some(automation_holder("job")));
}

#[test]
fn runs_are_recorded() {
    let two = job("two");
    let job = job("one");
    let mut run = begin_run(&job, "r1", "s1", "t0");
    assert_eq!(run.status, AutomationRunStatus::Running);
    run.finish(Ok("completed".to_string()), None, "done".to_string(), "t1");
    assert_eq!(run.status, AutomationRunStatus::Completed);
    assert_eq!(run.finished_at.as_deref(), Some("t1"));
    assert!(render_notification_text(&job, &run).contains("done"));
    let mut failed = begin_run(&job, "r2", "s1", "t0");
    failed.finish(Err("broken".to_string()), None, String::new(), "t1");
    assert_eq!(failed.status, AutomationRunStatus::Failed);
    assert_eq!(failed.error.as_deref(), Some("broken"));
    let skipped = skipped_run(&job, "r3", "s1", "t0", "t1", "busy");
    assert_eq!(skipped.status, AutomationRunStatus::Skipped);
    assert_eq!(skipped.status.as_str(), "skipped");
    let mut told = two;
    told.notify = vec![AutomationNotifyConfig {
        channel: AutomationNotifyChannel::Weixin,
        recipient: Some(AutomationNotifyRecipient {
            recipient_type: "a".to_string(),
            id: "b:c".to_string(),
        }),
    }];
    let run = begin_run(&told, "r4", "s1", "t0");
    let recipient = run.notify[0].recipient.as_ref().unwrap();
    assert_eq!((recipient.recipient_type.as_str(), recipient.id.as_str()), ("a", "b:c"));
}

#[test]
fn unattended_calls_never_run() {
    assert_eq!(unattended_decision(), "reject_once");
    for cancelled in [true, false] {
        assert!(matches!(
            judge_answer("confirm", unattended_decision(), cancelled),
            Ok(CallVerdict::Output { .. })
        ));
    }
}

#[test]
fn notifications_are_recorded() {
    let notify = AutomationNotifyConfig {
        channel: AutomationNotifyChannel::Feishu,
        recipient: Some(AutomationNotifyRecipient {
            recipient_type: "open_id".to_string(),
            id: "u1".to_string(),
        }),
    };
    let sent = notification_record(&notify, NotificationReply::Sent("m1".to_string()));
    assert_eq!(sent.status, AutomationNotificationStatus::Sent);
    assert_eq!(sent.message_id.as_deref(), Some("m1"));
    let failed = notification_record(&notify, NotificationReply::Failed("no".to_string()));
    assert_eq!(failed.status, AutomationNotificationStatus::Failed);
    let none = notification_record(&notify, NotificationReply::NoSink);
    assert_eq!(none.status, AutomationNotificationStatus::Skipped);
}

#[test]
fn sticky_state_names_the_session() {
    let state = sticky_state(&job("one"), "s1", "t0");
    assert_eq!(state.job_id, "one");
    assert_eq!(state.session_id, "s1");
    assert_eq!(state.updated_at, "t0");
}

#[test]
fn configured_paths_are_anchored() {
    assert_eq!(resolve_config_path("/agent", "work", false), "/agent/work");
    assert_eq!(resolve_config_path("/agent", "/work", false), "/work");
    assert_eq!(resolve_config_path(r"C:\agent", r"D:\store", true), r"D:\store");
    assert_eq!(resolve_config_path(r"C:\agent", "store", true), r"C:\agent\store");
    assert_eq!(resolve_config_path(r"C:\agent", r"\store", true), r"C:\store");
    assert_eq!(resolve_config_path(r"\\host\share\a", "/store", true), r"\\host\share/store");
    assert_eq!(resolve_config_path(r"\\?\C:\agent\x", r"..\./a/b", true), r"\\?\C:\agent\a\b");
    assert_eq!(resolve_config_path(r"\\?\C:\agent", r"/a/..\..\b", true), r"\\?\C:\b");
    assert_eq!(resolve_config_path(r"\\?\UNC\host\share\a", "b", true), r"\\?\UNC\host\share\a\b");
    assert_eq!(resolve_config_path(r"\\?\UNC\host\share\a", r"\b", true), r"\\?\UNC\host\share\b");
    assert_eq!(resolve_config_path(r"C:\agent", r"\\?\D:\x", true), r"\\?\D:\x");
    assert_eq!(resolve_config_path(r"C:\agent", r"\\host", true), r"C:\\host");
    assert_eq!(sticky_state_path(r"C:\a", "j", true), r"C:\a\automation_state\j\state.yaml");
    assert_eq!(resolve_config_path("C:", "store", true), "C:store");
    assert_eq!(resolve_config_path("/agent", r"D:\store", false), r"/agent/D:\store");
}

#[test]
fn daily_schedule_accepts_hh_mm_and_hh_mm_ss() {
    assert_eq!(parse_daily_seconds("09:30").unwrap(), 9 * 3600 + 30 * 60);
    assert_eq!(
        parse_daily_seconds("23:59:58").unwrap(),
        23 * 3600 + 59 * 60 + 58
    );
    assert!(parse_daily_seconds("24:00").is_err());
}

#[test]
fn sanitize_filename_removes_path_separators() {
    assert_eq!(sanitize_filename("daily:digest/one"), "daily-digest-one");
}

#[test]
fn interval_schedule_requires_positive_seconds() {
    let err = next_schedule_delay(&AutomationSchedule::Interval { every_seconds: 0 }, 0)
        .unwrap_err();
    assert!(err.contains("positive"));
}
