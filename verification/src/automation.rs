//! Jobs that start by themselves.

use crate::bridge::{holder_of, LeaseView, SessionLeaseRegistry};
use crate::paths::{join_path, joined_on};
use crate::policy::PERMISSION_REJECT_ONCE;
use crate::text::{
    cat2, cat3, cat5, chars_of, contains_sub, ends_with, is_blank, law_parts_are_found,
    law_parts_stay_in_longer_texts,
    law_split_takes_parts_in_order, opt_text, parse_u32, split_char, split_of, starts_with,
    string_from, trim, trim_of, unsigned_of,
};
use crate::turn::answered;
use vstd::prelude::*;

verus! {

pub const AUTOMATION_CONFIG_FILE: &'static str = "automation.yaml";
pub const AUTOMATION_SESSION_SUBDIR: &'static str = "automation";
pub const AUTOMATION_STATE_DIR: &'static str = "automation_state";
pub const AUTOMATION_STATE_FILE: &'static str = "state.yaml";
pub const RUN_FILE: &'static str = "run.yaml";

/// How many seconds a day has.
pub const SECONDS_PER_DAY: u64 = 86400;

/// The jobs of an agent.
#[derive(Debug)]
pub struct AutomationConfig {
    pub enabled: bool,
    pub jobs: Vec<AutomationJobConfig>,
}

/// How much of a run is told.
#[derive(Debug, Clone, Copy, PartialEq, Eq, Structural)]
pub enum ChannelResponseDetail {
    Brief,
    Detailed,
}

/// A job.
#[derive(Debug)]
pub struct AutomationJobConfig {
    pub id: String,
    pub enabled: bool,
    pub workspace_dir: String,
    pub session: AutomationSessionConfig,
    pub schedule: AutomationSchedule,
    pub prompt: String,
    pub response_detail: ChannelResponseDetail,
    pub notify: Vec<AutomationNotifyConfig>,
}

/// The session that a job works in.
#[derive(Debug)]
pub enum AutomationSessionConfig {
    New,
    Fixed { session_id: String },
    Sticky,
}

/// When a job runs.
#[derive(Debug)]
pub enum AutomationSchedule {
    Interval { every_seconds: u64 },
    Daily { at: String },
}

/// Who is told of a run.
#[derive(Debug)]
pub struct AutomationNotifyConfig {
    pub channel: AutomationNotifyChannel,
    pub recipient: Option<AutomationNotifyRecipient>,
}

/// The channel through which someone is told.
#[derive(Debug, Clone, Copy, PartialEq, Eq, Structural)]
pub enum AutomationNotifyChannel {
    Weixin,
    Feishu,
}

/// The one who is told.
#[derive(Debug)]
pub struct AutomationNotifyRecipient {
    pub recipient_type: String,
    pub id: String,
}

/// The session that a job keeps working in.
#[derive(Debug)]
pub struct AutomationStickyState {
    pub job_id: String,
    pub session_id: String,
    pub updated_at: String,
}

impl Default for AutomationConfig {
    fn default() -> (r: Self)
        ensures
            !r.enabled,
            r.jobs@.len() == 0,
    {
        AutomationConfig { enabled: false, jobs: Vec::new() }
    }
}

impl Default for AutomationSessionConfig {
    fn default() -> (r: Self)
        ensures
            r is New,
    {
        AutomationSessionConfig::New
    }
}

/// Whether any job runs.
pub open spec fn any_job(c: AutomationConfig) -> bool {
    c.enabled && exists|i: int| 0 <= i < c.jobs@.len() && (#[trigger] c.jobs@[i]).enabled
}

impl AutomationConfig {
    /// Whether any job runs.
    pub fn has_enabled_jobs(&self) -> (r: bool)
        ensures
            r == any_job(*self),
    {
        if !self.enabled {
            return false;
        }
        let mut i: usize = 0;
        while i < self.jobs.len()
            invariant
                i <= self.jobs@.len(),
                self.enabled,
                forall|k: int| 0 <= k < i ==> !(#[trigger] self.jobs@[k]).enabled,
            decreases self.jobs@.len() - i,
        {
            if self.jobs[i].enabled {
                proof {
                    assert(self.jobs@[i as int].enabled);
                }
                return true;
            }
            i += 1;
        }
        false
    }
}

/// Whether a character may stand in a file name.
pub open spec fn is_name_char(c: char) -> bool {
    ('0' <= c && c <= '9') || ('a' <= c && c <= 'z') || ('A' <= c && c <= 'Z') || c == '-' || c
        == '_' || c == '.'
}

/// A text with a hyphen for every character that may not stand in a file name.
pub open spec fn name_chars(s: Seq<char>) -> Seq<char> {
    Seq::new(
        s.len(),
        |i: int|
            if is_name_char(s[i]) {
                s[i]
            } else {
                '-'
            },
    )
}

/// A text without the hyphens in front.
pub open spec fn no_front_hyphens(s: Seq<char>) -> Seq<char>
    decreases s.len(),
{
    if s.len() > 0 && s[0] == '-' {
        no_front_hyphens(s.skip(1))
    } else {
        s
    }
}

/// A text without the hyphens at its end.
pub open spec fn no_end_hyphens(s: Seq<char>) -> Seq<char>
    decreases s.len(),
{
    if s.len() > 0 && s.last() == '-' {
        no_end_hyphens(s.drop_last())
    } else {
        s
    }
}

/// A text as a file name.
pub open spec fn sanitized(s: Seq<char>) -> Seq<char> {
    let t = no_end_hyphens(no_front_hyphens(name_chars(s)));
    if t.len() == 0 {
        "run"@
    } else {
        t
    }
}

/// Makes a file name of a text.
pub fn sanitize_filename(value: &str) -> (r: String)
    ensures
        r@ == sanitized(value@),
{
    let v = chars_of(value);
    let ghost want = name_chars(value@);
    let mut out: Vec<char> = Vec::new();
    let mut i: usize = 0;
    while i < v.len()
        invariant
            i <= v@.len(),
            v@ == value@,
            want == name_chars(value@),
            out@ == want.take(i as int),
        decreases v@.len() - i,
    {
        let c = v[i];
        let ok = ('0' <= c && c <= '9') || ('a' <= c && c <= 'z') || ('A' <= c && c <= 'Z') || c
            == '-' || c == '_' || c == '.';
        let kept: char = if ok {
            c
        } else {
            '-'
        };
        out.push(kept);
        proof {
            assert(want.take(i + 1) =~= want.take(i as int).push(want[i as int]));
        }
        i += 1;
    }
    proof {
        assert(want.take(want.len() as int) =~= want);
        assert(want.skip(0) =~= want);
    }
    let n = out.len();
    let mut from: usize = 0;
    while from < n && out[from] == '-'
        invariant
            from <= n,
            n == out@.len(),
            out@ == want,
            no_front_hyphens(want.skip(from as int)) == no_front_hyphens(want),
        decreases n - from,
    {
        proof {
            assert(want.skip(from as int).skip(1) =~= want.skip(from + 1));
        }
        from += 1;
    }
    let ghost front = want.skip(from as int);
    proof {
        assert(no_front_hyphens(want) == front);
        assert(front.take(front.len() as int) =~= front);
    }
    let mut to: usize = n;
    while to > from && out[to - 1] == '-'
        invariant
            from <= to <= n,
            n == out@.len(),
            out@ == want,
            front == want.skip(from as int),
            no_end_hyphens(front.take(to - from)) == no_end_hyphens(front),
        decreases to,
    {
        proof {
            assert(front.take(to - from).drop_last() =~= front.take(to - 1 - from));
        }
        to -= 1;
    }
    proof {
        assert(front.take(to - from) =~= want.subrange(from as int, to as int));
    }
    if from == to {
        "run".to_owned()
    } else {
        string_from(&out, from, to)
    }
}

/// Whether all characters of a text may stand in a file name.
pub open spec fn all_name_chars(s: Seq<char>) -> bool {
    forall|i: int| 0 <= i < s.len() ==> is_name_char(#[trigger] s[i])
}

proof fn lemma_front_names(s: Seq<char>)
    requires
        all_name_chars(s),
    ensures
        all_name_chars(no_front_hyphens(s)),
    decreases s.len(),
{
    if s.len() > 0 && s[0] == '-' {
        assert forall|i: int| 0 <= i < s.skip(1).len() implies is_name_char(
            #[trigger] s.skip(1)[i],
        ) by {
            assert(s.skip(1)[i] == s[i + 1]);
        }
        lemma_front_names(s.skip(1));
    }
}

proof fn lemma_end_names(s: Seq<char>)
    requires
        all_name_chars(s),
    ensures
        all_name_chars(no_end_hyphens(s)),
    decreases s.len(),
{
    if s.len() > 0 && s.last() == '-' {
        assert forall|i: int| 0 <= i < s.drop_last().len() implies is_name_char(
            #[trigger] s.drop_last()[i],
        ) by {
            assert(s.drop_last()[i] == s[i]);
        }
        lemma_end_names(s.drop_last());
    }
}

/// A file name is never empty and holds no separator of paths.
pub proof fn law_file_name_stays_in_its_directory(s: Seq<char>)
    ensures
        sanitized(s).len() > 0,
        all_name_chars(sanitized(s)),
        !sanitized(s).contains('/'),
        !sanitized(s).contains('\\'),
{
    reveal_strlit("run");
    lemma_front_names(name_chars(s));
    lemma_end_names(no_front_hyphens(name_chars(s)));
    let t = sanitized(s);
    assert(!t.contains('/')) by {
        if t.contains('/') {
            let i = choose|i: int| 0 <= i < t.len() && t[i] == '/';
            assert(is_name_char(t[i]));
        }
    }
    assert(!t.contains('\\')) by {
        if t.contains('\\') {
            let i = choose|i: int| 0 <= i < t.len() && t[i] == '\\';
            assert(is_name_char(t[i]));
        }
    }
}

/// The second of the day that a time of day stands for, or what is wrong with
/// it.
pub open spec fn daily_seconds(at: Seq<char>) -> Result<int, Seq<char>> {
    let parts = split_of(at, ':');
    if parts.len() < 2 || parts.len() > 3 {
        Err("daily schedule `at` must be HH:MM or HH:MM:SS"@)
    } else {
        match unsigned_of(parts[0], u32::MAX as nat) {
            None => Err("parse daily schedule hour"@),
            Some(hour) => match unsigned_of(parts[1], u32::MAX as nat) {
                None => Err("parse daily schedule minute"@),
                Some(minute) => {
                    let second = if parts.len() == 3 {
                        unsigned_of(parts[2], u32::MAX as nat)
                    } else {
                        Some(0nat)
                    };
                    match second {
                        None => Err("parse daily schedule second"@),
                        Some(second) => if hour > 23 || minute > 59 || second > 59 {
                            Err("daily schedule `at` is out of range"@)
                        } else {
                            Ok((hour * 3600 + minute * 60 + second) as int)
                        },
                    }
                },
            },
        }
    }
}

/// Reads a time of day.
pub fn parse_daily_seconds(at: &str) -> (r: Result<u32, String>)
    ensures
        match daily_seconds(at@) {
            Ok(n) => r matches Ok(k) && k == n && k < 86400,
            Err(e) => r matches Err(error) && error@ == e,
        },
{
    let parts = split_char(at, ':');
    let ghost ps = split_of(at@, ':');
    proof {
        assert(parts@.len() == ps.len());
        assert(forall|i: int| 0 <= i < ps.len() ==> parts@[i]@ == #[trigger] ps[i]);
    }
    if parts.len() < 2 || parts.len() > 3 {
        return Err("daily schedule `at` must be HH:MM or HH:MM:SS".to_owned());
    }
    proof {
        assert(parts@[0]@ == ps[0]);
        assert(parts@[1]@ == ps[1]);
        assert(parts@.len() == 3 ==> parts@[2]@ == ps[2]);
    }
    let hour: u32 = match parse_u32(parts[0].as_str()) {
        Some(n) => n,
        None => return Err("parse daily schedule hour".to_owned()),
    };
    let minute: u32 = match parse_u32(parts[1].as_str()) {
        Some(n) => n,
        None => return Err("parse daily schedule minute".to_owned()),
    };
    let second: u32 = if parts.len() == 3 {
        match parse_u32(parts[2].as_str()) {
            Some(n) => n,
            None => return Err("parse daily schedule second".to_owned()),
        }
    } else {
        0
    };
    if hour > 23 || minute > 59 || second > 59 {
        return Err("daily schedule `at` is out of range".to_owned());
    }
    Ok(hour * 3600 + minute * 60 + second)
}

/// How many seconds a job waits, at a second of the day.
pub open spec fn schedule_delay(s: AutomationSchedule, now_seconds: int) -> Result<int, Seq<char>> {
    match s {
        AutomationSchedule::Interval { every_seconds } => if every_seconds == 0 {
            Err("automation interval every_seconds must be positive"@)
        } else {
            Ok(every_seconds as int)
        },
        AutomationSchedule::Daily { at } => match daily_seconds(at@) {
            Err(e) => Err(e),
            Ok(target) => if target > now_seconds {
                Ok(target - now_seconds)
            } else {
                Ok(target - now_seconds + 86400)
            },
        },
    }
}

/// How many seconds a job waits, at a second of the day.
pub fn next_schedule_delay(schedule: &AutomationSchedule, now_seconds: u32) -> (r: Result<
    u64,
    String,
>)
    requires
        now_seconds < 86400,
    ensures
        match schedule_delay(*schedule, now_seconds as int) {
            Ok(n) => r matches Ok(k) && k == n,
            Err(e) => r matches Err(error) && error@ == e,
        },
{
    match schedule {
        AutomationSchedule::Interval { every_seconds } => {
            if *every_seconds == 0 {
                return Err("automation interval every_seconds must be positive".to_owned());
            }
            Ok(*every_seconds)
        },
        AutomationSchedule::Daily { at } => {
            let target = match parse_daily_seconds(at.as_str()) {
                Ok(t) => t,
                Err(e) => return Err(e),
            };
            if target > now_seconds {
                Ok((target - now_seconds) as u64)
            } else {
                Ok((target + 86400 - now_seconds) as u64)
            }
        },
    }
}

proof fn lemma_daily_seconds_range(at: Seq<char>)
    ensures
        daily_seconds(at) matches Ok(n) ==> 0 <= n < 86400,
{
}

/// A daily job waits at least a second and at most a day, and it is then the
/// time that was asked for.
pub proof fn law_daily_job_runs_at_its_time(at: String, now_seconds: int)
    requires
        0 <= now_seconds < 86400,
        daily_seconds(at@) is Ok,
    ensures
        schedule_delay(AutomationSchedule::Daily { at }, now_seconds) matches Ok(n) && 0 < n <= 86400
            && (now_seconds + n) % 86400 == daily_seconds(at@)->Ok_0,
{
    lemma_daily_seconds_range(at@);
}

/// Why a job cannot run, if so.
pub open spec fn job_problem(job: AutomationJobConfig) -> Option<Seq<char>> {
    if is_blank(job.id@) {
        Some("automation job id must not be empty"@)
    } else if is_blank(job.prompt@) {
        Some("automation job `"@ + job.id@ + "` prompt must not be empty"@)
    } else if job.session matches AutomationSessionConfig::Fixed { session_id } && is_blank(
        session_id@,
    ) {
        Some("automation job `"@ + job.id@ + "` fixed session_id must not be empty"@)
    } else {
        None
    }
}

/// Checks that a job can run.
pub fn validate_job(job: &AutomationJobConfig) -> (r: Result<(), String>)
    ensures
        match job_problem(*job) {
            None => r is Ok,
            Some(e) => r matches Err(error) && error@ == e,
        },
{
    if trim(job.id.as_str()).is_empty() {
        return Err("automation job id must not be empty".to_owned());
    }
    if trim(job.prompt.as_str()).is_empty() {
        return Err(cat3("automation job `", job.id.as_str(), "` prompt must not be empty"));
    }
    if let AutomationSessionConfig::Fixed { session_id } = &job.session {
        if trim(session_id.as_str()).is_empty() {
            return Err(
                cat3("automation job `", job.id.as_str(), "` fixed session_id must not be empty"),
            );
        }
    }
    Ok(())
}

/// Where a run is recorded.
pub open spec fn run_dir_of(
    session_dir: Seq<char>,
    job_id: Seq<char>,
    run_id: Seq<char>,
    windows: bool,
) -> Seq<char> {
    let all = joined_on(session_dir, "automation"@, windows);
    let job = joined_on(all, sanitized(job_id), windows);
    joined_on(joined_on(job, "runs"@, windows), run_id, windows)
}

/// Where a run is recorded.
pub fn automation_run_dir(session_dir: &str, job_id: &str, run_id: &str, windows: bool) -> (r:
    String)
    ensures
        r@ == run_dir_of(session_dir@, job_id@, run_id@, windows),
{
    let a = join_path(session_dir, AUTOMATION_SESSION_SUBDIR, windows);
    let b = join_path(a.as_str(), sanitize_filename(job_id).as_str(), windows);
    let c = join_path(b.as_str(), "runs", windows);
    join_path(c.as_str(), run_id, windows)
}

/// Where a job keeps the session it works in.
pub fn sticky_state_path(agent_structure_dir: &str, job_id: &str, windows: bool) -> (r: String)
    ensures
        ({
            let all = joined_on(agent_structure_dir@, "automation_state"@, windows);
            let job = joined_on(all, sanitized(job_id@), windows);
            r@ == joined_on(job, "state.yaml"@, windows)
        }),
{
    let a = join_path(agent_structure_dir, AUTOMATION_STATE_DIR, windows);
    let b = join_path(a.as_str(), sanitize_filename(job_id).as_str(), windows);
    join_path(b.as_str(), AUTOMATION_STATE_FILE, windows)
}

/// Under what name a job holds a session.
pub open spec fn holder_name(job_id: Seq<char>) -> Seq<char> {
    "automation:"@ + sanitized(job_id)
}

/// Under what name a job holds a session.
pub fn automation_holder(job_id: &str) -> (r: String)
    ensures
        r@ == holder_name(job_id@),
{
    cat2("automation:", sanitize_filename(job_id).as_str())
}

/// A configured path, below a directory where it does not say by itself where
/// it leads.
pub fn resolve_config_path(base_dir: &str, configured: &str, windows: bool) -> (r: String)
    ensures
        r@ == joined_on(base_dir@, configured@, windows),
{
    join_path(base_dir, configured, windows)
}

/// How a run stands.
#[derive(Debug, Clone, Copy, PartialEq, Eq, Structural)]
pub enum AutomationRunStatus {
    Running,
    Completed,
    Failed,
    Skipped,
}

/// The name of a status.
pub open spec fn run_status_name(s: AutomationRunStatus) -> Seq<char> {
    match s {
        AutomationRunStatus::Running => "running"@,
        AutomationRunStatus::Completed => "completed"@,
        AutomationRunStatus::Failed => "failed"@,
        AutomationRunStatus::Skipped => "skipped"@,
    }
}

impl AutomationRunStatus {
    /// The name of the status.
    pub fn as_str(&self) -> (r: &'static str)
        ensures
            r@ == run_status_name(*self),
    {
        match self {
            AutomationRunStatus::Running => "running",
            AutomationRunStatus::Completed => "completed",
            AutomationRunStatus::Failed => "failed",
            AutomationRunStatus::Skipped => "skipped",
        }
    }
}

/// Whether someone was told.
#[derive(Debug, Clone, Copy, PartialEq, Eq, Structural)]
pub enum AutomationNotificationStatus {
    Sent,
    Failed,
    Skipped,
}

/// What is recorded of a message about a run.
#[derive(Debug)]
pub struct AutomationNotificationRecord {
    pub channel: AutomationNotifyChannel,
    pub recipient: Option<String>,
    pub status: AutomationNotificationStatus,
    pub message_id: Option<String>,
    pub error: Option<String>,
}

/// What is recorded of a run.
#[derive(Debug)]
pub struct AutomationRunRecord {
    pub job_id: String,
    pub run_id: String,
    pub session_id: String,
    pub status: AutomationRunStatus,
    pub started_at: String,
    pub finished_at: Option<String>,
    pub stop_reason: Option<String>,
    pub error: Option<String>,
    pub detail_text: Option<String>,
    pub response_text: String,
    pub notify: Vec<AutomationNotifyConfig>,
    pub notifications: Vec<AutomationNotificationRecord>,
}

/// What a record of a run says, but for who is told.
#[verifier::ext_equal]
pub ghost struct RunView {
    pub job_id: Seq<char>,
    pub run_id: Seq<char>,
    pub session_id: Seq<char>,
    pub status: AutomationRunStatus,
    pub started_at: Seq<char>,
    pub finished_at: Option<Seq<char>>,
    pub stop_reason: Option<Seq<char>>,
    pub error: Option<Seq<char>>,
    pub detail_text: Option<Seq<char>>,
    pub response_text: Seq<char>,
}

impl View for AutomationRunRecord {
    type V = RunView;

    open spec fn view(&self) -> RunView {
        RunView {
            job_id: self.job_id@,
            run_id: self.run_id@,
            session_id: self.session_id@,
            status: self.status,
            started_at: self.started_at@,
            finished_at: opt_text(self.finished_at),
            stop_reason: opt_text(self.stop_reason),
            error: opt_text(self.error),
            detail_text: opt_text(self.detail_text),
            response_text: self.response_text@,
        }
    }
}

/// Whether two lists name the same ones to tell.
pub open spec fn same_notify(a: Seq<AutomationNotifyConfig>, b: Seq<AutomationNotifyConfig>) -> bool {
    &&& a.len() == b.len()
    &&& forall|i: int|
        0 <= i < a.len() ==> (#[trigger] a[i]).channel == b[i].channel && recipient_view(
            a[i].recipient,
        ) == recipient_view(b[i].recipient)
}

/// Who is told: the kind of the recipient and its name.
pub open spec fn recipient_view(r: Option<AutomationNotifyRecipient>) -> Option<
    (Seq<char>, Seq<char>),
> {
    match r {
        Some(x) => Some((x.recipient_type@, x.id@)),
        None => None,
    }
}

/// Who is told, as it is recorded.
pub open spec fn recipient_text(r: Option<AutomationNotifyRecipient>) -> Option<Seq<char>> {
    match r {
        Some(x) => Some(x.recipient_type@ + ":"@ + x.id@),
        None => None,
    }
}

fn copy_notify(v: &Vec<AutomationNotifyConfig>) -> (r: Vec<AutomationNotifyConfig>)
    ensures
        same_notify(r@, v@),
{
    let mut out: Vec<AutomationNotifyConfig> = Vec::new();
    let mut i: usize = 0;
    while i < v.len()
        invariant
            i <= v@.len(),
            out@.len() == i,
            forall|k: int|
                0 <= k < i ==> (#[trigger] out@[k]).channel == v@[k].channel && recipient_view(
                    out@[k].recipient,
                ) == recipient_view(v@[k].recipient),
        decreases v@.len() - i,
    {
        let recipient = match &v[i].recipient {
            Some(x) => Some(
                AutomationNotifyRecipient {
                    recipient_type: x.recipient_type.clone(),
                    id: x.id.clone(),
                },
            ),
            None => None,
        };
        out.push(AutomationNotifyConfig { channel: v[i].channel, recipient });
        i += 1;
    }
    out
}

/// What is answered where a job asks for a permission: there is nobody to ask.
pub fn unattended_decision() -> (r: &'static str)
    ensures
        r@ == PERMISSION_REJECT_ONCE@,
{
    PERMISSION_REJECT_ONCE
}

/// A call of a job that would need a confirmation never runs.
pub proof fn law_unattended_call_never_runs(mode_id: Seq<char>, cancelled: bool)
    ensures
        answered(mode_id, PERMISSION_REJECT_ONCE@, cancelled) matches Ok(v) && v !is Execute,
{
    reveal_strlit("allow_once");
    reveal_strlit("reject_once");
    reveal_strlit("cancelled");
    assert("allow_once"@.len() == 10 && "reject_once"@.len() == 11 && "cancelled"@.len() == 9);
}

/// The record of a run that begins.
pub open spec fn begun(job_id: Seq<char>, run_id: Seq<char>, session_id: Seq<char>, started_at: Seq<char>) -> RunView {
    RunView {
        job_id,
        run_id,
        session_id,
        status: AutomationRunStatus::Running,
        started_at,
        finished_at: None,
        stop_reason: None,
        error: None,
        detail_text: None,
        response_text: ""@,
    }
}

/// Begins the record of a run.
pub fn begin_run(job: &AutomationJobConfig, run_id: &str, session_id: &str, started_at: &str) -> (r:
    AutomationRunRecord)
    ensures
        r@ == begun(job.id@, run_id@, session_id@, started_at@),
        same_notify(r.notify@, job.notify@),
        r.notifications@.len() == 0,
{
    AutomationRunRecord {
        job_id: job.id.clone(),
        run_id: run_id.to_owned(),
        session_id: session_id.to_owned(),
        status: AutomationRunStatus::Running,
        started_at: started_at.to_owned(),
        finished_at: None,
        stop_reason: None,
        error: None,
        detail_text: None,
        response_text: "".to_owned(),
        notify: copy_notify(&job.notify),
        notifications: Vec::new(),
    }
}

/// The record of a run that did not take place.
pub fn skipped_run(
    job: &AutomationJobConfig,
    run_id: &str,
    session_id: &str,
    started_at: &str,
    finished_at: &str,
    reason: &str,
) -> (r: AutomationRunRecord)
    ensures
        r@ == (RunView {
            status: AutomationRunStatus::Skipped,
            finished_at: Some(finished_at@),
            error: Some(reason@),
            ..begun(job.id@, run_id@, session_id@, started_at@)
        }),
        same_notify(r.notify@, job.notify@),
        r.notifications@.len() == 0,
{
    let mut record = begin_run(job, run_id, session_id, started_at);
    record.status = AutomationRunStatus::Skipped;
    record.finished_at = Some(finished_at.to_owned());
    record.error = Some(reason.to_owned());
    record
}

impl AutomationRunRecord {
    /// Ends the record of a run. `outcome` is the stop reason of the prompt,
    /// or the error that ended it.
    pub fn finish(
        &mut self,
        outcome: Result<String, String>,
        detail_text: Option<String>,
        response_text: String,
        finished_at: &str,
    )
        ensures
            final(self)@ == (RunView {
                status: if outcome is Ok {
                    AutomationRunStatus::Completed
                } else {
                    AutomationRunStatus::Failed
                },
                stop_reason: match outcome {
                    Ok(reason) => Some(reason@),
                    Err(_) => old(self)@.stop_reason,
                },
                error: match outcome {
                    Ok(_) => old(self)@.error,
                    Err(e) => Some(e@),
                },
                detail_text: opt_text(detail_text),
                response_text: response_text@,
                finished_at: Some(finished_at@),
                ..old(self)@
            }),
            final(self).notify == old(self).notify,
            final(self).notifications == old(self).notifications,
    {
        self.detail_text = detail_text;
        self.response_text = response_text;
        self.finished_at = Some(finished_at.to_owned());
        match outcome {
            Ok(reason) => {
                self.status = AutomationRunStatus::Completed;
                self.stop_reason = Some(reason);
            },
            Err(e) => {
                self.status = AutomationRunStatus::Failed;
                self.error = Some(e);
            },
        }
    }
}

/// What is told of a run.
pub open spec fn notification_text(job_id: Seq<char>, record: RunView) -> Seq<char> {
    let head = "automation `"@ + job_id + "` "@ + run_status_name(record.status) + "\nsession: "@
        + record.session_id + "\n/switch "@ + record.session_id;
    let with_error = match record.error {
        Some(e) => head + "\n\n[error]\n"@ + e,
        None => head,
    };
    let with_detail = match record.detail_text {
        Some(d) => if d.len() > 0 {
            with_error + "\n\n"@ + d
        } else {
            with_error
        },
        None => with_error,
    };
    if record.response_text.len() > 0 {
        with_detail + "\n\n"@ + record.response_text
    } else {
        with_detail
    }
}

/// What is told of a run.
pub fn render_notification_text(job: &AutomationJobConfig, record: &AutomationRunRecord) -> (r:
    String)
    ensures
        r@ == notification_text(job.id@, record@),
{
    let mut text = cat5(
        "automation `",
        job.id.as_str(),
        "` ",
        record.status.as_str(),
        "\nsession: ",
    );
    text.append(record.session_id.as_str());
    text.append("\n/switch ");
    text.append(record.session_id.as_str());
    if let Some(error) = &record.error {
        text.append("\n\n[error]\n");
        text.append(error.as_str());
    }
    if let Some(detail) = &record.detail_text {
        if !detail.as_str().is_empty() {
            text.append("\n\n");
            text.append(detail.as_str());
        }
    }
    if !record.response_text.as_str().is_empty() {
        text.append("\n\n");
        text.append(record.response_text.as_str());
    }
    text
}

/// What came of a message about a run.
#[derive(Debug)]
pub enum NotificationReply {
    /// No channel was there to send it.
    NoSink,
    Sent(String),
    Failed(String),
}

/// Whether a record says what came of a message.
pub open spec fn records_reply(
    n: AutomationNotificationRecord,
    notify: AutomationNotifyConfig,
    reply: NotificationReply,
) -> bool {
    &&& n.channel == notify.channel
    &&& opt_text(n.recipient) == recipient_text(notify.recipient)
    &&& match reply {
        NotificationReply::NoSink => n.status is Skipped && n.message_id is None && opt_text(
            n.error,
        ) == Some("channel is not running or has no notification sink"@),
        NotificationReply::Sent(id) => n.status is Sent && opt_text(n.message_id) == Some(id@)
            && n.error is None,
        NotificationReply::Failed(e) => n.status is Failed && n.message_id is None && opt_text(
            n.error,
        ) == Some(e@),
    }
}

/// Records what came of a message.
pub fn notification_record(notify: &AutomationNotifyConfig, reply: NotificationReply) -> (r:
    AutomationNotificationRecord)
    ensures
        records_reply(r, *notify, reply),
{
    let recipient = match &notify.recipient {
        Some(x) => Some(cat3(x.recipient_type.as_str(), ":", x.id.as_str())),
        None => None,
    };
    match reply {
        NotificationReply::NoSink => AutomationNotificationRecord {
            channel: notify.channel,
            recipient,
            status: AutomationNotificationStatus::Skipped,
            message_id: None,
            error: Some("channel is not running or has no notification sink".to_owned()),
        },
        NotificationReply::Sent(id) => AutomationNotificationRecord {
            channel: notify.channel,
            recipient,
            status: AutomationNotificationStatus::Sent,
            message_id: Some(id),
            error: None,
        },
        NotificationReply::Failed(e) => AutomationNotificationRecord {
            channel: notify.channel,
            recipient,
            status: AutomationNotificationStatus::Failed,
            message_id: None,
            error: Some(e),
        },
    }
}

/// Whether a job got its session.
#[derive(Debug)]
pub enum SessionSelection {
    Ready { lease_holder: String },
    Skipped { reason: String },
}

/// Why a job does not get a session, if so: someone has it, or it is at work.
pub open spec fn selection_problem(
    m: Map<Seq<char>, LeaseView>,
    session_id: Seq<char>,
    active: bool,
) -> Option<Seq<char>> {
    match holder_of(m, session_id) {
        Some(h) => Some("session "@ + session_id + " is occupied by "@ + h),
        None => if active {
            Some("session "@ + session_id + " is active"@)
        } else {
            None
        },
    }
}

/// Asks for a session that exists; a run that cannot have it does not take
/// place.
pub fn prepare_existing_session(
    leases: &mut SessionLeaseRegistry,
    job_id: &str,
    session_id: &str,
    active: bool,
    now: &str,
) -> (r: SessionSelection)
    ensures
        match selection_problem(old(leases)@, session_id@, active) {
            Some(e) => (r matches SessionSelection::Skipped { reason } && reason@ == e) && final(leases)@ == old(leases)@,
            None => (r matches SessionSelection::Ready { lease_holder } && lease_holder@
                == holder_name(job_id@)) && final(leases)@ == old(leases)@.insert(
                session_id@,
                (LeaseView { holder: holder_name(job_id@), acquired_at: now@, updated_at: now@ }),
            ),
        },
{
    if let Some(h) = leases.holder_sync(session_id) {
        let mut reason = cat3("session ", session_id, " is occupied by ");
        reason.append(h.as_str());
        return SessionSelection::Skipped { reason };
    }
    if active {
        return SessionSelection::Skipped { reason: cat3("session ", session_id, " is active") };
    }
    let holder = automation_holder(job_id);
    match leases.acquire_sync(session_id, holder.as_str(), now) {
        Ok(_) => SessionSelection::Ready { lease_holder: holder },
        Err(e) => SessionSelection::Skipped { reason: e },
    }
}

/// The name of the session that a job is bound to.
pub fn fixed_session_id(session_id: &str) -> (r: Result<String, String>)
    ensures
        if is_blank(session_id@) {
            r matches Err(e) && e@ == "automation fixed session_id must not be empty"@
        } else {
            r matches Ok(s) && s@ == trim_of(session_id@)
        },
{
    let trimmed = trim(session_id);
    if trimmed.is_empty() {
        return Err("automation fixed session_id must not be empty".to_owned());
    }
    Ok(trimmed.to_owned())
}

/// What is kept of the session that a job works in.
pub fn sticky_state(job: &AutomationJobConfig, session_id: &str, now: &str) -> (r:
    AutomationStickyState)
    ensures
        r.job_id@ == job.id@,
        r.session_id@ == session_id@,
        r.updated_at@ == now@,
{
    AutomationStickyState {
        job_id: job.id.clone(),
        session_id: session_id.to_owned(),
        updated_at: now.to_owned(),
    }
}

/// A job never takes a session away from another holder.
pub proof fn law_job_never_takes_a_session_away(
    m: Map<Seq<char>, LeaseView>,
    session_id: Seq<char>,
    active: bool,
)
    requires
        m.dom().contains(session_id),
    ensures
        selection_problem(m, session_id, active) is Some,
{
}

/// A time of day is its hours, minutes and seconds, written with colons between
/// them; seconds may be left out.
pub proof fn law_time_of_day_is_read(
    a: Seq<char>,
    b: Seq<char>,
    c: Seq<char>,
    hour: nat,
    minute: nat,
    second: nat,
)
    requires
        !a.contains(':') && !b.contains(':') && !c.contains(':'),
        unsigned_of(a, u32::MAX as nat) == Some(hour),
        unsigned_of(b, u32::MAX as nat) == Some(minute),
        unsigned_of(c, u32::MAX as nat) == Some(second),
    ensures
        hour <= 23 && minute <= 59 ==> daily_seconds(a + seq![':'] + b) == Ok::<int, Seq<char>>(
            (hour * 3600 + minute * 60) as int,
        ),
        hour <= 23 && minute <= 59 && second <= 59 ==> daily_seconds(
            a + seq![':'] + (b + seq![':'] + c),
        ) == Ok::<int, Seq<char>>((hour * 3600 + minute * 60 + second) as int),
        hour > 23 || minute > 59 ==> daily_seconds(a + seq![':'] + b) is Err,
        hour > 23 || minute > 59 || second > 59 ==> daily_seconds(
            a + seq![':'] + (b + seq![':'] + c),
        ) is Err,
{
    law_split_takes_parts_in_order(a, ':', b);
    law_split_takes_parts_in_order(b, ':', b);
    law_split_takes_parts_in_order(a, ':', b + seq![':'] + c);
    law_split_takes_parts_in_order(b, ':', c);
    law_split_takes_parts_in_order(c, ':', c);
    assert(split_of(a + seq![':'] + b, ':') =~= seq![a, b]);
    assert(split_of(a + seq![':'] + (b + seq![':'] + c), ':') =~= seq![a, b, c]);
}

/// A job that is repeated waits for its interval, which is never none.
pub proof fn law_repeated_job_waits_for_its_interval(every_seconds: u64, now_seconds: int)
    ensures
        every_seconds > 0 ==> schedule_delay(
            AutomationSchedule::Interval { every_seconds },
            now_seconds,
        ) == Ok::<int, Seq<char>>(every_seconds as int),
        every_seconds == 0 ==> schedule_delay(
            AutomationSchedule::Interval { every_seconds },
            now_seconds,
        ) is Err,
{
}

/// Whether a character may stand in a file name.
pub open spec fn may_stand_in_a_name(c: char) -> bool {
    ||| '0' <= c <= '9'
    ||| 'a' <= c <= 'z'
    ||| 'A' <= c <= 'Z'
    ||| c == '-' || c == '_' || c == '.'
}

/// A name that is fit for a file stays as it is; in another every unfit character
/// becomes a hyphen, and hyphens at the ends are cut off.
pub proof fn law_fit_name_stays(s: Seq<char>)
    ensures
        s.len() > 0 && s[0] != '-' && s.last() != '-' && (forall|i: int|
            0 <= i < s.len() ==> may_stand_in_a_name(#[trigger] s[i])) ==> sanitized(s) == s,
        s.len() > 0 && may_stand_in_a_name(s[0]) && s[0] != '-' && may_stand_in_a_name(s.last())
            && s.last() != '-' ==> sanitized(s).len() == s.len() && forall|i: int|
            0 <= i < s.len() ==> (#[trigger] sanitized(s)[i]) == (if may_stand_in_a_name(s[i]) {
                s[i]
            } else {
                '-'
            }),
{
    let t = name_chars(s);
    if s.len() > 0 && may_stand_in_a_name(s[0]) && s[0] != '-' && may_stand_in_a_name(s.last())
        && s.last() != '-' {
        assert(t[0] == s[0]);
        assert(t.last() == s.last());
        assert(no_front_hyphens(t) == t);
        assert(no_end_hyphens(t) == t);
        if forall|i: int| 0 <= i < s.len() ==> may_stand_in_a_name(#[trigger] s[i]) {
            assert(t =~= s);
        }
    }
    if s.len() > 0 && (forall|i: int| 0 <= i < s.len() ==> may_stand_in_a_name(#[trigger] s[i])) {
        assert(may_stand_in_a_name(s[0]));
        assert(may_stand_in_a_name(s[s.len() - 1]));
    }
}

/// A job can run if and only if it has a name and a prompt, and names its session
/// where that is fixed.
pub proof fn law_job_that_can_run(job: AutomationJobConfig)
    ensures
        job_problem(job) is None <==> !is_blank(job.id@) && !is_blank(job.prompt@) && !(
        job.session matches AutomationSessionConfig::Fixed { session_id } && is_blank(session_id@)),
{
}

/// A job takes a session that nobody has and that does not work, and no other.
pub proof fn law_job_takes_a_free_session(
    m: Map<Seq<char>, LeaseView>,
    session_id: Seq<char>,
    active: bool,
)
    ensures
        selection_problem(m, session_id, active) is None <==> !m.dom().contains(session_id)
            && !active,
{
}

/// The run of a job is recorded under the job, with its session and start, and as
/// running.
pub proof fn law_run_is_recorded(
    job_id: Seq<char>,
    run_id: Seq<char>,
    session_id: Seq<char>,
    started_at: Seq<char>,
)
    ensures
        ({
            let r = begun(job_id, run_id, session_id, started_at);
            &&& r.job_id == job_id && r.run_id == run_id && r.session_id == session_id
            &&& r.started_at == started_at && r.status is Running
            &&& r.finished_at is None && r.stop_reason is None && r.error is None
            &&& r.detail_text is None && r.response_text.len() == 0
        }),
{
    reveal_strlit("");
}

/// The notification of a run names the job, how it ended and the session to switch
/// to, and ends with what was answered, behind the error where there is one.
pub proof fn law_notification_tells_the_run(job_id: Seq<char>, r: RunView)
    ensures
        starts_with(
            notification_text(job_id, r),
            "automation `"@ + job_id + "` "@ + run_status_name(r.status),
        ),
        contains_sub(notification_text(job_id, r), "/switch "@ + r.session_id),
        r.response_text.len() > 0 ==> ends_with(notification_text(job_id, r), r.response_text),
        r.error matches Some(e) ==> contains_sub(notification_text(job_id, r), e),
        r.detail_text matches Some(d) ==> contains_sub(notification_text(job_id, r), d),
        r.status is Completed ==> run_status_name(r.status) == "completed"@,
        r.status is Failed ==> run_status_name(r.status) == "failed"@,
        r.status is Skipped ==> run_status_name(r.status) == "skipped"@,
        r.status is Running ==> run_status_name(r.status) == "running"@,
{
    let head = "automation `"@ + job_id + "` "@ + run_status_name(r.status) + "\nsession: "@
        + r.session_id + "\n/switch "@ + r.session_id;
    let named = "automation `"@ + job_id + "` "@ + run_status_name(r.status);
    let switch = "/switch "@ + r.session_id;
    lemma_notification_head(job_id, r);
    let with_error = match r.error {
        Some(e) => head + "\n\n[error]\n"@ + e,
        None => head,
    };
    lemma_one_more(head, r.error, "\n\n[error]\n"@, named, switch);
    let detail = match r.detail_text {
        Some(d) => if d.len() > 0 {
            Some(d)
        } else {
            None
        },
        None => None,
    };
    let with_detail = match detail {
        Some(d) => with_error + "\n\n"@ + d,
        None => with_error,
    };
    lemma_one_more(with_error, detail, "\n\n"@, named, switch);
    let response = if r.response_text.len() > 0 {
        Some(r.response_text)
    } else {
        None
    };
    lemma_one_more(with_detail, response, "\n\n"@, named, switch);
    if let Some(e) = r.error {
        lemma_one_more(with_error, detail, "\n\n"@, named, e);
        lemma_one_more(with_detail, response, "\n\n"@, named, e);
    }
    if let Some(d) = r.detail_text {
        if d.len() > 0 {
            lemma_one_more(with_detail, response, "\n\n"@, named, d);
        } else {
            let text = notification_text(job_id, r);
            assert(text.subrange(0, 0) =~= d);
            assert(crate::text::stands_at(text, d, 0));
        }
    }
}

proof fn lemma_notification_head(job_id: Seq<char>, r: RunView)
    ensures
        ({
            let named = "automation `"@ + job_id + "` "@ + run_status_name(r.status);
            let head = named + "\nsession: "@ + r.session_id + "\n/switch "@ + r.session_id;
            starts_with(head, named) && contains_sub(head, "/switch "@ + r.session_id)
        }),
{
    reveal_strlit("\n/switch ");
    reveal_strlit("/switch ");
    reveal_strlit("\n");
    assert("\n/switch "@ =~= "\n"@ + "/switch "@);
    let named = "automation `"@ + job_id + "` "@ + run_status_name(r.status);
    lemma_head_parts(named, "\nsession: "@, r.session_id, "\n"@, "/switch "@);
}

proof fn lemma_head_parts(
    named: Seq<char>,
    label: Seq<char>,
    id: Seq<char>,
    end: Seq<char>,
    command: Seq<char>,
)
    ensures
        starts_with(named + label + id + (end + command) + id, named),
        contains_sub(named + label + id + (end + command) + id, command + id),
{
    let front = named + label + id;
    law_parts_are_found(named, label, Seq::empty());
    law_parts_stay_in_longer_texts(named + label, id, named);
    law_parts_stay_in_longer_texts(front, end + command, named);
    law_parts_stay_in_longer_texts(front + (end + command), id, named);
    law_parts_are_found(front + end, command + id, Seq::empty());
    assert(front + (end + command) + id =~= (front + end) + (command + id) + Seq::<char>::empty());
}

/// What `text` begins with and holds, it still does with one part more, which it then
/// holds and ends with.
proof fn lemma_one_more(
    text: Seq<char>,
    part: Option<Seq<char>>,
    mark: Seq<char>,
    start: Seq<char>,
    held: Seq<char>,
)
    requires
        starts_with(text, start),
        contains_sub(text, held),
    ensures
        ({
            let all = match part {
                Some(p) => text + mark + p,
                None => text,
            };
            &&& starts_with(all, start) && contains_sub(all, held)
            &&& part matches Some(p) ==> contains_sub(all, p) && ends_with(all, p)
        }),
{
    if let Some(p) = part {
        let all = text + mark + p;
        assert(all =~= text + (mark + p));
        law_parts_stay_in_longer_texts(text, mark + p, start);
        law_parts_stay_in_longer_texts(text, mark + p, held);
        law_parts_are_found(text + mark, p, Seq::empty());
        assert(all =~= text + mark + p + Seq::<char>::empty());
    }
}

/// A job holds its session, and keeps its runs, under its own name.
pub proof fn law_job_goes_by_its_name(
    session_dir: Seq<char>,
    job_id: Seq<char>,
    run_id: Seq<char>,
    windows: bool,
)
    ensures
        holder_name(job_id) == "automation:"@ + sanitized(job_id),
        run_dir_of(session_dir, job_id, run_id, windows) == joined_on(
            joined_on(
                joined_on(joined_on(session_dir, "automation"@, windows), sanitized(job_id), windows),
                "runs"@,
                windows,
            ),
            run_id,
            windows,
        ),
{
}

/// Jobs run if the automation and one of them are enabled.
pub proof fn law_jobs_run_where_enabled(c: AutomationConfig, i: int)
    ensures
        c.enabled && 0 <= i < c.jobs@.len() && c.jobs@[i].enabled ==> any_job(c),
        !c.enabled ==> !any_job(c),
        (forall|k: int| 0 <= k < c.jobs@.len() ==> !(#[trigger] c.jobs@[k]).enabled) ==> !any_job(c),
{
}

/// A recipient is recorded by its kind and name.
pub proof fn law_recipient_is_recorded(r: AutomationNotifyRecipient)
    ensures
        recipient_text(Some(r)) == Some(r.recipient_type@ + ":"@ + r.id@),
        recipient_text(None) is None,
        recipient_view(Some(r)) == Some((r.recipient_type@, r.id@)),
{
}

/// What a channel replied is recorded: that it was sent, under the id of the message,
/// that it failed and why, or that there was nobody to send it.
pub proof fn law_reply_is_recorded(
    n: AutomationNotificationRecord,
    notify: AutomationNotifyConfig,
    reply: NotificationReply,
)
    requires
        records_reply(n, notify, reply),
    ensures
        n.channel == notify.channel,
        reply matches NotificationReply::Sent(id) ==> n.status is Sent && opt_text(n.message_id)
            == Some(id@) && n.error is None,
        reply matches NotificationReply::Failed(e) ==> n.status is Failed && opt_text(n.error)
            == Some(e@) && n.message_id is None,
        reply is NoSink ==> n.status is Skipped && n.error is Some && n.message_id is None,
{
}

} // verus!
