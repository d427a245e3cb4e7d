//! Commands that run in a terminal.

use crate::json::{
    as_count, count, field, fields, no_members, put, put_text, Json, JsonNumber, Jv, Member,
    NumberView,
};
use crate::subagent::number;
use crate::text::{
    cat2, decimal, decimal_text, from_utf8_lossy, is_blank, lemma_texts_push, lossy_text, opt_str,
    texts, trim, trim_of,
};
use crate::tools::{env_map, EnvVar};
use vstd::prelude::*;
use vstd::utf8::{decode_utf8, valid_utf8};

verus! {

/// How many lines of output are shown where nothing else is asked for.
pub const DEFAULT_TAIL_LINE_NUM: usize = 200;

/// What is known of a command that was started.
#[derive(Debug)]
pub struct HandleState {
    pub output_lines: Vec<String>,
    pub exit_code: Option<i32>,
    pub killed: bool,
    pub finished: bool,
}

/// How a command ended.
pub open spec fn end_label(killed: bool, exit_code: Option<i32>) -> Seq<char> {
    if killed {
        "killed"@
    } else if exit_code == Some(0i32) {
        "completed_success"@
    } else {
        "completed_error"@
    }
}

/// How a command stands.
pub open spec fn label_of(s: HandleState) -> Seq<char> {
    if s.finished {
        end_label(s.killed, s.exit_code)
    } else {
        "running"@
    }
}

/// The texts of a list, one after the other.
pub open spec fn concatenated(v: Seq<Seq<char>>) -> Seq<char>
    decreases v.len(),
{
    if v.len() == 0 {
        Seq::empty()
    } else {
        concatenated(v.drop_last()) + v.last()
    }
}

/// The last lines of a list, at least one where there is one.
pub open spec fn tail(v: Seq<Seq<char>>, wanted: int) -> Seq<Seq<char>> {
    let n = if wanted < 1 {
        1
    } else {
        wanted
    };
    if v.len() <= n {
        v
    } else {
        v.skip(v.len() - n)
    }
}

/// The exit code as a value.
pub open spec fn exit_view(code: Option<i32>) -> Jv {
    match code {
        Some(c) => Jv::Number(NumberView::Integer(c as int)),
        None => Jv::Null,
    }
}

fn exit_json(code: Option<i32>) -> (r: Json)
    ensures
        r@ == exit_view(code),
{
    match code {
        Some(c) => if c >= 0 {
            Json::Number(JsonNumber::Unsigned(c as u64))
        } else {
            Json::Number(JsonNumber::Negative(c as i64))
        },
        None => Json::Null,
    }
}

/// What is told of a terminal in a status.
pub open spec fn runtime_view(id: Seq<char>, status: Seq<char>) -> Jv {
    Jv::Object(
        Map::<Seq<char>, Jv>::empty().insert("kind"@, Jv::Text("terminal"@)).insert(
            "id"@,
            Jv::Text(id),
        ).insert("status"@, Jv::Text(status)),
    )
}

fn runtime_json(id: &str, status: &str) -> (r: Json)
    ensures
        r@ == runtime_view(id@, status@),
{
    let mut m = no_members();
    put_text(&mut m, "kind", "terminal");
    put_text(&mut m, "id", id);
    put_text(&mut m, "status", status);
    Json::Object(m)
}

/// What is told of a command: the end of its output, and how it stands.
pub open spec fn snapshot_view(
    id: Seq<char>,
    s: HandleState,
    tail_line_num: int,
    message: Option<Seq<char>>,
) -> Jv {
    let lines = texts(s.output_lines@);
    let shown = tail(lines, tail_line_num);
    let status = label_of(s);
    let head = Map::<Seq<char>, Jv>::empty().insert("id"@, Jv::Text(id)).insert(
        "runtime"@,
        runtime_view(id, status),
    ).insert("status"@, Jv::Text(status)).insert("done"@, Jv::Bool(s.finished));
    let ended = if s.finished {
        head.insert("exit_code"@, exit_view(s.exit_code))
    } else {
        head
    };
    let all = ended.insert("output"@, Jv::Text(concatenated(shown))).insert(
        "returned_lines"@,
        number(shown.len()),
    ).insert("total_lines"@, number(lines.len()));
    Jv::Object(
        match message {
            Some(m) => all.insert("message"@, Jv::Text(m)),
            None => all,
        },
    )
}

fn concat_from(v: &Vec<String>, start: usize) -> (r: String)
    requires
        start <= v@.len(),
    ensures
        r@ == concatenated(texts(v@).skip(start as int)),
{
    let ghost all = texts(v@).skip(start as int);
    let mut out = "".to_owned();
    let mut i: usize = start;
    proof {
        reveal_strlit("");
        assert(all.take(0) =~= Seq::empty());
        assert(out@ =~= concatenated(all.take(0)));
    }
    while i < v.len()
        invariant
            start <= i <= v@.len(),
            all == texts(v@).skip(start as int),
            out@ == concatenated(all.take(i - start)),
        decreases v@.len() - i,
    {
        proof {
            assert(all[i - start] == v@[i as int]@);
            assert(all.take(i + 1 - start).drop_last() =~= all.take(i - start));
            assert(all.take(i + 1 - start).last() == all[i - start]);
        }
        out.append(v[i].as_str());
        i += 1;
    }
    proof {
        assert(all.take(all.len() as int) =~= all);
    }
    out
}

impl HandleState {
    /// A command that has just started.
    pub fn new() -> (r: Self)
        ensures
            r.output_lines@.len() == 0,
            r.exit_code is None,
            !r.killed,
            !r.finished,
    {
        HandleState { output_lines: Vec::new(), exit_code: None, killed: false, finished: false }
    }

    /// How the command ended.
    pub fn status_label(&self) -> (r: &'static str)
        ensures
            r@ == end_label(self.killed, self.exit_code),
    {
        if self.killed {
            return "killed";
        }
        match self.exit_code {
            Some(c) => if c == 0 {
                "completed_success"
            } else {
                "completed_error"
            },
            None => "completed_error",
        }
    }

    /// Takes a line of output.
    pub fn push_line(&mut self, line: String)
        ensures
            final(self).output_lines@ == old(self).output_lines@.push(line),
            final(self).exit_code == old(self).exit_code,
            final(self).killed == old(self).killed,
            final(self).finished == old(self).finished,
    {
        self.output_lines.push(line);
    }

    /// Takes a line of output as it was read.
    pub fn push_bytes(&mut self, line: &Vec<u8>)
        ensures
            texts(final(self).output_lines@) == texts(old(self).output_lines@).push(
                lossy_text(line@),
            ),
            valid_utf8(line@) ==> lossy_text(line@) == decode_utf8(line@),
            final(self).exit_code == old(self).exit_code,
            final(self).killed == old(self).killed,
            final(self).finished == old(self).finished,
    {
        let text = from_utf8_lossy(line);
        proof {
            lemma_texts_push(self.output_lines@, text);
        }
        self.push_line(text);
    }

    /// Takes note that the command ended.
    pub fn finish(&mut self, exit_code: Option<i32>)
        ensures
            final(self).output_lines == old(self).output_lines,
            final(self).exit_code == exit_code,
            final(self).killed == old(self).killed,
            final(self).finished,
    {
        self.exit_code = exit_code;
        self.finished = true;
    }

    /// Takes note that the command is killed, unless it has ended; the result
    /// tells whether there is something to kill.
    pub fn mark_killed(&mut self) -> (r: bool)
        ensures
            r == !old(self).finished,
            final(self).killed == (old(self).killed || r),
            final(self).output_lines == old(self).output_lines,
            final(self).exit_code == old(self).exit_code,
            final(self).finished == old(self).finished,
    {
        if self.finished {
            return false;
        }
        self.killed = true;
        true
    }
}

/// A command that runs in a terminal.
#[derive(Debug)]
pub struct TerminalSession {
    pub session_id: String,
    pub command: String,
    pub state: Option<HandleState>,
}

/// How many lines are asked for.
pub open spec fn wanted_lines(m: Map<Seq<char>, Jv>) -> int {
    match as_count(field(Jv::Object(m), "tail_line_num"@)) {
        Some(n) => if (n as u64 as usize) > 0 {
            n as u64 as usize as int
        } else {
            200
        },
        None => 200,
    }
}

fn read_wanted_lines(args: &Vec<Member>) -> (r: usize)
    ensures
        r == wanted_lines(fields(args@)),
{
    match crate::json::lookup(args, "tail_line_num") {
        Some(v) => match v.as_u64() {
            Some(n) => {
                let k = n as usize;
                if k > 0 {
                    k
                } else {
                    DEFAULT_TAIL_LINE_NUM
                }
            },
            None => DEFAULT_TAIL_LINE_NUM,
        },
        None => DEFAULT_TAIL_LINE_NUM,
    }
}

/// Tells of a command.
pub fn render_snapshot(
    session_id: &str,
    state: &HandleState,
    tail_line_num: usize,
    message: Option<&str>,
) -> (r: Json)
    ensures
        r@ == snapshot_view(session_id@, *state, tail_line_num as int, opt_str(message)),
{
    let ghost lines = texts(state.output_lines@);
    let status = if state.finished {
        state.status_label()
    } else {
        "running"
    };
    let mut m = no_members();
    put_text(&mut m, "id", session_id);
    put(&mut m, "runtime", runtime_json(session_id, status));
    put_text(&mut m, "status", status);
    put(&mut m, "done", Json::Bool(state.finished));
    if state.finished {
        put(&mut m, "exit_code", exit_json(state.exit_code));
    }
    let total = state.output_lines.len();
    let wanted: usize = if tail_line_num < 1 {
        1
    } else {
        tail_line_num
    };
    let start: usize = if total <= wanted {
        0
    } else {
        total - wanted
    };
    proof {
        assert(lines.skip(start as int) =~= tail(lines, tail_line_num as int));
    }
    put(&mut m, "output", Json::Text(concat_from(&state.output_lines, start)));
    put(&mut m, "returned_lines", count((total - start) as u64));
    put(&mut m, "total_lines", count(total as u64));
    if let Some(text) = message {
        put_text(&mut m, "message", text);
    }
    Json::Object(m)
}

impl TerminalSession {
    /// A command that has not started.
    pub fn new(session_id: &str, command: &str) -> (r: Self)
        ensures
            r.session_id@ == session_id@,
            r.command@ == trim_of(command@),
            r.state is None,
    {
        TerminalSession {
            session_id: session_id.to_owned(),
            command: trim(command).to_owned(),
            state: None,
        }
    }

    /// The output of a start: `finished` tells that the command ended in time.
    pub fn start_output(&self, finished: bool) -> (r: Result<Json, String>)
        ensures
            match self.state {
                Some(s) => r matches Ok(v) && v@ == snapshot_view(
                    self.session_id@,
                    s,
                    200,
                    if finished {
                        None
                    } else {
                        Some("command still running after timeout"@)
                    },
                ),
                None => r matches Err(e) && e@ == "terminal session has not started"@,
            },
    {
        match &self.state {
            Some(s) => Ok(
                render_snapshot(
                    self.session_id.as_str(),
                    s,
                    DEFAULT_TAIL_LINE_NUM,
                    if finished {
                        None
                    } else {
                        Some("command still running after timeout")
                    },
                ),
            ),
            None => Err("terminal session has not started".to_owned()),
        }
    }

    /// The output of a start that failed.
    pub fn failed_start_output(&self, error: &str) -> (r: Json)
        ensures
            r@ == Jv::Object(
                Map::<Seq<char>, Jv>::empty().insert("id"@, Jv::Text(self.session_id@)).insert(
                    "runtime"@,
                    runtime_view(self.session_id@, "completed_error"@),
                ).insert("status"@, Jv::Text("completed_error"@)).insert(
                    "done"@,
                    Jv::Bool(true),
                ).insert("error"@, Jv::Text(error@)),
            ),
    {
        let mut m = no_members();
        put_text(&mut m, "id", self.session_id.as_str());
        put(&mut m, "runtime", runtime_json(self.session_id.as_str(), "completed_error"));
        put_text(&mut m, "status", "completed_error");
        put(&mut m, "done", Json::Bool(true));
        put_text(&mut m, "error", error);
        Json::Object(m)
    }

    /// The output of a checkout.
    pub fn checkout(&self, args: &Vec<Member>) -> (r: Result<Json, String>)
        ensures
            match self.state {
                Some(s) => r matches Ok(v) && v@ == snapshot_view(
                    self.session_id@,
                    s,
                    wanted_lines(fields(args@)),
                    None,
                ),
                None => r matches Err(e) && e@ == "terminal session has not started"@,
            },
    {
        let wanted = read_wanted_lines(args);
        match &self.state {
            Some(s) => Ok(render_snapshot(self.session_id.as_str(), s, wanted, None)),
            None => Err("terminal session has not started".to_owned()),
        }
    }

    /// Whether the command has ended.
    pub fn is_done(&self) -> (r: bool)
        ensures
            r == (self.state matches Some(s) && s.finished),
    {
        match &self.state {
            Some(s) => s.finished,
            None => false,
        }
    }

    /// How the command is listed.
    pub fn list_item(&self) -> (r: Json)
        ensures
            r@ == Jv::Object(
                Map::<Seq<char>, Jv>::empty().insert("id"@, Jv::Text(self.session_id@)).insert(
                    "kind"@,
                    Jv::Text("terminal"@),
                ).insert(
                    "status"@,
                    Jv::Text(
                        match self.state {
                            Some(s) => label_of(s),
                            None => "created"@,
                        },
                    ),
                ).insert("done"@, Jv::Bool(self.state matches Some(s) && s.finished)),
            ),
    {
        let status = match &self.state {
            Some(s) => if s.finished {
                s.status_label()
            } else {
                "running"
            },
            None => "created",
        };
        let mut m = no_members();
        put_text(&mut m, "id", self.session_id.as_str());
        put_text(&mut m, "kind", "terminal");
        put_text(&mut m, "status", status);
        put(&mut m, "done", Json::Bool(self.is_done()));
        Json::Object(m)
    }
}

/// What is told of a terminal that does not exist.
pub fn terminal_not_found(id: &str) -> (r: Json)
    ensures
        r@ == Jv::Object(
            Map::<Seq<char>, Jv>::empty().insert("id"@, Jv::Text(id@)).insert(
                "runtime"@,
                runtime_view(id@, "not_found"@),
            ).insert("status"@, Jv::Text("not_found"@)).insert("done"@, Jv::Bool(true)),
        ),
{
    let mut m = no_members();
    put_text(&mut m, "id", id);
    put(&mut m, "runtime", runtime_json(id, "not_found"));
    put_text(&mut m, "status", "not_found");
    put(&mut m, "done", Json::Bool(true));
    Json::Object(m)
}

/// The command to run, which must not be blank.
pub fn command_text(command: &str) -> (r: Result<String, String>)
    ensures
        if is_blank(command@) {
            r matches Err(e) && e@ == "Missing argument: command"@
        } else {
            r matches Ok(s) && s@ == trim_of(command@)
        },
{
    let t = trim(command);
    if t.is_empty() {
        return Err("Missing argument: command".to_owned());
    }
    Ok(t.to_owned())
}

/// A program and its arguments.
#[derive(Debug)]
pub struct ProgramCall {
    pub program: String,
    pub args: Vec<String>,
}

fn push(v: &mut Vec<String>, s: &str)
    ensures
        texts(final(v)@) == texts(old(v)@).push(s@),
{
    let owned = s.to_owned();
    proof {
        crate::text::lemma_texts_push(v@, owned);
    }
    v.push(owned);
}

/// The arguments with which PowerShell runs a command.
pub open spec fn powershell_args(command: Seq<char>) -> Seq<Seq<char>> {
    seq![
        "-NoLogo"@,
        "-NoProfile"@,
        "-NonInteractive"@,
        "-ExecutionPolicy"@,
        "Bypass"@,
        "-Command"@,
        "$ProgressPreference='SilentlyContinue';"@ + command,
    ]
}

/// How a command is run: by `sh`, or on Windows by the PowerShell there is.
pub fn shell_call(command: &str, windows: bool, has_pwsh: bool) -> (r: ProgramCall)
    ensures
        !windows ==> r.program@ == "sh"@ && texts(r.args@) == seq!["-c"@, command@],
        windows ==> r.program@ == (if has_pwsh {
            "pwsh.exe"@
        } else {
            "powershell.exe"@
        }) && texts(r.args@) == powershell_args(command@),
{
    let mut args: Vec<String> = Vec::new();
    proof {
        assert(texts(args@) =~= Seq::empty());
    }
    if windows {
        push(&mut args, "-NoLogo");
        push(&mut args, "-NoProfile");
        push(&mut args, "-NonInteractive");
        push(&mut args, "-ExecutionPolicy");
        push(&mut args, "Bypass");
        push(&mut args, "-Command");
        push(&mut args, cat2("$ProgressPreference='SilentlyContinue';", command).as_str());
        proof {
            assert(texts(args@) =~= powershell_args(command@));
        }
        ProgramCall {
            program: if has_pwsh {
                "pwsh.exe".to_owned()
            } else {
                "powershell.exe".to_owned()
            },
            args,
        }
    } else {
        push(&mut args, "-c");
        push(&mut args, command);
        proof {
            assert(texts(args@) =~= seq!["-c"@, command@]);
        }
        ProgramCall { program: "sh".to_owned(), args }
    }
}

/// How a process is killed, and what is said where that fails.
pub fn kill_call(pid: u32, windows: bool) -> (r: (ProgramCall, String))
    ensures
        !windows ==> r.0.program@ == "kill"@ && texts(r.0.args@) == seq![
            "-KILL"@,
            decimal(pid as nat),
        ] && r.1@ == "kill failed for pid "@ + decimal(pid as nat),
        windows ==> r.0.program@ == "taskkill"@ && texts(r.0.args@) == seq![
            "/PID"@,
            decimal(pid as nat),
            "/T"@,
            "/F"@,
        ] && r.1@ == "taskkill failed for process tree rooted at pid "@ + decimal(pid as nat),
{
    let text = decimal_text(pid as u64);
    let mut args: Vec<String> = Vec::new();
    proof {
        assert(texts(args@) =~= Seq::empty());
    }
    if windows {
        push(&mut args, "/PID");
        push(&mut args, text.as_str());
        push(&mut args, "/T");
        push(&mut args, "/F");
        proof {
            assert(texts(args@) =~= seq!["/PID"@, decimal(pid as nat), "/T"@, "/F"@]);
        }
        (
            ProgramCall { program: "taskkill".to_owned(), args },
            cat2("taskkill failed for process tree rooted at pid ", text.as_str()),
        )
    } else {
        push(&mut args, "-KILL");
        push(&mut args, text.as_str());
        proof {
            assert(texts(args@) =~= seq!["-KILL"@, decimal(pid as nat)]);
        }
        (
            ProgramCall { program: "kill".to_owned(), args },
            cat2("kill failed for pid ", text.as_str()),
        )
    }
}

/// The environment of a command: its own variables win over those of the
/// host.
pub fn merged_env(host: Vec<EnvVar>, extra: Vec<EnvVar>) -> (r: Vec<EnvVar>)
    ensures
        env_map(r@, r@.len()) == env_map(host@, host@.len()).union_prefer_right(
            env_map(extra@, extra@.len()),
        ),
{
    let mut out = host;
    let mut tail = extra;
    out.append(&mut tail);
    proof {
        lemma_env_append(host@, extra@, extra@.len());
        assert(out@ =~= host@ + extra@);
    }
    out
}

proof fn lemma_env_append(a: Seq<EnvVar>, b: Seq<EnvVar>, n: nat)
    requires
        n <= b.len(),
    ensures
        env_map(a + b, a.len() + n) =~= env_map(a, a.len()).union_prefer_right(env_map(b, n)),
    decreases n,
{
    if n > 0 {
        lemma_env_append(a, b, (n - 1) as nat);
        assert((a + b)[a.len() + n - 1] == b[n - 1]);
    } else {
        lemma_env_front(a, b, a.len());
    }
}

proof fn lemma_env_front(a: Seq<EnvVar>, b: Seq<EnvVar>, n: nat)
    requires
        n <= a.len(),
    ensures
        env_map(a + b, n) == env_map(a, n),
    decreases n,
{
    if n > 0 {
        lemma_env_front(a, b, (n - 1) as nat);
    }
}

/// A checkout shows no more lines than there are, and all of them where that
/// many are asked for.
pub proof fn law_tail_is_the_end_of_the_output(v: Seq<Seq<char>>, wanted: int)
    ensures
        tail(v, wanted).len() <= v.len(),
        tail(v, wanted) == v.skip(v.len() - tail(v, wanted).len()),
        wanted >= v.len() ==> tail(v, wanted) == v,
        v.len() > 0 ==> tail(v, wanted).last() == v.last(),
{
    assert(v.skip(0) =~= v);
}

/// A command that was killed is told as killed, one that ended with code zero as a
/// success, any other as an error; while it runs it is told as running.
pub proof fn law_end_is_told(s: HandleState)
    ensures
        !s.finished <==> label_of(s) == "running"@,
        s.finished && s.killed <==> label_of(s) == "killed"@,
        s.finished && !s.killed && s.exit_code == Some(0i32) <==> label_of(s)
            == "completed_success"@,
        s.finished && !s.killed && s.exit_code != Some(0i32) <==> label_of(s)
            == "completed_error"@,
{
    reveal_strlit("running");
    reveal_strlit("killed");
    reveal_strlit("completed_success");
    reveal_strlit("completed_error");
    assert("running"@.len() == 7 && "killed"@.len() == 6);
    assert("completed_success"@.len() == 17 && "completed_error"@.len() == 15);
}

/// Lines that are put together stand in their order, with nothing between them.
pub proof fn law_output_is_its_lines(a: Seq<Seq<char>>, b: Seq<Seq<char>>, line: Seq<char>)
    ensures
        concatenated(a + b) == concatenated(a) + concatenated(b),
        concatenated(seq![line]) == line,
        concatenated(Seq::empty()).len() == 0,
    decreases b.len(),
{
    assert(seq![line].drop_last() =~= Seq::empty());
    assert(concatenated(Seq::<Seq<char>>::empty()) + line =~= line);
    if b.len() == 0 {
        assert(a + b =~= a);
        assert(concatenated(a) + concatenated(b) =~= concatenated(a));
    } else {
        law_output_is_its_lines(a, b.drop_last(), line);
        assert((a + b).drop_last() =~= a + b.drop_last());
        assert(concatenated(a + b) =~= concatenated(a) + concatenated(b));
    }
}

/// A snapshot shows the last lines of the output, as many as were asked for, and
/// counts them; it tells the state, and the exit code once there is one.
pub proof fn law_snapshot_shows_the_end(
    id: Seq<char>,
    s: HandleState,
    wanted: int,
    message: Option<Seq<char>>,
)
    ensures
        ({
            let v = snapshot_view(id, s, wanted, message);
            let m = v->Object_0;
            let lines = texts(s.output_lines@);
            let from = if wanted < 1 {
                if lines.len() > 1 { lines.len() - 1 } else { 0 }
            } else if lines.len() > wanted {
                lines.len() - wanted
            } else {
                0
            };
            &&& v is Object
            &&& m.dom().contains("id"@) && m["id"@] == Jv::Text(id)
            &&& m.dom().contains("status"@) && m["status"@] == Jv::Text(label_of(s))
            &&& m.dom().contains("done"@) && m["done"@] == Jv::Bool(s.finished)
            &&& m.dom().contains("output"@) && m["output"@] == Jv::Text(
                concatenated(lines.skip(from as int)),
            )
            &&& m["returned_lines"@] == Jv::Number(NumberView::Integer(lines.len() - from))
            &&& m["total_lines"@] == Jv::Number(NumberView::Integer(lines.len() as int))
            &&& s.finished && s.exit_code is Some ==> m["exit_code"@] == Jv::Number(
                NumberView::Integer(s.exit_code->0 as int),
            )
            &&& message matches Some(t) ==> m["message"@] == Jv::Text(t)
        }),
{
    reveal_strlit("id");
    reveal_strlit("runtime");
    reveal_strlit("status");
    reveal_strlit("done");
    reveal_strlit("exit_code");
    reveal_strlit("output");
    reveal_strlit("returned_lines");
    reveal_strlit("total_lines");
    reveal_strlit("message");
    assert("id"@.len() == 2 && "runtime"@.len() == 7 && "status"@.len() == 6 && "done"@.len() == 4);
    assert("exit_code"@.len() == 9 && "output"@.len() == 6 && "returned_lines"@.len() == 14);
    assert("total_lines"@.len() == 11 && "message"@.len() == 7);
    assert("status"@[0] == 's' && "output"@[0] == 'o' && "runtime"@[0] == 'r' && "message"@[0]
        == 'm');
    let lines = texts(s.output_lines@);
    assert(lines.skip(0) =~= lines);
}

/// A checkout shows as many lines as it says, and two hundred where it does not.
pub proof fn law_checkout_asks_for_lines(m: Map<Seq<char>, Jv>, n: int)
    ensures
        !m.dom().contains("tail_line_num"@) ==> wanted_lines(m) == 200,
        m.dom().contains("tail_line_num"@) && m["tail_line_num"@] == Jv::Number(
            NumberView::Integer(n),
        ) && 0 < n <= u32::MAX ==> wanted_lines(m) == n,
        m.dom().contains("tail_line_num"@) && m["tail_line_num"@] == Jv::Number(
            NumberView::Integer(0),
        ) ==> wanted_lines(m) == 200,
{
}

/// A command is handed to the shell whole, behind its switches.
pub proof fn law_command_is_handed_over_whole(command: Seq<char>)
    ensures
        ({
            let a = powershell_args(command);
            &&& a.len() == 7
            &&& a[0] == "-NoLogo"@ && a[1] == "-NoProfile"@ && a[2] == "-NonInteractive"@
            &&& a[3] == "-ExecutionPolicy"@ && a[4] == "Bypass"@ && a[5] == "-Command"@
            &&& a[6] == "$ProgressPreference='SilentlyContinue';"@ + command
        }),
{
}

/// A terminal is told by its kind, id and status, and by its exit code where it has one.
pub proof fn law_terminal_is_told_by_its_id(id: Seq<char>, status: Seq<char>, code: Option<i32>)
    ensures
        runtime_view(id, status) == Jv::Object(
            map![
                "kind"@ => Jv::Text("terminal"@),
                "id"@ => Jv::Text(id),
                "status"@ => Jv::Text(status),
            ],
        ),
        code matches Some(c) ==> exit_view(code) == Jv::Number(NumberView::Integer(c as int)),
        code is None ==> exit_view(code) is Null,
        end_label(true, code) == "killed"@,
        end_label(false, Some(0i32)) == "completed_success"@,
        code != Some(0i32) ==> end_label(false, code) == "completed_error"@,
{
}

} // verus!
