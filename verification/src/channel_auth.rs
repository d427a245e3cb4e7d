//! How clients prove that they may enter a channel.

use crate::ids::{is_simple_id, new_token};
use crate::paths::{join_path, joined_on};
use crate::text::{
    ascii_lower, cat2, cat3, chars_of, find_char, find_char_from, has_prefix,
    lemma_find_char_from, starts_with, str_eq, string_from, strip_prefix, strip_prefix_of,
    to_ascii_lower, trim, trim_of,
};
use vstd::prelude::*;
use vstd::utf8::encode_utf8;

verus! {

/// The directory that holds a channel's secrets.
pub const ACP_SECRET_DIR: &'static str = "channel_secret/acp";
pub const WEBSOCKET_SECRET_DIR: &'static str = "channel_secret/websocket";
pub const AUTH_FILE: &'static str = "auth.yaml";
pub const ACP_DAEMON_FILE: &'static str = "daemon.yaml";

/// What the secrets of a channel begin with.
pub const ACP_TOKEN_PREFIX: &'static str = "dwo_acp_";
pub const WEBSOCKET_TOKEN_PREFIX: &'static str = "dwo_ws_";
pub const AUTH_LINE_PREFIX: &'static str = "DWO_AUTH ";

/// How many bytes a secret has behind its prefix, at least.
pub const TOKEN_BODY_LEN: usize = 64;

/// Compares two byte strings; the work does not depend on where they differ.
pub fn constant_time_eq(a: &[u8], b: &[u8]) -> (r: bool)
    ensures
        r == (a@ == b@),
{
    let n = a.len();
    let m = b.len();
    let mut diff: usize = n ^ m;
    proof {
        assert((n ^ m) == 0 <==> n == m) by (bit_vector);
    }
    let most: usize = if n > m {
        n
    } else {
        m
    };
    let mut i: usize = 0;
    while i < most
        invariant
            n == a@.len(),
            m == b@.len(),
            most == if n > m {
                n
            } else {
                m
            },
            i <= most,
            diff == 0 <==> n == m && (forall|k: int|
                0 <= k < i && k < n && k < m ==> a@[k] == b@[k]),
        decreases most - i,
    {
        let left: u8 = if i < n {
            a[i]
        } else {
            0
        };
        let right: u8 = if i < m {
            b[i]
        } else {
            0
        };
        let x: u8 = left ^ right;
        let bits: usize = x as usize;
        proof {
            assert((left ^ right) == 0 <==> left == right) by (bit_vector);
            assert((diff | bits) == 0 <==> diff == 0 && bits == 0) by (bit_vector);
        }
        diff = diff | bits;
        i += 1;
    }
    proof {
        if diff == 0 {
            assert(a@ =~= b@);
        }
    }
    diff == 0
}

/// Whether texts have the same bytes.
fn same_bytes(a: &str, b: &str) -> (r: bool)
    ensures
        r == (a@ == b@),
{
    proof {
        vstd::utf8::encode_utf8_decode_utf8(a@);
        vstd::utf8::encode_utf8_decode_utf8(b@);
    }
    constant_time_eq(a.as_bytes(), b.as_bytes())
}

/// Whether a text can be the secret of a channel.
pub open spec fn is_valid_token(token: Seq<char>, prefix: Seq<char>) -> bool {
    let t = trim_of(token);
    &&& encode_utf8(t).len() >= encode_utf8(prefix).len() + 64
    &&& starts_with(t, prefix)
}

fn token_is_valid(token: &str, prefix: &str) -> (r: bool)
    requires
        encode_utf8(prefix@).len() <= 1000,
    ensures
        r == is_valid_token(token@, prefix@),
{
    let t = trim(token);
    t.as_bytes().len() >= prefix.as_bytes().len() + TOKEN_BODY_LEN && has_prefix(t, prefix)
}

proof fn lemma_prefixes()
    ensures
        encode_utf8(ACP_TOKEN_PREFIX@).len() == 8,
        encode_utf8(WEBSOCKET_TOKEN_PREFIX@).len() == 7,
        ACP_TOKEN_PREFIX@.len() == 8,
        WEBSOCKET_TOKEN_PREFIX@.len() == 7,
        forall|i: int| 0 <= i < 8 ==> 0 <= (#[trigger] ACP_TOKEN_PREFIX@[i]) as u32 <= 127,
        forall|i: int| 0 <= i < 7 ==> 0 <= (#[trigger] WEBSOCKET_TOKEN_PREFIX@[i]) as u32 <= 127,
        !crate::text::is_ws(ACP_TOKEN_PREFIX@[0]),
        !crate::text::is_ws(WEBSOCKET_TOKEN_PREFIX@[0]),
{
    reveal_strlit("dwo_acp_");
    reveal_strlit("dwo_ws_");
    lemma_ascii_len(ACP_TOKEN_PREFIX@);
    lemma_ascii_len(WEBSOCKET_TOKEN_PREFIX@);
}

proof fn lemma_ascii_len(s: Seq<char>)
    requires
        forall|i: int| 0 <= i < s.len() ==> 0 <= (#[trigger] s[i]) as u32 <= 127,
    ensures
        encode_utf8(s).len() == s.len(),
    decreases s.len(),
{
    reveal(encode_utf8);
    if s.len() > 0 {
        assert(s[0] as u32 <= 127);
        assert forall|i: int| 0 <= i < s.drop_first().len() implies 0
            <= (#[trigger] s.drop_first()[i]) as u32 <= 127 by {
            assert(s.drop_first()[i] == s[i + 1]);
        }
        lemma_ascii_len(s.drop_first());
    }
}

/// Checks the secret of the ACP channel.
pub fn validate_acp_auth(token: &str) -> (r: Result<(), String>)
    ensures
        if is_valid_token(token@, ACP_TOKEN_PREFIX@) {
            r is Ok
        } else {
            r matches Err(e) && e@
                == "ACP token is invalid; run `dwo-agent channel login acp` to generate a new token."@
        },
{
    proof {
        lemma_prefixes();
    }
    if token_is_valid(token, ACP_TOKEN_PREFIX) {
        Ok(())
    } else {
        Err(
            "ACP token is invalid; run `dwo-agent channel login acp` to generate a new token.".to_owned(),
        )
    }
}

/// Checks the secret of the WebSocket channel.
pub fn validate_websocket_auth(token: &str) -> (r: Result<(), String>)
    ensures
        if is_valid_token(token@, WEBSOCKET_TOKEN_PREFIX@) {
            r is Ok
        } else {
            r matches Err(e) && e@
                == "WebSocket token is invalid; run `dwo-agent channel login websocket` to generate a new token."@
        },
{
    proof {
        lemma_prefixes();
    }
    if token_is_valid(token, WEBSOCKET_TOKEN_PREFIX) {
        Ok(())
    } else {
        Err(
            "WebSocket token is invalid; run `dwo-agent channel login websocket` to generate a new token.".to_owned(),
        )
    }
}

/// Whether a text is a prefix and two identifiers.
pub open spec fn is_fresh_token(s: Seq<char>, prefix: Seq<char>) -> bool {
    exists|first: Seq<char>, second: Seq<char>|
        #[trigger] is_simple_id(first) && #[trigger] is_simple_id(second) && s == prefix + first
            + second
}

/// A prefix and two identifiers make a valid secret.
pub proof fn law_fresh_token_is_valid(s: Seq<char>, prefix: Seq<char>)
    requires
        is_fresh_token(s, prefix),
        prefix == ACP_TOKEN_PREFIX@ || prefix == WEBSOCKET_TOKEN_PREFIX@,
    ensures
        is_valid_token(s, prefix),
{
    lemma_prefixes();
    let (first, second) = choose|first: Seq<char>, second: Seq<char>|
        #[trigger] is_simple_id(first) && #[trigger] is_simple_id(second) && s == prefix + first
            + second;
    let n = prefix.len();
    assert(s.len() == n + 64);
    assert forall|i: int| 0 <= i < s.len() implies 0 <= (#[trigger] s[i]) as u32 <= 127 by {
        if i < n {
            assert(s[i] == prefix[i]);
        } else if i < n + 32 {
            assert(s[i] == first[i - n]);
            assert(crate::ids::is_hex(first[i - n]));
        } else {
            assert(s[i] == second[i - n - 32]);
            assert(crate::ids::is_hex(second[i - n - 32]));
        }
    }
    assert(s[0] == prefix[0]);
    assert(s.last() == second[31]);
    assert(crate::ids::is_hex(second[31]));
    assert(trim_of(s) == s);
    lemma_ascii_len(s);
    assert(s.take(n as int) =~= prefix);
}

/// Makes a new secret for the ACP channel.
pub fn generate_acp_token() -> (r: String)
    ensures
        is_fresh_token(r@, ACP_TOKEN_PREFIX@),
        is_valid_token(r@, ACP_TOKEN_PREFIX@),
{
    let r = new_token(ACP_TOKEN_PREFIX);
    proof {
        law_fresh_token_is_valid(r@, ACP_TOKEN_PREFIX@);
    }
    r
}

/// Makes a new secret for the WebSocket channel.
pub fn generate_websocket_token() -> (r: String)
    ensures
        is_fresh_token(r@, WEBSOCKET_TOKEN_PREFIX@),
        is_valid_token(r@, WEBSOCKET_TOKEN_PREFIX@),
{
    let r = new_token(WEBSOCKET_TOKEN_PREFIX);
    proof {
        law_fresh_token_is_valid(r@, WEBSOCKET_TOKEN_PREFIX@);
    }
    r
}

/// A line without its line ends.
pub open spec fn without_line_end(s: Seq<char>) -> Seq<char>
    decreases s.len(),
{
    if s.len() > 0 && (s.last() == '\r' || s.last() == '\n') {
        without_line_end(s.drop_last())
    } else {
        s
    }
}

fn strip_line_end(s: &str) -> (r: String)
    ensures
        r@ == without_line_end(s@),
{
    let v = chars_of(s);
    let mut n: usize = v.len();
    proof {
        assert(v@.take(n as int) =~= v@);
    }
    while n > 0 && (v[n - 1] == '\r' || v[n - 1] == '\n')
        invariant
            n <= v@.len(),
            v@ == s@,
            without_line_end(v@.take(n as int)) == without_line_end(s@),
        decreases n,
    {
        proof {
            assert(v@.take(n as int).drop_last() =~= v@.take(n - 1));
        }
        n -= 1;
    }
    proof {
        assert(v@.take(n as int) =~= v@.subrange(0, n as int));
    }
    string_from(&v, 0, n)
}

/// The secret that a client's first line holds.
pub open spec fn line_token(line: Seq<char>) -> Option<Seq<char>> {
    match strip_prefix_of(without_line_end(line), AUTH_LINE_PREFIX@) {
        Some(rest) => Some(trim_of(rest)),
        None => None,
    }
}

/// Checks the first line of a client; an empty one means that the client went
/// away.
pub fn check_auth_line(line: &str, expected_token: &str) -> (r: Result<(), String>)
    ensures
        if line@.len() == 0 {
            r matches Err(e) && e@ == "ACP IPC connection closed before auth."@
        } else {
            match line_token(line@) {
                None => r matches Err(e) && e@ == "missing ACP IPC auth line"@,
                Some(token) => if token == expected_token@ {
                    r is Ok
                } else {
                    r matches Err(e) && e@ == "invalid ACP IPC token"@
                },
            }
        },
{
    if line.is_empty() {
        return Err("ACP IPC connection closed before auth.".to_owned());
    }
    let plain = strip_line_end(line);
    match strip_prefix(plain.as_str(), AUTH_LINE_PREFIX) {
        None => Err("missing ACP IPC auth line".to_owned()),
        Some(rest) => if same_bytes(trim(rest), expected_token) {
            Ok(())
        } else {
            Err("invalid ACP IPC token".to_owned())
        },
    }
}

/// The first line that a client sends.
pub fn auth_line(token: &str) -> (r: String)
    ensures
        r@ == AUTH_LINE_PREFIX@ + token@ + "\n"@,
{
    cat3(AUTH_LINE_PREFIX, token, "\n")
}

/// The line that a client sends is accepted by a server that expects the same
/// secret.
pub proof fn law_auth_line_is_accepted(token: Seq<char>)
    requires
        trim_of(token) == token,
        token.len() > 0,
    ensures
        line_token(AUTH_LINE_PREFIX@ + token + "\n"@) == Some(token),
{
    reveal_strlit("DWO_AUTH ");
    reveal_strlit("\n");
    let p = AUTH_LINE_PREFIX@;
    let s = p + token + "\n"@;
    crate::text::law_trim_is_idempotent(token);
    assert(s.last() == '\n');
    assert(s.drop_last() =~= p + token);
    assert((p + token).last() == token.last());
    assert(crate::text::is_ws('\r') && crate::text::is_ws('\n'));
    assert(without_line_end(p + token) == p + token);
    assert((p + token).take(p.len() as int) =~= p);
    assert((p + token).skip(p.len() as int) =~= token);
}

/// The secret that an authorization header holds.
pub open spec fn bearer_token(header: Seq<char>) -> Option<Seq<char>> {
    let t = trim_of(header);
    let at = find_char_from(t, ' ', 0);
    if at >= t.len() || ascii_lower(t.take(at)) != "bearer"@ {
        None
    } else {
        Some(trim_of(t.skip(at + 1)))
    }
}

/// Whether a request with an authorization header may enter.
pub fn request_is_authorized(header: Option<&str>, expected_token: &str) -> (r: bool)
    ensures
        r == match header {
            Some(h) => bearer_token(h@) == Some(expected_token@),
            None => false,
        },
{
    let h = match header {
        Some(h) => h,
        None => return false,
    };
    let t = trim(h);
    let v = chars_of(t);
    let at = find_char(&v, ' ', 0);
    proof {
        lemma_find_char_from(v@, ' ', 0);
    }
    if at >= v.len() {
        return false;
    }
    let scheme = string_from(&v, 0, at);
    let rest = string_from(&v, at + 1, v.len());
    proof {
        assert(v@.subrange(0, at as int) =~= t@.take(at as int));
        assert(v@.subrange(at + 1, v@.len() as int) =~= t@.skip(at + 1));
    }
    let lowered = to_ascii_lower(scheme.as_str());
    if !str_eq(lowered.as_str(), "bearer") {
        return false;
    }
    same_bytes(trim(rest.as_str()), expected_token)
}

/// Whether a secret can be made for the ACP channel.
pub fn check_acp_login(enabled: bool, auth: bool) -> (r: Result<(), String>)
    ensures
        if !enabled {
            r matches Err(e) && e@ == "acp channel is not enabled in channels.yaml."@
        } else if !auth {
            r matches Err(e) && e@
                == "acp auth is disabled in channels.yaml; set `acp.auth: true` first."@
        } else {
            r is Ok
        },
{
    if !enabled {
        return Err("acp channel is not enabled in channels.yaml.".to_owned());
    }
    if !auth {
        return Err(
            "acp auth is disabled in channels.yaml; set `acp.auth: true` first.".to_owned(),
        );
    }
    Ok(())
}

/// Whether a client can connect to the ACP channel.
pub fn check_acp_connect(enabled: bool, ipc: bool) -> (r: Result<(), String>)
    ensures
        if !enabled {
            r matches Err(e) && e@ == "acp channel is not enabled in channels.yaml."@
        } else if !ipc {
            r matches Err(e) && e@
                == "acp channel has no IPC transport configured; set `acp.ipc: true`."@
        } else {
            r is Ok
        },
{
    if !enabled {
        return Err("acp channel is not enabled in channels.yaml.".to_owned());
    }
    if !ipc {
        return Err(
            "acp channel has no IPC transport configured; set `acp.ipc: true`.".to_owned(),
        );
    }
    Ok(())
}

/// Whether a secret can be made for the WebSocket channel.
pub fn check_websocket_login(enabled: bool, auth: bool) -> (r: Result<(), String>)
    ensures
        if !enabled {
            r matches Err(e) && e@
                == "websocket channel is not enabled in agent.yaml `channels.websocket`."@
        } else if !auth {
            r matches Err(e) && e@
                == "websocket auth is disabled in agent.yaml; set `channels.websocket.auth: true` first."@
        } else {
            r is Ok
        },
{
    if !enabled {
        return Err(
            "websocket channel is not enabled in agent.yaml `channels.websocket`.".to_owned(),
        );
    }
    if !auth {
        return Err(
            "websocket auth is disabled in agent.yaml; set `channels.websocket.auth: true` first.".to_owned(),
        );
    }
    Ok(())
}

/// Where the secret of the ACP channel is kept.
pub fn acp_auth_path(agent_structure_dir: &str, windows: bool) -> (r: String)
    ensures
        r@ == joined_on(
            joined_on(agent_structure_dir@, ACP_SECRET_DIR@, windows),
            AUTH_FILE@,
            windows,
        ),
{
    let dir = join_path(agent_structure_dir, ACP_SECRET_DIR, windows);
    join_path(dir.as_str(), AUTH_FILE, windows)
}

/// Where the ACP channel tells how it is reached.
pub fn daemon_path(agent_structure_dir: &str, windows: bool) -> (r: String)
    ensures
        r@ == joined_on(
            joined_on(agent_structure_dir@, ACP_SECRET_DIR@, windows),
            ACP_DAEMON_FILE@,
            windows,
        ),
{
    let dir = join_path(agent_structure_dir, ACP_SECRET_DIR, windows);
    join_path(dir.as_str(), ACP_DAEMON_FILE, windows)
}

/// Where the secret of the WebSocket channel is kept.
pub fn websocket_auth_path(agent_structure_dir: &str, windows: bool) -> (r: String)
    ensures
        r@ == joined_on(
            joined_on(agent_structure_dir@, WEBSOCKET_SECRET_DIR@, windows),
            AUTH_FILE@,
            windows,
        ),
{
    let dir = join_path(agent_structure_dir, WEBSOCKET_SECRET_DIR, windows);
    join_path(dir.as_str(), AUTH_FILE, windows)
}

/// How the ACP channel is reached on one machine.
#[derive(Debug, Clone, Copy, PartialEq, Eq, Structural)]
pub enum AcpIpcKind {
    NamedPipe,
    UnixSocket,
}

/// Where the ACP channel is reached on one machine.
#[derive(Debug)]
pub struct AcpIpcEndpoint {
    pub kind: AcpIpcKind,
    pub name: String,
}

/// What the ACP channel tells of itself.
#[derive(Debug)]
pub struct AcpDaemonManifest {
    pub pid: u32,
    pub started_at: String,
    pub transport: String,
    pub ipc: AcpIpcEndpoint,
}

/// Where a new ACP channel is reached, from an identifier that is used once.
pub fn default_ipc_endpoint(agent_structure_dir: &str, unique: &str, windows: bool) -> (r:
    AcpIpcEndpoint)
    ensures
        windows ==> r.kind is NamedPipe && r.name@ == "\\\\.\\pipe\\dwo-agent-"@ + unique@,
        !windows ==> r.kind is UnixSocket && r.name@ == joined_on(
            joined_on(agent_structure_dir@, ACP_SECRET_DIR@, false),
            "dwo-agent-"@ + unique@ + ".sock"@,
            false,
        ),
{
    if windows {
        AcpIpcEndpoint {
            kind: AcpIpcKind::NamedPipe,
            name: cat2("\\\\.\\pipe\\dwo-agent-", unique),
        }
    } else {
        let dir = join_path(agent_structure_dir, ACP_SECRET_DIR, false);
        let file = cat3("dwo-agent-", unique, ".sock");
        AcpIpcEndpoint {
            kind: AcpIpcKind::UnixSocket,
            name: join_path(dir.as_str(), file.as_str(), false),
        }
    }
}

/// Where an ACP channel of a given name is reached.
pub fn override_ipc_endpoint(name: String, windows: bool) -> (r: AcpIpcEndpoint)
    ensures
        r.name@ == name@,
        r.kind == if windows {
            AcpIpcKind::NamedPipe
        } else {
            AcpIpcKind::UnixSocket
        },
{
    AcpIpcEndpoint {
        kind: if windows {
            AcpIpcKind::NamedPipe
        } else {
            AcpIpcKind::UnixSocket
        },
        name,
    }
}

/// What an ACP channel tells of itself.
pub fn daemon_manifest(pid: u32, started_at: &str, ipc: AcpIpcEndpoint) -> (r: AcpDaemonManifest)
    ensures
        r.pid == pid,
        r.started_at@ == started_at@,
        r.transport@ == "ipc"@,
        r.ipc == ipc,
{
    AcpDaemonManifest {
        pid,
        started_at: started_at.to_owned(),
        transport: "ipc".to_owned(),
        ipc,
    }
}

/// A message of a WebSocket client as a line: nothing of an empty one.
pub open spec fn line_of(payload: Seq<u8>) -> Seq<u8> {
    if payload.len() == 0 || payload.last() == 10u8 {
        payload
    } else {
        payload.push(10u8)
    }
}

/// A message of a WebSocket client as a line.
pub fn payload_line(payload: Vec<u8>) -> (r: Vec<u8>)
    ensures
        r@ == line_of(payload@),
{
    let mut out = payload;
    let n = out.len();
    if n > 0 && out[n - 1] != 10 {
        out.push(10);
    }
    out
}

/// Whether a line is sent on to a WebSocket client.
pub fn is_sent_to_websocket(line: &str) -> (r: bool)
    ensures
        r == (trim_of(line@).len() > 0),
{
    !trim(line).is_empty()
}

/// A payload is sent as a line: its end is added where it has none.
pub proof fn law_payload_is_sent_as_a_line(payload: Seq<u8>)
    ensures
        payload.len() > 0 ==> line_of(payload).last() == 10u8,
        payload.len() > 0 && payload.last() == 10u8 ==> line_of(payload) == payload,
        payload.len() > 0 && payload.last() != 10u8 ==> line_of(payload) == payload + seq![10u8],
        line_of(Seq::empty()).len() == 0,
{
    if payload.len() > 0 && payload.last() != 10u8 {
        assert(line_of(payload) =~= payload + seq![10u8]);
    }
}

/// A bearer header holds its token, however the word is written.
pub proof fn law_bearer_header_holds_its_token(word: Seq<char>, token: Seq<char>)
    requires
        ascii_lower(word) == "bearer"@,
        !word.contains(' '),
        token.len() > 0,
        trim_of(token) == token,
        trim_of(word + seq![' '] + token) == word + seq![' '] + token,
    ensures
        bearer_token(word + seq![' '] + token) == Some(token),
{
    let h = word + seq![' '] + token;
    crate::text::lemma_find_char_from(h, ' ', 0);
    let at = find_char_from(h, ' ', 0);
    assert(h[word.len() as int] == ' ');
    assert(at == word.len()) by {
        if at < word.len() {
            assert(h[at] == word[at]);
        }
    }
    assert(h.take(at) =~= word);
    assert(h.skip(at + 1) =~= token);
}

/// A header without the word, or without a token behind it, gives no token.
pub proof fn law_other_headers_hold_no_token(header: Seq<char>)
    ensures
        !trim_of(header).contains(' ') ==> bearer_token(header) is None,
        trim_of(header).len() > 0 && trim_of(header)[0] != 'b' && trim_of(header)[0] != 'B'
            ==> bearer_token(header) is None,
{
    let t = trim_of(header);
    crate::text::lemma_find_char_from(t, ' ', 0);
    let at = find_char_from(t, ' ', 0);
    if at < t.len() {
        assert(t.contains(' '));
        if t[0] != 'b' && t[0] != 'B' && bearer_token(header) is Some {
            reveal_strlit("bearer");
            let l = ascii_lower(t.take(at));
            assert(l == "bearer"@);
            assert(l.len() == 6 && l[0] == 'b');
            assert(t.take(at)[0] == t[0]);
        }
    }
}

} // verus!
