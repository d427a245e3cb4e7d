//! Which channel works with which session.

use crate::ids::{is_simple_id, new_confirmation_id};
use crate::json::{
    compact_json, compact_text, copy_or_null, field, fields, member, no_members, put, put_text,
    text_field_or, tree, written, Json, Jv, Member, Tree,
};
use crate::models::state_name;
use crate::policy::{PERMISSION_ALLOW_ONCE, PERMISSION_REJECT_ONCE};
use crate::service::meta_views;
use crate::session::{MetaView, SessionMetaPayload};
use crate::subagent::or_null;
use crate::text::{
    cat2, cat3, cat5, chars_of, contains_sub, decimal, decimal_text, ends_with, first_chars, is_ws,
    join, join_of, law_parts_are_found, law_parts_stay_in_longer_texts, law_trim_keeps_what_is_between,
    law_words_stand_between_white_space, opt_str, opt_text, starts_with, str_eq, take_chars, texts,
    trim, trim_of, words, words_of,
};
use vstd::prelude::*;

verus! {

pub const BRIDGE_STATE_FILE: &'static str = "bridge_state.yaml";
pub const CONFIRM_AUDIT_FILE: &'static str = "confirm_audit.jsonl";

/// Which session a channel works with.
#[derive(Debug)]
pub struct ChannelBridgeState {
    pub default_session_id: String,
    pub active_session_id: Option<String>,
    pub updated_at: Option<String>,
}

/// The right of a holder to work with a session.
#[derive(Debug)]
pub struct SessionLease {
    pub session_id: String,
    pub holder: String,
    pub acquired_at: String,
    pub updated_at: String,
}

/// What a lease says.
#[verifier::ext_equal]
pub ghost struct LeaseView {
    pub holder: Seq<char>,
    pub acquired_at: Seq<char>,
    pub updated_at: Seq<char>,
}

impl View for SessionLease {
    type V = LeaseView;

    open spec fn view(&self) -> LeaseView {
        LeaseView {
            holder: self.holder@,
            acquired_at: self.acquired_at@,
            updated_at: self.updated_at@,
        }
    }
}

/// The leases of all sessions.
#[derive(Debug)]
pub struct SessionLeaseRegistry {
    leases: Vec<SessionLease>,
}

/// The leases among the first `n`, by session.
pub open spec fn lease_map(leases: Seq<SessionLease>, n: nat) -> Map<Seq<char>, LeaseView>
    decreases n,
{
    if n == 0 || n > leases.len() {
        Map::empty()
    } else {
        lease_map(leases, (n - 1) as nat).insert(leases[n - 1].session_id@, leases[n - 1]@)
    }
}

impl View for SessionLeaseRegistry {
    type V = Map<Seq<char>, LeaseView>;

    closed spec fn view(&self) -> Map<Seq<char>, LeaseView> {
        lease_map(self.leases@, self.leases@.len())
    }
}

proof fn lemma_lease_map_prefix(a: Seq<SessionLease>, b: Seq<SessionLease>, n: nat)
    requires
        n <= a.len(),
        n <= b.len(),
        forall|i: int| 0 <= i < n ==> a[i] == b[i],
    ensures
        lease_map(a, n) == lease_map(b, n),
    decreases n,
{
    if n > 0 {
        lemma_lease_map_prefix(a, b, (n - 1) as nat);
    }
}

/// Why a session cannot be had, if another holder has it.
pub open spec fn occupied(session_id: Seq<char>, holder: Seq<char>) -> Seq<char> {
    "session "@ + session_id + " is occupied by "@ + holder + "; switch denied."@
}

/// The leases after a holder asked for a session, and what it got.
pub open spec fn acquired(
    m: Map<Seq<char>, LeaseView>,
    session_id: Seq<char>,
    holder: Seq<char>,
    now: Seq<char>,
) -> Result<LeaseView, Seq<char>> {
    if m.dom().contains(session_id) {
        if m[session_id].holder == holder {
            Ok(LeaseView { updated_at: now, ..m[session_id] })
        } else {
            Err(occupied(session_id, m[session_id].holder))
        }
    } else {
        Ok(LeaseView { holder, acquired_at: now, updated_at: now })
    }
}

/// Whether a holder has a session.
pub open spec fn holds(m: Map<Seq<char>, LeaseView>, session_id: Seq<char>, holder: Seq<char>) -> bool {
    m.dom().contains(session_id) && m[session_id].holder == holder
}

/// Who has a session.
pub open spec fn holder_of(m: Map<Seq<char>, LeaseView>, session_id: Seq<char>) -> Option<Seq<char>> {
    if m.dom().contains(session_id) {
        Some(m[session_id].holder)
    } else {
        None
    }
}

impl SessionLeaseRegistry {
    /// No leases.
    pub fn new() -> (r: Self)
        ensures
            r@ == Map::<Seq<char>, LeaseView>::empty(),
    {
        SessionLeaseRegistry { leases: Vec::new() }
    }

    fn find(&self, session_id: &str) -> (r: Option<usize>)
        ensures
            match r {
                Some(i) => i < self.leases@.len() && self@.dom().contains(session_id@)
                    && self@[session_id@] == self.leases@[i as int]@ && self.leases@[i as int].session_id@
                    == session_id@,
                None => !self@.dom().contains(session_id@),
            },
    {
        let mut n: usize = self.leases.len();
        let ghost all = self@;
        while n > 0
            invariant
                n <= self.leases@.len(),
                all == self@,
                all.dom().contains(session_id@) == lease_map(self.leases@, n as nat).dom().contains(
                    session_id@,
                ),
                all.dom().contains(session_id@) ==> all[session_id@] == lease_map(
                    self.leases@,
                    n as nat,
                )[session_id@],
            decreases n,
        {
            n -= 1;
            if str_eq(self.leases[n].session_id.as_str(), session_id) {
                return Some(n);
            }
        }
        None
    }

    fn drop_all(&mut self, session_id: &str)
        ensures
            final(self)@ == old(self)@.remove(session_id@),
    {
        let mut rest: Vec<SessionLease> = Vec::new();
        std::mem::swap(&mut rest, &mut self.leases);
        let ghost all = rest@;
        let n = rest.len();
        let mut kept: Vec<SessionLease> = Vec::new();
        let mut i: usize = 0;
        while i < n
            invariant
                i <= n,
                n == all.len(),
                rest@ == all.skip(i as int),
                lease_map(kept@, kept@.len()) =~= lease_map(all, i as nat).remove(session_id@),
            decreases n - i,
        {
            let lease = rest.remove(0);
            proof {
                assert(lease == all[i as int]);
                assert(rest@ =~= all.skip(i + 1));
            }
            if !str_eq(lease.session_id.as_str(), session_id) {
                let ghost before = kept@;
                kept.push(lease);
                proof {
                    lemma_lease_map_prefix(before, kept@, before.len());
                    assert(lease_map(kept@, kept@.len()) == lease_map(before, before.len()).insert(
                        lease.session_id@,
                        lease@,
                    ));
                }
            }
            i += 1;
        }
        self.leases = kept;
    }

    fn add(&mut self, lease: SessionLease)
        ensures
            final(self)@ == old(self)@.insert(lease.session_id@, lease@),
    {
        let ghost before = self.leases@;
        self.leases.push(lease);
        proof {
            lemma_lease_map_prefix(before, self.leases@, before.len());
        }
    }

    /// Asks for a session: it is had by one holder at a time.
    pub fn acquire_sync(&mut self, session_id: &str, holder: &str, now: &str) -> (r: Result<
        SessionLease,
        String,
    >)
        ensures
            match acquired(old(self)@, session_id@, holder@, now@) {
                Ok(lease) => {
                    &&& r matches Ok(l) && l.session_id@ == session_id@ && l@ == lease
                    &&& final(self)@ == old(self)@.insert(session_id@, lease)
                },
                Err(e) => {
                    &&& r matches Err(error) && error@ == e
                    &&& final(self)@ == old(self)@
                },
            },
    {
        let acquired_at = match self.find(session_id) {
            Some(i) => {
                if !str_eq(self.leases[i].holder.as_str(), holder) {
                    return Err(
                        cat5(
                            "session ",
                            session_id,
                            " is occupied by ",
                            self.leases[i].holder.as_str(),
                            "; switch denied.",
                        ),
                    );
                }
                self.leases[i].acquired_at.clone()
            },
            None => now.to_owned(),
        };
        let ghost before = self@;
        self.drop_all(session_id);
        let kept = SessionLease {
            session_id: session_id.to_owned(),
            holder: holder.to_owned(),
            acquired_at: acquired_at.clone(),
            updated_at: now.to_owned(),
        };
        proof {
            assert(before.remove(session_id@).insert(session_id@, kept@) =~= before.insert(
                session_id@,
                kept@,
            ));
        }
        self.add(kept);
        Ok(
            SessionLease {
                session_id: session_id.to_owned(),
                holder: holder.to_owned(),
                acquired_at,
                updated_at: now.to_owned(),
            },
        )
    }

    /// Gives a session back; only its holder can.
    pub fn release_if_holder_sync(&mut self, session_id: &str, holder: &str) -> (r: bool)
        ensures
            r == holds(old(self)@, session_id@, holder@),
            final(self)@ == if r {
                old(self)@.remove(session_id@)
            } else {
                old(self)@
            },
    {
        match self.find(session_id) {
            Some(i) => {
                if !str_eq(self.leases[i].holder.as_str(), holder) {
                    return false;
                }
            },
            None => return false,
        }
        self.drop_all(session_id);
        true
    }

    /// Who has a session.
    pub fn holder_sync(&self, session_id: &str) -> (r: Option<String>)
        ensures
            opt_text(r) == holder_of(self@, session_id@),
    {
        match self.find(session_id) {
            Some(i) => Some(self.leases[i].holder.clone()),
            None => None,
        }
    }
}

impl Default for SessionLeaseRegistry {
    fn default() -> (r: Self)
        ensures
            r@ == Map::<Seq<char>, LeaseView>::empty(),
    {
        SessionLeaseRegistry::new()
    }
}

/// A session is had by one holder at a time: another is refused until the
/// holder gives it back.
pub proof fn law_leases_are_single_holder(
    m: Map<Seq<char>, LeaseView>,
    session_id: Seq<char>,
    a: Seq<char>,
    b: Seq<char>,
    now: Seq<char>,
)
    requires
        a != b,
        holds(m, session_id, a),
    ensures
        acquired(m, session_id, b, now) is Err,
        !holds(m, session_id, b),
        acquired(m, session_id, a, now) matches Ok(l) && holds(m.insert(session_id, l), session_id, a),
        acquired(m.remove(session_id), session_id, b, now) matches Ok(l) && l.holder == b,
{
}

/// Asking for a session or giving it back leaves all other sessions as they
/// are.
pub proof fn law_leases_are_independent(
    m: Map<Seq<char>, LeaseView>,
    session_id: Seq<char>,
    other: Seq<char>,
    lease: LeaseView,
)
    requires
        session_id != other,
    ensures
        holder_of(m.insert(session_id, lease), other) == holder_of(m, other),
        holder_of(m.remove(session_id), other) == holder_of(m, other),
{
}

/// A tool call that waits for an answer.
#[derive(Debug)]
pub struct PendingConfirmationSnapshot {
    pub confirmation_id: String,
    pub session_id: String,
    pub tool_call_id: String,
    pub tool_name: String,
    pub raw_input: Json,
    pub requested_by: String,
    pub created_at: String,
}

/// What a waiting tool call says.
#[verifier::ext_equal]
pub ghost struct ConfirmationView {
    pub id: Seq<char>,
    pub session_id: Seq<char>,
    pub tool_call_id: Seq<char>,
    pub tool_name: Seq<char>,
    pub raw_input: Jv,
    /// The input as it is written down.
    pub input: Tree,
    pub requested_by: Seq<char>,
    pub created_at: Seq<char>,
}

impl View for PendingConfirmationSnapshot {
    type V = ConfirmationView;

    open spec fn view(&self) -> ConfirmationView {
        ConfirmationView {
            id: self.confirmation_id@,
            session_id: self.session_id@,
            tool_call_id: self.tool_call_id@,
            tool_name: self.tool_name@,
            raw_input: self.raw_input@,
            input: tree(self.raw_input),
            requested_by: self.requested_by@,
            created_at: self.created_at@,
        }
    }
}

impl PendingConfirmationSnapshot {
    /// A copy.
    pub fn copy(&self) -> (r: Self)
        ensures
            r@ == self@,
    {
        PendingConfirmationSnapshot {
            confirmation_id: self.confirmation_id.clone(),
            session_id: self.session_id.clone(),
            tool_call_id: self.tool_call_id.clone(),
            tool_name: self.tool_name.clone(),
            raw_input: self.raw_input.copy(),
            requested_by: self.requested_by.clone(),
            created_at: self.created_at.clone(),
        }
    }

    /// The waiting tool call as a value.
    pub fn to_json(&self) -> (r: Json)
        ensures
            r@ == confirmation_json(self@),
            tree(r) == confirmation_tree(self@),
    {
        let mut m = no_members();
        put_text(&mut m, "confirmation_id", self.confirmation_id.as_str());
        put_text(&mut m, "session_id", self.session_id.as_str());
        put_text(&mut m, "tool_call_id", self.tool_call_id.as_str());
        put_text(&mut m, "tool_name", self.tool_name.as_str());
        put(&mut m, "raw_input", self.raw_input.copy());
        put_text(&mut m, "requested_by", self.requested_by.as_str());
        put_text(&mut m, "created_at", self.created_at.as_str());
        proof {
            assert(written(m@) =~= confirmation_tree(self@)->Object_0);
        }
        Json::Object(m)
    }
}

/// A waiting tool call as it is written down.
pub open spec fn confirmation_tree(c: ConfirmationView) -> Tree {
    Tree::Object(
        seq![
            ("confirmation_id"@, Tree::Text(c.id)),
            ("session_id"@, Tree::Text(c.session_id)),
            ("tool_call_id"@, Tree::Text(c.tool_call_id)),
            ("tool_name"@, Tree::Text(c.tool_name)),
            ("raw_input"@, c.input),
            ("requested_by"@, Tree::Text(c.requested_by)),
            ("created_at"@, Tree::Text(c.created_at)),
        ],
    )
}

/// A waiting tool call as a value.
pub open spec fn confirmation_json(c: ConfirmationView) -> Jv {
    Jv::Object(
        Map::<Seq<char>, Jv>::empty().insert("confirmation_id"@, Jv::Text(c.id)).insert(
            "session_id"@,
            Jv::Text(c.session_id),
        ).insert("tool_call_id"@, Jv::Text(c.tool_call_id)).insert(
            "tool_name"@,
            Jv::Text(c.tool_name),
        ).insert("raw_input"@, c.raw_input).insert("requested_by"@, Jv::Text(c.requested_by)).insert(
            "created_at"@,
            Jv::Text(c.created_at),
        ),
    )
}

/// An entry of the record of confirmations.
pub open spec fn audit_json(
    now: Seq<char>,
    event: Seq<char>,
    actor: Option<Seq<char>>,
    c: ConfirmationView,
) -> Jv {
    Jv::Object(
        Map::<Seq<char>, Jv>::empty().insert("updated_at"@, Jv::Text(now)).insert(
            "event"@,
            Jv::Text(event),
        ).insert(
            "actor"@,
            match actor {
                Some(a) => Jv::Text(a),
                None => Jv::Null,
            },
        ).insert("confirmation"@, confirmation_json(c)),
    )
}

/// An entry of the record of confirmations as it is written down.
pub open spec fn audit_tree(
    now: Seq<char>,
    event: Seq<char>,
    actor: Option<Seq<char>>,
    c: ConfirmationView,
) -> Tree {
    Tree::Object(
        seq![
            ("updated_at"@, Tree::Text(now)),
            ("event"@, Tree::Text(event)),
            (
                "actor"@,
                match actor {
                    Some(a) => Tree::Text(a),
                    None => Tree::Null,
                },
            ),
            ("confirmation"@, confirmation_tree(c)),
        ],
    )
}

/// A line of the record of confirmations.
pub fn audit_line(
    now: &str,
    event: &str,
    actor: Option<&str>,
    snapshot: &PendingConfirmationSnapshot,
) -> (r: String)
    ensures
        r@ == compact_text(audit_tree(now@, event@, opt_str(actor), snapshot@)) + "\n"@,
{
    cat2(compact_json(&audit_entry(now, event, actor, snapshot)).as_str(), "\n")
}

/// An entry of the record of confirmations.
pub fn audit_entry(
    now: &str,
    event: &str,
    actor: Option<&str>,
    snapshot: &PendingConfirmationSnapshot,
) -> (r: Json)
    ensures
        r@ == audit_json(now@, event@, opt_str(actor), snapshot@),
        tree(r) == audit_tree(now@, event@, opt_str(actor), snapshot@),
{
    let mut m = no_members();
    put_text(&mut m, "updated_at", now);
    put_text(&mut m, "event", event);
    let who = match actor {
        Some(a) => Json::Text(a.to_owned()),
        None => Json::Null,
    };
    put(&mut m, "actor", who);
    put(&mut m, "confirmation", snapshot.to_json());
    proof {
        assert(written(m@) =~= audit_tree(now@, event@, opt_str(actor), snapshot@)->Object_0);
    }
    Json::Object(m)
}

/// The tool calls that wait for an answer.
#[derive(Debug)]
pub struct PendingConfirmationRegistry {
    pending: Vec<PendingConfirmationSnapshot>,
}

/// The waiting tool calls among the first `n`, by name.
pub open spec fn pending_map(v: Seq<PendingConfirmationSnapshot>, n: nat) -> Map<
    Seq<char>,
    ConfirmationView,
>
    decreases n,
{
    if n == 0 || n > v.len() {
        Map::empty()
    } else {
        pending_map(v, (n - 1) as nat).insert(v[n - 1].confirmation_id@, v[n - 1]@)
    }
}

impl View for PendingConfirmationRegistry {
    type V = Map<Seq<char>, ConfirmationView>;

    closed spec fn view(&self) -> Map<Seq<char>, ConfirmationView> {
        pending_map(self.pending@, self.pending@.len())
    }
}

proof fn lemma_pending_map_prefix(
    a: Seq<PendingConfirmationSnapshot>,
    b: Seq<PendingConfirmationSnapshot>,
    n: nat,
)
    requires
        n <= a.len(),
        n <= b.len(),
        forall|i: int| 0 <= i < n ==> a[i] == b[i],
    ensures
        pending_map(a, n) == pending_map(b, n),
    decreases n,
{
    if n > 0 {
        lemma_pending_map_prefix(a, b, (n - 1) as nat);
    }
}

/// The tool call that a request is about.
pub open spec fn requested(
    id: Seq<char>,
    session_id: Seq<char>,
    payload: Seq<Member>,
    requested_by: Seq<char>,
    now: Seq<char>,
) -> ConfirmationView {
    let v = Jv::Object(fields(payload));
    ConfirmationView {
        id,
        session_id,
        tool_call_id: text_field_or(v, "tool_call_id"@, "unknown"@),
        tool_name: text_field_or(v, "title"@, "tool"@),
        raw_input: or_null(field(v, "raw_input"@)),
        input: match member(payload, "raw_input"@) {
            Some(input) => tree(input),
            None => Tree::Null,
        },
        requested_by,
        created_at: now,
    }
}

/// What is said of a confirmation that does not wait.
pub open spec fn no_confirmation(id: Seq<char>) -> Seq<char> {
    "找不到待确认请求："@ + id
}

/// An answered tool call: what waited, the answer that its waiter is handed,
/// and the entry of the record of confirmations.
#[derive(Debug)]
pub struct AnsweredConfirmation {
    pub snapshot: PendingConfirmationSnapshot,
    pub answer: String,
    pub entry: Json,
}

/// An answered tool call.
#[verifier::ext_equal]
pub ghost struct AnsweredView {
    pub confirmation: ConfirmationView,
    pub answer: Seq<char>,
    pub entry: Jv,
    pub entry_written: Tree,
}

impl View for AnsweredConfirmation {
    type V = AnsweredView;

    open spec fn view(&self) -> AnsweredView {
        AnsweredView {
            confirmation: self.snapshot@,
            answer: self.answer@,
            entry: self.entry@,
            entry_written: tree(self.entry),
        }
    }
}

/// What comes of a decision of an actor on a waiting tool call.
pub open spec fn answer_to(
    c: ConfirmationView,
    actor: Seq<char>,
    decision: Seq<char>,
    now: Seq<char>,
) -> AnsweredView {
    AnsweredView {
        confirmation: c,
        answer: decision,
        entry: audit_json(now, decision, Some(actor), c),
        entry_written: audit_tree(now, decision, Some(actor), c),
    }
}

/// What comes of a decision on the tool call that waits under a name.
pub open spec fn resolved(
    m: Map<Seq<char>, ConfirmationView>,
    id: Seq<char>,
    actor: Seq<char>,
    decision: Seq<char>,
    now: Seq<char>,
) -> Result<AnsweredView, Seq<char>> {
    if m.dom().contains(id) {
        Ok(answer_to(m[id], actor, decision, now))
    } else {
        Err(no_confirmation(id))
    }
}

/// A tool call that was asked about is decided once: the answer goes to its
/// waiter as it was given and is recorded with who gave it, then nothing waits
/// under the name and a further answer is refused. The others wait on.
pub proof fn law_request_is_decided_once(
    m: Map<Seq<char>, ConfirmationView>,
    c: ConfirmationView,
    actor: Seq<char>,
    decision: Seq<char>,
    now: Seq<char>,
    other_actor: Seq<char>,
    other_decision: Seq<char>,
    later: Seq<char>,
    other: Seq<char>,
)
    ensures
        ({
            let waiting = m.insert(c.id, c);
            let after = waiting.remove(c.id);
            &&& resolved(waiting, c.id, actor, decision, now) == Ok::<AnsweredView, Seq<char>>(
                answer_to(c, actor, decision, now),
            )
            &&& answer_to(c, actor, decision, now).answer == decision
            &&& !after.dom().contains(c.id)
            &&& resolved(after, c.id, other_actor, other_decision, later) == Err::<
                AnsweredView,
                Seq<char>,
            >(no_confirmation(c.id))
            &&& other != c.id ==> after.dom().contains(other) == m.dom().contains(other)
            &&& other != c.id && m.dom().contains(other) ==> after[other] == m[other]
        }),
{
}

fn member_or<'a>(members: &'a Vec<Member>, key: &str, default: &'a str) -> (r: &'a str)
    ensures
        r@ == text_field_or(Jv::Object(fields(members@)), key@, default@),
{
    match crate::json::lookup(members, key) {
        Some(v) => match v.as_str() {
            Some(s) => s,
            None => default,
        },
        None => default,
    }
}

impl PendingConfirmationRegistry {
    /// Nothing waits.
    pub fn new() -> (r: Self)
        ensures
            r@ == Map::<Seq<char>, ConfirmationView>::empty(),
    {
        PendingConfirmationRegistry { pending: Vec::new() }
    }

    /// Lets a tool call wait under a new name; what is recorded of it comes with
    /// it.
    pub fn create(
        &mut self,
        session_id: &str,
        payload: &Vec<Member>,
        requested_by: &str,
        now: &str,
    ) -> (r: (PendingConfirmationSnapshot, Json))
        ensures
            exists|unique: Seq<char>| #[trigger] is_simple_id(unique) && r.0@.id == "c_"@ + unique,
            r.0@ == requested(r.0@.id, session_id@, payload@, requested_by@, now@),
            r.1@ == audit_json(now@, "requested"@, None, r.0@),
            tree(r.1) == audit_tree(now@, "requested"@, None, r.0@),
            final(self)@ == old(self)@.insert(r.0@.id, r.0@),
    {
        let id = new_confirmation_id();
        self.create_as(id.as_str(), session_id, payload, requested_by, now)
    }

    /// Lets a tool call wait under a name that is used once.
    pub fn create_as(
        &mut self,
        confirmation_id: &str,
        session_id: &str,
        payload: &Vec<Member>,
        requested_by: &str,
        now: &str,
    ) -> (r: (PendingConfirmationSnapshot, Json))
        ensures
            r.0@ == requested(
                confirmation_id@,
                session_id@,
                payload@,
                requested_by@,
                now@,
            ),
            r.1@ == audit_json(now@, "requested"@, None, r.0@),
            tree(r.1) == audit_tree(now@, "requested"@, None, r.0@),
            final(self)@ == old(self)@.insert(confirmation_id@, r.0@),
    {
        let snapshot = PendingConfirmationSnapshot {
            confirmation_id: confirmation_id.to_owned(),
            session_id: session_id.to_owned(),
            tool_call_id: member_or(payload, "tool_call_id", "unknown").to_owned(),
            tool_name: member_or(payload, "title", "tool").to_owned(),
            raw_input: copy_or_null(crate::json::lookup(payload, "raw_input")),
            requested_by: requested_by.to_owned(),
            created_at: now.to_owned(),
        };
        let kept = snapshot.copy();
        let ghost before = self.pending@;
        self.pending.push(kept);
        proof {
            lemma_pending_map_prefix(before, self.pending@, before.len());
            assert(kept.confirmation_id@ == kept@.id);
        }
        let entry = audit_entry(now, "requested", None, &snapshot);
        (snapshot, entry)
    }

    fn find(&self, confirmation_id: &str) -> (r: Option<usize>)
        ensures
            match r {
                Some(i) => i < self.pending@.len() && self@.dom().contains(confirmation_id@)
                    && self@[confirmation_id@] == self.pending@[i as int]@,
                None => !self@.dom().contains(confirmation_id@),
            },
    {
        let mut n: usize = self.pending.len();
        let ghost all = self@;
        while n > 0
            invariant
                n <= self.pending@.len(),
                all == self@,
                all.dom().contains(confirmation_id@) == pending_map(
                    self.pending@,
                    n as nat,
                ).dom().contains(confirmation_id@),
                all.dom().contains(confirmation_id@) ==> all[confirmation_id@] == pending_map(
                    self.pending@,
                    n as nat,
                )[confirmation_id@],
            decreases n,
        {
            n -= 1;
            if str_eq(self.pending[n].confirmation_id.as_str(), confirmation_id) {
                return Some(n);
            }
        }
        None
    }

    /// The tool call that waits under a name.
    pub fn snapshot(&self, confirmation_id: &str) -> (r: Option<PendingConfirmationSnapshot>)
        ensures
            match r {
                Some(s) => self@.dom().contains(confirmation_id@) && s@ == self@[confirmation_id@],
                None => !self@.dom().contains(confirmation_id@),
            },
    {
        match self.find(confirmation_id) {
            Some(i) => Some(self.pending[i].copy()),
            None => None,
        }
    }

    /// Answers the tool call that waits under a name, which is answered once.
    pub fn resolve(
        &mut self,
        confirmation_id: &str,
        actor: &str,
        decision: &str,
        now: &str,
    ) -> (r: Result<AnsweredConfirmation, String>)
        ensures
            match resolved(old(self)@, confirmation_id@, actor@, decision@, now@) {
                Ok(a) => {
                    &&& r matches Ok(x) && x@ == a
                    &&& final(self)@ == old(self)@.remove(confirmation_id@)
                },
                Err(e) => {
                    &&& r matches Err(error) && error@ == e
                    &&& final(self)@ == old(self)@
                },
            },
    {
        let snapshot = match self.take(confirmation_id) {
            Some(s) => s,
            None => return Err(cat2("找不到待确认请求：", confirmation_id)),
        };
        let entry = audit_entry(now, decision, Some(actor), &snapshot);
        Ok(AnsweredConfirmation { snapshot, answer: decision.to_owned(), entry })
    }

    fn take(&mut self, confirmation_id: &str) -> (r: Option<PendingConfirmationSnapshot>)
        ensures
            if old(self)@.dom().contains(confirmation_id@) {
                &&& r matches Some(s) && s@ == old(self)@[confirmation_id@]
                &&& final(self)@ == old(self)@.remove(confirmation_id@)
            } else {
                &&& r is None
                &&& final(self)@ == old(self)@
            },
    {
        let found = match self.find(confirmation_id) {
            Some(i) => self.pending[i].copy(),
            None => return None,
        };
        let mut rest: Vec<PendingConfirmationSnapshot> = Vec::new();
        std::mem::swap(&mut rest, &mut self.pending);
        let ghost all = rest@;
        let n = rest.len();
        let mut kept: Vec<PendingConfirmationSnapshot> = Vec::new();
        let mut i: usize = 0;
        while i < n
            invariant
                i <= n,
                n == all.len(),
                rest@ == all.skip(i as int),
                pending_map(kept@, kept@.len()) =~= pending_map(all, i as nat).remove(
                    confirmation_id@,
                ),
            decreases n - i,
        {
            let item = rest.remove(0);
            proof {
                assert(item == all[i as int]);
                assert(rest@ =~= all.skip(i + 1));
            }
            if !str_eq(item.confirmation_id.as_str(), confirmation_id) {
                let ghost before = kept@;
                kept.push(item);
                proof {
                    lemma_pending_map_prefix(before, kept@, before.len());
                    assert(pending_map(kept@, kept@.len()) == pending_map(
                        before,
                        before.len(),
                    ).insert(item.confirmation_id@, item@));
                }
            }
            i += 1;
        }
        self.pending = kept;
        Some(found)
    }
}

/// What a user of a channel asks for.
#[derive(Debug)]
pub enum BridgeCommand {
    List,
    Switch(String),
    Back,
    Where,
    Approve(String),
    Deny(String),
    /// How to use a command.
    Usage(String),
}

/// What a user of a channel asks for.
#[verifier::ext_equal]
pub ghost enum CommandView {
    List,
    Switch(Seq<char>),
    Back,
    Where,
    Approve(Seq<char>),
    Deny(Seq<char>),
    Usage(Seq<char>),
}

impl View for BridgeCommand {
    type V = CommandView;

    open spec fn view(&self) -> CommandView {
        match *self {
            BridgeCommand::List => CommandView::List,
            BridgeCommand::Switch(s) => CommandView::Switch(s@),
            BridgeCommand::Back => CommandView::Back,
            BridgeCommand::Where => CommandView::Where,
            BridgeCommand::Approve(s) => CommandView::Approve(s@),
            BridgeCommand::Deny(s) => CommandView::Deny(s@),
            BridgeCommand::Usage(s) => CommandView::Usage(s@),
        }
    }
}

/// The command that a text is; any other text is for the agent.
pub open spec fn command_of(text: Seq<char>) -> Option<CommandView> {
    let t = trim_of(text);
    let w = words_of(t);
    if t.len() == 0 || t[0] != '/' || w.len() == 0 {
        None
    } else if w[0] == "/list"@ {
        Some(CommandView::List)
    } else if w[0] == "/switch"@ {
        Some(
            if w.len() > 1 {
                CommandView::Switch(w[1])
            } else {
                CommandView::Usage("用法：/switch <session_id>"@)
            },
        )
    } else if w[0] == "/back"@ {
        Some(CommandView::Back)
    } else if w[0] == "/where"@ {
        Some(CommandView::Where)
    } else if w[0] == "/approve"@ {
        Some(
            if w.len() > 1 {
                CommandView::Approve(w[1])
            } else {
                CommandView::Usage("用法：/approve <confirmation_id>"@)
            },
        )
    } else if w[0] == "/deny"@ {
        Some(
            if w.len() > 1 {
                CommandView::Deny(w[1])
            } else {
                CommandView::Usage("用法：/deny <confirmation_id>"@)
            },
        )
    } else {
        None
    }
}

/// The command that a text is; any other text is for the agent.
pub fn parse_command(text: &str) -> (r: Option<BridgeCommand>)
    ensures
        match command_of(text@) {
            Some(c) => r matches Some(command) && command@ == c,
            None => r is None,
        },
{
    let t = trim(text);
    let v = chars_of(t);
    if v.len() == 0 || v[0] != '/' {
        return None;
    }
    let w = words(t);
    proof {
        assert(w@.len() == words_of(t@).len());
        assert(w@.len() > 0 ==> w@[0]@ == words_of(t@)[0]);
        assert(w@.len() > 1 ==> w@[1]@ == words_of(t@)[1]);
    }
    if w.len() == 0 {
        return None;
    }
    let command = w[0].as_str();
    if str_eq(command, "/list") {
        Some(BridgeCommand::List)
    } else if str_eq(command, "/switch") {
        if w.len() > 1 {
            Some(BridgeCommand::Switch(w[1].clone()))
        } else {
            Some(BridgeCommand::Usage("用法：/switch <session_id>".to_owned()))
        }
    } else if str_eq(command, "/back") {
        Some(BridgeCommand::Back)
    } else if str_eq(command, "/where") {
        Some(BridgeCommand::Where)
    } else if str_eq(command, "/approve") {
        if w.len() > 1 {
            Some(BridgeCommand::Approve(w[1].clone()))
        } else {
            Some(BridgeCommand::Usage("用法：/approve <confirmation_id>".to_owned()))
        }
    } else if str_eq(command, "/deny") {
        if w.len() > 1 {
            Some(BridgeCommand::Deny(w[1].clone()))
        } else {
            Some(BridgeCommand::Usage("用法：/deny <confirmation_id>".to_owned()))
        }
    } else {
        None
    }
}

/// The decision that a command gives, and on which confirmation.
pub open spec fn decision_of(c: CommandView) -> Option<(Seq<char>, Seq<char>)> {
    match c {
        CommandView::Approve(id) => Some((id, PERMISSION_ALLOW_ONCE@)),
        CommandView::Deny(id) => Some((id, PERMISSION_REJECT_ONCE@)),
        _ => None,
    }
}

/// The decision that a command gives, and on which confirmation.
pub fn command_decision(c: &BridgeCommand) -> (r: Option<(String, &'static str)>)
    ensures
        match decision_of(c@) {
            Some(d) => r matches Some(x) && x.0@ == d.0 && x.1@ == d.1,
            None => r is None,
        },
{
    match c {
        BridgeCommand::Approve(id) => Some((id.clone(), PERMISSION_ALLOW_ONCE)),
        BridgeCommand::Deny(id) => Some((id.clone(), PERMISSION_REJECT_ONCE)),
        _ => None,
    }
}

/// A channel's way to its sessions.
#[derive(Debug)]
pub struct ChannelBridge {
    pub holder: String,
    pub default_session_id: String,
}

/// Which session a channel works with.
#[verifier::ext_equal]
pub ghost struct BridgeView {
    pub default_id: Seq<char>,
    pub active: Option<Seq<char>>,
    pub updated_at: Option<Seq<char>>,
}

impl View for ChannelBridgeState {
    type V = BridgeView;

    open spec fn view(&self) -> BridgeView {
        BridgeView {
            default_id: self.default_session_id@,
            active: opt_text(self.active_session_id),
            updated_at: opt_text(self.updated_at),
        }
    }
}

/// The leases after a channel left its active session for another.
pub open spec fn left(
    m: Map<Seq<char>, LeaseView>,
    active: Option<Seq<char>>,
    target: Option<Seq<char>>,
    default_id: Seq<char>,
    holder: Seq<char>,
) -> Map<Seq<char>, LeaseView> {
    match active {
        Some(previous) => if Some(previous) != target && previous != default_id && holds(
            m,
            previous,
            holder,
        ) {
            m.remove(previous)
        } else {
            m
        },
        None => m,
    }
}

/// What a switch comes to.
#[derive(Debug)]
pub enum SwitchPlan {
    /// The channel is back at its own session, and this is the answer.
    Default(String),
    /// This session is loaded next.
    Load(String),
}

/// The active session of a channel, or its own.
pub open spec fn current(s: BridgeView, default_id: Seq<char>) -> Seq<char> {
    match s.active {
        Some(id) => id,
        None => default_id,
    }
}

/// Why a channel may not answer a confirmation.
pub open spec fn no_right(c: ConfirmationView, holder: Option<Seq<char>>) -> Seq<char> {
    "当前 channel 无权处理确认 "@ + c.id + "；session "@ + c.session_id + " 当前占用者："@ + (
    match holder {
        Some(h) => h,
        None => "none"@,
    })
}

/// Whether a channel may answer a confirmation: it asked, or it has the
/// session.
pub open spec fn may_answer(c: ConfirmationView, holder: Seq<char>, m: Map<Seq<char>, LeaseView>) -> bool {
    c.requested_by == holder || holder_of(m, c.session_id) == Some(holder)
}

/// What is said of an answered confirmation.
pub open spec fn answered_text(c: ConfirmationView, decision: Seq<char>) -> Seq<char> {
    "已"@ + (if decision == PERMISSION_ALLOW_ONCE@ {
        "批准"@
    } else {
        "拒绝"@
    }) + "确认："@ + c.id + "\nsession："@ + c.session_id + "\ntool："@ + c.tool_name
}

/// A line of the session list.
pub open spec fn session_line(m: MetaView, active: Seq<char>, default_id: Seq<char>) -> Seq<char> {
    let marker = if m.session_id == active {
        "*"@
    } else if m.session_id == default_id {
        "d"@
    } else {
        "-"@
    };
    marker + " "@ + m.session_id + " ["@ + state_name(m.state) + "] "@ + (match m.updated_at {
        Some(t) => t,
        None => "-"@,
    }) + " "@ + (match m.title {
        Some(t) => t,
        None => "(untitled)"@,
    })
}

/// A line of the session list.
pub fn render_session_line(session: &SessionMetaPayload, active: &str, default_session_id: &str) -> (r:
    String)
    ensures
        r@ == session_line(session@, active@, default_session_id@),
{
    let marker = if str_eq(session.session_id.as_str(), active) {
        "*"
    } else if str_eq(session.session_id.as_str(), default_session_id) {
        "d"
    } else {
        "-"
    };
    let mut out = cat5(marker, " ", session.session_id.as_str(), " [", session.state.as_str());
    out.append("] ");
    match &session.updated_at {
        Some(t) => out.append(t.as_str()),
        None => out.append("-"),
    }
    out.append(" ");
    match &session.title {
        Some(t) => out.append(t.as_str()),
        None => out.append("(untitled)"),
    }
    out
}

/// How many sessions a list shows.
pub const LIST_LIMIT: usize = 30;

/// The lines of the session list for the first `n` sessions.
pub open spec fn session_lines(v: Seq<MetaView>, active: Seq<char>, default_id: Seq<char>, n: nat) -> Seq<
    Seq<char>,
>
    decreases n,
{
    if n == 0 || n > v.len() {
        seq!["sessions:"@]
    } else {
        session_lines(v, active, default_id, (n - 1) as nat).push(
            session_line(v[n - 1], active, default_id),
        )
    }
}

/// The session list.
pub open spec fn session_list(v: Seq<MetaView>, active: Seq<char>, default_id: Seq<char>) -> Seq<char> {
    if v.len() == 0 {
        "暂无 session。"@
    } else if v.len() <= LIST_LIMIT {
        join_of(session_lines(v, active, default_id, v.len()), "\n"@)
    } else {
        join_of(
            session_lines(v, active, default_id, LIST_LIMIT as nat).push(
                "... 还有 "@ + decimal((v.len() - LIST_LIMIT) as nat) + " 个 session"@,
            ),
            "\n"@,
        )
    }
}

/// A text cut to a limit, with a note where it was cut.
pub open spec fn cut_json(raw: Seq<char>, limit: nat) -> Seq<char> {
    if raw.len() <= limit {
        raw
    } else {
        raw.take(limit as int) + "...<truncated>"@
    }
}

/// The JSON text of a value, cut to a limit, with a note where it was cut.
pub fn truncate_json(value: &Json, limit: usize) -> (r: String)
    ensures
        r@ == cut_json(compact_text(tree(*value)), limit as nat),
{
    truncate_json_text(compact_json(value).as_str(), limit)
}

/// Cuts a JSON text to a limit, with a note where it was cut.
pub fn truncate_json_text(raw: &str, limit: usize) -> (r: String)
    ensures
        r@ == cut_json(raw@, limit as nat),
{
    let head = first_chars(raw, limit);
    if str_eq(head, raw) {
        proof {
            if raw@.len() > limit {
                assert(take_chars(raw@, limit as nat).len() == limit);
            }
        }
        return raw.to_owned();
    }
    cat2(head, "...<truncated>")
}

/// What a user is shown of a tool call that waits; `args` is the JSON text of
/// its input.
pub open spec fn confirmation_text(c: ConfirmationView, args: Seq<char>) -> Seq<char> {
    "[confirm required]\nsession: "@ + c.session_id + "\nconfirm: "@ + c.id + "\ntool: "@
        + c.tool_name + "\nargs: "@ + cut_json(args, 320) + "\n/approve "@ + c.id + "\n/deny "@
        + c.id
}

fn push_text(lines: &mut Vec<String>, line: String)
    ensures
        texts(final(lines)@) == texts(old(lines)@).push(line@),
{
    proof {
        crate::text::lemma_texts_push(lines@, line);
    }
    lines.push(line);
}

impl ChannelBridge {
    /// The state of a channel, as it was stored or as it begins. A stored
    /// state of another own session is taken over for the own session.
    pub fn init_state(&self, stored: Option<ChannelBridgeState>) -> (r: ChannelBridgeState)
        ensures
            r@ == match stored {
                Some(s) => BridgeView { default_id: self.default_session_id@, ..s@ },
                None => BridgeView {
                    default_id: self.default_session_id@,
                    active: None,
                    updated_at: None,
                },
            },
    {
        match stored {
            Some(s) => ChannelBridgeState {
                default_session_id: self.default_session_id.clone(),
                active_session_id: s.active_session_id,
                updated_at: s.updated_at,
            },
            None => ChannelBridgeState {
                default_session_id: self.default_session_id.clone(),
                active_session_id: None,
                updated_at: None,
            },
        }
    }

    /// The session to load for a message, where it is not the channel's own;
    /// the channel asks for it first.
    pub fn active_target(
        &self,
        leases: &mut SessionLeaseRegistry,
        state: &ChannelBridgeState,
        now: &str,
    ) -> (r: Result<Option<String>, String>)
        ensures
            match state@.active {
                Some(id) => if id == self.default_session_id@ {
                    (r matches Ok(None)) && final(leases)@ == old(leases)@
                } else {
                    match acquired(old(leases)@, id, self.holder@, now@) {
                        Ok(l) => (r matches Ok(Some(s)) && s@ == id) && final(leases)@ == old(leases)@.insert(id, l),
                        Err(e) => {
                            &&& r matches Err(error) && error@ == "acquire session lease for "@ + id
                                + ": "@ + e
                            &&& final(leases)@ == old(leases)@
                        },
                    }
                },
                None => (r matches Ok(None)) && final(leases)@ == old(leases)@,
            },
    {
        match &state.active_session_id {
            None => Ok(None),
            Some(id) => {
                if str_eq(id.as_str(), self.default_session_id.as_str()) {
                    return Ok(None);
                }
                match leases.acquire_sync(id.as_str(), self.holder.as_str(), now) {
                    Ok(_) => Ok(Some(id.clone())),
                    Err(e) => {
                        let mut out = cat3("acquire session lease for ", id.as_str(), ": ");
                        out.append(e.as_str());
                        Err(out)
                    },
                }
            },
        }
    }

    /// Whether the session of a message can be used: it was found.
    pub fn active_loaded(&self, session_id: &str, found: bool) -> (r: Result<(), String>)
        ensures
            match r {
                Ok(_) => found,
                Err(e) => !found && e@ == "active session not found: "@ + session_id@,
            },
    {
        if found {
            Ok(())
        } else {
            Err(cat2("active session not found: ", session_id))
        }
    }

    fn leave(
        &self,
        leases: &mut SessionLeaseRegistry,
        active: &Option<String>,
        target: Option<&str>,
    )
        ensures
            final(leases)@ == left(
                old(leases)@,
                opt_text(*active),
                opt_str(target),
                self.default_session_id@,
                self.holder@,
            ),
    {
        if let Some(previous) = active {
            let same = match target {
                Some(t) => str_eq(previous.as_str(), t),
                None => false,
            };
            if !same && !str_eq(previous.as_str(), self.default_session_id.as_str()) {
                let _ = leases.release_if_holder_sync(previous.as_str(), self.holder.as_str());
            }
        }
    }

    /// Begins a switch: the channel leaves its active session.
    pub fn begin_switch(
        &self,
        leases: &mut SessionLeaseRegistry,
        state: &mut ChannelBridgeState,
        requested_session_id: &str,
        now: &str,
    ) -> (r: Result<SwitchPlan, String>)
        ensures
            ({
                let id = trim_of(requested_session_id@);
                if id.len() == 0 {
                    &&& r matches Err(e) && e@ == "session_id is required"@
                    &&& final(leases)@ == old(leases)@
                    &&& final(state)@ == old(state)@
                } else {
                    &&& final(leases)@ == left(
                        old(leases)@,
                        old(state)@.active,
                        Some(id),
                        self.default_session_id@,
                        self.holder@,
                    )
                    &&& if id == "default"@ || id == self.default_session_id@ {
                        &&& r matches Ok(SwitchPlan::Default(s)) && s@ == "已切回默认会话："@
                            + self.default_session_id@
                        &&& final(state)@ == (BridgeView {
                            active: None,
                            updated_at: Some(now@),
                            ..old(state)@
                        })
                    } else {
                        &&& r matches Ok(SwitchPlan::Load(s)) && s@ == id
                        &&& final(state)@ == old(state)@
                    }
                }
            }),
    {
        let id = trim(requested_session_id);
        if id.is_empty() {
            return Err("session_id is required".to_owned());
        }
        self.leave(leases, &state.active_session_id, Some(id));
        if str_eq(id, "default") || str_eq(id, self.default_session_id.as_str()) {
            state.active_session_id = None;
            state.updated_at = Some(now.to_owned());
            return Ok(
                SwitchPlan::Default(
                    cat2("已切回默认会话：", self.default_session_id.as_str()),
                ),
            );
        }
        Ok(SwitchPlan::Load(id.to_owned()))
    }

    /// Ends a switch: the channel asks for the session that was loaded.
    pub fn finish_switch(
        &self,
        leases: &mut SessionLeaseRegistry,
        state: &mut ChannelBridgeState,
        session_id: &str,
        found: bool,
        now: &str,
    ) -> (r: Result<String, String>)
        ensures
            if !found {
                &&& r matches Err(e) && e@ == "找不到 session："@ + session_id@
                &&& final(leases)@ == old(leases)@
                &&& final(state)@ == old(state)@
            } else {
                match acquired(old(leases)@, session_id@, self.holder@, now@) {
                    Err(e) => {
                        &&& r matches Err(error) && error@ == e
                        &&& final(leases)@ == old(leases)@
                        &&& final(state)@ == old(state)@
                    },
                    Ok(l) => {
                        &&& r matches Ok(s) && s@ == "已切换到 session："@ + session_id@
                            + "\n返回默认会话：/back"@
                        &&& final(leases)@ == old(leases)@.insert(session_id@, l)
                        &&& final(state)@ == (BridgeView {
                            active: Some(session_id@),
                            updated_at: Some(now@),
                            ..old(state)@
                        })
                    },
                }
            },
    {
        if !found {
            return Err(cat2("找不到 session：", session_id));
        }
        match leases.acquire_sync(session_id, self.holder.as_str(), now) {
            Ok(_) => {},
            Err(e) => return Err(e),
        }
        state.active_session_id = Some(session_id.to_owned());
        state.updated_at = Some(now.to_owned());
        Ok(cat3("已切换到 session：", session_id, "\n返回默认会话：/back"))
    }

    /// Goes back to the channel's own session.
    pub fn switch_back(
        &self,
        leases: &mut SessionLeaseRegistry,
        state: &mut ChannelBridgeState,
        now: &str,
    ) -> (r: String)
        ensures
            r@ == "已返回默认会话："@ + self.default_session_id@,
            final(leases)@ == left(
                old(leases)@,
                old(state)@.active,
                None,
                self.default_session_id@,
                self.holder@,
            ),
            final(state)@ == (BridgeView {
                active: None,
                updated_at: Some(now@),
                ..old(state)@
            }),
    {
        self.leave(leases, &state.active_session_id, None);
        state.active_session_id = None;
        state.updated_at = Some(now.to_owned());
        cat2("已返回默认会话：", self.default_session_id.as_str())
    }

    /// Tells which session the channel works with.
    pub fn render_where(&self, leases: &SessionLeaseRegistry, state: &ChannelBridgeState) -> (r:
        String)
        ensures
            ({
                let active = current(state@, self.default_session_id@);
                r@ == "当前会话："@ + active + "\n默认会话："@ + self.default_session_id@
                    + "\n占用者："@ + (match holder_of(leases@, active) {
                    Some(h) => h,
                    None => "none"@,
                })
            }),
    {
        let active = match &state.active_session_id {
            Some(id) => id.as_str(),
            None => self.default_session_id.as_str(),
        };
        let mut out = cat5(
            "当前会话：",
            active,
            "\n默认会话：",
            self.default_session_id.as_str(),
            "\n占用者：",
        );
        match leases.holder_sync(active) {
            Some(h) => out.append(h.as_str()),
            None => out.append("none"),
        }
        out
    }

    /// Answers a confirmation; only a channel that asked for it or that has
    /// the session may.
    pub fn resolve_confirmation(
        &self,
        leases: &SessionLeaseRegistry,
        confirmations: &mut PendingConfirmationRegistry,
        confirmation_id: &str,
        decision: &str,
        now: &str,
    ) -> (r: Result<(AnsweredConfirmation, String), String>)
        ensures
            ({
                let before = old(confirmations)@;
                if !before.dom().contains(confirmation_id@) {
                    &&& r matches Err(e) && e@ == no_confirmation(confirmation_id@)
                    &&& final(confirmations)@ == before
                } else {
                    let c = before[confirmation_id@];
                    if may_answer(c, self.holder@, leases@) {
                        &&& r matches Ok(x) && x.0@ == answer_to(
                            c,
                            self.holder@,
                            decision@,
                            now@,
                        ) && x.1@ == answered_text(c, decision@)
                        &&& final(confirmations)@ == before.remove(confirmation_id@)
                    } else {
                        &&& r matches Err(e) && e@ == no_right(
                            c,
                            holder_of(leases@, c.session_id),
                        )
                        &&& final(confirmations)@ == before
                    }
                }
            }),
    {
        let pending = match confirmations.snapshot(confirmation_id) {
            Some(p) => p,
            None => return Err(cat2("找不到待确认请求：", confirmation_id)),
        };
        let session_holder = leases.holder_sync(pending.session_id.as_str());
        let has_session = match &session_holder {
            Some(h) => str_eq(h.as_str(), self.holder.as_str()),
            None => false,
        };
        if !str_eq(pending.requested_by.as_str(), self.holder.as_str()) && !has_session {
            let mut out = cat5(
                "当前 channel 无权处理确认 ",
                pending.confirmation_id.as_str(),
                "；session ",
                pending.session_id.as_str(),
                " 当前占用者：",
            );
            match &session_holder {
                Some(h) => out.append(h.as_str()),
                None => out.append("none"),
            }
            return Err(out);
        }
        let answered = match confirmations.resolve(
            confirmation_id,
            self.holder.as_str(),
            decision,
            now,
        ) {
            Ok(a) => a,
            Err(e) => return Err(e),
        };
        let snapshot = &answered.snapshot;
        let verb = if str_eq(decision, PERMISSION_ALLOW_ONCE) {
            "批准"
        } else {
            "拒绝"
        };
        let mut text = cat5(
            "已",
            verb,
            "确认：",
            snapshot.confirmation_id.as_str(),
            "\nsession：",
        );
        text.append(snapshot.session_id.as_str());
        text.append("\ntool：");
        text.append(snapshot.tool_name.as_str());
        Ok((answered, text))
    }

    /// Lists the sessions, the first of them.
    pub fn render_session_list(
        &self,
        sessions: &Vec<SessionMetaPayload>,
        state: &ChannelBridgeState,
    ) -> (r: String)
        ensures
            r@ == session_list(
                meta_views(sessions@),
                current(state@, self.default_session_id@),
                self.default_session_id@,
            ),
    {
        if sessions.len() == 0 {
            return "暂无 session。".to_owned();
        }
        let active = match &state.active_session_id {
            Some(id) => id.as_str(),
            None => self.default_session_id.as_str(),
        };
        let ghost views = meta_views(sessions@);
        let default_id = self.default_session_id.as_str();
        let mut lines: Vec<String> = Vec::new();
        proof {
            assert(texts(lines@) =~= Seq::empty());
        }
        push_text(&mut lines, "sessions:".to_owned());
        let shown: usize = if sessions.len() > LIST_LIMIT {
            LIST_LIMIT
        } else {
            sessions.len()
        };
        let mut i: usize = 0;
        proof {
            assert(texts(lines@) =~= session_lines(views, active@, default_id@, 0));
        }
        while i < shown
            invariant
                i <= shown <= sessions@.len(),
                views == meta_views(sessions@),
                texts(lines@) == session_lines(views, active@, default_id@, i as nat),
            decreases shown - i,
        {
            proof {
                assert(views[i as int] == sessions@[i as int]@);
            }
            push_text(&mut lines, render_session_line(&sessions[i], active, default_id));
            i += 1;
        }
        if sessions.len() > LIST_LIMIT {
            let rest = decimal_text((sessions.len() - LIST_LIMIT) as u64);
            push_text(&mut lines, cat3("... 还有 ", rest.as_str(), " 个 session"));
        }
        join(&lines, "\n")
    }

    /// What a user is shown of a tool call that waits.
    pub fn confirmation_message(snapshot: &PendingConfirmationSnapshot) -> (r: String)
        ensures
            r@ == confirmation_text(snapshot@, compact_text(snapshot@.input)),
    {
        let args = compact_json(&snapshot.raw_input);
        Self::confirmation_message_text(snapshot, args.as_str())
    }

    /// What a user is shown of a tool call that waits; `args` is the JSON text
    /// of its input.
    pub fn confirmation_message_text(snapshot: &PendingConfirmationSnapshot, args: &str) -> (r:
        String)
        ensures
            r@ == confirmation_text(snapshot@, args@),
    {
        let id = snapshot.confirmation_id.as_str();
        let mut out = cat5(
            "[confirm required]\nsession: ",
            snapshot.session_id.as_str(),
            "\nconfirm: ",
            id,
            "\ntool: ",
        );
        out.append(snapshot.tool_name.as_str());
        out.append("\nargs: ");
        out.append(truncate_json_text(args, 320).as_str());
        out.append("\n/approve ");
        out.append(id);
        out.append("\n/deny ");
        out.append(id);
        out
    }
}

/// A channel that leaves its session for another gives it back, unless it is
/// the channel's own, and gives back no other.
pub proof fn law_channel_gives_back_only_its_own(
    m: Map<Seq<char>, LeaseView>,
    active: Option<Seq<char>>,
    target: Option<Seq<char>>,
    default_id: Seq<char>,
    holder: Seq<char>,
    other: Seq<char>,
)
    ensures
        active == Some(other) && target != Some(other) && other != default_id && holds(
            m,
            other,
            holder,
        ) ==> holder_of(left(m, active, target, default_id, holder), other) is None,
        active != Some(other) || !holds(m, other, holder) ==> holder_of(
            left(m, active, target, default_id, holder),
            other,
        ) == holder_of(m, other),
{
}

/// A channel that neither asked nor has the session cannot answer.
pub proof fn law_strangers_cannot_answer(c: ConfirmationView, holder: Seq<char>, m: Map<Seq<char>, LeaseView>)
    requires
        c.requested_by != holder,
        !holds(m, c.session_id, holder),
    ensures
        !may_answer(c, holder, m),
{
}

/// A free session is had by whoever asks first, and a holder that asks again keeps
/// it since the time it was first had.
pub proof fn law_free_session_is_had(
    m: Map<Seq<char>, LeaseView>,
    session_id: Seq<char>,
    holder: Seq<char>,
    now: Seq<char>,
)
    ensures
        !m.dom().contains(session_id) ==> acquired(m, session_id, holder, now) == Ok::<
            LeaseView,
            Seq<char>,
        >(LeaseView { holder, acquired_at: now, updated_at: now }),
        m.dom().contains(session_id) && m[session_id].holder == holder ==> (acquired(
            m,
            session_id,
            holder,
            now,
        ) matches Ok(l) && l.holder == holder && l.acquired_at == m[session_id].acquired_at
            && l.updated_at == now),
        m.dom().contains(session_id) && m[session_id].holder != holder ==> (acquired(
            m,
            session_id,
            holder,
            now,
        ) matches Err(e) && contains_sub(e, session_id) && contains_sub(e, m[session_id].holder)),
        holds(m, session_id, holder) <==> holder_of(m, session_id) == Some(holder),
        holder_of(m, session_id) is Some <==> m.dom().contains(session_id),
{
    if m.dom().contains(session_id) {
        let other = m[session_id].holder;
        let e = occupied(session_id, other);
        law_parts_are_found("session "@, session_id, " is occupied by "@ + other + "; switch denied."@);
        assert(e =~= "session "@ + session_id + (" is occupied by "@ + other + "; switch denied."@));
        law_parts_are_found(
            "session "@ + session_id + " is occupied by "@,
            other,
            "; switch denied."@,
        );
    }
}

/// Who asked and who has the session may answer.
pub proof fn law_requester_and_holder_may_answer(
    c: ConfirmationView,
    holder: Seq<char>,
    m: Map<Seq<char>, LeaseView>,
)
    ensures
        c.requested_by == holder ==> may_answer(c, holder, m),
        m.dom().contains(c.session_id) && m[c.session_id].holder == holder ==> may_answer(
            c,
            holder,
            m,
        ),
{
}

/// A request for confirmation carries the call it is about, who asked, for which
/// session and when.
pub proof fn law_request_carries_its_call(
    id: Seq<char>,
    session_id: Seq<char>,
    payload: Seq<Member>,
    requested_by: Seq<char>,
    now: Seq<char>,
)
    ensures
        ({
            let c = requested(id, session_id, payload, requested_by, now);
            let m = fields(payload);
            &&& c.id == id && c.session_id == session_id
            &&& c.requested_by == requested_by && c.created_at == now
            &&& m.dom().contains("tool_call_id"@) && m["tool_call_id"@] is Text
                ==> c.tool_call_id == m["tool_call_id"@]->Text_0
            &&& m.dom().contains("title"@) && m["title"@] is Text ==> c.tool_name
                == m["title"@]->Text_0
            &&& m.dom().contains("raw_input"@) ==> c.raw_input == m["raw_input"@]
        }),
{
}

/// The record of a decision holds when it was taken, what it was, who took it and
/// the whole request.
pub proof fn law_record_holds_the_decision(
    now: Seq<char>,
    event: Seq<char>,
    actor: Seq<char>,
    c: ConfirmationView,
)
    ensures
        answer_to(c, actor, event, now).confirmation == c,
        answer_to(c, actor, event, now).answer == event,
        answer_to(c, actor, event, now).entry == Jv::Object(
            map![
                "updated_at"@ => Jv::Text(now),
                "event"@ => Jv::Text(event),
                "actor"@ => Jv::Text(actor),
                "confirmation"@ => Jv::Object(
                    map![
                        "confirmation_id"@ => Jv::Text(c.id),
                        "session_id"@ => Jv::Text(c.session_id),
                        "tool_call_id"@ => Jv::Text(c.tool_call_id),
                        "tool_name"@ => Jv::Text(c.tool_name),
                        "raw_input"@ => c.raw_input,
                        "requested_by"@ => Jv::Text(c.requested_by),
                        "created_at"@ => Jv::Text(c.created_at),
                    ],
                ),
            ],
        ),
        ({
            let t = answer_to(c, actor, event, now).entry_written->Object_0;
            let request = t[3].1->Object_0;
            &&& answer_to(c, actor, event, now).entry_written is Object && t.len() == 4
            &&& t[0] == ("updated_at"@, Tree::Text(now))
            &&& t[1] == ("event"@, Tree::Text(event))
            &&& t[2] == ("actor"@, Tree::Text(actor))
            &&& t[3].0 == "confirmation"@ && t[3].1 is Object && request.len() == 7
            &&& request[0] == ("confirmation_id"@, Tree::Text(c.id))
            &&& request[1] == ("session_id"@, Tree::Text(c.session_id))
            &&& request[2] == ("tool_call_id"@, Tree::Text(c.tool_call_id))
            &&& request[3] == ("tool_name"@, Tree::Text(c.tool_name))
            &&& request[4] == ("raw_input"@, c.input)
            &&& request[5] == ("requested_by"@, Tree::Text(c.requested_by))
            &&& request[6] == ("created_at"@, Tree::Text(c.created_at))
        }),
{
}

proof fn lemma_one_word_command(word: Seq<char>)
    requires
        word == "/list"@ || word == "/switch"@ || word == "/back"@ || word == "/where"@ || word
            == "/approve"@ || word == "/deny"@,
    ensures
        word.len() > 0,
        word[0] == '/',
        forall|i: int| 0 <= i < word.len() ==> !is_ws(#[trigger] word[i]),
        "/list"@ != "/switch"@,
        "/list"@ != "/back"@,
        "/list"@ != "/where"@,
        "/list"@ != "/approve"@,
        "/list"@ != "/deny"@,
        "/switch"@ != "/back"@,
        "/switch"@ != "/where"@,
        "/switch"@ != "/approve"@,
        "/switch"@ != "/deny"@,
        "/back"@ != "/where"@,
        "/back"@ != "/approve"@,
        "/back"@ != "/deny"@,
        "/where"@ != "/approve"@,
        "/where"@ != "/deny"@,
        "/approve"@ != "/deny"@,
{
    reveal_strlit("/list");
    reveal_strlit("/switch");
    reveal_strlit("/back");
    reveal_strlit("/where");
    reveal_strlit("/approve");
    reveal_strlit("/deny");
    assert("/list"@[1] == 'l' && "/switch"@[1] == 's' && "/back"@[1] == 'b');
    assert("/where"@[1] == 'w' && "/approve"@[1] == 'a' && "/deny"@[1] == 'd');
}

/// A command is its word, alone or with an argument behind it; the argument is
/// taken as it is, and what follows it says nothing.
pub proof fn law_commands_are_read(word: Seq<char>, argument: Seq<char>)
    requires
        word == "/list"@ || word == "/switch"@ || word == "/back"@ || word == "/where"@ || word
            == "/approve"@ || word == "/deny"@,
        argument.len() > 0,
        forall|i: int| 0 <= i < argument.len() ==> !is_ws(#[trigger] argument[i]),
    ensures
        ({
            let given = command_of(word + seq![' '] + argument);
            let bare = command_of(word);
            &&& word == "/list"@ ==> given == Some(CommandView::List) && bare == given
            &&& word == "/back"@ ==> given == Some(CommandView::Back) && bare == given
            &&& word == "/where"@ ==> given == Some(CommandView::Where) && bare == given
            &&& word == "/switch"@ ==> given == Some(CommandView::Switch(argument)) && (
            bare matches Some(CommandView::Usage(_)))
            &&& word == "/approve"@ ==> given == Some(CommandView::Approve(argument)) && (
            bare matches Some(CommandView::Usage(_)))
            &&& word == "/deny"@ ==> given == Some(CommandView::Deny(argument)) && (
            bare matches Some(CommandView::Usage(_)))
        }),
{
    lemma_one_word_command(word);
    let text = word + seq![' '] + argument;
    law_words_stand_between_white_space(word, ' ', argument);
    law_words_stand_between_white_space(argument, ' ', argument);
    law_trim_keeps_what_is_between(Seq::empty(), word, Seq::empty());
    law_trim_keeps_what_is_between(Seq::empty(), text, Seq::empty());
    assert(Seq::<char>::empty() + word + Seq::<char>::empty() =~= word);
    assert(Seq::<char>::empty() + text + Seq::<char>::empty() =~= text);
    assert(trim_of(word) =~= word);
    assert(trim_of(text) =~= text);
    assert(text[0] == '/');
    assert(words_of(text) =~= seq![word, argument]);
}

/// What is no command is left to the session.
pub proof fn law_other_texts_are_no_commands(text: Seq<char>)
    requires
        trim_of(text).len() == 0 || trim_of(text)[0] != '/',
    ensures
        command_of(text) is None,
{
}

/// An approval allows the named request once, a denial rejects it, and no other
/// command decides anything.
pub proof fn law_commands_decide(id: Seq<char>, c: CommandView)
    ensures
        decision_of(CommandView::Approve(id)) == Some((id, "allow_once"@)),
        decision_of(CommandView::Deny(id)) == Some((id, "reject_once"@)),
        !(c is Approve) && !(c is Deny) ==> decision_of(c) is None,
{
}

/// A channel works with the session it switched to, and with its own elsewhere.
pub proof fn law_channel_works_with_one_session(s: BridgeView, default_id: Seq<char>, id: Seq<char>)
    ensures
        s.active == Some(id) ==> current(s, default_id) == id,
        s.active is None ==> current(s, default_id) == default_id,
{
}

proof fn lemma_session_lines(v: Seq<MetaView>, active: Seq<char>, default_id: Seq<char>, n: nat, i: int)
    requires
        n <= v.len(),
        0 <= i < n,
    ensures
        session_lines(v, active, default_id, n).len() == n + 1,
        session_lines(v, active, default_id, n)[i + 1] == session_line(v[i], active, default_id),
    decreases n,
{
    if i < n - 1 {
        lemma_session_lines(v, active, default_id, (n - 1) as nat, i);
    } else if n > 1 {
        lemma_session_lines(v, active, default_id, (n - 1) as nat, 0);
    } else {
        assert(session_lines(v, active, default_id, 0).len() == 1);
    }
}

/// A list of sessions names each of them in its order, with its state, and marks
/// the one in use and the channel's own.
pub proof fn law_list_names_every_session(
    v: Seq<MetaView>,
    active: Seq<char>,
    default_id: Seq<char>,
    i: int,
)
    requires
        0 <= i < v.len() <= 30,
    ensures
        ({
            let lines = session_lines(v, active, default_id, v.len());
            let line = lines[i + 1];
            &&& lines.len() == v.len() + 1
            &&& session_list(v, active, default_id) == join_of(lines, "\n"@)
            &&& v[i].session_id == active ==> starts_with(line, "* "@ + v[i].session_id)
            &&& v[i].session_id != active && v[i].session_id == default_id ==> starts_with(
                line,
                "d "@ + v[i].session_id,
            )
            &&& v[i].session_id != active && v[i].session_id != default_id ==> starts_with(
                line,
                "- "@ + v[i].session_id,
            )
            &&& contains_sub(line, state_name(v[i].state))
        }),
{
    let m = v[i];
    lemma_session_lines(v, active, default_id, v.len(), i);
    reveal_strlit("* ");
    reveal_strlit("d ");
    reveal_strlit("- ");
    reveal_strlit("*");
    reveal_strlit("d");
    reveal_strlit("-");
    reveal_strlit(" ");
    assert("* "@ =~= "*"@ + " "@);
    assert("d "@ =~= "d"@ + " "@);
    assert("- "@ =~= "-"@ + " "@);
    let marker = if m.session_id == active {
        "*"@
    } else if m.session_id == default_id {
        "d"@
    } else {
        "-"@
    };
    let time = match m.updated_at {
        Some(t) => t,
        None => "-"@,
    };
    let title = match m.title {
        Some(t) => t,
        None => "(untitled)"@,
    };
    lemma_line_parts(marker + " "@ + m.session_id, state_name(m.state), time, title);
}

proof fn lemma_line_parts(head: Seq<char>, state: Seq<char>, time: Seq<char>, title: Seq<char>)
    ensures
        ({
            let line = head + " ["@ + state + "] "@ + time + " "@ + title;
            &&& starts_with(line, head)
            &&& contains_sub(line, state)
        }),
{
    let x = head + " ["@;
    law_parts_are_found(head, " ["@, Seq::empty());
    law_parts_stay_in_longer_texts(x, state, head);
    law_parts_are_found(x, state, "] "@);
    law_parts_stay_in_longer_texts(x + state, "] "@, head);
    let y = x + state + "] "@;
    law_parts_stay_in_longer_texts(y, time, head);
    law_parts_stay_in_longer_texts(y, time, state);
    law_parts_stay_in_longer_texts(y + time, " "@, head);
    law_parts_stay_in_longer_texts(y + time, " "@, state);
    law_parts_stay_in_longer_texts(y + time + " "@, title, head);
    law_parts_stay_in_longer_texts(y + time + " "@, title, state);
}

/// A long text is cut behind its first characters and says so; a short one is not
/// touched.
pub proof fn law_cut_text_keeps_its_beginning(raw: Seq<char>, limit: nat)
    ensures
        raw.len() <= limit ==> cut_json(raw, limit) == raw,
        raw.len() > limit ==> starts_with(cut_json(raw, limit), raw.take(limit as int))
            && ends_with(cut_json(raw, limit), "...<truncated>"@) && cut_json(raw, limit).len()
            == limit + "...<truncated>"@.len(),
{
    if raw.len() > limit {
        law_parts_are_found(raw.take(limit as int), "...<truncated>"@, Seq::empty());
    }
}

/// A question names the session, the tool and the request, and how to answer it
/// either way.
pub proof fn law_question_says_how_to_answer(c: ConfirmationView, args: Seq<char>)
    ensures
        contains_sub(confirmation_text(c, args), c.session_id),
        contains_sub(confirmation_text(c, args), c.tool_name),
        contains_sub(confirmation_text(c, args), "\n/approve "@ + c.id),
        ends_with(confirmation_text(c, args), "\n/deny "@ + c.id),
        contains_sub(confirmation_text(c, args), cut_json(args, 320)),
{
    let text = confirmation_text(c, args);
    let cut = cut_json(args, 320);
    let a = "[confirm required]\nsession: "@;
    let b = "\nconfirm: "@ + c.id + "\ntool: "@;
    let d = "\nargs: "@;
    let e = "\n/approve "@ + c.id;
    let f = "\n/deny "@ + c.id;
    assert(text =~= a + c.session_id + (b + c.tool_name + d + cut + e + f));
    law_parts_are_found(a, c.session_id, b + c.tool_name + d + cut + e + f);
    assert(text =~= (a + c.session_id + b) + c.tool_name + (d + cut + e + f));
    law_parts_are_found(a + c.session_id + b, c.tool_name, d + cut + e + f);
    assert(text =~= (a + c.session_id + b + c.tool_name + d) + cut + (e + f));
    law_parts_are_found(a + c.session_id + b + c.tool_name + d, cut, e + f);
    assert(text =~= (a + c.session_id + b + c.tool_name + d + cut) + e + f);
    law_parts_are_found(a + c.session_id + b + c.tool_name + d + cut, e, f);
    assert(text =~= (a + c.session_id + b + c.tool_name + d + cut + e) + f);
    law_parts_are_found(a + c.session_id + b + c.tool_name + d + cut + e, f, Seq::empty());
}

/// An answer names the confirmation, its session and its tool, and says what was
/// decided; a refusal names who holds the session.
pub proof fn law_answers_name_the_confirmation(c: ConfirmationView, holder: Option<Seq<char>>)
    ensures
        answered_text(c, "allow_once"@) == "已"@ + "批准"@ + "确认："@ + c.id + "\nsession："@
            + c.session_id + "\ntool："@ + c.tool_name,
        answered_text(c, "reject_once"@) == "已"@ + "拒绝"@ + "确认："@ + c.id + "\nsession："@
            + c.session_id + "\ntool："@ + c.tool_name,
        no_right(c, holder) == "当前 channel 无权处理确认 "@ + c.id + "；session "@ + c.session_id
            + " 当前占用者："@ + (match holder {
            Some(h) => h,
            None => "none"@,
        }),
        no_confirmation(c.id) == "找不到待确认请求："@ + c.id,
{
    reveal_strlit("allow_once");
    reveal_strlit("reject_once");
    assert("allow_once"@.len() == 10);
    assert("reject_once"@.len() == 11);
}

/// A long list shows the first sessions, and how many there are besides.
pub proof fn law_long_list_says_how_many_are_left(
    v: Seq<MetaView>,
    active: Seq<char>,
    default_id: Seq<char>,
)
    ensures
        v.len() == 0 ==> session_list(v, active, default_id) == "暂无 session。"@,
        v.len() > 30 ==> session_list(v, active, default_id) == join_of(
            session_lines(v, active, default_id, 30).push(
                "... 还有 "@ + decimal((v.len() - 30) as nat) + " 个 session"@,
            ),
            "\n"@,
        ),
        session_lines(v, active, default_id, 0) == seq!["sessions:"@],
{
}

/// A request keeps the arguments as they are written.
pub proof fn law_request_keeps_the_arguments_as_written(
    id: Seq<char>,
    session_id: Seq<char>,
    payload: Seq<Member>,
    by: Seq<char>,
    now: Seq<char>,
)
    ensures
        member(payload, "raw_input"@) matches Some(v) ==> requested(
            id,
            session_id,
            payload,
            by,
            now,
        ).input == tree(v),
        member(payload, "raw_input"@) is None ==> requested(
            id,
            session_id,
            payload,
            by,
            now,
        ).input is Null,
{
}

} // verus!
