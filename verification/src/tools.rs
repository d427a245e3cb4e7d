//! Which tool a call goes to, and what comes back of a batch of calls.

use crate::activity::{ActivityEvent, ToolCallUpdateEvent};
use crate::json::{
    clone_members, field, fields, json_read, json_views, lemma_json_views, lemma_json_views_push,
    lookup, no_members, opt_ref_view, opt_view, parse_json, put, put_text, read_result, text_field,
    text_field_or, Json, Jv, Member,
};
use crate::models::{AgentTools, ToolSwitch};
use crate::subagent_session::SpawnSubagentPayload;
use crate::text::{
    ascii_lower, cat2, is_blank, opt_str, opt_text, str_eq, texts, to_ascii_lower, trim, trim_of,
};
use vstd::prelude::*;

verus! {

/// What can be done with a running tool.
#[derive(Debug, Clone, Copy, PartialEq, Eq, Structural)]
pub enum Cap {
    Wait,
    Checkout,
    Send,
}

/// How a call reaches its tool.
#[derive(Debug, Clone, Copy, PartialEq, Eq, Structural)]
pub enum ToolRoute {
    ListSessions,
    Wait,
    Immediate,
    CreateSession,
    OperateSession,
}

/// The group of tools that a tool belongs to.
#[derive(Debug, Clone, Copy, PartialEq, Eq, Structural)]
pub enum ToolGroup {
    File,
    Terminal,
    Subagent,
    /// Waiting, for what runs in a terminal or a subagent.
    Wait,
}

/// A tool.
#[derive(Debug)]
pub struct ToolSpec {
    pub name: String,
    pub kind: String,
    pub route: ToolRoute,
    pub group: ToolGroup,
    pub writes_files: bool,
}

/// The tools there are; a name that none has is reported under a kind of its
/// own.
#[derive(Debug)]
pub struct ToolCatalog {
    pub tools: Vec<ToolSpec>,
    pub unknown_kind: String,
}

/// Whether a group of tools is offered.
pub open spec fn group_enabled(group: ToolGroup, tools: AgentTools) -> bool {
    match group {
        ToolGroup::File => tools.file_edit is Enable,
        ToolGroup::Terminal => tools.terminal is Enable,
        ToolGroup::Subagent => tools.subagent is Enable,
        ToolGroup::Wait => tools.terminal is Enable || tools.subagent is Enable,
    }
}

impl ToolSpec {
    /// Whether the tool is offered.
    pub fn is_enabled(&self, tools: &AgentTools) -> (r: bool)
        ensures
            r == group_enabled(self.group, *tools),
    {
        match self.group {
            ToolGroup::File => tools.file_edit_enabled(),
            ToolGroup::Terminal => tools.terminal_enabled(),
            ToolGroup::Subagent => tools.subagent_enabled(),
            ToolGroup::Wait => tools.terminal_enabled() || tools.subagent_enabled(),
        }
    }
}

/// Where the tool of a name stands, from `i` on.
pub open spec fn tool_from(tools: Seq<ToolSpec>, name: Seq<char>, i: int) -> Option<ToolSpec>
    decreases tools.len() - i,
{
    if i < 0 || i >= tools.len() {
        None
    } else if tools[i].name@ == name {
        Some(tools[i])
    } else {
        tool_from(tools, name, i + 1)
    }
}

/// The tool of a name.
pub open spec fn tool_of(catalog: ToolCatalog, name: Seq<char>) -> Option<ToolSpec> {
    tool_from(catalog.tools@, name, 0)
}

/// The kind that a tool is reported under.
pub open spec fn kind_of_tool(catalog: ToolCatalog, name: Seq<char>) -> Seq<char> {
    match tool_of(catalog, name) {
        Some(t) => t.kind@,
        None => catalog.unknown_kind@,
    }
}

/// Whether a tool of a name writes files.
pub open spec fn writes(catalog: ToolCatalog, name: Seq<char>) -> bool {
    tool_of(catalog, name) matches Some(t) && t.writes_files
}

impl ToolCatalog {
    /// The tool of a name.
    pub fn lookup_tool(&self, name: &str) -> (r: Option<&ToolSpec>)
        ensures
            match r {
                Some(t) => tool_of(*self, name@) == Some(*t),
                None => tool_of(*self, name@) is None,
            },
    {
        let mut i: usize = 0;
        while i < self.tools.len()
            invariant
                i <= self.tools@.len(),
                tool_from(self.tools@, name@, i as int) == tool_of(*self, name@),
            decreases self.tools@.len() - i,
        {
            if str_eq(self.tools[i].name.as_str(), name) {
                return Some(&self.tools[i]);
            }
            i += 1;
        }
        None
    }

    /// The kind that a tool is reported under.
    pub fn tool_kind(&self, name: &str) -> (r: &str)
        ensures
            r@ == kind_of_tool(*self, name@),
    {
        match self.lookup_tool(name) {
            Some(t) => t.kind.as_str(),
            None => self.unknown_kind.as_str(),
        }
    }

    /// Whether a tool of a name writes files.
    pub fn is_file_write_tool(&self, name: &str) -> (r: bool)
        ensures
            r == writes(*self, name@),
    {
        match self.lookup_tool(name) {
            Some(t) => t.writes_files,
            None => false,
        }
    }
}

/// The output of a tool while it is built.
#[derive(Debug)]
pub struct ToolOutput {
    fields: Vec<Member>,
}

/// The members that every output has.
pub open spec fn output_base(tool: Seq<char>, kind: Seq<char>, status: Seq<char>) -> Map<
    Seq<char>,
    Jv,
> {
    Map::<Seq<char>, Jv>::empty().insert("tool"@, Jv::Text(tool)).insert(
        "kind"@,
        Jv::Text(kind),
    ).insert("status"@, Jv::Text(status))
}

/// The output of a tool that failed.
pub open spec fn failure_view(tool: Seq<char>, kind: Seq<char>, message: Seq<char>) -> Jv {
    Jv::Object(output_base(tool, kind, "error"@).insert("error"@, Jv::Text(message)))
}

/// The output of a tool that was interrupted.
pub open spec fn cancelled_view(tool: Seq<char>, kind: Seq<char>, message: Seq<char>) -> Jv {
    Jv::Object(output_base(tool, kind, "cancelled"@).insert("error"@, Jv::Text(message)))
}

impl View for ToolOutput {
    type V = Map<Seq<char>, Jv>;

    closed spec fn view(&self) -> Map<Seq<char>, Jv> {
        fields(self.fields@)
    }
}

impl ToolOutput {
    /// An output.
    pub fn new(tool: &str, kind: &str, status: &str) -> (r: Self)
        ensures
            r@ == output_base(tool@, kind@, status@),
    {
        let mut m = no_members();
        put_text(&mut m, "tool", tool);
        put_text(&mut m, "kind", kind);
        put_text(&mut m, "status", status);
        ToolOutput { fields: m }
    }

    /// The output of a tool that is done.
    pub fn completed(tool: &str, kind: &str) -> (r: Self)
        ensures
            r@ == output_base(tool@, kind@, "completed"@),
    {
        ToolOutput::new(tool, kind, "completed")
    }

    /// The output with one more member.
    pub fn field(self, key: &str, value: Json) -> (r: Self)
        ensures
            r@ == self@.insert(key@, value@),
    {
        let mut m = self.fields;
        put(&mut m, key, value);
        ToolOutput { fields: m }
    }

    /// The output as a value.
    pub fn into_value(self) -> (r: Json)
        ensures
            r@ == Jv::Object(self@),
    {
        Json::Object(self.fields)
    }

    /// The output of a tool that failed.
    pub fn error_with_kind(tool: &str, kind: &str, message: &str) -> (r: Json)
        ensures
            r@ == failure_view(tool@, kind@, message@),
    {
        ToolOutput::new(tool, kind, "error").field("error", Json::Text(message.to_owned())).into_value()
    }

    /// The output of a tool of a catalog that failed.
    pub fn error(catalog: &ToolCatalog, tool: &str, message: &str) -> (r: Json)
        ensures
            r@ == failure_view(tool@, kind_of_tool(*catalog, tool@), message@),
    {
        ToolOutput::error_with_kind(tool, catalog.tool_kind(tool), message)
    }

    /// The output of a tool of a catalog that was interrupted.
    pub fn cancelled(catalog: &ToolCatalog, tool: &str, message: &str) -> (r: Json)
        ensures
            r@ == cancelled_view(tool@, kind_of_tool(*catalog, tool@), message@),
    {
        ToolOutput::new(tool, catalog.tool_kind(tool), "cancelled").field(
            "error",
            Json::Text(message.to_owned()),
        ).into_value()
    }
}

/// The arguments of a call: none at all stand for empty ones.
pub open spec fn arguments_of(v: Option<Jv>) -> Option<Map<Seq<char>, Jv>> {
    match v {
        None => Some(Map::empty()),
        Some(Jv::Null) => Some(Map::empty()),
        Some(Jv::Object(m)) => Some(m),
        Some(_) => None,
    }
}

/// Reads the arguments of a call.
pub fn normalize_arguments(arguments: Option<&Json>) -> (r: Result<Vec<Member>, String>)
    ensures
        match arguments_of(opt_ref_view(arguments)) {
            Some(m) => r matches Ok(v) && fields(v@) == m,
            None => r matches Err(e) && e@ == "Tool arguments must be an object."@,
        },
{
    match arguments {
        None => Ok(no_members()),
        Some(Json::Null) => Ok(no_members()),
        Some(Json::Object(m)) => Ok(clone_members(m)),
        Some(_) => Err("Tool arguments must be an object.".to_owned()),
    }
}

/// What happens to a call.
#[derive(Debug)]
pub enum ToolPlan {
    /// It does not run, and this is its output.
    Output(Json),
    /// The channel's own tool runs.
    Channel { name: String, args: Vec<Member> },
    /// A tool of the catalog runs.
    Run { id: String, name: String, route: ToolRoute, args: Vec<Member> },
}

/// What happens to a call.
#[verifier::ext_equal]
pub ghost enum PlanView {
    Output(Jv),
    Channel { name: Seq<char>, args: Map<Seq<char>, Jv> },
    Run { id: Seq<char>, name: Seq<char>, route: ToolRoute, args: Map<Seq<char>, Jv> },
}

impl View for ToolPlan {
    type V = PlanView;

    open spec fn view(&self) -> PlanView {
        match *self {
            ToolPlan::Output(v) => PlanView::Output(v@),
            ToolPlan::Channel { name, args } => PlanView::Channel {
                name: name@,
                args: fields(args@),
            },
            ToolPlan::Run { id, name, route, args } => PlanView::Run {
                id: id@,
                name: name@,
                route,
                args: fields(args@),
            },
        }
    }
}

/// What happens to a call: `closing` tells that no tool starts any more,
/// `channel_handles` that the channel has a tool of that name.
pub open spec fn planned(
    id: Seq<char>,
    name: Seq<char>,
    arguments: Option<Jv>,
    closing: bool,
    channel_handles: bool,
    catalog: ToolCatalog,
    tools: AgentTools,
) -> PlanView {
    let tool = trim_of(name);
    let kind = kind_of_tool(catalog, tool);
    if is_blank(id) {
        PlanView::Output(failure_view(tool, kind, "tool_call_id is required."@))
    } else if closing {
        PlanView::Output(failure_view(tool, kind, "Tool manager is shutting down."@))
    } else {
        match arguments_of(arguments) {
            None => PlanView::Output(
                failure_view(tool, kind, "Tool arguments must be an object."@),
            ),
            Some(args) => if channel_handles {
                PlanView::Channel { name: tool, args }
            } else {
                match tool_of(catalog, tool) {
                    None => PlanView::Output(failure_view(tool, kind, "Unknown tool: "@ + tool)),
                    Some(t) => if !group_enabled(t.group, tools) {
                        PlanView::Output(
                            failure_view(tool, kind, "Tool is disabled: "@ + tool),
                        )
                    } else {
                        PlanView::Run { id: trim_of(id), name: tool, route: t.route, args }
                    },
                }
            },
        }
    }
}

/// Decides what happens to a call.
pub fn plan_tool_call(
    tool_call_id: &str,
    name: &str,
    arguments: Option<&Json>,
    closing: bool,
    channel_handles: bool,
    catalog: &ToolCatalog,
    tools: &AgentTools,
) -> (r: ToolPlan)
    ensures
        r@ == planned(
            tool_call_id@,
            name@,
            opt_ref_view(arguments),
            closing,
            channel_handles,
            *catalog,
            *tools,
        ),
{
    let id = trim(tool_call_id);
    let tool = trim(name);
    if id.is_empty() {
        return ToolPlan::Output(ToolOutput::error(catalog, tool, "tool_call_id is required."));
    }
    if closing {
        return ToolPlan::Output(
            ToolOutput::error(catalog, tool, "Tool manager is shutting down."),
        );
    }
    let args = match normalize_arguments(arguments) {
        Ok(a) => a,
        Err(e) => return ToolPlan::Output(ToolOutput::error(catalog, tool, e.as_str())),
    };
    if channel_handles {
        return ToolPlan::Channel { name: tool.to_owned(), args };
    }
    match catalog.lookup_tool(tool) {
        None => {
            let message = cat2("Unknown tool: ", tool);
            ToolPlan::Output(ToolOutput::error(catalog, tool, message.as_str()))
        },
        Some(t) => {
            if !t.is_enabled(tools) {
                let message = cat2("Tool is disabled: ", tool);
                return ToolPlan::Output(ToolOutput::error(catalog, tool, message.as_str()));
            }
            ToolPlan::Run { id: id.to_owned(), name: tool.to_owned(), route: t.route, args }
        },
    }
}

/// A tool whose group is not offered never runs.
pub proof fn law_disabled_tool_never_runs(
    id: Seq<char>,
    name: Seq<char>,
    arguments: Option<Jv>,
    closing: bool,
    catalog: ToolCatalog,
    tools: AgentTools,
)
    requires
        tool_of(catalog, trim_of(name)) matches Some(t) && !group_enabled(t.group, tools),
    ensures
        planned(id, name, arguments, closing, false, catalog, tools) is Output,
{
}

/// The name of the tool that a request asks for.
pub open spec fn request_name(request: Jv) -> Seq<char> {
    text_field_or(request, "name"@, ""@)
}

/// How many of the first `n` requests write files.
pub open spec fn write_count(requests: Seq<Jv>, catalog: ToolCatalog, n: nat) -> nat
    decreases n,
{
    if n == 0 || n > requests.len() {
        0
    } else {
        write_count(requests, catalog, (n - 1) as nat) + (if text_field(
            requests[n - 1],
            "name"@,
        ) is Some && writes(catalog, request_name(requests[n - 1])) {
            1nat
        } else {
            0nat
        })
    }
}

/// Why several writes are refused.
pub open spec fn several_writes() -> Seq<char> {
    "Multiple file write tool calls in one assistant turn are not allowed. Combine the changes into one file_edit patch or one text_replace call."@
}

/// The output of a request that is refused because of the others: of several
/// that write files, none runs.
pub open spec fn batch_refusal(requests: Seq<Jv>, catalog: ToolCatalog, i: int) -> Option<Jv> {
    let name = request_name(requests[i]);
    if write_count(requests, catalog, requests.len()) > 1 && writes(catalog, name) {
        Some(failure_view(name, kind_of_tool(catalog, name), several_writes()))
    } else {
        None
    }
}

/// Optional values.
pub open spec fn slot_views(v: Seq<Option<Json>>) -> Seq<Option<Jv>> {
    Seq::new(v.len(), |i: int| opt_view(v[i]))
}

/// The outputs that a batch has before any tool runs.
pub open spec fn first_slots(requests: Seq<Jv>, catalog: ToolCatalog) -> Seq<Option<Jv>> {
    Seq::new(requests.len(), |i: int| batch_refusal(requests, catalog, i))
}

fn count_writes(requests: &Vec<Json>, catalog: &ToolCatalog) -> (r: usize)
    ensures
        r == write_count(json_views(requests@), *catalog, requests@.len()),
{
    let ghost all = json_views(requests@);
    proof {
        lemma_json_views(requests@);
    }
    let mut n: usize = 0;
    let mut i: usize = 0;
    while i < requests.len()
        invariant
            i <= requests@.len(),
            all == json_views(requests@),
            all.len() == requests@.len(),
            forall|k: int| 0 <= k < requests@.len() ==> #[trigger] all[k] == requests@[k]@,
            n == write_count(all, *catalog, i as nat),
            n <= i,
        decreases requests@.len() - i,
    {
        proof {
            assert(all[i as int] == requests@[i as int]@);
        }
        if let Some(name) = requests[i].get_str("name") {
            if catalog.is_file_write_tool(name) {
                n += 1;
            }
        }
        i += 1;
    }
    n
}

fn plan_batch(requests: &Vec<Json>, catalog: &ToolCatalog) -> (r: Vec<Option<Json>>)
    ensures
        slot_views(r@) == first_slots(json_views(requests@), *catalog),
{
    let ghost all = json_views(requests@);
    let ghost want = first_slots(all, *catalog);
    proof {
        lemma_json_views(requests@);
    }
    let several = count_writes(requests, catalog) > 1;
    let mut out: Vec<Option<Json>> = Vec::new();
    let mut i: usize = 0;
    proof {
        assert(slot_views(out@) =~= want.take(0));
    }
    while i < requests.len()
        invariant
            i <= requests@.len(),
            all == json_views(requests@),
            all.len() == requests@.len(),
            forall|k: int| 0 <= k < requests@.len() ==> #[trigger] all[k] == requests@[k]@,
            want == first_slots(all, *catalog),
            several == (write_count(all, *catalog, all.len()) > 1),
            slot_views(out@) == want.take(i as int),
        decreases requests@.len() - i,
    {
        proof {
            assert(all[i as int] == requests@[i as int]@);
        }
        let name = requests[i].str_or("name", "");
        let slot = if several && catalog.is_file_write_tool(name) {
            Some(
                ToolOutput::error(
                    catalog,
                    name,
                    "Multiple file write tool calls in one assistant turn are not allowed. Combine the changes into one file_edit patch or one text_replace call.",
                ),
            )
        } else {
            None
        };
        let ghost before = out@;
        out.push(slot);
        proof {
            assert(slot_views(out@) =~= slot_views(before).push(want[i as int]));
            assert(want.take(i + 1) =~= want.take(i as int).push(want[i as int]));
        }
        i += 1;
    }
    proof {
        assert(want.take(want.len() as int) =~= want);
    }
    out
}

/// The output of a slot: what came, or a note that it was interrupted or lost.
pub open spec fn slot_output(slot: Option<Jv>, name: Seq<char>, catalog: ToolCatalog, cancelled: bool) -> Jv {
    match slot {
        Some(v) => v,
        None => if cancelled {
            cancelled_view(
                name,
                kind_of_tool(catalog, name),
                "Tool call cancelled because user interrupt."@,
            )
        } else {
            failure_view(
                "unknown"@,
                "unknown"@,
                "Tool output missing due to interrupted execution."@,
            )
        },
    }
}

/// The outputs of a batch, in the order of its requests.
pub open spec fn batch_outputs(
    slots: Seq<Option<Jv>>,
    requests: Seq<Jv>,
    catalog: ToolCatalog,
    cancelled: bool,
) -> Seq<Jv> {
    Seq::new(
        slots.len(),
        |i: int| slot_output(slots[i], request_name(requests[i]), catalog, cancelled),
    )
}

fn finish_batch(
    slots: &Vec<Option<Json>>,
    requests: &Vec<Json>,
    catalog: &ToolCatalog,
    cancelled: bool,
) -> (r: Vec<Json>)
    requires
        slots@.len() == requests@.len(),
    ensures
        json_views(r@) == batch_outputs(
            slot_views(slots@),
            json_views(requests@),
            *catalog,
            cancelled,
        ),
{
    let ghost all = json_views(requests@);
    let ghost ss = slot_views(slots@);
    let ghost want = batch_outputs(ss, all, *catalog, cancelled);
    let mut out: Vec<Json> = Vec::new();
    let mut i: usize = 0;
    proof {
        lemma_json_views(requests@);
        lemma_json_views(out@);
        assert(json_views(out@) =~= want.take(0));
    }
    while i < slots.len()
        invariant
            i <= slots@.len(),
            slots@.len() == requests@.len(),
            all == json_views(requests@),
            all.len() == requests@.len(),
            forall|k: int| 0 <= k < requests@.len() ==> #[trigger] all[k] == requests@[k]@,
            ss == slot_views(slots@),
            want == batch_outputs(ss, all, *catalog, cancelled),
            json_views(out@) == want.take(i as int),
        decreases slots@.len() - i,
    {
        proof {
            assert(all[i as int] == requests@[i as int]@);
            assert(ss[i as int] == opt_view(slots@[i as int]));
        }
        let output = match &slots[i] {
            Some(v) => v.copy(),
            None => if cancelled {
                ToolOutput::cancelled(
                    catalog,
                    requests[i].str_or("name", ""),
                    "Tool call cancelled because user interrupt.",
                )
            } else {
                ToolOutput::error_with_kind(
                    "unknown",
                    "unknown",
                    "Tool output missing due to interrupted execution.",
                )
            },
        };
        proof {
            lemma_json_views_push(out@, output);
            assert(want[i as int] == output@);
            assert(want.take(i + 1) =~= want.take(i as int).push(want[i as int]));
        }
        out.push(output);
        i += 1;
    }
    proof {
        assert(want.take(want.len() as int) =~= want);
    }
    out
}

/// The requests of one answer, and the outputs that they have.
#[derive(Debug)]
pub struct ToolBatch<'a> {
    requests: &'a Vec<Json>,
    catalog: &'a ToolCatalog,
    slots: Vec<Option<Json>>,
}

/// The requests of one answer, and the outputs that they have.
#[verifier::ext_equal]
pub ghost struct BatchView {
    pub requests: Seq<Jv>,
    pub catalog: ToolCatalog,
    pub slots: Seq<Option<Jv>>,
}

impl<'a> View for ToolBatch<'a> {
    type V = BatchView;

    closed spec fn view(&self) -> BatchView {
        BatchView {
            requests: json_views(self.requests@),
            catalog: *self.catalog,
            slots: slot_views(self.slots@),
        }
    }
}

/// Whether every request has a place for its output, and those that were
/// refused before any tool ran have their refusal.
pub open spec fn batch_holds(b: BatchView) -> bool {
    &&& b.slots.len() == b.requests.len()
    &&& forall|i: int|
        0 <= i < b.slots.len() && (#[trigger] first_slots(b.requests, b.catalog)[i]) is Some
            ==> b.slots[i] == first_slots(b.requests, b.catalog)[i]
}

impl<'a> ToolBatch<'a> {
    /// Plans a batch: some requests are refused before any tool runs.
    pub fn plan(requests: &'a Vec<Json>, catalog: &'a ToolCatalog) -> (r: Self)
        ensures
            batch_holds(r@),
            r@ == (BatchView {
                requests: json_views(requests@),
                catalog: *catalog,
                slots: first_slots(json_views(requests@), *catalog),
            }),
    {
        let slots = plan_batch(requests, catalog);
        ToolBatch { requests, catalog, slots }
    }

    /// The output that a request has.
    pub fn output(&self, index: usize) -> (r: Option<&Json>)
        requires
            index < self@.slots.len(),
        ensures
            opt_ref_view(r) == self@.slots[index as int],
    {
        match &self.slots[index] {
            Some(v) => Some(v),
            None => None,
        }
    }

    /// Takes what a tool gave back for a request; a request that has an output
    /// keeps it.
    pub fn accept(&mut self, index: usize, output: Json)
        requires
            batch_holds(old(self)@),
            index < old(self)@.slots.len(),
        ensures
            batch_holds(final(self)@),
            final(self)@ == (BatchView {
                slots: if old(self)@.slots[index as int] is Some {
                    old(self)@.slots
                } else {
                    old(self)@.slots.update(index as int, Some(output@))
                },
                ..old(self)@
            }),
    {
        let ghost before = self.slots@;
        if self.slots[index].is_none() {
            self.slots.set(index, Some(output));
            proof {
                assert(slot_views(self.slots@) =~= slot_views(before).update(
                    index as int,
                    Some(output@),
                ));
            }
        }
    }

    /// Ends a batch: every request gets an output.
    pub fn finish(&self, cancelled: bool) -> (r: Vec<Json>)
        requires
            batch_holds(self@),
        ensures
            json_views(r@) == batch_outputs(
                self@.slots,
                self@.requests,
                self@.catalog,
                cancelled,
            ),
    {
        proof {
            lemma_json_views(self.requests@);
        }
        finish_batch(&self.slots, self.requests, self.catalog, cancelled)
    }
}

/// A batch answers every request: one that was refused by its refusal, one whose
/// tool gave something back by that.
pub proof fn law_batch_answers_every_request(b: BatchView, cancelled: bool, i: int)
    requires
        batch_holds(b),
        0 <= i < b.requests.len(),
    ensures
        batch_outputs(b.slots, b.requests, b.catalog, cancelled).len() == b.requests.len(),
        first_slots(b.requests, b.catalog)[i] matches Some(refusal) ==> batch_outputs(
            b.slots,
            b.requests,
            b.catalog,
            cancelled,
        )[i] == refusal,
        b.slots[i] matches Some(output) ==> batch_outputs(
            b.slots,
            b.requests,
            b.catalog,
            cancelled,
        )[i] == output,
{
}

/// Of several requests that write files none runs; all others do.
pub proof fn law_several_writes_are_refused(requests: Seq<Jv>, catalog: ToolCatalog, i: int, j: int)
    requires
        0 <= i < j < requests.len(),
        text_field(requests[i], "name"@) is Some,
        text_field(requests[j], "name"@) is Some,
        writes(catalog, request_name(requests[i])),
        writes(catalog, request_name(requests[j])),
    ensures
        forall|k: int|
            0 <= k < requests.len() ==> (#[trigger] first_slots(requests, catalog)[k] is Some
                <==> writes(catalog, request_name(requests[k]))),
{
    lemma_write_count_grows(requests, catalog, (i + 1) as nat, j as nat);
    lemma_write_count_grows(requests, catalog, (j + 1) as nat, requests.len());
    assert(write_count(requests, catalog, (i + 1) as nat) >= 1);
    assert(write_count(requests, catalog, (j + 1) as nat) >= 2);
}

proof fn lemma_write_count_grows(requests: Seq<Jv>, catalog: ToolCatalog, a: nat, b: nat)
    requires
        a <= b <= requests.len(),
    ensures
        write_count(requests, catalog, a) <= write_count(requests, catalog, b),
    decreases b,
{
    if a < b {
        lemma_write_count_grows(requests, catalog, a, (b - 1) as nat);
    }
}

/// The status under which an output is reported.
pub open spec fn reported_status(output: Jv) -> Seq<char> {
    let raw = match text_field(output, "status"@) {
        Some(s) => ascii_lower(s),
        None => ""@,
    };
    if raw == "running"@ || raw == "in_progress"@ || raw == "timeout"@ {
        "in_progress"@
    } else if raw == "failed"@ || raw == "error"@ || raw == "cancelled"@ {
        "failed"@
    } else {
        "completed"@
    }
}

/// The status under which an output is reported.
pub fn tool_status_to_update_status(output: &Json) -> (r: &'static str)
    ensures
        r@ == reported_status(output@),
{
    let raw = match output.get_str("status") {
        Some(s) => to_ascii_lower(s),
        None => "".to_owned(),
    };
    let s = raw.as_str();
    if str_eq(s, "running") || str_eq(s, "in_progress") || str_eq(s, "timeout") {
        "in_progress"
    } else if str_eq(s, "failed") || str_eq(s, "error") || str_eq(s, "cancelled") {
        "failed"
    } else {
        "completed"
    }
}

/// Reports news of a call; with a title, the call is of no special kind.
pub fn tool_update(
    tool_call_id: &str,
    status: &str,
    title: Option<&str>,
    raw_input: Option<Json>,
    raw_output: Option<Json>,
) -> (r: ActivityEvent)
    ensures
        r matches ActivityEvent::ToolCallUpdate(e) && {
            &&& e.tool_call_id@ == tool_call_id@
            &&& e.status@ == status@
            &&& opt_text(e.title) == opt_str(title)
            &&& opt_text(e.kind) == if title is Some {
                Some("other"@)
            } else {
                None
            }
            &&& e.raw_input == raw_input
            &&& e.raw_output == raw_output
            &&& e.content is None
        },
{
    let mut event = ToolCallUpdateEvent::new(tool_call_id, status);
    if let Some(t) = title {
        event.title = Some(t.to_owned());
        event.kind = Some("other".to_owned());
    }
    event.raw_input = raw_input;
    event.raw_output = raw_output;
    ActivityEvent::ToolCallUpdate(event)
}

/// How a running tool is listed that says nothing more of itself.
pub fn default_list_item(session_id: &str, done: bool) -> (r: Json)
    ensures
        r@ == Jv::Object(
            Map::<Seq<char>, Jv>::empty().insert("id"@, Jv::Text(session_id@)).insert(
                "kind"@,
                Jv::Text("tool"@),
            ).insert(
                "status"@,
                Jv::Text(
                    if done {
                        "done"@
                    } else {
                        "running"@
                    },
                ),
            ).insert("done"@, Jv::Bool(done)),
        ),
{
    let mut m = no_members();
    put_text(&mut m, "id", session_id);
    put_text(&mut m, "kind", "tool");
    put_text(
        &mut m,
        "status",
        if done {
            "done"
        } else {
            "running"
        },
    );
    put(&mut m, "done", Json::Bool(done));
    Json::Object(m)
}

/// The schemas of the tool groups, as they were read; what could not be read
/// is missing.
#[derive(Debug)]
pub struct SchemaTemplates {
    pub files: String,
    pub terminal: String,
    pub subagent: String,
    pub wait: String,
}

/// The schemas that a source holds, by what was read of it: it must be a
/// list.
pub open spec fn listed_schemas(read: Result<Jv, Seq<char>>) -> Seq<Jv> {
    match read {
        Ok(Jv::Array(items)) => items,
        _ => Seq::empty(),
    }
}

/// The schemas that the text of a source holds.
pub open spec fn source_schemas(source: Seq<char>) -> Seq<Jv> {
    if is_blank(source) {
        Seq::empty()
    } else {
        listed_schemas(json_read(trim_of(source)))
    }
}

/// The schemas of a group that is offered.
pub open spec fn group_schemas(enabled: bool, source: Seq<char>) -> Seq<Jv> {
    if enabled {
        source_schemas(source)
    } else {
        Seq::empty()
    }
}

/// The schemas that the model is offered.
pub open spec fn offered_schemas(tools: AgentTools, t: SchemaTemplates) -> Seq<Jv> {
    group_schemas(tools.file_edit is Enable, t.files@) + group_schemas(
        tools.terminal is Enable,
        t.terminal@,
    ) + group_schemas(tools.subagent is Enable, t.subagent@) + group_schemas(
        tools.terminal is Enable || tools.subagent is Enable,
        t.wait@,
    )
}

/// Adds the schemas of a source, by what was read of it; one that could not
/// be read or is no list adds none.
pub fn add_schemas(merged: &mut Vec<Json>, read: &Result<Json, String>)
    ensures
        json_views(final(merged)@) == json_views(old(merged)@) + listed_schemas(read_result(*read)),
{
    let ghost start = json_views(merged@);
    match read {
        Ok(Json::Array(items)) => {
            let ghost all = json_views(items@);
            let mut i: usize = 0;
            proof {
                lemma_json_views(items@);
                assert(start + all.take(0) =~= start);
            }
            while i < items.len()
                invariant
                    i <= items@.len(),
                    all == json_views(items@),
                    all.len() == items@.len(),
                    forall|k: int| 0 <= k < items@.len() ==> #[trigger] all[k] == items@[k]@,
                    json_views(merged@) == start + all.take(i as int),
                decreases items@.len() - i,
            {
                let item = items[i].copy();
                proof {
                    lemma_json_views_push(merged@, item);
                    assert(all[i as int] == items@[i as int]@);
                    assert((start + all.take(i as int)).push(item@) =~= start + all.take(i + 1));
                }
                merged.push(item);
                i += 1;
            }
            proof {
                assert(all.take(all.len() as int) =~= all);
            }
        },
        _ => {
            proof {
                assert(start + Seq::<Jv>::empty() =~= start);
            }
        },
    }
}

fn add_source(merged: &mut Vec<Json>, source: &str)
    ensures
        json_views(final(merged)@) == json_views(old(merged)@) + source_schemas(source@),
{
    let trimmed = trim(source);
    if trimmed.is_empty() {
        proof {
            assert(json_views(merged@) + Seq::<Jv>::empty() =~= json_views(merged@));
        }
        return;
    }
    add_schemas(merged, &parse_json(trimmed));
}

/// The schemas of the first `n` sources.
pub open spec fn merged_schemas(sources: Seq<Seq<char>>, n: nat) -> Seq<Jv>
    decreases n,
{
    if n == 0 || n > sources.len() {
        Seq::empty()
    } else {
        merged_schemas(sources, (n - 1) as nat) + source_schemas(sources[n - 1])
    }
}

/// The schemas of all sources; a source that cannot be read or is no list
/// holds none.
pub fn tool_schemas_from_templates(sources: &Vec<String>) -> (r: Vec<Json>)
    ensures
        json_views(r@) == merged_schemas(texts(sources@), sources@.len()),
{
    let mut merged: Vec<Json> = Vec::new();
    let mut i: usize = 0;
    proof {
        lemma_json_views(merged@);
        assert(json_views(merged@) =~= Seq::empty());
    }
    while i < sources.len()
        invariant
            i <= sources@.len(),
            json_views(merged@) == merged_schemas(texts(sources@), i as nat),
        decreases sources@.len() - i,
    {
        add_source(&mut merged, sources[i].as_str());
        i += 1;
    }
    merged
}

/// The schemas that the model is offered.
pub fn tool_schemas(tools: &AgentTools, templates: &SchemaTemplates) -> (r: Vec<Json>)
    ensures
        json_views(r@) == offered_schemas(*tools, *templates),
{
    let mut merged: Vec<Json> = Vec::new();
    proof {
        lemma_json_views(merged@);
        assert(json_views(merged@) =~= Seq::empty());
    }
    if tools.file_edit_enabled() {
        add_source(&mut merged, templates.files.as_str());
    }
    proof {
        assert(json_views(merged@) =~= group_schemas(tools.file_edit is Enable, templates.files@));
    }
    let ghost a = json_views(merged@);
    if tools.terminal_enabled() {
        add_source(&mut merged, templates.terminal.as_str());
    }
    proof {
        assert(json_views(merged@) =~= a + group_schemas(
            tools.terminal is Enable,
            templates.terminal@,
        ));
    }
    let ghost b = json_views(merged@);
    if tools.subagent_enabled() {
        add_source(&mut merged, templates.subagent.as_str());
    }
    proof {
        assert(json_views(merged@) =~= b + group_schemas(
            tools.subagent is Enable,
            templates.subagent@,
        ));
    }
    let ghost c = json_views(merged@);
    if tools.terminal_enabled() || tools.subagent_enabled() {
        add_source(&mut merged, templates.wait.as_str());
    }
    proof {
        assert(json_views(merged@) =~= c + group_schemas(
            tools.terminal is Enable || tools.subagent is Enable,
            templates.wait@,
        ));
    }
    merged
}

/// The tools that a subagent has: those of its parent that neither edit files
/// nor spawn subagents.
pub open spec fn subagent_tools_of(tools: AgentTools) -> AgentTools {
    AgentTools {
        mcp: tools.mcp,
        file_edit: ToolSwitch::Disable,
        terminal: tools.terminal,
        subagent: ToolSwitch::Disable,
    }
}

/// The tools that a subagent has.
pub fn subagent_tools(tools: &AgentTools) -> (r: AgentTools)
    ensures
        r == subagent_tools_of(*tools),
{
    AgentTools {
        mcp: tools.mcp,
        file_edit: ToolSwitch::Disable,
        terminal: tools.terminal,
        subagent: ToolSwitch::Disable,
    }
}

/// The schemas that a subagent is offered.
pub fn subagent_tool_schemas(tools: &AgentTools, templates: &SchemaTemplates) -> (r: Vec<Json>)
    ensures
        json_views(r@) == offered_schemas(subagent_tools_of(*tools), *templates),
{
    tool_schemas(&subagent_tools(tools), templates)
}

/// A subagent is never offered to edit files or to spawn subagents, and
/// nothing that its parent is not offered.
pub proof fn law_subagent_gets_no_more_tools(tools: AgentTools, group: ToolGroup)
    ensures
        group_enabled(group, subagent_tools_of(tools)) ==> group_enabled(group, tools),
        !group_enabled(ToolGroup::File, subagent_tools_of(tools)),
        !group_enabled(ToolGroup::Subagent, subagent_tools_of(tools)),
{
}

/// What a terminal is asked to run.
#[derive(Debug)]
pub struct TerminalCreateRequest {
    pub terminal_name: Option<String>,
    pub command: String,
    pub env: Option<Vec<EnvVar>>,
}

/// A variable of the environment.
#[derive(Debug)]
pub struct EnvVar {
    pub name: String,
    pub value: String,
}

/// The variables among the first `n` members.
pub open spec fn env_map(v: Seq<EnvVar>, n: nat) -> Map<Seq<char>, Seq<char>>
    decreases n,
{
    if n == 0 || n > v.len() {
        Map::empty()
    } else {
        env_map(v, (n - 1) as nat).insert(v[n - 1].name@, v[n - 1].value@)
    }
}

/// The variables that an object sets: what is no text is empty.
pub open spec fn env_of(m: Map<Seq<char>, Jv>) -> Map<Seq<char>, Seq<char>> {
    Map::new(
        |k: Seq<char>| m.dom().contains(k),
        |k: Seq<char>|
            match m[k] {
                Jv::Text(s) => s,
                _ => ""@,
            },
    )
}

proof fn lemma_env_prefix(a: Seq<EnvVar>, b: Seq<EnvVar>, n: nat)
    requires
        n <= a.len(),
        n <= b.len(),
        forall|i: int| 0 <= i < n ==> a[i] == b[i],
    ensures
        env_map(a, n) == env_map(b, n),
    decreases n,
{
    if n > 0 {
        lemma_env_prefix(a, b, (n - 1) as nat);
    }
}

/// The variables that an object sets.
pub fn read_env(members: &Vec<Member>) -> (r: Vec<EnvVar>)
    ensures
        env_map(r@, r@.len()) == env_of(fields(members@)),
{
    let mut out: Vec<EnvVar> = Vec::new();
    let mut i: usize = 0;
    proof {
        assert(env_map(out@, 0) =~= env_of(crate::json::member_map(members@, 0)));
    }
    while i < members.len()
        invariant
            i <= members@.len(),
            env_map(out@, out@.len()) == env_of(crate::json::member_map(members@, i as nat)),
        decreases members@.len() - i,
    {
        let value = match members[i].value.as_str() {
            Some(s) => s.to_owned(),
            None => "".to_owned(),
        };
        let var = EnvVar { name: members[i].key.clone(), value };
        let ghost before = out@;
        out.push(var);
        proof {
            lemma_env_prefix(before, out@, before.len());
            let m = crate::json::member_map(members@, i as nat);
            assert(crate::json::member_map(members@, (i + 1) as nat) == m.insert(
                members@[i as int].key@,
                members@[i as int].value@,
            ));
            assert(env_map(out@, out@.len()) =~= env_of(
                crate::json::member_map(members@, (i + 1) as nat),
            ));
        }
        i += 1;
    }
    out
}

/// Whether a request asks for what arguments say.
pub open spec fn reads_args(t: TerminalCreateRequest, m: Map<Seq<char>, Jv>) -> bool {
    let v = Jv::Object(m);
    &&& opt_text(t.terminal_name) == text_field(v, "terminal_name"@)
    &&& t.command@ == text_field_or(v, "command"@, ""@)
    &&& match field(v, "env"@) {
        Some(Jv::Object(e)) => t.env matches Some(list) && env_map(list@, list@.len()) == env_of(e),
        _ => t.env is None,
    }
}

impl TerminalCreateRequest {
    /// Reads what a terminal is asked to run.
    pub fn from_args(args: &Vec<Member>) -> (r: Self)
        ensures
            reads_args(r, fields(args@)),
    {
        let terminal_name = match crate::json::lookup(args, "terminal_name") {
            Some(v) => match v.as_str() {
                Some(s) => Some(s.to_owned()),
                None => None,
            },
            None => None,
        };
        let command = match crate::json::lookup(args, "command") {
            Some(v) => match v.as_str() {
                Some(s) => s.to_owned(),
                None => "".to_owned(),
            },
            None => "".to_owned(),
        };
        let env = match crate::json::lookup(args, "env") {
            Some(Json::Object(m)) => Some(read_env(m)),
            _ => None,
        };
        TerminalCreateRequest { terminal_name, command, env }
    }
}

/// What is asked to run on its own.
#[derive(Debug)]
pub enum SessionCreateRequest {
    Terminal(TerminalCreateRequest),
    Subagent(SpawnSubagentPayload),
}

impl SessionCreateRequest {
    /// Reads what is asked to run on its own. `payload` is what the arguments
    /// say of a subagent; `has_context` tells that there is a session to
    /// report to.
    pub fn parse(
        name: &str,
        args: &Vec<Member>,
        has_context: bool,
        payload: Result<SpawnSubagentPayload, String>,
    ) -> (r: Result<Self, String>)
        ensures
            if name@ == "terminal_exec"@ {
                r matches Ok(SessionCreateRequest::Terminal(t)) && reads_args(t, fields(args@))
            } else if name@ == "spawn_subagent"@ {
                if !has_context {
                    r matches Err(e) && e@ == "spawn_subagent requires tool execution context."@
                } else {
                    match payload {
                        Err(p) => r matches Err(e) && e@ == p@,
                        Ok(p) => if is_blank(p.task@) {
                            r matches Err(e) && e@ == "subagent task cannot be empty"@
                        } else {
                            r matches Ok(SessionCreateRequest::Subagent(q)) && q.subagent_name
                                == p.subagent_name && q.task@ == trim_of(p.task@) && opt_text(
                                q.policy,
                            ) == (match p.policy {
                                Some(s) => if is_blank(s@) {
                                    None
                                } else {
                                    Some(trim_of(s@))
                                },
                                None => None,
                            })
                        },
                    }
                }
            } else {
                r matches Err(e) && e@ == "Unknown tool: "@ + name@
            },
    {
        proof {
            reveal_strlit("terminal_exec");
            reveal_strlit("spawn_subagent");
            assert("terminal_exec"@.len() == 13);
            assert("spawn_subagent"@.len() == 14);
        }
        if str_eq(name, "terminal_exec") {
            return Ok(SessionCreateRequest::Terminal(TerminalCreateRequest::from_args(args)));
        }
        if str_eq(name, "spawn_subagent") {
            if !has_context {
                return Err("spawn_subagent requires tool execution context.".to_owned());
            }
            return match payload {
                Err(e) => Err(e),
                Ok(p) => match p.checked() {
                    Ok(q) => Ok(SessionCreateRequest::Subagent(q)),
                    Err(e) => Err(e),
                },
            };
        }
        Err(cat2("Unknown tool: ", name))
    }

    /// What runs.
    pub fn kind(&self) -> (r: &'static str)
        ensures
            r@ == if self is Terminal {
                "terminal"@
            } else {
                "subagent"@
            },
    {
        match self {
            SessionCreateRequest::Terminal(_) => "terminal",
            SessionCreateRequest::Subagent(_) => "subagent",
        }
    }

    /// The name that is asked for.
    pub fn requested_name(&self) -> (r: Option<&str>)
        ensures
            opt_str(r) == match *self {
                SessionCreateRequest::Terminal(t) => opt_text(t.terminal_name),
                SessionCreateRequest::Subagent(p) => opt_text(p.subagent_name),
            },
    {
        let name = match self {
            SessionCreateRequest::Terminal(t) => &t.terminal_name,
            SessionCreateRequest::Subagent(p) => &p.subagent_name,
        };
        match name {
            Some(s) => Some(s.as_str()),
            None => None,
        }
    }
}

/// The patch that a call to edit files carries, under either of two names.
pub open spec fn patch_of(args: Jv) -> Seq<char> {
    let patch = text_field_or(args, "patch"@, ""@);
    if patch.len() > 0 {
        patch
    } else {
        text_field_or(args, "patchText"@, ""@)
    }
}

/// The patch that a call to edit files carries.
pub fn patch_argument(args: &Vec<Member>) -> (r: &str)
    ensures
        r@ == patch_of(Jv::Object(fields(args@))),
{
    if let Some(v) = lookup(args, "patch") {
        if let Some(s) = v.as_str() {
            if !s.is_empty() {
                return s;
            }
        }
    }
    proof {
        reveal_strlit("");
    }
    match lookup(args, "patchText") {
        Some(v) => match v.as_str() {
            Some(s) => s,
            None => "",
        },
        None => "",
    }
}

proof fn lemma_first_tool(tools: Seq<ToolSpec>, name: Seq<char>, i: int, k: int)
    requires
        0 <= i <= k < tools.len(),
        tools[k].name@ == name,
        forall|j: int| i <= j < k ==> (#[trigger] tools[j]).name@ != name,
    ensures
        tool_from(tools, name, i) == Some(tools[k]),
    decreases k - i,
{
    if i < k {
        assert(tools[i].name@ != name);
        lemma_first_tool(tools, name, i + 1, k);
    }
}

proof fn lemma_no_tool(tools: Seq<ToolSpec>, name: Seq<char>, i: int)
    requires
        0 <= i,
        forall|j: int| 0 <= j < tools.len() ==> (#[trigger] tools[j]).name@ != name,
    ensures
        tool_from(tools, name, i) is None,
    decreases tools.len() - i,
{
    if i < tools.len() {
        assert(tools[i].name@ != name);
        lemma_no_tool(tools, name, i + 1);
    }
}

/// Whether a switch is on for the tools of a group; waiting goes with what runs.
pub open spec fn is_offered(group: ToolGroup, tools: AgentTools) -> bool {
    ||| group is File && tools.file_edit is Enable
    ||| group is Terminal && tools.terminal is Enable
    ||| group is Subagent && tools.subagent is Enable
    ||| group is Wait && (tools.terminal is Enable || tools.subagent is Enable)
}

/// Whether an output tells that a tool failed, and why.
pub open spec fn tells_failure(v: PlanView, tool: Seq<char>, message: Seq<char>) -> bool {
    v matches PlanView::Output(Jv::Object(m)) && m == m.insert("tool"@, Jv::Text(tool)).insert(
        "status"@,
        Jv::Text("error"@),
    ).insert("error"@, Jv::Text(message))
}

proof fn lemma_failure(tool: Seq<char>, kind: Seq<char>, message: Seq<char>)
    ensures
        tells_failure(PlanView::Output(failure_view(tool, kind, message)), tool, message),
{
    let m = failure_view(tool, kind, message)->Object_0;
    reveal_strlit("tool");
    reveal_strlit("kind");
    reveal_strlit("status");
    reveal_strlit("error");
    assert("tool"@[0] == 't' && "kind"@[0] == 'k' && "status"@[0] == 's' && "error"@[0] == 'e');
    assert(m =~= m.insert("tool"@, Jv::Text(tool)).insert("status"@, Jv::Text("error"@)).insert(
        "error"@,
        Jv::Text(message),
    ));
}

/// A call goes to the tool of its name with its own arguments, on the route of that
/// tool, if the tool is there and offered; else it fails and says why. No arguments
/// are the empty ones.
pub proof fn law_call_goes_to_its_tool(
    id: Seq<char>,
    name: Seq<char>,
    args: Map<Seq<char>, Jv>,
    catalog: ToolCatalog,
    tools: AgentTools,
    k: int,
)
    requires
        !is_blank(id),
    ensures
        ({
            let tool = trim_of(name);
            let known = catalog.tools@;
            let plan = planned(id, name, Some(Jv::Object(args)), false, false, catalog, tools);
            let here = 0 <= k < known.len() && known[k].name@ == tool && (forall|j: int|
                0 <= j < k ==> (#[trigger] known[j]).name@ != tool);
            &&& here && is_offered(known[k].group, tools) ==> plan == (PlanView::Run {
                id: trim_of(id),
                name: tool,
                route: known[k].route,
                args,
            })
            &&& here && !is_offered(known[k].group, tools) ==> tells_failure(
                plan,
                tool,
                "Tool is disabled: "@ + tool,
            )
            &&& (forall|j: int| 0 <= j < known.len() ==> (#[trigger] known[j]).name@ != tool)
                ==> tells_failure(plan, tool, "Unknown tool: "@ + tool)
            &&& planned(id, name, None, false, false, catalog, tools) == planned(
                id,
                name,
                Some(Jv::Object(Map::empty())),
                false,
                false,
                catalog,
                tools,
            )
            &&& planned(id, name, Some(Jv::Object(args)), false, true, catalog, tools) == (
            PlanView::Channel { name: tool, args })
        }),
{
    let tool = trim_of(name);
    let known = catalog.tools@;
    let kind = kind_of_tool(catalog, tool);
    lemma_failure(tool, kind, "Tool is disabled: "@ + tool);
    lemma_failure(tool, kind, "Unknown tool: "@ + tool);
    if 0 <= k < known.len() && known[k].name@ == tool && (forall|j: int|
        0 <= j < k ==> (#[trigger] known[j]).name@ != tool) {
        lemma_first_tool(known, tool, 0, k);
    }
    if forall|j: int| 0 <= j < known.len() ==> (#[trigger] known[j]).name@ != tool {
        lemma_no_tool(known, tool, 0);
    }
}

/// A call without an id, one whose arguments are no object, and any call while the
/// tools shut down fail, and nothing runs.
pub proof fn law_broken_calls_fail(
    id: Seq<char>,
    name: Seq<char>,
    arguments: Jv,
    channel: bool,
    closing: bool,
    catalog: ToolCatalog,
    tools: AgentTools,
)
    requires
        is_blank(id) || closing || !(arguments is Object || arguments is Null),
    ensures
        planned(id, name, Some(arguments), closing, channel, catalog, tools) is Output,
        is_blank(id) ==> tells_failure(
            planned(id, name, Some(arguments), closing, channel, catalog, tools),
            trim_of(name),
            "tool_call_id is required."@,
        ),
{
    lemma_failure(
        trim_of(name),
        kind_of_tool(catalog, trim_of(name)),
        "tool_call_id is required."@,
    );
}

proof fn lemma_no_writes(requests: Seq<Jv>, catalog: ToolCatalog, n: nat, only: int)
    requires
        n <= requests.len(),
        forall|i: int|
            0 <= i < requests.len() && i != only ==> !writes(
                catalog,
                request_name(#[trigger] requests[i]),
            ),
    ensures
        write_count(requests, catalog, n) <= (if 0 <= only < n { 1nat } else { 0nat }),
    decreases n,
{
    if n > 0 {
        lemma_no_writes(requests, catalog, (n - 1) as nat, only);
        if n - 1 != only {
            assert(!writes(catalog, request_name(requests[n - 1])));
        }
    }
}

/// Where at most one request writes files, none is refused; a request that writes
/// nothing is never refused.
pub proof fn law_single_write_is_not_refused(
    requests: Seq<Jv>,
    catalog: ToolCatalog,
    only: int,
    i: int,
)
    requires
        0 <= i < requests.len(),
        !writes(catalog, request_name(requests[i])) || (forall|k: int|
            0 <= k < requests.len() && k != only ==> !writes(
                catalog,
                request_name(#[trigger] requests[k]),
            )),
    ensures
        first_slots(requests, catalog).len() == requests.len(),
        first_slots(requests, catalog)[i] is None,
{
    if writes(catalog, request_name(requests[i])) {
        lemma_no_writes(requests, catalog, requests.len(), only);
    }
}

/// A tool writes files if its entry says so; an unknown tool writes none.
pub proof fn law_entry_tells_what_is_written(catalog: ToolCatalog, name: Seq<char>, k: int)
    ensures
        0 <= k < catalog.tools@.len() && catalog.tools@[k].name@ == name && (forall|j: int|
            0 <= j < k ==> (#[trigger] catalog.tools@[j]).name@ != name) ==> {
            &&& writes(catalog, name) == catalog.tools@[k].writes_files
            &&& kind_of_tool(catalog, name) == catalog.tools@[k].kind@
        },
        (forall|j: int| 0 <= j < catalog.tools@.len() ==> (#[trigger] catalog.tools@[j]).name@ != name)
            ==> !writes(catalog, name) && kind_of_tool(catalog, name) == catalog.unknown_kind@,
{
    if 0 <= k < catalog.tools@.len() && catalog.tools@[k].name@ == name && (forall|j: int|
        0 <= j < k ==> (#[trigger] catalog.tools@[j]).name@ != name) {
        lemma_first_tool(catalog.tools@, name, 0, k);
    }
    if forall|j: int| 0 <= j < catalog.tools@.len() ==> (#[trigger] catalog.tools@[j]).name@ != name {
        lemma_no_tool(catalog.tools@, name, 0);
    }
}

/// A request that got no output is answered all the same: as cancelled where the
/// user interrupted, as lost elsewhere.
pub proof fn law_missing_output_is_told(name: Seq<char>, catalog: ToolCatalog, output: Jv)
    ensures
        slot_output(Some(output), name, catalog, true) == output,
        slot_output(Some(output), name, catalog, false) == output,
        field(slot_output(None, name, catalog, true), "status"@) == Some(Jv::Text("cancelled"@)),
        field(slot_output(None, name, catalog, true), "tool"@) == Some(Jv::Text(name)),
        field(slot_output(None, name, catalog, false), "status"@) == Some(Jv::Text("error"@)),
{
    reveal_strlit("tool");
    reveal_strlit("kind");
    reveal_strlit("status");
    reveal_strlit("error");
    assert("tool"@[0] == 't' && "kind"@[0] == 'k' && "status"@[0] == 's' && "error"@[0] == 'e');
}

/// An output is reported as in progress while its tool runs, as failed where it
/// failed or was cancelled, and as completed elsewhere; capital letters do not
/// count.
pub proof fn law_outputs_are_reported_by_status(output: Jv, status: Seq<char>)
    requires
        field(output, "status"@) == Some(Jv::Text(status)),
    ensures
        reported_status(output) == "in_progress"@ <==> ascii_lower(status) == "running"@
            || ascii_lower(status) == "in_progress"@ || ascii_lower(status) == "timeout"@,
        reported_status(output) == "failed"@ <==> ascii_lower(status) == "failed"@ || ascii_lower(
            status,
        ) == "error"@ || ascii_lower(status) == "cancelled"@,
        reported_status(output) == "in_progress"@ || reported_status(output) == "failed"@
            || reported_status(output) == "completed"@,
{
    reveal_strlit("running");
    reveal_strlit("in_progress");
    reveal_strlit("timeout");
    reveal_strlit("failed");
    reveal_strlit("error");
    reveal_strlit("cancelled");
    reveal_strlit("completed");
    assert("running"@[0] == 'r' && "in_progress"@[0] == 'i' && "timeout"@[0] == 't');
    assert("failed"@[0] == 'f' && "error"@[0] == 'e' && "cancelled"@[0] == 'c');
    assert("cancelled"@[1] == 'a' && "completed"@[1] == 'o' && "completed"@[0] == 'c');
}

/// The model is offered the tools of each group that is on, in the order of the
/// groups, and no others.
pub proof fn law_offered_tools_are_those_of_the_groups(
    tools: AgentTools,
    t: SchemaTemplates,
    files: Seq<Jv>,
    terminal: Seq<Jv>,
    subagent: Seq<Jv>,
    wait: Seq<Jv>,
)
    requires
        !is_blank(t.files@) && !is_blank(t.terminal@) && !is_blank(t.subagent@) && !is_blank(t.wait@),
        json_read(trim_of(t.files@)) == Ok::<Jv, Seq<char>>(Jv::Array(files)),
        json_read(trim_of(t.terminal@)) == Ok::<Jv, Seq<char>>(Jv::Array(terminal)),
        json_read(trim_of(t.subagent@)) == Ok::<Jv, Seq<char>>(Jv::Array(subagent)),
        json_read(trim_of(t.wait@)) == Ok::<Jv, Seq<char>>(Jv::Array(wait)),
    ensures
        ({
            let none = Seq::<Jv>::empty();
            let some_run = tools.terminal is Enable || tools.subagent is Enable;
            offered_schemas(tools, t) == (if tools.file_edit is Enable { files } else { none }) + (
            if tools.terminal is Enable { terminal } else { none }) + (if tools.subagent is Enable {
                subagent
            } else {
                none
            }) + (if some_run { wait } else { none })
        }),
{
}

/// A subagent has the terminal and the servers of its parent.
pub proof fn law_subagent_keeps_what_it_may_have(tools: AgentTools)
    ensures
        subagent_tools_of(tools).terminal == tools.terminal,
        subagent_tools_of(tools).mcp == tools.mcp,
{
}

/// A patch is taken from its argument, or from the one that stands in for it.
pub proof fn law_patch_argument(args: Jv, patch: Seq<char>, other: Seq<char>)
    requires
        field(args, "patchText"@) == Some(Jv::Text(other)),
    ensures
        field(args, "patch"@) == Some(Jv::Text(patch)) && patch.len() > 0 ==> patch_of(args)
            == patch,
        field(args, "patch"@) is None || field(args, "patch"@) == Some(Jv::Text(Seq::empty()))
            ==> patch_of(args) == other,
{
    reveal_strlit("");
    assert(""@ =~= Seq::empty());
}

/// The schemas of several sources follow each other in the order of the sources.
pub proof fn law_sources_follow_each_other(a: Seq<Seq<char>>, b: Seq<Seq<char>>, n: nat)
    requires
        n <= b.len(),
    ensures
        merged_schemas(a + b, a.len() + n) == merged_schemas(a, a.len()) + merged_schemas(b, n),
        n == 1 ==> merged_schemas(b, 1) == source_schemas(b[0]),
    decreases n,
{
    if n == 0 {
        lemma_merged_prefix(a, b, a.len());
        assert(merged_schemas(a, a.len()) + merged_schemas(b, 0) =~= merged_schemas(a, a.len()));
    } else {
        law_sources_follow_each_other(a, b, (n - 1) as nat);
        assert((a + b)[a.len() + n - 1] == b[n - 1]);
        assert(merged_schemas(a, a.len()) + merged_schemas(b, (n - 1) as nat) + source_schemas(
            b[n - 1],
        ) =~= merged_schemas(a, a.len()) + merged_schemas(b, n));
        if n == 1 {
            assert(merged_schemas(b, 0) =~= Seq::empty());
            assert(merged_schemas(b, 1) =~= source_schemas(b[0]));
        }
    }
}

proof fn lemma_merged_prefix(a: Seq<Seq<char>>, b: Seq<Seq<char>>, n: nat)
    requires
        n <= a.len(),
    ensures
        merged_schemas(a + b, n) == merged_schemas(a, n),
    decreases n,
{
    if n > 0 {
        lemma_merged_prefix(a, b, (n - 1) as nat);
        assert((a + b)[n - 1] == a[n - 1]);
    }
}

/// A terminal is opened with the name, the command and the environment that were asked
/// for.
pub proof fn law_terminal_is_opened_as_asked(t: TerminalCreateRequest, m: Map<Seq<char>, Jv>)
    requires
        reads_args(t, m),
    ensures
        opt_text(t.terminal_name) == text_field(Jv::Object(m), "terminal_name"@),
        text_field(Jv::Object(m), "command"@) matches Some(c) ==> t.command@ == c,
        field(Jv::Object(m), "env"@) is None ==> t.env is None,
        field(Jv::Object(m), "env"@) matches Some(Jv::Object(e)) ==> (t.env matches Some(list)
            && env_map(list@, list@.len()) == env_of(e)),
{
}

/// An environment holds every name with its text, the last where a name comes twice.
pub proof fn law_environment_holds_its_names(
    v: Seq<EnvVar>,
    e: EnvVar,
    m: Map<Seq<char>, Jv>,
    k: Seq<char>,
)
    ensures
        env_map(v.push(e), v.len() + 1) == env_map(v, v.len()).insert(e.name@, e.value@),
        m.dom().contains(k) <==> env_of(m).dom().contains(k),
        m.dom().contains(k) ==> (m[k] matches Jv::Text(s) ==> env_of(m)[k] == s),
{
    lemma_env_prefix(v, v.push(e), v.len());
    assert(v.push(e)[v.len() as int] == e);
}

} // verus!
