//! Names that sessions are stored and reported with.

use crate::json::{no_members, put_text, tree, written, Json, Jv, Tree};
use vstd::prelude::*;

verus! {

pub const STATE_IDLE: &'static str = "idle";
pub const STATE_RUNNING: &'static str = "running";
pub const STATE_WAITING_USER_CONFIRM: &'static str = "waiting_user_confirm";
pub const STATE_CANCELLING: &'static str = "cancelling";
pub const STATE_STOP: &'static str = "stop";

pub const STOP_COMPLETED: &'static str = "completed";
pub const STOP_CANCELLED: &'static str = "cancelled";
pub const STOP_MAX_TURNS: &'static str = "max_turns";

pub const MODE_ALLOW_ALL: &'static str = "allow_all";
pub const MODE_BLOCK_ALL: &'static str = "block_all";

/// The output of a tool call that the user interrupted.
pub open spec fn cancelled_output_view() -> Jv {
    Jv::Object(
        Map::<Seq<char>, Jv>::empty().insert(
            "status"@,
            Jv::Text("cancelled_by_user_interrupt"@),
        ).insert("message"@, Jv::Text("Tool call cancelled because user interrupt."@)),
    )
}

/// The output of a tool call that the user interrupted, as it is written down.
pub open spec fn cancelled_output_tree() -> Tree {
    Tree::Object(
        seq![
            ("status"@, Tree::Text("cancelled_by_user_interrupt"@)),
            ("message"@, Tree::Text("Tool call cancelled because user interrupt."@)),
        ],
    )
}

/// The output of a tool call that the user interrupted.
pub fn cancelled_tool_output() -> (r: Json)
    ensures
        r@ == cancelled_output_view(),
        tree(r) == cancelled_output_tree(),
{
    let mut m = no_members();
    put_text(&mut m, "status", "cancelled_by_user_interrupt");
    put_text(&mut m, "message", "Tool call cancelled because user interrupt.");
    proof {
        assert(written(m@) =~= seq![
            ("status"@, Tree::Text("cancelled_by_user_interrupt"@)),
            ("message"@, Tree::Text("Tool call cancelled because user interrupt."@)),
        ]);
    }
    Json::Object(m)
}

/// A call that is cancelled says so, in its value and in writing.
pub proof fn law_cancelled_call_says_so()
    ensures
        cancelled_output_view() == Jv::Object(
            map![
                "status"@ => Jv::Text("cancelled_by_user_interrupt"@),
                "message"@ => Jv::Text("Tool call cancelled because user interrupt."@),
            ],
        ),
        cancelled_output_tree() matches Tree::Object(m) && m.len() == 2 && m[0].0 == "status"@
            && m[0].1 == Tree::Text("cancelled_by_user_interrupt"@) && m[1].0 == "message"@
            && m[1].1 == Tree::Text("Tool call cancelled because user interrupt."@),
{
}

} // verus!
