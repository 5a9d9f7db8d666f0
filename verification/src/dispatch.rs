//! The connection dispatcher: interprets one decoded request against the
//! action table and the server's single piece of mutable state, and says
//! which reply to send and which command, if any, to launch.

use vstd::arithmetic::div_mod::{
    lemma_add_mod_noop_right, lemma_mod_bound, lemma_mod_self_0, lemma_small_mod,
};
use vstd::prelude::*;

use crate::cfg::Config;
use crate::msg::Message;

verus! {

/// The server's mutable state: which action is currently selected. Owned by
/// the dispatcher for the life of the process; starts at zero, never
/// persisted.
pub struct ServerState {
    /// Zero-based index into the action table.
    pub current_index: usize,
}

impl ServerState {
    /// A freshly started server selects the first action.
    pub fn new() -> (r: ServerState)
        ensures
            r.current_index == 0,
    {
        ServerState { current_index: 0 }
    }

    /// The state invariant: the selection stays inside the table.
    pub open spec fn inv(self, c: Config) -> bool {
        self.current_index < c.count()
    }
}

/// What the dispatcher decided for one connection: the reply to send back,
/// and, when the selection moved, the command to launch.
pub struct Outcome {
    /// The reply to encode and send.
    pub reply: Message,
    /// The command to hand to the shell, if the request selected an action.
    pub launch: Option<String>,
}

/// The index the server selects after one request, given `count` configured
/// actions. `None` stands for a frame whose discriminant the protocol does
/// not define. Only an in-range `SetID` and `NextID` move the selection.
pub open spec fn spec_next_index(count: nat, idx: nat, req: Option<Message>) -> nat
    recommends
        count > 0,
        idx < count,
{
    match req {
        Some(Message::SetID(i)) => if (i as nat) < count {
            i as nat
        } else {
            idx
        },
        Some(Message::NextID) => (idx + 1) % count,
        _ => idx,
    }
}

/// The index after a whole sequence of requests, first request first.
pub open spec fn spec_run(count: nat, idx: nat, reqs: Seq<Option<Message>>) -> nat
    decreases reqs.len(),
{
    if reqs.len() == 0 {
        idx
    } else {
        spec_run(count, spec_next_index(count, idx, reqs[0]), reqs.subrange(1, reqs.len() as int))
    }
}

/// Interpret one decoded request (or an unrecognized frame, `None`) against
/// the table and the current selection. Pure decision logic: the caller
/// performs the I/O around it — sends `out.reply` and launches `out.launch`.
pub fn dispatch(config: &Config, state: &mut ServerState, req: Option<Message>) -> (out: Outcome)
    requires
        config.wf(),
        old(state).inv(*config),
    ensures
        final(state).inv(*config),
        final(state).current_index == spec_next_index(
            config.count(),
            old(state).current_index as nat,
            req,
        ),
        out.reply.wf(),
        out.launch matches Some(c) ==> c@ == config.command_at(
            final(state).current_index as int,
        ),
        (out.launch is Some) <==> (req matches Some(m) && (m matches Message::NextID || (
        m matches Message::SetID(i) && (i as nat) < config.count()))),
        req matches Some(m) && !m.is_request() ==> out.reply == Message::ReErrIdiot
            && final(state).current_index == old(state).current_index,
        match req {
            None => out.reply == Message::ReErrUnkwn,
            Some(Message::GetStatus) => out.reply matches Message::ReStatus(t) && t@
                == config.title_bytes_at(old(state).current_index as int),
            Some(Message::SetID(i)) => if (i as nat) < config.count() {
                out.reply matches Message::ReStatus(t) && t@ == config.title_bytes_at(i as int)
            } else {
                out.reply == Message::ReErrNoID
            },
            Some(Message::NextID) => out.reply matches Message::ReStatus(t) && t@
                == config.title_bytes_at(final(state).current_index as int),
            Some(_) => out.reply == Message::ReErrIdiot,
        },
{
    let count = config.actions.len();
    match req {
        None => Outcome { reply: Message::ReErrUnkwn, launch: None },
        Some(Message::GetStatus) => {
            let title = config.get_action_title_bytes(state.current_index);
            Outcome { reply: Message::ReStatus(title), launch: None }
        },
        Some(Message::SetID(i)) => {
            if i as usize >= count {
                Outcome { reply: Message::ReErrNoID, launch: None }
            } else {
                state.current_index = i as usize;
                let title = config.get_action_title_bytes(state.current_index);
                let cmd = config.get_action_command(state.current_index).to_owned();
                Outcome { reply: Message::ReStatus(title), launch: Some(cmd) }
            }
        },
        Some(Message::NextID) => {
            let next = if state.current_index + 1 < count {
                state.current_index + 1
            } else {
                0
            };
            proof {
                let idx = state.current_index as int;
                if idx + 1 < count {
                    lemma_small_mod((idx + 1) as nat, count as nat);
                } else {
                    lemma_mod_self_0(count as int);
                }
            }
            state.current_index = next;
            let title = config.get_action_title_bytes(state.current_index);
            let cmd = config.get_action_command(state.current_index).to_owned();
            Outcome { reply: Message::ReStatus(title), launch: Some(cmd) }
        },
        Some(Message::ReStatus(_)) | Some(Message::ReErrNoID) | Some(Message::ReErrIdiot)
        | Some(Message::ReErrUnkwn) => Outcome { reply: Message::ReErrIdiot, launch: None },
    }
}

/// Law: the selection invariant is inductive. One step from any in-range
/// index lands in range, whatever the request.
pub proof fn lemma_step_preserves_invariant(count: nat, idx: nat, req: Option<Message>)
    requires
        count > 0,
        idx < count,
    ensures
        spec_next_index(count, idx, req) < count,
{
    match req {
        Some(Message::NextID) => {
            lemma_mod_bound((idx + 1) as int, count as int);
        },
        _ => {},
    }
}

/// Law: every state the server can reach keeps the selection inside the
/// table — from any in-range index, any sequence of requests ends in range.
pub proof fn lemma_reachable_in_range(count: nat, idx: nat, reqs: Seq<Option<Message>>)
    requires
        count > 0,
        idx < count,
    ensures
        spec_run(count, idx, reqs) < count,
    decreases reqs.len(),
{
    if reqs.len() > 0 {
        lemma_step_preserves_invariant(count, idx, reqs[0]);
        lemma_reachable_in_range(
            count,
            spec_next_index(count, idx, reqs[0]),
            reqs.subrange(1, reqs.len() as int),
        );
    }
}

/// Law: `GetStatus` is idempotent. Any number of consecutive `GetStatus`
/// requests leaves the selection exactly where it was.
pub proof fn lemma_get_status_idempotent(count: nat, idx: nat, reqs: Seq<Option<Message>>)
    requires
        forall|k: int| 0 <= k < reqs.len() ==> reqs[k] == Some(Message::GetStatus),
    ensures
        spec_run(count, idx, reqs) == idx,
    decreases reqs.len(),
{
    if reqs.len() > 0 {
        lemma_get_status_idempotent(count, idx, reqs.subrange(1, reqs.len() as int));
    }
}

/// After `n` consecutive `NextID` requests the selection stands `n` places
/// further, modulo the table size.
proof fn lemma_next_id_advances(count: nat, idx: nat, reqs: Seq<Option<Message>>)
    requires
        count > 0,
        idx < count,
        forall|k: int| 0 <= k < reqs.len() ==> reqs[k] == Some(Message::NextID),
    ensures
        spec_run(count, idx, reqs) == (idx + reqs.len()) % count,
    decreases reqs.len(),
{
    if reqs.len() == 0 {
        lemma_small_mod(idx, count);
    } else {
        let idx1 = spec_next_index(count, idx, reqs[0]);
        assert(idx1 == (idx + 1) % count);
        lemma_mod_bound((idx + 1) as int, count as int);
        lemma_next_id_advances(count, idx1, reqs.subrange(1, reqs.len() as int));
        lemma_add_mod_noop_right((reqs.len() - 1) as int, (idx + 1) as int, count as int);
    }
}

/// Law: `NextID` wraps. After exactly `count` consecutive `NextID` requests
/// the selection returns to its original value.
pub proof fn lemma_next_id_wraps(count: nat, idx: nat, reqs: Seq<Option<Message>>)
    requires
        count > 0,
        idx < count,
        reqs.len() == count,
        forall|k: int| 0 <= k < reqs.len() ==> reqs[k] == Some(Message::NextID),
    ensures
        spec_run(count, idx, reqs) == idx,
{
    lemma_next_id_advances(count, idx, reqs);
    lemma_add_mod_noop_right(idx as int, count as int, count as int);
    lemma_mod_self_0(count as int);
    lemma_small_mod(idx, count);
}

} // verus!
