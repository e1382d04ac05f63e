//! The transport layer's decisions: what a live connection pushes, which
//! error frame an inbound message earns, and when a silent connection is
//! closed. The socket itself — the duplex stream, timers, serialization —
//! lives outside the library and only performs what these functions decide.

use vstd::prelude::*;

use crate::chat_sessions::ChatSession;
use crate::chat_workflow_items::ChatWorkflowItem;
use crate::chat_workflow_responses::{item_responses, ChatWorkflowResponse};
use crate::error::DatabaseError;
use crate::store::Store;

verus! {

/// How often, in seconds, the server pings a connection.
pub const HEARTBEAT_INTERVAL_SECONDS: i64 = 5;

/// How long, in seconds, a connection may stay silent before it is closed.
pub const CLIENT_TIMEOUT_SECONDS: i64 = 30;

/// The state of one live connection: which session it serves and when the
/// peer was last heard from.
pub struct Connection {
    pub chat_session_id: u64,
    pub last_heartbeat: i64,
}

impl Connection {
    /// A connection opened at `now` for the session.
    pub fn new(chat_session_id: u64, now: i64) -> (r: Connection)
        ensures
            r.chat_session_id == chat_session_id,
            r.last_heartbeat == now,
    {
        Connection { chat_session_id, last_heartbeat: now }
    }

    /// Records activity from the peer.
    pub fn heard_from(&mut self, now: i64)
        ensures
            final(self).chat_session_id == old(self).chat_session_id,
            final(self).last_heartbeat == now,
    {
        self.last_heartbeat = now;
    }

    /// Whether the silence has outlasted the client timeout, so the
    /// connection must be closed.
    pub fn should_close(&self, now: i64) -> (r: bool)
        requires
            self.last_heartbeat <= i64::MAX - CLIENT_TIMEOUT_SECONDS,
        ensures
            r == (now > self.last_heartbeat + CLIENT_TIMEOUT_SECONDS),
    {
        now > self.last_heartbeat + CLIENT_TIMEOUT_SECONDS
    }
}

/// An inbound message once parsed: the chosen response, the raw input, or
/// neither.
#[derive(Clone, Debug, PartialEq, Eq)]
pub struct ChatWebsocketResponse {
    pub chat_workflow_response_id: Option<u64>,
    pub input: Option<String>,
}

/// What a connection pushes to its client: the current item and its
/// responses in rank order.
#[derive(Debug, PartialEq, Eq)]
pub struct ChatWebsocketMessage {
    pub chat_workflow_item: ChatWorkflowItem,
    pub responses: Vec<ChatWorkflowResponse>,
}

/// What handling one inbound frame decided: the session advanced and the
/// next prompt should be pushed; one of the error frames is owed; or the
/// transition failed and is only logged.
#[derive(Debug, PartialEq, Eq)]
pub enum ChatSocketOutcome {
    Advanced,
    Unparsable,
    NoCurrentSession,
    NoCurrentItem,
    Failed(DatabaseError),
}

impl ChatSocketOutcome {
    /// The error frame text owed to the client, if any.
    pub fn error_frame(&self) -> (r: Option<&'static str>)
        ensures
            match *self {
                ChatSocketOutcome::Unparsable => r matches Some(m) && m@
                    == "unable to parse chat WebSocket response"@,
                ChatSocketOutcome::NoCurrentSession => r matches Some(m) && m@
                    == "no current chat session"@,
                ChatSocketOutcome::NoCurrentItem => r matches Some(m) && m@
                    == "no current chat workflow item"@,
                _ => r is None,
            },
    {
        match self {
            ChatSocketOutcome::Unparsable => Some("unable to parse chat WebSocket response"),
            ChatSocketOutcome::NoCurrentSession => Some("no current chat session"),
            ChatSocketOutcome::NoCurrentItem => Some("no current chat workflow item"),
            _ => None,
        }
    }
}

/// The prompt a connection owes its client: the session's current item with
/// its responses, or nothing at a terminal position or when the session or
/// item cannot be loaded.
pub fn next_message(chat_session_id: u64, store: &Store) -> (r: Option<ChatWebsocketMessage>)
    requires
        store.wf(),
    ensures
        match r {
            Some(m) => {
                &&& store.has_session(chat_session_id)
                &&& store.spec_session(chat_session_id).chat_workflow_item_id matches Some(n)
                    && store.has_item(n) && m.chat_workflow_item == store.spec_item(n)
                    && m.responses@ == item_responses(*store, n)
            },
            None => {
                ||| !store.has_session(chat_session_id)
                ||| store.spec_session(chat_session_id).chat_workflow_item_id is None
                ||| (store.spec_session(chat_session_id).chat_workflow_item_id matches Some(n)
                    && !store.has_item(n))
            },
        },
{
    let session = match ChatSession::find(chat_session_id, store) {
        Ok(s) => s,
        Err(_) => {
            return None;
        },
    };
    match session.next_chat_workflow_item(store) {
        Ok(Some(item)) => {
            let responses = match ChatWorkflowResponse::find_for_chat_workflow_item(
                &item,
                store,
            ) {
                Ok(v) => v,
                Err(_) => {
                    proof {
                        assert(false);
                    }
                    return None;
                },
            };
            Some(ChatWebsocketMessage { chat_workflow_item: item, responses })
        },
        Ok(None) => None,
        Err(_) => None,
    }
}

/// What the handler passes to the processor as the chosen response: the
/// stored response of the id the frame names, if any.
pub open spec fn resolved_given(store: Store, rid: Option<u64>) -> Option<ChatWorkflowResponse> {
    match rid {
        Some(id) => if store.has_response(id) {
            Some(store.spec_response(id))
        } else {
            None
        },
        None => None,
    }
}

/// The obligation of a handled frame once the session and its current item
/// resolve: the store moves, and the outcome reports, exactly as one run of
/// [`crate::chat_sessions::ChatSession::process_response`] on that item,
/// with the chosen response resolved from the frame's id and the frame's
/// raw input handed through.
pub open spec fn spec_receive_text_transition(
    st0: Store,
    stf: Store,
    chat_session_id: u64,
    msg: ChatWebsocketResponse,
    now: i64,
    r: ChatSocketOutcome,
) -> bool {
    let me = st0.spec_session(chat_session_id);
    let item = st0.spec_item(me.chat_workflow_item_id->Some_0);
    let given = resolved_given(st0, msg.chat_workflow_response_id);
    exists|pr: Result<crate::chat_workflow_interactions::ChatWorkflowInteraction, DatabaseError>|
        #[trigger] crate::chat_sessions::spec_process_response(
            st0,
            me,
            item,
            given,
            msg.input,
            now,
            stf,
            pr,
        ) && ((pr matches Ok(_) && r == ChatSocketOutcome::Advanced) || (pr matches Err(e) && r
            == ChatSocketOutcome::Failed(e)))
}

/// Handles one inbound text frame: an unparsable payload earns its error
/// frame and changes nothing, a missing session or position earns its
/// frame, and otherwise the transition is exactly one run of
/// [`ChatSession::process_response`] on the current item, with the response
/// resolved from the frame's id and the frame's input — `Advanced` in its
/// success case, `Failed` with its error otherwise, the store changed as it
/// says and in no other way.
pub fn receive_text(
    chat_session_id: u64,
    parsed: Option<ChatWebsocketResponse>,
    now: i64,
    store: &mut Store,
) -> (r: ChatSocketOutcome)
    requires
        old(store).wf(),
        now <= i64::MAX - crate::chat_sessions::SESSION_EXPIRY_SECONDS,
        old(store).next_id < u64::MAX,
    ensures
        final(store).wf(),
        parsed is None ==> r == ChatSocketOutcome::Unparsable && *final(store) == *old(store),
        parsed is Some && !old(store).has_session(chat_session_id) ==> r
            == ChatSocketOutcome::NoCurrentSession && *final(store) == *old(store),
        parsed is Some && old(store).has_session(chat_session_id) && (old(store).spec_session(
            chat_session_id,
        ).chat_workflow_item_id is None || (old(store).spec_session(
            chat_session_id,
        ).chat_workflow_item_id matches Some(n) && !old(store).has_item(n))) ==> r
            == ChatSocketOutcome::NoCurrentItem && *final(store) == *old(store),
        parsed is Some && old(store).has_session(chat_session_id) && old(store).spec_session(
            chat_session_id,
        ).chat_workflow_item_id is Some && old(store).has_item(
            old(store).spec_session(chat_session_id).chat_workflow_item_id->Some_0,
        ) ==> spec_receive_text_transition(
            *old(store),
            *final(store),
            chat_session_id,
            parsed->Some_0,
            now,
            r,
        ),
        r == ChatSocketOutcome::Advanced ==> final(store).chat_workflow_interactions@.len() == old(
            store,
        ).chat_workflow_interactions@.len() + 1,
        r matches ChatSocketOutcome::Failed(_) ==> final(store).chat_workflow_interactions@ == old(
            store,
        ).chat_workflow_interactions@ && final(store).chat_sessions@.len() == old(
            store,
        ).chat_sessions@.len(),
{
    let ghost parsed0 = parsed;
    let message = match parsed {
        Some(m) => m,
        None => {
            return ChatSocketOutcome::Unparsable;
        },
    };
    let mut session = match ChatSession::find(chat_session_id, store) {
        Ok(s) => s,
        Err(_) => {
            return ChatSocketOutcome::NoCurrentSession;
        },
    };
    let item = match session.next_chat_workflow_item(store) {
        Ok(Some(item)) => item,
        Ok(None) => {
            return ChatSocketOutcome::NoCurrentItem;
        },
        Err(_) => {
            return ChatSocketOutcome::NoCurrentItem;
        },
    };
    let chosen = match message.chat_workflow_response_id {
        Some(rid) => {
            match crate::error::optional(ChatWorkflowResponse::find(rid, store)) {
                Ok(o) => o,
                Err(_) => {
                    proof {
                        assert(false);
                    }
                    None
                },
            }
        },
        None => None,
    };
    let ghost st0 = *old(store);
    let ghost session0 = session;
    let ghost chosen0 = chosen;
    let ghost input0 = message.input;
    proof {
        assert(chosen0 == resolved_given(st0, message.chat_workflow_response_id));
        assert(message == parsed0->Some_0);
    }
    let result = session.process_response(&item, chosen, message.input, now, store);
    let ghost resultg = result;
    let outcome = match result {
        Ok(_) => ChatSocketOutcome::Advanced,
        Err(e) => ChatSocketOutcome::Failed(e),
    };
    proof {
        let me = st0.spec_session(chat_session_id);
        crate::chat_sessions::lemma_spec_process_response_eqv(
            st0,
            session0,
            me,
            item,
            chosen0,
            input0,
            now,
            *store,
            resultg,
        );
        if me.chat_workflow_item_id is Some && st0.has_item(me.chat_workflow_item_id->Some_0) {
            let msg = parsed0->Some_0;
            let given = resolved_given(st0, msg.chat_workflow_response_id);
            assert(session0.chat_workflow_item_id == me.chat_workflow_item_id);
            assert(item == st0.spec_item(me.chat_workflow_item_id->Some_0));
            assert(spec_receive_text_transition(
                st0,
                *store,
                chat_session_id,
                msg,
                now,
                outcome,
            )) by {
                assert(crate::chat_sessions::spec_process_response(
                    st0,
                    me,
                    st0.spec_item(me.chat_workflow_item_id->Some_0),
                    given,
                    msg.input,
                    now,
                    *store,
                    resultg,
                ) && ((resultg matches Ok(_) && outcome == ChatSocketOutcome::Advanced) || (
                resultg matches Err(e) && outcome == ChatSocketOutcome::Failed(e))));
            }
        }
    }
    outcome
}

} // verus!
