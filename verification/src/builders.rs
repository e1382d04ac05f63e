//! Builders for exercising the engine: each finishes by committing a record
//! through the public store operations, inventing any collaborator it was
//! not given. Default workflow names carry the store's id counter, so the
//! names stay unique within one store.

use vstd::prelude::*;

use crate::chat_sessions::{ChatSession, SESSION_EXPIRY_SECONDS};
use crate::chat_workflow_interactions::ChatWorkflowInteraction;
use crate::chat_workflow_items::{
    ChatWorkflowItem, ChatWorkflowItemRenderType, ChatWorkflowItemType,
};
use crate::chat_workflow_responses::{ChatWorkflowResponse, ChatWorkflowResponseType};
use crate::chat_workflows::{ChatWorkflow, ChatWorkflowEditableAttributes, ChatWorkflowStatus};
use crate::error::DatabaseError;
use crate::store::Store;
use crate::strings::{decimal, opt_clone};

verus! {

/// Headroom on the id counter that one `finish` may consume.
pub const BUILDER_ID_HEADROOM: u64 = 32;

/// Headroom on ranks that one `finish` may shift into.
pub open spec fn builder_ranks_ok(store: Store) -> bool {
    forall|i: int|
        0 <= i < store.chat_workflow_responses@.len()
            ==> (#[trigger] store.chat_workflow_responses@[i]).rank < i64::MAX - 1
}

/// An item commit adds at most one response, at rank 1, so the rank
/// headroom survives it.
proof fn lemma_ranks_after_item_commit(pre: Store, post: Store)
    requires
        builder_ranks_ok(pre),
        post.chat_workflow_responses@ == pre.chat_workflow_responses@ || (
        post.chat_workflow_responses@.len() == pre.chat_workflow_responses@.len() + 1
            && post.chat_workflow_responses@.drop_last() == pre.chat_workflow_responses@
            && post.chat_workflow_responses@.last().rank == 1),
    ensures
        builder_ranks_ok(post),
{
    let s = post.chat_workflow_responses@;
    let p = pre.chat_workflow_responses@;
    if s != p {
        assert forall|i: int| 0 <= i < s.len() implies (#[trigger] s[i]).rank < i64::MAX - 1 by {
            if i < s.len() - 1 {
                assert(s.drop_last()[i] == s[i]);
                assert(p[i] == s[i]);
            }
        }
    }
}

/// A fresh default workflow name carrying the id counter.
fn default_workflow_name(store: &Store) -> (r: String)
    ensures
        r@ == "Chat Workflow "@ + crate::strings::spec_decimal(store.next_id as nat),
{
    String::from_str("Chat Workflow ").concat(decimal(store.next_id).as_str())
}

/// Builds a published workflow with one `Message` item as its initial item.
fn published_workflow(store: &mut Store) -> (r: Result<ChatWorkflow, DatabaseError>)
    requires
        old(store).wf(),
        old(store).next_id < u64::MAX - BUILDER_ID_HEADROOM,
    ensures
        final(store).wf(),
        final(store).next_id < old(store).next_id + BUILDER_ID_HEADROOM,
        builder_ranks_ok(*old(store)) ==> builder_ranks_ok(*final(store)),
        r matches Ok(w) ==> final(store).has_workflow(w.id) && w.status
            == ChatWorkflowStatus::Published,
{
    let name = default_workflow_name(store);
    let workflow = match ChatWorkflow::create(name).commit(None, store) {
        Ok(w) => w,
        Err(e) => {
            return Err(e);
        },
    };
    let ghost mid = *store;
    let item = match ChatWorkflowItem::create(
        workflow.id,
        ChatWorkflowItemType::Message,
        None,
        None,
        None,
    ).commit(store) {
        Ok(i) => i,
        Err(e) => {
            return Err(e);
        },
    };
    proof {
        if builder_ranks_ok(mid) {
            lemma_ranks_after_item_commit(mid, *store);
        }
    }
    let attributes = ChatWorkflowEditableAttributes {
        name: None,
        initial_chat_workflow_item_id: Some(Some(item.id)),
    };
    let workflow = match workflow.update(attributes, store) {
        Ok(w) => w,
        Err(e) => {
            return Err(e);
        },
    };
    let workflow = match workflow.publish(None, store) {
        Ok(w) => w,
        Err(e) => {
            return Err(e);
        },
    };
    match store.find_workflow_index(workflow.id) {
        Some(_) => Ok(workflow),
        None => DatabaseError::no_results("Unable to load chat workflow"),
    }
}

/// Builds a workflow, published by default.
pub struct ChatWorkflowBuilder {
    pub name: Option<String>,
    pub status: ChatWorkflowStatus,
    pub initial_chat_workflow_item_id: Option<u64>,
}

impl ChatWorkflowBuilder {
    pub fn new() -> (r: ChatWorkflowBuilder)
        ensures
            r.name is None,
            r.status == ChatWorkflowStatus::Published,
            r.initial_chat_workflow_item_id is None,
    {
        ChatWorkflowBuilder {
            name: None,
            status: ChatWorkflowStatus::Published,
            initial_chat_workflow_item_id: None,
        }
    }

    pub fn draft(self) -> (r: ChatWorkflowBuilder)
        ensures
            r.status == ChatWorkflowStatus::Draft,
            r.name == self.name,
            r.initial_chat_workflow_item_id == self.initial_chat_workflow_item_id,
    {
        ChatWorkflowBuilder { status: ChatWorkflowStatus::Draft, ..self }
    }

    pub fn with_name(self, name: &str) -> (r: ChatWorkflowBuilder)
        ensures
            r.name matches Some(n) && n@ == name@,
            r.status == self.status,
            r.initial_chat_workflow_item_id == self.initial_chat_workflow_item_id,
    {
        ChatWorkflowBuilder { name: Some(String::from_str(name)), ..self }
    }

    pub fn with_initial_chat_workflow_item(
        self,
        initial_chat_workflow_item: &ChatWorkflowItem,
    ) -> (r: ChatWorkflowBuilder)
        ensures
            r.initial_chat_workflow_item_id == Some(initial_chat_workflow_item.id),
            r.name == self.name,
            r.status == self.status,
    {
        ChatWorkflowBuilder {
            initial_chat_workflow_item_id: Some(initial_chat_workflow_item.id),
            ..self
        }
    }

    pub fn finish(self, store: &mut Store) -> (r: Result<ChatWorkflow, DatabaseError>)
        requires
            old(store).wf(),
            old(store).next_id < u64::MAX - BUILDER_ID_HEADROOM,
        ensures
            final(store).wf(),
            final(store).next_id < old(store).next_id + BUILDER_ID_HEADROOM,
            builder_ranks_ok(*old(store)) ==> builder_ranks_ok(*final(store)),
            r matches Ok(w) ==> final(store).has_workflow(w.id),
    {
        let name = match self.name {
            Some(n) => n,
            None => default_workflow_name(store),
        };
        let mut workflow = match ChatWorkflow::create(name).commit(None, store) {
            Ok(w) => w,
            Err(e) => {
                return Err(e);
            },
        };
        let wants_item = self.initial_chat_workflow_item_id.is_some() || self.status
            == ChatWorkflowStatus::Published;
        if wants_item {
            let item_id = match self.initial_chat_workflow_item_id {
                Some(id) => id,
                None => {
                    let ghost mid = *store;
                    let item = match ChatWorkflowItem::create(
                        workflow.id,
                        ChatWorkflowItemType::Message,
                        None,
                        None,
                        None,
                    ).commit(store) {
                        Ok(i) => i,
                        Err(e) => {
                            return Err(e);
                        },
                    };
                    proof {
                        if builder_ranks_ok(mid) {
                            lemma_ranks_after_item_commit(mid, *store);
                        }
                    }
                    item.id
                },
            };
            let attributes = ChatWorkflowEditableAttributes {
                name: None,
                initial_chat_workflow_item_id: Some(Some(item_id)),
            };
            workflow = match workflow.update(attributes, store) {
                Ok(w) => w,
                Err(e) => {
                    return Err(e);
                },
            };
        }
        if self.status == ChatWorkflowStatus::Published {
            workflow = match workflow.publish(None, store) {
                Ok(w) => w,
                Err(e) => {
                    return Err(e);
                },
            };
        }
        match store.find_workflow_index(workflow.id) {
            Some(_) => Ok(workflow),
            None => DatabaseError::no_results("Unable to load chat workflow"),
        }
    }
}

/// Builds an item, a `Message` on a fresh published workflow by default; a
/// `Render` item defaults its render tag.
pub struct ChatWorkflowItemBuilder {
    pub chat_workflow_id: Option<u64>,
    pub item_type: ChatWorkflowItemType,
    pub message: Option<String>,
    pub render_type: Option<ChatWorkflowItemRenderType>,
    pub response_wait: Option<i32>,
}

impl ChatWorkflowItemBuilder {
    pub fn new() -> (r: ChatWorkflowItemBuilder)
        ensures
            r.chat_workflow_id is None,
            r.item_type == ChatWorkflowItemType::Message,
            r.message is None,
            r.render_type is None,
            r.response_wait is None,
    {
        ChatWorkflowItemBuilder {
            chat_workflow_id: None,
            item_type: ChatWorkflowItemType::Message,
            message: None,
            render_type: None,
            response_wait: None,
        }
    }

    pub fn with_chat_workflow(self, chat_workflow: &ChatWorkflow) -> (r: ChatWorkflowItemBuilder)
        ensures
            r.chat_workflow_id == Some(chat_workflow.id),
            r.item_type == self.item_type,
            r.message == self.message,
            r.render_type == self.render_type,
            r.response_wait == self.response_wait,
    {
        ChatWorkflowItemBuilder { chat_workflow_id: Some(chat_workflow.id), ..self }
    }

    pub fn with_item_type(self, item_type: ChatWorkflowItemType) -> (r: ChatWorkflowItemBuilder)
        ensures
            r.item_type == item_type,
            r.render_type == (if item_type == ChatWorkflowItemType::Render
                && self.render_type is None {
                Some(ChatWorkflowItemRenderType::OrderDetails)
            } else {
                self.render_type
            }),
            r.chat_workflow_id == self.chat_workflow_id,
            r.message == self.message,
            r.response_wait == self.response_wait,
    {
        let render_type = if item_type == ChatWorkflowItemType::Render
            && self.render_type.is_none() {
            Some(ChatWorkflowItemRenderType::OrderDetails)
        } else {
            self.render_type
        };
        ChatWorkflowItemBuilder { item_type, render_type, ..self }
    }

    pub fn with_render_type(self, render_type: ChatWorkflowItemRenderType) -> (r:
        ChatWorkflowItemBuilder)
        ensures
            r.render_type == Some(render_type),
            r.item_type == self.item_type,
    {
        ChatWorkflowItemBuilder { render_type: Some(render_type), ..self }
    }

    pub fn with_message(self, message: &str) -> (r: ChatWorkflowItemBuilder)
        ensures
            r.message matches Some(m) && m@ == message@,
            r.item_type == self.item_type,
    {
        ChatWorkflowItemBuilder { message: Some(String::from_str(message)), ..self }
    }

    pub fn with_response_wait(self, response_wait: i32) -> (r: ChatWorkflowItemBuilder)
        ensures
            r.response_wait == Some(response_wait),
            r.item_type == self.item_type,
    {
        ChatWorkflowItemBuilder { response_wait: Some(response_wait), ..self }
    }

    pub fn finish(self, store: &mut Store) -> (r: Result<ChatWorkflowItem, DatabaseError>)
        requires
            old(store).wf(),
            old(store).next_id < u64::MAX - 2 * BUILDER_ID_HEADROOM,
        ensures
            final(store).wf(),
            final(store).next_id < old(store).next_id + 2 * BUILDER_ID_HEADROOM,
            builder_ranks_ok(*old(store)) ==> builder_ranks_ok(*final(store)),
            r matches Ok(item) ==> final(store).has_item(item.id) && item.item_type
                == self.item_type,
    {
        let chat_workflow_id = match self.chat_workflow_id {
            Some(id) => id,
            None => {
                let workflow = match published_workflow(store) {
                    Ok(w) => w,
                    Err(e) => {
                        return Err(e);
                    },
                };
                workflow.id
            },
        };
        let ghost mid = *store;
        let item = match ChatWorkflowItem::create(
            chat_workflow_id,
            self.item_type,
            opt_clone(&self.message),
            self.render_type,
            self.response_wait,
        ).commit(store) {
            Ok(i) => i,
            Err(e) => {
                return Err(e);
            },
        };
        proof {
            if builder_ranks_ok(mid) {
                lemma_ranks_after_item_commit(mid, *store);
            }
        }
        match store.find_item_index(item.id) {
            Some(_) => Ok(item),
            None => DatabaseError::no_results("Unable to load chat workflow item"),
        }
    }
}

/// Builds a response, a `Noop` with a default text by default; a question
/// item's response defaults a fresh answer value carrying the id counter.
pub struct ChatWorkflowResponseBuilder {
    pub chat_workflow_item_id: Option<u64>,
    pub response_type: ChatWorkflowResponseType,
    pub response: Option<String>,
    pub answer_value: Option<String>,
    pub next_chat_workflow_item_id: Option<u64>,
    pub rank: i64,
}

impl ChatWorkflowResponseBuilder {
    pub fn new() -> (r: ChatWorkflowResponseBuilder)
        ensures
            r.chat_workflow_item_id is None,
            r.response_type == ChatWorkflowResponseType::Noop,
            r.answer_value is None,
            r.next_chat_workflow_item_id is None,
            r.rank == 0,
    {
        ChatWorkflowResponseBuilder {
            chat_workflow_item_id: None,
            response_type: ChatWorkflowResponseType::Noop,
            response: Some(String::from_str("This is the chatbot response message")),
            answer_value: None,
            next_chat_workflow_item_id: None,
            rank: 0,
        }
    }

    pub fn with_answer_value(self, answer_value: &str) -> (r: ChatWorkflowResponseBuilder)
        ensures
            r.response_type == ChatWorkflowResponseType::Answer,
            r.answer_value matches Some(v) && v@ == answer_value@,
            r.rank == self.rank,
    {
        ChatWorkflowResponseBuilder {
            response_type: ChatWorkflowResponseType::Answer,
            answer_value: Some(String::from_str(answer_value)),
            ..self
        }
    }

    pub fn with_chat_workflow_item(self, chat_workflow_item: &ChatWorkflowItem) -> (r:
        ChatWorkflowResponseBuilder)
        ensures
            r.chat_workflow_item_id == Some(chat_workflow_item.id),
            r.rank == self.rank,
            r.answer_value == self.answer_value,
    {
        ChatWorkflowResponseBuilder { chat_workflow_item_id: Some(chat_workflow_item.id), ..self }
    }

    pub fn with_next_chat_workflow_item(self, next_chat_workflow_item: &ChatWorkflowItem) -> (r:
        ChatWorkflowResponseBuilder)
        ensures
            r.next_chat_workflow_item_id == Some(next_chat_workflow_item.id),
            r.rank == self.rank,
    {
        ChatWorkflowResponseBuilder {
            next_chat_workflow_item_id: Some(next_chat_workflow_item.id),
            ..self
        }
    }

    pub fn with_response(self, response: &str) -> (r: ChatWorkflowResponseBuilder)
        ensures
            r.response matches Some(v) && v@ == response@,
            r.rank == self.rank,
    {
        ChatWorkflowResponseBuilder { response: Some(String::from_str(response)), ..self }
    }

    pub fn with_rank(self, rank: i64) -> (r: ChatWorkflowResponseBuilder)
        ensures
            r.rank == rank,
            r.chat_workflow_item_id == self.chat_workflow_item_id,
    {
        ChatWorkflowResponseBuilder { rank, ..self }
    }

    pub fn finish(self, store: &mut Store) -> (r: Result<ChatWorkflowResponse, DatabaseError>)
        requires
            old(store).wf(),
            old(store).next_id < u64::MAX - 3 * BUILDER_ID_HEADROOM,
            builder_ranks_ok(*old(store)),
        ensures
            final(store).wf(),
            final(store).next_id < old(store).next_id + 3 * BUILDER_ID_HEADROOM,
            r matches Ok(resp) ==> final(store).has_response(resp.id),
    {
        let item = match self.chat_workflow_item_id {
            Some(id) => {
                match ChatWorkflowItem::find(id, store) {
                    Ok(i) => i,
                    Err(e) => {
                        return Err(e);
                    },
                }
            },
            None => {
                match (ChatWorkflowItemBuilder::new().finish(store)) {
                    Ok(i) => i,
                    Err(e) => {
                        return Err(e);
                    },
                }
            },
        };
        let answer_value = match self.answer_value {
            Some(v) => Some(v),
            None => {
                if item.item_type == ChatWorkflowItemType::Question {
                    Some(String::from_str("Answer ").concat(decimal(store.next_id).as_str()))
                } else {
                    None
                }
            },
        };
        let response_type = if item.item_type == ChatWorkflowItemType::Question
            && answer_value.is_some() {
            ChatWorkflowResponseType::Answer
        } else {
            self.response_type
        };
        let new_response = ChatWorkflowResponse::create(
            item.id,
            response_type,
            self.response,
            answer_value,
            self.next_chat_workflow_item_id,
            self.rank,
        );
        let committed = match new_response.commit(store) {
            Ok(x) => x,
            Err(e) => {
                return Err(e);
            },
        };
        match store.find_response_index(committed.id) {
            Some(_) => Ok(committed),
            None => DatabaseError::no_results("Unable to load chat workflow response"),
        }
    }
}

/// Builds a session on a fresh published workflow by default.
pub struct ChatSessionBuilder {
    pub user_id: Option<u64>,
    pub chat_workflow_id: Option<u64>,
}

impl ChatSessionBuilder {
    pub fn new() -> (r: ChatSessionBuilder)
        ensures
            r.user_id is None,
            r.chat_workflow_id is None,
    {
        ChatSessionBuilder { user_id: None, chat_workflow_id: None }
    }

    pub fn with_user_id(self, user_id: u64) -> (r: ChatSessionBuilder)
        ensures
            r.user_id == Some(user_id),
            r.chat_workflow_id == self.chat_workflow_id,
    {
        ChatSessionBuilder { user_id: Some(user_id), ..self }
    }

    pub fn with_chat_workflow(self, chat_workflow: &ChatWorkflow) -> (r: ChatSessionBuilder)
        ensures
            r.chat_workflow_id == Some(chat_workflow.id),
            r.user_id == self.user_id,
    {
        ChatSessionBuilder { chat_workflow_id: Some(chat_workflow.id), ..self }
    }

    pub fn finish(self, now: i64, store: &mut Store) -> (r: Result<ChatSession, DatabaseError>)
        requires
            old(store).wf(),
            old(store).next_id < u64::MAX - 2 * BUILDER_ID_HEADROOM,
            now <= i64::MAX - SESSION_EXPIRY_SECONDS,
        ensures
            final(store).wf(),
            final(store).next_id < old(store).next_id + 2 * BUILDER_ID_HEADROOM,
            r matches Ok(s) ==> final(store).has_session(s.id) && s.context.wf(),
    {
        let user_id = match self.user_id {
            Some(id) => id,
            None => store.next_id,
        };
        let chat_workflow_id = match self.chat_workflow_id {
            Some(id) => id,
            None => {
                let workflow = match published_workflow(store) {
                    Ok(w) => w,
                    Err(e) => {
                        return Err(e);
                    },
                };
                workflow.id
            },
        };
        let session = match ChatSession::create(user_id, chat_workflow_id, None).commit(
            now,
            store,
        ) {
            Ok(s) => s,
            Err(e) => {
                return Err(e);
            },
        };
        match store.find_session_index(session.id) {
            Some(_) => Ok(session),
            None => DatabaseError::no_results("Unable to load chat session"),
        }
    }
}

/// Builds an interaction, inventing an item, one of its responses, and a
/// session on the item's workflow where they were not given.
pub struct ChatWorkflowInteractionBuilder {
    pub chat_workflow_item_id: Option<u64>,
    pub chat_workflow_response_id: Option<u64>,
    pub chat_session_id: Option<u64>,
    pub input: Option<String>,
}

impl ChatWorkflowInteractionBuilder {
    pub fn new() -> (r: ChatWorkflowInteractionBuilder)
        ensures
            r.chat_workflow_item_id is None,
            r.chat_workflow_response_id is None,
            r.chat_session_id is None,
            r.input is None,
    {
        ChatWorkflowInteractionBuilder {
            chat_workflow_item_id: None,
            chat_workflow_response_id: None,
            chat_session_id: None,
            input: None,
        }
    }

    pub fn with_chat_workflow_item(self, chat_workflow_item: &ChatWorkflowItem) -> (r:
        ChatWorkflowInteractionBuilder)
        ensures
            r.chat_workflow_item_id == Some(chat_workflow_item.id),
            r.chat_session_id == self.chat_session_id,
    {
        ChatWorkflowInteractionBuilder {
            chat_workflow_item_id: Some(chat_workflow_item.id),
            ..self
        }
    }

    pub fn with_chat_workflow_response(self, chat_workflow_response: &ChatWorkflowResponse) -> (r:
        ChatWorkflowInteractionBuilder)
        ensures
            r.chat_workflow_response_id == Some(chat_workflow_response.id),
            r.chat_session_id == self.chat_session_id,
    {
        ChatWorkflowInteractionBuilder {
            chat_workflow_response_id: Some(chat_workflow_response.id),
            ..self
        }
    }

    pub fn with_chat_session(self, chat_session: &ChatSession) -> (r:
        ChatWorkflowInteractionBuilder)
        ensures
            r.chat_session_id == Some(chat_session.id),
            r.input == self.input,
    {
        ChatWorkflowInteractionBuilder { chat_session_id: Some(chat_session.id), ..self }
    }

    pub fn with_input(self, input: &str) -> (r: ChatWorkflowInteractionBuilder)
        ensures
            r.input matches Some(v) && v@ == input@,
            r.chat_session_id == self.chat_session_id,
    {
        ChatWorkflowInteractionBuilder { input: Some(String::from_str(input)), ..self }
    }

    pub fn finish(self, now: i64, store: &mut Store) -> (r: Result<
        ChatWorkflowInteraction,
        DatabaseError,
    >)
        requires
            old(store).wf(),
            old(store).next_id < u64::MAX - 8 * BUILDER_ID_HEADROOM,
            builder_ranks_ok(*old(store)),
            now <= i64::MAX - SESSION_EXPIRY_SECONDS,
        ensures
            final(store).wf(),
            r matches Ok(x) ==> final(store).has_interaction(x.id),
    {
        let item = match self.chat_workflow_item_id {
            Some(id) => {
                match ChatWorkflowItem::find(id, store) {
                    Ok(i) => i,
                    Err(e) => {
                        return Err(e);
                    },
                }
            },
            None => {
                match (ChatWorkflowItemBuilder::new().finish(store)) {
                    Ok(i) => i,
                    Err(e) => {
                        return Err(e);
                    },
                }
            },
        };
        let chat_workflow_response_id = match self.chat_workflow_response_id {
            Some(id) => id,
            None => {
                let response = match (ChatWorkflowResponseBuilder::new().with_chat_workflow_item(
                    &item,
                ).finish(store)) {
                    Ok(x) => x,
                    Err(e) => {
                        return Err(e);
                    },
                };
                response.id
            },
        };
        let chat_session_id = match self.chat_session_id {
            Some(id) => id,
            None => {
                let workflow = match item.chat_workflow(store) {
                    Ok(w) => w,
                    Err(e) => {
                        return Err(e);
                    },
                };
                let session = match (ChatSessionBuilder::new().with_chat_workflow(
                    &workflow,
                ).finish(now, store)) {
                    Ok(s) => s,
                    Err(e) => {
                        return Err(e);
                    },
                };
                session.id
            },
        };
        let committed = ChatWorkflowInteraction::create(
            item.id,
            chat_workflow_response_id,
            chat_session_id,
            self.input,
        ).commit(now, store);
        match committed {
            Ok(x) => {
                proof {
                    assert(store.chat_workflow_interactions@.last() == x);
                    assert(store.has_interaction(x.id)) by {
                        assert(store.chat_workflow_interactions@[store.chat_workflow_interactions@.len()
                            - 1].id == x.id);
                    }
                }
                Ok(x)
            },
            Err(e) => Err(e),
        }
    }
}

} // verus!
