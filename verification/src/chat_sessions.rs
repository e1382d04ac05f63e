//! Chat sessions: a user's live position within one workflow traversal,
//! together with the context accumulated so far and a sliding expiry.

use vstd::prelude::*;

use crate::chat_workflows::ChatWorkflowStatus;
use crate::context::{Context, ContextValue};
use crate::error::{is_business_process_error, is_no_results, DatabaseError, ErrorCode};
use crate::store::{ids_of_sessions, Store};

verus! {

/// How long, in seconds, a mutation keeps a session alive.
pub const SESSION_EXPIRY_SECONDS: i64 = 900;

/// A user's live traversal of one workflow.
#[derive(Clone, Debug, PartialEq, Eq)]
pub struct ChatSession {
    pub id: u64,
    pub user_id: u64,
    pub chat_workflow_id: u64,
    pub chat_workflow_item_id: Option<u64>,
    pub context: Context,
    pub expires_at: Option<i64>,
}

impl ChatSession {
    /// An owned copy: equal to `self` field by field, with the context equal
    /// as a map.
    pub fn copied(&self) -> (r: ChatSession)
        ensures
            r.id == self.id,
            r.user_id == self.user_id,
            r.chat_workflow_id == self.chat_workflow_id,
            r.chat_workflow_item_id == self.chat_workflow_item_id,
            r.context@ == self.context@,
            r.context.wf() == self.context.wf(),
            r.expires_at == self.expires_at,
    {
        ChatSession {
            id: self.id,
            user_id: self.user_id,
            chat_workflow_id: self.chat_workflow_id,
            chat_workflow_item_id: self.chat_workflow_item_id,
            context: self.context.duplicate(),
            expires_at: self.expires_at,
        }
    }
}

/// A session waiting to be committed to the store.
#[derive(Clone, Debug, PartialEq, Eq)]
pub struct NewChatSession {
    pub user_id: u64,
    pub chat_workflow_id: u64,
    pub context: Context,
}

/// The fields of a session that a mutation may change; a `None` leaves the
/// field as it is, and the inner option of `chat_workflow_item_id`
/// distinguishes clearing the position from moving it.
#[derive(Clone, Debug, PartialEq, Eq)]
pub struct ChatSessionEditableAttributes {
    pub chat_workflow_item_id: Option<Option<u64>>,
    pub context: Option<Context>,
}

impl Default for ChatSessionEditableAttributes {
    /// Attributes that change nothing.
    fn default() -> (r: Self)
        ensures
            r.chat_workflow_item_id is None,
            r.context is None,
    {
        ChatSessionEditableAttributes { chat_workflow_item_id: None, context: None }
    }
}

/// Whether the session has expired at the given wall-clock time; a session
/// without an expiry never expires.
pub open spec fn spec_expired(s: ChatSession, now: i64) -> bool {
    match s.expires_at {
        Some(e) => e < now,
        None => false,
    }
}

/// Whether two sessions are equal field by field, with the context compared
/// as a map.
pub open spec fn session_eqv(a: ChatSession, b: ChatSession) -> bool {
    &&& a.id == b.id
    &&& a.user_id == b.user_id
    &&& a.chat_workflow_id == b.chat_workflow_id
    &&& a.chat_workflow_item_id == b.chat_workflow_item_id
    &&& a.context@ == b.context@
    &&& a.expires_at == b.expires_at
}

/// The session `base` after a successful mutation: the position and context
/// as the attributes say, and the expiry pushed out from `now`.
pub open spec fn session_updated(
    new: ChatSession,
    base: ChatSession,
    a: ChatSessionEditableAttributes,
    now: i64,
) -> bool {
    &&& new.id == base.id
    &&& new.user_id == base.user_id
    &&& new.chat_workflow_id == base.chat_workflow_id
    &&& new.chat_workflow_item_id == (match a.chat_workflow_item_id {
        Some(v) => v,
        None => base.chat_workflow_item_id,
    })
    &&& new.context@ == (match a.context {
        Some(c) => c@,
        None => base.context@,
    })
    &&& new.expires_at == Some((now + SESSION_EXPIRY_SECONDS) as i64)
}

/// Whether a session matches `find_active_for_user`: owned by the user, not
/// yet expired, and attached to a published workflow.
pub open spec fn active_for_user(store: Store, s: ChatSession, user_id: u64, now: i64) -> bool {
    &&& s.user_id == user_id
    &&& !spec_expired(s, now)
    &&& s.expires_at is Some
    &&& store.has_workflow(s.chat_workflow_id)
    &&& store.spec_workflow(s.chat_workflow_id).status == ChatWorkflowStatus::Published
}

impl ChatSession {
    /// A session ready to be committed; an absent context starts empty.
    pub fn create(user_id: u64, chat_workflow_id: u64, context: Option<Context>) -> (r:
        NewChatSession)
        ensures
            r.user_id == user_id,
            r.chat_workflow_id == chat_workflow_id,
            r.context@ == (match context {
                Some(c) => c@,
                None => Map::<Seq<char>, crate::context::SpecContextValue>::empty(),
            }),
            r.context.wf() == (match context {
                Some(c) => c.wf(),
                None => true,
            }),
    {
        NewChatSession {
            user_id,
            chat_workflow_id,
            context: match context {
                Some(c) => c,
                None => Context::new(),
            },
        }
    }

    /// The session with the given id; absence is `NoResults`.
    pub fn find(id: u64, store: &Store) -> (r: Result<ChatSession, DatabaseError>)
        requires
            store.wf(),
        ensures
            match r {
                Ok(x) => store.has_session(id) && session_eqv(x, store.spec_session(id))
                    && x.context.wf(),
                Err(e) => !store.has_session(id) && is_no_results(e) && e.message@
                    == "Unable to load chat session"@,
            },
    {
        match store.find_session_index(id) {
            Some(i) => {
                proof {
                    store.lemma_session_at(i as int);
                }
                Ok(store.chat_sessions[i].copied())
            },
            None => DatabaseError::no_results("Unable to load chat session"),
        }
    }

    /// Whether the session has expired at the given wall-clock time.
    pub fn is_expired(&self, now: i64) -> (r: bool)
        ensures
            r == spec_expired(*self, now),
    {
        match self.expires_at {
            Some(e) => e < now,
            None => false,
        }
    }

    /// The expiry a mutation at the given time grants.
    pub fn next_expires_at(now: i64) -> (r: i64)
        requires
            now <= i64::MAX - SESSION_EXPIRY_SECONDS,
        ensures
            r == now + SESSION_EXPIRY_SECONDS,
    {
        now + SESSION_EXPIRY_SECONDS
    }

    /// The user's live session on a published workflow, if one exists;
    /// absence is `NoResults` and a normal state, not a fault.
    pub fn find_active_for_user(user_id: u64, now: i64, store: &Store) -> (r: Result<
        ChatSession,
        DatabaseError,
    >)
        requires
            store.wf(),
        ensures
            match r {
                Ok(x) => {
                    &&& exists|i: int|
                        0 <= i < store.chat_sessions@.len() && active_for_user(
                            *store,
                            #[trigger] store.chat_sessions@[i],
                            user_id,
                            now,
                        ) && session_eqv(x, store.chat_sessions@[i])
                    &&& x.context.wf()
                },
                Err(e) => {
                    &&& forall|i: int|
                        0 <= i < store.chat_sessions@.len() ==> !active_for_user(
                            *store,
                            #[trigger] store.chat_sessions@[i],
                            user_id,
                            now,
                        )
                    &&& is_no_results(e)
                    &&& e.message@ == "Unable to load chat session"@
                },
            },
    {
        let n = store.chat_sessions.len();
        let mut i: usize = 0;
        while i < n
            invariant
                store.wf(),
                n == store.chat_sessions@.len(),
                i <= n,
                forall|j: int|
                    0 <= j < i ==> !active_for_user(
                        *store,
                        #[trigger] store.chat_sessions@[j],
                        user_id,
                        now,
                    ),
            decreases n - i,
        {
            let s = &store.chat_sessions[i];
            if s.user_id == user_id {
                let fresh = match s.expires_at {
                    Some(e) => e >= now,
                    None => false,
                };
                if fresh {
                    match store.find_workflow_index(s.chat_workflow_id) {
                        Some(w) => {
                            proof {
                                store.lemma_workflow_at(w as int);
                            }
                            if store.chat_workflows[w].status == ChatWorkflowStatus::Published {
                                proof {
                                    store.lemma_session_at(i as int);
                                    assert(active_for_user(
                                        *store,
                                        store.chat_sessions@[i as int],
                                        user_id,
                                        now,
                                    ));
                                }
                                return Ok(store.chat_sessions[i].copied());
                            }
                        },
                        None => {},
                    }
                }
            }
            proof {
                assert(!active_for_user(*store, store.chat_sessions@[i as int], user_id, now));
            }
            i += 1;
        }
        DatabaseError::no_results("Unable to load chat session")
    }

    /// Applies the attributes to the stored session of `self.id` and pushes
    /// the expiry out to `now` plus the window; a session already expired at
    /// `now` refuses the mutation.
    pub fn update(
        &self,
        attributes: ChatSessionEditableAttributes,
        now: i64,
        store: &mut Store,
    ) -> (r: Result<ChatSession, DatabaseError>)
        requires
            old(store).wf(),
            now <= i64::MAX - SESSION_EXPIRY_SECONDS,
            attributes.context matches Some(c) ==> c.wf(),
        ensures
            final(store).wf(),
            spec_expired(*self, now) ==> (r matches Err(e) && is_business_process_error(
                e,
                "Unable to update chat session as it has expired"@,
            ) && *final(store) == *old(store)),
            !spec_expired(*self, now) && !old(store).has_session(self.id) ==> (r matches Err(e)
                && e.error_code == ErrorCode::UpdateError && e.message@
                == "Could not update chat session"@ && *final(store) == *old(store)),
            !spec_expired(*self, now) && old(store).has_session(self.id) ==> (r matches Ok(rs)
                && {
                let idx = old(store).session_index_of(self.id);
                let base = old(store).spec_session(self.id);
                &&& session_updated(final(store).chat_sessions@[idx], base, attributes, now)
                &&& session_eqv(rs, final(store).chat_sessions@[idx])
                &&& rs.context.wf()
                &&& final(store).chat_sessions@.len() == old(store).chat_sessions@.len()
                &&& forall|j: int|
                    0 <= j < old(store).chat_sessions@.len() && j != idx
                        ==> final(store).chat_sessions@[j] == old(store).chat_sessions@[j]
                &&& final(store).next_id == old(store).next_id
                &&& final(store).chat_workflows@ == old(store).chat_workflows@
                &&& final(store).chat_workflow_items@ == old(store).chat_workflow_items@
                &&& final(store).chat_workflow_responses@ == old(store).chat_workflow_responses@
                &&& final(store).chat_workflow_interactions@ == old(
                    store,
                ).chat_workflow_interactions@
                &&& final(store).domain_events@ == old(store).domain_events@
            }),
    {
        if self.is_expired(now) {
            return DatabaseError::business_process_error(
                "Unable to update chat session as it has expired",
            );
        }
        let i = match store.find_session_index(self.id) {
            Some(i) => i,
            None => {
                return Err(DatabaseError::new(
                    ErrorCode::UpdateError,
                    "Could not update chat session",
                ));
            },
        };
        proof {
            store.lemma_session_at(i as int);
        }
        let base = store.chat_sessions[i].copied();
        let updated = ChatSession {
            id: base.id,
            user_id: base.user_id,
            chat_workflow_id: base.chat_workflow_id,
            chat_workflow_item_id: match attributes.chat_workflow_item_id {
                Some(v) => v,
                None => base.chat_workflow_item_id,
            },
            context: match attributes.context {
                Some(c) => c,
                None => base.context,
            },
            expires_at: Some(ChatSession::next_expires_at(now)),
        };
        let result = updated.copied();
        let ghost before = store.chat_sessions@;
        store.chat_sessions.set(i, updated);
        proof {
            assert(ids_of_sessions(store.chat_sessions@) =~= ids_of_sessions(before));
            assert(crate::store::sessions_contexts_ok(store.chat_sessions@)) by {
                assert(forall|j: int|
                    0 <= j < store.chat_sessions@.len() && j != i ==> store.chat_sessions@[j]
                        == before[j]);
            }
        }
        Ok(result)
    }

    /// Upserts one key into the session's context and persists the merge
    /// through [`ChatSession::update`].
    pub fn add_value_to_context(
        &self,
        field: &str,
        value: ContextValue,
        now: i64,
        store: &mut Store,
    ) -> (r: Result<ChatSession, DatabaseError>)
        requires
            old(store).wf(),
            self.context.wf(),
            now <= i64::MAX - SESSION_EXPIRY_SECONDS,
        ensures
            final(store).wf(),
            spec_expired(*self, now) ==> (r matches Err(e) && is_business_process_error(
                e,
                "Unable to update chat session as it has expired"@,
            ) && *final(store) == *old(store)),
            !spec_expired(*self, now) && !old(store).has_session(self.id) ==> (r matches Err(e)
                && e.error_code == ErrorCode::UpdateError && e.message@
                == "Could not update chat session"@ && *final(store) == *old(store)),
            !spec_expired(*self, now) && old(store).has_session(self.id) ==> (r matches Ok(rs)
                && {
                let idx = old(store).session_index_of(self.id);
                let base = old(store).spec_session(self.id);
                let ns = final(store).chat_sessions@[idx];
                &&& ns.id == base.id
                &&& ns.user_id == base.user_id
                &&& ns.chat_workflow_id == base.chat_workflow_id
                &&& ns.chat_workflow_item_id == base.chat_workflow_item_id
                &&& ns.context@ == self.context@.insert(field@, value@)
                &&& ns.expires_at == Some((now + SESSION_EXPIRY_SECONDS) as i64)
                &&& session_eqv(rs, ns)
                &&& rs.context.wf()
                &&& final(store).chat_sessions@.len() == old(store).chat_sessions@.len()
                &&& forall|j: int|
                    0 <= j < old(store).chat_sessions@.len() && j != idx
                        ==> final(store).chat_sessions@[j] == old(store).chat_sessions@[j]
                &&& final(store).next_id == old(store).next_id
                &&& final(store).chat_workflows@ == old(store).chat_workflows@
                &&& final(store).chat_workflow_items@ == old(store).chat_workflow_items@
                &&& final(store).chat_workflow_responses@ == old(store).chat_workflow_responses@
                &&& final(store).chat_workflow_interactions@ == old(
                    store,
                ).chat_workflow_interactions@
                &&& final(store).domain_events@ == old(store).domain_events@
            }),
    {
        let mut context = self.context.duplicate();
        context.set(field, value);
        let attributes = ChatSessionEditableAttributes {
            chat_workflow_item_id: None,
            context: Some(context),
        };
        self.update(attributes, now, store)
    }

    /// Commits the transition: moves the session onto the response's next
    /// item (or to a terminal position) and logs one interaction.
    pub fn select_response(
        &self,
        chat_workflow_item: &crate::chat_workflow_items::ChatWorkflowItem,
        chat_workflow_response: &crate::chat_workflow_responses::ChatWorkflowResponse,
        input: Option<String>,
        now: i64,
        store: &mut Store,
    ) -> (r: Result<crate::chat_workflow_interactions::ChatWorkflowInteraction, DatabaseError>)
        requires
            old(store).wf(),
            now <= i64::MAX - SESSION_EXPIRY_SECONDS,
            old(store).next_id < u64::MAX,
        ensures
            final(store).wf(),
            spec_expired(*self, now) ==> (r matches Err(e) && is_business_process_error(
                e,
                "Unable to update chat session as it has expired"@,
            ) && *final(store) == *old(store)),
            !spec_expired(*self, now) && !old(store).has_session(self.id) ==> (r matches Err(e)
                && e.error_code == ErrorCode::UpdateError && e.message@
                == "Could not update chat session"@ && *final(store) == *old(store)),
            !spec_expired(*self, now) && old(store).has_session(self.id) ==> (r matches Ok(inter)
                && {
                let idx = old(store).session_index_of(self.id);
                let base = old(store).spec_session(self.id);
                let ns = final(store).chat_sessions@[idx];
                &&& ns.id == base.id
                &&& ns.user_id == base.user_id
                &&& ns.chat_workflow_id == base.chat_workflow_id
                &&& ns.chat_workflow_item_id
                    == chat_workflow_response.next_chat_workflow_item_id
                &&& ns.context@ == base.context@
                &&& ns.expires_at == Some((now + SESSION_EXPIRY_SECONDS) as i64)
                &&& final(store).chat_sessions@.len() == old(store).chat_sessions@.len()
                &&& forall|j: int|
                    0 <= j < old(store).chat_sessions@.len() && j != idx
                        ==> final(store).chat_sessions@[j] == old(store).chat_sessions@[j]
                &&& inter.chat_workflow_item_id == chat_workflow_item.id
                &&& inter.chat_workflow_response_id == chat_workflow_response.id
                &&& inter.chat_session_id == self.id
                &&& inter.input == input
                &&& inter.created_at == now
                &&& final(store).chat_workflow_interactions@ == old(
                    store,
                ).chat_workflow_interactions@.push(inter)
                &&& final(store).next_id == old(store).next_id + 1
                &&& final(store).chat_workflows@ == old(store).chat_workflows@
                &&& final(store).chat_workflow_items@ == old(store).chat_workflow_items@
                &&& final(store).chat_workflow_responses@ == old(store).chat_workflow_responses@
                &&& final(store).domain_events@ == old(store).domain_events@
            }),
    {
        let attributes = ChatSessionEditableAttributes {
            chat_workflow_item_id: Some(chat_workflow_response.next_chat_workflow_item_id),
            context: None,
        };
        match self.update(attributes, now, store) {
            Ok(_) => {},
            Err(e) => {
                return Err(e);
            },
        }
        crate::chat_workflow_interactions::ChatWorkflowInteraction::log_interaction(
            self,
            chat_workflow_item,
            chat_workflow_response,
            input,
            now,
            store,
        )
    }

    /// The state-machine transition: resolves which response the input
    /// takes on the current item, records the input and the type-specific
    /// context, validates the response against the item, and commits the
    /// move with one logged interaction. The raw input lands in the context
    /// under `last_input` even when resolution later fails; the two hard
    /// failures — nothing resolved, response invalid for the item — log
    /// nothing and leave the position unchanged.
    pub fn process_response(
        &mut self,
        chat_workflow_item: &crate::chat_workflow_items::ChatWorkflowItem,
        chat_workflow_response: Option<crate::chat_workflow_responses::ChatWorkflowResponse>,
        last_input: Option<String>,
        now: i64,
        store: &mut Store,
    ) -> (r: Result<crate::chat_workflow_interactions::ChatWorkflowInteraction, DatabaseError>)
        requires
            old(store).wf(),
            old(self).context.wf(),
            now <= i64::MAX - SESSION_EXPIRY_SECONDS,
            old(store).next_id < u64::MAX,
        ensures
            final(store).wf(),
            final(self).id == old(self).id,
            final(self).user_id == old(self).user_id,
            final(self).chat_workflow_id == old(self).chat_workflow_id,
            final(self).chat_workflow_item_id == old(self).chat_workflow_item_id,
            final(self).expires_at == old(self).expires_at,
            final(self).context.wf(),
            spec_process_response(
                *old(store),
                *old(self),
                *chat_workflow_item,
                chat_workflow_response,
                last_input,
                now,
                *final(store),
                r,
            ),
            spec_expired(*old(self), now) || !old(store).has_session(old(self).id)
                ==> final(self).context@ == old(self).context@,
            !spec_expired(*old(self), now) && old(store).has_session(old(self).id)
                ==> final(self).context@ == final(store).chat_sessions@[old(
                store,
            ).session_index_of(old(self).id)].context@,
    {
        let ghost st0 = *old(store);
        let ghost me = *old(self);
        let ghost given0 = chat_workflow_response;
        let ghost input0 = last_input;
        let ghost item_g = *chat_workflow_item;
        let ghost r0g = pr_resolved0(st0, item_g, given0, input0);
        let ghost in1g = pr_input1(item_g, r0g, input0);
        let ghost r1g = pr_resolved1(st0, item_g, r0g, in1g);
        let ghost rfg = pr_final(st0, item_g, r1g);
        let ghost idx = st0.session_index_of(me.id);
        let mut chat_workflow_response = chat_workflow_response;
        let mut input = last_input;
        if chat_workflow_response.is_none() && input.is_none() {
            let lookup = crate::error::optional(
                chat_workflow_item.find_chat_workflow_response_by_response_type(
                    crate::chat_workflow_responses::ChatWorkflowResponseType::Noop,
                    store,
                ),
            );
            chat_workflow_response = match lookup {
                Ok(o) => o,
                Err(e) => {
                    proof {
                        assert(false);
                    }
                    return Err(e);
                },
            };
        }
        proof {
            assert(chat_workflow_response == r0g);
        }
        if input.is_none() && chat_workflow_item.item_type
            == crate::chat_workflow_items::ChatWorkflowItemType::Question {
            if let Some(r) = &chat_workflow_response {
                input = crate::strings::opt_clone(&r.answer_value);
            }
        }
        proof {
            assert(input == in1g);
        }
        let input_ctx = match &input {
            Some(s) => ContextValue::Text(s.clone()),
            None => ContextValue::Null,
        };
        let updated = match self.add_value_to_context("last_input", input_ctx, now, store) {
            Ok(u) => u,
            Err(e) => {
                return Err(e);
            },
        };
        self.context = updated.context;
        proof {
            assert(st0.spec_session(me.id).id == me.id);
            store.lemma_session_at(idx);
            assert(store.session_index_of(me.id) == idx);
            assert(store.has_session(me.id));
            assert(store.chat_sessions@[idx].context@ == me.context@.insert(
                "last_input"@,
                ctxv_of(in1g),
            ));
        }
        if chat_workflow_response.is_none() {
            if let Some(inp) = &input {
                let lookup = crate::error::optional(
                    crate::chat_workflow_responses::ChatWorkflowResponse::find_by_chat_workflow_item_and_answer_value(
                        chat_workflow_item,
                        inp.as_str(),
                        store,
                    ),
                );
                let found = match lookup {
                    Ok(o) => o,
                    Err(e) => {
                        proof {
                            assert(false);
                        }
                        return Err(e);
                    },
                };
                proof {
                    if found is Some {
                        let x = found->Some_0;
                        let i = choose|i: int|
                            0 <= i < store.chat_workflow_responses@.len()
                                && store.chat_workflow_responses@[i] == x;
                        let j = choose|j: int|
                            0 <= j < store.chat_workflow_responses@.len()
                                && store.chat_workflow_responses@[j].chat_workflow_item_id
                                == chat_workflow_item.id && crate::strings::opt_view(
                                store.chat_workflow_responses@[j].answer_value,
                            ) == Some(inp@);
                        if i != j {
                            assert(crate::store::ids_of_responses(
                                store.chat_workflow_responses@,
                            )[i] != crate::store::ids_of_responses(
                                store.chat_workflow_responses@,
                            )[j]);
                            assert(crate::strings::opt_view(x.answer_value) == Some(inp@));
                            assert(false);
                        }
                        assert(x == answer_response(st0, chat_workflow_item.id, inp@));
                    }
                }
                chat_workflow_response = found;
            }
        }
        proof {
            assert(st0.chat_workflow_responses@ == store.chat_workflow_responses@);
            assert(chat_workflow_response == r1g);
        }
        if chat_workflow_response.is_none() {
            return DatabaseError::business_process_error(
                "Unable to process response, no valid input provided",
            );
        }
        match chat_workflow_item.item_type {
            crate::chat_workflow_items::ChatWorkflowItemType::Render => {
                let tag = match chat_workflow_item.render_type {
                    Some(_) => ContextValue::Text(String::from_str("OrderDetails")),
                    None => ContextValue::Null,
                };
                let updated2 = match self.add_value_to_context("render_type", tag, now, store) {
                    Ok(u) => u,
                    Err(e) => {
                        proof {
                            assert(false);
                        }
                        return Err(e);
                    },
                };
                self.context = updated2.context;
                proof {
                    store.lemma_session_at(idx);
                    assert(store.session_index_of(me.id) == idx);
                    assert(store.has_session(me.id));
                }
                let noop = chat_workflow_item.find_chat_workflow_response_by_response_type(
                    crate::chat_workflow_responses::ChatWorkflowResponseType::Noop,
                    store,
                );
                chat_workflow_response = match noop {
                    Ok(x) => Some(x),
                    Err(e) => {
                        return Err(e);
                    },
                };
            },
            crate::chat_workflow_items::ChatWorkflowItemType::Question => {
                if let Some(r) = &chat_workflow_response {
                    input = crate::strings::opt_clone(&r.answer_value);
                    let sel = match &r.answer_value {
                        Some(s) => ContextValue::Text(s.clone()),
                        None => ContextValue::Null,
                    };
                    let updated2 = match self.add_value_to_context(
                        "answer_selection",
                        sel,
                        now,
                        store,
                    ) {
                        Ok(u) => u,
                        Err(e) => {
                            proof {
                                assert(false);
                            }
                            return Err(e);
                        },
                    };
                    self.context = updated2.context;
                    proof {
                        store.lemma_session_at(idx);
                        assert(store.session_index_of(me.id) == idx);
                        assert(store.has_session(me.id));
                    }
                }
            },
            _ => {},
        }
        proof {
            assert(crate::chat_workflow_responses::item_responses(*store, chat_workflow_item.id)
                == crate::chat_workflow_responses::item_responses(st0, chat_workflow_item.id));
            assert(chat_workflow_response == rfg);
        }
        let resolved = match chat_workflow_response {
            Some(r) => r,
            None => {
                proof {
                    assert(false);
                }
                return DatabaseError::business_process_error(
                    "Unable to process response, no valid input provided",
                );
            },
        };
        let valid = match chat_workflow_item.response_valid(&resolved, store) {
            Ok(b) => b,
            Err(e) => {
                proof {
                    assert(false);
                }
                return Err(e);
            },
        };
        if valid {
            return self.select_response(chat_workflow_item, &resolved, input, now, store);
        }
        DatabaseError::business_process_error(
            "Unable to process transfer, chat workflow response not valid for chat workflow item",
        )
    }

    /// The item the session currently stands on, or `None` at a terminal
    /// position.
    pub fn next_chat_workflow_item(&self, store: &Store) -> (r: Result<
        Option<crate::chat_workflow_items::ChatWorkflowItem>,
        DatabaseError,
    >)
        requires
            store.wf(),
        ensures
            match r {
                Ok(found) => match found {
                    Some(item) => self.chat_workflow_item_id matches Some(n) && store.has_item(n)
                        && item == store.spec_item(n),
                    None => self.chat_workflow_item_id is None,
                },
                Err(e) => self.chat_workflow_item_id matches Some(n) && !store.has_item(n)
                    && is_no_results(e) && e.message@ == "Unable to load chat workflow item"@,
            },
    {
        match self.chat_workflow_item_id {
            Some(id) => {
                match crate::chat_workflow_items::ChatWorkflowItem::find(id, store) {
                    Ok(item) => Ok(Some(item)),
                    Err(e) => Err(e),
                }
            },
            None => Ok(None),
        }
    }
}

/// The context value a raw input is recorded as: its text, or null.
pub open spec fn ctxv_of(o: Option<String>) -> crate::context::SpecContextValue {
    match o {
        Some(s) => crate::context::SpecContextValue::Text(s@),
        None => crate::context::SpecContextValue::Null,
    }
}

/// The context value a render tag is recorded as.
pub open spec fn render_tag(
    o: Option<crate::chat_workflow_items::ChatWorkflowItemRenderType>,
) -> crate::context::SpecContextValue {
    match o {
        Some(t) => crate::context::SpecContextValue::Text("OrderDetails"@),
        None => crate::context::SpecContextValue::Null,
    }
}

/// The response chosen after the automatic no-op lookup: with neither a
/// chosen response nor input, the item's first no-op response stands in.
pub open spec fn pr_resolved0(
    store: Store,
    item: crate::chat_workflow_items::ChatWorkflowItem,
    given: Option<crate::chat_workflow_responses::ChatWorkflowResponse>,
    input: Option<String>,
) -> Option<crate::chat_workflow_responses::ChatWorkflowResponse> {
    if given is None && input is None {
        crate::chat_workflow_responses::first_of_type(
            crate::chat_workflow_responses::item_responses(store, item.id),
            crate::chat_workflow_responses::ChatWorkflowResponseType::Noop,
        )
    } else {
        given
    }
}

/// The raw input after a question derives it from the chosen response.
pub open spec fn pr_input1(
    item: crate::chat_workflow_items::ChatWorkflowItem,
    r0: Option<crate::chat_workflow_responses::ChatWorkflowResponse>,
    input: Option<String>,
) -> Option<String> {
    if input is None && item.item_type
        == crate::chat_workflow_items::ChatWorkflowItemType::Question {
        match r0 {
            Some(r) => r.answer_value,
            None => None,
        }
    } else {
        input
    }
}

/// The unique response of the item carrying the answer value.
pub open spec fn answer_response(
    store: Store,
    item_id: u64,
    v: Seq<char>,
) -> crate::chat_workflow_responses::ChatWorkflowResponse {
    store.chat_workflow_responses@[choose|i: int|
        0 <= i < store.chat_workflow_responses@.len()
            && store.chat_workflow_responses@[i].chat_workflow_item_id == item_id
            && crate::strings::opt_view(store.chat_workflow_responses@[i].answer_value) == Some(
            v,
        )]
}

/// The response resolved after matching raw input against answer values.
pub open spec fn pr_resolved1(
    store: Store,
    item: crate::chat_workflow_items::ChatWorkflowItem,
    r0: Option<crate::chat_workflow_responses::ChatWorkflowResponse>,
    in1: Option<String>,
) -> Option<crate::chat_workflow_responses::ChatWorkflowResponse> {
    if r0 is None {
        match in1 {
            Some(v) => if store.answer_taken(item.id, v@, None) {
                Some(answer_response(store, item.id, v@))
            } else {
                None
            },
            None => None,
        }
    } else {
        r0
    }
}

/// The response finally taken: a render step always transitions through its
/// no-op response, whatever was resolved before.
pub open spec fn pr_final(
    store: Store,
    item: crate::chat_workflow_items::ChatWorkflowItem,
    r1: Option<crate::chat_workflow_responses::ChatWorkflowResponse>,
) -> Option<crate::chat_workflow_responses::ChatWorkflowResponse> {
    if item.item_type == crate::chat_workflow_items::ChatWorkflowItemType::Render {
        crate::chat_workflow_responses::first_of_type(
            crate::chat_workflow_responses::item_responses(store, item.id),
            crate::chat_workflow_responses::ChatWorkflowResponseType::Noop,
        )
    } else {
        r1
    }
}

/// The context map after a full transition: the raw input under
/// `last_input`, and the type-specific record — the render tag, or the
/// answer the question resolved to.
pub open spec fn pr_ctx(
    item: crate::chat_workflow_items::ChatWorkflowItem,
    base: Map<Seq<char>, crate::context::SpecContextValue>,
    in1: Option<String>,
    rf: crate::chat_workflow_responses::ChatWorkflowResponse,
) -> Map<Seq<char>, crate::context::SpecContextValue> {
    let m1 = base.insert("last_input"@, ctxv_of(in1));
    if item.item_type == crate::chat_workflow_items::ChatWorkflowItemType::Render {
        m1.insert("render_type"@, render_tag(item.render_type))
    } else if item.item_type == crate::chat_workflow_items::ChatWorkflowItemType::Question {
        m1.insert("answer_selection"@, ctxv_of(rf.answer_value))
    } else {
        m1
    }
}

/// The input finally logged: a question logs the answer value it resolved
/// to, everything else logs the raw input.
pub open spec fn pr_input_final(
    item: crate::chat_workflow_items::ChatWorkflowItem,
    r1: Option<crate::chat_workflow_responses::ChatWorkflowResponse>,
    in1: Option<String>,
) -> Option<String> {
    if item.item_type == crate::chat_workflow_items::ChatWorkflowItemType::Question {
        match r1 {
            Some(r) => r.answer_value,
            None => in1,
        }
    } else {
        in1
    }
}

/// The full state-machine contract of [`ChatSession::process_response`],
/// over the store before (`st0`) and after (`stf`) the call: which of the
/// two hard failures or the committed transition happened, exactly which
/// context keys the session row gained, and the one interaction appended
/// on success. Stated once so that the transport handler can promise the
/// very same transition.
pub open spec fn spec_process_response(
    st0: Store,
    me: ChatSession,
    item: crate::chat_workflow_items::ChatWorkflowItem,
    given: Option<crate::chat_workflow_responses::ChatWorkflowResponse>,
    input: Option<String>,
    now: i64,
    stf: Store,
    r: Result<crate::chat_workflow_interactions::ChatWorkflowInteraction, DatabaseError>,
) -> bool {
    &&& (spec_expired(me, now) ==> (r matches Err(e) && is_business_process_error(
        e,
        "Unable to update chat session as it has expired"@,
    ) && stf == st0))
    &&& (!spec_expired(me, now) && !st0.has_session(me.id) ==> (r matches Err(e) && e.error_code
        == ErrorCode::UpdateError && e.message@ == "Could not update chat session"@ && stf
        == st0))
    &&& (!spec_expired(me, now) && st0.has_session(me.id) ==> ({
        let r0 = pr_resolved0(st0, item, given, input);
        let in1 = pr_input1(item, r0, input);
        let r1 = pr_resolved1(st0, item, r0, in1);
        let rf = pr_final(st0, item, r1);
        let idx = st0.session_index_of(me.id);
        let base = st0.spec_session(me.id);
        let ctx1 = me.context@.insert("last_input"@, ctxv_of(in1));
        let ns = stf.chat_sessions@[idx];
        &&& stf.chat_sessions@.len() == st0.chat_sessions@.len()
        &&& (forall|j: int|
            0 <= j < st0.chat_sessions@.len() && j != idx ==> stf.chat_sessions@[j]
                == st0.chat_sessions@[j])
        &&& ns.id == base.id
        &&& ns.user_id == base.user_id
        &&& ns.chat_workflow_id == base.chat_workflow_id
        &&& ns.expires_at == Some((now + SESSION_EXPIRY_SECONDS) as i64)
        &&& stf.chat_workflows@ == st0.chat_workflows@
        &&& stf.chat_workflow_items@ == st0.chat_workflow_items@
        &&& stf.chat_workflow_responses@ == st0.chat_workflow_responses@
        &&& stf.domain_events@ == st0.domain_events@
        &&& if r1 is None {
            &&& r matches Err(e) && is_business_process_error(
                e,
                "Unable to process response, no valid input provided"@,
            )
            &&& ns.context@ == ctx1
            &&& ns.chat_workflow_item_id == base.chat_workflow_item_id
            &&& stf.chat_workflow_interactions@ == st0.chat_workflow_interactions@
            &&& stf.next_id == st0.next_id
        } else if rf is None {
            &&& r matches Err(e) && is_no_results(e) && e.message@
                == "Could not find a valid response for this response type"@
            &&& ns.context@ == ctx1.insert("render_type"@, render_tag(item.render_type))
            &&& ns.chat_workflow_item_id == base.chat_workflow_item_id
            &&& stf.chat_workflow_interactions@ == st0.chat_workflow_interactions@
            &&& stf.next_id == st0.next_id
        } else if !crate::chat_workflow_items::has_response_of_type(
            st0,
            item.id,
            rf->Some_0.response_type,
        ) {
            &&& r matches Err(e) && is_business_process_error(
                e,
                "Unable to process transfer, chat workflow response not valid for chat workflow item"@,
            )
            &&& ns.context@ == pr_ctx(item, me.context@, in1, rf->Some_0)
            &&& ns.chat_workflow_item_id == base.chat_workflow_item_id
            &&& stf.chat_workflow_interactions@ == st0.chat_workflow_interactions@
            &&& stf.next_id == st0.next_id
        } else {
            &&& r matches Ok(inter) && {
                &&& inter.chat_workflow_item_id == item.id
                &&& inter.chat_workflow_response_id == rf->Some_0.id
                &&& inter.chat_session_id == me.id
                &&& inter.input == pr_input_final(item, r1, in1)
                &&& inter.created_at == now
                &&& stf.chat_workflow_interactions@ == st0.chat_workflow_interactions@.push(
                    inter,
                )
            }
            &&& ns.context@ == pr_ctx(item, me.context@, in1, rf->Some_0)
            &&& ns.chat_workflow_item_id == rf->Some_0.next_chat_workflow_item_id
            &&& stf.next_id == st0.next_id + 1
        }
    }))
}

/// The contract reads nothing of the session but its id, its expiry, and
/// its context map, so sessions equal in those respects satisfy it alike.
pub proof fn lemma_spec_process_response_eqv(
    st0: Store,
    a: ChatSession,
    b: ChatSession,
    item: crate::chat_workflow_items::ChatWorkflowItem,
    given: Option<crate::chat_workflow_responses::ChatWorkflowResponse>,
    input: Option<String>,
    now: i64,
    stf: Store,
    r: Result<crate::chat_workflow_interactions::ChatWorkflowInteraction, DatabaseError>,
)
    requires
        session_eqv(a, b),
    ensures
        spec_process_response(st0, a, item, given, input, now, stf, r)
            == spec_process_response(st0, b, item, given, input, now, stf, r),
{
    assert(spec_expired(a, now) == spec_expired(b, now));
    assert(a.id == b.id);
    assert(a.context@ == b.context@);
}

impl NewChatSession {
    /// Seats the session: the workflow must exist, be published, and have
    /// an initial item; the session starts there with the expiry window
    /// granted from `now`. At most one active session per user per
    /// published workflow is permitted; that rule belongs to the caller,
    /// who checks [`ChatSession::find_active_for_user`] before committing,
    /// as the session-opening endpoint does.
    pub fn commit(&self, now: i64, store: &mut Store) -> (r: Result<ChatSession, DatabaseError>)
        requires
            old(store).wf(),
            old(store).next_id < u64::MAX,
            now <= i64::MAX - SESSION_EXPIRY_SECONDS,
            self.context.wf(),
        ensures
            final(store).wf(),
            !old(store).has_workflow(self.chat_workflow_id) ==> (r matches Err(e) && is_no_results(
                e,
            ) && e.message@ == "Unable to load chat workflow"@ && *final(store) == *old(store)),
            old(store).has_workflow(self.chat_workflow_id) && old(store).spec_workflow(
                self.chat_workflow_id,
            ).status == ChatWorkflowStatus::Draft ==> (r matches Err(e)
                && is_business_process_error(
                e,
                "Unable to start chat session, workflow is in draft status"@,
            ) && *final(store) == *old(store)),
            old(store).has_workflow(self.chat_workflow_id) && old(store).spec_workflow(
                self.chat_workflow_id,
            ).status != ChatWorkflowStatus::Draft && old(store).spec_workflow(
                self.chat_workflow_id,
            ).initial_chat_workflow_item_id is None ==> (r matches Err(e)
                && is_business_process_error(
                e,
                "Unable to start chat session, workflow does not have an initial workflow item"@,
            ) && *final(store) == *old(store)),
            old(store).has_workflow(self.chat_workflow_id) && old(store).spec_workflow(
                self.chat_workflow_id,
            ).status != ChatWorkflowStatus::Draft && old(store).spec_workflow(
                self.chat_workflow_id,
            ).initial_chat_workflow_item_id is Some ==> (r matches Ok(s) && {
                let stored = final(store).chat_sessions@.last();
                &&& s.id == old(store).next_id
                &&& !old(store).has_session(s.id)
                &&& session_eqv(s, stored)
                &&& s.context.wf()
                &&& stored.user_id == self.user_id
                &&& stored.chat_workflow_id == self.chat_workflow_id
                &&& stored.chat_workflow_item_id == old(store).spec_workflow(
                    self.chat_workflow_id,
                ).initial_chat_workflow_item_id
                &&& stored.context@ == self.context@
                &&& stored.expires_at == Some((now + SESSION_EXPIRY_SECONDS) as i64)
                &&& final(store).chat_sessions@.len() == old(store).chat_sessions@.len() + 1
                &&& final(store).chat_sessions@.drop_last() == old(store).chat_sessions@
                &&& final(store).next_id == old(store).next_id + 1
                &&& final(store).chat_workflows@ == old(store).chat_workflows@
                &&& final(store).chat_workflow_items@ == old(store).chat_workflow_items@
                &&& final(store).chat_workflow_responses@ == old(store).chat_workflow_responses@
                &&& final(store).chat_workflow_interactions@ == old(
                    store,
                ).chat_workflow_interactions@
                &&& final(store).domain_events@ == old(store).domain_events@
            }),
    {
        let ghost pre = *old(store);
        let chat_workflow = match crate::chat_workflows::ChatWorkflow::find(
            self.chat_workflow_id,
            store,
        ) {
            Ok(w) => w,
            Err(e) => {
                return Err(e);
            },
        };
        if chat_workflow.status == ChatWorkflowStatus::Draft {
            return DatabaseError::business_process_error(
                "Unable to start chat session, workflow is in draft status",
            );
        }
        let initial = match chat_workflow.initial_chat_workflow_item_id {
            Some(i) => i,
            None => {
                return DatabaseError::business_process_error(
                    "Unable to start chat session, workflow does not have an initial workflow item",
                );
            },
        };
        let id = store.allocate_id();
        let session = ChatSession {
            id,
            user_id: self.user_id,
            chat_workflow_id: self.chat_workflow_id,
            chat_workflow_item_id: Some(initial),
            context: self.context.duplicate(),
            expires_at: Some(ChatSession::next_expires_at(now)),
        };
        let result = session.copied();
        let ghost before = store.chat_sessions@;
        store.chat_sessions.push(session);
        proof {
            assert(store.chat_sessions@.drop_last() =~= before);
            assert(ids_of_sessions(store.chat_sessions@) =~= ids_of_sessions(before).push(id));
            crate::store::lemma_table_ok_push(
                ids_of_sessions(before),
                pre.next_id,
                id,
                store.next_id,
            );
            crate::store::lemma_table_ok_widen(pre.workflow_ids(), pre.next_id, store.next_id);
            crate::store::lemma_table_ok_widen(pre.item_ids(), pre.next_id, store.next_id);
            crate::store::lemma_table_ok_widen(pre.response_ids(), pre.next_id, store.next_id);
            crate::store::lemma_table_ok_widen(pre.interaction_ids(), pre.next_id, store.next_id);
            crate::store::lemma_table_ok_widen(pre.event_ids(), pre.next_id, store.next_id);
            assert(crate::store::sessions_contexts_ok(store.chat_sessions@)) by {
                assert(forall|j: int|
                    0 <= j < before.len() ==> store.chat_sessions@[j] == before[j]);
            }
            assert(!pre.has_session(id)) by {
                if pre.has_session(id) {
                    let i = choose|i: int|
                        0 <= i < pre.chat_sessions@.len() && pre.chat_sessions@[i].id == id;
                    assert(ids_of_sessions(pre.chat_sessions@)[i] == id);
                }
            }
        }
        Ok(result)
    }
}

} // verus!
