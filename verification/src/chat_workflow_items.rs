//! Workflow items: the nodes of the decision graph. An item is a prompt
//! (`Question`), a plain message (`Message`), a client-rendered widget
//! (`Render`), or a terminal marker (`Done`); `Message` and `Render` items
//! receive one automatic `Noop` response on creation so they always have an
//! outgoing edge.

use vstd::prelude::*;

use crate::chat_workflow_responses::{
    first_of_type, item_responses, lemma_first_of_type_at, lemma_first_of_type_none,
    ChatWorkflowResponse, ChatWorkflowResponseType,
};
use crate::chat_sessions::ChatSession;
use crate::error::{is_business_process_error, is_no_results, DatabaseError, ErrorCode};
use crate::store::{ids_of_items, ids_of_responses, table_ok, Store};
use crate::strings::opt_clone;

verus! {

/// The default display delay hint, in seconds, for a new item.
pub const DEFAULT_RESPONSE_WAIT_IN_SECONDS: i32 = 10;

/// The kind of an item.
#[derive(Clone, Copy, Debug, PartialEq, Eq, Structural)]
pub enum ChatWorkflowItemType {
    Message,
    Question,
    Render,
    Done,
}

/// The opaque tag of a `Render` item, interpreted by the client.
#[derive(Clone, Copy, Debug, PartialEq, Eq, Structural)]
pub enum ChatWorkflowItemRenderType {
    OrderDetails,
}

/// A node of the decision graph.
#[derive(Clone, Debug, PartialEq, Eq)]
pub struct ChatWorkflowItem {
    pub id: u64,
    pub chat_workflow_id: u64,
    pub item_type: ChatWorkflowItemType,
    pub message: Option<String>,
    pub render_type: Option<ChatWorkflowItemRenderType>,
    pub response_wait: i32,
}

impl ChatWorkflowItem {
    /// An owned copy, equal to `self` as a value.
    pub fn copied(&self) -> (r: ChatWorkflowItem)
        ensures
            r == *self,
    {
        ChatWorkflowItem {
            id: self.id,
            chat_workflow_id: self.chat_workflow_id,
            item_type: self.item_type,
            message: opt_clone(&self.message),
            render_type: self.render_type,
            response_wait: self.response_wait,
        }
    }
}

/// An item waiting to be committed to the store.
#[derive(Clone, Debug, PartialEq, Eq)]
pub struct NewChatWorkflowItem {
    pub chat_workflow_id: u64,
    pub item_type: ChatWorkflowItemType,
    pub message: Option<String>,
    pub render_type: Option<ChatWorkflowItemRenderType>,
    pub response_wait: i32,
}

/// The fields of an item that an editor may change; a `None` leaves the
/// field as it is, and the inner options distinguish clearing from setting.
#[derive(Clone, Debug, PartialEq, Eq)]
pub struct ChatWorkflowItemEditableAttributes {
    pub message: Option<Option<String>>,
    pub render_type: Option<Option<ChatWorkflowItemRenderType>>,
}

impl Default for ChatWorkflowItemEditableAttributes {
    /// Attributes that change nothing.
    fn default() -> (r: Self)
        ensures
            r.message is None,
            r.render_type is None,
    {
        ChatWorkflowItemEditableAttributes { message: None, render_type: None }
    }
}

impl ChatWorkflowItem {
    /// The response types that may label edges out of an item of this kind:
    /// answers for a question, one automatic no-op for a message or render
    /// step, and nothing for a terminal item.
    pub fn available_response_types(&self) -> (r: Vec<ChatWorkflowResponseType>)
        ensures
            r@ == spec_available_response_types(self.item_type),
    {
        match self.item_type {
            ChatWorkflowItemType::Question => {
                let mut v: Vec<ChatWorkflowResponseType> = Vec::new();
                v.push(ChatWorkflowResponseType::Answer);
                proof {
                    assert(v@ =~= spec_available_response_types(self.item_type));
                }
                v
            },
            ChatWorkflowItemType::Render | ChatWorkflowItemType::Message => {
                let mut v: Vec<ChatWorkflowResponseType> = Vec::new();
                v.push(ChatWorkflowResponseType::Noop);
                proof {
                    assert(v@ =~= spec_available_response_types(self.item_type));
                }
                v
            },
            ChatWorkflowItemType::Done => {
                let v: Vec<ChatWorkflowResponseType> = Vec::new();
                proof {
                    assert(v@ =~= spec_available_response_types(self.item_type));
                }
                v
            },
        }
    }
}

/// The response types allowed on an item of the given kind.
pub open spec fn spec_available_response_types(t: ChatWorkflowItemType) -> Seq<
    ChatWorkflowResponseType,
> {
    match t {
        ChatWorkflowItemType::Question => seq![ChatWorkflowResponseType::Answer],
        ChatWorkflowItemType::Render => seq![ChatWorkflowResponseType::Noop],
        ChatWorkflowItemType::Message => seq![ChatWorkflowResponseType::Noop],
        ChatWorkflowItemType::Done => Seq::empty(),
    }
}

/// Whether some workflow names the item as its initial item.
pub open spec fn used_as_initial(store: Store, item_id: u64) -> bool {
    exists|i: int|
        0 <= i < store.chat_workflows@.len()
            && store.chat_workflows@[i].initial_chat_workflow_item_id == Some(item_id)
}

/// Whether some response of the item carries the given type.
pub open spec fn has_response_of_type(
    store: Store,
    item_id: u64,
    t: ChatWorkflowResponseType,
) -> bool {
    exists|i: int|
        0 <= i < store.chat_workflow_responses@.len()
            && (#[trigger] store.chat_workflow_responses@[i]).chat_workflow_item_id == item_id
            && store.chat_workflow_responses@[i].response_type == t
}

/// The response types the editor may still add to the item: a question
/// never runs out of answers, a message or render step may hold its one
/// no-op only once, and a terminal item takes nothing.
pub open spec fn spec_remaining_response_types(store: Store, item: ChatWorkflowItem) -> Seq<
    ChatWorkflowResponseType,
> {
    match item.item_type {
        ChatWorkflowItemType::Question => seq![ChatWorkflowResponseType::Answer],
        ChatWorkflowItemType::Render | ChatWorkflowItemType::Message => {
            if has_response_of_type(store, item.id, ChatWorkflowResponseType::Noop) {
                Seq::empty()
            } else {
                seq![ChatWorkflowResponseType::Noop]
            }
        },
        ChatWorkflowItemType::Done => Seq::empty(),
    }
}

/// `s` without the item of the given id.
pub open spec fn items_without_id(s: Seq<ChatWorkflowItem>, id: u64) -> Seq<ChatWorkflowItem>
    decreases s.len(),
{
    if s.len() == 0 {
        Seq::empty()
    } else {
        let rest = items_without_id(s.drop_last(), id);
        if s.last().id == id {
            rest
        } else {
            rest.push(s.last())
        }
    }
}

/// `x` with a next-item pointer at the deleted item cleared.
pub open spec fn next_repaired(x: ChatWorkflowResponse, item_id: u64) -> ChatWorkflowResponse {
    if x.next_chat_workflow_item_id == Some(item_id) {
        ChatWorkflowResponse { next_chat_workflow_item_id: None, ..x }
    } else {
        x
    }
}

/// The response table after deleting the item: the item's own responses are
/// gone and every surviving edge into the item is cleared.
pub open spec fn responses_after_item_delete(
    s: Seq<ChatWorkflowResponse>,
    item_id: u64,
) -> Seq<ChatWorkflowResponse>
    decreases s.len(),
{
    if s.len() == 0 {
        Seq::empty()
    } else {
        let rest = responses_after_item_delete(s.drop_last(), item_id);
        if s.last().chat_workflow_item_id == item_id {
            rest
        } else {
            rest.push(next_repaired(s.last(), item_id))
        }
    }
}

/// Dropping an id keeps the item table's ids fresh and distinct.
proof fn lemma_items_without_id(s: Seq<ChatWorkflowItem>, id: u64, bound: u64)
    requires
        table_ok(ids_of_items(s), bound),
    ensures
        table_ok(ids_of_items(items_without_id(s, id)), bound),
        forall|k: int|
            0 <= k < items_without_id(s, id).len() ==> (exists|j: int|
                0 <= j < s.len() && s[j] == items_without_id(s, id)[k]) && (
            #[trigger] items_without_id(s, id)[k]).id != id,
        forall|k: int|
            0 <= k < s.len() && (#[trigger] s[k]).id != id ==> exists|j: int|
                0 <= j < items_without_id(s, id).len() && items_without_id(s, id)[j] == s[k],
    decreases s.len(),
{
    if s.len() > 0 {
        let d = s.drop_last();
        assert(table_ok(ids_of_items(d), bound)) by {
            assert(forall|i: int| 0 <= i < d.len() ==> ids_of_items(d)[i] == ids_of_items(s)[i]);
        }
        lemma_items_without_id(d, id, bound);
        let f = items_without_id(s, id);
        let fd = items_without_id(d, id);
        assert forall|k: int| 0 <= k < f.len() implies (exists|j: int|
            0 <= j < s.len() && s[j] == f[k]) && (#[trigger] f[k]).id != id by {
            if s.last().id != id && k == f.len() - 1 {
                assert(s[s.len() - 1] == f[k]);
            } else {
                assert(f[k] == fd[k]);
                let j = choose|j: int| 0 <= j < d.len() && d[j] == f[k];
                assert(s[j] == f[k]);
            }
        }
        assert forall|k: int| 0 <= k < s.len() && (#[trigger] s[k]).id != id implies exists|j: int|
            0 <= j < f.len() && f[j] == s[k] by {
            if k == s.len() - 1 {
                assert(f[f.len() - 1] == s[k]);
            } else {
                assert(d[k] == s[k]);
                let j = choose|j: int| 0 <= j < fd.len() && fd[j] == d[k];
                assert(f[j] == s[k]);
            }
        }
        assert forall|i: int| 0 <= i < f.len() implies 1 <= #[trigger] ids_of_items(f)[i]
            < bound by {
            let j = choose|j: int| 0 <= j < s.len() && s[j] == f[i];
            assert(ids_of_items(s)[j] == f[i].id);
        }
        assert forall|i: int, j: int| 0 <= i < j < f.len() implies ids_of_items(f)[i]
            != ids_of_items(f)[j] by {
            if s.last().id != id && j == f.len() - 1 {
                let m = choose|m: int| 0 <= m < d.len() && d[m] == f[i];
                assert(ids_of_items(s)[m] == f[i].id);
                assert(ids_of_items(s)[s.len() - 1] == f[j].id);
            } else {
                assert(ids_of_items(fd)[i] == ids_of_items(f)[i]);
                assert(ids_of_items(fd)[j] == ids_of_items(f)[j]);
            }
        }
    }
}

/// Deleting an item keeps the response table well-formed: survivors keep
/// their ids, items and answers, so freshness, distinctness and answer
/// uniqueness carry over.
proof fn lemma_responses_after_item_delete(s: Seq<ChatWorkflowResponse>, item_id: u64, bound: u64)
    requires
        table_ok(ids_of_responses(s), bound),
        crate::store::answers_unique(s),
    ensures
        table_ok(ids_of_responses(responses_after_item_delete(s, item_id)), bound),
        crate::store::answers_unique(responses_after_item_delete(s, item_id)),
    decreases s.len(),
{
    if s.len() > 0 {
        let d = s.drop_last();
        assert(table_ok(ids_of_responses(d), bound)) by {
            assert(forall|i: int| 0 <= i < d.len() ==> ids_of_responses(d)[i] == ids_of_responses(
                s,
            )[i]);
        }
        assert(crate::store::answers_unique(d)) by {
            assert(forall|i: int| 0 <= i < d.len() ==> d[i] == s[i]);
        }
        lemma_responses_after_item_delete(d, item_id, bound);
        lemma_responses_after_item_delete_origin(s, item_id);
        let f = responses_after_item_delete(s, item_id);
        assert forall|i: int| 0 <= i < f.len() implies 1 <= #[trigger] ids_of_responses(f)[i]
            < bound by {
            let j = origin_of(s, item_id, i);
            assert(ids_of_responses(s)[j] == f[i].id);
        }
        assert forall|i: int, j: int| 0 <= i < j < f.len() implies ids_of_responses(f)[i]
            != ids_of_responses(f)[j] by {
            let a = origin_of(s, item_id, i);
            let b = origin_of(s, item_id, j);
            if a == b {
                assert(f[i].id == s[a].id && f[j].id == s[b].id);
                lemma_origin_monotone(s, item_id, i, j);
            } else if a < b {
                assert(ids_of_responses(s)[a] == f[i].id);
                assert(ids_of_responses(s)[b] == f[j].id);
            } else {
                assert(ids_of_responses(s)[a] == f[i].id);
                assert(ids_of_responses(s)[b] == f[j].id);
            }
        }
        assert forall|i: int, j: int|
            0 <= i < j < f.len() && f[i].chat_workflow_item_id == f[j].chat_workflow_item_id
                && f[i].answer_value is Some && f[j].answer_value is Some implies
            crate::strings::opt_view(f[i].answer_value) != crate::strings::opt_view(
            f[j].answer_value,
        ) by {
            let a = origin_of(s, item_id, i);
            let b = origin_of(s, item_id, j);
            if a == b {
                lemma_origin_monotone(s, item_id, i, j);
            } else if a < b {
                assert(crate::strings::opt_view(s[a].answer_value) != crate::strings::opt_view(
                    s[b].answer_value,
                ));
            } else {
                assert(crate::strings::opt_view(s[b].answer_value) != crate::strings::opt_view(
                    s[a].answer_value,
                ));
            }
        }
    }
}

/// The position in `s` that survivor `k` of the item deletion came from.
pub open spec fn origin_of(s: Seq<ChatWorkflowResponse>, item_id: u64, k: int) -> int
    decreases s.len(),
{
    if s.len() == 0 {
        0
    } else {
        let rest = responses_after_item_delete(s.drop_last(), item_id);
        if s.last().chat_workflow_item_id == item_id {
            origin_of(s.drop_last(), item_id, k)
        } else if k == rest.len() {
            s.len() - 1
        } else {
            origin_of(s.drop_last(), item_id, k)
        }
    }
}

/// Each survivor of the item deletion is its origin with the edge repaired.
proof fn lemma_responses_after_item_delete_origin(s: Seq<ChatWorkflowResponse>, item_id: u64)
    ensures
        responses_after_item_delete(s, item_id).len() <= s.len(),
        forall|k: int|
            0 <= k < responses_after_item_delete(s, item_id).len() ==> {
                let j = origin_of(s, item_id, k);
                &&& 0 <= j < s.len()
                &&& #[trigger] responses_after_item_delete(s, item_id)[k] == next_repaired(
                    s[j],
                    item_id,
                )
            },
    decreases s.len(),
{
    if s.len() > 0 {
        let d = s.drop_last();
        lemma_responses_after_item_delete_origin(d, item_id);
        let f = responses_after_item_delete(s, item_id);
        assert forall|k: int| 0 <= k < f.len() implies {
            let j = origin_of(s, item_id, k);
            &&& 0 <= j < s.len()
            &&& #[trigger] f[k] == next_repaired(s[j], item_id)
        } by {
            let rest = responses_after_item_delete(d, item_id);
            if s.last().chat_workflow_item_id == item_id {
                assert(f[k] == rest[k]);
                assert(d[origin_of(d, item_id, k)] == s[origin_of(d, item_id, k)]);
            } else if k == rest.len() {
            } else {
                assert(f[k] == rest[k]);
                assert(d[origin_of(d, item_id, k)] == s[origin_of(d, item_id, k)]);
            }
        }
    }
}

/// Origins grow strictly with survivor positions.
proof fn lemma_origin_monotone(s: Seq<ChatWorkflowResponse>, item_id: u64, i: int, j: int)
    requires
        0 <= i < j < responses_after_item_delete(s, item_id).len(),
    ensures
        origin_of(s, item_id, i) < origin_of(s, item_id, j),
    decreases s.len(),
{
    if s.len() > 0 {
        let d = s.drop_last();
        let rest = responses_after_item_delete(d, item_id);
        if s.last().chat_workflow_item_id == item_id {
            lemma_origin_monotone(d, item_id, i, j);
        } else if j == rest.len() {
            lemma_origin_bound(d, item_id, i);
        } else {
            lemma_origin_monotone(d, item_id, i, j);
        }
    }
}

/// Origins stay within the sequence.
proof fn lemma_origin_bound(s: Seq<ChatWorkflowResponse>, item_id: u64, k: int)
    requires
        0 <= k < responses_after_item_delete(s, item_id).len(),
    ensures
        0 <= origin_of(s, item_id, k) < s.len(),
    decreases s.len(),
{
    if s.len() > 0 {
        let d = s.drop_last();
        let rest = responses_after_item_delete(d, item_id);
        if s.last().chat_workflow_item_id == item_id {
            lemma_origin_bound(d, item_id, k);
        } else if k == rest.len() {
        } else {
            lemma_origin_bound(d, item_id, k);
        }
    }
}

impl ChatWorkflowItem {
    /// An item ready to be committed; an absent wait falls back to the
    /// default delay.
    pub fn create(
        chat_workflow_id: u64,
        item_type: ChatWorkflowItemType,
        message: Option<String>,
        render_type: Option<ChatWorkflowItemRenderType>,
        response_wait: Option<i32>,
    ) -> (r: NewChatWorkflowItem)
        ensures
            r.chat_workflow_id == chat_workflow_id,
            r.item_type == item_type,
            r.message == message,
            r.render_type == render_type,
            r.response_wait == match response_wait {
                Some(w) => w,
                None => DEFAULT_RESPONSE_WAIT_IN_SECONDS,
            },
    {
        NewChatWorkflowItem {
            chat_workflow_id,
            item_type,
            message,
            render_type,
            response_wait: match response_wait {
                Some(w) => w,
                None => DEFAULT_RESPONSE_WAIT_IN_SECONDS,
            },
        }
    }

    /// The item with the given id; absence is `NoResults`.
    pub fn find(id: u64, store: &Store) -> (r: Result<ChatWorkflowItem, DatabaseError>)
        requires
            store.wf(),
        ensures
            match r {
                Ok(x) => store.has_item(id) && x == store.spec_item(id),
                Err(e) => !store.has_item(id) && is_no_results(e) && e.message@
                    == "Unable to load chat workflow item"@,
            },
    {
        match store.find_item_index(id) {
            Some(i) => {
                proof {
                    store.lemma_item_at(i as int);
                }
                Ok(store.chat_workflow_items[i].copied())
            },
            None => DatabaseError::no_results("Unable to load chat workflow item"),
        }
    }

    /// The workflow this item belongs to; absence is `NoResults`.
    pub fn chat_workflow(&self, store: &Store) -> (r: Result<
        crate::chat_workflows::ChatWorkflow,
        DatabaseError,
    >)
        requires
            store.wf(),
        ensures
            match r {
                Ok(x) => store.has_workflow(self.chat_workflow_id) && x == store.spec_workflow(
                    self.chat_workflow_id,
                ),
                Err(e) => !store.has_workflow(self.chat_workflow_id) && is_no_results(e)
                    && e.message@ == "Unable to load chat workflow"@,
            },
    {
        match store.find_workflow_index(self.chat_workflow_id) {
            Some(i) => {
                proof {
                    store.lemma_workflow_at(i as int);
                }
                Ok(store.chat_workflows[i].copied())
            },
            None => DatabaseError::no_results("Unable to load chat workflow"),
        }
    }

    /// The item's responses, ordered by rank.
    pub fn responses(&self, store: &Store) -> (r: Result<Vec<ChatWorkflowResponse>, DatabaseError>)
        ensures
            r matches Ok(v) && v@ == item_responses(*store, self.id),
    {
        Ok(crate::chat_workflow_responses::collect_item_responses(store, self.id))
    }

    /// The response types attached to the item, in rank order.
    pub fn response_types(&self, store: &Store) -> (r: Result<
        Vec<ChatWorkflowResponseType>,
        DatabaseError,
    >)
        ensures
            r matches Ok(v) && v@ == item_responses(*store, self.id).map_values(
                |x: ChatWorkflowResponse| x.response_type,
            ),
    {
        let responses = crate::chat_workflow_responses::collect_item_responses(store, self.id);
        let mut out: Vec<ChatWorkflowResponseType> = Vec::new();
        let n = responses.len();
        let mut i: usize = 0;
        while i < n
            invariant
                n == responses@.len(),
                i <= n,
                out@.len() == i,
                forall|j: int| 0 <= j < i ==> out@[j] == responses@[j].response_type,
            decreases n - i,
        {
            out.push(responses[i].response_type);
            i += 1;
        }
        proof {
            assert(out@ =~= responses@.map_values(|x: ChatWorkflowResponse| x.response_type));
        }
        Ok(out)
    }

    /// Whether the response's type is among the types attached to the item.
    pub fn response_valid(
        &self,
        chat_workflow_response: &ChatWorkflowResponse,
        store: &Store,
    ) -> (r: Result<bool, DatabaseError>)
        ensures
            r matches Ok(b) && b == has_response_of_type(
                *store,
                self.id,
                chat_workflow_response.response_type,
            ),
    {
        Ok(find_type_in_store(store, self.id, chat_workflow_response.response_type))
    }

    /// The response types the editor may still add to the item.
    pub fn remaining_response_types(&self, store: &Store) -> (r: Result<
        Vec<ChatWorkflowResponseType>,
        DatabaseError,
    >)
        ensures
            r matches Ok(v) && v@ == spec_remaining_response_types(*store, *self),
    {
        match self.item_type {
            ChatWorkflowItemType::Question => {
                let mut v: Vec<ChatWorkflowResponseType> = Vec::new();
                v.push(ChatWorkflowResponseType::Answer);
                proof {
                    assert(v@ =~= spec_remaining_response_types(*store, *self));
                }
                Ok(v)
            },
            ChatWorkflowItemType::Render | ChatWorkflowItemType::Message => {
                if find_type_in_store(store, self.id, ChatWorkflowResponseType::Noop) {
                    let v: Vec<ChatWorkflowResponseType> = Vec::new();
                    proof {
                        assert(v@ =~= spec_remaining_response_types(*store, *self));
                    }
                    Ok(v)
                } else {
                    let mut v: Vec<ChatWorkflowResponseType> = Vec::new();
                    v.push(ChatWorkflowResponseType::Noop);
                    proof {
                        assert(v@ =~= spec_remaining_response_types(*store, *self));
                    }
                    Ok(v)
                }
            },
            ChatWorkflowItemType::Done => {
                let v: Vec<ChatWorkflowResponseType> = Vec::new();
                proof {
                    assert(v@ =~= spec_remaining_response_types(*store, *self));
                }
                Ok(v)
            },
        }
    }

    /// The first response of the item, in rank order, carrying the given
    /// type; absence is `NoResults`.
    pub fn find_chat_workflow_response_by_response_type(
        &self,
        response_type: ChatWorkflowResponseType,
        store: &Store,
    ) -> (r: Result<ChatWorkflowResponse, DatabaseError>)
        ensures
            match r {
                Ok(x) => first_of_type(item_responses(*store, self.id), response_type) == Some(x),
                Err(e) => first_of_type(item_responses(*store, self.id), response_type) is None
                    && is_no_results(e) && e.message@
                    == "Could not find a valid response for this response type"@,
            },
    {
        let responses = crate::chat_workflow_responses::collect_item_responses(store, self.id);
        let n = responses.len();
        let mut i: usize = 0;
        while i < n
            invariant
                n == responses@.len(),
                responses@ == item_responses(*store, self.id),
                i <= n,
                forall|j: int| 0 <= j < i ==> (#[trigger] responses@[j]).response_type
                    != response_type,
            decreases n - i,
        {
            if responses[i].response_type == response_type {
                proof {
                    lemma_first_of_type_at(responses@, response_type, i as int);
                }
                return Ok(responses[i].copied());
            }
            i += 1;
        }
        proof {
            lemma_first_of_type_none(responses@, response_type);
        }
        DatabaseError::no_results("Could not find a valid response for this response type")
    }

    /// The item's message with template placeholders substituted from the
    /// session's context; `None` when the item has no message.
    pub fn message(&self, chat_session: &ChatSession) -> (r: Option<String>)
        requires
            chat_session.context.wf(),
        ensures
            match (r, self.message) {
                (Some(out), Some(m)) => out@ == crate::strings::rendered_template(
                    m@,
                    chat_session.context@,
                ),
                (None, None) => true,
                _ => false,
            },
    {
        match &self.message {
            Some(m) => Some(crate::strings::render_template(m.as_str(), &chat_session.context)),
            None => None,
        }
    }

    /// Applies the attributes to the stored item of `self.id`.
    pub fn update(
        &self,
        attributes: ChatWorkflowItemEditableAttributes,
        store: &mut Store,
    ) -> (r: Result<ChatWorkflowItem, DatabaseError>)
        requires
            old(store).wf(),
        ensures
            final(store).wf(),
            !old(store).has_item(self.id) ==> (r matches Err(e) && e.error_code
                == ErrorCode::UpdateError && e.message@ == "Could not update chat workflow item"@
                && *final(store) == *old(store)),
            old(store).has_item(self.id) ==> (r matches Ok(item) && {
                let idx = old(store).item_index_of(self.id);
                let base = old(store).spec_item(self.id);
                &&& item == apply_item_attrs(base, attributes)
                &&& final(store).chat_workflow_items@ == old(store).chat_workflow_items@.update(
                    idx,
                    item,
                )
                &&& final(store).next_id == old(store).next_id
                &&& final(store).chat_workflows@ == old(store).chat_workflows@
                &&& final(store).chat_workflow_responses@ == old(store).chat_workflow_responses@
                &&& final(store).chat_sessions@ == old(store).chat_sessions@
                &&& final(store).chat_workflow_interactions@ == old(
                    store,
                ).chat_workflow_interactions@
                &&& final(store).domain_events@ == old(store).domain_events@
            }),
    {
        let i = match store.find_item_index(self.id) {
            Some(i) => i,
            None => {
                return Err(DatabaseError::new(
                    ErrorCode::UpdateError,
                    "Could not update chat workflow item",
                ));
            },
        };
        proof {
            store.lemma_item_at(i as int);
        }
        let base = store.chat_workflow_items[i].copied();
        let updated = ChatWorkflowItem {
            id: base.id,
            chat_workflow_id: base.chat_workflow_id,
            item_type: base.item_type,
            message: match attributes.message {
                Some(m) => m,
                None => base.message,
            },
            render_type: match attributes.render_type {
                Some(t) => t,
                None => base.render_type,
            },
            response_wait: base.response_wait,
        };
        let result = updated.copied();
        let ghost before = store.chat_workflow_items@;
        store.chat_workflow_items.set(i, updated);
        proof {
            assert(ids_of_items(store.chat_workflow_items@) =~= ids_of_items(before));
            assert(table_ok(ids_of_items(store.chat_workflow_items@), store.next_id));
        }
        Ok(result)
    }

    /// Destroys the item: refused while any workflow names it as initial;
    /// otherwise its responses die with it and surviving edges into it are
    /// cleared.
    pub fn destroy(&self, store: &mut Store) -> (r: Result<(), DatabaseError>)
        requires
            old(store).wf(),
        ensures
            final(store).wf(),
            used_as_initial(*old(store), self.id) ==> (r matches Err(e)
                && is_business_process_error(
                e,
                "Chat workflow item cannot be destroyed, used as an initial chat workflow item"@,
            ) && *final(store) == *old(store)),
            !used_as_initial(*old(store), self.id) ==> (r is Ok && {
                &&& final(store).chat_workflow_items@ == items_without_id(
                    old(store).chat_workflow_items@,
                    self.id,
                )
                &&& final(store).chat_workflow_responses@ == responses_after_item_delete(
                    old(store).chat_workflow_responses@,
                    self.id,
                )
                &&& final(store).next_id == old(store).next_id
                &&& final(store).chat_workflows@ == old(store).chat_workflows@
                &&& final(store).chat_sessions@ == old(store).chat_sessions@
                &&& final(store).chat_workflow_interactions@ == old(
                    store,
                ).chat_workflow_interactions@
                &&& final(store).domain_events@ == old(store).domain_events@
            }),
    {
        let ghost pre = *old(store);
        let wn = store.chat_workflows.len();
        let mut w: usize = 0;
        while w < wn
            invariant
                *store == pre,
                pre.wf(),
                wn == store.chat_workflows@.len(),
                w <= wn,
                forall|j: int|
                    0 <= j < w ==> (#[trigger] store.chat_workflows@[j]).initial_chat_workflow_item_id
                        != Some(self.id),
            decreases wn - w,
        {
            if match store.chat_workflows[w].initial_chat_workflow_item_id {
                Some(i) => i == self.id,
                None => false,
            } {
                return DatabaseError::business_process_error(
                    "Chat workflow item cannot be destroyed, used as an initial chat workflow item",
                );
            }
            w += 1;
        }
        let mut responses: Vec<ChatWorkflowResponse> = Vec::new();
        let rn = store.chat_workflow_responses.len();
        let mut i: usize = 0;
        while i < rn
            invariant
                rn == store.chat_workflow_responses@.len(),
                store.chat_workflow_responses@ == pre.chat_workflow_responses@,
                i <= rn,
                responses@ == responses_after_item_delete(
                    store.chat_workflow_responses@.take(i as int),
                    self.id,
                ),
            decreases rn - i,
        {
            let ghost prefix = store.chat_workflow_responses@.take(i as int);
            if store.chat_workflow_responses[i].chat_workflow_item_id != self.id {
                let mut kept = store.chat_workflow_responses[i].copied();
                if match kept.next_chat_workflow_item_id {
                    Some(n) => n == self.id,
                    None => false,
                } {
                    kept.next_chat_workflow_item_id = None;
                }
                responses.push(kept);
            }
            proof {
                assert(store.chat_workflow_responses@.take(i + 1).drop_last() =~= prefix);
                assert(store.chat_workflow_responses@.take(i + 1).last()
                    == store.chat_workflow_responses@[i as int]);
            }
            i += 1;
        }
        proof {
            assert(store.chat_workflow_responses@.take(rn as int)
                =~= store.chat_workflow_responses@);
        }
        store.chat_workflow_responses = responses;
        let mut items: Vec<ChatWorkflowItem> = Vec::new();
        let iN = store.chat_workflow_items.len();
        let mut k: usize = 0;
        while k < iN
            invariant
                iN == store.chat_workflow_items@.len(),
                store.chat_workflow_items@ == pre.chat_workflow_items@,
                k <= iN,
                items@ == items_without_id(store.chat_workflow_items@.take(k as int), self.id),
            decreases iN - k,
        {
            let ghost prefix = store.chat_workflow_items@.take(k as int);
            if store.chat_workflow_items[k].id != self.id {
                items.push(store.chat_workflow_items[k].copied());
            }
            proof {
                assert(store.chat_workflow_items@.take(k + 1).drop_last() =~= prefix);
                assert(store.chat_workflow_items@.take(k + 1).last()
                    == store.chat_workflow_items@[k as int]);
            }
            k += 1;
        }
        proof {
            assert(store.chat_workflow_items@.take(iN as int) =~= store.chat_workflow_items@);
        }
        store.chat_workflow_items = items;
        proof {
            lemma_items_without_id(pre.chat_workflow_items@, self.id, pre.next_id);
            lemma_responses_after_item_delete(pre.chat_workflow_responses@, self.id, pre.next_id);
            lemma_responses_after_item_delete_origin(pre.chat_workflow_responses@, self.id);
            assert(crate::store::response_items_below(
                store.chat_workflow_responses@,
                store.next_id,
            )) by {
                let f = store.chat_workflow_responses@;
                assert forall|k: int| 0 <= k < f.len() implies (
                #[trigger] f[k]).chat_workflow_item_id < store.next_id by {
                    let j = origin_of(pre.chat_workflow_responses@, self.id, k);
                    assert(f[k] == next_repaired(pre.chat_workflow_responses@[j], self.id));
                }
            }
        }
        Ok(())
    }
}

/// Whether items of this kind automatically receive one `Noop` response on
/// creation, so they always have an outgoing edge.
pub open spec fn auto_noop(t: ChatWorkflowItemType) -> bool {
    t == ChatWorkflowItemType::Message || t == ChatWorkflowItemType::Render
}

impl NewChatWorkflowItem {
    /// Commits the item; the workflow must exist. A `Message` or `Render`
    /// item receives one automatic `Noop` response at rank 1.
    pub fn commit(&self, store: &mut Store) -> (r: Result<ChatWorkflowItem, DatabaseError>)
        requires
            old(store).wf(),
            old(store).next_id < u64::MAX - 1,
        ensures
            final(store).wf(),
            !old(store).has_workflow(self.chat_workflow_id) ==> (r matches Err(e) && e.error_code
                == ErrorCode::InsertError && e.message@ == "Could not create chat workflow item"@
                && *final(store) == *old(store)),
            old(store).has_workflow(self.chat_workflow_id) ==> (r matches Ok(item) && {
                &&& item.id == old(store).next_id
                &&& !old(store).has_item(item.id)
                &&& item.chat_workflow_id == self.chat_workflow_id
                &&& item.item_type == self.item_type
                &&& item.message == self.message
                &&& item.render_type == self.render_type
                &&& item.response_wait == self.response_wait
                &&& final(store).chat_workflow_items@ == old(store).chat_workflow_items@.push(item)
                &&& final(store).chat_workflows@ == old(store).chat_workflows@
                &&& final(store).chat_sessions@ == old(store).chat_sessions@
                &&& final(store).chat_workflow_interactions@ == old(
                    store,
                ).chat_workflow_interactions@
                &&& final(store).domain_events@ == old(store).domain_events@
                &&& if auto_noop(self.item_type) {
                    &&& final(store).next_id == old(store).next_id + 2
                    &&& final(store).chat_workflow_responses@.len() == old(
                        store,
                    ).chat_workflow_responses@.len() + 1
                    &&& final(store).chat_workflow_responses@.drop_last() == old(
                        store,
                    ).chat_workflow_responses@
                    &&& ({
                        let noop = final(store).chat_workflow_responses@.last();
                        &&& noop.id == old(store).next_id + 1
                        &&& noop.chat_workflow_item_id == item.id
                        &&& noop.response_type
                            == crate::chat_workflow_responses::ChatWorkflowResponseType::Noop
                        &&& noop.response is None
                        &&& noop.answer_value is None
                        &&& noop.next_chat_workflow_item_id is None
                        &&& noop.rank == 1
                    })
                } else {
                    &&& final(store).next_id == old(store).next_id + 1
                    &&& final(store).chat_workflow_responses@ == old(
                        store,
                    ).chat_workflow_responses@
                }
            }),
    {
        let ghost pre = *old(store);
        if store.find_workflow_index(self.chat_workflow_id).is_none() {
            return Err(DatabaseError::new(
                ErrorCode::InsertError,
                "Could not create chat workflow item",
            ));
        }
        let id = store.allocate_id();
        let item = ChatWorkflowItem {
            id,
            chat_workflow_id: self.chat_workflow_id,
            item_type: self.item_type,
            message: opt_clone(&self.message),
            render_type: self.render_type,
            response_wait: self.response_wait,
        };
        let result = item.copied();
        let ghost before = store.chat_workflow_items@;
        store.chat_workflow_items.push(item);
        proof {
            assert(store.chat_workflow_items@.drop_last() =~= before);
            assert(ids_of_items(store.chat_workflow_items@) =~= ids_of_items(before).push(id));
            crate::store::lemma_table_ok_push(ids_of_items(before), pre.next_id, id, store.next_id);
            crate::store::lemma_table_ok_widen(pre.workflow_ids(), pre.next_id, store.next_id);
            crate::store::lemma_table_ok_widen(pre.response_ids(), pre.next_id, store.next_id);
            crate::store::lemma_table_ok_widen(pre.session_ids(), pre.next_id, store.next_id);
            crate::store::lemma_table_ok_widen(pre.interaction_ids(), pre.next_id, store.next_id);
            crate::store::lemma_table_ok_widen(pre.event_ids(), pre.next_id, store.next_id);
            assert(!pre.has_item(id)) by {
                if pre.has_item(id) {
                    let i = choose|i: int|
                        0 <= i < pre.chat_workflow_items@.len()
                            && pre.chat_workflow_items@[i].id == id;
                    assert(ids_of_items(pre.chat_workflow_items@)[i] == id);
                }
            }
        }
        let is_auto = match self.item_type {
            ChatWorkflowItemType::Message | ChatWorkflowItemType::Render => true,
            _ => false,
        };
        if is_auto {
            let ghost mid = *store;
            let noop = ChatWorkflowResponse::create(
                result.id,
                ChatWorkflowResponseType::Noop,
                None,
                None,
                None,
                1,
            );
            proof {
                assert(crate::chat_workflow_responses::insert_shift_in_range(
                    mid.chat_workflow_responses@,
                    result.id,
                    1,
                )) by {
                    assert forall|k: int|
                        0 <= k < mid.chat_workflow_responses@.len() && (
                        #[trigger] mid.chat_workflow_responses@[k]).chat_workflow_item_id
                            == result.id && mid.chat_workflow_responses@[k].rank >= 1 implies
                        mid.chat_workflow_responses@[k].rank < i64::MAX by {
                        assert(mid.chat_workflow_responses@[k].chat_workflow_item_id
                            < pre.next_id);
                    }
                }
                assert(mid.has_item(result.id)) by {
                    assert(mid.chat_workflow_items@[mid.chat_workflow_items@.len() - 1].id
                        == result.id);
                }
            }
            let committed = match noop.commit(store) {
                Ok(x) => x,
                Err(_) => {
                    proof {
                        assert(false);
                    }
                    return Err(DatabaseError::new(
                        ErrorCode::InsertError,
                        "Could not create chat workflow item",
                    ));
                },
            };
            proof {
                let cur = store.chat_workflow_responses@;
                let pushed = mid.chat_workflow_responses@.push(committed);
                assert(cur =~= pushed) by {
                    assert forall|k: int| 0 <= k < pushed.len() implies cur[k] == pushed[k] by {
                        assert(cur[k] == crate::chat_workflow_responses::shifted_response(
                            pushed[k],
                            result.id,
                            committed.id,
                            1,
                            None,
                        ));
                        if k < mid.chat_workflow_responses@.len() {
                            assert(pushed[k] == mid.chat_workflow_responses@[k]);
                            assert(mid.chat_workflow_responses@[k].chat_workflow_item_id
                                < pre.next_id);
                        }
                    }
                }
                assert(cur.drop_last() =~= mid.chat_workflow_responses@);
            }
            Ok(result)
        } else {
            Ok(result)
        }
    }
}

/// `base` with the given attributes applied.
pub open spec fn apply_item_attrs(
    base: ChatWorkflowItem,
    a: ChatWorkflowItemEditableAttributes,
) -> ChatWorkflowItem {
    ChatWorkflowItem {
        message: match a.message {
            Some(m) => m,
            None => base.message,
        },
        render_type: match a.render_type {
            Some(t) => t,
            None => base.render_type,
        },
        ..base
    }
}

/// Whether some response of the item carries the type, decided by a scan.
fn find_type_in_store(store: &Store, item_id: u64, t: ChatWorkflowResponseType) -> (r: bool)
    ensures
        r == has_response_of_type(*store, item_id, t),
{
    let n = store.chat_workflow_responses.len();
    let mut i: usize = 0;
    while i < n
        invariant
            n == store.chat_workflow_responses@.len(),
            i <= n,
            forall|j: int|
                0 <= j < i ==> !((#[trigger] store.chat_workflow_responses@[j]).chat_workflow_item_id
                    == item_id && store.chat_workflow_responses@[j].response_type == t),
        decreases n - i,
    {
        if store.chat_workflow_responses[i].chat_workflow_item_id == item_id
            && store.chat_workflow_responses[i].response_type == t {
            return true;
        }
        i += 1;
    }
    false
}


} // verus!
