//! The graph store: an in-memory arena holding every workflow, item,
//! response, session, interaction and audit event, keyed by opaque integer
//! ids drawn from one counter. Its well-formedness — fresh distinct ids,
//! unique workflow names, unique answer values within an item — is what
//! every operation requires and preserves.

use vstd::prelude::*;

use crate::chat_sessions::ChatSession;
use crate::chat_workflow_interactions::ChatWorkflowInteraction;
use crate::chat_workflow_items::ChatWorkflowItem;
use crate::chat_workflow_responses::ChatWorkflowResponse;
use crate::chat_workflows::ChatWorkflow;
use crate::domain_events::DomainEvent;
use crate::strings::opt_view;

verus! {

/// The durable state of the engine.
pub struct Store {
    pub next_id: u64,
    pub chat_workflows: Vec<ChatWorkflow>,
    pub chat_workflow_items: Vec<ChatWorkflowItem>,
    pub chat_workflow_responses: Vec<ChatWorkflowResponse>,
    pub chat_sessions: Vec<ChatSession>,
    pub chat_workflow_interactions: Vec<ChatWorkflowInteraction>,
    pub domain_events: Vec<DomainEvent>,
}

/// Whether a table's ids are all at least 1, below `bound`, and pairwise
/// distinct.
pub open spec fn table_ok(ids: Seq<u64>, bound: u64) -> bool {
    &&& forall|i: int| 0 <= i < ids.len() ==> 1 <= #[trigger] ids[i] < bound
    &&& forall|i: int, j: int| 0 <= i < j < ids.len() ==> ids[i] != ids[j]
}

pub open spec fn ids_of_workflows(s: Seq<ChatWorkflow>) -> Seq<u64> {
    Seq::new(s.len(), |i: int| s[i].id)
}

pub open spec fn ids_of_items(s: Seq<ChatWorkflowItem>) -> Seq<u64> {
    Seq::new(s.len(), |i: int| s[i].id)
}

pub open spec fn ids_of_responses(s: Seq<ChatWorkflowResponse>) -> Seq<u64> {
    Seq::new(s.len(), |i: int| s[i].id)
}

pub open spec fn ids_of_sessions(s: Seq<ChatSession>) -> Seq<u64> {
    Seq::new(s.len(), |i: int| s[i].id)
}

pub open spec fn ids_of_interactions(s: Seq<ChatWorkflowInteraction>) -> Seq<u64> {
    Seq::new(s.len(), |i: int| s[i].id)
}

pub open spec fn ids_of_events(s: Seq<DomainEvent>) -> Seq<u64> {
    Seq::new(s.len(), |i: int| s[i].id)
}

/// Whether the workflows carry pairwise-distinct names.
pub open spec fn names_distinct(s: Seq<ChatWorkflow>) -> bool {
    forall|i: int, j: int| 0 <= i < j < s.len() ==> s[i].name@ != s[j].name@
}

/// Whether no two responses of one item carry the same present answer value.
pub open spec fn answers_unique(s: Seq<ChatWorkflowResponse>) -> bool {
    forall|i: int, j: int|
        0 <= i < j < s.len() && s[i].chat_workflow_item_id == s[j].chat_workflow_item_id
            && s[i].answer_value is Some && s[j].answer_value is Some ==> opt_view(
            s[i].answer_value,
        ) != opt_view(s[j].answer_value)
}

/// Whether every response's source-item pointer lies below the id counter:
/// items are only ever referenced after they exist, and ids are never
/// reused, so the pointer of a stored response never names an id the
/// counter has yet to hand out.
pub open spec fn response_items_below(s: Seq<ChatWorkflowResponse>, bound: u64) -> bool {
    forall|i: int| 0 <= i < s.len() ==> (#[trigger] s[i]).chat_workflow_item_id < bound
}

/// Whether every session's context map is well-formed.
pub open spec fn sessions_contexts_ok(s: Seq<ChatSession>) -> bool {
    forall|i: int| 0 <= i < s.len() ==> (#[trigger] s[i]).context.wf()
}

impl Store {
    pub open spec fn workflow_ids(self) -> Seq<u64> {
        ids_of_workflows(self.chat_workflows@)
    }

    pub open spec fn item_ids(self) -> Seq<u64> {
        ids_of_items(self.chat_workflow_items@)
    }

    pub open spec fn response_ids(self) -> Seq<u64> {
        ids_of_responses(self.chat_workflow_responses@)
    }

    pub open spec fn session_ids(self) -> Seq<u64> {
        ids_of_sessions(self.chat_sessions@)
    }

    pub open spec fn interaction_ids(self) -> Seq<u64> {
        ids_of_interactions(self.chat_workflow_interactions@)
    }

    pub open spec fn event_ids(self) -> Seq<u64> {
        ids_of_events(self.domain_events@)
    }

    /// The store invariant: ids fresh and distinct in every table, workflow
    /// names unique, answer values unique within each item, and every
    /// session context well-formed.
    pub open spec fn wf(self) -> bool {
        &&& 1 <= self.next_id
        &&& table_ok(self.workflow_ids(), self.next_id)
        &&& table_ok(self.item_ids(), self.next_id)
        &&& table_ok(self.response_ids(), self.next_id)
        &&& table_ok(self.session_ids(), self.next_id)
        &&& table_ok(self.interaction_ids(), self.next_id)
        &&& table_ok(self.event_ids(), self.next_id)
        &&& names_distinct(self.chat_workflows@)
        &&& answers_unique(self.chat_workflow_responses@)
        &&& response_items_below(self.chat_workflow_responses@, self.next_id)
        &&& sessions_contexts_ok(self.chat_sessions@)
    }

    pub open spec fn has_workflow(self, id: u64) -> bool {
        exists|i: int| 0 <= i < self.chat_workflows@.len() && self.chat_workflows@[i].id == id
    }

    pub open spec fn has_item(self, id: u64) -> bool {
        exists|i: int|
            0 <= i < self.chat_workflow_items@.len() && self.chat_workflow_items@[i].id == id
    }

    pub open spec fn has_response(self, id: u64) -> bool {
        exists|i: int|
            0 <= i < self.chat_workflow_responses@.len() && self.chat_workflow_responses@[i].id
                == id
    }

    pub open spec fn has_session(self, id: u64) -> bool {
        exists|i: int| 0 <= i < self.chat_sessions@.len() && self.chat_sessions@[i].id == id
    }

    pub open spec fn has_interaction(self, id: u64) -> bool {
        exists|i: int|
            0 <= i < self.chat_workflow_interactions@.len()
                && self.chat_workflow_interactions@[i].id == id
    }

    pub open spec fn has_domain_event(self, id: u64) -> bool {
        exists|i: int| 0 <= i < self.domain_events@.len() && self.domain_events@[i].id == id
    }

    /// The index of the workflow with the given id.
    pub open spec fn workflow_index_of(self, id: u64) -> int {
        choose|i: int| 0 <= i < self.chat_workflows@.len() && self.chat_workflows@[i].id == id
    }

    /// The workflow with the given id.
    pub open spec fn spec_workflow(self, id: u64) -> ChatWorkflow {
        self.chat_workflows@[self.workflow_index_of(id)]
    }

    /// The index of the item with the given id.
    pub open spec fn item_index_of(self, id: u64) -> int {
        choose|i: int|
            0 <= i < self.chat_workflow_items@.len() && self.chat_workflow_items@[i].id == id
    }

    /// The item with the given id.
    pub open spec fn spec_item(self, id: u64) -> ChatWorkflowItem {
        self.chat_workflow_items@[self.item_index_of(id)]
    }

    /// The index of the response with the given id.
    pub open spec fn response_index_of(self, id: u64) -> int {
        choose|i: int|
            0 <= i < self.chat_workflow_responses@.len() && self.chat_workflow_responses@[i].id
                == id
    }

    /// The response with the given id.
    pub open spec fn spec_response(self, id: u64) -> ChatWorkflowResponse {
        self.chat_workflow_responses@[self.response_index_of(id)]
    }

    /// The index of the session with the given id.
    pub open spec fn session_index_of(self, id: u64) -> int {
        choose|i: int| 0 <= i < self.chat_sessions@.len() && self.chat_sessions@[i].id == id
    }

    /// The session with the given id.
    pub open spec fn spec_session(self, id: u64) -> ChatSession {
        self.chat_sessions@[self.session_index_of(id)]
    }

    /// Whether some workflow other than `excluding` carries the name.
    pub open spec fn name_taken(self, name: Seq<char>, excluding: Option<u64>) -> bool {
        exists|i: int|
            0 <= i < self.chat_workflows@.len() && self.chat_workflows@[i].name@ == name && (
            excluding matches Some(id) ==> self.chat_workflows@[i].id != id)
    }

    /// Whether some response on `item_id` other than `excluding` carries the
    /// answer value.
    pub open spec fn answer_taken(
        self,
        item_id: u64,
        answer: Seq<char>,
        excluding: Option<u64>,
    ) -> bool {
        exists|i: int|
            0 <= i < self.chat_workflow_responses@.len()
                && self.chat_workflow_responses@[i].chat_workflow_item_id == item_id && opt_view(
                self.chat_workflow_responses@[i].answer_value,
            ) == Some(answer) && (excluding matches Some(id)
                ==> self.chat_workflow_responses@[i].id != id)
    }

    /// An empty store.
    pub fn new() -> (r: Store)
        ensures
            r.wf(),
            r.next_id == 1,
            r.chat_workflows@.len() == 0,
            r.chat_workflow_items@.len() == 0,
            r.chat_workflow_responses@.len() == 0,
            r.chat_sessions@.len() == 0,
            r.chat_workflow_interactions@.len() == 0,
            r.domain_events@.len() == 0,
    {
        Store {
            next_id: 1,
            chat_workflows: Vec::new(),
            chat_workflow_items: Vec::new(),
            chat_workflow_responses: Vec::new(),
            chat_sessions: Vec::new(),
            chat_workflow_interactions: Vec::new(),
            domain_events: Vec::new(),
        }
    }

    /// Draws a fresh id from the counter.
    pub(crate) fn allocate_id(&mut self) -> (id: u64)
        requires
            old(self).next_id < u64::MAX,
        ensures
            id == old(self).next_id,
            final(self).next_id == old(self).next_id + 1,
            final(self).chat_workflows == old(self).chat_workflows,
            final(self).chat_workflow_items == old(self).chat_workflow_items,
            final(self).chat_workflow_responses == old(self).chat_workflow_responses,
            final(self).chat_sessions == old(self).chat_sessions,
            final(self).chat_workflow_interactions == old(self).chat_workflow_interactions,
            final(self).domain_events == old(self).domain_events,
    {
        let id = self.next_id;
        self.next_id = self.next_id + 1;
        id
    }

    /// The position of the workflow with the given id, if present.
    pub(crate) fn find_workflow_index(&self, id: u64) -> (r: Option<usize>)
        ensures
            match r {
                Some(i) => i < self.chat_workflows@.len() && self.chat_workflows@[i as int].id
                    == id && self.has_workflow(id),
                None => !self.has_workflow(id),
            },
    {
        let n = self.chat_workflows.len();
        let mut i: usize = 0;
        while i < n
            invariant
                n == self.chat_workflows@.len(),
                i <= n,
                forall|j: int| 0 <= j < i ==> self.chat_workflows@[j].id != id,
            decreases n - i,
        {
            if self.chat_workflows[i].id == id {
                return Some(i);
            }
            i += 1;
        }
        None
    }

    /// The position of the item with the given id, if present.
    pub(crate) fn find_item_index(&self, id: u64) -> (r: Option<usize>)
        ensures
            match r {
                Some(i) => i < self.chat_workflow_items@.len()
                    && self.chat_workflow_items@[i as int].id == id && self.has_item(id),
                None => !self.has_item(id),
            },
    {
        let n = self.chat_workflow_items.len();
        let mut i: usize = 0;
        while i < n
            invariant
                n == self.chat_workflow_items@.len(),
                i <= n,
                forall|j: int| 0 <= j < i ==> self.chat_workflow_items@[j].id != id,
            decreases n - i,
        {
            if self.chat_workflow_items[i].id == id {
                return Some(i);
            }
            i += 1;
        }
        None
    }

    /// The position of the response with the given id, if present.
    pub(crate) fn find_response_index(&self, id: u64) -> (r: Option<usize>)
        ensures
            match r {
                Some(i) => i < self.chat_workflow_responses@.len()
                    && self.chat_workflow_responses@[i as int].id == id && self.has_response(id),
                None => !self.has_response(id),
            },
    {
        let n = self.chat_workflow_responses.len();
        let mut i: usize = 0;
        while i < n
            invariant
                n == self.chat_workflow_responses@.len(),
                i <= n,
                forall|j: int| 0 <= j < i ==> self.chat_workflow_responses@[j].id != id,
            decreases n - i,
        {
            if self.chat_workflow_responses[i].id == id {
                return Some(i);
            }
            i += 1;
        }
        None
    }

    /// The position of the session with the given id, if present.
    pub(crate) fn find_session_index(&self, id: u64) -> (r: Option<usize>)
        ensures
            match r {
                Some(i) => i < self.chat_sessions@.len() && self.chat_sessions@[i as int].id == id
                    && self.has_session(id),
                None => !self.has_session(id),
            },
    {
        let n = self.chat_sessions.len();
        let mut i: usize = 0;
        while i < n
            invariant
                n == self.chat_sessions@.len(),
                i <= n,
                forall|j: int| 0 <= j < i ==> self.chat_sessions@[j].id != id,
            decreases n - i,
        {
            if self.chat_sessions[i].id == id {
                return Some(i);
            }
            i += 1;
        }
        None
    }

    /// The position of the interaction with the given id, if present.
    pub(crate) fn find_interaction_index(&self, id: u64) -> (r: Option<usize>)
        ensures
            match r {
                Some(i) => i < self.chat_workflow_interactions@.len()
                    && self.chat_workflow_interactions@[i as int].id == id && self.has_interaction(
                    id,
                ),
                None => !self.has_interaction(id),
            },
    {
        let n = self.chat_workflow_interactions.len();
        let mut i: usize = 0;
        while i < n
            invariant
                n == self.chat_workflow_interactions@.len(),
                i <= n,
                forall|j: int| 0 <= j < i ==> self.chat_workflow_interactions@[j].id != id,
            decreases n - i,
        {
            if self.chat_workflow_interactions[i].id == id {
                return Some(i);
            }
            i += 1;
        }
        None
    }
}

impl Store {
    /// In a well-formed store, the workflow at a position is the workflow of
    /// its id.
    pub proof fn lemma_workflow_at(self, i: int)
        requires
            self.wf(),
            0 <= i < self.chat_workflows@.len(),
        ensures
            self.has_workflow(self.chat_workflows@[i].id),
            self.workflow_index_of(self.chat_workflows@[i].id) == i,
            self.spec_workflow(self.chat_workflows@[i].id) == self.chat_workflows@[i],
    {
        let id = self.chat_workflows@[i].id;
        assert(self.has_workflow(id));
        let j = self.workflow_index_of(id);
        if i != j {
            assert(ids_of_workflows(self.chat_workflows@)[i] == id);
            assert(ids_of_workflows(self.chat_workflows@)[j] == id);
        }
    }

    /// In a well-formed store, the item at a position is the item of its id.
    pub proof fn lemma_item_at(self, i: int)
        requires
            self.wf(),
            0 <= i < self.chat_workflow_items@.len(),
        ensures
            self.has_item(self.chat_workflow_items@[i].id),
            self.item_index_of(self.chat_workflow_items@[i].id) == i,
            self.spec_item(self.chat_workflow_items@[i].id) == self.chat_workflow_items@[i],
    {
        let id = self.chat_workflow_items@[i].id;
        assert(self.has_item(id));
        let j = self.item_index_of(id);
        if i != j {
            assert(ids_of_items(self.chat_workflow_items@)[i] == id);
            assert(ids_of_items(self.chat_workflow_items@)[j] == id);
        }
    }

    /// In a well-formed store, the response at a position is the response of
    /// its id.
    pub proof fn lemma_response_at(self, i: int)
        requires
            self.wf(),
            0 <= i < self.chat_workflow_responses@.len(),
        ensures
            self.has_response(self.chat_workflow_responses@[i].id),
            self.response_index_of(self.chat_workflow_responses@[i].id) == i,
            self.spec_response(self.chat_workflow_responses@[i].id)
                == self.chat_workflow_responses@[i],
    {
        let id = self.chat_workflow_responses@[i].id;
        assert(self.has_response(id));
        let j = self.response_index_of(id);
        if i != j {
            assert(ids_of_responses(self.chat_workflow_responses@)[i] == id);
            assert(ids_of_responses(self.chat_workflow_responses@)[j] == id);
        }
    }

    /// In a well-formed store, the session at a position is the session of
    /// its id.
    pub proof fn lemma_session_at(self, i: int)
        requires
            self.wf(),
            0 <= i < self.chat_sessions@.len(),
        ensures
            self.has_session(self.chat_sessions@[i].id),
            self.session_index_of(self.chat_sessions@[i].id) == i,
            self.spec_session(self.chat_sessions@[i].id) == self.chat_sessions@[i],
    {
        let id = self.chat_sessions@[i].id;
        assert(self.has_session(id));
        let j = self.session_index_of(id);
        if i != j {
            assert(ids_of_sessions(self.chat_sessions@)[i] == id);
            assert(ids_of_sessions(self.chat_sessions@)[j] == id);
        }
    }
}

/// The ids of a table stay well-formed when the bound grows.
pub proof fn lemma_table_ok_widen(ids: Seq<u64>, bound: u64, wider: u64)
    requires
        table_ok(ids, bound),
        bound <= wider,
    ensures
        table_ok(ids, wider),
{
}

/// Appending a record with a fresh id keeps a table well-formed.
pub proof fn lemma_table_ok_push(ids: Seq<u64>, bound: u64, id: u64, wider: u64)
    requires
        table_ok(ids, bound),
        bound <= id < wider,
        1 <= id,
    ensures
        table_ok(ids.push(id), wider),
{
    assert forall|i: int| 0 <= i < ids.push(id).len() implies 1 <= #[trigger] ids.push(id)[i]
        < wider by {
        if i < ids.len() {
            assert(ids.push(id)[i] == ids[i]);
        }
    }
    assert forall|i: int, j: int| 0 <= i < j < ids.push(id).len() implies ids.push(id)[i]
        != ids.push(id)[j] by {
        if j < ids.len() {
        } else {
            assert(ids.push(id)[j] == id);
            assert(ids.push(id)[i] == ids[i]);
        }
    }
}

} // verus!
