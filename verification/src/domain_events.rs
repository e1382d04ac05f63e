//! Audit events: the append-only record of workflow lifecycle changes
//! (created, published, deleted), each carrying the rendered snapshot of the
//! workflow at the time of the event.

use vstd::prelude::*;

use crate::error::DatabaseError;
use crate::render::DisplayChatWorkflow;
use crate::store::Store;

verus! {

/// The kind of an audit event.
#[derive(Clone, Copy, Debug, PartialEq, Eq, Structural)]
pub enum DomainEventTypes {
    ChatWorkflowCreated,
    ChatWorkflowPublished,
    ChatWorkflowDeleted,
}

/// The table an audit event is about.
#[derive(Clone, Copy, Debug, PartialEq, Eq, Structural)]
pub enum Tables {
    ChatWorkflows,
}

/// One audit event.
#[derive(Debug, PartialEq, Eq)]
pub struct DomainEvent {
    pub id: u64,
    pub event_type: DomainEventTypes,
    pub display_text: String,
    pub main_table: Tables,
    pub main_id: Option<u64>,
    pub user_id: Option<u64>,
    pub event_data: Option<DisplayChatWorkflow>,
}

/// An audit event waiting to be committed to the store.
pub struct NewDomainEvent {
    pub event_type: DomainEventTypes,
    pub display_text: String,
    pub main_table: Tables,
    pub main_id: Option<u64>,
    pub user_id: Option<u64>,
    pub event_data: Option<DisplayChatWorkflow>,
}

/// Whether two events are equal field by field, with the rendered snapshot
/// compared by its rendered value.
pub open spec fn event_eqv(a: DomainEvent, b: DomainEvent) -> bool {
    &&& a.id == b.id
    &&& a.event_type == b.event_type
    &&& a.display_text@ == b.display_text@
    &&& a.main_table == b.main_table
    &&& a.main_id == b.main_id
    &&& a.user_id == b.user_id
    &&& match (a.event_data, b.event_data) {
        (Some(x), Some(y)) => x@ == y@,
        (None, None) => true,
        _ => false,
    }
}

impl DomainEvent {
    /// An event ready to be committed, as the lifecycle operations build it.
    pub fn create(
        event_type: DomainEventTypes,
        display_text: String,
        main_table: Tables,
        main_id: Option<u64>,
        user_id: Option<u64>,
        event_data: Option<DisplayChatWorkflow>,
    ) -> (r: NewDomainEvent)
        ensures
            r.event_type == event_type,
            r.display_text == display_text,
            r.main_table == main_table,
            r.main_id == main_id,
            r.user_id == user_id,
            r.event_data == event_data,
    {
        NewDomainEvent { event_type, display_text, main_table, main_id, user_id, event_data }
    }

    /// The events of the given table, id filter, and kind filter, in the
    /// order they were committed.
    pub fn find(
        main_table: Tables,
        main_id: Option<u64>,
        event_type: Option<DomainEventTypes>,
        store: &Store,
    ) -> (r: Result<Vec<DomainEvent>, DatabaseError>)
        ensures
            r matches Ok(v) && ({
                let m = spec_events_matching(store.domain_events@, main_table, main_id, event_type);
                &&& v@.len() == m.len()
                &&& forall|k: int| 0 <= k < m.len() ==> event_eqv(#[trigger] v@[k], m[k])
            }),
    {
        let mut out: Vec<DomainEvent> = Vec::new();
        let n = store.domain_events.len();
        let mut i: usize = 0;
        while i < n
            invariant
                n == store.domain_events@.len(),
                i <= n,
                ({
                    let m = spec_events_matching(
                        store.domain_events@.take(i as int),
                        main_table,
                        main_id,
                        event_type,
                    );
                    &&& out@.len() == m.len()
                    &&& forall|k: int| 0 <= k < m.len() ==> event_eqv(#[trigger] out@[k], m[k])
                }),
            decreases n - i,
        {
            let e = &store.domain_events[i];
            let ghost prefix = store.domain_events@.take(i as int);
            let keep = matches_filter(e, main_table, main_id, event_type);
            if keep {
                out.push(e.copied());
            }
            proof {
                assert(store.domain_events@.take(i + 1).drop_last() =~= prefix);
                assert(store.domain_events@.take(i + 1).last() == store.domain_events@[i as int]);
            }
            i += 1;
        }
        proof {
            assert(store.domain_events@.take(n as int) =~= store.domain_events@);
        }
        Ok(out)
    }

    /// An owned copy, equal to `self` except that the snapshot is compared
    /// by its rendered value.
    pub fn copied(&self) -> (r: DomainEvent)
        ensures
            event_eqv(r, *self),
    {
        DomainEvent {
            id: self.id,
            event_type: self.event_type,
            display_text: self.display_text.clone(),
            main_table: self.main_table,
            main_id: self.main_id,
            user_id: self.user_id,
            event_data: match &self.event_data {
                Some(d) => Some(d.copied()),
                None => None,
            },
        }
    }
}

/// Whether an event passes the `find` filters.
pub open spec fn spec_matches_filter(
    e: DomainEvent,
    main_table: Tables,
    main_id: Option<u64>,
    event_type: Option<DomainEventTypes>,
) -> bool {
    &&& e.main_table == main_table
    &&& (main_id is Some ==> e.main_id == main_id)
    &&& (event_type matches Some(t) ==> e.event_type == t)
}

/// The subsequence of `events` passing the `find` filters.
pub open spec fn spec_events_matching(
    events: Seq<DomainEvent>,
    main_table: Tables,
    main_id: Option<u64>,
    event_type: Option<DomainEventTypes>,
) -> Seq<DomainEvent>
    decreases events.len(),
{
    if events.len() == 0 {
        Seq::empty()
    } else {
        let rest = spec_events_matching(events.drop_last(), main_table, main_id, event_type);
        if spec_matches_filter(events.last(), main_table, main_id, event_type) {
            rest.push(events.last())
        } else {
            rest
        }
    }
}

fn matches_filter(
    e: &DomainEvent,
    main_table: Tables,
    main_id: Option<u64>,
    event_type: Option<DomainEventTypes>,
) -> (r: bool)
    ensures
        r == spec_matches_filter(*e, main_table, main_id, event_type),
{
    let table_ok = match (e.main_table, main_table) {
        (Tables::ChatWorkflows, Tables::ChatWorkflows) => true,
    };
    let id_ok = match main_id {
        Some(id) => match e.main_id {
            Some(eid) => eid == id,
            None => false,
        },
        None => true,
    };
    let type_ok = match event_type {
        Some(t) => e.event_type == t,
        None => true,
    };
    table_ok && id_ok && type_ok
}

impl NewDomainEvent {
    /// Appends the event to the audit log.
    pub fn commit(self, store: &mut Store) -> (r: Result<DomainEvent, DatabaseError>)
        requires
            old(store).wf(),
            old(store).next_id < u64::MAX,
        ensures
            final(store).wf(),
            final(store).chat_workflows@ == old(store).chat_workflows@,
            final(store).chat_workflow_items@ == old(store).chat_workflow_items@,
            final(store).chat_workflow_responses@ == old(store).chat_workflow_responses@,
            final(store).chat_sessions@ == old(store).chat_sessions@,
            final(store).chat_workflow_interactions@ == old(store).chat_workflow_interactions@,
            final(store).next_id == old(store).next_id + 1,
            final(store).domain_events@.len() == old(store).domain_events@.len() + 1,
            final(store).domain_events@.drop_last() == old(store).domain_events@,
            r matches Ok(e) && event_eqv(e, final(store).domain_events@.last()),
            ({
                let e = final(store).domain_events@.last();
                &&& e.event_type == self.event_type
                &&& e.display_text == self.display_text
                &&& e.main_table == self.main_table
                &&& e.main_id == self.main_id
                &&& e.user_id == self.user_id
                &&& e.event_data == self.event_data
                &&& !old(store).has_domain_event(e.id)
            }),
    {
        let id = store.allocate_id();
        let event = DomainEvent {
            id,
            event_type: self.event_type,
            display_text: self.display_text,
            main_table: self.main_table,
            main_id: self.main_id,
            user_id: self.user_id,
            event_data: self.event_data,
        };
        let result = event.copied();
        let ghost before = store.domain_events@;
        let ghost pre = *old(store);
        store.domain_events.push(event);
        proof {
            assert(store.domain_events@.drop_last() =~= before);
            assert(store.event_ids() =~= crate::store::ids_of_events(before).push(id));
            crate::store::lemma_table_ok_push(
                crate::store::ids_of_events(before),
                pre.next_id,
                id,
                store.next_id,
            );
            crate::store::lemma_table_ok_widen(pre.workflow_ids(), pre.next_id, store.next_id);
            crate::store::lemma_table_ok_widen(pre.item_ids(), pre.next_id, store.next_id);
            crate::store::lemma_table_ok_widen(pre.response_ids(), pre.next_id, store.next_id);
            crate::store::lemma_table_ok_widen(pre.session_ids(), pre.next_id, store.next_id);
            crate::store::lemma_table_ok_widen(pre.interaction_ids(), pre.next_id, store.next_id);
            assert(!pre.has_domain_event(id)) by {
                if pre.has_domain_event(id) {
                    let i = choose|i: int|
                        0 <= i < pre.domain_events@.len() && pre.domain_events@[i].id == id;
                    assert(crate::store::ids_of_events(pre.domain_events@)[i] == id);
                }
            }
        }
        Ok(result)
    }
}

} // verus!
