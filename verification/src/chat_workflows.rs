//! Workflows: the root records of the decision graph. A workflow is created
//! `Draft`, must point at an initial item before it can be published, and is
//! destroyed by first clearing that pointer and then deleting its items and
//! their responses; publication and deletion are audited with a rendered
//! snapshot attached.

use vstd::prelude::*;

use crate::chat_workflow_items::ChatWorkflowItem;
use crate::chat_workflow_responses::ChatWorkflowResponse;
use crate::domain_events::{event_eqv, DomainEvent, DomainEventTypes, Tables};
use crate::error::{is_business_process_error, is_no_results, is_uniqueness_error};
use crate::error::{DatabaseError, ErrorCode};
use crate::render::{spec_render_item, DisplayChatWorkflow, ItemTree, SpecDisplayWorkflow, SpecItemTree};
use crate::store::{ids_of_items, ids_of_responses, ids_of_workflows, table_ok, Store};
use crate::strings::{opt_view, str_eq};

verus! {

/// The lifecycle state of a workflow.
#[derive(Clone, Copy, Debug, PartialEq, Eq, Structural)]
pub enum ChatWorkflowStatus {
    Draft,
    Published,
}

/// An admin-authored conversational decision graph.
#[derive(Clone, Debug, PartialEq, Eq)]
pub struct ChatWorkflow {
    pub id: u64,
    pub name: String,
    pub status: ChatWorkflowStatus,
    pub initial_chat_workflow_item_id: Option<u64>,
}

impl ChatWorkflow {
    /// An owned copy, equal to `self` as a value.
    pub fn copied(&self) -> (r: ChatWorkflow)
        ensures
            r == *self,
    {
        ChatWorkflow {
            id: self.id,
            name: self.name.clone(),
            status: self.status,
            initial_chat_workflow_item_id: self.initial_chat_workflow_item_id,
        }
    }
}

/// A workflow waiting to be committed to the store.
#[derive(Clone, Debug, PartialEq, Eq)]
pub struct NewChatWorkflow {
    pub name: String,
}

/// The fields of a workflow that an editor may change. A `None` leaves the
/// field as it is; the inner option of `initial_chat_workflow_item_id`
/// distinguishes clearing the pointer from retargeting it.
#[derive(Clone, Debug, PartialEq, Eq)]
pub struct ChatWorkflowEditableAttributes {
    pub name: Option<String>,
    pub initial_chat_workflow_item_id: Option<Option<u64>>,
}

impl Default for ChatWorkflowEditableAttributes {
    /// Attributes that change nothing.
    fn default() -> (r: Self)
        ensures
            r.name is None,
            r.initial_chat_workflow_item_id is None,
    {
        ChatWorkflowEditableAttributes { name: None, initial_chat_workflow_item_id: None }
    }
}

/// The rendered tree of a workflow: empty without an initial item, the full
/// render of the graph from the initial item otherwise; `None` when the
/// initial item or an edge below it dangles.
pub open spec fn spec_workflow_tree(store: Store, w: ChatWorkflow) -> Option<SpecItemTree> {
    match w.initial_chat_workflow_item_id {
        None => Some(SpecItemTree::Empty),
        Some(n) => {
            if !store.has_item(n) {
                None
            } else {
                match spec_render_item(store, store.spec_item(n), Seq::empty()) {
                    Some(p) => Some(SpecItemTree::Item(Box::new(p.0))),
                    None => None,
                }
            }
        },
    }
}

/// The rendered snapshot of a workflow.
pub open spec fn spec_workflow_display(store: Store, w: ChatWorkflow) -> Option<
    SpecDisplayWorkflow,
> {
    match spec_workflow_tree(store, w) {
        Some(t) => Some(
            SpecDisplayWorkflow {
                id: w.id,
                name: w.name@,
                status: w.status,
                tree: t,
                initial_chat_workflow_item_id: w.initial_chat_workflow_item_id,
            },
        ),
        None => None,
    }
}

/// `base` with the given attributes applied.
pub open spec fn apply_workflow_attrs(
    base: ChatWorkflow,
    a: ChatWorkflowEditableAttributes,
) -> ChatWorkflow {
    ChatWorkflow {
        name: match a.name {
            Some(n) => n,
            None => base.name,
        },
        initial_chat_workflow_item_id: match a.initial_chat_workflow_item_id {
            Some(v) => v,
            None => base.initial_chat_workflow_item_id,
        },
        ..base
    }
}

/// The name-uniqueness obligation of an update: a name being set must not be
/// taken by another workflow.
pub open spec fn update_name_blocked(
    store: Store,
    id: u64,
    a: ChatWorkflowEditableAttributes,
) -> bool {
    match a.name {
        Some(n) => store.name_taken(n@, Some(id)),
        None => false,
    }
}

/// Whether no workflow other than `excluding` already carries the name.
fn name_unique(name: &str, id: Option<u64>, store: &Store) -> (r: Result<
    Result<(), crate::error::FieldValidationError>,
    DatabaseError,
>)
    ensures
        match r {
            Ok(inner) => match inner {
                Ok(()) => !store.name_taken(name@, id),
                Err(e) => {
                    &&& store.name_taken(name@, id)
                    &&& e.field@ == "name"@
                    &&& e.code@ == "uniqueness"@
                    &&& e.message@ == "Name is already in use"@
                },
            },
            Err(_) => false,
        },
{
    let n = store.chat_workflows.len();
    let mut i: usize = 0;
    while i < n
        invariant
            n == store.chat_workflows@.len(),
            i <= n,
            forall|j: int|
                0 <= j < i ==> !((#[trigger] store.chat_workflows@[j]).name@ == name@ && (
                id matches Some(x) ==> store.chat_workflows@[j].id != x)),
        decreases n - i,
    {
        let w = &store.chat_workflows[i];
        let excluded = match id {
            Some(x) => w.id == x,
            None => false,
        };
        if !excluded && str_eq(w.name.as_str(), name) {
            return Ok(Err(crate::error::FieldValidationError {
                field: String::from_str("name"),
                code: String::from_str("uniqueness"),
                message: String::from_str("Name is already in use"),
            }));
        }
        i += 1;
    }
    Ok(Ok(()))
}

impl ChatWorkflow {
    /// A workflow ready to be committed.
    pub fn create(name: String) -> (r: NewChatWorkflow)
        ensures
            r.name == name,
    {
        NewChatWorkflow { name }
    }

    /// The workflow with the given id; absence is `NoResults`.
    pub fn find(id: u64, store: &Store) -> (r: Result<ChatWorkflow, DatabaseError>)
        requires
            store.wf(),
        ensures
            match r {
                Ok(x) => store.has_workflow(id) && x == store.spec_workflow(id),
                Err(e) => !store.has_workflow(id) && is_no_results(e) && e.message@
                    == "Unable to load chat workflow"@,
            },
    {
        match store.find_workflow_index(id) {
            Some(i) => {
                proof {
                    store.lemma_workflow_at(i as int);
                }
                Ok(store.chat_workflows[i].copied())
            },
            None => DatabaseError::no_results("Unable to load chat workflow"),
        }
    }

    /// The workflow carrying the given name; absence is `NoResults`.
    pub fn find_by_name(name: &str, store: &Store) -> (r: Result<ChatWorkflow, DatabaseError>)
        requires
            store.wf(),
        ensures
            match r {
                Ok(x) => {
                    &&& store.name_taken(name@, None)
                    &&& exists|i: int|
                        0 <= i < store.chat_workflows@.len() && store.chat_workflows@[i] == x
                    &&& x.name@ == name@
                },
                Err(e) => !store.name_taken(name@, None) && is_no_results(e) && e.message@
                    == "Unable to load chat workflow"@,
            },
    {
        let n = store.chat_workflows.len();
        let mut i: usize = 0;
        while i < n
            invariant
                n == store.chat_workflows@.len(),
                i <= n,
                forall|j: int| 0 <= j < i ==> (#[trigger] store.chat_workflows@[j]).name@ != name@,
            decreases n - i,
        {
            if str_eq(store.chat_workflows[i].name.as_str(), name) {
                let found = store.chat_workflows[i].copied();
                proof {
                    assert(store.chat_workflows@[i as int] == found);
                }
                return Ok(found);
            }
            i += 1;
        }
        DatabaseError::no_results("Unable to load chat workflow")
    }

    /// Every workflow, in the order of creation.
    pub fn all(store: &Store) -> (r: Result<Vec<ChatWorkflow>, DatabaseError>)
        ensures
            r matches Ok(v) && v@ == store.chat_workflows@,
    {
        let mut out: Vec<ChatWorkflow> = Vec::new();
        let n = store.chat_workflows.len();
        let mut i: usize = 0;
        while i < n
            invariant
                n == store.chat_workflows@.len(),
                i <= n,
                out@.len() == i,
                forall|j: int| 0 <= j < i ==> out@[j] == store.chat_workflows@[j],
            decreases n - i,
        {
            out.push(store.chat_workflows[i].copied());
            i += 1;
        }
        proof {
            assert(out@ =~= store.chat_workflows@);
        }
        Ok(out)
    }

    /// The rendered snapshot of this workflow: its attributes and the render
    /// of its graph from the initial item, empty when none is set.
    pub fn for_display(&self, store: &Store) -> (r: Result<DisplayChatWorkflow, DatabaseError>)
        requires
            store.wf(),
        ensures
            match r {
                Ok(d) => spec_workflow_display(*store, *self) == Some(d@),
                Err(e) => spec_workflow_display(*store, *self) is None && is_no_results(e)
                    && e.message@ == "Unable to load chat workflow item"@,
            },
    {
        let tree = match self.initial_chat_workflow_item_id {
            None => ItemTree::Empty,
            Some(n) => {
                let item = match ChatWorkflowItem::find(n, store) {
                    Ok(item) => item,
                    Err(e) => {
                        return Err(e);
                    },
                };
                let mut rendered: Vec<u64> = Vec::new();
                let d = match item.for_display(&mut rendered, store) {
                    Ok(d) => d,
                    Err(e) => {
                        return Err(e);
                    },
                };
                ItemTree::Item(Box::new(d))
            },
        };
        Ok(DisplayChatWorkflow {
            id: self.id,
            name: self.name.clone(),
            status: self.status,
            tree,
            initial_chat_workflow_item_id: self.initial_chat_workflow_item_id,
        })
    }

    /// Applies the attributes to the stored workflow of `self.id`. A fresh
    /// name must be free; a published workflow must keep an initial item.
    pub fn update(
        &self,
        attributes: ChatWorkflowEditableAttributes,
        store: &mut Store,
    ) -> (r: Result<ChatWorkflow, DatabaseError>)
        requires
            old(store).wf(),
        ensures
            final(store).wf(),
            update_name_blocked(*old(store), self.id, attributes) ==> (r matches Err(e)
                && is_uniqueness_error(e, "name"@, "Name is already in use"@) && *final(store)
                == *old(store)),
            !update_name_blocked(*old(store), self.id, attributes) && self.status
                == ChatWorkflowStatus::Published && attributes.initial_chat_workflow_item_id
                == Some(None::<u64>) ==> (r matches Err(e) && is_business_process_error(
                e,
                "Initial chat workflow item cannot be removed on published chat workflow"@,
            ) && *final(store) == *old(store)),
            !update_name_blocked(*old(store), self.id, attributes) && !(self.status
                == ChatWorkflowStatus::Published && attributes.initial_chat_workflow_item_id
                == Some(None::<u64>)) && !old(store).has_workflow(self.id) ==> (r matches Err(e)
                && e.error_code == ErrorCode::UpdateError && e.message@
                == "Could not update chat workflow"@ && *final(store) == *old(store)),
            !update_name_blocked(*old(store), self.id, attributes) && !(self.status
                == ChatWorkflowStatus::Published && attributes.initial_chat_workflow_item_id
                == Some(None::<u64>)) && old(store).has_workflow(self.id) ==> (r matches Ok(w) && {
                let idx = old(store).workflow_index_of(self.id);
                let base = old(store).spec_workflow(self.id);
                &&& w == apply_workflow_attrs(base, attributes)
                &&& final(store).chat_workflows@ == old(store).chat_workflows@.update(idx, w)
                &&& final(store).next_id == old(store).next_id
                &&& final(store).chat_workflow_items@ == old(store).chat_workflow_items@
                &&& final(store).chat_workflow_responses@ == old(store).chat_workflow_responses@
                &&& final(store).chat_sessions@ == old(store).chat_sessions@
                &&& final(store).chat_workflow_interactions@ == old(
                    store,
                ).chat_workflow_interactions@
                &&& final(store).domain_events@ == old(store).domain_events@
            }),
    {
        let ghost pre = *old(store);
        let name_check = match &attributes.name {
            Some(n) => {
                let inner = match name_unique(n.as_str(), Some(self.id), store) {
                    Ok(x) => x,
                    Err(e) => {
                        return Err(e);
                    },
                };
                inner
            },
            None => Ok(()),
        };
        if let Err(fve) = name_check {
            let mut errors: Vec<crate::error::FieldValidationError> = Vec::new();
            errors.push(fve);
            return Err(DatabaseError {
                error_code: ErrorCode::ValidationError { errors },
                message: String::from_str("Validation error"),
            });
        }
        let clearing_initial = match &attributes.initial_chat_workflow_item_id {
            Some(None) => true,
            _ => false,
        };
        if self.status == ChatWorkflowStatus::Published && clearing_initial {
            return DatabaseError::business_process_error(
                "Initial chat workflow item cannot be removed on published chat workflow",
            );
        }
        let i = match store.find_workflow_index(self.id) {
            Some(i) => i,
            None => {
                return Err(DatabaseError::new(
                    ErrorCode::UpdateError,
                    "Could not update chat workflow",
                ));
            },
        };
        proof {
            store.lemma_workflow_at(i as int);
        }
        let base = store.chat_workflows[i].copied();
        let updated = ChatWorkflow {
            id: base.id,
            name: match attributes.name {
                Some(n) => n,
                None => base.name,
            },
            status: base.status,
            initial_chat_workflow_item_id: match attributes.initial_chat_workflow_item_id {
                Some(v) => v,
                None => base.initial_chat_workflow_item_id,
            },
        };
        let result = updated.copied();
        let ghost before = store.chat_workflows@;
        store.chat_workflows.set(i, updated);
        proof {
            let s = store.chat_workflows@;
            assert(ids_of_workflows(s) =~= ids_of_workflows(before));
            assert(table_ok(ids_of_workflows(s), store.next_id));
            assert(crate::store::names_distinct(s)) by {
                assert forall|a: int, b: int| 0 <= a < b < s.len() implies s[a].name@
                    != s[b].name@ by {
                    if a != i && b != i {
                        assert(s[a] == before[a]);
                        assert(s[b] == before[b]);
                    } else {
                        let k = if a == i as int {
                            b
                        } else {
                            a
                        };
                        assert(s[k] == before[k]);
                        if s[a].name@ == s[b].name@ {
                            match attributes.name {
                                Some(nm) => {
                                    assert(ids_of_workflows(before)[k] != ids_of_workflows(
                                        before,
                                    )[i as int]);
                                    assert(pre.name_taken(nm@, Some(self.id)));
                                },
                                None => {
                                    assert(s[i as int].name@ == before[i as int].name@);
                                },
                            }
                        }
                    }
                }
            }
        }
        Ok(result)
    }

    /// Publishes the workflow. Publishing an already-published workflow is a
    /// no-op returning an equal value and emitting no further audit event;
    /// a draft without an initial item is refused; otherwise the status
    /// flips and one `ChatWorkflowPublished` event with the rendered
    /// snapshot is appended.
    pub fn publish(&self, current_user_id: Option<u64>, store: &mut Store) -> (r: Result<
        ChatWorkflow,
        DatabaseError,
    >)
        requires
            old(store).wf(),
            old(store).next_id < u64::MAX,
        ensures
            final(store).wf(),
            self.status == ChatWorkflowStatus::Published ==> (r matches Ok(w) && w == *self
                && *final(store) == *old(store)),
            self.status != ChatWorkflowStatus::Published
                && self.initial_chat_workflow_item_id is None ==> (r matches Err(e)
                && is_business_process_error(
                e,
                "Initial chat workflow item must be set on workflow to publish"@,
            ) && *final(store) == *old(store)),
            self.status != ChatWorkflowStatus::Published
                && self.initial_chat_workflow_item_id is Some && spec_workflow_display(
                *old(store),
                *self,
            ) is None ==> (r matches Err(e) && is_no_results(e) && *final(store) == *old(store)),
            self.status != ChatWorkflowStatus::Published
                && self.initial_chat_workflow_item_id is Some && spec_workflow_display(
                *old(store),
                *self,
            ) is Some && !old(store).has_workflow(self.id) ==> (r matches Err(e) && e.error_code
                == ErrorCode::UpdateError && e.message@ == "Could not publish chat workflow"@
                && *final(store) == *old(store)),
            self.status != ChatWorkflowStatus::Published
                && self.initial_chat_workflow_item_id is Some && spec_workflow_display(
                *old(store),
                *self,
            ) is Some && old(store).has_workflow(self.id) ==> (r matches Ok(w) && {
                let idx = old(store).workflow_index_of(self.id);
                let base = old(store).spec_workflow(self.id);
                &&& w == (ChatWorkflow { status: ChatWorkflowStatus::Published, ..base })
                &&& final(store).chat_workflows@ == old(store).chat_workflows@.update(idx, w)
                &&& final(store).chat_workflow_items@ == old(store).chat_workflow_items@
                &&& final(store).chat_workflow_responses@ == old(store).chat_workflow_responses@
                &&& final(store).chat_sessions@ == old(store).chat_sessions@
                &&& final(store).chat_workflow_interactions@ == old(
                    store,
                ).chat_workflow_interactions@
                &&& final(store).next_id == old(store).next_id + 1
                &&& final(store).domain_events@.len() == old(store).domain_events@.len() + 1
                &&& final(store).domain_events@.drop_last() == old(store).domain_events@
                &&& ({
                    let e = final(store).domain_events@.last();
                    &&& e.event_type == DomainEventTypes::ChatWorkflowPublished
                    &&& e.main_table == Tables::ChatWorkflows
                    &&& e.main_id == Some(self.id)
                    &&& e.user_id == current_user_id
                    &&& e.event_data matches Some(d) && Some(d@) == spec_workflow_display(
                        *old(store),
                        *self,
                    )
                })
            }),
    {
        let ghost pre = *old(store);
        if self.status == ChatWorkflowStatus::Published {
            return Ok(self.copied());
        }
        if self.initial_chat_workflow_item_id.is_none() {
            return DatabaseError::business_process_error(
                "Initial chat workflow item must be set on workflow to publish",
            );
        }
        let display = match self.for_display(store) {
            Ok(d) => d,
            Err(e) => {
                return Err(e);
            },
        };
        let i = match store.find_workflow_index(self.id) {
            Some(i) => i,
            None => {
                return Err(DatabaseError::new(
                    ErrorCode::UpdateError,
                    "Could not publish chat workflow",
                ));
            },
        };
        proof {
            store.lemma_workflow_at(i as int);
        }
        let base = store.chat_workflows[i].copied();
        let published = ChatWorkflow {
            id: base.id,
            name: base.name,
            status: ChatWorkflowStatus::Published,
            initial_chat_workflow_item_id: base.initial_chat_workflow_item_id,
        };
        let result = published.copied();
        let ghost before = store.chat_workflows@;
        store.chat_workflows.set(i, published);
        proof {
            let s = store.chat_workflows@;
            assert(ids_of_workflows(s) =~= ids_of_workflows(before));
            assert(crate::store::names_distinct(s)) by {
                assert(forall|a: int| 0 <= a < s.len() ==> s[a].name@ == before[a].name@);
            }
        }
        let text = String::from_str("Chat workflow '").concat(self.name.as_str()).concat(
            "' published",
        );
        let event = DomainEvent::create(
            DomainEventTypes::ChatWorkflowPublished,
            text,
            Tables::ChatWorkflows,
            Some(self.id),
            current_user_id,
            Some(display),
        );
        let committed = event.commit(store);
        proof {
            assert(committed is Ok);
        }
        Ok(result)
    }
}

/// `s` without the workflow of the given id.
pub open spec fn workflows_without_id(s: Seq<ChatWorkflow>, id: u64) -> Seq<ChatWorkflow>
    decreases s.len(),
{
    if s.len() == 0 {
        Seq::empty()
    } else {
        let rest = workflows_without_id(s.drop_last(), id);
        if s.last().id == id {
            rest
        } else {
            rest.push(s.last())
        }
    }
}

/// `s` without the items of the given workflow.
pub open spec fn items_without_workflow(s: Seq<ChatWorkflowItem>, wf_id: u64) -> Seq<
    ChatWorkflowItem,
>
    decreases s.len(),
{
    if s.len() == 0 {
        Seq::empty()
    } else {
        let rest = items_without_workflow(s.drop_last(), wf_id);
        if s.last().chat_workflow_id == wf_id {
            rest
        } else {
            rest.push(s.last())
        }
    }
}

/// Whether the item of the given id belongs to the workflow.
pub open spec fn item_owned_by(pre: Store, item_id: u64, wf_id: u64) -> bool {
    exists|j: int|
        0 <= j < pre.chat_workflow_items@.len() && (#[trigger] pre.chat_workflow_items@[j]).id
            == item_id && pre.chat_workflow_items@[j].chat_workflow_id == wf_id
}

/// The response table after deleting the workflow: the responses of its
/// items die with them.
pub open spec fn responses_after_workflow_delete(
    s: Seq<ChatWorkflowResponse>,
    pre: Store,
    wf_id: u64,
) -> Seq<ChatWorkflowResponse>
    decreases s.len(),
{
    if s.len() == 0 {
        Seq::empty()
    } else {
        let rest = responses_after_workflow_delete(s.drop_last(), pre, wf_id);
        if item_owned_by(pre, s.last().chat_workflow_item_id, wf_id) {
            rest
        } else {
            rest.push(s.last())
        }
    }
}

proof fn lemma_workflows_without_id(s: Seq<ChatWorkflow>, id: u64, bound: u64)
    requires
        table_ok(ids_of_workflows(s), bound),
        crate::store::names_distinct(s),
    ensures
        table_ok(ids_of_workflows(workflows_without_id(s, id)), bound),
        crate::store::names_distinct(workflows_without_id(s, id)),
        forall|k: int|
            0 <= k < workflows_without_id(s, id).len() ==> (exists|j: int|
                0 <= j < s.len() && s[j] == workflows_without_id(s, id)[k]) && (
            #[trigger] workflows_without_id(s, id)[k]).id != id,
    decreases s.len(),
{
    if s.len() > 0 {
        let d = s.drop_last();
        assert(table_ok(ids_of_workflows(d), bound)) by {
            assert(forall|i: int| 0 <= i < d.len() ==> ids_of_workflows(d)[i] == ids_of_workflows(
                s,
            )[i]);
        }
        assert(crate::store::names_distinct(d)) by {
            assert(forall|i: int| 0 <= i < d.len() ==> d[i] == s[i]);
        }
        lemma_workflows_without_id(d, id, bound);
        let f = workflows_without_id(s, id);
        let fd = workflows_without_id(d, id);
        assert forall|k: int| 0 <= k < f.len() implies (exists|j: int|
            0 <= j < s.len() && s[j] == f[k]) && (#[trigger] f[k]).id != id by {
            if s.last().id != id && k == f.len() - 1 {
                assert(s[s.len() - 1] == f[k]);
            } else {
                assert(f[k] == fd[k]);
                let j = choose|j: int| 0 <= j < d.len() && d[j] == f[k];
                assert(s[j] == f[k]);
            }
        }
        assert forall|i: int| 0 <= i < f.len() implies 1 <= #[trigger] ids_of_workflows(f)[i]
            < bound by {
            let j = choose|j: int| 0 <= j < s.len() && s[j] == f[i];
            assert(ids_of_workflows(s)[j] == f[i].id);
        }
        assert forall|i: int, j: int| 0 <= i < j < f.len() implies ids_of_workflows(f)[i]
            != ids_of_workflows(f)[j] && f[i].name@ != f[j].name@ by {
            let a = choose|a: int| 0 <= a < s.len() && s[a] == f[i];
            let b = choose|b: int| 0 <= b < s.len() && s[b] == f[j];
            if a == b {
                if s.last().id != id && j == f.len() - 1 {
                    assert(ids_of_workflows(fd)[i] == f[i].id);
                    let m = choose|m: int| 0 <= m < d.len() && d[m] == f[i];
                    assert(ids_of_workflows(s)[m] == f[i].id);
                    assert(ids_of_workflows(s)[s.len() - 1] == f[j].id);
                    if m != s.len() - 1 {
                        assert(s[m].name@ != s[s.len() - 1].name@);
                        assert(ids_of_workflows(s)[m] != ids_of_workflows(s)[s.len() - 1]);
                    } else {
                        assert(false);
                    }
                } else {
                    assert(ids_of_workflows(fd)[i] == f[i].id);
                    assert(ids_of_workflows(fd)[j] == f[j].id);
                    assert(fd[i].name@ != fd[j].name@);
                }
            } else {
                assert(ids_of_workflows(s)[a] == f[i].id);
                assert(ids_of_workflows(s)[b] == f[j].id);
                if a < b {
                    assert(s[a].name@ != s[b].name@);
                } else {
                    assert(s[b].name@ != s[a].name@);
                }
            }
        }
    }
}

proof fn lemma_items_without_workflow(s: Seq<ChatWorkflowItem>, wf_id: u64, bound: u64)
    requires
        table_ok(ids_of_items(s), bound),
    ensures
        table_ok(ids_of_items(items_without_workflow(s, wf_id)), bound),
        forall|k: int|
            0 <= k < items_without_workflow(s, wf_id).len() ==> exists|j: int|
                0 <= j < s.len() && s[j] == #[trigger] items_without_workflow(s, wf_id)[k],
    decreases s.len(),
{
    if s.len() > 0 {
        let d = s.drop_last();
        assert(table_ok(ids_of_items(d), bound)) by {
            assert(forall|i: int| 0 <= i < d.len() ==> ids_of_items(d)[i] == ids_of_items(s)[i]);
        }
        lemma_items_without_workflow(d, wf_id, bound);
        let f = items_without_workflow(s, wf_id);
        let fd = items_without_workflow(d, wf_id);
        assert forall|k: int| 0 <= k < f.len() implies exists|j: int|
            0 <= j < s.len() && s[j] == #[trigger] f[k] by {
            if s.last().chat_workflow_id != wf_id && k == f.len() - 1 {
                assert(s[s.len() - 1] == f[k]);
            } else {
                assert(f[k] == fd[k]);
                let j = choose|j: int| 0 <= j < d.len() && d[j] == f[k];
                assert(s[j] == f[k]);
            }
        }
        assert forall|i: int| 0 <= i < f.len() implies 1 <= #[trigger] ids_of_items(f)[i]
            < bound by {
            let j = choose|j: int| 0 <= j < s.len() && s[j] == f[i];
            assert(ids_of_items(s)[j] == f[i].id);
        }
        assert forall|i: int, j: int| 0 <= i < j < f.len() implies ids_of_items(f)[i]
            != ids_of_items(f)[j] by {
            if s.last().chat_workflow_id != wf_id && j == f.len() - 1 {
                let m = choose|m: int| 0 <= m < d.len() && d[m] == f[i];
                assert(ids_of_items(s)[m] == f[i].id);
                assert(ids_of_items(s)[s.len() - 1] == f[j].id);
            } else {
                assert(ids_of_items(fd)[i] == ids_of_items(f)[i]);
                assert(ids_of_items(fd)[j] == ids_of_items(f)[j]);
            }
        }
    }
}

proof fn lemma_responses_after_workflow_delete(
    s: Seq<ChatWorkflowResponse>,
    pre: Store,
    wf_id: u64,
    bound: u64,
)
    requires
        table_ok(ids_of_responses(s), bound),
        crate::store::answers_unique(s),
        crate::store::response_items_below(s, bound),
    ensures
        table_ok(ids_of_responses(responses_after_workflow_delete(s, pre, wf_id)), bound),
        crate::store::answers_unique(responses_after_workflow_delete(s, pre, wf_id)),
        crate::store::response_items_below(responses_after_workflow_delete(s, pre, wf_id), bound),
        forall|k: int|
            0 <= k < responses_after_workflow_delete(s, pre, wf_id).len() ==> exists|j: int|
                0 <= j < s.len() && s[j] == #[trigger] responses_after_workflow_delete(
                    s,
                    pre,
                    wf_id,
                )[k],
    decreases s.len(),
{
    if s.len() > 0 {
        let d = s.drop_last();
        assert(table_ok(ids_of_responses(d), bound)) by {
            assert(forall|i: int| 0 <= i < d.len() ==> ids_of_responses(d)[i] == ids_of_responses(
                s,
            )[i]);
        }
        assert(crate::store::answers_unique(d) && crate::store::response_items_below(d, bound))
            by {
            assert(forall|i: int| 0 <= i < d.len() ==> d[i] == s[i]);
        }
        lemma_responses_after_workflow_delete(d, pre, wf_id, bound);
        let f = responses_after_workflow_delete(s, pre, wf_id);
        let fd = responses_after_workflow_delete(d, pre, wf_id);
        let kept = !item_owned_by(pre, s.last().chat_workflow_item_id, wf_id);
        assert forall|k: int| 0 <= k < f.len() implies exists|j: int|
            0 <= j < s.len() && s[j] == #[trigger] f[k] by {
            if kept && k == f.len() - 1 {
                assert(s[s.len() - 1] == f[k]);
            } else {
                assert(f[k] == fd[k]);
                let j = choose|j: int| 0 <= j < d.len() && d[j] == f[k];
                assert(s[j] == f[k]);
            }
        }
        assert forall|i: int| 0 <= i < f.len() implies 1 <= #[trigger] ids_of_responses(f)[i]
            < bound && f[i].chat_workflow_item_id < bound by {
            let j = choose|j: int| 0 <= j < s.len() && s[j] == f[i];
            assert(ids_of_responses(s)[j] == f[i].id);
        }
        assert forall|i: int, j: int| 0 <= i < j < f.len() implies ids_of_responses(f)[i]
            != ids_of_responses(f)[j] by {
            if kept && j == f.len() - 1 {
                let m = choose|m: int| 0 <= m < d.len() && d[m] == f[i];
                assert(ids_of_responses(s)[m] == f[i].id);
                assert(ids_of_responses(s)[s.len() - 1] == f[j].id);
            } else {
                assert(ids_of_responses(fd)[i] == ids_of_responses(f)[i]);
                assert(ids_of_responses(fd)[j] == ids_of_responses(f)[j]);
            }
        }
        assert forall|i: int, j: int|
            0 <= i < j < f.len() && f[i].chat_workflow_item_id == f[j].chat_workflow_item_id
                && f[i].answer_value is Some && f[j].answer_value is Some implies opt_view(
            f[i].answer_value,
        ) != opt_view(f[j].answer_value) by {
            let a = choose|a: int| 0 <= a < s.len() && s[a] == f[i];
            let b = choose|b: int| 0 <= b < s.len() && s[b] == f[j];
            if a == b {
                assert(ids_of_responses(f)[i] != ids_of_responses(f)[j]);
            } else if a < b {
                assert(opt_view(s[a].answer_value) != opt_view(s[b].answer_value));
            } else {
                assert(opt_view(s[b].answer_value) != opt_view(s[a].answer_value));
            }
        }
    }
}

impl ChatWorkflow {
    /// Destroys the workflow: its items and their responses die with it, and
    /// one `ChatWorkflowDeleted` event carrying the pre-deletion rendered
    /// snapshot is appended.
    pub fn destroy(&self, current_user_id: Option<u64>, store: &mut Store) -> (r: Result<
        (),
        DatabaseError,
    >)
        requires
            old(store).wf(),
            old(store).next_id < u64::MAX,
        ensures
            final(store).wf(),
            !old(store).has_workflow(self.id) ==> (r matches Err(e) && e.error_code
                == ErrorCode::UpdateError && e.message@ == "Could not update chat workflow"@
                && *final(store) == *old(store)),
            old(store).has_workflow(self.id) && spec_workflow_display(*old(store), *self) is None
                ==> (r matches Err(e) && is_no_results(e) && *final(store) == *old(store)),
            old(store).has_workflow(self.id) && spec_workflow_display(*old(store), *self) is Some
                ==> (r is Ok && {
                &&& final(store).chat_workflows@ == workflows_without_id(
                    old(store).chat_workflows@,
                    self.id,
                )
                &&& final(store).chat_workflow_items@ == items_without_workflow(
                    old(store).chat_workflow_items@,
                    self.id,
                )
                &&& final(store).chat_workflow_responses@ == responses_after_workflow_delete(
                    old(store).chat_workflow_responses@,
                    *old(store),
                    self.id,
                )
                &&& final(store).chat_sessions@ == old(store).chat_sessions@
                &&& final(store).chat_workflow_interactions@ == old(
                    store,
                ).chat_workflow_interactions@
                &&& final(store).next_id == old(store).next_id + 1
                &&& final(store).domain_events@.len() == old(store).domain_events@.len() + 1
                &&& final(store).domain_events@.drop_last() == old(store).domain_events@
                &&& ({
                    let e = final(store).domain_events@.last();
                    &&& e.event_type == DomainEventTypes::ChatWorkflowDeleted
                    &&& e.main_table == Tables::ChatWorkflows
                    &&& e.main_id == Some(self.id)
                    &&& e.user_id == current_user_id
                    &&& e.event_data matches Some(d) && Some(d@) == spec_workflow_display(
                        *old(store),
                        *self,
                    )
                })
            }),
    {
        let ghost pre = *old(store);
        if store.find_workflow_index(self.id).is_none() {
            return Err(DatabaseError::new(
                ErrorCode::UpdateError,
                "Could not update chat workflow",
            ));
        }
        let display = match self.for_display(store) {
            Ok(d) => d,
            Err(e) => {
                return Err(e);
            },
        };
        let mut owned_ids: Vec<u64> = Vec::new();
        let item_count = store.chat_workflow_items.len();
        let mut i: usize = 0;
        while i < item_count
            invariant
                *store == pre,
                item_count == store.chat_workflow_items@.len(),
                i <= item_count,
                forall|x: u64|
                    owned_ids@.contains(x) <==> exists|j: int|
                        0 <= j < i && (#[trigger] store.chat_workflow_items@[j]).id == x
                            && store.chat_workflow_items@[j].chat_workflow_id == self.id,
            decreases item_count - i,
        {
            let ghost prev = owned_ids@;
            let matched = store.chat_workflow_items[i].chat_workflow_id == self.id;
            if matched {
                owned_ids.push(store.chat_workflow_items[i].id);
            }
            proof {
                let items = store.chat_workflow_items@;
                assert forall|x: u64| owned_ids@.contains(x) implies exists|j: int|
                    0 <= j < i + 1 && (#[trigger] items[j]).id == x && items[j].chat_workflow_id
                        == self.id by {
                    let k = choose|k: int| 0 <= k < owned_ids@.len() && owned_ids@[k] == x;
                    if k < prev.len() {
                        assert(prev[k] == x);
                        assert(prev.contains(x));
                        let j = choose|j: int|
                            0 <= j < i && (#[trigger] items[j]).id == x && items[j].chat_workflow_id
                                == self.id;
                        assert(items[j].id == x && items[j].chat_workflow_id == self.id);
                    } else {
                        assert(matched);
                        assert(items[i as int].id == x && items[i as int].chat_workflow_id
                            == self.id);
                    }
                }
                assert forall|x: u64|
                    (exists|j: int|
                        0 <= j < i + 1 && (#[trigger] items[j]).id == x
                            && items[j].chat_workflow_id == self.id) implies owned_ids@.contains(
                    x,
                ) by {
                    let j = choose|j: int|
                        0 <= j < i + 1 && (#[trigger] items[j]).id == x && items[j].chat_workflow_id
                            == self.id;
                    if j < i {
                        assert(prev.contains(x));
                        let k = choose|k: int| 0 <= k < prev.len() && prev[k] == x;
                        assert(owned_ids@[k] == x);
                    } else {
                        assert(matched);
                        assert(owned_ids@[owned_ids@.len() - 1] == x);
                    }
                }
            }
            i += 1;
        }
        proof {
            assert(forall|x: u64| owned_ids@.contains(x) <==> item_owned_by(pre, x, self.id));
        }
        let mut responses: Vec<ChatWorkflowResponse> = Vec::new();
        let rn = store.chat_workflow_responses.len();
        let mut k: usize = 0;
        while k < rn
            invariant
                *store == pre,
                rn == store.chat_workflow_responses@.len(),
                k <= rn,
                forall|x: u64| owned_ids@.contains(x) <==> item_owned_by(pre, x, self.id),
                responses@ == responses_after_workflow_delete(
                    store.chat_workflow_responses@.take(k as int),
                    pre,
                    self.id,
                ),
            decreases rn - k,
        {
            let ghost prefix = store.chat_workflow_responses@.take(k as int);
            if !crate::render::vec_contains(&owned_ids, store.chat_workflow_responses[k].chat_workflow_item_id) {
                responses.push(store.chat_workflow_responses[k].copied());
            }
            proof {
                assert(store.chat_workflow_responses@.take(k + 1).drop_last() =~= prefix);
                assert(store.chat_workflow_responses@.take(k + 1).last()
                    == store.chat_workflow_responses@[k as int]);
            }
            k += 1;
        }
        proof {
            assert(store.chat_workflow_responses@.take(rn as int)
                =~= store.chat_workflow_responses@);
        }
        let mut items: Vec<ChatWorkflowItem> = Vec::new();
        let icount = store.chat_workflow_items.len();
        let mut m: usize = 0;
        while m < icount
            invariant
                *store == pre,
                icount == store.chat_workflow_items@.len(),
                m <= icount,
                items@ == items_without_workflow(
                    store.chat_workflow_items@.take(m as int),
                    self.id,
                ),
            decreases icount - m,
        {
            let ghost prefix = store.chat_workflow_items@.take(m as int);
            if store.chat_workflow_items[m].chat_workflow_id != self.id {
                items.push(store.chat_workflow_items[m].copied());
            }
            proof {
                assert(store.chat_workflow_items@.take(m + 1).drop_last() =~= prefix);
                assert(store.chat_workflow_items@.take(m + 1).last()
                    == store.chat_workflow_items@[m as int]);
            }
            m += 1;
        }
        proof {
            assert(store.chat_workflow_items@.take(icount as int) =~= store.chat_workflow_items@);
        }
        let mut workflows: Vec<ChatWorkflow> = Vec::new();
        let wcount = store.chat_workflows.len();
        let mut w: usize = 0;
        while w < wcount
            invariant
                *store == pre,
                wcount == store.chat_workflows@.len(),
                w <= wcount,
                workflows@ == workflows_without_id(store.chat_workflows@.take(w as int), self.id),
            decreases wcount - w,
        {
            let ghost prefix = store.chat_workflows@.take(w as int);
            if store.chat_workflows[w].id != self.id {
                workflows.push(store.chat_workflows[w].copied());
            }
            proof {
                assert(store.chat_workflows@.take(w + 1).drop_last() =~= prefix);
                assert(store.chat_workflows@.take(w + 1).last()
                    == store.chat_workflows@[w as int]);
            }
            w += 1;
        }
        proof {
            assert(store.chat_workflows@.take(wcount as int) =~= store.chat_workflows@);
        }
        store.chat_workflow_responses = responses;
        store.chat_workflow_items = items;
        store.chat_workflows = workflows;
        proof {
            lemma_workflows_without_id(pre.chat_workflows@, self.id, pre.next_id);
            lemma_items_without_workflow(pre.chat_workflow_items@, self.id, pre.next_id);
            lemma_responses_after_workflow_delete(
                pre.chat_workflow_responses@,
                pre,
                self.id,
                pre.next_id,
            );
        }
        let text = String::from_str("Chat workflow '").concat(self.name.as_str()).concat(
            "' deleted",
        );
        let event = DomainEvent::create(
            DomainEventTypes::ChatWorkflowDeleted,
            text,
            Tables::ChatWorkflows,
            Some(self.id),
            current_user_id,
            Some(display),
        );
        let committed = event.commit(store);
        proof {
            assert(committed is Ok);
        }
        Ok(())
    }
}

impl NewChatWorkflow {
    /// Commits the workflow as a draft; the name must be free. One
    /// `ChatWorkflowCreated` event with the rendered (empty) snapshot is
    /// appended.
    pub fn commit(&self, current_user_id: Option<u64>, store: &mut Store) -> (r: Result<
        ChatWorkflow,
        DatabaseError,
    >)
        requires
            old(store).wf(),
            old(store).next_id < u64::MAX - 1,
        ensures
            final(store).wf(),
            old(store).name_taken(self.name@, None) ==> (r matches Err(e) && is_uniqueness_error(
                e,
                "name"@,
                "Name is already in use"@,
            ) && *final(store) == *old(store)),
            !old(store).name_taken(self.name@, None) ==> (r matches Ok(w) && {
                &&& w.id == old(store).next_id
                &&& !old(store).has_workflow(w.id)
                &&& w.name@ == self.name@
                &&& w.status == ChatWorkflowStatus::Draft
                &&& w.initial_chat_workflow_item_id is None
                &&& final(store).chat_workflows@ == old(store).chat_workflows@.push(w)
                &&& final(store).chat_workflow_items@ == old(store).chat_workflow_items@
                &&& final(store).chat_workflow_responses@ == old(store).chat_workflow_responses@
                &&& final(store).chat_sessions@ == old(store).chat_sessions@
                &&& final(store).chat_workflow_interactions@ == old(
                    store,
                ).chat_workflow_interactions@
                &&& final(store).next_id == old(store).next_id + 2
                &&& final(store).domain_events@.len() == old(store).domain_events@.len() + 1
                &&& final(store).domain_events@.drop_last() == old(store).domain_events@
                &&& ({
                    let e = final(store).domain_events@.last();
                    &&& e.event_type == DomainEventTypes::ChatWorkflowCreated
                    &&& e.main_table == Tables::ChatWorkflows
                    &&& e.main_id == Some(w.id)
                    &&& e.user_id == current_user_id
                    &&& e.event_data matches Some(d) && d@.tree == SpecItemTree::Empty && d@.name
                        == self.name@ && d@.id == w.id
                })
            }),
    {
        let ghost pre = *old(store);
        let name_check = match name_unique(self.name.as_str(), None, store) {
            Ok(x) => x,
            Err(e) => {
                return Err(e);
            },
        };
        if let Err(fve) = name_check {
            let mut errors: Vec<crate::error::FieldValidationError> = Vec::new();
            errors.push(fve);
            return Err(DatabaseError {
                error_code: ErrorCode::ValidationError { errors },
                message: String::from_str("Validation error"),
            });
        }
        let id = store.allocate_id();
        let workflow = ChatWorkflow {
            id,
            name: self.name.clone(),
            status: ChatWorkflowStatus::Draft,
            initial_chat_workflow_item_id: None,
        };
        let result = workflow.copied();
        let display = DisplayChatWorkflow {
            id,
            name: self.name.clone(),
            status: ChatWorkflowStatus::Draft,
            tree: ItemTree::Empty,
            initial_chat_workflow_item_id: None,
        };
        let ghost before = store.chat_workflows@;
        store.chat_workflows.push(workflow);
        proof {
            assert(store.chat_workflows@.drop_last() =~= before);
            assert(ids_of_workflows(store.chat_workflows@) =~= ids_of_workflows(before).push(id));
            crate::store::lemma_table_ok_push(
                ids_of_workflows(before),
                pre.next_id,
                id,
                store.next_id,
            );
            crate::store::lemma_table_ok_widen(pre.item_ids(), pre.next_id, store.next_id);
            crate::store::lemma_table_ok_widen(pre.response_ids(), pre.next_id, store.next_id);
            crate::store::lemma_table_ok_widen(pre.session_ids(), pre.next_id, store.next_id);
            crate::store::lemma_table_ok_widen(pre.interaction_ids(), pre.next_id, store.next_id);
            crate::store::lemma_table_ok_widen(pre.event_ids(), pre.next_id, store.next_id);
            assert(crate::store::names_distinct(store.chat_workflows@)) by {
                let s = store.chat_workflows@;
                assert forall|a: int, b: int| 0 <= a < b < s.len() implies s[a].name@
                    != s[b].name@ by {
                    if b == s.len() - 1 {
                        assert(s[a] == before[a]);
                        if s[a].name@ == s[b].name@ {
                            assert(pre.name_taken(self.name@, None));
                        }
                    } else {
                        assert(s[a] == before[a]);
                        assert(s[b] == before[b]);
                    }
                }
            }
            assert(!pre.has_workflow(id)) by {
                if pre.has_workflow(id) {
                    let k = choose|k: int|
                        0 <= k < pre.chat_workflows@.len() && pre.chat_workflows@[k].id == id;
                    assert(ids_of_workflows(pre.chat_workflows@)[k] == id);
                }
            }
        }
        let text = String::from_str("Chat workflow '").concat(self.name.as_str()).concat(
            "' created",
        );
        let event = DomainEvent::create(
            DomainEventTypes::ChatWorkflowCreated,
            text,
            Tables::ChatWorkflows,
            Some(id),
            current_user_id,
            Some(display),
        );
        let committed = event.commit(store);
        proof {
            assert(committed is Ok);
        }
        Ok(result)
    }
}

} // verus!
