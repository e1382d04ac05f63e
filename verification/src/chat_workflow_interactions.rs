//! Workflow interactions: the append-only log of every transition a session
//! has taken. Records are immutable once written and survive their session.

use vstd::prelude::*;

use crate::error::{is_no_results, DatabaseError};
use crate::store::{ids_of_interactions, Store};
use crate::strings::opt_clone;

verus! {

/// One logged transition: which response was taken on which item, by which
/// session, with what input, and when.
#[derive(Clone, Debug, PartialEq, Eq)]
pub struct ChatWorkflowInteraction {
    pub id: u64,
    pub chat_workflow_item_id: u64,
    pub chat_workflow_response_id: u64,
    pub chat_session_id: u64,
    pub input: Option<String>,
    pub created_at: i64,
}

impl ChatWorkflowInteraction {
    /// An owned copy, equal to `self` as a value.
    pub fn copied(&self) -> (r: ChatWorkflowInteraction)
        ensures
            r == *self,
    {
        ChatWorkflowInteraction {
            id: self.id,
            chat_workflow_item_id: self.chat_workflow_item_id,
            chat_workflow_response_id: self.chat_workflow_response_id,
            chat_session_id: self.chat_session_id,
            input: opt_clone(&self.input),
            created_at: self.created_at,
        }
    }
}

/// An interaction waiting to be committed to the store.
#[derive(Clone, Debug, PartialEq, Eq)]
pub struct NewChatWorkflowInteraction {
    pub chat_workflow_item_id: u64,
    pub chat_workflow_response_id: u64,
    pub chat_session_id: u64,
    pub input: Option<String>,
}

/// The interactions of `s` belonging to the session, in the order they were
/// logged.
pub open spec fn interactions_of(s: Seq<ChatWorkflowInteraction>, session_id: u64) -> Seq<
    ChatWorkflowInteraction,
>
    decreases s.len(),
{
    if s.len() == 0 {
        Seq::empty()
    } else {
        let rest = interactions_of(s.drop_last(), session_id);
        if s.last().chat_session_id == session_id {
            rest.push(s.last())
        } else {
            rest
        }
    }
}

/// `x` inserted into `s` directly before the first record written later
/// than `x`, so that records of one moment keep their existing order.
pub open spec fn created_insert(
    x: ChatWorkflowInteraction,
    s: Seq<ChatWorkflowInteraction>,
) -> Seq<ChatWorkflowInteraction>
    decreases s.len(),
{
    if s.len() == 0 {
        seq![x]
    } else if x.created_at < s[0].created_at {
        seq![x] + s
    } else {
        seq![s[0]] + created_insert(x, s.skip(1))
    }
}

/// `s` stably sorted by `created_at`, oldest first.
pub open spec fn created_sorted(s: Seq<ChatWorkflowInteraction>) -> Seq<ChatWorkflowInteraction>
    decreases s.len(),
{
    if s.len() == 0 {
        Seq::empty()
    } else {
        created_insert(s.last(), created_sorted(s.drop_last()))
    }
}

/// Whether timestamps never decrease along `s`.
pub open spec fn sorted_by_created_at(s: Seq<ChatWorkflowInteraction>) -> bool {
    forall|i: int, j: int| 0 <= i < j < s.len() ==> s[i].created_at <= s[j].created_at
}

proof fn lemma_created_insert_at(
    x: ChatWorkflowInteraction,
    s: Seq<ChatWorkflowInteraction>,
    p: int,
)
    requires
        0 <= p <= s.len(),
        forall|i: int| 0 <= i < p ==> s[i].created_at <= x.created_at,
        p < s.len() ==> s[p].created_at > x.created_at,
    ensures
        created_insert(x, s) == s.take(p).push(x) + s.skip(p),
    decreases p,
{
    if p == 0 {
        if s.len() == 0 {
            assert(created_insert(x, s) =~= s.take(0).push(x) + s.skip(0));
        } else {
            assert(x.created_at < s[0].created_at);
            assert(seq![x] + s =~= s.take(0).push(x) + s.skip(0));
        }
    } else {
        assert(s[0].created_at <= x.created_at);
        let t = s.skip(1);
        assert(forall|i: int| 0 <= i < p - 1 ==> t[i] == s[i + 1]);
        lemma_created_insert_at(x, t, p - 1);
        assert(t.take(p - 1) =~= s.subrange(1, p));
        assert(t.skip(p - 1) =~= s.skip(p));
        assert(seq![s[0]] + (t.take(p - 1).push(x) + t.skip(p - 1)) =~= s.take(p).push(x) + s.skip(
            p,
        ));
    }
}

/// Inserting keeps the sequence ordered by `created_at`.
pub proof fn lemma_created_insert_sorted(
    x: ChatWorkflowInteraction,
    s: Seq<ChatWorkflowInteraction>,
)
    requires
        sorted_by_created_at(s),
    ensures
        sorted_by_created_at(created_insert(x, s)),
        created_insert(x, s).len() == s.len() + 1,
    decreases s.len(),
{
    if s.len() == 0 {
    } else if x.created_at < s[0].created_at {
        assert forall|i: int, j: int|
            0 <= i < j < created_insert(x, s).len() implies created_insert(x, s)[i].created_at
            <= created_insert(x, s)[j].created_at by {
            if i > 0 {
                assert(created_insert(x, s)[i] == s[i - 1]);
            }
            assert(created_insert(x, s)[j] == s[j - 1]);
        }
    } else {
        let t = s.skip(1);
        assert(sorted_by_created_at(t)) by {
            assert(forall|i: int| 0 <= i < t.len() ==> t[i] == s[i + 1]);
        }
        lemma_created_insert_sorted(x, t);
        let r = created_insert(x, s);
        assert(r == seq![s[0]] + created_insert(x, t));
        assert forall|i: int, j: int| 0 <= i < j < r.len() implies r[i].created_at
            <= r[j].created_at by {
            assert(r[j] == created_insert(x, t)[j - 1]);
            if r[j] != x {
                lemma_created_insert_member(x, t, j - 1);
                let m = choose|m: int| 0 <= m < t.len() && t[m] == created_insert(x, t)[j - 1];
                assert(s[0].created_at <= s[m + 1].created_at);
            }
            if i > 0 {
                assert(r[i] == created_insert(x, t)[i - 1]);
            }
        }
    }
}

/// An element of the insertion other than `x` is an element of `s`.
proof fn lemma_created_insert_member(
    x: ChatWorkflowInteraction,
    s: Seq<ChatWorkflowInteraction>,
    k: int,
)
    requires
        0 <= k < created_insert(x, s).len(),
        created_insert(x, s)[k] != x,
    ensures
        exists|j: int| 0 <= j < s.len() && s[j] == created_insert(x, s)[k],
    decreases s.len(),
{
    if s.len() == 0 {
        assert(created_insert(x, s)[0] == x);
    } else if x.created_at < s[0].created_at {
        assert(created_insert(x, s)[k] == s[k - 1]);
    } else {
        let t = s.skip(1);
        if k == 0 {
            assert(created_insert(x, s)[0] == s[0]);
        } else {
            assert(created_insert(x, s)[k] == created_insert(x, t)[k - 1]);
            lemma_created_insert_member(x, t, k - 1);
            let j = choose|j: int| 0 <= j < t.len() && t[j] == created_insert(x, t)[k - 1];
            assert(s[j + 1] == created_insert(x, s)[k]);
        }
    }
}

/// The stable sort of the log is ordered by `created_at`.
pub proof fn lemma_created_sorted_sorted(s: Seq<ChatWorkflowInteraction>)
    ensures
        sorted_by_created_at(created_sorted(s)),
        created_sorted(s).len() == s.len(),
    decreases s.len(),
{
    if s.len() > 0 {
        lemma_created_sorted_sorted(s.drop_last());
        lemma_created_insert_sorted(s.last(), created_sorted(s.drop_last()));
    }
}

/// Inserts `x` into `out` directly before the first record written later.
fn insert_by_created(out: &mut Vec<ChatWorkflowInteraction>, x: ChatWorkflowInteraction)
    ensures
        final(out)@ == created_insert(x, old(out)@),
{
    let n = out.len();
    let mut p: usize = 0;
    while p < n && out[p].created_at <= x.created_at
        invariant
            out@ == old(out)@,
            n == out@.len(),
            p <= n,
            forall|i: int| 0 <= i < p ==> out@[i].created_at <= x.created_at,
        decreases n - p,
    {
        p += 1;
    }
    proof {
        lemma_created_insert_at(x, out@, p as int);
    }
    out.insert(p, x);
    proof {
        assert(final(out)@ =~= old(out)@.take(p as int).push(x) + old(out)@.skip(p as int));
    }
}

impl ChatWorkflowInteraction {
    /// An interaction ready to be committed.
    pub fn create(
        chat_workflow_item_id: u64,
        chat_workflow_response_id: u64,
        chat_session_id: u64,
        input: Option<String>,
    ) -> (r: NewChatWorkflowInteraction)
        ensures
            r.chat_workflow_item_id == chat_workflow_item_id,
            r.chat_workflow_response_id == chat_workflow_response_id,
            r.chat_session_id == chat_session_id,
            r.input == input,
    {
        NewChatWorkflowInteraction {
            chat_workflow_item_id,
            chat_workflow_response_id,
            chat_session_id,
            input,
        }
    }

    /// The interaction with the given id; absence is `NoResults`.
    pub fn find(id: u64, store: &Store) -> (r: Result<ChatWorkflowInteraction, DatabaseError>)
        requires
            store.wf(),
        ensures
            match r {
                Ok(x) => store.has_interaction(id) && exists|i: int|
                    0 <= i < store.chat_workflow_interactions@.len()
                        && store.chat_workflow_interactions@[i] == x && x.id == id,
                Err(e) => !store.has_interaction(id) && is_no_results(e) && e.message@
                    == "Unable to load chat workflow interaction"@,
            },
    {
        match store.find_interaction_index(id) {
            Some(i) => {
                let found = store.chat_workflow_interactions[i].copied();
                proof {
                    assert(store.chat_workflow_interactions@[i as int] == found);
                }
                Ok(found)
            },
            None => DatabaseError::no_results("Unable to load chat workflow interaction"),
        }
    }

    /// The session's logged transitions, ordered by their timestamps,
    /// oldest first; records of one moment keep the order they were logged.
    pub fn find_by_chat_session(
        chat_session: &crate::chat_sessions::ChatSession,
        store: &Store,
    ) -> (r: Result<Vec<ChatWorkflowInteraction>, DatabaseError>)
        ensures
            r matches Ok(v) && v@ == created_sorted(
                interactions_of(store.chat_workflow_interactions@, chat_session.id),
            ) && sorted_by_created_at(v@),
    {
        let mut out: Vec<ChatWorkflowInteraction> = Vec::new();
        let n = store.chat_workflow_interactions.len();
        let mut i: usize = 0;
        while i < n
            invariant
                n == store.chat_workflow_interactions@.len(),
                i <= n,
                out@ == created_sorted(
                    interactions_of(
                        store.chat_workflow_interactions@.take(i as int),
                        chat_session.id,
                    ),
                ),
            decreases n - i,
        {
            let ghost prefix = store.chat_workflow_interactions@.take(i as int);
            if store.chat_workflow_interactions[i].chat_session_id == chat_session.id {
                insert_by_created(&mut out, store.chat_workflow_interactions[i].copied());
            }
            proof {
                assert(store.chat_workflow_interactions@.take(i + 1).drop_last() =~= prefix);
                assert(store.chat_workflow_interactions@.take(i + 1).last()
                    == store.chat_workflow_interactions@[i as int]);
                let grown = interactions_of(
                    store.chat_workflow_interactions@.take(i + 1),
                    chat_session.id,
                );
                if store.chat_workflow_interactions@[i as int].chat_session_id
                    == chat_session.id {
                    assert(grown == interactions_of(prefix, chat_session.id).push(
                        store.chat_workflow_interactions@[i as int],
                    ));
                    assert(grown.drop_last() =~= interactions_of(prefix, chat_session.id));
                }
            }
            i += 1;
        }
        proof {
            assert(store.chat_workflow_interactions@.take(n as int)
                =~= store.chat_workflow_interactions@);
            lemma_created_sorted_sorted(
                interactions_of(store.chat_workflow_interactions@, chat_session.id),
            );
        }
        Ok(out)
    }

    /// Logs one transition taken by the session.
    pub fn log_interaction(
        chat_session: &crate::chat_sessions::ChatSession,
        chat_workflow_item: &crate::chat_workflow_items::ChatWorkflowItem,
        chat_workflow_response: &crate::chat_workflow_responses::ChatWorkflowResponse,
        input: Option<String>,
        now: i64,
        store: &mut Store,
    ) -> (r: Result<ChatWorkflowInteraction, DatabaseError>)
        requires
            old(store).wf(),
            old(store).next_id < u64::MAX,
        ensures
            final(store).wf(),
            r matches Ok(x) && {
                &&& x.chat_workflow_item_id == chat_workflow_item.id
                &&& x.chat_workflow_response_id == chat_workflow_response.id
                &&& x.chat_session_id == chat_session.id
                &&& x.input == input
                &&& x.created_at == now
                &&& !old(store).has_interaction(x.id)
                &&& final(store).chat_workflow_interactions@ == old(
                    store,
                ).chat_workflow_interactions@.push(x)
                &&& final(store).next_id == old(store).next_id + 1
                &&& final(store).chat_workflows@ == old(store).chat_workflows@
                &&& final(store).chat_workflow_items@ == old(store).chat_workflow_items@
                &&& final(store).chat_workflow_responses@ == old(store).chat_workflow_responses@
                &&& final(store).chat_sessions@ == old(store).chat_sessions@
                &&& final(store).domain_events@ == old(store).domain_events@
            },
    {
        ChatWorkflowInteraction::create(
            chat_workflow_item.id,
            chat_workflow_response.id,
            chat_session.id,
            input,
        ).commit(now, store)
    }
}

impl NewChatWorkflowInteraction {
    /// Appends the interaction to the log with the given timestamp.
    pub fn commit(self, now: i64, store: &mut Store) -> (r: Result<
        ChatWorkflowInteraction,
        DatabaseError,
    >)
        requires
            old(store).wf(),
            old(store).next_id < u64::MAX,
        ensures
            final(store).wf(),
            r matches Ok(x) && {
                &&& x.chat_workflow_item_id == self.chat_workflow_item_id
                &&& x.chat_workflow_response_id == self.chat_workflow_response_id
                &&& x.chat_session_id == self.chat_session_id
                &&& x.input == self.input
                &&& x.created_at == now
                &&& !old(store).has_interaction(x.id)
                &&& final(store).chat_workflow_interactions@ == old(
                    store,
                ).chat_workflow_interactions@.push(x)
                &&& final(store).next_id == old(store).next_id + 1
                &&& final(store).chat_workflows@ == old(store).chat_workflows@
                &&& final(store).chat_workflow_items@ == old(store).chat_workflow_items@
                &&& final(store).chat_workflow_responses@ == old(store).chat_workflow_responses@
                &&& final(store).chat_sessions@ == old(store).chat_sessions@
                &&& final(store).domain_events@ == old(store).domain_events@
            },
    {
        let ghost pre = *old(store);
        let id = store.allocate_id();
        let record = ChatWorkflowInteraction {
            id,
            chat_workflow_item_id: self.chat_workflow_item_id,
            chat_workflow_response_id: self.chat_workflow_response_id,
            chat_session_id: self.chat_session_id,
            input: self.input,
            created_at: now,
        };
        let result = record.copied();
        let ghost before = store.chat_workflow_interactions@;
        store.chat_workflow_interactions.push(record);
        proof {
            assert(store.chat_workflow_interactions@.drop_last() =~= before);
            assert(ids_of_interactions(store.chat_workflow_interactions@)
                =~= ids_of_interactions(before).push(id));
            crate::store::lemma_table_ok_push(
                ids_of_interactions(before),
                pre.next_id,
                id,
                store.next_id,
            );
            crate::store::lemma_table_ok_widen(pre.workflow_ids(), pre.next_id, store.next_id);
            crate::store::lemma_table_ok_widen(pre.item_ids(), pre.next_id, store.next_id);
            crate::store::lemma_table_ok_widen(pre.response_ids(), pre.next_id, store.next_id);
            crate::store::lemma_table_ok_widen(pre.session_ids(), pre.next_id, store.next_id);
            crate::store::lemma_table_ok_widen(pre.event_ids(), pre.next_id, store.next_id);
            assert(!pre.has_interaction(id)) by {
                if pre.has_interaction(id) {
                    let i = choose|i: int|
                        0 <= i < pre.chat_workflow_interactions@.len()
                            && pre.chat_workflow_interactions@[i].id == id;
                    assert(ids_of_interactions(pre.chat_workflow_interactions@)[i] == id);
                }
            }
        }
        Ok(result)
    }
}

} // verus!
