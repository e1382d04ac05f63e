//! Workflow responses: the labelled edges of the decision graph. A response
//! leads from its item to an optional next item; a `Question` item's
//! responses carry the `answer_value` token that user input is matched
//! against, unique within the item, and siblings are ordered by `rank`.

use vstd::prelude::*;

use crate::chat_sessions::ChatSession;
use crate::error::{is_no_results, is_uniqueness_error, DatabaseError, ErrorCode};
use crate::store::{ids_of_responses, table_ok, Store};
use crate::strings::{opt_clone, opt_view, str_eq};

verus! {

/// The kind of a response: an automatic edge or a labelled answer.
#[derive(Clone, Copy, Debug, PartialEq, Eq, Structural)]
pub enum ChatWorkflowResponseType {
    Noop,
    Answer,
}

/// An edge of the decision graph.
#[derive(Clone, Debug, PartialEq, Eq)]
pub struct ChatWorkflowResponse {
    pub id: u64,
    pub chat_workflow_item_id: u64,
    pub response_type: ChatWorkflowResponseType,
    pub response: Option<String>,
    pub answer_value: Option<String>,
    pub next_chat_workflow_item_id: Option<u64>,
    pub rank: i64,
}

impl ChatWorkflowResponse {
    /// An owned copy, equal to `self` as a value.
    pub fn copied(&self) -> (r: ChatWorkflowResponse)
        ensures
            r == *self,
    {
        ChatWorkflowResponse {
            id: self.id,
            chat_workflow_item_id: self.chat_workflow_item_id,
            response_type: self.response_type,
            response: opt_clone(&self.response),
            answer_value: opt_clone(&self.answer_value),
            next_chat_workflow_item_id: self.next_chat_workflow_item_id,
            rank: self.rank,
        }
    }
}

/// A response waiting to be committed to the store.
#[derive(Clone, Debug, PartialEq, Eq)]
pub struct NewChatWorkflowResponse {
    pub chat_workflow_item_id: u64,
    pub response_type: ChatWorkflowResponseType,
    pub response: Option<String>,
    pub answer_value: Option<String>,
    pub next_chat_workflow_item_id: Option<u64>,
    pub rank: i64,
}

/// The fields of a response that an editor may change; a `None` leaves the
/// field as it is, and the inner options distinguish clearing from setting.
#[derive(Clone, Debug, PartialEq, Eq)]
pub struct ChatWorkflowResponseEditableAttributes {
    pub response_type: Option<ChatWorkflowResponseType>,
    pub response: Option<Option<String>>,
    pub answer_value: Option<Option<String>>,
    pub next_chat_workflow_item_id: Option<Option<u64>>,
    pub rank: Option<i64>,
}

impl Default for ChatWorkflowResponseEditableAttributes {
    /// Attributes that change nothing.
    fn default() -> (r: Self)
        ensures
            r.response_type is None,
            r.response is None,
            r.answer_value is None,
            r.next_chat_workflow_item_id is None,
            r.rank is None,
    {
        ChatWorkflowResponseEditableAttributes {
            response_type: None,
            response: None,
            answer_value: None,
            next_chat_workflow_item_id: None,
            rank: None,
        }
    }
}

/// Whether `r` occurs in `s`.
pub open spec fn response_in(r: ChatWorkflowResponse, s: Seq<ChatWorkflowResponse>) -> bool {
    exists|j: int| 0 <= j < s.len() && s[j] == r
}

/// The responses of `s` whose source item is `item_id`, in `s`'s order.
pub open spec fn matching_responses(s: Seq<ChatWorkflowResponse>, item_id: u64) -> Seq<
    ChatWorkflowResponse,
>
    decreases s.len(),
{
    if s.len() == 0 {
        Seq::empty()
    } else {
        let rest = matching_responses(s.drop_last(), item_id);
        if s.last().chat_workflow_item_id == item_id {
            rest.push(s.last())
        } else {
            rest
        }
    }
}

/// `x` inserted into `s` directly before the first element whose rank
/// exceeds `x`'s, so that equal ranks keep their existing order.
pub open spec fn rank_insert(x: ChatWorkflowResponse, s: Seq<ChatWorkflowResponse>) -> Seq<
    ChatWorkflowResponse,
>
    decreases s.len(),
{
    if s.len() == 0 {
        seq![x]
    } else if x.rank < s[0].rank {
        seq![x] + s
    } else {
        seq![s[0]] + rank_insert(x, s.skip(1))
    }
}

/// `s` stably sorted by rank, by inserting each element in turn.
pub open spec fn rank_sorted(s: Seq<ChatWorkflowResponse>) -> Seq<ChatWorkflowResponse>
    decreases s.len(),
{
    if s.len() == 0 {
        Seq::empty()
    } else {
        rank_insert(s.last(), rank_sorted(s.drop_last()))
    }
}

/// The responses of the item, ordered by rank; ties keep store order.
pub open spec fn item_responses(store: Store, item_id: u64) -> Seq<ChatWorkflowResponse> {
    rank_sorted(matching_responses(store.chat_workflow_responses@, item_id))
}

/// Whether ranks never decrease along `s`.
pub open spec fn sorted_by_rank(s: Seq<ChatWorkflowResponse>) -> bool {
    forall|i: int, j: int| 0 <= i < j < s.len() ==> s[i].rank <= s[j].rank
}

proof fn lemma_rank_insert_at(x: ChatWorkflowResponse, s: Seq<ChatWorkflowResponse>, p: int)
    requires
        0 <= p <= s.len(),
        forall|i: int| 0 <= i < p ==> s[i].rank <= x.rank,
        p < s.len() ==> s[p].rank > x.rank,
    ensures
        rank_insert(x, s) == s.take(p).push(x) + s.skip(p),
    decreases p,
{
    if p == 0 {
        if s.len() == 0 {
            assert(rank_insert(x, s) =~= s.take(0).push(x) + s.skip(0));
        } else {
            assert(x.rank < s[0].rank);
            assert(seq![x] + s =~= s.take(0).push(x) + s.skip(0));
        }
    } else {
        assert(s[0].rank <= x.rank);
        let t = s.skip(1);
        assert(forall|i: int| 0 <= i < p - 1 ==> t[i] == s[i + 1]);
        lemma_rank_insert_at(x, t, p - 1);
        assert(t.take(p - 1) =~= s.subrange(1, p));
        assert(t.skip(p - 1) =~= s.skip(p));
        assert(seq![s[0]] + (t.take(p - 1).push(x) + t.skip(p - 1)) =~= s.take(p).push(x) + s.skip(
            p,
        ));
    }
}

/// Every element of `rank_insert(x, s)` is `x` or an element of `s`, and
/// the length grows by one.
pub proof fn lemma_rank_insert_elements(x: ChatWorkflowResponse, s: Seq<ChatWorkflowResponse>)
    ensures
        rank_insert(x, s).len() == s.len() + 1,
        forall|k: int|
            0 <= k < rank_insert(x, s).len() ==> rank_insert(x, s)[k] == x || response_in(
                #[trigger] rank_insert(x, s)[k],
                s,
            ),
        response_in(x, rank_insert(x, s)),
    decreases s.len(),
{
    if s.len() == 0 {
        assert(rank_insert(x, s)[0] == x);
    } else if x.rank < s[0].rank {
        assert(rank_insert(x, s)[0] == x);
        assert forall|k: int| 0 <= k < rank_insert(x, s).len() implies rank_insert(x, s)[k] == x
            || response_in(#[trigger] rank_insert(x, s)[k], s) by {
            if k > 0 {
                assert(rank_insert(x, s)[k] == s[k - 1]);
            }
        }
    } else {
        let t = s.skip(1);
        lemma_rank_insert_elements(x, t);
        let r = rank_insert(x, s);
        assert(r == seq![s[0]] + rank_insert(x, t));
        assert forall|k: int| 0 <= k < r.len() implies r[k] == x || response_in(
            #[trigger] r[k],
            s,
        ) by {
            if k == 0 {
                assert(r[0] == s[0]);
            } else {
                assert(r[k] == rank_insert(x, t)[k - 1]);
                if r[k] != x {
                    let j = choose|j: int| 0 <= j < t.len() && t[j] == r[k];
                    assert(s[j + 1] == r[k]);
                }
            }
        }
        let j = choose|j: int| 0 <= j < rank_insert(x, t).len() && rank_insert(x, t)[j] == x;
        assert(r[j + 1] == x);
    }
}

/// Every element of `rank_sorted(s)` is an element of `s`, every element of
/// `s` occurs in `rank_sorted(s)`, and the length is unchanged.
pub proof fn lemma_rank_sorted_elements(s: Seq<ChatWorkflowResponse>)
    ensures
        rank_sorted(s).len() == s.len(),
        forall|k: int| 0 <= k < s.len() ==> response_in(#[trigger] rank_sorted(s)[k], s),
        forall|k: int| 0 <= k < s.len() ==> response_in(#[trigger] s[k], rank_sorted(s)),
    decreases s.len(),
{
    if s.len() > 0 {
        let d = s.drop_last();
        lemma_rank_sorted_elements(d);
        lemma_rank_insert_elements(s.last(), rank_sorted(d));
        let r = rank_sorted(s);
        assert forall|k: int| 0 <= k < s.len() implies response_in(#[trigger] r[k], s) by {
            if r[k] == s.last() {
                assert(s[s.len() - 1] == r[k]);
            } else {
                let j = choose|j: int|
                    0 <= j < rank_sorted(d).len() && rank_sorted(d)[j] == r[k];
                let m = choose|m: int| 0 <= m < d.len() && d[m] == rank_sorted(d)[j];
                assert(s[m] == r[k]);
            }
        }
        assert forall|k: int| 0 <= k < s.len() implies response_in(#[trigger] s[k], r) by {
            if k == s.len() - 1 {
                let j = choose|j: int| 0 <= j < r.len() && r[j] == s.last();
            } else {
                assert(d[k] == s[k]);
                let j = choose|j: int| 0 <= j < rank_sorted(d).len() && rank_sorted(d)[j] == d[k];
                if rank_sorted(d)[j] == s.last() {
                    let m = choose|m: int| 0 <= m < r.len() && r[m] == s.last();
                    assert(r[m] == s[k]);
                } else {
                    assert(response_in(rank_sorted(d)[j], r)) by {
                        lemma_rank_insert_keeps(s.last(), rank_sorted(d), j);
                    }
                    let m = choose|m: int| 0 <= m < r.len() && r[m] == rank_sorted(d)[j];
                    assert(r[m] == s[k]);
                }
            }
        }
    }
}

/// An element of `s` still occurs after inserting `x`.
proof fn lemma_rank_insert_keeps(
    x: ChatWorkflowResponse,
    s: Seq<ChatWorkflowResponse>,
    j: int,
)
    requires
        0 <= j < s.len(),
    ensures
        response_in(s[j], rank_insert(x, s)),
    decreases s.len(),
{
    if x.rank < s[0].rank {
        assert(rank_insert(x, s)[j + 1] == s[j]);
    } else if j == 0 {
        assert(rank_insert(x, s)[0] == s[0]);
    } else {
        let t = s.skip(1);
        lemma_rank_insert_keeps(x, t, j - 1);
        let m = choose|m: int|
            0 <= m < rank_insert(x, t).len() && rank_insert(x, t)[m] == t[j - 1];
        assert(rank_insert(x, s)[m + 1] == t[j - 1]);
        assert(t[j - 1] == s[j]);
    }
}

/// Inserting keeps the sequence sorted by rank.
pub proof fn lemma_rank_insert_sorted(x: ChatWorkflowResponse, s: Seq<ChatWorkflowResponse>)
    requires
        sorted_by_rank(s),
    ensures
        sorted_by_rank(rank_insert(x, s)),
    decreases s.len(),
{
    if s.len() == 0 {
    } else if x.rank < s[0].rank {
        assert forall|i: int, j: int| 0 <= i < j < rank_insert(x, s).len() implies rank_insert(
            x,
            s,
        )[i].rank <= rank_insert(x, s)[j].rank by {
            if i > 0 {
                assert(rank_insert(x, s)[i] == s[i - 1]);
            }
            assert(rank_insert(x, s)[j] == s[j - 1]);
        }
    } else {
        let t = s.skip(1);
        assert(sorted_by_rank(t)) by {
            assert(forall|i: int| 0 <= i < t.len() ==> t[i] == s[i + 1]);
        }
        lemma_rank_insert_sorted(x, t);
        let r = rank_insert(x, s);
        assert(r == seq![s[0]] + rank_insert(x, t));
        assert forall|i: int, j: int| 0 <= i < j < r.len() implies r[i].rank <= r[j].rank by {
            assert(r[j] == rank_insert(x, t)[j - 1]);
            lemma_rank_insert_elements(x, t);
            assert(r[j] == x || response_in(r[j], t));
            if r[j] != x {
                let m = choose|m: int| 0 <= m < t.len() && t[m] == r[j];
                assert(s[0].rank <= s[m + 1].rank);
            }
            if i > 0 {
                assert(r[i] == rank_insert(x, t)[i - 1]);
            }
        }
    }
}

/// The stable sort is sorted by rank.
pub proof fn lemma_rank_sorted_sorted(s: Seq<ChatWorkflowResponse>)
    ensures
        sorted_by_rank(rank_sorted(s)),
    decreases s.len(),
{
    if s.len() > 0 {
        lemma_rank_sorted_sorted(s.drop_last());
        lemma_rank_insert_sorted(s.last(), rank_sorted(s.drop_last()));
    }
}

/// Every element of `matching_responses(s, item_id)` is an element of `s`
/// with that source item, and conversely.
pub proof fn lemma_matching_elements(s: Seq<ChatWorkflowResponse>, item_id: u64)
    ensures
        forall|k: int|
            0 <= k < matching_responses(s, item_id).len() ==> response_in(
                #[trigger] matching_responses(s, item_id)[k],
                s,
            ) && matching_responses(s, item_id)[k].chat_workflow_item_id == item_id,
        forall|k: int|
            0 <= k < s.len() && (#[trigger] s[k]).chat_workflow_item_id == item_id
                ==> response_in(s[k], matching_responses(s, item_id)),
    decreases s.len(),
{
    if s.len() > 0 {
        let d = s.drop_last();
        lemma_matching_elements(d, item_id);
        let m = matching_responses(s, item_id);
        assert forall|k: int| 0 <= k < m.len() implies response_in(#[trigger] m[k], s)
            && m[k].chat_workflow_item_id == item_id by {
            if s.last().chat_workflow_item_id == item_id && k == m.len() - 1 {
                assert(s[s.len() - 1] == m[k]);
            } else {
                assert(m[k] == matching_responses(d, item_id)[k]);
                let j = choose|j: int| 0 <= j < d.len() && d[j] == m[k];
                assert(s[j] == m[k]);
            }
        }
        assert forall|k: int|
            0 <= k < s.len() && (#[trigger] s[k]).chat_workflow_item_id == item_id implies
            response_in(s[k], m) by {
            if k == s.len() - 1 {
                assert(m[m.len() - 1] == s[k]);
            } else {
                assert(d[k] == s[k]);
                let j = choose|j: int|
                    0 <= j < matching_responses(d, item_id).len() && matching_responses(
                        d,
                        item_id,
                    )[j] == d[k];
                assert(m[j] == s[k]);
            }
        }
    }
}

/// Inserts `x` into `out` directly before the first element whose rank
/// exceeds `x`'s.
fn insert_by_rank(out: &mut Vec<ChatWorkflowResponse>, x: ChatWorkflowResponse)
    ensures
        final(out)@ == rank_insert(x, old(out)@),
{
    let n = out.len();
    let mut p: usize = 0;
    while p < n && out[p].rank <= x.rank
        invariant
            out@ == old(out)@,
            n == out@.len(),
            p <= n,
            forall|i: int| 0 <= i < p ==> out@[i].rank <= x.rank,
        decreases n - p,
    {
        p += 1;
    }
    proof {
        lemma_rank_insert_at(x, out@, p as int);
    }
    out.insert(p, x);
    proof {
        assert(final(out)@ =~= old(out)@.take(p as int).push(x) + old(out)@.skip(p as int));
    }
}

/// The responses of the item, ordered by rank.
pub(crate) fn collect_item_responses(store: &Store, item_id: u64) -> (r: Vec<
    ChatWorkflowResponse,
>)
    ensures
        r@ == item_responses(*store, item_id),
{
    let mut out: Vec<ChatWorkflowResponse> = Vec::new();
    let n = store.chat_workflow_responses.len();
    let mut i: usize = 0;
    while i < n
        invariant
            n == store.chat_workflow_responses@.len(),
            i <= n,
            out@ == rank_sorted(
                matching_responses(store.chat_workflow_responses@.take(i as int), item_id),
            ),
        decreases n - i,
    {
        let ghost prefix = store.chat_workflow_responses@.take(i as int);
        if store.chat_workflow_responses[i].chat_workflow_item_id == item_id {
            insert_by_rank(&mut out, store.chat_workflow_responses[i].copied());
        }
        proof {
            assert(store.chat_workflow_responses@.take(i + 1).drop_last() =~= prefix);
            assert(store.chat_workflow_responses@.take(i + 1).last()
                == store.chat_workflow_responses@[i as int]);
            let grown = matching_responses(store.chat_workflow_responses@.take(i + 1), item_id);
            if store.chat_workflow_responses@[i as int].chat_workflow_item_id == item_id {
                assert(grown == matching_responses(prefix, item_id).push(
                    store.chat_workflow_responses@[i as int],
                ));
                assert(grown.drop_last() =~= matching_responses(prefix, item_id));
            }
        }
        i += 1;
    }
    proof {
        assert(store.chat_workflow_responses@.take(n as int) =~= store.chat_workflow_responses@);
    }
    out
}

/// By how much the rank-shift algorithm moves `x` when the response
/// `self_id` on `item_id` takes rank `self_rank`, coming from `from_rank`
/// (`None` for a fresh insert): `1`, `-1`, or `0`.
pub open spec fn shift_delta(
    x: ChatWorkflowResponse,
    item_id: u64,
    self_id: u64,
    self_rank: i64,
    from_rank: Option<i64>,
) -> int {
    if x.id == self_id || x.chat_workflow_item_id != item_id {
        0
    } else {
        match from_rank {
            None => if x.rank < self_rank {
                0
            } else {
                1
            },
            Some(f) => if f == self_rank {
                0
            } else if f < self_rank {
                if f <= x.rank <= self_rank {
                    -1
                } else {
                    0
                }
            } else {
                if self_rank <= x.rank <= f {
                    1
                } else {
                    0
                }
            },
        }
    }
}

/// `x` with its rank moved by the shift algorithm.
pub open spec fn shifted_response(
    x: ChatWorkflowResponse,
    item_id: u64,
    self_id: u64,
    self_rank: i64,
    from_rank: Option<i64>,
) -> ChatWorkflowResponse {
    ChatWorkflowResponse {
        rank: (x.rank + shift_delta(x, item_id, self_id, self_rank, from_rank)) as i64,
        ..x
    }
}

/// The whole table with the shift applied.
pub open spec fn shifted_responses(
    s: Seq<ChatWorkflowResponse>,
    item_id: u64,
    self_id: u64,
    self_rank: i64,
    from_rank: Option<i64>,
) -> Seq<ChatWorkflowResponse> {
    Seq::new(s.len(), |i: int| shifted_response(s[i], item_id, self_id, self_rank, from_rank))
}

/// Whether every moved rank stays within `i64`.
pub open spec fn shift_in_range(
    s: Seq<ChatWorkflowResponse>,
    item_id: u64,
    self_id: u64,
    self_rank: i64,
    from_rank: Option<i64>,
) -> bool {
    forall|i: int|
        0 <= i < s.len() ==> i64::MIN <= (#[trigger] s[i]).rank + shift_delta(
            s[i],
            item_id,
            self_id,
            self_rank,
            from_rank,
        ) <= i64::MAX
}

/// `s` without the response of the given id.
pub open spec fn responses_without_id(s: Seq<ChatWorkflowResponse>, id: u64) -> Seq<
    ChatWorkflowResponse,
>
    decreases s.len(),
{
    if s.len() == 0 {
        Seq::empty()
    } else {
        let rest = responses_without_id(s.drop_last(), id);
        if s.last().id == id {
            rest
        } else {
            rest.push(s.last())
        }
    }
}

/// Dropping one id keeps the response table well-formed: ids stay fresh and
/// distinct, answers stay unique, survivors are exactly the other records.
pub proof fn lemma_responses_without_id(s: Seq<ChatWorkflowResponse>, id: u64, bound: u64)
    requires
        table_ok(ids_of_responses(s), bound),
        crate::store::answers_unique(s),
    ensures
        table_ok(ids_of_responses(responses_without_id(s, id)), bound),
        crate::store::answers_unique(responses_without_id(s, id)),
        forall|k: int|
            0 <= k < responses_without_id(s, id).len() ==> response_in(
                #[trigger] responses_without_id(s, id)[k],
                s,
            ) && responses_without_id(s, id)[k].id != id,
        forall|k: int|
            0 <= k < s.len() && (#[trigger] s[k]).id != id ==> response_in(
                s[k],
                responses_without_id(s, id),
            ),
    decreases s.len(),
{
    if s.len() > 0 {
        let d = s.drop_last();
        assert(table_ok(ids_of_responses(d), bound)) by {
            assert(forall|i: int| 0 <= i < d.len() ==> ids_of_responses(d)[i]
                == ids_of_responses(s)[i]);
        }
        assert(crate::store::answers_unique(d)) by {
            assert(forall|i: int| 0 <= i < d.len() ==> d[i] == s[i]);
        }
        lemma_responses_without_id(d, id, bound);
        let f = responses_without_id(s, id);
        let fd = responses_without_id(d, id);
        assert forall|k: int| 0 <= k < f.len() implies response_in(#[trigger] f[k], s)
            && f[k].id != id by {
            if s.last().id != id && k == f.len() - 1 {
                assert(s[s.len() - 1] == f[k]);
            } else {
                assert(f[k] == fd[k]);
                let j = choose|j: int| 0 <= j < d.len() && d[j] == f[k];
                assert(s[j] == f[k]);
            }
        }
        assert forall|k: int| 0 <= k < s.len() && (#[trigger] s[k]).id != id implies response_in(
            s[k],
            f,
        ) by {
            if k == s.len() - 1 {
                assert(f[f.len() - 1] == s[k]);
            } else {
                assert(d[k] == s[k]);
                let j = choose|j: int| 0 <= j < fd.len() && fd[j] == d[k];
                if s.last().id != id {
                    assert(f[j] == s[k]);
                } else {
                    assert(f[j] == s[k]);
                }
            }
        }
        assert forall|i: int| 0 <= i < f.len() implies 1 <= #[trigger] ids_of_responses(f)[i]
            < bound by {
            let j = choose|j: int| 0 <= j < s.len() && s[j] == f[i];
            assert(ids_of_responses(s)[j] == f[i].id);
        }
        assert forall|i: int, j: int| 0 <= i < j < f.len() implies ids_of_responses(f)[i]
            != ids_of_responses(f)[j] by {
            if s.last().id != id && j == f.len() - 1 {
                let m = choose|m: int| 0 <= m < d.len() && d[m] == f[i];
                assert(ids_of_responses(s)[m] == f[i].id);
                assert(ids_of_responses(s)[s.len() - 1] == f[j].id);
            } else {
                assert(ids_of_responses(fd)[i] == ids_of_responses(f)[i]);
                assert(ids_of_responses(fd)[j] == ids_of_responses(f)[j]);
            }
        }
        assert forall|i: int, j: int|
            0 <= i < j < f.len() && f[i].chat_workflow_item_id == f[j].chat_workflow_item_id
                && f[i].answer_value is Some && f[j].answer_value is Some implies opt_view(
            f[i].answer_value,
        ) != opt_view(f[j].answer_value) by {
            let a = choose|a: int| 0 <= a < s.len() && s[a] == f[i];
            let b = choose|b: int| 0 <= b < s.len() && s[b] == f[j];
            if a != b {
                assert(ids_of_responses(s)[a] == f[i].id);
                assert(ids_of_responses(s)[b] == f[j].id);
                if a < b {
                    assert(opt_view(s[a].answer_value) != opt_view(s[b].answer_value));
                } else {
                    assert(opt_view(s[b].answer_value) != opt_view(s[a].answer_value));
                }
            } else {
                assert(ids_of_responses(f)[i] != ids_of_responses(f)[j]);
            }
        }
    }
}

impl ChatWorkflowResponse {
    /// A response ready to be committed.
    pub fn create(
        chat_workflow_item_id: u64,
        response_type: ChatWorkflowResponseType,
        response: Option<String>,
        answer_value: Option<String>,
        next_chat_workflow_item_id: Option<u64>,
        rank: i64,
    ) -> (r: NewChatWorkflowResponse)
        ensures
            r.chat_workflow_item_id == chat_workflow_item_id,
            r.response_type == response_type,
            r.response == response,
            r.answer_value == answer_value,
            r.next_chat_workflow_item_id == next_chat_workflow_item_id,
            r.rank == rank,
    {
        NewChatWorkflowResponse {
            chat_workflow_item_id,
            response_type,
            response,
            answer_value,
            next_chat_workflow_item_id,
            rank,
        }
    }

    /// The response with the given id; absence is `NoResults`.
    pub fn find(id: u64, store: &Store) -> (r: Result<ChatWorkflowResponse, DatabaseError>)
        requires
            store.wf(),
        ensures
            match r {
                Ok(x) => store.has_response(id) && x == store.spec_response(id),
                Err(e) => !store.has_response(id) && is_no_results(e) && e.message@
                    == "Unable to load chat workflow response"@,
            },
    {
        match store.find_response_index(id) {
            Some(i) => {
                proof {
                    store.lemma_response_at(i as int);
                }
                Ok(store.chat_workflow_responses[i].copied())
            },
            None => DatabaseError::no_results("Unable to load chat workflow response"),
        }
    }

    /// The responses of the item, ordered by rank.
    pub fn find_for_chat_workflow_item(
        chat_workflow_item: &crate::chat_workflow_items::ChatWorkflowItem,
        store: &Store,
    ) -> (r: Result<Vec<ChatWorkflowResponse>, DatabaseError>)
        ensures
            r matches Ok(v) && v@ == item_responses(*store, chat_workflow_item.id),
    {
        Ok(collect_item_responses(store, chat_workflow_item.id))
    }

    /// The item this response leads out of; absence is `NoResults`.
    pub fn chat_workflow_item(&self, store: &Store) -> (r: Result<
        crate::chat_workflow_items::ChatWorkflowItem,
        DatabaseError,
    >)
        requires
            store.wf(),
        ensures
            match r {
                Ok(x) => store.has_item(self.chat_workflow_item_id) && x == store.spec_item(
                    self.chat_workflow_item_id,
                ),
                Err(e) => !store.has_item(self.chat_workflow_item_id) && is_no_results(e)
                    && e.message@ == "Unable to load chat workflow item for response"@,
            },
    {
        match store.find_item_index(self.chat_workflow_item_id) {
            Some(i) => {
                proof {
                    store.lemma_item_at(i as int);
                }
                Ok(store.chat_workflow_items[i].copied())
            },
            None => DatabaseError::no_results("Unable to load chat workflow item for response"),
        }
    }

    /// The response of the item whose answer value equals `answer_value`;
    /// absence is `NoResults`. Within a well-formed store at most one
    /// response can match.
    pub fn find_by_chat_workflow_item_and_answer_value(
        chat_workflow_item: &crate::chat_workflow_items::ChatWorkflowItem,
        answer_value: &str,
        store: &Store,
    ) -> (r: Result<ChatWorkflowResponse, DatabaseError>)
        requires
            store.wf(),
        ensures
            match r {
                Ok(x) => {
                    &&& store.answer_taken(chat_workflow_item.id, answer_value@, None)
                    &&& response_in(x, store.chat_workflow_responses@)
                    &&& x.chat_workflow_item_id == chat_workflow_item.id
                    &&& opt_view(x.answer_value) == Some(answer_value@)
                },
                Err(e) => {
                    &&& !store.answer_taken(chat_workflow_item.id, answer_value@, None)
                    &&& is_no_results(e)
                    &&& e.message@ == "Unable to load chat workflow responses for chat workflow item"@
                },
            },
    {
        let n = store.chat_workflow_responses.len();
        let mut i: usize = 0;
        while i < n
            invariant
                n == store.chat_workflow_responses@.len(),
                i <= n,
                forall|j: int|
                    0 <= j < i ==> !((#[trigger] store.chat_workflow_responses@[j]).chat_workflow_item_id
                        == chat_workflow_item.id && opt_view(
                        store.chat_workflow_responses@[j].answer_value,
                    ) == Some(answer_value@)),
            decreases n - i,
        {
            let x = &store.chat_workflow_responses[i];
            if x.chat_workflow_item_id == chat_workflow_item.id {
                let matches_answer = match &x.answer_value {
                    Some(v) => str_eq(v.as_str(), answer_value),
                    None => false,
                };
                if matches_answer {
                    let found = x.copied();
                    proof {
                        assert(store.chat_workflow_responses@[i as int] == found);
                    }
                    return Ok(found);
                }
            }
            i += 1;
        }
        DatabaseError::no_results("Unable to load chat workflow responses for chat workflow item")
    }

    /// Whether no response of the item other than `excluding` already
    /// carries `answer_value`; a taken value is reported as a field-scoped
    /// uniqueness failure.
    pub fn answer_value_unique(
        chat_workflow_item_id: u64,
        answer_value: &Option<String>,
        excluding: Option<u64>,
        store: &Store,
    ) -> (r: Result<Result<(), crate::error::FieldValidationError>, DatabaseError>)
        ensures
            match r {
                Ok(inner) => match inner {
                    Ok(()) => !answer_blocked(*store, chat_workflow_item_id, *answer_value, excluding),
                    Err(e) => {
                        &&& answer_blocked(*store, chat_workflow_item_id, *answer_value, excluding)
                        &&& e.field@ == "answer_value"@
                        &&& e.code@ == "uniqueness"@
                        &&& e.message@ == "Answer value is already in use"@
                    },
                },
                Err(_) => false,
            },
    {
        let answer = match answer_value {
            Some(v) => v,
            None => {
                return Ok(Ok(()));
            },
        };
        let n = store.chat_workflow_responses.len();
        let mut i: usize = 0;
        while i < n
            invariant
                n == store.chat_workflow_responses@.len(),
                i <= n,
                answer_value matches Some(a) && a@ == answer@,
                forall|j: int|
                    0 <= j < i ==> !((#[trigger] store.chat_workflow_responses@[j]).chat_workflow_item_id
                        == chat_workflow_item_id && opt_view(
                        store.chat_workflow_responses@[j].answer_value,
                    ) == Some(answer@) && (excluding matches Some(id)
                        ==> store.chat_workflow_responses@[j].id != id)),
            decreases n - i,
        {
            let x = &store.chat_workflow_responses[i];
            let excluded = match excluding {
                Some(id) => x.id == id,
                None => false,
            };
            if x.chat_workflow_item_id == chat_workflow_item_id && !excluded {
                let matches_answer = match &x.answer_value {
                    Some(v) => str_eq(v.as_str(), answer.as_str()),
                    None => false,
                };
                if matches_answer {
                    return Ok(Err(crate::error::FieldValidationError {
                        field: String::from_str("answer_value"),
                        code: String::from_str("uniqueness"),
                        message: String::from_str("Answer value is already in use"),
                    }));
                }
            }
            i += 1;
        }
        Ok(Ok(()))
    }
}

/// Whether committing `answer_value` on the item would violate answer
/// uniqueness: the value is present and already taken by another response.
pub open spec fn answer_blocked(
    store: Store,
    chat_workflow_item_id: u64,
    answer_value: Option<String>,
    excluding: Option<u64>,
) -> bool {
    match answer_value {
        Some(v) => store.answer_taken(chat_workflow_item_id, v@, excluding),
        None => false,
    }
}

impl ChatWorkflowResponse {
    /// Moves the ranks of the item's other responses aside so that this
    /// response can hold `self.rank`, having come from `from_rank` (`None`
    /// for a fresh insert). Siblings between the old and new rank move by
    /// one; with `from_rank` equal to the current rank nothing moves.
    pub fn shift_other_rank(&self, from_rank: Option<i64>, store: &mut Store) -> (r: Result<
        (),
        DatabaseError,
    >)
        requires
            old(store).wf(),
            shift_in_range(
                old(store).chat_workflow_responses@,
                self.chat_workflow_item_id,
                self.id,
                self.rank,
                from_rank,
            ),
        ensures
            final(store).wf(),
            r is Ok,
            final(store).chat_workflow_responses@ == shifted_responses(
                old(store).chat_workflow_responses@,
                self.chat_workflow_item_id,
                self.id,
                self.rank,
                from_rank,
            ),
            final(store).next_id == old(store).next_id,
            final(store).chat_workflows@ == old(store).chat_workflows@,
            final(store).chat_workflow_items@ == old(store).chat_workflow_items@,
            final(store).chat_sessions@ == old(store).chat_sessions@,
            final(store).chat_workflow_interactions@ == old(store).chat_workflow_interactions@,
            final(store).domain_events@ == old(store).domain_events@,
    {
        let ghost pre = *old(store);
        let skip_all = match from_rank {
            Some(f) => f == self.rank,
            None => false,
        };
        if skip_all {
            proof {
                assert(final(store).chat_workflow_responses@ =~= shifted_responses(
                    pre.chat_workflow_responses@,
                    self.chat_workflow_item_id,
                    self.id,
                    self.rank,
                    from_rank,
                ));
            }
            return Ok(());
        }
        let n = store.chat_workflow_responses.len();
        let mut i: usize = 0;
        while i < n
            invariant
                pre.wf(),
                store.next_id == pre.next_id,
                store.chat_workflows@ == pre.chat_workflows@,
                store.chat_workflow_items@ == pre.chat_workflow_items@,
                store.chat_sessions@ == pre.chat_sessions@,
                store.chat_workflow_interactions@ == pre.chat_workflow_interactions@,
                store.domain_events@ == pre.domain_events@,
                n == store.chat_workflow_responses@.len(),
                n == pre.chat_workflow_responses@.len(),
                i <= n,
                from_rank matches Some(f) ==> f != self.rank,
                shift_in_range(
                    pre.chat_workflow_responses@,
                    self.chat_workflow_item_id,
                    self.id,
                    self.rank,
                    from_rank,
                ),
                forall|j: int|
                    0 <= j < i ==> store.chat_workflow_responses@[j] == shifted_response(
                        #[trigger] pre.chat_workflow_responses@[j],
                        self.chat_workflow_item_id,
                        self.id,
                        self.rank,
                        from_rank,
                    ),
                forall|j: int|
                    i <= j < n ==> #[trigger] store.chat_workflow_responses@[j]
                        == pre.chat_workflow_responses@[j],
            decreases n - i,
        {
            let x_id = store.chat_workflow_responses[i].id;
            let x_item = store.chat_workflow_responses[i].chat_workflow_item_id;
            let x_rank = store.chat_workflow_responses[i].rank;
            let mut delta: i64 = 0;
            if x_id != self.id && x_item == self.chat_workflow_item_id {
                match from_rank {
                    None => {
                        if !(x_rank < self.rank) {
                            delta = 1;
                        }
                    },
                    Some(f) => {
                        if f < self.rank {
                            if f <= x_rank && x_rank <= self.rank {
                                delta = -1;
                            }
                        } else {
                            if self.rank <= x_rank && x_rank <= f {
                                delta = 1;
                            }
                        }
                    },
                }
            }
            if delta != 0 {
                proof {
                    assert(delta == shift_delta(
                        pre.chat_workflow_responses@[i as int],
                        self.chat_workflow_item_id,
                        self.id,
                        self.rank,
                        from_rank,
                    ));
                    assert(i64::MIN <= pre.chat_workflow_responses@[i as int].rank + shift_delta(
                        pre.chat_workflow_responses@[i as int],
                        self.chat_workflow_item_id,
                        self.id,
                        self.rank,
                        from_rank,
                    ) <= i64::MAX);
                }
                let new_rank = if delta == 1 {
                    x_rank + 1
                } else {
                    x_rank - 1
                };
                let mut updated = store.chat_workflow_responses[i].copied();
                updated.rank = new_rank;
                store.chat_workflow_responses.set(i, updated);
            }
            i += 1;
        }
        proof {
            assert(store.chat_workflow_responses@ =~= shifted_responses(
                pre.chat_workflow_responses@,
                self.chat_workflow_item_id,
                self.id,
                self.rank,
                from_rank,
            ));
            lemma_shifted_wf(pre, *store, self.chat_workflow_item_id, self.id, self.rank, from_rank);
        }
        Ok(())
    }
}

/// Whether the item or next-item pointer of a response to be committed
/// names a missing item, which the store rejects.
pub open spec fn response_fk_missing(store: Store, item_id: u64, next: Option<u64>) -> bool {
    ||| !store.has_item(item_id)
    ||| (next matches Some(n) && !store.has_item(n))
}

/// Whether inserting at `new_rank` on the item can move every shifted rank
/// without overflowing.
pub open spec fn insert_shift_in_range(
    s: Seq<ChatWorkflowResponse>,
    item_id: u64,
    new_rank: i64,
) -> bool {
    forall|i: int|
        0 <= i < s.len() && (#[trigger] s[i]).chat_workflow_item_id == item_id && s[i].rank
            >= new_rank ==> s[i].rank < i64::MAX
}

/// `base` with the given attributes applied; absent attributes leave their
/// fields as they are.
pub open spec fn apply_response_attrs(
    base: ChatWorkflowResponse,
    a: ChatWorkflowResponseEditableAttributes,
) -> ChatWorkflowResponse {
    ChatWorkflowResponse {
        response_type: match a.response_type {
            Some(t) => t,
            None => base.response_type,
        },
        response: match a.response {
            Some(v) => v,
            None => base.response,
        },
        answer_value: match a.answer_value {
            Some(v) => v,
            None => base.answer_value,
        },
        next_chat_workflow_item_id: match a.next_chat_workflow_item_id {
            Some(v) => v,
            None => base.next_chat_workflow_item_id,
        },
        rank: match a.rank {
            Some(r) => r,
            None => base.rank,
        },
        ..base
    }
}

/// The answer-uniqueness obligation of an update: a value being set must
/// not be taken by any other response of the caller's item.
pub open spec fn update_answer_blocked(
    store: Store,
    base: ChatWorkflowResponse,
    a: ChatWorkflowResponseEditableAttributes,
) -> bool {
    match a.answer_value {
        Some(v) => answer_blocked(store, base.chat_workflow_item_id, v, Some(base.id)),
        None => false,
    }
}

impl NewChatWorkflowResponse {
    /// Checks answer-value uniqueness within the source item.
    pub fn validate_record(&self, store: &Store) -> (r: Result<(), DatabaseError>)
        ensures
            match r {
                Ok(()) => !answer_blocked(
                    *store,
                    self.chat_workflow_item_id,
                    self.answer_value,
                    None,
                ),
                Err(e) => answer_blocked(*store, self.chat_workflow_item_id, self.answer_value, None)
                    && is_uniqueness_error(e, "answer_value"@, "Answer value is already in use"@),
            },
    {
        let inner = match ChatWorkflowResponse::answer_value_unique(
            self.chat_workflow_item_id,
            &self.answer_value,
            None,
            store,
        ) {
            Ok(x) => x,
            Err(e) => {
                return Err(e);
            },
        };
        match inner {
            Ok(()) => Ok(()),
            Err(fve) => {
                let mut errors: Vec<crate::error::FieldValidationError> = Vec::new();
                errors.push(fve);
                Err(DatabaseError {
                    error_code: ErrorCode::ValidationError { errors },
                    message: String::from_str("Validation error"),
                })
            },
        }
    }

    /// Commits the response: the answer value must be free on the item, the
    /// item and any next item must exist, and the item's other responses at
    /// or above the new rank move up by one.
    pub fn commit(&self, store: &mut Store) -> (r: Result<ChatWorkflowResponse, DatabaseError>)
        requires
            old(store).wf(),
            old(store).next_id < u64::MAX,
            insert_shift_in_range(
                old(store).chat_workflow_responses@,
                self.chat_workflow_item_id,
                self.rank,
            ),
        ensures
            final(store).wf(),
            answer_blocked(*old(store), self.chat_workflow_item_id, self.answer_value, None)
                ==> (r matches Err(e) && is_uniqueness_error(
                e,
                "answer_value"@,
                "Answer value is already in use"@,
            ) && *final(store) == *old(store)),
            !answer_blocked(*old(store), self.chat_workflow_item_id, self.answer_value, None)
                && response_fk_missing(
                *old(store),
                self.chat_workflow_item_id,
                self.next_chat_workflow_item_id,
            ) ==> (r matches Err(e) && e.error_code == ErrorCode::InsertError && e.message@
                == "Could not create chat workflow response"@ && *final(store) == *old(store)),
            !answer_blocked(*old(store), self.chat_workflow_item_id, self.answer_value, None)
                && !response_fk_missing(
                *old(store),
                self.chat_workflow_item_id,
                self.next_chat_workflow_item_id,
            ) ==> (r matches Ok(resp) && {
                &&& resp.id == old(store).next_id
                &&& !old(store).has_response(resp.id)
                &&& resp.chat_workflow_item_id == self.chat_workflow_item_id
                &&& resp.response_type == self.response_type
                &&& resp.response == self.response
                &&& resp.answer_value == self.answer_value
                &&& resp.next_chat_workflow_item_id == self.next_chat_workflow_item_id
                &&& resp.rank == self.rank
                &&& final(store).chat_workflow_responses@ == shifted_responses(
                    old(store).chat_workflow_responses@.push(resp),
                    self.chat_workflow_item_id,
                    resp.id,
                    self.rank,
                    None,
                )
                &&& final(store).next_id == old(store).next_id + 1
                &&& final(store).chat_workflows@ == old(store).chat_workflows@
                &&& final(store).chat_workflow_items@ == old(store).chat_workflow_items@
                &&& final(store).chat_sessions@ == old(store).chat_sessions@
                &&& final(store).chat_workflow_interactions@ == old(
                    store,
                ).chat_workflow_interactions@
                &&& final(store).domain_events@ == old(store).domain_events@
            }),
    {
        let ghost pre = *old(store);
        if let Err(e) = self.validate_record(store) {
            return Err(e);
        }
        if store.find_item_index(self.chat_workflow_item_id).is_none() {
            return Err(DatabaseError::new(
                ErrorCode::InsertError,
                "Could not create chat workflow response",
            ));
        }
        match self.next_chat_workflow_item_id {
            Some(n) => {
                if store.find_item_index(n).is_none() {
                    return Err(DatabaseError::new(
                        ErrorCode::InsertError,
                        "Could not create chat workflow response",
                    ));
                }
            },
            None => {},
        }
        let id = store.allocate_id();
        let record = ChatWorkflowResponse {
            id,
            chat_workflow_item_id: self.chat_workflow_item_id,
            response_type: self.response_type,
            response: opt_clone(&self.response),
            answer_value: opt_clone(&self.answer_value),
            next_chat_workflow_item_id: self.next_chat_workflow_item_id,
            rank: self.rank,
        };
        let result = record.copied();
        let ghost before = store.chat_workflow_responses@;
        store.chat_workflow_responses.push(record);
        proof {
            assert(store.chat_workflow_responses@.drop_last() =~= before);
            assert(ids_of_responses(store.chat_workflow_responses@) =~= ids_of_responses(
                before,
            ).push(id));
            crate::store::lemma_table_ok_push(
                ids_of_responses(before),
                pre.next_id,
                id,
                store.next_id,
            );
            crate::store::lemma_table_ok_widen(pre.workflow_ids(), pre.next_id, store.next_id);
            crate::store::lemma_table_ok_widen(pre.item_ids(), pre.next_id, store.next_id);
            crate::store::lemma_table_ok_widen(pre.session_ids(), pre.next_id, store.next_id);
            crate::store::lemma_table_ok_widen(pre.interaction_ids(), pre.next_id, store.next_id);
            crate::store::lemma_table_ok_widen(pre.event_ids(), pre.next_id, store.next_id);
            assert(crate::store::answers_unique(store.chat_workflow_responses@)) by {
                let s = store.chat_workflow_responses@;
                assert forall|i: int, j: int|
                    0 <= i < j < s.len() && s[i].chat_workflow_item_id == s[j].chat_workflow_item_id
                        && s[i].answer_value is Some && s[j].answer_value is Some implies opt_view(
                    s[i].answer_value,
                ) != opt_view(s[j].answer_value) by {
                    if j == s.len() - 1 {
                        assert(s[i] == before[i]);
                        if opt_view(s[i].answer_value) == opt_view(s[j].answer_value) {
                            assert(pre.answer_taken(
                                self.chat_workflow_item_id,
                                s[j].answer_value.unwrap()@,
                                None,
                            ));
                        }
                    } else {
                        assert(s[i] == before[i]);
                        assert(s[j] == before[j]);
                    }
                }
            }
            assert(!pre.has_response(id)) by {
                if pre.has_response(id) {
                    let i = choose|i: int|
                        0 <= i < pre.chat_workflow_responses@.len()
                            && pre.chat_workflow_responses@[i].id == id;
                    assert(ids_of_responses(pre.chat_workflow_responses@)[i] == id);
                }
            }
            assert(crate::store::response_items_below(
                store.chat_workflow_responses@,
                store.next_id,
            )) by {
                let s = store.chat_workflow_responses@;
                assert forall|k: int| 0 <= k < s.len() implies (
                #[trigger] s[k]).chat_workflow_item_id < store.next_id by {
                    if k < before.len() {
                        assert(s[k] == before[k]);
                    } else {
                        assert(pre.has_item(self.chat_workflow_item_id));
                        let j = choose|j: int|
                            0 <= j < pre.chat_workflow_items@.len()
                                && pre.chat_workflow_items@[j].id == self.chat_workflow_item_id;
                        assert(crate::store::ids_of_items(pre.chat_workflow_items@)[j]
                            == self.chat_workflow_item_id);
                    }
                }
            }
            assert(shift_in_range(
                store.chat_workflow_responses@,
                self.chat_workflow_item_id,
                id,
                self.rank,
                None,
            )) by {
                let s = store.chat_workflow_responses@;
                assert forall|i: int| 0 <= i < s.len() implies i64::MIN <= (#[trigger] s[i]).rank
                    + shift_delta(s[i], self.chat_workflow_item_id, id, self.rank, None)
                    <= i64::MAX by {
                    if i < before.len() {
                        assert(s[i] == before[i]);
                    }
                }
            }
        }
        let shift_result = result.shift_other_rank(None, store);
        proof {
            assert(shift_result is Ok);
        }
        Ok(result)
    }
}

impl ChatWorkflowResponse {
    /// Applies the attributes to the stored response of `self.id`, then
    /// shifts the item's other ranks relative to `self.rank`. A fresh answer
    /// value must be free on the record's item; a fresh next-item pointer
    /// must name an existing item.
    pub fn update(
        &self,
        attributes: ChatWorkflowResponseEditableAttributes,
        store: &mut Store,
    ) -> (r: Result<ChatWorkflowResponse, DatabaseError>)
        requires
            old(store).wf(),
            old(store).has_response(self.id) ==> shift_in_range(
                old(store).chat_workflow_responses@,
                old(store).spec_response(self.id).chat_workflow_item_id,
                self.id,
                apply_response_attrs(old(store).spec_response(self.id), attributes).rank,
                Some(self.rank),
            ),
        ensures
            final(store).wf(),
            !old(store).has_response(self.id) ==> (r matches Err(e) && e.error_code
                == ErrorCode::UpdateError && e.message@
                == "Could not update chat workflow response"@ && *final(store) == *old(store)),
            old(store).has_response(self.id) && update_answer_blocked(
                *old(store),
                old(store).spec_response(self.id),
                attributes,
            ) ==> (r matches Err(e) && is_uniqueness_error(
                e,
                "answer_value"@,
                "Answer value is already in use"@,
            ) && *final(store) == *old(store)),
            old(store).has_response(self.id) && !update_answer_blocked(
                *old(store),
                old(store).spec_response(self.id),
                attributes,
            ) && (attributes.next_chat_workflow_item_id matches Some(Some(n)) && !old(
                store,
            ).has_item(n)) ==> (r matches Err(e) && e.error_code == ErrorCode::UpdateError
                && e.message@ == "Could not update chat workflow response"@ && *final(store)
                == *old(store)),
            old(store).has_response(self.id) && !update_answer_blocked(
                *old(store),
                old(store).spec_response(self.id),
                attributes,
            ) && !(attributes.next_chat_workflow_item_id matches Some(Some(n)) && !old(
                store,
            ).has_item(n)) ==> (r matches Ok(resp) && {
                let idx = old(store).response_index_of(self.id);
                let base = old(store).spec_response(self.id);
                let updated = apply_response_attrs(base, attributes);
                &&& resp == updated
                &&& final(store).chat_workflow_responses@ == shifted_responses(
                    old(store).chat_workflow_responses@.update(idx, updated),
                    updated.chat_workflow_item_id,
                    self.id,
                    updated.rank,
                    Some(self.rank),
                )
                &&& final(store).next_id == old(store).next_id
                &&& final(store).chat_workflows@ == old(store).chat_workflows@
                &&& final(store).chat_workflow_items@ == old(store).chat_workflow_items@
                &&& final(store).chat_sessions@ == old(store).chat_sessions@
                &&& final(store).chat_workflow_interactions@ == old(
                    store,
                ).chat_workflow_interactions@
                &&& final(store).domain_events@ == old(store).domain_events@
            }),
    {
        let ghost pre = *old(store);
        let i = match store.find_response_index(self.id) {
            Some(i) => i,
            None => {
                return Err(DatabaseError::new(
                    ErrorCode::UpdateError,
                    "Could not update chat workflow response",
                ));
            },
        };
        proof {
            store.lemma_response_at(i as int);
        }
        let base = store.chat_workflow_responses[i].copied();
        let answer_check = match &attributes.answer_value {
            Some(v) => {
                let inner = match ChatWorkflowResponse::answer_value_unique(
                    base.chat_workflow_item_id,
                    v,
                    Some(self.id),
                    store,
                ) {
                    Ok(x) => x,
                    Err(e) => {
                        return Err(e);
                    },
                };
                inner
            },
            None => Ok(()),
        };
        if let Err(fve) = answer_check {
            let mut errors: Vec<crate::error::FieldValidationError> = Vec::new();
            errors.push(fve);
            return Err(DatabaseError {
                error_code: ErrorCode::ValidationError { errors },
                message: String::from_str("Validation error"),
            });
        }
        match &attributes.next_chat_workflow_item_id {
            Some(Some(n)) => {
                if store.find_item_index(*n).is_none() {
                    return Err(DatabaseError::new(
                        ErrorCode::UpdateError,
                        "Could not update chat workflow response",
                    ));
                }
            },
            _ => {},
        }
        let updated = ChatWorkflowResponse {
            id: base.id,
            chat_workflow_item_id: base.chat_workflow_item_id,
            response_type: match attributes.response_type {
                Some(t) => t,
                None => base.response_type,
            },
            response: match attributes.response {
                Some(v) => v,
                None => base.response,
            },
            answer_value: match attributes.answer_value {
                Some(v) => v,
                None => base.answer_value,
            },
            next_chat_workflow_item_id: match attributes.next_chat_workflow_item_id {
                Some(v) => v,
                None => base.next_chat_workflow_item_id,
            },
            rank: match attributes.rank {
                Some(r) => r,
                None => base.rank,
            },
        };
        let result = updated.copied();
        let ghost before = store.chat_workflow_responses@;
        store.chat_workflow_responses.set(i, updated);
        proof {
            let s = store.chat_workflow_responses@;
            assert(forall|j: int| 0 <= j < s.len() ==> ids_of_responses(s)[j] == ids_of_responses(
                before,
            )[j]);
            assert(table_ok(ids_of_responses(s), store.next_id));
            assert(crate::store::answers_unique(s)) by {
                assert forall|a: int, b: int|
                    0 <= a < b < s.len() && s[a].chat_workflow_item_id == s[b].chat_workflow_item_id
                        && s[a].answer_value is Some && s[b].answer_value is Some implies opt_view(
                    s[a].answer_value,
                ) != opt_view(s[b].answer_value) by {
                    if a != i && b != i {
                        assert(s[a] == before[a]);
                        assert(s[b] == before[b]);
                    } else {
                        let k = if a == i as int {
                            b
                        } else {
                            a
                        };
                        assert(s[k] == before[k]);
                        if opt_view(s[a].answer_value) == opt_view(s[b].answer_value) {
                            match attributes.answer_value {
                                Some(av) => {
                                    assert(ids_of_responses(before)[k] != ids_of_responses(
                                        before,
                                    )[i as int]);
                                    assert(pre.answer_taken(
                                        base.chat_workflow_item_id,
                                        before[k].answer_value.unwrap()@,
                                        Some(self.id),
                                    ));
                                },
                                None => {
                                    assert(s[i as int].answer_value == before[
                                        i as int
                                    ].answer_value);
                                },
                            }
                        }
                    }
                }
            }
            assert(shift_in_range(
                s,
                updated.chat_workflow_item_id,
                self.id,
                updated.rank,
                Some(self.rank),
            )) by {
                assert forall|j: int| 0 <= j < s.len() implies i64::MIN <= (#[trigger] s[j]).rank
                    + shift_delta(
                    s[j],
                    updated.chat_workflow_item_id,
                    self.id,
                    updated.rank,
                    Some(self.rank),
                ) <= i64::MAX by {
                    if j != i {
                        assert(s[j] == before[j]);
                    }
                }
            }
        }
        let shift_result = result.shift_other_rank(Some(self.rank), store);
        proof {
            assert(shift_result is Ok);
        }
        Ok(result)
    }

    /// Removes the response; removing an absent id changes nothing.
    pub fn destroy(&self, store: &mut Store) -> (r: Result<(), DatabaseError>)
        requires
            old(store).wf(),
        ensures
            final(store).wf(),
            r is Ok,
            final(store).chat_workflow_responses@ == responses_without_id(
                old(store).chat_workflow_responses@,
                self.id,
            ),
            final(store).next_id == old(store).next_id,
            final(store).chat_workflows@ == old(store).chat_workflows@,
            final(store).chat_workflow_items@ == old(store).chat_workflow_items@,
            final(store).chat_sessions@ == old(store).chat_sessions@,
            final(store).chat_workflow_interactions@ == old(store).chat_workflow_interactions@,
            final(store).domain_events@ == old(store).domain_events@,
    {
        let ghost pre = *old(store);
        let mut out: Vec<ChatWorkflowResponse> = Vec::new();
        let n = store.chat_workflow_responses.len();
        let mut i: usize = 0;
        while i < n
            invariant
                n == store.chat_workflow_responses@.len(),
                store.chat_workflow_responses@ == pre.chat_workflow_responses@,
                i <= n,
                out@ == responses_without_id(
                    store.chat_workflow_responses@.take(i as int),
                    self.id,
                ),
            decreases n - i,
        {
            let ghost prefix = store.chat_workflow_responses@.take(i as int);
            if store.chat_workflow_responses[i].id != self.id {
                out.push(store.chat_workflow_responses[i].copied());
            }
            proof {
                assert(store.chat_workflow_responses@.take(i + 1).drop_last() =~= prefix);
                assert(store.chat_workflow_responses@.take(i + 1).last()
                    == store.chat_workflow_responses@[i as int]);
            }
            i += 1;
        }
        proof {
            assert(store.chat_workflow_responses@.take(n as int)
                =~= store.chat_workflow_responses@);
        }
        store.chat_workflow_responses = out;
        proof {
            lemma_responses_without_id(pre.chat_workflow_responses@, self.id, pre.next_id);
        }
        Ok(())
    }
}

/// The first response of `s` carrying the given type.
pub open spec fn first_of_type(
    s: Seq<ChatWorkflowResponse>,
    t: ChatWorkflowResponseType,
) -> Option<ChatWorkflowResponse>
    decreases s.len(),
{
    if s.len() == 0 {
        None
    } else if s[0].response_type == t {
        Some(s[0])
    } else {
        first_of_type(s.skip(1), t)
    }
}

/// With no response of the type, `first_of_type` finds none.
pub proof fn lemma_first_of_type_none(s: Seq<ChatWorkflowResponse>, t: ChatWorkflowResponseType)
    requires
        forall|j: int| 0 <= j < s.len() ==> (#[trigger] s[j]).response_type != t,
    ensures
        first_of_type(s, t) is None,
    decreases s.len(),
{
    if s.len() > 0 {
        let r = s.skip(1);
        assert(forall|j: int| 0 <= j < r.len() ==> r[j] == s[j + 1]);
        lemma_first_of_type_none(r, t);
    }
}

/// The first response of the type follows every earlier response of
/// another type.
pub proof fn lemma_first_of_type_at(
    s: Seq<ChatWorkflowResponse>,
    t: ChatWorkflowResponseType,
    k: int,
)
    requires
        0 <= k < s.len(),
        forall|j: int| 0 <= j < k ==> (#[trigger] s[j]).response_type != t,
        s[k].response_type == t,
    ensures
        first_of_type(s, t) == Some(s[k]),
    decreases k,
{
    if k > 0 {
        let r = s.skip(1);
        assert(forall|j: int| 0 <= j < r.len() ==> r[j] == s[j + 1]);
        lemma_first_of_type_at(r, t, k - 1);
    }
}

impl ChatWorkflowResponse {
    /// The response text with template placeholders substituted from the
    /// session's context; `None` when the response has no text.
    pub fn response(&self, chat_session: &ChatSession) -> (r: Option<String>)
        requires
            chat_session.context.wf(),
        ensures
            match (r, self.response) {
                (Some(out), Some(m)) => out@ == crate::strings::rendered_template(
                    m@,
                    chat_session.context@,
                ),
                (None, None) => true,
                _ => false,
            },
    {
        match &self.response {
            Some(m) => Some(crate::strings::render_template(m.as_str(), &chat_session.context)),
            None => None,
        }
    }
}

/// A shift changes ranks only, so the store stays well-formed.
proof fn lemma_shifted_wf(
    pre: Store,
    post: Store,
    item_id: u64,
    self_id: u64,
    self_rank: i64,
    from_rank: Option<i64>,
)
    requires
        pre.wf(),
        post.next_id == pre.next_id,
        post.chat_workflows@ == pre.chat_workflows@,
        post.chat_workflow_items@ == pre.chat_workflow_items@,
        post.chat_sessions@ == pre.chat_sessions@,
        post.chat_workflow_interactions@ == pre.chat_workflow_interactions@,
        post.domain_events@ == pre.domain_events@,
        post.chat_workflow_responses@ == shifted_responses(
            pre.chat_workflow_responses@,
            item_id,
            self_id,
            self_rank,
            from_rank,
        ),
    ensures
        post.wf(),
{
    let s = pre.chat_workflow_responses@;
    let t = post.chat_workflow_responses@;
    assert(forall|i: int|
        0 <= i < t.len() ==> (#[trigger] t[i]).id == s[i].id && t[i].chat_workflow_item_id
            == s[i].chat_workflow_item_id && t[i].answer_value == s[i].answer_value);
    assert(forall|i: int| 0 <= i < t.len() ==> ids_of_responses(t)[i] == ids_of_responses(s)[i]);
    assert(table_ok(ids_of_responses(t), post.next_id));
    assert(crate::store::answers_unique(t));
}

} // verus!
