//! The tree renderer: a cycle-safe projection of the graph under one item
//! into a nested display structure for editors. One "already rendered" set
//! of item ids is threaded through the whole traversal: the first occurrence
//! of an item is expanded in full, every later occurrence — whether a true
//! cycle or two edges converging on the same item — becomes a reference
//! marker. That bounds the output by the number of items and makes the
//! traversal terminate on any graph.

use vstd::prelude::*;

use crate::chat_workflow_items::{ChatWorkflowItem, ChatWorkflowItemRenderType, ChatWorkflowItemType};
use crate::chat_workflow_responses::{
    collect_item_responses, item_responses, ChatWorkflowResponse, ChatWorkflowResponseType,
};
use crate::chat_workflows::ChatWorkflowStatus;
use crate::error::{is_no_results, DatabaseError};
use crate::store::Store;
use crate::strings::{opt_clone, opt_view};

verus! {

broadcast use {vstd::std_specs::vec::group_vec_axioms, vstd::seq_lib::seq_to_set_is_finite};

/// What stands below a response in the rendered tree: nothing (a terminal
/// edge), a reference marker for an item rendered elsewhere in the same
/// traversal, or the item in full.
#[derive(Debug, PartialEq, Eq)]
pub enum ItemTree {
    Empty,
    Reference(u64),
    Item(Box<DisplayChatWorkflowItem>),
}

/// A rendered item: its attributes and its outgoing responses in rank order.
#[derive(Debug, PartialEq, Eq)]
pub struct DisplayChatWorkflowItem {
    pub id: u64,
    pub chat_workflow_id: u64,
    pub item_type: ChatWorkflowItemType,
    pub message: Option<String>,
    pub render_type: Option<ChatWorkflowItemRenderType>,
    pub response_wait: i32,
    pub tree: Vec<DisplayChatWorkflowResponse>,
}

/// A rendered response: its attributes and the rendering of its next item.
#[derive(Debug, PartialEq, Eq)]
pub struct DisplayChatWorkflowResponse {
    pub id: u64,
    pub chat_workflow_item_id: u64,
    pub response_type: ChatWorkflowResponseType,
    pub response: Option<String>,
    pub answer_value: Option<String>,
    pub next_chat_workflow_item_id: Option<u64>,
    pub rank: i64,
    pub tree: ItemTree,
}

/// A rendered workflow: its attributes and the rendering of its graph from
/// the initial item, or an empty tree when none is set.
#[derive(Debug, PartialEq, Eq)]
pub struct DisplayChatWorkflow {
    pub id: u64,
    pub name: String,
    pub status: ChatWorkflowStatus,
    pub tree: ItemTree,
    pub initial_chat_workflow_item_id: Option<u64>,
}

/// The mathematical value of an [`ItemTree`].
pub enum SpecItemTree {
    Empty,
    Reference(u64),
    Item(Box<SpecDisplayItem>),
}

/// The mathematical value of a [`DisplayChatWorkflowItem`].
pub struct SpecDisplayItem {
    pub id: u64,
    pub chat_workflow_id: u64,
    pub item_type: ChatWorkflowItemType,
    pub message: Option<Seq<char>>,
    pub render_type: Option<ChatWorkflowItemRenderType>,
    pub response_wait: i32,
    pub tree: Seq<SpecDisplayResponse>,
}

/// The mathematical value of a [`DisplayChatWorkflowResponse`].
pub struct SpecDisplayResponse {
    pub id: u64,
    pub chat_workflow_item_id: u64,
    pub response_type: ChatWorkflowResponseType,
    pub response: Option<Seq<char>>,
    pub answer_value: Option<Seq<char>>,
    pub next_chat_workflow_item_id: Option<u64>,
    pub rank: i64,
    pub tree: SpecItemTree,
}

/// The mathematical value of a [`DisplayChatWorkflow`].
pub struct SpecDisplayWorkflow {
    pub id: u64,
    pub name: Seq<char>,
    pub status: ChatWorkflowStatus,
    pub tree: SpecItemTree,
    pub initial_chat_workflow_item_id: Option<u64>,
}

pub open spec fn spec_view_item(d: DisplayChatWorkflowItem) -> SpecDisplayItem
    decreases d, 1int,
{
    SpecDisplayItem {
        id: d.id,
        chat_workflow_id: d.chat_workflow_id,
        item_type: d.item_type,
        message: crate::strings::opt_view(d.message),
        render_type: d.render_type,
        response_wait: d.response_wait,
        tree: spec_view_responses(d.tree, d.tree@.len() as int),
    }
}

pub open spec fn spec_view_responses(v: Vec<DisplayChatWorkflowResponse>, n: int) -> Seq<
    SpecDisplayResponse,
>
    decreases v, 0int, n,
{
    if 0 < n <= v@.len() {
        spec_view_responses(v, n - 1).push(spec_view_response(v@[n - 1]))
    } else {
        Seq::empty()
    }
}

pub open spec fn spec_view_response(d: DisplayChatWorkflowResponse) -> SpecDisplayResponse
    decreases d, 1int,
{
    SpecDisplayResponse {
        id: d.id,
        chat_workflow_item_id: d.chat_workflow_item_id,
        response_type: d.response_type,
        response: crate::strings::opt_view(d.response),
        answer_value: crate::strings::opt_view(d.answer_value),
        next_chat_workflow_item_id: d.next_chat_workflow_item_id,
        rank: d.rank,
        tree: spec_view_tree(d.tree),
    }
}

pub open spec fn spec_view_tree(t: ItemTree) -> SpecItemTree
    decreases t, 2int,
{
    match t {
        ItemTree::Empty => SpecItemTree::Empty,
        ItemTree::Reference(id) => SpecItemTree::Reference(id),
        ItemTree::Item(b) => SpecItemTree::Item(Box::new(spec_view_item(*b))),
    }
}

impl View for DisplayChatWorkflowItem {
    type V = SpecDisplayItem;

    open spec fn view(&self) -> SpecDisplayItem {
        spec_view_item(*self)
    }
}

impl View for DisplayChatWorkflowResponse {
    type V = SpecDisplayResponse;

    open spec fn view(&self) -> SpecDisplayResponse {
        spec_view_response(*self)
    }
}

impl View for ItemTree {
    type V = SpecItemTree;

    open spec fn view(&self) -> SpecItemTree {
        spec_view_tree(*self)
    }
}

impl View for DisplayChatWorkflow {
    type V = SpecDisplayWorkflow;

    open spec fn view(&self) -> SpecDisplayWorkflow {
        SpecDisplayWorkflow {
            id: self.id,
            name: self.name@,
            status: self.status,
            tree: spec_view_tree(self.tree),
            initial_chat_workflow_item_id: self.initial_chat_workflow_item_id,
        }
    }
}

impl DisplayChatWorkflow {
    /// An owned copy whose rendered value equals `self`'s.
    pub fn copied(&self) -> (r: DisplayChatWorkflow)
        ensures
            r@ == self@,
    {
        DisplayChatWorkflow {
            id: self.id,
            name: self.name.clone(),
            status: self.status,
            tree: self.tree.copied(),
            initial_chat_workflow_item_id: self.initial_chat_workflow_item_id,
        }
    }
}

impl ItemTree {
    /// An owned copy whose rendered value equals `self`'s.
    pub fn copied(&self) -> (r: ItemTree)
        ensures
            r@ == self@,
        decreases *self,
    {
        match self {
            ItemTree::Empty => ItemTree::Empty,
            ItemTree::Reference(id) => ItemTree::Reference(*id),
            ItemTree::Item(b) => ItemTree::Item(Box::new((**b).copied())),
        }
    }
}

impl DisplayChatWorkflowItem {
    /// An owned copy whose rendered value equals `self`'s.
    pub fn copied(&self) -> (r: DisplayChatWorkflowItem)
        ensures
            r@ == self@,
        decreases *self,
    {
        let mut tree: Vec<DisplayChatWorkflowResponse> = Vec::new();
        let n = self.tree.len();
        let mut i: usize = 0;
        while i < n
            invariant
                n == self.tree@.len(),
                i <= n,
                tree@.len() == i,
                forall|j: int| 0 <= j < i ==> spec_view_response(#[trigger] tree@[j])
                    == spec_view_response(self.tree@[j]),
            decreases n - i,
        {
            tree.push(self.tree[i].copied());
            i += 1;
        }
        let r = DisplayChatWorkflowItem {
            id: self.id,
            chat_workflow_id: self.chat_workflow_id,
            item_type: self.item_type,
            message: opt_clone(&self.message),
            render_type: self.render_type,
            response_wait: self.response_wait,
            tree,
        };
        proof {
            lemma_view_responses_pointwise(r.tree, self.tree, n as int);
        }
        r
    }
}

impl DisplayChatWorkflowResponse {
    /// An owned copy whose rendered value equals `self`'s.
    pub fn copied(&self) -> (r: DisplayChatWorkflowResponse)
        ensures
            r@ == self@,
        decreases *self,
    {
        DisplayChatWorkflowResponse {
            id: self.id,
            chat_workflow_item_id: self.chat_workflow_item_id,
            response_type: self.response_type,
            response: opt_clone(&self.response),
            answer_value: opt_clone(&self.answer_value),
            next_chat_workflow_item_id: self.next_chat_workflow_item_id,
            rank: self.rank,
            tree: self.tree.copied(),
        }
    }
}

/// How many of the store's items the traversal has not yet rendered.
pub open spec fn pending_count(store: Store, visited: Seq<u64>) -> nat {
    store.item_ids().to_set().difference(visited.to_set()).len()
}

/// Growing the rendered set never grows the pending count.
pub proof fn lemma_pending_monotone(store: Store, a: Seq<u64>, b: Seq<u64>)
    requires
        a.to_set().subset_of(b.to_set()),
    ensures
        pending_count(store, b) <= pending_count(store, a),
{
    let ia = store.item_ids().to_set().difference(a.to_set());
    let ib = store.item_ids().to_set().difference(b.to_set());
    assert(ib.subset_of(ia));
    vstd::set_lib::lemma_len_subset(ib, ia);
}

/// Rendering an item not yet in the set strictly shrinks the pending count.
pub proof fn lemma_pending_strict(store: Store, visited: Seq<u64>, n: u64)
    requires
        store.item_ids().to_set().contains(n),
        !visited.to_set().contains(n),
    ensures
        pending_count(store, visited.push(n)) < pending_count(store, visited),
{
    let base = store.item_ids().to_set().difference(visited.to_set());
    let shrunk = store.item_ids().to_set().difference(visited.push(n).to_set());
    assert(base.contains(n)) by {
        assert(!visited.to_set().contains(n));
    }
    assert(visited.push(n).to_set().contains(n)) by {
        assert(visited.push(n)[visited.len() as int] == n);
    }
    assert(shrunk.subset_of(base.remove(n))) by {
        assert forall|x: u64| shrunk.contains(x) implies base.remove(n).contains(x) by {
            assert(!visited.push(n).to_set().contains(x));
            assert(!visited.to_set().contains(x)) by {
                if visited.contains(x) {
                    let i = choose|i: int| 0 <= i < visited.len() && visited[i] == x;
                    assert(visited.push(n)[i] == x);
                }
            }
        }
    }
    vstd::set_lib::lemma_len_subset(shrunk, base.remove(n));
    assert(base.remove(n).len() == base.len() - 1);
}

/// A rendered response before its subtree is attached.
pub open spec fn spec_display_of(r: ChatWorkflowResponse, tree: SpecItemTree) -> SpecDisplayResponse {
    SpecDisplayResponse {
        id: r.id,
        chat_workflow_item_id: r.chat_workflow_item_id,
        response_type: r.response_type,
        response: opt_view(r.response),
        answer_value: opt_view(r.answer_value),
        next_chat_workflow_item_id: r.next_chat_workflow_item_id,
        rank: r.rank,
        tree,
    }
}

/// Renders one item: the item joins the rendered set, then its responses are
/// rendered in rank order. `None` marks a dangling edge met below.
pub open spec fn spec_render_item(
    store: Store,
    item: ChatWorkflowItem,
    visited: Seq<u64>,
) -> Option<(SpecDisplayItem, Seq<u64>)>
    decreases pending_count(store, visited.push(item.id)), 1int, 0int,
{
    let v1 = visited.push(item.id);
    match spec_render_responses(store, item_responses(store, item.id), v1) {
        Some(p) => Some(
            (
                SpecDisplayItem {
                    id: item.id,
                    chat_workflow_id: item.chat_workflow_id,
                    item_type: item.item_type,
                    message: opt_view(item.message),
                    render_type: item.render_type,
                    response_wait: item.response_wait,
                    tree: p.0,
                },
                p.1,
            ),
        ),
        None => None,
    }
}

/// Renders a list of responses in order, threading the rendered set through;
/// the guard on the accumulator makes its growth definitional, and
/// [`lemma_render_response_grows`] shows it never bites.
pub open spec fn spec_render_responses(
    store: Store,
    rs: Seq<ChatWorkflowResponse>,
    visited: Seq<u64>,
) -> Option<(Seq<SpecDisplayResponse>, Seq<u64>)>
    decreases pending_count(store, visited), 0int, rs.len(),
{
    if rs.len() == 0 {
        Some((Seq::empty(), visited))
    } else {
        match spec_render_response(store, rs[0], visited) {
            Some(p) => {
                let v1 = if pending_count(store, p.1) <= pending_count(store, visited) {
                    p.1
                } else {
                    visited
                };
                match spec_render_responses(store, rs.skip(1), v1) {
                    Some(q) => Some((seq![p.0] + q.0, q.1)),
                    None => None,
                }
            },
            None => None,
        }
    }
}

/// Renders one response: a terminal edge gets an empty subtree, an edge into
/// an already-rendered item gets a reference marker, and any other edge
/// expands its item in full. A dangling edge renders as `None`.
pub open spec fn spec_render_response(
    store: Store,
    r: ChatWorkflowResponse,
    visited: Seq<u64>,
) -> Option<(SpecDisplayResponse, Seq<u64>)>
    decreases pending_count(store, visited), 0int, 0int,
    via spec_render_response_dec
{
    match r.next_chat_workflow_item_id {
        None => Some((spec_display_of(r, SpecItemTree::Empty), visited)),
        Some(n) => {
            if visited.contains(n) {
                Some((spec_display_of(r, SpecItemTree::Reference(n)), visited))
            } else if !store.has_item(n) {
                None
            } else {
                match spec_render_item(store, store.spec_item(n), visited) {
                    Some(p) => Some(
                        (spec_display_of(r, SpecItemTree::Item(Box::new(p.0))), p.1),
                    ),
                    None => None,
                }
            }
        },
    }
}

#[via_fn]
proof fn spec_render_response_dec(store: Store, r: ChatWorkflowResponse, visited: Seq<u64>) {
    match r.next_chat_workflow_item_id {
        Some(n) => {
            if !visited.contains(n) && store.has_item(n) {
                let idx = store.item_index_of(n);
                assert(store.chat_workflow_items@[idx].id == n);
                assert(store.item_ids()[idx] == n);
                assert(store.item_ids().to_set().contains(n));
                assert(!visited.to_set().contains(n));
                lemma_pending_strict(store, visited, n);
                assert(store.spec_item(n).id == n);
            }
        },
        None => {},
    }
}

/// The rendered set only ever grows while an item renders.
pub proof fn lemma_render_item_grows(store: Store, item: ChatWorkflowItem, visited: Seq<u64>)
    ensures
        spec_render_item(store, item, visited) matches Some(p) ==> visited.to_set().subset_of(
            p.1.to_set(),
        ),
    decreases pending_count(store, visited.push(item.id)), 1int, 0int,
{
    let v1 = visited.push(item.id);
    lemma_render_responses_grows(store, item_responses(store, item.id), v1);
    assert forall|x: u64| visited.to_set().contains(x) implies v1.to_set().contains(x) by {
        let i = choose|i: int| 0 <= i < visited.len() && visited[i] == x;
        assert(v1[i] == x);
    }
}

/// The rendered set only ever grows while a response list renders.
pub proof fn lemma_render_responses_grows(
    store: Store,
    rs: Seq<ChatWorkflowResponse>,
    visited: Seq<u64>,
)
    ensures
        spec_render_responses(store, rs, visited) matches Some(p) ==> visited.to_set().subset_of(
            p.1.to_set(),
        ),
    decreases pending_count(store, visited), 0int, rs.len(),
{
    if rs.len() > 0 {
        lemma_render_response_grows(store, rs[0], visited);
        match spec_render_response(store, rs[0], visited) {
            Some(p) => {
                lemma_pending_monotone(store, visited, p.1);
                lemma_render_responses_grows(store, rs.skip(1), p.1);
            },
            None => {},
        }
    }
}

/// The rendered set only ever grows while a response renders; in particular
/// the guard inside [`spec_render_responses`] always passes the new set on.
pub proof fn lemma_render_response_grows(
    store: Store,
    r: ChatWorkflowResponse,
    visited: Seq<u64>,
)
    ensures
        spec_render_response(store, r, visited) matches Some(p) ==> visited.to_set().subset_of(
            p.1.to_set(),
        ),
    decreases pending_count(store, visited), 0int, 0int,
{
    match r.next_chat_workflow_item_id {
        Some(n) => {
            if !visited.contains(n) && store.has_item(n) {
                let idx = store.item_index_of(n);
                assert(store.chat_workflow_items@[idx].id == n);
                assert(store.item_ids()[idx] == n);
                assert(store.item_ids().to_set().contains(n));
                assert(!visited.to_set().contains(n));
                lemma_pending_strict(store, visited, n);
                lemma_render_item_grows(store, store.spec_item(n), visited);
                let v1 = visited.push(store.spec_item(n).id);
                assert forall|x: u64| visited.to_set().contains(x) implies v1.to_set().contains(
                    x,
                ) by {
                    let i = choose|i: int| 0 <= i < visited.len() && visited[i] == x;
                    assert(v1[i] == x);
                }
            }
        },
        None => {},
    }
}

/// A rendered response list is as long as its source list.
pub proof fn lemma_render_responses_len(
    store: Store,
    rs: Seq<ChatWorkflowResponse>,
    visited: Seq<u64>,
)
    requires
        spec_render_responses(store, rs, visited) is Some,
    ensures
        spec_render_responses(store, rs, visited)->Some_0.0.len() == rs.len(),
    decreases rs.len(),
{
    if rs.len() > 0 {
        let first = spec_render_response(store, rs[0], visited)->Some_0;
        lemma_render_response_grows(store, rs[0], visited);
        lemma_pending_monotone(store, visited, first.1);
        lemma_render_responses_len(store, rs.skip(1), first.1);
    }
}

/// Each rendered response in a list is the rendering of its source response
/// against some set that contains everything rendered before the list
/// began.
pub proof fn lemma_render_responses_index(
    store: Store,
    rs: Seq<ChatWorkflowResponse>,
    visited: Seq<u64>,
    k: int,
)
    requires
        spec_render_responses(store, rs, visited) matches Some(p),
        0 <= k < rs.len(),
    ensures
        spec_render_responses(store, rs, visited) matches Some(p) && p.0.len() == rs.len()
            && exists|vk: Seq<u64>|
            visited.to_set().subset_of(vk.to_set()) && #[trigger] trigger_seq(vk)
                && (spec_render_response(store, rs[k], vk) matches Some(q) && q.0 == p.0[k]),
    decreases rs.len(),
{
    lemma_render_responses_len(store, rs, visited);
    let p = spec_render_responses(store, rs, visited)->Some_0;
    let first = spec_render_response(store, rs[0], visited)->Some_0;
    lemma_render_response_grows(store, rs[0], visited);
    lemma_pending_monotone(store, visited, first.1);
    let q = spec_render_responses(store, rs.skip(1), first.1)->Some_0;
    if k == 0 {
        assert(p.0 == seq![first.0] + q.0);
        assert(p.0[0] == first.0);
        assert(trigger_seq(visited) && visited.to_set().subset_of(visited.to_set()) && (
        spec_render_response(store, rs[0], visited) matches Some(qq) && qq.0 == p.0[0]));
    } else {
        lemma_render_responses_index(store, rs.skip(1), first.1, k - 1);
        assert(rs.skip(1)[k - 1] == rs[k]);
        assert(p.0[k] == q.0[k - 1]);
        let vk = choose|vk: Seq<u64>|
            first.1.to_set().subset_of(vk.to_set()) && #[trigger] trigger_seq(vk) && (
            spec_render_response(store, rs.skip(1)[k - 1], vk) matches Some(qq) && qq.0 == q.0[k
                - 1]);
        assert(visited.to_set().subset_of(vk.to_set()));
        assert(spec_render_response(store, rs[k], vk) matches Some(qq) && qq.0 == p.0[k]) by {
            assert(spec_render_response(store, rs.skip(1)[k - 1], vk) is Some);
        }
    }
}

/// A trigger marker for quantifying over rendered sets.
pub open spec fn trigger_seq(v: Seq<u64>) -> bool {
    true
}

/// The renderer marks repetition instead of recursing: in the render of an
/// item, any of its responses whose edge points back at the item itself
/// carries a reference marker, never a second expansion. Together with the
/// proven termination of the renderer this is what makes cyclic graphs
/// safe to render.
pub proof fn lemma_self_cycle_renders_reference(
    store: Store,
    item: ChatWorkflowItem,
    visited: Seq<u64>,
    k: int,
)
    requires
        spec_render_item(store, item, visited) matches Some(p),
        0 <= k < item_responses(store, item.id).len(),
        item_responses(store, item.id)[k].next_chat_workflow_item_id == Some(item.id),
    ensures
        spec_render_item(store, item, visited) matches Some(p) && p.0.tree.len()
            == item_responses(store, item.id).len() && p.0.tree[k].tree == SpecItemTree::Reference(
            item.id,
        ),
{
    let rs = item_responses(store, item.id);
    let v1 = visited.push(item.id);
    lemma_render_responses_index(store, rs, v1, k);
    let p1 = spec_render_responses(store, rs, v1)->Some_0;
    let vk = choose|vk: Seq<u64>|
        v1.to_set().subset_of(vk.to_set()) && #[trigger] trigger_seq(vk) && (
        spec_render_response(store, rs[k], vk) matches Some(qq) && qq.0 == p1.0[k]);
    assert(v1[v1.len() - 1] == item.id);
    assert(v1.to_set().contains(item.id));
    assert(vk.to_set().contains(item.id));
    assert(vk.contains(item.id));
    assert(spec_render_response(store, rs[k], vk)->Some_0.0 == spec_display_of(
        rs[k],
        SpecItemTree::Reference(item.id),
    ));
}

/// Whether the vector holds the id.
pub(crate) fn vec_contains(v: &Vec<u64>, x: u64) -> (r: bool)
    ensures
        r == v@.contains(x),
{
    let n = v.len();
    let mut i: usize = 0;
    while i < n
        invariant
            n == v@.len(),
            i <= n,
            forall|j: int| 0 <= j < i ==> v@[j] != x,
        decreases n - i,
    {
        if v[i] == x {
            return true;
        }
        i += 1;
    }
    false
}

/// `spec_view_responses` reads the views off element by element.
proof fn lemma_spec_view_responses_index(v: Vec<DisplayChatWorkflowResponse>, n: int)
    requires
        0 <= n <= v@.len(),
    ensures
        spec_view_responses(v, n).len() == n,
        forall|k: int|
            0 <= k < n ==> spec_view_responses(v, n)[k] == spec_view_response(#[trigger] v@[k]),
    decreases n,
{
    if n > 0 {
        lemma_spec_view_responses_index(v, n - 1);
    }
}

fn render_item_rec(store: &Store, item: &ChatWorkflowItem, visited: Vec<u64>) -> (r: (
    Vec<u64>,
    Result<DisplayChatWorkflowItem, DatabaseError>,
))
    requires
        store.wf(),
    ensures
        match r.1 {
            Ok(d) => spec_render_item(*store, *item, visited@) == Some((d@, r.0@)),
            Err(e) => spec_render_item(*store, *item, visited@) is None && is_no_results(e)
                && e.message@ == "Unable to load chat workflow item"@,
        },
    decreases pending_count(*store, visited@.push(item.id)), 1int, 0int,
{
    let ghost v0 = visited@;
    let mut visited = visited;
    visited.push(item.id);
    let list = collect_item_responses(store, item.id);
    proof {
        assert(list@.skip(0) =~= list@);
    }
    let (v2, res) = render_responses_rec(store, &list, 0, visited);
    match res {
        Ok(ds) => {
            let d = DisplayChatWorkflowItem {
                id: item.id,
                chat_workflow_id: item.chat_workflow_id,
                item_type: item.item_type,
                message: opt_clone(&item.message),
                render_type: item.render_type,
                response_wait: item.response_wait,
                tree: ds,
            };
            (v2, Ok(d))
        },
        Err(e) => (v2, Err(e)),
    }
}

fn render_responses_rec(store: &Store, list: &Vec<ChatWorkflowResponse>, idx: usize, visited: Vec<
    u64,
>) -> (r: (Vec<u64>, Result<Vec<DisplayChatWorkflowResponse>, DatabaseError>))
    requires
        store.wf(),
        idx <= list@.len(),
    ensures
        match r.1 {
            Ok(ds) => spec_render_responses(*store, list@.skip(idx as int), visited@) == Some(
                (spec_view_responses(ds, ds@.len() as int), r.0@),
            ),
            Err(e) => spec_render_responses(*store, list@.skip(idx as int), visited@) is None
                && is_no_results(e) && e.message@ == "Unable to load chat workflow item"@,
        },
    decreases pending_count(*store, visited@), 0int, list@.len() - idx,
{
    let ghost v0 = visited@;
    let ghost rs = list@.skip(idx as int);
    if idx == list.len() {
        let ds: Vec<DisplayChatWorkflowResponse> = Vec::new();
        proof {
            assert(rs.len() == 0);
            assert(spec_view_responses(ds, 0) =~= Seq::<SpecDisplayResponse>::empty());
        }
        return (visited, Ok(ds));
    }
    proof {
        assert(rs[0] == list@[idx as int]);
        assert(rs.skip(1) =~= list@.skip(idx as int + 1));
    }
    let (v1, first) = render_response_rec(store, &list[idx], visited);
    let d = match first {
        Ok(d) => d,
        Err(e) => {
            return (v1, Err(e));
        },
    };
    proof {
        lemma_render_response_grows(*store, list@[idx as int], v0);
        lemma_pending_monotone(*store, v0, v1@);
    }
    let (v2, rest) = render_responses_rec(store, list, idx + 1, v1);
    let mut ds = match rest {
        Ok(ds) => ds,
        Err(e) => {
            return (v2, Err(e));
        },
    };
    let ghost rest_vec = ds;
    let ghost dv = d;
    ds.insert(0, d);
    proof {
        assert(ds@ =~= seq![dv].add(rest_vec@));
        lemma_spec_view_responses_index(ds, ds@.len() as int);
        lemma_spec_view_responses_index(rest_vec, rest_vec@.len() as int);
        let lhs = spec_view_responses(ds, ds@.len() as int);
        let rhs = seq![spec_view_response(dv)] + spec_view_responses(
            rest_vec,
            rest_vec@.len() as int,
        );
        assert forall|k: int| 0 <= k < ds@.len() implies lhs[k] == rhs[k] by {
            if k == 0 {
                assert(ds@[0] == dv);
            } else {
                assert(ds@[k] == rest_vec@[k - 1]);
                assert(rhs[k] == spec_view_responses(rest_vec, rest_vec@.len() as int)[k - 1]);
            }
        }
        assert(lhs =~= rhs);
    }
    (v2, Ok(ds))
}

/// The display record of a response with the given subtree attached.
fn display_response_with(resp: &ChatWorkflowResponse, tree: ItemTree) -> (d:
    DisplayChatWorkflowResponse)
    ensures
        d@ == spec_display_of(*resp, spec_view_tree(tree)),
{
    DisplayChatWorkflowResponse {
        id: resp.id,
        chat_workflow_item_id: resp.chat_workflow_item_id,
        response_type: resp.response_type,
        response: opt_clone(&resp.response),
        answer_value: opt_clone(&resp.answer_value),
        next_chat_workflow_item_id: resp.next_chat_workflow_item_id,
        rank: resp.rank,
        tree,
    }
}

fn render_response_rec(store: &Store, resp: &ChatWorkflowResponse, visited: Vec<u64>) -> (r: (
    Vec<u64>,
    Result<DisplayChatWorkflowResponse, DatabaseError>,
))
    requires
        store.wf(),
    ensures
        match r.1 {
            Ok(d) => spec_render_response(*store, *resp, visited@) == Some((d@, r.0@)),
            Err(e) => spec_render_response(*store, *resp, visited@) is None && is_no_results(e)
                && e.message@ == "Unable to load chat workflow item"@,
        },
    decreases pending_count(*store, visited@), 0int, 0int,
{
    let ghost v0 = visited@;
    let next = match resp.next_chat_workflow_item_id {
        None => {
            let d = display_response_with(resp, ItemTree::Empty);
            return (visited, Ok(d));
        },
        Some(n) => n,
    };
    if vec_contains(&visited, next) {
        let d = display_response_with(resp, ItemTree::Reference(next));
        return (visited, Ok(d));
    }
    let idx = match store.find_item_index(next) {
        Some(i) => i,
        None => {
            return (
                visited,
                DatabaseError::no_results("Unable to load chat workflow item").map(
                    |x: DisplayChatWorkflowResponse| x,
                ),
            );
        },
    };
    proof {
        store.lemma_item_at(idx as int);
        assert(store.item_ids()[idx as int] == next);
        assert(store.item_ids().to_set().contains(next));
        assert(!v0.to_set().contains(next));
        lemma_pending_strict(*store, v0, next);
        assert(store.spec_item(next) == store.chat_workflow_items@[idx as int]);
    }
    let item = store.chat_workflow_items[idx].copied();
    let (v2, res) = render_item_rec(store, &item, visited);
    match res {
        Ok(di) => {
            let d = display_response_with(resp, ItemTree::Item(Box::new(di)));
            (v2, Ok(d))
        },
        Err(e) => (v2, Err(e)),
    }
}

impl ChatWorkflowItem {
    /// Renders the graph under this item. The item and everything it expands
    /// join `rendered_chat_workflow_item_ids`; an id already there is not
    /// expanded again but replaced with a reference marker, which bounds the
    /// output and makes rendering terminate on cyclic graphs. An edge to a
    /// missing item is `NoResults`.
    pub fn for_display(
        &self,
        rendered_chat_workflow_item_ids: &mut Vec<u64>,
        store: &Store,
    ) -> (r: Result<DisplayChatWorkflowItem, DatabaseError>)
        requires
            store.wf(),
        ensures
            match r {
                Ok(d) => spec_render_item(*store, *self, old(rendered_chat_workflow_item_ids)@)
                    == Some((d@, final(rendered_chat_workflow_item_ids)@)),
                Err(e) => spec_render_item(
                    *store,
                    *self,
                    old(rendered_chat_workflow_item_ids)@,
                ) is None && is_no_results(e) && e.message@
                    == "Unable to load chat workflow item"@,
            },
    {
        let mut owned: Vec<u64> = Vec::new();
        core::mem::swap(rendered_chat_workflow_item_ids, &mut owned);
        let (v2, res) = render_item_rec(store, self, owned);
        *rendered_chat_workflow_item_ids = v2;
        res
    }
}

impl ChatWorkflowResponse {
    /// Renders this response and the graph below it, threading the shared
    /// rendered set exactly as [`ChatWorkflowItem::for_display`] does.
    pub fn for_display(
        &self,
        rendered_chat_workflow_item_ids: &mut Vec<u64>,
        store: &Store,
    ) -> (r: Result<DisplayChatWorkflowResponse, DatabaseError>)
        requires
            store.wf(),
        ensures
            match r {
                Ok(d) => spec_render_response(
                    *store,
                    *self,
                    old(rendered_chat_workflow_item_ids)@,
                ) == Some((d@, final(rendered_chat_workflow_item_ids)@)),
                Err(e) => spec_render_response(
                    *store,
                    *self,
                    old(rendered_chat_workflow_item_ids)@,
                ) is None && is_no_results(e) && e.message@
                    == "Unable to load chat workflow item"@,
            },
    {
        let mut owned: Vec<u64> = Vec::new();
        core::mem::swap(rendered_chat_workflow_item_ids, &mut owned);
        let (v2, res) = render_response_rec(store, self, owned);
        *rendered_chat_workflow_item_ids = v2;
        res
    }
}

proof fn lemma_view_responses_pointwise(

    a: Vec<DisplayChatWorkflowResponse>,
    b: Vec<DisplayChatWorkflowResponse>,
    n: int,
)
    requires
        0 <= n <= a@.len(),
        n <= b@.len(),
        forall|j: int| 0 <= j < n ==> spec_view_response(#[trigger] a@[j]) == spec_view_response(
            b@[j],
        ),
    ensures
        spec_view_responses(a, n) == spec_view_responses(b, n),
    decreases n,
{
    if n > 0 {
        lemma_view_responses_pointwise(a, b, n - 1);
    }
}

} // verus!
