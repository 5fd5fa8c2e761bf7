use vstd::prelude::*;
use crate::geometry::{clamp_dim, clamp_dim_exec, sat_add, Position, Rect, Size};
use crate::handle::{invalid_generation, NodeHandle};
use crate::message::UiMessage;
use crate::node::UiNode;
use crate::widget::{spec_after_routed_message, Widget};

verus! {

/// One storage cell of the arena: its current generation and, while
/// occupied, the node it holds. The generation survives the occupant,
/// so stale handles to a reused cell fail the generation check.
pub struct Slot {
    pub generation: u32,
    pub node: Option<UiNode>,
}

/// The user interface: the arena that owns every node of the widget
/// tree, and the queue of messages waiting to be dispatched. A ghost
/// rank per occupied slot orients the tree (children rank strictly
/// below their parent), which bounds every walk over it.
pub struct Ui {
    pub slots: Vec<Slot>,
    pub queue: Vec<UiMessage>,
    pub rank: Ghost<Map<int, nat>>,
    pub rank_bound: Ghost<nat>,
}

impl Ui {
    pub open spec fn n_slots(self) -> int {
        self.slots@.len() as int
    }

    /// Whether slot `i` currently holds a node.
    pub open spec fn slot_alive(self, i: int) -> bool {
        0 <= i < self.n_slots() && self.slots@[i].node is Some
    }

    /// The node in slot `i`; meaningful only while the slot is alive.
    pub open spec fn node_at(self, i: int) -> UiNode {
        self.slots@[i].node.unwrap()
    }

    /// The widget state embedded in the node of slot `i`.
    pub open spec fn widget_at(self, i: int) -> Widget {
        self.node_at(i).spec_widget()
    }

    /// The handle that currently names slot `i`.
    pub open spec fn handle_at(self, i: int) -> NodeHandle {
        NodeHandle { index: i as u32, generation: self.slots@[i].generation }
    }

    /// Whether `h` resolves to a node: the slot is occupied and the
    /// generations agree, so a handle to a removed node never resolves.
    pub open spec fn alive(self, h: NodeHandle) -> bool {
        &&& h.is_some_spec()
        &&& 0 <= h.index < self.n_slots()
        &&& self.slots@[h.index as int].generation == h.generation
        &&& self.slots@[h.index as int].node is Some
    }

    /// The well-formedness of one edge: the `k`-th child reference of
    /// slot `i` resolves, points back, and sits strictly below in rank.
    pub open spec fn child_ok(self, i: int, k: int) -> bool {
        let c = self.widget_at(i).children@[k];
        &&& self.alive(c)
        &&& self.widget_at(c.index as int).parent == self.handle_at(i)
        &&& self.rank@[c.index as int] < self.rank@[i]
    }

    /// The well-formedness of one occupied slot: its node knows its own
    /// handle, every child edge is sound, children are distinct, and the
    /// parent back-reference is the inverse of some child edge.
    pub open spec fn wf_at(self, i: int) -> bool {
        &&& self.widget_at(i).handle == self.handle_at(i)
        &&& self.slots@[i].generation != invalid_generation()
        &&& forall|k: int|
            0 <= k < self.widget_at(i).children@.len() ==> #[trigger] self.child_ok(i, k)
        &&& forall|k1: int, k2: int|
            0 <= k1 < k2 < self.widget_at(i).children@.len() ==> self.widget_at(i).children@[k1]
                != self.widget_at(i).children@[k2]
        &&& (self.widget_at(i).parent.is_some_spec() ==> self.alive(self.widget_at(i).parent)
            && self.widget_at(self.widget_at(i).parent.index as int).children@.contains(
            self.handle_at(i),
        ))
        &&& self.rank@[i] < self.rank_bound@
    }

    /// The tree invariant every operation preserves.
    pub open spec fn wf(self) -> bool {
        forall|i: int| #[trigger] self.slot_alive(i) ==> self.wf_at(i)
    }

    /// An empty interface: no nodes, no pending messages.
    pub fn new() -> (ui: Ui)
        ensures
            ui.wf(),
            ui.n_slots() == 0,
            ui.queue@ == Seq::<UiMessage>::empty(),
    {
        Ui {
            slots: Vec::new(),
            queue: Vec::new(),
            rank: Ghost(Map::empty()),
            rank_bound: Ghost(0nat),
        }
    }

    /// Whether a handle still resolves to a node; a removed or stale
    /// handle is reported invalid rather than dereferenced.
    pub fn is_valid_handle(&self, h: NodeHandle) -> (r: bool)
        ensures
            r == self.alive(h),
    {
        if h.is_some() && (h.index as usize) < self.slots.len() {
            let slot = &self.slots[h.index as usize];
            slot.generation == h.generation && slot.node.is_some()
        } else {
            false
        }
    }

    /// Borrow the node a handle names.
    pub fn borrow(&self, h: NodeHandle) -> (r: &UiNode)
        requires
            self.alive(h),
        ensures
            *r == self.node_at(h.index as int),
    {
        match &self.slots[h.index as usize].node {
            Some(n) => n,
            None => vstd::pervasive::unreached(),
        }
    }

    /// Queue a message for the next dispatch cycle.
    pub fn send_message(&mut self, message: UiMessage)
        ensures
            final(self).queue@ == old(self).queue@.push(message),
            final(self).slots == old(self).slots,
            final(self).rank == old(self).rank,
            final(self).rank_bound == old(self).rank_bound,
    {
        self.queue.push(message);
    }

    /// Rewrite the parent back-reference of the node in slot `i`.
    fn set_parent_at(&mut self, i: usize, parent: NodeHandle)
        requires
            old(self).slot_alive(i as int),
        ensures
            final(self).slots@.len() == old(self).slots@.len(),
            forall|j: int|
                0 <= j < old(self).slots@.len() && j != i ==> final(self).slots@[j] == old(
                    self,
                ).slots@[j],
            final(self).slots@[i as int].generation == old(self).slots@[i as int].generation,
            final(self).slot_alive(i as int),
            final(self).node_at(i as int) == old(self).node_at(i as int).spec_with_widget(
                (Widget { parent, ..old(self).widget_at(i as int) }),
            ),
            final(self).queue == old(self).queue,
            final(self).rank == old(self).rank,
            final(self).rank_bound == old(self).rank_bound,
    {
        let slot = &mut self.slots[i];
        match &mut slot.node {
            Some(n) => {
                n.widget_mut().set_parent(parent);
            },
            None => {},
        }
    }

    /// Insert a node, adopting its listed children: the arena assigns a
    /// fresh handle (reusing a freed slot only under a new generation)
    /// and sets each child's parent back-reference. The children must
    /// already live in the arena as roots, so adoption cannot create a
    /// cycle.
    #[verifier::rlimit(100)]
    pub fn insert(&mut self, node: UiNode) -> (h: NodeHandle)
        requires
            old(self).wf(),
            old(self).n_slots() < u32::MAX as int,
            node.spec_widget().parent.is_none_spec(),
            forall|k: int|
                0 <= k < node.spec_widget().children@.len() ==> old(self).alive(
                    #[trigger] node.spec_widget().children@[k],
                ) && old(self).widget_at(
                    node.spec_widget().children@[k].index as int,
                ).parent.is_none_spec(),
            forall|k1: int, k2: int|
                0 <= k1 < k2 < node.spec_widget().children@.len()
                    ==> node.spec_widget().children@[k1] != node.spec_widget().children@[k2],
        ensures
            final(self).wf(),
            final(self).alive(h),
            !old(self).alive(h),
            (h.index as int) < final(self).n_slots(),
            old(self).n_slots() <= final(self).n_slots() <= old(self).n_slots() + 1,
            final(self).node_at(h.index as int) == node.spec_with_widget(
                (Widget { handle: h, ..node.spec_widget() }),
            ),
            forall|i: int|
                #[trigger] old(self).slot_alive(i) ==> final(self).slot_alive(i) && final(self).slots@[i].generation == old(self).slots@[i].generation && final(self).node_at(i)
                    == (if node.spec_widget().children@.contains(old(self).handle_at(i)) {
                    old(self).node_at(i).spec_with_widget(
                        (Widget { parent: h, ..old(self).widget_at(i) }),
                    )
                } else {
                    old(self).node_at(i)
                }),
            forall|x: NodeHandle| old(self).alive(x) ==> final(self).alive(x),
            forall|x: NodeHandle| final(self).alive(x) && x != h ==> old(self).alive(x),
            final(self).queue == old(self).queue,
    {
        let ghost pre = *self;

        let index = self.find_free_slot();
        let generation: u32;
        if index < self.slots.len() {
            generation = self.slots[index].generation + 1;
        } else {
            generation = 1;
            self.slots.push(Slot { generation: 1, node: None });
        }
        let h = NodeHandle::new(index as u32, generation);
        proof {
            // The chosen slot held no node before, so nothing alive sits there.
            assert(!pre.slot_alive(index as int));
            assert(forall|x: NodeHandle| pre.alive(x) ==> x.index != index as u32);
        }

        // Stamp the node with its identity and store it.
        let mut node = node;
        let children = crate::widget::copy_handles(node.widget().children());
        node.widget_mut().set_handle(h);
        let slot = &mut self.slots[index];
        slot.generation = generation;
        slot.node = Some(node);

        proof {
            self.rank@ = self.rank@.insert(index as int, self.rank_bound@);
            self.rank_bound@ = self.rank_bound@ + 1;
        }

        let ghost mid = *self;

        // Adopt the children: each becomes a child of the new node.
        let mut k: usize = 0;
        let m = children.len();
        while k < m
            invariant
                m == children@.len(),
                children@ == node.spec_widget().children@,
                k <= m,
                mid.slots@.len() == self.slots@.len(),
                pre.slots@.len() <= mid.slots@.len(),
                (index as int) < mid.slots@.len(),
                forall|j: int|
                    0 <= j < pre.slots@.len() && j != index as int ==> mid.slots@[j]
                        == pre.slots@[j],
                self.queue == mid.queue,
                self.rank == mid.rank,
                self.rank_bound == mid.rank_bound,
                forall|q: int|
                    0 <= q < m ==> pre.alive(#[trigger] children@[q]) && children@[q].index
                        != index as u32,
                forall|q1: int, q2: int|
                    0 <= q1 < q2 < m ==> children@[q1].index != children@[q2].index,
                forall|j: int|
                    0 <= j < self.slots@.len() && (forall|q: int|
                        0 <= q < k ==> (#[trigger] children@[q]).index != j) ==> self.slots@[j]
                        == mid.slots@[j],
                forall|q: int|
                    0 <= q < k ==> {
                        let ci = (#[trigger] children@[q]).index as int;
                        self.slot_alive(ci) && self.slots@[ci].generation
                            == mid.slots@[ci].generation && self.node_at(ci) == mid.node_at(
                            ci,
                        ).spec_with_widget((Widget { parent: h, ..mid.widget_at(ci) }))
                    },
            decreases m - k,
        {
            let c = children[k];
            proof {
                assert(pre.alive(c));
                assert(mid.slots@[c.index as int] == pre.slots@[c.index as int]);
                assert(self.slots@[c.index as int] == mid.slots@[c.index as int]);
                assert(self.slot_alive(c.index as int));
            }
            self.set_parent_at(c.index as usize, h);
            k += 1;
        }

        proof {
            lemma_insert_wf(pre, mid, *self, node, children@, h);
        }
        h
    }

    /// The index of a reusable freed slot, or the slot count when every
    /// slot is occupied or exhausted.
    fn find_free_slot(&self) -> (r: usize)
        ensures
            r <= self.slots@.len(),
            r < self.slots@.len() ==> self.slots@[r as int].node is None && self.slots@[
                r as int
            ].generation < u32::MAX,
    {
        let mut i: usize = 0;
        let n = self.slots.len();
        while i < n
            invariant
                n == self.slots@.len(),
                i <= n,
            decreases n - i,
        {
            if self.slots[i].node.is_none() && self.slots[i].generation < u32::MAX {
                return i;
            }
            i += 1;
        }
        n
    }
}


/// After an insertion, the tree invariant still holds: the new node's
/// edges are sound by construction, and every old node kept its edges.
#[verifier::rlimit(100)]
#[verifier::spinoff_prover]
proof fn lemma_insert_wf(pre: Ui, mid: Ui, post: Ui, node: UiNode, children: Seq<NodeHandle>, h: NodeHandle)
    requires
        pre.wf(),
        pre.n_slots() < u32::MAX as int,
        node.spec_widget().parent.is_none_spec(),
        children == node.spec_widget().children@,
        forall|k: int|
            0 <= k < children.len() ==> pre.alive(#[trigger] children[k]) && pre.widget_at(
                children[k].index as int,
            ).parent.is_none_spec(),
        forall|k1: int, k2: int|
            0 <= k1 < k2 < children.len() ==> children[k1] != children[k2],
        // how mid arose from pre
        h.index < mid.n_slots(),
        !pre.slot_alive(h.index as int),
        mid.n_slots() == (if (h.index as int) < pre.n_slots() {
            pre.n_slots()
        } else {
            pre.n_slots() + 1
        }),
        (h.index as int) < pre.n_slots() ==> h.generation == pre.slots@[h.index as int].generation
            + 1,
        h.generation != invalid_generation(),
        forall|j: int|
            0 <= j < pre.n_slots() && j != h.index as int ==> mid.slots@[j] == pre.slots@[j],
        mid.slots@[h.index as int].generation == h.generation,
        mid.slot_alive(h.index as int),
        mid.node_at(h.index as int) == node.spec_with_widget(
            (Widget { handle: h, ..node.spec_widget() }),
        ),
        mid.rank@ == pre.rank@.insert(h.index as int, pre.rank_bound@),
        mid.rank_bound@ == pre.rank_bound@ + 1,
        // how post arose from mid
        post.n_slots() == mid.n_slots(),
        post.rank == mid.rank,
        post.rank_bound == mid.rank_bound,
        forall|j: int|
            0 <= j < post.n_slots() && (forall|q: int|
                0 <= q < children.len() ==> (#[trigger] children[q]).index != j) ==> post.slots@[j]
                == mid.slots@[j],
        forall|q: int|
            0 <= q < children.len() ==> {
                let ci = (#[trigger] children[q]).index as int;
                post.slot_alive(ci) && post.slots@[ci].generation == mid.slots@[ci].generation
                    && post.node_at(ci) == mid.node_at(ci).spec_with_widget(
                    (Widget { parent: h, ..mid.widget_at(ci) }),
                )
            },
    ensures
        post.wf(),
        post.alive(h),
        post.node_at(h.index as int) == node.spec_with_widget(
            (Widget { handle: h, ..node.spec_widget() }),
        ),
        forall|i: int|
            #[trigger] pre.slot_alive(i) ==> post.slot_alive(i) && post.slots@[i].generation
                == pre.slots@[i].generation && post.node_at(i) == (if children.contains(
                pre.handle_at(i),
            ) {
                pre.node_at(i).spec_with_widget((Widget { parent: h, ..pre.widget_at(i) }))
            } else {
                pre.node_at(i)
            }),
        forall|x: NodeHandle| pre.alive(x) ==> post.alive(x),
        forall|x: NodeHandle| post.alive(x) && x != h ==> pre.alive(x),
{
    let hi = h.index as int;
    // Children occupy pairwise distinct slots, all different from h's.
    assert(forall|q: int| 0 <= q < children.len() ==> (#[trigger] children[q]).index != h.index) by {
        assert forall|q: int| 0 <= q < children.len() implies (#[trigger] children[q]).index
            != h.index by {
            assert(pre.alive(children[q]));
        }
    }
    assert forall|q1: int, q2: int|
        0 <= q1 < children.len() && 0 <= q2 < children.len() && q1 != q2 implies (#[trigger]
    children[q1]).index != (#[trigger] children[q2]).index by {
        if children[q1].index == children[q2].index {
            assert(pre.alive(children[q1]) && pre.alive(children[q2]));
            assert(children[q1].generation == pre.slots@[children[q1].index as int].generation);
            assert(children[q2].generation == pre.slots@[children[q2].index as int].generation);
            assert(children[q1] == children[q2]);
        }
    }

    // The per-slot shape of post relative to pre.
    assert forall|i: int| #[trigger] pre.slot_alive(i) implies post.slot_alive(i)
        && post.slots@[i].generation == pre.slots@[i].generation && post.node_at(i) == (
    if children.contains(pre.handle_at(i)) {
        pre.node_at(i).spec_with_widget((Widget { parent: h, ..pre.widget_at(i) }))
    } else {
        pre.node_at(i)
    }) by {
        assert(i != hi);
        assert(mid.slots@[i] == pre.slots@[i]);
        if exists|q: int| 0 <= q < children.len() && (#[trigger] children[q]).index == i {
            let q = choose|q: int|
                0 <= q < children.len() && (#[trigger] children[q]).index == i;
            assert(pre.alive(children[q]));
            assert(children[q] == pre.handle_at(i));
            assert(children.contains(pre.handle_at(i)));
            assert(post.node_at(i) == mid.node_at(i).spec_with_widget(
                (Widget { parent: h, ..mid.widget_at(i) }),
            ));
        } else {
            assert(post.slots@[i] == mid.slots@[i]);
            if children.contains(pre.handle_at(i)) {
                let q = choose|q: int|
                    0 <= q < children.len() && children[q] == pre.handle_at(i);
                assert((children[q]).index == i);
                assert(false);
            }
        }
    }

    assert(post.alive(h));
    assert(post.node_at(hi) == node.spec_with_widget(
        (Widget { handle: h, ..node.spec_widget() }),
    )) by {
        assert(forall|q: int|
            0 <= q < children.len() ==> (#[trigger] children[q]).index != hi);
        assert(post.slots@[hi] == mid.slots@[hi]);
    }

    // Alive-set relations.
    assert forall|x: NodeHandle| pre.alive(x) implies post.alive(x) by {
        assert(pre.slot_alive(x.index as int));
    }
    assert forall|x: NodeHandle| post.alive(x) && x != h implies pre.alive(x) by {
        if x.index as int == hi {
            assert(post.slots@[hi].generation == h.generation);
            assert(false);
        } else {
            assert((x.index as int) < post.n_slots());
            if x.index as int >= pre.n_slots() {
                assert(false);
            }
            if !pre.slot_alive(x.index as int) {
                assert(forall|q: int|
                    0 <= q < children.len() ==> (#[trigger] children[q]).index
                        != x.index as int || pre.slot_alive(children[q].index as int));
                assert(post.slots@[x.index as int] == mid.slots@[x.index as int]);
                assert(false);
            }
        }
    }

    lemma_insert_wf_slots(pre, mid, post, node, children, h);
}

/// The per-slot half of the insertion proof: every occupied slot of the
/// post state is well formed.
#[verifier::rlimit(100)]
#[verifier::spinoff_prover]
proof fn lemma_insert_wf_slots(pre: Ui, mid: Ui, post: Ui, node: UiNode, children: Seq<NodeHandle>, h: NodeHandle)
    requires
        pre.wf(),
        pre.n_slots() < u32::MAX as int,
        node.spec_widget().parent.is_none_spec(),
        children == node.spec_widget().children@,
        forall|k: int|
            0 <= k < children.len() ==> pre.alive(#[trigger] children[k]) && pre.widget_at(
                children[k].index as int,
            ).parent.is_none_spec(),
        forall|k1: int, k2: int|
            0 <= k1 < k2 < children.len() ==> children[k1] != children[k2],
        h.index < mid.n_slots(),
        !pre.slot_alive(h.index as int),
        mid.n_slots() == (if (h.index as int) < pre.n_slots() {
            pre.n_slots()
        } else {
            pre.n_slots() + 1
        }),
        (h.index as int) < pre.n_slots() ==> h.generation == pre.slots@[h.index as int].generation
            + 1,
        h.generation != invalid_generation(),
        forall|j: int|
            0 <= j < pre.n_slots() && j != h.index as int ==> mid.slots@[j] == pre.slots@[j],
        mid.slots@[h.index as int].generation == h.generation,
        mid.slot_alive(h.index as int),
        mid.node_at(h.index as int) == node.spec_with_widget(
            (Widget { handle: h, ..node.spec_widget() }),
        ),
        mid.rank@ == pre.rank@.insert(h.index as int, pre.rank_bound@),
        mid.rank_bound@ == pre.rank_bound@ + 1,
        post.n_slots() == mid.n_slots(),
        post.rank == mid.rank,
        post.rank_bound == mid.rank_bound,
        forall|j: int|
            0 <= j < post.n_slots() && (forall|q: int|
                0 <= q < children.len() ==> (#[trigger] children[q]).index != j) ==> post.slots@[j]
                == mid.slots@[j],
        forall|q: int|
            0 <= q < children.len() ==> {
                let ci = (#[trigger] children[q]).index as int;
                post.slot_alive(ci) && post.slots@[ci].generation == mid.slots@[ci].generation
                    && post.node_at(ci) == mid.node_at(ci).spec_with_widget(
                    (Widget { parent: h, ..mid.widget_at(ci) }),
                )
            },
    ensures
        post.wf(),
{
    let hi = h.index as int;
    assert(forall|q: int| 0 <= q < children.len() ==> (#[trigger] children[q]).index != h.index) by {
        assert forall|q: int| 0 <= q < children.len() implies (#[trigger] children[q]).index
            != h.index by {
            assert(pre.alive(children[q]));
        }
    }
    assert(post.slots@[hi] == mid.slots@[hi]);
    assert(post.alive(h));
    assert(post.widget_at(hi).children@ == children);

    // Well-formedness of every occupied slot.
    assert forall|i: int| #[trigger] post.slot_alive(i) implies post.wf_at(i) by {
        if i == hi {
            let w = post.widget_at(i);
            assert(w.handle == post.handle_at(i));
            assert(w.children@ == children);
            assert forall|k: int| 0 <= k < w.children@.len() implies #[trigger] post.child_ok(
                i,
                k,
            ) by {
                let c = children[k];
                assert(pre.alive(c));
                assert(pre.slot_alive(c.index as int));
                assert(post.slots@[c.index as int].generation == pre.slots@[
                    c.index as int].generation);
                assert(post.alive(c));
                assert(post.widget_at(c.index as int).parent == h);
                assert(pre.wf_at(c.index as int));
                assert(post.rank@[c.index as int] == pre.rank@[c.index as int]);
                assert(pre.rank@[c.index as int] < pre.rank_bound@);
                assert(post.rank@[i] == pre.rank_bound@);
            }
            assert(w.parent.is_none_spec());
            assert(post.rank@[i] < post.rank_bound@);
        } else {
            assert(pre.slot_alive(i));
            assert(pre.wf_at(i));
            let w = post.widget_at(i);
            let wp = pre.widget_at(i);
            assert(w.children@ == wp.children@);
            assert(w.handle == wp.handle);
            assert(post.handle_at(i) == pre.handle_at(i));
            assert(post.rank@[i] == pre.rank@[i]);
            assert forall|k: int| 0 <= k < w.children@.len() implies #[trigger] post.child_ok(
                i,
                k,
            ) by {
                assert(pre.child_ok(i, k));
                let c = wp.children@[k];
                assert(pre.alive(c));
                assert(pre.slot_alive(c.index as int));
                // the child was no adoptee: its parent was already set
                assert(pre.widget_at(c.index as int).parent == pre.handle_at(i));
                assert(pre.handle_at(i).is_some_spec()) by {
                    assert(pre.slots@[i].generation != invalid_generation());
                }
                if children.contains(c) {
                    let q = choose|q: int| 0 <= q < children.len() && children[q] == c;
                    assert(pre.widget_at(children[q].index as int).parent.is_none_spec());
                    assert(false);
                }
                assert forall|q: int| 0 <= q < children.len() implies (#[trigger] children[q]).index
                    != c.index by {
                    if children[q].index == c.index {
                        assert(pre.alive(children[q]));
                        assert(children[q] == c);
                        assert(children.contains(c));
                        assert(pre.widget_at(c.index as int).parent.is_none_spec());
                        assert(false);
                    }
                }
                assert(c.index as int != hi);
                assert(mid.slots@[c.index as int] == pre.slots@[c.index as int]);
                assert(post.slots@[c.index as int] == mid.slots@[c.index as int]);
                assert(post.slots@[c.index as int].generation == pre.slots@[
                    c.index as int].generation);
                assert(post.node_at(c.index as int) == pre.node_at(c.index as int));
                assert(post.alive(c));
                assert(post.rank@[c.index as int] == pre.rank@[c.index as int]);
            }
            if w.parent.is_some_spec() {
                if children.contains(pre.handle_at(i)) {
                    assert(w.parent == h);
                    assert(post.alive(h));
                    assert(post.widget_at(hi).children@ == children);
                    assert(post.handle_at(i) == pre.handle_at(i));
                    assert(post.widget_at(hi).children@.contains(post.handle_at(i)));
                } else {
                    assert(wp.parent == w.parent);
                    assert(pre.alive(wp.parent));
                    let pi = wp.parent.index as int;
                    assert(pre.slot_alive(pi));
                    assert(post.slot_alive(pi));
                    assert(post.slots@[pi].generation == pre.slots@[pi].generation);
                    assert(post.widget_at(pi).children@ == pre.widget_at(pi).children@);
                    assert(post.alive(w.parent));
                    assert(pre.widget_at(pi).children@.contains(pre.handle_at(i)));
                    assert(post.handle_at(i) == pre.handle_at(i));
                }
            }
            assert(post.rank@[i] == pre.rank@[i]);
            assert(pre.rank@[i] < pre.rank_bound@);
            assert(post.rank@[i] < post.rank_bound@);
        }
    }
}

impl Ui {
    /// Whether `target` names a node inside the subtree rooted in slot
    /// `i`, the root itself included: it is the root's own handle, or
    /// some child's subtree holds it.
    pub open spec fn subtree_contains(self, i: int, target: NodeHandle) -> bool
        decreases self.rank@[i], self.widget_at(i).children@.len() + 1,
            when self.wf() && self.slot_alive(i)
    {
        target == self.handle_at(i) || self.subtree_scan(i, 0, target)
    }

    /// Whether some child of slot `i` at position `k` or later has
    /// `target` in its subtree.
    pub open spec fn subtree_scan(self, i: int, k: int, target: NodeHandle) -> bool
        decreases self.rank@[i], self.widget_at(i).children@.len() - k,
            when self.wf() && self.slot_alive(i) && 0 <= k
            via Self::subtree_scan_decreases
    {
        if k >= self.widget_at(i).children@.len() {
            false
        } else {
            let c = self.widget_at(i).children@[k];
            self.subtree_contains(c.index as int, target) || self.subtree_scan(i, k + 1, target)
        }
    }

    #[via_fn]
    proof fn subtree_scan_decreases(self, i: int, k: int, target: NodeHandle) {
        lemma_children_rank(self, i);
        if k < self.widget_at(i).children@.len() {
            assert(self.child_ok(i, k));
        }
    }

    /// The first ancestor of `p` (inclusive) satisfying the criterion,
    /// or the null handle once the walk leaves the tree at a root.
    pub open spec fn spec_find_up(self, p: NodeHandle, c: crate::node::Criterion) -> NodeHandle
        decreases self.rank_bound@ - self.rank@[p.index as int],
            when self.wf() && (p.is_some_spec() ==> self.alive(p))
    {
        if p.is_some_spec() {
            if crate::node::criterion_holds(c, self.node_at(p.index as int)) {
                p
            } else {
                let par = self.widget_at(p.index as int).parent;
                if par.is_some_spec() {
                    proof {
                        lemma_parent_rank(self, p);
                    }
                    self.spec_find_up(par, c)
                } else {
                    NodeHandle { index: 0u32, generation: 0u32 }
                }
            }
        } else {
            NodeHandle { index: 0u32, generation: 0u32 }
        }
    }
}

/// Every child of an occupied slot sits strictly below it in rank.
pub proof fn lemma_children_rank(ui: Ui, i: int)
    requires
        ui.wf(),
        ui.slot_alive(i),
    ensures
        forall|k: int|
            0 <= k < ui.widget_at(i).children@.len() ==> ui.alive(
                #[trigger] ui.widget_at(i).children@[k],
            ) && ui.slot_alive(ui.widget_at(i).children@[k].index as int) && ui.rank@[ui.widget_at(
                i,
            ).children@[k].index as int] < ui.rank@[i],
{
    assert(ui.wf_at(i));
    assert forall|k: int| 0 <= k < ui.widget_at(i).children@.len() implies ui.alive(
        #[trigger] ui.widget_at(i).children@[k],
    ) && ui.slot_alive(ui.widget_at(i).children@[k].index as int) && ui.rank@[ui.widget_at(
        i,
    ).children@[k].index as int] < ui.rank@[i] by {
        assert(ui.child_ok(i, k));
    }
}

/// The parent of an occupied slot sits strictly above it in rank, and
/// every rank lies below the bound.
pub proof fn lemma_parent_rank(ui: Ui, p: NodeHandle)
    requires
        ui.wf(),
        ui.alive(p),
        ui.widget_at(p.index as int).parent.is_some_spec(),
    ensures
        ui.alive(ui.widget_at(p.index as int).parent),
        ui.rank@[p.index as int] < ui.rank@[ui.widget_at(p.index as int).parent.index as int],
        ui.rank@[ui.widget_at(p.index as int).parent.index as int] < ui.rank_bound@,
        ui.rank@[p.index as int] < ui.rank_bound@,
{
    let i = p.index as int;
    assert(ui.slot_alive(i));
    assert(ui.wf_at(i));
    let par = ui.widget_at(i).parent;
    assert(ui.alive(par));
    let pi = par.index as int;
    assert(ui.slot_alive(pi));
    assert(ui.wf_at(pi));
    assert(ui.handle_at(i) == p);
    assert(ui.widget_at(pi).children@.contains(p));
    let k = choose|k: int| 0 <= k < ui.widget_at(pi).children@.len() && ui.widget_at(pi).children@[k] == p;
    assert(ui.child_ok(pi, k));
}

impl Widget {
    /// Depth-first search: whether `node_handle` occurs anywhere below
    /// this widget. Used to validate tree relationships, for instance to
    /// keep a drop target from being its own descendant.
    pub fn has_descendant(&self, node_handle: NodeHandle, ui: &Ui) -> (r: bool)
        requires
            ui.wf(),
            ui.alive(self.handle),
            ui.widget_at(self.handle.index as int) == *self,
        ensures
            r == ui.subtree_scan(self.handle.index as int, 0, node_handle),
        decreases ui.rank@[self.handle.index as int],
    {
        proof {
            lemma_children_rank(*ui, self.handle.index as int);
        }
        let ghost hi = self.handle.index as int;
        let n = self.children.len();
        let mut i: usize = 0;
        while i < n
            invariant
                ui.wf(),
                ui.alive(self.handle),
                ui.widget_at(self.handle.index as int) == *self,
                hi == self.handle.index as int,
                n == self.children@.len(),
                i <= n,
                ui.subtree_scan(hi, 0, node_handle) == ui.subtree_scan(hi, i as int, node_handle),
            decreases n - i,
        {
            let child_handle = self.children[i];
            proof {
                lemma_children_rank(*ui, self.handle.index as int);
                assert(ui.alive(child_handle));
            }
            let ghost ci = child_handle.index as int;
            if child_handle == node_handle {
                proof {
                    assert(ui.handle_at(ci) == child_handle);
                    assert(ui.subtree_contains(ci, node_handle));
                    assert(ui.subtree_scan(hi, i as int, node_handle));
                }
                return true;
            }
            let child = ui.borrow(child_handle);
            proof {
                assert(ui.wf_at(ci));
            }
            let result = child.widget().has_descendant(node_handle, ui);
            proof {
                assert(ui.widget_at(ci) == child.spec_widget());
                assert(ui.handle_at(ci) == child_handle);
                assert(ui.subtree_contains(ci, node_handle) == (node_handle == child_handle
                    || ui.subtree_scan(ci, 0, node_handle)));
            }
            if result {
                proof {
                    assert(ui.subtree_scan(hi, i as int, node_handle));
                }
                return true;
            }
            proof {
                assert(!ui.subtree_contains(ci, node_handle));
                assert(ui.subtree_scan(hi, i as int, node_handle) == ui.subtree_scan(
                    hi,
                    i + 1,
                    node_handle,
                ));
            }
            i += 1;
        }
        false
    }

    /// Walk the parent chain upward from this widget's parent and return
    /// the first ancestor satisfying the criterion, or the null handle
    /// when none does.
    pub fn find_by_criteria_up(&self, ui: &Ui, criterion: &crate::node::Criterion) -> (r:
        NodeHandle)
        requires
            ui.wf(),
            self.parent.is_some_spec() ==> ui.alive(self.parent),
        ensures
            r == ui.spec_find_up(self.parent, *criterion),
    {
        let mut parent_handle = self.parent;
        while parent_handle.is_some()
            invariant
                ui.wf(),
                parent_handle.is_some_spec() ==> ui.alive(parent_handle),
                ui.spec_find_up(self.parent, *criterion) == ui.spec_find_up(
                    parent_handle,
                    *criterion,
                ),
            decreases (if parent_handle.is_some_spec() {
                ui.rank_bound@ - ui.rank@[parent_handle.index as int]
            } else {
                0int
            }),
        {
            let parent_node = ui.borrow(parent_handle);
            if crate::node::criterion_matches(criterion, parent_node) {
                return parent_handle;
            }
            proof {
                if parent_node.spec_widget().parent.is_some_spec() {
                    lemma_parent_rank(*ui, parent_handle);
                } else {
                    assert(ui.slot_alive(parent_handle.index as int));
                    assert(ui.wf_at(parent_handle.index as int));
                    assert(ui.rank@[parent_handle.index as int] < ui.rank_bound@);
                }
            }
            parent_handle = parent_node.widget().parent();
        }
        NodeHandle::none()
    }
}

/// A routed message changes no tree link: whatever field it overwrites,
/// the widget keeps its handle, parent and child list.
pub proof fn lemma_routed_keeps_links(w: Widget, m: UiMessage)
    ensures
        spec_after_routed_message(w, m).handle == w.handle,
        spec_after_routed_message(w, m).parent == w.parent,
        spec_after_routed_message(w, m).children == w.children,
{
}

/// Routing one message through some nodes preserves the tree invariant.
pub proof fn lemma_routed_wf(pre: Ui, post: Ui, m: UiMessage)
    requires
        pre.wf(),
        post.n_slots() == pre.n_slots(),
        post.rank == pre.rank,
        post.rank_bound == pre.rank_bound,
        forall|i: int|
            0 <= i < pre.n_slots() ==> post.slots@[i].generation == pre.slots@[i].generation && (
            pre.slot_alive(i) <==> post.slot_alive(i)),
        forall|i: int|
            #[trigger] pre.slot_alive(i) ==> post.node_at(i) == pre.node_at(i) || post.node_at(i)
                == pre.node_at(i).spec_after_routed(m),
    ensures
        post.wf(),
{
    assert forall|i: int| #[trigger] post.slot_alive(i) implies post.wf_at(i) by {
        assert(pre.slot_alive(i));
        assert(pre.wf_at(i));
        lemma_routed_keeps_links(pre.widget_at(i), m);
        assert(post.widget_at(i).handle == pre.widget_at(i).handle);
        assert(post.widget_at(i).parent == pre.widget_at(i).parent);
        assert(post.widget_at(i).children == pre.widget_at(i).children);
        assert(post.handle_at(i) == pre.handle_at(i));
        assert forall|k: int| 0 <= k < post.widget_at(i).children@.len() implies #[trigger]
        post.child_ok(i, k) by {
            assert(pre.child_ok(i, k));
            let c = pre.widget_at(i).children@[k];
            assert(pre.slot_alive(c.index as int));
            lemma_routed_keeps_links(pre.widget_at(c.index as int), m);
            assert(post.widget_at(c.index as int).parent == pre.widget_at(c.index as int).parent);
            assert(post.alive(c));
        }
        if post.widget_at(i).parent.is_some_spec() {
            let p = pre.widget_at(i).parent;
            assert(pre.alive(p));
            assert(pre.slot_alive(p.index as int));
            lemma_routed_keeps_links(pre.widget_at(p.index as int), m);
            assert(post.widget_at(p.index as int).children == pre.widget_at(
                p.index as int,
            ).children);
            assert(post.alive(p));
        }
    }
}

impl Ui {
    /// Hand a message to the node a handle names and queue whatever the
    /// node emits in response, to be dispatched in the same cycle. The
    /// caller routes: the original bubbles each message from its
    /// destination through the ancestor chain by delivering to each.
    pub fn deliver(&mut self, h: NodeHandle, message: &UiMessage)
        requires
            old(self).wf(),
            old(self).alive(h),
        ensures
            final(self).wf(),
            final(self).n_slots() == old(self).n_slots(),
            final(self).rank == old(self).rank,
            final(self).rank_bound == old(self).rank_bound,
            forall|i: int|
                0 <= i < old(self).n_slots() ==> final(self).slots@[i].generation == old(
                    self).slots@[i].generation && (old(self).slot_alive(i) <==> final(
                    self).slot_alive(i)),
            final(self).node_at(h.index as int) == old(self).node_at(
                h.index as int).spec_after_routed(*message),
            forall|i: int|
                #[trigger] old(self).slot_alive(i) && i != h.index as int ==> final(self).node_at(
                    i) == old(self).node_at(i),
            final(self).queue@ == old(self).queue@ + old(self).node_at(
                h.index as int,
            ).spec_emitted(*message),
            forall|j: int|
                old(self).queue@.len() <= j < final(self).queue@.len() ==> !(#[trigger] final(
                    self).queue@[j]).is_click(),
    {
        let ghost pre = *self;
        let i = h.index as usize;
        let emitted;
        {
            let slot = &mut self.slots[i];
            match &mut slot.node {
                Some(n) => {
                    emitted = n.handle_routed_message(message);
                },
                None => {
                    emitted = Vec::new();
                },
            }
        }
        let ghost mid = *self;
        let mut emitted = emitted;
        let m = emitted.len();
        let mut k: usize = 0;
        while k < m
            invariant
                m == pre.node_at(h.index as int).spec_emitted(*message).len(),
                k <= m,
                emitted@ == pre.node_at(h.index as int).spec_emitted(*message).subrange(
                    k as int,
                    m as int,
                ),
                self.slots == mid.slots,
                self.rank == mid.rank,
                self.rank_bound == mid.rank_bound,
                self.queue@ == pre.queue@ + pre.node_at(h.index as int).spec_emitted(
                    *message,
                ).subrange(0, k as int),
                forall|j: int|
                    0 <= j < m ==> !(#[trigger] pre.node_at(h.index as int).spec_emitted(
                        *message,
                    )[j]).is_click(),
            decreases m - k,
        {
            let msg = emitted.remove(0);
            self.queue.push(msg);
            k += 1;
            proof {
                assert(self.queue@ =~= pre.queue@ + pre.node_at(h.index as int).spec_emitted(
                    *message,
                ).subrange(0, k as int));
                assert(emitted@ =~= pre.node_at(h.index as int).spec_emitted(*message).subrange(
                    k as int,
                    m as int,
                ));
            }
        }
        proof {
            assert(self.queue@ =~= pre.queue@ + pre.node_at(h.index as int).spec_emitted(
                *message,
            ));
            lemma_routed_wf(pre, *self, *message);
        }
    }

    /// Empty the pending-message queue and hand its contents over, in
    /// dispatch order, so a dispatch cycle can process emissions within
    /// the same cycle.
    pub fn take_queue(&mut self) -> (msgs: Vec<UiMessage>)
        ensures
            msgs@ == old(self).queue@,
            final(self).queue@ == Seq::<UiMessage>::empty(),
            final(self).slots == old(self).slots,
            final(self).rank == old(self).rank,
            final(self).rank_bound == old(self).rank_bound,
    {
        let mut taken: Vec<UiMessage> = Vec::new();
        std::mem::swap(&mut taken, &mut self.queue);
        taken
    }

    /// Rewrite the local visibility flag of the node in slot `i`.
    pub(crate) fn set_visibility_at(&mut self, i: usize, visibility: bool)
        requires
            old(self).slot_alive(i as int),
        ensures
            final(self).slots@.len() == old(self).slots@.len(),
            forall|j: int|
                0 <= j < old(self).slots@.len() && j != i ==> final(self).slots@[j] == old(
                    self,
                ).slots@[j],
            final(self).slots@[i as int].generation == old(self).slots@[i as int].generation,
            final(self).slot_alive(i as int),
            final(self).node_at(i as int) == old(self).node_at(i as int).spec_with_widget(
                (Widget { visibility, ..old(self).widget_at(i as int) }),
            ),
            final(self).queue == old(self).queue,
            final(self).rank == old(self).rank,
            final(self).rank_bound == old(self).rank_bound,
    {
        let slot = &mut self.slots[i];
        match &mut slot.node {
            Some(n) => {
                n.widget_mut().set_visibility(visibility);
            },
            None => {},
        }
    }
}

/// The fields the measure pass may rewrite; everything else of the
/// widget is carried over from `a`.
pub open spec fn measure_patch(a: Widget, b: Widget) -> Widget {
    Widget {
        desired_size: b.desired_size,
        prev_measure: b.prev_measure,
        measure_valid: b.measure_valid,
        ..a
    }
}

/// The fields the arrange pass may rewrite; everything else of the
/// widget is carried over from `a`.
pub open spec fn arrange_patch(a: Widget, b: Widget) -> Widget {
    Widget {
        actual_local_position: b.actual_local_position,
        actual_size: b.actual_size,
        prev_arrange: b.prev_arrange,
        arrange_valid: b.arrange_valid,
        screen_position: b.screen_position,
        global_visibility: b.global_visibility,
        prev_global_visibility: b.prev_global_visibility,
        ..a
    }
}

/// What the measure pass leaves untouched: the arena's shape and every
/// widget field outside the measure cache.
pub open spec fn measure_frame(a: Ui, b: Ui) -> bool {
    &&& b.slots@.len() == a.slots@.len()
    &&& b.rank == a.rank
    &&& b.rank_bound == a.rank_bound
    &&& b.queue == a.queue
    &&& forall|i: int|
        0 <= i < a.slots@.len() ==> (#[trigger] b.slots@[i]).generation == a.slots@[i].generation
            && (b.slots@[i].node is Some <==> a.slots@[i].node is Some)
    &&& forall|i: int|
        #[trigger] a.slot_alive(i) ==> b.node_at(i) == a.node_at(i).spec_with_widget(
            measure_patch(a.widget_at(i), b.widget_at(i)),
        )
}

/// What the arrange pass leaves untouched.
pub open spec fn arrange_frame(a: Ui, b: Ui) -> bool {
    &&& b.slots@.len() == a.slots@.len()
    &&& b.rank == a.rank
    &&& b.rank_bound == a.rank_bound
    &&& b.queue == a.queue
    &&& forall|i: int|
        0 <= i < a.slots@.len() ==> (#[trigger] b.slots@[i]).generation == a.slots@[i].generation
            && (b.slots@[i].node is Some <==> a.slots@[i].node is Some)
    &&& forall|i: int|
        #[trigger] a.slot_alive(i) ==> b.node_at(i) == a.node_at(i).spec_with_widget(
            arrange_patch(a.widget_at(i), b.widget_at(i)),
        )
}

/// The measure frame composes across successive steps of the pass.
pub proof fn lemma_measure_frame_trans(a: Ui, b: Ui, c: Ui)
    requires
        measure_frame(a, b),
        measure_frame(b, c),
    ensures
        measure_frame(a, c),
{
    assert forall|i: int| #[trigger] a.slot_alive(i) implies c.node_at(i) == a.node_at(
        i,
    ).spec_with_widget(measure_patch(a.widget_at(i), c.widget_at(i))) by {
        assert(b.slot_alive(i));
        assert(b.node_at(i) == a.node_at(i).spec_with_widget(
            measure_patch(a.widget_at(i), b.widget_at(i)),
        ));
        assert(c.node_at(i) == b.node_at(i).spec_with_widget(
            measure_patch(b.widget_at(i), c.widget_at(i)),
        ));
    }
}

/// The arrange frame composes across successive steps of the pass.
pub proof fn lemma_arrange_frame_trans(a: Ui, b: Ui, c: Ui)
    requires
        arrange_frame(a, b),
        arrange_frame(b, c),
    ensures
        arrange_frame(a, c),
{
    assert forall|i: int| #[trigger] a.slot_alive(i) implies c.node_at(i) == a.node_at(
        i,
    ).spec_with_widget(arrange_patch(a.widget_at(i), c.widget_at(i))) by {
        assert(b.slot_alive(i));
        assert(b.node_at(i) == a.node_at(i).spec_with_widget(
            arrange_patch(a.widget_at(i), b.widget_at(i)),
        ));
        assert(c.node_at(i) == b.node_at(i).spec_with_widget(
            arrange_patch(b.widget_at(i), c.widget_at(i)),
        ));
    }
}

/// Any change that keeps every node's handle, parent and child list
/// keeps the tree invariant.
pub proof fn lemma_links_wf(pre: Ui, post: Ui)
    requires
        pre.wf(),
        post.n_slots() == pre.n_slots(),
        post.rank == pre.rank,
        post.rank_bound == pre.rank_bound,
        forall|i: int|
            0 <= i < pre.n_slots() ==> (#[trigger] post.slots@[i]).generation == pre.slots@[
                i
            ].generation && (post.slots@[i].node is Some <==> pre.slots@[i].node is Some),
        forall|i: int|
            #[trigger] pre.slot_alive(i) ==> post.widget_at(i).handle == pre.widget_at(i).handle
                && post.widget_at(i).parent == pre.widget_at(i).parent && post.widget_at(
                i,
            ).children@ == pre.widget_at(i).children@,
    ensures
        post.wf(),
{
    assert forall|i: int| #[trigger] post.slot_alive(i) implies post.wf_at(i) by {
        assert(pre.slot_alive(i));
        assert(pre.wf_at(i));
        assert(post.handle_at(i) == pre.handle_at(i));
        assert forall|k: int| 0 <= k < post.widget_at(i).children@.len() implies #[trigger]
        post.child_ok(i, k) by {
            assert(pre.child_ok(i, k));
            let c = pre.widget_at(i).children@[k];
            assert(pre.slot_alive(c.index as int));
            assert(post.widget_at(c.index as int).parent == pre.widget_at(c.index as int).parent);
            assert(post.alive(c));
        }
        if post.widget_at(i).parent.is_some_spec() {
            let p = pre.widget_at(i).parent;
            assert(pre.alive(p));
            assert(pre.slot_alive(p.index as int));
            assert(post.widget_at(p.index as int).children@ == pre.widget_at(
                p.index as int,
            ).children@);
            assert(post.alive(p));
        }
    }
}

/// A state frames against itself under the measure pass.
pub proof fn lemma_measure_frame_refl(a: Ui)
    ensures
        measure_frame(a, a),
{
    assert forall|i: int| #[trigger] a.slot_alive(i) implies a.node_at(i) == a.node_at(
        i,
    ).spec_with_widget(measure_patch(a.widget_at(i), a.widget_at(i))) by {
        let w = a.widget_at(i);
        assert(measure_patch(w, w) == w);
        assert(a.node_at(i).spec_with_widget(w) == a.node_at(i));
    }
}

/// A state frames against itself under the arrange pass.
pub proof fn lemma_arrange_frame_refl(a: Ui)
    ensures
        arrange_frame(a, a),
{
    assert forall|i: int| #[trigger] a.slot_alive(i) implies a.node_at(i) == a.node_at(
        i,
    ).spec_with_widget(arrange_patch(a.widget_at(i), a.widget_at(i))) by {
        let w = a.widget_at(i);
        assert(arrange_patch(w, w) == w);
        assert(a.node_at(i).spec_with_widget(w) == a.node_at(i));
    }
}

/// Rewriting one slot's measure cache is a step of the measure frame.
proof fn lemma_commit_measure_frame(a: Ui, b: Ui, i: int, avail: Size, desired: Size)
    requires
        a.slot_alive(i),
        b.slots@.len() == a.slots@.len(),
        forall|j: int| 0 <= j < a.slots@.len() && j != i ==> b.slots@[j] == a.slots@[j],
        b.slots@[i].generation == a.slots@[i].generation,
        b.slot_alive(i),
        b.node_at(i) == a.node_at(i).spec_with_widget(
            (Widget {
                desired_size: desired,
                prev_measure: avail,
                measure_valid: true,
                ..a.widget_at(i)
            }),
        ),
        b.queue == a.queue,
        b.rank == a.rank,
        b.rank_bound == a.rank_bound,
    ensures
        measure_frame(a, b),
{
    assert forall|j: int|
        0 <= j < a.slots@.len() implies (#[trigger] b.slots@[j]).generation == a.slots@[
        j
    ].generation && (b.slots@[j].node is Some <==> a.slots@[j].node is Some) by {
        if j != i {
            assert(b.slots@[j] == a.slots@[j]);
        }
    }
    assert forall|j: int| #[trigger] a.slot_alive(j) implies b.node_at(j) == a.node_at(
        j,
    ).spec_with_widget(measure_patch(a.widget_at(j), b.widget_at(j))) by {
        if j != i {
            assert(b.slots@[j] == a.slots@[j]);
            let w = a.widget_at(j);
            assert(measure_patch(w, w) == w);
            assert(a.node_at(j).spec_with_widget(w) == a.node_at(j));
        } else {
            let w2 = Widget {
                desired_size: desired,
                prev_measure: avail,
                measure_valid: true,
                ..a.widget_at(i)
            };
            assert(b.widget_at(i) == w2);
            assert(measure_patch(a.widget_at(i), w2) == w2);
        }
    }
}

/// Rewriting one slot's arrange cache is a step of the arrange frame.
proof fn lemma_commit_arrange_frame(a: Ui, b: Ui, i: int, fr: Rect, screen: Position, visible: bool)
    requires
        a.slot_alive(i),
        b.slots@.len() == a.slots@.len(),
        forall|j: int| 0 <= j < a.slots@.len() && j != i ==> b.slots@[j] == a.slots@[j],
        b.slots@[i].generation == a.slots@[i].generation,
        b.slot_alive(i),
        b.node_at(i) == a.node_at(i).spec_with_widget(
            (Widget {
                actual_local_position: fr.position,
                actual_size: fr.size,
                prev_arrange: fr,
                arrange_valid: true,
                screen_position: screen,
                prev_global_visibility: a.widget_at(i).global_visibility,
                global_visibility: visible,
                ..a.widget_at(i)
            }),
        ),
        b.queue == a.queue,
        b.rank == a.rank,
        b.rank_bound == a.rank_bound,
    ensures
        arrange_frame(a, b),
{
    assert forall|j: int|
        0 <= j < a.slots@.len() implies (#[trigger] b.slots@[j]).generation == a.slots@[
        j
    ].generation && (b.slots@[j].node is Some <==> a.slots@[j].node is Some) by {
        if j != i {
            assert(b.slots@[j] == a.slots@[j]);
        }
    }
    assert forall|j: int| #[trigger] a.slot_alive(j) implies b.node_at(j) == a.node_at(
        j,
    ).spec_with_widget(arrange_patch(a.widget_at(j), b.widget_at(j))) by {
        if j != i {
            assert(b.slots@[j] == a.slots@[j]);
            let w = a.widget_at(j);
            assert(arrange_patch(w, w) == w);
            assert(a.node_at(j).spec_with_widget(w) == a.node_at(j));
        } else {
            let w2 = Widget {
                actual_local_position: fr.position,
                actual_size: fr.size,
                prev_arrange: fr,
                arrange_valid: true,
                screen_position: screen,
                prev_global_visibility: a.widget_at(i).global_visibility,
                global_visibility: visible,
                ..a.widget_at(i)
            };
            assert(b.widget_at(i) == w2);
            assert(arrange_patch(a.widget_at(i), w2) == w2);
        }
    }
}

/// The measure frame keeps every tree link, so it keeps the invariant.
pub proof fn lemma_measure_frame_wf(pre: Ui, post: Ui)
    requires
        pre.wf(),
        measure_frame(pre, post),
    ensures
        post.wf(),
{
    assert forall|i: int| #[trigger] pre.slot_alive(i) implies post.widget_at(i).handle
        == pre.widget_at(i).handle && post.widget_at(i).parent == pre.widget_at(i).parent
        && post.widget_at(i).children@ == pre.widget_at(i).children@ by {
        assert(post.node_at(i) == pre.node_at(i).spec_with_widget(
            measure_patch(pre.widget_at(i), post.widget_at(i)),
        ));
    }
    lemma_links_wf(pre, post);
}

/// The arrange frame keeps every tree link, so it keeps the invariant.
pub proof fn lemma_arrange_frame_wf(pre: Ui, post: Ui)
    requires
        pre.wf(),
        arrange_frame(pre, post),
    ensures
        post.wf(),
{
    assert forall|i: int| #[trigger] pre.slot_alive(i) implies post.widget_at(i).handle
        == pre.widget_at(i).handle && post.widget_at(i).parent == pre.widget_at(i).parent
        && post.widget_at(i).children@ == pre.widget_at(i).children@ by {
        assert(post.node_at(i) == pre.node_at(i).spec_with_widget(
            arrange_patch(pre.widget_at(i), post.widget_at(i)),
        ));
    }
    lemma_links_wf(pre, post);
}

impl Ui {
    /// The component-wise maximum of the cached desired sizes of the
    /// first `upto` children of slot `i`; zero when there are none.
    pub open spec fn spec_children_desired_max(self, i: int, upto: int) -> Size
        decreases upto,
    {
        if upto <= 0 {
            Size { x: 0u32, y: 0u32 }
        } else {
            let prev = self.spec_children_desired_max(i, upto - 1);
            let c = self.widget_at(i).children@[upto - 1];
            let d = self.widget_at(c.index as int).desired_size;
            Size {
                x: if d.x >= prev.x {
                    d.x
                } else {
                    prev.x
                },
                y: if d.y >= prev.y {
                    d.y
                } else {
                    prev.y
                },
            }
        }
    }

    /// The base measure policy: the bounding union of the children's
    /// desired sizes, overridden per axis by an explicit width or
    /// height, and clamped into the node's own bounds.
    pub open spec fn spec_measured_desired(self, i: int) -> Size {
        let w = self.widget_at(i);
        let cm = self.spec_children_desired_max(i, w.children@.len() as int);
        let raw_x = if w.width is Some {
            w.width.unwrap()
        } else {
            cm.x
        };
        let raw_y = if w.height is Some {
            w.height.unwrap()
        } else {
            cm.y
        };
        Size {
            x: clamp_dim(raw_x, w.min_size.x, w.max_size.x),
            y: clamp_dim(raw_y, w.min_size.y, w.max_size.y),
        }
    }

    /// Record the measure result on the node in slot `i`.
    fn commit_measure_at(&mut self, i: usize, available_size: Size, desired_size: Size)
        requires
            old(self).slot_alive(i as int),
        ensures
            final(self).slots@.len() == old(self).slots@.len(),
            forall|j: int|
                0 <= j < old(self).slots@.len() && j != i ==> final(self).slots@[j] == old(
                    self).slots@[j],
            final(self).slots@[i as int].generation == old(self).slots@[i as int].generation,
            final(self).slot_alive(i as int),
            final(self).node_at(i as int) == old(self).node_at(i as int).spec_with_widget(
                (Widget {
                    desired_size,
                    prev_measure: available_size,
                    measure_valid: true,
                    ..old(self).widget_at(i as int)
                }),
            ),
            final(self).queue == old(self).queue,
            final(self).rank == old(self).rank,
            final(self).rank_bound == old(self).rank_bound,
    {
        let slot = &mut self.slots[i];
        match &mut slot.node {
            Some(n) => {
                n.widget_mut().commit_measure(available_size, desired_size);
            },
            None => {},
        }
    }

    /// Record the arrange result, absolute position and effective
    /// visibility on the node in slot `i`.
    fn commit_arrange_at(&mut self, i: usize, final_rect: Rect, screen: Position, visible: bool)
        requires
            old(self).slot_alive(i as int),
        ensures
            final(self).slots@.len() == old(self).slots@.len(),
            forall|j: int|
                0 <= j < old(self).slots@.len() && j != i ==> final(self).slots@[j] == old(
                    self).slots@[j],
            final(self).slots@[i as int].generation == old(self).slots@[i as int].generation,
            final(self).slot_alive(i as int),
            final(self).node_at(i as int) == old(self).node_at(i as int).spec_with_widget(
                (Widget {
                    actual_local_position: final_rect.position,
                    actual_size: final_rect.size,
                    prev_arrange: final_rect,
                    arrange_valid: true,
                    screen_position: screen,
                    prev_global_visibility: old(self).widget_at(i as int).global_visibility,
                    global_visibility: visible,
                    ..old(self).widget_at(i as int)
                }),
            ),
            final(self).queue == old(self).queue,
            final(self).rank == old(self).rank,
            final(self).rank_bound == old(self).rank_bound,
    {
        let slot = &mut self.slots[i];
        match &mut slot.node {
            Some(n) => {
                let w = n.widget_mut();
                w.commit_arrange(final_rect);
                w.set_screen_position(screen);
                w.set_global_visibility(visible);
            },
            None => {},
        }
    }

    /// Measure pass, base policy: ask every child to measure against the
    /// same constraint, take the bounding union of their desired sizes,
    /// apply the node's explicit dimensions and bounds, and cache the
    /// result. Caches are recomputed unconditionally; a dirty flag never
    /// survives the pass.
    #[verifier::rlimit(100)]
    #[verifier::spinoff_prover]
    pub fn measure(&mut self, h: NodeHandle, available_size: Size)
        requires
            old(self).wf(),
            old(self).alive(h),
        ensures
            final(self).wf(),
            measure_frame(*old(self), *final(self)),
            final(self).widget_at(h.index as int).measure_valid,
            final(self).widget_at(h.index as int).prev_measure == available_size,
            final(self).widget_at(h.index as int).desired_size == final(self).spec_measured_desired(h.index as int),
        decreases old(self).rank@[h.index as int],
    {
        let ghost pre = *self;
        let ghost hi = h.index as int;
        let children = crate::widget::copy_handles(self.borrow(h).widget().children());
        proof {
            lemma_children_rank(pre, hi);
            lemma_measure_frame_refl(pre);
        }
        let m = children.len();
        let mut k: usize = 0;
        while k < m
            invariant
                pre == *old(self),
                pre.wf(),
                pre.alive(h),
                hi == h.index as int,
                m == children@.len(),
                children@ == pre.widget_at(hi).children@,
                forall|q: int|
                    0 <= q < m ==> pre.alive(#[trigger] children@[q]) && pre.rank@[children@[
                        q
                    ].index as int] < pre.rank@[hi],
                k <= m,
                self.wf(),
                measure_frame(pre, *self),
            decreases m - k,
        {
            let c = children[k];
            let ghost mid = *self;
            proof {
                assert(pre.alive(c));
                assert(pre.slot_alive(c.index as int));
                assert(self.alive(c));
                assert(self.rank@[c.index as int] == pre.rank@[c.index as int]);
                assert(self.rank@[c.index as int] < pre.rank@[hi]);
            }
            self.measure(c, available_size);
            proof {
                lemma_measure_frame_trans(pre, mid, *self);
            }
            k += 1;
        }
        // Read the children's settled desired sizes and fold the union.
        proof {
            assert(pre.slot_alive(hi));
            assert(self.node_at(hi) == pre.node_at(hi).spec_with_widget(
                measure_patch(pre.widget_at(hi), self.widget_at(hi)),
            ));
        }
        let ghost settled = *self;
        let mut union = Size::zero();
        let mut k: usize = 0;
        while k < m
            invariant
                settled.wf(),
                *self == settled,
                hi == h.index as int,
                m == children@.len(),
                measure_frame(pre, *self),
                pre.alive(h),
                children@ == pre.widget_at(hi).children@,
                forall|q: int| 0 <= q < m ==> pre.alive(#[trigger] children@[q]),
                k <= m,
                children@ == self.widget_at(hi).children@,
                union == self.spec_children_desired_max(hi, k as int),
            decreases m - k,
        {
            let c = children[k];
            proof {
                assert(pre.alive(c));
                assert(pre.slot_alive(c.index as int));
                assert(self.alive(c));
            }
            let d = self.borrow(c).widget().desired_size();
            union = union.max(d);
            k += 1;
        }
        proof {
            assert(self.alive(h));
        }
        let w = self.borrow(h).widget();
        let raw_x = match w.width() {
            Some(x) => x,
            None => union.x,
        };
        let raw_y = match w.height() {
            Some(y) => y,
            None => union.y,
        };
        let min_size = w.min_size();
        let max_size = w.max_size();
        let desired = Size::new(
            clamp_dim_exec(raw_x, min_size.x, max_size.x),
            clamp_dim_exec(raw_y, min_size.y, max_size.y),
        );
        let ghost before_commit = *self;
        self.commit_measure_at(h.index as usize, available_size, desired);
        proof {
            lemma_commit_measure_frame(before_commit, *self, hi, available_size, desired);
            lemma_measure_frame_trans(pre, before_commit, *self);
            lemma_measure_frame_wf(pre, *self);
            assert(self.widget_at(hi).desired_size == self.spec_measured_desired(hi)) by {
                assert(pre.slot_alive(hi));
                assert forall|q: int|
                    0 <= q < before_commit.widget_at(hi).children@.len() implies self.widget_at(
                    (#[trigger] before_commit.widget_at(hi).children@[q]).index as int,
                ).desired_size == before_commit.widget_at(
                    before_commit.widget_at(hi).children@[q].index as int,
                ).desired_size by {
                    let ci = before_commit.widget_at(hi).children@[q].index as int;
                    assert(before_commit.widget_at(hi).children@ == children@);
                    assert(children@ == pre.widget_at(hi).children@);
                    assert(before_commit.widget_at(hi).children@[q] == pre.widget_at(
                        hi,
                    ).children@[q]);
                    assert(pre.rank@[pre.widget_at(hi).children@[q].index as int] < pre.rank@[hi]);
                    assert(pre.rank@[ci] < pre.rank@[hi]);
                    assert(ci != hi);
                    assert(self.slots@[ci] == before_commit.slots@[ci]);
                }
                lemma_children_max_same(before_commit, *self, hi, m as int);
                assert(self.widget_at(hi).children@ == before_commit.widget_at(hi).children@);
                assert(self.widget_at(hi).width == before_commit.widget_at(hi).width);
            }
        }
    }

    /// Arrange pass, base policy: place this node into the rectangle its
    /// parent allotted, give every child the full rectangle at the
    /// origin, accumulate the absolute position, and recompute the
    /// effective visibility as the conjunction of the local flag with
    /// the ancestors'.
    pub fn arrange(&mut self, h: NodeHandle, final_rect: Rect)
        requires
            old(self).wf(),
            old(self).alive(h),
        ensures
            final(self).wf(),
            arrange_frame(*old(self), *final(self)),
            final(self).widget_at(h.index as int).arrange_valid,
            final(self).widget_at(h.index as int).prev_arrange == final_rect,
            final(self).widget_at(h.index as int).actual_local_position == final_rect.position,
            final(self).widget_at(h.index as int).actual_size == final_rect.size,
            final(self).widget_at(h.index as int).screen_position == (Position {
                x: sat_add(old(self).spec_arrange_origin(h.index as int).x, final_rect.position.x),
                y: sat_add(old(self).spec_arrange_origin(h.index as int).y, final_rect.position.y),
            }),
            final(self).widget_at(h.index as int).global_visibility == (old(self).widget_at(
                h.index as int,
            ).visibility && old(self).spec_parent_visible(h.index as int)),
    {
        let w = self.borrow(h).widget();
        let parent = w.parent();
        let origin: Position;
        let parent_visible: bool;
        if parent.is_some() {
            proof {
                assert(self.slot_alive(h.index as int));
                assert(self.wf_at(h.index as int));
            }
            let pw = self.borrow(parent).widget();
            origin = pw.screen_position();
            parent_visible = pw.is_globally_visible();
        } else {
            origin = Position::zero();
            parent_visible = true;
        }
        self.arrange_from(h, final_rect, origin, parent_visible);
    }

    /// The absolute position of the parent, from which this node's own
    /// screen position is derived; the origin for a root.
    pub open spec fn spec_arrange_origin(self, i: int) -> Position {
        if self.widget_at(i).parent.is_some_spec() {
            self.widget_at(self.widget_at(i).parent.index as int).screen_position
        } else {
            Position { x: 0i64, y: 0i64 }
        }
    }

    /// The parent's effective visibility; true for a root.
    pub open spec fn spec_parent_visible(self, i: int) -> bool {
        if self.widget_at(i).parent.is_some_spec() {
            self.widget_at(self.widget_at(i).parent.index as int).global_visibility
        } else {
            true
        }
    }

    /// The recursive half of the arrange pass: the caller supplies the
    /// absolute origin and the ancestors' combined visibility.
    #[verifier::rlimit(100)]
    #[verifier::spinoff_prover]
    fn arrange_from(&mut self, h: NodeHandle, final_rect: Rect, origin: Position, parent_visible: bool)
        requires
            old(self).wf(),
            old(self).alive(h),
        ensures
            final(self).wf(),
            arrange_frame(*old(self), *final(self)),
            final(self).widget_at(h.index as int).arrange_valid,
            final(self).widget_at(h.index as int).prev_arrange == final_rect,
            final(self).widget_at(h.index as int).actual_local_position == final_rect.position,
            final(self).widget_at(h.index as int).actual_size == final_rect.size,
            final(self).widget_at(h.index as int).screen_position == (Position {
                x: sat_add(origin.x, final_rect.position.x),
                y: sat_add(origin.y, final_rect.position.y),
            }),
            final(self).widget_at(h.index as int).global_visibility == (old(self).widget_at(
                h.index as int,
            ).visibility && parent_visible),
        decreases old(self).rank@[h.index as int],
    {
        let ghost pre = *self;
        let ghost hi = h.index as int;
        let children = crate::widget::copy_handles(self.borrow(h).widget().children());
        let visible = self.borrow(h).widget().visibility() && parent_visible;
        let screen = origin.translate(final_rect.position);
        proof {
            lemma_children_rank(pre, hi);
            lemma_arrange_frame_refl(pre);
        }
        let child_rect = Rect::new(0, 0, final_rect.size.x, final_rect.size.y);
        let m = children.len();
        let mut k: usize = 0;
        while k < m
            invariant
                pre == *old(self),
                pre.wf(),
                pre.alive(h),
                hi == h.index as int,
                m == children@.len(),
                children@ == pre.widget_at(hi).children@,
                forall|q: int|
                    0 <= q < m ==> pre.alive(#[trigger] children@[q]) && pre.rank@[children@[
                        q
                    ].index as int] < pre.rank@[hi],
                k <= m,
                self.wf(),
                arrange_frame(pre, *self),
            decreases m - k,
        {
            let c = children[k];
            let ghost mid = *self;
            proof {
                assert(pre.alive(c));
                assert(pre.slot_alive(c.index as int));
                assert(self.alive(c));
                assert(self.rank@[c.index as int] == pre.rank@[c.index as int]);
                assert(self.rank@[c.index as int] < pre.rank@[hi]);
            }
            self.arrange_from(c, child_rect, screen, visible);
            proof {
                lemma_arrange_frame_trans(pre, mid, *self);
            }
            k += 1;
        }
        proof {
            assert(self.alive(h));
        }
        let ghost before_commit = *self;
        self.commit_arrange_at(h.index as usize, final_rect, screen, visible);
        proof {
            lemma_commit_arrange_frame(before_commit, *self, hi, final_rect, screen, visible);
            lemma_arrange_frame_trans(pre, before_commit, *self);
            lemma_arrange_frame_wf(pre, *self);
        }
    }
}

/// Two states that agree on a node's child list and on every child's
/// cached desired size agree on the bounding union.
proof fn lemma_children_max_same(a: Ui, b: Ui, i: int, upto: int)
    requires
        0 <= upto <= a.widget_at(i).children@.len(),
        b.widget_at(i).children@ == a.widget_at(i).children@,
        forall|q: int|
            0 <= q < a.widget_at(i).children@.len() ==> b.widget_at(
                (#[trigger] a.widget_at(i).children@[q]).index as int,
            ).desired_size == a.widget_at(a.widget_at(i).children@[q].index as int).desired_size,
    ensures
        b.spec_children_desired_max(i, upto) == a.spec_children_desired_max(i, upto),
    decreases upto,
{
    if upto > 0 {
        lemma_children_max_same(a, b, i, upto - 1);
    }
}

} // verus!
