//! The order in which a forward and a backward pass visit the nodes of a
//! graph, and the road that each gradient takes.
//!
//! A forward pass computes the nodes in creation order, so every operand has
//! its value before it is read. A backward pass visits the nodes in reverse
//! creation order and, at each node, adds to the gradient of every operand.
//! Every consumer of a node comes after it in the table, so the gradient of a
//! node is complete before the node hands it on.

use vstd::prelude::*;
use crate::autograd::{Graph, GraphModel, Node};

verus! {

/// One step of a backward pass: the gradient of `source` adds to the gradient
/// of `target`, which is operand number `slot` of `source`.
#[derive(Clone, Copy, Debug, PartialEq, Eq, Structural)]
pub struct GradientStep {
    pub source: Node,
    pub slot: usize,
    pub target: Node,
}

/// A step of a backward pass, by positions.
pub struct StepModel {
    pub source: nat,
    pub slot: nat,
    pub target: nat,
}

impl View for GradientStep {
    type V = StepModel;

    open spec fn view(&self) -> StepModel {
        StepModel { source: self.source@, slot: self.slot as nat, target: self.target@ }
    }
}

/// The steps of a list, by positions.
pub open spec fn step_models(steps: Seq<GradientStep>) -> Seq<StepModel> {
    steps.map_values(|s: GradientStep| s@)
}

impl GraphModel {
    /// The steps in which entry `i` hands its gradient to its operands, in
    /// the order of the operands.
    pub open spec fn steps_of(self, i: nat) -> Seq<StepModel> {
        Seq::new(
            self.nodes[i as int].operands.len(),
            |k: int|
                StepModel { source: i, slot: k as nat, target: self.nodes[i as int].operands[k] },
        )
    }

    /// The steps of a backward pass over the entries before `upto`: the last
    /// of them first.
    pub open spec fn backward_steps(self, upto: nat) -> Seq<StepModel>
        decreases upto,
    {
        if upto == 0 {
            Seq::empty()
        } else {
            self.steps_of((upto - 1) as nat) + self.backward_steps((upto - 1) as nat)
        }
    }

    /// The steps of a backward pass over the whole table.
    pub open spec fn backward_pass(self) -> Seq<StepModel> {
        self.backward_steps(self.nodes.len())
    }

    /// The entries before `upto` that an operation computes, in creation order.
    pub open spec fn forward_steps(self, upto: nat) -> Seq<nat>
        decreases upto,
    {
        if upto == 0 {
            Seq::empty()
        } else if self.nodes[upto - 1].operation is Some {
            self.forward_steps((upto - 1) as nat).push((upto - 1) as nat)
        } else {
            self.forward_steps((upto - 1) as nat)
        }
    }

    /// The entries that a forward pass computes, in the order in which it
    /// computes them.
    pub open spec fn forward_pass(self) -> Seq<nat> {
        self.forward_steps(self.nodes.len())
    }

    /// Whether `step` leads from an entry of the table to one of its operands.
    pub open spec fn routes(self, step: StepModel) -> bool {
        &&& step.source < self.nodes.len()
        &&& step.slot < self.nodes[step.source as int].operands.len()
        &&& step.target == self.nodes[step.source as int].operands[step.slot as int]
    }

    /// Every step of a backward pass over the entries before `upto` leads from
    /// one of these entries to one of its operands, and the steps come in
    /// descending order of their sources.
    pub proof fn lemma_backward_steps(self, upto: nat)
        requires
            upto <= self.nodes.len(),
        ensures
            forall|k: int|
                0 <= k < self.backward_steps(upto).len() ==> {
                    &&& self.routes(#[trigger] self.backward_steps(upto)[k])
                    &&& self.backward_steps(upto)[k].source < upto
                },
            forall|j: int, k: int|
                0 <= j <= k < self.backward_steps(upto).len() ==> (
                #[trigger] self.backward_steps(upto)[j]).source >= (
                #[trigger] self.backward_steps(upto)[k]).source,
        decreases upto,
    {
        if upto > 0 {
            self.lemma_backward_steps((upto - 1) as nat);
            let head = self.steps_of((upto - 1) as nat);
            let tail = self.backward_steps((upto - 1) as nat);
            let all = self.backward_steps(upto);
            assert(all == head + tail);
            assert forall|k: int| 0 <= k < all.len() implies {
                &&& self.routes(#[trigger] all[k])
                &&& all[k].source < upto
            } by {
                if k >= head.len() {
                    assert(all[k] == tail[k - head.len()]);
                }
            }
            assert forall|j: int, k: int| 0 <= j <= k < all.len() implies (#[trigger] all[j]).source
                >= (#[trigger] all[k]).source by {
                if j >= head.len() {
                    assert(all[j] == tail[j - head.len()]);
                    assert(all[k] == tail[k - head.len()]);
                } else if k >= head.len() {
                    assert(all[k] == tail[k - head.len()]);
                }
            }
        }
    }

    /// A backward pass over the entries before `upto` holds a step for every
    /// operand of every one of these entries.
    pub proof fn lemma_backward_steps_complete(self, upto: nat, source: nat, slot: nat)
        requires
            source < upto <= self.nodes.len(),
            slot < self.nodes[source as int].operands.len(),
        ensures
            self.backward_steps(upto).contains(
                StepModel { source, slot, target: self.nodes[source as int].operands[slot as int] },
            ),
        decreases upto,
    {
        let step = StepModel {
            source,
            slot,
            target: self.nodes[source as int].operands[slot as int],
        };
        let head = self.steps_of((upto - 1) as nat);
        let tail = self.backward_steps((upto - 1) as nat);
        let all = self.backward_steps(upto);
        assert(all == head + tail);
        if source == upto - 1 {
            assert(head[slot as int] == step);
            assert(all[slot as int] == step);
        } else {
            self.lemma_backward_steps_complete((upto - 1) as nat, source, slot);
            let k = choose|k: int| 0 <= k < tail.len() && tail[k] == step;
            assert(all[head.len() + k] == step);
        }
    }

    /// A forward pass over the entries before `upto` holds exactly the entries
    /// that an operation computes, in ascending order.
    pub proof fn lemma_forward_steps(self, upto: nat)
        requires
            upto <= self.nodes.len(),
        ensures
            forall|k: int|
                0 <= k < self.forward_steps(upto).len() ==> {
                    &&& (#[trigger] self.forward_steps(upto)[k]) < upto
                    &&& self.nodes[self.forward_steps(upto)[k] as int].operation is Some
                },
            forall|j: int, k: int|
                0 <= j < k < self.forward_steps(upto).len() ==> (
                #[trigger] self.forward_steps(upto)[j]) < (#[trigger] self.forward_steps(upto)[k]),
            forall|i: nat|
                i < upto && self.nodes[i as int].operation is Some
                    ==> #[trigger] self.forward_steps(upto).contains(i),
        decreases upto,
    {
        if upto > 0 {
            let before = self.forward_steps((upto - 1) as nat);
            let all = self.forward_steps(upto);
            self.lemma_forward_steps((upto - 1) as nat);
            assert forall|i: nat|
                i < upto && self.nodes[i as int].operation is Some implies all.contains(i) by {
                if i < upto - 1 {
                    assert(before.contains(i));
                    let k = choose|k: int| 0 <= k < before.len() && before[k] == i;
                    assert(all[k] == i);
                } else {
                    assert(all[all.len() - 1] == i);
                }
            }
        }
    }
}

impl Graph {
    /// The nodes that a forward pass computes, in the order in which it
    /// computes them: every node that is not a leaf, in creation order.
    pub fn forward_pass(&self) -> (order: Vec<Node>)
        ensures
            crate::autograd::positions(order@) == self@.forward_pass(),
    {
        let mut order: Vec<Node> = Vec::new();
        let len = self.len();
        let mut i: usize = 0;
        while i < len
            invariant
                i <= len,
                len == self@.nodes.len(),
                crate::autograd::positions(order@) == self@.forward_steps(i as nat),
            decreases len - i,
        {
            let node = self.node(i).unwrap();
            let record = self.get(node).unwrap();
            let ghost before = crate::autograd::positions(order@);
            if record.operation().is_some() {
                order.push(node);
                assert(crate::autograd::positions(order@) =~= before.push(i as nat));
            }
            i += 1;
        }
        order
    }

    /// The steps of a backward pass, in the order in which it takes them: the
    /// nodes in reverse creation order, and at each node its operands in
    /// their order.
    pub fn backward_pass(&self) -> (steps: Vec<GradientStep>)
        ensures
            step_models(steps@) == self@.backward_pass(),
    {
        let mut steps: Vec<GradientStep> = Vec::new();
        let len = self.len();
        let mut i: usize = len;
        assert(step_models(steps@) + self@.backward_steps(i as nat) =~= self@.backward_pass());
        while i > 0
            invariant
                i <= len,
                len == self@.nodes.len(),
                step_models(steps@) + self@.backward_steps(i as nat) == self@.backward_pass(),
            decreases i,
        {
            i -= 1;
            let source = self.node(i).unwrap();
            let record = self.get(source).unwrap();
            let operands = record.operands();
            let ghost done = step_models(steps@);
            let ghost own = self@.steps_of(i as nat);
            let mut slot: usize = 0;
            while slot < operands.len()
                invariant
                    slot <= operands.len(),
                    i < len,
                    len == self@.nodes.len(),
                    source@ == i,
                    crate::autograd::positions(operands@) == self@.nodes[i as int].operands,
                    own == self@.steps_of(i as nat),
                    step_models(steps@) == done + own.take(slot as int),
                decreases operands.len() - slot,
            {
                let target = operands[slot];
                let ghost before = step_models(steps@);
                steps.push(GradientStep { source, slot, target });
                proof {
                    assert(crate::autograd::positions(operands@)[slot as int] == target@);
                    assert(step_models(steps@) =~= before.push(own[slot as int]));
                    assert(own.take(slot + 1) =~= own.take(slot as int).push(own[slot as int]));
                    assert(done + own.take(slot + 1) =~= (done + own.take(slot as int)).push(
                        own[slot as int],
                    ));
                }
                slot += 1;
            }
            proof {
                assert(own.take(slot as int) =~= own);
                assert((done + own) + self@.backward_steps(i as nat) =~= done + (own
                    + self@.backward_steps(i as nat)));
            }
        }
        assert(step_models(steps@) + Seq::<StepModel>::empty() =~= step_models(steps@));
        steps
    }
}

} // verus!
