//! The node table of a computation graph and the builder that fills it.
//!
//! A graph is an ordered table of nodes. A node is either a leaf, which holds
//! an input or a parameter and has no operands, or the result of an operation
//! on nodes that were created before it. Nodes are only ever appended, so an
//! operand always has a smaller identifier than the node that consumes it.

use vstd::prelude::*;
use crate::rules::{output_shape, RuleViolation, ShapeFault};
use crate::tensor::{Operation, Shape};

verus! {

/// A handle to one entry of a graph's node table. Its view is the position of
/// the entry.
#[derive(Clone, Copy, Debug, PartialEq, Eq, Structural, Hash)]
pub struct Node {
    index: usize,
}

impl View for Node {
    type V = nat;

    closed spec fn view(&self) -> nat {
        self.index as nat
    }
}

impl Node {
    /// The position of the node in the table of the graph that made it.
    pub fn index(&self) -> (index: usize)
        ensures
            index == self@,
    {
        self.index
    }

    /// Two handles are the same exactly if they name the same position.
    pub proof fn lemma_same_position(a: Node, b: Node)
        ensures
            a@ == b@ <==> a == b,
    {
    }
}

/// Why a node could not be created.
#[derive(Clone, Copy, Debug, PartialEq, Eq, Structural)]
pub enum GraphError {
    /// The shape of operand `node` breaks the rule of `operation`, which
    /// asked for `expected` where the operand has `actual`.
    ShapeMismatch { node: Node, operation: Operation, expected: Shape, actual: Shape },
    /// `operation` takes `required` operands and was given `given`.
    ArityError { operation: Operation, required: usize, given: usize },
    /// `node` is not an entry of this graph.
    InvalidNodeReference { node: Node },
}

/// One entry of the node table, as plain values.
pub struct NodeModel {
    /// The operation that computes the node; `None` for a leaf.
    pub operation: Option<Operation>,
    /// The positions of the operands, in the order the operation takes them.
    pub operands: Seq<nat>,
    /// The shape of the node's value and of its gradient.
    pub output_shape: Shape,
    /// The number of nodes that have this node among their operands.
    pub consumer_count: nat,
}

/// The node table, as plain values.
pub struct GraphModel {
    pub nodes: Seq<NodeModel>,
}

/// The positions that a list of handles names.
pub open spec fn positions(operands: Seq<Node>) -> Seq<nat> {
    operands.map_values(|n: Node| n@)
}

impl GraphModel {
    pub open spec fn len(self) -> nat {
        self.nodes.len()
    }

    /// Whether the handle names an entry of this table.
    pub open spec fn contains(self, node: Node) -> bool {
        node@ < self.nodes.len()
    }

    pub open spec fn shape_of(self, node: Node) -> Shape {
        self.nodes[node@ as int].output_shape
    }

    /// The shapes of the entries at the given positions.
    pub open spec fn shapes_at(self, operands: Seq<nat>) -> Seq<Shape> {
        Seq::new(operands.len(), |k: int| self.nodes[operands[k] as int].output_shape)
    }

    /// The least position at or after `from` in `operands` whose handle names
    /// no entry of this table.
    pub open spec fn first_unknown(self, operands: Seq<Node>, from: nat) -> Option<nat>
        decreases operands.len() - from,
    {
        if from >= operands.len() {
            None
        } else if !self.contains(operands[from as int]) {
            Some(from)
        } else {
            self.first_unknown(operands, from + 1)
        }
    }

    /// Whether `operation` can be applied to `operands`: the shape of the
    /// result, or the error. The number of operands is checked first, then
    /// that every operand is in the table, then the shapes.
    pub open spec fn check(self, operation: Operation, operands: Seq<Node>) -> Result<
        Shape,
        GraphError,
    > {
        if operands.len() != operation.spec_arity() {
            Err(
                GraphError::ArityError {
                    operation,
                    required: operation.spec_arity(),
                    given: operands.len() as usize,
                },
            )
        } else {
            match self.first_unknown(operands, 0) {
                Some(k) => Err(GraphError::InvalidNodeReference { node: operands[k as int] }),
                None => match operation.accepts(self.shapes_of(operands)) {
                    Ok(shape) => Ok(shape),
                    Err(f) => Err(self.mismatch(operation, operands, f)),
                },
            }
        }
    }

    /// What creating the result of `operation` on `operands` does to this
    /// table and returns. Where the check passes, the result is the handle of
    /// the new last entry and `after` is this table with that entry appended;
    /// otherwise the result is the error and `after` is this table.
    pub open spec fn creates(
        self,
        operation: Operation,
        operands: Seq<Node>,
        result: Result<Node, GraphError>,
        after: GraphModel,
    ) -> bool {
        match self.check(operation, operands) {
            Ok(shape) => {
                &&& result matches Ok(node)
                &&& node@ == self.nodes.len()
                &&& after == self.with_node(Some(operation), positions(operands), shape)
            },
            Err(e) => result == Err::<Node, GraphError>(e) && after == self,
        }
    }

    /// Whether every handle names an entry of this table.
    pub open spec fn contains_all(self, operands: Seq<Node>) -> bool {
        forall|k: int| 0 <= k < operands.len() ==> self.contains(#[trigger] operands[k])
    }

    /// The shapes of the entries that the handles name.
    pub open spec fn shapes_of(self, operands: Seq<Node>) -> Seq<Shape> {
        self.shapes_at(positions(operands))
    }

    /// The error for a fault that the shape rule of `operation` found.
    pub open spec fn mismatch(self, operation: Operation, operands: Seq<Node>, f: ShapeFault)
        -> GraphError {
        GraphError::ShapeMismatch {
            node: operands[f.operand as int],
            operation,
            expected: f.expected,
            actual: self.shape_of(operands[f.operand as int]),
        }
    }

    /// The table after one more node was appended: the new entry comes last
    /// with no consumers, and each entry that is among its operands has one
    /// consumer more. Nothing else changes.
    pub open spec fn with_node(
        self,
        operation: Option<Operation>,
        operands: Seq<nat>,
        shape: Shape,
    ) -> GraphModel {
        GraphModel {
            nodes: Seq::new(
                self.nodes.len() + 1,
                |i: int|
                    if i < self.nodes.len() {
                        NodeModel {
                            operation: self.nodes[i].operation,
                            operands: self.nodes[i].operands,
                            output_shape: self.nodes[i].output_shape,
                            consumer_count: if operands.contains(i as nat) {
                                self.nodes[i].consumer_count + 1
                            } else {
                                self.nodes[i].consumer_count
                            },
                        }
                    } else {
                        NodeModel { operation, operands, output_shape: shape, consumer_count: 0 }
                    },
            ),
        }
    }

    /// The number of entries before position `upto` that have `n` among
    /// their operands.
    pub open spec fn consumers(self, n: nat, upto: nat) -> nat
        decreases upto,
    {
        if upto == 0 {
            0
        } else {
            self.consumers(n, (upto - 1) as nat) + if self.nodes[upto - 1].operands.contains(n) {
                1nat
            } else {
                0nat
            }
        }
    }

    /// Every operand of an entry comes before the entry.
    pub open spec fn acyclic(self) -> bool {
        forall|i: int, k: int|
            0 <= i < self.nodes.len() && 0 <= k < self.nodes[i].operands.len() ==> (
            #[trigger] self.nodes[i].operands[k]) < i
    }

    /// The shape of entry `i` is the one that its operation gives on the
    /// shapes of its operands; a leaf has no operands.
    pub open spec fn shape_inferred(self, i: int) -> bool {
        match self.nodes[i].operation {
            None => self.nodes[i].operands.len() == 0,
            Some(op) => {
                &&& self.nodes[i].operands.len() == op.spec_arity()
                &&& op.accepts(self.shapes_at(self.nodes[i].operands)) == Ok::<Shape, ShapeFault>(
                    self.nodes[i].output_shape,
                )
            },
        }
    }

    /// The consumer count of entry `i` is the number of entries that have it
    /// among their operands.
    pub open spec fn consumers_counted(self, i: int) -> bool {
        self.nodes[i].consumer_count == self.consumers(i as nat, self.nodes.len())
    }

    /// The invariant of a node table.
    pub open spec fn well_formed(self) -> bool {
        &&& self.acyclic()
        &&& forall|i: int| 0 <= i < self.nodes.len() ==> #[trigger] self.shape_inferred(i)
        &&& forall|i: int| 0 <= i < self.nodes.len() ==> #[trigger] self.consumers_counted(i)
    }

    /// Whether `later` is this table with entries appended: every entry of
    /// this table is found at its position in `later`, with the same
    /// operation, operands and shape.
    pub open spec fn extended_by(self, later: GraphModel) -> bool {
        &&& self.nodes.len() <= later.nodes.len()
        &&& forall|i: int|
            0 <= i < self.nodes.len() ==> {
                &&& (#[trigger] later.nodes[i]).operation == self.nodes[i].operation
                &&& later.nodes[i].operands == self.nodes[i].operands
                &&& later.nodes[i].output_shape == self.nodes[i].output_shape
            }
    }

    /// Whether a new entry with this operation, these operands and this shape
    /// may be appended.
    pub open spec fn admits(self, operation: Option<Operation>, operands: Seq<nat>, shape: Shape)
        -> bool {
        &&& forall|k: int| 0 <= k < operands.len() ==> (#[trigger] operands[k]) < self.nodes.len()
        &&& match operation {
            None => operands.len() == 0,
            Some(op) => {
                &&& operands.len() == op.spec_arity()
                &&& op.accepts(self.shapes_at(operands)) == Ok::<Shape, ShapeFault>(shape)
            },
        }
    }
}

impl GraphModel {
    /// The count of consumers looks only at the operands of the entries.
    pub proof fn lemma_consumers_by_operands(self, other: GraphModel, n: nat, upto: nat)
        requires
            upto <= self.nodes.len(),
            upto <= other.nodes.len(),
            forall|j: int|
                0 <= j < upto ==> (#[trigger] self.nodes[j]).operands == other.nodes[j].operands,
        ensures
            self.consumers(n, upto) == other.consumers(n, upto),
        decreases upto,
    {
        if upto > 0 {
            self.lemma_consumers_by_operands(other, n, (upto - 1) as nat);
            assert(self.nodes[upto - 1].operands == other.nodes[upto - 1].operands);
        }
    }

    /// In an acyclic table only later entries consume an entry, so entry `n`
    /// has fewer than `upto - n` consumers before position `upto`.
    pub proof fn lemma_consumers_bounded(self, n: nat, upto: nat)
        requires
            self.acyclic(),
            upto <= self.nodes.len(),
        ensures
            upto <= n + 1 ==> self.consumers(n, upto) == 0,
            upto > n + 1 ==> self.consumers(n, upto) <= upto - n - 1,
        decreases upto,
    {
        if upto > 0 {
            self.lemma_consumers_bounded(n, (upto - 1) as nat);
            let last = self.nodes[upto - 1].operands;
            if last.contains(n) {
                let k = choose|k: int| 0 <= k < last.len() && last[k] == n;
                assert(self.nodes[upto - 1].operands[k] < upto - 1);
            }
        }
    }

    /// An entry has no consumer before position `upto` exactly if no entry
    /// before `upto` has it among its operands.
    pub proof fn lemma_consumers_zero(self, n: nat, upto: nat)
        requires
            upto <= self.nodes.len(),
        ensures
            self.consumers(n, upto) == 0 <==> forall|j: int|
                0 <= j < upto ==> !(#[trigger] self.nodes[j]).operands.contains(n),
        decreases upto,
    {
        if upto > 0 {
            self.lemma_consumers_zero(n, (upto - 1) as nat);
            if self.consumers(n, upto) == 0 {
                assert forall|j: int| 0 <= j < upto implies !(
                #[trigger] self.nodes[j]).operands.contains(n) by {
                    if j < upto - 1 {
                    }
                }
            } else {
                if !self.nodes[upto - 1].operands.contains(n) {
                    assert(self.consumers(n, (upto - 1) as nat) != 0);
                }
            }
        }
    }

    /// Appending an entry that the table admits keeps the table well formed.
    pub proof fn lemma_with_node_well_formed(
        self,
        operation: Option<Operation>,
        operands: Seq<nat>,
        shape: Shape,
    )
        requires
            self.well_formed(),
            self.admits(operation, operands, shape),
        ensures
            self.with_node(operation, operands, shape).well_formed(),
    {
        let next = self.with_node(operation, operands, shape);
        let len = self.nodes.len();
        assert(next.acyclic()) by {
            assert forall|i: int, k: int|
                0 <= i < next.nodes.len() && 0 <= k < next.nodes[i].operands.len() implies (
            #[trigger] next.nodes[i].operands[k]) < i by {
                if i < len {
                    assert(self.nodes[i].operands[k] < i);
                }
            }
        }
        assert forall|i: int| 0 <= i < next.nodes.len() implies #[trigger] next.shape_inferred(
            i,
        ) by {
            let ops = next.nodes[i].operands;
            if i < len {
                assert(self.shape_inferred(i));
                assert forall|k: int| 0 <= k < ops.len() implies (#[trigger] ops[k]) < len by {
                    assert(self.nodes[i].operands[k] < i);
                }
            }
            assert(next.shapes_at(ops) =~= self.shapes_at(ops));
        }
        assert forall|i: int| 0 <= i < next.nodes.len() implies #[trigger] next.consumers_counted(
            i,
        ) by {
            next.lemma_consumers_by_operands(self, i as nat, len);
            if i < len {
                assert(self.consumers_counted(i));
            } else {
                next.lemma_consumers_bounded(i as nat, len + 1);
            }
        }
    }

    /// The check passes exactly if the number of operands is the arity of the
    /// operation, every operand is in the table and the shape rule accepts
    /// their shapes; it then gives the shape that the rule gives.
    pub proof fn lemma_check_passes(self, operation: Operation, operands: Seq<Node>)
        ensures
            self.check(operation, operands) is Ok <==> {
                &&& operands.len() == operation.spec_arity()
                &&& self.contains_all(operands)
                &&& operation.accepts(self.shapes_of(operands)) is Ok
            },
            self.check(operation, operands) matches Ok(shape) ==> operation.accepts(
                self.shapes_of(operands),
            ) == Ok::<Shape, ShapeFault>(shape),
            operands.len() == operation.spec_arity() && !self.contains_all(operands) ==> ({
                &&& self.check(operation, operands) matches Err(
                    GraphError::InvalidNodeReference { node },
                )
                &&& operands.contains(node)
                &&& !self.contains(node)
            }),
            operands.len() == operation.spec_arity() && self.contains_all(operands) ==> (
            operation.accepts(self.shapes_of(operands)) matches Err(f) ==> self.check(
                operation,
                operands,
            ) == Err::<Shape, GraphError>(self.mismatch(operation, operands, f))),
    {
        if operands.len() == operation.spec_arity() {
            if self.contains_all(operands) {
                self.lemma_first_unknown_none(operands, 0);
            } else {
                let k = choose|k: int|
                    0 <= k < operands.len() && !self.contains(#[trigger] operands[k]);
                self.lemma_first_unknown_is_unknown(operands, 0);
            }
        }
    }

    /// Where some handle from `from` on names no entry, the first unknown
    /// position is that of such a handle.
    pub proof fn lemma_first_unknown_is_unknown(self, operands: Seq<Node>, from: nat)
        requires
            exists|k: int| from <= k < operands.len() && !self.contains(#[trigger] operands[k]),
        ensures
            ({
                &&& self.first_unknown(operands, from) matches Some(k)
                &&& from <= k < operands.len()
                &&& !self.contains(operands[k as int])
            }),
        decreases operands.len() - from,
    {
        if from < operands.len() && self.contains(operands[from as int]) {
            let k = choose|k: int|
                from <= k < operands.len() && !self.contains(#[trigger] operands[k]);
            assert(from + 1 <= k);
            self.lemma_first_unknown_is_unknown(operands, from + 1);
        }
    }

    /// Where every handle from `from` up to `k` names an entry and the one at
    /// `k` does not, `k` is the first unknown position.
    pub proof fn lemma_first_unknown_found(self, operands: Seq<Node>, from: nat, k: nat)
        requires
            from <= k < operands.len(),
            forall|j: int| from <= j < k ==> self.contains(#[trigger] operands[j]),
            !self.contains(operands[k as int]),
        ensures
            self.first_unknown(operands, from) == Some(k),
        decreases k - from,
    {
        if from < k {
            self.lemma_first_unknown_found(operands, from + 1, k);
        }
    }

    /// Where every handle from `from` on names an entry, none is unknown.
    pub proof fn lemma_first_unknown_none(self, operands: Seq<Node>, from: nat)
        requires
            forall|j: int| from <= j < operands.len() ==> self.contains(#[trigger] operands[j]),
        ensures
            self.first_unknown(operands, from) is None,
        decreases operands.len() - from,
    {
        if from < operands.len() {
            self.lemma_first_unknown_none(operands, from + 1);
        }
    }
}

/// One entry of the node table.
pub struct NodeRecord {
    operation: Option<Operation>,
    operands: Vec<Node>,
    output_shape: Shape,
    consumer_count: usize,
}

impl View for NodeRecord {
    type V = NodeModel;

    closed spec fn view(&self) -> NodeModel {
        NodeModel {
            operation: self.operation,
            operands: positions(self.operands@),
            output_shape: self.output_shape,
            consumer_count: self.consumer_count as nat,
        }
    }
}

/// A computation graph: the ordered table of its nodes.
pub struct Graph {
    nodes: Vec<NodeRecord>,
}

/// The table that a list of entries stands for.
spec fn table(records: Seq<NodeRecord>) -> GraphModel {
    GraphModel { nodes: records.map_values(|r: NodeRecord| r@) }
}

impl View for Graph {
    type V = GraphModel;

    closed spec fn view(&self) -> GraphModel {
        table(self.nodes@)
    }
}

impl NodeRecord {
    /// The operation that computes the node; `None` for a leaf.
    pub fn operation(&self) -> (operation: Option<Operation>)
        ensures
            operation == self@.operation,
    {
        self.operation
    }

    /// The operands, in the order in which the operation takes them.
    pub fn operands(&self) -> (operands: &[Node])
        ensures
            positions(operands@) == self@.operands,
    {
        self.operands.as_slice()
    }

    /// The shape of the node's value and of its gradient.
    pub fn output_shape(&self) -> (shape: Shape)
        ensures
            shape == self@.output_shape,
    {
        self.output_shape
    }

    /// The number of nodes that have this node among their operands.
    pub fn consumer_count(&self) -> (count: usize)
        ensures
            count == self@.consumer_count,
    {
        self.consumer_count
    }
}

impl Graph {
    /// The invariant of a graph: that of its node table. It holds of every
    /// graph that a program can lay hands on.
    #[verifier::type_invariant]
    pub open spec fn wf(&self) -> bool {
        self@.well_formed()
    }

    /// The number of nodes.
    pub fn len(&self) -> (len: usize)
        ensures
            len == self@.nodes.len(),
    {
        self.nodes.len()
    }

    /// Whether `node` is a node of this graph.
    pub fn contains(&self, node: Node) -> (known: bool)
        ensures
            known == self@.contains(node),
    {
        node.index < self.nodes.len()
    }

    /// The handle of the node at position `index`, if there is one.
    pub fn node(&self, index: usize) -> (node: Option<Node>)
        ensures
            node is Some <==> index < self@.nodes.len(),
            node matches Some(n) ==> n@ == index,
    {
        if index < self.nodes.len() {
            Some(Node { index })
        } else {
            None
        }
    }

    /// The entry of `node`, if it is a node of this graph.
    pub fn get(&self, node: Node) -> (record: Option<&NodeRecord>)
        ensures
            record is Some <==> self@.contains(node),
            record matches Some(r) ==> r@ == self@.nodes[node@ as int],
    {
        if node.index < self.nodes.len() {
            Some(&self.nodes[node.index])
        } else {
            None
        }
    }

    /// Whether `node` occurs among the first `upto` of `operands`.
    fn seen_before(operands: &[Node], upto: usize, node: Node) -> (seen: bool)
        requires
            upto <= operands.len(),
        ensures
            seen == positions(operands@).take(upto as int).contains(node@),
    {
        let ghost taken = positions(operands@).take(upto as int);
        let mut j: usize = 0;
        while j < upto
            invariant
                j <= upto <= operands.len(),
                taken == positions(operands@).take(upto as int),
                forall|i: int| 0 <= i < j ==> taken[i] != node@,
            decreases upto - j,
        {
            if operands[j].index == node.index {
                assert(taken[j as int] == node@);
                return true;
            }
            j += 1;
        }
        false
    }

    /// Appends an entry to the graph. The table is taken out of the graph
    /// while it changes, so that the graph is well formed at every moment.
    fn append(&mut self, operation: Option<Operation>, operands: &[Node], shape: Shape) -> (node:
        Node)
        requires
            old(self)@.admits(operation, positions(operands@), shape),
        ensures
            final(self).wf(),
            final(self)@ == old(self)@.with_node(operation, positions(operands@), shape),
            node@ == old(self)@.len(),
    {
        proof {
            use_type_invariant(&*self);
        }
        let mut nodes: Vec<NodeRecord> = Vec::new();
        assert(table(nodes@).nodes =~= Seq::<NodeModel>::empty());
        std::mem::swap(&mut nodes, &mut self.nodes);
        let node = Self::append_to(&mut nodes, operation, operands, shape);
        self.nodes = nodes;
        node
    }

    /// Appends an entry and counts it as a consumer of each of its operands.
    fn append_to(
        nodes: &mut Vec<NodeRecord>,
        operation: Option<Operation>,
        operands: &[Node],
        shape: Shape,
    ) -> (node: Node)
        requires
            table(old(nodes)@).well_formed(),
            table(old(nodes)@).admits(operation, positions(operands@), shape),
        ensures
            table(final(nodes)@).well_formed(),
            table(final(nodes)@) == table(old(nodes)@).with_node(
                operation,
                positions(operands@),
                shape,
            ),
            node@ == old(nodes)@.len(),
    {
        let ghost before = table(nodes@);
        let ghost ops = positions(operands@);
        let len = nodes.len();
        let mut k: usize = 0;
        while k < operands.len()
            invariant
                k <= operands.len(),
                ops == positions(operands@),
                before.well_formed(),
                before.admits(operation, ops, shape),
                before.nodes.len() == len,
                nodes@.len() == len,
                forall|i: int|
                    0 <= i < len ==> (#[trigger] nodes@[i])@ == (NodeModel {
                        operation: before.nodes[i].operation,
                        operands: before.nodes[i].operands,
                        output_shape: before.nodes[i].output_shape,
                        consumer_count: if ops.take(k as int).contains(i as nat) {
                            before.nodes[i].consumer_count + 1
                        } else {
                            before.nodes[i].consumer_count
                        },
                    }),
            decreases operands.len() - k,
        {
            let node = operands[k];
            let seen = Self::seen_before(operands, k, node);
            proof {
                assert(ops[k as int] == node@);
                assert(ops.take(k + 1) =~= ops.take(k as int).push(node@));
                assert forall|i: nat|
                    ops.take(k + 1).contains(i) <==> (ops.take(k as int).contains(i) || i
                        == node@) by {
                    if ops.take(k as int).contains(i) {
                        let j = choose|j: int| 0 <= j < k && ops.take(k as int)[j] == i;
                        assert(ops.take(k + 1)[j] == i);
                    }
                    if i == node@ {
                        assert(ops.take(k + 1)[k as int] == i);
                    }
                }
            }
            if !seen {
                proof {
                    assert(before.consumers_counted(node@ as int));
                    before.lemma_consumers_bounded(node@, len as nat);
                }
                let count = nodes[node.index].consumer_count;
                nodes[node.index].consumer_count = count + 1;
            }
            k += 1;
        }
        let mut held: Vec<Node> = Vec::new();
        let mut j: usize = 0;
        while j < operands.len()
            invariant
                j <= operands.len(),
                held@ == operands@.take(j as int),
            decreases operands.len() - j,
        {
            held.push(operands[j]);
            proof {
                assert(operands@.take(j + 1) =~= operands@.take(j as int).push(
                    operands@[j as int],
                ));
            }
            j += 1;
        }
        proof {
            assert(operands@.take(operands@.len() as int) =~= operands@);
            assert(ops.take(ops.len() as int) =~= ops);
        }
        nodes.push(
            NodeRecord { operation, operands: held, output_shape: shape, consumer_count: 0 },
        );
        proof {
            assert(table(nodes@).nodes =~= before.with_node(operation, ops, shape).nodes);
            before.lemma_with_node_well_formed(operation, ops, shape);
        }
        Node { index: len }
    }
}

/// The construction-time authority over a graph: it checks each new node
/// against the shape rule of its operation and appends it to the table.
pub struct GraphBuilder {
    graph: Graph,
}

impl View for GraphBuilder {
    type V = GraphModel;

    closed spec fn view(&self) -> GraphModel {
        self.graph@
    }
}

impl GraphBuilder {
    /// The invariant of a builder: that of the table it has built so far.
    /// It holds of every builder that a program can lay hands on.
    pub open spec fn wf(&self) -> bool {
        self@.well_formed()
    }

    /// A builder whose graph has no node yet.
    pub fn new() -> (builder: GraphBuilder)
        ensures
            builder.wf(),
            builder@.nodes.len() == 0,
    {
        let nodes: Vec<NodeRecord> = Vec::new();
        assert(table(nodes@).nodes =~= Seq::<NodeModel>::empty());
        GraphBuilder { graph: Graph { nodes } }
    }

    /// The graph as it has been built so far.
    pub fn graph(&self) -> (graph: &Graph)
        ensures
            graph@ == self@,
            graph.wf(),
    {
        proof {
            use_type_invariant(&self.graph);
        }
        &self.graph
    }

    /// Ends the construction and hands over the graph.
    pub fn build(self) -> (graph: Graph)
        ensures
            graph@ == self@,
            graph.wf(),
    {
        proof {
            use_type_invariant(&self.graph);
        }
        self.graph
    }

    /// Registers a leaf: a node without operands, which holds an input or a
    /// parameter of the given shape.
    pub fn create_leaf(&mut self, shape: Shape) -> (node: Node)
        ensures
            final(self).wf(),
            node@ == old(self)@.len(),
            final(self)@ == old(self)@.with_node(None, Seq::empty(), shape),
            old(self)@.extended_by(final(self)@),
    {
        let operands: [Node; 0] = [];
        proof {
            use_type_invariant(&self.graph);
            assert(positions(operands@) =~= Seq::<nat>::empty());
        }
        self.graph.append(None, operands.as_slice(), shape)
    }

    /// Creates the node that holds the result of `operation` on `operands`.
    ///
    /// The operands are checked when the node is created: their number
    /// against the arity of the operation, then that each is a node of this
    /// graph, then their shapes against the rule of the operation. On an
    /// error the graph is left as it was.
    pub fn create_result_of_operation(
        &mut self,
        operation: Operation,
        operands: &[Node],
    ) -> (result: Result<Node, GraphError>)
        ensures
            final(self).wf(),
            old(self)@.extended_by(final(self)@),
            old(self)@.creates(operation, operands@, result, final(self)@),
    {
        proof {
            use_type_invariant(&self.graph);
        }
        let required = operation.arity();
        if operands.len() != required {
            return Err(GraphError::ArityError { operation, required, given: operands.len() });
        }
        let ghost before = self@;
        let mut shapes: Vec<Shape> = Vec::new();
        let mut k: usize = 0;
        while k < operands.len()
            invariant
                k <= operands.len(),
                operands@.len() == operation.spec_arity(),
                before == old(self)@,
                before.well_formed(),
                self@ == before,
                shapes@.len() == k,
                forall|j: int| 0 <= j < k ==> before.contains(#[trigger] operands@[j]),
                forall|j: int|
                    0 <= j < k ==> #[trigger] shapes@[j] == before.shape_of(operands@[j]),
            decreases operands.len() - k,
        {
            let node = operands[k];
            if node.index >= self.graph.nodes.len() {
                proof {
                    before.lemma_first_unknown_found(operands@, 0, k as nat);
                }
                return Err(GraphError::InvalidNodeReference { node });
            }
            shapes.push(self.graph.nodes[node.index].output_shape);
            k += 1;
        }
        proof {
            before.lemma_first_unknown_none(operands@, 0);
            assert(shapes@ =~= before.shapes_of(operands@));
        }
        match output_shape(operation, shapes.as_slice()) {
            Ok(shape) => Ok(self.graph.append(Some(operation), operands, shape)),
            Err(RuleViolation::Shape(f)) => Err(
                GraphError::ShapeMismatch {
                    node: operands[f.operand],
                    operation,
                    expected: f.expected,
                    actual: shapes[f.operand],
                },
            ),
            Err(RuleViolation::Arity { required, given }) => Err(
                GraphError::ArityError { operation, required, given },
            ),
        }
    }
}

} // verus!
