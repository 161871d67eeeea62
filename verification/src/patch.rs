//! Incremental-update protocol: ordered, property-addressed mutation
//! operations accumulated against node identifiers.

use vstd::prelude::*;
use crate::schema::{Block, BlockV, CompilationMessage, MessageV, blocks_view, messages_view};

verus! {

/// A property of a block that patch operations address.
#[derive(Clone, Copy, PartialEq, Eq, Structural, Debug)]
pub enum Property {
    Content,
    CompilationMessages,
}

/// The payload carried by an `Append` or `Assign` operation.
#[derive(Debug, PartialEq, Eq)]
pub enum PatchValue {
    Blocks(Vec<Block>),
    Messages(Option<Vec<CompilationMessage>>),
}

/// One property-level mutation. `Clear` empties a property, `Append` adds to
/// it, and `Assign` replaces it outright.
#[derive(Debug, PartialEq, Eq)]
pub enum PatchOp {
    Clear(Property),
    Append(Property, PatchValue),
    Assign(Property, PatchValue),
}

/// An ordered group of operations addressed to one node.
#[derive(Debug, PartialEq, Eq)]
pub struct Patch {
    pub node_id: u64,
    pub ops: Vec<PatchOp>,
}

/// Accumulates patches, in emission order, for incremental propagation to
/// observers.
#[derive(Debug, PartialEq, Eq)]
pub struct PatchSink {
    pub patches: Vec<Patch>,
}

/// Mathematical view of a `PatchValue`.
pub ghost enum PatchValueV {
    Blocks(Seq<BlockV>),
    Messages(Option<Seq<MessageV>>),
}

/// Mathematical view of a `PatchOp`.
pub ghost enum PatchOpV {
    Clear(Property),
    Append(Property, PatchValueV),
    Assign(Property, PatchValueV),
}

/// Mathematical view of a `Patch`.
pub ghost struct PatchV {
    pub node_id: u64,
    pub ops: Seq<PatchOpV>,
}

pub open spec fn patch_value_view(v: PatchValue) -> PatchValueV {
    match v {
        PatchValue::Blocks(b) => PatchValueV::Blocks(blocks_view(b@)),
        PatchValue::Messages(m) => PatchValueV::Messages(
            match m {
                Some(ms) => Some(messages_view(ms@)),
                None => None,
            },
        ),
    }
}

pub open spec fn patch_op_view(op: PatchOp) -> PatchOpV {
    match op {
        PatchOp::Clear(p) => PatchOpV::Clear(p),
        PatchOp::Append(p, v) => PatchOpV::Append(p, patch_value_view(v)),
        PatchOp::Assign(p, v) => PatchOpV::Assign(p, patch_value_view(v)),
    }
}

pub open spec fn ops_view(ops: Seq<PatchOp>) -> Seq<PatchOpV> {
    Seq::new(ops.len(), |i: int| patch_op_view(ops[i]))
}

pub open spec fn patch_view(p: Patch) -> PatchV {
    PatchV { node_id: p.node_id, ops: ops_view(p.ops@) }
}

impl View for Patch {
    type V = PatchV;

    open spec fn view(&self) -> PatchV {
        patch_view(*self)
    }
}

impl View for PatchSink {
    type V = Seq<PatchV>;

    open spec fn view(&self) -> Seq<PatchV> {
        Seq::new(self.patches@.len(), |i: int| patch_view(self.patches@[i]))
    }
}

impl PatchSink {
    /// An empty sink.
    pub fn new() -> (r: PatchSink)
        ensures
            r@ == Seq::<PatchV>::empty(),
    {
        let r = PatchSink { patches: Vec::new() };
        proof {
            assert(r@ =~= Seq::<PatchV>::empty());
        }
        r
    }

    /// Records one ordered group of operations against a node. Consumers must
    /// apply groups in the order accumulated here.
    pub fn apply(&mut self, node_id: u64, ops: Vec<PatchOp>)
        ensures
            final(self)@ == old(self)@.push(PatchV { node_id, ops: ops_view(ops@) }),
    {
        self.patches.push(Patch { node_id, ops });
        proof {
            assert(self@ =~= old(self)@.push(PatchV { node_id, ops: ops_view(ops@) }));
        }
    }

    /// The number of accumulated patches.
    pub fn len(&self) -> (r: usize)
        ensures
            r == self@.len(),
    {
        self.patches.len()
    }
}

} // verus!
