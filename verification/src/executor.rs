//! The shared execution context for one document session: kernels, directory
//! stack, patch sink, codec and decode configuration, and the walk-control
//! signal that phase operations return.

use vstd::prelude::*;
use crate::codec::{Codec, DecodeOptions};
use crate::dirs::DirectoryStack;
use crate::kernel::KernelSet;
use crate::patch::{PatchOp, PatchSink, PatchV, ops_view};
use crate::schema::{clone_opt_string, opt_str_view};

verus! {

/// The signal a phase operation returns to the walker: recurse into this
/// node's children, treat the subtree as already handled, or abort the walk.
#[derive(Clone, Copy, PartialEq, Eq, Structural, Debug)]
pub enum WalkControl {
    Continue,
    Break,
    Stop,
}

/// The shared context threaded through one phase's walk over the tree.
/// `decode_options` is the session's ambient decode configuration; source
/// resolution overrides its media type with the block's own and always
/// clears its format, so it never steers a transcluded decode.
pub struct Executor {
    pub kernels: KernelSet,
    pub directory_stack: DirectoryStack,
    pub patches: PatchSink,
    pub codec: Codec,
    pub decode_options: Option<DecodeOptions>,
    pub default_language: Option<String>,
}

impl Executor {
    /// A fresh context around the given codec, with an empty environment,
    /// an empty directory stack and an empty patch sink.
    pub fn new(codec: Codec) -> (r: Executor)
        ensures
            r.kernels@ == Map::<Seq<char>, crate::schema::NodeV>::empty(),
            r.directory_stack@ == Seq::<Seq<char>>::empty(),
            r.patches@ == Seq::<PatchV>::empty(),
            r.codec == codec,
            r.decode_options is None,
            r.default_language is None,
    {
        Executor {
            kernels: KernelSet::new(),
            directory_stack: DirectoryStack::new(),
            patches: PatchSink::new(),
            codec,
            decode_options: None,
            default_language: None,
        }
    }

    /// Emits one ordered group of operations against a node.
    pub fn patch(&mut self, node_id: u64, ops: Vec<PatchOp>)
        ensures
            final(self).patches@ == old(self).patches@.push(
                PatchV { node_id, ops: ops_view(ops@) },
            ),
            final(self).kernels == old(self).kernels,
            final(self).directory_stack == old(self).directory_stack,
            final(self).codec == old(self).codec,
            final(self).decode_options == old(self).decode_options,
            final(self).default_language == old(self).default_language,
    {
        self.patches.apply(node_id, ops);
    }

    /// The programming language in effect for a node: the node's own, or the
    /// context's default when the node declares none.
    pub fn programming_language(&self, lang: &Option<String>) -> (r: Option<String>)
        ensures
            opt_str_view(r) == (match lang {
                Some(_) => opt_str_view(*lang),
                None => opt_str_view(self.default_language),
            }),
    {
        match lang {
            Some(l) => Some(l.clone()),
            None => clone_opt_string(&self.default_language),
        }
    }
}

} // verus!
