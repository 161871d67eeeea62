//! The phase operations of the inclusion block — compile, prepare, execute,
//! interrupt — and the depth-first walkers that drive one phase over a tree
//! of blocks. Every operation is specified against a mathematical
//! interpreter over views, so compiling and executing are deterministic
//! functions of the tree, the codec table, the directory stack and the
//! variable environment.

use vstd::prelude::*;
use crate::codec::{CodecError, DecodeOptions, DecodeOutcomeV, decode_spec};
use crate::dirs::{is_url, is_url_spec, join_path, join_path_spec, parent_dir, parent_of};
use crate::executor::{Executor, WalkControl};
use crate::patch::{PatchOp, PatchOpV, PatchV, PatchValue, PatchValueV, Property, ops_view};
use crate::schema::{
    ArgumentV, Block, BlockV, CompilationMessage, InclusionBlock, InclusionBlockV, MessageLevel,
    MessageV, NodeV, Paragraph, arguments_view, block_view, blocks_view, clone_blocks,
    clone_inclusion, clone_messages, clone_node, clone_opt_string,
    lemma_arguments_view_pointwise, lemma_blocks_view_pointwise, lemma_blocks_view_push,
    messages_view, node_into_blocks_spec,
};
use crate::text::{expr_name, expr_name_spec, trim, trim_spec};

verus! {

/// The immutable surroundings one compile consults: the directory stack at
/// entry and the codec's table.
pub ghost struct CompileEnv {
    pub stack: Seq<Seq<char>>,
    pub codec: Map<Seq<char>, DecodeOutcomeV>,
}

/// Resolving a source against a directory stack: the identifier handed to
/// the codec, and the directory pushed onto the stack, if any. An absolute
/// URL is taken verbatim and never touches the stack; a path is joined onto
/// the current base, and its parent directory is pushed exactly when it
/// differs from the current top.
pub open spec fn resolve_spec(stack: Seq<Seq<char>>, source: Seq<char>) -> (Seq<char>, Option<
    Seq<char>,
>) {
    if is_url_spec(source) {
        (source, None)
    } else {
        let path = if stack.len() == 0 {
            source
        } else {
            join_path_spec(stack.last(), source)
        };
        match parent_of(path) {
            Some(dir) => if stack.len() == 0 || dir != stack.last() {
                (path, Some(dir))
            } else {
                (path, None)
            },
            None => (path, None),
        }
    }
}

/// The message text reported when a decoded node is not block content.
pub open spec fn conversion_error_text() -> Seq<char> {
    "Unable to convert source into block content"@
}

/// The message text reported when nested resolution exceeds the depth budget.
pub open spec fn depth_error_text() -> Seq<char> {
    "Maximum transclusion depth exceeded"@
}

/// What resolving and decoding an identifier yields: block content, or the
/// text of the error-level message that replaces it.
pub open spec fn content_outcome(codec: Map<Seq<char>, DecodeOutcomeV>, id: Seq<char>) -> Result<
    Seq<BlockV>,
    Seq<char>,
> {
    match decode_spec(codec, id) {
        DecodeOutcomeV::Decoded(n) => match node_into_blocks_spec(n) {
            Some(bs) => Ok(bs),
            None => Err(conversion_error_text()),
        },
        DecodeOutcomeV::Failed(m) => Err(m),
    }
}

/// The patch group that destructively replaces a node's content while
/// preserving the identity of the appended children.
pub open spec fn content_patch(node_id: u64, bs: Seq<BlockV>) -> PatchV {
    PatchV {
        node_id,
        ops: seq![
            PatchOpV::Clear(Property::Content),
            PatchOpV::Append(Property::Content, PatchValueV::Blocks(bs)),
        ],
    }
}

/// The patch group that clears a node's content.
pub open spec fn clear_patch(node_id: u64) -> PatchV {
    PatchV { node_id, ops: seq![PatchOpV::Clear(Property::Content)] }
}

/// The patch group that replaces a node's compilation messages.
pub open spec fn messages_patch(node_id: u64, msgs: Option<Seq<MessageV>>) -> PatchV {
    PatchV {
        node_id,
        ops: seq![
            PatchOpV::Assign(Property::CompilationMessages, PatchValueV::Messages(msgs)),
        ],
    }
}

/// What the compile operation of an inclusion block does, at the level of
/// views: a blank source leaves the block alone; otherwise the source is
/// resolved, the content replaced and patched, the fresh content compiled
/// with the pushed directory in scope, and the messages replaced.
pub open spec fn compile_inclusion_spec(ib: InclusionBlockV, env: CompileEnv, fuel: nat) -> (
    InclusionBlockV,
    Seq<PatchV>,
)
    decreases fuel, 0int, 0int,
{
    if trim_spec(ib.source).len() == 0 {
        (ib, Seq::empty())
    } else if fuel == 0 {
        let msgs = seq![MessageV { level: MessageLevel::Error, message: depth_error_text() }];
        (
            InclusionBlockV { content: None, compilation_messages: Some(msgs), ..ib },
            seq![clear_patch(ib.node_id), messages_patch(ib.node_id, Some(msgs))],
        )
    } else {
        let (id, pushed) = resolve_spec(env.stack, ib.source);
        let inner_stack = match pushed {
            Some(d) => env.stack.push(d),
            None => env.stack,
        };
        match content_outcome(env.codec, id) {
            Ok(bs) => {
                let (bs2, ps) = compile_blocks_spec(
                    bs,
                    CompileEnv { stack: inner_stack, codec: env.codec },
                    (fuel - 1) as nat,
                );
                (
                    InclusionBlockV { content: Some(bs2), compilation_messages: None, ..ib },
                    seq![content_patch(ib.node_id, bs)] + ps + seq![
                        messages_patch(ib.node_id, None),
                    ],
                )
            },
            Err(m) => {
                let msgs = seq![MessageV { level: MessageLevel::Error, message: m }];
                (
                    InclusionBlockV { content: None, compilation_messages: Some(msgs), ..ib },
                    seq![clear_patch(ib.node_id), messages_patch(ib.node_id, Some(msgs))],
                )
            },
        }
    }
}

/// One compile step of the walker over a single block: a paragraph is left
/// alone; an inclusion block runs its compile operation, and when that
/// signals `Continue` (blank source) the walker recurses into the existing
/// content, spending one unit of the depth budget.
pub open spec fn compile_block_spec(b: BlockV, env: CompileEnv, fuel: nat) -> (BlockV, Seq<PatchV>)
    decreases fuel, 1int, 0int,
{
    match b {
        BlockV::Paragraph(_) => (b, Seq::empty()),
        BlockV::Inclusion(ib) => {
            if trim_spec(ib.source).len() == 0 {
                if fuel == 0 {
                    (b, Seq::empty())
                } else {
                    match ib.content {
                        Some(bs) => {
                            let (bs2, ps) = compile_blocks_spec(bs, env, (fuel - 1) as nat);
                            (BlockV::Inclusion(InclusionBlockV { content: Some(bs2), ..ib }), ps)
                        },
                        None => (b, Seq::empty()),
                    }
                }
            } else {
                let (ib2, ps) = compile_inclusion_spec(ib, env, fuel);
                (BlockV::Inclusion(ib2), ps)
            }
        },
    }
}

/// The compile walk over a sequence of sibling blocks, left to right.
pub open spec fn compile_blocks_spec(bs: Seq<BlockV>, env: CompileEnv, fuel: nat) -> (
    Seq<BlockV>,
    Seq<PatchV>,
)
    decreases fuel, 2int, bs.len(),
{
    if bs.len() == 0 {
        (Seq::empty(), Seq::empty())
    } else {
        let (b1, p1) = compile_block_spec(bs[0], env, fuel);
        let (rest, p2) = compile_blocks_spec(bs.drop_first(), env, fuel);
        (seq![b1] + rest, p1 + p2)
    }
}

/// Turns a codec failure into an error-level compilation message.
pub fn error_to_compilation_message(error: CodecError) -> (r: CompilationMessage)
    ensures
        r@ == (MessageV { level: MessageLevel::Error, message: error.message@ }),
{
    CompilationMessage { level: MessageLevel::Error, message: error.message }
}

/// Resolves a source into content. Returns the decoded blocks (or nothing,
/// with the error message, when decoding or conversion failed), whether a
/// directory was pushed and a pop is owed after the nested compile, and the
/// messages raised during resolution.
pub fn source_to_content(source: &String, media_type: &Option<String>, ex: &mut Executor) -> (r: (
    Option<Vec<Block>>,
    bool,
    Vec<CompilationMessage>,
))
    ensures
        ({
            let (id, pushed) = resolve_spec(old(ex).directory_stack@, source@);
            &&& final(ex).directory_stack@ == (match pushed {
                Some(d) => old(ex).directory_stack@.push(d),
                None => old(ex).directory_stack@,
            })
            &&& r.1 == (pushed is Some)
            &&& final(ex).kernels == old(ex).kernels
            &&& final(ex).patches == old(ex).patches
            &&& final(ex).codec == old(ex).codec
            &&& final(ex).decode_options == old(ex).decode_options
            &&& final(ex).default_language == old(ex).default_language
            &&& (match content_outcome(old(ex).codec@, id) {
                Ok(bs) => match r.0 {
                    Some(v) => blocks_view(v@) == bs && r.2@.len() == 0,
                    None => false,
                },
                Err(m) => r.0 is None && messages_view(r.2@) == seq![
                    MessageV { level: MessageLevel::Error, message: m },
                ],
            })
        }),
{
    let mut messages: Vec<CompilationMessage> = Vec::new();
    let (identifier, pop_dir) = if is_url(source.as_str()) {
        (source.clone(), false)
    } else {
        // Resolve the path against the current top of the directory stack,
        // pushing the parent directory when it opens a new scope.
        let top = ex.directory_stack.top();
        let path = match &top {
            Some(dir) => join_path(dir.as_str(), source.as_str()),
            None => source.clone(),
        };
        let pop = match parent_dir(path.as_str()) {
            Some(dir) => {
                let differs = match &top {
                    Some(t) => !crate::text::str_eq(dir.as_str(), t.as_str()),
                    None => true,
                };
                if differs {
                    ex.directory_stack.push(dir);
                    true
                } else {
                    false
                }
            },
            None => false,
        };
        (path, pop)
    };
    // Decode with the document's ambient format cleared, so only the source's
    // own media type steers the decode.
    let options = DecodeOptions { media_type: clone_opt_string(media_type), format: None };
    let content = match ex.codec.decode(identifier.as_str(), &options) {
        Ok(node) => match node.try_into_blocks() {
            Ok(blocks) => Some(blocks),
            Err(()) => {
                messages.push(
                    CompilationMessage::new(
                        MessageLevel::Error,
                        String::from_str("Unable to convert source into block content"),
                    ),
                );
                None
            },
        },
        Err(error) => {
            messages.push(error_to_compilation_message(error));
            None
        },
    };
    proof {
        if messages@.len() > 0 {
            assert(messages_view(messages@) =~= seq![
                MessageV {
                    level: MessageLevel::Error,
                    message: messages@[0].message@,
                },
            ]);
        }
    }
    (content, pop_dir, messages)
}

impl InclusionBlock {
    /// Compiles this block: a blank source is left for the default recursion
    /// (`Continue`); otherwise the source is resolved into fresh content,
    /// which replaces the old destructively, is patched as a clear-append
    /// pair so observers keep child identities, and is compiled in place
    /// while the pushed directory scope stays open; the messages raised by
    /// resolution replace the old ones. Returns `Break` because the subtree
    /// was already compiled here.
    pub fn compile(self, ex: &mut Executor, fuel: u64) -> (r: (InclusionBlock, WalkControl))
        ensures
            ({
                let (ib2, ps) = compile_inclusion_spec(
                    self@,
                    CompileEnv { stack: old(ex).directory_stack@, codec: old(ex).codec@ },
                    fuel as nat,
                );
                &&& r.0@ == ib2
                &&& final(ex).patches@ == old(ex).patches@ + ps
                &&& final(ex).directory_stack@ == old(ex).directory_stack@
                &&& final(ex).kernels == old(ex).kernels
                &&& final(ex).codec == old(ex).codec
                &&& final(ex).decode_options == old(ex).decode_options
                &&& final(ex).default_language == old(ex).default_language
                &&& (r.1 == WalkControl::Continue <==> trim_spec(self@.source).len() == 0)
                &&& (r.1 == WalkControl::Continue || r.1 == WalkControl::Break)
            }),
        decreases fuel, 0int, 0int,
    {
        let t = trim(self.source.as_str());
        if t.as_str().is_empty() {
            proof {
                assert(old(ex).patches@ + Seq::<PatchV>::empty() =~= old(ex).patches@);
            }
            return (self, WalkControl::Continue);
        }
        let mut me = self;
        if fuel == 0 {
            // The depth budget is spent: report it instead of resolving.
            let msg = CompilationMessage::new(
                MessageLevel::Error,
                String::from_str("Maximum transclusion depth exceeded"),
            );
            me.content = None;
            let clear_ops = vec![PatchOp::Clear(Property::Content)];
            proof {
                assert(ops_view(clear_ops@) =~= clear_patch(me.node_id).ops);
            }
            ex.patch(me.node_id, clear_ops);
            let msgs = vec![msg];
            me.compilation_messages = Some(clone_messages(&msgs));
            proof {
                assert(messages_view(msgs@) =~= seq![
                    MessageV { level: MessageLevel::Error, message: depth_error_text() },
                ]);
            }
            let assign_ops = vec![
                PatchOp::Assign(Property::CompilationMessages, PatchValue::Messages(Some(msgs))),
            ];
            proof {
                assert(ops_view(assign_ops@) =~= messages_patch(
                    me.node_id,
                    Some(
                        seq![MessageV { level: MessageLevel::Error, message: depth_error_text() }],
                    ),
                ).ops);
            }
            ex.patch(me.node_id, assign_ops);
            proof {
                let (ib2, ps) = compile_inclusion_spec(
                    self@,
                    CompileEnv { stack: old(ex).directory_stack@, codec: old(ex).codec@ },
                    fuel as nat,
                );
                assert(ex.patches@ =~= old(ex).patches@ + ps);
                assert(me@ == ib2);
            }
            return (me, WalkControl::Break);
        }
        let (content_opt, pop_dir, messages) = source_to_content(&me.source, &me.media_type, ex);
        match content_opt {
            Some(content) => {
                let for_patch = clone_blocks(&content);
                let content_ops = vec![
                    PatchOp::Clear(Property::Content),
                    PatchOp::Append(Property::Content, PatchValue::Blocks(for_patch)),
                ];
                proof {
                    assert(ops_view(content_ops@) =~= content_patch(
                        me.node_id,
                        blocks_view(content@),
                    ).ops);
                }
                ex.patch(me.node_id, content_ops);
                // Compile the fresh content while the pushed directory scope
                // is still open, so nested relative sources resolve under it.
                let compiled = compile_blocks(&content, ex, fuel - 1);
                me.content = Some(compiled);
            },
            None => {
                me.content = None;
                let clear_ops = vec![PatchOp::Clear(Property::Content)];
                proof {
                    assert(ops_view(clear_ops@) =~= clear_patch(me.node_id).ops);
                }
                ex.patch(me.node_id, clear_ops);
            },
        }
        // Leave the directory scope opened by the resolution, if any.
        if pop_dir {
            let popped = ex.directory_stack.pop();
            proof {
                assert(popped is Some);
            }
        }
        let msgs_opt = if messages.len() > 0 {
            Some(messages)
        } else {
            None
        };
        me.compilation_messages = match &msgs_opt {
            Some(m) => Some(clone_messages(m)),
            None => None,
        };
        let ghost msgs_view: Option<Seq<MessageV>> = match &msgs_opt {
            Some(m) => Some(messages_view(m@)),
            None => None,
        };
        let assign_ops = vec![
            PatchOp::Assign(Property::CompilationMessages, PatchValue::Messages(msgs_opt)),
        ];
        proof {
            assert(ops_view(assign_ops@) =~= messages_patch(me.node_id, msgs_view).ops);
        }
        ex.patch(me.node_id, assign_ops);
        proof {
            let env = CompileEnv { stack: old(ex).directory_stack@, codec: old(ex).codec@ };
            let (ib2, ps) = compile_inclusion_spec(self@, env, fuel as nat);
            let (id, pushed) = resolve_spec(old(ex).directory_stack@, self@.source);
            match content_outcome(old(ex).codec@, id) {
                Ok(bs) => {
                    let inner = CompileEnv {
                        stack: (match pushed {
                            Some(d) => old(ex).directory_stack@.push(d),
                            None => old(ex).directory_stack@,
                        }),
                        codec: old(ex).codec@,
                    };
                    let (bs2, psn) = compile_blocks_spec(bs, inner, (fuel - 1) as nat);
                    assert(ps == seq![content_patch(self@.node_id, bs)] + psn + seq![
                        messages_patch(self@.node_id, None),
                    ]);
                    assert(ex.patches@ =~= old(ex).patches@ + ps);
                    if pushed is Some {
                        assert(old(ex).directory_stack@.push(pushed->Some_0).drop_last()
                            =~= old(ex).directory_stack@);
                    }
                    assert(me@ == ib2);
                },
                Err(m) => {
                    assert(ps == seq![
                        clear_patch(self@.node_id),
                        messages_patch(
                            self@.node_id,
                            Some(seq![MessageV { level: MessageLevel::Error, message: m }]),
                        ),
                    ]);
                    assert(messages_view(messages@) == seq![
                        MessageV { level: MessageLevel::Error, message: m },
                    ]);
                    assert(messages_view(messages@).len() == 1);
                    assert(messages@.len() == 1);
                    assert(msgs_view == Some(
                        seq![MessageV { level: MessageLevel::Error, message: m }],
                    ));
                    assert(ops_view(assign_ops@) == messages_patch(self@.node_id, msgs_view).ops);
                    assert(ex.patches@.len() == old(ex).patches@.len() + 2);
                    assert(ex.patches@[old(ex).patches@.len() as int] == clear_patch(
                        self@.node_id,
                    ));
                    assert(ex.patches@[old(ex).patches@.len() as int + 1] == messages_patch(
                        self@.node_id,
                        Some(seq![MessageV { level: MessageLevel::Error, message: m }]),
                    ));
                    assert(ex.patches@ =~= old(ex).patches@ + ps);
                    if pushed is Some {
                        assert(old(ex).directory_stack@.push(pushed->Some_0).drop_last()
                            =~= old(ex).directory_stack@);
                    }
                    assert(me@ == ib2);
                },
            }
        }
        (me, WalkControl::Break)
    }
}

/// One compile step of the walker over a single block. A paragraph is
/// copied unchanged; an inclusion block is compiled, and when it signals
/// `Continue` the walker recurses into its existing content.
pub fn compile_block(b: &Block, ex: &mut Executor, fuel: u64) -> (r: Block)
    ensures
        ({
            let (b2, ps) = compile_block_spec(
                block_view(*b),
                CompileEnv { stack: old(ex).directory_stack@, codec: old(ex).codec@ },
                fuel as nat,
            );
            &&& r@ == b2
            &&& final(ex).patches@ == old(ex).patches@ + ps
            &&& final(ex).directory_stack@ == old(ex).directory_stack@
            &&& final(ex).kernels == old(ex).kernels
            &&& final(ex).codec == old(ex).codec
            &&& final(ex).decode_options == old(ex).decode_options
            &&& final(ex).default_language == old(ex).default_language
        }),
    decreases fuel, 1int, 0int,
{
    match b {
        Block::Paragraph(p) => {
            proof {
                assert(old(ex).patches@ + Seq::<PatchV>::empty() =~= old(ex).patches@);
            }
            Block::Paragraph(Paragraph { node_id: p.node_id, text: p.text.clone() })
        },
        Block::Inclusion(ib) => {
            let copy = clone_inclusion(ib);
            let (mut ib2, ctl) = copy.compile(ex, fuel);
            if ctl == WalkControl::Continue && fuel > 0 {
                let compiled = match &ib2.content {
                    Some(c) => Some(compile_blocks(c, ex, fuel - 1)),
                    None => None,
                };
                if let Some(c2) = compiled {
                    ib2.content = Some(c2);
                }
            }
            proof {
                assert(ex.patches@ =~= old(ex).patches@ + compile_block_spec(
                    block_view(*b),
                    CompileEnv { stack: old(ex).directory_stack@, codec: old(ex).codec@ },
                    fuel as nat,
                ).1);
            }
            Block::Inclusion(ib2)
        },
    }
}

/// The compile walk over sibling blocks, left to right. Returns the
/// compiled blocks; patches accumulate in emission order on the executor.
/// No block variant of this engine ever signals `Stop`, so the walk always
/// reaches the last sibling.
pub fn compile_blocks(v: &Vec<Block>, ex: &mut Executor, fuel: u64) -> (r: Vec<Block>)
    ensures
        ({
            let (bs2, ps) = compile_blocks_spec(
                blocks_view(v@),
                CompileEnv { stack: old(ex).directory_stack@, codec: old(ex).codec@ },
                fuel as nat,
            );
            &&& blocks_view(r@) == bs2
            &&& final(ex).patches@ == old(ex).patches@ + ps
            &&& final(ex).directory_stack@ == old(ex).directory_stack@
            &&& final(ex).kernels == old(ex).kernels
            &&& final(ex).codec == old(ex).codec
            &&& final(ex).decode_options == old(ex).decode_options
            &&& final(ex).default_language == old(ex).default_language
        }),
    decreases fuel, 2int, v@.len(),
{
    let ghost env = CompileEnv { stack: old(ex).directory_stack@, codec: old(ex).codec@ };
    let ghost bsv = blocks_view(v@);
    let ghost full = compile_blocks_spec(bsv, env, fuel as nat);
    proof {
        lemma_blocks_view_pointwise(v@);
    }
    let mut out: Vec<Block> = Vec::new();
    let ghost mut acc: Seq<PatchV> = Seq::empty();
    let mut i: usize = 0;
    proof {
        assert(bsv.subrange(0, bsv.len() as int) =~= bsv);
        assert(old(ex).patches@ + acc =~= old(ex).patches@);
    }
    while i < v.len()
        invariant
            i <= v.len(),
            v@.len() == bsv.len(),
            bsv == blocks_view(v@),
            full == compile_blocks_spec(bsv, env, fuel as nat),
            env == (CompileEnv { stack: old(ex).directory_stack@, codec: old(ex).codec@ }),
            ex.patches@ == old(ex).patches@ + acc,
            ex.directory_stack@ == old(ex).directory_stack@,
            ex.kernels == old(ex).kernels,
            ex.codec == old(ex).codec,
            ex.decode_options == old(ex).decode_options,
            ex.default_language == old(ex).default_language,
            ({
                let (rb, rp) = compile_blocks_spec(
                    bsv.subrange(i as int, bsv.len() as int),
                    env,
                    fuel as nat,
                );
                full.0 == blocks_view(out@) + rb && full.1 == acc + rp
            }),
        decreases v@.len() - i,
    {
        let ghost pre_out = out@;
        let ghost pre_acc = acc;
        let ghost rem = bsv.subrange(i as int, bsv.len() as int);
        proof {
            lemma_blocks_view_pointwise(v@);
        }
        let b2 = compile_block(&v[i], ex, fuel);
        let ghost step = compile_block_spec(bsv[i as int], env, fuel as nat);
        out.push(b2);
        proof {
            acc = pre_acc + step.1;
            assert(rem[0] == bsv[i as int]);
            assert(rem.drop_first() =~= bsv.subrange(i as int + 1, bsv.len() as int));
            lemma_blocks_view_push(pre_out, b2);
            let (rb, rp) = compile_blocks_spec(rem, env, fuel as nat);
            let (rb2, rp2) = compile_blocks_spec(
                bsv.subrange(i as int + 1, bsv.len() as int),
                env,
                fuel as nat,
            );
            assert(rb == seq![step.0] + rb2);
            assert(rp == step.1 + rp2);
            assert(blocks_view(out@) =~= blocks_view(pre_out).push(step.0));
            assert(blocks_view(out@) + rb2 =~= blocks_view(pre_out) + rb);
            assert(full.0 == blocks_view(out@) + rb2);
            assert(acc + rp2 =~= pre_acc + rp);
            assert(full.1 == acc + rp2);
            assert(ex.patches@ =~= old(ex).patches@ + acc);
        }
        i = i + 1;
    }
    proof {
        assert(bsv.subrange(v@.len() as int, bsv.len() as int) =~= Seq::<BlockV>::empty());
        assert(blocks_view(out@) + Seq::<BlockV>::empty() =~= blocks_view(out@));
        assert(acc + Seq::<PatchV>::empty() =~= acc);
    }
    out
}

/// One argument binding against the variable environment: non-empty code
/// denotes a variable to look up (binding is skipped when it is absent); a
/// literal value is used directly; an argument with neither is dropped.
pub open spec fn bind_one_spec(a: ArgumentV, k: Map<Seq<char>, NodeV>) -> Map<Seq<char>, NodeV> {
    if a.code.len() > 0 {
        let name = expr_name_spec(a.code);
        if k.contains_key(name) {
            k.insert(a.name, k[name])
        } else {
            k
        }
    } else {
        match a.value {
            Some(v) => k.insert(a.name, v),
            None => k,
        }
    }
}

/// Binding a node's declared arguments, in declaration order; earlier
/// bindings are visible to later lookups in the same sequence.
pub open spec fn bind_args_spec(args: Seq<ArgumentV>, k: Map<Seq<char>, NodeV>) -> Map<
    Seq<char>,
    NodeV,
>
    decreases args.len(),
{
    if args.len() == 0 {
        k
    } else {
        bind_args_spec(args.drop_first(), bind_one_spec(args[0], k))
    }
}

/// The execute walk over a single block: an inclusion block binds its
/// arguments strictly before its content is executed by the recursion.
pub open spec fn execute_block_spec(b: BlockV, k: Map<Seq<char>, NodeV>, fuel: nat) -> Map<
    Seq<char>,
    NodeV,
>
    decreases fuel, 1int, 0int,
{
    match b {
        BlockV::Paragraph(_) => k,
        BlockV::Inclusion(ib) => {
            let k2 = bind_args_spec(ib.arguments, k);
            if fuel > 0 {
                match ib.content {
                    Some(bs) => execute_blocks_spec(bs, k2, (fuel - 1) as nat),
                    None => k2,
                }
            } else {
                k2
            }
        },
    }
}

/// The execute walk over sibling blocks, left to right.
pub open spec fn execute_blocks_spec(bs: Seq<BlockV>, k: Map<Seq<char>, NodeV>, fuel: nat) -> Map<
    Seq<char>,
    NodeV,
>
    decreases fuel, 2int, bs.len(),
{
    if bs.len() == 0 {
        k
    } else {
        execute_blocks_spec(bs.drop_first(), execute_block_spec(bs[0], k, fuel), fuel)
    }
}

impl InclusionBlock {
    /// Executes this block: evaluates the declared arguments against the
    /// variable environment and binds them under the node's language (or the
    /// context's default), then signals `Continue` so the content executes
    /// with the new bindings in scope. A lookup that finds nothing, and a
    /// binding the environment refuses, skip that argument without raising a
    /// message.
    pub fn execute(&self, ex: &mut Executor) -> (r: WalkControl)
        ensures
            final(ex).kernels@ == bind_args_spec(
                arguments_view(self.arguments@),
                old(ex).kernels@,
            ),
            final(ex).directory_stack == old(ex).directory_stack,
            final(ex).patches == old(ex).patches,
            final(ex).codec == old(ex).codec,
            final(ex).decode_options == old(ex).decode_options,
            final(ex).default_language == old(ex).default_language,
            r == WalkControl::Continue,
    {
        let ghost av = arguments_view(self.arguments@);
        let ghost k0 = old(ex).kernels@;
        // Arguments are evaluated here, not at compile time: expressions may
        // name variables that exist only once execution is under way.
        let lang = ex.programming_language(&None);
        let mut i: usize = 0;
        proof {
            lemma_arguments_view_pointwise(self.arguments@);
            assert(av.subrange(0, av.len() as int) =~= av);
        }
        while i < self.arguments.len()
            invariant
                i <= self.arguments.len(),
                av == arguments_view(self.arguments@),
                av.len() == self.arguments@.len(),
                bind_args_spec(av.subrange(i as int, av.len() as int), ex.kernels@)
                    == bind_args_spec(av, k0),
                k0 == old(ex).kernels@,
                ex.directory_stack == old(ex).directory_stack,
                ex.patches == old(ex).patches,
                ex.codec == old(ex).codec,
                ex.decode_options == old(ex).decode_options,
                ex.default_language == old(ex).default_language,
            decreases self.arguments@.len() - i,
        {
            proof {
                lemma_arguments_view_pointwise(self.arguments@);
                assert(av.subrange(i as int, av.len() as int)[0] == av[i as int]);
                assert(av.subrange(i as int, av.len() as int).drop_first() =~= av.subrange(
                    i as int + 1,
                    av.len() as int,
                ));
            }
            let ghost k_pre = ex.kernels@;
            let arg = &self.arguments[i];
            if !arg.code.as_str().is_empty() {
                let name = expr_name(arg.code.as_str());
                match ex.kernels.get(name.as_str()) {
                    Some(value) => {
                        ex.kernels.set(arg.name.as_str(), value, clone_opt_string(&lang));
                    },
                    None => {
                        // The variable has not been produced yet: skip the
                        // binding; this is not a compilation message.
                    },
                }
            } else {
                match &arg.value {
                    Some(v) => {
                        let value = clone_node(v);
                        ex.kernels.set(arg.name.as_str(), value, clone_opt_string(&lang));
                    },
                    None => {},
                }
            }
            proof {
                assert(ex.kernels@ == bind_one_spec(av[i as int], k_pre));
            }
            i = i + 1;
        }
        proof {
            assert(av.subrange(av.len() as int, av.len() as int) =~= Seq::<ArgumentV>::empty());
        }
        WalkControl::Continue
    }

    /// Prepares this block: a pass-through, so nested content is prepared
    /// independently by the default recursion. Mutates nothing.
    pub fn prepare(&self, ex: &mut Executor) -> (r: WalkControl)
        ensures
            *final(ex) == *old(ex),
            r == WalkControl::Continue,
    {
        WalkControl::Continue
    }

    /// Interrupts this block: a pass-through, so the signal reaches nested
    /// content. Mutates nothing.
    pub fn interrupt(&self, ex: &mut Executor) -> (r: WalkControl)
        ensures
            *final(ex) == *old(ex),
            r == WalkControl::Continue,
    {
        WalkControl::Continue
    }
}

/// The execute walk over sibling blocks, left to right: each inclusion
/// block binds its arguments, then its content executes with the bindings
/// in scope.
pub fn execute_blocks(v: &Vec<Block>, ex: &mut Executor, fuel: u64)
    ensures
        final(ex).kernels@ == execute_blocks_spec(
            blocks_view(v@),
            old(ex).kernels@,
            fuel as nat,
        ),
        final(ex).directory_stack == old(ex).directory_stack,
        final(ex).patches == old(ex).patches,
        final(ex).codec == old(ex).codec,
        final(ex).decode_options == old(ex).decode_options,
        final(ex).default_language == old(ex).default_language,
    decreases fuel, 2int, v@.len(),
{
    let ghost bsv = blocks_view(v@);
    let ghost k0 = old(ex).kernels@;
    let mut i: usize = 0;
    proof {
        lemma_blocks_view_pointwise(v@);
        assert(bsv.subrange(0, bsv.len() as int) =~= bsv);
    }
    while i < v.len()
        invariant
            i <= v.len(),
            bsv == blocks_view(v@),
            bsv.len() == v@.len(),
            execute_blocks_spec(bsv.subrange(i as int, bsv.len() as int), ex.kernels@, fuel as nat)
                == execute_blocks_spec(bsv, k0, fuel as nat),
            k0 == old(ex).kernels@,
            ex.directory_stack == old(ex).directory_stack,
            ex.patches == old(ex).patches,
            ex.codec == old(ex).codec,
            ex.decode_options == old(ex).decode_options,
            ex.default_language == old(ex).default_language,
        decreases v@.len() - i,
    {
        proof {
            lemma_blocks_view_pointwise(v@);
            assert(bsv.subrange(i as int, bsv.len() as int)[0] == bsv[i as int]);
            assert(bsv.subrange(i as int, bsv.len() as int).drop_first() =~= bsv.subrange(
                i as int + 1,
                bsv.len() as int,
            ));
        }
        let ghost k_pre = ex.kernels@;
        match &v[i] {
            Block::Paragraph(_) => {},
            Block::Inclusion(ib) => {
                let ctl = ib.execute(ex);
                if ctl == WalkControl::Continue && fuel > 0 {
                    match &ib.content {
                        Some(c) => {
                            execute_blocks(c, ex, fuel - 1);
                        },
                        None => {},
                    }
                }
            },
        }
        proof {
            assert(ex.kernels@ == execute_block_spec(bsv[i as int], k_pre, fuel as nat));
        }
        i = i + 1;
    }
    proof {
        assert(bsv.subrange(v@.len() as int, bsv.len() as int) =~= Seq::<BlockV>::empty());
    }
}

/// The prepare walk over sibling blocks: a pass-through that visits every
/// block and mutates nothing.
pub fn prepare_blocks(v: &Vec<Block>, ex: &mut Executor, fuel: u64)
    ensures
        *final(ex) == *old(ex),
    decreases fuel, 2int, v@.len(),
{
    let mut i: usize = 0;
    while i < v.len()
        invariant
            i <= v.len(),
            *ex == *old(ex),
        decreases v@.len() - i,
    {
        match &v[i] {
            Block::Paragraph(_) => {},
            Block::Inclusion(ib) => {
                let ctl = ib.prepare(ex);
                if ctl == WalkControl::Continue && fuel > 0 {
                    match &ib.content {
                        Some(c) => {
                            prepare_blocks(c, ex, fuel - 1);
                        },
                        None => {},
                    }
                }
            },
        }
        i = i + 1;
    }
}

/// The interrupt walk over sibling blocks: a pass-through that visits every
/// block and mutates nothing.
pub fn interrupt_blocks(v: &Vec<Block>, ex: &mut Executor, fuel: u64)
    ensures
        *final(ex) == *old(ex),
    decreases fuel, 2int, v@.len(),
{
    let mut i: usize = 0;
    while i < v.len()
        invariant
            i <= v.len(),
            *ex == *old(ex),
        decreases v@.len() - i,
    {
        match &v[i] {
            Block::Paragraph(_) => {},
            Block::Inclusion(ib) => {
                let ctl = ib.interrupt(ex);
                if ctl == WalkControl::Continue && fuel > 0 {
                    match &ib.content {
                        Some(c) => {
                            interrupt_blocks(c, ex, fuel - 1);
                        },
                        None => {},
                    }
                }
            },
        }
        i = i + 1;
    }
}

} // verus!
