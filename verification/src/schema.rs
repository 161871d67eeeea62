//! The document data model: nodes, blocks, inclusion blocks, arguments and
//! compilation messages, together with their mathematical views.

use vstd::prelude::*;

verus! {

/// Severity of a compilation message.
#[derive(Clone, Copy, PartialEq, Eq, Structural, Debug)]
pub enum MessageLevel {
    Info,
    Warning,
    Error,
}

/// How an executable block is scheduled for execution.
#[derive(Clone, Copy, PartialEq, Eq, Structural, Debug)]
pub enum ExecutionMode {
    Always,
    Auto,
    Locked,
}

/// A leveled diagnostic attached to a block after compilation.
#[derive(Debug, PartialEq, Eq)]
pub struct CompilationMessage {
    pub level: MessageLevel,
    pub message: String,
}

/// A document value: scalar, text, or a sequence of blocks.
#[derive(Debug, PartialEq, Eq)]
pub enum Node {
    Null,
    Boolean(bool),
    Integer(i64),
    Text(String),
    Blocks(Vec<Block>),
}

/// One variant of the recursive document tree.
#[derive(Debug, PartialEq, Eq)]
pub enum Block {
    Inclusion(InclusionBlock),
    Paragraph(Paragraph),
}

/// A plain block of text, the representative non-executable block.
#[derive(Debug, PartialEq, Eq)]
pub struct Paragraph {
    pub node_id: u64,
    pub text: String,
}

/// A call-time argument of an inclusion block: either an expression (`code`)
/// or a literal (`value`) supplies the bound value.
#[derive(Debug, PartialEq, Eq)]
pub struct Argument {
    pub name: String,
    pub code: String,
    pub value: Option<Node>,
}

/// The executable block that pulls external content into the document.
#[derive(Debug, PartialEq, Eq)]
pub struct InclusionBlock {
    pub node_id: u64,
    pub source: String,
    pub media_type: Option<String>,
    pub select: Option<String>,
    pub execution_mode: Option<ExecutionMode>,
    pub arguments: Vec<Argument>,
    pub content: Option<Vec<Block>>,
    pub compilation_messages: Option<Vec<CompilationMessage>>,
}

/// Mathematical view of a `CompilationMessage`.
pub ghost struct MessageV {
    pub level: MessageLevel,
    pub message: Seq<char>,
}

/// Mathematical view of a `Node`.
pub ghost enum NodeV {
    Null,
    Boolean(bool),
    Integer(i64),
    Text(Seq<char>),
    Blocks(Seq<BlockV>),
}

/// Mathematical view of a `Block`.
pub ghost enum BlockV {
    Inclusion(InclusionBlockV),
    Paragraph(ParagraphV),
}

/// Mathematical view of a `Paragraph`.
pub ghost struct ParagraphV {
    pub node_id: u64,
    pub text: Seq<char>,
}

/// Mathematical view of an `Argument`.
pub ghost struct ArgumentV {
    pub name: Seq<char>,
    pub code: Seq<char>,
    pub value: Option<NodeV>,
}

/// Mathematical view of an `InclusionBlock`.
pub ghost struct InclusionBlockV {
    pub node_id: u64,
    pub source: Seq<char>,
    pub media_type: Option<Seq<char>>,
    pub select: Option<Seq<char>>,
    pub execution_mode: Option<ExecutionMode>,
    pub arguments: Seq<ArgumentV>,
    pub content: Option<Seq<BlockV>>,
    pub compilation_messages: Option<Seq<MessageV>>,
}

pub open spec fn message_view(m: CompilationMessage) -> MessageV {
    MessageV { level: m.level, message: m.message@ }
}

pub open spec fn messages_view(ms: Seq<CompilationMessage>) -> Seq<MessageV> {
    ms.map(|i: int, m: CompilationMessage| message_view(m))
}

pub open spec fn opt_str_view(s: Option<String>) -> Option<Seq<char>> {
    match s {
        Some(t) => Some(t@),
        None => None,
    }
}

pub open spec fn node_view(n: Node) -> NodeV
    decreases n,
{
    match n {
        Node::Null => NodeV::Null,
        Node::Boolean(b) => NodeV::Boolean(b),
        Node::Integer(i) => NodeV::Integer(i),
        Node::Text(s) => NodeV::Text(s@),
        Node::Blocks(v) => NodeV::Blocks(blocks_view(v@)),
    }
}

pub open spec fn blocks_view(s: Seq<Block>) -> Seq<BlockV>
    decreases s,
{
    if s.len() == 0 {
        Seq::empty()
    } else {
        seq![block_view(s[0])] + blocks_view(s.drop_first())
    }
}

pub open spec fn block_view(b: Block) -> BlockV
    decreases b,
{
    match b {
        Block::Inclusion(ib) => BlockV::Inclusion(inclusion_view(ib)),
        Block::Paragraph(p) => BlockV::Paragraph(ParagraphV { node_id: p.node_id, text: p.text@ }),
    }
}

pub open spec fn arguments_view(s: Seq<Argument>) -> Seq<ArgumentV>
    decreases s,
{
    if s.len() == 0 {
        Seq::empty()
    } else {
        seq![argument_view(s[0])] + arguments_view(s.drop_first())
    }
}

pub open spec fn argument_view(a: Argument) -> ArgumentV
    decreases a,
{
    ArgumentV {
        name: a.name@,
        code: a.code@,
        value: match a.value {
            Some(n) => Some(node_view(n)),
            None => None,
        },
    }
}

pub open spec fn inclusion_view(ib: InclusionBlock) -> InclusionBlockV
    decreases ib,
{
    InclusionBlockV {
        node_id: ib.node_id,
        source: ib.source@,
        media_type: opt_str_view(ib.media_type),
        select: opt_str_view(ib.select),
        execution_mode: ib.execution_mode,
        arguments: arguments_view(ib.arguments@),
        content: match ib.content {
            Some(v) => Some(blocks_view(v@)),
            None => None,
        },
        compilation_messages: match ib.compilation_messages {
            Some(ms) => Some(messages_view(ms@)),
            None => None,
        },
    }
}

pub proof fn lemma_blocks_view_pointwise(s: Seq<Block>)
    ensures
        blocks_view(s).len() == s.len(),
        forall|i: int| 0 <= i < s.len() ==> blocks_view(s)[i] == block_view(#[trigger] s[i]),
    decreases s.len(),
{
    if s.len() > 0 {
        lemma_blocks_view_pointwise(s.drop_first());
        assert forall|i: int| 0 <= i < s.len() implies blocks_view(s)[i] == block_view(#[trigger] s[i]) by {
            if i > 0 {
                assert(s.drop_first()[i - 1] == s[i]);
                assert(blocks_view(s)[i] == blocks_view(s.drop_first())[i - 1]);
            }
        }
    }
}

pub proof fn lemma_blocks_view_push(s: Seq<Block>, b: Block)
    ensures
        blocks_view(s.push(b)) == blocks_view(s).push(block_view(b)),
    decreases s.len(),
{
    if s.len() == 0 {
        assert(s.push(b).drop_first() =~= s);
        assert(blocks_view(s.push(b)) =~= blocks_view(s).push(block_view(b)));
    } else {
        assert(s.push(b)[0] == s[0]);
        assert(s.push(b).drop_first() =~= s.drop_first().push(b));
        lemma_blocks_view_push(s.drop_first(), b);
        assert(blocks_view(s.push(b)) == seq![block_view(s[0])] + blocks_view(
            s.drop_first(),
        ).push(block_view(b)));
        assert(blocks_view(s.push(b)) =~= blocks_view(s).push(block_view(b)));
    }
}

pub proof fn lemma_arguments_view_pointwise(s: Seq<Argument>)
    ensures
        arguments_view(s).len() == s.len(),
        forall|i: int| 0 <= i < s.len() ==> arguments_view(s)[i] == argument_view(#[trigger] s[i]),
    decreases s.len(),
{
    if s.len() > 0 {
        lemma_arguments_view_pointwise(s.drop_first());
        assert forall|i: int| 0 <= i < s.len() implies arguments_view(s)[i] == argument_view(
            #[trigger] s[i],
        ) by {
            if i > 0 {
                assert(s.drop_first()[i - 1] == s[i]);
                assert(arguments_view(s)[i] == arguments_view(s.drop_first())[i - 1]);
            }
        }
    }
}

impl CompilationMessage {
    /// Builds a message with the given severity and text.
    pub fn new(level: MessageLevel, message: String) -> (r: CompilationMessage)
        ensures
            r@ == (MessageV { level, message: message@ }),
    {
        CompilationMessage { level, message }
    }
}

/// Copies a message, keeping its view.
pub fn clone_message(m: &CompilationMessage) -> (r: CompilationMessage)
    ensures
        r@ == m@,
{
    CompilationMessage { level: m.level, message: m.message.clone() }
}

/// Copies a list of messages, keeping its view.
pub fn clone_messages(v: &Vec<CompilationMessage>) -> (r: Vec<CompilationMessage>)
    ensures
        messages_view(r@) == messages_view(v@),
{
    let mut out: Vec<CompilationMessage> = Vec::new();
    let mut i: usize = 0;
    while i < v.len()
        invariant
            i <= v.len(),
            out@.len() == i,
            forall|k: int| 0 <= k < i ==> out@[k]@ == v@[k]@,
        decreases v.len() - i,
    {
        out.push(clone_message(&v[i]));
        i = i + 1;
    }
    proof {
        assert(messages_view(out@) =~= messages_view(v@));
    }
    out
}

/// Copies an optional string, keeping its view.
pub fn clone_opt_string(s: &Option<String>) -> (r: Option<String>)
    ensures
        opt_str_view(r) == opt_str_view(*s),
{
    match s {
        Some(t) => Some(t.clone()),
        None => None,
    }
}

/// Copies a node, keeping its view.
pub fn clone_node(n: &Node) -> (r: Node)
    ensures
        r@ == n@,
    decreases n,
{
    match n {
        Node::Null => Node::Null,
        Node::Boolean(b) => Node::Boolean(*b),
        Node::Integer(i) => Node::Integer(*i),
        Node::Text(s) => Node::Text(s.clone()),
        Node::Blocks(v) => Node::Blocks(clone_blocks(v)),
    }
}

/// Copies a vector of blocks, keeping its view.
pub fn clone_blocks(v: &Vec<Block>) -> (r: Vec<Block>)
    ensures
        blocks_view(r@) == blocks_view(v@),
    decreases v,
{
    let mut out: Vec<Block> = Vec::new();
    let mut i: usize = 0;
    while i < v.len()
        invariant
            i <= v.len(),
            blocks_view(out@) == blocks_view(v@.subrange(0, i as int)),
        decreases v.len() - i,
    {
        proof {
            assert(decreases_to!(v => v@));
            assert(decreases_to!(v@ => v@[i as int]));
        }
        let b = clone_block(&v[i]);
        let ghost pre = out@;
        out.push(b);
        proof {
            lemma_blocks_view_push(pre, b);
            lemma_blocks_view_push(v@.subrange(0, i as int), v@[i as int]);
            assert(v@.subrange(0, i as int).push(v@[i as int]) =~= v@.subrange(0, i as int + 1));
            assert(blocks_view(out@) == blocks_view(v@.subrange(0, i as int + 1)));
        }
        i = i + 1;
    }
    proof {
        assert(v@.subrange(0, v@.len() as int) =~= v@);
    }
    out
}

/// Copies a block, keeping its view.
pub fn clone_block(b: &Block) -> (r: Block)
    ensures
        r@ == b@,
    decreases b,
{
    match b {
        Block::Inclusion(ib) => Block::Inclusion(clone_inclusion(ib)),
        Block::Paragraph(p) => Block::Paragraph(Paragraph { node_id: p.node_id, text: p.text.clone() }),
    }
}

/// Copies an argument, keeping its view.
pub fn clone_argument(a: &Argument) -> (r: Argument)
    ensures
        r@ == a@,
    decreases a,
{
    Argument {
        name: a.name.clone(),
        code: a.code.clone(),
        value: match &a.value {
            Some(n) => Some(clone_node(n)),
            None => None,
        },
    }
}

/// Copies an inclusion block, keeping its view.
pub fn clone_inclusion(ib: &InclusionBlock) -> (r: InclusionBlock)
    ensures
        r@ == ib@,
    decreases ib,
{
    let mut args: Vec<Argument> = Vec::new();
    let mut i: usize = 0;
    while i < ib.arguments.len()
        invariant
            i <= ib.arguments.len(),
            args@.len() == i,
            forall|k: int| 0 <= k < i ==> args@[k]@ == ib.arguments@[k]@,
        decreases ib.arguments.len() - i,
    {
        proof {
            assert(decreases_to!(ib => ib.arguments));
            assert(decreases_to!(ib.arguments => ib.arguments@));
            assert(decreases_to!(ib.arguments@ => ib.arguments@[i as int]));
        }
        args.push(clone_argument(&ib.arguments[i]));
        i = i + 1;
    }
    proof {
        lemma_arguments_view_pointwise(args@);
        lemma_arguments_view_pointwise(ib.arguments@);
        assert forall|k: int| 0 <= k < args@.len() implies arguments_view(args@)[k]
            == arguments_view(ib.arguments@)[k] by {
            assert(args@[k]@ == ib.arguments@[k]@);
        }
        assert(arguments_view(args@) =~= arguments_view(ib.arguments@));
    }
    let content = match &ib.content {
        Some(v) => {
            proof {
                assert(decreases_to!(ib => ib.content));
            }
            Some(clone_blocks(v))
        },
        None => None,
    };
    let messages = match &ib.compilation_messages {
        Some(v) => Some(clone_messages(v)),
        None => None,
    };
    InclusionBlock {
        node_id: ib.node_id,
        source: ib.source.clone(),
        media_type: clone_opt_string(&ib.media_type),
        select: clone_opt_string(&ib.select),
        execution_mode: ib.execution_mode,
        arguments: args,
        content,
        compilation_messages: messages,
    }
}

/// Result of converting a decoded node into block content, at the level of views.
pub open spec fn node_into_blocks_spec(n: NodeV) -> Option<Seq<BlockV>> {
    match n {
        NodeV::Blocks(s) => Some(s),
        _ => None,
    }
}

impl Node {
    /// Converts a decoded node into the block representation the engine
    /// walks, or reports that the node is not block content.
    pub fn try_into_blocks(self) -> (r: Result<Vec<Block>, ()>)
        ensures
            match r {
                Ok(v) => node_into_blocks_spec(self@) == Some(blocks_view(v@)),
                Err(()) => node_into_blocks_spec(self@) is None,
            },
    {
        match self {
            Node::Blocks(v) => Ok(v),
            _ => Err(()),
        }
    }
}

impl View for Node {
    type V = NodeV;

    open spec fn view(&self) -> NodeV {
        node_view(*self)
    }
}

impl View for Block {
    type V = BlockV;

    open spec fn view(&self) -> BlockV {
        block_view(*self)
    }
}

impl View for Argument {
    type V = ArgumentV;

    open spec fn view(&self) -> ArgumentV {
        argument_view(*self)
    }
}

impl View for InclusionBlock {
    type V = InclusionBlockV;

    open spec fn view(&self) -> InclusionBlockV {
        inclusion_view(*self)
    }
}

impl View for CompilationMessage {
    type V = MessageV;

    open spec fn view(&self) -> MessageV {
        message_view(*self)
    }
}

} // verus!
