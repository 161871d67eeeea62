//! Laws of the engine, proved once and for all over the mathematical
//! interpreter: how blank sources, directory scopes, recompiles and argument
//! bindings behave for every input.

use vstd::prelude::*;
use crate::codec::DecodeOutcomeV;
use crate::dirs::{is_url_spec, join_path_spec, parent_of};
use crate::patch::{PatchOpV, PatchV, PatchValueV, Property};
use crate::phases::{
    CompileEnv, bind_args_spec, bind_one_spec, compile_blocks_spec, compile_inclusion_spec,
    content_outcome, content_patch, messages_patch, resolve_spec,
};
use crate::schema::{ArgumentV, InclusionBlockV, NodeV};
use crate::text::{expr_name_spec, trim_spec};

verus! {

/// Law: compiling a block whose source is empty or whitespace leaves the
/// block untouched and emits no patch; the walker is told to continue into
/// any previously-set content.
pub proof fn lemma_blank_source_compile(ib: InclusionBlockV, env: CompileEnv, fuel: nat)
    requires
        trim_spec(ib.source).len() == 0,
    ensures
        compile_inclusion_spec(ib, env, fuel) == (ib, Seq::<PatchV>::empty()),
{
}

/// Law: after compiling a non-blank source, the content is present exactly
/// when no message was generated, and the messages are absent exactly when
/// resolution succeeded within the depth budget.
pub proof fn lemma_compile_content_messages(ib: InclusionBlockV, env: CompileEnv, fuel: nat)
    requires
        trim_spec(ib.source).len() > 0,
    ensures
        ({
            let (ib2, ps) = compile_inclusion_spec(ib, env, fuel);
            &&& (ib2.content is Some <==> ib2.compilation_messages is None)
            &&& (ib2.compilation_messages is None <==> fuel > 0 && content_outcome(
                env.codec,
                resolve_spec(env.stack, ib.source).0,
            ) is Ok)
        }),
{
    if fuel > 0 {
        let (id, pushed) = resolve_spec(env.stack, ib.source);
        match content_outcome(env.codec, id) {
            Ok(bs) => {},
            Err(m) => {},
        }
    }
}

/// Law: resolving a relative source pushes exactly one directory entry iff
/// the computed parent directory differs from the current top of the stack
/// (an empty stack counts as differing); the identifier is the joined path.
pub proof fn lemma_relative_source_scope(stack: Seq<Seq<char>>, source: Seq<char>)
    requires
        !is_url_spec(source),
    ensures
        ({
            let path = if stack.len() == 0 {
                source
            } else {
                join_path_spec(stack.last(), source)
            };
            let (id, pushed) = resolve_spec(stack, source);
            &&& id == path
            &&& (pushed is Some <==> (parent_of(path) is Some && (stack.len() == 0 || parent_of(
                path,
            )->Some_0 != stack.last())))
            &&& (pushed is Some ==> pushed == parent_of(path))
        }),
{
}

/// Law: resolving an absolute URL source takes the source verbatim as the
/// identifier and never touches the directory stack.
pub proof fn lemma_url_source_keeps_stack(stack: Seq<Seq<char>>, source: Seq<char>)
    requires
        is_url_spec(source),
    ensures
        resolve_spec(stack, source) == (source, None::<Seq<char>>),
{
}

/// Law (round trip): compiling the same block twice in a row, with the
/// codec table and the directory stack unchanged, yields identical content
/// the second time — node identifiers included — because compiling is a
/// deterministic function of the source, the stack and the codec, and
/// compile never changes the source.
pub proof fn lemma_recompile_round_trip(ib: InclusionBlockV, env: CompileEnv, fuel: nat)
    ensures
        ({
            let (ib2, ps) = compile_inclusion_spec(ib, env, fuel);
            let (ib3, ps2) = compile_inclusion_spec(ib2, env, fuel);
            &&& ib3.content == ib2.content
            &&& ib3.node_id == ib2.node_id
            &&& ib3.source == ib2.source
        }),
{
    let (ib2, ps) = compile_inclusion_spec(ib, env, fuel);
    assert(ib2.source == ib.source);
    assert(ib2.node_id == ib.node_id);
    if trim_spec(ib.source).len() == 0 {
    } else if fuel == 0 {
    } else {
        let (id, pushed) = resolve_spec(env.stack, ib.source);
        match content_outcome(env.codec, id) {
            Ok(bs) => {},
            Err(m) => {},
        }
    }
}

/// Law: compile never changes what identifies or configures the block —
/// only its content and its messages.
pub proof fn lemma_compile_preserves_identity(ib: InclusionBlockV, env: CompileEnv, fuel: nat)
    ensures
        ({
            let (ib2, ps) = compile_inclusion_spec(ib, env, fuel);
            &&& ib2.node_id == ib.node_id
            &&& ib2.source == ib.source
            &&& ib2.media_type == ib.media_type
            &&& ib2.select == ib.select
            &&& ib2.execution_mode == ib.execution_mode
            &&& ib2.arguments == ib.arguments
        }),
{
    if trim_spec(ib.source).len() > 0 && fuel > 0 {
        let (id, pushed) = resolve_spec(env.stack, ib.source);
        match content_outcome(env.codec, id) {
            Ok(bs) => {},
            Err(m) => {},
        }
    }
}

/// Law: on a successful resolution the first patch emitted is the
/// clear-then-append pair carrying the decoded blocks — so observers can
/// replace contents while preserving child identities — and the last patch
/// clears the messages.
pub proof fn lemma_patch_order_on_success(ib: InclusionBlockV, env: CompileEnv, fuel: nat)
    requires
        trim_spec(ib.source).len() > 0,
        fuel > 0,
        content_outcome(env.codec, resolve_spec(env.stack, ib.source).0) is Ok,
    ensures
        ({
            let (ib2, ps) = compile_inclusion_spec(ib, env, fuel);
            let bs = content_outcome(env.codec, resolve_spec(env.stack, ib.source).0)->Ok_0;
            &&& ps.len() >= 2
            &&& ps[0] == content_patch(ib.node_id, bs)
            &&& ps[0].ops[0] == PatchOpV::Clear(Property::Content)
            &&& ps[0].ops[1] == PatchOpV::Append(Property::Content, PatchValueV::Blocks(bs))
            &&& ps.last() == messages_patch(ib.node_id, None)
        }),
{
    let (id, pushed) = resolve_spec(env.stack, ib.source);
    let bs = content_outcome(env.codec, id)->Ok_0;
    let inner_stack = match pushed {
        Some(d) => env.stack.push(d),
        None => env.stack,
    };
    let (bs2, psn) = compile_blocks_spec(
        bs,
        CompileEnv { stack: inner_stack, codec: env.codec },
        (fuel - 1) as nat,
    );
    let (ib2, ps) = compile_inclusion_spec(ib, env, fuel);
    assert(ps == seq![content_patch(ib.node_id, bs)] + psn + seq![
        messages_patch(ib.node_id, None),
    ]);
    assert(ps[0] == content_patch(ib.node_id, bs));
    assert(ps.last() == messages_patch(ib.node_id, None));
}

/// Law: an argument whose code denotes a variable present in the
/// environment binds the argument's name to that variable's value.
pub proof fn lemma_bind_expression_found(a: ArgumentV, k: Map<Seq<char>, NodeV>)
    requires
        a.code.len() > 0,
        k.contains_key(expr_name_spec(a.code)),
    ensures
        bind_one_spec(a, k) == k.insert(a.name, k[expr_name_spec(a.code)]),
        bind_one_spec(a, k)[a.name] == k[expr_name_spec(a.code)],
        bind_one_spec(a, k).contains_key(a.name),
{
}

/// Law: an argument whose code denotes a variable absent from the
/// environment binds nothing: the environment is unchanged, without error.
pub proof fn lemma_bind_expression_absent(a: ArgumentV, k: Map<Seq<char>, NodeV>)
    requires
        a.code.len() > 0,
        !k.contains_key(expr_name_spec(a.code)),
    ensures
        bind_one_spec(a, k) == k,
{
}

/// Binding a single declared argument is one `bind_one_spec` step.
pub proof fn lemma_bind_single(args: Seq<ArgumentV>, k: Map<Seq<char>, NodeV>)
    requires
        args.len() == 1,
    ensures
        bind_args_spec(args, k) == bind_one_spec(args[0], k),
{
    assert(args.drop_first().len() == 0);
    assert(bind_args_spec(args.drop_first(), bind_one_spec(args[0], k)) == bind_one_spec(
        args[0],
        k,
    ));
}

/// Law: rebinding an argument from the environment is idempotent — running
/// the binding twice leaves the same environment as running it once.
pub proof fn lemma_bind_idempotent(a: ArgumentV, k: Map<Seq<char>, NodeV>)
    requires
        a.code.len() > 0,
        a.name != expr_name_spec(a.code),
    ensures
        bind_one_spec(a, bind_one_spec(a, k)) == bind_one_spec(a, k),
{
    let name = expr_name_spec(a.code);
    if k.contains_key(name) {
        let k2 = k.insert(a.name, k[name]);
        assert(k2.contains_key(name));
        assert(k2[name] == k[name]);
        assert(k2.insert(a.name, k2[name]) =~= k2);
    }
}

} // verus!

