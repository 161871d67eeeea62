//! End-to-end scenarios for the compile and execute phases.

use transclusion::codec::{Codec, DecodeOutcome};
use transclusion::executor::{Executor, WalkControl};
use transclusion::kernel::KernelSet;
use transclusion::patch::{PatchOp, PatchValue, Property};
use transclusion::phases::{compile_blocks, execute_blocks, source_to_content};
use transclusion::schema::{clone_blocks, Argument, Block, InclusionBlock, MessageLevel, Node, Paragraph};

fn para(node_id: u64, text: &str) -> Block {
    Block::Paragraph(Paragraph {
        node_id,
        text: String::from(text),
    })
}

fn inclusion(node_id: u64, source: &str) -> InclusionBlock {
    InclusionBlock {
        node_id,
        source: String::from(source),
        media_type: None,
        select: None,
        execution_mode: None,
        arguments: Vec::new(),
        content: None,
        compilation_messages: None,
    }
}

fn executor_with(entries: Vec<(&str, DecodeOutcome)>) -> Executor {
    let mut codec = Codec::new();
    for (id, outcome) in entries {
        codec.provide(String::from(id), outcome);
    }
    Executor::new(codec)
}

#[test]
fn blank_source_is_left_alone() {
    // Scenario: an empty source compiles to Continue, untouched, no messages.
    let mut ex = executor_with(vec![]);
    let mut ib = inclusion(1, "");
    ib.content = Some(vec![para(2, "kept")]);
    let before = ib.content.as_ref().map(clone_blocks);
    let (after, ctl) = ib.compile(&mut ex, 8);
    assert_eq!(ctl, WalkControl::Continue);
    assert_eq!(after.content, before);
    assert_eq!(after.compilation_messages, None);
    assert_eq!(ex.patches.len(), 0);
    assert_eq!(ex.directory_stack.len(), 0);
}

#[test]
fn whitespace_source_is_left_alone() {
    let mut ex = executor_with(vec![]);
    let ib = inclusion(1, "  \t\n ");
    let (after, ctl) = ib.compile(&mut ex, 8);
    assert_eq!(ctl, WalkControl::Continue);
    assert_eq!(after.content, None);
    assert_eq!(after.compilation_messages, None);
    assert_eq!(ex.patches.len(), 0);
}

#[test]
fn missing_source_reports_error_and_breaks() {
    // Scenario: decode fails with "not found": content cleared, one
    // error-level message, Break returned.
    let mut ex = executor_with(vec![(
        "missing.md",
        DecodeOutcome::Failed(String::from("missing.md not found")),
    )]);
    let ib = inclusion(1, "missing.md");
    let (after, ctl) = ib.compile(&mut ex, 8);
    assert_eq!(ctl, WalkControl::Break);
    assert_eq!(after.content, None);
    let msgs = after.compilation_messages.expect("messages expected");
    assert_eq!(msgs.len(), 1);
    assert_eq!(msgs[0].level, MessageLevel::Error);
    assert!(msgs[0].message.contains("not found"));
    // A clear patch, then the messages patch.
    assert_eq!(ex.patches.len(), 2);
    assert_eq!(
        ex.patches.patches[0].ops,
        vec![PatchOp::Clear(Property::Content)]
    );
    // The directory scope opened for the resolution was closed again.
    assert_eq!(ex.directory_stack.len(), 0);
}

#[test]
fn unconfigured_identifier_reports_not_found() {
    let mut ex = executor_with(vec![]);
    let ib = inclusion(1, "/docs/gone.md");
    let (after, ctl) = ib.compile(&mut ex, 8);
    assert_eq!(ctl, WalkControl::Break);
    assert_eq!(after.content, None);
    let msgs = after.compilation_messages.expect("messages expected");
    assert_eq!(msgs[0].message, "Source not found: /docs/gone.md");
}

#[test]
fn relative_source_pushes_parent_and_pops_after() {
    // Scenario: source "sub/page.md" under base "/docs": the stack pushes
    // "/docs/sub" for the nested compile and pops back to "/docs".
    let decoded = Node::Blocks(vec![para(10, "one"), para(11, "two")]);
    let mut ex = executor_with(vec![("/docs/sub/page.md", DecodeOutcome::Decoded(decoded))]);
    ex.directory_stack.push(String::from("/docs"));

    // The resolution itself leaves the pushed scope open for the caller.
    let (content, pop_dir, messages) = source_to_content(
        &String::from("sub/page.md"),
        &None,
        &mut ex,
    );
    assert!(pop_dir);
    assert_eq!(ex.directory_stack.len(), 2);
    assert_eq!(ex.directory_stack.dirs[1], "/docs/sub");
    assert_eq!(content, Some(vec![para(10, "one"), para(11, "two")]));
    assert!(messages.is_empty());
    ex.directory_stack.pop();

    // The whole compile restores the stack and installs the two blocks.
    let ib = inclusion(1, "sub/page.md");
    let (after, ctl) = ib.compile(&mut ex, 8);
    assert_eq!(ctl, WalkControl::Break);
    assert_eq!(after.content, Some(vec![para(10, "one"), para(11, "two")]));
    assert_eq!(after.compilation_messages, None);
    assert_eq!(ex.directory_stack.len(), 1);
    assert_eq!(ex.directory_stack.dirs[0], "/docs");
    // Clear then Append with the same child blocks, then the messages patch.
    assert_eq!(ex.patches.patches[0].node_id, 1);
    assert_eq!(
        ex.patches.patches[0].ops,
        vec![
            PatchOp::Clear(Property::Content),
            PatchOp::Append(
                Property::Content,
                PatchValue::Blocks(vec![para(10, "one"), para(11, "two")])
            ),
        ]
    );
    assert_eq!(
        ex.patches.patches[1].ops,
        vec![PatchOp::Assign(
            Property::CompilationMessages,
            PatchValue::Messages(None)
        )]
    );
}

#[test]
fn url_source_never_touches_the_stack() {
    let decoded = Node::Blocks(vec![para(5, "web")]);
    let mut ex = executor_with(vec![(
        "https://example.org/page.md",
        DecodeOutcome::Decoded(decoded),
    )]);
    ex.directory_stack.push(String::from("/docs"));
    let (content, pop_dir, messages) = source_to_content(
        &String::from("https://example.org/page.md"),
        &None,
        &mut ex,
    );
    assert!(!pop_dir);
    assert_eq!(ex.directory_stack.len(), 1);
    assert_eq!(content, Some(vec![para(5, "web")]));
    assert!(messages.is_empty());
}

#[test]
fn conversion_failure_reports_error() {
    // The identifier decodes, but not to block content.
    let mut ex = executor_with(vec![("data.json", DecodeOutcome::Decoded(Node::Integer(7)))]);
    let ib = inclusion(1, "data.json");
    let (after, ctl) = ib.compile(&mut ex, 8);
    assert_eq!(ctl, WalkControl::Break);
    assert_eq!(after.content, None);
    let msgs = after.compilation_messages.expect("messages expected");
    assert_eq!(msgs[0].level, MessageLevel::Error);
    assert_eq!(msgs[0].message, "Unable to convert source into block content");
}

#[test]
fn depth_budget_exhaustion_reports_error() {
    let mut ex = executor_with(vec![]);
    let ib = inclusion(1, "a.md");
    let (after, ctl) = ib.compile(&mut ex, 0);
    assert_eq!(ctl, WalkControl::Break);
    assert_eq!(after.content, None);
    let msgs = after.compilation_messages.expect("messages expected");
    assert_eq!(msgs[0].message, "Maximum transclusion depth exceeded");
}

#[test]
fn nested_transclusion_resolves_under_pushed_scope() {
    // /docs/outer.md pulls in "inner/a.md"; the nested source "b.md" inside
    // must resolve against /docs/inner, the directory pushed by the outer
    // resolution.
    let inner_doc = Node::Blocks(vec![para(30, "deep")]);
    let mid_doc = Node::Blocks(vec![Block::Inclusion(inclusion(20, "b.md"))]);
    let mut ex = executor_with(vec![
        ("/docs/inner/a.md", DecodeOutcome::Decoded(mid_doc)),
        ("/docs/inner/b.md", DecodeOutcome::Decoded(inner_doc)),
    ]);
    ex.directory_stack.push(String::from("/docs"));
    let ib = inclusion(1, "inner/a.md");
    let (after, ctl) = ib.compile(&mut ex, 8);
    assert_eq!(ctl, WalkControl::Break);
    let content = after.content.expect("content expected");
    assert_eq!(content.len(), 1);
    match &content[0] {
        Block::Inclusion(mid) => {
            assert_eq!(mid.content, Some(vec![para(30, "deep")]));
            assert_eq!(mid.compilation_messages, None);
        }
        other => panic!("expected nested inclusion, got {:?}", other),
    }
    assert_eq!(ex.directory_stack.len(), 1);
}

#[test]
fn recompile_keeps_child_identities() {
    // Round trip: compiling twice with unchanged external content yields
    // the same blocks, node identifiers included.
    let decoded = Node::Blocks(vec![para(10, "one"), para(11, "two")]);
    let mut ex = executor_with(vec![("/d/p.md", DecodeOutcome::Decoded(decoded))]);
    let ib = inclusion(1, "/d/p.md");
    let (after1, _) = ib.compile(&mut ex, 8);
    let first = after1.content.as_ref().map(clone_blocks);
    let (after2, _) = after1.compile(&mut ex, 8);
    assert_eq!(after2.content, first);
    assert_eq!(after2.node_id, 1);
}

#[test]
fn compile_walker_compiles_existing_content_of_blank_sources() {
    // A blank-source inclusion block signals Continue, so the walker must
    // compile the inclusion blocks already sitting in its content.
    let decoded = Node::Blocks(vec![para(40, "fetched")]);
    let mut ex = executor_with(vec![("/d/x.md", DecodeOutcome::Decoded(decoded))]);
    let mut outer = inclusion(1, "");
    outer.content = Some(vec![Block::Inclusion(inclusion(2, "/d/x.md"))]);
    let tree = vec![Block::Inclusion(outer)];
    let compiled = compile_blocks(&tree, &mut ex, 8);
    match &compiled[0] {
        Block::Inclusion(outer2) => {
            let content = outer2.content.as_ref().expect("content kept");
            match &content[0] {
                Block::Inclusion(nested) => {
                    assert_eq!(nested.content, Some(vec![para(40, "fetched")]));
                }
                other => panic!("expected inclusion, got {:?}", other),
            }
        }
        other => panic!("expected inclusion, got {:?}", other),
    }
}

#[test]
fn execute_binds_expression_argument() {
    // An argument whose code is "{{x}}" takes the value of x at execute time.
    let mut ex = executor_with(vec![]);
    ex.kernels.set("x", Node::Integer(5), None);
    let mut ib = inclusion(1, "whatever.md");
    ib.arguments = vec![Argument {
        name: String::from("y"),
        code: String::from("{{x}}"),
        value: None,
    }];
    let ctl = ib.execute(&mut ex);
    assert_eq!(ctl, WalkControl::Continue);
    assert_eq!(ex.kernels.get("y"), Some(Node::Integer(5)));
}

#[test]
fn execute_skips_absent_variable() {
    // A code expression naming an unknown variable binds nothing and raises
    // no message.
    let mut ex = executor_with(vec![]);
    let mut ib = inclusion(1, "whatever.md");
    ib.arguments = vec![Argument {
        name: String::from("y"),
        code: String::from("{{ghost_var}}"),
        value: None,
    }];
    let ctl = ib.execute(&mut ex);
    assert_eq!(ctl, WalkControl::Continue);
    assert_eq!(ex.kernels.get("y"), None);
    assert_eq!(ex.patches.len(), 0);
}

#[test]
fn execute_site_argument_is_idempotent() {
    // Scenario: {name: "site", code: "{{site}}"} with site = "Acme": after
    // execute the variable still reads "Acme", and re-executing keeps it.
    let mut ex = executor_with(vec![]);
    ex.kernels.set("site", Node::Text(String::from("Acme")), None);
    let mut ib = inclusion(1, "page.md");
    ib.arguments = vec![Argument {
        name: String::from("site"),
        code: String::from("{{site}}"),
        value: None,
    }];
    ib.execute(&mut ex);
    assert_eq!(ex.kernels.get("site"), Some(Node::Text(String::from("Acme"))));
    ib.execute(&mut ex);
    assert_eq!(ex.kernels.get("site"), Some(Node::Text(String::from("Acme"))));
}

#[test]
fn execute_uses_literal_value_and_declaration_order() {
    // A literal argument binds directly; later arguments see earlier ones.
    let mut ex = executor_with(vec![]);
    let mut ib = inclusion(1, "p.md");
    ib.arguments = vec![
        Argument {
            name: String::from("a"),
            code: String::new(),
            value: Some(Node::Integer(3)),
        },
        Argument {
            name: String::from("b"),
            code: String::from("{{a}}"),
            value: None,
        },
        Argument {
            name: String::from("dropped"),
            code: String::new(),
            value: None,
        },
    ];
    ib.execute(&mut ex);
    assert_eq!(ex.kernels.get("a"), Some(Node::Integer(3)));
    assert_eq!(ex.kernels.get("b"), Some(Node::Integer(3)));
    assert_eq!(ex.kernels.get("dropped"), None);
}

#[test]
fn execute_walker_binds_before_content_runs() {
    // The walker executes an inclusion block's arguments, then its content;
    // a nested argument can read what the outer one bound.
    let mut ex = executor_with(vec![]);
    ex.kernels.set("x", Node::Integer(9), None);
    let mut nested = inclusion(2, "inner.md");
    nested.arguments = vec![Argument {
        name: String::from("z"),
        code: String::from("{{y}}"),
        value: None,
    }];
    let mut outer = inclusion(1, "outer.md");
    outer.arguments = vec![Argument {
        name: String::from("y"),
        code: String::from("{{x}}"),
        value: None,
    }];
    outer.content = Some(vec![Block::Inclusion(nested)]);
    let tree = vec![Block::Inclusion(outer)];
    execute_blocks(&tree, &mut ex, 8);
    assert_eq!(ex.kernels.get("y"), Some(Node::Integer(9)));
    assert_eq!(ex.kernels.get("z"), Some(Node::Integer(9)));
}

#[test]
fn prepare_and_interrupt_are_pass_throughs() {
    let mut ex = executor_with(vec![]);
    let ib = inclusion(1, "p.md");
    assert_eq!(ib.prepare(&mut ex), WalkControl::Continue);
    assert_eq!(ib.interrupt(&mut ex), WalkControl::Continue);
    assert_eq!(ex.patches.len(), 0);
    assert_eq!(ex.directory_stack.len(), 0);
}

#[test]
fn messages_are_replaced_not_merged() {
    // A failing compile attaches a message; once the source resolves, a
    // fresh compile replaces the messages with nothing rather than merging.
    let mut ex = executor_with(vec![]);
    let ib = inclusion(1, "/d/late.md");
    let (after1, _) = ib.compile(&mut ex, 8);
    assert!(after1.compilation_messages.is_some());
    ex.codec.provide(
        String::from("/d/late.md"),
        DecodeOutcome::Decoded(Node::Blocks(vec![para(7, "now present")])),
    );
    let (after2, _) = after1.compile(&mut ex, 8);
    assert_eq!(after2.compilation_messages, None);
    assert_eq!(after2.content, Some(vec![para(7, "now present")]));
}

#[test]
fn execute_depth_budget_stops_recursion() {
    // With the budget spent, the walker still binds top-level arguments but
    // does not descend into content.
    let mut ex = executor_with(vec![]);
    ex.kernels.set("x", Node::Integer(1), None);
    let mut nested = inclusion(2, "inner.md");
    nested.arguments = vec![Argument {
        name: String::from("deep"),
        code: String::from("{{x}}"),
        value: None,
    }];
    let mut outer = inclusion(1, "outer.md");
    outer.arguments = vec![Argument {
        name: String::from("shallow"),
        code: String::from("{{x}}"),
        value: None,
    }];
    outer.content = Some(vec![Block::Inclusion(nested)]);
    let tree = vec![Block::Inclusion(outer)];
    execute_blocks(&tree, &mut ex, 0);
    assert_eq!(ex.kernels.get("shallow"), Some(Node::Integer(1)));
    assert_eq!(ex.kernels.get("deep"), None);
}

#[test]
fn kernel_shadowing_keeps_last_value() {
    let mut kernels = KernelSet::new();
    kernels.set("v", Node::Integer(1), None);
    kernels.set("v", Node::Integer(2), Some(String::from("py")));
    assert_eq!(kernels.get("v"), Some(Node::Integer(2)));
    assert_eq!(kernels.get("w"), None);
}
