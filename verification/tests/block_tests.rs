use bbl::blocks::Block;
use bbl::blocks::Line;
use bbl::blocks::Program;

#[test]
fn test_block() {
    let mut block = Block::new();
    block.add_line_s("int x = 42;");
    block.add_line_s("std::cout << x << std::endl;");

    let expected = "{\n    int x = 42;\n    std::cout << x << std::endl;\n}";
    assert_eq!(block.to_string(), expected);
}

#[test]
fn empty_block_renders_bare_braces() {
    let block = Block::new();
    assert_eq!(block.to_string(), "{\n\n}");
}

#[test]
fn pre_block_header_precedes_brace() {
    let mut block = Block::new_with_pre_block("void solve() ".to_string(), 0);
    block.add_line("int x = 1;".to_string());
    assert_eq!(block.to_string(), "void solve() {\n    int x = 1;\n}");
}

#[test]
fn nested_block_indents_one_level_deeper() {
    let mut outer = Block::new();
    outer.add_line_s("int x = 1;");
    let mut inner = Block::new_with_pre_block("if (true) ".to_string(), 1);
    inner.add_line_s("x = 2;");
    outer.add_block(inner);
    let expected = "{\n    int x = 1;\n    if (true) {\n        x = 2;\n    }\n}";
    assert_eq!(outer.to_string(), expected);
}

#[test]
fn add_statement_accepts_prepared_lines() {
    let mut block = Block::new();
    block.add_statement(Line::Statement("int y = 7;".to_string()));
    assert_eq!(block.to_string(), "{\n    int y = 7;\n}");
}

#[test]
fn rendering_is_deterministic_and_idempotent() {
    let build = || {
        let mut b = Block::new();
        b.add_line_s("int x = 42;");
        let mut inner = Block::new_with_pre_block("else ".to_string(), 1);
        inner.add_line_s("x = 0;");
        b.add_block(inner);
        b
    };
    let one = build();
    let two = build();
    // equal trees render to identical text
    assert_eq!(one.to_string(), two.to_string());
    // rendering the same tree twice yields identical text
    assert_eq!(one.to_string(), one.to_string());
}

#[test]
fn program_wraps_solve_in_preamble_and_entry_point() {
    let mut program = Program::new();
    program.solve_block.add_line_s("int x = 1;");
    let text = program.to_string();
    let expected = format!(
        "{}{}{}",
        "\n#include <bits/stdc++.h>\nusing namespace std;\nusing ll = long long;\n",
        "void solve() {\n    int x = 1;\n}",
        "\nint main() {\n    cin.tie(0)->sync_with_stdio(false);\n    solve();\n    return 0;\n}",
    );
    assert_eq!(text, expected);
}
