//! The block assembler: a tree of statements and nested sub-blocks
//! with indentation, rendered to C++ source text.
//!
//! The mathematical model of a tree is `BlockModel`; `render_block`
//! says exactly what text a tree renders to. Rendering is a pure
//! function of the tree, so it is deterministic and idempotent.

use vstd::prelude::*;

use crate::text::lemma_spaces_add;
use crate::text::push_indent;
use crate::text::spaces;

verus! {

/// The model of one line of a block: literal statement text, or a
/// nested block.
pub enum LineModel {
    Statement(Seq<char>),
    Nested(BlockModel),
}

/// The model of a block: optional header text, indentation depth, and
/// the lines it owns.
pub struct BlockModel {
    pub pre_block: Option<Seq<char>>,
    pub indent_level: nat,
    pub lines: Seq<LineModel>,
}

/// A line of a C++ block: a nested block or a literal statement.
pub enum Line {
    Block(Block),
    Statement(String),
}

/// A block of C++ code: optional header text, owned lines, and the
/// indentation depth used at render time.
pub struct Block {
    pub pre_block: Option<String>,
    pub statements: Vec<Line>,
    pub indent_level: usize,
}

pub open spec fn line_model(l: Line) -> LineModel
    decreases l, 1nat,
{
    match l {
        Line::Block(b) => LineModel::Nested(block_model(b)),
        Line::Statement(s) => LineModel::Statement(s@),
    }
}

pub open spec fn lines_model(ls: Seq<Line>) -> Seq<LineModel>
    decreases ls, 2nat,
{
    if ls.len() == 0 {
        Seq::empty()
    } else {
        lines_model(ls.drop_last()).push(line_model(ls.last()))
    }
}

pub open spec fn block_model(b: Block) -> BlockModel
    decreases b, 3nat,
{
    BlockModel {
        pre_block: match b.pre_block {
            Option::Some(s) => Option::Some(s@),
            Option::None => Option::None,
        },
        indent_level: b.indent_level as nat,
        lines: lines_model(b.statements@),
    }
}

impl View for Line {
    type V = LineModel;

    open spec fn view(&self) -> LineModel {
        line_model(*self)
    }
}

impl View for Block {
    type V = BlockModel;

    open spec fn view(&self) -> BlockModel {
        block_model(*self)
    }
}

/// The header text of a block, empty when there is none.
pub open spec fn pre_text(p: Option<Seq<char>>) -> Seq<char> {
    match p {
        Option::Some(s) => s,
        Option::None => Seq::empty(),
    }
}

pub open spec fn render_line(l: LineModel) -> Seq<char>
    decreases l, 1nat,
{
    match l {
        LineModel::Statement(s) => s,
        LineModel::Nested(b) => render_block(b),
    }
}

/// The lines of a block, each prefixed with `pad`, joined by newlines.
pub open spec fn render_lines(ls: Seq<LineModel>, pad: Seq<char>) -> Seq<char>
    decreases ls, 2nat,
{
    if ls.len() == 0 {
        Seq::empty()
    } else if ls.len() == 1 {
        pad + render_line(ls.last())
    } else {
        render_lines(ls.drop_last(), pad) + "\n"@ + pad + render_line(ls.last())
    }
}

/// The text a block renders to: the header, an opening brace, the
/// lines indented one level deeper, and a closing brace at the block's
/// own depth.
pub open spec fn render_block(b: BlockModel) -> Seq<char>
    decreases b, 3nat,
{
    pre_text(b.pre_block) + "{\n"@ + render_lines(b.lines, spaces(4 * (b.indent_level + 1)))
        + "\n"@ + spaces(4 * b.indent_level) + "}"@
}

/// `lines_model` maps the line sequence pointwise.
pub proof fn lemma_lines_model(ls: Seq<Line>)
    ensures
        lines_model(ls).len() == ls.len(),
        forall|i: int| 0 <= i < ls.len() ==> lines_model(ls)[i] == line_model(#[trigger] ls[i]),
    decreases ls,
{
    if ls.len() > 0 {
        lemma_lines_model(ls.drop_last());
        assert forall|i: int| 0 <= i < ls.len() implies lines_model(ls)[i] == line_model(
            #[trigger] ls[i],
        ) by {
            if i < ls.len() - 1 {
                assert(lines_model(ls)[i] == lines_model(ls.drop_last())[i]);
                assert(ls.drop_last()[i] == ls[i]);
            } else {
                assert(ls.last() == ls[i]);
            }
        }
    }
}

/// Appending a line to a block appends its model.
pub proof fn lemma_lines_model_push(ls: Seq<Line>, x: Line)
    ensures
        lines_model(ls.push(x)) == lines_model(ls).push(line_model(x)),
{
    assert(ls.push(x).drop_last() =~= ls);
    assert(ls.push(x).last() == x);
}

/// Rendering one more line extends the rendered text by a newline (if
/// any line came before), the pad, and the line's own text.
pub proof fn lemma_render_lines_push(ls: Seq<LineModel>, pad: Seq<char>, x: LineModel)
    ensures
        render_lines(ls.push(x), pad) == if ls.len() == 0 {
            pad + render_line(x)
        } else {
            render_lines(ls, pad) + "\n"@ + pad + render_line(x)
        },
{
    assert(ls.push(x).drop_last() =~= ls);
    assert(ls.push(x).last() == x);
}

impl Block {
    /// A block with no header at depth zero.
    pub fn new() -> (r: Self)
        ensures
            r@ == (BlockModel {
                pre_block: Option::None,
                indent_level: 0,
                lines: Seq::empty(),
            }),
    {
        Self { statements: Vec::new(), pre_block: Option::None, indent_level: 0 }
    }

    /// A block with the given header text and depth.
    pub fn new_with_pre_block(pre_block: String, indent_level: usize) -> (r: Self)
        ensures
            r@ == (BlockModel {
                pre_block: Option::Some(pre_block@),
                indent_level: indent_level as nat,
                lines: Seq::empty(),
            }),
    {
        Self { statements: Vec::new(), pre_block: Option::Some(pre_block), indent_level }
    }

    /// Appends a prepared line.
    pub fn add_statement(&mut self, stmt: Line)
        ensures
            final(self)@ == (BlockModel { lines: old(self)@.lines.push(stmt@), ..old(self)@ }),
    {
        proof {
            lemma_lines_model_push(self.statements@, stmt);
        }
        self.statements.push(stmt);
    }

    /// Appends one statement of literal text.
    pub fn add_line(&mut self, line: String)
        ensures
            final(self)@ == (BlockModel {
                lines: old(self)@.lines.push(LineModel::Statement(line@)),
                ..old(self)@
            }),
    {
        proof {
            lemma_lines_model_push(self.statements@, Line::Statement(line));
        }
        self.statements.push(Line::Statement(line));
    }

    /// Appends one statement of literal text, given as a slice.
    pub fn add_line_s(&mut self, line: &str)
        ensures
            final(self)@ == (BlockModel {
                lines: old(self)@.lines.push(LineModel::Statement(line@)),
                ..old(self)@
            }),
    {
        let owned = line.to_owned();
        proof {
            lemma_lines_model_push(self.statements@, Line::Statement(owned));
        }
        self.statements.push(Line::Statement(owned));
    }

    /// Appends a nested block.
    pub fn add_block(&mut self, block: Block)
        ensures
            final(self)@ == (BlockModel {
                lines: old(self)@.lines.push(LineModel::Nested(block@)),
                ..old(self)@
            }),
    {
        proof {
            lemma_lines_model_push(self.statements@, Line::Block(block));
        }
        self.statements.push(Line::Block(block));
    }

    /// Renders the block: exactly the text `render_block` describes.
    pub fn to_string(&self) -> (r: String)
        ensures
            r@ == render_block(self@),
        decreases *self,
    {
        let ghost m = self@;
        let ghost pad = spaces(4 * (m.indent_level + 1));
        let mut res = String::new();
        match &self.pre_block {
            Option::Some(p) => {
                res.append(p.as_str());
            },
            Option::None => {},
        }
        res.append("{\n");
        assert(res@ =~= pre_text(m.pre_block) + "{\n"@);
        proof {
            lemma_lines_model(self.statements@);
        }
        let n = self.statements.len();
        let mut i: usize = 0;
        while i < n
            invariant
                i <= n,
                n == self.statements.len(),
                m == self@,
                pad == spaces(4 * (m.indent_level + 1)),
                m.lines.len() == n,
                forall|j: int|
                    0 <= j < n ==> m.lines[j] == line_model(#[trigger] self.statements@[j]),
                res@ == pre_text(m.pre_block) + "{\n"@ + render_lines(
                    m.lines.take(i as int),
                    pad,
                ),
            decreases n - i,
        {
            if i > 0 {
                res.append("\n");
            }
            push_indent(&mut res, self.indent_level);
            res.append("    ");
            proof {
                reveal_strlit("    ");
                reveal_with_fuel(spaces, 5);
                assert("    "@ =~= spaces(4));
                lemma_spaces_add(4 * m.indent_level, 4);
                assert(spaces(4 * m.indent_level) + "    "@ =~= pad);
            }
            let line_text: String = match &self.statements[i] {
                Line::Block(b) => b.to_string(),
                Line::Statement(s) => s.clone(),
            };
            assert(line_text@ == render_line(m.lines[i as int]));
            res.append(line_text.as_str());
            proof {
                lemma_render_lines_push(m.lines.take(i as int), pad, m.lines[i as int]);
                assert(m.lines.take(i as int).push(m.lines[i as int]) =~= m.lines.take(
                    i as int + 1,
                ));
                assert(res@ =~= pre_text(m.pre_block) + "{\n"@ + render_lines(
                    m.lines.take(i as int + 1),
                    pad,
                ));
            }
            i = i + 1;
        }
        res.append("\n");
        push_indent(&mut res, self.indent_level);
        res.append("}");
        proof {
            assert(m.lines.take(n as int) =~= m.lines);
            assert(res@ =~= render_block(m));
        }
        res
    }
}

/// A whole emitted program: a fixed preamble, the generated body of
/// `solve`, and a fixed entry point that invokes it.
pub struct Program {
    pub solve_block: Block,
}

/// The fixed preamble placed before the generated body.
pub open spec fn header_text() -> Seq<char> {
    "\n#include <bits/stdc++.h>\nusing namespace std;\nusing ll = long long;\n"@
}

/// The fixed entry point placed after the generated body.
pub open spec fn main_text() -> Seq<char> {
    "\nint main() {\n    cin.tie(0)->sync_with_stdio(false);\n    solve();\n    return 0;\n}"@
}

/// The full text of a program whose body block is `b`.
pub open spec fn program_text(b: BlockModel) -> Seq<char> {
    header_text() + render_block(b) + main_text()
}

impl Program {
    /// A program with an empty `solve` body at depth zero.
    pub fn new() -> (r: Self)
        ensures
            r.solve_block@ == (BlockModel {
                pre_block: Option::Some("void solve() "@),
                indent_level: 0,
                lines: Seq::empty(),
            }),
    {
        Self {
            solve_block: Block::new_with_pre_block("void solve() ".to_owned(), 0),
        }
    }

    /// Renders the program: preamble, `solve` body, entry point.
    pub fn to_string(&self) -> (r: String)
        ensures
            r@ == program_text(self.solve_block@),
    {
        let mut res = String::new();
        res.append("\n#include <bits/stdc++.h>\nusing namespace std;\nusing ll = long long;\n");
        let body = self.solve_block.to_string();
        res.append(body.as_str());
        res.append("\nint main() {\n    cin.tie(0)->sync_with_stdio(false);\n    solve();\n    return 0;\n}");
        proof {
            assert(res@ =~= program_text(self.solve_block@));
        }
        res
    }
}

/// Rendering is deterministic: the rendered text is a function of the
/// block tree alone, so equal trees render to identical text, and
/// rendering the same tree twice yields identical text.
pub proof fn lemma_render_deterministic(a: BlockModel, b: BlockModel)
    requires
        a == b,
    ensures
        render_block(a) == render_block(b),
{
}

/// How many times `c` occurs in `s`.
pub open spec fn count_char(s: Seq<char>, c: char) -> nat
    decreases s,
{
    if s.len() == 0 {
        0nat
    } else {
        count_char(s.drop_last(), c) + if s.last() == c {
            1nat
        } else {
            0nat
        }
    }
}

/// Whether `s` opens exactly as many braces as it closes.
pub open spec fn braces_balanced(s: Seq<char>) -> bool {
    count_char(s, '{') == count_char(s, '}')
}

/// Whether `s` holds no brace at all.
pub open spec fn brace_free(s: Seq<char>) -> bool {
    count_char(s, '{') == 0 && count_char(s, '}') == 0
}

/// Character counts add over concatenation.
pub proof fn lemma_count_char_add(s1: Seq<char>, s2: Seq<char>, c: char)
    ensures
        count_char(s1 + s2, c) == count_char(s1, c) + count_char(s2, c),
    decreases s2.len(),
{
    if s2.len() == 0 {
        assert(s1 + s2 =~= s1);
    } else {
        assert((s1 + s2).drop_last() =~= s1 + s2.drop_last());
        assert((s1 + s2).last() == s2.last());
        lemma_count_char_add(s1, s2.drop_last(), c);
    }
}

/// A sequence without `c` counts zero of it.
pub proof fn lemma_count_char_zero(s: Seq<char>, c: char)
    requires
        forall|i: int| 0 <= i < s.len() ==> s[i] != c,
    ensures
        count_char(s, c) == 0,
    decreases s.len(),
{
    if s.len() > 0 {
        assert(forall|i: int| 0 <= i < s.drop_last().len() ==> s.drop_last()[i] != c);
        lemma_count_char_zero(s.drop_last(), c);
    }
}

/// A sequence none of whose characters is a brace holds no brace.
pub proof fn lemma_brace_free(s: Seq<char>)
    requires
        forall|i: int| 0 <= i < s.len() ==> s[i] != '{' && s[i] != '}',
    ensures
        brace_free(s),
{
    lemma_count_char_zero(s, '{');
    lemma_count_char_zero(s, '}');
}

/// Runs of spaces hold no brace.
pub proof fn lemma_spaces_brace_free(n: nat)
    ensures
        brace_free(spaces(n)),
    decreases n,
{
    if n > 0 {
        lemma_spaces_brace_free((n - 1) as nat);
        assert(spaces(n).drop_last() =~= spaces((n - 1) as nat));
    }
}

/// Whether every statement text and header text in a line holds
/// balanced braces.
pub open spec fn line_texts_balanced(l: LineModel) -> bool
    decreases l, 1nat,
{
    match l {
        LineModel::Statement(s) => braces_balanced(s),
        LineModel::Nested(b) => block_texts_balanced(b),
    }
}

/// Whether every statement text and header text in a line sequence
/// holds balanced braces.
pub open spec fn lines_texts_balanced(ls: Seq<LineModel>) -> bool
    decreases ls, 2nat,
{
    if ls.len() == 0 {
        true
    } else {
        lines_texts_balanced(ls.drop_last()) && line_texts_balanced(ls.last())
    }
}

/// Whether every statement text and header text in a block tree holds
/// balanced braces.
pub open spec fn block_texts_balanced(b: BlockModel) -> bool
    decreases b, 3nat,
{
    braces_balanced(pre_text(b.pre_block)) && lines_texts_balanced(b.lines)
}

/// Text balance concatenates over line sequences.
pub proof fn lemma_lines_texts_balanced_add(a: Seq<LineModel>, b: Seq<LineModel>)
    requires
        lines_texts_balanced(a),
        lines_texts_balanced(b),
    ensures
        lines_texts_balanced(a + b),
    decreases b.len(),
{
    if b.len() == 0 {
        assert(a + b =~= a);
    } else {
        assert((a + b).drop_last() =~= a + b.drop_last());
        assert((a + b).last() == b.last());
        lemma_lines_texts_balanced_add(a, b.drop_last());
    }
}

/// One rendered line has balanced braces when its own texts do.
pub proof fn lemma_render_line_balanced(l: LineModel)
    requires
        line_texts_balanced(l),
    ensures
        braces_balanced(render_line(l)),
    decreases l, 1nat,
{
    match l {
        LineModel::Statement(_) => {},
        LineModel::Nested(b) => {
            lemma_render_block_balanced(b);
        },
    }
}

/// A rendered line sequence has balanced braces when its texts do and
/// the pad holds no brace.
pub proof fn lemma_render_lines_balanced(ls: Seq<LineModel>, pad: Seq<char>)
    requires
        lines_texts_balanced(ls),
        brace_free(pad),
    ensures
        braces_balanced(render_lines(ls, pad)),
    decreases ls, 2nat,
{
    reveal_strlit("\n");
    assert(brace_free("\n"@)) by {
        lemma_count_char_zero("\n"@, '{');
        lemma_count_char_zero("\n"@, '}');
    };
    if ls.len() == 0 {
    } else if ls.len() == 1 {
        lemma_render_line_balanced(ls.last());
        lemma_count_char_add(pad, render_line(ls.last()), '{');
        lemma_count_char_add(pad, render_line(ls.last()), '}');
    } else {
        lemma_render_lines_balanced(ls.drop_last(), pad);
        lemma_render_line_balanced(ls.last());
        let body = render_lines(ls.drop_last(), pad);
        let tail = render_line(ls.last());
        lemma_count_char_add(body, "\n"@, '{');
        lemma_count_char_add(body + "\n"@, pad, '{');
        lemma_count_char_add(body + "\n"@ + pad, tail, '{');
        lemma_count_char_add(body, "\n"@, '}');
        lemma_count_char_add(body + "\n"@, pad, '}');
        lemma_count_char_add(body + "\n"@ + pad, tail, '}');
    }
}

/// Every opened brace of a rendered block has exactly one matching
/// close, provided the statement and header texts inside it are
/// themselves balanced.
pub proof fn lemma_render_block_balanced(b: BlockModel)
    requires
        block_texts_balanced(b),
    ensures
        braces_balanced(render_block(b)),
    decreases b, 3nat,
{
    reveal_strlit("{\n");
    reveal_strlit("\n");
    reveal_strlit("}");
    let pad = spaces(4 * (b.indent_level + 1));
    lemma_spaces_brace_free(4 * (b.indent_level + 1));
    lemma_spaces_brace_free(4 * b.indent_level);
    lemma_render_lines_balanced(b.lines, pad);
    let body = render_lines(b.lines, pad);
    assert(count_char("{\n"@, '{') == 1 && count_char("{\n"@, '}') == 0) by {
        reveal_with_fuel(count_char, 4);
        assert("{\n"@.drop_last().drop_last() =~= Seq::<char>::empty());
    };
    assert(count_char("}"@, '{') == 0 && count_char("}"@, '}') == 1) by {
        reveal_with_fuel(count_char, 3);
        assert("}"@.drop_last() =~= Seq::<char>::empty());
    };
    assert(count_char("\n"@, '{') == 0 && count_char("\n"@, '}') == 0) by {
        lemma_count_char_zero("\n"@, '{');
        lemma_count_char_zero("\n"@, '}');
    };
    let p = pre_text(b.pre_block);
    lemma_count_char_add(p, "{\n"@, '{');
    lemma_count_char_add(p + "{\n"@, body, '{');
    lemma_count_char_add(p + "{\n"@ + body, "\n"@, '{');
    lemma_count_char_add(p + "{\n"@ + body + "\n"@, spaces(4 * b.indent_level), '{');
    lemma_count_char_add(p + "{\n"@ + body + "\n"@ + spaces(4 * b.indent_level), "}"@, '{');
    lemma_count_char_add(p, "{\n"@, '}');
    lemma_count_char_add(p + "{\n"@, body, '}');
    lemma_count_char_add(p + "{\n"@ + body, "\n"@, '}');
    lemma_count_char_add(p + "{\n"@ + body + "\n"@, spaces(4 * b.indent_level), '}');
    lemma_count_char_add(p + "{\n"@ + body + "\n"@ + spaces(4 * b.indent_level), "}"@, '}');
}

/// Whether a line sits correctly under a parent at depth `parent`:
/// nested blocks are exactly one level deeper, all the way down.
pub open spec fn line_depth_ok(l: LineModel, parent: nat) -> bool
    decreases l, 1nat,
{
    match l {
        LineModel::Statement(_) => true,
        LineModel::Nested(b) => b.indent_level == parent + 1 && block_depth_ok(b),
    }
}

/// Whether every line of a sequence sits correctly at depth `parent`.
pub open spec fn lines_depth_ok(ls: Seq<LineModel>, parent: nat) -> bool
    decreases ls, 2nat,
{
    if ls.len() == 0 {
        true
    } else {
        lines_depth_ok(ls.drop_last(), parent) && line_depth_ok(ls.last(), parent)
    }
}

/// Whether every block of a tree sits exactly one level deeper than
/// its parent.
pub open spec fn block_depth_ok(b: BlockModel) -> bool
    decreases b, 3nat,
{
    lines_depth_ok(b.lines, b.indent_level)
}

/// Depth consistency concatenates over line sequences.
pub proof fn lemma_lines_depth_ok_add(a: Seq<LineModel>, b: Seq<LineModel>, parent: nat)
    requires
        lines_depth_ok(a, parent),
        lines_depth_ok(b, parent),
    ensures
        lines_depth_ok(a + b, parent),
    decreases b.len(),
{
    if b.len() == 0 {
        assert(a + b =~= a);
    } else {
        assert((a + b).drop_last() =~= a + b.drop_last());
        assert((a + b).last() == b.last());
        lemma_lines_depth_ok_add(a, b.drop_last(), parent);
    }
}

} // verus!
