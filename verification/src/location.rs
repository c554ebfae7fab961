//! Source positions and their textual form.

use crate::decimal::{decimal, decimal_string, lemma_decimal_injective, lemma_decimal_lacks};
use crate::render::Render;
use vstd::prelude::*;
use vstd::string::*;

verus! {

/// A position in a source file: the place of one annotating call.
#[derive(Clone, Copy, Debug)]
pub struct Location {
    /// Path of the source file.
    pub file: &'static str,
    /// Line number; the first line of a file is line 1.
    pub line: u32,
    /// Column number; the first column of a line is column 1.
    pub column: u32,
}

/// What a [`Location`] stands for: a file path and two numbers.
pub struct Position {
    /// The characters of the file's path.
    pub file: Seq<char>,
    /// The line number.
    pub line: nat,
    /// The column number.
    pub column: nat,
}

impl View for Location {
    type V = Position;

    open spec fn view(&self) -> Position {
        Position { file: self.file@, line: self.line as nat, column: self.column as nat }
    }
}

/// The text of a position: `file:line:column`.
pub open spec fn position_text(p: Position) -> Seq<char> {
    p.file + seq![':'] + decimal(p.line) + seq![':'] + decimal(p.column)
}

impl Render for Location {
    open spec fn text(&self) -> Seq<char> {
        position_text(self@)
    }

    fn render(&self) -> (s: String) {
        let mut s = String::from_str(self.file);
        let line = decimal_string(self.line);
        let column = decimal_string(self.column);
        proof {
            reveal_strlit(":");
        }
        s.append(":");
        s.append(line.as_str());
        s.append(":");
        s.append(column.as_str());
        s
    }
}

/// A text that ends in a separator and a run free of separators can be cut
/// in one way only: at its last separator.
proof fn lemma_cut_at_last(
    head_a: Seq<char>,
    tail_a: Seq<char>,
    head_b: Seq<char>,
    tail_b: Seq<char>,
    sep: char,
)
    requires
        head_a + seq![sep] + tail_a == head_b + seq![sep] + tail_b,
        !tail_a.contains(sep),
        !tail_b.contains(sep),
    ensures
        head_a == head_b,
        tail_a == tail_b,
{
    let a = head_a + seq![sep] + tail_a;
    let b = head_b + seq![sep] + tail_b;
    assert(a.len() == head_a.len() + 1 + tail_a.len());
    assert(b.len() == head_b.len() + 1 + tail_b.len());
    if head_a.len() < head_b.len() {
        // The separator that ends `head_b` would lie inside `tail_a`.
        let i = head_b.len() as int;
        assert(b[i] == sep);
        assert(a[i] == tail_a[i - head_a.len() - 1]);
        assert(tail_a.contains(sep));
    }
    if head_b.len() < head_a.len() {
        // The separator that ends `head_a` would lie inside `tail_b`.
        let i = head_a.len() as int;
        assert(a[i] == sep);
        assert(b[i] == tail_b[i - head_b.len() - 1]);
        assert(tail_b.contains(sep));
    }
    assert forall|i: int| 0 <= i < head_a.len() implies head_a[i] == head_b[i] by {
        assert(a[i] == head_a[i]);
        assert(b[i] == head_b[i]);
    }
    assert(head_a =~= head_b);
    assert forall|i: int| 0 <= i < tail_a.len() implies tail_a[i] == tail_b[i] by {
        assert(a[head_a.len() + 1 + i] == tail_a[i]);
        assert(b[head_b.len() + 1 + i] == tail_b[i]);
    }
    assert(tail_a =~= tail_b);
}

/// The text of a position names one position only: two positions that are
/// written alike are the same file, line and column. This holds whatever the
/// file's path is, colons and digits included.
pub proof fn lemma_position_text_injective(p: Position, q: Position)
    requires
        position_text(p) == position_text(q),
    ensures
        p == q,
{
    lemma_decimal_lacks(p.line, ':');
    lemma_decimal_lacks(q.line, ':');
    lemma_decimal_lacks(p.column, ':');
    lemma_decimal_lacks(q.column, ':');
    lemma_cut_at_last(
        p.file + seq![':'] + decimal(p.line),
        decimal(p.column),
        q.file + seq![':'] + decimal(q.line),
        decimal(q.column),
        ':',
    );
    lemma_cut_at_last(p.file, decimal(p.line), q.file, decimal(q.line), ':');
    lemma_decimal_injective(p.line, q.line);
    lemma_decimal_injective(p.column, q.column);
}

} // verus!
