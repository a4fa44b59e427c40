//! Source lines: labels and unparsed instructions, and the preprocessor that reads them.
use vstd::prelude::*;

use crate::text::{chars_of, is_space, is_space_char, string_of, trim, trim_bounds};

verus! {

broadcast use vstd::seq_lib::group_seq_properties;

/// An instruction as written: its mnemonic and its operand tokens.
#[derive(Debug, PartialEq, Eq, Clone)]
pub struct UnparsedInstruction {
    pub name: String,
    pub params: Vec<String>,
}

/// One line of a program after preprocessing.
#[derive(Debug, PartialEq, Eq, Clone)]
pub enum Line {
    Tag(String),
    Instruction(UnparsedInstruction),
}

/// The contents of an `UnparsedInstruction`.
pub struct InstructionView {
    pub name: Seq<char>,
    pub params: Seq<Seq<char>>,
}

/// The contents of a `Line`.
pub enum LineView {
    Tag(Seq<char>),
    Instruction(InstructionView),
}

/// The text of each string.
pub open spec fn texts(v: Seq<String>) -> Seq<Seq<char>> {
    v.map_values(|s: String| s@)
}

impl View for UnparsedInstruction {
    type V = InstructionView;

    open spec fn view(&self) -> InstructionView {
        InstructionView { name: self.name@, params: texts(self.params@) }
    }
}

impl View for Line {
    type V = LineView;

    open spec fn view(&self) -> LineView {
        match self {
            Line::Tag(t) => LineView::Tag(t@),
            Line::Instruction(i) => LineView::Instruction(i@),
        }
    }
}

/// The contents of each line.
pub open spec fn lines_view(v: Seq<Line>) -> Seq<LineView> {
    v.map_values(|l: Line| l@)
}

/// The pieces of `s` between occurrences of `sep`; there is always at least one.
pub open spec fn split(s: Seq<char>, sep: char) -> Seq<Seq<char>>
    decreases s.len(),
{
    if s.len() == 0 {
        seq![Seq::<char>::empty()]
    } else {
        let p = split(s.drop_last(), sep);
        if s.last() == sep {
            p.push(Seq::<char>::empty())
        } else {
            p.drop_last().push(p.last().push(s.last()))
        }
    }
}

/// Each piece trimmed, in order, with the pieces that are then empty left out.
pub open spec fn kept_pieces(pieces: Seq<Seq<char>>) -> Seq<Seq<char>>
    decreases pieces.len(),
{
    if pieces.len() == 0 {
        Seq::<Seq<char>>::empty()
    } else {
        let rest = kept_pieces(pieces.drop_last());
        let t = trim(pieces.last());
        if t.len() > 0 {
            rest.push(t)
        } else {
            rest
        }
    }
}

/// Operand text with memory-operand syntax `imm(reg)` rewritten to `imm,reg`:
/// `(` becomes `,` and `)` is dropped.
pub open spec fn operand_text(s: Seq<char>) -> Seq<char>
    decreases s.len(),
{
    if s.len() == 0 {
        s
    } else {
        let p = operand_text(s.drop_last());
        if s.last() == '(' {
            p.push(',')
        } else if s.last() == ')' {
            p
        } else {
            p.push(s.last())
        }
    }
}

/// The operand tokens of the text after a mnemonic: comma-separated, trimmed, none empty.
pub open spec fn operands(s: Seq<char>) -> Seq<Seq<char>> {
    kept_pieces(split(operand_text(s), ','))
}

/// The number of characters before the first whitespace of `s`.
pub open spec fn word_len(s: Seq<char>) -> nat
    decreases s.len(),
{
    if s.len() == 0 || is_space(s[0]) {
        0
    } else {
        1 + word_len(s.drop_first())
    }
}

/// An instruction line: the mnemonic runs up to the first whitespace, the operands follow.
pub open spec fn instruction_of(line: Seq<char>) -> InstructionView {
    let k = word_len(line) as int;
    InstructionView { name: line.take(k), params: operands(line.skip(k)) }
}

/// `s` without the colons at its end.
pub open spec fn strip_colons(s: Seq<char>) -> Seq<char>
    decreases s.len(),
{
    if s.len() > 0 && s.last() == ':' {
        strip_colons(s.drop_last())
    } else {
        s
    }
}

/// A trimmed, non-blank source line: a label when it ends with `:`, else an instruction.
pub open spec fn line_of(t: Seq<char>) -> LineView {
    if t.len() > 0 && t.last() == ':' {
        LineView::Tag(strip_colons(t))
    } else {
        LineView::Instruction(instruction_of(t))
    }
}

/// The lines of a program: each source line trimmed, blank ones left out.
pub open spec fn preprocess_spec(code: Seq<char>) -> Seq<LineView> {
    kept_pieces(split(code, '\n')).map_values(|t: Seq<char>| line_of(t))
}

/// The operand tokens of `cs[from..to]`.
fn operands_in(cs: &Vec<char>, from: usize, to: usize) -> (r: Vec<String>)
    requires
        from <= to <= cs.len(),
    ensures
        texts(r@) == operands(cs@.subrange(from as int, to as int)),
{
    let ghost sep = ',';
    let mut out: Vec<String> = Vec::new();
    let mut cur: Vec<char> = Vec::new();
    let mut i: usize = from;
    proof {
        assert(cs@.subrange(from as int, from as int) =~= Seq::<char>::empty());
        assert(seq![Seq::<char>::empty()].drop_last() =~= Seq::<Seq<char>>::empty());
        assert(texts(out@) =~= Seq::<Seq<char>>::empty());
    }
    while i < to
        invariant
            from <= i <= to <= cs.len(),
            split(operand_text(cs@.subrange(from as int, i as int)), sep).len() >= 1,
            cur@ == split(operand_text(cs@.subrange(from as int, i as int)), sep).last(),
            texts(out@) == kept_pieces(
                split(operand_text(cs@.subrange(from as int, i as int)), sep).drop_last(),
            ),
            sep == ',',
        decreases to - i,
    {
        let ghost before = operand_text(cs@.subrange(from as int, i as int));
        let ghost p = split(before, sep);
        let c = cs[i];
        proof {
            assert(cs@.subrange(from as int, i + 1).drop_last() =~= cs@.subrange(
                from as int,
                i as int,
            ));
        }
        if c == '(' || c == ',' {
            let (a, b) = trim_bounds(&cur, 0, cur.len());
            proof {
                assert(cur@.subrange(0, cur@.len() as int) =~= cur@);
                assert(operand_text(cs@.subrange(from as int, i + 1)) == before.push(','));
                assert(before.push(',').drop_last() =~= before);
                assert(p.push(Seq::<char>::empty()).drop_last() =~= p);
                assert(p.drop_last().push(p.last()) =~= p);
            }
            if a < b {
                let t = string_of(&cur, a, b);
                proof {
                    assert(texts(out@.push(t)) =~= texts(out@).push(t@));
                }
                out.push(t);
            }
            cur = Vec::new();
        } else if c == ')' {
        } else {
            proof {
                assert(operand_text(cs@.subrange(from as int, i + 1)) == before.push(c));
                assert(before.push(c).drop_last() =~= before);
                assert(p.drop_last().push(p.last().push(c)).drop_last() =~= p.drop_last());
            }
            cur.push(c);
        }
        i += 1;
    }
    let (a, b) = trim_bounds(&cur, 0, cur.len());
    let ghost p = split(operand_text(cs@.subrange(from as int, to as int)), sep);
    proof {
        assert(cur@.subrange(0, cur@.len() as int) =~= cur@);
        assert(p.drop_last().push(p.last()) =~= p);
    }
    if a < b {
        let t = string_of(&cur, a, b);
        proof {
            assert(texts(out@.push(t)) =~= texts(out@).push(t@));
        }
        out.push(t);
    }
    out
}

/// The instruction written in `cs[from..to]`.
pub(crate) fn instruction_in(cs: &Vec<char>, from: usize, to: usize) -> (r: UnparsedInstruction)
    requires
        from <= to <= cs.len(),
    ensures
        r@ == instruction_of(cs@.subrange(from as int, to as int)),
{
    let ghost line = cs@.subrange(from as int, to as int);
    let mut k: usize = from;
    while k < to && !is_space_char(cs[k])
        invariant
            from <= k <= to <= cs.len(),
            word_len(line) == (k - from) + word_len(cs@.subrange(k as int, to as int)),
        decreases to - k,
    {
        assert(cs@.subrange(k as int, to as int).drop_first() =~= cs@.subrange(k + 1, to as int));
        k += 1;
    }
    let name = string_of(cs, from, k);
    let params = operands_in(cs, k, to);
    proof {
        assert(line.take(k - from) =~= cs@.subrange(from as int, k as int));
        assert(line.skip(k - from) =~= cs@.subrange(k as int, to as int));
    }
    UnparsedInstruction { name, params }
}

/// The line written in `cs[from..to]`, which is trimmed and not blank.
fn line_in(cs: &Vec<char>, from: usize, to: usize) -> (r: Line)
    requires
        from < to <= cs.len(),
    ensures
        r@ == line_of(cs@.subrange(from as int, to as int)),
{
    let ghost t = cs@.subrange(from as int, to as int);
    if cs[to - 1] == ':' {
        let mut j: usize = to;
        while j > from && cs[j - 1] == ':'
            invariant
                from <= j <= to <= cs.len(),
                strip_colons(t) == strip_colons(cs@.subrange(from as int, j as int)),
            decreases j,
        {
            assert(cs@.subrange(from as int, j as int).drop_last() =~= cs@.subrange(
                from as int,
                j - 1,
            ));
            j -= 1;
        }
        Line::Tag(string_of(cs, from, j))
    } else {
        Line::Instruction(instruction_in(cs, from, to))
    }
}

/// Parses one instruction line: the mnemonic runs up to the first whitespace; the rest is
/// split on commas, with `(` read as a comma and `)` dropped, each token trimmed and empty
/// tokens left out.
pub fn parse_instruction_line(line: &str) -> (r: Line)
    ensures
        r@ == LineView::Instruction(instruction_of(line@)),
{
    let cs = chars_of(line);
    proof {
        assert(cs@.subrange(0, cs@.len() as int) =~= cs@);
    }
    Line::Instruction(instruction_in(&cs, 0, cs.len()))
}

/// Reads a program into lines: each source line is trimmed and blank ones are skipped;
/// a line ending in `:` is a label, any other an instruction.
pub fn preprocess(code: &str) -> (r: Vec<Line>)
    ensures
        lines_view(r@) == preprocess_spec(code@),
{
    let cs = chars_of(code);
    let ghost sep = '\n';
    let ghost f = |t: Seq<char>| line_of(t);
    let mut out: Vec<Line> = Vec::new();
    let mut start: usize = 0;
    let mut i: usize = 0;
    proof {
        assert(cs@.take(0) =~= Seq::<char>::empty());
        assert(cs@.subrange(0, 0) =~= Seq::<char>::empty());
        assert(seq![Seq::<char>::empty()].drop_last() =~= Seq::<Seq<char>>::empty());
        assert(lines_view(out@) =~= Seq::<LineView>::empty());
    }
    while i < cs.len()
        invariant
            start <= i <= cs.len(),
            cs@ == code@,
            sep == '\n',
            f == (|t: Seq<char>| line_of(t)),
            split(cs@.take(i as int), sep).len() >= 1,
            cs@.subrange(start as int, i as int) == split(cs@.take(i as int), sep).last(),
            lines_view(out@) == kept_pieces(split(cs@.take(i as int), sep).drop_last()).map_values(
                f,
            ),
        decreases cs.len() - i,
    {
        let ghost p = split(cs@.take(i as int), sep);
        proof {
            assert(cs@.take(i + 1).drop_last() =~= cs@.take(i as int));
        }
        if cs[i] == '\n' {
            let (a, b) = trim_bounds(&cs, start, i);
            proof {
                assert(p.push(Seq::<char>::empty()).drop_last() =~= p);
                assert(p.drop_last().push(p.last()) =~= p);
                kept_pieces(p.drop_last()).lemma_push_map_commute(f, trim(p.last()));
            }
            if a < b {
                let l = line_in(&cs, a, b);
                proof {
                    out@.lemma_push_map_commute(|l: Line| l@, l);
                }
                out.push(l);
            }
            start = i + 1;
            proof {
                assert(cs@.subrange(start as int, i + 1) =~= Seq::<char>::empty());
            }
        } else {
            proof {
                assert(cs@.subrange(start as int, i + 1) =~= cs@.subrange(start as int, i as int).push(
                    cs@[i as int],
                ));
                assert(p.drop_last().push(p.last().push(cs@[i as int])).drop_last() =~= p.drop_last());
            }
        }
        i += 1;
    }
    let ghost p = split(cs@.take(i as int), sep);
    let (a, b) = trim_bounds(&cs, start, i);
    proof {
        assert(cs@.take(i as int) =~= code@);
        assert(p.drop_last().push(p.last()) =~= p);
        kept_pieces(p.drop_last()).lemma_push_map_commute(f, trim(p.last()));
    }
    if a < b {
        let l = line_in(&cs, a, b);
        proof {
            out@.lemma_push_map_commute(|l: Line| l@, l);
        }
        out.push(l);
    }
    out
}

} // verus!
