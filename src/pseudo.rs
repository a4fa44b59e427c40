//! Pseudo-instruction expansion: `li` by arithmetic, simple aliases by template.
use vstd::prelude::*;
use vstd::string::StringExecFns;

use crate::error::{AsmError, ErrorView};
use crate::isa::{InstructionSet, plain_template};
use crate::line::{
    InstructionView, Line, LineView, UnparsedInstruction, instruction_in, instruction_of,
    lines_view, texts,
};
use crate::table::{entry, find};
use crate::text::{chars_of, trim, trim_bounds};
use crate::number::{
    decimal_literal, hex_literal, i32_literal, lemma_decimal_literal, lemma_hex_literal, parse_i32,
    unsigned_literal, write_digits,
};

verus! {

broadcast use vstd::seq_lib::group_seq_properties;

/// The low 12 bits of `v`, as an unsigned field.
pub open spec fn li_lower(v: i32) -> i32 {
    v & 0xfff
}

/// The upper 20 bits of `v`, plus one when the low field reads as negative once
/// `addi` sign-extends it.
pub open spec fn li_higher(v: i32) -> i32 {
    if li_lower(v) > 0x7ff {
        ((v >> 12) + 1) as i32
    } else {
        v >> 12
    }
}

pub open spec fn instruction(name: Seq<char>, params: Seq<Seq<char>>) -> InstructionView {
    InstructionView { name, params }
}

/// The instructions that load `v` into register `dst`.
pub open spec fn li_expansion(dst: Seq<char>, v: i32) -> Seq<InstructionView> {
    let lower = li_lower(v);
    let higher = li_higher(v);
    let add = instruction("addi"@, seq![dst, dst, decimal_literal(lower as u32)]);
    let lui = instruction("lui"@, seq![dst, hex_literal(higher as u32)]);
    if higher == 0 && lower == 0 {
        seq![instruction("mv"@, seq![dst, "zero"@])]
    } else if higher == 0 {
        seq![instruction("addi"@, seq![dst, "zero"@, decimal_literal(lower as u32)])]
    } else if lower == 0 {
        seq![lui]
    } else {
        seq![lui, add]
    }
}

/// What the complex tier makes of one line: `li dst, v` becomes its expansion, a
/// malformed `v` is an error, and every other line stays as it is.
pub open spec fn complex_line(l: LineView) -> Result<Seq<LineView>, ErrorView> {
    match l {
        LineView::Instruction(i) => if i.name == "li"@ && i.params.len() == 2 {
            match i32_literal(i.params[1]) {
                Some(v) => Ok(
                    li_expansion(i.params[0], v).map_values(
                        |x: InstructionView| LineView::Instruction(x),
                    ),
                ),
                None => Err(ErrorView::MalformedImmediateLiteral(i.params[1])),
            }
        } else {
            Ok(seq![l])
        },
        LineView::Tag(_) => Ok(seq![l]),
    }
}

/// The complex tier over a program: the first error, or the expansions in order.
pub open spec fn expand_complex(ls: Seq<LineView>) -> Result<Seq<LineView>, ErrorView>
    decreases ls.len(),
{
    if ls.len() == 0 {
        Ok(Seq::<LineView>::empty())
    } else {
        match complex_line(ls[0]) {
            Err(e) => Err(e),
            Ok(xs) => match expand_complex(ls.drop_first()) {
                Err(e) => Err(e),
                Ok(rest) => Ok(xs + rest),
            },
        }
    }
}

/// The contents of a result of lines.
pub open spec fn lines_result(r: Result<Vec<Line>, AsmError>) -> Result<Seq<LineView>, ErrorView> {
    match r {
        Ok(v) => Ok(lines_view(v@)),
        Err(e) => Err(e@),
    }
}

/// A copy of each string.
pub fn copy_texts(v: &Vec<String>) -> (r: Vec<String>)
    ensures
        texts(r@) == texts(v@),
{
    let mut r: Vec<String> = Vec::new();
    let mut i: usize = 0;
    while i < v.len()
        invariant
            i <= v.len(),
            texts(r@) =~= texts(v@).take(i as int),
        decreases v.len() - i,
    {
        let c = v[i].clone();
        proof {
            assert(texts(r@.push(c)) =~= texts(r@).push(c@));
        }
        r.push(c);
        i += 1;
    }
    r
}

/// A copy of a line.
pub fn copy_line(l: &Line) -> (r: Line)
    ensures
        r@ == l@,
{
    match l {
        Line::Tag(t) => Line::Tag(t.clone()),
        Line::Instruction(i) => Line::Instruction(
            UnparsedInstruction { name: i.name.clone(), params: copy_texts(&i.params) },
        ),
    }
}

fn make2(name: &str, a: String, b: String) -> (r: Line)
    ensures
        r@ == LineView::Instruction(instruction(name@, seq![a@, b@])),
{
    let mut params: Vec<String> = Vec::new();
    params.push(a);
    params.push(b);
    proof {
        assert(texts(params@) =~= seq![a@, b@]);
    }
    Line::Instruction(UnparsedInstruction { name: name.to_owned(), params })
}

fn make3(name: &str, a: String, b: String, c: String) -> (r: Line)
    ensures
        r@ == LineView::Instruction(instruction(name@, seq![a@, b@, c@])),
{
    let mut params: Vec<String> = Vec::new();
    params.push(a);
    params.push(b);
    params.push(c);
    proof {
        assert(texts(params@) =~= seq![a@, b@, c@]);
    }
    Line::Instruction(UnparsedInstruction { name: name.to_owned(), params })
}

/// `0x` followed by `n` in hexadecimal.
fn hex_string(n: u32) -> (r: String)
    ensures
        r@ == hex_literal(n),
{
    let mut s = "0x".to_owned();
    let digits = write_digits(n, 16);
    s.append(digits.as_str());
    proof {
        reveal_strlit("0x");
    }
    s
}

/// The lines that load `v` into register `dst`: `lui` and `addi` with the upper and lower
/// parts, either left out when it is zero, or `mv dst, zero` for zero itself.
pub fn li_instructions(dst: &String, v: i32) -> (r: Vec<Line>)
    ensures
        lines_view(r@) == li_expansion(dst@, v).map_values(
            |x: InstructionView| LineView::Instruction(x),
        ),
{
    let lower: i32 = v & 0xfff;
    assert((v >> 12) < 0x7ffff + 1) by (bit_vector);
    assert(0 <= lower <= 0xfff) by (bit_vector)
        requires
            lower == v & 0xfff,
    ;
    let higher: i32 = if lower > 0x7ff {
        (v >> 12) + 1
    } else {
        v >> 12
    };
    let mut r: Vec<Line> = Vec::new();
    if higher == 0 && lower == 0 {
        r.push(make2("mv", dst.clone(), "zero".to_owned()));
    } else if higher == 0 {
        r.push(make3("addi", dst.clone(), "zero".to_owned(), write_digits(lower as u32, 10)));
    } else {
        r.push(make2("lui", dst.clone(), hex_string(#[verifier::truncate] (higher as u32))));
        if lower != 0 {
            r.push(make3("addi", dst.clone(), dst.clone(), write_digits(lower as u32, 10)));
        }
    }
    proof {
        assert(lines_view(r@) =~= li_expansion(dst@, v).map_values(
            |x: InstructionView| LineView::Instruction(x),
        ));
    }
    r
}

/// What the complex tier makes of one line.
fn complex_of(l: &Line) -> (r: Result<Vec<Line>, AsmError>)
    ensures
        lines_result(r) == complex_line(l@),
{
    match l {
        Line::Instruction(i) => {
            let li = "li".to_owned();
            if i.name.eq(&li) && i.params.len() == 2 {
                match parse_i32(i.params[1].as_str()) {
                    Some(v) => Ok(li_instructions(&i.params[0], v)),
                    None => Err(AsmError::MalformedImmediateLiteral(i.params[1].clone())),
                }
            } else {
                let mut r: Vec<Line> = Vec::new();
                r.push(copy_line(l));
                proof {
                    assert(lines_view(r@) =~= seq![l@]);
                }
                Ok(r)
            }
        },
        Line::Tag(_) => {
            let mut r: Vec<Line> = Vec::new();
            r.push(copy_line(l));
            proof {
                assert(lines_view(r@) =~= seq![l@]);
            }
            Ok(r)
        },
    }
}

/// Expands `li` into the instructions that load its constant; every other line passes
/// through unchanged.
pub fn replace_complex_pseudo(lines: &Vec<Line>) -> (r: Result<Vec<Line>, AsmError>)
    ensures
        lines_result(r) == expand_complex(lines_view(lines@)),
{
    let ghost ls = lines_view(lines@);
    let mut out: Vec<Line> = Vec::new();
    let mut i: usize = 0;
    while i < lines.len()
        invariant
            i <= lines.len(),
            ls == lines_view(lines@),
            expand_complex(ls) == match expand_complex(ls.skip(i as int)) {
                Err(e) => Err(e),
                Ok(rest) => Ok(lines_view(out@) + rest),
            },
        decreases lines.len() - i,
    {
        proof {
            assert(ls.skip(i as int).drop_first() =~= ls.skip(i + 1));
            assert(ls.skip(i as int)[0] == lines@[i as int]@);
        }
        match complex_of(&lines[i]) {
            Err(e) => {
                return Err(e);
            },
            Ok(mut xs) => {
                let ghost before = lines_view(out@);
                let ghost added = lines_view(xs@);
                out.append(&mut xs);
                proof {
                    assert(lines_view(out@) =~= before + added);
                    match expand_complex(ls.skip(i + 1)) {
                        Err(e) => {},
                        Ok(rest) => {
                            assert(before + (added + rest) =~= (before + added) + rest);
                        },
                    }
                }
            },
        }
        i += 1;
    }
    proof {
        assert(ls.skip(i as int) =~= Seq::<LineView>::empty());
        assert(lines_view(out@) + Seq::<LineView>::empty() =~= lines_view(out@));
    }
    Ok(out)
}

/// The text that tera renders from `template` with the operand list bound to `params`,
/// or `None` where rendering fails.
pub uninterp spec fn rendered(template: Seq<char>, params: Seq<Seq<char>>) -> Option<Seq<char>>;

/// Relies on `tera::Tera::one_off`: renders `template` with `params` bound to the name
/// `params`, autoescaping off. A plain template holds text and lookups `params[d]` only,
/// so tera evaluates no arithmetic and calls no function on it (none of which could then
/// panic or read the environment), and the output depends on the two arguments alone.
#[verifier::external_body]
fn render(template: &str, params: &Vec<String>) -> (r: Option<String>)
    requires
        plain_template(template@),
    ensures
        match r {
            Some(s) => rendered(template@, texts(params@)) == Some(s@),
            None => rendered(template@, texts(params@)) is None,
        },
{
    let mut context = tera::Context::new();
    context.insert("params", params);
    tera::Tera::one_off(template, &context, false).ok()
}

/// The text of an optional string.
pub open spec fn text_option(r: Option<String>) -> Option<Seq<char>> {
    match r {
        Some(s) => Some(s@),
        None => None,
    }
}

/// The line that a rendered pseudo-instruction template stands for: the rendered text,
/// trimmed, read as an instruction line; a failed rendering is an error.
pub open spec fn after_render(name: Seq<char>, r: Option<Seq<char>>) -> Result<LineView, ErrorView> {
    match r {
        Some(s) => Ok(LineView::Instruction(instruction_of(trim(s)))),
        None => Err(ErrorView::InvalidTemplateOutput(name)),
    }
}

/// What the simple tier makes of one line: an instruction with a template is replaced
/// by the template's rendering; any other line stays as it is.
pub open spec fn simple_line(set: &InstructionSet, l: LineView) -> Result<LineView, ErrorView> {
    match l {
        LineView::Instruction(i) => match set.template_of(i.name) {
            Some(t) => after_render(i.name, rendered(t, i.params)),
            None => Ok(l),
        },
        LineView::Tag(_) => Ok(l),
    }
}

/// The simple tier over a program: the first error, or the lines in order.
pub open spec fn expand_simple(set: &InstructionSet, ls: Seq<LineView>) -> Result<
    Seq<LineView>,
    ErrorView,
>
    decreases ls.len(),
{
    if ls.len() == 0 {
        Ok(Seq::<LineView>::empty())
    } else {
        match simple_line(set, ls[0]) {
            Err(e) => Err(e),
            Ok(x) => match expand_simple(set, ls.drop_first()) {
                Err(e) => Err(e),
                Ok(rest) => Ok(seq![x] + rest),
            },
        }
    }
}

/// Turns the rendering of the pseudo-instruction `name`'s template into its line.
pub fn apply_rendered(name: &String, rendering: Option<String>) -> (r: Result<Line, AsmError>)
    ensures
        match r {
            Ok(l) => after_render(name@, text_option(rendering)) == Ok::<
                LineView,
                ErrorView,
            >(l@),
            Err(e) => after_render(name@, text_option(rendering)) == Err::<
                LineView,
                ErrorView,
            >(e@),
        },
{
    match rendering {
        Some(s) => {
            let cs = chars_of(s.as_str());
            let (a, b) = trim_bounds(&cs, 0, cs.len());
            proof {
                assert(cs@.subrange(0, cs@.len() as int) =~= s@);
            }
            Ok(Line::Instruction(instruction_in(&cs, a, b)))
        },
        None => Err(AsmError::InvalidTemplateOutput(name.clone())),
    }
}

fn simple_of(set: &InstructionSet, l: &Line) -> (r: Result<Line, AsmError>)
    requires
        set.wf(),
    ensures
        match r {
            Ok(x) => simple_line(set, l@) == Ok::<LineView, ErrorView>(x@),
            Err(e) => simple_line(set, l@) == Err::<LineView, ErrorView>(e@),
        },
{
    match l {
        Line::Instruction(i) => match find(&set.pseudo, &i.name) {
            Some(k) => {
                proof {
                    crate::table::lemma_first_index_bounds(
                        crate::table::keys(set.pseudo@),
                        i.name@,
                    );
                    assert(entry(set.pseudo@, i.name@) == Some(set.pseudo@[k as int]));
                }
                let out = render(set.pseudo[k].template.as_str(), &i.params);
                proof {
                    assert(text_option(out) == rendered(
                        set.pseudo@[k as int].template@,
                        texts(i.params@),
                    ));
                }
                apply_rendered(&i.name, out)
            },
            None => Ok(copy_line(l)),
        },
        Line::Tag(_) => Ok(copy_line(l)),
    }
}

/// Replaces each simple pseudo-instruction by the instruction its template writes;
/// lines whose mnemonic has no template pass through unchanged.
pub fn replace_simple_pseudo(set: &InstructionSet, lines: &Vec<Line>) -> (r: Result<
    Vec<Line>,
    AsmError,
>)
    requires
        set.wf(),
    ensures
        lines_result(r) == expand_simple(set, lines_view(lines@)),
{
    let ghost ls = lines_view(lines@);
    let mut out: Vec<Line> = Vec::new();
    let mut i: usize = 0;
    while i < lines.len()
        invariant
            i <= lines.len(),
            set.wf(),
            ls == lines_view(lines@),
            expand_simple(set, ls) == match expand_simple(set, ls.skip(i as int)) {
                Err(e) => Err(e),
                Ok(rest) => Ok(lines_view(out@) + rest),
            },
        decreases lines.len() - i,
    {
        proof {
            assert(ls.skip(i as int).drop_first() =~= ls.skip(i + 1));
            assert(ls.skip(i as int)[0] == lines@[i as int]@);
        }
        match simple_of(set, &lines[i]) {
            Err(e) => {
                return Err(e);
            },
            Ok(x) => {
                let ghost before = lines_view(out@);
                proof {
                    out@.lemma_push_map_commute(|l: Line| l@, x);
                    match expand_simple(set, ls.skip(i + 1)) {
                        Err(e) => {},
                        Ok(rest) => {
                            assert(before + (seq![x@] + rest) =~= before.push(x@) + rest);
                        },
                    }
                }
                out.push(x);
            },
        }
        i += 1;
    }
    proof {
        assert(ls.skip(i as int) =~= Seq::<LineView>::empty());
        assert(lines_view(out@) + Seq::<LineView>::empty() =~= lines_view(out@));
    }
    Ok(out)
}

/// A mnemonic that is neither `li` nor in the simple-pseudo table.
pub open spec fn passes_through(set: &InstructionSet, l: LineView) -> bool {
    l matches LineView::Instruction(i) ==> i.name != "li"@ && set.template_of(i.name) is None
}

/// Lines whose mnemonics neither tier knows come out of both tiers with the same
/// mnemonics and operands, in the same order.
pub proof fn lemma_pass_through(set: &InstructionSet, ls: Seq<LineView>)
    requires
        forall|j: int| 0 <= j < ls.len() ==> passes_through(set, #[trigger] ls[j]),
    ensures
        expand_complex(ls) == Ok::<Seq<LineView>, ErrorView>(ls),
        expand_simple(set, ls) == Ok::<Seq<LineView>, ErrorView>(ls),
    decreases ls.len(),
{
    if ls.len() > 0 {
        let rest = ls.drop_first();
        assert forall|j: int| 0 <= j < rest.len() implies passes_through(set, #[trigger] rest[j]) by {
            assert(rest[j] == ls[j + 1]);
        }
        lemma_pass_through(set, rest);
        assert(passes_through(set, ls[0]));
        assert(seq![ls[0]] + rest =~= ls);
    }
}

/// A 12-bit field sign-extended to 32 bits, as `addi` reads its immediate.
pub open spec fn sign_extend_12(l: u32) -> u32 {
    if l & 0x800 != 0 {
        l | 0xfffff000
    } else {
        l
    }
}

/// What a register holds after `lui` with the 20-bit field `upper` and then `addi` with
/// the 12-bit field `lower`, in 32-bit wrapping arithmetic.
pub open spec fn lui_addi_value(upper: u32, lower: u32) -> u32 {
    (((upper << 12u32) as int + sign_extend_12(lower) as int) % 0x1_0000_0000) as u32
}

/// Loading a constant: the `lui` field (the low 20 bits of the upper part) and the
/// `addi` field (the low part) of the expansion of `li` rebuild the constant exactly;
/// when the upper part is zero `addi` alone does, and when the low part is zero `lui`
/// alone does.
pub proof fn lemma_li_round_trip(v: i32)
    ensures
        lui_addi_value((li_higher(v) as u32) & 0xfffff, li_lower(v) as u32) == v as u32,
        li_higher(v) == 0 ==> sign_extend_12(li_lower(v) as u32) == v as u32,
        li_lower(v) == 0 ==> (li_higher(v) as u32) << 12u32 == v as u32,
        0 <= li_lower(v) < 0x1000,
{
    let lower = v & 0xfff;
    let high = v >> 12u32;
    let higher: i32 = if lower > 0x7ff {
        (high + 1) as i32
    } else {
        high
    };
    assert(higher == li_higher(v));
    let u: u32 = #[verifier::truncate] (higher as u32);
    let l: u32 = lower as u32;
    let w: u32 = #[verifier::truncate] (v as u32);
    assert(0 <= lower < 0x1000 && high < 0x7ffff + 1) by (bit_vector)
        requires
            lower == v & 0xfff,
            high == v >> 12u32,
    ;
    let sext: u32 = if l & 0x800 != 0 {
        l | 0xfffff000
    } else {
        l
    };
    assert((((u & 0xfffff) << 12u32) as int + sext as int) % 0x1_0000_0000 == w as int) by (
    bit_vector)
        requires
            lower == v & 0xfff,
            high == v >> 12u32,
            higher == if lower > 0x7ff {
                (high + 1) as i32
            } else {
                high
            },
            u == higher as u32,
            l == lower as u32,
            w == v as u32,
            sext == if l & 0x800 != 0 {
                l | 0xfffff000
            } else {
                l
            },
    ;
    assert(higher == 0 ==> sext == w) by (bit_vector)
        requires
            lower == v & 0xfff,
            high == v >> 12u32,
            higher == if lower > 0x7ff {
                (high + 1) as i32
            } else {
                high
            },
            l == lower as u32,
            w == v as u32,
            sext == if l & 0x800 != 0 {
                l | 0xfffff000
            } else {
                l
            },
    ;
    assert(lower == 0 ==> u << 12u32 == w) by (bit_vector)
        requires
            lower == v & 0xfff,
            high == v >> 12u32,
            higher == if lower > 0x7ff {
                (high + 1) as i32
            } else {
                high
            },
            u == higher as u32,
            w == v as u32,
    ;
}

/// The number an operand's text reads as (0 when it reads as none).
pub open spec fn operand_value(s: Seq<char>) -> u32 {
    match unsigned_literal(s) {
        Some(m) => m as u32,
        None => 0,
    }
}

/// The value that an expansion of `li` leaves in its register, read from the text of its
/// operands: `mv` from `zero` clears the register, `lui` sets its upper 20 bits, and
/// `addi` adds its sign-extended 12-bit operand to zero or to the register.
pub open spec fn loaded_value(e: Seq<InstructionView>) -> u32 {
    if e[0].name == "mv"@ {
        0
    } else if e[0].name == "addi"@ {
        sign_extend_12(operand_value(e[0].params[2]) & 0xfff)
    } else if e.len() == 1 {
        (operand_value(e[0].params[1]) & 0xfffff) << 12u32
    } else {
        lui_addi_value(operand_value(e[0].params[1]) & 0xfffff, operand_value(e[1].params[2]) & 0xfff)
    }
}

/// For every destination and every 32-bit constant, the instructions that `li` expands
/// to, read back through their operand texts, rebuild the constant exactly.
pub proof fn lemma_li_expansion_round_trip(dst: Seq<char>, v: i32)
    ensures
        loaded_value(li_expansion(dst, v)) == v as u32,
{
    reveal_strlit("mv");
    reveal_strlit("addi");
    reveal_strlit("lui");
    lemma_li_round_trip(v);
    let lower = li_lower(v);
    let higher = li_higher(v);
    let l = lower as u32;
    let h = #[verifier::truncate] (higher as u32);
    lemma_hex_literal(h);
    lemma_decimal_literal(l);
    assert(operand_value(hex_literal(h)) == h);
    assert(operand_value(decimal_literal(l)) == l);
    assert(l & 0xfff == l) by (bit_vector)
        requires
            l < 0x1000,
    ;
    assert((h & 0xfffff) << 12u32 == h << 12u32) by (bit_vector);
    let e = li_expansion(dst, v);
    if higher == 0 && lower == 0 {
        assert(e[0].name == "mv"@);
    } else if higher == 0 {
        assert(e[0].name == "addi"@);
    } else {
        assert(e[0].name == "lui"@);
        assert(e[0].params[1] == hex_literal(h));
        if lower != 0 {
            assert(e[1].params[2] == decimal_literal(l));
        }
    }
}

} // verus!
