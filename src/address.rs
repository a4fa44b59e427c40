//! Pass 1: addresses for instructions and labels.
use vstd::prelude::*;

use crate::error::{AsmError, ErrorView};
use crate::line::{InstructionView, Line, LineView, UnparsedInstruction, lines_view};
use crate::pseudo::copy_texts;
use crate::table::{Named, find, first_index, keys};

verus! {

broadcast use vstd::seq_lib::group_seq_properties;

/// A label and the address it stands for.
pub struct Label {
    pub name: String,
    pub address: i32,
}

impl Named for Label {
    open spec fn key(&self) -> Seq<char> {
        self.name@
    }

    fn name(&self) -> (r: &String) {
        &self.name
    }
}

/// The label map as pairs of name and address.
pub open spec fn labels_view(v: Seq<Label>) -> Seq<(Seq<char>, i32)> {
    v.map_values(|l: Label| (l.name@, l.address))
}

/// The names of a label map.
pub open spec fn label_names(m: Seq<(Seq<char>, i32)>) -> Seq<Seq<char>> {
    m.map_values(|p: (Seq<char>, i32)| p.0)
}

/// The address of the label `name`.
pub open spec fn label_address(m: Seq<(Seq<char>, i32)>, name: Seq<char>) -> Option<i32> {
    match first_index(label_names(m), name) {
        Some(i) => Some(m[i].1),
        None => None,
    }
}

/// The contents of each instruction.
pub open spec fn instructions_view(v: Seq<UnparsedInstruction>) -> Seq<InstructionView> {
    v.map_values(|i: UnparsedInstruction| i@)
}

/// Pass 1 over a program: the instructions in order, and each label mapped to four times
/// the number of instructions before it; a label defined twice is an error.
pub open spec fn assign_spec(ls: Seq<LineView>) -> Result<
    (Seq<InstructionView>, Seq<(Seq<char>, i32)>),
    ErrorView,
>
    decreases ls.len(),
{
    if ls.len() == 0 {
        Ok((Seq::<InstructionView>::empty(), Seq::<(Seq<char>, i32)>::empty()))
    } else {
        match assign_spec(ls.drop_last()) {
            Err(e) => Err(e),
            Ok((ins, labels)) => match ls.last() {
                LineView::Tag(n) => if first_index(label_names(labels), n) is Some {
                    Err(ErrorView::DuplicateLabel(n))
                } else {
                    Ok((ins, labels.push((n, (4 * ins.len()) as i32))))
                },
                LineView::Instruction(i) => Ok((ins.push(i), labels)),
            },
        }
    }
}

/// Pass 1 never yields more instructions than it was given lines.
pub proof fn lemma_assign_len(ls: Seq<LineView>)
    ensures
        assign_spec(ls) matches Ok((ins, labels)) ==> ins.len() <= ls.len(),
    decreases ls.len(),
{
    if ls.len() > 0 {
        lemma_assign_len(ls.drop_last());
    }
}

/// An error in a prefix of the program is the error of the whole.
pub proof fn lemma_assign_error(ls: Seq<LineView>, j: int)
    requires
        0 <= j <= ls.len(),
        assign_spec(ls.take(j)) is Err,
    ensures
        assign_spec(ls) == assign_spec(ls.take(j)),
    decreases ls.len(),
{
    if j < ls.len() {
        assert(ls.drop_last().take(j) =~= ls.take(j));
        lemma_assign_error(ls.drop_last(), j);
    } else {
        assert(ls.take(j) =~= ls);
    }
}

/// Splits a program into its instructions and its label map, giving the instruction at
/// position `k` the address `4 * k`.
pub fn assign_address(lines: &Vec<Line>) -> (r: Result<(Vec<UnparsedInstruction>, Vec<Label>), AsmError>)
    requires
        lines.len() < 0x2000_0000,
    ensures
        match r {
            Ok((ins, labels)) => assign_spec(lines_view(lines@)) == Ok::<
                (Seq<InstructionView>, Seq<(Seq<char>, i32)>),
                ErrorView,
            >((instructions_view(ins@), labels_view(labels@))),
            Err(e) => assign_spec(lines_view(lines@)) == Err::<
                (Seq<InstructionView>, Seq<(Seq<char>, i32)>),
                ErrorView,
            >(e@),
        },
{
    let ghost ls = lines_view(lines@);
    let mut ins: Vec<UnparsedInstruction> = Vec::new();
    let mut labels: Vec<Label> = Vec::new();
    let mut address: i32 = 0;
    let mut i: usize = 0;
    proof {
        assert(ls.take(0) =~= Seq::<LineView>::empty());
        assert(instructions_view(ins@) =~= Seq::<InstructionView>::empty());
        assert(labels_view(labels@) =~= Seq::<(Seq<char>, i32)>::empty());
    }
    while i < lines.len()
        invariant
            i <= lines.len() < 0x2000_0000,
            ls == lines_view(lines@),
            ins.len() <= i,
            address == 4 * ins.len(),
            assign_spec(ls.take(i as int)) == Ok::<
                (Seq<InstructionView>, Seq<(Seq<char>, i32)>),
                ErrorView,
            >((instructions_view(ins@), labels_view(labels@))),
        decreases lines.len() - i,
    {
        proof {
            assert(ls.take(i + 1).drop_last() =~= ls.take(i as int));
            assert(ls.take(i + 1).last() == lines@[i as int]@);
            assert(keys(labels@) =~= label_names(labels_view(labels@)));
        }
        match &lines[i] {
            Line::Tag(name) => {
                if find(&labels, name).is_some() {
                    proof {
                        lemma_assign_error(ls, i + 1);
                    }
                    return Err(AsmError::DuplicateLabel(name.clone()));
                }
                let l = Label { name: name.clone(), address };
                proof {
                    labels@.lemma_push_map_commute(|l: Label| (l.name@, l.address), l);
                }
                labels.push(l);
            },
            Line::Instruction(x) => {
                let c = UnparsedInstruction { name: x.name.clone(), params: copy_texts(&x.params) };
                proof {
                    ins@.lemma_push_map_commute(|i: UnparsedInstruction| i@, c);
                }
                ins.push(c);
                address = address + 4;
            },
        }
        i += 1;
    }
    proof {
        assert(ls.take(i as int) =~= ls);
    }
    Ok((ins, labels))
}

/// The instruction lines of a program, in order.
pub open spec fn instructions_in(ls: Seq<LineView>) -> Seq<InstructionView>
    decreases ls.len(),
{
    if ls.len() == 0 {
        Seq::<InstructionView>::empty()
    } else {
        let p = instructions_in(ls.drop_last());
        match ls.last() {
            LineView::Instruction(i) => p.push(i),
            LineView::Tag(_) => p,
        }
    }
}

proof fn lemma_label_address_push(m: Seq<(Seq<char>, i32)>, x: (Seq<char>, i32), n: Seq<char>)
    ensures
        label_names(m.push(x)) == label_names(m).push(x.0),
        label_address(m, n) is Some ==> label_address(m.push(x), n) == label_address(m, n),
        label_address(m, n) is None && x.0 == n ==> label_address(m.push(x), n) == Some(x.1),
{
    let names = label_names(m);
    assert(label_names(m.push(x)) =~= names.push(x.0));
    assert(names.push(x.0).drop_last() =~= names);
    crate::table::lemma_first_index_bounds(names, n);
}

/// Pass 1 keeps the instructions in source order, labels left out, so the one at
/// position `k` is encoded at address `4 * k`; and a label stands for four times the
/// number of instructions before it, which is the address of the instruction it
/// precedes.
pub proof fn lemma_addresses(ls: Seq<LineView>)
    requires
        assign_spec(ls) is Ok,
    ensures
        assign_spec(ls)->Ok_0.0 == instructions_in(ls),
        forall|j: int|
            0 <= j < ls.len() && (#[trigger] ls[j]) is Tag ==> label_address(
                assign_spec(ls)->Ok_0.1,
                ls[j]->Tag_0,
            ) == Some((4 * instructions_in(ls.take(j)).len()) as i32),
    decreases ls.len(),
{
    if ls.len() > 0 {
        let prefix = ls.drop_last();
        lemma_addresses(prefix);
        let (ins, labels) = assign_spec(prefix)->Ok_0;
        assert forall|j: int| 0 <= j < ls.len() && (#[trigger] ls[j]) is Tag implies label_address(
            assign_spec(ls)->Ok_0.1,
            ls[j]->Tag_0,
        ) == Some((4 * instructions_in(ls.take(j)).len()) as i32) by {
            let n = ls[j]->Tag_0;
            if j < ls.len() - 1 {
                assert(prefix[j] == ls[j]);
                assert(prefix.take(j) =~= ls.take(j));
                match ls.last() {
                    LineView::Tag(m) => {
                        lemma_label_address_push(labels, (m, (4 * ins.len()) as i32), n);
                    },
                    LineView::Instruction(_) => {},
                }
            } else {
                assert(ls.take(j) =~= prefix);
                lemma_label_address_push(labels, (n, (4 * ins.len()) as i32), n);
            }
        }
    }
}

} // verus!
