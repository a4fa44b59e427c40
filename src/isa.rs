//! The tables that describe an instruction set: register and CSR names, simple
//! pseudo-instruction templates and encodings.
use vstd::prelude::*;

use crate::encoding::Field;
use crate::table::{Named, entry, keys};
use crate::text::chars_of;

verus! {

/// A register name and the register's number.
pub struct RegisterName {
    pub name: String,
    pub id: u8,
}

/// A CSR name and its address.
pub struct CsrName {
    pub name: String,
    pub address: u16,
}

/// A pseudo-instruction whose replacement is one instruction written by a tera template
/// over the operand list `params`.
pub struct PseudoTemplate {
    pub name: String,
    pub template: String,
}

/// A mnemonic and the layout of its 32-bit word.
pub struct Encoding {
    pub name: String,
    pub fields: Vec<Field>,
}

impl Named for RegisterName {
    open spec fn key(&self) -> Seq<char> {
        self.name@
    }

    fn name(&self) -> (r: &String) {
        &self.name
    }
}

impl Named for CsrName {
    open spec fn key(&self) -> Seq<char> {
        self.name@
    }

    fn name(&self) -> (r: &String) {
        &self.name
    }
}

impl Named for PseudoTemplate {
    open spec fn key(&self) -> Seq<char> {
        self.name@
    }

    fn name(&self) -> (r: &String) {
        &self.name
    }
}

impl Named for Encoding {
    open spec fn key(&self) -> Seq<char> {
        self.name@
    }

    fn name(&self) -> (r: &String) {
        &self.name
    }
}

/// The number of spaces at the start of `s`.
pub open spec fn spaces_len(s: Seq<char>) -> nat
    decreases s.len(),
{
    if s.len() > 0 && s[0] == ' ' {
        1 + spaces_len(s.drop_first())
    } else {
        0
    }
}

/// Whether `s` begins with `params[d]`, `d` one decimal digit.
pub open spec fn is_param_ref(s: Seq<char>) -> bool {
    &&& s.len() >= 9
    &&& s[0] == 'p' && s[1] == 'a' && s[2] == 'r' && s[3] == 'a' && s[4] == 'm' && s[5] == 's'
    &&& s[6] == '['
    &&& '0' <= s[7] <= '9'
    &&& s[8] == ']'
}

/// The length of a placeholder `{{ params[d] }}` (the spaces inside the braces optional)
/// at the start of `s`; 0 when there is none.
pub open spec fn placeholder_len(s: Seq<char>) -> nat {
    if s.len() >= 2 && s[0] == '{' && s[1] == '{' {
        let a = spaces_len(s.skip(2));
        let t = s.skip((2 + a) as int);
        if is_param_ref(t) {
            let b = spaces_len(t.skip(9));
            let u = t.skip((9 + b) as int);
            if u.len() >= 2 && u[0] == '}' && u[1] == '}' {
                2 + a + 9 + b + 2
            } else {
                0
            }
        } else {
            0
        }
    } else {
        0
    }
}

/// A template that tera renders by looking up operands and nothing else: text without
/// `{`, with placeholders `{{ params[d] }}` among it. No expression, tag or comment can
/// stand in it, so rendering evaluates no arithmetic and calls no function.
pub open spec fn plain_template(s: Seq<char>) -> bool
    decreases s.len(),
{
    if s.len() == 0 {
        true
    } else if s[0] == '{' {
        let n = placeholder_len(s);
        0 < n <= s.len() && plain_template(s.skip(n as int))
    } else {
        plain_template(s.drop_first())
    }
}

/// The names and numbers of a register table, in order.
pub open spec fn register_entries(v: Seq<RegisterName>) -> Seq<(Seq<char>, u8)> {
    v.map_values(|e: RegisterName| (e.name@, e.id))
}

/// The names and addresses of a CSR table, in order.
pub open spec fn csr_entries(v: Seq<CsrName>) -> Seq<(Seq<char>, u16)> {
    v.map_values(|e: CsrName| (e.name@, e.address))
}

/// Everything the assembler needs to know of an instruction set. Where a name occurs
/// more than once in a table, lookups take its first entry.
pub struct InstructionSet {
    pub registers: Vec<RegisterName>,
    pub csrs: Vec<CsrName>,
    pub pseudo: Vec<PseudoTemplate>,
    pub encodings: Vec<Encoding>,
}

impl InstructionSet {
    /// Register numbers are below 32, CSR addresses below 4096, and every template is
    /// plain.
    pub open spec fn wf(&self) -> bool {
        &&& forall|i: int| 0 <= i < self.registers@.len() ==> #[trigger] self.registers@[i].id < 32
        &&& forall|i: int| 0 <= i < self.csrs@.len() ==> #[trigger] self.csrs@[i].address < 4096
        &&& forall|i: int|
            0 <= i < self.pseudo@.len() ==> plain_template(#[trigger] self.pseudo@[i].template@)
    }

    /// The number of the register called `name`.
    pub open spec fn register_of(&self, name: Seq<char>) -> Option<u8> {
        match entry(self.registers@, name) {
            Some(e) => Some(e.id),
            None => None,
        }
    }

    /// The address of the CSR called `name`.
    pub open spec fn csr_of(&self, name: Seq<char>) -> Option<u16> {
        match entry(self.csrs@, name) {
            Some(e) => Some(e.address),
            None => None,
        }
    }

    /// The template of the simple pseudo-instruction `name`.
    pub open spec fn template_of(&self, name: Seq<char>) -> Option<Seq<char>> {
        match entry(self.pseudo@, name) {
            Some(e) => Some(e.template@),
            None => None,
        }
    }

    /// Empty tables.
    pub fn new() -> (r: InstructionSet)
        ensures
            r.wf(),
            r.registers@.len() == 0,
            r.csrs@.len() == 0,
            r.pseudo@.len() == 0,
            r.encodings@.len() == 0,
    {
        InstructionSet {
            registers: Vec::new(),
            csrs: Vec::new(),
            pseudo: Vec::new(),
            encodings: Vec::new(),
        }
    }

    /// Adds `name` as a name of register `id`, after the names already there.
    pub fn add_register(&mut self, name: &str, id: u8)
        requires
            old(self).wf(),
            id < 32,
        ensures
            final(self).wf(),
            final(self).registers@.len() == old(self).registers@.len() + 1,
            final(self).registers@.drop_last() == old(self).registers@,
            final(self).registers@.last().name@ == name@,
            final(self).registers@.last().id == id,
            register_entries(final(self).registers@) == register_entries(old(self).registers@).push(
                (name@, id),
            ),
            final(self).csrs == old(self).csrs,
            final(self).pseudo == old(self).pseudo,
            final(self).encodings == old(self).encodings,
    {
        let e = RegisterName { name: name.to_owned(), id };
        proof {
            old(self).registers@.lemma_push_map_commute(|e: RegisterName| (e.name@, e.id), e);
        }
        self.registers.push(e);
        assert(self.registers@.drop_last() =~= old(self).registers@);
    }

    /// Adds `name` as the name of the CSR at `address`, after the names already there.
    pub fn add_csr(&mut self, name: &str, address: u16)
        requires
            old(self).wf(),
            address < 4096,
        ensures
            final(self).wf(),
            final(self).csrs@.len() == old(self).csrs@.len() + 1,
            final(self).csrs@.drop_last() == old(self).csrs@,
            final(self).csrs@.last().name@ == name@,
            final(self).csrs@.last().address == address,
            csr_entries(final(self).csrs@) == csr_entries(old(self).csrs@).push((name@, address)),
            final(self).registers == old(self).registers,
            final(self).pseudo == old(self).pseudo,
            final(self).encodings == old(self).encodings,
    {
        let e = CsrName { name: name.to_owned(), address };
        proof {
            old(self).csrs@.lemma_push_map_commute(|e: CsrName| (e.name@, e.address), e);
        }
        self.csrs.push(e);
        assert(self.csrs@.drop_last() =~= old(self).csrs@);
    }

    /// Adds the simple pseudo-instruction `name` with its template, unless the template
    /// is not plain; says whether it was added.
    pub fn add_pseudo(&mut self, name: &str, template: &str) -> (added: bool)
        requires
            old(self).wf(),
        ensures
            final(self).wf(),
            added == plain_template(template@),
            added ==> final(self).pseudo@.len() == old(self).pseudo@.len() + 1
                && final(self).pseudo@.drop_last() == old(self).pseudo@
                && final(self).pseudo@.last().name@ == name@
                && final(self).pseudo@.last().template@ == template@,
            !added ==> final(self).pseudo == old(self).pseudo,
            final(self).registers == old(self).registers,
            final(self).csrs == old(self).csrs,
            final(self).encodings == old(self).encodings,
    {
        if !is_plain_template(template) {
            return false;
        }
        self.pseudo.push(PseudoTemplate { name: name.to_owned(), template: template.to_owned() });
        assert(self.pseudo@.drop_last() =~= old(self).pseudo@);
        true
    }

    /// Adds the encoding of `name`, after the encodings already there.
    pub fn add_encoding(&mut self, name: &str, fields: Vec<Field>)
        requires
            old(self).wf(),
        ensures
            final(self).wf(),
            final(self).encodings@.len() == old(self).encodings@.len() + 1,
            final(self).encodings@.drop_last() == old(self).encodings@,
            final(self).encodings@.last().name@ == name@,
            final(self).encodings@.last().fields == fields,
            keys(final(self).encodings@) == keys(old(self).encodings@).push(name@),
            final(self).registers == old(self).registers,
            final(self).csrs == old(self).csrs,
            final(self).pseudo == old(self).pseudo,
    {
        let e = Encoding { name: name.to_owned(), fields };
        proof {
            old(self).encodings@.lemma_push_map_commute(|e: Encoding| e.key(), e);
        }
        self.encodings.push(e);
        assert(self.encodings@.drop_last() =~= old(self).encodings@);
    }

    /// Whether the tables are well formed.
    pub fn check(&self) -> (r: bool)
        ensures
            r == self.wf(),
    {
        let mut i: usize = 0;
        while i < self.registers.len()
            invariant
                i <= self.registers@.len(),
                forall|j: int| 0 <= j < i ==> #[trigger] self.registers@[j].id < 32,
            decreases self.registers.len() - i,
        {
            if self.registers[i].id >= 32 {
                return false;
            }
            i += 1;
        }
        let mut i: usize = 0;
        while i < self.csrs.len()
            invariant
                i <= self.csrs@.len(),
                forall|j: int| 0 <= j < i ==> #[trigger] self.csrs@[j].address < 4096,
            decreases self.csrs.len() - i,
        {
            if self.csrs[i].address >= 4096 {
                return false;
            }
            i += 1;
        }
        let mut i: usize = 0;
        while i < self.pseudo.len()
            invariant
                i <= self.pseudo@.len(),
                forall|j: int|
                    0 <= j < i ==> plain_template(#[trigger] self.pseudo@[j].template@),
            decreases self.pseudo.len() - i,
        {
            if !is_plain_template(self.pseudo[i].template.as_str()) {
                return false;
            }
            i += 1;
        }
        true
    }
}

/// The number of spaces at `cs[i..]`.
fn spaces_at(cs: &Vec<char>, i: usize) -> (r: usize)
    requires
        i <= cs.len(),
    ensures
        i + r <= cs.len(),
        r == spaces_len(cs@.skip(i as int)),
{
    let mut j: usize = i;
    while j < cs.len() && cs[j] == ' '
        invariant
            i <= j <= cs.len(),
            spaces_len(cs@.skip(i as int)) == (j - i) + spaces_len(cs@.skip(j as int)),
        decreases cs.len() - j,
    {
        assert(cs@.skip(j as int).drop_first() =~= cs@.skip(j + 1));
        j += 1;
    }
    j - i
}

/// The length of a placeholder at `cs[i..]`, or 0.
fn placeholder_at(cs: &Vec<char>, i: usize) -> (r: usize)
    requires
        i <= cs.len(),
    ensures
        i + r <= cs.len(),
        r == placeholder_len(cs@.skip(i as int)),
{
    let ghost s = cs@.skip(i as int);
    if !(cs.len() - i >= 2 && cs[i] == '{' && cs[i + 1] == '{') {
        return 0;
    }
    let a = spaces_at(cs, i + 2);
    proof {
        assert(s.skip(2) =~= cs@.skip(i + 2));
        assert(s.skip((2 + a) as int) =~= cs@.skip(i + 2 + a));
    }
    let k = i + 2 + a;
    if !(cs.len() - k >= 9 && cs[k] == 'p' && cs[k + 1] == 'a' && cs[k + 2] == 'r' && cs[k + 3]
        == 'a' && cs[k + 4] == 'm' && cs[k + 5] == 's' && cs[k + 6] == '[' && '0' <= cs[k + 7]
        && cs[k + 7] <= '9' && cs[k + 8] == ']') {
        return 0;
    }
    let b = spaces_at(cs, k + 9);
    let m = k + 9 + b;
    proof {
        let t = s.skip((2 + a) as int);
        assert(t.skip(9) =~= cs@.skip(k + 9));
        assert(t.skip((9 + b) as int) =~= cs@.skip(m as int));
    }
    if cs.len() - m >= 2 && cs[m] == '}' && cs[m + 1] == '}' {
        2 + a + 9 + b + 2
    } else {
        0
    }
}

/// Whether `template` is plain: text without `{`, with placeholders `{{ params[d] }}`.
pub fn is_plain_template(template: &str) -> (r: bool)
    ensures
        r == plain_template(template@),
{
    let cs = chars_of(template);
    let mut i: usize = 0;
    proof {
        assert(cs@.skip(0) =~= cs@);
    }
    while i < cs.len()
        invariant
            i <= cs.len(),
            cs@ == template@,
            plain_template(cs@) == plain_template(cs@.skip(i as int)),
        decreases cs.len() - i,
    {
        let ghost s = cs@.skip(i as int);
        if cs[i] == '{' {
            let n = placeholder_at(&cs, i);
            if n == 0 {
                return false;
            }
            proof {
                assert(s.skip(n as int) =~= cs@.skip(i + n));
            }
            i += n;
        } else {
            proof {
                assert(s.drop_first() =~= cs@.skip(i + 1));
            }
            i += 1;
        }
    }
    proof {
        assert(cs@.skip(i as int).len() == 0);
    }
    true
}

} // verus!
