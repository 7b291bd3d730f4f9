//! Mnemonic resolution and operand validation for one line of tokens.
use vstd::prelude::*;
use crate::error::{ErrorView, RimError};
use crate::isa::{
    Category, Device, Instruction, InstructionData, Opcode, Register, U3, U4, ADDRESS_MAX,
    FUNCTION_MAX, IMMEDIATE_MAX,
};
use crate::text::{chars_of, digits_value, parse_number, parse_number_spec, same_word, unsigned_digits};

verus! {

/// A token of a source line, beside its lower-case form.
pub struct Token {
    pub text: String,
    pub folded: String,
}

impl View for Token {
    type V = (Seq<char>, Seq<char>);

    open spec fn view(&self) -> (Seq<char>, Seq<char>) {
        (self.text@, self.folded@)
    }
}

pub open spec fn token_views(toks: Seq<Token>) -> Seq<(Seq<char>, Seq<char>)> {
    toks.map_values(|t: Token| t@)
}

pub open spec fn opcode_of(m: Seq<char>) -> Option<Opcode> {
    if m == "adi"@ {
        Some(Opcode::Adi)
    } else if m == "add"@ {
        Some(Opcode::Add)
    } else if m == "sub"@ {
        Some(Opcode::Sub)
    } else if m == "jne"@ {
        Some(Opcode::Jne)
    } else if m == "jg"@ {
        Some(Opcode::Jg)
    } else if m == "jl"@ {
        Some(Opcode::Jl)
    } else if m == "ioi"@ {
        Some(Opcode::Ioi)
    } else if m == "ior"@ {
        Some(Opcode::Ior)
    } else {
        None
    }
}

pub open spec fn register_of(t: Seq<char>) -> Option<Register> {
    if t == "ra"@ {
        Some(Register::Ra)
    } else if t == "rb"@ {
        Some(Register::Rb)
    } else if t == "rc"@ {
        Some(Register::Rc)
    } else if t == "rd"@ {
        Some(Register::Rd)
    } else {
        None
    }
}

pub open spec fn device_of(t: Seq<char>) -> Option<Device> {
    if t == "cpu"@ {
        Some(Device::Cpu)
    } else if t == "kbd"@ {
        Some(Device::Kbd)
    } else if t == "scr"@ {
        Some(Device::Scr)
    } else if t == "mth"@ {
        Some(Device::Mth)
    } else {
        None
    }
}

/// What `hlt` stands for: the CPU device, function 0.
pub open spec fn halt() -> Instruction {
    Instruction {
        opcode: Opcode::Ioi,
        data: InstructionData::Io { device: Device::Cpu, function: U3::from_value(0) },
    }
}

/// Number of operand tokens a category takes.
pub open spec fn arity(c: Category) -> int {
    match c {
        Category::Immediate => 1,
        Category::RegisterPair => 2,
        Category::MemoryAddress => 1,
        Category::IoOperation => 2,
    }
}

/// Largest value of the numeric field of a category (none for register pairs).
pub open spec fn field_max(c: Category) -> u8 {
    match c {
        Category::Immediate => IMMEDIATE_MAX,
        Category::MemoryAddress => ADDRESS_MAX,
        _ => FUNCTION_MAX,
    }
}

/// A numeric operand: a decimal numeral no larger than `max`. A numeral
/// above `max` is too large, carrying its value; text that is no numeral, or
/// a numeral whose value does not fit a `u64`, is an invalid integer.
pub open spec fn field_spec(lno: usize, text: Seq<char>, max: u8) -> Result<u8, ErrorView> {
    match parse_number_spec(text) {
        None => Err(ErrorView::InvalidInteger(lno, text)),
        Some(v) => if v > max {
            Err(ErrorView::IntegerTooLarge(lno, v, max))
        } else {
            Ok(v as u8)
        },
    }
}

/// The opcode a mnemonic names, and whether it carried the indirect suffix `p`.
/// An unknown mnemonic is named as written, suffix included. `adip` is
/// refused by name, as `adi` has no indirect form.
pub open spec fn resolve_spec(lno: usize, text: Seq<char>, m: Seq<char>) -> Result<(Opcode, bool), ErrorView> {
    if m.len() > 0 && m.last() == 'p' {
        let stem = m.drop_last();
        if stem == "adi"@ {
            Err(ErrorView::InvalidInstruction(lno, m))
        } else {
            match opcode_of(stem) {
                Some(op) => Ok((op, true)),
                None => Err(ErrorView::InvalidInstruction(lno, text)),
            }
        }
    } else {
        match opcode_of(m) {
            Some(op) => Ok((op, false)),
            None => Err(ErrorView::InvalidInstruction(lno, text)),
        }
    }
}

/// The instruction that `op`, with indirect flag `ind`, makes of the tokens.
pub open spec fn operands_spec(
    lno: usize,
    op: Opcode,
    ind: bool,
    toks: Seq<(Seq<char>, Seq<char>)>,
) -> Result<Instruction, ErrorView> {
    let c = op.spec_category();
    if toks.len() < arity(c) + 1 {
        Err(ErrorView::LineTooShort(lno))
    } else if toks.len() > arity(c) + 1 {
        Err(ErrorView::LineTooLong(lno))
    } else {
        match c {
            Category::Immediate => match field_spec(lno, toks[1].0, IMMEDIATE_MAX) {
                Ok(v) => Ok(Instruction { opcode: op, data: InstructionData::Imm(v) }),
                Err(e) => Err(e),
            },
            Category::RegisterPair => match register_of(toks[1].1) {
                None => Err(ErrorView::InvalidRegister(lno, toks[1].1)),
                Some(src) => match register_of(toks[2].1) {
                    None => Err(ErrorView::InvalidRegister(lno, toks[2].1)),
                    Some(dest) => Ok(
                        Instruction {
                            opcode: op,
                            data: InstructionData::Reg { is_id: ind, src, dest },
                        },
                    ),
                },
            },
            Category::MemoryAddress => match field_spec(lno, toks[1].0, ADDRESS_MAX) {
                Ok(v) => Ok(
                    Instruction {
                        opcode: op,
                        data: InstructionData::Mem { is_ptr: ind, addr: U4::from_value(v) },
                    },
                ),
                Err(e) => Err(e),
            },
            Category::IoOperation => match device_of(toks[1].1) {
                None => Err(ErrorView::InvalidDevice(lno, toks[1].1)),
                Some(device) => match field_spec(lno, toks[2].0, FUNCTION_MAX) {
                    Ok(v) => Ok(
                        Instruction {
                            opcode: op,
                            data: InstructionData::Io { device, function: U3::from_value(v) },
                        },
                    ),
                    Err(e) => Err(e),
                },
            },
        }
    }
}

/// The instruction a non-blank line makes of its tokens (text, lower-case form).
pub open spec fn decode_spec(lno: usize, toks: Seq<(Seq<char>, Seq<char>)>) -> Result<
    Instruction,
    ErrorView,
> {
    if toks.len() == 0 {
        Err(ErrorView::InvalidInstruction(lno, Seq::empty()))
    } else if toks[0].1 == "hlt"@ {
        Ok(halt())
    } else {
        match resolve_spec(lno, toks[0].0, toks[0].1) {
            Err(e) => Err(e),
            Ok((op, ind)) => operands_spec(lno, op, ind, toks),
        }
    }
}

pub open spec fn result_view<T>(r: Result<T, RimError>) -> Result<T, ErrorView> {
    match r {
        Ok(v) => Ok(v),
        Err(e) => Err(e@),
    }
}

/// Operand count is checked before any operand is read: on a line that
/// decodes (other than `hlt`), dropping any operand token gives
/// `LineTooShort`, and adding one more token gives `LineTooLong`.
pub proof fn lemma_arity(lno: usize, toks: Seq<(Seq<char>, Seq<char>)>, j: int, extra: (Seq<char>, Seq<char>))
    requires
        decode_spec(lno, toks) is Ok,
        toks.len() > 0,
        toks[0].1 != "hlt"@,
        1 <= j < toks.len(),
    ensures
        decode_spec(lno, toks.remove(j)) == Err::<Instruction, ErrorView>(ErrorView::LineTooShort(lno)),
        decode_spec(lno, toks.push(extra)) == Err::<Instruction, ErrorView>(ErrorView::LineTooLong(lno)),
{
    assert(toks.remove(j)[0] == toks[0]);
    assert(toks.push(extra)[0] == toks[0]);
}

/// In each numeric category (immediate, memory address, I/O function) the
/// value operand is the last token; its maximum (31, 16, 7) is accepted, and
/// any larger value, one more included, fails with `IntegerTooLarge`
/// carrying that value and that maximum.
pub proof fn lemma_category_maximum(lno: usize, toks: Seq<(Seq<char>, Seq<char>)>, op: Opcode, ind: bool)
    requires
        toks.len() > 0,
        toks[0].1 != "hlt"@,
        resolve_spec(lno, toks[0].0, toks[0].1) == Ok::<(Opcode, bool), ErrorView>((op, ind)),
        op.spec_category() != Category::RegisterPair,
        toks.len() == arity(op.spec_category()) + 1,
        op.spec_category() == Category::IoOperation ==> device_of(toks[1].1) is Some,
    ensures
        field_max(Category::Immediate) == 31,
        field_max(Category::MemoryAddress) == 16,
        field_max(Category::IoOperation) == 7,
        parse_number_spec(toks.last().0) == Some(field_max(op.spec_category()) as u64)
            ==> decode_spec(lno, toks) is Ok,
        parse_number_spec(toks.last().0) == Some((field_max(op.spec_category()) + 1) as u64)
            ==> decode_spec(lno, toks) == Err::<Instruction, ErrorView>(
            ErrorView::IntegerTooLarge(
                lno,
                (field_max(op.spec_category()) + 1) as u64,
                field_max(op.spec_category()),
            ),
        ),
        forall|v: u64|
            parse_number_spec(toks.last().0) == Some(v) && v > field_max(op.spec_category())
                ==> decode_spec(lno, toks) == Err::<Instruction, ErrorView>(
                ErrorView::IntegerTooLarge(lno, v, field_max(op.spec_category())),
            ),
{
}

/// Case does not matter: two lines whose tokens have the same lower-case
/// forms, and whose numeric operands read alike, decode to the same
/// instruction.
pub proof fn lemma_case_blind(lno: usize, a: Seq<(Seq<char>, Seq<char>)>, b: Seq<(Seq<char>, Seq<char>)>)
    requires
        a.len() == b.len(),
        forall|i: int| 0 <= i < a.len() ==> (#[trigger] a[i]).1 == b[i].1,
        forall|i: int| 1 <= i < a.len() ==> parse_number_spec((#[trigger] a[i]).0) == parse_number_spec(b[i].0),
        decode_spec(lno, a) is Ok,
    ensures
        decode_spec(lno, b) == decode_spec(lno, a),
{
    if a.len() > 1 {
        assert(a[1].1 == b[1].1);
        assert(parse_number_spec(a[1].0) == parse_number_spec(b[1].0));
    }
    if a.len() > 2 {
        assert(a[2].1 == b[2].1);
        assert(parse_number_spec(a[2].0) == parse_number_spec(b[2].0));
    }
    if a.len() > 0 {
        assert(a[0].1 == b[0].1);
    }
}

/// `hlt` stands for `ioi cpu 0` whatever follows it on the line.
pub proof fn lemma_halt(lno: usize, toks: Seq<(Seq<char>, Seq<char>)>)
    requires
        toks.len() > 0,
        toks[0].1 == "hlt"@,
    ensures
        decode_spec(lno, toks) == Ok::<Instruction, ErrorView>(halt()),
        decode_spec(lno, seq![("ioi"@, "ioi"@), ("cpu"@, "cpu"@), ("0"@, "0"@)]) == decode_spec(lno, toks),
{
    reveal_strlit("hlt");
    reveal_strlit("ioi");
    reveal_strlit("cpu");
    reveal_strlit("0");
    reveal_strlit("adi");
    reveal_strlit("add");
    reveal_strlit("sub");
    reveal_strlit("jne");
    reveal_strlit("jg");
    reveal_strlit("jl");
    let t = seq![("ioi"@, "ioi"@), ("cpu"@, "cpu"@), ("0"@, "0"@)];
    assert(t[0].1 != "hlt"@);
    assert("ioi"@[0] != "adi"@[0] && "ioi"@[0] != "add"@[0] && "ioi"@[0] != "sub"@[0]
        && "ioi"@[0] != "jne"@[0] && "ioi"@.len() != "jg"@.len() && "ioi"@.len() != "jl"@.len());
    assert(opcode_of("ioi"@) == Some(Opcode::Ioi));
    assert(device_of("cpu"@) == Some(Device::Cpu));
    assert(unsigned_digits("0"@) =~= seq!['0']);
    assert(seq!['0'].drop_last() =~= Seq::<char>::empty());
    assert(digits_value(Seq::<char>::empty()) == 0);
    assert(seq!['0'].last() == '0');
    assert(digits_value(seq!['0']) == 0);
    assert(parse_number_spec("0"@) == Some(0u64));
}

/// An unknown mnemonic, with or without the suffix `p`, is refused naming
/// the token as written (`hltp` included, since `hlt` is matched before the
/// suffix is looked at).
pub proof fn lemma_unknown_named_as_written(lno: usize, toks: Seq<(Seq<char>, Seq<char>)>)
    requires
        toks.len() > 0,
        toks[0].1 != "hlt"@,
        toks[0].1 != "adip"@,
        opcode_of(toks[0].1) is None,
        toks[0].1.len() > 0 && toks[0].1.last() == 'p' ==> opcode_of(toks[0].1.drop_last()) is None,
    ensures
        decode_spec(lno, toks) == Err::<Instruction, ErrorView>(ErrorView::InvalidInstruction(lno, toks[0].0)),
{
    reveal_strlit("adip");
    reveal_strlit("adi");
    let m = toks[0].1;
    if m.len() > 0 && m.last() == 'p' && m.drop_last() == "adi"@ {
        assert(m =~= "adip"@);
    }
}

/// `adip` is refused as an instruction, naming `adip`, whatever follows it.
pub proof fn lemma_adip(lno: usize, toks: Seq<(Seq<char>, Seq<char>)>)
    requires
        toks.len() > 0,
        toks[0].1 == "adip"@,
    ensures
        decode_spec(lno, toks) == Err::<Instruction, ErrorView>(ErrorView::InvalidInstruction(lno, "adip"@)),
{
    reveal_strlit("adip");
    reveal_strlit("adi");
    reveal_strlit("hlt");
    assert("adip"@.drop_last() =~= "adi"@);
}

fn lookup_opcode(m: &Vec<char>, n: usize) -> (r: Option<Opcode>)
    requires
        n <= m@.len(),
    ensures
        r == opcode_of(m@.subrange(0, n as int)),
{
    if same_word(m, n, "adi") {
        Some(Opcode::Adi)
    } else if same_word(m, n, "add") {
        Some(Opcode::Add)
    } else if same_word(m, n, "sub") {
        Some(Opcode::Sub)
    } else if same_word(m, n, "jne") {
        Some(Opcode::Jne)
    } else if same_word(m, n, "jg") {
        Some(Opcode::Jg)
    } else if same_word(m, n, "jl") {
        Some(Opcode::Jl)
    } else if same_word(m, n, "ioi") {
        Some(Opcode::Ioi)
    } else if same_word(m, n, "ior") {
        Some(Opcode::Ior)
    } else {
        None
    }
}

fn lookup_register(t: &str) -> (r: Option<Register>)
    ensures
        r == register_of(t@),
{
    let c = chars_of(t);
    let n = c.len();
    assert(c@.subrange(0, n as int) =~= t@);
    if same_word(&c, n, "ra") {
        Some(Register::Ra)
    } else if same_word(&c, n, "rb") {
        Some(Register::Rb)
    } else if same_word(&c, n, "rc") {
        Some(Register::Rc)
    } else if same_word(&c, n, "rd") {
        Some(Register::Rd)
    } else {
        None
    }
}

fn lookup_device(t: &str) -> (r: Option<Device>)
    ensures
        r == device_of(t@),
{
    let c = chars_of(t);
    let n = c.len();
    assert(c@.subrange(0, n as int) =~= t@);
    if same_word(&c, n, "cpu") {
        Some(Device::Cpu)
    } else if same_word(&c, n, "kbd") {
        Some(Device::Kbd)
    } else if same_word(&c, n, "scr") {
        Some(Device::Scr)
    } else if same_word(&c, n, "mth") {
        Some(Device::Mth)
    } else {
        None
    }
}

/// Reads a numeric operand no larger than `max`.
fn parse_field(lno: usize, text: &String, max: u8) -> (r: Result<u8, RimError>)
    ensures
        result_view(r) == field_spec(lno, text@, max),
{
    match parse_number(text.as_str()) {
        None => Err(RimError::InvalidInteger(lno, text.clone())),
        Some(v) => if v > max as u64 {
            Err(RimError::IntegerTooLarge(lno, v, max))
        } else {
            Ok(v as u8)
        },
    }
}

/// Resolves the mnemonic (its text and lower-case form) to an opcode and
/// indirect flag.
fn resolve(lno: usize, text: &String, folded: &String) -> (r: Result<(Opcode, bool), RimError>)
    ensures
        result_view(r) == resolve_spec(lno, text@, folded@),
{
    let m = chars_of(folded.as_str());
    let n = m.len();
    assert(m@.subrange(0, n as int) =~= folded@);
    if n > 0 && m[n - 1] == 'p' {
        assert(m@.subrange(0, n - 1) =~= folded@.drop_last());
        if same_word(&m, n - 1, "adi") {
            Err(RimError::InvalidInstruction(lno, folded.clone()))
        } else {
            match lookup_opcode(&m, n - 1) {
                Some(op) => Ok((op, true)),
                None => Err(RimError::InvalidInstruction(lno, text.clone())),
            }
        }
    } else {
        match lookup_opcode(&m, n) {
            Some(op) => Ok((op, false)),
            None => Err(RimError::InvalidInstruction(lno, text.clone())),
        }
    }
}

/// Decodes one non-blank line, given as its tokens with their lower-case
/// forms: `hlt` first, then the mnemonic and its suffix, then the operand
/// count, then each operand in order; the first failure is returned.
pub fn decode_tokens(lno: usize, toks: &Vec<Token>) -> (r: Result<Instruction, RimError>)
    ensures
        result_view(r) == decode_spec(lno, token_views(toks@)),
        r matches Ok(i) ==> i.wf(),
{
    let ghost tv = token_views(toks@);
    if toks.len() == 0 {
        return Err(RimError::InvalidInstruction(lno, String::new()));
    }
    assert(tv[0] == toks@[0]@);
    let head = chars_of(toks[0].folded.as_str());
    let hn = head.len();
    assert(head@.subrange(0, hn as int) =~= toks@[0].folded@);
    if same_word(&head, hn, "hlt") {
        let function = U3::new(0).unwrap();
        proof {
            U3::lemma_from_value(0);
        }
        return Ok(
            Instruction {
                opcode: Opcode::Ioi,
                data: InstructionData::Io { device: Device::Cpu, function },
            },
        );
    }
    let (op, ind) = match resolve(lno, &toks[0].text, &toks[0].folded) {
        Ok(x) => x,
        Err(e) => return Err(e),
    };
    let need: usize = match op.category() {
        Category::Immediate | Category::MemoryAddress => 2,
        Category::RegisterPair | Category::IoOperation => 3,
    };
    if toks.len() < need {
        return Err(RimError::LineTooShort(lno));
    } else if toks.len() > need {
        return Err(RimError::LineTooLong(lno));
    }
    assert(tv[1] == toks@[1]@);
    match op.category() {
        Category::Immediate => {
            let v = match parse_field(lno, &toks[1].text, IMMEDIATE_MAX) {
                Ok(v) => v,
                Err(e) => return Err(e),
            };
            Ok(Instruction { opcode: op, data: InstructionData::Imm(v) })
        },
        Category::RegisterPair => {
            assert(tv[2] == toks@[2]@);
            let src = match lookup_register(toks[1].folded.as_str()) {
                Some(r) => r,
                None => return Err(RimError::InvalidRegister(lno, toks[1].folded.clone())),
            };
            let dest = match lookup_register(toks[2].folded.as_str()) {
                Some(r) => r,
                None => return Err(RimError::InvalidRegister(lno, toks[2].folded.clone())),
            };
            Ok(Instruction { opcode: op, data: InstructionData::Reg { is_id: ind, src, dest } })
        },
        Category::MemoryAddress => {
            let v = match parse_field(lno, &toks[1].text, ADDRESS_MAX) {
                Ok(v) => v,
                Err(e) => return Err(e),
            };
            let addr = U4::new(v).unwrap();
            Ok(Instruction { opcode: op, data: InstructionData::Mem { is_ptr: ind, addr } })
        },
        Category::IoOperation => {
            assert(tv[2] == toks@[2]@);
            let device = match lookup_device(toks[1].folded.as_str()) {
                Some(d) => d,
                None => return Err(RimError::InvalidDevice(lno, toks[1].folded.clone())),
            };
            let v = match parse_field(lno, &toks[2].text, FUNCTION_MAX) {
                Ok(v) => v,
                Err(e) => return Err(e),
            };
            let function = U3::new(v).unwrap();
            Ok(Instruction { opcode: op, data: InstructionData::Io { device, function } })
        },
    }
}

} // verus!
