//! Instruction set: opcodes, operand symbols, bounded fields and the byte layout.
use vstd::prelude::*;

verus! {

/// The eight operations of the CPU, each with a fixed 3-bit code.
///
/// These codes stand in for those of the `pact` instruction-set definitions,
/// which are not available here; they must match the decoder that reads the
/// image.
#[derive(Clone, Copy, Debug, PartialEq, Eq, Structural)]
pub enum Opcode {
    Adi,
    Add,
    Sub,
    Jne,
    Jg,
    Jl,
    Ioi,
    Ior,
}

/// The operand shape that an opcode takes.
#[derive(Clone, Copy, Debug, PartialEq, Eq, Structural)]
pub enum Category {
    Immediate,
    RegisterPair,
    MemoryAddress,
    IoOperation,
}

impl Opcode {
    /// The 3-bit code of the opcode.
    pub open spec fn bits(self) -> u8 {
        match self {
            Opcode::Adi => 0,
            Opcode::Add => 1,
            Opcode::Sub => 2,
            Opcode::Jne => 3,
            Opcode::Jg => 4,
            Opcode::Jl => 5,
            Opcode::Ioi => 6,
            Opcode::Ior => 7,
        }
    }

    pub open spec fn spec_category(self) -> Category {
        match self {
            Opcode::Adi => Category::Immediate,
            Opcode::Add | Opcode::Sub => Category::RegisterPair,
            Opcode::Jne | Opcode::Jg | Opcode::Jl => Category::MemoryAddress,
            Opcode::Ioi | Opcode::Ior => Category::IoOperation,
        }
    }

    pub fn code(&self) -> (r: u8)
        ensures
            r == self.bits(),
    {
        match self {
            Opcode::Adi => 0,
            Opcode::Add => 1,
            Opcode::Sub => 2,
            Opcode::Jne => 3,
            Opcode::Jg => 4,
            Opcode::Jl => 5,
            Opcode::Ioi => 6,
            Opcode::Ior => 7,
        }
    }

    pub fn category(&self) -> (r: Category)
        ensures
            r == self.spec_category(),
    {
        match self {
            Opcode::Adi => Category::Immediate,
            Opcode::Add | Opcode::Sub => Category::RegisterPair,
            Opcode::Jne | Opcode::Jg | Opcode::Jl => Category::MemoryAddress,
            Opcode::Ioi | Opcode::Ior => Category::IoOperation,
        }
    }
}

/// The four general-purpose registers, each with a fixed 2-bit code.
///
/// These codes stand in for those of the `pact` instruction-set definitions,
/// which are not available here; they must match the decoder that reads the
/// image.
#[derive(Clone, Copy, Debug, PartialEq, Eq, Structural)]
pub enum Register {
    Ra,
    Rb,
    Rc,
    Rd,
}

impl Register {
    pub open spec fn bits(self) -> u8 {
        match self {
            Register::Ra => 0,
            Register::Rb => 1,
            Register::Rc => 2,
            Register::Rd => 3,
        }
    }

    pub fn code(&self) -> (r: u8)
        ensures
            r == self.bits(),
    {
        match self {
            Register::Ra => 0,
            Register::Rb => 1,
            Register::Rc => 2,
            Register::Rd => 3,
        }
    }
}

/// The four I/O devices, each with a fixed 2-bit code.
///
/// These codes stand in for those of the `pact` instruction-set definitions,
/// which are not available here; they must match the decoder that reads the
/// image.
#[derive(Clone, Copy, Debug, PartialEq, Eq, Structural)]
pub enum Device {
    Cpu,
    Kbd,
    Scr,
    Mth,
}

impl Device {
    pub open spec fn bits(self) -> u8 {
        match self {
            Device::Cpu => 0,
            Device::Kbd => 1,
            Device::Scr => 2,
            Device::Mth => 3,
        }
    }

    pub fn code(&self) -> (r: u8)
        ensures
            r == self.bits(),
    {
        match self {
            Device::Cpu => 0,
            Device::Kbd => 1,
            Device::Scr => 2,
            Device::Mth => 3,
        }
    }
}

/// Largest value an immediate operand may hold.
pub const IMMEDIATE_MAX: u8 = 31;

/// Largest value a memory address operand may hold.
pub const ADDRESS_MAX: u8 = 16;

/// Largest value an I/O function number may hold.
pub const FUNCTION_MAX: u8 = 7;

/// A 3-bit unsigned field, 0 to 7.
#[derive(Clone, Copy, Debug, PartialEq, Eq, Structural)]
pub struct U3 {
    value: u8,
}

impl U3 {
    pub closed spec fn spec_value(self) -> u8 {
        self.value
    }

    /// The field holding `v`.
    pub closed spec fn from_value(v: u8) -> U3 {
        U3 { value: v }
    }

    pub proof fn lemma_from_value(v: u8)
        ensures
            U3::from_value(v).spec_value() == v,
    {
    }

    pub open spec fn wf(self) -> bool {
        self.spec_value() <= FUNCTION_MAX
    }

    /// The field holding `v`, or `None` when `v` does not fit.
    pub fn new(v: u8) -> (r: Option<U3>)
        ensures
            r is Some <==> v <= FUNCTION_MAX,
            r is Some ==> r == Some(U3::from_value(v)),
            r matches Some(x) ==> x.spec_value() == v && x.wf(),
    {
        if v <= FUNCTION_MAX {
            Some(U3 { value: v })
        } else {
            None
        }
    }

    pub fn value(&self) -> (r: u8)
        ensures
            r == self.spec_value(),
    {
        self.value
    }
}

/// A memory address field. The encoding gives it 4 bits, yet addresses
/// up to and including 16 are accepted; see `Instruction::spec_encode`.
#[derive(Clone, Copy, Debug, PartialEq, Eq, Structural)]
pub struct U4 {
    value: u8,
}

impl U4 {
    pub closed spec fn spec_value(self) -> u8 {
        self.value
    }

    /// The field holding `v`.
    pub closed spec fn from_value(v: u8) -> U4 {
        U4 { value: v }
    }

    pub open spec fn wf(self) -> bool {
        self.spec_value() <= ADDRESS_MAX
    }

    /// The field holding `v`, or `None` when `v` is out of range.
    pub fn new(v: u8) -> (r: Option<U4>)
        ensures
            r is Some <==> v <= ADDRESS_MAX,
            r is Some ==> r == Some(U4::from_value(v)),
            r matches Some(x) ==> x.spec_value() == v && x.wf(),
    {
        if v <= ADDRESS_MAX {
            Some(U4 { value: v })
        } else {
            None
        }
    }

    pub fn value(&self) -> (r: u8)
        ensures
            r == self.spec_value(),
    {
        self.value
    }
}

/// The operands of an instruction, one shape per category.
#[derive(Clone, Copy, Debug, PartialEq, Eq, Structural)]
pub enum InstructionData {
    Imm(u8),
    Reg { is_id: bool, src: Register, dest: Register },
    Mem { is_ptr: bool, addr: U4 },
    Io { device: Device, function: U3 },
}

impl InstructionData {
    pub open spec fn spec_category(self) -> Category {
        match self {
            InstructionData::Imm(_) => Category::Immediate,
            InstructionData::Reg { .. } => Category::RegisterPair,
            InstructionData::Mem { .. } => Category::MemoryAddress,
            InstructionData::Io { .. } => Category::IoOperation,
        }
    }

    /// Every field is within its range.
    pub open spec fn wf(self) -> bool {
        match self {
            InstructionData::Imm(v) => v <= IMMEDIATE_MAX,
            InstructionData::Reg { .. } => true,
            InstructionData::Mem { addr, .. } => addr.wf(),
            InstructionData::Io { function, .. } => function.wf(),
        }
    }

    /// The low five bits of the encoded byte.
    pub open spec fn payload(self) -> int {
        match self {
            InstructionData::Imm(v) => v as int,
            InstructionData::Reg { is_id, src, dest } => (if is_id {
                16int
            } else {
                0int
            }) + 4 * src.bits() + dest.bits(),
            InstructionData::Mem { is_ptr, addr } => (if is_ptr {
                16int
            } else {
                0int
            }) + addr.spec_value() % 16,
            InstructionData::Io { device, function } => 8 * device.bits() + function.spec_value(),
        }
    }
}

/// An opcode together with operands of the shape its category takes.
#[derive(Clone, Copy, Debug, PartialEq, Eq, Structural)]
pub struct Instruction {
    pub opcode: Opcode,
    pub data: InstructionData,
}

impl Instruction {
    /// The operands have the opcode's shape and are within range.
    pub open spec fn wf(self) -> bool {
        &&& self.data.spec_category() == self.opcode.spec_category()
        &&& self.data.wf()
    }

    /// The byte: opcode in bits 7 to 5, the payload in bits 4 to 0. An
    /// address keeps only its low four bits, so address 16 packs as 0.
    /// How address 16 packs is left open by the layout; this choice must
    /// match the decoder that reads the image.
    pub open spec fn spec_encode(self) -> u8 {
        (32 * self.opcode.bits() + self.data.payload()) as u8
    }

    /// Packs the instruction into one byte.
    pub fn encode(&self) -> (r: u8)
        requires
            self.wf(),
        ensures
            r == self.spec_encode(),
            r >> 5u8 == self.opcode.bits(),
            r & 31u8 == self.data.payload(),
    {
        let op = self.opcode.code();
        let payload: u8 = match self.data {
            InstructionData::Imm(v) => v,
            InstructionData::Reg { is_id, src, dest } => {
                let flag: u8 = if is_id { 1 } else { 0 };
                let s = src.code();
                let d = dest.code();
                assert((flag << 4u8) | (s << 2u8) | d == 16 * flag + 4 * s + d) by (bit_vector)
                    requires flag <= 1, s <= 3, d <= 3;
                (flag << 4u8) | (s << 2u8) | d
            },
            InstructionData::Mem { is_ptr, addr } => {
                let flag: u8 = if is_ptr { 1 } else { 0 };
                let a = addr.value();
                assert((flag << 4u8) | (a & 15u8) == 16 * flag + a % 16) by (bit_vector)
                    requires flag <= 1;
                (flag << 4u8) | (a & 15u8)
            },
            InstructionData::Io { device, function } => {
                let d = device.code();
                let f = function.value();
                assert((d << 3u8) | f == 8 * d + f) by (bit_vector)
                    requires d <= 3, f <= 7;
                (d << 3u8) | f
            },
        };
        assert(payload < 32);
        assert((op << 5u8) | payload == 32 * op + payload
            && ((op << 5u8) | payload) >> 5u8 == op
            && ((op << 5u8) | payload) & 31u8 == payload) by (bit_vector)
            requires op <= 7, payload < 32;
        (op << 5u8) | payload
    }
}

/// The opcode of a well-formed instruction is read back from the top three
/// bits of its byte, and no two opcodes share a code, so the top bits name
/// the opcode uniquely.
pub proof fn lemma_opcode_in_top_bits(a: Instruction, b: Instruction)
    requires
        a.wf(),
        b.wf(),
    ensures
        a.spec_encode() >> 5u8 == a.opcode.bits(),
        a.spec_encode() >> 5u8 == b.spec_encode() >> 5u8 <==> a.opcode == b.opcode,
{
    lemma_encode_splits(a);
    lemma_encode_splits(b);
}

proof fn lemma_encode_splits(i: Instruction)
    requires
        i.wf(),
    ensures
        i.spec_encode() >> 5u8 == i.opcode.bits(),
        0 <= i.data.payload() < 32,
{
    let op = i.opcode.bits();
    let p = i.data.payload();
    assert(0 <= p < 32) by {
        match i.data {
            InstructionData::Mem { addr, .. } => {},
            _ => {},
        }
    }
    let p8 = p as u8;
    assert(((32 * op + p8) as u8) >> 5u8 == op) by (bit_vector)
        requires op <= 7, p8 < 32;
}

} // verus!
