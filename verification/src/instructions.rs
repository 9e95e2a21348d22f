//! The instruction set: the ordered opcode table, the decode scan, the
//! semantic handler of every instruction, and the fetch-decode-execute
//! cycle that drives them.

use vstd::prelude::*;

use crate::error::InterpreterError;
use crate::frame_buffer::{spec_cleared, FrameBuffer, BUFFER_SIZE};
use crate::memory::{spec_write_byte, Memory, FONT_OFFSET, MEMORY_SIZE};
use crate::random::random_byte;
use crate::registers::{spec_first_keydown, Registers, RegistersView, MAX_STACK};

verus! {

// ---------------------------------------------------------------------
// Opcode fields
// ---------------------------------------------------------------------
/// The second nibble of an opcode, the register operand `x`.
pub open spec fn spec_op_x(op: u16) -> u16 {
    (op & 0x0F00) >> 8
}

/// The third nibble of an opcode, the register operand `y`.
pub open spec fn spec_op_y(op: u16) -> u16 {
    (op & 0x00F0) >> 4
}

/// The low nibble of an opcode, the 4-bit immediate `n`.
pub open spec fn spec_op_n(op: u16) -> u16 {
    op & 0x000F
}

/// The low byte of an opcode, the 8-bit immediate `nn`.
pub open spec fn spec_op_nn(op: u16) -> u8 {
    (op & 0x00FF) as u8
}

/// The low three nibbles of an opcode, the 12-bit address `nnn`.
pub open spec fn spec_op_nnn(op: u16) -> u16 {
    op & 0x0FFF
}

/// Bounds of every opcode field, and exactness of the one cast the field
/// extractors make.
proof fn lemma_opcode_fields()
    by (bit_vector)
    ensures
        forall|op: u16| #[trigger] ((op & 0x0F00) >> 8) < 16,
        forall|op: u16| #[trigger] ((op & 0x00F0) >> 4) < 16,
        forall|op: u16| #[trigger] (op & 0x000F) < 16,
        forall|op: u16| #[trigger] (op & 0x00FF) < 256,
        forall|op: u16| #[trigger] (op & 0x0FFF) < 4096,
{
}

/// Extracts the register operand `x`.
fn op_x(op: u16) -> (r: u16)
    ensures
        r == spec_op_x(op),
        r < 16,
{
    proof {
        lemma_opcode_fields();
    }
    (op & 0x0F00) >> 8
}

/// Extracts the register operand `y`.
fn op_y(op: u16) -> (r: u16)
    ensures
        r == spec_op_y(op),
        r < 16,
{
    proof {
        lemma_opcode_fields();
    }
    (op & 0x00F0) >> 4
}

/// Extracts the 4-bit immediate `n`.
fn op_n(op: u16) -> (r: u16)
    ensures
        r == spec_op_n(op),
        r < 16,
{
    proof {
        lemma_opcode_fields();
    }
    op & 0x000F
}

/// Extracts the 8-bit immediate `nn`.
fn op_nn(op: u16) -> (r: u8)
    ensures
        r == spec_op_nn(op),
{
    proof {
        lemma_opcode_fields();
    }
    (op & 0x00FF) as u8
}

/// Extracts the 12-bit address `nnn`.
fn op_nnn(op: u16) -> (r: u16)
    ensures
        r == spec_op_nnn(op),
        r < 4096,
{
    proof {
        lemma_opcode_fields();
    }
    op & 0x0FFF
}

// ---------------------------------------------------------------------
// The instruction table
// ---------------------------------------------------------------------
/// The semantic identity of each table entry; the dispatcher matches on
/// it to pick the handler.
#[derive(Clone, Copy, Debug, PartialEq, Eq, Structural)]
pub enum InstructionKind {
    SysAddr,
    Cls,
    Ret,
    JpAddr,
    CallAddr,
    SeVxByte,
    SneVxByte,
    SeVxVy,
    LdVxByte,
    AddVxByte,
    LdVxVy,
    OrVxVy,
    AndVxVy,
    XorVxVy,
    AddVxVy,
    SubVxVy,
    ShrVx,
    SubnVxVy,
    ShlVx,
    SneVxVy,
    LdIAddr,
    JpV0Addr,
    RndVxByte,
    DrwVxVyNibble,
    SkpVx,
    SknpVx,
    LdVxDt,
    LdVxK,
    LdDtVx,
    LdStVx,
    AddIVx,
    LdFVx,
    LdBVx,
    LdArrIVx,
    LdArrVxI,
}

/// One table entry: an opcode matches it when `opcode & mask == id`.
pub struct Instruction {
    pub name: &'static str,
    pub id: u16,
    pub mask: u16,
    pub kind: InstructionKind,
}

/// The mathematical value of a table entry.
#[verifier::ext_equal]
pub ghost struct InstrSpec {
    pub name: Seq<char>,
    pub id: u16,
    pub mask: u16,
    pub kind: InstructionKind,
}

impl View for Instruction {
    type V = InstrSpec;

    open spec fn view(&self) -> InstrSpec {
        InstrSpec { name: self.name@, id: self.id, mask: self.mask, kind: self.kind }
    }
}

/// Whether `op` matches table entry `e`.
pub open spec fn spec_op_matches(op: u16, e: InstrSpec) -> bool {
    (op & e.mask) == e.id
}

/// The full table, in priority order: exact-match forms precede the
/// broader masks that would otherwise shadow them.
pub open spec fn spec_table() -> Seq<InstrSpec> {
    seq![
        (InstrSpec { name: "SYS addr"@, id: 0x0000, mask: 0xFFFF, kind: InstructionKind::SysAddr }),
        (InstrSpec { name: "CLS"@, id: 0x00E0, mask: 0xFFFF, kind: InstructionKind::Cls }),
        (InstrSpec { name: "RET"@, id: 0x00EE, mask: 0xFFFF, kind: InstructionKind::Ret }),
        (InstrSpec { name: "JP addr"@, id: 0x1000, mask: 0xF000, kind: InstructionKind::JpAddr }),
        (
            InstrSpec {
                name: "CALL addr"@,
                id: 0x2000,
                mask: 0xF000,
                kind: InstructionKind::CallAddr,
            }
        ),
        (
            InstrSpec {
                name: "SE Vx, byte"@,
                id: 0x3000,
                mask: 0xF000,
                kind: InstructionKind::SeVxByte,
            }
        ),
        (
            InstrSpec {
                name: "SNE Vx, byte"@,
                id: 0x4000,
                mask: 0xF000,
                kind: InstructionKind::SneVxByte,
            }
        ),
        (InstrSpec { name: "SE Vx, Vy"@, id: 0x5000, mask: 0xF00F, kind: InstructionKind::SeVxVy }),
        (
            InstrSpec {
                name: "LD Vx, byte"@,
                id: 0x6000,
                mask: 0xF000,
                kind: InstructionKind::LdVxByte,
            }
        ),
        (
            InstrSpec {
                name: "ADD Vx, byte"@,
                id: 0x7000,
                mask: 0xF000,
                kind: InstructionKind::AddVxByte,
            }
        ),
        (InstrSpec { name: "LD Vx, Vy"@, id: 0x8000, mask: 0xF00F, kind: InstructionKind::LdVxVy }),
        (InstrSpec { name: "OR Vx, Vy"@, id: 0x8001, mask: 0xF00F, kind: InstructionKind::OrVxVy }),
        (
            InstrSpec {
                name: "AND Vx, Vy"@,
                id: 0x8002,
                mask: 0xF00F,
                kind: InstructionKind::AndVxVy,
            }
        ),
        (
            InstrSpec {
                name: "XOR Vx, Vy"@,
                id: 0x8003,
                mask: 0xF00F,
                kind: InstructionKind::XorVxVy,
            }
        ),
        (
            InstrSpec {
                name: "ADD Vx, Vy"@,
                id: 0x8004,
                mask: 0xF00F,
                kind: InstructionKind::AddVxVy,
            }
        ),
        (
            InstrSpec {
                name: "SUB Vx, Vy"@,
                id: 0x8005,
                mask: 0xF00F,
                kind: InstructionKind::SubVxVy,
            }
        ),
        (InstrSpec { name: "SHR Vx"@, id: 0x8006, mask: 0xF00F, kind: InstructionKind::ShrVx }),
        (
            InstrSpec {
                name: "SUBN Vx, Vy"@,
                id: 0x8007,
                mask: 0xF00F,
                kind: InstructionKind::SubnVxVy,
            }
        ),
        (InstrSpec { name: "SHL Vx"@, id: 0x800E, mask: 0xF00F, kind: InstructionKind::ShlVx }),
        (
            InstrSpec {
                name: "SNE Vx, Vy"@,
                id: 0x9000,
                mask: 0xF00F,
                kind: InstructionKind::SneVxVy,
            }
        ),
        (
            InstrSpec {
                name: "LD I, addr"@,
                id: 0xA000,
                mask: 0xF000,
                kind: InstructionKind::LdIAddr,
            }
        ),
        (
            InstrSpec {
                name: "JP V0, addr"@,
                id: 0xB000,
                mask: 0xF000,
                kind: InstructionKind::JpV0Addr,
            }
        ),
        (
            InstrSpec {
                name: "RND Vx, byte"@,
                id: 0xC000,
                mask: 0xF000,
                kind: InstructionKind::RndVxByte,
            }
        ),
        (
            InstrSpec {
                name: "DRW Vx, Vy, nibble"@,
                id: 0xD000,
                mask: 0xF000,
                kind: InstructionKind::DrwVxVyNibble,
            }
        ),
        (InstrSpec { name: "SKP Vx"@, id: 0xE09E, mask: 0xF0FF, kind: InstructionKind::SkpVx }),
        (InstrSpec { name: "SKNP Vx"@, id: 0xE0A1, mask: 0xF0FF, kind: InstructionKind::SknpVx }),
        (
            InstrSpec {
                name: "LD Vx, DT"@,
                id: 0xF007,
                mask: 0xF0FF,
                kind: InstructionKind::LdVxDt,
            }
        ),
        (InstrSpec { name: "LD Vx, K"@, id: 0xF00A, mask: 0xF0FF, kind: InstructionKind::LdVxK }),
        (
            InstrSpec {
                name: "LD DT, Vx"@,
                id: 0xF015,
                mask: 0xF0FF,
                kind: InstructionKind::LdDtVx,
            }
        ),
        (
            InstrSpec {
                name: "LD ST, Vx"@,
                id: 0xF018,
                mask: 0xF0FF,
                kind: InstructionKind::LdStVx,
            }
        ),
        (
            InstrSpec {
                name: "ADD I, Vx"@,
                id: 0xF01E,
                mask: 0xF0FF,
                kind: InstructionKind::AddIVx,
            }
        ),
        (InstrSpec { name: "LD F, Vx"@, id: 0xF029, mask: 0xF0FF, kind: InstructionKind::LdFVx }),
        (InstrSpec { name: "LD B, Vx"@, id: 0xF033, mask: 0xF0FF, kind: InstructionKind::LdBVx }),
        (
            InstrSpec {
                name: "LD [I], Vx"@,
                id: 0xF055,
                mask: 0xF0FF,
                kind: InstructionKind::LdArrIVx,
            }
        ),
        (
            InstrSpec {
                name: "LD Vx, [I]"@,
                id: 0xF065,
                mask: 0xF0FF,
                kind: InstructionKind::LdArrVxI,
            }
        ),
    ]
}

/// The first entry of `entries`, in order, that `op` matches.
pub open spec fn spec_decode(entries: Seq<InstrSpec>, op: u16) -> Option<InstrSpec>
    decreases entries.len(),
{
    if entries.len() == 0 {
        None
    } else if spec_op_matches(op, entries[0]) {
        Some(entries[0])
    } else {
        spec_decode(entries.drop_first(), op)
    }
}

/// If no entry below position `k` matches, decoding the whole table gives
/// the same result as decoding from position `k` on.
proof fn lemma_decode_skip(entries: Seq<InstrSpec>, op: u16, k: int)
    requires
        0 <= k <= entries.len(),
        forall|j: int| 0 <= j < k ==> !spec_op_matches(op, #[trigger] entries[j]),
    ensures
        spec_decode(entries, op) == spec_decode(entries.skip(k), op),
    decreases k,
{
    if k > 0 {
        lemma_decode_skip(entries, op, k - 1);
        assert(entries.skip(k - 1).drop_first() =~= entries.skip(k));
        assert(entries.skip(k - 1)[0] == entries[k - 1]);
    } else {
        assert(entries.skip(0) =~= entries);
    }
}

/// The ordered opcode table.  Decode scans it front to back and takes
/// the first match, so order is part of its meaning.
pub struct InstructionSet(Vec<Instruction>);

impl View for InstructionSet {
    type V = Seq<InstrSpec>;

    closed spec fn view(&self) -> Seq<InstrSpec> {
        Seq::new(self.0@.len(), |j: int| self.0@[j]@)
    }
}

impl InstructionSet {
    /// The table holds exactly the entries of [`spec_table`], in order.
    pub open spec fn wf(&self) -> bool {
        self@ == spec_table()
    }

    /// Finds the first table entry that `opcode` matches, scanning in
    /// priority order.  The result depends on the opcode alone, so two
    /// calls with the same opcode always return the same entry.
    pub fn disassemble(&self, opcode: u16) -> (r: Option<&Instruction>)
        requires
            self.wf(),
        ensures
            match r {
                Some(instr) => spec_decode(spec_table(), opcode) == Some(instr@),
                None => spec_decode(spec_table(), opcode) is None,
            },
    {
        let n = self.0.len();
        let mut idx: usize = 0;
        while idx < n
            invariant
                self.wf(),
                n == self.0@.len(),
                idx <= n,
                forall|j: int| 0 <= j < idx ==> !spec_op_matches(opcode, #[trigger] self@[j]),
            decreases n - idx,
        {
            let instr = &self.0[idx];
            if (opcode & instr.mask) == instr.id {
                proof {
                    lemma_decode_skip(spec_table(), opcode, idx as int);
                    assert(spec_table().skip(idx as int)[0] == self@[idx as int]);
                }
                return Some(instr);
            }
            idx += 1;
        }
        proof {
            lemma_decode_skip(spec_table(), opcode, n as int);
            assert(spec_table().skip(n as int).len() == 0);
        }
        None
    }
}

/// The instruction table as a plain vector, in priority order.
pub fn get_instructions() -> (v: Vec<Instruction>)
    ensures
        Seq::new(v@.len(), |j: int| v@[j]@) == spec_table(),
{
    let mut v: Vec<Instruction> = Vec::new();
    v.push(Instruction { name: "SYS addr", id: 0x0000, mask: 0xFFFF, kind: InstructionKind::SysAddr });
    v.push(Instruction { name: "CLS", id: 0x00E0, mask: 0xFFFF, kind: InstructionKind::Cls });
    v.push(Instruction { name: "RET", id: 0x00EE, mask: 0xFFFF, kind: InstructionKind::Ret });
    v.push(Instruction { name: "JP addr", id: 0x1000, mask: 0xF000, kind: InstructionKind::JpAddr });
    v.push(Instruction { name: "CALL addr", id: 0x2000, mask: 0xF000, kind: InstructionKind::CallAddr });
    v.push(Instruction { name: "SE Vx, byte", id: 0x3000, mask: 0xF000, kind: InstructionKind::SeVxByte });
    v.push(Instruction { name: "SNE Vx, byte", id: 0x4000, mask: 0xF000, kind: InstructionKind::SneVxByte });
    v.push(Instruction { name: "SE Vx, Vy", id: 0x5000, mask: 0xF00F, kind: InstructionKind::SeVxVy });
    v.push(Instruction { name: "LD Vx, byte", id: 0x6000, mask: 0xF000, kind: InstructionKind::LdVxByte });
    v.push(Instruction { name: "ADD Vx, byte", id: 0x7000, mask: 0xF000, kind: InstructionKind::AddVxByte });
    v.push(Instruction { name: "LD Vx, Vy", id: 0x8000, mask: 0xF00F, kind: InstructionKind::LdVxVy });
    v.push(Instruction { name: "OR Vx, Vy", id: 0x8001, mask: 0xF00F, kind: InstructionKind::OrVxVy });
    v.push(Instruction { name: "AND Vx, Vy", id: 0x8002, mask: 0xF00F, kind: InstructionKind::AndVxVy });
    v.push(Instruction { name: "XOR Vx, Vy", id: 0x8003, mask: 0xF00F, kind: InstructionKind::XorVxVy });
    v.push(Instruction { name: "ADD Vx, Vy", id: 0x8004, mask: 0xF00F, kind: InstructionKind::AddVxVy });
    v.push(Instruction { name: "SUB Vx, Vy", id: 0x8005, mask: 0xF00F, kind: InstructionKind::SubVxVy });
    v.push(Instruction { name: "SHR Vx", id: 0x8006, mask: 0xF00F, kind: InstructionKind::ShrVx });
    v.push(Instruction { name: "SUBN Vx, Vy", id: 0x8007, mask: 0xF00F, kind: InstructionKind::SubnVxVy });
    v.push(Instruction { name: "SHL Vx", id: 0x800E, mask: 0xF00F, kind: InstructionKind::ShlVx });
    v.push(Instruction { name: "SNE Vx, Vy", id: 0x9000, mask: 0xF00F, kind: InstructionKind::SneVxVy });
    v.push(Instruction { name: "LD I, addr", id: 0xA000, mask: 0xF000, kind: InstructionKind::LdIAddr });
    v.push(Instruction { name: "JP V0, addr", id: 0xB000, mask: 0xF000, kind: InstructionKind::JpV0Addr });
    v.push(Instruction { name: "RND Vx, byte", id: 0xC000, mask: 0xF000, kind: InstructionKind::RndVxByte });
    v.push(Instruction { name: "DRW Vx, Vy, nibble", id: 0xD000, mask: 0xF000, kind: InstructionKind::DrwVxVyNibble });
    v.push(Instruction { name: "SKP Vx", id: 0xE09E, mask: 0xF0FF, kind: InstructionKind::SkpVx });
    v.push(Instruction { name: "SKNP Vx", id: 0xE0A1, mask: 0xF0FF, kind: InstructionKind::SknpVx });
    v.push(Instruction { name: "LD Vx, DT", id: 0xF007, mask: 0xF0FF, kind: InstructionKind::LdVxDt });
    v.push(Instruction { name: "LD Vx, K", id: 0xF00A, mask: 0xF0FF, kind: InstructionKind::LdVxK });
    v.push(Instruction { name: "LD DT, Vx", id: 0xF015, mask: 0xF0FF, kind: InstructionKind::LdDtVx });
    v.push(Instruction { name: "LD ST, Vx", id: 0xF018, mask: 0xF0FF, kind: InstructionKind::LdStVx });
    v.push(Instruction { name: "ADD I, Vx", id: 0xF01E, mask: 0xF0FF, kind: InstructionKind::AddIVx });
    v.push(Instruction { name: "LD F, Vx", id: 0xF029, mask: 0xF0FF, kind: InstructionKind::LdFVx });
    v.push(Instruction { name: "LD B, Vx", id: 0xF033, mask: 0xF0FF, kind: InstructionKind::LdBVx });
    v.push(Instruction { name: "LD [I], Vx", id: 0xF055, mask: 0xF0FF, kind: InstructionKind::LdArrIVx });
    v.push(Instruction { name: "LD Vx, [I]", id: 0xF065, mask: 0xF0FF, kind: InstructionKind::LdArrVxI });
    proof {
        assert(Seq::new(v@.len(), |j: int| v@[j]@) =~= spec_table());
    }
    v
}

impl Default for InstructionSet {
    /// The table in its priority order.
    fn default() -> (s: InstructionSet)
        ensures
            s.wf(),
    {
        let s = InstructionSet(get_instructions());
        proof {
            assert(s@ =~= spec_table());
        }
        s
    }
}

// ---------------------------------------------------------------------
// Handler semantics
// ---------------------------------------------------------------------
/// The register file with the program counter advanced by `by`.
pub open spec fn spec_advanced(r: RegistersView, by: u16) -> RegistersView {
    RegistersView { pc: (r.pc + by) as u16, ..r }
}

/// `0nnn` - ignored machine-code call: only advances past the opcode.
pub open spec fn spec_sys_addr(r: RegistersView) -> RegistersView {
    spec_advanced(r, 2)
}

/// Advances past the current opcode and nothing else.
pub fn sys_addr(regs: &mut Registers) -> (r: Result<(), InterpreterError>)
    requires
        old(regs).wf(),
        old(regs).pc + 2 <= u16::MAX,
    ensures
        final(regs).wf(),
        r == Ok::<(), InterpreterError>(()),
        final(regs)@ == spec_sys_addr(old(regs)@),
{
    regs.pc = regs.pc + 2;
    Ok(())
}

/// `00E0` - clear screen: every pixel off, program counter advanced.
pub fn cls(regs: &mut Registers, fb: &mut FrameBuffer) -> (r: Result<(), InterpreterError>)
    requires
        old(regs).wf(),
        old(fb).wf(),
        old(regs).pc + 2 <= u16::MAX,
    ensures
        final(regs).wf(),
        final(fb).wf(),
        r == Ok::<(), InterpreterError>(()),
        final(regs)@ == spec_advanced(old(regs)@, 2),
        final(fb)@ == spec_cleared(),
{
    fb.clear();
    regs.pc = regs.pc + 2;
    Ok(())
}

/// `00EE` - return: the popped address plus two becomes the program
/// counter; an empty stack is the underflow error, leaving state as it was.
pub open spec fn spec_ret(r: RegistersView) -> (RegistersView, Result<(), InterpreterError>) {
    if r.stack.len() > 0 {
        (
            RegistersView {
                pc: (r.stack.last() + 2) as u16,
                stack: r.stack.drop_last(),
                ..r
            },
            Ok(()),
        )
    } else {
        (r, Err(InterpreterError::StackUnderflow))
    }
}

/// Returns from a subroutine, resuming after the call site.
pub fn ret(regs: &mut Registers) -> (r: Result<(), InterpreterError>)
    requires
        old(regs).wf(),
        old(regs)@.stack.len() > 0 ==> old(regs)@.stack.last() + 2 <= u16::MAX,
    ensures
        final(regs).wf(),
        (final(regs)@, r) == spec_ret(old(regs)@),
{
    let addr = regs.pop()?;
    regs.pc = addr + 2;
    Ok(())
}

/// `1nnn` - jump: the address operand becomes the program counter.
pub open spec fn spec_jp_addr(op: u16, r: RegistersView) -> RegistersView {
    RegistersView { pc: spec_op_nnn(op), ..r }
}

/// Jumps to the opcode's address operand.
pub fn jp_addr(opcode: u16, regs: &mut Registers) -> (r: Result<(), InterpreterError>)
    requires
        old(regs).wf(),
    ensures
        final(regs).wf(),
        r == Ok::<(), InterpreterError>(()),
        final(regs)@ == spec_jp_addr(opcode, old(regs)@),
{
    let nnn = op_nnn(opcode);
    regs.pc = nnn;
    Ok(())
}

/// `2nnn` - call: pushes the current program counter, then jumps; a full
/// stack is the overflow error, leaving state as it was.
pub open spec fn spec_call_addr(op: u16, r: RegistersView) -> (RegistersView, Result<
    (),
    InterpreterError,
>) {
    if r.stack.len() < MAX_STACK {
        (RegistersView { pc: spec_op_nnn(op), stack: r.stack.push(r.pc), ..r }, Ok(()))
    } else {
        (r, Err(InterpreterError::StackOverflow))
    }
}

/// Calls the subroutine at the opcode's address operand.
pub fn call_addr(opcode: u16, regs: &mut Registers) -> (r: Result<(), InterpreterError>)
    requires
        old(regs).wf(),
    ensures
        final(regs).wf(),
        (final(regs)@, r) == spec_call_addr(opcode, old(regs)@),
{
    let nnn = op_nnn(opcode);
    let pc = regs.pc;
    regs.push(pc)?;
    regs.pc = nnn;
    Ok(())
}

/// `3xnn` - skip next opcode when `Vx` equals the immediate.
pub open spec fn spec_se_vx_byte(op: u16, r: RegistersView) -> RegistersView {
    if r.v[spec_op_x(op) as int] == spec_op_nn(op) {
        spec_advanced(r, 4)
    } else {
        spec_advanced(r, 2)
    }
}

/// Skips the next opcode when `Vx` equals the immediate.
pub fn se_vx_byte(opcode: u16, regs: &mut Registers) -> (r: Result<(), InterpreterError>)
    requires
        old(regs).wf(),
        old(regs).pc + 4 <= u16::MAX,
    ensures
        final(regs).wf(),
        r == Ok::<(), InterpreterError>(()),
        final(regs)@ == spec_se_vx_byte(opcode, old(regs)@),
{
    let x = op_x(opcode) as usize;
    let nn = op_nn(opcode);
    let vx = regs.get_v(x)?;
    if vx == nn {
        regs.pc = regs.pc + 4;
    } else {
        regs.pc = regs.pc + 2;
    }
    Ok(())
}

/// `4xnn` - skip next opcode when `Vx` differs from the immediate.
pub open spec fn spec_sne_vx_byte(op: u16, r: RegistersView) -> RegistersView {
    if r.v[spec_op_x(op) as int] != spec_op_nn(op) {
        spec_advanced(r, 4)
    } else {
        spec_advanced(r, 2)
    }
}

/// Skips the next opcode when `Vx` differs from the immediate.
pub fn sne_vx_byte(opcode: u16, regs: &mut Registers) -> (r: Result<(), InterpreterError>)
    requires
        old(regs).wf(),
        old(regs).pc + 4 <= u16::MAX,
    ensures
        final(regs).wf(),
        r == Ok::<(), InterpreterError>(()),
        final(regs)@ == spec_sne_vx_byte(opcode, old(regs)@),
{
    let x = op_x(opcode) as usize;
    let nn = op_nn(opcode);
    let vx = regs.get_v(x)?;
    if vx != nn {
        regs.pc = regs.pc + 4;
    } else {
        regs.pc = regs.pc + 2;
    }
    Ok(())
}

/// `5xy0` - skip next opcode when `Vx` equals `Vy`.
pub open spec fn spec_se_vx_vy(op: u16, r: RegistersView) -> RegistersView {
    if r.v[spec_op_x(op) as int] == r.v[spec_op_y(op) as int] {
        spec_advanced(r, 4)
    } else {
        spec_advanced(r, 2)
    }
}

/// Skips the next opcode when `Vx` equals `Vy`.
pub fn se_vx_vy(opcode: u16, regs: &mut Registers) -> (r: Result<(), InterpreterError>)
    requires
        old(regs).wf(),
        old(regs).pc + 4 <= u16::MAX,
    ensures
        final(regs).wf(),
        r == Ok::<(), InterpreterError>(()),
        final(regs)@ == spec_se_vx_vy(opcode, old(regs)@),
{
    let vx = regs.get_v(op_x(opcode) as usize)?;
    let vy = regs.get_v(op_y(opcode) as usize)?;
    if vx == vy {
        regs.pc = regs.pc + 4;
    } else {
        regs.pc = regs.pc + 2;
    }
    Ok(())
}

/// `6xnn` - load the immediate into `Vx`.
pub open spec fn spec_ld_vx_byte(op: u16, r: RegistersView) -> RegistersView {
    spec_advanced(
        RegistersView { v: r.v.update(spec_op_x(op) as int, spec_op_nn(op)), ..r },
        2,
    )
}

/// Loads the immediate into `Vx`.
pub fn ld_vx_byte(opcode: u16, regs: &mut Registers) -> (r: Result<(), InterpreterError>)
    requires
        old(regs).wf(),
        old(regs).pc + 2 <= u16::MAX,
    ensures
        final(regs).wf(),
        r == Ok::<(), InterpreterError>(()),
        final(regs)@ == spec_ld_vx_byte(opcode, old(regs)@),
{
    let x = op_x(opcode) as usize;
    let nn = op_nn(opcode);
    regs.set_v(x, nn)?;
    regs.pc = regs.pc + 2;
    Ok(())
}

/// `7xnn` - add the immediate to `Vx`, wrapping, with no carry flag.
pub open spec fn spec_add_vx_byte(op: u16, r: RegistersView) -> RegistersView {
    let sum = (r.v[spec_op_x(op) as int] + spec_op_nn(op)) % 256;
    spec_advanced(RegistersView { v: r.v.update(spec_op_x(op) as int, sum as u8), ..r }, 2)
}

/// Adds the immediate to `Vx`, wrapping modulo 256.
pub fn add_vx_byte(opcode: u16, regs: &mut Registers) -> (r: Result<(), InterpreterError>)
    requires
        old(regs).wf(),
        old(regs).pc + 2 <= u16::MAX,
    ensures
        final(regs).wf(),
        r == Ok::<(), InterpreterError>(()),
        final(regs)@ == spec_add_vx_byte(opcode, old(regs)@),
{
    let x = op_x(opcode) as usize;
    let nn = op_nn(opcode) as u16;
    let vx = regs.get_v(x)? as u16;
    regs.set_v(x, ((vx + nn) % 256) as u8)?;
    regs.pc = regs.pc + 2;
    Ok(())
}

/// `8xy0` - copy `Vy` into `Vx`.
pub open spec fn spec_ld_vx_vy(op: u16, r: RegistersView) -> RegistersView {
    spec_advanced(
        RegistersView { v: r.v.update(spec_op_x(op) as int, r.v[spec_op_y(op) as int]), ..r },
        2,
    )
}

/// Copies `Vy` into `Vx`.
pub fn ld_vx_vy(opcode: u16, regs: &mut Registers) -> (r: Result<(), InterpreterError>)
    requires
        old(regs).wf(),
        old(regs).pc + 2 <= u16::MAX,
    ensures
        final(regs).wf(),
        r == Ok::<(), InterpreterError>(()),
        final(regs)@ == spec_ld_vx_vy(opcode, old(regs)@),
{
    let x = op_x(opcode) as usize;
    let y = op_y(opcode) as usize;
    let vy = regs.get_v(y)?;
    regs.set_v(x, vy)?;
    regs.pc = regs.pc + 2;
    Ok(())
}

/// `8xy1` - bitwise OR of `Vx` and `Vy` into `Vx`.
pub open spec fn spec_or_vx_vy(op: u16, r: RegistersView) -> RegistersView {
    let vx = r.v[spec_op_x(op) as int];
    let vy = r.v[spec_op_y(op) as int];
    spec_advanced(RegistersView { v: r.v.update(spec_op_x(op) as int, vx | vy), ..r }, 2)
}

/// ORs `Vy` into `Vx`.
pub fn or_vx_vy(opcode: u16, regs: &mut Registers) -> (r: Result<(), InterpreterError>)
    requires
        old(regs).wf(),
        old(regs).pc + 2 <= u16::MAX,
    ensures
        final(regs).wf(),
        r == Ok::<(), InterpreterError>(()),
        final(regs)@ == spec_or_vx_vy(opcode, old(regs)@),
{
    let x = op_x(opcode) as usize;
    let y = op_y(opcode) as usize;
    let vx = regs.get_v(x)?;
    let vy = regs.get_v(y)?;
    regs.set_v(x, vx | vy)?;
    regs.pc = regs.pc + 2;
    Ok(())
}

/// `8xy2` - bitwise AND of `Vx` and `Vy` into `Vx`.
pub open spec fn spec_and_vx_vy(op: u16, r: RegistersView) -> RegistersView {
    let vx = r.v[spec_op_x(op) as int];
    let vy = r.v[spec_op_y(op) as int];
    spec_advanced(RegistersView { v: r.v.update(spec_op_x(op) as int, vx & vy), ..r }, 2)
}

/// ANDs `Vy` into `Vx`.
pub fn and_vx_vy(opcode: u16, regs: &mut Registers) -> (r: Result<(), InterpreterError>)
    requires
        old(regs).wf(),
        old(regs).pc + 2 <= u16::MAX,
    ensures
        final(regs).wf(),
        r == Ok::<(), InterpreterError>(()),
        final(regs)@ == spec_and_vx_vy(opcode, old(regs)@),
{
    let x = op_x(opcode) as usize;
    let y = op_y(opcode) as usize;
    let vx = regs.get_v(x)?;
    let vy = regs.get_v(y)?;
    regs.set_v(x, vx & vy)?;
    regs.pc = regs.pc + 2;
    Ok(())
}

/// `8xy3` - bitwise XOR of `Vx` and `Vy` into `Vx`.
pub open spec fn spec_xor_vx_vy(op: u16, r: RegistersView) -> RegistersView {
    let vx = r.v[spec_op_x(op) as int];
    let vy = r.v[spec_op_y(op) as int];
    spec_advanced(RegistersView { v: r.v.update(spec_op_x(op) as int, vx ^ vy), ..r }, 2)
}

/// XORs `Vy` into `Vx`.
pub fn xor_vx_vy(opcode: u16, regs: &mut Registers) -> (r: Result<(), InterpreterError>)
    requires
        old(regs).wf(),
        old(regs).pc + 2 <= u16::MAX,
    ensures
        final(regs).wf(),
        r == Ok::<(), InterpreterError>(()),
        final(regs)@ == spec_xor_vx_vy(opcode, old(regs)@),
{
    let x = op_x(opcode) as usize;
    let y = op_y(opcode) as usize;
    let vx = regs.get_v(x)?;
    let vy = regs.get_v(y)?;
    regs.set_v(x, vx ^ vy)?;
    regs.pc = regs.pc + 2;
    Ok(())
}

/// `8xy4` - add `Vy` to `Vx`, wrapping; VF becomes the carry, written
/// after the result so it wins when `x` is 15.
pub open spec fn spec_add_vx_vy(op: u16, r: RegistersView) -> RegistersView {
    let vx = r.v[spec_op_x(op) as int];
    let vy = r.v[spec_op_y(op) as int];
    let sum = vx + vy;
    let carry: u8 = if sum > 255 {
        1
    } else {
        0
    };
    spec_advanced(
        RegistersView {
            v: r.v.update(spec_op_x(op) as int, (sum % 256) as u8).update(15, carry),
            ..r
        },
        2,
    )
}

/// Adds `Vy` to `Vx` with VF as the carry flag.
pub fn add_vx_vy(opcode: u16, regs: &mut Registers) -> (r: Result<(), InterpreterError>)
    requires
        old(regs).wf(),
        old(regs).pc + 2 <= u16::MAX,
    ensures
        final(regs).wf(),
        r == Ok::<(), InterpreterError>(()),
        final(regs)@ == spec_add_vx_vy(opcode, old(regs)@),
{
    let x = op_x(opcode) as usize;
    let y = op_y(opcode) as usize;
    let vx = regs.get_v(x)?;
    let vy = regs.get_v(y)?;
    let sum = vx as u16 + vy as u16;
    regs.set_v(x, (sum % 256) as u8)?;
    regs.set_vf(
        if sum > 255 {
            1
        } else {
            0
        },
    );
    regs.pc = regs.pc + 2;
    Ok(())
}

/// `8xy5` - subtract `Vy` from `Vx`, wrapping; VF becomes the no-borrow
/// flag: 1 when `Vx > Vy`, else 0.
pub open spec fn spec_sub_vx_vy(op: u16, r: RegistersView) -> RegistersView {
    let vx = r.v[spec_op_x(op) as int];
    let vy = r.v[spec_op_y(op) as int];
    let diff = ((vx - vy + 256) % 256) as u8;
    let flag: u8 = if vx > vy {
        1
    } else {
        0
    };
    spec_advanced(
        RegistersView { v: r.v.update(spec_op_x(op) as int, diff).update(15, flag), ..r },
        2,
    )
}

/// Subtracts `Vy` from `Vx` with VF as the no-borrow flag.
pub fn sub_vx_vy(opcode: u16, regs: &mut Registers) -> (r: Result<(), InterpreterError>)
    requires
        old(regs).wf(),
        old(regs).pc + 2 <= u16::MAX,
    ensures
        final(regs).wf(),
        r == Ok::<(), InterpreterError>(()),
        final(regs)@ == spec_sub_vx_vy(opcode, old(regs)@),
{
    let x = op_x(opcode) as usize;
    let y = op_y(opcode) as usize;
    let vx = regs.get_v(x)?;
    let vy = regs.get_v(y)?;
    let diff = ((vx as u16 + 256 - vy as u16) % 256) as u8;
    if vx > vy {
        regs.set_v(x, diff)?;
        regs.set_vf(1);
    } else {
        regs.set_v(x, diff)?;
        regs.set_vf(0);
    }
    regs.pc = regs.pc + 2;
    Ok(())
}

/// `8xy6` - shift `Vx` right by one; VF becomes the bit shifted out.
pub open spec fn spec_shr_vx(op: u16, r: RegistersView) -> RegistersView {
    let vx = r.v[spec_op_x(op) as int];
    spec_advanced(
        RegistersView { v: r.v.update(spec_op_x(op) as int, vx >> 1u8).update(15, vx & 1), ..r },
        2,
    )
}

/// Shifts `Vx` right by one with VF as the shifted-out bit.
pub fn shr_vx(opcode: u16, regs: &mut Registers) -> (r: Result<(), InterpreterError>)
    requires
        old(regs).wf(),
        old(regs).pc + 2 <= u16::MAX,
    ensures
        final(regs).wf(),
        r == Ok::<(), InterpreterError>(()),
        final(regs)@ == spec_shr_vx(opcode, old(regs)@),
{
    let x = op_x(opcode) as usize;
    let vx = regs.get_v(x)?;
    regs.set_v(x, vx >> 1u8)?;
    regs.set_vf(vx & 1);
    regs.pc = regs.pc + 2;
    Ok(())
}

/// `8xy7` - store `Vy - Vx` into `Vx`, wrapping; VF becomes the
/// no-borrow flag: 1 when `Vy > Vx`, else 0.
pub open spec fn spec_subn_vx_vy(op: u16, r: RegistersView) -> RegistersView {
    let vx = r.v[spec_op_x(op) as int];
    let vy = r.v[spec_op_y(op) as int];
    let diff = ((vy - vx + 256) % 256) as u8;
    let flag: u8 = if vy > vx {
        1
    } else {
        0
    };
    spec_advanced(
        RegistersView { v: r.v.update(spec_op_x(op) as int, diff).update(15, flag), ..r },
        2,
    )
}

/// Stores `Vy - Vx` into `Vx` with VF as the no-borrow flag.
pub fn subn_vx_vy(opcode: u16, regs: &mut Registers) -> (r: Result<(), InterpreterError>)
    requires
        old(regs).wf(),
        old(regs).pc + 2 <= u16::MAX,
    ensures
        final(regs).wf(),
        r == Ok::<(), InterpreterError>(()),
        final(regs)@ == spec_subn_vx_vy(opcode, old(regs)@),
{
    let x = op_x(opcode) as usize;
    let y = op_y(opcode) as usize;
    let vx = regs.get_v(x)?;
    let vy = regs.get_v(y)?;
    let diff = ((vy as u16 + 256 - vx as u16) % 256) as u8;
    if vy > vx {
        regs.set_v(x, diff)?;
        regs.set_vf(1);
    } else {
        regs.set_v(x, diff)?;
        regs.set_vf(0);
    }
    regs.pc = regs.pc + 2;
    Ok(())
}

/// `8xyE` - shift `Vx` left by one, wrapping; VF becomes the bit shifted
/// out.
pub open spec fn spec_shl_vx(op: u16, r: RegistersView) -> RegistersView {
    let vx = r.v[spec_op_x(op) as int];
    spec_advanced(
        RegistersView {
            v: r.v.update(spec_op_x(op) as int, ((vx * 2) % 256) as u8).update(15, vx >> 7u8),
            ..r
        },
        2,
    )
}

/// Shifts `Vx` left by one with VF as the shifted-out bit.
pub fn shl_vx(opcode: u16, regs: &mut Registers) -> (r: Result<(), InterpreterError>)
    requires
        old(regs).wf(),
        old(regs).pc + 2 <= u16::MAX,
    ensures
        final(regs).wf(),
        r == Ok::<(), InterpreterError>(()),
        final(regs)@ == spec_shl_vx(opcode, old(regs)@),
{
    let x = op_x(opcode) as usize;
    let vx = regs.get_v(x)?;
    regs.set_v(x, ((vx as u16 * 2) % 256) as u8)?;
    regs.set_vf(vx >> 7u8);
    regs.pc = regs.pc + 2;
    Ok(())
}

/// `9xy0` - skip next opcode when `Vx` differs from `Vy`.
pub open spec fn spec_sne_vx_vy(op: u16, r: RegistersView) -> RegistersView {
    if r.v[spec_op_x(op) as int] != r.v[spec_op_y(op) as int] {
        spec_advanced(r, 4)
    } else {
        spec_advanced(r, 2)
    }
}

/// Skips the next opcode when `Vx` differs from `Vy`.
pub fn sne_vx_vy(opcode: u16, regs: &mut Registers) -> (r: Result<(), InterpreterError>)
    requires
        old(regs).wf(),
        old(regs).pc + 4 <= u16::MAX,
    ensures
        final(regs).wf(),
        r == Ok::<(), InterpreterError>(()),
        final(regs)@ == spec_sne_vx_vy(opcode, old(regs)@),
{
    let vx = regs.get_v(op_x(opcode) as usize)?;
    let vy = regs.get_v(op_y(opcode) as usize)?;
    if vx != vy {
        regs.pc = regs.pc + 4;
    } else {
        regs.pc = regs.pc + 2;
    }
    Ok(())
}

/// `Annn` - load the address operand into the index register.
pub open spec fn spec_ld_i_addr(op: u16, r: RegistersView) -> RegistersView {
    spec_advanced(RegistersView { i: spec_op_nnn(op), ..r }, 2)
}

/// Loads the address operand into the index register.
pub fn ld_i_addr(opcode: u16, regs: &mut Registers) -> (r: Result<(), InterpreterError>)
    requires
        old(regs).wf(),
        old(regs).pc + 2 <= u16::MAX,
    ensures
        final(regs).wf(),
        r == Ok::<(), InterpreterError>(()),
        final(regs)@ == spec_ld_i_addr(opcode, old(regs)@),
{
    let nnn = op_nnn(opcode);
    regs.i = nnn;
    regs.pc = regs.pc + 2;
    Ok(())
}

/// `Bnnn` - jump to the address operand plus `V0`.
pub open spec fn spec_jp_v0_addr(op: u16, r: RegistersView) -> RegistersView {
    RegistersView { pc: (spec_op_nnn(op) + r.v[0]) as u16, ..r }
}

/// Jumps to the address operand plus `V0`.
pub fn jp_v0_addr(opcode: u16, regs: &mut Registers) -> (r: Result<(), InterpreterError>)
    requires
        old(regs).wf(),
    ensures
        final(regs).wf(),
        r == Ok::<(), InterpreterError>(()),
        final(regs)@ == spec_jp_v0_addr(opcode, old(regs)@),
{
    let nnn = op_nnn(opcode);
    let v0 = regs.get_v(0)? as u16;
    regs.pc = nnn + v0;
    Ok(())
}

/// `Cxnn` - store a random byte ANDed with the immediate into `Vx`.
/// The byte drawn is a parameter here; the cycle in
/// [`InstructionSet::execute`] draws it from the machine's generator.
pub open spec fn spec_rnd_vx_byte(op: u16, byte: u8, r: RegistersView) -> RegistersView {
    spec_advanced(
        RegistersView { v: r.v.update(spec_op_x(op) as int, byte & spec_op_nn(op)), ..r },
        2,
    )
}

/// Masks the drawn byte with the immediate and stores it in `Vx`.
pub fn rnd_vx_vyte(opcode: u16, byte: u8, regs: &mut Registers) -> (r: Result<
    (),
    InterpreterError,
>)
    requires
        old(regs).wf(),
        old(regs).pc + 2 <= u16::MAX,
    ensures
        final(regs).wf(),
        r == Ok::<(), InterpreterError>(()),
        final(regs)@ == spec_rnd_vx_byte(opcode, byte, old(regs)@),
{
    let x = op_x(opcode) as usize;
    let nn = op_nn(opcode);
    regs.set_v(x, byte & nn)?;
    regs.pc = regs.pc + 2;
    Ok(())
}

/// `Ex9E` - skip next opcode when the key indexed by `Vx` is down; a
/// `Vx` above 15 is the key error, leaving state as it was.
pub open spec fn spec_skp_vx(op: u16, r: RegistersView) -> (RegistersView, Result<
    (),
    InterpreterError,
>) {
    let vx = r.v[spec_op_x(op) as int] as usize;
    if vx > 15 {
        (r, Err(InterpreterError::InvalidKey(vx)))
    } else if r.keys[vx as int] {
        (spec_advanced(r, 4), Ok(()))
    } else {
        (spec_advanced(r, 2), Ok(()))
    }
}

/// Skips the next opcode when the key indexed by `Vx` is down.
pub fn skp_vx(opcode: u16, regs: &mut Registers) -> (r: Result<(), InterpreterError>)
    requires
        old(regs).wf(),
        old(regs).pc + 4 <= u16::MAX,
    ensures
        final(regs).wf(),
        (final(regs)@, r) == spec_skp_vx(opcode, old(regs)@),
{
    let x = op_x(opcode) as usize;
    let vx = regs.get_v(x)? as usize;
    if regs.keydown(vx)? {
        regs.pc = regs.pc + 4;
    } else {
        regs.pc = regs.pc + 2;
    }
    Ok(())
}

/// `ExA1` - skip next opcode when the key indexed by `Vx` is up; a `Vx`
/// above 15 is the key error, leaving state as it was.
pub open spec fn spec_sknp_vx(op: u16, r: RegistersView) -> (RegistersView, Result<
    (),
    InterpreterError,
>) {
    let vx = r.v[spec_op_x(op) as int] as usize;
    if vx > 15 {
        (r, Err(InterpreterError::InvalidKey(vx)))
    } else if r.keys[vx as int] {
        (spec_advanced(r, 2), Ok(()))
    } else {
        (spec_advanced(r, 4), Ok(()))
    }
}

/// Skips the next opcode when the key indexed by `Vx` is up.
pub fn sknp_vx(opcode: u16, regs: &mut Registers) -> (r: Result<(), InterpreterError>)
    requires
        old(regs).wf(),
        old(regs).pc + 4 <= u16::MAX,
    ensures
        final(regs).wf(),
        (final(regs)@, r) == spec_sknp_vx(opcode, old(regs)@),
{
    let x = op_x(opcode) as usize;
    let vx = regs.get_v(x)? as usize;
    if regs.keydown(vx)? {
        regs.pc = regs.pc + 2;
    } else {
        regs.pc = regs.pc + 4;
    }
    Ok(())
}

/// `Fx07` - copy the delay timer into `Vx`.
pub open spec fn spec_ld_vx_dt(op: u16, r: RegistersView) -> RegistersView {
    spec_advanced(
        RegistersView { v: r.v.update(spec_op_x(op) as int, r.delay_timer), ..r },
        2,
    )
}

/// Copies the delay timer into `Vx`.
pub fn ld_vx_dt(opcode: u16, regs: &mut Registers) -> (r: Result<(), InterpreterError>)
    requires
        old(regs).wf(),
        old(regs).pc + 2 <= u16::MAX,
    ensures
        final(regs).wf(),
        r == Ok::<(), InterpreterError>(()),
        final(regs)@ == spec_ld_vx_dt(opcode, old(regs)@),
{
    let x = op_x(opcode) as usize;
    let dt = regs.get_dt();
    regs.set_v(x, dt)?;
    regs.pc = regs.pc + 2;
    Ok(())
}

/// `Fx0A` - blocking key wait: with no key down, nothing changes and the
/// same opcode is fetched again next cycle; once a key is down, its
/// lowest index goes into `Vx` and the program counter advances.
pub open spec fn spec_ld_vx_k(op: u16, r: RegistersView) -> RegistersView {
    match spec_first_keydown(r.keys) {
        Some(key) => spec_advanced(
            RegistersView { v: r.v.update(spec_op_x(op) as int, key as u8), ..r },
            2,
        ),
        None => r,
    }
}

/// Waits for a key: stores the lowest pressed key index, or leaves all
/// state unchanged when no key is down.
pub fn ld_vx_k(opcode: u16, regs: &mut Registers) -> (r: Result<(), InterpreterError>)
    requires
        old(regs).wf(),
        old(regs).pc + 2 <= u16::MAX,
    ensures
        final(regs).wf(),
        r == Ok::<(), InterpreterError>(()),
        final(regs)@ == spec_ld_vx_k(opcode, old(regs)@),
{
    match regs.first_keydown() {
        Some(key) => {
            let x = op_x(opcode) as usize;
            regs.set_v(x, key as u8)?;
            regs.pc = regs.pc + 2;
        },
        None => {},
    }
    Ok(())
}

/// `Fx15` - copy `Vx` into the delay timer.
pub open spec fn spec_ld_dt_vx(op: u16, r: RegistersView) -> RegistersView {
    spec_advanced(
        RegistersView { delay_timer: r.v[spec_op_x(op) as int], ..r },
        2,
    )
}

/// Copies `Vx` into the delay timer.
pub fn ld_dt_vx(opcode: u16, regs: &mut Registers) -> (r: Result<(), InterpreterError>)
    requires
        old(regs).wf(),
        old(regs).pc + 2 <= u16::MAX,
    ensures
        final(regs).wf(),
        r == Ok::<(), InterpreterError>(()),
        final(regs)@ == spec_ld_dt_vx(opcode, old(regs)@),
{
    let x = op_x(opcode) as usize;
    let vx = regs.get_v(x)?;
    regs.set_dt(vx);
    regs.pc = regs.pc + 2;
    Ok(())
}

/// `Fx18` - copy `Vx` into the sound timer.
pub open spec fn spec_ld_st_vx(op: u16, r: RegistersView) -> RegistersView {
    spec_advanced(
        RegistersView { sound_timer: r.v[spec_op_x(op) as int], ..r },
        2,
    )
}

/// Copies `Vx` into the sound timer.
pub fn ld_st_vx(opcode: u16, regs: &mut Registers) -> (r: Result<(), InterpreterError>)
    requires
        old(regs).wf(),
        old(regs).pc + 2 <= u16::MAX,
    ensures
        final(regs).wf(),
        r == Ok::<(), InterpreterError>(()),
        final(regs)@ == spec_ld_st_vx(opcode, old(regs)@),
{
    let x = op_x(opcode) as usize;
    let vx = regs.get_v(x)?;
    regs.set_st(vx);
    regs.pc = regs.pc + 2;
    Ok(())
}

/// `Fx1E` - add `Vx` to the index register, wrapping in 16 bits; the
/// range of the resulting address is enforced lazily by memory on use.
pub open spec fn spec_add_i_vx(op: u16, r: RegistersView) -> RegistersView {
    spec_advanced(
        RegistersView { i: ((r.i + r.v[spec_op_x(op) as int]) % 0x10000) as u16, ..r },
        2,
    )
}

/// Adds `Vx` to the index register, wrapping in 16 bits.
pub fn add_i_vx(opcode: u16, regs: &mut Registers) -> (r: Result<(), InterpreterError>)
    requires
        old(regs).wf(),
        old(regs).pc + 2 <= u16::MAX,
    ensures
        final(regs).wf(),
        r == Ok::<(), InterpreterError>(()),
        final(regs)@ == spec_add_i_vx(opcode, old(regs)@),
{
    let x = op_x(opcode) as usize;
    let vx = regs.get_v(x)?;
    regs.i = ((regs.i as u32 + vx as u32) % 0x10000) as u16;
    regs.pc = regs.pc + 2;
    Ok(())
}

/// `Fx29` - load the address of the glyph for digit `Vx` into the index
/// register: glyph table base plus five bytes per digit; a `Vx` above 15
/// is the digit-range error, leaving state as it was.
pub open spec fn spec_ld_f_vx(op: u16, r: RegistersView) -> (RegistersView, Result<
    (),
    InterpreterError,
>) {
    let vx = r.v[spec_op_x(op) as int];
    if vx > 0xF {
        (r, Err(InterpreterError::InvalidKey(vx as usize)))
    } else {
        (
            spec_advanced(
                RegistersView { i: (FONT_OFFSET + vx * 5) as u16, ..r },
                2,
            ),
            Ok(()),
        )
    }
}

/// Loads the glyph address for digit `Vx` into the index register.
pub fn ld_f_vx(opcode: u16, regs: &mut Registers) -> (r: Result<(), InterpreterError>)
    requires
        old(regs).wf(),
        old(regs).pc + 2 <= u16::MAX,
    ensures
        final(regs).wf(),
        (final(regs)@, r) == spec_ld_f_vx(opcode, old(regs)@),
{
    let x = op_x(opcode) as usize;
    let vx = regs.get_v(x)?;
    if vx > 0xF {
        Err(InterpreterError::InvalidKey(vx as usize))
    } else {
        regs.i = FONT_OFFSET as u16 + (vx as u16) * 5;
        regs.pc = regs.pc + 2;
        Ok(())
    }
}

/// `Fx33` - binary-coded decimal: hundreds, tens and ones of `Vx` at the
/// index address and the two following it; the first address out of range
/// stops the sequence with the address error, keeping earlier writes.
pub open spec fn spec_ld_b_vx(op: u16, m: Seq<u8>, r: RegistersView) -> (Seq<u8>, RegistersView, Result<
    (),
    InterpreterError,
>) {
    let vx = r.v[spec_op_x(op) as int];
    let base = r.i as usize;
    let (m1, r1) = spec_write_byte(m, base, vx / 100);
    if r1 is Err {
        (m1, r, r1)
    } else {
        let (m2, r2) = spec_write_byte(m1, (base + 1) as usize, (vx / 10) % 10);
        if r2 is Err {
            (m2, r, r2)
        } else {
            let (m3, r3) = spec_write_byte(m2, (base + 2) as usize, (vx % 100) % 10);
            if r3 is Err {
                (m3, r, r3)
            } else {
                (m3, spec_advanced(r, 2), Ok(()))
            }
        }
    }
}

/// Writes the decimal digits of `Vx` at the index address.
pub fn ld_b_vx(opcode: u16, mem: &mut Memory, regs: &mut Registers) -> (r: Result<
    (),
    InterpreterError,
>)
    requires
        old(mem).wf(),
        old(regs).wf(),
        old(regs).pc + 2 <= u16::MAX,
    ensures
        final(mem).wf(),
        final(regs).wf(),
        (final(mem)@, final(regs)@, r) == spec_ld_b_vx(opcode, old(mem)@, old(regs)@),
{
    let x = op_x(opcode) as usize;
    let vx = regs.get_v(x)?;
    let base = regs.i as usize;
    mem.write_byte(base, vx / 100)?;
    mem.write_byte(base + 1, (vx / 10) % 10)?;
    mem.write_byte(base + 2, (vx % 100) % 10)?;
    regs.pc = regs.pc + 2;
    Ok(())
}

/// Memory after storing `v[k..=x]` at `base + k` onward, stopping with
/// the address error at the first address out of range.
pub open spec fn spec_store_regs(m: Seq<u8>, v: Seq<u8>, base: int, k: int, x: int) -> (Seq<u8>, Result<
    (),
    InterpreterError,
>)
    decreases x + 1 - k,
{
    if k > x {
        (m, Ok(()))
    } else if base + k >= MEMORY_SIZE {
        (m, Err(InterpreterError::InvalidAddressError((base + k) as usize)))
    } else {
        spec_store_regs(m.update(base + k, v[k]), v, base, k + 1, x)
    }
}

/// `Fx55` - store registers `V0..=Vx` to memory starting at the index
/// address; the program counter advances only when every write lands.
pub open spec fn spec_ld_arr_i_vx(op: u16, m: Seq<u8>, r: RegistersView) -> (Seq<u8>, RegistersView, Result<
    (),
    InterpreterError,
>) {
    let x = spec_op_x(op) as int;
    let (m2, res) = spec_store_regs(m, r.v, r.i as int, 0, x);
    if res is Ok {
        (m2, spec_advanced(r, 2), res)
    } else {
        (m2, r, res)
    }
}

/// Stores registers `V0..=Vx` to memory at the index address.
#[verifier::loop_isolation(false)]
pub fn ld_arr_i_vx(opcode: u16, mem: &mut Memory, regs: &mut Registers) -> (r: Result<
    (),
    InterpreterError,
>)
    requires
        old(mem).wf(),
        old(regs).wf(),
        old(regs).pc + 2 <= u16::MAX,
    ensures
        final(mem).wf(),
        final(regs).wf(),
        (final(mem)@, final(regs)@, r) == spec_ld_arr_i_vx(opcode, old(mem)@, old(regs)@),
{
    let x = op_x(opcode);
    let base = regs.i as usize;
    let mut k: u16 = 0;
    while k < x + 1
        invariant
            mem.wf(),
            regs.wf(),
            regs == old(regs),
            x < 16,
            base == regs.i as usize,
            k <= x + 1,
            spec_store_regs(old(mem)@, regs@.v, base as int, 0, x as int) == spec_store_regs(
                mem@,
                regs@.v,
                base as int,
                k as int,
                x as int,
            ),
        decreases x + 1 - k,
    {
        let value = regs.get_v(k as usize)?;
        match mem.write_byte(base + k as usize, value) {
            Ok(()) => {},
            Err(e) => {
                return Err(e);
            },
        }
        k = k + 1;
    }
    regs.pc = regs.pc + 2;
    Ok(())
}

/// Registers after loading `v[k..=x]` from memory at `base + k` onward,
/// stopping with the address error at the first address out of range.
pub open spec fn spec_load_regs(m: Seq<u8>, v: Seq<u8>, base: int, k: int, x: int) -> (Seq<u8>, Result<
    (),
    InterpreterError,
>)
    decreases x + 1 - k,
{
    if k > x {
        (v, Ok(()))
    } else if base + k >= MEMORY_SIZE {
        (v, Err(InterpreterError::InvalidAddressError((base + k) as usize)))
    } else {
        spec_load_regs(m, v.update(k, m[base + k]), base, k + 1, x)
    }
}

/// `Fx65` - load registers `V0..=Vx` from memory starting at the index
/// address; the program counter advances only when every read lands.
pub open spec fn spec_ld_arr_vx_i(op: u16, m: Seq<u8>, r: RegistersView) -> (RegistersView, Result<
    (),
    InterpreterError,
>) {
    let x = spec_op_x(op) as int;
    let (v2, res) = spec_load_regs(m, r.v, r.i as int, 0, x);
    if res is Ok {
        (spec_advanced(RegistersView { v: v2, ..r }, 2), res)
    } else {
        (RegistersView { v: v2, ..r }, res)
    }
}

/// Loads registers `V0..=Vx` from memory at the index address.
#[verifier::loop_isolation(false)]
pub fn ld_arr_vx_i(opcode: u16, mem: &Memory, regs: &mut Registers) -> (r: Result<
    (),
    InterpreterError,
>)
    requires
        mem.wf(),
        old(regs).wf(),
        old(regs).pc + 2 <= u16::MAX,
    ensures
        final(regs).wf(),
        (final(regs)@, r) == spec_ld_arr_vx_i(opcode, mem@, old(regs)@),
{
    let x = op_x(opcode);
    let base = regs.i as usize;
    let mut k: u16 = 0;
    while k < x + 1
        invariant
            mem.wf(),
            regs.wf(),
            x < 16,
            base == regs.i as usize,
            regs@ == (RegistersView { v: regs@.v, ..old(regs)@ }),
            k <= x + 1,
            spec_load_regs(mem@, old(regs)@.v, base as int, 0, x as int) == spec_load_regs(
                mem@,
                regs@.v,
                base as int,
                k as int,
                x as int,
            ),
        decreases x + 1 - k,
    {
        let value = match mem.read_byte(base + k as usize) {
            Ok(b) => b,
            Err(e) => {
                return Err(e);
            },
        };
        regs.set_v(k as usize, value)?;
        k = k + 1;
    }
    regs.pc = regs.pc + 2;
    Ok(())
}

// ---------------------------------------------------------------------
// The draw instruction
// ---------------------------------------------------------------------
/// Whether bit `xi` (from the most significant end) of sprite row `b` is
/// set.
pub open spec fn spec_sprite_bit(b: u8, xi: u16) -> bool {
    (b & (0x80u8 >> xi)) != 0
}

/// A pixel is flipped by the XOR draw: on goes off, off goes on.
pub open spec fn spec_flip(p: u8) -> u8 {
    if p == 1 {
        0
    } else {
        1
    }
}

/// Whether linear pixel index `k` is touched by some sprite bit strictly
/// before position `(yi, xi)` of the row-major sprite walk: a set bit in
/// an earlier row, or earlier in row `yi`, that clips inside the grid.
pub open spec fn spec_hits_upto(
    m: Seq<u8>,
    i: int,
    vx: int,
    vy: int,
    yi: int,
    xi: int,
    k: int,
) -> bool {
    exists|yj: int, xj: u16|
        0 <= yj && 0 <= xj < 8 && (yj < yi || (yj == yi && xj < xi)) && vy + yj < 32 && vx + xj
            < 64 && #[trigger] spec_sprite_bit(m[i + yj], xj) && k == (vy + yj) * 64 + (vx + xj)
}

/// The frame buffer after flipping every pixel touched strictly before
/// position `(yi, xi)` of the sprite walk.
pub open spec fn spec_draw_fb_upto(
    m: Seq<u8>,
    fb: Seq<u8>,
    i: int,
    vx: int,
    vy: int,
    yi: int,
    xi: int,
) -> Seq<u8> {
    Seq::new(
        fb.len(),
        |k: int|
            if spec_hits_upto(m, i, vx, vy, yi, xi, k) {
                spec_flip(fb[k])
            } else {
                fb[k]
            },
    )
}

/// Whether some pixel touched strictly before position `(yi, xi)` was on
/// in `fb`.  Each pixel is touched at most once per draw, so this is the
/// collision flag of the sequential walk.
pub open spec fn spec_coll_upto(
    m: Seq<u8>,
    fb: Seq<u8>,
    i: int,
    vx: int,
    vy: int,
    yi: int,
    xi: int,
) -> bool {
    exists|k: int|
        0 <= k < fb.len() && #[trigger] spec_hits_upto(m, i, vx, vy, yi, xi, k) && fb[k] == 1
}

/// The frame buffer after drawing the first `rows` sprite rows.
pub open spec fn spec_draw_fb(m: Seq<u8>, fb: Seq<u8>, i: int, vx: int, vy: int, rows: int) -> Seq<
    u8,
> {
    spec_draw_fb_upto(m, fb, i, vx, vy, rows, 0)
}

/// Whether drawing the first `rows` sprite rows collides.
pub open spec fn spec_draw_collision(
    m: Seq<u8>,
    fb: Seq<u8>,
    i: int,
    vx: int,
    vy: int,
    rows: int,
) -> bool {
    spec_coll_upto(m, fb, i, vx, vy, rows, 0)
}

/// The first sprite row at or after `yi` whose byte would be read from
/// beyond the end of memory.  Rows clipped below the grid read nothing
/// and cannot fail.
pub open spec fn spec_first_bad_row(i: int, vy: int, yi: int, n: int) -> Option<int>
    decreases n - yi,
{
    if yi >= n {
        None
    } else if vy + yi < 32 && i + yi >= MEMORY_SIZE {
        Some(yi)
    } else {
        spec_first_bad_row(i, vy, yi + 1, n)
    }
}

/// `Dxyn` - draw the `n`-byte sprite at memory index `I` to the point
/// `(Vx mod 64, Vy mod 32)`, XOR-ing pixels and clipping at the grid
/// edges; VF reports whether any pixel was turned off.  A sprite row
/// whose byte lies beyond memory stops the draw with the address error,
/// keeping the rows already drawn.
pub open spec fn spec_drw(op: u16, m: Seq<u8>, r: RegistersView, fb: Seq<u8>) -> (
    RegistersView,
    Seq<u8>,
    Result<(), InterpreterError>,
) {
    let vx = (r.v[spec_op_x(op) as int] % 64) as int;
    let vy = (r.v[spec_op_y(op) as int] % 32) as int;
    let n = spec_op_n(op) as int;
    let i = r.i as int;
    match spec_first_bad_row(i, vy, 0, n) {
        None => (
            spec_advanced(
                RegistersView {
                    v: r.v.update(
                        15,
                        if spec_draw_collision(m, fb, i, vx, vy, n) {
                            1u8
                        } else {
                            0u8
                        },
                    ),
                    ..r
                },
                2,
            ),
            spec_draw_fb(m, fb, i, vx, vy, n),
            Ok(()),
        ),
        Some(y0) => (
            RegistersView {
                v: r.v.update(
                    15,
                    if spec_draw_collision(m, fb, i, vx, vy, y0) {
                        1u8
                    } else {
                        0u8
                    },
                ),
                ..r
            },
            spec_draw_fb(m, fb, i, vx, vy, y0),
            Err(InterpreterError::InvalidAddressError((i + y0) as usize)),
        ),
    }
}

/// A pixel of the 64-wide grid is named by its row and column alone.
proof fn lemma_pixel_unique(a: int, b: int, c: int, d: int)
    requires
        0 <= b < 64,
        0 <= d < 64,
        a * 64 + b == c * 64 + d,
    ensures
        a == c,
        b == d,
{
}

/// Nothing is touched before the walk starts.
proof fn lemma_hits_empty(m: Seq<u8>, i: int, vx: int, vy: int)
    ensures
        forall|k: int| !spec_hits_upto(m, i, vx, vy, 0, 0, k),
{
    assert forall|k: int| !spec_hits_upto(m, i, vx, vy, 0, 0, k) by {
        if spec_hits_upto(m, i, vx, vy, 0, 0, k) {
            let (yj, xj) = choose|yj: int, xj: u16|
                0 <= yj && 0 <= xj < 8 && (yj < 0 || (yj == 0 && xj < 0)) && vy + yj < 32 && vx
                    + xj < 64 && #[trigger] spec_sprite_bit(m[i + yj], xj) && k == (vy + yj) * 64
                    + (vx + xj);
            assert(false);
        }
    }
}

/// Advancing the walk past one sprite position changes the touched set
/// only at that position's own pixel, and only when its bit draws.
proof fn lemma_hits_extend(m: Seq<u8>, i: int, vx: int, vy: int, yi: int, xi: u16)
    requires
        0 <= vx,
        0 <= vy,
        0 <= yi,
        xi < 8,
    ensures
        (vy + yi < 32 && vx + xi < 64 && spec_sprite_bit(m[i + yi], xi)) ==> {
            &&& spec_hits_upto(m, i, vx, vy, yi, xi + 1, (vy + yi) * 64 + (vx + xi))
            &&& !spec_hits_upto(m, i, vx, vy, yi, xi as int, (vy + yi) * 64 + (vx + xi))
            &&& forall|k: int|
                k != (vy + yi) * 64 + (vx + xi) ==> spec_hits_upto(m, i, vx, vy, yi, xi + 1, k)
                    == spec_hits_upto(m, i, vx, vy, yi, xi as int, k)
        },
        !(vy + yi < 32 && vx + xi < 64 && spec_sprite_bit(m[i + yi], xi)) ==> forall|k: int|
            spec_hits_upto(m, i, vx, vy, yi, xi + 1, k) == spec_hits_upto(
                m,
                i,
                vx,
                vy,
                yi,
                xi as int,
                k,
            ),
{
    let active = vy + yi < 32 && vx + xi < 64 && spec_sprite_bit(m[i + yi], xi);
    let idx = (vy + yi) * 64 + (vx + xi);
    if active {
        assert(spec_hits_upto(m, i, vx, vy, yi, xi + 1, idx)) by {
            assert(spec_sprite_bit(m[i + yi], xi));
        }
        assert(!spec_hits_upto(m, i, vx, vy, yi, xi as int, idx)) by {
            if spec_hits_upto(m, i, vx, vy, yi, xi as int, idx) {
                let (yj, xj) = choose|yj: int, xj: u16|
                    0 <= yj && 0 <= xj < 8 && (yj < yi || (yj == yi && xj < xi as int)) && vy + yj
                        < 32 && vx + xj < 64 && #[trigger] spec_sprite_bit(m[i + yj], xj) && idx
                        == (vy + yj) * 64 + (vx + xj);
                lemma_pixel_unique(vy + yj, vx + xj as int, vy + yi, vx + xi as int);
                assert(false);
            }
        }
    }
    assert forall|k: int|
        (!active || k != idx) implies spec_hits_upto(m, i, vx, vy, yi, xi + 1, k)
            == spec_hits_upto(m, i, vx, vy, yi, xi as int, k) by {
        if spec_hits_upto(m, i, vx, vy, yi, xi + 1, k) {
            let (yj, xj) = choose|yj: int, xj: u16|
                0 <= yj && 0 <= xj < 8 && (yj < yi || (yj == yi && xj < xi + 1)) && vy + yj < 32
                    && vx + xj < 64 && #[trigger] spec_sprite_bit(m[i + yj], xj) && k == (vy + yj)
                    * 64 + (vx + xj);
            if yj == yi && xj == xi {
                assert(k == idx && active);
                assert(false);
            } else {
                assert(yj < yi || (yj == yi && xj < xi as int));
                assert(spec_hits_upto(m, i, vx, vy, yi, xi as int, k));
            }
        }
        if spec_hits_upto(m, i, vx, vy, yi, xi as int, k) {
            let (yj, xj) = choose|yj: int, xj: u16|
                0 <= yj && 0 <= xj < 8 && (yj < yi || (yj == yi && xj < xi as int)) && vy + yj
                    < 32 && vx + xj < 64 && #[trigger] spec_sprite_bit(m[i + yj], xj) && k == (vy
                    + yj) * 64 + (vx + xj);
            assert(spec_hits_upto(m, i, vx, vy, yi, xi + 1, k));
        }
    }
}

/// Finishing a row and standing at the start of the next touches the
/// same pixels.
proof fn lemma_hits_row_end(m: Seq<u8>, i: int, vx: int, vy: int, yi: int)
    ensures
        forall|k: int|
            spec_hits_upto(m, i, vx, vy, yi, 8, k) == spec_hits_upto(m, i, vx, vy, yi + 1, 0, k),
{
    assert forall|k: int|
        spec_hits_upto(m, i, vx, vy, yi, 8, k) == spec_hits_upto(m, i, vx, vy, yi + 1, 0, k) by {
        if spec_hits_upto(m, i, vx, vy, yi, 8, k) {
            let (yj, xj) = choose|yj: int, xj: u16|
                0 <= yj && 0 <= xj < 8 && (yj < yi || (yj == yi && xj < 8)) && vy + yj < 32 && vx
                    + xj < 64 && #[trigger] spec_sprite_bit(m[i + yj], xj) && k == (vy + yj) * 64
                    + (vx + xj);
            assert(spec_hits_upto(m, i, vx, vy, yi + 1, 0, k));
        }
        if spec_hits_upto(m, i, vx, vy, yi + 1, 0, k) {
            let (yj, xj) = choose|yj: int, xj: u16|
                0 <= yj && 0 <= xj < 8 && (yj < yi + 1 || (yj == yi + 1 && xj < 0)) && vy + yj
                    < 32 && vx + xj < 64 && #[trigger] spec_sprite_bit(m[i + yj], xj) && k == (vy
                    + yj) * 64 + (vx + xj);
            assert(spec_hits_upto(m, i, vx, vy, yi, 8, k));
        }
    }
}

/// A row clipped below the grid touches nothing.
proof fn lemma_hits_row_skip(m: Seq<u8>, i: int, vx: int, vy: int, yi: int)
    requires
        vy + yi >= 32,
    ensures
        forall|k: int|
            spec_hits_upto(m, i, vx, vy, yi + 1, 0, k) == spec_hits_upto(m, i, vx, vy, yi, 0, k),
{
    assert forall|k: int|
        spec_hits_upto(m, i, vx, vy, yi + 1, 0, k) == spec_hits_upto(m, i, vx, vy, yi, 0, k) by {
        if spec_hits_upto(m, i, vx, vy, yi + 1, 0, k) {
            let (yj, xj) = choose|yj: int, xj: u16|
                0 <= yj && 0 <= xj < 8 && (yj < yi + 1 || (yj == yi + 1 && xj < 0)) && vy + yj
                    < 32 && vx + xj < 64 && #[trigger] spec_sprite_bit(m[i + yj], xj) && k == (vy
                    + yj) * 64 + (vx + xj);
            assert(yj != yi);
            assert(spec_hits_upto(m, i, vx, vy, yi, 0, k));
        }
        if spec_hits_upto(m, i, vx, vy, yi, 0, k) {
            let (yj, xj) = choose|yj: int, xj: u16|
                0 <= yj && 0 <= xj < 8 && (yj < yi || (yj == yi && xj < 0)) && vy + yj < 32 && vx
                    + xj < 64 && #[trigger] spec_sprite_bit(m[i + yj], xj) && k == (vy + yj) * 64
                    + (vx + xj);
            assert(spec_hits_upto(m, i, vx, vy, yi + 1, 0, k));
        }
    }
}

/// Walk positions that touch the same pixels flip the same frame buffer
/// and report the same collision.
proof fn lemma_draw_congruence(
    m: Seq<u8>,
    fb: Seq<u8>,
    i: int,
    vx: int,
    vy: int,
    yi1: int,
    xi1: int,
    yi2: int,
    xi2: int,
)
    requires
        forall|k: int|
            spec_hits_upto(m, i, vx, vy, yi1, xi1, k) == spec_hits_upto(m, i, vx, vy, yi2, xi2, k),
    ensures
        spec_draw_fb_upto(m, fb, i, vx, vy, yi1, xi1) == spec_draw_fb_upto(
            m,
            fb,
            i,
            vx,
            vy,
            yi2,
            xi2,
        ),
        spec_coll_upto(m, fb, i, vx, vy, yi1, xi1) == spec_coll_upto(m, fb, i, vx, vy, yi2, xi2),
{
    assert(spec_draw_fb_upto(m, fb, i, vx, vy, yi1, xi1) =~= spec_draw_fb_upto(
        m,
        fb,
        i,
        vx,
        vy,
        yi2,
        xi2,
    ));
    if spec_coll_upto(m, fb, i, vx, vy, yi1, xi1) {
        let k = choose|k: int|
            0 <= k < fb.len() && #[trigger] spec_hits_upto(m, i, vx, vy, yi1, xi1, k) && fb[k]
                == 1;
        assert(spec_hits_upto(m, i, vx, vy, yi2, xi2, k));
        assert(spec_coll_upto(m, fb, i, vx, vy, yi2, xi2));
    }
    if spec_coll_upto(m, fb, i, vx, vy, yi2, xi2) {
        let k = choose|k: int|
            0 <= k < fb.len() && #[trigger] spec_hits_upto(m, i, vx, vy, yi2, xi2, k) && fb[k]
                == 1;
        assert(spec_hits_upto(m, i, vx, vy, yi1, xi1, k));
        assert(spec_coll_upto(m, fb, i, vx, vy, yi1, xi1));
    }
}

/// Draws the sprite, clipping at the grid edges, with VF as the
/// collision flag.
#[verifier::loop_isolation(false)]
pub fn drw_vx_vy_nibble(
    opcode: u16,
    mem: &Memory,
    regs: &mut Registers,
    fb: &mut FrameBuffer,
) -> (r: Result<(), InterpreterError>)
    requires
        mem.wf(),
        old(regs).wf(),
        old(fb).wf(),
        old(regs).pc + 2 <= u16::MAX,
    ensures
        final(regs).wf(),
        final(fb).wf(),
        (final(regs)@, final(fb)@, r) == spec_drw(opcode, mem@, old(regs)@, old(fb)@),
{
    let x = op_x(opcode) as usize;
    let y = op_y(opcode) as usize;
    let n = op_n(opcode);
    let vx = regs.get_v(x)? % 64;
    let vy = regs.get_v(y)? % 32;
    let base = regs.i as usize;
    let ghost m = mem@;
    let ghost fb0 = old(fb)@;
    let ghost r0 = old(regs)@;
    let ghost iv = r0.i as int;
    let ghost vxi = vx as int;
    let ghost vyi = vy as int;
    let ghost ni = n as int;
    regs.set_vf(0);
    proof {
        lemma_hits_empty(m, iv, vxi, vyi);
        assert(fb@ =~= spec_draw_fb_upto(m, fb0, iv, vxi, vyi, 0, 0));
        assert(!spec_coll_upto(m, fb0, iv, vxi, vyi, 0, 0)) by {
            if spec_coll_upto(m, fb0, iv, vxi, vyi, 0, 0) {
                let k = choose|k: int|
                    0 <= k < fb0.len() && #[trigger] spec_hits_upto(m, iv, vxi, vyi, 0, 0, k)
                        && fb0[k] == 1;
                assert(false);
            }
        }
    }
    let mut yi: u16 = 0;
    while yi < n
        invariant
            regs.wf(),
            fb.wf(),
            yi <= n,
            spec_first_bad_row(iv, vyi, 0, ni) == spec_first_bad_row(iv, vyi, yi as int, ni),
            regs@ == (RegistersView {
                v: r0.v.update(
                    15,
                    if spec_coll_upto(m, fb0, iv, vxi, vyi, yi as int, 0) {
                        1u8
                    } else {
                        0u8
                    },
                ),
                ..r0
            }),
            fb@ == spec_draw_fb_upto(m, fb0, iv, vxi, vyi, yi as int, 0),
        decreases n - yi,
    {
        let py = vy as u16 + yi;
        if py < 32 {
            let byte = match mem.read_byte(base + yi as usize) {
                Ok(b) => b,
                Err(e) => {
                    proof {
                        assert(spec_first_bad_row(iv, vyi, yi as int, ni) == Some(yi as int));
                    }
                    return Err(e);
                },
            };
            let mut xi: u16 = 0;
            while xi < 8
                invariant
                    regs.wf(),
                    fb.wf(),
                    xi <= 8,
                    yi < n,
                    byte == m[iv + yi],
                    vyi + yi < 32,
                    regs@ == (RegistersView {
                        v: r0.v.update(
                            15,
                            if spec_coll_upto(m, fb0, iv, vxi, vyi, yi as int, xi as int) {
                                1u8
                            } else {
                                0u8
                            },
                        ),
                        ..r0
                    }),
                    fb@ == spec_draw_fb_upto(m, fb0, iv, vxi, vyi, yi as int, xi as int),
                decreases 8 - xi,
            {
                let ghost idx = (vyi + yi) * 64 + (vxi + xi);
                proof {
                    lemma_hits_extend(m, iv, vxi, vyi, yi as int, xi);
                }
                let px = vx as u16 + xi;
                if px < 64 && (byte & (0x80u8 >> xi)) != 0 {
                    proof {
                        assert(0 <= idx < 2048);
                        assert(!spec_hits_upto(m, iv, vxi, vyi, yi as int, xi as int, idx));
                        assert(fb@[idx] == fb0[idx]);
                    }
                    let on = match fb.get_xy(px, py) {
                        Ok(b) => b,
                        Err(e) => {
                            proof {
                                assert(false);
                            }
                            return Err(e);
                        },
                    };
                    if on {
                        match fb.set_xy(px, py, false) {
                            Ok(()) => {},
                            Err(e) => {
                                proof {
                                    assert(false);
                                }
                                return Err(e);
                            },
                        }
                        regs.set_vf(1);
                        proof {
                            assert(fb0[idx] == 1);
                            assert(spec_coll_upto(m, fb0, iv, vxi, vyi, yi as int, xi + 1)) by {
                                assert(spec_hits_upto(m, iv, vxi, vyi, yi as int, xi + 1, idx));
                            }
                            assert(regs@.v =~= r0.v.update(
                                15,
                                if spec_coll_upto(m, fb0, iv, vxi, vyi, yi as int, xi + 1) {
                                    1u8
                                } else {
                                    0u8
                                },
                            ));
                            assert(fb@ =~= spec_draw_fb_upto(
                                m,
                                fb0,
                                iv,
                                vxi,
                                vyi,
                                yi as int,
                                xi + 1,
                            ));
                        }
                    } else {
                        match fb.set_xy(px, py, true) {
                            Ok(()) => {},
                            Err(e) => {
                                proof {
                                    assert(false);
                                }
                                return Err(e);
                            },
                        }
                        proof {
                            assert(fb0[idx] != 1);
                            assert(spec_coll_upto(m, fb0, iv, vxi, vyi, yi as int, xi + 1)
                                == spec_coll_upto(m, fb0, iv, vxi, vyi, yi as int, xi as int)) by {
                                if spec_coll_upto(m, fb0, iv, vxi, vyi, yi as int, xi + 1) {
                                    let k = choose|k: int|
                                        0 <= k < fb0.len() && #[trigger] spec_hits_upto(
                                            m,
                                            iv,
                                            vxi,
                                            vyi,
                                            yi as int,
                                            xi + 1,
                                            k,
                                        ) && fb0[k] == 1;
                                    assert(k != idx);
                                    assert(spec_hits_upto(m, iv, vxi, vyi, yi as int, xi as int, k));
                                    assert(spec_coll_upto(m, fb0, iv, vxi, vyi, yi as int, xi as int));
                                }
                                if spec_coll_upto(m, fb0, iv, vxi, vyi, yi as int, xi as int) {
                                    let k = choose|k: int|
                                        0 <= k < fb0.len() && #[trigger] spec_hits_upto(
                                            m,
                                            iv,
                                            vxi,
                                            vyi,
                                            yi as int,
                                            xi as int,
                                            k,
                                        ) && fb0[k] == 1;
                                    assert(spec_hits_upto(m, iv, vxi, vyi, yi as int, xi + 1, k));
                                    assert(spec_coll_upto(m, fb0, iv, vxi, vyi, yi as int, xi + 1));
                                }
                            }
                            assert(fb@ =~= spec_draw_fb_upto(
                                m,
                                fb0,
                                iv,
                                vxi,
                                vyi,
                                yi as int,
                                xi + 1,
                            ));
                        }
                    }
                } else {
                    proof {
                        assert(!(vyi + yi < 32 && vxi + xi < 64 && spec_sprite_bit(
                            m[iv + yi],
                            xi,
                        ))) by {
                            if px >= 64 {
                            } else {
                                assert(byte == m[iv + yi]);
                                assert(!spec_sprite_bit(m[iv + yi], xi));
                            }
                        }
                        lemma_draw_congruence(
                            m,
                            fb0,
                            iv,
                            vxi,
                            vyi,
                            yi as int,
                            xi + 1,
                            yi as int,
                            xi as int,
                        );
                        assert(fb@ == spec_draw_fb_upto(m, fb0, iv, vxi, vyi, yi as int, xi + 1));
                    }
                }
                xi = xi + 1;
            }
            proof {
                lemma_hits_row_end(m, iv, vxi, vyi, yi as int);
                lemma_draw_congruence(
                    m,
                    fb0,
                    iv,
                    vxi,
                    vyi,
                    yi as int,
                    8,
                    yi as int + 1,
                    0,
                );
                assert(spec_first_bad_row(iv, vyi, yi as int, ni) == spec_first_bad_row(
                    iv,
                    vyi,
                    yi as int + 1,
                    ni,
                ));
            }
        } else {
            proof {
                lemma_hits_row_skip(m, iv, vxi, vyi, yi as int);
                lemma_draw_congruence(
                    m,
                    fb0,
                    iv,
                    vxi,
                    vyi,
                    yi as int + 1,
                    0,
                    yi as int,
                    0,
                );
                assert(spec_first_bad_row(iv, vyi, yi as int, ni) == spec_first_bad_row(
                    iv,
                    vyi,
                    yi as int + 1,
                    ni,
                ));
            }
        }
        yi = yi + 1;
    }
    proof {
        assert(spec_first_bad_row(iv, vyi, yi as int, ni) is None);
    }
    regs.pc = regs.pc + 2;
    Ok(())
}

/// No sprite row at or after row `yi` reads beyond memory when rows
/// below the grid are clipped; used for sprites anchored at the bottom
/// row.
proof fn lemma_no_bad_rows_below(i: int, vy: int, yi: int, n: int)
    requires
        1 <= yi <= n,
        vy + yi >= 32,
        vy + n <= vy + 32,
    ensures
        spec_first_bad_row(i, vy, yi, n) is None,
    decreases n - yi,
{
    if yi < n {
        lemma_no_bad_rows_below(i, vy, yi + 1, n);
    }
}

/// Drawing a sprite with its origin at the bottom-right corner
/// `(63, 31)` touches pixel `(63, 31)` alone: every other sprite bit is
/// clipped, no other pixel changes, and no row read fails.  The corner
/// pixel flips exactly when the first row's leftmost bit is set, and
/// that is also the only way the draw can collide.
pub proof fn lemma_draw_corner_clips(m: Seq<u8>, fb: Seq<u8>, i: int, n: int)
    requires
        fb.len() == BUFFER_SIZE,
        0 < n <= 16,
        0 <= i < MEMORY_SIZE,
    ensures
        spec_first_bad_row(i, 31, 0, n) is None,
        forall|k: int|
            0 <= k < BUFFER_SIZE && k != 2047 ==> spec_draw_fb(m, fb, i, 63, 31, n)[k] == fb[k],
        spec_sprite_bit(m[i], 0) ==> spec_draw_fb(m, fb, i, 63, 31, n)[2047] == spec_flip(
            fb[2047],
        ),
        !spec_sprite_bit(m[i], 0) ==> spec_draw_fb(m, fb, i, 63, 31, n)[2047] == fb[2047],
        spec_draw_collision(m, fb, i, 63, 31, n) == (spec_sprite_bit(m[i], 0) && fb[2047] == 1),
{
    lemma_no_bad_rows_below(i, 31, 1, n);
    assert forall|k: int| #[trigger] spec_hits_upto(m, i, 63, 31, n, 0, k) implies (k == 2047
        && spec_sprite_bit(m[i], 0)) by {
        let (yj, xj) = choose|yj: int, xj: u16|
            0 <= yj && 0 <= xj < 8 && (yj < n || (yj == n && xj < 0)) && 31 + yj < 32 && 63 + xj
                < 64 && #[trigger] spec_sprite_bit(m[i + yj], xj) && k == (31 + yj) * 64 + (63
                + xj);
        assert(yj == 0 && xj == 0);
    }
    assert(spec_sprite_bit(m[i], 0) ==> spec_hits_upto(m, i, 63, 31, n, 0, 2047)) by {
        if spec_sprite_bit(m[i], 0) {
            assert(spec_sprite_bit(m[i + 0], 0));
        }
    }
    if spec_draw_collision(m, fb, i, 63, 31, n) {
        let k = choose|k: int|
            0 <= k < fb.len() && #[trigger] spec_hits_upto(m, i, 63, 31, n, 0, k) && fb[k] == 1;
        assert(spec_sprite_bit(m[i], 0) && fb[2047] == 1);
    }
    if spec_sprite_bit(m[i], 0) && fb[2047] == 1 {
        assert(spec_hits_upto(m, i, 63, 31, n, 0, 2047));
        assert(spec_draw_collision(m, fb, i, 63, 31, n));
    }
}

/// The draw is an XOR involution.  When every pixel the sprite touches
/// starts dark, the first draw lights exactly those pixels without a
/// collision; drawing the identical sprite again at the same point
/// turns every touched pixel back off, restores the frame buffer
/// exactly, and collides precisely when the sprite touches at least one
/// pixel inside the grid.
pub proof fn lemma_draw_twice(m: Seq<u8>, fb: Seq<u8>, i: int, vx: int, vy: int, n: int)
    requires
        fb.len() == BUFFER_SIZE,
        forall|k: int| 0 <= k < BUFFER_SIZE ==> fb[k] == 0 || fb[k] == 1,
        0 <= vx < 64,
        0 <= vy < 32,
        0 <= n,
        0 <= i,
        forall|k: int|
            0 <= k < BUFFER_SIZE && #[trigger] spec_hits_upto(m, i, vx, vy, n, 0, k) ==> fb[k]
                == 0,
    ensures
        !spec_draw_collision(m, fb, i, vx, vy, n),
        forall|k: int|
            0 <= k < BUFFER_SIZE && #[trigger] spec_hits_upto(m, i, vx, vy, n, 0, k)
                ==> spec_draw_fb(m, fb, i, vx, vy, n)[k] == 1,
        spec_draw_fb(m, spec_draw_fb(m, fb, i, vx, vy, n), i, vx, vy, n) == fb,
        spec_draw_collision(m, spec_draw_fb(m, fb, i, vx, vy, n), i, vx, vy, n) == (exists|k: int|
            0 <= k < BUFFER_SIZE && #[trigger] spec_hits_upto(m, i, vx, vy, n, 0, k)),
{
    let fb1 = spec_draw_fb(m, fb, i, vx, vy, n);
    assert forall|k: int| 0 <= k < BUFFER_SIZE && #[trigger] spec_hits_upto(
        m,
        i,
        vx,
        vy,
        n,
        0,
        k,
    ) implies fb1[k] == 1 by {
        assert(fb[k] == 0);
    }
    assert(!spec_draw_collision(m, fb, i, vx, vy, n)) by {
        if spec_draw_collision(m, fb, i, vx, vy, n) {
            let k = choose|k: int|
                0 <= k < fb.len() && #[trigger] spec_hits_upto(m, i, vx, vy, n, 0, k) && fb[k]
                    == 1;
            assert(false);
        }
    }
    assert(spec_draw_fb(m, fb1, i, vx, vy, n) =~= fb);
    let touched = exists|k: int|
        0 <= k < BUFFER_SIZE && #[trigger] spec_hits_upto(m, i, vx, vy, n, 0, k);
    if spec_draw_collision(m, fb1, i, vx, vy, n) {
        let k = choose|k: int|
            0 <= k < fb1.len() && #[trigger] spec_hits_upto(m, i, vx, vy, n, 0, k) && fb1[k] == 1;
        assert(0 <= k < BUFFER_SIZE && spec_hits_upto(m, i, vx, vy, n, 0, k));
    }
    if touched {
        let k = choose|k: int|
            0 <= k < BUFFER_SIZE && #[trigger] spec_hits_upto(m, i, vx, vy, n, 0, k);
        assert(fb1[k] == 1);
        assert(spec_draw_collision(m, fb1, i, vx, vy, n));
    }
}

// ---------------------------------------------------------------------
// The fetch-decode-execute cycle
// ---------------------------------------------------------------------
/// The mathematical value of the whole machine: memory, register file,
/// frame buffer.
#[verifier::ext_equal]
pub ghost struct MachineView {
    pub mem: Seq<u8>,
    pub regs: RegistersView,
    pub fb: Seq<u8>,
}

impl MachineView {
    /// Well-formed machine state: full memory, full register file, full
    /// frame buffer.
    pub open spec fn wf(self) -> bool {
        &&& self.mem.len() == MEMORY_SIZE
        &&& self.regs.wf()
        &&& self.fb.len() == BUFFER_SIZE
    }
}

/// What executing the handler of `kind` on opcode `op` does to the
/// machine.  `b` is the byte the random source handed out this cycle;
/// only the random instruction reads it.
#[verifier::opaque]
pub open spec fn spec_execute_kind(kind: InstructionKind, op: u16, b: u8, s: MachineView) -> (
    MachineView,
    Result<(), InterpreterError>,
) {
    match kind {
        InstructionKind::SysAddr => (MachineView { regs: spec_sys_addr(s.regs), ..s }, Ok(())),
        InstructionKind::Cls => (
            MachineView { regs: spec_advanced(s.regs, 2), fb: spec_cleared(), ..s },
            Ok(()),
        ),
        InstructionKind::Ret => {
            let (r2, res) = spec_ret(s.regs);
            (MachineView { regs: r2, ..s }, res)
        },
        InstructionKind::JpAddr => (MachineView { regs: spec_jp_addr(op, s.regs), ..s }, Ok(())),
        InstructionKind::CallAddr => {
            let (r2, res) = spec_call_addr(op, s.regs);
            (MachineView { regs: r2, ..s }, res)
        },
        InstructionKind::SeVxByte => (
            MachineView { regs: spec_se_vx_byte(op, s.regs), ..s },
            Ok(()),
        ),
        InstructionKind::SneVxByte => (
            MachineView { regs: spec_sne_vx_byte(op, s.regs), ..s },
            Ok(()),
        ),
        InstructionKind::SeVxVy => (MachineView { regs: spec_se_vx_vy(op, s.regs), ..s }, Ok(())),
        InstructionKind::LdVxByte => (
            MachineView { regs: spec_ld_vx_byte(op, s.regs), ..s },
            Ok(()),
        ),
        InstructionKind::AddVxByte => (
            MachineView { regs: spec_add_vx_byte(op, s.regs), ..s },
            Ok(()),
        ),
        InstructionKind::LdVxVy => (MachineView { regs: spec_ld_vx_vy(op, s.regs), ..s }, Ok(())),
        InstructionKind::OrVxVy => (MachineView { regs: spec_or_vx_vy(op, s.regs), ..s }, Ok(())),
        InstructionKind::AndVxVy => (
            MachineView { regs: spec_and_vx_vy(op, s.regs), ..s },
            Ok(()),
        ),
        InstructionKind::XorVxVy => (
            MachineView { regs: spec_xor_vx_vy(op, s.regs), ..s },
            Ok(()),
        ),
        InstructionKind::AddVxVy => (
            MachineView { regs: spec_add_vx_vy(op, s.regs), ..s },
            Ok(()),
        ),
        InstructionKind::SubVxVy => (
            MachineView { regs: spec_sub_vx_vy(op, s.regs), ..s },
            Ok(()),
        ),
        InstructionKind::ShrVx => (MachineView { regs: spec_shr_vx(op, s.regs), ..s }, Ok(())),
        InstructionKind::SubnVxVy => (
            MachineView { regs: spec_subn_vx_vy(op, s.regs), ..s },
            Ok(()),
        ),
        InstructionKind::ShlVx => (MachineView { regs: spec_shl_vx(op, s.regs), ..s }, Ok(())),
        InstructionKind::SneVxVy => (
            MachineView { regs: spec_sne_vx_vy(op, s.regs), ..s },
            Ok(()),
        ),
        InstructionKind::LdIAddr => (
            MachineView { regs: spec_ld_i_addr(op, s.regs), ..s },
            Ok(()),
        ),
        InstructionKind::JpV0Addr => (
            MachineView { regs: spec_jp_v0_addr(op, s.regs), ..s },
            Ok(()),
        ),
        InstructionKind::RndVxByte => (
            MachineView { regs: spec_rnd_vx_byte(op, b, s.regs), ..s },
            Ok(()),
        ),
        InstructionKind::DrwVxVyNibble => {
            let (r2, fb2, res) = spec_drw(op, s.mem, s.regs, s.fb);
            (MachineView { regs: r2, fb: fb2, ..s }, res)
        },
        InstructionKind::SkpVx => {
            let (r2, res) = spec_skp_vx(op, s.regs);
            (MachineView { regs: r2, ..s }, res)
        },
        InstructionKind::SknpVx => {
            let (r2, res) = spec_sknp_vx(op, s.regs);
            (MachineView { regs: r2, ..s }, res)
        },
        InstructionKind::LdVxDt => (MachineView { regs: spec_ld_vx_dt(op, s.regs), ..s }, Ok(())),
        InstructionKind::LdVxK => (MachineView { regs: spec_ld_vx_k(op, s.regs), ..s }, Ok(())),
        InstructionKind::LdDtVx => (MachineView { regs: spec_ld_dt_vx(op, s.regs), ..s }, Ok(())),
        InstructionKind::LdStVx => (MachineView { regs: spec_ld_st_vx(op, s.regs), ..s }, Ok(())),
        InstructionKind::AddIVx => (MachineView { regs: spec_add_i_vx(op, s.regs), ..s }, Ok(())),
        InstructionKind::LdFVx => {
            let (r2, res) = spec_ld_f_vx(op, s.regs);
            (MachineView { regs: r2, ..s }, res)
        },
        InstructionKind::LdBVx => {
            let (m2, r2, res) = spec_ld_b_vx(op, s.mem, s.regs);
            (MachineView { mem: m2, regs: r2, ..s }, res)
        },
        InstructionKind::LdArrIVx => {
            let (m2, r2, res) = spec_ld_arr_i_vx(op, s.mem, s.regs);
            (MachineView { mem: m2, regs: r2, ..s }, res)
        },
        InstructionKind::LdArrVxI => {
            let (r2, res) = spec_ld_arr_vx_i(op, s.mem, s.regs);
            (MachineView { regs: r2, ..s }, res)
        },
    }
}

/// One fetch-decode-execute cycle: read two bytes at the program
/// counter, compose them big-endian, find the first matching table
/// entry, and run its handler.  A fetch beyond memory is the address
/// error; an opcode no entry matches is the invalid-instruction error;
/// both leave the machine unchanged.
pub open spec fn spec_step(s: MachineView, b: u8) -> (MachineView, Result<(), InterpreterError>) {
    let pc = s.regs.pc as usize;
    if !(pc + 2 <= MEMORY_SIZE) {
        (s, Err(InterpreterError::InvalidAddressError(pc)))
    } else {
        let op = ((s.mem[pc as int] as u16) << 8u16) | (s.mem[pc as int + 1] as u16);
        match spec_decode(spec_table(), op) {
            None => (s, Err(InterpreterError::InvalidInstructionError(pc, op))),
            Some(e) => spec_execute_kind(e.kind, op, b, s),
        }
    }
}

/// Whether one machine step from `s1`, under some drawn random byte,
/// succeeds and yields `s2`.
pub open spec fn spec_ok_step(s1: MachineView, s2: MachineView) -> bool {
    exists|b: u8| #[trigger] spec_step(s1, b).0 == s2 && spec_step(s1, b).1 is Ok
}

/// Whether `s2` is reachable from `s1` by exactly `n` successful steps:
/// some run of `n + 1` states starts at `s1`, ends at `s2`, and each
/// neighbouring pair of states is one successful step.
pub open spec fn spec_reaches(s1: MachineView, s2: MachineView, n: nat) -> bool {
    exists|t: Seq<MachineView>|
        #![trigger t.len()]
        t.len() == n + 1 && t[0] == s1 && t[n as int] == s2 && (forall|j: int|
            0 <= j < n ==> spec_ok_step(t[j], #[trigger] t[j + 1]))
}

/// Every state reaches itself in zero steps.
pub proof fn lemma_reaches_refl(s: MachineView)
    ensures
        spec_reaches(s, s, 0),
{
    let t: Seq<MachineView> = seq![s];
    assert(t.len() == 0 + 1 && t[0] == s);
    assert(spec_reaches(s, s, 0));
}

/// A run of zero steps goes nowhere: reaching a state in zero steps
/// means being that state.
pub proof fn lemma_reaches_zero(s1: MachineView, s2: MachineView)
    requires
        spec_reaches(s1, s2, 0),
    ensures
        s1 == s2,
{
    let t = choose|t: Seq<MachineView>|
        #![trigger t.len()]
        t.len() == 0 + 1 && t[0] == s1 && t[0int] == s2 && (forall|j: int|
            0 <= j < 0 ==> spec_ok_step(t[j], #[trigger] t[j + 1]));
    assert(t[0] == s1);
}

/// A run of `n` successful steps followed by one more successful step
/// is a run of `n + 1`.
pub proof fn lemma_reaches_step(s1: MachineView, mid: MachineView, s2: MachineView, n: nat)
    requires
        spec_reaches(s1, mid, n),
        spec_ok_step(mid, s2),
    ensures
        spec_reaches(s1, s2, n + 1),
{
    let t = choose|t: Seq<MachineView>|
        #![trigger t.len()]
        t.len() == n + 1 && t[0] == s1 && t[n as int] == mid && (forall|j: int|
            0 <= j < n ==> spec_ok_step(t[j], #[trigger] t[j + 1]));
    let t2 = t.push(s2);
    assert(t2.len() == (n + 1) + 1);
    assert(t2[0] == s1);
    assert(t2[(n + 1) as int] == s2);
    assert forall|j: int| 0 <= j < n + 1 implies spec_ok_step(t2[j], #[trigger] t2[j + 1]) by {
        if j < n {
            assert(t2[j] == t[j]);
            assert(t2[j + 1] == t[j + 1]);
            assert(spec_ok_step(t[j], t[j + 1]));
        } else {
            assert(t2[j] == t[n as int]);
            assert(t2[j + 1] == s2);
        }
    }
    assert(spec_reaches(s1, s2, n + 1));
}

/// A step never stacks a return address too large to resume after.
proof fn lemma_step_stack_ok(s: MachineView, b: u8)
    requires
        s.regs.stack_ok(),
    ensures
        spec_step(s, b).0.regs.stack_ok(),
{
    let pc = s.regs.pc as usize;
    if pc + 2 <= MEMORY_SIZE {
        let op = ((s.mem[pc as int] as u16) << 8u16) | (s.mem[pc as int + 1] as u16);
        match spec_decode(spec_table(), op) {
            None => {},
            Some(e) => {
                reveal(spec_execute_kind);
                let r2 = spec_execute_kind(e.kind, op, b, s).0.regs;
                assert forall|k: int| 0 <= k < r2.stack.len() implies #[trigger] r2.stack[k] + 2
                    <= u16::MAX by {
                    if k < s.regs.stack.len() {
                        assert(s.regs.stack[k] + 2 <= u16::MAX);
                    }
                }
            },
        }
    }
}

impl InstructionSet {
    /// Performs one fetch-decode-execute cycle against the machine
    /// state, drawing one byte from the random source.  The new state
    /// and result are exactly one machine step for some drawn byte.
    pub fn execute(
        &self,
        mem: &mut Memory,
        registers: &mut Registers,
        frame_buffer: &mut FrameBuffer,
        rng: &mut rand::rngs::StdRng,
    ) -> (r: Result<(), InterpreterError>)
        requires
            self.wf(),
            old(mem).wf(),
            old(registers).wf(),
            old(registers)@.stack_ok(),
            old(frame_buffer).wf(),
        ensures
            final(mem).wf(),
            final(registers).wf(),
            final(registers)@.stack_ok(),
            final(frame_buffer).wf(),
            exists|b: u8|
                #[trigger] spec_step(
                    MachineView {
                        mem: old(mem)@,
                        regs: old(registers)@,
                        fb: old(frame_buffer)@,
                    },
                    b,
                ).0 == (MachineView {
                    mem: final(mem)@,
                    regs: final(registers)@,
                    fb: final(frame_buffer)@,
                }) && spec_step(
                    MachineView {
                        mem: old(mem)@,
                        regs: old(registers)@,
                        fb: old(frame_buffer)@,
                    },
                    b,
                ).1 == r,
            r is Ok ==> spec_ok_step(
                MachineView { mem: old(mem)@, regs: old(registers)@, fb: old(frame_buffer)@ },
                MachineView {
                    mem: final(mem)@,
                    regs: final(registers)@,
                    fb: final(frame_buffer)@,
                },
            ),
    {
        let ghost s0 = MachineView { mem: mem@, regs: registers@, fb: frame_buffer@ };
        let ghost mut bw: u8 = 0;
        let pc = registers.pc as usize;

        let opcode = {
            let opbytes = match mem.read(pc, 2) {
                Ok(bytes) => bytes,
                Err(e) => {
                    proof {
                        assert(spec_step(s0, 0u8).0 == s0);
                        assert(spec_step(s0, 0u8).1 == Err::<(), InterpreterError>(e));
                    }
                    return Err(e);
                },
            };
            ((opbytes[0] as u16) << 8u16) | (opbytes[1] as u16)
        };

        let instr = match self.disassemble(opcode) {
            Some(instr) => instr,
            None => {
                proof {
                    assert(spec_step(s0, 0u8).0 == s0);
                    assert(spec_step(s0, 0u8).1 == Err::<(), InterpreterError>(
                        InterpreterError::InvalidInstructionError(pc, opcode),
                    ));
                }
                return Err(InterpreterError::InvalidInstructionError(pc, opcode));
            },
        };
        let kind = instr.kind;

        let res = match kind {
            InstructionKind::SysAddr => sys_addr(registers),
            InstructionKind::Cls => cls(registers, frame_buffer),
            InstructionKind::Ret => ret(registers),
            InstructionKind::JpAddr => jp_addr(opcode, registers),
            InstructionKind::CallAddr => call_addr(opcode, registers),
            InstructionKind::SeVxByte => se_vx_byte(opcode, registers),
            InstructionKind::SneVxByte => sne_vx_byte(opcode, registers),
            InstructionKind::SeVxVy => se_vx_vy(opcode, registers),
            InstructionKind::LdVxByte => ld_vx_byte(opcode, registers),
            InstructionKind::AddVxByte => add_vx_byte(opcode, registers),
            InstructionKind::LdVxVy => ld_vx_vy(opcode, registers),
            InstructionKind::OrVxVy => or_vx_vy(opcode, registers),
            InstructionKind::AndVxVy => and_vx_vy(opcode, registers),
            InstructionKind::XorVxVy => xor_vx_vy(opcode, registers),
            InstructionKind::AddVxVy => add_vx_vy(opcode, registers),
            InstructionKind::SubVxVy => sub_vx_vy(opcode, registers),
            InstructionKind::ShrVx => shr_vx(opcode, registers),
            InstructionKind::SubnVxVy => subn_vx_vy(opcode, registers),
            InstructionKind::ShlVx => shl_vx(opcode, registers),
            InstructionKind::SneVxVy => sne_vx_vy(opcode, registers),
            InstructionKind::LdIAddr => ld_i_addr(opcode, registers),
            InstructionKind::JpV0Addr => jp_v0_addr(opcode, registers),
            InstructionKind::RndVxByte => {
                let byte = random_byte(rng);
                proof {
                    bw = byte;
                }
                rnd_vx_vyte(opcode, byte, registers)
            },
            InstructionKind::DrwVxVyNibble => drw_vx_vy_nibble(
                opcode,
                mem,
                registers,
                frame_buffer,
            ),
            InstructionKind::SkpVx => skp_vx(opcode, registers),
            InstructionKind::SknpVx => sknp_vx(opcode, registers),
            InstructionKind::LdVxDt => ld_vx_dt(opcode, registers),
            InstructionKind::LdVxK => ld_vx_k(opcode, registers),
            InstructionKind::LdDtVx => ld_dt_vx(opcode, registers),
            InstructionKind::LdStVx => ld_st_vx(opcode, registers),
            InstructionKind::AddIVx => add_i_vx(opcode, registers),
            InstructionKind::LdFVx => ld_f_vx(opcode, registers),
            InstructionKind::LdBVx => ld_b_vx(opcode, mem, registers),
            InstructionKind::LdArrIVx => ld_arr_i_vx(opcode, mem, registers),
            InstructionKind::LdArrVxI => ld_arr_vx_i(opcode, mem, registers),
        };
        proof {
            reveal(spec_execute_kind);
            let s1 = MachineView { mem: mem@, regs: registers@, fb: frame_buffer@ };
            assert(s1 =~= spec_step(s0, bw).0);
            assert(res == spec_step(s0, bw).1);
            lemma_step_stack_ok(s0, bw);
            if res is Ok {
                assert(spec_step(s0, bw).1 is Ok);
                assert(spec_ok_step(s0, s1));
            }
        }
        res
    }
}

} // verus!
