//! The orchestrator: owns one instance of memory, registers, frame
//! buffer and instruction table, loads program images, converts elapsed
//! time into an instruction budget, and drives the cycle.

use vstd::prelude::*;

use crate::error::InterpreterError;
use crate::frame_buffer::{spec_cleared, FrameBuffer};
use crate::instructions::{
    lemma_reaches_refl, lemma_reaches_step, spec_ok_step, spec_reaches, spec_step, InstructionSet,
    MachineView,
};
use crate::memory::{spec_fresh_memory, spec_write, Memory, MEMORY_SIZE, ROM_OFFSET};
use crate::random::new_rng;
use crate::registers::{spec_default_regs, spec_ticked, Registers, RegistersView};

verus! {

/// Fixed execution rate: how many instructions one elapsed second is
/// worth.
pub const INSTRUCTIONS_PER_SECOND: u64 = 700;

/// How many instructions `micros` elapsed microseconds are worth at the
/// fixed rate, rounded down.
pub open spec fn spec_instructions_due(micros: u64) -> int {
    micros * INSTRUCTIONS_PER_SECOND / 1_000_000
}

/// The machine: the whole core behind one façade.  The external
/// collaborator loads a program, delivers key events, drives ticks, and
/// pulls the frame for rendering.
pub struct Chip8 {
    memory: Memory,
    registers: Registers,
    frame_buffer: FrameBuffer,
    instructions: InstructionSet,
    rom: Option<Vec<u8>>,
    rng: rand::rngs::StdRng,
}

impl View for Chip8 {
    type V = MachineView;

    closed spec fn view(&self) -> MachineView {
        MachineView { mem: self.memory@, regs: self.registers@, fb: self.frame_buffer@ }
    }
}

impl Chip8 {
    /// All parts well-formed and the opcode table in its priority order.
    pub closed spec fn wf(&self) -> bool {
        &&& self.memory.wf()
        &&& self.registers.wf()
        &&& self.registers@.stack_ok()
        &&& self.frame_buffer.wf()
        &&& self.instructions.wf()
    }

    /// A fresh machine, its random source seeded for reproducible runs:
    /// glyphs in memory, program counter at `0x200`, screen clear.
    pub fn new(seed: u64) -> (c: Chip8)
        ensures
            c.wf(),
            c@ == (MachineView {
                mem: spec_fresh_memory(),
                regs: spec_default_regs(),
                fb: spec_cleared(),
            }),
    {
        Chip8 {
            memory: Memory::default(),
            registers: Registers::default(),
            frame_buffer: FrameBuffer::default(),
            instructions: InstructionSet::default(),
            rom: None,
            rng: new_rng(seed),
        }
    }

    /// Loads a program image at the program offset and resets the
    /// register file and the frame buffer for a fresh run.  An image too
    /// large for memory is the address error, and changes nothing.
    pub fn load_rom(&mut self, rom: &[u8]) -> (r: Result<(), InterpreterError>)
        requires
            old(self).wf(),
            ROM_OFFSET + rom@.len() <= usize::MAX,
        ensures
            final(self).wf(),
            r is Ok <==> ROM_OFFSET + rom@.len() <= MEMORY_SIZE,
            r is Ok ==> final(self)@ == (MachineView {
                mem: spec_write(old(self)@.mem, ROM_OFFSET, rom@).0,
                regs: spec_default_regs(),
                fb: spec_cleared(),
            }),
            r is Err ==> final(self)@ == old(self)@ && r == Err::<(), InterpreterError>(
                InterpreterError::InvalidAddressError(ROM_OFFSET),
            ),
    {
        self.memory.load_rom(rom)?;
        self.registers = Registers::default();
        self.frame_buffer.clear();
        self.rom = Some(vstd::slice::slice_to_vec(rom));
        Ok(())
    }

    /// Executes the instruction budget that `elapsed_micros` of wall
    /// time is worth, stopping at the first error.  On success the
    /// machine has taken exactly that many steps; on an error it has
    /// taken some smaller number of successful steps and then the
    /// failing one, whose state it keeps.
    #[verifier::rlimit(60)]
    pub fn update(&mut self, elapsed_micros: u64) -> (r: Result<(), InterpreterError>)
        requires
            old(self).wf(),
            spec_instructions_due(elapsed_micros) <= usize::MAX,
        ensures
            final(self).wf(),
            r is Ok ==> spec_reaches(
                old(self)@,
                final(self)@,
                spec_instructions_due(elapsed_micros) as nat,
            ),
            r is Err ==> exists|mid: MachineView, n: nat, b: u8|
                #![trigger spec_reaches(old(self)@, mid, n), spec_step(mid, b)]
                n < spec_instructions_due(elapsed_micros) && spec_reaches(old(self)@, mid, n)
                    && spec_step(mid, b).0 == final(self)@ && spec_step(mid, b).1 == r,
    {
        let due128: u128 = elapsed_micros as u128 * (INSTRUCTIONS_PER_SECOND as u128) / 1_000_000;
        let due: usize = due128 as usize;
        proof {
            assert(due == spec_instructions_due(elapsed_micros));
        }
        let ghost s_start = self@;
        proof {
            lemma_reaches_refl(s_start);
        }
        let mut done: usize = 0;
        while done < due
            invariant
                self.wf(),
                done <= due,
                due == spec_instructions_due(elapsed_micros),
                s_start == old(self)@,
                spec_reaches(s_start, self@, done as nat),
            decreases due - done,
        {
            let ghost s_before = self@;
            match self.instructions.execute(
                &mut self.memory,
                &mut self.registers,
                &mut self.frame_buffer,
                &mut self.rng,
            ) {
                Ok(()) => {
                    proof {
                        assert(spec_ok_step(s_before, self@));
                        lemma_reaches_step(s_start, s_before, self@, done as nat);
                    }
                },
                Err(e) => {
                    proof {
                        let b = choose|b: u8|
                            #[trigger] spec_step(s_before, b).0 == self@ && spec_step(
                                s_before,
                                b,
                            ).1 == Err::<(), InterpreterError>(e);
                        assert(spec_reaches(s_start, s_before, done as nat));
                        assert(spec_step(s_before, b).0 == self@ && spec_step(s_before, b).1
                            == Err::<(), InterpreterError>(e));
                    }
                    return Err(e);
                },
            }
            done = done + 1;
        }
        Ok(())
    }

    /// Decrements each countdown timer that is above zero by one.  The
    /// external collaborator calls this once per rendered frame; timer
    /// decay is independent of the instruction rate.
    pub fn tick_timers(&mut self)
        requires
            old(self).wf(),
        ensures
            final(self).wf(),
            final(self)@ == (MachineView {
                regs: RegistersView {
                    delay_timer: spec_ticked(old(self)@.regs.delay_timer),
                    sound_timer: spec_ticked(old(self)@.regs.sound_timer),
                    ..old(self)@.regs
                },
                ..old(self)@
            }),
    {
        self.registers.tick_timers();
    }

    /// The current frame buffer, read-only, for rendering.
    pub fn frame(&self) -> (r: &[u8])
        ensures
            r@ == self@.fb,
    {
        self.frame_buffer.frame()
    }

    /// Marks logical key `key` as held down.
    pub fn keydown(&mut self, key: usize)
        requires
            old(self).wf(),
            key < 16,
        ensures
            final(self).wf(),
            final(self)@ == (MachineView {
                regs: RegistersView {
                    keys: old(self)@.regs.keys.update(key as int, true),
                    ..old(self)@.regs
                },
                ..old(self)@
            }),
    {
        self.registers.keys[key] = true;
    }

    /// Marks logical key `key` as released.
    pub fn keyup(&mut self, key: usize)
        requires
            old(self).wf(),
            key < 16,
        ensures
            final(self).wf(),
            final(self)@ == (MachineView {
                regs: RegistersView {
                    keys: old(self)@.regs.keys.update(key as int, false),
                    ..old(self)@.regs
                },
                ..old(self)@
            }),
    {
        self.registers.keys[key] = false;
    }

    /// Puts the whole machine back in its fresh state: memory re-seeded
    /// with the glyphs, registers and frame buffer cleared, no program.
    pub fn reset(&mut self)
        requires
            old(self).wf(),
        ensures
            final(self).wf(),
            final(self)@ == (MachineView {
                mem: spec_fresh_memory(),
                regs: spec_default_regs(),
                fb: spec_cleared(),
            }),
    {
        self.memory.reset();
        self.registers = Registers::default();
        self.frame_buffer.clear();
        self.rom = None;
    }
}

impl Default for Chip8 {
    /// A fresh machine with a fixed random seed.
    fn default() -> (c: Chip8)
        ensures
            c.wf(),
            c@ == (MachineView {
                mem: spec_fresh_memory(),
                regs: spec_default_regs(),
                fb: spec_cleared(),
            }),
    {
        Chip8::new(0)
    }
}

} // verus!
