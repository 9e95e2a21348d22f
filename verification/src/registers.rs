//! The register file: program counter, index register, the sixteen
//! general-purpose registers, the bounded call stack, the key-down set,
//! and the two countdown timers.

use vstd::prelude::*;

use crate::error::InterpreterError;

verus! {

/// Upper bound on the call-stack depth.
pub const MAX_STACK: usize = 16;

/// The sixteen logical keys of the machine's keypad, in the order the
/// reference keyboard layout assigns them to key indices 0-15.
#[derive(Clone, Copy, Debug, PartialEq, Eq, Structural)]
pub enum Chip8Key {
    X,
    ONE,
    TWO,
    THREE,
    Q,
    W,
    E,
    A,
    S,
    D,
    Z,
    C,
    FOUR,
    R,
    F,
    V,
}

/// The mathematical value of a register file.
#[verifier::ext_equal]
pub ghost struct RegistersView {
    pub pc: u16,
    pub i: u16,
    pub stack: Seq<u16>,
    pub v: Seq<u8>,
    pub keys: Seq<bool>,
    pub delay_timer: u8,
    pub sound_timer: u8,
}

impl RegistersView {
    /// Sixteen general registers, sixteen key slots, at most sixteen
    /// stacked return addresses.
    pub open spec fn wf(self) -> bool {
        &&& self.v.len() == 16
        &&& self.keys.len() == 16
        &&& self.stack.len() <= MAX_STACK
    }

    /// Every stacked return address leaves room to advance past the call
    /// site without leaving the 16-bit range.
    pub open spec fn stack_ok(self) -> bool {
        forall|k: int| 0 <= k < self.stack.len() ==> #[trigger] self.stack[k] + 2 <= u16::MAX
    }
}

/// The register file of a machine that was just constructed or reset.
pub open spec fn spec_default_regs() -> RegistersView {
    RegistersView {
        pc: 512,
        i: 0,
        stack: Seq::empty(),
        v: Seq::new(16, |k: int| 0u8),
        keys: Seq::new(16, |k: int| false),
        delay_timer: 0,
        sound_timer: 0,
    }
}

/// Register file and result after pushing a return address: appended when
/// the stack has room, unchanged with the overflow error at depth 16.
pub open spec fn spec_push(r: RegistersView, addr: u16) -> (RegistersView, Result<
    (),
    InterpreterError,
>) {
    if r.stack.len() < MAX_STACK {
        (RegistersView { stack: r.stack.push(addr), ..r }, Ok(()))
    } else {
        (r, Err(InterpreterError::StackOverflow))
    }
}

/// Register file and result after popping: the top removed and returned,
/// or unchanged with the underflow error when the stack is empty.
pub open spec fn spec_pop(r: RegistersView) -> (RegistersView, Result<u16, InterpreterError>) {
    if r.stack.len() > 0 {
        (RegistersView { stack: r.stack.drop_last(), ..r }, Ok(r.stack.last()))
    } else {
        (r, Err(InterpreterError::StackUnderflow))
    }
}

/// What reading general register `index` returns.
pub open spec fn spec_get_v(r: RegistersView, index: usize) -> Result<u8, InterpreterError> {
    if index > 15 {
        Err(InterpreterError::InvalidRegister(index))
    } else {
        Ok(r.v[index as int])
    }
}

/// Register file and result after writing general register `index`.
pub open spec fn spec_set_v(r: RegistersView, index: usize, value: u8) -> (RegistersView, Result<
    (),
    InterpreterError,
>) {
    if index > 15 {
        (r, Err(InterpreterError::InvalidRegister(index)))
    } else {
        (RegistersView { v: r.v.update(index as int, value), ..r }, Ok(()))
    }
}

/// What testing key `index` returns.
pub open spec fn spec_keydown(r: RegistersView, index: usize) -> Result<bool, InterpreterError> {
    if index > 15 {
        Err(InterpreterError::InvalidKey(index))
    } else {
        Ok(r.keys[index as int])
    }
}

/// The lowest-indexed pressed key at or above slot `i`, if any.
pub open spec fn spec_first_keydown_from(keys: Seq<bool>, i: int) -> Option<usize>
    decreases 16 - i,
{
    if i < 0 || i >= 16 {
        None
    } else if keys[i] {
        Some(i as usize)
    } else {
        spec_first_keydown_from(keys, i + 1)
    }
}

/// The lowest-indexed pressed key, if any key is down.
pub open spec fn spec_first_keydown(keys: Seq<bool>) -> Option<usize> {
    spec_first_keydown_from(keys, 0)
}

/// The full machine state apart from memory and frame buffer.
pub struct Registers {
    pub pc: u16,
    pub i: u16,
    pub stack: Vec<u16>,
    pub v: Vec<u8>,
    pub keys: Vec<bool>,
    pub delay_timer: u8,
    pub sound_timer: u8,
}

impl View for Registers {
    type V = RegistersView;

    open spec fn view(&self) -> RegistersView {
        RegistersView {
            pc: self.pc,
            i: self.i,
            stack: self.stack@,
            v: self.v@,
            keys: self.keys@,
            delay_timer: self.delay_timer,
            sound_timer: self.sound_timer,
        }
    }
}

impl Registers {
    /// See [`RegistersView::wf`].
    pub open spec fn wf(&self) -> bool {
        self@.wf()
    }

    /// Pushes a return address, failing with `StackOverflow` at depth 16.
    pub fn push(&mut self, addr: u16) -> (r: Result<(), InterpreterError>)
        requires
            old(self).wf(),
        ensures
            final(self).wf(),
            (final(self)@, r) == spec_push(old(self)@, addr),
    {
        if self.stack.len() < MAX_STACK {
            self.stack.push(addr);
            Ok(())
        } else {
            Err(InterpreterError::StackOverflow)
        }
    }

    /// Removes and returns the top of the call stack, failing with
    /// `StackUnderflow` when the stack is empty.
    pub fn pop(&mut self) -> (r: Result<u16, InterpreterError>)
        requires
            old(self).wf(),
        ensures
            final(self).wf(),
            (final(self)@, r) == spec_pop(old(self)@),
    {
        match self.stack.pop() {
            Some(addr) => Ok(addr),
            None => Err(InterpreterError::StackUnderflow),
        }
    }

    /// Reads general register `index`, failing above register 15.
    pub fn get_v(&self, index: usize) -> (r: Result<u8, InterpreterError>)
        requires
            self.wf(),
        ensures
            r == spec_get_v(self@, index),
    {
        if index > 15 {
            Err(InterpreterError::InvalidRegister(index))
        } else {
            Ok(self.v[index])
        }
    }

    /// Writes general register `index`, failing above register 15.
    pub fn set_v(&mut self, index: usize, value: u8) -> (r: Result<(), InterpreterError>)
        requires
            old(self).wf(),
        ensures
            final(self).wf(),
            (final(self)@, r) == spec_set_v(old(self)@, index, value),
    {
        if index > 15 {
            Err(InterpreterError::InvalidRegister(index))
        } else {
            self.v[index] = value;
            Ok(())
        }
    }

    /// Reads the flag register VF.
    pub fn get_vf(&self) -> (r: u8)
        requires
            self.wf(),
        ensures
            r == self@.v[15],
    {
        self.v[15]
    }

    /// Writes the flag register VF directly, without a bounds check.
    pub fn set_vf(&mut self, value: u8)
        requires
            old(self).wf(),
        ensures
            final(self).wf(),
            final(self)@ == (RegistersView { v: old(self)@.v.update(15, value), ..old(self)@ }),
    {
        self.v[15] = value;
    }

    /// Reads the delay timer.
    pub fn get_dt(&self) -> (r: u8)
        ensures
            r == self@.delay_timer,
    {
        self.delay_timer
    }

    /// Writes the delay timer.
    pub fn set_dt(&mut self, value: u8)
        ensures
            final(self)@ == (RegistersView { delay_timer: value, ..old(self)@ }),
    {
        self.delay_timer = value;
    }

    /// Reads the sound timer.
    pub fn get_st(&self) -> (r: u8)
        ensures
            r == self@.sound_timer,
    {
        self.sound_timer
    }

    /// Writes the sound timer.
    pub fn set_st(&mut self, value: u8)
        ensures
            final(self)@ == (RegistersView { sound_timer: value, ..old(self)@ }),
    {
        self.sound_timer = value;
    }

    /// Tests whether key `index` is down, failing above key 15.
    pub fn keydown(&self, index: usize) -> (r: Result<bool, InterpreterError>)
        requires
            self.wf(),
        ensures
            r == spec_keydown(self@, index),
    {
        if index > 15 {
            Err(InterpreterError::InvalidKey(index))
        } else {
            Ok(self.keys[index])
        }
    }

    /// The lowest-indexed pressed key, or `None` when no key is down.
    pub fn first_keydown(&self) -> (r: Option<usize>)
        requires
            self.wf(),
        ensures
            r == spec_first_keydown(self@.keys),
    {
        let mut idx: usize = 0;
        while idx < 16
            invariant
                self.wf(),
                idx <= 16,
                forall|j: int| 0 <= j < idx ==> !self@.keys[j],
            decreases 16 - idx,
        {
            if self.keys[idx] {
                proof {
                    lemma_first_keydown_skip(self@.keys, idx as int);
                }
                return Some(idx);
            }
            idx += 1;
        }
        proof {
            lemma_first_keydown_skip(self@.keys, 16);
        }
        None
    }

    /// Decrements each timer that is above zero by one.
    pub fn tick_timers(&mut self)
        ensures
            final(self)@ == (RegistersView {
                delay_timer: spec_ticked(old(self)@.delay_timer),
                sound_timer: spec_ticked(old(self)@.sound_timer),
                ..old(self)@
            }),
    {
        if self.delay_timer > 0 {
            self.delay_timer = self.delay_timer - 1;
        }
        if self.sound_timer > 0 {
            self.sound_timer = self.sound_timer - 1;
        }
    }
}

/// A timer value after one frame: one less, stopping at zero.
pub open spec fn spec_ticked(t: u8) -> u8 {
    if t > 0 {
        (t - 1) as u8
    } else {
        0
    }
}

impl Default for Registers {
    /// A fresh register file: program counter at the program offset
    /// `0x200`, everything else zeroed.
    fn default() -> (r: Registers)
        ensures
            r.wf(),
            r@ == spec_default_regs(),
            r@.stack_ok(),
    {
        let r = Registers {
            pc: 512,
            i: 0,
            stack: Vec::new(),
            v: vec![0u8; 16],
            keys: vec![false; 16],
            delay_timer: 0,
            sound_timer: 0,
        };
        proof {
            assert(r@.v =~= spec_default_regs().v);
            assert(r@.keys =~= spec_default_regs().keys);
            assert(r@ =~= spec_default_regs());
        }
        r
    }
}

/// If no key below slot `i` is down, the search for the lowest pressed
/// key may as well start at slot `i`.
proof fn lemma_first_keydown_skip(keys: Seq<bool>, i: int)
    requires
        0 <= i <= 16,
        forall|j: int| 0 <= j < i ==> !keys[j],
    ensures
        spec_first_keydown(keys) == spec_first_keydown_from(keys, i),
    decreases i,
{
    if i > 0 {
        lemma_first_keydown_skip(keys, i - 1);
    }
}

/// The call stack is last-in first-out: while there is room to push,
/// popping right after pushing returns the pushed address and restores
/// the register file exactly.
pub proof fn lemma_stack_lifo(r: RegistersView, addr: u16)
    requires
        r.wf(),
        r.stack.len() < MAX_STACK,
    ensures
        spec_push(r, addr).1 == Ok::<(), InterpreterError>(()),
        spec_pop(spec_push(r, addr).0).1 == Ok::<u16, InterpreterError>(addr),
        spec_pop(spec_push(r, addr).0).0 == r,
{
    let pushed = spec_push(r, addr).0;
    assert(pushed.stack.drop_last() =~= r.stack);
    assert(spec_pop(pushed).0 =~= r);
}

/// Pushing fails exactly at depth 16 and popping fails exactly on an
/// empty stack; neither changes the register file when it fails.
pub proof fn lemma_stack_bounds(r: RegistersView, addr: u16)
    ensures
        r.stack.len() >= MAX_STACK ==> spec_push(r, addr) == (r, Err::<(), InterpreterError>(
            InterpreterError::StackOverflow,
        )),
        r.stack.len() == 0 ==> spec_pop(r) == (r, Err::<u16, InterpreterError>(
            InterpreterError::StackUnderflow,
        )),
{
}

} // verus!
