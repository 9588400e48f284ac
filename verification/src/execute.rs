//! The fetch-decode-execute step and what it means.

use crate::display::{
    any_lit, blank, clear, draw_changes, draw_collides, draw_sprite, drawn, lemma_draw_changes,
    sprite_rows,
};
use crate::instruction::{decode, decode_spec, Instruction};
use crate::key_event::KeyEvent;
use crate::machine::{Machine, State, MEMORY_SIZE};
use rand::Rng;
use vstd::prelude::*;

verus! {

/// Why an instruction could not be executed. None of these can be recovered
/// from: the program image is malformed.
#[derive(Clone, Copy, Debug, PartialEq, Eq)]
pub enum Fault {
    /// The word at the program counter encodes no instruction. Holds the word.
    UnknownOpcode(u16),
    /// An access would reach beyond the end of memory. Holds the first
    /// address of the access that lies outside.
    MemoryOutOfRange(usize),
    /// A call found the stack full, or a return found it empty. Holds the
    /// stack pointer.
    StackOutOfRange(u16),
    /// A key was named that the keypad does not have. Holds its number.
    KeyOutOfRange(u8),
    /// The sprite of a digit was asked for that is no hexadecimal digit.
    /// Holds the digit.
    DigitOutOfRange(u8),
}

/// What the caller has to do after an instruction was executed.
#[derive(Clone, Copy, Debug, PartialEq, Eq)]
pub enum Action {
    /// Nothing.
    Continue,
    /// The framebuffer has changed: show it.
    Redraw,
    /// The instruction waits for a key to go down and no key is down. Hand
    /// every key event that arrives to `key_wait`, with this register,
    /// until it answers otherwise.
    AwaitKey(usize),
}

/// The outcome of a step: the state it leaves and what it returns.
pub struct Step {
    pub state: State,
    pub result: Result<Action, Fault>,
}

/// A step that went through and asks nothing of the caller.
pub open spec fn done(state: State) -> Step {
    Step { state, result: Ok(Action::Continue) }
}

/// A step that failed and left the state as it was.
pub open spec fn failed(state: State, fault: Fault) -> Step {
    Step { state, result: Err(fault) }
}

/// An access to `len` bytes from `start` reaches beyond the end of memory.
pub open spec fn outside_memory(start: int, len: int) -> bool {
    len > 0 && start + len > 4096
}

/// The first address outside memory of an access that starts at `start`.
pub open spec fn first_outside(start: int) -> usize {
    if start >= 4096 {
        start as usize
    } else {
        4096
    }
}

/// The instruction word at `pc`: two bytes, the high byte first.
pub open spec fn opcode_at(memory: Seq<u8>, pc: int) -> u16 {
    (memory[pc] as int * 256 + memory[pc + 1] as int) as u16
}

/// The lowest numbered key at or above `from` that is down.
pub open spec fn lowest_held(keys: Seq<bool>, from: int) -> Option<u8>
    decreases keys.len() - from,
{
    if from < 0 || from >= keys.len() {
        None
    } else if keys[from] {
        Some(from as u8)
    } else {
        lowest_held(keys, from + 1)
    }
}

/// The three decimal digits of a byte: hundreds, tens, ones.
pub open spec fn bcd(value: u8) -> Seq<u8> {
    seq![value / 100, (value / 10) % 10, value % 10]
}

/// As a flag register holds it: 1 for true, 0 for false.
pub open spec fn flag(b: bool) -> u8 {
    if b {
        1
    } else {
        0
    }
}

impl State {
    /// This state with register `x` set to `value`.
    pub open spec fn with_v(self, x: int, value: u8) -> State {
        State { v: self.v.update(x, value), ..self }
    }

    /// This state with the program counter moved past the next instruction
    /// if `condition` holds.
    pub open spec fn skip_if(self, condition: bool) -> State {
        if condition {
            State { pc: (self.pc + 2) as u16, ..self }
        } else {
            self
        }
    }

    /// This state with key `event.key` down or up as the event says.
    pub open spec fn key_changed(self, event: KeyEvent) -> State {
        State { keys: self.keys.update(event.key as int, event.pressed), ..self }
    }

    /// This state with registers `V0..=Vx` copied to memory from address `I`.
    pub open spec fn registers_stored(self, x: int) -> State {
        State {
            memory: Seq::new(
                4096,
                |a: int|
                    if self.i <= a <= self.i + x {
                        self.v[a - self.i]
                    } else {
                        self.memory[a]
                    },
            ),
            ..self
        }
    }

    /// This state with registers `V0..=Vx` read from memory from address `I`.
    pub open spec fn registers_loaded(self, x: int) -> State {
        State {
            v: Seq::new(
                16,
                |k: int|
                    if k <= x {
                        self.memory[self.i + k]
                    } else {
                        self.v[k]
                    },
            ),
            ..self
        }
    }

    /// This state with the decimal digits of `value` at `I`, `I+1`, `I+2`.
    pub open spec fn bcd_stored(self, value: u8) -> State {
        State {
            memory: self.memory.update(self.i as int, bcd(value)[0]).update(
                self.i + 1,
                bcd(value)[1],
            ).update(self.i + 2, bcd(value)[2]),
            ..self
        }
    }
}

/// The effect of one decoded instruction on a state whose program counter
/// already points past it. `random` is the byte that `Rnd` masks; no other
/// instruction looks at it.
///
/// An instruction that fails leaves the state as it found it.
///
/// Where an instruction writes the flag register `VF` and `Vx`, the writes
/// happen in the order given here, and the later one reads what the earlier
/// one wrote: `AddReg` writes the sum and then the carry; `Sub`, `Subn`,
/// `Shr` and `Shl` write the flag and then compute the result.
///
/// `And` computes the same union of bits as `Or`.
///
/// `AddI` wraps at 16 bits and never fails; an address beyond memory fails
/// only when it is used.
pub open spec fn perform_spec(s: State, ins: Instruction, random: u8) -> Step {
    match ins {
        Instruction::Cls => Step {
            state: State { display: blank(), ..s },
            result: Ok(
                if any_lit(s.display) {
                    Action::Redraw
                } else {
                    Action::Continue
                },
            ),
        },
        Instruction::Ret => if 1 <= s.sp < 16 {
            done(State { pc: s.stack[s.sp as int], sp: (s.sp - 1) as u16, ..s })
        } else {
            failed(s, Fault::StackOutOfRange(s.sp))
        },
        Instruction::Jp { addr } => done(State { pc: addr, ..s }),
        Instruction::Call { addr } => if s.sp < 15 {
            done(
                State {
                    sp: (s.sp + 1) as u16,
                    stack: s.stack.update(s.sp + 1, s.pc),
                    pc: addr,
                    ..s
                },
            )
        } else {
            failed(s, Fault::StackOutOfRange(s.sp))
        },
        Instruction::SeByte { x, kk } => done(s.skip_if(s.v[x as int] == kk)),
        Instruction::SneByte { x, kk } => done(s.skip_if(s.v[x as int] != kk)),
        Instruction::SeReg { x, y } => done(s.skip_if(s.v[x as int] == s.v[y as int])),
        Instruction::LdByte { x, kk } => done(s.with_v(x as int, kk)),
        Instruction::AddByte { x, kk } => done(
            s.with_v(x as int, ((s.v[x as int] + kk) % 256) as u8),
        ),
        Instruction::LdReg { x, y } => done(s.with_v(x as int, s.v[y as int])),
        Instruction::Or { x, y } => done(s.with_v(x as int, s.v[x as int] | s.v[y as int])),
        Instruction::And { x, y } => done(s.with_v(x as int, s.v[x as int] | s.v[y as int])),
        Instruction::Xor { x, y } => done(s.with_v(x as int, s.v[x as int] ^ s.v[y as int])),
        Instruction::AddReg { x, y } => {
            let sum = s.v[x as int] + s.v[y as int];
            done(s.with_v(x as int, (sum % 256) as u8).with_v(0xF, flag(sum > 255)))
        },
        Instruction::Sub { x, y } => {
            let f = s.with_v(0xF, flag(s.v[x as int] > s.v[y as int]));
            done(f.with_v(x as int, ((f.v[x as int] - f.v[y as int]) % 256) as u8))
        },
        Instruction::Shr { x } => {
            let f = s.with_v(0xF, flag(s.v[x as int] % 2 == 1));
            done(f.with_v(x as int, f.v[x as int] / 2))
        },
        Instruction::Subn { x, y } => {
            let f = s.with_v(0xF, flag(s.v[y as int] > s.v[x as int]));
            done(f.with_v(x as int, ((f.v[y as int] - f.v[x as int]) % 256) as u8))
        },
        Instruction::Shl { x } => {
            let f = s.with_v(0xF, flag(s.v[x as int] >= 128));
            done(f.with_v(x as int, ((f.v[x as int] * 2) % 256) as u8))
        },
        Instruction::SneReg { x, y } => done(s.skip_if(s.v[x as int] != s.v[y as int])),
        Instruction::LdI { addr } => done(State { i: addr, ..s }),
        Instruction::JpV0 { addr } => done(State { pc: (addr + s.v[0]) as u16, ..s }),
        Instruction::Rnd { x, kk } => done(s.with_v(x as int, random & kk)),
        Instruction::Drw { x, y, n } => {
            let rows = sprite_rows(s.memory, s.i as int, n as int);
            let vx = s.v[x as int] as int;
            let vy = s.v[y as int] as int;
            if outside_memory(s.i as int, n as int) {
                failed(s, Fault::MemoryOutOfRange(first_outside(s.i as int)))
            } else {
                Step {
                    state: State { display: drawn(s.display, rows, vx, vy), ..s }.with_v(
                        0xF,
                        flag(draw_collides(s.display, rows, vx, vy)),
                    ),
                    result: Ok(
                        if draw_changes(s.display, rows, vx, vy) {
                            Action::Redraw
                        } else {
                            Action::Continue
                        },
                    ),
                }
            }
        },
        Instruction::Skp { x } => if s.v[x as int] < 16 {
            done(s.skip_if(s.keys[s.v[x as int] as int]))
        } else {
            failed(s, Fault::KeyOutOfRange(s.v[x as int]))
        },
        Instruction::Sknp { x } => if s.v[x as int] < 16 {
            done(s.skip_if(!s.keys[s.v[x as int] as int]))
        } else {
            failed(s, Fault::KeyOutOfRange(s.v[x as int]))
        },
        Instruction::LdVxDt { x } => done(s.with_v(x as int, s.dt)),
        Instruction::LdVxKey { x } => match lowest_held(s.keys, 0) {
            Some(key) => done(s.with_v(x as int, key)),
            None => Step { state: s, result: Ok(Action::AwaitKey(x)) },
        },
        Instruction::LdDtVx { x } => done(State { dt: s.v[x as int], ..s }),
        Instruction::LdStVx { x } => done(State { st: s.v[x as int], ..s }),
        Instruction::AddI { x } => done(
            State { i: ((s.i + s.v[x as int]) % 0x10000) as u16, ..s },
        ),
        Instruction::LdFont { x } => if s.v[x as int] < 16 {
            done(State { i: s.sprite_digits[s.v[x as int] as int], ..s })
        } else {
            failed(s, Fault::DigitOutOfRange(s.v[x as int]))
        },
        Instruction::LdBcd { x } => if outside_memory(s.i as int, 3) {
            failed(s, Fault::MemoryOutOfRange(first_outside(s.i as int)))
        } else {
            done(s.bcd_stored(s.v[x as int]))
        },
        Instruction::StoreRegs { x } => if outside_memory(s.i as int, x + 1) {
            failed(s, Fault::MemoryOutOfRange(first_outside(s.i as int)))
        } else {
            done(s.registers_stored(x as int))
        },
        Instruction::LoadRegs { x } => if outside_memory(s.i as int, x + 1) {
            failed(s, Fault::MemoryOutOfRange(first_outside(s.i as int)))
        } else {
            done(s.registers_loaded(x as int))
        },
    }
}

/// One whole step: fetch the word at the program counter, move the program
/// counter past it, decode it and perform it.
///
/// If the word does not lie within memory the step fails and the state
/// stays. If it encodes no instruction, or the instruction fails, the step
/// fails and only the program counter has moved.
pub open spec fn step_spec(s: State, random: u8) -> Step {
    if outside_memory(s.pc as int, 2) {
        failed(s, Fault::MemoryOutOfRange(first_outside(s.pc as int)))
    } else {
        let op = opcode_at(s.memory, s.pc as int);
        let fetched = State { pc: (s.pc + 2) as u16, ..s };
        match decode_spec(op) {
            Some(ins) => perform_spec(fetched, ins, random),
            None => failed(fetched, Fault::UnknownOpcode(op)),
        }
    }
}

/// The effect of a queue of key events, the oldest first: each sets its key
/// down or up. An event for a key that the keypad does not have fails, with
/// the events before it applied.
pub open spec fn drain_spec(s: State, events: Seq<KeyEvent>) -> Step
    decreases events.len(),
{
    if events.len() == 0 {
        done(s)
    } else {
        let before = drain_spec(s, events.drop_last());
        let event = events.last();
        if before.result is Err {
            before
        } else if event.key >= 16 {
            failed(before.state, Fault::KeyOutOfRange(event.key))
        } else {
            done(before.state.key_changed(event))
        }
    }
}

/// One invocation of the dispatcher: apply the queued key events, then take
/// one step.
pub open spec fn execute_spec(s: State, events: Seq<KeyEvent>, random: u8) -> Step {
    let drained = drain_spec(s, events);
    if drained.result is Err {
        drained
    } else {
        step_spec(drained.state, random)
    }
}

/// Whether a call of the dispatcher comes to perform a `Rnd` instruction,
/// the only one that needs a random byte.
pub open spec fn draws_random(s: State, events: Seq<KeyEvent>) -> bool {
    let drained = drain_spec(s, events);
    &&& drained.result is Ok
    &&& !outside_memory(drained.state.pc as int, 2)
    &&& decode_spec(opcode_at(drained.state.memory, drained.state.pc as int)) matches Some(
        Instruction::Rnd { .. },
    )
}

/// The effect of one key event on a machine that waits for a key to store
/// in register `x`: the event is applied; a key that goes down is stored
/// and ends the wait, a key that comes up does not.
pub open spec fn key_wait_spec(s: State, x: usize, event: KeyEvent) -> Step {
    if event.key >= 16 {
        failed(s, Fault::KeyOutOfRange(event.key))
    } else if event.pressed {
        done(s.key_changed(event).with_v(x as int, event.key))
    } else {
        Step { state: s.key_changed(event), result: Ok(Action::AwaitKey(x)) }
    }
}

/// A byte from the thread's random number generator.
///
/// Calls `rand::thread_rng()` and, on the generator it returns,
/// `rand::Rng::gen_range` with the range `0u8..=255u8`. The range is not
/// empty, so `gen_range` does not panic on it; `thread_rng` panics only if
/// the operating system cannot seed the generator. Nothing is claimed of
/// the byte, and two calls may differ.
#[verifier::external_body]
fn random_byte() -> (byte: u8) {
    rand::thread_rng().gen_range(0u8..=255u8)
}

/// The lowest numbered key that is down, if any.
pub fn lowest_held_key(keys: &[bool; 16]) -> (r: Option<u8>)
    ensures
        r == lowest_held(keys@, 0),
{
    let mut k: usize = 0;
    while k < 16
        invariant
            k <= 16,
            lowest_held(keys@, 0) == lowest_held(keys@, k as int),
        decreases 16 - k,
    {
        if keys[k] {
            return Some(k as u8);
        }
        k += 1;
    }
    None
}

/// Applies one key event: the key is down or up as the event says.
pub fn process_key_event(machine: &mut Machine, key_event: &KeyEvent) -> (r: Result<(), Fault>)
    ensures
        match r {
            Ok(_) => key_event.key < 16 && final(machine)@ == old(machine)@.key_changed(
                *key_event,
            ),
            Err(fault) => key_event.key >= 16 && fault == Fault::KeyOutOfRange(key_event.key)
                && final(machine)@ == old(machine)@,
        },
{
    if key_event.key >= 16 {
        return Err(Fault::KeyOutOfRange(key_event.key));
    }
    machine.keys[key_event.key as usize] = key_event.pressed;
    Ok(())
}

/// Reads the instruction word at the program counter and moves the program
/// counter past it.
pub fn fetch(machine: &mut Machine) -> (r: Result<u16, Fault>)
    ensures
        match r {
            Ok(op) => !outside_memory(old(machine).pc as int, 2) && op == opcode_at(
                old(machine)@.memory,
                old(machine).pc as int,
            ) && final(machine)@ == (State { pc: (old(machine).pc + 2) as u16, ..old(machine)@ }),
            Err(fault) => outside_memory(old(machine).pc as int, 2) && fault
                == Fault::MemoryOutOfRange(first_outside(old(machine).pc as int))
                && final(machine)@ == old(machine)@,
        },
{
    let pc = machine.pc as usize;
    if pc >= MEMORY_SIZE {
        return Err(Fault::MemoryOutOfRange(pc));
    }
    if pc + 1 >= MEMORY_SIZE {
        return Err(Fault::MemoryOutOfRange(MEMORY_SIZE));
    }
    let high = machine.memory[pc] as u16;
    let low = machine.memory[pc + 1] as u16;
    assert((high << 8) | low == high * 256 + low) by (bit_vector)
        requires
            high < 256,
            low < 256,
    ;
    let op = (high << 8) | low;
    machine.pc += 2u16;
    Ok(op)
}

/// Copies registers `V0..=Vx` to memory from address `I`.
fn store_registers(machine: &mut Machine, x: usize)
    requires
        x < 16,
        old(machine).i + x < 4096,
    ensures
        final(machine)@ == old(machine)@.registers_stored(x as int),
{
    let base = machine.i as usize;
    let mut k: usize = 0;
    while k <= x
        invariant
            k <= x + 1,
            x < 16,
            base == old(machine).i,
            base + x < 4096,
            forall|a: int| base <= a < base + k ==> machine.memory@[a] == old(machine).v@[a - base],
            forall|a: int|
                0 <= a < 4096 && !(base <= a < base + k) ==> machine.memory@[a] == old(
                    machine,
                ).memory@[a],
            machine.v == old(machine).v,
            machine.i == old(machine).i,
            machine.dt == old(machine).dt,
            machine.st == old(machine).st,
            machine.pc == old(machine).pc,
            machine.sp == old(machine).sp,
            machine.stack == old(machine).stack,
            machine.keys == old(machine).keys,
            machine.sprite_digits == old(machine).sprite_digits,
            machine.display == old(machine).display,
        decreases x + 1 - k,
    {
        machine.memory[base + k] = machine.v[k];
        k += 1;
    }
    assert(machine@ =~= old(machine)@.registers_stored(x as int));
}

/// Reads registers `V0..=Vx` from memory from address `I`.
fn load_registers(machine: &mut Machine, x: usize)
    requires
        x < 16,
        old(machine).i + x < 4096,
    ensures
        final(machine)@ == old(machine)@.registers_loaded(x as int),
{
    let base = machine.i as usize;
    let mut k: usize = 0;
    while k <= x
        invariant
            k <= x + 1,
            x < 16,
            base == old(machine).i,
            base + x < 4096,
            forall|j: int| 0 <= j < k ==> machine.v@[j] == old(machine).memory@[base + j],
            forall|j: int| k <= j < 16 ==> machine.v@[j] == old(machine).v@[j],
            machine.memory == old(machine).memory,
            machine.i == old(machine).i,
            machine.dt == old(machine).dt,
            machine.st == old(machine).st,
            machine.pc == old(machine).pc,
            machine.sp == old(machine).sp,
            machine.stack == old(machine).stack,
            machine.keys == old(machine).keys,
            machine.sprite_digits == old(machine).sprite_digits,
            machine.display == old(machine).display,
        decreases x + 1 - k,
    {
        machine.v[k] = machine.memory[base + k];
        k += 1;
    }
    assert(machine@ =~= old(machine)@.registers_loaded(x as int));
}

/// The first address outside memory of an access that starts at `start`
/// and does not fit.
fn outside(start: u16) -> (address: usize)
    ensures
        address == first_outside(start as int),
{
    if start as usize >= MEMORY_SIZE {
        start as usize
    } else {
        MEMORY_SIZE
    }
}

/// Wrapping addition and subtraction of bytes are addition and subtraction
/// modulo 256.
proof fn lemma_wrapping_bytes(a: u8, b: u8)
    ensures
        vstd::wrapping::u8_specs::wrapping_add(a, b) == ((a + b) % 256) as u8,
        vstd::wrapping::u8_specs::wrapping_sub(a, b) == ((a - b) % 256) as u8,
{
}

/// The sum of two bytes, split into its low byte and its carry.
proof fn lemma_sum_bytes(a: u8, b: u8, sum: u16)
    requires
        sum == a + b,
    ensures
        sum as u8 == ((a + b) % 256) as u8,
        (sum >> 8) as u8 == flag(a + b > 255),
{
    assert(sum as u8 == sum % 256) by (bit_vector);
    assert((sum >> 8) as u8 == sum / 256) by (bit_vector)
        requires
            sum <= 510,
    ;
}

/// Shifting a byte by one place, and the bit that falls off.
proof fn lemma_shift_byte(a: u8)
    ensures
        (a & 0b1u8) == 0b1u8 <==> a % 2 == 1,
        a >> 1 == a / 2,
        (a & 0b1000_0000u8) == 0b1000_0000u8 <==> a >= 128,
        a << 1 == ((a * 2) % 256) as u8,
{
    assert((a & 0b1u8) == 0b1u8 <==> a % 2 == 1) by (bit_vector);
    assert(a >> 1 == a / 2) by (bit_vector);
    assert((a & 0b1000_0000u8) == 0b1000_0000u8 <==> a >= 128) by (bit_vector);
    assert(a << 1 == (a * 2) % 256) by (bit_vector);
}

/// Performs a jump, a call, a return or a skip.
fn perform_flow(machine: &mut Machine, ins: Instruction) -> (r: Result<Action, Fault>)
    requires
        ins.wf(),
        ins.is_flow(),
        old(machine).pc + 2 <= u16::MAX,
    ensures
        forall|random: u8|
            final(machine)@ == (#[trigger] perform_spec(old(machine)@, ins, random)).state && r
                == perform_spec(old(machine)@, ins, random).result,
{
    match ins {
        Instruction::Ret => {
            if machine.sp == 0 || machine.sp >= 16 {
                return Err(Fault::StackOutOfRange(machine.sp));
            }
            machine.pc = machine.stack[machine.sp as usize];
            machine.sp -= 1u16;
            Ok(Action::Continue)
        },
        Instruction::Jp { addr } => {
            machine.pc = addr;
            Ok(Action::Continue)
        },
        Instruction::Call { addr } => {
            if machine.sp >= 15 {
                return Err(Fault::StackOutOfRange(machine.sp));
            }
            machine.sp += 1u16;
            machine.stack[machine.sp as usize] = machine.pc;
            machine.pc = addr;
            Ok(Action::Continue)
        },
        Instruction::SeByte { x, kk } => {
            if machine.v[x] == kk {
                machine.pc += 2u16;
            }
            Ok(Action::Continue)
        },
        Instruction::SneByte { x, kk } => {
            if machine.v[x] != kk {
                machine.pc += 2u16;
            }
            Ok(Action::Continue)
        },
        Instruction::SeReg { x, y } => {
            if machine.v[x] == machine.v[y] {
                machine.pc += 2u16;
            }
            Ok(Action::Continue)
        },
        Instruction::SneReg { x, y } => {
            if machine.v[x] != machine.v[y] {
                machine.pc += 2u16;
            }
            Ok(Action::Continue)
        },
        Instruction::JpV0 { addr } => {
            machine.pc = addr + (machine.v[0] as u16);
            Ok(Action::Continue)
        },
        Instruction::Skp { x } => {
            let key = machine.v[x];
            if key >= 16 {
                return Err(Fault::KeyOutOfRange(key));
            }
            if machine.keys[key as usize] {
                machine.pc += 2u16;
            }
            Ok(Action::Continue)
        },
        Instruction::Sknp { x } => {
            let key = machine.v[x];
            if key >= 16 {
                return Err(Fault::KeyOutOfRange(key));
            }
            if !machine.keys[key as usize] {
                machine.pc += 2u16;
            }
            Ok(Action::Continue)
        },
        // `requires` leaves no other instruction.
        _ => Ok(Action::Continue),
    }
}

/// Performs an instruction that computes a register from registers and bytes.
fn perform_arithmetic(machine: &mut Machine, ins: Instruction, random: u8) -> (r: Result<Action, Fault>)
    requires
        ins.wf(),
        ins.is_arithmetic(),
    ensures
        final(machine)@ == perform_spec(old(machine)@, ins, random).state,
        r == perform_spec(old(machine)@, ins, random).result,
{
    match ins {
        Instruction::LdByte { x, kk } => {
            machine.v[x] = kk;
            Ok(Action::Continue)
        },
        Instruction::AddByte { x, kk } => {
            proof {
                lemma_wrapping_bytes(machine.v[x as int], kk);
            }
            machine.v[x] = machine.v[x].wrapping_add(kk);
            Ok(Action::Continue)
        },
        Instruction::LdReg { x, y } => {
            machine.v[x] = machine.v[y];
            Ok(Action::Continue)
        },
        Instruction::Or { x, y } => {
            machine.v[x] = machine.v[x] | machine.v[y];
            Ok(Action::Continue)
        },
        Instruction::And { x, y } => {
            machine.v[x] = machine.v[x] | machine.v[y];
            Ok(Action::Continue)
        },
        Instruction::Xor { x, y } => {
            machine.v[x] = machine.v[x] ^ machine.v[y];
            Ok(Action::Continue)
        },
        Instruction::AddReg { x, y } => {
            let result = (machine.v[x] as u16) + (machine.v[y] as u16);
            proof {
                lemma_sum_bytes(machine.v[x as int], machine.v[y as int], result);
            }
            machine.v[x] = result as u8;
            machine.v[0xF] = (result >> 8) as u8;
            Ok(Action::Continue)
        },
        Instruction::Sub { x, y } => {
            machine.v[0xF] = if machine.v[x] > machine.v[y] {
                1u8
            } else {
                0u8
            };
            proof {
                lemma_wrapping_bytes(machine.v[x as int], machine.v[y as int]);
            }
            machine.v[x] = machine.v[x].wrapping_sub(machine.v[y]);
            Ok(Action::Continue)
        },
        Instruction::Shr { x } => {
            proof {
                lemma_shift_byte(machine.v[x as int]);
            }
            machine.v[0xF] = if (machine.v[x] & 0b1u8) == 0b1u8 {
                1u8
            } else {
                0u8
            };
            proof {
                lemma_shift_byte(machine.v[x as int]);
            }
            machine.v[x] = machine.v[x] >> 1;
            Ok(Action::Continue)
        },
        Instruction::Subn { x, y } => {
            machine.v[0xF] = if machine.v[y] > machine.v[x] {
                1u8
            } else {
                0u8
            };
            proof {
                lemma_wrapping_bytes(machine.v[y as int], machine.v[x as int]);
            }
            machine.v[x] = machine.v[y].wrapping_sub(machine.v[x]);
            Ok(Action::Continue)
        },
        Instruction::Shl { x } => {
            proof {
                lemma_shift_byte(machine.v[x as int]);
            }
            machine.v[0xF] = if (machine.v[x] & 0b1000_0000u8) == 0b1000_0000u8 {
                1u8
            } else {
                0u8
            };
            proof {
                lemma_shift_byte(machine.v[x as int]);
            }
            machine.v[x] = machine.v[x] << 1;
            Ok(Action::Continue)
        },
        Instruction::Rnd { x, kk } => {
            machine.v[x] = random & kk;
            Ok(Action::Continue)
        },
        // `requires` leaves no other instruction.
        _ => Ok(Action::Continue),
    }
}

/// Performs an instruction that writes the framebuffer.
fn perform_display(machine: &mut Machine, ins: Instruction) -> (r: Result<Action, Fault>)
    requires
        ins.wf(),
        ins.is_display(),
    ensures
        forall|random: u8|
            final(machine)@ == (#[trigger] perform_spec(old(machine)@, ins, random)).state && r
                == perform_spec(old(machine)@, ins, random).result,
{
    match ins {
        Instruction::Cls => {
            let updated = clear(&mut machine.display);
            if updated {
                Ok(Action::Redraw)
            } else {
                Ok(Action::Continue)
            }
        },
        Instruction::Drw { x, y, n } => {
            if n > 0 && machine.i as usize + n as usize > MEMORY_SIZE {
                return Err(Fault::MemoryOutOfRange(outside(machine.i)));
            }
            let vx = machine.v[x];
            let vy = machine.v[y];
            let (display_updated, collision) = draw_sprite(
                &mut machine.display,
                &machine.memory,
                machine.i as usize,
                n,
                vx,
                vy,
            );
            machine.v[0xF] = if collision {
                1u8
            } else {
                0u8
            };
            if display_updated {
                Ok(Action::Redraw)
            } else {
                Ok(Action::Continue)
            }
        },
        // `requires` leaves no other instruction.
        _ => Ok(Action::Continue),
    }
}

/// Performs an instruction that moves data between registers, timers, keys and memory.
fn perform_transfer(machine: &mut Machine, ins: Instruction) -> (r: Result<Action, Fault>)
    requires
        ins.wf(),
        ins.is_transfer(),
    ensures
        forall|random: u8|
            final(machine)@ == (#[trigger] perform_spec(old(machine)@, ins, random)).state && r
                == perform_spec(old(machine)@, ins, random).result,
{
    match ins {
        Instruction::LdI { addr } => {
            machine.i = addr;
            Ok(Action::Continue)
        },
        Instruction::LdVxDt { x } => {
            machine.v[x] = machine.dt;
            Ok(Action::Continue)
        },
        Instruction::LdVxKey { x } => {
            match lowest_held_key(&machine.keys) {
                Some(key) => {
                    machine.v[x] = key;
                    Ok(Action::Continue)
                },
                None => Ok(Action::AwaitKey(x)),
            }
        },
        Instruction::LdDtVx { x } => {
            machine.dt = machine.v[x];
            Ok(Action::Continue)
        },
        Instruction::LdStVx { x } => {
            machine.st = machine.v[x];
            Ok(Action::Continue)
        },
        Instruction::AddI { x } => {
            machine.i = machine.i.wrapping_add(machine.v[x] as u16);
            Ok(Action::Continue)
        },
        Instruction::LdFont { x } => {
            let digit = machine.v[x];
            if digit >= 16 {
                return Err(Fault::DigitOutOfRange(digit));
            }
            machine.i = machine.sprite_digits[digit as usize];
            Ok(Action::Continue)
        },
        Instruction::LdBcd { x } => {
            if machine.i as usize + 3 > MEMORY_SIZE {
                return Err(Fault::MemoryOutOfRange(outside(machine.i)));
            }
            let hundreds = (machine.v[x] / 100u8) % 10u8;
            let tens = (machine.v[x] / 10u8) % 10u8;
            let ones = (machine.v[x]) % 10u8;
            machine.memory[machine.i as usize] = hundreds;
            machine.memory[machine.i as usize + 1usize] = tens;
            machine.memory[machine.i as usize + 2usize] = ones;
            Ok(Action::Continue)
        },
        Instruction::StoreRegs { x } => {
            if machine.i as usize + x + 1 > MEMORY_SIZE {
                return Err(Fault::MemoryOutOfRange(outside(machine.i)));
            }
            store_registers(machine, x);
            Ok(Action::Continue)
        },
        Instruction::LoadRegs { x } => {
            if machine.i as usize + x + 1 > MEMORY_SIZE {
                return Err(Fault::MemoryOutOfRange(outside(machine.i)));
            }
            load_registers(machine, x);
            Ok(Action::Continue)
        },
        // `requires` leaves no other instruction.
        _ => Ok(Action::Continue),
    }
}

/// Performs one decoded instruction on a machine whose program counter
/// already points past it.
pub fn perform(machine: &mut Machine, ins: Instruction, random: u8) -> (r: Result<Action, Fault>)
    requires
        ins.wf(),
        old(machine).pc + 2 <= u16::MAX,
    ensures
        final(machine)@ == perform_spec(old(machine)@, ins, random).state,
        r == perform_spec(old(machine)@, ins, random).result,
        r matches Ok(Action::AwaitKey(x)) ==> x < 16,
{
    match ins {
        Instruction::Cls | Instruction::Drw { .. } => perform_display(machine, ins),
        Instruction::Ret
        | Instruction::Jp { .. }
        | Instruction::Call { .. }
        | Instruction::SeByte { .. }
        | Instruction::SneByte { .. }
        | Instruction::SeReg { .. }
        | Instruction::SneReg { .. }
        | Instruction::JpV0 { .. }
        | Instruction::Skp { .. }
        | Instruction::Sknp { .. } => perform_flow(machine, ins),
        Instruction::LdByte { .. }
        | Instruction::AddByte { .. }
        | Instruction::LdReg { .. }
        | Instruction::Or { .. }
        | Instruction::And { .. }
        | Instruction::Xor { .. }
        | Instruction::AddReg { .. }
        | Instruction::Sub { .. }
        | Instruction::Shr { .. }
        | Instruction::Subn { .. }
        | Instruction::Shl { .. }
        | Instruction::Rnd { .. } => perform_arithmetic(machine, ins, random),
        Instruction::LdI { .. }
        | Instruction::LdVxDt { .. }
        | Instruction::LdVxKey { .. }
        | Instruction::LdDtVx { .. }
        | Instruction::LdStVx { .. }
        | Instruction::AddI { .. }
        | Instruction::LdFont { .. }
        | Instruction::LdBcd { .. }
        | Instruction::StoreRegs { .. }
        | Instruction::LoadRegs { .. } => perform_transfer(machine, ins),
    }
}

/// Once an event has failed, the events after it change nothing.
proof fn lemma_drain_stops(s: State, events: Seq<KeyEvent>, k: int)
    requires
        0 <= k <= events.len(),
        drain_spec(s, events.take(k)).result is Err,
    ensures
        drain_spec(s, events) == drain_spec(s, events.take(k)),
    decreases events.len() - k,
{
    if k == events.len() {
        assert(events.take(k) =~= events);
    } else {
        assert(events.take(k + 1).drop_last() =~= events.take(k));
        lemma_drain_stops(s, events, k + 1);
    }
}

/// Applies a queue of key events, the oldest first.
pub fn drain_key_events(machine: &mut Machine, events: &[KeyEvent]) -> (r: Result<(), Fault>)
    ensures
        final(machine)@ == drain_spec(old(machine)@, events@).state,
        match r {
            Ok(_) => drain_spec(old(machine)@, events@).result is Ok,
            Err(fault) => drain_spec(old(machine)@, events@).result == Err::<Action, Fault>(fault),
        },
{
    let mut k: usize = 0;
    while k < events.len()
        invariant
            k <= events@.len(),
            machine@ == drain_spec(old(machine)@, events@.take(k as int)).state,
            drain_spec(old(machine)@, events@.take(k as int)).result is Ok,
        decreases events@.len() - k,
    {
        proof {
            assert(events@.take(k + 1).drop_last() =~= events@.take(k as int));
        }
        match process_key_event(machine, &events[k]) {
            Ok(_) => {},
            Err(fault) => {
                proof {
                    lemma_drain_stops(old(machine)@, events@, k + 1);
                }
                return Err(fault);
            },
        }
        k += 1;
    }
    proof {
        assert(events@.take(k as int) =~= events@);
    }
    Ok(())
}

/// Takes one step with a given random byte: fetches the instruction at the
/// program counter, decodes it and performs it.
pub fn step(machine: &mut Machine, random: u8) -> (r: Result<Action, Fault>)
    ensures
        final(machine)@ == step_spec(old(machine)@, random).state,
        r == step_spec(old(machine)@, random).result,
        r matches Ok(Action::AwaitKey(x)) ==> x < 16,
{
    let op = match fetch(machine) {
        Ok(op) => op,
        Err(fault) => {
            return Err(fault);
        },
    };
    match decode(op) {
        Some(ins) => perform(machine, ins, random),
        None => Err(Fault::UnknownOpcode(op)),
    }
}

/// Runs the dispatcher once: applies the key events that have arrived
/// since the last call, the oldest first, then executes one instruction.
/// A `Rnd` instruction masks a byte that is drawn for it; whatever byte
/// that is, the machine ends in the state and the call returns the result
/// that `execute_spec` gives for it.
pub fn execute(machine: &mut Machine, events: &[KeyEvent]) -> (r: Result<Action, Fault>)
    ensures
        exists|random: u8|
            final(machine)@ == (#[trigger] execute_spec(old(machine)@, events@, random)).state
                && r == execute_spec(old(machine)@, events@, random).result,
        !draws_random(old(machine)@, events@) ==> final(machine)@ == execute_spec(
            old(machine)@,
            events@,
            0,
        ).state && r == execute_spec(old(machine)@, events@, 0).result,
        r matches Ok(Action::AwaitKey(x)) ==> x < 16,
{
    match drain_key_events(machine, events) {
        Ok(_) => {},
        Err(fault) => {
            assert(execute_spec(old(machine)@, events@, 0).result == Err::<Action, Fault>(fault));
            return Err(fault);
        },
    }
    let op = match fetch(machine) {
        Ok(op) => op,
        Err(fault) => {
            assert(execute_spec(old(machine)@, events@, 0).result == Err::<Action, Fault>(fault));
            return Err(fault);
        },
    };
    match decode(op) {
        Some(ins) => {
            let random = match ins {
                Instruction::Rnd { .. } => random_byte(),
                _ => 0u8,
            };
            let r = perform(machine, ins, random);
            assert(r == execute_spec(old(machine)@, events@, random).result);
            r
        },
        None => {
            assert(execute_spec(old(machine)@, events@, 0).result == Err::<Action, Fault>(
                Fault::UnknownOpcode(op),
            ));
            Err(Fault::UnknownOpcode(op))
        },
    }
}

/// Hands one key event to a machine that waits for a key to store in
/// register `x`. The answer is `AwaitKey(x)` as long as the wait goes on.
pub fn key_wait(machine: &mut Machine, x: usize, event: &KeyEvent) -> (r: Result<Action, Fault>)
    requires
        x < 16,
    ensures
        final(machine)@ == key_wait_spec(old(machine)@, x, *event).state,
        r == key_wait_spec(old(machine)@, x, *event).result,
{
    match process_key_event(machine, event) {
        Ok(_) => {},
        Err(fault) => {
            return Err(fault);
        },
    }
    if event.pressed {
        machine.v[x] = event.key;
        Ok(Action::Continue)
    } else {
        Ok(Action::AwaitKey(x))
    }
}

/// Two more if a skip's condition holds, nothing more if it does not.
pub open spec fn skipped(condition: bool) -> int {
    if condition {
        2
    } else {
        0
    }
}

/// The program counter after a step.
///
/// A step that cannot fetch leaves it. Every other step moves it by exactly
/// 2, past the instruction, and then: a jump sets it to its target; a call
/// sets it to its target and puts the address past the call on the stack; a
/// return sets it to the address on top of the stack; a skip moves it by 2
/// more if its condition holds. No other instruction touches it, and a step
/// that fails after the fetch leaves it past the instruction.
pub proof fn lemma_program_counter(s: State, random: u8)
    requires
        s.wf(),
    ensures
        ({
            let t = step_spec(s, random);
            let next = s.pc + 2;
            if outside_memory(s.pc as int, 2) {
                t.state == s && t.result is Err
            } else if t.result is Err {
                t.state == (State { pc: next as u16, ..s })
            } else {
                match decode_spec(opcode_at(s.memory, s.pc as int)) {
                    None => false,
                    Some(Instruction::Jp { addr }) => t.state.pc == addr,
                    Some(Instruction::JpV0 { addr }) => t.state.pc == addr + s.v[0],
                    Some(Instruction::Call { addr }) => {
                        &&& t.state.pc == addr
                        &&& t.state.sp == s.sp + 1
                        &&& t.state.stack[t.state.sp as int] == next
                    },
                    Some(Instruction::Ret) => {
                        &&& t.state.pc == s.stack[s.sp as int]
                        &&& t.state.sp == s.sp - 1
                    },
                    Some(Instruction::SeByte { x, kk }) => t.state.pc == next + skipped(
                        s.v[x as int] == kk,
                    ),
                    Some(Instruction::SneByte { x, kk }) => t.state.pc == next + skipped(
                        s.v[x as int] != kk,
                    ),
                    Some(Instruction::SeReg { x, y }) => t.state.pc == next + skipped(
                        s.v[x as int] == s.v[y as int],
                    ),
                    Some(Instruction::SneReg { x, y }) => t.state.pc == next + skipped(
                        s.v[x as int] != s.v[y as int],
                    ),
                    Some(Instruction::Skp { x }) => t.state.pc == next + skipped(
                        s.keys[s.v[x as int] as int],
                    ),
                    Some(Instruction::Sknp { x }) => t.state.pc == next + skipped(
                        !s.keys[s.v[x as int] as int],
                    ),
                    Some(_) => t.state.pc == next,
                }
            }
        }),
{
}

/// A step keeps the state well formed, and never touches the keys or the
/// table of sprite offsets.
pub proof fn lemma_step_keeps(s: State, random: u8)
    requires
        s.wf(),
    ensures
        step_spec(s, random).state.wf(),
        step_spec(s, random).state.keys == s.keys,
        step_spec(s, random).state.sprite_digits == s.sprite_digits,
{
}

/// Key events keep the state well formed and touch nothing but the keys.
pub proof fn lemma_drain_keeps(s: State, events: Seq<KeyEvent>)
    requires
        s.wf(),
    ensures
        drain_spec(s, events).state.wf(),
        drain_spec(s, events).state == (State { keys: drain_spec(s, events).state.keys, ..s }),
        drain_spec(s, events).result is Ok <==> forall|j: int|
            0 <= j < events.len() ==> (#[trigger] events[j]).key < 16,
    decreases events.len(),
{
    if events.len() > 0 {
        lemma_drain_keeps(s, events.drop_last());
        let before = events.drop_last();
        if drain_spec(s, events).result is Ok {
            assert forall|j: int| 0 <= j < events.len() implies (#[trigger] events[j]).key
                < 16 by {
                if j < events.len() - 1 {
                    assert(before[j] == events[j]);
                }
            }
        } else if drain_spec(s, before).result is Ok {
            assert(events[events.len() - 1].key >= 16);
        } else {
            let j = choose|j: int| 0 <= j < before.len() && !((#[trigger] before[j]).key < 16);
            assert(before[j] == events[j]);
        }
    }
}

/// After a queue of key events, each key is as the last event for it left
/// it, and a key without an event is as it was.
pub proof fn lemma_drain_last_event_wins(s: State, events: Seq<KeyEvent>, key: int)
    requires
        s.wf(),
        0 <= key < 16,
        drain_spec(s, events).result is Ok,
    ensures
        (forall|j: int| 0 <= j < events.len() ==> (#[trigger] events[j]).key != key)
            ==> drain_spec(s, events).state.keys[key] == s.keys[key],
        forall|j: int|
            0 <= j < events.len() && (#[trigger] events[j]).key == key && (forall|l: int|
                j < l < events.len() ==> (#[trigger] events[l]).key != key) ==> drain_spec(
                s,
                events,
            ).state.keys[key] == events[j].pressed,
    decreases events.len(),
{
    if events.len() > 0 {
        let before = events.drop_last();
        lemma_drain_keeps(s, before);
        lemma_drain_last_event_wins(s, before, key);
        assert forall|j: int| 0 <= j < before.len() implies before[j] == events[j] by {}
        let last = events.last();
        assert(last == events[events.len() - 1]);
        if last.key != key {
            assert forall|j: int|
                0 <= j < events.len() && (#[trigger] events[j]).key == key && (forall|l: int|
                    j < l < events.len() ==> (#[trigger] events[l]).key != key) implies drain_spec(
                s,
                events,
            ).state.keys[key] == events[j].pressed by {
                assert(j < before.len());
                assert(before[j].key == key);
                assert forall|l: int| j < l < before.len() implies (#[trigger] before[l]).key
                    != key by {
                    assert(before[l] == events[l]);
                }
            }
        } else {
            assert forall|j: int|
                0 <= j < events.len() && (#[trigger] events[j]).key == key && (forall|l: int|
                    j < l < events.len() ==> (#[trigger] events[l]).key != key) implies drain_spec(
                s,
                events,
            ).state.keys[key] == events[j].pressed by {
                if j < events.len() - 1 {
                    assert(events[events.len() - 1].key == key);
                }
            }
        }
    }
}

/// The dispatcher keeps the state well formed.
pub proof fn lemma_execute_keeps(s: State, events: Seq<KeyEvent>, random: u8)
    requires
        s.wf(),
    ensures
        execute_spec(s, events, random).state.wf(),
        execute_spec(s, events, random).state.sprite_digits == s.sprite_digits,
{
    lemma_drain_keeps(s, events);
    lemma_step_keeps(drain_spec(s, events).state, random);
}

/// The random byte matters to `Rnd` alone: a step that fetches any other
/// word has the same outcome whatever the byte.
pub proof fn lemma_random_matters_to_rnd_alone(s: State, first: u8, second: u8)
    requires
        !(decode_spec(opcode_at(s.memory, s.pc as int)) matches Some(Instruction::Rnd { .. })),
    ensures
        step_spec(s, first) == step_spec(s, second),
{
}

/// `Rnd` leaves in `Vx` only bits of its mask.
pub proof fn lemma_rnd_within_mask(s: State, x: usize, kk: u8, random: u8)
    requires
        s.wf(),
        x < 16,
    ensures
        perform_spec(s, Instruction::Rnd { x, kk }, random).state.v[x as int] & !kk == 0,
{
    assert((random & kk) & !kk == 0) by (bit_vector);
}

/// `Cls` leaves every pixel clear and nothing else changed. It asks for a
/// redraw if a pixel was set, and for nothing if none was.
pub proof fn lemma_clear_screen(s: State, random: u8)
    requires
        s.wf(),
    ensures
        ({
            let t = perform_spec(s, Instruction::Cls, random);
            &&& forall|p: int| 0 <= p < 2048 ==> !t.state.display[p]
            &&& t.state == (State { display: t.state.display, ..s })
            &&& (exists|p: int| 0 <= p < 2048 && s.display[p]) ==> t.result == Ok::<
                Action,
                Fault,
            >(Action::Redraw)
            &&& (forall|p: int| 0 <= p < 2048 ==> !s.display[p]) ==> t.result == Ok::<
                Action,
                Fault,
            >(Action::Continue)
        }),
{
    if exists|p: int| 0 <= p < 2048 && s.display[p] {
        let p = choose|p: int| 0 <= p < 2048 && s.display[p];
        assert(s.display[p]);
    }
}

/// A step asks for a redraw exactly if it changed the framebuffer.
pub proof fn lemma_redraw_iff_display_changed(s: State, random: u8)
    requires
        s.wf(),
    ensures
        step_spec(s, random).result == Ok::<Action, Fault>(Action::Redraw) <==> step_spec(
            s,
            random,
        ).state.display != s.display,
{
    if !outside_memory(s.pc as int, 2) {
        let fetched = State { pc: (s.pc + 2) as u16, ..s };
        match decode_spec(opcode_at(s.memory, s.pc as int)) {
            Some(Instruction::Cls) => {
                if any_lit(s.display) {
                    let p = choose|p: int| 0 <= p < s.display.len() && #[trigger] s.display[p];
                    assert(blank()[p] != s.display[p]);
                } else {
                    assert(blank() =~= s.display);
                }
            },
            Some(Instruction::Drw { x, y, n }) => {
                lemma_draw_changes(
                    s.display,
                    sprite_rows(s.memory, s.i as int, n as int),
                    s.v[x as int] as int,
                    s.v[y as int] as int,
                );
            },
            _ => {},
        }
    }
}

/// What `Drw` leaves when it goes through: the framebuffer is the old one
/// exclusive-or the sprite; `VF` is 1 if a pixel that was set is now clear,
/// and 0 otherwise; nothing else changes.
pub proof fn lemma_draw(s: State, x: usize, y: usize, n: u8, random: u8)
    requires
        s.wf(),
        x < 16,
        y < 16,
        n < 16,
        !outside_memory(s.i as int, n as int),
    ensures
        ({
            let t = perform_spec(s, Instruction::Drw { x, y, n }, random);
            &&& t.result is Ok
            &&& t.state.display == drawn(
                s.display,
                sprite_rows(s.memory, s.i as int, n as int),
                s.v[x as int] as int,
                s.v[y as int] as int,
            )
            &&& t.state.v[0xF] == 1 <==> exists|p: int|
                0 <= p < 2048 && s.display[p] && !#[trigger] t.state.display[p]
            &&& t.state.v[0xF] == 0 || t.state.v[0xF] == 1
            &&& forall|k: int| 0 <= k < 15 ==> t.state.v[k] == s.v[k]
            &&& t.state == (State { display: t.state.display, v: t.state.v, ..s })
        }),
{
}

/// Storing registers `V0..=Vx` and loading them again from the same address
/// restores them, whatever the registers held in between.
pub proof fn lemma_store_load_round_trip(s: State, x: usize, between: Seq<u8>)
    requires
        s.wf(),
        x < 16,
        between.len() == 16,
        !outside_memory(s.i as int, x + 1),
    ensures
        ({
            let stored = perform_spec(s, Instruction::StoreRegs { x }, 0);
            let loaded = perform_spec(
                State { v: between, ..stored.state },
                Instruction::LoadRegs { x },
                0,
            );
            &&& stored.result is Ok
            &&& loaded.result is Ok
            &&& stored.state.v == s.v
            &&& forall|k: int| 0 <= k <= x ==> loaded.state.v[k] == s.v[k]
            &&& forall|k: int| x < k < 16 ==> loaded.state.v[k] == between[k]
            &&& loaded.state.memory == stored.state.memory
        }),
{
}

/// The digits that `LdBcd` stores are decimal digits, and they spell the
/// value: hundreds, tens, ones.
pub proof fn lemma_bcd(value: u8)
    ensures
        bcd(value).len() == 3,
        bcd(value)[0] < 10 && bcd(value)[1] < 10 && bcd(value)[2] < 10,
        100 * bcd(value)[0] + 10 * bcd(value)[1] + bcd(value)[2] == value,
{
}

/// `lowest_held` finds a key that is down and has no key below it that is
/// down; it finds none only if no key is down.
pub proof fn lemma_lowest_held(keys: Seq<bool>, from: int)
    requires
        0 <= from,
        keys.len() <= 256,
    ensures
        match lowest_held(keys, from) {
            Some(key) => from <= key < keys.len() && keys[key as int] && forall|j: int|
                from <= j < key ==> !keys[j],
            None => forall|j: int| from <= j < keys.len() ==> !keys[j],
        },
    decreases keys.len() - from,
{
    if from < keys.len() && !keys[from] {
        lemma_lowest_held(keys, from + 1);
    }
}

} // verus!
