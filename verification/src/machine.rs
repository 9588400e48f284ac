//! The machine state and its mathematical model.

use vstd::prelude::*;

verus! {

/// Number of bytes of memory.
pub const MEMORY_SIZE: usize = 4096;

/// Address at which a program image is placed and at which execution starts.
pub const PROGRAM_START: u16 = 0x200;

/// Largest program image that fits between `PROGRAM_START` and the end of memory.
pub const PROGRAM_CAPACITY: usize = 3584;

/// Framebuffer width in pixels.
pub const DISPLAY_WIDTH: usize = 64;

/// Framebuffer height in pixels.
pub const DISPLAY_HEIGHT: usize = 32;

/// Number of bytes in one built-in digit sprite.
pub const GLYPH_BYTES: usize = 5;

/// The built-in sprites for the hexadecimal digits `0` to `F`, five bytes each,
/// in digit order. Each byte is one row; the four high bits are the pixels.
pub const FONT: [u8; 80] = [
    0xF0, 0x90, 0x90, 0x90, 0xF0,
    0x20, 0x60, 0x20, 0x20, 0x70,
    0xF0, 0x10, 0xF0, 0x80, 0xF0,
    0xF0, 0x10, 0xF0, 0x10, 0xF0,
    0x90, 0x90, 0xF0, 0x10, 0x10,
    0xF0, 0x80, 0xF0, 0x10, 0xF0,
    0xF0, 0x80, 0xF0, 0x90, 0xF0,
    0xF0, 0x10, 0x20, 0x40, 0x40,
    0xF0, 0x90, 0xF0, 0x90, 0xF0,
    0xF0, 0x90, 0xF0, 0x10, 0xF0,
    0xF0, 0x90, 0xF0, 0x90, 0x90,
    0xE0, 0x90, 0xE0, 0x90, 0xE0,
    0xF0, 0x80, 0x80, 0x80, 0xF0,
    0xF0, 0x90, 0x90, 0x90, 0xF0,
    0xF0, 0x80, 0xF0, 0x80, 0xF0,
    0xF0, 0x80, 0xF0, 0x80, 0x80,
];

/// The complete state of the virtual machine.
///
/// The framebuffer is stored column by column: pixel `(x, y)` is
/// `display[x * 32 + y]`.
#[derive(Clone, Debug, PartialEq, Eq)]
pub struct Machine {
    pub memory: [u8; 4096],
    pub v: [u8; 16],
    pub i: u16,
    pub dt: u8,
    pub st: u8,
    pub pc: u16,
    pub sp: u16,
    pub stack: [u16; 16],
    pub keys: [bool; 16],
    pub sprite_digits: [u16; 16],
    pub display: [bool; 2048],
}

/// The mathematical model of a `Machine`: every array as a sequence.
#[verifier::ext_equal]
pub struct State {
    pub memory: Seq<u8>,
    pub v: Seq<u8>,
    pub i: u16,
    pub dt: u8,
    pub st: u8,
    pub pc: u16,
    pub sp: u16,
    pub stack: Seq<u16>,
    pub keys: Seq<bool>,
    pub sprite_digits: Seq<u16>,
    pub display: Seq<bool>,
}

impl State {
    /// Every sequence has the length of the array it stands for.
    pub open spec fn wf(self) -> bool {
        &&& self.memory.len() == 4096
        &&& self.v.len() == 16
        &&& self.stack.len() == 16
        &&& self.keys.len() == 16
        &&& self.sprite_digits.len() == 16
        &&& self.display.len() == 2048
    }

    /// The state of a machine that was just created: the font at addresses
    /// 0 to 79, the offset of digit `d` at `5 * d`, everything else zero.
    pub open spec fn power_on() -> State {
        State {
            memory: Seq::new(4096, |a: int| if a < 80 { FONT@[a] } else { 0u8 }),
            v: Seq::new(16, |k: int| 0u8),
            i: 0,
            dt: 0,
            st: 0,
            pc: 0,
            sp: 0,
            stack: Seq::new(16, |k: int| 0u16),
            keys: Seq::new(16, |k: int| false),
            sprite_digits: Seq::new(16, |d: int| (5 * d) as u16),
            display: Seq::new(2048, |p: int| false),
        }
    }

    /// The state after a program image is placed at `PROGRAM_START`: byte
    /// `k` of the image is at address `0x200 + k`, bytes that would lie
    /// beyond the end of memory are dropped, and the program counter points
    /// at the first byte.
    pub open spec fn loaded(self, program: Seq<u8>) -> State {
        State {
            memory: Seq::new(
                4096,
                |a: int|
                    if 0x200 <= a < 0x200 + program.len() {
                        program[a - 0x200]
                    } else {
                        self.memory[a]
                    },
            ),
            pc: 0x200,
            ..self
        }
    }

    /// The state after one timer tick.
    pub open spec fn ticked(self) -> State {
        State { dt: tick_spec(self.dt), st: tick_spec(self.st), ..self }
    }
}

/// A timer value one tick later: one less, but never below zero.
pub open spec fn tick_spec(timer: u8) -> u8 {
    if timer == 0 {
        0
    } else {
        (timer - 1) as u8
    }
}

impl View for Machine {
    type V = State;

    open spec fn view(&self) -> State {
        State {
            memory: self.memory@,
            v: self.v@,
            i: self.i,
            dt: self.dt,
            st: self.st,
            pc: self.pc,
            sp: self.sp,
            stack: self.stack@,
            keys: self.keys@,
            sprite_digits: self.sprite_digits@,
            display: self.display@,
        }
    }
}

/// The model of every machine is well formed.
pub proof fn lemma_view_wf(m: Machine)
    ensures
        m@.wf(),
{
}

/// Counts one timer down by one tick, stopping at zero.
pub fn tick(timer: u8) -> (r: u8)
    ensures
        r == tick_spec(timer),
{
    if timer == 0 {
        0
    } else {
        timer - 1
    }
}

impl Machine {
    /// Creates a machine with the font in memory and everything else zero.
    pub fn init() -> (m: Machine)
        ensures
            m@ == State::power_on(),
    {
        let mut m = Machine {
            memory: [0u8; 4096],
            v: [0u8; 16],
            i: 0u16,
            dt: 0u8,
            st: 0u8,
            pc: 0u16,
            sp: 0u16,
            stack: [0u16; 16],
            keys: [false; 16],
            sprite_digits: [0u16; 16],
            display: [false; 2048],
        };
        let mut digit: usize = 0;
        while digit < 16
            invariant
                digit <= 16,
                forall|d: int| 0 <= d < digit ==> m.sprite_digits@[d] == 5 * d,
                forall|a: int| 0 <= a < 5 * digit ==> m.memory@[a] == FONT@[a],
                forall|a: int| 5 * digit <= a < 4096 ==> m.memory@[a] == 0,
                m.v@ == State::power_on().v,
                m.stack@ == State::power_on().stack,
                m.keys@ == State::power_on().keys,
                m.display@ == State::power_on().display,
                m.i == 0 && m.dt == 0 && m.st == 0 && m.pc == 0 && m.sp == 0,
            decreases 16 - digit,
        {
            let offset: usize = digit * GLYPH_BYTES;
            m.sprite_digits[digit] = offset as u16;
            let mut row: usize = 0;
            while row < GLYPH_BYTES
                invariant
                    row <= 5,
                    digit < 16,
                    offset == 5 * digit,
                    forall|d: int| 0 <= d <= digit ==> m.sprite_digits@[d] == 5 * d,
                    forall|a: int| 0 <= a < offset + row ==> m.memory@[a] == FONT@[a],
                    forall|a: int| offset + row <= a < 4096 ==> m.memory@[a] == 0,
                    m.v@ == State::power_on().v,
                    m.stack@ == State::power_on().stack,
                    m.keys@ == State::power_on().keys,
                    m.display@ == State::power_on().display,
                    m.i == 0 && m.dt == 0 && m.st == 0 && m.pc == 0 && m.sp == 0,
                decreases 5 - row,
            {
                m.memory[offset + row] = FONT[offset + row];
                row += 1;
            }
            digit += 1;
        }
        assert(m@ =~= State::power_on());
        m
    }

    /// Places a program image at `PROGRAM_START` and points the program
    /// counter at it. Bytes that do not fit in memory are dropped.
    pub fn load_program(&mut self, program: &[u8])
        ensures
            final(self)@ == old(self)@.loaded(program@),
    {
        let count: usize = if program.len() < PROGRAM_CAPACITY {
            program.len()
        } else {
            PROGRAM_CAPACITY
        };
        let mut k: usize = 0;
        while k < count
            invariant
                k <= count <= 3584,
                count <= program@.len(),
                count == 3584 || count == program@.len(),
                forall|a: int| 0x200 <= a < 0x200 + k ==> self.memory@[a] == program@[a - 0x200],
                forall|a: int|
                    0 <= a < 4096 && !(0x200 <= a < 0x200 + k) ==> self.memory@[a] == old(
                        self,
                    ).memory@[a],
                self.v == old(self).v,
                self.i == old(self).i,
                self.dt == old(self).dt,
                self.st == old(self).st,
                self.sp == old(self).sp,
                self.stack == old(self).stack,
                self.keys == old(self).keys,
                self.sprite_digits == old(self).sprite_digits,
                self.display == old(self).display,
            decreases count - k,
        {
            self.memory[0x200 + k] = program[k];
            k += 1;
        }
        self.pc = PROGRAM_START;
        assert(self@ =~= old(self)@.loaded(program@));
    }

    /// Advances both timers by one tick: each counts down by one and stops
    /// at zero.
    pub fn tick_timers(&mut self)
        ensures
            final(self)@ == old(self)@.ticked(),
    {
        self.dt = tick(self.dt);
        self.st = tick(self.st);
    }
}

} // verus!
