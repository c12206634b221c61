//! The machine state and the semantics of every instruction.
use vstd::prelude::*;

use crate::instruction::{decode_spec, Instruction};
use crate::nibbles::{get_first_nibble, get_second_nibble};

verus! {

/// Bytes of addressable memory.
pub const MEMORY_SIZE: usize = 4096;

/// Display width in pixels.
pub const DISPLAY_WIDTH: usize = 64;

/// Display height in pixels.
pub const DISPLAY_HEIGHT: usize = 32;

/// Number of pixels, stored row after row.
pub const DISPLAY_SIZE: usize = 2048;

/// Depth of the call stack.
pub const STACK_SIZE: usize = 16;

/// Where the built-in hexadecimal digit glyphs start in memory.
pub const FONT_ADDRESS: u16 = 0x50;

/// Rows of one digit glyph.
pub const GLYPH_HEIGHT: u16 = 5;

/// The index of the register that doubles as carry, borrow and collision flag.
pub const FLAG_REGISTER: usize = 15;

/// The failures a step reports.
#[derive(Clone, Copy, Debug, PartialEq, Eq, Structural)]
pub enum Chip8Error {
    /// A call with every slot of the call stack in use.
    StackOverflow,
    /// A return with an empty call stack.
    StackUnderflow,
    /// A memory read or write outside the memory array.
    OutOfBoundsAccess,
}

/// The machine state as mathematical values.
pub struct Chip8View {
    pub memory: Seq<u8>,
    pub program_counter: u16,
    pub address_register: u16,
    pub registers: Seq<u8>,
    pub call_stack: Seq<u16>,
    pub call_stack_index: int,
    pub delay_timer: u8,
    pub sound_timer: u8,
    /// Pixel `(row, column)` is at `row * 64 + column`.
    pub display: Seq<bool>,
    /// Key `k` is pressed when `keypad[k]` holds.
    pub keypad: Seq<bool>,
    /// A wait-for-key instruction is pending at the program counter.
    pub awaiting_key: bool,
}

impl Chip8View {
    pub open spec fn wf(self) -> bool {
        &&& self.memory.len() == MEMORY_SIZE
        &&& self.registers.len() == 16
        &&& self.call_stack.len() == STACK_SIZE
        &&& 0 <= self.call_stack_index <= STACK_SIZE
        &&& self.display.len() == DISPLAY_SIZE
        &&& self.keypad.len() == 16
    }

    /// The state with the program counter moved on to the next instruction.
    pub open spec fn advance(self) -> Chip8View {
        Chip8View { program_counter: (self.program_counter + 2) as u16, ..self }
    }

    /// The state with the program counter moved on by one instruction, or by
    /// two when `skip` holds.
    pub open spec fn skip_if(self, skip: bool) -> Chip8View {
        if skip {
            Chip8View { program_counter: (self.program_counter + 4) as u16, ..self }
        } else {
            self.advance()
        }
    }

    /// Register `x` set to `v`, then moved on.
    pub open spec fn set_register(self, x: u8, v: u8) -> Chip8View {
        Chip8View { registers: self.registers.update(x as int, v), ..self }.advance()
    }

    /// Register `x` set to `v`, then the flag register to `flag`, then moved on.
    pub open spec fn set_with_flag(self, x: u8, v: u8, flag: u8) -> Chip8View {
        Chip8View {
            registers: self.registers.update(x as int, v).update(FLAG_REGISTER as int, flag),
            ..self
        }.advance()
    }

    /// The value of register `x`.
    pub open spec fn reg(self, x: u8) -> u8 {
        self.registers[x as int]
    }
}

/// The glyphs of the hexadecimal digits 0 to F, five rows each.
pub open spec fn font_spec() -> Seq<u8> {
    seq![
        0xF0, 0x90, 0x90, 0x90, 0xF0, 0x20, 0x60, 0x20, 0x20, 0x70,
        0xF0, 0x10, 0xF0, 0x80, 0xF0, 0xF0, 0x10, 0xF0, 0x10, 0xF0,
        0x90, 0x90, 0xF0, 0x10, 0x10, 0xF0, 0x80, 0xF0, 0x10, 0xF0,
        0xF0, 0x80, 0xF0, 0x90, 0xF0, 0xF0, 0x10, 0x20, 0x40, 0x40,
        0xF0, 0x90, 0xF0, 0x90, 0xF0, 0xF0, 0x90, 0xF0, 0x10, 0xF0,
        0xF0, 0x90, 0xF0, 0x90, 0x90, 0xE0, 0x90, 0xE0, 0x90, 0xE0,
        0xF0, 0x80, 0x80, 0x80, 0xF0, 0xE0, 0x90, 0x90, 0x90, 0xE0,
        0xF0, 0x80, 0xF0, 0x80, 0xF0, 0xF0, 0x80, 0xF0, 0x80, 0x80u8
    ]
}

/// The state of a machine that has just been created: the program counter is
/// at the program offset, and everything else is zero, off or empty.
pub open spec fn initial_spec() -> Chip8View {
    Chip8View {
        memory: Seq::new(MEMORY_SIZE as nat, |i: int| 0u8),
        program_counter: Chip8::PROGRAM_MEMORY_OFFSET,
        address_register: 0,
        registers: Seq::new(16, |i: int| 0u8),
        call_stack: Seq::new(STACK_SIZE as nat, |i: int| 0u16),
        call_stack_index: 0,
        delay_timer: 0,
        sound_timer: 0,
        display: Seq::new(DISPLAY_SIZE as nat, |i: int| false),
        keypad: Seq::new(16, |i: int| false),
        awaiting_key: false,
    }
}

/// The four nibbles at the program counter, most significant first.
pub open spec fn fetch_spec(m: Chip8View) -> (u8, u8, u8, u8) {
    let hi = m.memory[m.program_counter as int];
    let lo = m.memory[m.program_counter + 1];
    (hi / 16, hi % 16, lo / 16, lo % 16)
}

/// The instruction at the program counter.
pub open spec fn current_instruction_spec(m: Chip8View) -> Instruction {
    let (a, b, c, d) = fetch_spec(m);
    decode_spec(a, b, c, d)
}

/// Whether bit `column` of a sprite row, counted from the most significant, is set.
pub open spec fn sprite_bit(row: u8, column: u8) -> bool {
    (row >> (7 - column) as u8) & 1u8 == 1u8
}

/// Whether drawing `height` rows from the address register at
/// (`x0`, `y0`) flips pixel (`row`, `column`): the sprite wraps at the edges.
pub open spec fn flips(m: Chip8View, x0: int, y0: int, height: int, row: int, column: int) -> bool {
    let r = (row - y0) % (DISPLAY_HEIGHT as int);
    let c = (column - x0) % (DISPLAY_WIDTH as int);
    r < height && c < 8 && sprite_bit(m.memory[m.address_register + r], c as u8)
}

/// Whether the pixel at index `i` is flipped by that drawing.
pub open spec fn flips_at(m: Chip8View, x0: int, y0: int, height: int, i: int) -> bool {
    flips(m, x0, y0, height, i / (DISPLAY_WIDTH as int), i % (DISPLAY_WIDTH as int))
}

/// The sprite drawing of `height` rows at register values (`vx`, `vy`).
pub open spec fn draw_spec(m: Chip8View, vx: u8, vy: u8, height: u8) -> Result<Chip8View, Chip8Error> {
    let x0 = vx % 64;
    let y0 = vy % 32;
    if height > 0 && m.address_register + height > MEMORY_SIZE {
        Err(Chip8Error::OutOfBoundsAccess)
    } else {
        let collision = exists|i: int|
            0 <= i < DISPLAY_SIZE && #[trigger] m.display[i] && flips_at(m, x0 as int, y0 as int, height as int, i);
        let display = Seq::new(DISPLAY_SIZE as nat, |i: int|
            m.display[i] != flips_at(m, x0 as int, y0 as int, height as int, i));
        Ok(Chip8View { display, ..m }.set_register(FLAG_REGISTER as u8, if collision { 1u8 } else { 0u8 }))
    }
}

/// The index of the lowest pressed key at or above `from`, or 16 when none is.
pub open spec fn lowest_pressed(keys: Seq<bool>, from: int) -> int
    decreases 16 - from,
{
    if from >= 16 {
        16
    } else if keys[from] {
        from
    } else {
        lowest_pressed(keys, from + 1)
    }
}

/// Whether the key named by a register value is pressed; values from 16 up
/// name no key.
pub open spec fn key_pressed(m: Chip8View, key: u8) -> bool {
    key < 16 && m.keypad[key as int]
}

/// The effect of executing `ins` at the program counter, with `random` as the
/// random byte that a random-assign uses.
pub open spec fn execute_spec(m: Chip8View, ins: Instruction, random: u8) -> Result<Chip8View, Chip8Error> {
    match ins {
        Instruction::NoOperation => Ok(m.advance()),
        Instruction::ClearScreen => Ok(
            Chip8View { display: Seq::new(DISPLAY_SIZE as nat, |i: int| false), ..m }.advance(),
        ),
        Instruction::ReturnSubroutine => if m.call_stack_index == 0 {
            Err(Chip8Error::StackUnderflow)
        } else {
            Ok(Chip8View {
                program_counter: m.call_stack[m.call_stack_index - 1],
                call_stack_index: m.call_stack_index - 1,
                ..m
            })
        },
        Instruction::Jump { address } => Ok(Chip8View { program_counter: address, ..m }),
        Instruction::CallSubroutine { address } => if m.call_stack_index == STACK_SIZE {
            Err(Chip8Error::StackOverflow)
        } else {
            Ok(Chip8View {
                program_counter: address,
                call_stack: m.call_stack.update(m.call_stack_index, (m.program_counter + 2) as u16),
                call_stack_index: m.call_stack_index + 1,
                ..m
            })
        },
        Instruction::SkipIfEqualValue { x, value } => Ok(m.skip_if(m.reg(x) == value)),
        Instruction::SkipIfNotEqualValue { x, value } => Ok(m.skip_if(m.reg(x) != value)),
        Instruction::SkipIfEqual { x, y } => Ok(m.skip_if(m.reg(x) == m.reg(y))),
        Instruction::SkipIfNotEqual { x, y } => Ok(m.skip_if(m.reg(x) != m.reg(y))),
        Instruction::AssignValue { x, value } => Ok(m.set_register(x, value)),
        Instruction::AddAssignValue { x, value } => Ok(
            m.set_register(x, ((m.reg(x) + value) % 256) as u8),
        ),
        Instruction::Assign { x, y } => Ok(m.set_register(x, m.reg(y))),
        Instruction::BitwiseOr { x, y } => Ok(m.set_register(x, m.reg(x) | m.reg(y))),
        Instruction::BitwiseAnd { x, y } => Ok(m.set_register(x, m.reg(x) & m.reg(y))),
        Instruction::BitwiseXor { x, y } => Ok(m.set_register(x, m.reg(x) ^ m.reg(y))),
        Instruction::AddAssign { x, y } => Ok(
            m.set_with_flag(
                x,
                ((m.reg(x) + m.reg(y)) % 256) as u8,
                if m.reg(x) + m.reg(y) > 255 { 1u8 } else { 0u8 },
            ),
        ),
        Instruction::SubAssign { x, y } => Ok(
            m.set_with_flag(
                x,
                ((m.reg(x) - m.reg(y) + 256) % 256) as u8,
                if m.reg(x) >= m.reg(y) { 1u8 } else { 0u8 },
            ),
        ),
        Instruction::SubAssignSwapped { x, y } => Ok(
            m.set_with_flag(
                x,
                ((m.reg(y) - m.reg(x) + 256) % 256) as u8,
                if m.reg(y) >= m.reg(x) { 1u8 } else { 0u8 },
            ),
        ),
        Instruction::RightShiftAssign { x, y } => Ok(
            m.set_with_flag(x, m.reg(y) / 2, m.reg(y) % 2),
        ),
        Instruction::LeftShiftAssign { x, y } => Ok(
            m.set_with_flag(x, ((m.reg(y) * 2) % 256) as u8, m.reg(y) / 128),
        ),
        Instruction::SetAddressRegister { address } => Ok(
            Chip8View { address_register: address, ..m }.advance(),
        ),
        Instruction::JumpOffset { address } => Ok(
            Chip8View { program_counter: (address + m.reg(0)) as u16, ..m },
        ),
        Instruction::RandomNumberAssign { x, value } => Ok(m.set_register(x, random & value)),
        Instruction::DrawSprite { x, y, height } => draw_spec(m, m.reg(x), m.reg(y), height),
        Instruction::SkipOnKeyPressed { x } => Ok(m.skip_if(key_pressed(m, m.reg(x)))),
        Instruction::SkipOnKeyNotPressed { x } => Ok(m.skip_if(!key_pressed(m, m.reg(x)))),
        Instruction::StoreDelayTimer { x } => Ok(m.set_register(x, m.delay_timer)),
        Instruction::WaitForKeyPress { x } => {
            let k = lowest_pressed(m.keypad, 0);
            if k < 16 {
                Ok(Chip8View { awaiting_key: false, ..m }.set_register(x, k as u8))
            } else {
                Ok(Chip8View { awaiting_key: true, ..m })
            }
        },
        Instruction::SetDelayTimer { x } => Ok(Chip8View { delay_timer: m.reg(x), ..m }.advance()),
        Instruction::SetSoundTimer { x } => Ok(Chip8View { sound_timer: m.reg(x), ..m }.advance()),
        Instruction::AddressRegisterAddAssign { x } => Ok(
            Chip8View { address_register: ((m.address_register + m.reg(x)) % 0x10000) as u16, ..m }.advance(),
        ),
        Instruction::SetAddressRegisterToCharacter { x } => Ok(
            Chip8View { address_register: (FONT_ADDRESS + m.reg(x) * GLYPH_HEIGHT) as u16, ..m }.advance(),
        ),
        Instruction::StoreBinaryCodedDecimal { x } => if m.address_register + 3 > MEMORY_SIZE {
            Err(Chip8Error::OutOfBoundsAccess)
        } else {
            let v = m.reg(x);
            let i = m.address_register as int;
            Ok(Chip8View {
                memory: m.memory.update(i, v / 100).update(i + 1, (v / 10) % 10).update(i + 2, v % 10),
                ..m
            }.advance())
        },
        Instruction::StoreVariableRegisters { x } => if m.address_register + x + 1 > MEMORY_SIZE {
            Err(Chip8Error::OutOfBoundsAccess)
        } else {
            let i = m.address_register as int;
            Ok(Chip8View {
                memory: Seq::new(MEMORY_SIZE as nat, |a: int|
                    if i <= a <= i + x { m.registers[a - i] } else { m.memory[a] }),
                ..m
            }.advance())
        },
        Instruction::LoadVariableRegisters { x } => if m.address_register + x + 1 > MEMORY_SIZE {
            Err(Chip8Error::OutOfBoundsAccess)
        } else {
            let i = m.address_register as int;
            Ok(Chip8View {
                registers: Seq::new(16, |k: int| if k <= x { m.memory[i + k] } else { m.registers[k] }),
                ..m
            }.advance())
        },
    }
}

/// The effect of one fetch-decode-execute step.
pub open spec fn step_spec(m: Chip8View, random: u8) -> Result<Chip8View, Chip8Error> {
    if m.program_counter + 1 >= MEMORY_SIZE {
        Err(Chip8Error::OutOfBoundsAccess)
    } else {
        execute_spec(m, current_instruction_spec(m), random)
    }
}

/// What one timer tick does: each timer that is not zero goes down by one.
pub open spec fn tick_spec(m: Chip8View) -> Chip8View {
    Chip8View {
        delay_timer: if m.delay_timer > 0 { (m.delay_timer - 1) as u8 } else { 0u8 },
        sound_timer: if m.sound_timer > 0 { (m.sound_timer - 1) as u8 } else { 0u8 },
        ..m
    }
}

/// The whole state of one machine.
pub struct Chip8 {
    memory: [u8; 4096],
    /// Address of the next instruction to fetch.
    program_counter: u16,
    /// Often called `I`: the address that data instructions read and write.
    address_register: u16,
    /// The general registers `V0` to `VF`; `VF` is also the flag register.
    variable_register: [u8; 16],
    /// Return addresses of the subroutines in progress.
    call_stack: [u16; 16],
    /// The next free slot of the call stack.
    call_stack_index: usize,
    delay_timer: u8,
    sound_timer: u8,
    /// `true` is a lit pixel; pixel `(row, column)` is at `row * 64 + column`.
    display: [bool; 2048],
    /// `true` is a pressed key, by key value 0 to F.
    keypad: [bool; 16],
    awaiting_key: bool,
}

impl View for Chip8 {
    type V = Chip8View;

    closed spec fn view(&self) -> Chip8View {
        Chip8View {
            memory: self.memory@,
            program_counter: self.program_counter,
            address_register: self.address_register,
            registers: self.variable_register@,
            call_stack: self.call_stack@,
            call_stack_index: self.call_stack_index as int,
            delay_timer: self.delay_timer,
            sound_timer: self.sound_timer,
            display: self.display@,
            keypad: self.keypad@,
            awaiting_key: self.awaiting_key,
        }
    }
}

impl Chip8 {
    /// Most programs expect to be loaded, and to start, at this address.
    pub const PROGRAM_MEMORY_OFFSET: u16 = 200;

    /// A machine with every field cleared but the program counter, which
    /// stands at the program offset.
    pub fn new() -> (r: Chip8)
        ensures
            r@ == initial_spec(),
            r@.wf(),
    {
        let r = Chip8 {
            memory: [0u8; 4096],
            program_counter: Self::PROGRAM_MEMORY_OFFSET,
            address_register: 0,
            variable_register: [0u8; 16],
            call_stack: [0u16; 16],
            call_stack_index: 0,
            delay_timer: 0,
            sound_timer: 0,
            display: [false; 2048],
            keypad: [false; 16],
            awaiting_key: false,
        };
        assert(r@.memory =~= initial_spec().memory);
        assert(r@.registers =~= initial_spec().registers);
        assert(r@.call_stack =~= initial_spec().call_stack);
        assert(r@.display =~= initial_spec().display);
        assert(r@.keypad =~= initial_spec().keypad);
        r
    }

    /// Writes the built-in glyphs of the hexadecimal digits into memory at
    /// the font address, where the character-address instruction points.
    pub fn load_font(&mut self)
        requires
            old(self)@.wf(),
        ensures
            final(self)@.wf(),
            final(self)@ == (Chip8View {
                memory: Seq::new(MEMORY_SIZE as nat, |a: int|
                    if FONT_ADDRESS <= a < FONT_ADDRESS + 80 {
                        font_spec()[a - FONT_ADDRESS]
                    } else {
                        old(self)@.memory[a]
                    }),
                ..old(self)@
            }),
    {
        let ghost m = self@;
        let font: [u8; 80] = [
            0xF0, 0x90, 0x90, 0x90, 0xF0, 0x20, 0x60, 0x20, 0x20, 0x70,
            0xF0, 0x10, 0xF0, 0x80, 0xF0, 0xF0, 0x10, 0xF0, 0x10, 0xF0,
            0x90, 0x90, 0xF0, 0x10, 0x10, 0xF0, 0x80, 0xF0, 0x10, 0xF0,
            0xF0, 0x80, 0xF0, 0x90, 0xF0, 0xF0, 0x10, 0x20, 0x40, 0x40,
            0xF0, 0x90, 0xF0, 0x90, 0xF0, 0xF0, 0x90, 0xF0, 0x10, 0xF0,
            0xF0, 0x90, 0xF0, 0x90, 0x90, 0xE0, 0x90, 0xE0, 0x90, 0xE0,
            0xF0, 0x80, 0x80, 0x80, 0xF0, 0xE0, 0x90, 0x90, 0x90, 0xE0,
            0xF0, 0x80, 0xF0, 0x80, 0xF0, 0xF0, 0x80, 0xF0, 0x80, 0x80,
        ];
        let mut i: usize = 0;
        while i < 80
            invariant
                i <= 80,
                font@ == font_spec(),
                m.wf(),
                self@ == (Chip8View { memory: self@.memory, ..m }),
                self@.memory.len() == MEMORY_SIZE,
                forall|a: int| 0 <= a < MEMORY_SIZE ==> #[trigger] self@.memory[a] == if FONT_ADDRESS <= a
                    < FONT_ADDRESS + i {
                    font_spec()[a - FONT_ADDRESS]
                } else {
                    m.memory[a]
                },
            decreases 80 - i,
        {
            self.memory[FONT_ADDRESS as usize + i] = font[i];
            i = i + 1;
        }
        assert(self@.memory =~= Seq::new(MEMORY_SIZE as nat, |a: int|
            if FONT_ADDRESS <= a < FONT_ADDRESS + 80 { font_spec()[a - FONT_ADDRESS] } else { m.memory[a] }));
    }
}

/// Whether the pixel at index `i` lies in the part of a sprite drawn at
/// (`x0`, `y0`) that comes before row `r`, column `c`.
pub open spec fn drawn_before(x0: int, y0: int, i: int, r: int, c: int) -> bool {
    let rr = (i / (DISPLAY_WIDTH as int) - y0) % (DISPLAY_HEIGHT as int);
    let cc = (i % (DISPLAY_WIDTH as int) - x0) % (DISPLAY_WIDTH as int);
    rr < r || (rr == r && cc < c)
}

/// Sprite cell (`r`, `c`) drawn at (`x0`, `y0`) lands on one pixel, and
/// pixel `i` is that one exactly when it is that cell.
proof fn lemma_sprite_cell(x0: int, y0: int, r: int, c: int, i: int)
    requires
        0 <= x0 < 64,
        0 <= y0 < 32,
        0 <= r < 32,
        0 <= c < 64,
        0 <= i < DISPLAY_SIZE,
    ensures
        ({
            let row = (y0 + r) % 32;
            let col = (x0 + c) % 64;
            let idx = row * 64 + col;
            &&& 0 <= idx < DISPLAY_SIZE
            &&& idx / 64 == row
            &&& idx % 64 == col
            &&& (row - y0) % 32 == r
            &&& (col - x0) % 64 == c
            &&& ((i / 64 - y0) % 32 == r && (i % 64 - x0) % 64 == c ==> i == idx)
        }),
{
    assert(0 <= i / 64 < 32);
    assert(0 <= i % 64 < 64);
    assert(i == (i / 64) * 64 + i % 64);
}

impl Chip8 {
    /// The four nibbles of the opcode at the program counter, most
    /// significant first; reading past the end of memory fails.
    pub fn get_current_instruction(&self) -> (r: Result<[u8; 4], Chip8Error>)
        requires
            self@.wf(),
        ensures
            self@.program_counter + 1 >= MEMORY_SIZE ==> r == Err::<[u8; 4], Chip8Error>(
                Chip8Error::OutOfBoundsAccess,
            ),
            self@.program_counter + 1 < MEMORY_SIZE ==> (r matches Ok(n) && fetch_spec(self@) == (
                n[0],
                n[1],
                n[2],
                n[3],
            ) && n[0] < 16 && n[1] < 16 && n[2] < 16 && n[3] < 16),
    {
        let program_counter = self.program_counter as usize;
        if program_counter + 1 >= MEMORY_SIZE {
            return Err(Chip8Error::OutOfBoundsAccess);
        }
        let most_significant_byte = self.memory[program_counter];
        let least_significant_byte = self.memory[program_counter + 1];
        Ok(
            [
                get_first_nibble(most_significant_byte),
                get_second_nibble(most_significant_byte),
                get_first_nibble(least_significant_byte),
                get_second_nibble(least_significant_byte),
            ],
        )
    }

    /// Fetches, decodes and executes the instruction at the program counter.
    /// `random_byte` is the random byte that a random-assign combines with its
    /// mask. On an error the machine is left as it was.
    pub fn execute_current_instruction(&mut self, random_byte: u8) -> (r: Result<(), Chip8Error>)
        requires
            old(self)@.wf(),
        ensures
            final(self)@.wf(),
            match step_spec(old(self)@, random_byte) {
                Ok(m) => r is Ok && final(self)@ == m,
                Err(e) => r == Err::<(), Chip8Error>(e) && final(self)@ == old(self)@,
            },
    {
        let nibbles = match self.get_current_instruction() {
            Ok(n) => n,
            Err(e) => return Err(e),
        };
        let instruction = Instruction::decode(nibbles);
        self.execute_instruction(instruction, random_byte)
    }

    /// Executes one decoded instruction as if it stood at the program counter.
    /// On an error the machine is left as it was.
    pub fn execute_instruction(&mut self, instruction: Instruction, random_byte: u8) -> (r: Result<(), Chip8Error>)
        requires
            old(self)@.wf(),
            instruction.well_formed(),
            old(self)@.program_counter + 1 < MEMORY_SIZE,
        ensures
            final(self)@.wf(),
            match execute_spec(old(self)@, instruction, random_byte) {
                Ok(m) => r is Ok && final(self)@ == m,
                Err(e) => r == Err::<(), Chip8Error>(e) && final(self)@ == old(self)@,
            },
    {
        let ghost m = self@;
        let next = self.program_counter + 2;
        match instruction {
            Instruction::NoOperation => {
                self.program_counter = next;
            },
            Instruction::ClearScreen => {
                self.display = [false; 2048];
                self.program_counter = next;
                assert(self@.display =~= Seq::new(DISPLAY_SIZE as nat, |i: int| false));
            },
            Instruction::ReturnSubroutine => {
                if self.call_stack_index == 0 {
                    return Err(Chip8Error::StackUnderflow);
                }
                self.call_stack_index = self.call_stack_index - 1;
                self.program_counter = self.call_stack[self.call_stack_index];
            },
            Instruction::Jump { address } => {
                self.program_counter = address;
            },
            Instruction::CallSubroutine { address } => {
                if self.call_stack_index == STACK_SIZE {
                    return Err(Chip8Error::StackOverflow);
                }
                self.call_stack[self.call_stack_index] = next;
                self.call_stack_index = self.call_stack_index + 1;
                self.program_counter = address;
            },
            Instruction::SkipIfEqualValue { x, value } => {
                self.program_counter = if self.variable_register[x as usize] == value { next + 2 } else { next };
            },
            Instruction::SkipIfNotEqualValue { x, value } => {
                self.program_counter = if self.variable_register[x as usize] != value { next + 2 } else { next };
            },
            Instruction::SkipIfEqual { x, y } => {
                let skip = self.variable_register[x as usize] == self.variable_register[y as usize];
                self.program_counter = if skip { next + 2 } else { next };
            },
            Instruction::SkipIfNotEqual { x, y } => {
                let skip = self.variable_register[x as usize] != self.variable_register[y as usize];
                self.program_counter = if skip { next + 2 } else { next };
            },
            Instruction::AssignValue { x, value } => {
                self.variable_register[x as usize] = value;
                self.program_counter = next;
            },
            Instruction::AddAssignValue { x, value } => {
                let sum = self.variable_register[x as usize] as u16 + value as u16;
                self.variable_register[x as usize] = (sum % 256) as u8;
                self.program_counter = next;
            },
            Instruction::Assign { x, y } => {
                self.variable_register[x as usize] = self.variable_register[y as usize];
                self.program_counter = next;
            },
            Instruction::BitwiseOr { x, y } => {
                self.variable_register[x as usize] = self.variable_register[x as usize] | self.variable_register[y as usize];
                self.program_counter = next;
            },
            Instruction::BitwiseAnd { x, y } => {
                self.variable_register[x as usize] = self.variable_register[x as usize] & self.variable_register[y as usize];
                self.program_counter = next;
            },
            Instruction::BitwiseXor { x, y } => {
                self.variable_register[x as usize] = self.variable_register[x as usize] ^ self.variable_register[y as usize];
                self.program_counter = next;
            },
            Instruction::AddAssign { x, y } => {
                let sum = self.variable_register[x as usize] as u16 + self.variable_register[y as usize] as u16;
                self.set_with_flag(x, (sum % 256) as u8, if sum > 255 { 1 } else { 0 });
            },
            Instruction::SubAssign { x, y } => {
                let vx = self.variable_register[x as usize];
                let vy = self.variable_register[y as usize];
                let difference = ((vx as u16 + 256 - vy as u16) % 256) as u8;
                self.set_with_flag(x, difference, if vx >= vy { 1 } else { 0 });
            },
            Instruction::SubAssignSwapped { x, y } => {
                let vx = self.variable_register[x as usize];
                let vy = self.variable_register[y as usize];
                let difference = ((vy as u16 + 256 - vx as u16) % 256) as u8;
                self.set_with_flag(x, difference, if vy >= vx { 1 } else { 0 });
            },
            Instruction::RightShiftAssign { x, y } => {
                let vy = self.variable_register[y as usize];
                self.set_with_flag(x, vy / 2, vy % 2);
            },
            Instruction::LeftShiftAssign { x, y } => {
                let vy = self.variable_register[y as usize];
                self.set_with_flag(x, ((vy as u16 * 2) % 256) as u8, vy / 128);
            },
            Instruction::SetAddressRegister { address } => {
                self.address_register = address;
                self.program_counter = next;
            },
            Instruction::JumpOffset { address } => {
                self.program_counter = address + self.variable_register[0] as u16;
            },
            Instruction::RandomNumberAssign { x, value } => {
                self.variable_register[x as usize] = random_byte & value;
                self.program_counter = next;
            },
            Instruction::DrawSprite { x, y, height } => {
                let vx = self.variable_register[x as usize];
                let vy = self.variable_register[y as usize];
                return self.draw_sprite(vx, vy, height);
            },
            Instruction::SkipOnKeyPressed { x } => {
                let key = self.variable_register[x as usize];
                let pressed = key < 16 && self.keypad[key as usize];
                self.program_counter = if pressed { next + 2 } else { next };
            },
            Instruction::SkipOnKeyNotPressed { x } => {
                let key = self.variable_register[x as usize];
                let pressed = key < 16 && self.keypad[key as usize];
                self.program_counter = if !pressed { next + 2 } else { next };
            },
            Instruction::StoreDelayTimer { x } => {
                self.variable_register[x as usize] = self.delay_timer;
                self.program_counter = next;
            },
            Instruction::WaitForKeyPress { x } => {
                self.wait_for_key_press(x);
            },
            Instruction::SetDelayTimer { x } => {
                self.delay_timer = self.variable_register[x as usize];
                self.program_counter = next;
            },
            Instruction::SetSoundTimer { x } => {
                self.sound_timer = self.variable_register[x as usize];
                self.program_counter = next;
            },
            Instruction::AddressRegisterAddAssign { x } => {
                let sum = self.address_register as u32 + self.variable_register[x as usize] as u32;
                self.address_register = (sum % 0x10000) as u16;
                self.program_counter = next;
            },
            Instruction::SetAddressRegisterToCharacter { x } => {
                self.address_register = FONT_ADDRESS + self.variable_register[x as usize] as u16 * GLYPH_HEIGHT;
                self.program_counter = next;
            },
            Instruction::StoreBinaryCodedDecimal { x } => {
                return self.store_binary_coded_decimal_at_address_register(x);
            },
            Instruction::StoreVariableRegisters { x } => {
                return self.store_variable_registers(x);
            },
            Instruction::LoadVariableRegisters { x } => {
                return self.load_variable_registers(x);
            },
        }
        Ok(())
    }

    /// XORs `height` sprite rows, read from the address register on, onto the
    /// display at (`vx` mod 64, `vy` mod 32), wrapping at the edges, and sets
    /// the flag register to 1 when a lit pixel went dark, else to 0.
    fn draw_sprite(&mut self, vx: u8, vy: u8, height: u8) -> (r: Result<(), Chip8Error>)
        requires
            old(self)@.wf(),
            height < 16,
            old(self)@.program_counter + 1 < MEMORY_SIZE,
        ensures
            final(self)@.wf(),
            match draw_spec(old(self)@, vx, vy, height) {
                Ok(m) => r is Ok && final(self)@ == m,
                Err(e) => r == Err::<(), Chip8Error>(e) && final(self)@ == old(self)@,
            },
    {
        let ghost m = self@;
        let start = self.address_register as usize;
        if height > 0 && start + height as usize > MEMORY_SIZE {
            return Err(Chip8Error::OutOfBoundsAccess);
        }
        let x0 = (vx % 64) as usize;
        let y0 = (vy % 32) as usize;
        let ghost h = height as int;
        let mut collision = false;
        let mut r: usize = 0;
        while r < height as usize
            invariant
                r <= h,
                h == height,
                h < 16,
                start == m.address_register,
                m.wf(),
                h > 0 ==> start + h <= MEMORY_SIZE,
                x0 == vx % 64,
                y0 == vy % 32,
                self@ == (Chip8View { display: self@.display, ..m }),
                self@.display.len() == DISPLAY_SIZE,
                forall|i: int| 0 <= i < DISPLAY_SIZE ==> #[trigger] self@.display[i] == (m.display[i] != (
                    flips_at(m, x0 as int, y0 as int, h, i) && drawn_before(x0 as int, y0 as int, i, r as int, 0)
                )),
                collision == exists|i: int| 0 <= i < DISPLAY_SIZE && #[trigger] m.display[i] && flips_at(
                    m, x0 as int, y0 as int, h, i) && drawn_before(x0 as int, y0 as int, i, r as int, 0),
            decreases h - r,
        {
            let byte = self.memory[start + r];
            let row = (y0 + r) % 32;
            let mut c: usize = 0;
            while c < 8
                invariant
                    r < h,
                    h == height,
                    h < 16,
                    c <= 8,
                    start == m.address_register,
                    m.wf(),
                    start + h <= MEMORY_SIZE,
                    byte == m.memory[start + r],
                    row == (y0 + r) % 32,
                    x0 == vx % 64,
                    y0 == vy % 32,
                    self@ == (Chip8View { display: self@.display, ..m }),
                    self@.display.len() == DISPLAY_SIZE,
                    forall|i: int| 0 <= i < DISPLAY_SIZE ==> #[trigger] self@.display[i] == (m.display[i] != (
                        flips_at(m, x0 as int, y0 as int, h, i) && drawn_before(x0 as int, y0 as int, i, r as int, c as int)
                    )),
                    collision == exists|i: int| 0 <= i < DISPLAY_SIZE && #[trigger] m.display[i] && flips_at(
                        m, x0 as int, y0 as int, h, i) && drawn_before(x0 as int, y0 as int, i, r as int, c as int),
                decreases 8 - c,
            {
                let column = (x0 + c) % 64;
                let index = row * 64 + column;
                proof {
                    lemma_sprite_cell(x0 as int, y0 as int, r as int, c as int, 0);
                }
                let ghost before = self@.display;
                let ghost before_collision = collision;
                if (byte >> (7 - c as u8)) & 1 == 1 {
                    if self.display[index] {
                        collision = true;
                    }
                    self.display[index] = !self.display[index];
                }
                proof {
                    assert(flips_at(m, x0 as int, y0 as int, h, index as int) == ((byte >> (7 - c as u8)) & 1 == 1));
                    assert forall|i: int| 0 <= i < DISPLAY_SIZE && i != index implies drawn_before(
                        x0 as int, y0 as int, i, r as int, c + 1) == drawn_before(x0 as int, y0 as int, i, r as int, c as int) by {
                        lemma_sprite_cell(x0 as int, y0 as int, r as int, c as int, i);
                    }
                    if collision && !before_collision {
                        assert(m.display[index as int] && flips_at(m, x0 as int, y0 as int, h, index as int)
                            && drawn_before(x0 as int, y0 as int, index as int, r as int, c + 1));
                    }
                    if before_collision {
                        let w = choose|i: int| 0 <= i < DISPLAY_SIZE && #[trigger] m.display[i] && flips_at(
                            m, x0 as int, y0 as int, h, i) && drawn_before(x0 as int, y0 as int, i, r as int, c as int);
                        assert(drawn_before(x0 as int, y0 as int, w, r as int, c + 1));
                    }
                }
                c = c + 1;
            }
            r = r + 1;
        }
        self.variable_register[FLAG_REGISTER] = if collision { 1 } else { 0 };
        self.program_counter = self.program_counter + 2;
        proof {
            let spec = draw_spec(m, vx, vy, height)->Ok_0;
            assert(self@.display =~= spec.display);
            assert(self@.registers =~= spec.registers);
        }
        Ok(())
    }

    /// Sets register `x` to `v`, then the flag register to `flag`, and moves on.
    fn set_with_flag(&mut self, x: u8, v: u8, flag: u8)
        requires
            old(self)@.wf(),
            x < 16,
            old(self)@.program_counter + 1 < MEMORY_SIZE,
        ensures
            final(self)@.wf(),
            final(self)@ == old(self)@.set_with_flag(x, v, flag),
    {
        self.variable_register[x as usize] = v;
        self.variable_register[FLAG_REGISTER] = flag;
        self.program_counter = self.program_counter + 2;
    }

    /// Stores the lowest pressed key in register `x` and moves on, or, with no
    /// key pressed, marks the machine as waiting and stays on this instruction.
    fn wait_for_key_press(&mut self, x: u8)
        requires
            old(self)@.wf(),
            x < 16,
            old(self)@.program_counter + 1 < MEMORY_SIZE,
        ensures
            final(self)@.wf(),
            Ok::<Chip8View, Chip8Error>(final(self)@) == execute_spec(
                old(self)@,
                Instruction::WaitForKeyPress { x },
                0,
            ),
    {
        let mut key: usize = 0;
        while key < 16 && !self.keypad[key]
            invariant
                key <= 16,
                self@.wf(),
                lowest_pressed(self@.keypad, 0) == lowest_pressed(self@.keypad, key as int),
            decreases 16 - key,
        {
            key = key + 1;
        }
        if key < 16 {
            self.awaiting_key = false;
            self.variable_register[x as usize] = key as u8;
            self.program_counter = self.program_counter + 2;
        } else {
            self.awaiting_key = true;
        }
    }

    /// Writes the hundreds, tens and units digits of register `x` at the
    /// address register and the two bytes after it.
    fn store_binary_coded_decimal_at_address_register(&mut self, x: u8) -> (r: Result<(), Chip8Error>)
        requires
            old(self)@.wf(),
            x < 16,
            old(self)@.program_counter + 1 < MEMORY_SIZE,
        ensures
            final(self)@.wf(),
            match execute_spec(old(self)@, Instruction::StoreBinaryCodedDecimal { x }, 0) {
                Ok(m) => r is Ok && final(self)@ == m,
                Err(e) => r == Err::<(), Chip8Error>(e) && final(self)@ == old(self)@,
            },
    {
        let i = self.address_register as usize;
        if i + 3 > MEMORY_SIZE {
            return Err(Chip8Error::OutOfBoundsAccess);
        }
        let v = self.variable_register[x as usize];
        self.memory[i] = v / 100;
        self.memory[i + 1] = (v / 10) % 10;
        self.memory[i + 2] = v % 10;
        self.program_counter = self.program_counter + 2;
        Ok(())
    }

    /// Copies registers `0..=x` to memory from the address register on.
    fn store_variable_registers(&mut self, x: u8) -> (r: Result<(), Chip8Error>)
        requires
            old(self)@.wf(),
            x < 16,
            old(self)@.program_counter + 1 < MEMORY_SIZE,
        ensures
            final(self)@.wf(),
            match execute_spec(old(self)@, Instruction::StoreVariableRegisters { x }, 0) {
                Ok(m) => r is Ok && final(self)@ == m,
                Err(e) => r == Err::<(), Chip8Error>(e) && final(self)@ == old(self)@,
            },
    {
        let ghost m = self@;
        let start = self.address_register as usize;
        if start + x as usize + 1 > MEMORY_SIZE {
            return Err(Chip8Error::OutOfBoundsAccess);
        }
        let mut k: usize = 0;
        while k <= x as usize
            invariant
                k <= x + 1,
                x < 16,
                start == m.address_register,
                m.wf(),
                start + x + 1 <= MEMORY_SIZE,
                self@ == (Chip8View { memory: self@.memory, ..m }),
                self@.memory.len() == MEMORY_SIZE,
                forall|a: int| 0 <= a < MEMORY_SIZE ==> #[trigger] self@.memory[a] == if start <= a < start + k {
                    m.registers[a - start]
                } else {
                    m.memory[a]
                },
            decreases x + 1 - k,
        {
            self.memory[start + k] = self.variable_register[k];
            k = k + 1;
        }
        self.program_counter = self.program_counter + 2;
        assert(self@.memory =~= Seq::new(MEMORY_SIZE as nat, |a: int|
            if start <= a <= start + x { m.registers[a - start] } else { m.memory[a] }));
        Ok(())
    }

    /// Copies memory from the address register on into registers `0..=x`.
    fn load_variable_registers(&mut self, x: u8) -> (r: Result<(), Chip8Error>)
        requires
            old(self)@.wf(),
            x < 16,
            old(self)@.program_counter + 1 < MEMORY_SIZE,
        ensures
            final(self)@.wf(),
            match execute_spec(old(self)@, Instruction::LoadVariableRegisters { x }, 0) {
                Ok(m) => r is Ok && final(self)@ == m,
                Err(e) => r == Err::<(), Chip8Error>(e) && final(self)@ == old(self)@,
            },
    {
        let ghost m = self@;
        let start = self.address_register as usize;
        if start + x as usize + 1 > MEMORY_SIZE {
            return Err(Chip8Error::OutOfBoundsAccess);
        }
        let mut k: usize = 0;
        while k <= x as usize
            invariant
                k <= x + 1,
                x < 16,
                start == m.address_register,
                m.wf(),
                start + x + 1 <= MEMORY_SIZE,
                self@ == (Chip8View { registers: self@.registers, ..m }),
                self@.registers.len() == 16,
                forall|j: int| 0 <= j < 16 ==> #[trigger] self@.registers[j] == if j < k {
                    m.memory[start + j]
                } else {
                    m.registers[j]
                },
            decreases x + 1 - k,
        {
            self.variable_register[k] = self.memory[start + k];
            k = k + 1;
        }
        self.program_counter = self.program_counter + 2;
        assert(self@.registers =~= Seq::new(16, |j: int| if j <= x { m.memory[start + j] } else { m.registers[j] }));
        Ok(())
    }
}

impl Chip8 {
    /// One tick of the 60 Hz timer clock: each timer that is not zero goes
    /// down by one.
    pub fn tick(&mut self)
        requires
            old(self)@.wf(),
        ensures
            final(self)@.wf(),
            final(self)@ == tick_spec(old(self)@),
    {
        if self.delay_timer > 0 {
            self.delay_timer = self.delay_timer - 1;
        }
        if self.sound_timer > 0 {
            self.sound_timer = self.sound_timer - 1;
        }
    }

    /// Presses or releases key `key` (0 to F).
    pub fn set_key(&mut self, key: u8, pressed: bool)
        requires
            old(self)@.wf(),
            key < 16,
        ensures
            final(self)@.wf(),
            final(self)@ == (Chip8View { keypad: old(self)@.keypad.update(key as int, pressed), ..old(self)@ }),
    {
        self.keypad[key as usize] = pressed;
    }

    /// Copies `program` into memory from the program offset on; a program that
    /// does not fit fails and leaves memory as it was.
    pub fn load_program(&mut self, program: &[u8]) -> (r: Result<(), Chip8Error>)
        requires
            old(self)@.wf(),
        ensures
            final(self)@.wf(),
            Self::PROGRAM_MEMORY_OFFSET + program@.len() > MEMORY_SIZE ==> r == Err::<(), Chip8Error>(
                Chip8Error::OutOfBoundsAccess,
            ) && final(self)@ == old(self)@,
            Self::PROGRAM_MEMORY_OFFSET + program@.len() <= MEMORY_SIZE ==> r is Ok && final(self)@ == (
            Chip8View {
                memory: Seq::new(MEMORY_SIZE as nat, |a: int|
                    if Self::PROGRAM_MEMORY_OFFSET <= a < Self::PROGRAM_MEMORY_OFFSET + program@.len() {
                        program@[a - Self::PROGRAM_MEMORY_OFFSET]
                    } else {
                        old(self)@.memory[a]
                    }),
                ..old(self)@
            }),
    {
        let ghost m = self@;
        let offset = Self::PROGRAM_MEMORY_OFFSET as usize;
        if program.len() > MEMORY_SIZE - offset {
            return Err(Chip8Error::OutOfBoundsAccess);
        }
        let mut k: usize = 0;
        while k < program.len()
            invariant
                k <= program@.len(),
                offset == Self::PROGRAM_MEMORY_OFFSET,
                offset + program@.len() <= MEMORY_SIZE,
                m.wf(),
                self@ == (Chip8View { memory: self@.memory, ..m }),
                self@.memory.len() == MEMORY_SIZE,
                forall|a: int| 0 <= a < MEMORY_SIZE ==> #[trigger] self@.memory[a] == if offset <= a < offset + k {
                    program@[a - offset]
                } else {
                    m.memory[a]
                },
            decreases program@.len() - k,
        {
            self.memory[offset + k] = program[k];
            k = k + 1;
        }
        assert(self@.memory =~= Seq::new(MEMORY_SIZE as nat, |a: int|
            if offset <= a < offset + program@.len() { program@[a - offset] } else { m.memory[a] }));
        Ok(())
    }

    /// The value of register `x`.
    pub fn register(&self, x: u8) -> (r: u8)
        requires
            self@.wf(),
            x < 16,
        ensures
            r == self@.reg(x),
    {
        self.variable_register[x as usize]
    }

    /// The byte at `address`.
    pub fn memory_at(&self, address: u16) -> (r: u8)
        requires
            self@.wf(),
            address < MEMORY_SIZE,
        ensures
            r == self@.memory[address as int],
    {
        self.memory[address as usize]
    }

    /// Whether pixel (`row`, `column`) is lit.
    pub fn pixel(&self, row: usize, column: usize) -> (r: bool)
        requires
            self@.wf(),
            row < DISPLAY_HEIGHT,
            column < DISPLAY_WIDTH,
        ensures
            r == self@.display[row * 64 + column],
    {
        self.display[row * 64 + column]
    }

    /// Whether every pixel is dark.
    pub fn is_display_clear(&self) -> (r: bool)
        requires
            self@.wf(),
        ensures
            r == forall|i: int| 0 <= i < DISPLAY_SIZE ==> !#[trigger] self@.display[i],
    {
        let mut i: usize = 0;
        while i < DISPLAY_SIZE
            invariant
                i <= DISPLAY_SIZE,
                self@.wf(),
                forall|j: int| 0 <= j < i ==> !#[trigger] self@.display[j],
            decreases DISPLAY_SIZE - i,
        {
            if self.display[i] {
                return false;
            }
            i = i + 1;
        }
        true
    }

    /// Whether key `key` is pressed.
    pub fn is_key_pressed(&self, key: u8) -> (r: bool)
        requires
            self@.wf(),
            key < 16,
        ensures
            r == self@.keypad[key as int],
    {
        self.keypad[key as usize]
    }

    pub fn program_counter(&self) -> (r: u16)
        ensures
            r == self@.program_counter,
    {
        self.program_counter
    }

    pub fn address_register(&self) -> (r: u16)
        ensures
            r == self@.address_register,
    {
        self.address_register
    }

    /// The number of subroutine calls in progress.
    pub fn call_stack_index(&self) -> (r: usize)
        ensures
            r == self@.call_stack_index,
    {
        self.call_stack_index
    }

    pub fn delay_timer(&self) -> (r: u8)
        ensures
            r == self@.delay_timer,
    {
        self.delay_timer
    }

    /// Sound plays while this is above zero.
    pub fn sound_timer(&self) -> (r: u8)
        ensures
            r == self@.sound_timer,
    {
        self.sound_timer
    }

    /// Whether a wait-for-key instruction found no key pressed and is pending.
    pub fn is_awaiting_key(&self) -> (r: bool)
        ensures
            r == self@.awaiting_key,
    {
        self.awaiting_key
    }
}

} // verus!
