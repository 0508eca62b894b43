//! The CHIP-8 virtual machine: memory, registers, display, keypad, timers,
//! and the fetch-decode-execute cycle that ties them together.

pub mod display;
pub mod instruction;
pub mod keypad;
pub mod memory;
pub mod register;
pub mod semantics;
pub mod types;

use vstd::prelude::*;

use crate::chip8::display::Display;
use crate::chip8::instruction::{Instruction, UnknownOpcode};
use crate::chip8::keypad::Keypad;
use crate::chip8::memory::{loaded_rom, Memory, RomTooLarge};
use crate::chip8::register::{RegisterFile, RegisterIndex};
use crate::chip8::semantics::{
    advance, draw_cols, draw_rows, exec_inst, inst_addresses_in_bounds, initial_machine,
    load_block, step_in_bounds, step_spec, store_block, Machine, MachineState, StepError,
};
use crate::chip8::types::Nibble;

verus! {

/// Relies on rand::random: a byte drawn from the thread's generator.
/// Nothing is assumed of the value.
#[verifier::external_body]
fn random_byte() -> u8 {
    rand::random()
}

/// The machine. Its mathematical value is a `Machine`; the view's `stack`
/// holds only the `stack_pointer` pending return addresses.
pub struct Chip8 {
    /// The 4096-byte address space.
    pub memory: Memory,
    /// The sixteen general-purpose registers.
    pub registers: RegisterFile,
    /// The 16-bit index register.
    pub index_register: u16,
    /// The program counter.
    pub program_counter: u16,
    /// Storage for the call stack; entries at and beyond `stack_pointer`
    /// are dead.
    pub stack: [u16; 16],
    /// How many return addresses are pending.
    pub stack_pointer: u8,
    /// The delay timer.
    pub delay_timer: u8,
    /// The sound timer.
    pub sound_timer: u8,
    /// The framebuffer.
    pub display: Display,
    /// The sixteen key states, fed by the host.
    pub keypad: Keypad,
    /// Running, or blocked on the "wait for key" instruction.
    pub state: MachineState,
}

impl View for Chip8 {
    type V = Machine;

    open spec fn view(&self) -> Machine {
        Machine {
            mem: self.memory@,
            regs: self.registers@,
            index: self.index_register,
            pc: self.program_counter,
            stack: self.stack@.take(self.stack_pointer as int),
            delay: self.delay_timer,
            sound: self.sound_timer,
            screen: self.display@,
            keys: self.keypad@,
            state: self.state,
        }
    }
}

impl Chip8 {
    /// The machine invariant: component sizes as the model demands, and a
    /// stack pointer within the sixteen stack slots. Construction
    /// establishes it and every operation preserves it.
    pub open spec fn wf(&self) -> bool {
        &&& self.memory@.len() == 4096
        &&& self.registers@.len() == 16
        &&& self.stack_pointer <= 16
        &&& self.display.wf()
        &&& self.keypad@.len() == 16
        &&& self@.wf()
    }

    /// A machine ready to load a ROM: font table installed, program counter
    /// at the ROM base address, everything else zeroed.
    pub fn new() -> (r: Chip8)
        ensures
            r.wf(),
            r@ == initial_machine(),
    {
        let r = Chip8 {
            memory: Memory::new(),
            registers: RegisterFile::new(),
            index_register: 0,
            program_counter: 0x200,
            stack: [0u16; 16],
            stack_pointer: 0,
            delay_timer: 0,
            sound_timer: 0,
            display: Display::new(),
            keypad: Keypad::new(),
            state: MachineState::Running,
        };
        proof {
            assert(r@.regs =~= initial_machine().regs);
            assert(r@.stack =~= initial_machine().stack);
            assert(r@.keys =~= initial_machine().keys);
            assert(r@ =~~= initial_machine());
        }
        r
    }

    /// Copies a ROM image into memory at the ROM base address; reports
    /// `RomTooLarge` (and changes nothing) when the image would not fit.
    pub fn load_rom(&mut self, rom_data: &[u8]) -> (r: Result<(), RomTooLarge>)
        requires
            old(self).wf(),
        ensures
            final(self).wf(),
            r is Ok <==> rom_data@.len() <= 4096 - 0x200,
            r is Ok ==> final(self)@ == (Machine { mem: loaded_rom(old(self)@.mem, rom_data@), ..old(self)@ }),
            r is Err ==> final(self)@ == old(self)@ && r == Err::<(), RomTooLarge>(RomTooLarge),
    {
        let result = self.memory.load_rom(rom_data);
        proof {
            if result is Ok {
                assert(self@ =~~= Machine { mem: loaded_rom(old(self)@.mem, rom_data@), ..old(self)@ });
            } else {
                assert(self@ =~~= old(self)@);
            }
        }
        result
    }

    /// Whether the machine is blocked on the "wait for key" instruction.
    pub fn is_waiting_for_key(&self) -> (r: bool)
        ensures
            r == (self@.state is WaitingForKey),
    {
        match self.state {
            MachineState::WaitingForKey(_) => true,
            MachineState::Running => false,
        }
    }

    /// One 60Hz timer tick, independent of the instruction cycle rate: each
    /// nonzero timer goes down by one, and a timer at zero stays at zero.
    /// Returns true exactly when this tick took the sound timer to zero,
    /// the moment the host's tone should stop.
    pub fn update_timers(&mut self) -> (sound_just_stopped: bool)
        requires
            old(self).wf(),
        ensures
            final(self).wf(),
            final(self)@ == (Machine {
                delay: if old(self)@.delay > 0 { (old(self)@.delay - 1) as u8 } else { 0 },
                sound: if old(self)@.sound > 0 { (old(self)@.sound - 1) as u8 } else { 0 },
                ..old(self)@
            }),
            sound_just_stopped == (old(self)@.sound == 1),
    {
        if self.delay_timer > 0 {
            self.delay_timer -= 1;
        }
        let mut sound_just_stopped = false;
        if self.sound_timer > 0 {
            self.sound_timer -= 1;
            if self.sound_timer == 0 {
                sound_just_stopped = true;
            }
        }
        proof {
            assert(self@ =~~= Machine {
                delay: if old(self)@.delay > 0 { (old(self)@.delay - 1) as u8 } else { 0 },
                sound: if old(self)@.sound > 0 { (old(self)@.sound - 1) as u8 } else { 0 },
                ..old(self)@
            });
        }
        sound_just_stopped
    }

    /// The sprite-drawing instruction: reads `n` sprite rows at the index
    /// register and XOR-toggles them onto the framebuffer at the
    /// coordinates in `Vx`, `Vy`, wrapping modulo the display size; `VF`
    /// reports whether any toggle turned an on pixel off.
    fn op_display(&mut self, x: RegisterIndex, y: RegisterIndex, n: Nibble)
        requires
            old(self).wf(),
            x.wf(),
            y.wf(),
            n.wf(),
            old(self)@.index + n.v <= 4096,
        ensures
            final(self).wf(),
            Ok::<Machine, StepError>(final(self)@) == exec_inst(
                old(self)@,
                Instruction::Display(x, y, n),
                0,
            ),
    {
        let ghost m0 = old(self)@;
        let vx = self.registers.get(x) as usize;
        let vy = self.registers.get(y) as usize;
        let height = n.value() as usize;
        self.registers.set(RegisterIndex { v: 15 }, 0);
        let mut row: usize = 0;
        while row < height
            invariant
                self.wf(),
                row <= height,
                height == n.v,
                m0.wf(),
                m0.index + height <= 4096,
                vx == m0.regs[x.v as int],
                vy == m0.regs[y.v as int],
                x.wf(),
                self@.mem == m0.mem,
                self@.index == m0.index,
                self@.pc == m0.pc,
                self@.stack == m0.stack,
                self@.delay == m0.delay,
                self@.sound == m0.sound,
                self@.keys == m0.keys,
                self@.state == m0.state,
                self@.screen == draw_rows(
                    m0.screen,
                    m0.mem,
                    m0.index as int,
                    vx as int,
                    vy as int,
                    row as nat,
                ).0,
                self@.regs == m0.regs.update(
                    15,
                    if draw_rows(m0.screen, m0.mem, m0.index as int, vx as int, vy as int, row as nat).1 {
                        1u8
                    } else {
                        0u8
                    },
                ),
            decreases height - row,
        {
            let ghost rows_prev = draw_rows(
                m0.screen,
                m0.mem,
                m0.index as int,
                vx as int,
                vy as int,
                row as nat,
            );
            let sprite_byte = self.memory.read_byte(self.index_register + row as u16);
            let ghost py = (vy + row) % 32;
            let mut col: usize = 0;
            while col < 8
                invariant
                    self.wf(),
                    col <= 8,
                    row < height,
                    height == n.v,
                    m0.wf(),
                    m0.index + height <= 4096,
                    vx == m0.regs[x.v as int],
                    vy == m0.regs[y.v as int],
                    x.wf(),
                    sprite_byte == m0.mem[m0.index + row],
                    py == (vy + row) % 32,
                    rows_prev == draw_rows(
                        m0.screen,
                        m0.mem,
                        m0.index as int,
                        vx as int,
                        vy as int,
                        row as nat,
                    ),
                    self@.mem == m0.mem,
                    self@.index == m0.index,
                    self@.pc == m0.pc,
                    self@.stack == m0.stack,
                    self@.delay == m0.delay,
                    self@.sound == m0.sound,
                    self@.keys == m0.keys,
                    self@.state == m0.state,
                    self@.screen == draw_cols(rows_prev.0, sprite_byte, vx as int, py, col as nat).0,
                    self@.regs == m0.regs.update(
                        15,
                        if rows_prev.1 || draw_cols(rows_prev.0, sprite_byte, vx as int, py, col as nat).1 {
                            1u8
                        } else {
                            0u8
                        },
                    ),
                decreases 8 - col,
            {
                let ghost cols_prev = draw_cols(rows_prev.0, sprite_byte, vx as int, py, col as nat);
                if sprite_byte & (0x80u8 >> (col as u8)) != 0 {
                    let pixel_x = (vx + col) % 64;
                    let pixel_y = (vy + row) % 32;
                    if self.display.toggle_pixel(pixel_x, pixel_y) {
                        self.registers.set(RegisterIndex { v: 15 }, 1);
                        proof {
                            assert(self@.regs =~= m0.regs.update(15, 1u8));
                        }
                    }
                }
                col += 1;
                proof {
                    assert(self@.screen == draw_cols(
                        rows_prev.0,
                        sprite_byte,
                        vx as int,
                        py,
                        col as nat,
                    ).0);
                }
            }
            row += 1;
            proof {
                assert(draw_rows(
                    m0.screen,
                    m0.mem,
                    m0.index as int,
                    vx as int,
                    vy as int,
                    row as nat,
                ) == (
                    draw_cols(rows_prev.0, sprite_byte, vx as int, py, 8).0,
                    rows_prev.1 || draw_cols(rows_prev.0, sprite_byte, vx as int, py, 8).1,
                ));
            }
        }
        proof {
            assert(self@ =~~= Machine {
                screen: draw_rows(m0.screen, m0.mem, m0.index as int, vx as int, vy as int, n.v as nat).0,
                regs: m0.regs.update(
                    15,
                    if draw_rows(m0.screen, m0.mem, m0.index as int, vx as int, vy as int, n.v as nat).1 {
                        1u8
                    } else {
                        0u8
                    },
                ),
                ..m0
            });
        }
    }

    /// The register-block store: copies `V0..=Vx` to consecutive memory
    /// starting at the index register.
    fn op_store_registers(&mut self, x: RegisterIndex)
        requires
            old(self).wf(),
            x.wf(),
            old(self)@.index + x.v < 4096,
        ensures
            final(self).wf(),
            Ok::<Machine, StepError>(final(self)@) == exec_inst(
                old(self)@,
                Instruction::StoreRegisters(x),
                0,
            ),
    {
        let ghost m0 = old(self)@;
        let last = x.value();
        let mut i: usize = 0;
        while i <= last
            invariant
                self.wf(),
                i <= last + 1,
                last == x.v,
                last < 16,
                m0.wf(),
                m0.index + last < 4096,
                self@.regs == m0.regs,
                self@.index == m0.index,
                self@.pc == m0.pc,
                self@.stack == m0.stack,
                self@.delay == m0.delay,
                self@.sound == m0.sound,
                self@.screen == m0.screen,
                self@.keys == m0.keys,
                self@.state == m0.state,
                self@.mem == store_block(m0.mem, m0.regs, m0.index as int, i as nat),
            decreases last + 1 - i,
        {
            let value = self.registers.get(RegisterIndex { v: i as u8 });
            self.memory.write_byte(self.index_register + i as u16, value);
            i += 1;
        }
        proof {
            assert(self@ =~~= Machine {
                mem: store_block(m0.mem, m0.regs, m0.index as int, (x.v + 1) as nat),
                ..m0
            });
        }
    }

    /// The register-block load: fills `V0..=Vx` from consecutive memory
    /// starting at the index register.
    fn op_load_registers(&mut self, x: RegisterIndex)
        requires
            old(self).wf(),
            x.wf(),
            old(self)@.index + x.v < 4096,
        ensures
            final(self).wf(),
            Ok::<Machine, StepError>(final(self)@) == exec_inst(
                old(self)@,
                Instruction::LoadRegisters(x),
                0,
            ),
    {
        let ghost m0 = old(self)@;
        let last = x.value();
        let mut i: usize = 0;
        while i <= last
            invariant
                self.wf(),
                i <= last + 1,
                last == x.v,
                last < 16,
                m0.wf(),
                m0.index + last < 4096,
                self@.mem == m0.mem,
                self@.index == m0.index,
                self@.pc == m0.pc,
                self@.stack == m0.stack,
                self@.delay == m0.delay,
                self@.sound == m0.sound,
                self@.screen == m0.screen,
                self@.keys == m0.keys,
                self@.state == m0.state,
                self@.regs == load_block(m0.regs, m0.mem, m0.index as int, i as nat),
            decreases last + 1 - i,
        {
            let value = self.memory.read_byte(self.index_register + i as u16);
            self.registers.set(RegisterIndex { v: i as u8 }, value);
            i += 1;
        }
        proof {
            assert(self@ =~~= Machine {
                regs: load_block(m0.regs, m0.mem, m0.index as int, (x.v + 1) as nat),
                ..m0
            });
        }
    }

    /// Executes one already-decoded instruction against the current state;
    /// the program counter already sits past the instruction, so the
    /// control-flow arms overwrite it. `random_byte` feeds only the
    /// random-number instruction. A failure (a call with a full stack, a
    /// return with no matching call) changes nothing.
    pub fn execute_instruction(&mut self, inst: Instruction, random_byte: u8) -> (r: Result<
        (),
        StepError,
    >)
        requires
            old(self).wf(),
            inst.wf(),
            inst_addresses_in_bounds(old(self)@, inst),
        ensures
            final(self).wf(),
            match r {
                Ok(()) => exec_inst(old(self)@, inst, random_byte) == Ok::<Machine, StepError>(
                    final(self)@,
                ),
                Err(e) => exec_inst(old(self)@, inst, random_byte) == Err::<Machine, StepError>(e)
                    && final(self)@ == old(self)@,
            },
    {
        let ghost m0 = old(self)@;
        let vf = RegisterIndex { v: 15 };
        match inst {
            Instruction::Clear => {
                self.display.clear();
                proof {
                    assert(self@ =~~= Machine { screen: crate::chip8::display::blank_screen(), ..m0 });
                }
            },
            Instruction::Return => {
                if self.stack_pointer == 0 {
                    return Err(StepError::StackUnderflow);
                }
                self.stack_pointer -= 1;
                self.program_counter = self.stack[self.stack_pointer as usize];
                proof {
                    assert(self@.stack =~= m0.stack.drop_last());
                    assert(self@ =~~= Machine { pc: m0.stack.last(), stack: m0.stack.drop_last(), ..m0 });
                }
            },
            Instruction::Jump(addr) => {
                self.program_counter = addr;
                proof {
                    assert(self@ =~~= Machine { pc: addr, ..m0 });
                }
            },
            Instruction::Call(addr) => {
                if self.stack_pointer >= 16 {
                    return Err(StepError::StackOverflow);
                }
                self.stack[self.stack_pointer as usize] = self.program_counter;
                self.stack_pointer += 1;
                self.program_counter = addr;
                proof {
                    assert(self@.stack =~= m0.stack.push(m0.pc));
                    assert(self@ =~~= Machine { stack: m0.stack.push(m0.pc), pc: addr, ..m0 });
                }
            },
            Instruction::SkipEqual(x, kk) => {
                if self.registers.get(x) == kk {
                    self.program_counter = self.program_counter.wrapping_add(2);
                }
                proof {
                    assert(self@ =~~= (exec_inst(m0, inst, random_byte))->Ok_0);
                }
            },
            Instruction::SkipNotEqual(x, kk) => {
                if self.registers.get(x) != kk {
                    self.program_counter = self.program_counter.wrapping_add(2);
                }
                proof {
                    assert(self@ =~~= (exec_inst(m0, inst, random_byte))->Ok_0);
                }
            },
            Instruction::SkipEqualRegister(x, y) => {
                if self.registers.get(x) == self.registers.get(y) {
                    self.program_counter = self.program_counter.wrapping_add(2);
                }
                proof {
                    assert(self@ =~~= (exec_inst(m0, inst, random_byte))->Ok_0);
                }
            },
            Instruction::Load(x, kk) => {
                self.registers.set(x, kk);
                proof {
                    assert(self@ =~~= Machine { regs: m0.regs.update(x.v as int, kk), ..m0 });
                }
            },
            Instruction::Add(x, kk) => {
                let current = self.registers.get(x);
                self.registers.set(x, current.wrapping_add(kk));
                proof {
                    assert(self@ =~~= (exec_inst(m0, inst, random_byte))->Ok_0);
                }
            },
            Instruction::LoadRegister(x, y) => {
                let value = self.registers.get(y);
                self.registers.set(x, value);
                proof {
                    assert(self@ =~~= (exec_inst(m0, inst, random_byte))->Ok_0);
                }
            },
            Instruction::LoadOr(x, y) => {
                let value = self.registers.get(x) | self.registers.get(y);
                self.registers.set(x, value);
                proof {
                    assert(self@ =~~= (exec_inst(m0, inst, random_byte))->Ok_0);
                }
            },
            Instruction::LoadAnd(x, y) => {
                let value = self.registers.get(x) & self.registers.get(y);
                self.registers.set(x, value);
                proof {
                    assert(self@ =~~= (exec_inst(m0, inst, random_byte))->Ok_0);
                }
            },
            Instruction::LoadXor(x, y) => {
                let value = self.registers.get(x) ^ self.registers.get(y);
                self.registers.set(x, value);
                proof {
                    assert(self@ =~~= (exec_inst(m0, inst, random_byte))->Ok_0);
                }
            },
            Instruction::LoadAdd(x, y) => {
                let vx = self.registers.get(x);
                let vy = self.registers.get(y);
                let carry: u8 = if (vx as u16) + (vy as u16) > 0xFF {
                    1
                } else {
                    0
                };
                self.registers.set(x, vx.wrapping_add(vy));
                self.registers.set(vf, carry);
                proof {
                    assert(self@ =~~= (exec_inst(m0, inst, random_byte))->Ok_0);
                }
            },
            Instruction::LoadSub(x, y) => {
                let vx = self.registers.get(x);
                let vy = self.registers.get(y);
                let no_borrow: u8 = if vx >= vy {
                    1
                } else {
                    0
                };
                self.registers.set(x, vx.wrapping_sub(vy));
                self.registers.set(vf, no_borrow);
                proof {
                    assert(self@ =~~= (exec_inst(m0, inst, random_byte))->Ok_0);
                }
            },
            Instruction::LoadShiftRight(x) => {
                let lsb = self.registers.get(x) & 0x1;
                self.registers.set(vf, lsb);
                let value = self.registers.get(x);
                self.registers.set(x, value >> 1u8);
                proof {
                    assert(self@ =~~= (exec_inst(m0, inst, random_byte))->Ok_0);
                }
            },
            Instruction::LoadSubNegative(x, y) => {
                let vx = self.registers.get(x);
                let vy = self.registers.get(y);
                let no_borrow: u8 = if vy >= vx {
                    1
                } else {
                    0
                };
                self.registers.set(x, vy.wrapping_sub(vx));
                self.registers.set(vf, no_borrow);
                proof {
                    assert(self@ =~~= (exec_inst(m0, inst, random_byte))->Ok_0);
                }
            },
            Instruction::LoadShiftLeft(x) => {
                let msb = (self.registers.get(x) & 0x80) >> 7u8;
                self.registers.set(vf, msb);
                let value = self.registers.get(x);
                self.registers.set(x, value << 1u8);
                proof {
                    assert(self@ =~~= (exec_inst(m0, inst, random_byte))->Ok_0);
                }
            },
            Instruction::SkipNotEqualRegister(x, y) => {
                if self.registers.get(x) != self.registers.get(y) {
                    self.program_counter = self.program_counter.wrapping_add(2);
                }
                proof {
                    assert(self@ =~~= (exec_inst(m0, inst, random_byte))->Ok_0);
                }
            },
            Instruction::LoadIndexRegister(addr) => {
                self.index_register = addr;
                proof {
                    assert(self@ =~~= Machine { index: addr, ..m0 });
                }
            },
            Instruction::JumpWithOffset(addr) => {
                let offset = self.registers.get(RegisterIndex { v: 0 }) as u16;
                self.program_counter = addr + offset;
                proof {
                    assert(self@ =~~= (exec_inst(m0, inst, random_byte))->Ok_0);
                }
            },
            Instruction::Random(x, kk) => {
                self.registers.set(x, random_byte & kk);
                proof {
                    assert(self@ =~~= (exec_inst(m0, inst, random_byte))->Ok_0);
                }
            },
            Instruction::Display(x, y, nibble) => {
                self.op_display(x, y, nibble);
                proof {
                    assert(self@ =~~= (exec_inst(m0, inst, random_byte))->Ok_0);
                }
            },
            Instruction::SkipKeyPress(x) => {
                let key = self.registers.get(x);
                if self.keypad.is_key_pressed(key) {
                    self.program_counter = self.program_counter.wrapping_add(2);
                }
                proof {
                    assert(self@ =~~= (exec_inst(m0, inst, random_byte))->Ok_0);
                }
            },
            Instruction::SkipKeyNotPress(x) => {
                let key = self.registers.get(x);
                if !self.keypad.is_key_pressed(key) {
                    self.program_counter = self.program_counter.wrapping_add(2);
                }
                proof {
                    assert(self@ =~~= (exec_inst(m0, inst, random_byte))->Ok_0);
                }
            },
            Instruction::LoadDelayTimer(x) => {
                let value = self.delay_timer;
                self.registers.set(x, value);
                proof {
                    assert(self@ =~~= (exec_inst(m0, inst, random_byte))->Ok_0);
                }
            },
            Instruction::LoadKeyPress(x) => {
                self.state = MachineState::WaitingForKey(x);
                proof {
                    assert(self@ =~~= Machine { state: MachineState::WaitingForKey(x), ..m0 });
                }
            },
            Instruction::StoreDelayTimer(x) => {
                self.delay_timer = self.registers.get(x);
                proof {
                    assert(self@ =~~= Machine { delay: m0.regs[x.v as int], ..m0 });
                }
            },
            Instruction::StoreSoundTimer(x) => {
                self.sound_timer = self.registers.get(x);
                proof {
                    assert(self@ =~~= Machine { sound: m0.regs[x.v as int], ..m0 });
                }
            },
            Instruction::AddIndexRegister(x) => {
                let value = self.registers.get(x) as u16;
                self.index_register = self.index_register.wrapping_add(value);
                proof {
                    assert(self@ =~~= (exec_inst(m0, inst, random_byte))->Ok_0);
                }
            },
            Instruction::LoadFontCharacter(x) => {
                let value = self.registers.get(x);
                self.index_register = memory::FONTSET_START_ADDRESS as u16 + (value as u16) * 5;
                proof {
                    assert(self@ =~~= (exec_inst(m0, inst, random_byte))->Ok_0);
                }
            },
            Instruction::LoadBinaryCodedDecimal(x) => {
                let value = self.registers.get(x);
                self.memory.write_byte(self.index_register, (value / 100) % 10);
                self.memory.write_byte(self.index_register + 1, (value % 100) / 10);
                self.memory.write_byte(self.index_register + 2, value % 10);
                proof {
                    assert(self@ =~~= (exec_inst(m0, inst, random_byte))->Ok_0);
                }
            },
            Instruction::StoreRegisters(x) => {
                self.op_store_registers(x);
                proof {
                    assert(self@ =~~= (exec_inst(m0, inst, random_byte))->Ok_0);
                }
            },
            Instruction::LoadRegisters(x) => {
                self.op_load_registers(x);
                proof {
                    assert(self@ =~~= (exec_inst(m0, inst, random_byte))->Ok_0);
                }
            },
        }
        Ok(())
    }

    /// One step of the machine, with the random byte passed in so that the
    /// step is a function of its arguments: while running, fetch, advance
    /// the program counter past the instruction, decode and execute; while
    /// waiting for a key, poll the keypad instead. A failed step (unknown
    /// opcode, stack discipline) reports its error and changes nothing.
    pub fn cycle_with_random(&mut self, random_byte: u8) -> (r: Result<(), StepError>)
        requires
            old(self).wf(),
            step_in_bounds(old(self)@),
        ensures
            final(self).wf(),
            match r {
                Ok(()) => step_spec(old(self)@, random_byte) == Ok::<Machine, StepError>(
                    final(self)@,
                ),
                Err(e) => step_spec(old(self)@, random_byte) == Err::<Machine, StepError>(e)
                    && final(self)@ == old(self)@,
            },
    {
        match self.state {
            MachineState::WaitingForKey(x) => {
                match self.keypad.get_pressed_key() {
                    Some(key) => {
                        self.registers.set(x, key);
                        self.state = MachineState::Running;
                        proof {
                            assert(self@ =~~= Machine {
                                regs: old(self)@.regs.update(x.v as int, key),
                                state: MachineState::Running,
                                ..old(self)@
                            });
                        }
                        Ok(())
                    },
                    None => {
                        proof {
                            assert(self@ =~~= old(self)@);
                        }
                        Ok(())
                    },
                }
            },
            MachineState::Running => {
                let raw_instruction = self.memory.read_instruction(self.program_counter);
                let instruction = match Instruction::decode(raw_instruction) {
                    Ok(instruction) => instruction,
                    Err(UnknownOpcode { word }) => {
                        return Err(StepError::UnknownOpcode(word));
                    },
                };
                let pc0 = self.program_counter;
                self.program_counter = pc0 + 2;
                proof {
                    assert(self@ =~~= advance(old(self)@));
                }
                match self.execute_instruction(instruction, random_byte) {
                    Ok(()) => Ok(()),
                    Err(e) => {
                        // a failed step leaves the machine unchanged
                        self.program_counter = pc0;
                        proof {
                            assert(self@ =~~= old(self)@);
                        }
                        Err(e)
                    },
                }
            },
        }
    }

    /// One step of the machine, drawing the random-number instruction's
    /// byte from the generator: there is some byte for which the step is
    /// exactly `step_spec`, and only the random-number instruction depends
    /// on which.
    pub fn emulate_cycle(&mut self) -> (r: Result<(), StepError>)
        requires
            old(self).wf(),
            step_in_bounds(old(self)@),
        ensures
            final(self).wf(),
            exists|b: u8|
                #[trigger] step_spec(old(self)@, b) == match r {
                    Ok(()) => Ok::<Machine, StepError>(final(self)@),
                    Err(e) => Err::<Machine, StepError>(e),
                },
            r is Err ==> final(self)@ == old(self)@,
    {
        let b = random_byte();
        let r = self.cycle_with_random(b);
        proof {
            assert(step_spec(old(self)@, b) == match r {
                Ok(()) => Ok::<Machine, StepError>(self@),
                Err(e) => Err::<Machine, StepError>(e),
            });
        }
        r
    }
}

} // verus!
