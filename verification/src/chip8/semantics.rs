//! The mathematical model of the machine and of one execution step: a ghost
//! machine state, and the transition that one decoded instruction makes.

use vstd::prelude::*;

use crate::chip8::display::{blank_screen, toggled};
use crate::chip8::instruction::{decode_spec, Instruction};
use crate::chip8::keypad::first_pressed;
use crate::chip8::memory::word_at;
use crate::chip8::register::RegisterIndex;
use crate::chip8::types::Nibble;

verus! {

/// Whether the interpreter is executing instructions or blocked on the
/// "wait for key" instruction; the blocked state remembers the register
/// that receives the key.
#[derive(Clone, Copy, Debug, PartialEq, Eq, Structural)]
pub enum MachineState {
    /// Fetching and executing one instruction per step.
    Running,
    /// Blocked until some key is pressed.
    WaitingForKey(RegisterIndex),
}

/// A failure of a single step. Every failure leaves the machine unchanged.
#[derive(Clone, Copy, Debug, PartialEq, Eq, Structural)]
pub enum StepError {
    /// The fetched word matches no instruction pattern.
    UnknownOpcode(u16),
    /// A call was made with sixteen return addresses already stacked.
    StackOverflow,
    /// A return was made with no matching call.
    StackUnderflow,
}

/// The machine, as the contracts speak of it: plain mathematical values for
/// every component.
#[verifier::ext_equal]
pub ghost struct Machine {
    /// The 4096 memory bytes.
    pub mem: Seq<u8>,
    /// The sixteen general-purpose registers.
    pub regs: Seq<u8>,
    /// The 16-bit index register.
    pub index: u16,
    /// The program counter.
    pub pc: u16,
    /// The pending return addresses, oldest first.
    pub stack: Seq<u16>,
    /// The delay timer.
    pub delay: u8,
    /// The sound timer.
    pub sound: u8,
    /// The framebuffer, as 32 rows of 64 pixels.
    pub screen: Seq<Seq<bool>>,
    /// The sixteen key states.
    pub keys: Seq<bool>,
    /// Running, or blocked on the "wait for key" instruction.
    pub state: MachineState,
}

impl Machine {
    /// The shape every reachable machine has: component sizes, a call stack
    /// of at most sixteen return addresses, and a valid destination register
    /// while waiting for a key.
    pub open spec fn wf(&self) -> bool {
        &&& self.mem.len() == 4096
        &&& self.regs.len() == 16
        &&& self.stack.len() <= 16
        &&& self.screen.len() == 32
        &&& (forall|y: int| 0 <= y < 32 ==> (#[trigger] self.screen[y]).len() == 64)
        &&& self.keys.len() == 16
        &&& match self.state {
            MachineState::Running => true,
            MachineState::WaitingForKey(x) => x.wf(),
        }
    }
}

/// The machine as built at initialization: font table installed, program
/// counter at the ROM base address, everything else zeroed, running.
pub open spec fn initial_machine() -> Machine {
    Machine {
        mem: crate::chip8::memory::initial_memory(),
        regs: Seq::new(16, |i: int| 0u8),
        index: 0,
        pc: 0x200,
        stack: Seq::empty(),
        delay: 0,
        sound: 0,
        screen: blank_screen(),
        keys: Seq::new(16, |i: int| false),
        state: MachineState::Running,
    }
}

/// `v` reduced into a 16-bit word; `v` is at most one wrap away.
pub open spec fn wrap16(v: int) -> u16
    recommends
        0 <= v < 0x20000,
{
    if v >= 0x10000 {
        (v - 0x10000) as u16
    } else {
        v as u16
    }
}

/// `v` reduced into a byte; `v` is at most one wrap away.
pub open spec fn wrap8(v: int) -> u8
    recommends
        0 <= v < 0x200,
{
    if v >= 0x100 {
        (v - 0x100) as u8
    } else {
        v as u8
    }
}

/// `a - b` as the machine computes it: wrapping at zero.
pub open spec fn sub_byte(a: u8, b: u8) -> u8 {
    if a >= b {
        (a - b) as u8
    } else {
        (a - b + 0x100) as u8
    }
}

/// Whether the key named by `key` is down; a value outside `[0, 15]` counts
/// as "not pressed".
pub open spec fn key_down(keys: Seq<bool>, key: u8) -> bool {
    key < 16 && keys[key as int]
}

/// Whether sprite column `col` (0 is the leftmost pixel) of a sprite row
/// byte is set.
pub open spec fn sprite_bit_set(byte: u8, col: int) -> bool
    recommends
        0 <= col < 8,
{
    byte & (0x80u8 >> (col as u8)) != 0
}

/// The framebuffer and collision flag after drawing the first `k` columns
/// of one sprite row byte at row `py`, starting at column `vx` and wrapping
/// modulo the display width. The collision flag is set when some toggle
/// turned an on pixel off.
pub open spec fn draw_cols(
    screen: Seq<Seq<bool>>,
    byte: u8,
    vx: int,
    py: int,
    k: nat,
) -> (Seq<Seq<bool>>, bool)
    decreases k,
{
    if k == 0 {
        (screen, false)
    } else {
        let prev = draw_cols(screen, byte, vx, py, (k - 1) as nat);
        let col = k - 1;
        if sprite_bit_set(byte, col) {
            let px = (vx + col) % 64;
            (toggled(prev.0, px, py), prev.1 || prev.0[py][px])
        } else {
            prev
        }
    }
}

/// The framebuffer and collision flag after drawing the first `k` rows of a
/// sprite read from memory at `index`, with its top-left corner at
/// `(vx, vy)` and coordinates wrapping modulo the display size.
pub open spec fn draw_rows(
    screen: Seq<Seq<bool>>,
    mem: Seq<u8>,
    index: int,
    vx: int,
    vy: int,
    k: nat,
) -> (Seq<Seq<bool>>, bool)
    decreases k,
{
    if k == 0 {
        (screen, false)
    } else {
        let prev = draw_rows(screen, mem, index, vx, vy, (k - 1) as nat);
        let row = k - 1;
        let byte = mem[index + row];
        let py = (vy + row) % 32;
        let drawn = draw_cols(prev.0, byte, vx, py, 8);
        (drawn.0, prev.1 || drawn.1)
    }
}

/// `mem` after storing registers `0..k` at consecutive addresses starting
/// at `index`.
pub open spec fn store_block(mem: Seq<u8>, regs: Seq<u8>, index: int, k: nat) -> Seq<u8>
    decreases k,
{
    if k == 0 {
        mem
    } else {
        store_block(mem, regs, index, (k - 1) as nat).update(index + k - 1, regs[k - 1])
    }
}

/// `regs` after loading registers `0..k` from consecutive addresses
/// starting at `index`.
pub open spec fn load_block(regs: Seq<u8>, mem: Seq<u8>, index: int, k: nat) -> Seq<u8>
    decreases k,
{
    if k == 0 {
        regs
    } else {
        load_block(regs, mem, index, (k - 1) as nat).update(k - 1, mem[index + k - 1])
    }
}

/// The memory addresses an instruction touches lie inside the address
/// space. Only the sprite-drawing, BCD-store and register-block
/// instructions read or write memory through the index register.
pub open spec fn inst_addresses_in_bounds(m: Machine, inst: Instruction) -> bool {
    match inst {
        Instruction::Display(x, y, n) => m.index + n.v <= 4096,
        Instruction::LoadBinaryCodedDecimal(x) => m.index + 2 < 4096,
        Instruction::StoreRegisters(x) => m.index + x.v < 4096,
        Instruction::LoadRegisters(x) => m.index + x.v < 4096,
        _ => true,
    }
}

/// What one decoded instruction makes of the machine. `m` already carries
/// the provisional program counter (advanced past the instruction), so the
/// control-flow arms overwrite it. `random_byte` feeds only the
/// random-number instruction. An error (a call with a full stack, a return
/// with an empty one) changes nothing.
pub open spec fn exec_inst(m: Machine, inst: Instruction, random_byte: u8) -> Result<
    Machine,
    StepError,
> {
    match inst {
        Instruction::Clear => Ok(Machine { screen: blank_screen(), ..m }),
        Instruction::Return => if m.stack.len() == 0 {
            Err(StepError::StackUnderflow)
        } else {
            Ok(Machine { pc: m.stack.last(), stack: m.stack.drop_last(), ..m })
        },
        Instruction::Jump(a) => Ok(Machine { pc: a, ..m }),
        Instruction::Call(a) => if m.stack.len() >= 16 {
            Err(StepError::StackOverflow)
        } else {
            Ok(Machine { stack: m.stack.push(m.pc), pc: a, ..m })
        },
        Instruction::SkipEqual(x, kk) => Ok(
            Machine {
                pc: if m.regs[x.v as int] == kk {
                    wrap16(m.pc + 2)
                } else {
                    m.pc
                },
                ..m
            },
        ),
        Instruction::SkipNotEqual(x, kk) => Ok(
            Machine {
                pc: if m.regs[x.v as int] != kk {
                    wrap16(m.pc + 2)
                } else {
                    m.pc
                },
                ..m
            },
        ),
        Instruction::SkipEqualRegister(x, y) => Ok(
            Machine {
                pc: if m.regs[x.v as int] == m.regs[y.v as int] {
                    wrap16(m.pc + 2)
                } else {
                    m.pc
                },
                ..m
            },
        ),
        Instruction::Load(x, kk) => Ok(Machine { regs: m.regs.update(x.v as int, kk), ..m }),
        Instruction::Add(x, kk) => Ok(
            Machine {
                regs: m.regs.update(x.v as int, wrap8(m.regs[x.v as int] + kk)),
                ..m
            },
        ),
        Instruction::LoadRegister(x, y) => Ok(
            Machine { regs: m.regs.update(x.v as int, m.regs[y.v as int]), ..m },
        ),
        Instruction::LoadOr(x, y) => Ok(
            Machine {
                regs: m.regs.update(x.v as int, m.regs[x.v as int] | m.regs[y.v as int]),
                ..m
            },
        ),
        Instruction::LoadAnd(x, y) => Ok(
            Machine {
                regs: m.regs.update(x.v as int, m.regs[x.v as int] & m.regs[y.v as int]),
                ..m
            },
        ),
        Instruction::LoadXor(x, y) => Ok(
            Machine {
                regs: m.regs.update(x.v as int, m.regs[x.v as int] ^ m.regs[y.v as int]),
                ..m
            },
        ),
        Instruction::LoadAdd(x, y) => {
            let vx = m.regs[x.v as int];
            let vy = m.regs[y.v as int];
            let carry: u8 = if vx + vy > 0xFF {
                1
            } else {
                0
            };
            Ok(Machine { regs: m.regs.update(x.v as int, wrap8(vx + vy)).update(15, carry), ..m })
        },
        Instruction::LoadSub(x, y) => {
            let vx = m.regs[x.v as int];
            let vy = m.regs[y.v as int];
            let no_borrow: u8 = if vx >= vy {
                1
            } else {
                0
            };
            Ok(
                Machine {
                    regs: m.regs.update(x.v as int, sub_byte(vx, vy)).update(15, no_borrow),
                    ..m
                },
            )
        },
        Instruction::LoadShiftRight(x) => {
            let with_flag = m.regs.update(15, m.regs[x.v as int] & 1);
            Ok(
                Machine {
                    regs: with_flag.update(x.v as int, with_flag[x.v as int] >> 1u8),
                    ..m
                },
            )
        },
        Instruction::LoadSubNegative(x, y) => {
            let vx = m.regs[x.v as int];
            let vy = m.regs[y.v as int];
            let no_borrow: u8 = if vy >= vx {
                1
            } else {
                0
            };
            Ok(
                Machine {
                    regs: m.regs.update(x.v as int, sub_byte(vy, vx)).update(15, no_borrow),
                    ..m
                },
            )
        },
        Instruction::LoadShiftLeft(x) => {
            let with_flag = m.regs.update(15, (m.regs[x.v as int] & 0x80) >> 7u8);
            Ok(
                Machine {
                    regs: with_flag.update(x.v as int, with_flag[x.v as int] << 1u8),
                    ..m
                },
            )
        },
        Instruction::SkipNotEqualRegister(x, y) => Ok(
            Machine {
                pc: if m.regs[x.v as int] != m.regs[y.v as int] {
                    wrap16(m.pc + 2)
                } else {
                    m.pc
                },
                ..m
            },
        ),
        Instruction::LoadIndexRegister(a) => Ok(Machine { index: a, ..m }),
        Instruction::JumpWithOffset(a) => Ok(Machine { pc: wrap16(a + m.regs[0]), ..m }),
        Instruction::Random(x, kk) => Ok(
            Machine { regs: m.regs.update(x.v as int, random_byte & kk), ..m },
        ),
        Instruction::Display(x, y, n) => {
            let drawn = draw_rows(
                m.screen,
                m.mem,
                m.index as int,
                m.regs[x.v as int] as int,
                m.regs[y.v as int] as int,
                n.v as nat,
            );
            let flag: u8 = if drawn.1 {
                1
            } else {
                0
            };
            Ok(Machine { screen: drawn.0, regs: m.regs.update(15, flag), ..m })
        },
        Instruction::SkipKeyPress(x) => Ok(
            Machine {
                pc: if key_down(m.keys, m.regs[x.v as int]) {
                    wrap16(m.pc + 2)
                } else {
                    m.pc
                },
                ..m
            },
        ),
        Instruction::SkipKeyNotPress(x) => Ok(
            Machine {
                pc: if !key_down(m.keys, m.regs[x.v as int]) {
                    wrap16(m.pc + 2)
                } else {
                    m.pc
                },
                ..m
            },
        ),
        Instruction::LoadDelayTimer(x) => Ok(
            Machine { regs: m.regs.update(x.v as int, m.delay), ..m },
        ),
        Instruction::LoadKeyPress(x) => Ok(
            Machine { state: MachineState::WaitingForKey(x), ..m },
        ),
        Instruction::StoreDelayTimer(x) => Ok(Machine { delay: m.regs[x.v as int], ..m }),
        Instruction::StoreSoundTimer(x) => Ok(Machine { sound: m.regs[x.v as int], ..m }),
        Instruction::AddIndexRegister(x) => Ok(
            Machine { index: wrap16(m.index + m.regs[x.v as int]), ..m },
        ),
        Instruction::LoadFontCharacter(x) => Ok(
            Machine { index: (0x50 + m.regs[x.v as int] * 5) as u16, ..m },
        ),
        Instruction::LoadBinaryCodedDecimal(x) => {
            let v = m.regs[x.v as int];
            let i = m.index as int;
            Ok(
                Machine {
                    mem: m.mem.update(i, ((v / 100) % 10) as u8).update(
                        i + 1,
                        ((v % 100) / 10) as u8,
                    ).update(i + 2, (v % 10) as u8),
                    ..m
                },
            )
        },
        Instruction::StoreRegisters(x) => Ok(
            Machine {
                mem: store_block(m.mem, m.regs, m.index as int, (x.v + 1) as nat),
                ..m
            },
        ),
        Instruction::LoadRegisters(x) => Ok(
            Machine {
                regs: load_block(m.regs, m.mem, m.index as int, (x.v + 1) as nat),
                ..m
            },
        ),
    }
}

/// `m` with the program counter advanced past one instruction.
pub open spec fn advance(m: Machine) -> Machine {
    Machine { pc: wrap16(m.pc + 2), ..m }
}

/// What one step makes of the machine.
///
/// Running: fetch the word at the program counter, advance the counter by
/// two (so control-flow instructions overwrite the provisional value),
/// decode, and execute; a word that decodes to nothing is an
/// `UnknownOpcode` failure that changes nothing.
///
/// Waiting for a key: no fetch and no advance; if some key is down, the
/// pressed key of lowest index goes to the destination register and the
/// machine resumes running, and otherwise nothing changes.
pub open spec fn step_spec(m: Machine, random_byte: u8) -> Result<Machine, StepError> {
    match m.state {
        MachineState::Running => {
            let w = word_at(m.mem, m.pc);
            match decode_spec(w) {
                Some(inst) => exec_inst(advance(m), inst, random_byte),
                None => Err(StepError::UnknownOpcode(w)),
            }
        },
        MachineState::WaitingForKey(x) => match first_pressed(m.keys) {
            Some(k) => Ok(
                Machine {
                    regs: m.regs.update(x.v as int, k),
                    state: MachineState::Running,
                    ..m
                },
            ),
            None => Ok(m),
        },
    }
}

/// What the block store writes: registers `0..k` land at
/// `index..index + k`, and every other byte keeps its value.
proof fn lemma_store_block_contents(mem: Seq<u8>, regs: Seq<u8>, index: int, k: nat)
    requires
        0 <= index,
        index + k <= mem.len(),
    ensures
        store_block(mem, regs, index, k).len() == mem.len(),
        forall|j: int| 0 <= j < k ==> store_block(mem, regs, index, k)[index + j] == regs[j],
        forall|a: int|
            0 <= a < mem.len() && !(index <= a < index + k) ==> store_block(mem, regs, index, k)[a]
                == mem[a],
    decreases k,
{
    if k > 0 {
        lemma_store_block_contents(mem, regs, index, (k - 1) as nat);
    }
}

/// A block load from memory that already holds the registers' values gives
/// the registers back unchanged.
proof fn lemma_load_block_restores(regs: Seq<u8>, mem: Seq<u8>, index: int, k: nat)
    requires
        k <= regs.len(),
        forall|j: int| 0 <= j < k ==> mem[index + j] == regs[j],
    ensures
        load_block(regs, mem, index, k) == regs,
    decreases k,
{
    if k > 0 {
        lemma_load_block_restores(regs, mem, index, (k - 1) as nat);
        assert(load_block(regs, mem, index, k) =~= regs);
    }
}

/// Law: a register-block store followed by a register-block load through
/// the same index register and the same upper register restores the
/// original register values; nothing but the stored memory block and the
/// restored registers moves.
pub proof fn lemma_store_load_round_trip(m: Machine, x: RegisterIndex, random_byte: u8)
    requires
        m.wf(),
        x.wf(),
        m.index + x.v < 4096,
    ensures
        ({
            &&& exec_inst(m, Instruction::StoreRegisters(x), random_byte) matches Ok(stored)
            &&& exec_inst(stored, Instruction::LoadRegisters(x), random_byte) matches Ok(loaded)
            &&& loaded == (Machine { regs: m.regs, ..stored })
        }),
{
    let k = (x.v + 1) as nat;
    let index = m.index as int;
    lemma_store_block_contents(m.mem, m.regs, index, k);
    let stored = Machine { mem: store_block(m.mem, m.regs, index, k), ..m };
    lemma_load_block_restores(m.regs, stored.mem, index, k);
    assert({
        &&& exec_inst(stored, Instruction::LoadRegisters(x), random_byte) matches Ok(loaded)
        &&& loaded =~~= (Machine { regs: m.regs, ..stored })
    });
}

/// Drawing the single-pixel sprite row `0x80` touches only the addressed
/// pixel: the framebuffer gets one toggle at `(vx mod 64, py)`, and the
/// collision flag reports that pixel's previous state.
proof fn lemma_draw_cols_single_bit(screen: Seq<Seq<bool>>, vx: int, py: int)
    ensures
        draw_cols(screen, 0x80u8, vx, py, 8) == (
            toggled(screen, vx % 64, py),
            screen[py][vx % 64],
        ),
{
    assert(0x80u8 & (0x80u8 >> 0u8) != 0 && 0x80u8 & (0x80u8 >> 1u8) == 0 && 0x80u8 & (0x80u8
        >> 2u8) == 0 && 0x80u8 & (0x80u8 >> 3u8) == 0 && 0x80u8 & (0x80u8 >> 4u8) == 0 && 0x80u8 & (
    0x80u8 >> 5u8) == 0 && 0x80u8 & (0x80u8 >> 6u8) == 0 && 0x80u8 & (0x80u8 >> 7u8) == 0)
        by (bit_vector);
    let px = vx % 64;
    assert(draw_cols(screen, 0x80u8, vx, py, 0) == (screen, false));
    assert(draw_cols(screen, 0x80u8, vx, py, 1) == (toggled(screen, px, py), screen[py][px]));
    assert(draw_cols(screen, 0x80u8, vx, py, 2) == draw_cols(screen, 0x80u8, vx, py, 1));
    assert(draw_cols(screen, 0x80u8, vx, py, 3) == draw_cols(screen, 0x80u8, vx, py, 2));
    assert(draw_cols(screen, 0x80u8, vx, py, 4) == draw_cols(screen, 0x80u8, vx, py, 3));
    assert(draw_cols(screen, 0x80u8, vx, py, 5) == draw_cols(screen, 0x80u8, vx, py, 4));
    assert(draw_cols(screen, 0x80u8, vx, py, 6) == draw_cols(screen, 0x80u8, vx, py, 5));
    assert(draw_cols(screen, 0x80u8, vx, py, 7) == draw_cols(screen, 0x80u8, vx, py, 6));
    assert(draw_cols(screen, 0x80u8, vx, py, 8) == draw_cols(screen, 0x80u8, vx, py, 7));
}

/// Law: with a one-row, one-bit sprite (`0x80`) aimed at a dark pixel,
/// drawing lights the pixel and reports no collision in `VF`; drawing the
/// same sprite again at the same coordinates turns the pixel back off,
/// restores the whole framebuffer, and reports a collision in `VF`. The
/// coordinate registers must not be `VF` itself, since the first draw
/// overwrites it.
pub proof fn lemma_draw_twice_collides(
    m: Machine,
    x: RegisterIndex,
    y: RegisterIndex,
    random_byte: u8,
)
    requires
        m.wf(),
        x.wf(),
        y.wf(),
        x.v != 15,
        y.v != 15,
        m.index < 4096,
        m.mem[m.index as int] == 0x80,
        !m.screen[(m.regs[y.v as int] as int) % 32][(m.regs[x.v as int] as int) % 64],
    ensures
        ({
            let inst = Instruction::Display(x, y, Nibble { v: 1 });
            let px = (m.regs[x.v as int] as int) % 64;
            let py = (m.regs[y.v as int] as int) % 32;
            &&& exec_inst(m, inst, random_byte) matches Ok(once)
            &&& once.regs[15] == 0
            &&& once.screen[py][px]
            &&& exec_inst(once, inst, random_byte) matches Ok(twice)
            &&& twice.regs[15] == 1
            &&& twice.screen == m.screen
        }),
{
    let inst = Instruction::Display(x, y, Nibble { v: 1 });
    let vx = m.regs[x.v as int] as int;
    let vy = m.regs[y.v as int] as int;
    let px = vx % 64;
    let py = vy % 32;
    let index = m.index as int;

    assert(draw_rows(m.screen, m.mem, index, vx, vy, 0) == (m.screen, false));
    lemma_draw_cols_single_bit(m.screen, vx, py);
    assert((vy + 0) % 32 == py);
    assert(draw_rows(m.screen, m.mem, index, vx, vy, 1) == (toggled(m.screen, px, py), false));
    let once = (exec_inst(m, inst, random_byte))->Ok_0;
    assert(once.screen == toggled(m.screen, px, py));
    assert(once.regs[15] == 0);
    assert(once.screen[py][px]);

    assert(once.regs[x.v as int] == m.regs[x.v as int]);
    assert(once.regs[y.v as int] == m.regs[y.v as int]);
    assert(draw_rows(once.screen, once.mem, index, vx, vy, 0) == (once.screen, false));
    lemma_draw_cols_single_bit(once.screen, vx, py);
    assert(draw_rows(once.screen, once.mem, index, vx, vy, 1) == (
        toggled(once.screen, px, py),
        true,
    ));
    let twice = (exec_inst(once, inst, random_byte))->Ok_0;
    assert(twice.regs[15] == 1);
    assert(twice.screen =~~= m.screen);
}

/// Law: the "wait for key" instruction moves the machine into the waiting
/// state with only the program counter advanced; a step taken while
/// waiting with no key down changes nothing, the program counter included;
/// and once some key is down, the next step stores the pressed key of
/// lowest index into the destination register and resumes running, still
/// without touching the program counter.
pub proof fn lemma_key_wait(m: Machine, random_byte: u8)
    ensures
        m.state is Running ==> (decode_spec(word_at(m.mem, m.pc)) matches Some(
            Instruction::LoadKeyPress(x),
        ) ==> step_spec(m, random_byte) == Ok::<Machine, StepError>(
            Machine { pc: wrap16(m.pc + 2), state: MachineState::WaitingForKey(x), ..m },
        )),
        m.state matches MachineState::WaitingForKey(x) ==> {
            &&& first_pressed(m.keys) is None ==> step_spec(m, random_byte) == Ok::<
                Machine,
                StepError,
            >(m)
            &&& (first_pressed(m.keys) matches Some(k) ==> step_spec(m, random_byte) == Ok::<
                Machine,
                StepError,
            >(Machine { regs: m.regs.update(x.v as int, k), state: MachineState::Running, ..m }))
        },
{
    match m.state {
        MachineState::Running => {
            match decode_spec(word_at(m.mem, m.pc)) {
                Some(Instruction::LoadKeyPress(x)) => {
                    assert({
                        &&& exec_inst(advance(m), Instruction::LoadKeyPress(x), random_byte)
                            matches Ok(waiting)
                        &&& waiting =~~= (Machine {
                            pc: wrap16(m.pc + 2),
                            state: MachineState::WaitingForKey(x),
                            ..m
                        })
                    });
                },
                _ => {},
            }
        },
        MachineState::WaitingForKey(_) => {
        },
    }
}

/// The addresses a step touches lie inside the address space: while
/// running, the two fetched bytes, and whatever memory the decoded
/// instruction reads or writes. A step from a machine without this is a
/// defect of the program under emulation; the interpreter demands it
/// instead of reading out of range.
pub open spec fn step_in_bounds(m: Machine) -> bool {
    m.state is Running ==> {
        &&& m.pc + 1 < 4096
        &&& match decode_spec(word_at(m.mem, m.pc)) {
            Some(inst) => inst_addresses_in_bounds(m, inst),
            None => true,
        }
    }
}

} // verus!
