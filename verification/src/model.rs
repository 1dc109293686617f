//! The mathematical model of the machine and the meaning of every operation on
//! it: what an instruction, a fetch, a whole cycle and a timer tick make of a
//! state.
use vstd::prelude::*;
use crate::constants::{
    DISPLAY_SIZE, FLAG_REGISTER, FONTSET_SIZE, FONT_SET, GLYPH_SIZE, KEYBOARD_MAP_SIZE,
    PROGRAM_START, RAM_SIZE, STACK_SIZE, VREG_SIZE,
};
use crate::decode::{instruction_of, Instruction};
use crate::draw::{collides, drawn};
use crate::fault::Fault;

verus! {

/// A machine with every array as a sequence.
#[verifier::ext_equal]
pub struct MachineState {
    pub ram: Seq<u8>,
    pub vregs: Seq<u8>,
    pub stack: Seq<u16>,
    pub keyboard: Seq<bool>,
    pub display: Seq<bool>,
    pub ireg: u16,
    pub program_counter: u16,
    pub stack_pointer: u16,
    pub delay_timer: u8,
    pub sound_timer: u8,
    pub clear_flag: bool,
    pub display_flag: bool,
}

/// `value` reduced to eight bits.
pub open spec fn wrap8(value: int) -> u8 {
    (value % 0x100) as u8
}

/// `value` reduced to sixteen bits.
pub open spec fn wrap16(value: int) -> u16 {
    (value % 0x1_0000) as u16
}

/// The first address outside memory that an access starting at `start` and
/// running past the end of memory touches.
pub open spec fn first_outside(start: int) -> usize {
    if start >= RAM_SIZE {
        start as usize
    } else {
        RAM_SIZE
    }
}

/// The lowest-numbered key at or after `from` that is down, if there is one.
pub open spec fn lowest_pressed(keys: Seq<bool>, from: int) -> Option<int>
    decreases keys.len() - from,
{
    if from < 0 || from >= keys.len() {
        None
    } else if keys[from] {
        Some(from)
    } else {
        lowest_pressed(keys, from + 1)
    }
}

impl MachineState {
    /// The parts have the sizes of the machine's arrays.
    pub open spec fn well_formed(self) -> bool {
        &&& self.ram.len() == RAM_SIZE
        &&& self.vregs.len() == VREG_SIZE
        &&& self.stack.len() == STACK_SIZE
        &&& self.keyboard.len() == KEYBOARD_MAP_SIZE
        &&& self.display.len() == DISPLAY_SIZE
    }

    /// The state of a machine that has just been created.
    pub open spec fn initial() -> MachineState {
        MachineState {
            ram: Seq::new(RAM_SIZE as nat, |i: int| 0u8),
            vregs: Seq::new(VREG_SIZE as nat, |i: int| 0u8),
            stack: Seq::new(STACK_SIZE as nat, |i: int| 0u16),
            keyboard: Seq::new(KEYBOARD_MAP_SIZE as nat, |i: int| false),
            display: Seq::new(DISPLAY_SIZE as nat, |i: int| false),
            ireg: 0,
            program_counter: 0,
            stack_pointer: 0,
            delay_timer: 0,
            sound_timer: 0,
            clear_flag: false,
            display_flag: false,
        }
    }

    /// Register `x` holds `value`; nothing else differs.
    pub open spec fn with_register(self, x: int, value: u8) -> MachineState {
        MachineState { vregs: self.vregs.update(x, value), ..self }
    }

    /// The flag register is written first and register `x` second, so that
    /// `value` stands where `x` is the flag register itself.
    pub open spec fn with_flag_and_register(self, flag: u8, x: int, value: u8) -> MachineState {
        MachineState {
            vregs: self.vregs.update(FLAG_REGISTER as int, flag).update(x, value),
            ..self
        }
    }

    /// The program counter holds `target`; nothing else differs.
    pub open spec fn with_program_counter(self, target: u16) -> MachineState {
        MachineState { program_counter: target, ..self }
    }

    /// The index register holds `target`; nothing else differs.
    pub open spec fn with_index(self, target: u16) -> MachineState {
        MachineState { ireg: target, ..self }
    }

    /// The program counter moves past one more instruction if `condition` holds.
    pub open spec fn skip_if(self, condition: bool) -> MachineState {
        if condition {
            self.with_program_counter(wrap16(self.program_counter + 2))
        } else {
            self
        }
    }

    /// The registers after loading registers 0 to `x` from memory at the index
    /// register.
    pub open spec fn registers_loaded(self, x: int) -> Seq<u8> {
        Seq::new(
            VREG_SIZE as nat,
            |r: int| if r <= x { self.ram[self.ireg + r] } else { self.vregs[r] },
        )
    }

    /// Memory after storing registers 0 to `x` at the index register.
    pub open spec fn registers_stored(self, x: int) -> Seq<u8> {
        Seq::new(
            RAM_SIZE as nat,
            |a: int|
                if self.ireg <= a <= self.ireg + x {
                    self.vregs[a - self.ireg]
                } else {
                    self.ram[a]
                },
        )
    }
}

/// What `instruction` makes of `m`, with `random` as the byte that chance
/// supplies to `Random`: the next state, or the fault that stops the instruction.
///
/// Every operand is read before anything is written. An instruction that sets
/// the flag writes the flag first and its result second.
pub open spec fn step(m: MachineState, instruction: Instruction, random: u8) -> Result<
    MachineState,
    Fault,
> {
    match instruction {
        Instruction::ClearScreen => Ok(
            MachineState {
                display: Seq::new(DISPLAY_SIZE as nat, |p: int| false),
                clear_flag: true,
                ..m
            },
        ),
        Instruction::Return => if m.stack_pointer == 0 {
            Err(Fault::StackUnderflow)
        } else if m.stack_pointer > STACK_SIZE {
            Err(Fault::StackOverflow)
        } else {
            Ok(
                MachineState {
                    program_counter: m.stack[m.stack_pointer - 1],
                    stack_pointer: (m.stack_pointer - 1) as u16,
                    ..m
                },
            )
        },
        Instruction::Sys => Ok(m),
        Instruction::Jump { addr } => Ok(m.with_program_counter(addr)),
        Instruction::Call { addr } => if m.stack_pointer >= STACK_SIZE {
            Err(Fault::StackOverflow)
        } else {
            Ok(
                MachineState {
                    stack: m.stack.update(m.stack_pointer as int, m.program_counter),
                    stack_pointer: (m.stack_pointer + 1) as u16,
                    program_counter: addr,
                    ..m
                },
            )
        },
        Instruction::SkipEqImm { x, nn } => Ok(m.skip_if(m.vregs[x as int] == nn)),
        Instruction::SkipNeImm { x, nn } => Ok(m.skip_if(m.vregs[x as int] != nn)),
        Instruction::SkipEqReg { x, y } => Ok(m.skip_if(m.vregs[x as int] == m.vregs[y as int])),
        Instruction::SkipNeReg { x, y } => Ok(m.skip_if(m.vregs[x as int] != m.vregs[y as int])),
        Instruction::LoadImm { x, nn } => Ok(m.with_register(x as int, nn)),
        Instruction::AddImm { x, nn } => Ok(
            m.with_register(x as int, wrap8(m.vregs[x as int] + nn)),
        ),
        Instruction::Move { x, y } => Ok(m.with_register(x as int, m.vregs[y as int])),
        Instruction::Or { x, y } => Ok(
            m.with_register(x as int, m.vregs[x as int] | m.vregs[y as int]),
        ),
        Instruction::And { x, y } => Ok(
            m.with_register(x as int, m.vregs[x as int] & m.vregs[y as int]),
        ),
        Instruction::Xor { x, y } => Ok(
            m.with_register(x as int, m.vregs[x as int] ^ m.vregs[y as int]),
        ),
        Instruction::AddReg { x, y } => {
            let sum = m.vregs[x as int] + m.vregs[y as int];
            Ok(m.with_flag_and_register(if sum > 0xFF { 1 } else { 0 }, x as int, wrap8(sum)))
        },
        Instruction::SubReg { x, y } => {
            let vx = m.vregs[x as int];
            let vy = m.vregs[y as int];
            Ok(m.with_flag_and_register(if vx > vy { 1 } else { 0 }, x as int, wrap8(vx - vy)))
        },
        Instruction::SubRev { x, y } => {
            let vx = m.vregs[x as int];
            let vy = m.vregs[y as int];
            Ok(m.with_flag_and_register(if vy > vx { 1 } else { 0 }, x as int, wrap8(vy - vx)))
        },
        Instruction::ShiftRight { x } => {
            let vx = m.vregs[x as int];
            Ok(m.with_flag_and_register(vx % 2, x as int, vx / 2))
        },
        Instruction::ShiftLeft { x } => {
            let vx = m.vregs[x as int];
            Ok(m.with_flag_and_register(vx % 2, x as int, wrap8(vx * 2)))
        },
        Instruction::LoadIndex { addr } => Ok(m.with_index(addr)),
        Instruction::JumpOffset { addr } => Ok(m.with_program_counter(wrap16(m.vregs[0] + addr))),
        Instruction::Random { x, nn } => Ok(m.with_register(x as int, random & nn)),
        Instruction::Draw { x, y, n } => {
            let left = m.vregs[x as int] % 64;
            let top = m.vregs[y as int] % 32;
            if n > 0 && m.ireg + n > RAM_SIZE {
                Err(Fault::MemoryOutOfRange { address: first_outside(m.ireg as int) })
            } else {
                let hit = collides(m.ram, m.ireg as int, n as int, left as int, top as int, m.display);
                Ok(
                    MachineState {
                        display: drawn(
                            m.ram,
                            m.ireg as int,
                            n as int,
                            left as int,
                            top as int,
                            m.display,
                        ),
                        vregs: m.vregs.update(FLAG_REGISTER as int, if hit { 1u8 } else { 0u8 }),
                        display_flag: hit,
                        ..m
                    },
                )
            }
        },
        Instruction::SkipKeyPressed { x } => {
            let key = m.vregs[x as int];
            if key >= KEYBOARD_MAP_SIZE {
                Err(Fault::InvalidKey { key: key as usize })
            } else {
                Ok(m.skip_if(m.keyboard[key as int]))
            }
        },
        Instruction::SkipKeyReleased { x } => {
            let key = m.vregs[x as int];
            if key >= KEYBOARD_MAP_SIZE {
                Err(Fault::InvalidKey { key: key as usize })
            } else {
                Ok(m.skip_if(!m.keyboard[key as int]))
            }
        },
        Instruction::ReadDelay { x } => Ok(m.with_register(x as int, m.delay_timer)),
        Instruction::WaitKey { x } => match lowest_pressed(m.keyboard, 0) {
            Some(key) => Ok(m.with_register(x as int, key as u8)),
            None => Ok(m.with_program_counter(wrap16(m.program_counter - 2))),
        },
        Instruction::SetDelay { x } => Ok(MachineState { delay_timer: m.vregs[x as int], ..m }),
        Instruction::SetSound { x } => Ok(MachineState { sound_timer: m.vregs[x as int], ..m }),
        Instruction::AddIndex { x } => Ok(m.with_index(wrap16(m.ireg + m.vregs[x as int]))),
        Instruction::FontGlyph { x } => Ok(m.with_index((m.vregs[x as int] * GLYPH_SIZE) as u16)),
        Instruction::StoreBcd { x } => {
            let vx = m.vregs[x as int];
            if m.ireg + 2 >= RAM_SIZE {
                Err(Fault::MemoryOutOfRange { address: first_outside(m.ireg as int) })
            } else {
                Ok(
                    MachineState {
                        ram: m.ram.update(m.ireg as int, vx / 100).update(
                            m.ireg + 1,
                            (vx / 10) % 10,
                        ).update(m.ireg + 2, vx % 10),
                        ..m
                    },
                )
            }
        },
        Instruction::StoreRegs { x } => if m.ireg + x >= RAM_SIZE {
            Err(Fault::MemoryOutOfRange { address: first_outside(m.ireg as int) })
        } else {
            Ok(MachineState { ram: m.registers_stored(x as int), ..m })
        },
        Instruction::LoadRegs { x } => if m.ireg + x >= RAM_SIZE {
            Err(Fault::MemoryOutOfRange { address: first_outside(m.ireg as int) })
        } else {
            Ok(MachineState { vregs: m.registers_loaded(x as int), ..m })
        },
        Instruction::Unimplemented => Ok(m),
    }
}

/// The word of which the high byte is at the program counter and the low byte
/// behind it.
pub open spec fn word_at_counter(m: MachineState) -> u16 {
    (m.ram[m.program_counter as int] * 0x100 + m.ram[m.program_counter + 1]) as u16
}

/// The state after a fetch, with the program counter moved past the word it
/// points at; or the fault, where that word does not lie within memory.
pub open spec fn fetched(m: MachineState) -> Result<MachineState, Fault> {
    if m.program_counter + 1 >= RAM_SIZE {
        Err(Fault::MemoryOutOfRange { address: first_outside(m.program_counter as int) })
    } else {
        Ok(m.with_program_counter((m.program_counter + 2) as u16))
    }
}

/// One whole cycle: fetch the word at the program counter, then carry out the
/// instruction it stands for.
pub open spec fn cycled(m: MachineState, random: u8) -> Result<MachineState, Fault> {
    match fetched(m) {
        Err(fault) => Err(fault),
        Ok(next) => step(next, instruction_of(word_at_counter(m)), random),
    }
}

/// Each timer one lower, unless it is already at zero.
pub open spec fn timers_ticked(m: MachineState) -> MachineState {
    MachineState {
        delay_timer: if m.delay_timer > 0 { (m.delay_timer - 1) as u8 } else { 0 },
        sound_timer: if m.sound_timer > 0 { (m.sound_timer - 1) as u8 } else { 0 },
        ..m
    }
}

/// The font table stands in the first bytes of memory; nothing else differs.
pub open spec fn fonts_loaded(m: MachineState) -> MachineState {
    MachineState {
        ram: Seq::new(
            RAM_SIZE as nat,
            |a: int| if a < FONTSET_SIZE { FONT_SET@[a] } else { m.ram[a] },
        ),
        ..m
    }
}

/// The program `data` stands in memory from the program start on and nothing
/// else differs; or the fault, where `data` is longer than the room there.
pub open spec fn rom_loaded(m: MachineState, data: Seq<u8>) -> Result<MachineState, Fault> {
    if data.len() > RAM_SIZE - PROGRAM_START {
        Err(Fault::RomTooLarge { len: data.len() as usize })
    } else {
        Ok(
            MachineState {
                ram: Seq::new(
                    RAM_SIZE as nat,
                    |a: int|
                        if PROGRAM_START <= a < PROGRAM_START + data.len() {
                            data[a - PROGRAM_START]
                        } else {
                            m.ram[a]
                        },
                ),
                ..m
            },
        )
    }
}

/// Key `key` is down if `pressed` and up if not, and nothing else differs; or
/// the fault, where the pad has no such key.
pub open spec fn key_changed(m: MachineState, key: int, pressed: bool) -> Result<
    MachineState,
    Fault,
> {
    if 0 <= key < KEYBOARD_MAP_SIZE {
        Ok(MachineState { keyboard: m.keyboard.update(key, pressed), ..m })
    } else {
        Err(Fault::InvalidKey { key: key as usize })
    }
}

/// An operation that was to make `outcome` of `before` and to hand back `value`
/// has returned `result` and left `after`: on success the value and the new
/// state, on a fault the fault and the old state untouched.
pub open spec fn carried_out<T>(
    before: MachineState,
    outcome: Result<MachineState, Fault>,
    value: T,
    result: Result<T, Fault>,
    after: MachineState,
) -> bool {
    match outcome {
        Ok(next) => result == Ok::<T, Fault>(value) && after == next,
        Err(fault) => result == Err::<T, Fault>(fault) && after == before,
    }
}

} // verus!
