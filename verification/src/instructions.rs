//! The executor: carries out one instruction on the machine.
use vstd::prelude::*;
use crate::chip8::Chip8;
use crate::constants::{FLAG_REGISTER, KEYBOARD_MAP_SIZE, RAM_SIZE, STACK_SIZE};
use crate::decode::{decode, instruction_of, Instruction};
use crate::fault::Fault;
use crate::model::{carried_out, first_outside, lowest_pressed, step, wrap8, MachineState};
use crate::random::random_byte;

verus! {

/// The fault for an access that starts at `start` and runs past the end of
/// memory.
fn out_of_range(start: u16) -> (fault: Fault)
    ensures
        fault == (Fault::MemoryOutOfRange { address: first_outside(start as int) }),
{
    let start: usize = start as usize;
    if start >= RAM_SIZE {
        Fault::MemoryOutOfRange { address: start }
    } else {
        Fault::MemoryOutOfRange { address: RAM_SIZE }
    }
}

impl Chip8 {
    /// Carries out the instruction that `opcode` stands for. Where the
    /// instruction asks for a random byte, one is drawn from the generator; the
    /// machine then is as `execute_with` would leave it for some byte.
    ///
    /// A fault leaves the machine untouched.
    pub fn execute(&mut self, opcode: u16) -> (result: Result<(), Fault>)
        ensures
            exists|random: u8|
                carried_out(
                    old(self)@,
                    #[trigger] step(old(self)@, instruction_of(opcode), random),
                    (),
                    result,
                    final(self)@,
                ),
    {
        let instruction = decode(opcode);
        let random: u8 = match instruction {
            Instruction::Random { .. } => random_byte(),
            _ => 0,
        };
        let result = self.perform(instruction, random);
        assert(carried_out(
            old(self)@,
            step(old(self)@, instruction_of(opcode), random),
            (),
            result,
            self@,
        ));
        result
    }

    /// Carries out the instruction that `opcode` stands for, with `random` as
    /// the byte that a `CXNN` instruction masks.
    ///
    /// A fault leaves the machine untouched.
    pub fn execute_with(&mut self, opcode: u16, random: u8) -> (result: Result<(), Fault>)
        ensures
            carried_out(
                old(self)@,
                step(old(self)@, instruction_of(opcode), random),
                (),
                result,
                final(self)@,
            ),
    {
        let instruction = decode(opcode);
        self.perform(instruction, random)
    }

    /// Carries out `instruction`.
    fn perform(&mut self, instruction: Instruction, random: u8) -> (result: Result<(), Fault>)
        requires
            instruction.well_formed(),
        ensures
            carried_out(old(self)@, step(old(self)@, instruction, random), (), result, final(self)@),
    {
        match instruction {
            Instruction::ClearScreen => {
                self.clear_display();
                Ok(())
            },
            Instruction::Return => self.return_from_subroutine(),
            Instruction::Sys => Ok(()),
            Instruction::Jump { addr } => {
                self.set_program_counter(addr);
                Ok(())
            },
            Instruction::Call { addr } => self.call_subroutine(addr),
            Instruction::SkipEqImm { x, nn } => {
                self.skip_if(self.vregs[x] == nn);
                Ok(())
            },
            Instruction::SkipNeImm { x, nn } => {
                self.skip_if(self.vregs[x] != nn);
                Ok(())
            },
            Instruction::SkipEqReg { x, y } => {
                self.skip_if(self.vregs[x] == self.vregs[y]);
                Ok(())
            },
            Instruction::SkipNeReg { x, y } => {
                self.skip_if(self.vregs[x] != self.vregs[y]);
                Ok(())
            },
            Instruction::LoadImm { x, nn } => {
                self.set_register(x, nn);
                Ok(())
            },
            Instruction::AddImm { x, nn } => {
                self.set_register(x, self.vregs[x].wrapping_add(nn));
                Ok(())
            },
            Instruction::Move { x, y } => {
                self.set_register(x, self.vregs[y]);
                Ok(())
            },
            Instruction::Or { x, y } => {
                self.set_register(x, self.vregs[x] | self.vregs[y]);
                Ok(())
            },
            Instruction::And { x, y } => {
                self.set_register(x, self.vregs[x] & self.vregs[y]);
                Ok(())
            },
            Instruction::Xor { x, y } => {
                self.set_register(x, self.vregs[x] ^ self.vregs[y]);
                Ok(())
            },
            Instruction::AddReg { x, y } => {
                self.add_registers(x, y);
                Ok(())
            },
            Instruction::SubReg { x, y } => {
                self.subtract_registers(x, self.vregs[x], self.vregs[y]);
                Ok(())
            },
            Instruction::SubRev { x, y } => {
                self.subtract_registers(x, self.vregs[y], self.vregs[x]);
                Ok(())
            },
            Instruction::ShiftRight { x } => {
                self.shift_right(x);
                Ok(())
            },
            Instruction::ShiftLeft { x } => {
                self.shift_left(x);
                Ok(())
            },
            Instruction::LoadIndex { addr } => {
                self.set_index(addr);
                Ok(())
            },
            Instruction::JumpOffset { addr } => {
                self.set_program_counter(self.vregs[0] as u16 + addr);
                Ok(())
            },
            Instruction::Random { x, nn } => {
                self.set_register(x, random & nn);
                Ok(())
            },
            Instruction::Draw { x, y, n } => self.draw(x, y, n),
            Instruction::SkipKeyPressed { x } => self.skip_if_key(x, true),
            Instruction::SkipKeyReleased { x } => self.skip_if_key(x, false),
            Instruction::ReadDelay { x } => {
                self.set_register(x, self.delay_timer);
                Ok(())
            },
            Instruction::WaitKey { x } => {
                self.wait_for_key(x);
                Ok(())
            },
            Instruction::SetDelay { x } => {
                self.set_delay_timer(self.vregs[x]);
                Ok(())
            },
            Instruction::SetSound { x } => {
                self.set_sound_timer(self.vregs[x]);
                Ok(())
            },
            Instruction::AddIndex { x } => {
                self.set_index(self.ireg.wrapping_add(self.vregs[x] as u16));
                Ok(())
            },
            Instruction::FontGlyph { x } => {
                self.set_index(self.vregs[x] as u16 * 5);
                Ok(())
            },
            Instruction::StoreBcd { x } => self.store_decimal(x),
            Instruction::StoreRegs { x } => self.store_registers(x),
            Instruction::LoadRegs { x } => self.load_registers(x),
            Instruction::Unimplemented => Ok(()),
        }
    }

    /// Writes `target` to the program counter.
    fn set_program_counter(&mut self, target: u16)
        ensures
            final(self)@ == old(self)@.with_program_counter(target),
    {
        self.program_counter = target;
        assert(self@ =~= old(self)@.with_program_counter(target));
    }

    /// Writes `target` to the index register.
    fn set_index(&mut self, target: u16)
        ensures
            final(self)@ == old(self)@.with_index(target),
    {
        self.ireg = target;
        assert(self@ =~= old(self)@.with_index(target));
    }

    /// Writes `value` to the delay timer.
    fn set_delay_timer(&mut self, value: u8)
        ensures
            final(self)@ == (MachineState { delay_timer: value, ..old(self)@ }),
    {
        self.delay_timer = value;
        assert(self@ =~= MachineState { delay_timer: value, ..old(self)@ });
    }

    /// Writes `value` to the sound timer.
    fn set_sound_timer(&mut self, value: u8)
        ensures
            final(self)@ == (MachineState { sound_timer: value, ..old(self)@ }),
    {
        self.sound_timer = value;
        assert(self@ =~= MachineState { sound_timer: value, ..old(self)@ });
    }

    /// Adds register `y` to register `x` and sets the flag if the sum does not
    /// fit in a byte.
    fn add_registers(&mut self, x: usize, y: usize)
        requires
            x < 16,
            y < 16,
        ensures
            final(self)@ == old(self)@.with_flag_and_register(
                if old(self).vregs@[x as int] + old(self).vregs@[y as int] > 0xFF {
                    1u8
                } else {
                    0u8
                },
                x as int,
                wrap8(old(self).vregs@[x as int] + old(self).vregs@[y as int]),
            ),
    {
        let vx: u8 = self.vregs[x];
        let vy: u8 = self.vregs[y];
        let sum: u16 = vx as u16 + vy as u16;
        let flag: u8 = if sum > 0xFF { 1 } else { 0 };
        self.set_flag_and_register(flag, x, vx.wrapping_add(vy));
    }

    /// Writes `minuend` minus `subtrahend` to register `x` and sets the flag if
    /// `minuend` is the greater.
    fn subtract_registers(&mut self, x: usize, minuend: u8, subtrahend: u8)
        requires
            x < 16,
        ensures
            final(self)@ == old(self)@.with_flag_and_register(
                if minuend > subtrahend {
                    1u8
                } else {
                    0u8
                },
                x as int,
                wrap8(minuend - subtrahend),
            ),
    {
        let flag: u8 = if minuend > subtrahend { 1 } else { 0 };
        self.set_flag_and_register(flag, x, minuend.wrapping_sub(subtrahend));
    }

    /// Halves register `x` and leaves the bit shifted out in the flag.
    fn shift_right(&mut self, x: usize)
        requires
            x < 16,
        ensures
            final(self)@ == old(self)@.with_flag_and_register(
                old(self).vregs@[x as int] % 2,
                x as int,
                old(self).vregs@[x as int] / 2,
            ),
    {
        let value: u8 = self.vregs[x];
        assert(value & 0x1 == value % 2 && value >> 1 == value / 2) by (bit_vector);
        self.set_flag_and_register(value & 0x1, x, value >> 1);
    }

    /// Doubles register `x`, wrapping, and leaves what was its lowest bit in the
    /// flag.
    fn shift_left(&mut self, x: usize)
        requires
            x < 16,
        ensures
            final(self)@ == old(self)@.with_flag_and_register(
                old(self).vregs@[x as int] % 2,
                x as int,
                wrap8(old(self).vregs@[x as int] * 2),
            ),
    {
        let value: u8 = self.vregs[x];
        assert(value & 0x1 == value % 2 && value << 1 == (value * 2) % 0x100) by (bit_vector);
        self.set_flag_and_register(value & 0x1, x, value << 1);
    }

    /// Draws the sprite of `n` rows at the coordinates in registers `x` and `y`
    /// and records in the flag and the display flag whether it hit a lit pixel.
    fn draw(&mut self, x: usize, y: usize, n: u8) -> (result: Result<(), Fault>)
        requires
            x < 16,
            y < 16,
            n < 16,
        ensures
            carried_out(
                old(self)@,
                step(old(self)@, Instruction::Draw { x, y, n }, 0),
                (),
                result,
                final(self)@,
            ),
    {
        if n > 0 && self.ireg as usize + n as usize > RAM_SIZE {
            return Err(out_of_range(self.ireg));
        }
        let left: u8 = self.vregs[x] % 64;
        let top: u8 = self.vregs[y] % 32;
        let hit = self.draw_sprite(left, top, n);
        self.vregs[FLAG_REGISTER] = if hit { 1 } else { 0 };
        self.display_flag = hit;
        assert(self@ =~= step(old(self)@, Instruction::Draw { x, y, n }, 0)->Ok_0);
        Ok(())
    }

    /// Skips the next instruction if the key named by register `x` is down and
    /// `pressed`, or up and not `pressed`.
    fn skip_if_key(&mut self, x: usize, pressed: bool) -> (result: Result<(), Fault>)
        requires
            x < 16,
        ensures
            carried_out(
                old(self)@,
                if old(self).vregs@[x as int] >= KEYBOARD_MAP_SIZE {
                    Err(Fault::InvalidKey { key: old(self).vregs@[x as int] as usize })
                } else {
                    Ok(
                        old(self)@.skip_if(
                            old(self).keyboard@[old(self).vregs@[x as int] as int] == pressed,
                        ),
                    )
                },
                (),
                result,
                final(self)@,
            ),
    {
        let key: usize = self.vregs[x] as usize;
        if key >= KEYBOARD_MAP_SIZE {
            return Err(Fault::InvalidKey { key });
        }
        self.skip_if(self.keyboard[key] == pressed);
        Ok(())
    }

    /// Writes `value` to register `x`.
    fn set_register(&mut self, x: usize, value: u8)
        requires
            x < 16,
        ensures
            final(self)@ == old(self)@.with_register(x as int, value),
    {
        self.vregs[x] = value;
        assert(self@ =~= old(self)@.with_register(x as int, value));
    }

    /// Writes `flag` to the flag register, then `value` to register `x`.
    fn set_flag_and_register(&mut self, flag: u8, x: usize, value: u8)
        requires
            x < 16,
        ensures
            final(self)@ == old(self)@.with_flag_and_register(flag, x as int, value),
    {
        self.vregs[FLAG_REGISTER] = flag;
        self.vregs[x] = value;
        assert(self@ =~= old(self)@.with_flag_and_register(flag, x as int, value));
    }

    /// Moves the program counter past one more instruction if `condition` holds.
    fn skip_if(&mut self, condition: bool)
        ensures
            final(self)@ == old(self)@.skip_if(condition),
    {
        if condition {
            self.program_counter = self.program_counter.wrapping_add(2);
        }
        assert(self@ =~= old(self)@.skip_if(condition));
    }

    /// Darkens every pixel and raises the clear flag.
    fn clear_display(&mut self)
        ensures
            final(self)@ == step(old(self)@, Instruction::ClearScreen, 0)->Ok_0,
    {
        let mut i: usize = 0;
        while i < self.display.len()
            invariant
                i <= self.display@.len(),
                forall|p: int| 0 <= p < i ==> !self.display@[p],
                self@ == (MachineState { display: self.display@, ..old(self)@ }),
            decreases self.display@.len() - i,
        {
            self.display[i] = false;
            i += 1;
        }
        self.clear_flag = true;
        assert(self@ =~= step(old(self)@, Instruction::ClearScreen, 0)->Ok_0);
    }

    /// Pops the return address into the program counter.
    fn return_from_subroutine(&mut self) -> (result: Result<(), Fault>)
        ensures
            carried_out(
                old(self)@,
                step(old(self)@, Instruction::Return, 0),
                (),
                result,
                final(self)@,
            ),
    {
        if self.stack_pointer == 0 {
            return Err(Fault::StackUnderflow);
        }
        if self.stack_pointer as usize > STACK_SIZE {
            return Err(Fault::StackOverflow);
        }
        self.stack_pointer -= 1;
        self.program_counter = self.stack[self.stack_pointer as usize];
        assert(self@ =~= step(old(self)@, Instruction::Return, 0)->Ok_0);
        Ok(())
    }

    /// Pushes the program counter and jumps to `addr`.
    fn call_subroutine(&mut self, addr: u16) -> (result: Result<(), Fault>)
        ensures
            carried_out(
                old(self)@,
                step(old(self)@, Instruction::Call { addr }, 0),
                (),
                result,
                final(self)@,
            ),
    {
        if self.stack_pointer as usize >= STACK_SIZE {
            return Err(Fault::StackOverflow);
        }
        self.stack[self.stack_pointer as usize] = self.program_counter;
        self.stack_pointer += 1;
        self.program_counter = addr;
        assert(self@ =~= step(old(self)@, Instruction::Call { addr }, 0)->Ok_0);
        Ok(())
    }

    /// Stores the number of the lowest key that is down in register `x`, or
    /// moves the program counter back onto the instruction if no key is down.
    fn wait_for_key(&mut self, x: usize)
        requires
            x < 16,
        ensures
            final(self)@ == step(old(self)@, Instruction::WaitKey { x }, 0)->Ok_0,
    {
        let mut i: usize = 0;
        while i < self.keyboard.len()
            invariant
                i <= self.keyboard@.len(),
                self.keyboard@.len() == 16,
                x < 16,
                *self == *old(self),
                lowest_pressed(self.keyboard@, 0) == lowest_pressed(self.keyboard@, i as int),
            decreases self.keyboard@.len() - i,
        {
            if self.keyboard[i] {
                self.vregs[x] = i as u8;
                assert(self@ =~= old(self)@.with_register(x as int, i as u8));
                return ;
            }
            i += 1;
        }
        let target: u16 = self.program_counter.wrapping_sub(2);
        self.program_counter = target;
        assert(self@ =~= old(self)@.with_program_counter(target));
    }

    /// Writes the hundreds, tens and ones of register `x` at the index register.
    fn store_decimal(&mut self, x: usize) -> (result: Result<(), Fault>)
        requires
            x < 16,
        ensures
            carried_out(
                old(self)@,
                step(old(self)@, Instruction::StoreBcd { x }, 0),
                (),
                result,
                final(self)@,
            ),
    {
        let start: usize = self.ireg as usize;
        if start + 2 >= RAM_SIZE {
            return Err(out_of_range(self.ireg));
        }
        let vx: u8 = self.vregs[x];
        self.ram[start] = vx / 100;
        self.ram[start + 1] = (vx / 10) % 10;
        self.ram[start + 2] = vx % 10;
        assert(self@ =~= step(old(self)@, Instruction::StoreBcd { x }, 0)->Ok_0);
        Ok(())
    }

    /// Copies registers 0 to `x` to memory at the index register.
    fn store_registers(&mut self, x: usize) -> (result: Result<(), Fault>)
        requires
            x < 16,
        ensures
            carried_out(
                old(self)@,
                step(old(self)@, Instruction::StoreRegs { x }, 0),
                (),
                result,
                final(self)@,
            ),
    {
        let start: usize = self.ireg as usize;
        if start + x >= RAM_SIZE {
            return Err(out_of_range(self.ireg));
        }
        let mut idx: usize = 0;
        while idx <= x
            invariant
                idx <= x + 1,
                x < 16,
                start == old(self).ireg,
                start + x < RAM_SIZE,
                self@ == (MachineState { ram: self.ram@, ..old(self)@ }),
                forall|a: int|
                    0 <= a < RAM_SIZE ==> self.ram@[a] == if start <= a < start + idx {
                        old(self).vregs@[a - start]
                    } else {
                        old(self).ram@[a]
                    },
            decreases x + 1 - idx,
        {
            self.ram[start + idx] = self.vregs[idx];
            idx += 1;
        }
        assert(self@ =~= step(old(self)@, Instruction::StoreRegs { x }, 0)->Ok_0);
        Ok(())
    }

    /// Copies memory at the index register to registers 0 to `x`.
    fn load_registers(&mut self, x: usize) -> (result: Result<(), Fault>)
        requires
            x < 16,
        ensures
            carried_out(
                old(self)@,
                step(old(self)@, Instruction::LoadRegs { x }, 0),
                (),
                result,
                final(self)@,
            ),
    {
        let start: usize = self.ireg as usize;
        if start + x >= RAM_SIZE {
            return Err(out_of_range(self.ireg));
        }
        let mut idx: usize = 0;
        while idx <= x
            invariant
                idx <= x + 1,
                x < 16,
                start == old(self).ireg,
                start + x < RAM_SIZE,
                self@ == (MachineState { vregs: self.vregs@, ..old(self)@ }),
                forall|r: int|
                    0 <= r < 16 ==> self.vregs@[r] == if r < idx {
                        old(self).ram@[start + r]
                    } else {
                        old(self).vregs@[r]
                    },
            decreases x + 1 - idx,
        {
            self.vregs[idx] = self.ram[start + idx];
            idx += 1;
        }
        assert(self@ =~= step(old(self)@, Instruction::LoadRegs { x }, 0)->Ok_0);
        Ok(())
    }
}

} // verus!
