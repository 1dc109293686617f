//! The machine state, its loaders and the fetch-execute cycle.
use vstd::prelude::*;
use crate::constants::{
    DISPLAY_SIZE, FONTSET_SIZE, FONT_SET, KEYBOARD_MAP_SIZE, PROGRAM_START, RAM_SIZE, STACK_SIZE,
    VREG_SIZE,
};
use crate::decode::instruction_of;
use crate::fault::Fault;
use crate::model::{
    carried_out, cycled, fetched, fonts_loaded, key_changed, rom_loaded, step, timers_ticked,
    word_at_counter, MachineState,
};

verus! {

/// A CHIP-8 machine.
#[derive(Clone, Debug, PartialEq, Eq)]
pub struct Chip8 {
    pub ram: [u8; RAM_SIZE],
    pub vregs: [u8; VREG_SIZE],
    pub stack: [u16; STACK_SIZE],
    pub keyboard: [bool; KEYBOARD_MAP_SIZE],
    pub display: [bool; DISPLAY_SIZE],
    pub ireg: u16,
    pub program_counter: u16,
    pub stack_pointer: u16,
    pub delay_timer: u8,
    pub sound_timer: u8,
    pub clear_flag: bool,
    pub display_flag: bool,
}

impl View for Chip8 {
    type V = MachineState;

    open spec fn view(&self) -> MachineState {
        MachineState {
            ram: self.ram@,
            vregs: self.vregs@,
            stack: self.stack@,
            keyboard: self.keyboard@,
            display: self.display@,
            ireg: self.ireg,
            program_counter: self.program_counter,
            stack_pointer: self.stack_pointer,
            delay_timer: self.delay_timer,
            sound_timer: self.sound_timer,
            clear_flag: self.clear_flag,
            display_flag: self.display_flag,
        }
    }
}

impl Chip8 {
    /// A machine with every byte, register, timer and counter at zero, no key
    /// pressed, a dark display and both dirty flags down.
    pub fn new() -> (chip8: Self)
        ensures
            chip8@ == MachineState::initial(),
    {
        Chip8 {
            ram: [0; RAM_SIZE],
            vregs: [0; VREG_SIZE],
            stack: [0; STACK_SIZE],
            keyboard: [false; KEYBOARD_MAP_SIZE],
            display: [false; DISPLAY_SIZE],
            ireg: 0,
            program_counter: 0,
            stack_pointer: 0,
            delay_timer: 0,
            sound_timer: 0,
            clear_flag: false,
            display_flag: false,
        }
    }

    /// Copies the program `data` into memory at the program start. A program
    /// that does not fit is refused and nothing is written.
    pub fn load_rom(&mut self, data: &[u8]) -> (result: Result<(), Fault>)
        ensures
            carried_out(old(self)@, rom_loaded(old(self)@, data@), (), result, final(self)@),
    {
        let len: usize = data.len();
        if len > RAM_SIZE - PROGRAM_START {
            return Err(Fault::RomTooLarge { len });
        }
        let mut i: usize = 0;
        while i < len
            invariant
                i <= len == data@.len(),
                len <= RAM_SIZE - PROGRAM_START,
                self@ == (MachineState { ram: self.ram@, ..old(self)@ }),
                forall|a: int|
                    0 <= a < RAM_SIZE ==> self.ram@[a] == if PROGRAM_START <= a < PROGRAM_START
                        + i {
                        data@[a - PROGRAM_START]
                    } else {
                        old(self).ram@[a]
                    },
            decreases len - i,
        {
            self.ram[PROGRAM_START + i] = data[i];
            i += 1;
        }
        assert(self@ =~= rom_loaded(old(self)@, data@)->Ok_0);
        Ok(())
    }

    /// Writes the font table to the start of memory.
    pub fn load_fonts(&mut self)
        ensures
            final(self)@ == fonts_loaded(old(self)@),
    {
        let mut i: usize = 0;
        while i < FONTSET_SIZE
            invariant
                i <= FONTSET_SIZE,
                self@ == (MachineState { ram: self.ram@, ..old(self)@ }),
                forall|a: int|
                    0 <= a < RAM_SIZE ==> self.ram@[a] == if a < i {
                        FONT_SET@[a]
                    } else {
                        old(self).ram@[a]
                    },
            decreases FONTSET_SIZE - i,
        {
            self.ram[i] = FONT_SET[i];
            i += 1;
        }
        assert(self@ =~= fonts_loaded(old(self)@));
    }

    /// The pixels of the display, row by row: the pixel in column `x` of row `y`
    /// is at index `x + 64 * y`.
    pub fn get_display(&self) -> (pixels: &[bool])
        ensures
            pixels@ == self@.display,
    {
        &self.display
    }

    /// Records that key `key` has gone down (`pressed`) or up. A key that the
    /// pad does not have is refused.
    pub fn key_set(&mut self, key: usize, pressed: bool) -> (result: Result<(), Fault>)
        ensures
            carried_out(
                old(self)@,
                key_changed(old(self)@, key as int, pressed),
                (),
                result,
                final(self)@,
            ),
    {
        if key >= KEYBOARD_MAP_SIZE {
            return Err(Fault::InvalidKey { key });
        }
        self.keyboard[key] = pressed;
        assert(self@ =~= key_changed(old(self)@, key as int, pressed)->Ok_0);
        Ok(())
    }

    /// One cycle: fetches the word at the program counter, carries out the
    /// instruction it stands for and hands the word back. The machine then is as
    /// `cycled` says for some random byte. A fault, in the fetch or in the
    /// instruction, leaves the machine untouched, the program counter included.
    pub fn tick(&mut self) -> (result: Result<u16, Fault>)
        ensures
            exists|random: u8|
                carried_out(
                    old(self)@,
                    #[trigger] cycled(old(self)@, random),
                    word_at_counter(old(self)@),
                    result,
                    final(self)@,
                ),
    {
        let origin: u16 = self.program_counter;
        let opcode: u16 = match self.fetch_opcode() {
            Ok(opcode) => opcode,
            Err(fault) => {
                assert(carried_out(
                    old(self)@,
                    cycled(old(self)@, 0),
                    word_at_counter(old(self)@),
                    Err::<u16, Fault>(fault),
                    self@,
                ));
                return Err(fault);
            },
        };
        let ghost next = self@;
        let outcome = self.execute(opcode);
        let ghost random = choose|random: u8|
            carried_out(
                next,
                #[trigger] step(next, instruction_of(opcode), random),
                (),
                outcome,
                self@,
            );
        let result = match outcome {
            Ok(()) => Ok(opcode),
            Err(fault) => {
                self.program_counter = origin;
                assert(self@ =~= old(self)@);
                Err(fault)
            },
        };
        assert(carried_out(
            old(self)@,
            cycled(old(self)@, random),
            word_at_counter(old(self)@),
            result,
            self@,
        ));
        result
    }

    /// Lowers each timer by one unless it is at zero, and tells whether the
    /// sound timer has just run out: whether this tick took it from 1 to 0.
    pub fn tick_timers(&mut self) -> (beep: bool)
        ensures
            final(self)@ == timers_ticked(old(self)@),
            beep == (old(self).sound_timer == 1),
    {
        let mut beep: bool = false;
        if self.delay_timer > 0 {
            self.delay_timer -= 1;
        }
        if self.sound_timer > 0 {
            if self.sound_timer == 1 {
                beep = true;
            }
            self.sound_timer -= 1;
        }
        assert(self@ =~= timers_ticked(old(self)@));
        beep
    }

    /// Reads the word at the program counter, high byte first, and moves the
    /// program counter past it. Where the word does not lie within memory the
    /// fetch is refused and the program counter stays.
    pub fn fetch_opcode(&mut self) -> (result: Result<u16, Fault>)
        ensures
            carried_out(
                old(self)@,
                fetched(old(self)@),
                word_at_counter(old(self)@),
                result,
                final(self)@,
            ),
    {
        let at: usize = self.program_counter as usize;
        if at + 1 >= RAM_SIZE {
            if at >= RAM_SIZE {
                return Err(Fault::MemoryOutOfRange { address: at });
            }
            return Err(Fault::MemoryOutOfRange { address: RAM_SIZE });
        }
        let higher_byte: u16 = self.ram[at] as u16;
        let lower_byte: u16 = self.ram[at + 1] as u16;
        let opcode: u16 = (higher_byte << 8) | lower_byte;
        assert(opcode == higher_byte * 0x100 + lower_byte) by (bit_vector)
            requires
                opcode == (higher_byte << 8) | lower_byte,
                higher_byte < 0x100,
                lower_byte < 0x100,
        ;
        self.program_counter += 2;
        assert(self@ =~= fetched(old(self)@)->Ok_0);
        Ok(opcode)
    }
}

} // verus!
