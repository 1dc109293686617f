//! Laws of the machine: what follows from the meaning of its operations.
use vstd::prelude::*;
use crate::constants::{FLAG_REGISTER, FONTSET_SIZE, FONT_SET, PROGRAM_START, RAM_SIZE, STACK_SIZE};
use crate::decode::{instruction_of, lemma_decoded_is_well_formed, Instruction};
use crate::draw::{collides, covers, drawn};
use crate::fault::Fault;
use crate::model::{
    cycled, fetched, fonts_loaded, lowest_pressed, rom_loaded, step, timers_ticked, word_at_counter,
    MachineState,
};

verus! {

/// The state after `count` timer ticks.
pub open spec fn timers_ticked_times(m: MachineState, count: nat) -> MachineState
    decreases count,
{
    if count == 0 {
        m
    } else {
        timers_ticked(timers_ticked_times(m, (count - 1) as nat))
    }
}

/// The outcome of `randoms.len()` cycles in a row, the i-th with `randoms[i]` as
/// its random byte; the first fault ends the run.
pub open spec fn cycled_times(m: MachineState, randoms: Seq<u8>) -> Result<MachineState, Fault>
    decreases randoms.len(),
{
    if randoms.len() == 0 {
        Ok(m)
    } else {
        match cycled_times(m, randoms.drop_last()) {
            Ok(next) => cycled(next, randoms.last()),
            Err(fault) => Err(fault),
        }
    }
}

/// The outcome of calling the subroutines at `targets` one inside the other; the
/// first fault ends the run.
pub open spec fn calls_nested(m: MachineState, targets: Seq<u16>) -> Result<MachineState, Fault>
    decreases targets.len(),
{
    if targets.len() == 0 {
        Ok(m)
    } else {
        match calls_nested(m, targets.drop_last()) {
            Ok(next) => step(next, Instruction::Call { addr: targets.last() }, 0),
            Err(fault) => Err(fault),
        }
    }
}

/// An instruction leaves every part of the machine at its size, and a stack
/// pointer that lies within the stack stays within it.
pub proof fn law_step_keeps_shape(m: MachineState, instruction: Instruction, random: u8)
    requires
        m.well_formed(),
        instruction.well_formed(),
        step(m, instruction, random) is Ok,
    ensures
        step(m, instruction, random)->Ok_0.well_formed(),
        m.stack_pointer <= STACK_SIZE ==> step(m, instruction, random)->Ok_0.stack_pointer
            <= STACK_SIZE,
{
}

/// A cycle leaves every part of the machine at its size, a stack pointer that
/// lies within the stack stays within it, and the word that was carried out lay
/// within memory.
pub proof fn law_cycle_keeps_shape(m: MachineState, random: u8)
    requires
        m.well_formed(),
        cycled(m, random) is Ok,
    ensures
        cycled(m, random)->Ok_0.well_formed(),
        m.stack_pointer <= STACK_SIZE ==> cycled(m, random)->Ok_0.stack_pointer <= STACK_SIZE,
        m.program_counter + 1 < RAM_SIZE,
{
    lemma_decoded_is_well_formed(word_at_counter(m));
    law_step_keeps_shape(fetched(m)->Ok_0, instruction_of(word_at_counter(m)), random);
}

/// After the fonts are loaded the first 80 bytes of memory are the font table,
/// and every other byte is as before.
pub proof fn law_fonts_at_start(m: MachineState)
    requires
        m.well_formed(),
    ensures
        fonts_loaded(m).ram.subrange(0, FONTSET_SIZE as int) == FONT_SET@,
        fonts_loaded(m).ram.subrange(FONTSET_SIZE as int, RAM_SIZE as int) == m.ram.subrange(
            FONTSET_SIZE as int,
            RAM_SIZE as int,
        ),
{
    assert(fonts_loaded(m).ram.subrange(0, FONTSET_SIZE as int) =~= FONT_SET@);
    assert(fonts_loaded(m).ram.subrange(FONTSET_SIZE as int, RAM_SIZE as int) =~= m.ram.subrange(
        FONTSET_SIZE as int,
        RAM_SIZE as int,
    ));
}

/// After a program that fits is loaded, memory from the program start on holds
/// the program, and memory before and after it is as before.
pub proof fn law_rom_in_window(m: MachineState, data: Seq<u8>)
    requires
        m.well_formed(),
        data.len() <= RAM_SIZE - PROGRAM_START,
    ensures
        rom_loaded(m, data) is Ok,
        rom_loaded(m, data)->Ok_0.ram.subrange(
            PROGRAM_START as int,
            PROGRAM_START + data.len(),
        ) == data,
        rom_loaded(m, data)->Ok_0.ram.subrange(0, PROGRAM_START as int) == m.ram.subrange(
            0,
            PROGRAM_START as int,
        ),
        rom_loaded(m, data)->Ok_0.ram.subrange(PROGRAM_START + data.len(), RAM_SIZE as int)
            == m.ram.subrange(PROGRAM_START + data.len(), RAM_SIZE as int),
{
    let after = rom_loaded(m, data)->Ok_0.ram;
    assert(after.subrange(PROGRAM_START as int, PROGRAM_START + data.len()) =~= data);
    assert(after.subrange(0, PROGRAM_START as int) =~= m.ram.subrange(0, PROGRAM_START as int));
    assert(after.subrange(PROGRAM_START + data.len(), RAM_SIZE as int) =~= m.ram.subrange(
        PROGRAM_START + data.len(),
        RAM_SIZE as int,
    ));
}

/// Adding a byte to a register wraps modulo 256 and changes no other register,
/// the flag included.
pub proof fn law_add_immediate_wraps(m: MachineState, x: usize, nn: u8, random: u8)
    requires
        m.well_formed(),
        x < 16,
    ensures
        step(m, Instruction::AddImm { x, nn }, random) is Ok,
        step(m, Instruction::AddImm { x, nn }, random)->Ok_0.vregs[x as int] == (m.vregs[x as int]
            + nn) % 256,
        forall|r: int|
            0 <= r < 16 && r != x ==> step(m, Instruction::AddImm { x, nn }, random)->Ok_0.vregs[r]
                == m.vregs[r],
{
}

/// Adding the same byte twice adds twice the byte, modulo 256.
pub proof fn law_add_immediate_twice(m: MachineState, x: usize, nn: u8, random: u8)
    requires
        m.well_formed(),
        x < 16,
    ensures
        step(
            step(m, Instruction::AddImm { x, nn }, random)->Ok_0,
            Instruction::AddImm { x, nn },
            random,
        )->Ok_0.vregs[x as int] == (m.vregs[x as int] + 2 * nn) % 256,
{
}

/// A cycle on a `3XNN` instruction moves the program counter on by 4 from where
/// the instruction was fetched if register `x` holds `nn`, and by 2 if not, and
/// changes nothing else.
pub proof fn law_skip_advances(m: MachineState, x: usize, nn: u8, random: u8)
    requires
        m.well_formed(),
        x < 16,
        m.program_counter + 1 < RAM_SIZE,
        m.ram[m.program_counter as int] == 0x30 + x,
        m.ram[m.program_counter + 1] == nn,
    ensures
        cycled(m, random) == Ok::<MachineState, Fault>(
            m.with_program_counter(
                (m.program_counter + if m.vregs[x as int] == nn {
                    4int
                } else {
                    2int
                }) as u16,
            ),
        ),
{
    let opcode = word_at_counter(m);
    assert(opcode == (0x30 + x) * 0x100 + nn);
    assert(instruction_of(opcode) == Instruction::SkipEqImm { x, nn });
    assert(cycled(m, random)->Ok_0 =~= m.with_program_counter(
        (m.program_counter + if m.vregs[x as int] == nn {
            4int
        } else {
            2int
        }) as u16,
    ));
}

/// Drawing a sprite over itself restores the display.
pub proof fn law_draw_is_involution(
    ram: Seq<u8>,
    start: int,
    height: int,
    left: int,
    top: int,
    display: Seq<bool>,
)
    requires
        display.len() == 2048,
    ensures
        drawn(ram, start, height, left, top, drawn(ram, start, height, left, top, display))
            == display,
{
    assert(drawn(ram, start, height, left, top, drawn(ram, start, height, left, top, display))
        =~= display);
}

/// Drawing the same sprite twice at the same coordinates puts every pixel back
/// as it was, and the second drawing sets the flag to 1 exactly if a pixel that
/// the sprite covers was lit after the first, and to 0 if not.
pub proof fn law_draw_twice(m: MachineState, x: usize, y: usize, n: u8, random: u8)
    requires
        m.well_formed(),
        x < 16,
        y < 16,
        n < 16,
        step(m, Instruction::Draw { x, y, n }, random) is Ok,
        step(m, Instruction::Draw { x, y, n }, random)->Ok_0.vregs[x as int] % 64 == m.vregs[x as int]
            % 64,
        step(m, Instruction::Draw { x, y, n }, random)->Ok_0.vregs[y as int] % 32 == m.vregs[y as int]
            % 32,
    ensures
        ({
            let once = step(m, Instruction::Draw { x, y, n }, random)->Ok_0;
            let twice = step(once, Instruction::Draw { x, y, n }, random);
            let lit_after_first = exists|pixel: int| #[trigger]
                covers(
                    m.ram,
                    m.ireg as int,
                    n as int,
                    (m.vregs[x as int] % 64) as int,
                    (m.vregs[y as int] % 32) as int,
                    pixel,
                ) && once.display[pixel];
            &&& twice is Ok
            &&& twice->Ok_0.display == m.display
            &&& twice->Ok_0.vregs[FLAG_REGISTER as int] == if lit_after_first {
                1u8
            } else {
                0u8
            }
            &&& twice->Ok_0.display_flag == lit_after_first
        }),
{
    let left = (m.vregs[x as int] % 64) as int;
    let top = (m.vregs[y as int] % 32) as int;
    let once = step(m, Instruction::Draw { x, y, n }, random)->Ok_0;
    let twice = step(once, Instruction::Draw { x, y, n }, random);
    law_draw_is_involution(m.ram, m.ireg as int, n as int, left, top, m.display);
    assert(collides(m.ram, m.ireg as int, n as int, left, top, once.display) == (exists|
        pixel: int,
    | #[trigger]
        covers(m.ram, m.ireg as int, n as int, left, top, pixel) && once.display[pixel]));
}

/// What `lowest_pressed` finds is down and no key from `from` up to it is; where
/// it finds nothing, no key from `from` on is down.
pub proof fn lemma_lowest_pressed(keys: Seq<bool>, from: int)
    requires
        0 <= from,
    ensures
        match lowest_pressed(keys, from) {
            Some(key) => from <= key < keys.len() && keys[key] && forall|j: int|
                from <= j < key ==> !keys[j],
            None => forall|j: int| from <= j < keys.len() ==> !keys[j],
        },
    decreases keys.len() - from,
{
    if from < keys.len() && !keys[from] {
        lemma_lowest_pressed(keys, from + 1);
    }
}

/// With no key down, a cycle on an `FX0A` instruction leaves the whole machine
/// as it was: the program counter is back on the instruction and register `x`
/// is untouched.
pub proof fn law_wait_holds(m: MachineState, x: usize, random: u8)
    requires
        m.well_formed(),
        x < 16,
        m.program_counter + 1 < RAM_SIZE,
        m.ram[m.program_counter as int] == 0xF0 + x,
        m.ram[m.program_counter + 1] == 0x0A,
        forall|key: int| 0 <= key < 16 ==> !m.keyboard[key],
    ensures
        cycled(m, random) == Ok::<MachineState, Fault>(m),
{
    let opcode = word_at_counter(m);
    assert(opcode == (0xF0 + x) * 0x100 + 0x0A);
    assert(instruction_of(opcode) == Instruction::WaitKey { x });
    lemma_lowest_pressed(m.keyboard, 0);
    assert(cycled(m, random)->Ok_0 =~= m);
}

/// With no key down, any number of cycles on an `FX0A` instruction leaves the
/// whole machine as it was.
pub proof fn law_wait_holds_repeatedly(m: MachineState, x: usize, randoms: Seq<u8>)
    requires
        m.well_formed(),
        x < 16,
        m.program_counter + 1 < RAM_SIZE,
        m.ram[m.program_counter as int] == 0xF0 + x,
        m.ram[m.program_counter + 1] == 0x0A,
        forall|key: int| 0 <= key < 16 ==> !m.keyboard[key],
    ensures
        cycled_times(m, randoms) == Ok::<MachineState, Fault>(m),
    decreases randoms.len(),
{
    if randoms.len() > 0 {
        law_wait_holds_repeatedly(m, x, randoms.drop_last());
        law_wait_holds(m, x, randoms.last());
    }
}

/// Once a key is down, a cycle on an `FX0A` instruction moves the program
/// counter past the instruction and leaves the number of the lowest key that is
/// down in register `x`.
pub proof fn law_wait_ends(m: MachineState, x: usize, key: int, random: u8)
    requires
        m.well_formed(),
        x < 16,
        m.program_counter + 1 < RAM_SIZE,
        m.ram[m.program_counter as int] == 0xF0 + x,
        m.ram[m.program_counter + 1] == 0x0A,
        0 <= key < 16,
        m.keyboard[key],
        forall|j: int| 0 <= j < key ==> !m.keyboard[j],
    ensures
        cycled(m, random) == Ok::<MachineState, Fault>(
            m.with_program_counter((m.program_counter + 2) as u16).with_register(
                x as int,
                key as u8,
            ),
        ),
{
    let opcode = word_at_counter(m);
    assert(opcode == (0xF0 + x) * 0x100 + 0x0A);
    assert(instruction_of(opcode) == Instruction::WaitKey { x });
    lemma_lowest_pressed(m.keyboard, 0);
    assert(lowest_pressed(m.keyboard, 0) == Some(key));
}

/// After any number of timer ticks each timer is as many lower as there were
/// ticks, but never below zero, and nothing else has changed.
pub proof fn law_timers_saturate(m: MachineState, count: nat)
    ensures
        timers_ticked_times(m, count) == (MachineState {
            delay_timer: if m.delay_timer >= count {
                (m.delay_timer - count) as u8
            } else {
                0
            },
            sound_timer: if m.sound_timer >= count {
                (m.sound_timer - count) as u8
            } else {
                0
            },
            ..m
        }),
    decreases count,
{
    if count > 0 {
        law_timers_saturate(m, (count - 1) as nat);
    }
}

/// Calls nest as deep as the stack has room: from a stack that holds `depth`
/// return addresses, `16 - depth` further calls succeed and fill the stack, and
/// one call more is a stack overflow.
pub proof fn law_calls_nest(m: MachineState, targets: Seq<u16>)
    requires
        m.well_formed(),
        m.stack_pointer <= STACK_SIZE,
    ensures
        m.stack_pointer + targets.len() <= STACK_SIZE ==> calls_nested(m, targets) is Ok
            && calls_nested(m, targets)->Ok_0.stack_pointer == m.stack_pointer + targets.len()
            && calls_nested(m, targets)->Ok_0.well_formed(),
        m.stack_pointer + targets.len() > STACK_SIZE ==> calls_nested(m, targets) == Err::<
            MachineState,
            Fault,
        >(Fault::StackOverflow),
    decreases targets.len(),
{
    if targets.len() > 0 {
        law_calls_nest(m, targets.drop_last());
    }
}

} // verus!
