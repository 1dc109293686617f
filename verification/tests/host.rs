use chip8::chip8::Chip8;
use chip8::host::{pixel_rect, selected_rom};

#[test]
fn pixel_rect_scales_column_and_row() {
    assert_eq!(pixel_rect(0, 15), Some((0, 0, 15, 15)));
    assert_eq!(pixel_rect(1, 15), Some((15, 0, 15, 15)));
    assert_eq!(pixel_rect(63, 15), Some((945, 0, 15, 15)));
    assert_eq!(pixel_rect(64, 15), Some((0, 15, 15, 15)));
    assert_eq!(pixel_rect(3 + 64 * 2, 10), Some((30, 20, 10, 10)));
    assert_eq!(pixel_rect(2047, 15), Some((945, 465, 15, 15)));
    assert_eq!(pixel_rect(2047, 1), Some((63, 31, 1, 1)));
    assert_eq!(pixel_rect(100, 0), Some((0, 0, 0, 0)));
}

#[test]
fn pixel_rect_has_nothing_outside_the_display() {
    assert_eq!(pixel_rect(2048, 15), None);
    assert_eq!(pixel_rect(usize::MAX, 1), None);
}

#[test]
fn pixel_rect_has_nothing_where_an_edge_does_not_fit() {
    // 63 * 34_087_042 = 2_147_483_646 fits; 63 * 34_087_043 does not.
    assert_eq!(pixel_rect(63, 34_087_042), Some((2_147_483_646, 0, 34_087_042, 34_087_042)));
    assert_eq!(pixel_rect(63, 34_087_043), None);
    assert_eq!(pixel_rect(62, 34_087_043), Some((2_113_396_666, 0, 34_087_043, 34_087_043)));
    assert_eq!(pixel_rect(64 * 31, 69_273_666), Some((0, 2_147_483_646, 69_273_666, 69_273_666)));
    assert_eq!(pixel_rect(64 * 31, 69_273_667), None);
    assert_eq!(pixel_rect(0, u32::MAX), Some((0, 0, u32::MAX, u32::MAX)));
    assert_eq!(pixel_rect(1, u32::MAX), None);
}

#[test]
fn pixel_rect_covers_the_lit_pixels_of_a_machine() {
    let mut chip8 = Chip8::new();
    chip8.load_fonts();
    chip8.vregs[0] = 1;
    chip8.vregs[1] = 1;
    chip8.ireg = 5;
    assert_eq!(chip8.execute(0xD011), Ok(()));
    let mut rects = Vec::new();
    for (index, pixel) in chip8.get_display().iter().enumerate() {
        if *pixel {
            rects.push(pixel_rect(index, 15));
        }
    }
    assert_eq!(rects, vec![Some((45, 15, 15, 15))]);
}

#[test]
fn selected_rom_counts_from_one() {
    assert_eq!(selected_rom(1, 3), Some(0));
    assert_eq!(selected_rom(3, 3), Some(2));
    assert_eq!(selected_rom(0, 3), None);
    assert_eq!(selected_rom(4, 3), None);
    assert_eq!(selected_rom(1, 0), None);
    assert_eq!(selected_rom(0, 0), None);
    assert_eq!(selected_rom(usize::MAX, usize::MAX), Some(usize::MAX - 1));
}
