use chip8_core::machine::{CoreState, ErrorKind, BASE_WIDTH};

fn machine_with_program(bytes: &[u8]) -> CoreState {
    let mut s = CoreState::new();
    for (k, b) in bytes.iter().enumerate() {
        s.memory[512 + k] = *b;
    }
    s
}

#[test]
fn fresh_machine_has_font_and_defaults() {
    let s = CoreState::new();
    assert_eq!(s.program_counter, 512);
    assert_eq!(s.opcodes_per_frame, 20);
    assert_eq!(s.memory[0], 0x60);
    assert_eq!(s.memory[79], 0x80);
    assert_eq!(s.memory[80], 0);
    assert_eq!(s.memory[4095], 0);
    assert!(!s.running);
    assert!(s.error.is_none());
    assert!(s.rom_name.is_none());
    assert!(s.framebuffer.iter().all(|p| !p));
    assert_eq!(s.framebuffer.len(), 64 * 32);
}

#[test]
fn load_immediate_sets_register() {
    // "6005": V0 = 5, and the counter moves over the instruction.
    let mut s = machine_with_program(&[0x60, 0x05]);
    s.execute_opcode();
    assert_eq!(s.v_registers[0], 5);
    assert_eq!(s.program_counter, 514);
    assert!(s.error.is_none());
}

#[test]
fn call_then_return_restores_counter() {
    // Call 0x204, then return: the stack is empty again and the counter
    // stands after the call instruction.
    let mut s = machine_with_program(&[0x22, 0x04, 0x00, 0x00, 0x00, 0xEE]);
    s.execute_opcode();
    assert_eq!(s.program_counter, 0x204);
    assert_eq!(s.call_stack, vec![514]);
    s.execute_opcode();
    assert_eq!(s.program_counter, 514);
    assert!(s.call_stack.is_empty());
    assert!(s.error.is_none());
}

#[test]
fn return_on_empty_stack_is_invalid() {
    let mut s = machine_with_program(&[0x00, 0xEE]);
    s.execute_opcode();
    match &s.error {
        Some(ErrorKind::InvalidReturn { address }) => assert_eq!(*address, 512),
        other => panic!("expected InvalidReturn, got {:?}", other.is_some()),
    }
}

#[test]
fn add_with_carry_wraps_and_sets_flag() {
    // 8124: V1 += V2 with 0xFF + 0x01 = 0x00, carry 1.
    let mut s = machine_with_program(&[0x81, 0x24]);
    s.v_registers[1] = 0xFF;
    s.v_registers[2] = 0x01;
    s.execute_opcode();
    assert_eq!(s.v_registers[1], 0x00);
    assert_eq!(s.v_registers[0xF], 1);
}

#[test]
fn subtract_with_borrow_wraps_and_clears_flag() {
    // 8125: V1 -= V2 with 0x01 - 0x02 = 0xFF, borrow so VF = 0.
    let mut s = machine_with_program(&[0x81, 0x25]);
    s.v_registers[1] = 0x01;
    s.v_registers[2] = 0x02;
    s.execute_opcode();
    assert_eq!(s.v_registers[1], 0xFF);
    assert_eq!(s.v_registers[0xF], 0);
}

#[test]
fn or_combines_and_resets_flag() {
    // 8121: V1 |= V2 and VF is reset as an explicit quirk.
    let mut s = machine_with_program(&[0x81, 0x21]);
    s.v_registers[1] = 0b1010;
    s.v_registers[2] = 0b0101;
    s.v_registers[0xF] = 1;
    s.execute_opcode();
    assert_eq!(s.v_registers[1], 0b1111);
    assert_eq!(s.v_registers[0xF], 0);
}

#[test]
fn shifts_capture_shifted_out_bit() {
    // 8106: shift right, LSB into VF.
    let mut s = machine_with_program(&[0x81, 0x06, 0x82, 0x0E]);
    s.v_registers[1] = 0b1001_0011;
    s.v_registers[2] = 0b1001_0011;
    s.execute_opcode();
    assert_eq!(s.v_registers[1], 0b0100_1001);
    assert_eq!(s.v_registers[0xF], 1);
    // 820E: shift left, MSB into VF.
    s.execute_opcode();
    assert_eq!(s.v_registers[2], 0b0010_0110);
    assert_eq!(s.v_registers[0xF], 1);
}

#[test]
fn skips_take_and_fall_through() {
    // 3105: skip if V1 == 5.
    let mut s = machine_with_program(&[0x31, 0x05]);
    s.v_registers[1] = 5;
    s.execute_opcode();
    assert_eq!(s.program_counter, 516);
    let mut s2 = machine_with_program(&[0x31, 0x05]);
    s2.v_registers[1] = 4;
    s2.execute_opcode();
    assert_eq!(s2.program_counter, 514);
}

#[test]
fn unmapped_patterns_are_invalid_opcodes() {
    // 810F: no such ALU sub-code.
    let mut s = machine_with_program(&[0x81, 0x0F]);
    s.execute_opcode();
    match &s.error {
        Some(ErrorKind::InvalidOpcode { opcode, address }) => {
            assert_eq!(*opcode, 0x810F);
            assert_eq!(*address, 512);
        },
        _ => panic!("expected InvalidOpcode"),
    }
}

#[test]
fn jumps_and_address_register() {
    // A234: I = 0x234; 1356: jump 0x356; B102: jump 0x102 + V0.
    let mut s = machine_with_program(&[0xA2, 0x34, 0x13, 0x56]);
    s.execute_opcode();
    assert_eq!(s.i_register, 0x234);
    s.execute_opcode();
    assert_eq!(s.program_counter, 0x356);
    let mut s2 = machine_with_program(&[0xB1, 0x02]);
    s2.v_registers[0] = 0x10;
    s2.execute_opcode();
    assert_eq!(s2.program_counter, 0x112);
}

#[test]
fn random_byte_is_masked() {
    // C30F: V3 = random & 0x0F.
    let mut s = machine_with_program(&[0xC3, 0x0F]);
    s.execute_opcode();
    assert_eq!(s.v_registers[3] & 0xF0, 0);
    assert_eq!(s.program_counter, 514);
}

#[test]
fn bcd_writes_three_digits() {
    // F333: BCD of V3 at I, I+1, I+2.
    let mut s = machine_with_program(&[0xF3, 0x33]);
    s.v_registers[3] = 254;
    s.i_register = 0x300;
    s.execute_opcode();
    assert_eq!(s.memory[0x300], 2);
    assert_eq!(s.memory[0x301], 5);
    assert_eq!(s.memory[0x302], 4);
}

#[test]
fn block_store_and_load_round_trip() {
    // F255: store V0..V2; F265: load them back; I stays put.
    let mut s = machine_with_program(&[0xF2, 0x55, 0x62, 0x00, 0xF2, 0x65]);
    s.v_registers[0] = 7;
    s.v_registers[1] = 8;
    s.v_registers[2] = 9;
    s.i_register = 0x400;
    s.execute_opcode();
    assert_eq!(&s.memory[0x400..0x403], &[7, 8, 9]);
    assert_eq!(s.i_register, 0x400);
    s.execute_opcode(); // 6200: V2 = 0
    assert_eq!(s.v_registers[2], 0);
    s.execute_opcode();
    assert_eq!(s.v_registers[2], 9);
    assert_eq!(s.i_register, 0x400);
}

#[test]
fn timers_read_write_and_tick() {
    // F315: delay = V3; F207: V2 = delay.
    let mut s = machine_with_program(&[0xF3, 0x15, 0xF2, 0x07]);
    s.v_registers[3] = 2;
    s.execute_opcode();
    assert_eq!(s.delay_timer, 2);
    s.execute_opcode();
    assert_eq!(s.v_registers[2], 2);
    s.update_timers();
    assert_eq!(s.delay_timer, 1);
    s.update_timers();
    assert_eq!(s.delay_timer, 0);
    s.update_timers();
    assert_eq!(s.delay_timer, 0);
}

#[test]
fn font_addressing_multiplies_by_glyph_size() {
    // F129: I = V1 * 5.
    let mut s = machine_with_program(&[0xF1, 0x29]);
    s.v_registers[1] = 0xA;
    s.execute_opcode();
    assert_eq!(s.i_register, 50);
}

#[test]
fn key_skip_and_key_wait() {
    // E19E: skip when the key in V1 is down.
    let mut s = machine_with_program(&[0xE1, 0x9E]);
    s.v_registers[1] = 4;
    s.keys_down[4] = true;
    s.execute_opcode();
    assert_eq!(s.program_counter, 516);
    // F10A with no key down polls: the counter moves back over it.
    let mut s2 = machine_with_program(&[0xF1, 0x0A]);
    s2.execute_opcode();
    assert_eq!(s2.program_counter, 512);
    // With keys down, the lowest index lands in V1.
    s2.keys_down[9] = true;
    s2.keys_down[6] = true;
    s2.execute_opcode();
    assert_eq!(s2.v_registers[1], 6);
    assert_eq!(s2.program_counter, 514);
}

#[test]
fn draw_sets_pixels_and_clear_screen_erases() {
    // D125 at (V1, V2) = (3, 4), 5 rows of the glyph for 0.
    let mut s = machine_with_program(&[0xD1, 0x25, 0x00, 0xE0]);
    s.v_registers[1] = 3;
    s.v_registers[2] = 4;
    s.i_register = 0; // glyph 0 of the font
    s.execute_opcode();
    // Font row 0 of glyph 0 is 0b01100000: pixels at x = 4 and 5, y = 4.
    assert!(!s.framebuffer[4 * BASE_WIDTH + 3]);
    assert!(s.framebuffer[4 * BASE_WIDTH + 4]);
    assert!(s.framebuffer[4 * BASE_WIDTH + 5]);
    assert_eq!(s.v_registers[0xF], 0);
    s.execute_opcode();
    assert!(s.framebuffer.iter().all(|p| !p));
}

#[test]
fn draw_twice_restores_and_reports_collision() {
    let mut s = machine_with_program(&[0xD1, 0x25, 0xD1, 0x25]);
    s.v_registers[1] = 10;
    s.v_registers[2] = 7;
    s.i_register = 0;
    let blank = s.framebuffer.clone();
    s.execute_opcode();
    assert_eq!(s.v_registers[0xF], 0);
    assert!(s.framebuffer.iter().any(|p| *p));
    s.execute_opcode();
    assert_eq!(s.v_registers[0xF], 1);
    assert_eq!(s.framebuffer, blank);
}

#[test]
fn draw_wraps_at_screen_edges() {
    // An 8-pixel row drawn at x = 62 wraps onto x = 0 and 1.
    let mut s = machine_with_program(&[0xD1, 0x21]);
    s.v_registers[1] = 62;
    s.v_registers[2] = 0;
    s.i_register = 0x500;
    s.memory[0x500] = 0xFF;
    s.execute_opcode();
    assert!(s.framebuffer[62]);
    assert!(s.framebuffer[63]);
    assert!(s.framebuffer[0]);
    assert!(s.framebuffer[1]);
}
