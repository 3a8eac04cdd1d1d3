//! Execution engine tests: construction, stepping, each implemented
//! instruction, and every fatal error.

use chip8::app::AppState;
use chip8::chip8::{Chip8Error, Ops};

#[test]
fn test_app_state() {
    let prg = [0x00, 0xE0, 0xA2, 0x2A, 0x60, 0x0C];
    let mut appstate = AppState::new(&prg);

    appstate.step().unwrap();
}

#[test]
fn cls_program_first_step() {
    let prg = [0x00, 0xE0];
    let mut app = AppState::new(&prg);
    let op = app.step().unwrap();
    assert_eq!(Ops::CLS, op);
    assert_eq!(0x202, app.pc());
    for y in 0..32usize {
        for x in 0..64usize {
            assert!(!app.vram().get(y, x));
        }
    }
}

#[test]
fn new_machine_starts_at_program_origin() {
    let prg = [0x00, 0xE0];
    let app = AppState::new(&prg);
    assert_eq!(0x200, app.pc());
    assert_eq!(0, app.index());
    assert_eq!(0, app.sp());
    for i in 0..16usize {
        assert_eq!(0, app.register(i));
    }
}

#[test]
fn call_then_ret_comes_back_after_the_call() {
    // 0x200: CALL 0x204 ; 0x202: unreached ; 0x204: RET
    let prg = [0x22, 0x04, 0x00, 0x00, 0x00, 0xEE];
    let mut app = AppState::new(&prg);
    assert_eq!(Ops::CALL(0x204), app.step().unwrap());
    assert_eq!(0x204, app.pc());
    assert_eq!(1, app.sp());
    assert_eq!(Ops::RET, app.step().unwrap());
    assert_eq!(0x202, app.pc());
    assert_eq!(0, app.sp());
}

#[test]
fn ld_and_add_wrap_around() {
    // LD V1, 0xFF ; ADD V1, 0x01 ; ADD V1, 0x05
    let prg = [0x61, 0xFF, 0x71, 0x01, 0x71, 0x05];
    let mut app = AppState::new(&prg);
    app.step().unwrap();
    assert_eq!(0xFF, app.register(1));
    app.step().unwrap();
    assert_eq!(0x00, app.register(1));
    app.step().unwrap();
    assert_eq!(0x05, app.register(1));
    assert_eq!(0x206, app.pc());
}

#[test]
fn jump_redirects_without_advancing() {
    let prg = [0x12, 0x04, 0x00, 0x00, 0x60, 0x07];
    let mut app = AppState::new(&prg);
    assert_eq!(Ops::JP(0x204), app.step().unwrap());
    assert_eq!(0x204, app.pc());
    app.step().unwrap();
    assert_eq!(0x07, app.register(0));
}

#[test]
fn draw_sprite_from_font_memory() {
    // LD I, 0x50 ; DRW V0, V0, 1 — the first row of the glyph for 0 is 0xF0.
    let prg = [0xA0, 0x50, 0xD0, 0x01];
    let mut app = AppState::new(&prg);
    app.step().unwrap();
    assert_eq!(0x50, app.index());
    app.step().unwrap();
    assert!(app.vram().get(0, 0));
    assert!(app.vram().get(0, 1));
    assert!(app.vram().get(0, 2));
    assert!(app.vram().get(0, 3));
    assert!(!app.vram().get(0, 4));
    assert_eq!(0, app.register(15));
    assert_eq!(0x204, app.pc());
}

#[test]
fn draw_same_sprite_twice_sets_collision_flag() {
    // LD I, 0x50 ; DRW V0, V0, 5 ; DRW V0, V0, 5
    let prg = [0xA0, 0x50, 0xD0, 0x05, 0xD0, 0x05];
    let mut app = AppState::new(&prg);
    app.step().unwrap();
    app.step().unwrap();
    assert_eq!(0, app.register(15));
    app.step().unwrap();
    assert_eq!(1, app.register(15));
    for y in 0..32usize {
        for x in 0..64usize {
            assert!(!app.vram().get(y, x));
        }
    }
}

#[test]
fn draw_wraps_start_coordinates() {
    // LD V0, 66 ; LD V1, 33 ; LD I, 0x50 ; DRW V0, V1, 1
    // 66 % 64 == 2, 33 % 32 == 1: the glyph row lands at row 1, column 2.
    let prg = [0x60, 0x42, 0x61, 0x21, 0xA0, 0x50, 0xD0, 0x11];
    let mut app = AppState::new(&prg);
    app.step().unwrap();
    app.step().unwrap();
    app.step().unwrap();
    app.step().unwrap();
    assert!(app.vram().get(1, 2));
    assert!(app.vram().get(1, 5));
    assert!(!app.vram().get(1, 6));
    assert!(!app.vram().get(0, 2));
}

#[test]
fn fetch_past_end_of_memory_is_fatal() {
    let prg = [0x1F, 0xFF];
    let mut app = AppState::new(&prg);
    assert_eq!(Ops::JP(0xFFF), app.step().unwrap());
    assert_eq!(0xFFF, app.pc());
    assert_eq!(Err(Chip8Error::OutOfBounds { address: 4096 }), app.step());
    assert_eq!(0xFFF, app.pc());
}

#[test]
fn sprite_read_past_end_of_memory_is_fatal() {
    // LD I, 0xFFF ; DRW V0, V0, 2 — the second sprite byte would sit at 4096.
    let prg = [0xAF, 0xFF, 0xD0, 0x02];
    let mut app = AppState::new(&prg);
    app.step().unwrap();
    assert_eq!(Err(Chip8Error::OutOfBounds { address: 4096 }), app.step());
}

#[test]
fn ret_on_empty_stack_is_fatal() {
    let prg = [0x00, 0xEE];
    let mut app = AppState::new(&prg);
    assert_eq!(Err(Chip8Error::StackUnderflow { pc: 0x200 }), app.step());
    assert_eq!(0x200, app.pc());
}

#[test]
fn call_on_full_stack_is_fatal() {
    // CALL 0x200: the program calls itself until the stack fills up.
    let prg = [0x22, 0x00];
    let mut app = AppState::new(&prg);
    for _ in 0..255 {
        assert_eq!(Ops::CALL(0x200), app.step().unwrap());
    }
    assert_eq!(255, app.sp());
    assert_eq!(Err(Chip8Error::StackOverflow { pc: 0x200 }), app.step());
}

#[test]
fn unimplemented_opcode_is_fatal() {
    // OR V1, V2 decodes but does not execute.
    let prg = [0x81, 0x21];
    let mut app = AppState::new(&prg);
    assert_eq!(
        Err(Chip8Error::UnimplementedOpcode {
            pc: 0x200,
            op: Ops::ORV(1, 2),
        }),
        app.step()
    );
}

#[test]
fn unknown_opcode_is_fatal() {
    let prg = [0x00, 0x00];
    let mut app = AppState::new(&prg);
    assert_eq!(
        Err(Chip8Error::UnknownOpcode {
            pc: 0x200,
            word: 0x0000,
        }),
        app.step()
    );
}
