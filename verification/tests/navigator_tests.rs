use pixelfield::codec::{load, save};
use pixelfield::grid::{Image, Ternary};
use pixelfield::navigator::{Command, UiState};

fn fresh(width: u32, height: u32) -> UiState {
    UiState::new(Image::create(width, height).unwrap())
}

#[test]
fn new_session_starts_at_origin() {
    let ui = fresh(4, 3);
    assert_eq!(ui.x, 0);
    assert_eq!(ui.y, 0);
    assert!(!ui.setting_mode);
    assert!(ui.going_right);
}

#[test]
fn moves_clamp_at_borders() {
    let mut ui = fresh(3, 2);
    ui.apply_command(Command::MoveLeft);
    ui.apply_command(Command::MoveUp);
    assert_eq!((ui.x, ui.y), (0, 0));
    for _ in 0..5 {
        ui.apply_command(Command::MoveRight);
    }
    assert_eq!(ui.x, 2);
    for _ in 0..5 {
        ui.apply_command(Command::MoveDown);
    }
    assert_eq!(ui.y, 1);
    ui.apply_command(Command::Home);
    assert_eq!((ui.x, ui.y), (0, 0));
}

#[test]
fn cursor_stays_in_bounds_under_all_commands() {
    let commands = [
        Command::MoveLeft,
        Command::MoveRight,
        Command::MoveUp,
        Command::MoveDown,
        Command::Home,
        Command::ToggleDirection,
        Command::ToggleSettingMode,
        Command::SetCurrent(Ternary::True),
        Command::PaintRun(7),
    ];
    let mut ui = fresh(3, 3);
    for cmd in commands.iter().cycle().take(60) {
        ui.apply_command(*cmd);
        assert!(ui.x < ui.image.width);
        assert!(ui.y < ui.image.height);
    }
}

#[test]
fn toggles_flip_flags() {
    let mut ui = fresh(2, 2);
    ui.apply_command(Command::ToggleDirection);
    assert!(!ui.going_right);
    ui.apply_command(Command::ToggleDirection);
    assert!(ui.going_right);
    ui.apply_command(Command::ToggleSettingMode);
    assert!(ui.setting_mode);
    ui.apply_command(Command::ToggleSettingMode);
    assert!(!ui.setting_mode);
}

#[test]
fn set_current_writes_only_the_cursor_cell() {
    let mut ui = fresh(4, 3);
    ui.apply_command(Command::SetCurrent(Ternary::True));
    assert_eq!(ui.image.get(0, 0), Ok(Ternary::True));
    for i in 1..ui.image.pixels.len() {
        assert_eq!(ui.image.pixels[i], Ternary::Unset);
    }
    // saving and loading reproduces this exact grid
    let loaded = load(&save(&ui.image)).unwrap();
    assert_eq!(loaded, ui.image);
}

#[test]
fn paint_run_zero_still_flips_paint_value() {
    let mut ui = fresh(3, 3);
    ui.apply_command(Command::PaintRun(0));
    assert!(ui.setting_mode);
    for cell in &ui.image.pixels {
        assert_eq!(*cell, Ternary::Unset);
    }
    ui.apply_command(Command::PaintRun(0));
    assert!(!ui.setting_mode);
}

#[test]
fn paint_run_is_deterministic() {
    let mut a = fresh(4, 4);
    let mut b = fresh(4, 4);
    a.apply_command(Command::PaintRun(9));
    b.apply_command(Command::PaintRun(9));
    assert_eq!(a.image, b.image);
    assert_eq!((a.x, a.y), (b.x, b.y));
    assert_eq!(a.setting_mode, b.setting_mode);
    assert_eq!(a.going_right, b.going_right);
}

#[test]
fn serpentine_boundary_step_descends_and_flips() {
    // at the right edge with a row below, one paint step flips the
    // direction to leftward and moves the cursor down one row
    let mut ui = fresh(3, 3);
    ui.x = 2;
    ui.y = 1;
    ui.apply_command(Command::PaintRun(1));
    assert_eq!((ui.x, ui.y), (2, 2));
    assert!(!ui.going_right);
}

#[test]
fn serpentine_saturates_in_single_column() {
    let mut ui = fresh(1, 2);
    ui.y = 1;
    for _ in 0..4 {
        ui.apply_command(Command::PaintRun(1));
        assert_eq!((ui.x, ui.y), (0, 1));
    }
}

#[test]
fn paint_run_three_from_right_edge() {
    // the canonical serpentine seed case: a 3-by-3 grid, cursor at
    // (2,1), moving rightward, paint value false; a run of three writes
    // false at (2,1), (2,2) and (1,2) and leaves the cursor at (0,2)
    let mut ui = fresh(3, 3);
    ui.x = 2;
    ui.y = 1;
    ui.apply_command(Command::PaintRun(3));
    assert_eq!(ui.image.get(2, 1), Ok(Ternary::False));
    assert_eq!(ui.image.get(2, 2), Ok(Ternary::False));
    assert_eq!(ui.image.get(1, 2), Ok(Ternary::False));
    let written = [(2u32, 1u32), (2, 2), (1, 2)];
    for y in 0..3u32 {
        for x in 0..3u32 {
            if !written.contains(&(x, y)) {
                assert_eq!(ui.image.get(x, y), Ok(Ternary::Unset));
            }
        }
    }
    assert_eq!((ui.x, ui.y), (0, 2));
    assert!(!ui.going_right);
    assert!(ui.setting_mode);
}

#[test]
fn paint_run_uses_current_paint_value() {
    let mut ui = fresh(2, 1);
    ui.apply_command(Command::ToggleSettingMode);
    ui.apply_command(Command::PaintRun(2));
    assert_eq!(ui.image.get(0, 0), Ok(Ternary::True));
    assert_eq!(ui.image.get(1, 0), Ok(Ternary::True));
    assert!(!ui.setting_mode);
}
