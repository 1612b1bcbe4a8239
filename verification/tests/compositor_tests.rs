use pixelfield::compositor::{compose, Color, Primitive};
use pixelfield::grid::{Image, Ternary};
use pixelfield::navigator::{Command, UiState};

const GRAY: Color = Color { r: 0x7F, g: 0x7F, b: 0x7F };
const WHITE: Color = Color { r: 0xFF, g: 0xFF, b: 0xFF };
const BLACK: Color = Color { r: 0x00, g: 0x00, b: 0x00 };
const RED: Color = Color { r: 0xFF, g: 0x00, b: 0x00 };
const BLUE: Color = Color { r: 0x00, g: 0x00, b: 0xFF };
const DARK: Color = Color { r: 0x33, g: 0x33, b: 0x33 };

#[test]
fn frame_for_one_cell_grid() {
    let ui = UiState::new(Image::create(1, 1).unwrap());
    let frame = compose(&ui, 800, 600);
    assert_eq!(
        frame,
        vec![
            // background fill
            Primitive::FilledRect { x: 0, y: 0, w: 800, h: 600, color: GRAY },
            // the only in-bounds detail cell: the cursor cell itself
            Primitive::FilledRect { x: 164, y: 164, w: 32, h: 32, color: GRAY },
            // cursor outline at the fixed center of the detail window
            Primitive::OutlinedRect { x: 164, y: 164, w: 32, h: 32, color: RED },
            // the one thumbnail cell, bottom-right with a 4px margin
            Primitive::FilledRect { x: 792, y: 592, w: 4, h: 4, color: GRAY },
            // thumbnail frame
            Primitive::OutlinedRect { x: 792, y: 592, w: 4, h: 4, color: DARK },
            // detail-window indicator over the thumbnail
            Primitive::OutlinedRect { x: 776, y: 576, w: 44, h: 44, color: BLUE },
            // paint-value swatch: false, so near-black
            Primitive::FilledRect { x: 780, y: 4, w: 16, h: 16, color: BLACK },
        ]
    );
}

#[test]
fn frame_is_deterministic() {
    let mut ui = UiState::new(Image::create(5, 4).unwrap());
    ui.apply_command(Command::SetCurrent(Ternary::True));
    ui.apply_command(Command::MoveRight);
    let a = compose(&ui, 800, 600);
    let b = compose(&ui, 800, 600);
    assert_eq!(a, b);
}

#[test]
fn detail_tier_shows_cell_colors() {
    let mut ui = UiState::new(Image::create(2, 1).unwrap());
    ui.apply_command(Command::SetCurrent(Ternary::True));
    let frame = compose(&ui, 800, 600);
    // cursor (0,0): in-bounds detail cells are (0,0) at offset (5,5) and
    // (1,0) at offset (6,5)
    assert_eq!(
        frame[1],
        Primitive::FilledRect { x: 164, y: 164, w: 32, h: 32, color: WHITE }
    );
    assert_eq!(
        frame[2],
        Primitive::FilledRect { x: 196, y: 164, w: 32, h: 32, color: GRAY }
    );
}

#[test]
fn swatch_tracks_paint_value() {
    let mut ui = UiState::new(Image::create(2, 2).unwrap());
    let frame = compose(&ui, 800, 600);
    assert_eq!(
        *frame.last().unwrap(),
        Primitive::FilledRect { x: 780, y: 4, w: 16, h: 16, color: BLACK }
    );
    ui.apply_command(Command::ToggleSettingMode);
    let frame = compose(&ui, 800, 600);
    assert_eq!(
        *frame.last().unwrap(),
        Primitive::FilledRect { x: 780, y: 4, w: 16, h: 16, color: WHITE }
    );
}

#[test]
fn thumbnail_covers_every_cell() {
    let ui = UiState::new(Image::create(3, 2).unwrap());
    let frame = compose(&ui, 800, 600);
    let thumb: Vec<&Primitive> = frame
        .iter()
        .filter(|p| match p {
            Primitive::FilledRect { w: 4, h: 4, .. } => true,
            _ => false,
        })
        .collect();
    assert_eq!(thumb.len(), 6);
    // first thumbnail cell is row 0, column 0
    assert_eq!(
        *thumb[0],
        Primitive::FilledRect { x: 800 - 4 - 4 * 3, y: 600 - 4 - 4 * 2, w: 4, h: 4, color: GRAY }
    );
}
