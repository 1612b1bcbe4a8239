use vstd::prelude::*;
use crate::grid::{Image, Ternary};
use crate::navigator::UiState;

verus! {

/// An opaque RGB color.
#[derive(Clone, Copy, Debug, PartialEq, Eq, Structural)]
pub struct Color {
    pub r: u8,
    pub g: u8,
    pub b: u8,
}

/// One drawing primitive. A frame is an ordered sequence of these; later
/// primitives are drawn over earlier ones.
#[derive(Clone, Copy, Debug, PartialEq, Eq, Structural)]
pub enum Primitive {
    FilledRect { x: i32, y: i32, w: u32, h: u32, color: Color },
    OutlinedRect { x: i32, y: i32, w: u32, h: u32, color: Color },
}

/// Near-white, marking a `True` cell.
pub open spec fn color_true() -> Color {
    Color { r: 0xFF, g: 0xFF, b: 0xFF }
}

/// Near-black, marking a `False` cell.
pub open spec fn color_false() -> Color {
    Color { r: 0x00, g: 0x00, b: 0x00 }
}

/// Mid-gray, marking an `Unset` cell and the background.
pub open spec fn color_none() -> Color {
    Color { r: 0x7F, g: 0x7F, b: 0x7F }
}

/// Red, marking the cursor cell in the detail tier.
pub open spec fn color_cursor() -> Color {
    Color { r: 0xFF, g: 0x00, b: 0x00 }
}

/// Blue, marking the detail window inside the thumbnail.
pub open spec fn color_preview_frame() -> Color {
    Color { r: 0x00, g: 0x00, b: 0xFF }
}

/// Dark gray, framing the thumbnail.
pub open spec fn color_full_frame() -> Color {
    Color { r: 0x33, g: 0x33, b: 0x33 }
}

/// The color a cell value is drawn with, in both tiers.
pub open spec fn spec_cell_color(value: Ternary) -> Color {
    match value {
        Ternary::True => color_true(),
        Ternary::False => color_false(),
        Ternary::Unset => color_none(),
    }
}

/// The color a cell value is drawn with, in both tiers.
pub fn color_for_cell(value: Ternary) -> (c: Color)
    ensures
        c == spec_cell_color(value),
{
    match value {
        Ternary::True => Color { r: 0xFF, g: 0xFF, b: 0xFF },
        Ternary::False => Color { r: 0x00, g: 0x00, b: 0x00 },
        Ternary::Unset => Color { r: 0x7F, g: 0x7F, b: 0x7F },
    }
}

/// The detail-tier primitives of row offset `dy` from column offset `dx`
/// on: one 32-by-32 filled square per in-bounds cell of the 11-by-11
/// window centered on the cursor, at a fixed 4-pixel border offset.
pub open spec fn detail_row(img: Image, cx: int, cy: int, dy: int, dx: int) -> Seq<Primitive>
    decreases 11 - dx,
{
    if dx < 0 || dx >= 11 {
        Seq::empty()
    } else {
        let rest = detail_row(img, cx, cy, dy, dx + 1);
        let gx = cx + dx - 5;
        let gy = cy + dy - 5;
        if 0 <= gy < img.height && 0 <= gx < img.width {
            seq![
                Primitive::FilledRect {
                    x: (4 + dx * 32) as i32,
                    y: (4 + dy * 32) as i32,
                    w: 32u32,
                    h: 32u32,
                    color: spec_cell_color(img.cell(gx, gy)),
                },
            ] + rest
        } else {
            rest
        }
    }
}

/// The detail-tier primitives from row offset `dy` on.
pub open spec fn detail_rows(img: Image, cx: int, cy: int, dy: int) -> Seq<Primitive>
    decreases 11 - dy,
{
    if dy < 0 || dy >= 11 {
        Seq::empty()
    } else {
        detail_row(img, cx, cy, dy, 0) + detail_rows(img, cx, cy, dy + 1)
    }
}

/// The thumbnail primitives of row `ty` from column `tx` on: one 4-by-4
/// filled square per cell, the whole grid anchored to the bottom-right
/// corner of the viewport with a 4-pixel margin.
pub open spec fn thumb_row(img: Image, vw: int, vh: int, ty: int, tx: int) -> Seq<Primitive>
    decreases img.width - tx,
{
    if tx < 0 || tx >= img.width {
        Seq::empty()
    } else {
        seq![
            Primitive::FilledRect {
                x: (vw - (4 + 4 * (img.width - tx))) as i32,
                y: (vh - (4 + 4 * (img.height - ty))) as i32,
                w: 4u32,
                h: 4u32,
                color: spec_cell_color(img.cell(tx, ty)),
            },
        ] + thumb_row(img, vw, vh, ty, tx + 1)
    }
}

/// The thumbnail primitives from row `ty` on.
pub open spec fn thumb_rows(img: Image, vw: int, vh: int, ty: int) -> Seq<Primitive>
    decreases img.height - ty,
{
    if ty < 0 || ty >= img.height {
        Seq::empty()
    } else {
        thumb_row(img, vw, vh, ty, 0) + thumb_rows(img, vw, vh, ty + 1)
    }
}

/// The complete frame plan, in draw order: background fill, detail tier,
/// cursor outline, thumbnail tier, thumbnail frame, detail-window
/// indicator over the thumbnail, and the paint-value swatch.
pub open spec fn spec_frame(
    img: Image,
    cx: int,
    cy: int,
    setting_mode: bool,
    vw: int,
    vh: int,
) -> Seq<Primitive> {
    seq![
        Primitive::FilledRect { x: 0i32, y: 0i32, w: vw as u32, h: vh as u32, color: color_none() },
    ] + detail_rows(img, cx, cy, 0) + seq![
        Primitive::OutlinedRect { x: 164i32, y: 164i32, w: 32u32, h: 32u32, color: color_cursor() },
    ] + thumb_rows(img, vw, vh, 0) + seq![
        Primitive::OutlinedRect {
            x: (vw - (4 + 4 * img.width)) as i32,
            y: (vh - (4 + 4 * img.height)) as i32,
            w: (4 * img.width) as u32,
            h: (4 * img.height) as u32,
            color: color_full_frame(),
        },
        Primitive::OutlinedRect {
            x: (vw - 4 - 4 * (img.width - cx + 4)) as i32,
            y: (vh - 4 - 4 * (img.height - cy + 4)) as i32,
            w: 44u32,
            h: 44u32,
            color: color_preview_frame(),
        },
        Primitive::FilledRect {
            x: (vw - 20) as i32,
            y: 4i32,
            w: 16u32,
            h: 16u32,
            color: if setting_mode {
                color_true()
            } else {
                color_false()
            },
        },
    ]
}

/// Computes the frame plan for one display refresh: a pure function of
/// the session state and the viewport size, performing no drawing itself.
/// The viewport must be large enough to hold the thumbnail and the
/// swatch, and small enough for pixel coordinates.
pub fn compose(ui: &UiState, viewport_w: u32, viewport_h: u32) -> (frame: Vec<Primitive>)
    requires
        ui.wf(),
        viewport_w >= 4 + 4 * ui.image.width,
        viewport_h >= 4 + 4 * ui.image.height,
        viewport_w >= 20,
        viewport_w <= i32::MAX,
        viewport_h <= i32::MAX,
    ensures
        frame@ == spec_frame(
            ui.image,
            ui.x as int,
            ui.y as int,
            ui.setting_mode,
            viewport_w as int,
            viewport_h as int,
        ),
{
    let ghost gimg = ui.image;
    let ghost cx = ui.x as int;
    let ghost cy = ui.y as int;
    let ghost vw = viewport_w as int;
    let ghost vh = viewport_h as int;
    let mut frame: Vec<Primitive> = Vec::new();
    frame.push(Primitive::FilledRect {
        x: 0,
        y: 0,
        w: viewport_w,
        h: viewport_h,
        color: Color { r: 0x7F, g: 0x7F, b: 0x7F },
    });
    let ghost base0 = frame@;

    // detail tier: an 11-by-11 window of cells centered on the cursor
    let mut dy: u32 = 0;
    while dy < 11
        invariant
            ui.wf(),
            gimg == ui.image,
            cx == ui.x as int,
            cy == ui.y as int,
            dy <= 11,
            frame@ + detail_rows(gimg, cx, cy, dy as int) == base0 + detail_rows(gimg, cx, cy, 0),
        decreases 11 - dy,
    {
        let ghost row_base = frame@;
        let mut dx: u32 = 0;
        while dx < 11
            invariant
                ui.wf(),
                gimg == ui.image,
                cx == ui.x as int,
                cy == ui.y as int,
                dy < 11,
                dx <= 11,
                frame@ + detail_row(gimg, cx, cy, dy as int, dx as int) == row_base + detail_row(
                    gimg,
                    cx,
                    cy,
                    dy as int,
                    0,
                ),
            decreases 11 - dx,
        {
            let ghost pre = frame@;
            let gx: i64 = ui.x as i64 + dx as i64 - 5;
            let gy: i64 = ui.y as i64 + dy as i64 - 5;
            if 0 <= gy && gy < ui.image.height as i64 && 0 <= gx && gx < ui.image.width as i64 {
                let value = ui.image.at(gx as u32, gy as u32);
                frame.push(Primitive::FilledRect {
                    x: (4 + dx * 32) as i32,
                    y: (4 + dy * 32) as i32,
                    w: 32,
                    h: 32,
                    color: color_for_cell(value),
                });
                assert(frame@ + detail_row(gimg, cx, cy, dy as int, dx + 1) =~= pre + detail_row(
                    gimg,
                    cx,
                    cy,
                    dy as int,
                    dx as int,
                ));
            } else {
                assert(frame@ + detail_row(gimg, cx, cy, dy as int, dx + 1) =~= pre + detail_row(
                    gimg,
                    cx,
                    cy,
                    dy as int,
                    dx as int,
                ));
            }
            dx = dx + 1;
        }
        proof {
            assert(detail_row(gimg, cx, cy, dy as int, 11) =~= Seq::<Primitive>::empty());
            assert(frame@ =~= row_base + detail_row(gimg, cx, cy, dy as int, 0));
            assert(frame@ + detail_rows(gimg, cx, cy, dy + 1) =~= row_base + detail_rows(
                gimg,
                cx,
                cy,
                dy as int,
            ));
        }
        dy = dy + 1;
    }
    proof {
        assert(frame@ =~= base0 + detail_rows(gimg, cx, cy, 0));
    }

    // cursor outline in the detail tier: fixed position, since the
    // detail window always centers the cursor
    frame.push(Primitive::OutlinedRect {
        x: 164,
        y: 164,
        w: 32,
        h: 32,
        color: Color { r: 0xFF, g: 0x00, b: 0x00 },
    });
    let ghost base1 = frame@;
    assert(base1 =~= base0 + detail_rows(gimg, cx, cy, 0) + seq![
        Primitive::OutlinedRect { x: 164i32, y: 164i32, w: 32u32, h: 32u32, color: color_cursor() },
    ]);

    // thumbnail tier: the whole grid at 4 pixels per cell, bottom-right
    let mut ty: u32 = 0;
    while ty < ui.image.height
        invariant
            ui.wf(),
            gimg == ui.image,
            vw == viewport_w as int,
            vh == viewport_h as int,
            viewport_w >= 4 + 4 * gimg.width,
            viewport_h >= 4 + 4 * gimg.height,
            viewport_w <= i32::MAX,
            viewport_h <= i32::MAX,
            ty <= gimg.height,
            frame@ + thumb_rows(gimg, vw, vh, ty as int) == base1 + thumb_rows(gimg, vw, vh, 0),
        decreases ui.image.height - ty,
    {
        let ghost row_base = frame@;
        let mut tx: u32 = 0;
        while tx < ui.image.width
            invariant
                ui.wf(),
                gimg == ui.image,
                vw == viewport_w as int,
                vh == viewport_h as int,
                viewport_w >= 4 + 4 * gimg.width,
                viewport_h >= 4 + 4 * gimg.height,
                viewport_w <= i32::MAX,
                viewport_h <= i32::MAX,
                ty < gimg.height,
                tx <= gimg.width,
                frame@ + thumb_row(gimg, vw, vh, ty as int, tx as int) == row_base + thumb_row(
                    gimg,
                    vw,
                    vh,
                    ty as int,
                    0,
                ),
            decreases ui.image.width - tx,
        {
            let ghost pre = frame@;
            let value = ui.image.at(tx, ty);
            let draw_x: i64 = viewport_w as i64 - (4 + 4 * (ui.image.width as i64 - tx as i64));
            let draw_y: i64 = viewport_h as i64 - (4 + 4 * (ui.image.height as i64 - ty as i64));
            frame.push(Primitive::FilledRect {
                x: draw_x as i32,
                y: draw_y as i32,
                w: 4,
                h: 4,
                color: color_for_cell(value),
            });
            assert(frame@ + thumb_row(gimg, vw, vh, ty as int, tx + 1) =~= pre + thumb_row(
                gimg,
                vw,
                vh,
                ty as int,
                tx as int,
            ));
            tx = tx + 1;
        }
        proof {
            assert(thumb_row(gimg, vw, vh, ty as int, gimg.width as int) =~= Seq::<
                Primitive,
            >::empty());
            assert(frame@ =~= row_base + thumb_row(gimg, vw, vh, ty as int, 0));
            assert(frame@ + thumb_rows(gimg, vw, vh, ty + 1) =~= row_base + thumb_rows(
                gimg,
                vw,
                vh,
                ty as int,
            ));
        }
        ty = ty + 1;
    }
    proof {
        assert(frame@ =~= base1 + thumb_rows(gimg, vw, vh, 0));
    }

    // thumbnail frame
    let frame_x: i64 = viewport_w as i64 - (4 + 4 * ui.image.width as i64);
    let frame_y: i64 = viewport_h as i64 - (4 + 4 * ui.image.height as i64);
    frame.push(Primitive::OutlinedRect {
        x: frame_x as i32,
        y: frame_y as i32,
        w: 4 * ui.image.width,
        h: 4 * ui.image.height,
        color: Color { r: 0x33, g: 0x33, b: 0x33 },
    });

    // detail-window indicator over the thumbnail
    let ind_x: i64 = viewport_w as i64 - 4 - 4 * (ui.image.width as i64 - ui.x as i64 + 4);
    let ind_y: i64 = viewport_h as i64 - 4 - 4 * (ui.image.height as i64 - ui.y as i64 + 4);
    frame.push(Primitive::OutlinedRect {
        x: ind_x as i32,
        y: ind_y as i32,
        w: 44,
        h: 44,
        color: Color { r: 0x00, g: 0x00, b: 0xFF },
    });

    // paint-value swatch in the top-right corner
    frame.push(Primitive::FilledRect {
        x: (viewport_w - 20) as i32,
        y: 4,
        w: 16,
        h: 16,
        color: if ui.setting_mode {
            Color { r: 0xFF, g: 0xFF, b: 0xFF }
        } else {
            Color { r: 0x00, g: 0x00, b: 0x00 }
        },
    });
    assert(frame@ =~= spec_frame(gimg, cx, cy, ui.setting_mode, vw, vh));
    frame
}

} // verus!
