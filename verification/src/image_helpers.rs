//! Turning shapes and pictures into pixel commands, and finding the pixels
//! of a ring around a point.

use vstd::prelude::*;
use crate::grid::{filled_grid, has_shape};
use crate::picture::Picture;
use crate::protocol::PixelflutRequest;
use crate::scan::{gives_all, lemma_scan_grid_full, scan_column, scan_grid};

verus! {

pub const WHITE: u32 = 0x00ff_ffff;

pub const BLACK: u32 = 0x0000_0000;

pub const RED: u32 = 0x00ff_0000;

/// The command that paints the pixel `(x_offset + i, y_offset + j)`.
pub open spec fn rect_command(x_offset: u16, y_offset: u16, rgb: u32, i: int, j: int) -> PixelflutRequest {
    PixelflutRequest::SetPixel { x: (x_offset + i) as u16, y: (y_offset + j) as u16, rgb }
}

/// The command that paints cell `(i, j)` of a rectangle whose top left corner
/// is at `(x_offset, y_offset)`. A cell beyond the largest coordinate has
/// none.
pub open spec fn rect_cell(x_offset: u16, y_offset: u16, rgb: u32) -> spec_fn(int, int) -> Option<
    PixelflutRequest,
> {
    |i: int, j: int|
        if x_offset + i <= u16::MAX && y_offset + j <= u16::MAX {
            Some(rect_command(x_offset, y_offset, rgb, i, j))
        } else {
            None
        }
}

/// The commands that fill a rectangle with one colour, column by column.
/// The part of the rectangle that lies beyond the largest coordinate is left
/// out.
pub fn draw_rect(x_offset: u16, y_offset: u16, width: u16, height: u16, rgb: u32) -> (draw_commands:
    Vec<PixelflutRequest>)
    ensures
        draw_commands@ == scan_grid(
            rect_cell(x_offset, y_offset, rgb),
            width as nat,
            height as nat,
        ),
        x_offset + width <= u16::MAX + 1 && y_offset + height <= u16::MAX + 1 ==> {
            &&& draw_commands.len() == width * height
            &&& forall|i: int, j: int|
                0 <= i < width && 0 <= j < height ==> 0 <= i * height + j < width * height
                    && draw_commands[i * height + j] == #[trigger] rect_command(
                    x_offset,
                    y_offset,
                    rgb,
                    i,
                    j,
                )
        },
{
    let ghost cell = rect_cell(x_offset, y_offset, rgb);
    proof {
        if x_offset + width <= u16::MAX + 1 && y_offset + height <= u16::MAX + 1 {
            assert(gives_all(cell, width as nat, height as nat));
            lemma_scan_grid_full(cell, width as nat, height as nat);
            assert forall|i: int, j: int| 0 <= i < width && 0 <= j < height implies cell(i, j)->0
                == #[trigger] rect_command(x_offset, y_offset, rgb, i, j) by {}
        }
    }
    let mut draw_commands: Vec<PixelflutRequest> = Vec::new();
    let mut i: u16 = 0;
    while i < width
        invariant
            i <= width,
            cell == rect_cell(x_offset, y_offset, rgb),
            draw_commands@ == scan_grid(cell, i as nat, height as nat),
        decreases width - i,
    {
        let mut j: u16 = 0;
        while j < height
            invariant
                i < width,
                j <= height,
                cell == rect_cell(x_offset, y_offset, rgb),
                draw_commands@ == scan_grid(cell, i as nat, height as nat) + scan_column(
                    cell,
                    i as int,
                    j as nat,
                ),
            decreases height - j,
        {
            let x: u32 = x_offset as u32 + i as u32;
            let y: u32 = y_offset as u32 + j as u32;
            if x <= 0xffff && y <= 0xffff {
                draw_commands.push(PixelflutRequest::SetPixel { x: x as u16, y: y as u16, rgb });
            }
            j += 1;
        }
        i += 1;
    }
    draw_commands
}

/// Whether `(x, y)` lies on a canvas of the given size.
pub open spec fn on_screen(x: int, y: int, screen_width: int, screen_height: int) -> bool {
    0 <= x < screen_width && 0 <= y < screen_height
}

/// The square of the distance between `(x, y)` and `(x_center, y_center)`.
pub open spec fn distance_squared(x: int, y: int, x_center: int, y_center: int) -> int {
    (x - x_center) * (x - x_center) + (y - y_center) * (y - y_center)
}

/// Whether the distance of `(x, y)` from the centre is at least `inner` and
/// at most `outer`.
pub open spec fn in_donut(
    x: int,
    y: int,
    x_center: int,
    y_center: int,
    inner: int,
    outer: int,
) -> bool {
    inner * inner <= distance_squared(x, y, x_center, y_center) <= outer * outer
}

/// The coordinate that cell `(i, j)` of the square around a ring contributes:
/// the cell's place on the canvas, if it is on the canvas and in the ring.
pub open spec fn donut_cell(
    x_center: i16,
    y_center: i16,
    inner_circle_radius: u16,
    outer_circle_radius: u16,
    screen_width: u16,
    screen_height: u16,
) -> spec_fn(int, int) -> Option<(u16, u16)> {
    |i: int, j: int|
        {
            let x = x_center - outer_circle_radius + i;
            let y = y_center - outer_circle_radius + j;
            if on_screen(x, y, screen_width as int, screen_height as int) && in_donut(
                x,
                y,
                x_center as int,
                y_center as int,
                inner_circle_radius as int,
                outer_circle_radius as int,
            ) {
                Some((x as u16, y as u16))
            } else {
                None
            }
        }
}

/// Computes the square of the distance of `(x, y)` from the centre.
fn squared_distance(x: i64, y: i64, x_center: i16, y_center: i16) -> (d2: i64)
    requires
        -0x2_0000 <= x <= 0x2_0000,
        -0x2_0000 <= y <= 0x2_0000,
    ensures
        d2 == distance_squared(x as int, y as int, x_center as int, y_center as int),
        0 <= d2,
{
    let dx: i64 = x - x_center as i64;
    let dy: i64 = y - y_center as i64;
    assert(0 <= dx * dx <= 0x4_0000 * 0x4_0000) by (nonlinear_arith)
        requires
            -0x4_0000 <= dx <= 0x4_0000,
    ;
    assert(0 <= dy * dy <= 0x4_0000 * 0x4_0000) by (nonlinear_arith)
        requires
            -0x4_0000 <= dy <= 0x4_0000,
    ;
    dx * dx + dy * dy
}

/// The ring coordinates of a query, in the order in which they are walked.
pub open spec fn donut_coordinates(
    x_center: i16,
    y_center: i16,
    inner_circle_radius: u16,
    outer_circle_radius: u16,
    screen_width: u16,
    screen_height: u16,
) -> Seq<(u16, u16)> {
    scan_grid(
        donut_cell(
            x_center,
            y_center,
            inner_circle_radius,
            outer_circle_radius,
            screen_width,
            screen_height,
        ),
        2 * outer_circle_radius as nat,
        2 * outer_circle_radius as nat,
    )
}

/// Whether `(x, y)` is on the canvas and in the ring.
pub open spec fn is_donut_coordinate(
    x: int,
    y: int,
    x_center: i16,
    y_center: i16,
    inner_circle_radius: u16,
    outer_circle_radius: u16,
    screen_width: u16,
    screen_height: u16,
) -> bool {
    &&& on_screen(x, y, screen_width as int, screen_height as int)
    &&& in_donut(
        x,
        y,
        x_center as int,
        y_center as int,
        inner_circle_radius as int,
        outer_circle_radius as int,
    )
}

/// The coordinate that cell `(i, j)` of the square around a ring contributes.
pub(crate) fn donut_cell_at(
    i: u32,
    j: u32,
    x_center: i16,
    y_center: i16,
    inner_circle_radius: u16,
    outer_circle_radius: u16,
    screen_width: u16,
    screen_height: u16,
) -> (coordinate: Option<(u16, u16)>)
    requires
        i < 2 * outer_circle_radius,
        j < 2 * outer_circle_radius,
    ensures
        coordinate == donut_cell(
            x_center,
            y_center,
            inner_circle_radius,
            outer_circle_radius,
            screen_width,
            screen_height,
        )(i as int, j as int),
{
    let inner: i64 = inner_circle_radius as i64;
    let outer: i64 = outer_circle_radius as i64;
    assert(0 <= inner * inner <= 0xffff * 0xffff) by (nonlinear_arith)
        requires
            0 <= inner <= 0xffff,
    ;
    assert(0 <= outer * outer <= 0xffff * 0xffff) by (nonlinear_arith)
        requires
            0 <= outer <= 0xffff,
    ;
    let x: i64 = x_center as i64 - outer + i as i64;
    let y: i64 = y_center as i64 - outer + j as i64;
    if x >= 0 && x < screen_width as i64 && y >= 0 && y < screen_height as i64 {
        let d2 = squared_distance(x, y, x_center, y_center);
        if d2 >= inner * inner && d2 <= outer * outer {
            return Some((x as u16, y as u16));
        }
    }
    None
}

/// The coordinates of a ring around `(x_center, y_center)` that lie on the
/// canvas: every point of the square of side `2 * outer_circle_radius` around
/// the centre whose distance from the centre is at least
/// `inner_circle_radius` and at most `outer_circle_radius`, column by column.
///
/// The centre may lie off the canvas; what falls outside is left out.
pub fn get_donut_coordinates(
    x_center: i16,
    y_center: i16,
    inner_circle_radius: u16,
    outer_circle_radius: u16,
    screen_width: u16,
    screen_height: u16,
) -> (coordinates: Vec<(u16, u16)>)
    ensures
        coordinates@ == donut_coordinates(
            x_center,
            y_center,
            inner_circle_radius,
            outer_circle_radius,
            screen_width,
            screen_height,
        ),
        forall|k: int|
            0 <= k < coordinates.len() ==> is_donut_coordinate(
                (#[trigger] coordinates[k]).0 as int,
                coordinates[k].1 as int,
                x_center,
                y_center,
                inner_circle_radius,
                outer_circle_radius,
                screen_width,
                screen_height,
            ),
{
    let ghost cell = donut_cell(
        x_center,
        y_center,
        inner_circle_radius,
        outer_circle_radius,
        screen_width,
        screen_height,
    );
    let side: u32 = 2 * outer_circle_radius as u32;
    let mut coordinates: Vec<(u16, u16)> = Vec::new();
    let mut i: u32 = 0;
    while i < side
        invariant
            i <= side,
            side == 2 * outer_circle_radius,
            cell == donut_cell(
                x_center,
                y_center,
                inner_circle_radius,
                outer_circle_radius,
                screen_width,
                screen_height,
            ),
            coordinates@ == scan_grid(cell, i as nat, side as nat),
            forall|k: int|
                0 <= k < coordinates.len() ==> is_donut_coordinate(
                    (#[trigger] coordinates[k]).0 as int,
                    coordinates[k].1 as int,
                    x_center,
                    y_center,
                    inner_circle_radius,
                    outer_circle_radius,
                    screen_width,
                    screen_height,
                ),
        decreases side - i,
    {
        let mut j: u32 = 0;
        while j < side
            invariant
                i < side,
                j <= side,
                side == 2 * outer_circle_radius,
                cell == donut_cell(
                    x_center,
                    y_center,
                    inner_circle_radius,
                    outer_circle_radius,
                    screen_width,
                    screen_height,
                ),
                coordinates@ == scan_grid(cell, i as nat, side as nat) + scan_column(
                    cell,
                    i as int,
                    j as nat,
                ),
                forall|k: int|
                    0 <= k < coordinates.len() ==> is_donut_coordinate(
                        (#[trigger] coordinates[k]).0 as int,
                        coordinates[k].1 as int,
                        x_center,
                        y_center,
                        inner_circle_radius,
                        outer_circle_radius,
                        screen_width,
                        screen_height,
                    ),
            decreases side - j,
        {
            match donut_cell_at(
                i,
                j,
                x_center,
                y_center,
                inner_circle_radius,
                outer_circle_radius,
                screen_width,
                screen_height,
            ) {
                Some(coordinate) => {
                    coordinates.push(coordinate);
                },
                None => {},
            }
            j += 1;
        }
        i += 1;
    }
    coordinates
}

/// The number of rows of a picture given by its columns.
pub open spec fn picture_rows(pixels: Seq<Seq<Seq<u8>>>) -> nat {
    if pixels.len() == 0 {
        0
    } else {
        pixels[0].len()
    }
}

/// The colour of an RGBA pixel as the protocol carries it: red, green and
/// blue in the low 24 bits.
pub open spec fn pack_rgb(rgba: Seq<u8>) -> u32 {
    (rgba[0] * 0x1_0000 + rgba[1] * 0x100 + rgba[2]) as u32
}

/// The command that paints a pixel of a picture at `(x, y)`. A pixel that is
/// fully transparent is not painted, nor one beyond the largest coordinate.
pub open spec fn pixel_command(rgba: Seq<u8>, x: int, y: int) -> Option<PixelflutRequest> {
    if rgba[3] != 0 && 0 <= x <= u16::MAX && 0 <= y <= u16::MAX {
        Some(PixelflutRequest::SetPixel { x: x as u16, y: y as u16, rgb: pack_rgb(rgba) })
    } else {
        None
    }
}

/// The command that paints the RGBA pixel `rgba` at `(x, y)`, if the pixel is
/// to be painted.
pub fn draw_pixel(rgba: [u8; 4], x: u32, y: u32) -> (command: Option<PixelflutRequest>)
    ensures
        command == pixel_command(rgba@, x as int, y as int),
{
    if rgba[3] == 0 || x > 0xffff || y > 0xffff {
        None
    } else {
        let rgb: u32 = rgba[0] as u32 * 0x1_0000 + rgba[1] as u32 * 0x100 + rgba[2] as u32;
        Some(PixelflutRequest::SetPixel { x: x as u16, y: y as u16, rgb })
    }
}

/// The command for cell `(i, j)` of a picture drawn with its top left corner
/// at `(x_offset, y_offset)`.
pub open spec fn picture_cell(pixels: Seq<Seq<Seq<u8>>>, x_offset: u16, y_offset: u16) -> spec_fn(
    int,
    int,
) -> Option<PixelflutRequest> {
    |i: int, j: int| pixel_command(pixels[i][j], x_offset + i, y_offset + j)
}

/// The commands that draw a picture with its top left corner at
/// `(x_offset, y_offset)`, column by column.
pub open spec fn picture_commands(pixels: Seq<Seq<Seq<u8>>>, x_offset: u16, y_offset: u16) -> Seq<
    PixelflutRequest,
> {
    scan_grid(picture_cell(pixels, x_offset, y_offset), pixels.len(), picture_rows(pixels))
}

/// The commands that draw `image` with its top left corner at
/// `(x_offset, y_offset)`: one for each pixel that is not fully transparent
/// and whose place on the canvas is a coordinate, column by column.
pub fn draw_image(image: &Picture, x_offset: u16, y_offset: u16) -> (draw_commands: Vec<
    PixelflutRequest,
>)
    ensures
        draw_commands@ == picture_commands(image@, x_offset, y_offset),
{
    let ghost pixels = image@;
    let ghost cell = picture_cell(pixels, x_offset, y_offset);
    let width = image.width();
    let height = image.height();
    let mut draw_commands: Vec<PixelflutRequest> = Vec::new();
    let mut x: usize = 0;
    while x < width
        invariant
            x <= width,
            pixels == image@,
            width == pixels.len(),
            forall|c: int| 0 <= c < pixels.len() ==> (#[trigger] pixels[c]).len() == height,
            cell == picture_cell(pixels, x_offset, y_offset),
            draw_commands@ == scan_grid(cell, x as nat, height as nat),
        decreases width - x,
    {
        let mut y: usize = 0;
        while y < height
            invariant
                x < width,
                y <= height,
                pixels == image@,
                width == pixels.len(),
                forall|c: int| 0 <= c < pixels.len() ==> (#[trigger] pixels[c]).len() == height,
                cell == picture_cell(pixels, x_offset, y_offset),
                draw_commands@ == scan_grid(cell, x as nat, height as nat) + scan_column(
                    cell,
                    x as int,
                    y as nat,
                ),
            decreases height - y,
        {
            let rgba = image.pixel(x, y);
            if x <= 0xffff && y <= 0xffff {
                let canvas_x: u32 = x_offset as u32 + x as u32;
                let canvas_y: u32 = y_offset as u32 + y as u32;
                match draw_pixel(rgba, canvas_x, canvas_y) {
                    Some(command) => {
                        draw_commands.push(command);
                    },
                    None => {},
                }
            }
            y += 1;
        }
        x += 1;
    }
    draw_commands
}

/// The colour that `commands` leave at `(x, y)` on a surface that had
/// `background` everywhere: that of the last command that sets the pixel.
pub open spec fn painted_color(commands: Seq<PixelflutRequest>, x: int, y: int, background: u32) -> u32
    decreases commands.len(),
{
    if commands.len() == 0 {
        background
    } else {
        match commands.last() {
            PixelflutRequest::SetPixel { x: set_x, y: set_y, rgb } => if set_x == x && set_y == y {
                rgb
            } else {
                painted_color(commands.drop_last(), x, y, background)
            },
            _ => painted_color(commands.drop_last(), x, y, background),
        }
    }
}

/// The command that fills cell `(i, j)` of the box behind a text whose top
/// left corner is at `(x, y)`: the background colour, where the text has
/// left the background showing.
pub open spec fn background_cell(
    text_commands: Seq<PixelflutRequest>,
    x: u16,
    y: u16,
    background_color: u32,
) -> spec_fn(int, int) -> Option<PixelflutRequest> {
    |i: int, j: int|
        if x + i <= u16::MAX && y + j <= u16::MAX && painted_color(
            text_commands,
            x + i,
            y + j,
            background_color,
        ) == background_color {
            Some(
                PixelflutRequest::SetPixel {
                    x: (x + i) as u16,
                    y: (y + j) as u16,
                    rgb: background_color,
                },
            )
        } else {
            None
        }
}

/// Puts a background behind a rendered text: the commands of the text,
/// followed by one command in the background colour for every cell of the
/// box of `width` by `height` at `(x, y)` that the text leaves in the
/// background colour, column by column.
///
/// `text_commands` is the rendered text. Its pixels outside the box are kept;
/// the part of the box beyond the largest coordinate is left out.
pub fn draw_text_with_background(
    x: u16,
    y: u16,
    width: u16,
    height: u16,
    background_color: u32,
    text_commands: Vec<PixelflutRequest>,
) -> (draw_commands: Vec<PixelflutRequest>)
    ensures
        draw_commands@ == text_commands@ + scan_grid(
            background_cell(text_commands@, x, y, background_color),
            width as nat,
            height as nat,
        ),
{
    let ghost text = text_commands@;
    let ghost cell = background_cell(text, x, y, background_color);
    let mut pixels = filled_grid(width as usize, height as usize, background_color);
    let mut k: usize = 0;
    assert(text.take(0) =~= Seq::<PixelflutRequest>::empty());
    while k < text_commands.len()
        invariant
            k <= text_commands.len(),
            text == text_commands@,
            has_shape(pixels@, width as int, height as int),
            forall|i: int, j: int|
                0 <= i < width && 0 <= j < height ==> (#[trigger] pixels[i][j]) == painted_color(
                    text.take(k as int),
                    x + i,
                    y + j,
                    background_color,
                ),
        decreases text_commands.len() - k,
    {
        assert(text.take(k + 1).drop_last() =~= text.take(k as int));
        assert(text.take(k + 1).last() == text[k as int]);
        match text_commands[k] {
            PixelflutRequest::SetPixel { x: set_x, y: set_y, rgb } => {
                if set_x >= x && set_y >= y && set_x - x < width && set_y - y < height {
                    let column = (set_x - x) as usize;
                    let row = (set_y - y) as usize;
                    pixels[column][row] = rgb;
                }
            },
            _ => {},
        }
        k += 1;
    }
    assert(text.take(k as int) =~= text);
    let mut draw_commands = text_commands;
    let mut i: u16 = 0;
    assert(draw_commands@ =~= text + scan_grid(cell, 0, height as nat));
    while i < width
        invariant
            i <= width,
            cell == background_cell(text, x, y, background_color),
            has_shape(pixels@, width as int, height as int),
            forall|a: int, b: int|
                0 <= a < width && 0 <= b < height ==> (#[trigger] pixels[a][b]) == painted_color(
                    text,
                    x + a,
                    y + b,
                    background_color,
                ),
            draw_commands@ == text + scan_grid(cell, i as nat, height as nat),
        decreases width - i,
    {
        let mut j: u16 = 0;
        assert(draw_commands@ =~= text + (scan_grid(cell, i as nat, height as nat) + scan_column(
            cell,
            i as int,
            0,
        )));
        while j < height
            invariant
                i < width,
                j <= height,
                cell == background_cell(text, x, y, background_color),
                has_shape(pixels@, width as int, height as int),
                forall|a: int, b: int|
                    0 <= a < width && 0 <= b < height ==> (#[trigger] pixels[a][b])
                        == painted_color(text, x + a, y + b, background_color),
                draw_commands@ == text + (scan_grid(cell, i as nat, height as nat) + scan_column(
                    cell,
                    i as int,
                    j as nat,
                )),
            decreases height - j,
        {
            let canvas_x: u32 = x as u32 + i as u32;
            let canvas_y: u32 = y as u32 + j as u32;
            let ghost before = draw_commands@;
            if canvas_x <= 0xffff && canvas_y <= 0xffff && pixels[i as usize][j as usize]
                == background_color {
                draw_commands.push(
                    PixelflutRequest::SetPixel {
                        x: canvas_x as u16,
                        y: canvas_y as u16,
                        rgb: background_color,
                    },
                );
                assert(draw_commands@ =~= text + (scan_grid(cell, i as nat, height as nat)
                    + scan_column(cell, i as int, (j + 1) as nat)));
            }
            j += 1;
        }
        i += 1;
    }
    draw_commands
}

} // verus!
