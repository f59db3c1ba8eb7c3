use pixelflut_pong::hitbox::{classify_hitbox_pixel, hitbox_lookup, HitboxKind};
use pixelflut_pong::image_helpers::{
    draw_image, draw_pixel, draw_rect, draw_text_with_background, get_donut_coordinates, BLACK,
    RED, WHITE,
};
use pixelflut_pong::picture::Picture;
use pixelflut_pong::protocol::PixelflutRequest;

fn set(x: u16, y: u16, rgb: u32) -> PixelflutRequest {
    PixelflutRequest::SetPixel { x, y, rgb }
}

#[test]
fn colours() {
    assert_eq!(WHITE, 0xffffff);
    assert_eq!(BLACK, 0);
    assert_eq!(RED, 0xff0000);
}

#[test]
fn rect_is_drawn_column_by_column() {
    assert_eq!(
        draw_rect(10, 20, 2, 3, 0x123456),
        vec![
            set(10, 20, 0x123456),
            set(10, 21, 0x123456),
            set(10, 22, 0x123456),
            set(11, 20, 0x123456),
            set(11, 21, 0x123456),
            set(11, 22, 0x123456),
        ]
    );
}

#[test]
fn empty_rects() {
    assert_eq!(draw_rect(10, 20, 0, 3, 1), vec![]);
    assert_eq!(draw_rect(10, 20, 3, 0, 1), vec![]);
}

#[test]
fn rect_has_one_command_for_each_pixel() {
    let commands = draw_rect(5, 6, 40, 30, 7);
    assert_eq!(commands.len(), 1200);
    assert_eq!(commands[17 * 30 + 4], set(22, 10, 7));
}

#[test]
fn rect_ends_at_the_largest_coordinate() {
    assert_eq!(
        draw_rect(65534, 65535, 3, 2, 9),
        vec![set(65534, 65535, 9), set(65535, 65535, 9)]
    );
}

#[test]
fn pixel_of_a_picture() {
    assert_eq!(draw_pixel([1, 2, 3, 255], 4, 5), Some(set(4, 5, 0x010203)));
    assert_eq!(draw_pixel([255, 0, 128, 1], 0, 0), Some(set(0, 0, 0xff0080)));
    assert_eq!(draw_pixel([1, 2, 3, 0], 4, 5), None);
    assert_eq!(draw_pixel([1, 2, 3, 255], 65536, 5), None);
    assert_eq!(draw_pixel([1, 2, 3, 255], 5, 65536), None);
    assert_eq!(draw_pixel([1, 2, 3, 255], 65535, 65535), Some(set(65535, 65535, 0x010203)));
}

fn blank(width: usize, height: usize) -> Vec<Vec<[u8; 4]>> {
    vec![vec![[0, 0, 0, 0]; height]; width]
}

fn sample_picture() -> Picture {
    let mut columns = blank(2, 3);
    columns[0][0] = [255, 0, 0, 255];
    columns[0][1] = [0, 255, 0, 0];
    columns[0][2] = [0, 0, 255, 7];
    columns[1][0] = [1, 2, 3, 255];
    columns[1][1] = [0, 0, 0, 0];
    columns[1][2] = [0, 0, 0, 255];
    Picture::new(columns).unwrap()
}

#[test]
fn picture_has_columns_of_one_height() {
    let picture = sample_picture();
    assert_eq!((picture.width(), picture.height()), (2, 3));
    assert_eq!(picture.pixel(0, 2), [0, 0, 255, 7]);
    assert_eq!(picture.pixel(1, 0), [1, 2, 3, 255]);
    assert!(Picture::new(vec![vec![[0; 4]; 2], vec![[0; 4]; 3]]).is_none());
    assert!(Picture::new(vec![vec![], vec![[0; 4]; 1]]).is_none());
    let empty = Picture::new(vec![]).unwrap();
    assert_eq!((empty.width(), empty.height()), (0, 0));
    let flat = Picture::new(vec![vec![], vec![]]).unwrap();
    assert_eq!((flat.width(), flat.height()), (2, 0));
}

#[test]
fn picture_is_drawn_without_its_transparent_pixels() {
    assert_eq!(
        draw_image(&sample_picture(), 100, 200),
        vec![
            set(100, 200, 0xff0000),
            set(100, 202, 0x0000ff),
            set(101, 200, 0x010203),
            set(101, 202, 0),
        ]
    );
}

#[test]
fn picture_is_cut_at_the_largest_coordinate() {
    assert_eq!(
        draw_image(&sample_picture(), 65535, 65533),
        vec![set(65535, 65533, 0xff0000), set(65535, 65535, 0x0000ff)]
    );
}

#[test]
fn empty_picture() {
    assert_eq!(draw_image(&Picture::new(blank(0, 0)).unwrap(), 1, 1), vec![]);
    assert_eq!(draw_image(&Picture::new(blank(5, 0)).unwrap(), 1, 1), vec![]);
    assert_eq!(draw_image(&Picture::new(blank(3, 3)).unwrap(), 1, 1), vec![]);
}

#[test]
fn background_fills_what_the_text_leaves() {
    let text = vec![set(10, 20, BLACK), set(11, 21, BLACK)];
    let commands = draw_text_with_background(10, 20, 2, 2, WHITE, text.clone());
    assert_eq!(commands, vec![text[0], text[1], set(10, 21, WHITE), set(11, 20, WHITE)]);
}

#[test]
fn background_keeps_text_outside_the_box() {
    let text = vec![set(0, 0, BLACK), set(12, 20, BLACK), set(10, 22, BLACK)];
    let commands = draw_text_with_background(10, 20, 1, 2, WHITE, text.clone());
    assert_eq!(
        commands,
        vec![text[0], text[1], text[2], set(10, 20, WHITE), set(10, 21, WHITE)]
    );
}

#[test]
fn text_in_the_background_colour_counts_as_background() {
    let text = vec![set(10, 20, WHITE)];
    let commands = draw_text_with_background(10, 20, 1, 1, WHITE, text.clone());
    assert_eq!(commands, vec![text[0], set(10, 20, WHITE)]);
}

#[test]
fn the_last_text_pixel_decides() {
    let text = vec![set(10, 20, WHITE), set(10, 20, BLACK)];
    let commands = draw_text_with_background(10, 20, 1, 1, WHITE, text.clone());
    assert_eq!(commands, text);
    let text = vec![set(10, 20, BLACK), set(10, 20, WHITE)];
    let commands = draw_text_with_background(10, 20, 1, 1, WHITE, text.clone());
    assert_eq!(commands, vec![text[0], text[1], set(10, 20, WHITE)]);
}

#[test]
fn background_without_text() {
    let commands = draw_text_with_background(1798, 300, 100, 54, WHITE, vec![]);
    assert_eq!(commands, draw_rect(1798, 300, 100, 54, WHITE));
    let queries = vec![PixelflutRequest::GetPixel { x: 0, y: 0 }, PixelflutRequest::GetSize];
    let commands = draw_text_with_background(0, 0, 1, 1, 5, queries.clone());
    assert_eq!(commands, vec![queries[0], queries[1], set(0, 0, 5)]);
}

#[test]
fn background_is_cut_at_the_largest_coordinate() {
    let commands = draw_text_with_background(65535, 65535, 2, 2, WHITE, vec![]);
    assert_eq!(commands, vec![set(65535, 65535, WHITE)]);
}

#[test]
fn ring_of_radius_one_to_two() {
    assert_eq!(
        get_donut_coordinates(2, 2, 1, 2, 800, 600),
        vec![(0, 2), (1, 1), (1, 2), (1, 3), (2, 0), (2, 1), (2, 3), (3, 1), (3, 2), (3, 3)]
    );
}

#[test]
fn ring_with_no_hole() {
    assert_eq!(
        get_donut_coordinates(1, 1, 0, 1, 800, 600),
        vec![(0, 1), (1, 0), (1, 1)]
    );
    assert_eq!(get_donut_coordinates(1, 1, 0, 0, 800, 600), vec![]);
}

#[test]
fn ring_is_cut_at_the_canvas() {
    assert_eq!(get_donut_coordinates(0, 0, 1, 2, 800, 600), vec![(0, 1), (1, 0), (1, 1)]);
    assert_eq!(get_donut_coordinates(2, 2, 1, 2, 3, 2), vec![(1, 1), (2, 0), (2, 1)]);
    assert_eq!(get_donut_coordinates(-50, 300, 35, 45, 800, 600), vec![]);
    assert_eq!(get_donut_coordinates(32767, 32767, 35, 45, 800, 600), vec![]);
    assert_eq!(get_donut_coordinates(-32768, -32768, 35, 45, 800, 600), vec![]);
}

#[test]
fn ring_around_the_ball() {
    let ring = get_donut_coordinates(100, 100, 35, 45, 800, 600);
    let mut expected = Vec::new();
    for x in 55..145i32 {
        for y in 55..145i32 {
            let d2 = (x - 100) * (x - 100) + (y - 100) * (y - 100);
            if d2 >= 1225 && d2 <= 2025 {
                expected.push((x as u16, y as u16));
            }
        }
    }
    assert_eq!(ring, expected);
    assert!(ring.contains(&(55, 100)));
    assert!(!ring.contains(&(145, 100)));
    assert!(ring.contains(&(135, 100)));
    assert!(!ring.contains(&(134, 100)));
}

#[test]
fn mask_colours() {
    assert_eq!(classify_hitbox_pixel([255, 0, 0, 255]), HitboxKind::Obstacle);
    assert_eq!(classify_hitbox_pixel([255, 0, 0, 254]), HitboxKind::Free);
    assert_eq!(classify_hitbox_pixel([255, 0, 0, 0]), HitboxKind::Free);
    assert_eq!(classify_hitbox_pixel([255, 1, 0, 255]), HitboxKind::Free);
    assert_eq!(classify_hitbox_pixel([0, 0, 255, 255]), HitboxKind::Goal);
    assert_eq!(classify_hitbox_pixel([0, 0, 255, 1]), HitboxKind::Goal);
    assert_eq!(classify_hitbox_pixel([0, 0, 255, 0]), HitboxKind::Free);
    assert_eq!(classify_hitbox_pixel([0, 0, 254, 255]), HitboxKind::Free);
    assert_eq!(classify_hitbox_pixel([0, 0, 0, 255]), HitboxKind::Free);
}

#[test]
fn mask_is_looked_up_by_canvas_pixel() {
    let mut mask = blank(4, 3);
    mask[1][2] = [255, 0, 0, 255];
    mask[3][0] = [0, 0, 255, 255];
    let mask = Picture::new(mask).unwrap();
    assert_eq!(hitbox_lookup(&mask, 1, 2), HitboxKind::Obstacle);
    assert_eq!(hitbox_lookup(&mask, 2, 1), HitboxKind::Free);
    assert_eq!(hitbox_lookup(&mask, 3, 0), HitboxKind::Goal);
    assert_eq!(hitbox_lookup(&mask, 0, 0), HitboxKind::Free);
    assert_eq!(hitbox_lookup(&mask, 4, 0), HitboxKind::Free);
    assert_eq!(hitbox_lookup(&mask, 0, 3), HitboxKind::Free);
    assert_eq!(hitbox_lookup(&mask, 65535, 65535), HitboxKind::Free);
}
