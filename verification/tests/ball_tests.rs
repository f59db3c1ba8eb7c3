use pixelflut_pong::ball::{
    nearest_target, wall_check, Ball, BounceOutcome, BALL_IMAGE_SIZE, BALL_RADIUS,
    COLLISION_INNER_RADIUS, COLLISION_OUTER_RADIUS, GOAL_INNER_RADIUS, GOAL_OUTER_RADIUS, SPEED,
    TARGET_COLOR,
};
use pixelflut_pong::client::screen_donut_commands;
use pixelflut_pong::decode::parse_request;
use pixelflut_pong::draw::Draw;
use pixelflut_pong::game::GoalScored;
use pixelflut_pong::image_helpers::draw_image;
use pixelflut_pong::picture::Picture;
use pixelflut_pong::protocol::{ClientError, PixelflutRequest, PixelflutResponse};

fn sprite() -> Picture {
    let mut columns = vec![vec![[0u8; 4]; 2]; 3];
    columns[0][0] = [10, 20, 30, 255];
    columns[1][1] = [40, 50, 60, 255];
    columns[2][0] = [70, 80, 90, 128];
    Picture::new(columns).unwrap()
}

fn blank_mask() -> Vec<Vec<[u8; 4]>> {
    vec![vec![[0u8; 4]; 600]; 800]
}

fn ball_with(mask: Vec<Vec<[u8; 4]>>) -> Ball {
    Ball::new(sprite(), Picture::new(mask).unwrap(), 800, 600)
}

fn commands_in(bytes: &[u8]) -> Vec<PixelflutRequest> {
    let mut commands: Vec<PixelflutRequest> = bytes
        .split(|byte| *byte == b'\n')
        .filter(|line| !line.is_empty())
        .map(|line| parse_request(line).unwrap())
        .collect();
    commands.sort_by_key(|command| match command {
        PixelflutRequest::SetPixel { x, y, rgb } => (*x, *y, *rgb),
        _ => panic!("a snapshot holds set commands only"),
    });
    commands
}

fn sorted(mut commands: Vec<PixelflutRequest>) -> Vec<PixelflutRequest> {
    commands.sort_by_key(|command| match command {
        PixelflutRequest::SetPixel { x, y, rgb } => (*x, *y, *rgb),
        _ => panic!("a picture holds set commands only"),
    });
    commands
}

#[test]
fn constants_fit_each_other() {
    assert_eq!(TARGET_COLOR, 0xff0000);
    assert_eq!(BALL_IMAGE_SIZE, 2 * BALL_RADIUS);
    assert_eq!(COLLISION_INNER_RADIUS, BALL_RADIUS - SPEED / 2);
    assert_eq!(COLLISION_OUTER_RADIUS, BALL_RADIUS + SPEED / 2);
    assert!(COLLISION_OUTER_RADIUS - COLLISION_INNER_RADIUS >= SPEED);
    assert_eq!(GOAL_INNER_RADIUS, BALL_RADIUS - 2 * SPEED);
    assert_eq!(GOAL_OUTER_RADIUS, BALL_RADIUS);
}

#[test]
fn wall_check_flags_the_axes() {
    assert_eq!(wall_check(false, false), BounceOutcome::NoBounce);
    assert_eq!(wall_check(true, false), BounceOutcome::EdgeBounce { flip_x: true, flip_y: false });
    assert_eq!(wall_check(false, true), BounceOutcome::EdgeBounce { flip_x: false, flip_y: true });
    assert_eq!(wall_check(true, true), BounceOutcome::EdgeBounce { flip_x: true, flip_y: true });
}

#[test]
fn nearest_target_of_a_blank_sample() {
    let donut = vec![vec![0u32; 4]; 4];
    assert_eq!(nearest_target(&donut, 2), None);
    assert_eq!(nearest_target(&Vec::new(), 0), None);
}

#[test]
fn nearest_target_is_the_nearest() {
    let mut donut = vec![vec![0u32; 6]; 6];
    donut[0][0] = TARGET_COLOR;
    donut[5][3] = TARGET_COLOR;
    donut[2][5] = TARGET_COLOR;
    donut[3][3] = 0x00ff00;
    assert_eq!(nearest_target(&donut, 3), Some((5, 3)));
    donut[3][4] = TARGET_COLOR;
    assert_eq!(nearest_target(&donut, 3), Some((3, 4)));
}

#[test]
fn nearest_target_among_equals_is_the_first_in_the_walk() {
    let mut donut = vec![vec![0u32; 6]; 6];
    donut[4][3] = TARGET_COLOR;
    donut[3][4] = TARGET_COLOR;
    donut[3][2] = TARGET_COLOR;
    donut[2][3] = TARGET_COLOR;
    assert_eq!(nearest_target(&donut, 3), Some((2, 3)));
    donut[2][3] = 0;
    assert_eq!(nearest_target(&donut, 3), Some((3, 2)));
    donut[3][2] = 0;
    assert_eq!(nearest_target(&donut, 3), Some((3, 4)));
}

#[test]
fn new_ball_is_in_the_middle() {
    let ball = ball_with(blank_mask());
    assert_eq!((ball.center_x(), ball.center_y()), (400, 300));
    let small = Ball::new(sprite(), Picture::new(vec![vec![[0; 4]]]).unwrap(), 65535, 1);
    assert_eq!((small.center_x(), small.center_y()), (32767, 0));
}

#[test]
fn snapshot_shows_the_ball_where_it_is() {
    let mut ball = ball_with(blank_mask());
    assert_eq!(commands_in(ball.draw()), sorted(draw_image(&sprite(), 360, 260)));
    ball.finish_tick(410, 305);
    assert_eq!((ball.center_x(), ball.center_y()), (410, 305));
    assert_eq!(commands_in(ball.draw()), sorted(draw_image(&sprite(), 370, 265)));
    ball.finish_tick(39, -3);
    assert_eq!(commands_in(ball.draw()), sorted(draw_image(&sprite(), 0, 0)));
    ball.reset();
    assert_eq!((ball.center_x(), ball.center_y()), (400, 300));
    assert_eq!(commands_in(ball.draw()), sorted(draw_image(&sprite(), 360, 260)));
}

#[test]
fn drawing_twice_writes_the_same_bytes() {
    let ball = ball_with(blank_mask());
    let first = ball.draw().clone();
    let second = ball.draw().clone();
    assert_eq!(first, second);
    assert_eq!(first.len(), draw_image(&sprite(), 360, 260).len() * "PX 360 260 0a141e\n".len());
}

#[test]
fn no_goal_on_a_blank_mask() {
    assert_eq!(ball_with(blank_mask()).is_goal_scored(), None);
}

#[test]
fn goal_on_the_right_half() {
    let mut mask = blank_mask();
    mask[630][300] = [0, 0, 255, 255];
    let mut ball = ball_with(mask);
    assert_eq!(ball.is_goal_scored(), None);
    ball.finish_tick(600, 300);
    assert_eq!(ball.is_goal_scored(), Some(GoalScored::Right));
    ball.finish_tick(660, 310);
    assert_eq!(ball.is_goal_scored(), Some(GoalScored::Right));
    ball.finish_tick(650, 300);
    assert_eq!(ball.is_goal_scored(), Some(GoalScored::Right));
    ball.finish_tick(615, 300);
    assert_eq!(ball.is_goal_scored(), None);
    ball.finish_tick(671, 300);
    assert_eq!(ball.is_goal_scored(), None);
}

#[test]
fn goal_goes_to_the_half_of_the_centre() {
    let mut mask = blank_mask();
    mask[430][300] = [0, 0, 255, 255];
    let mut ball = ball_with(mask);
    ball.finish_tick(400, 300);
    assert_eq!(ball.is_goal_scored(), Some(GoalScored::Left));
    ball.finish_tick(401, 300);
    assert_eq!(ball.is_goal_scored(), Some(GoalScored::Right));
    ball.finish_tick(391, 300);
    assert_eq!(ball.is_goal_scored(), Some(GoalScored::Left));
    ball.finish_tick(390, 300);
    assert_eq!(ball.is_goal_scored(), None);
    ball.finish_tick(470, 300);
    assert_eq!(ball.is_goal_scored(), Some(GoalScored::Right));
}

#[test]
fn obstacles_are_no_goals() {
    let mut mask = blank_mask();
    mask[430][300] = [255, 0, 0, 255];
    mask[431][300] = [0, 0, 255, 0];
    assert_eq!(ball_with(mask).is_goal_scored(), None);
}

#[test]
fn collision_commands_are_the_ring_without_the_mask() {
    let mut mask = blank_mask();
    mask[440][300] = [255, 0, 0, 255];
    mask[400][340] = [255, 0, 0, 128];
    mask[400][300] = [255, 0, 0, 255];
    let ball = ball_with(mask);
    let commands = ball.collision_commands();
    let ring = screen_donut_commands(400, 300, 35, 45, 800, 600, None);
    assert_eq!(commands.len() + 1, ring.len());
    assert!(ring.contains(&PixelflutRequest::GetPixel { x: 440, y: 300 }));
    assert!(!commands.contains(&PixelflutRequest::GetPixel { x: 440, y: 300 }));
    assert!(commands.contains(&PixelflutRequest::GetPixel { x: 400, y: 340 }));
    let rest: Vec<PixelflutRequest> = ring
        .into_iter()
        .filter(|command| *command != PixelflutRequest::GetPixel { x: 440, y: 300 })
        .collect();
    assert_eq!(commands, rest);
}

fn replies_to(commands: &[PixelflutRequest], red: &[(u16, u16)]) -> Vec<PixelflutResponse> {
    commands
        .iter()
        .map(|command| match command {
            PixelflutRequest::GetPixel { x, y } => PixelflutResponse::Pixel {
                x: *x,
                y: *y,
                rgb: if red.contains(&(*x, *y)) { TARGET_COLOR } else { 0x00ff00 },
            },
            _ => panic!("not a pixel query"),
        })
        .collect()
}

#[test]
fn no_bounce_on_a_clear_canvas() {
    let ball = ball_with(blank_mask());
    let replies = replies_to(&ball.collision_commands(), &[]);
    assert_eq!(ball.obstacle_check(&replies), Ok(BounceOutcome::NoBounce));
    assert_eq!(ball.obstacle_check(&[]), Ok(BounceOutcome::NoBounce));
}

#[test]
fn bounce_off_a_drawn_obstacle() {
    let ball = ball_with(blank_mask());
    let replies = replies_to(&ball.collision_commands(), &[(440, 310), (400, 262)]);
    assert_eq!(
        ball.obstacle_check(&replies),
        Ok(BounceOutcome::ObstacleBounce { x_rel: 0, y_rel: -38 })
    );
}

#[test]
fn bounce_off_a_masked_obstacle() {
    let mut mask = blank_mask();
    mask[364][300] = [255, 0, 0, 255];
    let ball = ball_with(mask);
    let replies = replies_to(&ball.collision_commands(), &[(400, 340)]);
    assert_eq!(
        ball.obstacle_check(&replies),
        Ok(BounceOutcome::ObstacleBounce { x_rel: -36, y_rel: 0 })
    );
    assert_eq!(
        ball.obstacle_check(&[]),
        Ok(BounceOutcome::ObstacleBounce { x_rel: -36, y_rel: 0 })
    );
}

#[test]
fn bounce_among_equals_is_off_the_first_in_the_walk() {
    let ball = ball_with(blank_mask());
    let replies =
        replies_to(&ball.collision_commands(), &[(436, 300), (400, 336), (400, 264), (364, 300)]);
    assert_eq!(
        ball.obstacle_check(&replies),
        Ok(BounceOutcome::ObstacleBounce { x_rel: -36, y_rel: 0 })
    );
    let replies = replies_to(&ball.collision_commands(), &[(436, 300), (400, 336), (400, 264)]);
    assert_eq!(
        ball.obstacle_check(&replies),
        Ok(BounceOutcome::ObstacleBounce { x_rel: 0, y_rel: -36 })
    );
}

#[test]
fn obstacle_check_refuses_what_was_not_asked_for() {
    let mut mask = blank_mask();
    mask[364][300] = [255, 0, 0, 255];
    let ball = ball_with(mask);
    let inside = [PixelflutResponse::Pixel { x: 400, y: 300, rgb: 0 }];
    assert_eq!(ball.obstacle_check(&inside), Err(ClientError::UnexpectedReplyKind));
    let masked = [PixelflutResponse::Pixel { x: 364, y: 300, rgb: 0 }];
    assert_eq!(ball.obstacle_check(&masked), Err(ClientError::UnexpectedReplyKind));
    let size = [PixelflutResponse::Size { width: 800, height: 600 }];
    assert_eq!(ball.obstacle_check(&size), Err(ClientError::UnexpectedReplyKind));
}
