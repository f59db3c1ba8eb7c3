use pixelflut_pong::args::Args;
use pixelflut_pong::ball::Ball;
use pixelflut_pong::decode::parse_request;
use pixelflut_pong::draw::{render_snapshot, Draw};
use pixelflut_pong::field::Field;
use pixelflut_pong::game::{tick_interval_millis, Game, GoalScored};
use pixelflut_pong::image_helpers::{draw_image, draw_rect, draw_text_with_background, BLACK, WHITE};
use pixelflut_pong::picture::Picture;
use pixelflut_pong::protocol::PixelflutRequest;
use pixelflut_pong::score::{
    Score, BOX_COLOR, BOX_HEIGHT, BOX_WIDTH, BOX_Y, LEFT_BOX_X, RIGHT_BOX_X, TEXT_COLOR,
    TEXT_SCALE,
};

fn key(command: &PixelflutRequest) -> (u16, u16, u32) {
    match command {
        PixelflutRequest::SetPixel { x, y, rgb } => (*x, *y, *rgb),
        _ => panic!("a snapshot holds set commands only"),
    }
}

fn commands_in(bytes: &[u8]) -> Vec<PixelflutRequest> {
    let mut commands: Vec<PixelflutRequest> = bytes
        .split(|byte| *byte == b'\n')
        .filter(|line| !line.is_empty())
        .map(|line| parse_request(line).unwrap())
        .collect();
    commands.sort_by_key(key);
    commands
}

fn sorted(mut commands: Vec<PixelflutRequest>) -> Vec<PixelflutRequest> {
    commands.sort_by_key(key);
    commands
}

fn picture() -> Picture {
    let mut columns = vec![vec![[0u8; 4]; 4]; 4];
    for x in 0..4usize {
        for y in 0..4usize {
            let alpha = if (x + y) % 3 == 0 { 0 } else { 255 };
            columns[x][y] = [x as u8, y as u8, 77, alpha];
        }
    }
    Picture::new(columns).unwrap()
}

#[test]
fn args_hold_the_settings() {
    let args = Args { server_address: String::from("[::1]:1234"), fps: 20 };
    assert_eq!(args.server_address, "[::1]:1234");
    assert_eq!(args.fps, 20);
}

#[test]
fn tick_interval() {
    assert_eq!(tick_interval_millis(20), 50);
    assert_eq!(tick_interval_millis(1), 1000);
    assert_eq!(tick_interval_millis(30), 33);
    assert_eq!(tick_interval_millis(1000), 1);
    assert_eq!(tick_interval_millis(501), 1);
}

#[test]
fn snapshot_holds_every_command_once() {
    let commands = draw_rect(3, 4, 20, 10, 0xabcdef);
    let bytes = render_snapshot(commands.clone());
    assert_eq!(bytes.len(), 200 * "PX 3 4 abcdef\n".len() + 13 * 10 + 4 * 20);
    assert_eq!(commands_in(&bytes), sorted(commands));
    assert_eq!(render_snapshot(vec![]), Vec::<u8>::new());
}

#[test]
fn field_shows_its_picture() {
    let field = Field::new(&picture());
    assert_eq!(commands_in(field.draw()), sorted(draw_image(&picture(), 0, 0)));
    assert_eq!(field.draw().clone(), field.draw().clone());
}

#[test]
fn score_layout() {
    assert_eq!((LEFT_BOX_X, RIGHT_BOX_X, BOX_Y), (20, 1798, 300));
    assert_eq!((BOX_WIDTH, BOX_HEIGHT, TEXT_SCALE), (100, 54, 60));
    assert_eq!((TEXT_COLOR, BOX_COLOR), (BLACK, WHITE));
}

fn digit(x: u16) -> Vec<PixelflutRequest> {
    vec![
        PixelflutRequest::SetPixel { x: x + 5, y: 310, rgb: BLACK },
        PixelflutRequest::SetPixel { x: x + 5, y: 311, rgb: BLACK },
        PixelflutRequest::SetPixel { x: x + 6, y: 311, rgb: BLACK },
    ]
}

fn board(left: Vec<PixelflutRequest>, right: Vec<PixelflutRequest>) -> Vec<PixelflutRequest> {
    let mut commands = draw_text_with_background(20, 300, 100, 54, WHITE, left);
    commands.extend(draw_text_with_background(1798, 300, 100, 54, WHITE, right));
    sorted(commands)
}

#[test]
fn score_starts_at_nil_and_shows_both_boxes() {
    let score = Score::new(digit(20), digit(1798));
    assert_eq!((score.points_left(), score.points_right()), (0, 0));
    let shown = commands_in(score.draw());
    assert_eq!(shown.len(), 2 * 100 * 54);
    assert_eq!(shown, board(digit(20), digit(1798)));
}

#[test]
fn a_goal_is_a_point_for_the_other_side() {
    let mut score = Score::new(vec![], vec![]);
    let before = score.draw().clone();
    score.score_goal(GoalScored::Left);
    assert_eq!((score.points_left(), score.points_right()), (0, 1));
    score.score_goal(GoalScored::Right);
    score.score_goal(GoalScored::Right);
    assert_eq!((score.points_left(), score.points_right()), (2, 1));
    assert_eq!(score.draw().clone(), before);
    score.update_draw_commands(digit(20), vec![]);
    assert_eq!((score.points_left(), score.points_right()), (2, 1));
    assert_eq!(commands_in(score.draw()), board(digit(20), vec![]));
}

fn game_with_goal_at(x: usize, y: usize) -> Game {
    let mut mask = vec![vec![[0u8; 4]; 600]; 800];
    mask[x][y] = [0, 0, 255, 255];
    let ball = Ball::new(picture(), Picture::new(mask).unwrap(), 800, 600);
    Game::new(Field::new(&picture()), ball, Score::new(vec![], vec![]))
}

#[test]
fn nothing_follows_a_tick_without_a_goal() {
    let mut game = game_with_goal_at(10, 10);
    game.ball.finish_tick(500, 200);
    let shown = game.ball.draw().clone();
    assert_eq!(game.after_tick(), None);
    assert_eq!((game.ball.center_x(), game.ball.center_y()), (500, 200));
    assert_eq!(game.ball.draw().clone(), shown);
    assert_eq!((game.score.points_left(), game.score.points_right()), (0, 0));
}

#[test]
fn a_goal_is_counted_and_the_ball_put_back() {
    let mut game = game_with_goal_at(700, 100);
    game.ball.finish_tick(670, 100);
    assert_eq!(game.after_tick(), Some(GoalScored::Right));
    assert_eq!((game.ball.center_x(), game.ball.center_y()), (400, 300));
    assert_eq!(commands_in(game.ball.draw()), sorted(draw_image(&picture(), 360, 260)));
    assert_eq!((game.score.points_left(), game.score.points_right()), (1, 0));
    assert_eq!(game.after_tick(), None);

    let mut game = game_with_goal_at(30, 100);
    game.ball.finish_tick(60, 100);
    assert_eq!(game.after_tick(), Some(GoalScored::Left));
    assert_eq!((game.ball.center_x(), game.ball.center_y()), (400, 300));
    assert_eq!((game.score.points_left(), game.score.points_right()), (0, 1));
}
