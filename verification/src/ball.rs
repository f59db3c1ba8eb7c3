//! The ball: where it is on the canvas, what it looks like, and what the
//! canvas around it means for its flight.
//!
//! The ball is kept here by the pixel that its centre falls in. The flight
//! itself, a heading and a place between pixels, is the caller's: one tick is
//! `wall_check`, then, if no wall was hit, the batch of `collision_commands`
//! and `obstacle_check` on its replies, and at last `finish_tick` with the
//! pixel that the ball has moved to.

use vstd::prelude::*;
use crate::client::{
    all_answer_query, donut_asked, donut_color, donut_query, screen_donut_commands,
    screen_donut_from_replies,
};
use crate::draw::{is_snapshot_of, render_snapshot, Draw};
use crate::game::GoalScored;
use crate::grid::has_shape;
use crate::hitbox::{hitbox_at, hitbox_lookup, HitboxKind};
use crate::image_helpers::{
    donut_cell, donut_coordinates, draw_image, get_donut_coordinates, is_donut_coordinate,
    picture_commands, RED,
};
use crate::picture::Picture;
use crate::protocol::{ClientError, PixelflutRequest, PixelflutResponse};
use crate::scan::{lemma_scan_grid_contains, scan_seq};

verus! {

/// The colour that stands for an obstacle in a sample of the canvas.
pub const TARGET_COLOR: u32 = RED;

// The constants below are tuned to each other and to the picture of the
// ball. Changing one of them can let the ball slip through a wall or bounce
// the wrong way.
/// The distance that the ball travels in one tick, in pixels.
pub const SPEED: u16 = 10;

/// The width and the height of the picture of the ball.
pub const BALL_IMAGE_SIZE: u16 = 80;

/// The radius of the ball, in pixels.
pub const BALL_RADIUS: u16 = 40;

/// The inner radius of the ring that is sampled for obstacles. The ring is
/// as wide as the ball travels in a tick, so that the ball cannot pass a thin
/// edge between two ticks.
pub const COLLISION_INNER_RADIUS: u16 = 35;

/// The outer radius of the ring that is sampled for obstacles.
pub const COLLISION_OUTER_RADIUS: u16 = 45;

/// The inner radius of the ring in which the mask is searched for a goal.
pub const GOAL_INNER_RADIUS: u16 = 20;

/// The outer radius of the ring in which the mask is searched for a goal.
pub const GOAL_OUTER_RADIUS: u16 = 40;

/// The ring that is sampled for obstacles lies half a tick's travel to
/// either side of the surface of the ball, so it is at least as wide as the
/// ball travels in a tick; and the search for a goal ends at the surface.
pub proof fn lemma_rings_fit_the_ball()
    ensures
        COLLISION_INNER_RADIUS == BALL_RADIUS - SPEED / 2,
        COLLISION_OUTER_RADIUS == BALL_RADIUS + SPEED / 2,
        COLLISION_OUTER_RADIUS - COLLISION_INNER_RADIUS >= SPEED,
        GOAL_INNER_RADIUS == BALL_RADIUS - 2 * SPEED,
        GOAL_OUTER_RADIUS == BALL_RADIUS,
        BALL_IMAGE_SIZE == 2 * BALL_RADIUS,
{
}

/// What a tick makes of the surroundings of the ball.
#[derive(Debug, Clone, Copy, PartialEq, Eq, Structural)]
pub enum BounceOutcome {
    /// The ball flies on.
    NoBounce,
    /// The ball has reached an edge of the canvas: its movement is turned
    /// round along each axis that is flagged.
    EdgeBounce { flip_x: bool, flip_y: bool },
    /// The ball has met an obstacle. The nearest obstacle pixel lies at
    /// `(x_rel, y_rel)` from the centre of the ball.
    ObstacleBounce { x_rel: i32, y_rel: i32 },
}

/// The colours of a grid, cell by cell.
pub open spec fn cells(grid: Seq<Vec<u32>>) -> spec_fn(int, int) -> u32 {
    |i: int, j: int| grid[i][j]
}

/// Whether cell `(i, j)` of a sample of `side` columns and rows holds the
/// target colour.
pub open spec fn is_target(color: spec_fn(int, int) -> u32, side: int, i: int, j: int) -> bool {
    0 <= i < side && 0 <= j < side && color(i, j) == TARGET_COLOR
}

/// The square of the distance of cell `(i, j)` from the middle of a sample
/// whose outer radius is `outer`.
pub open spec fn middle_distance_squared(i: int, j: int, outer: int) -> int {
    (i - outer) * (i - outer) + (j - outer) * (j - outer)
}

/// Whether cell `(i, j)` is preferred to cell `(a, b)`: it is nearer to the
/// middle, or as near and not later in the walk through the columns.
pub open spec fn is_preferred(i: int, j: int, a: int, b: int, outer: int) -> bool {
    let near = middle_distance_squared(i, j, outer);
    let other = middle_distance_squared(a, b, outer);
    near < other || (near == other && (i < a || (i == a && j <= b)))
}

/// Whether cell `(i, j)` is the target cell that is nearest to the middle of
/// a sample with outer radius `outer`; among cells that are as near, the
/// first in the walk through the columns.
pub open spec fn is_nearest_target(
    color: spec_fn(int, int) -> u32,
    outer: int,
    i: int,
    j: int,
) -> bool {
    &&& is_target(color, 2 * outer, i, j)
    &&& forall|a: int, b: int| #[trigger]
        is_target(color, 2 * outer, a, b) ==> is_preferred(i, j, a, b, outer)
}

/// Whether a sample with outer radius `outer` holds no target cell.
pub open spec fn has_no_target(color: spec_fn(int, int) -> u32, outer: int) -> bool {
    forall|a: int, b: int| !#[trigger] is_target(color, 2 * outer, a, b)
}

/// What the wall check of a tick gives: an edge bounce if the ball has
/// reached the left or right edge (`reached_side`) or the top or bottom edge
/// (`reached_top_or_bottom`). An edge bounce is never combined with a bounce
/// off an obstacle: after one, the canvas is not sampled in this tick.
pub fn wall_check(reached_side: bool, reached_top_or_bottom: bool) -> (outcome: BounceOutcome)
    ensures
        outcome == if reached_side || reached_top_or_bottom {
            (BounceOutcome::EdgeBounce { flip_x: reached_side, flip_y: reached_top_or_bottom })
        } else {
            BounceOutcome::NoBounce
        },
{
    if reached_side || reached_top_or_bottom {
        BounceOutcome::EdgeBounce { flip_x: reached_side, flip_y: reached_top_or_bottom }
    } else {
        BounceOutcome::NoBounce
    }
}

/// Finds the target cell of a ring sample that is nearest to the middle of
/// the sample. `donut` has `2 * outer_circle_radius` columns and rows.
pub fn nearest_target(donut: &Vec<Vec<u32>>, outer_circle_radius: u16) -> (nearest: Option<
    (usize, usize),
>)
    requires
        has_shape(donut@, 2 * outer_circle_radius, 2 * outer_circle_radius),
    ensures
        match nearest {
            Some((i, j)) => is_nearest_target(
                cells(donut@),
                outer_circle_radius as int,
                i as int,
                j as int,
            ),
            None => has_no_target(cells(donut@), outer_circle_radius as int),
        },
{
    let side: usize = 2 * outer_circle_radius as usize;
    let outer: i64 = outer_circle_radius as i64;
    let ghost color = cells(donut@);
    let mut nearest: Option<(usize, usize)> = None;
    let mut min_distance: i64 = 0;
    let mut i: usize = 0;
    while i < side
        invariant
            i <= side,
            side == 2 * outer_circle_radius,
            outer == outer_circle_radius,
            has_shape(donut@, side as int, side as int),
            color == cells(donut@),
            nearest is None ==> forall|a: int, b: int|
                0 <= a < i ==> !#[trigger] is_target(color, side as int, a, b),
            nearest matches Some((p, q)) ==> {
                &&& p < i
                &&& is_target(color, side as int, p as int, q as int)
                &&& min_distance == middle_distance_squared(p as int, q as int, outer as int)
                &&& forall|a: int, b: int|
                    0 <= a < i && #[trigger] is_target(color, side as int, a, b) ==> is_preferred(
                        p as int,
                        q as int,
                        a,
                        b,
                        outer as int,
                    )
            },
        decreases side - i,
    {
        let mut j: usize = 0;
        while j < side
            invariant
                i < side,
                j <= side,
                side == 2 * outer_circle_radius,
                outer == outer_circle_radius,
                has_shape(donut@, side as int, side as int),
                color == cells(donut@),
                nearest is None ==> forall|a: int, b: int|
                    (0 <= a < i || (a == i && 0 <= b < j)) ==> !#[trigger] is_target(color, side as int, a, b),
                nearest matches Some((p, q)) ==> {
                    &&& p < i || (p == i && q < j)
                    &&& is_target(color, side as int, p as int, q as int)
                    &&& min_distance == middle_distance_squared(p as int, q as int, outer as int)
                    &&& forall|a: int, b: int|
                        (0 <= a < i || (a == i && 0 <= b < j)) && #[trigger] is_target(
                            color,
                            side as int,
                            a,
                            b,
                        ) ==> is_preferred(p as int, q as int, a, b, outer as int)
                },
            decreases side - j,
        {
            if donut[i][j] == TARGET_COLOR {
                let x_rel: i64 = i as i64 - outer;
                let y_rel: i64 = j as i64 - outer;
                assert(0 <= x_rel * x_rel <= 0x2_0000 * 0x2_0000) by (nonlinear_arith)
                    requires
                        -0x2_0000 <= x_rel <= 0x2_0000,
                ;
                assert(0 <= y_rel * y_rel <= 0x2_0000 * 0x2_0000) by (nonlinear_arith)
                    requires
                        -0x2_0000 <= y_rel <= 0x2_0000,
                ;
                let distance: i64 = x_rel * x_rel + y_rel * y_rel;
                let closer = match nearest {
                    None => true,
                    Some(_) => distance < min_distance,
                };
                if closer {
                    nearest = Some((i, j));
                    min_distance = distance;
                }
            }
            j += 1;
        }
        i += 1;
    }
    nearest
}

/// Where the picture of the ball is drawn along one axis when the centre of
/// the ball is at `center`: a radius before the centre, and at 0 if that
/// lies off the canvas.
pub open spec fn draw_offset(center: i16) -> u16 {
    if center < BALL_RADIUS {
        0
    } else {
        (center - BALL_RADIUS) as u16
    }
}

fn offset_of(center: i16) -> (offset: u16)
    ensures
        offset == draw_offset(center),
{
    if center < BALL_RADIUS as i16 {
        0
    } else {
        (center - BALL_RADIUS as i16) as u16
    }
}

/// The ball.
pub struct Ball {
    image: Picture,
    draw_command_bytes: Vec<u8>,
    field_hitbox_image: Picture,
    center_x: i16,
    center_y: i16,
    screen_width: u16,
    screen_height: u16,
}

impl Ball {
    /// The pixel that the centre of the ball falls in.
    pub closed spec fn center(&self) -> (i16, i16) {
        (self.center_x, self.center_y)
    }

    /// The width and the height of the canvas.
    pub closed spec fn screen(&self) -> (u16, u16) {
        (self.screen_width, self.screen_height)
    }

    /// The pixels of the picture of the ball.
    pub closed spec fn sprite(&self) -> Seq<Seq<Seq<u8>>> {
        self.image@
    }

    /// The pixels of the hitbox mask of the field.
    pub closed spec fn mask(&self) -> Seq<Seq<Seq<u8>>> {
        self.field_hitbox_image@
    }

    /// The commands that draw the ball where it is.
    pub open spec fn picture(&self) -> Seq<PixelflutRequest> {
        picture_commands(
            self.sprite(),
            draw_offset(self.center().0),
            draw_offset(self.center().1),
        )
    }

    /// Whether the snapshot shows the ball where it is.
    pub open spec fn wf(&self) -> bool {
        is_snapshot_of(self.snapshot(), self.picture())
    }

    /// The middle of a canvas of the given size.
    pub open spec fn canvas_center(screen_width: u16, screen_height: u16) -> (i16, i16) {
        ((screen_width / 2) as i16, (screen_height / 2) as i16)
    }

    /// The pixels that the collision check of a tick asks the server for.
    pub open spec fn collision_asked(&self) -> spec_fn(int, int) -> bool {
        donut_asked(
            Some(self.mask()),
            self.center().0,
            self.center().1,
            COLLISION_INNER_RADIUS,
            COLLISION_OUTER_RADIUS,
            self.screen().0,
            self.screen().1,
        )
    }

    /// The sample that the collision check of a tick works on, cell by
    /// cell, given the replies of the server: the ring around the ball as
    /// `screen_donut_from_replies` puts it together.
    pub open spec fn collision_sample(&self, replies: Seq<PixelflutResponse>) -> spec_fn(
        int,
        int,
    ) -> u32 {
        |i: int, j: int|
            donut_color(
                replies,
                Some(self.mask()),
                self.center().0 - COLLISION_OUTER_RADIUS + i,
                self.center().1 - COLLISION_OUTER_RADIUS + j,
                self.center().0,
                self.center().1,
                COLLISION_INNER_RADIUS,
                COLLISION_OUTER_RADIUS,
                self.screen().0,
                self.screen().1,
            )
    }

    /// Whether the mask shows a goal at a pixel of the part of the ball that
    /// is searched for one: the ring from `GOAL_INNER_RADIUS` to
    /// `GOAL_OUTER_RADIUS` around the centre, as far as it is on the canvas.
    pub open spec fn goal_in_reach(&self) -> bool {
        let ring = donut_coordinates(
            self.center().0,
            self.center().1,
            GOAL_INNER_RADIUS,
            GOAL_OUTER_RADIUS,
            self.screen().0,
            self.screen().1,
        );
        exists|k: int|
            0 <= k < ring.len() && hitbox_at(
                self.mask(),
                (#[trigger] ring[k]).0 as int,
                ring[k].1 as int,
            ) == HitboxKind::Goal
    }

    /// A ball in the middle of a canvas of the given size, with `image` as
    /// its picture and `field_hitbox_image` as the mask of the field.
    pub fn new(
        image: Picture,
        field_hitbox_image: Picture,
        screen_width: u16,
        screen_height: u16,
    ) -> (ball: Self)
        ensures
            ball.wf(),
            ball.sprite() == image@,
            ball.mask() == field_hitbox_image@,
            ball.screen() == (screen_width, screen_height),
            ball.center() == Self::canvas_center(screen_width, screen_height),
    {
        let mut ball = Ball {
            image,
            draw_command_bytes: Vec::new(),
            field_hitbox_image,
            center_x: 0,
            center_y: 0,
            screen_width,
            screen_height,
        };
        ball.reset();
        ball
    }

    /// The column of the pixel that the centre of the ball falls in.
    pub fn center_x(&self) -> (x: i16)
        ensures
            x == self.center().0,
    {
        self.center_x
    }

    /// The row of the pixel that the centre of the ball falls in.
    pub fn center_y(&self) -> (y: i16)
        ensures
            y == self.center().1,
    {
        self.center_y
    }

    fn update_draw_command_bytes(&mut self)
        ensures
            final(self).wf(),
            final(self).center() == old(self).center(),
            final(self).screen() == old(self).screen(),
            final(self).sprite() == old(self).sprite(),
            final(self).mask() == old(self).mask(),
    {
        let draw_commands = draw_image(
            &self.image,
            offset_of(self.center_x),
            offset_of(self.center_y),
        );
        self.draw_command_bytes = render_snapshot(draw_commands);
    }

    /// The batch that samples the canvas for obstacles: the ring between
    /// `COLLISION_INNER_RADIUS` and `COLLISION_OUTER_RADIUS` around the
    /// ball, without the pixels that the mask settles.
    pub fn collision_commands(&self) -> (commands: Vec<PixelflutRequest>)
        ensures
            commands@ == scan_seq(
                donut_coordinates(
                    self.center().0,
                    self.center().1,
                    COLLISION_INNER_RADIUS,
                    COLLISION_OUTER_RADIUS,
                    self.screen().0,
                    self.screen().1,
                ),
                donut_query(Some(self.mask())),
            ),
    {
        screen_donut_commands(
            self.center_x,
            self.center_y,
            COLLISION_INNER_RADIUS,
            COLLISION_OUTER_RADIUS,
            self.screen_width,
            self.screen_height,
            Some(&self.field_hitbox_image),
        )
    }

    /// What the canvas around the ball means for its flight, from the
    /// replies to `collision_commands`. If the sample holds the target
    /// colour, the ball bounces off the target cell nearest to its centre,
    /// the first in the walk through the columns among cells that are as
    /// near; else it flies on. Every target cell lies in the sampled ring. A
    /// reply that reports no pixel that was asked for is unexpected.
    pub fn obstacle_check(&self, replies: &[PixelflutResponse]) -> (result: Result<
        BounceOutcome,
        ClientError,
    >)
        ensures
            result is Ok <==> all_answer_query(replies@, self.collision_asked()),
            result is Err ==> result == Err::<BounceOutcome, ClientError>(
                ClientError::UnexpectedReplyKind,
            ),
            result matches Ok(outcome) ==> match outcome {
                BounceOutcome::NoBounce => has_no_target(
                    self.collision_sample(replies@),
                    COLLISION_OUTER_RADIUS as int,
                ),
                BounceOutcome::ObstacleBounce { x_rel, y_rel } => is_nearest_target(
                    self.collision_sample(replies@),
                    COLLISION_OUTER_RADIUS as int,
                    x_rel + COLLISION_OUTER_RADIUS,
                    y_rel + COLLISION_OUTER_RADIUS,
                ),
                BounceOutcome::EdgeBounce { flip_x, flip_y } => false,
            },
    {
        let sampled = screen_donut_from_replies(
            replies,
            self.center_x,
            self.center_y,
            COLLISION_INNER_RADIUS,
            COLLISION_OUTER_RADIUS,
            self.screen_width,
            self.screen_height,
            Some(&self.field_hitbox_image),
        );
        match sampled {
            Err(error) => Err(error),
            Ok(donut) => {
                let ghost sample = self.collision_sample(replies@);
                let ghost color = cells(donut@);
                let ghost side = 2 * COLLISION_OUTER_RADIUS as int;
                assert forall|a: int, b: int|
                    is_target(color, side, a, b) == is_target(sample, side, a, b) by {
                    if 0 <= a < side && 0 <= b < side {
                        assert(donut[a][b] == sample(a, b));
                    }
                }
                match nearest_target(&donut, COLLISION_OUTER_RADIUS) {
                    None => Ok(BounceOutcome::NoBounce),
                    Some((i, j)) => Ok(
                        BounceOutcome::ObstacleBounce {
                            x_rel: i as i32 - COLLISION_OUTER_RADIUS as i32,
                            y_rel: j as i32 - COLLISION_OUTER_RADIUS as i32,
                        },
                    ),
                }
            },
        }
    }

    /// Ends a tick: the ball is now at `(center_x, center_y)`, and the
    /// snapshot shows it there. This happens in every tick, bounce or not.
    pub fn finish_tick(&mut self, center_x: i16, center_y: i16)
        ensures
            final(self).wf(),
            final(self).center() == (center_x, center_y),
            final(self).screen() == old(self).screen(),
            final(self).sprite() == old(self).sprite(),
            final(self).mask() == old(self).mask(),
    {
        self.center_x = center_x;
        self.center_y = center_y;
        self.update_draw_command_bytes();
    }

    /// Tells whether the ball is in a goal, and in which: the goal on the
    /// half of the canvas that the centre of the ball is in. The mask alone
    /// decides; the canvas is not read.
    pub fn is_goal_scored(&self) -> (goal: Option<GoalScored>)
        ensures
            goal == if self.goal_in_reach() {
                Some(
                    if self.center().0 > self.screen().0 / 2 {
                        GoalScored::Right
                    } else {
                        GoalScored::Left
                    },
                )
            } else {
                None
            },
    {
        let ring = get_donut_coordinates(
            self.center_x,
            self.center_y,
            GOAL_INNER_RADIUS,
            GOAL_OUTER_RADIUS,
            self.screen_width,
            self.screen_height,
        );
        let mut k: usize = 0;
        while k < ring.len()
            invariant
                k <= ring.len(),
                ring@ == donut_coordinates(
                    self.center().0,
                    self.center().1,
                    GOAL_INNER_RADIUS,
                    GOAL_OUTER_RADIUS,
                    self.screen().0,
                    self.screen().1,
                ),
                forall|n: int|
                    0 <= n < k ==> hitbox_at(
                        self.mask(),
                        (#[trigger] ring@[n]).0 as int,
                        ring@[n].1 as int,
                    ) != HitboxKind::Goal,
            decreases ring.len() - k,
        {
            let (x, y) = ring[k];
            if hitbox_lookup(&self.field_hitbox_image, x, y) == HitboxKind::Goal {
                assert(hitbox_at(self.mask(), ring@[k as int].0 as int, ring@[k as int].1 as int)
                    == HitboxKind::Goal);
                if self.center_x as i32 > (self.screen_width / 2) as i32 {
                    return Some(GoalScored::Right);
                } else {
                    return Some(GoalScored::Left);
                }
            }
            k += 1;
        }
        None
    }

    /// Puts the ball back in the middle of the canvas, and shows it there.
    pub fn reset(&mut self)
        ensures
            final(self).wf(),
            final(self).center() == Self::canvas_center(old(self).screen().0, old(self).screen().1),
            final(self).screen() == old(self).screen(),
            final(self).sprite() == old(self).sprite(),
            final(self).mask() == old(self).mask(),
    {
        self.center_x = (self.screen_width / 2) as i16;
        self.center_y = (self.screen_height / 2) as i16;
        self.update_draw_command_bytes();
    }
}

impl Draw for Ball {
    closed spec fn snapshot(&self) -> Seq<u8> {
        self.draw_command_bytes@
    }

    fn draw(&self) -> (bytes: &Vec<u8>) {
        &self.draw_command_bytes
    }
}

/// One goal pixel is enough. If the mask shows a goal at a pixel `(x, y)`
/// that is on the canvas, in the square around the ball and in the ring from
/// `GOAL_INNER_RADIUS` to `GOAL_OUTER_RADIUS` around its centre, a goal is in
/// reach, and `is_goal_scored` reports one.
pub proof fn lemma_goal_pixel_is_in_reach(ball: &Ball, x: int, y: int)
    requires
        ball.center().0 - GOAL_OUTER_RADIUS <= x < ball.center().0 + GOAL_OUTER_RADIUS,
        ball.center().1 - GOAL_OUTER_RADIUS <= y < ball.center().1 + GOAL_OUTER_RADIUS,
        is_donut_coordinate(
            x,
            y,
            ball.center().0,
            ball.center().1,
            GOAL_INNER_RADIUS,
            GOAL_OUTER_RADIUS,
            ball.screen().0,
            ball.screen().1,
        ),
        hitbox_at(ball.mask(), x, y) == HitboxKind::Goal,
    ensures
        ball.goal_in_reach(),
{
    let cell = donut_cell(
        ball.center().0,
        ball.center().1,
        GOAL_INNER_RADIUS,
        GOAL_OUTER_RADIUS,
        ball.screen().0,
        ball.screen().1,
    );
    let side = 2 * GOAL_OUTER_RADIUS as nat;
    let ring = donut_coordinates(
        ball.center().0,
        ball.center().1,
        GOAL_INNER_RADIUS,
        GOAL_OUTER_RADIUS,
        ball.screen().0,
        ball.screen().1,
    );
    let coordinate = (x as u16, y as u16);
    let i = x - (ball.center().0 - GOAL_OUTER_RADIUS);
    let j = y - (ball.center().1 - GOAL_OUTER_RADIUS);
    assert(cell(i, j) == Some(coordinate));
    lemma_scan_grid_contains(cell, side, side, coordinate);
    assert(ring.contains(coordinate));
    let k = choose|k: int| 0 <= k < ring.len() && ring[k] == coordinate;
    assert(hitbox_at(ball.mask(), ring[k].0 as int, ring[k].1 as int) == HitboxKind::Goal);
}

} // verus!
