//! The scoreboard: two counters and the two boxes that show them.

use vstd::prelude::*;
use crate::draw::{is_snapshot_of, render_snapshot, Draw};
use crate::game::GoalScored;
use crate::image_helpers::{background_cell, draw_text_with_background, BLACK, WHITE};
use crate::protocol::PixelflutRequest;
use crate::scan::scan_grid;

verus! {

/// The left edge of the box that shows the points of the left side.
pub const LEFT_BOX_X: u16 = 20;

/// The left edge of the box that shows the points of the right side.
pub const RIGHT_BOX_X: u16 = 1798;

/// The top edge of both boxes.
pub const BOX_Y: u16 = 300;

/// The width of a box.
pub const BOX_WIDTH: u16 = 100;

/// The height of a box.
pub const BOX_HEIGHT: u16 = 54;

/// The height of the digits, in pixels.
pub const TEXT_SCALE: u16 = 60;

/// The colour of the digits.
pub const TEXT_COLOR: u32 = BLACK;

/// The colour of the boxes.
pub const BOX_COLOR: u32 = WHITE;

/// The commands that show one rendered number in its box at `x`.
pub open spec fn box_commands(x: u16, text: Seq<PixelflutRequest>) -> Seq<PixelflutRequest> {
    text + scan_grid(
        background_cell(text, x, BOX_Y, BOX_COLOR),
        BOX_WIDTH as nat,
        BOX_HEIGHT as nat,
    )
}

/// The commands that show both rendered numbers, the left box first.
pub open spec fn board_commands(
    left_text: Seq<PixelflutRequest>,
    right_text: Seq<PixelflutRequest>,
) -> Seq<PixelflutRequest> {
    box_commands(LEFT_BOX_X, left_text) + box_commands(RIGHT_BOX_X, right_text)
}

/// The scoreboard.
///
/// The numbers are rendered by the caller: `left_text` and `right_text` hold
/// the pixels of the digits of `points_left` and `points_right`, in
/// `TEXT_COLOR` and at `TEXT_SCALE`, laid out from the top left corner of
/// their boxes.
pub struct Score {
    points_left: u32,
    points_right: u32,
    draw_command_bytes: Vec<u8>,
}

impl Score {
    /// The goals that the left side has scored.
    pub closed spec fn left(&self) -> u32 {
        self.points_left
    }

    /// The goals that the right side has scored.
    pub closed spec fn right(&self) -> u32 {
        self.points_right
    }

    /// A scoreboard at nil to nil that shows the rendered numbers.
    pub fn new(left_text: Vec<PixelflutRequest>, right_text: Vec<PixelflutRequest>) -> (score: Self)
        ensures
            score.left() == 0,
            score.right() == 0,
            is_snapshot_of(score.snapshot(), board_commands(left_text@, right_text@)),
    {
        let mut score = Score { points_left: 0, points_right: 0, draw_command_bytes: Vec::new() };
        score.update_draw_commands(left_text, right_text);
        score
    }

    /// The goals that the left side has scored.
    pub fn points_left(&self) -> (points: u32)
        ensures
            points == self.left(),
    {
        self.points_left
    }

    /// The goals that the right side has scored.
    pub fn points_right(&self) -> (points: u32)
        ensures
            points == self.right(),
    {
        self.points_right
    }

    /// Counts a goal. A goal in the left goal is a point for the right side,
    /// and the other way round. A counter that is full starts again at 0.
    /// What is shown changes with the next `update_draw_commands`.
    pub fn score_goal(&mut self, goal: GoalScored)
        ensures
            final(self).snapshot() == old(self).snapshot(),
            match goal {
                GoalScored::Left => {
                    &&& final(self).left() == old(self).left()
                    &&& final(self).right() == if old(self).right() == u32::MAX {
                        0
                    } else {
                        old(self).right() + 1
                    }
                },
                GoalScored::Right => {
                    &&& final(self).right() == old(self).right()
                    &&& final(self).left() == if old(self).left() == u32::MAX {
                        0
                    } else {
                        old(self).left() + 1
                    }
                },
            },
    {
        match goal {
            GoalScored::Left => {
                self.points_right = self.points_right.wrapping_add(1);
            },
            GoalScored::Right => {
                self.points_left = self.points_left.wrapping_add(1);
            },
        }
    }

    /// Shows the rendered numbers: each in its box, on the box colour.
    pub fn update_draw_commands(
        &mut self,
        left_text: Vec<PixelflutRequest>,
        right_text: Vec<PixelflutRequest>,
    )
        ensures
            final(self).left() == old(self).left(),
            final(self).right() == old(self).right(),
            is_snapshot_of(final(self).snapshot(), board_commands(left_text@, right_text@)),
    {
        let mut draw_commands = draw_text_with_background(
            LEFT_BOX_X,
            BOX_Y,
            BOX_WIDTH,
            BOX_HEIGHT,
            BOX_COLOR,
            left_text,
        );
        let mut right_box = draw_text_with_background(
            RIGHT_BOX_X,
            BOX_Y,
            BOX_WIDTH,
            BOX_HEIGHT,
            BOX_COLOR,
            right_text,
        );
        draw_commands.append(&mut right_box);
        self.draw_command_bytes = render_snapshot(draw_commands);
    }
}

impl Draw for Score {
    closed spec fn snapshot(&self) -> Seq<u8> {
        self.draw_command_bytes@
    }

    fn draw(&self) -> (bytes: &Vec<u8>) {
        &self.draw_command_bytes
    }
}

} // verus!
