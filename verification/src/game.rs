//! The game as a whole: the field, the ball and the scoreboard, and what
//! happens between two ticks.

use vstd::prelude::*;
use crate::ball::Ball;
use crate::draw::Draw;
use crate::field::Field;
use crate::score::Score;

verus! {

/// The goal that the ball went into.
#[derive(Debug, Clone, Copy, PartialEq, Eq, Structural)]
pub enum GoalScored {
    Left,
    Right,
}

/// The time between two ticks at `target_fps` ticks per second, in whole
/// milliseconds. A rate of 0 has no such time, and a rate above 1000 would
/// leave none.
pub fn tick_interval_millis(target_fps: u16) -> (millis: u64)
    requires
        0 < target_fps <= 1000,
    ensures
        millis == 1000int / target_fps as int,
        millis > 0,
{
    let fps: u64 = target_fps as u64;
    assert(1000int / fps as int > 0) by (nonlinear_arith)
        requires
            0 < fps <= 1000,
    ;
    1_000 / fps
}

/// The three things that are drawn.
pub struct Game {
    pub field: Field,
    pub ball: Ball,
    pub score: Score,
}

impl Game {
    /// A game of the given parts.
    pub fn new(field: Field, ball: Ball, score: Score) -> (game: Self)
        ensures
            game.field == field,
            game.ball == ball,
            game.score == score,
    {
        Game { field, ball, score }
    }

    /// What follows a tick of the ball. If the ball is in a goal, the goal
    /// is counted and the ball is put back in the middle of the canvas; the
    /// caller then gives the ball a new heading and renders the new score.
    /// Else nothing changes.
    pub fn after_tick(&mut self) -> (goal: Option<GoalScored>)
        ensures
            goal is Some ==> final(self).ball.wf(),
            final(self).field == old(self).field,
            final(self).ball.screen() == old(self).ball.screen(),
            final(self).ball.sprite() == old(self).ball.sprite(),
            final(self).ball.mask() == old(self).ball.mask(),
            final(self).score.snapshot() == old(self).score.snapshot(),
            goal == if old(self).ball.goal_in_reach() {
                Some(
                    if old(self).ball.center().0 > old(self).ball.screen().0 / 2 {
                        GoalScored::Right
                    } else {
                        GoalScored::Left
                    },
                )
            } else {
                None
            },
            match goal {
                None => final(self).ball == old(self).ball && final(self).score == old(self).score,
                Some(GoalScored::Left) => {
                    &&& final(self).ball.center() == Ball::canvas_center(
                        old(self).ball.screen().0,
                        old(self).ball.screen().1,
                    )
                    &&& final(self).score.left() == old(self).score.left()
                    &&& final(self).score.right() == if old(self).score.right() == u32::MAX {
                        0
                    } else {
                        old(self).score.right() + 1
                    }
                },
                Some(GoalScored::Right) => {
                    &&& final(self).ball.center() == Ball::canvas_center(
                        old(self).ball.screen().0,
                        old(self).ball.screen().1,
                    )
                    &&& final(self).score.right() == old(self).score.right()
                    &&& final(self).score.left() == if old(self).score.left() == u32::MAX {
                        0
                    } else {
                        old(self).score.left() + 1
                    }
                },
            },
    {
        let goal = self.ball.is_goal_scored();
        match goal {
            Some(side) => {
                self.score.score_goal(side);
                self.ball.reset();
            },
            None => {},
        }
        goal
    }
}

} // verus!
