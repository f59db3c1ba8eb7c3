//! The playing field, which never changes once it is loaded.

use vstd::prelude::*;
use crate::draw::{is_snapshot_of, render_snapshot, Draw};
use crate::image_helpers::{draw_image, picture_commands};
use crate::picture::Picture;

verus! {

/// The playing field as a drawable.
pub struct Field {
    draw_command_bytes: Vec<u8>,
    pixels: Ghost<Seq<Seq<Seq<u8>>>>,
}

impl Field {
    /// The pixels of the picture that the field was made from.
    pub closed spec fn pixels(&self) -> Seq<Seq<Seq<u8>>> {
        self.pixels@
    }

    /// Whether the snapshot shows the picture of the field, drawn from the
    /// top left corner of the canvas.
    pub open spec fn wf(&self) -> bool {
        is_snapshot_of(self.snapshot(), picture_commands(self.pixels(), 0, 0))
    }

    /// The field that shows `image`.
    pub fn new(image: &Picture) -> (field: Self)
        ensures
            field.wf(),
            field.pixels() == image@,
    {
        let draw_commands = draw_image(image, 0, 0);
        Field {
            draw_command_bytes: render_snapshot(draw_commands),
            pixels: Ghost(image@),
        }
    }
}

impl Draw for Field {
    closed spec fn snapshot(&self) -> Seq<u8> {
        self.draw_command_bytes@
    }

    fn draw(&self) -> (bytes: &Vec<u8>) {
        &self.draw_command_bytes
    }
}

} // verus!
