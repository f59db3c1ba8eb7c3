//! What can be drawn on the canvas, and how its pixels become the bytes that
//! a writer sends over and over.
//!
//! The commands of a snapshot are shuffled before they are encoded. Drawn in
//! a fixed order on a canvas that others write to as well, a picture shows
//! sweeping bands; in a random order its pixels appear evenly.

use vstd::prelude::*;
use rand::rngs::ThreadRng;
use rand::seq::SliceRandom;
use crate::client::commands_to_bytes;
use crate::protocol::{encode_requests, PixelflutRequest};

verus! {

/// `rand::rngs::ThreadRng`, a handle to the random number generator of a
/// thread. It is only handed on to `shuffle`.
#[verifier::external_type_specification]
#[verifier::external_body]
pub struct ExThreadRng(rand::rngs::ThreadRng);

/// `rand::thread_rng`, the random number generator of the current thread.
/// Nothing is claimed of it.
pub assume_specification[ rand::thread_rng ]() -> (rng: ThreadRng)
;

/// `SliceRandom::shuffle`, which puts the elements of a slice in a random
/// order by swapping them with each other. Whatever the order, the elements
/// are those of before, each as often as before.
#[verifier::external_body]
fn shuffle(commands: &mut Vec<PixelflutRequest>, rng: &mut ThreadRng)
    ensures
        final(commands)@.to_multiset() == old(commands)@.to_multiset(),
{
    commands.shuffle(rng);
}

/// Whether `bytes` is a render snapshot of `commands`: the encoding of the
/// same commands, each as often, in some order.
pub open spec fn is_snapshot_of(bytes: Seq<u8>, commands: Seq<PixelflutRequest>) -> bool {
    exists|order: Seq<PixelflutRequest>|
        order.to_multiset() == commands.to_multiset() && bytes == #[trigger] encode_requests(
            order,
        )
}

/// A render snapshot of `commands`: the commands in a random order, encoded
/// and ready to be written in one piece.
pub fn render_snapshot(commands: Vec<PixelflutRequest>) -> (bytes: Vec<u8>)
    ensures
        is_snapshot_of(bytes@, commands@),
{
    let mut shuffled = commands;
    let mut rng = rand::thread_rng();
    shuffle(&mut shuffled, &mut rng);
    commands_to_bytes(shuffled.as_slice())
}

/// Something that is drawn on the canvas again and again.
pub trait Draw {
    /// The render snapshot that is current.
    spec fn snapshot(&self) -> Seq<u8>;

    /// The bytes to write for one drawing: the current snapshot. Drawing
    /// changes nothing, so until the drawable itself is changed every
    /// drawing writes the same bytes.
    fn draw(&self) -> (bytes: &Vec<u8>)
        ensures
            bytes@ == self.snapshot(),
    ;
}

/// Two drawings with no change in between write the same bytes.
pub proof fn lemma_draw_is_repeatable<D: Draw>(drawable: &D, first: Seq<u8>, second: Seq<u8>)
    requires
        first == drawable.snapshot(),
        second == drawable.snapshot(),
    ensures
        first == second,
{
}

} // verus!
