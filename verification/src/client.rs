//! The client's side of a conversation with the canvas server, apart from
//! the connection itself.
//!
//! The protocol has no request identifiers. A batch of commands is written
//! in one piece, and the replies are then read in the order in which the
//! server writes them; nothing else may be read from the connection in
//! between. What is written and what to make of each line that arrives is
//! decided here; moving the bytes is left to the caller.

use vstd::prelude::*;
use crate::ball::TARGET_COLOR;
use crate::decode::{decode_response, field_views, parse_response};
use crate::grid::{filled_grid, has_shape};
use crate::hitbox::{hitbox_at, hitbox_lookup, HitboxKind};
use crate::image_helpers::{
    donut_cell, donut_cell_at, donut_coordinates, get_donut_coordinates, is_donut_coordinate,
    on_screen,
};
use crate::picture::Picture;
use crate::protocol::{
    encode_requests, ClientError, PixelflutRequest, PixelflutResponse, Serialize,
};
use crate::scan::{
    gives_each_once, lemma_scan_grid_contains, lemma_scan_grid_no_duplicates,
    lemma_scan_seq_contains, lemma_scan_seq_no_duplicates, scan_column, scan_grid, scan_seq,
};

verus! {

/// The bytes of a batch of commands: their lines, one after the other, ready
/// to be written in one piece.
pub fn commands_to_bytes(commands: &[PixelflutRequest]) -> (bytes: Vec<u8>)
    ensures
        bytes@ == encode_requests(commands@),
{
    let mut bytes: Vec<u8> = Vec::new();
    let mut i: usize = 0;
    assert(commands@.take(0) =~= Seq::<PixelflutRequest>::empty());
    while i < commands.len()
        invariant
            i <= commands.len(),
            bytes@ == encode_requests(commands@.take(i as int)),
        decreases commands.len() - i,
    {
        assert(commands@.take(i + 1).drop_last() =~= commands@.take(i as int));
        assert(commands@.take(i + 1).last() == commands@[i as int]);
        commands[i].serialize(&mut bytes);
        i += 1;
    }
    assert(commands@.take(commands.len() as int) =~= commands@);
    bytes
}

/// The number of replies that the server owes to `commands`: one for each
/// query. Setting a pixel is not answered.
pub open spec fn expected_replies(commands: Seq<PixelflutRequest>) -> nat
    decreases commands.len(),
{
    if commands.len() == 0 {
        0
    } else {
        expected_replies(commands.drop_last()) + match commands.last() {
            PixelflutRequest::SetPixel { x, y, rgb } => 0nat,
            _ => 1nat,
        }
    }
}

/// The coordinate that the last pixel query among `commands` asks for;
/// `(0, 0)` if there is none.
pub open spec fn last_requested(commands: Seq<PixelflutRequest>) -> (u16, u16)
    decreases commands.len(),
{
    if commands.len() == 0 {
        (0, 0)
    } else {
        match commands.last() {
            PixelflutRequest::GetPixel { x, y } => (x, y),
            _ => last_requested(commands.drop_last()),
        }
    }
}

/// Whether `reply` reports the pixel at `(last_expected_x, last_expected_y)`.
/// Such a reply ends a batch at once.
pub open spec fn ends_batch(
    reply: PixelflutResponse,
    last_expected_x: u16,
    last_expected_y: u16,
) -> bool {
    match reply {
        PixelflutResponse::Pixel { x, y, rgb } => x == last_expected_x && y == last_expected_y,
        PixelflutResponse::Size { width, height } => false,
    }
}

/// `replies` in front of what `rest` holds; an error in `rest` stays.
pub open spec fn prepend_replies(
    replies: Seq<PixelflutResponse>,
    rest: Result<Seq<PixelflutResponse>, ClientError>,
) -> Result<Seq<PixelflutResponse>, ClientError> {
    match rest {
        Ok(more) => Ok(replies + more),
        Err(error) => Err(error),
    }
}

/// What reading the replies to a batch gives, where `lines` is all that the
/// server sends: the replies on the first `number_of_commands` lines, or on
/// fewer if one of them reports the pixel at
/// `(last_expected_x, last_expected_y)`, which ends the batch. A line that is
/// no reply is a protocol error, and so is the end of `lines` before the
/// batch is complete.
pub open spec fn replies_read(
    lines: Seq<Seq<u8>>,
    number_of_commands: nat,
    last_expected_x: u16,
    last_expected_y: u16,
) -> Result<Seq<PixelflutResponse>, ClientError>
    decreases number_of_commands,
{
    if number_of_commands == 0 {
        Ok(Seq::empty())
    } else if lines.len() == 0 {
        Err(ClientError::ProtocolError)
    } else {
        match decode_response(lines.first()) {
            None => Err(ClientError::ProtocolError),
            Some(reply) => if ends_batch(reply, last_expected_x, last_expected_y) {
                Ok(seq![reply])
            } else {
                prepend_replies(
                    seq![reply],
                    replies_read(
                        lines.drop_first(),
                        (number_of_commands - 1) as nat,
                        last_expected_x,
                        last_expected_y,
                    ),
                )
            },
        }
    }
}

/// Collects the replies to one batch, line by line.
///
/// The caller reads a line from the connection while `is_done` is false and
/// hands it to `accept_line`; once `is_done` is true, `into_replies` gives
/// what was read.
pub struct ReplyReader {
    number_of_commands: usize,
    last_expected_x: u16,
    last_expected_y: u16,
    replies: Vec<PixelflutResponse>,
    stopped_early: bool,
}

impl ReplyReader {
    /// The number of replies that the batch awaits.
    pub closed spec fn number_of_commands(&self) -> nat {
        self.number_of_commands as nat
    }

    /// The coordinate whose reply ends the batch.
    pub closed spec fn last_expected(&self) -> (u16, u16) {
        (self.last_expected_x, self.last_expected_y)
    }

    /// The replies read so far, in the order of their arrival.
    pub closed spec fn replies(&self) -> Seq<PixelflutResponse> {
        self.replies@
    }

    /// Whether the reply that ends the batch has been read.
    pub closed spec fn stopped_early(&self) -> bool {
        self.stopped_early
    }

    /// Whether the batch is complete: no further line belongs to it.
    pub open spec fn done(&self) -> bool {
        self.stopped_early() || self.replies().len() >= self.number_of_commands()
    }

    /// A reader for the replies to `number_of_commands` commands, the last of
    /// which asked for the pixel at `(last_expected_x, last_expected_y)`.
    pub fn new(number_of_commands: usize, last_expected_x: u16, last_expected_y: u16) -> (reader:
        Self)
        ensures
            reader.number_of_commands() == number_of_commands,
            reader.last_expected() == (last_expected_x, last_expected_y),
            reader.replies() == Seq::<PixelflutResponse>::empty(),
            !reader.stopped_early(),
    {
        ReplyReader {
            number_of_commands,
            last_expected_x,
            last_expected_y,
            replies: Vec::new(),
            stopped_early: false,
        }
    }

    /// A reader for the replies to the batch `commands`: one for each of
    /// them that asks for something, the last of them to the last command
    /// that asks for a pixel.
    pub fn for_commands(commands: &[PixelflutRequest]) -> (reader: Self)
        ensures
            reader.number_of_commands() == expected_replies(commands@),
            reader.last_expected() == last_requested(commands@),
            reader.replies() == Seq::<PixelflutResponse>::empty(),
            !reader.stopped_early(),
    {
        let mut number_of_commands: usize = 0;
        let mut last_expected_x: u16 = 0;
        let mut last_expected_y: u16 = 0;
        let mut i: usize = 0;
        assert(commands@.take(0) =~= Seq::<PixelflutRequest>::empty());
        while i < commands.len()
            invariant
                i <= commands.len(),
                number_of_commands <= i,
                number_of_commands == expected_replies(commands@.take(i as int)),
                (last_expected_x, last_expected_y) == last_requested(commands@.take(i as int)),
            decreases commands.len() - i,
        {
            assert(commands@.take(i + 1).drop_last() =~= commands@.take(i as int));
            assert(commands@.take(i + 1).last() == commands@[i as int]);
            match commands[i] {
                PixelflutRequest::GetPixel { x, y } => {
                    number_of_commands += 1;
                    last_expected_x = x;
                    last_expected_y = y;
                },
                PixelflutRequest::GetSize => {
                    number_of_commands += 1;
                },
                PixelflutRequest::SetPixel { x, y, rgb } => {},
            }
            i += 1;
        }
        assert(commands@.take(commands.len() as int) =~= commands@);
        ReplyReader::new(number_of_commands, last_expected_x, last_expected_y)
    }

    /// Whether the batch is complete.
    pub fn is_done(&self) -> (done: bool)
        ensures
            done == self.done(),
    {
        self.stopped_early || self.replies.len() >= self.number_of_commands
    }

    /// Takes the next line that the server has sent. A reply is kept; if it
    /// reports the last expected coordinate, the batch is complete. A line
    /// that is no reply is a protocol error and changes nothing.
    pub fn accept_line(&mut self, line: &[u8]) -> (result: Result<(), ClientError>)
        requires
            !old(self).done(),
        ensures
            final(self).number_of_commands() == old(self).number_of_commands(),
            final(self).last_expected() == old(self).last_expected(),
            match decode_response(line@) {
                None => {
                    &&& result == Err::<(), ClientError>(ClientError::ProtocolError)
                    &&& final(self).replies() == old(self).replies()
                    &&& final(self).stopped_early() == old(self).stopped_early()
                },
                Some(reply) => {
                    &&& result == Ok::<(), ClientError>(())
                    &&& final(self).replies() == old(self).replies().push(reply)
                    &&& final(self).stopped_early() == ends_batch(
                        reply,
                        old(self).last_expected().0,
                        old(self).last_expected().1,
                    )
                },
            },
    {
        match parse_response(line) {
            Err(error) => Err(error),
            Ok(reply) => {
                self.replies.push(reply);
                match reply {
                    PixelflutResponse::Pixel { x, y, rgb } => {
                        if x == self.last_expected_x && y == self.last_expected_y {
                            self.stopped_early = true;
                        }
                    },
                    PixelflutResponse::Size { width, height } => {},
                }
                Ok(())
            },
        }
    }

    /// The replies that were read.
    pub fn into_replies(self) -> (replies: Vec<PixelflutResponse>)
        ensures
            replies@ == self.replies(),
    {
        self.replies
    }
}

/// Reads the replies that `reader` awaits from `lines`.
fn read_batch(lines: &[Vec<u8>], fresh: ReplyReader) -> (result: Result<
    Vec<PixelflutResponse>,
    ClientError,
>)
    requires
        fresh.replies() == Seq::<PixelflutResponse>::empty(),
        !fresh.stopped_early(),
    ensures
        match replies_read(
            field_views(lines@),
            fresh.number_of_commands(),
            fresh.last_expected().0,
            fresh.last_expected().1,
        ) {
            Ok(replies) => result is Ok && result->Ok_0@ == replies,
            Err(error) => result == Err::<Vec<PixelflutResponse>, ClientError>(error),
        },
{
    let ghost all = field_views(lines@);
    let ghost number_of_commands = fresh.number_of_commands();
    let ghost last_expected_x = fresh.last_expected().0;
    let ghost last_expected_y = fresh.last_expected().1;
    let mut reader = fresh;
    let mut i: usize = 0;
    assert(all.skip(0) =~= all);
    assert(Seq::<PixelflutResponse>::empty() + Seq::<PixelflutResponse>::empty() =~= Seq::<
        PixelflutResponse,
    >::empty());
    while !reader.is_done()
        invariant
            i <= lines.len(),
            all == field_views(lines@),
            number_of_commands == fresh.number_of_commands(),
            (last_expected_x, last_expected_y) == fresh.last_expected(),
            reader.number_of_commands() == number_of_commands,
            reader.last_expected() == (last_expected_x, last_expected_y),
            reader.replies().len() == i || reader.stopped_early(),
            reader.replies().len() <= number_of_commands,
            replies_read(all, number_of_commands, last_expected_x, last_expected_y)
                == if reader.stopped_early() {
                Ok::<Seq<PixelflutResponse>, ClientError>(reader.replies())
            } else {
                prepend_replies(
                    reader.replies(),
                    replies_read(
                        all.skip(i as int),
                        (number_of_commands - i) as nat,
                        last_expected_x,
                        last_expected_y,
                    ),
                )
            },
        decreases lines.len() - i, if reader.done() { 0int } else { 1int },
    {
        let ghost rest = all.skip(i as int);
        let ghost seen = reader.replies();
        if i >= lines.len() {
            assert(rest.len() == 0);
            return Err(ClientError::ProtocolError);
        }
        assert(rest.first() == lines@[i as int]@);
        assert(rest.drop_first() =~= all.skip(i + 1));
        match reader.accept_line(lines[i].as_slice()) {
            Err(error) => {
                return Err(error);
            },
            Ok(()) => {
                proof {
                    let reply = decode_response(rest.first())->0;
                    let after = replies_read(
                        all.skip(i + 1),
                        (number_of_commands - i - 1) as nat,
                        last_expected_x,
                        last_expected_y,
                    );
                    if ends_batch(reply, last_expected_x, last_expected_y) {
                        assert(seen + seq![reply] =~= seen.push(reply));
                    } else {
                        match after {
                            Ok(more) => {
                                assert(seen + (seq![reply] + more) =~= seen.push(reply) + more);
                            },
                            Err(error) => {},
                        }
                    }
                }
            },
        }
        i += 1;
    }
    proof {
        if !reader.stopped_early() {
            assert(reader.replies() + Seq::<PixelflutResponse>::empty() =~= reader.replies());
        }
    }
    Ok(reader.into_replies())
}

/// Reads the replies to a batch of `number_of_commands` commands from
/// `lines`, which holds what the server sends, a line in each element.
pub fn read_commands(
    lines: &[Vec<u8>],
    number_of_commands: usize,
    last_expected_x: u16,
    last_expected_y: u16,
) -> (result: Result<Vec<PixelflutResponse>, ClientError>)
    ensures
        match replies_read(
            field_views(lines@),
            number_of_commands as nat,
            last_expected_x,
            last_expected_y,
        ) {
            Ok(replies) => result is Ok && result->Ok_0@ == replies,
            Err(error) => result == Err::<Vec<PixelflutResponse>, ClientError>(error),
        },
{
    read_batch(lines, ReplyReader::new(number_of_commands, last_expected_x, last_expected_y))
}

/// What reading the replies to the batch `commands` gives, where `lines` is
/// all that the server sends.
pub open spec fn batch_replies_read(lines: Seq<Seq<u8>>, commands: Seq<PixelflutRequest>) -> Result<
    Seq<PixelflutResponse>,
    ClientError,
> {
    replies_read(
        lines,
        expected_replies(commands),
        last_requested(commands).0,
        last_requested(commands).1,
    )
}

/// What asking for the canvas size gives, where `lines` is all that the
/// server sends in reply: the size, if the first line reports one. A first
/// line that is no reply, or no line at all, is a protocol error; a reply of
/// another kind is an unexpected reply.
pub open spec fn screen_size_read(lines: Seq<Seq<u8>>) -> Result<(u16, u16), ClientError> {
    if lines.len() == 0 {
        Err(ClientError::ProtocolError)
    } else {
        match decode_response(lines.first()) {
            None => Err(ClientError::ProtocolError),
            Some(PixelflutResponse::Size { width, height }) => Ok((width, height)),
            Some(PixelflutResponse::Pixel { x, y, rgb }) => Err(ClientError::UnexpectedReplyKind),
        }
    }
}

/// The batch that asks for the canvas size: the one command `SIZE`.
pub fn screen_size_commands() -> (commands: Vec<PixelflutRequest>)
    ensures
        commands@ == seq![PixelflutRequest::GetSize],
{
    let mut commands: Vec<PixelflutRequest> = Vec::new();
    commands.push(PixelflutRequest::GetSize);
    assert(commands@ =~= seq![PixelflutRequest::GetSize]);
    commands
}

/// The size that the first of `replies` reports. Anything else in its place
/// is an unexpected reply.
pub open spec fn screen_size_of(replies: Seq<PixelflutResponse>) -> Result<(u16, u16), ClientError> {
    if replies.len() > 0 && replies[0] is Size {
        Ok((replies[0]->width, replies[0]->height))
    } else {
        Err(ClientError::UnexpectedReplyKind)
    }
}

/// The size that the first of `replies` reports. Anything else in its place
/// is an unexpected reply.
pub fn screen_size_from_replies(replies: &[PixelflutResponse]) -> (result: Result<
    (u16, u16),
    ClientError,
>)
    ensures
        result == screen_size_of(replies@),
{
    if replies.len() == 0 {
        return Err(ClientError::UnexpectedReplyKind);
    }
    match replies[0] {
        PixelflutResponse::Size { width, height } => Ok((width, height)),
        PixelflutResponse::Pixel { x, y, rgb } => Err(ClientError::UnexpectedReplyKind),
    }
}

/// Asks for the canvas size, where `lines` holds what the server sends in
/// reply to the batch of `screen_size_commands`: the replies are read as the
/// replies to that batch, which awaits one, and the size is that of the
/// reply. So the first line alone decides, as `screen_size_read` says.
pub fn get_screen_size(lines: &[Vec<u8>]) -> (result: Result<(u16, u16), ClientError>)
    ensures
        result == match batch_replies_read(
            field_views(lines@),
            seq![PixelflutRequest::GetSize],
        ) {
            Ok(replies) => screen_size_of(replies),
            Err(error) => Err(error),
        },
        result == screen_size_read(field_views(lines@)),
{
    let commands = screen_size_commands();
    proof {
        let all = field_views(lines@);
        let batch = seq![PixelflutRequest::GetSize];
        assert(batch.drop_last() =~= Seq::<PixelflutRequest>::empty());
        assert(batch.last() == PixelflutRequest::GetSize);
        assert(expected_replies(batch.drop_last()) == 0);
        assert(last_requested(batch.drop_last()) == (0u16, 0u16));
        assert(expected_replies(batch) == 1);
        assert(last_requested(batch) == (0u16, 0u16));
        assert(replies_read(all.drop_first(), 0, 0, 0) == Ok::<
            Seq<PixelflutResponse>,
            ClientError,
        >(Seq::empty()));
        if all.len() > 0 && decode_response(all.first()) is Some {
            let reply = decode_response(all.first())->0;
            assert(seq![reply] + Seq::<PixelflutResponse>::empty() =~= seq![reply]);
        }
    }
    match read_batch(lines, ReplyReader::for_commands(commands.as_slice())) {
        Err(error) => Err(error),
        Ok(replies) => screen_size_from_replies(replies.as_slice()),
    }
}

/// The colour that `replies` report for `(x, y)`: that of the last reply
/// about the pixel, and 0 where there is none.
pub open spec fn reported_color(replies: Seq<PixelflutResponse>, x: int, y: int) -> u32
    decreases replies.len(),
{
    if replies.len() == 0 {
        0
    } else {
        match replies.last() {
            PixelflutResponse::Pixel { x: reply_x, y: reply_y, rgb } => if reply_x == x && reply_y
                == y {
                rgb
            } else {
                reported_color(replies.drop_last(), x, y)
            },
            _ => reported_color(replies.drop_last(), x, y),
        }
    }
}

/// Whether `reply` reports a pixel that was asked for.
pub open spec fn answers_query(reply: PixelflutResponse, asked: spec_fn(int, int) -> bool) -> bool {
    match reply {
        PixelflutResponse::Pixel { x, y, rgb } => asked(x as int, y as int),
        PixelflutResponse::Size { width, height } => false,
    }
}

/// Whether each of `replies` reports a pixel that was asked for.
pub open spec fn all_answer_query(
    replies: Seq<PixelflutResponse>,
    asked: spec_fn(int, int) -> bool,
) -> bool {
    forall|k: int| 0 <= k < replies.len() ==> answers_query(#[trigger] replies[k], asked)
}

/// The query for cell `(i, j)` of a rectangle whose top left corner is at
/// `(x_offset, y_offset)`: its pixel, if the cell lies on the canvas.
pub open spec fn rect_query_cell(
    x_offset: i16,
    y_offset: i16,
    screen_width: u16,
    screen_height: u16,
) -> spec_fn(int, int) -> Option<PixelflutRequest> {
    |i: int, j: int|
        if on_screen(x_offset + i, y_offset + j, screen_width as int, screen_height as int) {
            Some(
                PixelflutRequest::GetPixel { x: (x_offset + i) as u16, y: (y_offset + j) as u16 },
            )
        } else {
            None
        }
}

/// The pixels that sampling a rectangle asks for: those of the rectangle
/// that lie on the canvas.
pub open spec fn rect_asked(
    x_offset: i16,
    y_offset: i16,
    width: u16,
    height: u16,
    screen_width: u16,
    screen_height: u16,
) -> spec_fn(int, int) -> bool {
    |x: int, y: int|
        x_offset <= x < x_offset + width && y_offset <= y < y_offset + height && on_screen(
            x,
            y,
            screen_width as int,
            screen_height as int,
        )
}

/// The batch that samples a rectangle of the canvas: a query for every cell
/// of the rectangle that lies on the canvas, column by column. The corner
/// `(x_offset, y_offset)` may lie off the canvas.
pub fn screen_rect_commands(
    x_offset: i16,
    y_offset: i16,
    width: u16,
    height: u16,
    screen_width: u16,
    screen_height: u16,
) -> (commands: Vec<PixelflutRequest>)
    ensures
        commands@ == scan_grid(
            rect_query_cell(x_offset, y_offset, screen_width, screen_height),
            width as nat,
            height as nat,
        ),
{
    let ghost cell = rect_query_cell(x_offset, y_offset, screen_width, screen_height);
    let mut commands: Vec<PixelflutRequest> = Vec::new();
    let mut i: u16 = 0;
    while i < width
        invariant
            i <= width,
            cell == rect_query_cell(x_offset, y_offset, screen_width, screen_height),
            commands@ == scan_grid(cell, i as nat, height as nat),
        decreases width - i,
    {
        let x: i32 = x_offset as i32 + i as i32;
        let mut j: u16 = 0;
        while j < height
            invariant
                i < width,
                j <= height,
                x == x_offset + i,
                cell == rect_query_cell(x_offset, y_offset, screen_width, screen_height),
                commands@ == scan_grid(cell, i as nat, height as nat) + scan_column(
                    cell,
                    i as int,
                    j as nat,
                ),
            decreases height - j,
        {
            let y: i32 = y_offset as i32 + j as i32;
            if x >= 0 && x < screen_width as i32 && y >= 0 && y < screen_height as i32 {
                commands.push(PixelflutRequest::GetPixel { x: x as u16, y: y as u16 });
            }
            j += 1;
        }
        i += 1;
    }
    commands
}

/// The grid that sampling a rectangle gives, from the replies to
/// `screen_rect_commands`: cell `(i, j)` holds the colour that the replies
/// report for the pixel `(x_offset + i, y_offset + j)`. A cell off the canvas
/// holds 0. A reply that reports no pixel of the rectangle on the canvas is
/// unexpected.
pub fn screen_rect_from_replies(
    replies: &[PixelflutResponse],
    x_offset: i16,
    y_offset: i16,
    width: u16,
    height: u16,
    screen_width: u16,
    screen_height: u16,
) -> (result: Result<Vec<Vec<u32>>, ClientError>)
    ensures
        result is Ok <==> all_answer_query(
            replies@,
            rect_asked(x_offset, y_offset, width, height, screen_width, screen_height),
        ),
        result is Err ==> result == Err::<Vec<Vec<u32>>, ClientError>(
            ClientError::UnexpectedReplyKind,
        ),
        result matches Ok(grid) ==> {
            &&& has_shape(grid@, width as int, height as int)
            &&& forall|i: int, j: int|
                0 <= i < width && 0 <= j < height ==> (#[trigger] grid[i][j]) == reported_color(
                    replies@,
                    x_offset + i,
                    y_offset + j,
                )
            &&& forall|i: int, j: int|
                0 <= i < width && 0 <= j < height && !on_screen(
                    x_offset + i,
                    y_offset + j,
                    screen_width as int,
                    screen_height as int,
                ) ==> (#[trigger] grid[i][j]) == 0
        },
{
    let ghost asked = rect_asked(x_offset, y_offset, width, height, screen_width, screen_height);
    let mut grid = filled_grid(width as usize, height as usize, 0);
    let mut k: usize = 0;
    assert(replies@.take(0) =~= Seq::<PixelflutResponse>::empty());
    while k < replies.len()
        invariant
            k <= replies.len(),
            asked == rect_asked(x_offset, y_offset, width, height, screen_width, screen_height),
            has_shape(grid@, width as int, height as int),
            all_answer_query(replies@.take(k as int), asked),
            forall|i: int, j: int|
                0 <= i < width && 0 <= j < height ==> (#[trigger] grid[i][j]) == reported_color(
                    replies@.take(k as int),
                    x_offset + i,
                    y_offset + j,
                ),
            forall|i: int, j: int|
                0 <= i < width && 0 <= j < height && !on_screen(
                    x_offset + i,
                    y_offset + j,
                    screen_width as int,
                    screen_height as int,
                ) ==> (#[trigger] grid[i][j]) == 0,
        decreases replies.len() - k,
    {
        assert(replies@.take(k + 1).drop_last() =~= replies@.take(k as int));
        assert(replies@.take(k + 1).last() == replies@[k as int]);
        match replies[k] {
            PixelflutResponse::Pixel { x, y, rgb } => {
                let column: i32 = x as i32 - x_offset as i32;
                let row: i32 = y as i32 - y_offset as i32;
                if column < 0 || column >= width as i32 || row < 0 || row >= height as i32 || x
                    >= screen_width || y >= screen_height {
                    assert(!answers_query(replies@[k as int], asked));
                    return Err(ClientError::UnexpectedReplyKind);
                }
                grid[column as usize][row as usize] = rgb;
            },
            PixelflutResponse::Size { width, height } => {
                assert(!answers_query(replies@[k as int], asked));
                return Err(ClientError::UnexpectedReplyKind);
            },
        }
        assert forall|n: int| 0 <= n < k + 1 implies answers_query(
            #[trigger] replies@.take(k + 1)[n],
            asked,
        ) by {
            if n < k {
                assert(replies@.take(k as int)[n] == replies@.take(k + 1)[n]);
            }
        }
        k += 1;
    }
    assert(replies@.take(replies.len() as int) =~= replies@);
    Ok(grid)
}

/// The pixels of the mask that a query consults, if it consults one.
pub open spec fn mask_pixels(field_hitbox: Option<&Picture>) -> Option<Seq<Seq<Seq<u8>>>> {
    match field_hitbox {
        Some(image) => Some(image@),
        None => None,
    }
}

/// Whether the mask settles `(x, y)` without a look at the canvas: it is
/// there, and it says that an obstacle stands at the pixel.
pub open spec fn is_masked(mask: Option<Seq<Seq<Seq<u8>>>>, x: int, y: int) -> bool {
    match mask {
        Some(pixels) => hitbox_at(pixels, x, y) == HitboxKind::Obstacle,
        None => false,
    }
}

/// The query for a ring coordinate: none where the mask settles it.
pub open spec fn donut_query(mask: Option<Seq<Seq<Seq<u8>>>>) -> spec_fn((u16, u16)) -> Option<
    PixelflutRequest,
> {
    |coordinate: (u16, u16)|
        if is_masked(mask, coordinate.0 as int, coordinate.1 as int) {
            None
        } else {
            Some(PixelflutRequest::GetPixel { x: coordinate.0, y: coordinate.1 })
        }
}

/// The pixels that sampling a ring asks for: those of the square around the
/// centre that are on the canvas and in the ring, and that the mask does not
/// settle.
pub open spec fn donut_asked(
    mask: Option<Seq<Seq<Seq<u8>>>>,
    x_center: i16,
    y_center: i16,
    inner_circle_radius: u16,
    outer_circle_radius: u16,
    screen_width: u16,
    screen_height: u16,
) -> spec_fn(int, int) -> bool {
    |x: int, y: int|
        {
            &&& x_center - outer_circle_radius <= x < x_center + outer_circle_radius
            &&& y_center - outer_circle_radius <= y < y_center + outer_circle_radius
            &&& is_donut_coordinate(
                x,
                y,
                x_center,
                y_center,
                inner_circle_radius,
                outer_circle_radius,
                screen_width,
                screen_height,
            )
            &&& !is_masked(mask, x, y)
        }
}

/// The colour of the pixel `(x, y)` in a sample of a ring: the target colour
/// where the mask says that an obstacle stands, else what the replies report,
/// and 0 off the canvas and outside the ring.
pub open spec fn donut_color(
    replies: Seq<PixelflutResponse>,
    mask: Option<Seq<Seq<Seq<u8>>>>,
    x: int,
    y: int,
    x_center: i16,
    y_center: i16,
    inner_circle_radius: u16,
    outer_circle_radius: u16,
    screen_width: u16,
    screen_height: u16,
) -> u32 {
    if is_donut_coordinate(
        x,
        y,
        x_center,
        y_center,
        inner_circle_radius,
        outer_circle_radius,
        screen_width,
        screen_height,
    ) {
        if is_masked(mask, x, y) {
            TARGET_COLOR
        } else {
            reported_color(replies, x, y)
        }
    } else {
        0
    }
}

/// Whether the mask settles the canvas pixel `(x, y)`.
fn masked(field_hitbox: Option<&Picture>, x: u16, y: u16) -> (yes: bool)
    ensures
        yes == is_masked(mask_pixels(field_hitbox), x as int, y as int),
{
    match field_hitbox {
        Some(image) => hitbox_lookup(image, x, y) == HitboxKind::Obstacle,
        None => false,
    }
}

/// The batch that samples a ring of the canvas around
/// `(x_center, y_center)`: a query for every ring coordinate that
/// `field_hitbox` does not settle, in the order of the coordinates. No query
/// leaves the canvas or the ring.
pub fn screen_donut_commands(
    x_center: i16,
    y_center: i16,
    inner_circle_radius: u16,
    outer_circle_radius: u16,
    screen_width: u16,
    screen_height: u16,
    field_hitbox: Option<&Picture>,
) -> (commands: Vec<PixelflutRequest>)
    ensures
        commands@ == scan_seq(
            donut_coordinates(
                x_center,
                y_center,
                inner_circle_radius,
                outer_circle_radius,
                screen_width,
                screen_height,
            ),
            donut_query(mask_pixels(field_hitbox)),
        ),
        forall|k: int|
            0 <= k < commands.len() ==> {
                &&& (#[trigger] commands[k]) is GetPixel
                &&& is_donut_coordinate(
                    commands[k]->GetPixel_x as int,
                    commands[k]->GetPixel_y as int,
                    x_center,
                    y_center,
                    inner_circle_radius,
                    outer_circle_radius,
                    screen_width,
                    screen_height,
                )
            },
{
    let ghost pick = donut_query(mask_pixels(field_hitbox));
    let coordinates = get_donut_coordinates(
        x_center,
        y_center,
        inner_circle_radius,
        outer_circle_radius,
        screen_width,
        screen_height,
    );
    let mut commands: Vec<PixelflutRequest> = Vec::new();
    let mut k: usize = 0;
    assert(coordinates@.take(0) =~= Seq::<(u16, u16)>::empty());
    while k < coordinates.len()
        invariant
            k <= coordinates.len(),
            pick == donut_query(mask_pixels(field_hitbox)),
            forall|n: int|
                0 <= n < coordinates.len() ==> is_donut_coordinate(
                    (#[trigger] coordinates[n]).0 as int,
                    coordinates[n].1 as int,
                    x_center,
                    y_center,
                    inner_circle_radius,
                    outer_circle_radius,
                    screen_width,
                    screen_height,
                ),
            commands@ == scan_seq(coordinates@.take(k as int), pick),
            forall|n: int|
                0 <= n < commands.len() ==> {
                    &&& (#[trigger] commands[n]) is GetPixel
                    &&& is_donut_coordinate(
                        commands[n]->GetPixel_x as int,
                        commands[n]->GetPixel_y as int,
                        x_center,
                        y_center,
                        inner_circle_radius,
                        outer_circle_radius,
                        screen_width,
                        screen_height,
                    )
                },
        decreases coordinates.len() - k,
    {
        assert(coordinates@.take(k + 1).drop_last() =~= coordinates@.take(k as int));
        assert(coordinates@.take(k + 1).last() == coordinates@[k as int]);
        let (x, y) = coordinates[k];
        if !masked(field_hitbox, x, y) {
            commands.push(PixelflutRequest::GetPixel { x, y });
        }
        k += 1;
    }
    assert(coordinates@.take(coordinates.len() as int) =~= coordinates@);
    commands
}

/// The grid that sampling a ring gives, from the replies to
/// `screen_donut_commands`. It has `2 * outer_circle_radius` columns and
/// rows, and the centre of the ring in its middle: cell `(i, j)` stands for
/// the pixel `(x_center - outer_circle_radius + i, y_center -
/// outer_circle_radius + j)` and holds its `donut_color`. A reply that
/// reports no pixel that was asked for is unexpected.
pub fn screen_donut_from_replies(
    replies: &[PixelflutResponse],
    x_center: i16,
    y_center: i16,
    inner_circle_radius: u16,
    outer_circle_radius: u16,
    screen_width: u16,
    screen_height: u16,
    field_hitbox: Option<&Picture>,
) -> (result: Result<Vec<Vec<u32>>, ClientError>)
    ensures
        result is Ok <==> all_answer_query(
            replies@,
            donut_asked(
                mask_pixels(field_hitbox),
                x_center,
                y_center,
                inner_circle_radius,
                outer_circle_radius,
                screen_width,
                screen_height,
            ),
        ),
        result is Err ==> result == Err::<Vec<Vec<u32>>, ClientError>(
            ClientError::UnexpectedReplyKind,
        ),
        result matches Ok(grid) ==> {
            &&& has_shape(grid@, 2 * outer_circle_radius, 2 * outer_circle_radius)
            &&& forall|i: int, j: int|
                0 <= i < 2 * outer_circle_radius && 0 <= j < 2 * outer_circle_radius ==> (
                #[trigger] grid[i][j]) == donut_color(
                    replies@,
                    mask_pixels(field_hitbox),
                    x_center - outer_circle_radius + i,
                    y_center - outer_circle_radius + j,
                    x_center,
                    y_center,
                    inner_circle_radius,
                    outer_circle_radius,
                    screen_width,
                    screen_height,
                )
        },
{
    let ghost mask = mask_pixels(field_hitbox);
    let ghost asked = donut_asked(
        mask,
        x_center,
        y_center,
        inner_circle_radius,
        outer_circle_radius,
        screen_width,
        screen_height,
    );
    let ghost none = Seq::<PixelflutResponse>::empty();
    let side: u32 = 2 * outer_circle_radius as u32;
    let mut grid = filled_grid(side as usize, side as usize, 0);
    let mut i: u32 = 0;
    while i < side
        invariant
            i <= side,
            side == 2 * outer_circle_radius,
            mask == mask_pixels(field_hitbox),
            none == Seq::<PixelflutResponse>::empty(),
            has_shape(grid@, side as int, side as int),
            forall|a: int, b: int|
                0 <= a < i && 0 <= b < side ==> (#[trigger] grid[a][b]) == donut_color(
                    none,
                    mask,
                    x_center - outer_circle_radius + a,
                    y_center - outer_circle_radius + b,
                    x_center,
                    y_center,
                    inner_circle_radius,
                    outer_circle_radius,
                    screen_width,
                    screen_height,
                ),
            forall|a: int, b: int| i <= a < side && 0 <= b < side ==> (#[trigger] grid[a][b]) == 0,
        decreases side - i,
    {
        let mut j: u32 = 0;
        while j < side
            invariant
                i < side,
                j <= side,
                side == 2 * outer_circle_radius,
                mask == mask_pixels(field_hitbox),
                none == Seq::<PixelflutResponse>::empty(),
                has_shape(grid@, side as int, side as int),
                forall|a: int, b: int|
                    0 <= a < i && 0 <= b < side ==> (#[trigger] grid[a][b]) == donut_color(
                        none,
                        mask,
                        x_center - outer_circle_radius + a,
                        y_center - outer_circle_radius + b,
                        x_center,
                        y_center,
                        inner_circle_radius,
                        outer_circle_radius,
                        screen_width,
                        screen_height,
                    ),
                forall|b: int|
                    0 <= b < j ==> (#[trigger] grid[i as int][b]) == donut_color(
                        none,
                        mask,
                        x_center - outer_circle_radius + i,
                        y_center - outer_circle_radius + b,
                        x_center,
                        y_center,
                        inner_circle_radius,
                        outer_circle_radius,
                        screen_width,
                        screen_height,
                    ),
                forall|b: int| j <= b < side ==> (#[trigger] grid[i as int][b]) == 0,
                forall|a: int, b: int|
                    i < a < side && 0 <= b < side ==> (#[trigger] grid[a][b]) == 0,
            decreases side - j,
        {
            match donut_cell_at(
                i,
                j,
                x_center,
                y_center,
                inner_circle_radius,
                outer_circle_radius,
                screen_width,
                screen_height,
            ) {
                Some((x, y)) => {
                    if masked(field_hitbox, x, y) {
                        grid[i as usize][j as usize] = TARGET_COLOR;
                    }
                },
                None => {},
            }
            j += 1;
        }
        i += 1;
    }
    let mut k: usize = 0;
    assert(replies@.take(0) =~= none);
    while k < replies.len()
        invariant
            k <= replies.len(),
            side == 2 * outer_circle_radius,
            mask == mask_pixels(field_hitbox),
            asked == donut_asked(
                mask,
                x_center,
                y_center,
                inner_circle_radius,
                outer_circle_radius,
                screen_width,
                screen_height,
            ),
            has_shape(grid@, side as int, side as int),
            all_answer_query(replies@.take(k as int), asked),
            forall|a: int, b: int|
                0 <= a < side && 0 <= b < side ==> (#[trigger] grid[a][b]) == donut_color(
                    replies@.take(k as int),
                    mask,
                    x_center - outer_circle_radius + a,
                    y_center - outer_circle_radius + b,
                    x_center,
                    y_center,
                    inner_circle_radius,
                    outer_circle_radius,
                    screen_width,
                    screen_height,
                ),
        decreases replies.len() - k,
    {
        assert(replies@.take(k + 1).drop_last() =~= replies@.take(k as int));
        assert(replies@.take(k + 1).last() == replies@[k as int]);
        match replies[k] {
            PixelflutResponse::Pixel { x, y, rgb } => {
                let column: i64 = x as i64 - (x_center as i64 - outer_circle_radius as i64);
                let row: i64 = y as i64 - (y_center as i64 - outer_circle_radius as i64);
                if column < 0 || column >= side as i64 || row < 0 || row >= side as i64 {
                    assert(!answers_query(replies@[k as int], asked));
                    return Err(ClientError::UnexpectedReplyKind);
                }
                let cell = donut_cell_at(
                    column as u32,
                    row as u32,
                    x_center,
                    y_center,
                    inner_circle_radius,
                    outer_circle_radius,
                    screen_width,
                    screen_height,
                );
                if cell.is_none() || masked(field_hitbox, x, y) {
                    assert(!answers_query(replies@[k as int], asked));
                    return Err(ClientError::UnexpectedReplyKind);
                }
                grid[column as usize][row as usize] = rgb;
            },
            PixelflutResponse::Size { width, height } => {
                assert(!answers_query(replies@[k as int], asked));
                return Err(ClientError::UnexpectedReplyKind);
            },
        }
        assert forall|n: int| 0 <= n < k + 1 implies answers_query(
            #[trigger] replies@.take(k + 1)[n],
            asked,
        ) by {
            if n < k {
                assert(replies@.take(k as int)[n] == replies@.take(k + 1)[n]);
            }
        }
        k += 1;
    }
    assert(replies@.take(replies.len() as int) =~= replies@);
    Ok(grid)
}

/// Whether `reply` reports the pixel that `command` asks for.
pub open spec fn reports_pixel_of(command: PixelflutRequest, reply: PixelflutResponse) -> bool {
    match (command, reply) {
        (
            PixelflutRequest::GetPixel { x, y },
            PixelflutResponse::Pixel { x: reply_x, y: reply_y, rgb },
        ) => x == reply_x && y == reply_y,
        _ => false,
    }
}

/// Samples a rectangle of the canvas, where `lines` holds what the server
/// sends in reply to the batch of `screen_rect_commands`: the replies are
/// read as the replies to that batch, and the grid is put together from them
/// as `screen_rect_from_replies` does.
pub fn get_screen_rect(
    lines: &[Vec<u8>],
    x_offset: i16,
    y_offset: i16,
    width: u16,
    height: u16,
    screen_width: u16,
    screen_height: u16,
) -> (result: Result<Vec<Vec<u32>>, ClientError>)
    ensures
        match batch_replies_read(
            field_views(lines@),
            scan_grid(
                rect_query_cell(x_offset, y_offset, screen_width, screen_height),
                width as nat,
                height as nat,
            ),
        ) {
            Err(error) => result == Err::<Vec<Vec<u32>>, ClientError>(error),
            Ok(replies) => {
                &&& result is Ok <==> all_answer_query(
                    replies,
                    rect_asked(x_offset, y_offset, width, height, screen_width, screen_height),
                )
                &&& result is Err ==> result == Err::<Vec<Vec<u32>>, ClientError>(
                    ClientError::UnexpectedReplyKind,
                )
                &&& result matches Ok(grid) ==> {
                    &&& has_shape(grid@, width as int, height as int)
                    &&& forall|i: int, j: int|
                        0 <= i < width && 0 <= j < height ==> (#[trigger] grid[i][j])
                            == reported_color(replies, x_offset + i, y_offset + j)
                    &&& forall|i: int, j: int|
                        0 <= i < width && 0 <= j < height && !on_screen(
                            x_offset + i,
                            y_offset + j,
                            screen_width as int,
                            screen_height as int,
                        ) ==> (#[trigger] grid[i][j]) == 0
                }
            },
        },
{
    let commands = screen_rect_commands(
        x_offset,
        y_offset,
        width,
        height,
        screen_width,
        screen_height,
    );
    match read_batch(lines, ReplyReader::for_commands(commands.as_slice())) {
        Err(error) => Err(error),
        Ok(replies) => screen_rect_from_replies(
            replies.as_slice(),
            x_offset,
            y_offset,
            width,
            height,
            screen_width,
            screen_height,
        ),
    }
}

/// Samples a ring of the canvas, where `lines` holds what the server sends
/// in reply to the batch of `screen_donut_commands`: the replies are read as
/// the replies to that batch, and the grid is put together from them as
/// `screen_donut_from_replies` does.
pub fn get_screen_donut(
    lines: &[Vec<u8>],
    x_center: i16,
    y_center: i16,
    inner_circle_radius: u16,
    outer_circle_radius: u16,
    screen_width: u16,
    screen_height: u16,
    field_hitbox: Option<&Picture>,
) -> (result: Result<Vec<Vec<u32>>, ClientError>)
    ensures
        match batch_replies_read(
            field_views(lines@),
            scan_seq(
                donut_coordinates(
                    x_center,
                    y_center,
                    inner_circle_radius,
                    outer_circle_radius,
                    screen_width,
                    screen_height,
                ),
                donut_query(mask_pixels(field_hitbox)),
            ),
        ) {
            Err(error) => result == Err::<Vec<Vec<u32>>, ClientError>(error),
            Ok(replies) => {
                &&& result is Ok <==> all_answer_query(
                    replies,
                    donut_asked(
                        mask_pixels(field_hitbox),
                        x_center,
                        y_center,
                        inner_circle_radius,
                        outer_circle_radius,
                        screen_width,
                        screen_height,
                    ),
                )
                &&& result is Err ==> result == Err::<Vec<Vec<u32>>, ClientError>(
                    ClientError::UnexpectedReplyKind,
                )
                &&& result matches Ok(grid) ==> {
                    &&& has_shape(grid@, 2 * outer_circle_radius, 2 * outer_circle_radius)
                    &&& forall|i: int, j: int|
                        0 <= i < 2 * outer_circle_radius && 0 <= j < 2 * outer_circle_radius ==> (
                        #[trigger] grid[i][j]) == donut_color(
                            replies,
                            mask_pixels(field_hitbox),
                            x_center - outer_circle_radius + i,
                            y_center - outer_circle_radius + j,
                            x_center,
                            y_center,
                            inner_circle_radius,
                            outer_circle_radius,
                            screen_width,
                            screen_height,
                        )
                }
            },
        },
{
    let commands = screen_donut_commands(
        x_center,
        y_center,
        inner_circle_radius,
        outer_circle_radius,
        screen_width,
        screen_height,
        field_hitbox,
    );
    match read_batch(lines, ReplyReader::for_commands(commands.as_slice())) {
        Err(error) => Err(error),
        Ok(replies) => screen_donut_from_replies(
            replies.as_slice(),
            x_center,
            y_center,
            inner_circle_radius,
            outer_circle_radius,
            screen_width,
            screen_height,
            field_hitbox,
        ),
    }
}

/// Whether one of `replies` reports the pixel `(x, y)` with the colour that
/// is reported for the pixel on the whole.
pub open spec fn holds_own_reply(replies: Seq<PixelflutResponse>, x: int, y: int) -> bool {
    exists|k: int|
        0 <= k < replies.len() && #[trigger] replies[k] == (PixelflutResponse::Pixel {
            x: x as u16,
            y: y as u16,
            rgb: reported_color(replies, x, y),
        })
}

/// Whether `replies` answer the pixel queries `commands` one for one and in
/// their order, as a server does that keeps to the protocol.
pub open spec fn answers_in_order(
    commands: Seq<PixelflutRequest>,
    replies: Seq<PixelflutResponse>,
) -> bool {
    &&& replies.len() == commands.len()
    &&& forall|k: int|
        0 <= k < commands.len() ==> reports_pixel_of(#[trigger] commands[k], replies[k])
}

/// Where no reply reports a pixel, the reported colour is 0.
pub proof fn lemma_unreported_is_zero(replies: Seq<PixelflutResponse>, x: int, y: int)
    requires
        forall|k: int|
            0 <= k < replies.len() ==> !((#[trigger] replies[k]) is Pixel && replies[k]->x == x
                && replies[k]->y == y),
    ensures
        reported_color(replies, x, y) == 0,
    decreases replies.len(),
{
    if replies.len() > 0 {
        let shorter = replies.drop_last();
        assert forall|k: int| 0 <= k < shorter.len() implies !((#[trigger] shorter[k]) is Pixel
            && shorter[k]->x == x && shorter[k]->y == y) by {
            assert(shorter[k] == replies[k]);
        }
        lemma_unreported_is_zero(shorter, x, y);
        assert(replies.last() == replies[replies.len() - 1]);
    }
}

/// Where a batch asks for no pixel twice and the replies answer it in order,
/// the colour reported for the pixel of a query is that of its own reply.
pub proof fn lemma_reply_is_reported(
    commands: Seq<PixelflutRequest>,
    replies: Seq<PixelflutResponse>,
    k: int,
)
    requires
        commands.no_duplicates(),
        answers_in_order(commands, replies),
        0 <= k < replies.len(),
    ensures
        replies[k] is Pixel,
        reported_color(replies, replies[k]->x as int, replies[k]->y as int) == replies[k]->rgb,
    decreases replies.len(),
{
    let last = replies.len() - 1;
    assert(reports_pixel_of(commands[k], replies[k]));
    assert(reports_pixel_of(commands[last], replies[last]));
    assert(replies.last() == replies[last]);
    if k < last {
        let fewer = commands.drop_last();
        let shorter = replies.drop_last();
        assert(commands[k] != commands[last]);
        assert(fewer.no_duplicates()) by {
            assert forall|i: int, j: int|
                0 <= i < fewer.len() && 0 <= j < fewer.len() && i != j implies fewer[i]
                != fewer[j] by {
                assert(fewer[i] == commands[i] && fewer[j] == commands[j]);
            }
        }
        assert(answers_in_order(fewer, shorter)) by {
            assert forall|n: int| 0 <= n < fewer.len() implies reports_pixel_of(
                #[trigger] fewer[n],
                shorter[n],
            ) by {
                assert(reports_pixel_of(commands[n], replies[n]));
            }
        }
        lemma_reply_is_reported(fewer, shorter, k);
        assert(shorter[k] == replies[k]);
    }
}

proof fn lemma_rect_query_cell(
    x_offset: i16,
    y_offset: i16,
    screen_width: u16,
    screen_height: u16,
)
    ensures
        gives_each_once(rect_query_cell(x_offset, y_offset, screen_width, screen_height)),
{
    let cell = rect_query_cell(x_offset, y_offset, screen_width, screen_height);
    assert forall|x: int, y: int, a: int, b: int|
        (#[trigger] cell(x, y)) is Some && cell(x, y) == #[trigger] cell(a, b) implies x == a && y
        == b by {
        assert(cell(x, y)->0->GetPixel_x == x_offset + x);
        assert(cell(a, b)->0->GetPixel_x == x_offset + a);
        assert(cell(x, y)->0->GetPixel_y == y_offset + y);
        assert(cell(a, b)->0->GetPixel_y == y_offset + b);
    }
}

/// Sampling a rectangle from a server that keeps to the protocol: if
/// `replies` answer the batch of `screen_rect_commands` in order, every reply
/// is one that was asked for, a cell on the canvas holds the colour of the
/// reply to its own query, and a cell off the canvas holds 0.
pub proof fn lemma_rect_sample_holds_replies(
    replies: Seq<PixelflutResponse>,
    x_offset: i16,
    y_offset: i16,
    width: u16,
    height: u16,
    screen_width: u16,
    screen_height: u16,
)
    requires
        answers_in_order(
            scan_grid(
                rect_query_cell(x_offset, y_offset, screen_width, screen_height),
                width as nat,
                height as nat,
            ),
            replies,
        ),
    ensures
        all_answer_query(
            replies,
            rect_asked(x_offset, y_offset, width, height, screen_width, screen_height),
        ),
        forall|i: int, j: int|
            0 <= i < width && 0 <= j < height && on_screen(
                x_offset + i,
                y_offset + j,
                screen_width as int,
                screen_height as int,
            ) ==> #[trigger] holds_own_reply(replies, x_offset + i, y_offset + j),
        forall|i: int, j: int|
            !on_screen(x_offset + i, y_offset + j, screen_width as int, screen_height as int)
                ==> #[trigger] reported_color(replies, x_offset + i, y_offset + j) == 0,
{
    let cell = rect_query_cell(x_offset, y_offset, screen_width, screen_height);
    let commands = scan_grid(cell, width as nat, height as nat);
    let asked = rect_asked(x_offset, y_offset, width, height, screen_width, screen_height);
    lemma_rect_commands_ask_once(x_offset, y_offset, width, height, screen_width, screen_height);
    assert forall|k: int| 0 <= k < replies.len() implies answers_query(
        #[trigger] replies[k],
        asked,
    ) by {
        assert(reports_pixel_of(commands[k], replies[k]));
        assert(commands.contains(commands[k]));
        lemma_scan_grid_contains(cell, width as nat, height as nat, commands[k]);
        let (i, j) = choose|i: int, j: int|
            0 <= i < width && 0 <= j < height && #[trigger] cell(i, j) == Some(commands[k]);
        assert(replies[k]->x == x_offset + i);
        assert(replies[k]->y == y_offset + j);
    }
    assert forall|i: int, j: int|
        0 <= i < width && 0 <= j < height && on_screen(
            x_offset + i,
            y_offset + j,
            screen_width as int,
            screen_height as int,
        ) implies #[trigger] holds_own_reply(replies, x_offset + i, y_offset + j) by {
        let command = cell(i, j)->0;
        lemma_scan_grid_contains(cell, width as nat, height as nat, command);
        assert(cell(i, j) == Some(command));
        assert(commands.contains(command));
        let k = choose|k: int| 0 <= k < commands.len() && commands[k] == command;
        assert(reports_pixel_of(commands[k], replies[k]));
        lemma_reply_is_reported(commands, replies, k);
        assert(replies[k] == (PixelflutResponse::Pixel {
            x: (x_offset + i) as u16,
            y: (y_offset + j) as u16,
            rgb: reported_color(replies, x_offset + i, y_offset + j),
        }));
    }
    assert forall|i: int, j: int|
        !on_screen(
            x_offset + i,
            y_offset + j,
            screen_width as int,
            screen_height as int,
        ) implies #[trigger] reported_color(replies, x_offset + i, y_offset + j) == 0 by {
        assert forall|k: int| 0 <= k < replies.len() implies !((#[trigger] replies[k]) is Pixel
            && replies[k]->x == x_offset + i && replies[k]->y == y_offset + j) by {
            assert(answers_query(replies[k], asked));
        }
        lemma_unreported_is_zero(replies, x_offset + i, y_offset + j);
    }
}

proof fn lemma_donut_cell(
    x_center: i16,
    y_center: i16,
    inner_circle_radius: u16,
    outer_circle_radius: u16,
    screen_width: u16,
    screen_height: u16,
)
    ensures
        gives_each_once(
            donut_cell(
                x_center,
                y_center,
                inner_circle_radius,
                outer_circle_radius,
                screen_width,
                screen_height,
            ),
        ),
{
    let cell = donut_cell(
        x_center,
        y_center,
        inner_circle_radius,
        outer_circle_radius,
        screen_width,
        screen_height,
    );
    assert forall|x: int, y: int, a: int, b: int|
        (#[trigger] cell(x, y)) is Some && cell(x, y) == #[trigger] cell(a, b) implies x == a && y
        == b by {
        let first = cell(x, y)->0;
        let second = cell(a, b)->0;
        assert(first.0 == x_center - outer_circle_radius + x);
        assert(second.0 == x_center - outer_circle_radius + a);
        assert(first.1 == y_center - outer_circle_radius + y);
        assert(second.1 == y_center - outer_circle_radius + b);
    }
}

/// Sampling a ring from a server that keeps to the protocol: if `replies`
/// answer the batch of `screen_donut_commands` in order, every reply is one
/// that was asked for, and every pixel that was asked for has the colour of
/// the reply to its own query.
pub proof fn lemma_donut_sample_holds_replies(
    replies: Seq<PixelflutResponse>,
    mask: Option<Seq<Seq<Seq<u8>>>>,
    x_center: i16,
    y_center: i16,
    inner_circle_radius: u16,
    outer_circle_radius: u16,
    screen_width: u16,
    screen_height: u16,
)
    requires
        answers_in_order(
            scan_seq(
                donut_coordinates(
                    x_center,
                    y_center,
                    inner_circle_radius,
                    outer_circle_radius,
                    screen_width,
                    screen_height,
                ),
                donut_query(mask),
            ),
            replies,
        ),
    ensures
        all_answer_query(
            replies,
            donut_asked(
                mask,
                x_center,
                y_center,
                inner_circle_radius,
                outer_circle_radius,
                screen_width,
                screen_height,
            ),
        ),
        forall|x: int, y: int|
            donut_asked(
                mask,
                x_center,
                y_center,
                inner_circle_radius,
                outer_circle_radius,
                screen_width,
                screen_height,
            )(x, y) ==> #[trigger] holds_own_reply(replies, x, y),
{
    let cell = donut_cell(
        x_center,
        y_center,
        inner_circle_radius,
        outer_circle_radius,
        screen_width,
        screen_height,
    );
    let side = 2 * outer_circle_radius as nat;
    let coordinates = scan_grid(cell, side, side);
    let pick = donut_query(mask);
    let commands = scan_seq(coordinates, pick);
    let asked = donut_asked(
        mask,
        x_center,
        y_center,
        inner_circle_radius,
        outer_circle_radius,
        screen_width,
        screen_height,
    );
    lemma_donut_commands_ask_once(
        mask,
        x_center,
        y_center,
        inner_circle_radius,
        outer_circle_radius,
        screen_width,
        screen_height,
    );
    assert forall|k: int| 0 <= k < replies.len() implies answers_query(
        #[trigger] replies[k],
        asked,
    ) by {
        assert(reports_pixel_of(commands[k], replies[k]));
        assert(commands.contains(commands[k]));
        lemma_scan_seq_contains(coordinates, pick, commands[k]);
        let n = choose|n: int|
            0 <= n < coordinates.len() && pick(#[trigger] coordinates[n]) == Some(commands[k]);
        let coordinate = coordinates[n];
        assert(coordinates.contains(coordinate));
        lemma_scan_grid_contains(cell, side, side, coordinate);
        let (i, j) = choose|i: int, j: int|
            0 <= i < side && 0 <= j < side && #[trigger] cell(i, j) == Some(coordinate);
        assert(replies[k]->x == x_center - outer_circle_radius + i);
        assert(replies[k]->y == y_center - outer_circle_radius + j);
    }
    assert forall|x: int, y: int| asked(x, y) implies #[trigger] holds_own_reply(
        replies,
        x,
        y,
    ) by {
        let i = x - (x_center - outer_circle_radius);
        let j = y - (y_center - outer_circle_radius);
        let coordinate = (x as u16, y as u16);
        assert(cell(i, j) == Some(coordinate));
        lemma_scan_grid_contains(cell, side, side, coordinate);
        assert(coordinates.contains(coordinate));
        let n = choose|n: int| 0 <= n < coordinates.len() && coordinates[n] == coordinate;
        let command = PixelflutRequest::GetPixel { x: x as u16, y: y as u16 };
        assert(pick(coordinates[n]) == Some(command));
        lemma_scan_seq_contains(coordinates, pick, command);
        assert(commands.contains(command));
        let k = choose|k: int| 0 <= k < commands.len() && commands[k] == command;
        assert(reports_pixel_of(commands[k], replies[k]));
        lemma_reply_is_reported(commands, replies, k);
        assert(replies[k] == (PixelflutResponse::Pixel {
            x: x as u16,
            y: y as u16,
            rgb: reported_color(replies, x, y),
        }));
    }
}

/// The batch that samples a rectangle asks for no pixel twice, so the reply
/// to its last query is the last reply.
pub proof fn lemma_rect_commands_ask_once(
    x_offset: i16,
    y_offset: i16,
    width: u16,
    height: u16,
    screen_width: u16,
    screen_height: u16,
)
    ensures
        scan_grid(
            rect_query_cell(x_offset, y_offset, screen_width, screen_height),
            width as nat,
            height as nat,
        ).no_duplicates(),
{
    lemma_rect_query_cell(x_offset, y_offset, screen_width, screen_height);
    lemma_scan_grid_no_duplicates(
        rect_query_cell(x_offset, y_offset, screen_width, screen_height),
        width as nat,
        height as nat,
    );
}

/// The batch that samples a ring asks for no pixel twice, so the reply to
/// its last query is the last reply.
pub proof fn lemma_donut_commands_ask_once(
    mask: Option<Seq<Seq<Seq<u8>>>>,
    x_center: i16,
    y_center: i16,
    inner_circle_radius: u16,
    outer_circle_radius: u16,
    screen_width: u16,
    screen_height: u16,
)
    ensures
        scan_seq(
            donut_coordinates(
                x_center,
                y_center,
                inner_circle_radius,
                outer_circle_radius,
                screen_width,
                screen_height,
            ),
            donut_query(mask),
        ).no_duplicates(),
{
    let cell = donut_cell(
        x_center,
        y_center,
        inner_circle_radius,
        outer_circle_radius,
        screen_width,
        screen_height,
    );
    let side = 2 * outer_circle_radius as nat;
    let pick = donut_query(mask);
    lemma_donut_cell(
        x_center,
        y_center,
        inner_circle_radius,
        outer_circle_radius,
        screen_width,
        screen_height,
    );
    lemma_scan_grid_no_duplicates(cell, side, side);
    assert forall|a: (u16, u16), b: (u16, u16)|
        (#[trigger] pick(a)) is Some && pick(a) == #[trigger] pick(b) implies a == b by {
        assert(pick(a)->0->GetPixel_x == a.0 && pick(a)->0->GetPixel_y == a.1);
        assert(pick(b)->0->GetPixel_x == b.0 && pick(b)->0->GetPixel_y == b.1);
    }
    lemma_scan_seq_no_duplicates(scan_grid(cell, side, side), pick);
}

} // verus!
