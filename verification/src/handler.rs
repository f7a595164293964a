//! Carrying out one request on the canvas, and the reply it gets.

use crate::canvas::Canvas;
use crate::canvas::Grid;
use crate::color::lower_hex;
use crate::color::push_lower_hex;
use crate::command::Command;
use crate::pixel::Pixel;
use crate::text::ascii;
use crate::text::decimal;
use crate::text::push_decimal;
use crate::text::push_text;
use vstd::prelude::*;

verus! {

/// The reply to `HELP`: the line `HELP`.
pub open spec fn help_reply() -> Seq<char> {
    seq!['H', 'E', 'L', 'P', '\n']
}

/// The reply to `SIZE`: the line `SIZE <width> <height>`, both in decimal.
pub open spec fn size_reply(width: nat, height: nat) -> Seq<char> {
    seq!['S', 'I', 'Z', 'E', ' '] + decimal(width) + seq![' '] + decimal(height) + seq!['\n']
}

/// The reply to a read of `(x, y)` that found `p`: the line
/// `PX <x> <y> <rrggbb>`, the coordinates in decimal and the colour as six
/// lower-case hexadecimal digits. The alpha of `p` is not part of it.
pub open spec fn pixel_reply(x: nat, y: nat, p: Pixel) -> Seq<char> {
    seq!['P', 'X', ' '] + decimal(x) + seq![' '] + decimal(y) + seq![' '] + lower_hex(p)
        + seq!['\n']
}

/// The text sent back for `cmd` on the canvas `g`; none where nothing is
/// sent: for every write, and for a read off the canvas.
pub open spec fn reply(g: Grid, cmd: Command) -> Option<Seq<char>> {
    match cmd {
        Command::Help => Some(help_reply()),
        Command::Size => Some(size_reply(g.width, g.height)),
        Command::GetPixel { x, y } => match g.get(x as nat, y as nat) {
            Some(p) => Some(pixel_reply(x as nat, y as nat, p)),
            None => None,
        },
        Command::SetPixel { .. } => None,
    }
}

/// The canvas after `cmd`. Only a write on the canvas changes it.
pub open spec fn step(g: Grid, cmd: Command) -> Grid {
    match cmd {
        Command::SetPixel { x, y, color } => g.set(x as nat, y as nat, color),
        _ => g,
    }
}

/// The canvas after the requests `cmds`, carried out one at a time in the
/// order of the sequence.
pub open spec fn run(g: Grid, cmds: Seq<Command>) -> Grid
    decreases cmds.len(),
{
    if cmds.len() == 0 {
        g
    } else {
        step(run(g, cmds.drop_last()), cmds.last())
    }
}

/// The bytes of the reply to `HELP`.
pub fn encode_help() -> (out: Vec<u8>)
    ensures
        out@ == ascii(help_reply()),
{
    let mut out: Vec<u8> = Vec::new();
    proof {
        reveal_strlit("HELP\n");
    }
    push_text(&mut out, "HELP\n");
    out
}

/// The bytes of the reply to `SIZE` for a canvas of `width` by `height`.
pub fn encode_size(width: usize, height: usize) -> (out: Vec<u8>)
    ensures
        out@ == ascii(size_reply(width as nat, height as nat)),
{
    let mut out: Vec<u8> = Vec::new();
    proof {
        reveal_strlit("SIZE ");
        reveal_strlit(" ");
        reveal_strlit("\n");
    }
    push_text(&mut out, "SIZE ");
    push_decimal(&mut out, width);
    push_text(&mut out, " ");
    push_decimal(&mut out, height);
    push_text(&mut out, "\n");
    out
}

/// The bytes of the reply to a read of `(x, y)` that found `p`.
pub fn encode_pixel(x: usize, y: usize, p: Pixel) -> (out: Vec<u8>)
    ensures
        out@ == ascii(pixel_reply(x as nat, y as nat, p)),
{
    let mut out: Vec<u8> = Vec::new();
    proof {
        reveal_strlit("PX ");
        reveal_strlit(" ");
        reveal_strlit("\n");
    }
    push_text(&mut out, "PX ");
    push_decimal(&mut out, x);
    push_text(&mut out, " ");
    push_decimal(&mut out, y);
    push_text(&mut out, " ");
    push_lower_hex(&mut out, p);
    push_text(&mut out, "\n");
    out
}

/// Carries out one request on the canvas and gives the bytes to send back,
/// if any. Requests are carried out one at a time: the canvas that one
/// request leaves is the canvas that the next one finds.
pub fn command_handler(canvas: &mut Canvas, cmd: Command) -> (out: Option<Vec<u8>>)
    requires
        old(canvas)@.wf(),
    ensures
        final(canvas)@ == step(old(canvas)@, cmd),
        final(canvas)@.wf(),
        reply(old(canvas)@, cmd) matches Some(text) ==> out matches Some(bytes) && bytes@
            == ascii(text),
        reply(old(canvas)@, cmd) is None ==> out is None,
{
    match cmd {
        Command::Help => Some(encode_help()),
        Command::Size => Some(encode_size(canvas.width(), canvas.height())),
        Command::GetPixel { x, y } => match canvas.get(x, y) {
            Some(p) => Some(encode_pixel(x, y, p)),
            None => None,
        },
        Command::SetPixel { x, y, color } => {
            canvas.set(x, y, color);
            None
        },
    }
}

} // verus!
