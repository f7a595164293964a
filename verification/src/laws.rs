//! What holds of every canvas and every sequence of requests.

use crate::canvas::lemma_slot_in_range;
use crate::canvas::lemma_slot_unique;
use crate::canvas::Grid;
use crate::color::color;
use crate::color::is_color_text;
use crate::color::is_hex_digit;
use crate::color::law_lower_hex_reads_back;
use crate::color::lower_hex;
use crate::color::with_hash;
use crate::command::get_pixel;
use crate::command::parse_line;
use crate::command::parse_tokens;
use crate::command::set_pixel;
use crate::command::Command;
use crate::command::ParseError;
use crate::handler::pixel_reply;
use crate::handler::reply;
use crate::handler::run;
use crate::handler::size_reply;
use crate::handler::step;
use crate::pixel::Pixel;
use crate::text::decimal;
use crate::text::law_decimal_reads_back;
use crate::text::lemma_decimal_digits;
use crate::token::is_whitespace;
use crate::token::lemma_tokens_after_whitespace;
use crate::token::lemma_tokens_after_word;
use crate::token::tokens;
use vstd::prelude::*;

verus! {

/// Whether `cmd` is a write at `(x, y)`.
pub open spec fn writes_to(cmd: Command, x: usize, y: usize) -> bool {
    match cmd {
        Command::SetPixel { x: cx, y: cy, .. } => cx == x && cy == y,
        _ => false,
    }
}

/// No request changes the size of the canvas, and a well-formed canvas
/// stays well formed.
pub proof fn lemma_step_keeps_shape(g: Grid, cmd: Command)
    ensures
        step(g, cmd).width == g.width,
        step(g, cmd).height == g.height,
        g.wf() ==> step(g, cmd).wf(),
{
    if let Command::SetPixel { x, y, color } = cmd {
        if g.wf() && g.contains(x as nat, y as nat) {
            lemma_slot_in_range(g, x as nat, y as nat);
        }
    }
}

/// No sequence of requests changes the size of the canvas, and a
/// well-formed canvas stays well formed.
pub proof fn lemma_run_keeps_shape(g: Grid, cmds: Seq<Command>)
    ensures
        run(g, cmds).width == g.width,
        run(g, cmds).height == g.height,
        g.wf() ==> run(g, cmds).wf(),
    decreases cmds.len(),
{
    if cmds.len() > 0 {
        lemma_run_keeps_shape(g, cmds.drop_last());
        lemma_step_keeps_shape(run(g, cmds.drop_last()), cmds.last());
    }
}

/// A write on the canvas is what a read of the same slot then finds.
pub proof fn lemma_write_reads_back(g: Grid, x: usize, y: usize, color: Pixel)
    requires
        g.wf(),
        g.contains(x as nat, y as nat),
    ensures
        step(g, set_pixel(x, y, color)).get(x as nat, y as nat) == Some(color),
{
    lemma_slot_in_range(g, x as nat, y as nat);
}

/// A request that is no write at `(x, y)` leaves the slot of `(x, y)` as it
/// was.
pub proof fn lemma_step_keeps_others(g: Grid, cmd: Command, x: usize, y: usize)
    requires
        g.wf(),
        !writes_to(cmd, x, y),
    ensures
        step(g, cmd).get(x as nat, y as nat) == g.get(x as nat, y as nat),
{
    if let Command::SetPixel { x: cx, y: cy, color } = cmd {
        if g.contains(cx as nat, cy as nat) && g.contains(x as nat, y as nat) {
            lemma_slot_in_range(g, cx as nat, cy as nat);
            lemma_slot_in_range(g, x as nat, y as nat);
            if g.slot(cx as nat, cy as nat) == g.slot(x as nat, y as nat) {
                lemma_slot_unique(g, cx as nat, cy as nat, x as nat, y as nat);
            }
        }
    }
}

/// Requests of which none is a write at `(x, y)` leave the slot of `(x, y)`
/// as it was.
pub proof fn lemma_run_keeps_others(g: Grid, cmds: Seq<Command>, x: usize, y: usize)
    requires
        g.wf(),
        forall|i: int| 0 <= i < cmds.len() ==> !writes_to(#[trigger] cmds[i], x, y),
    ensures
        run(g, cmds).get(x as nat, y as nat) == g.get(x as nat, y as nat),
    decreases cmds.len(),
{
    if cmds.len() > 0 {
        let before = cmds.drop_last();
        lemma_run_keeps_others(g, before, x, y);
        lemma_run_keeps_shape(g, before);
        lemma_step_keeps_others(run(g, before), cmds.last(), x, y);
    }
}

/// A write on the canvas followed by a read of the same coordinates gets
/// the reply that shows red, green and blue of the colour just written,
/// whatever requests came between the two, as long as none of them wrote to
/// the same coordinates.
pub proof fn law_write_then_read(
    g: Grid,
    x: usize,
    y: usize,
    color: Pixel,
    between: Seq<Command>,
)
    requires
        g.wf(),
        g.contains(x as nat, y as nat),
        forall|i: int| 0 <= i < between.len() ==> !writes_to(#[trigger] between[i], x, y),
    ensures
        reply(
            run(step(g, set_pixel(x, y, color)), between),
            get_pixel(x, y),
        ) == Some(pixel_reply(x as nat, y as nat, color)),
{
    let written = step(g, set_pixel(x, y, color));
    lemma_step_keeps_shape(g, set_pixel(x, y, color));
    lemma_write_reads_back(g, x, y, color);
    lemma_run_keeps_others(written, between, x, y);
}

/// Off the canvas, to the right of it or below it, a read gets no reply and
/// a write changes nothing.
pub proof fn law_off_canvas(g: Grid, x: usize, y: usize, color: Pixel)
    requires
        x >= g.width || y >= g.height,
    ensures
        reply(g, get_pixel(x, y)) is None,
        step(g, get_pixel(x, y)) == g,
        reply(g, set_pixel(x, y, color)) is None,
        step(g, set_pixel(x, y, color)) == g,
{
}

/// `SIZE` is answered with the width and height that the canvas was made
/// with, whatever requests were carried out before.
pub proof fn law_size_is_fixed(g: Grid, cmds: Seq<Command>)
    ensures
        reply(run(g, cmds), Command::Size) == Some(size_reply(g.width, g.height)),
        step(run(g, cmds), Command::Size) == run(g, cmds),
{
    lemma_run_keeps_shape(g, cmds);
}

/// A write on the canvas stays until the next write to the same
/// coordinates: after all of `cmds`, the slot holds the colour of the last
/// write to it.
pub proof fn law_last_write_stays(g: Grid, cmds: Seq<Command>, i: int)
    requires
        g.wf(),
        0 <= i < cmds.len(),
        cmds[i] is SetPixel,
        g.contains(cmds[i]->SetPixel_x as nat, cmds[i]->SetPixel_y as nat),
        forall|j: int|
            i < j < cmds.len() ==> !writes_to(
                #[trigger] cmds[j],
                cmds[i]->SetPixel_x,
                cmds[i]->SetPixel_y,
            ),
    ensures
        run(g, cmds).get(cmds[i]->SetPixel_x as nat, cmds[i]->SetPixel_y as nat) == Some(
            cmds[i]->SetPixel_color,
        ),
    decreases cmds.len(),
{
    let x = cmds[i]->SetPixel_x;
    let y = cmds[i]->SetPixel_y;
    let before = cmds.drop_last();
    lemma_run_keeps_shape(g, before);
    if i == cmds.len() - 1 {
        lemma_write_reads_back(run(g, before), x, y, cmds[i]->SetPixel_color);
    } else {
        law_last_write_stays(g, before, i);
        lemma_step_keeps_others(run(g, before), cmds.last(), x, y);
    }
}

/// Writes to different coordinates do not disturb one another: when every
/// request of `cmds` is a write on the canvas and no two of them have the
/// same coordinates, then after all of them, in whatever order they came,
/// a read at the coordinates of any one of them is answered with its
/// colour.
pub proof fn law_distinct_writes_persist(g: Grid, cmds: Seq<Command>)
    requires
        g.wf(),
        forall|i: int|
            0 <= i < cmds.len() ==> (#[trigger] cmds[i]) is SetPixel && g.contains(
                cmds[i]->SetPixel_x as nat,
                cmds[i]->SetPixel_y as nat,
            ),
        forall|i: int, j: int|
            0 <= i < j < cmds.len() ==> !writes_to(
                #[trigger] cmds[i],
                (#[trigger] cmds[j])->SetPixel_x,
                cmds[j]->SetPixel_y,
            ),
    ensures
        forall|i: int|
            0 <= i < cmds.len() ==> reply(
                run(g, cmds),
                get_pixel((#[trigger] cmds[i])->SetPixel_x, cmds[i]->SetPixel_y),
            ) == Some(
                pixel_reply(
                    cmds[i]->SetPixel_x as nat,
                    cmds[i]->SetPixel_y as nat,
                    cmds[i]->SetPixel_color,
                ),
            ),
{
    assert forall|i: int| 0 <= i < cmds.len() implies reply(
        run(g, cmds),
        get_pixel((#[trigger] cmds[i])->SetPixel_x, cmds[i]->SetPixel_y),
    ) == Some(
        pixel_reply(
            cmds[i]->SetPixel_x as nat,
            cmds[i]->SetPixel_y as nat,
            cmds[i]->SetPixel_color,
        ),
    ) by {
        law_last_write_stays(g, cmds, i);
    }
}

/// Of two writes to the same coordinates, one straight after the other, the
/// second decides: the canvas is the one that the second write alone would
/// have left. The canvas after a sequence of requests is a function of the
/// canvas before and of the sequence, so a given order always ends in the
/// same canvas.
pub proof fn law_second_write_wins(g: Grid, x: usize, y: usize, first: Pixel, second: Pixel)
    requires
        g.wf(),
    ensures
        run(
            g,
            seq![set_pixel(x, y, first), set_pixel(x, y, second)],
        ) == step(g, set_pixel(x, y, second)),
{
    let a = set_pixel(x, y, first);
    let b = set_pixel(x, y, second);
    let both = seq![a, b];
    assert(both.drop_last() =~= seq![a]);
    assert(seq![a].drop_last() =~= Seq::<Command>::empty());
    assert(run(g, Seq::<Command>::empty()) == g);
    assert(run(g, seq![a]) == step(g, a));
    if g.contains(x as nat, y as nat) {
        lemma_slot_in_range(g, x as nat, y as nat);
        assert(step(step(g, a), b).cells =~= step(g, b).cells);
    }
}

/// A colour token means the same with and without a leading `#`.
pub proof fn law_hash_is_optional(token: Seq<char>)
    requires
        token.len() == 0 || token[0] != '#',
    ensures
        color(seq!['#'] + token) == color(token),
{
}

/// A request to write reads the same with and without a leading `#` on its
/// colour token.
pub proof fn law_hash_is_optional_in_request(t: Seq<Seq<char>>)
    requires
        t.len() >= 4,
        t[3].len() == 0 || t[3][0] != '#',
    ensures
        parse_tokens(t.update(3, seq!['#'] + t[3])) == parse_tokens(t),
{
}

/// Six digits write an opaque colour: the same red, green and blue as the
/// six digits followed by `ff`, in either case, and the same alpha, 255.
pub proof fn law_six_digits_are_opaque(digits: Seq<char>)
    requires
        digits.len() == 6,
        forall|i: int| 0 <= i < 6 ==> is_hex_digit(#[trigger] digits[i]),
    ensures
        color(digits) is Some,
        color(digits)->0.a == 255,
        color(digits + seq!['f', 'f']) == color(digits),
        color(digits + seq!['F', 'F']) == color(digits),
{
    assert(is_color_text(with_hash(digits)));
    assert(is_color_text(with_hash(digits + seq!['f', 'f'])));
    assert(is_color_text(with_hash(digits + seq!['F', 'F'])));
}

/// The reply to a read, sent back as a request, is the write of the colour
/// shown, fully opaque, to the same coordinates.
pub proof fn law_reply_reads_as_write(x: usize, y: usize, p: Pixel)
    ensures
        parse_line(pixel_reply(x as nat, y as nat, p)) == Ok::<Command, ParseError>(
            set_pixel(x, y, p.opaque()),
        ),
{
    let px = seq!['P', 'X'];
    let dx = decimal(x as nat);
    let dy = decimal(y as nat);
    let hex = lower_hex(p);
    let end = seq!['\n'];
    let r5 = seq![' '] + hex + end;
    let r4 = dy + r5;
    let r3 = seq![' '] + r4;
    let r2 = dx + r3;
    let r1 = seq![' '] + r2;
    assert(pixel_reply(x as nat, y as nat, p) =~= px + r1);
    lemma_decimal_digits(x as nat);
    lemma_decimal_digits(y as nat);
    assert(tokens(end) == Seq::<Seq<char>>::empty()) by {
        lemma_tokens_after_whitespace('\n', Seq::empty());
    }
    lemma_tokens_after_word(hex, end);
    lemma_tokens_after_whitespace(' ', hex + end);
    assert(seq![' '] + (hex + end) =~= r5);
    lemma_tokens_after_word(dy, r5);
    lemma_tokens_after_whitespace(' ', r4);
    lemma_tokens_after_word(dx, r3);
    lemma_tokens_after_whitespace(' ', r2);
    lemma_tokens_after_word(px, r1);
    law_decimal_reads_back(x);
    law_decimal_reads_back(y);
    law_lower_hex_reads_back(p);
}

/// A line of whitespace only, the empty line among them, is no request.
pub proof fn law_blank_line_is_no_request(line: Seq<char>)
    requires
        forall|i: int| 0 <= i < line.len() ==> is_whitespace(#[trigger] line[i]),
    ensures
        parse_line(line) == Err::<Command, ParseError>(ParseError::UnknownCommand),
    decreases line.len(),
{
    if line.len() > 0 {
        law_blank_line_is_no_request(line.skip(1));
    }
}

} // verus!
