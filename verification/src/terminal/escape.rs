//! The escape sequences that a terminal display is driven with.

use crate::terminal::snapshot::CellStyle;
use crate::terminal::snapshot::StyleColor;
use crate::text;
use crate::text::push_decimal;
use vstd::prelude::*;

verus! {

/// Cursor position: moves the cursor to a row and a column, both counted from one.
pub open spec fn cursor_to(row: nat, col: nat) -> Seq<char> {
    "\x1b["@ + text::decimal(row) + ";"@ + text::decimal(col) + "H"@
}

/// Select graphic rendition without attributes: back to the default style.
pub open spec fn reset_style() -> Seq<char> {
    "\x1b[0m"@
}

/// Makes the cursor visible.
pub open spec fn show_cursor() -> Seq<char> {
    "\x1b[?25h"@
}

/// Makes the cursor invisible.
pub open spec fn hide_cursor() -> Seq<char> {
    "\x1b[?25l"@
}

/// The parameter `code` if `on`, nothing otherwise.
#[verifier::opaque]
pub open spec fn flag_param(on: bool, code: nat) -> Seq<nat> {
    if on {
        seq![code]
    } else {
        seq![]
    }
}

/// The parameters that select a color; `code` is 38 for the foreground, 48 for the background.
#[verifier::opaque]
pub open spec fn color_params(code: nat, color: StyleColor) -> Seq<nat> {
    match color {
        StyleColor::Default => seq![],
        StyleColor::Palette(index) => seq![code, 5, index as nat],
        StyleColor::Rgb(c) => seq![code, 2, c.r as nat, c.g as nat, c.b as nat],
    }
}

/// The graphic rendition parameters that switch a style on, in ascending order of the attributes,
/// then the colors.
pub open spec fn style_params(style: CellStyle) -> Seq<nat> {
    flag_param(style.bold, 1) + flag_param(style.faint, 2) + flag_param(style.italic, 3)
        + flag_param(style.underline, 4) + flag_param(style.blink, 5) + flag_param(style.inverse, 7)
        + flag_param(style.invisible, 8) + flag_param(style.strikethrough, 9) + flag_param(
        style.overline,
        53,
    ) + color_params(38, style.fg) + color_params(48, style.bg)
}

/// Parameters in decimal, separated by semicolons.
pub open spec fn join_params(params: Seq<nat>) -> Seq<char>
    decreases params.len(),
{
    if params.len() == 0 {
        seq![]
    } else if params.len() == 1 {
        text::decimal(params[0])
    } else {
        text::decimal(params[0]) + ";"@ + join_params(params.drop_first())
    }
}

/// The sequence that switches a style on; nothing for the default style.
pub open spec fn style_sequence(style: CellStyle) -> Seq<char> {
    if style_params(style).len() == 0 {
        seq![]
    } else {
        "\x1b["@ + join_params(style_params(style)) + "m"@
    }
}

/// Appends the sequence that moves the cursor to a row and a column, both counted from one.
pub fn push_cursor_to(out: &mut String, row: u64, col: u64)
    ensures
        final(out)@ == old(out)@ + cursor_to(row as nat, col as nat),
{
    out.push_str("\x1b[");
    push_decimal(out, row);
    out.push_str(";");
    push_decimal(out, col);
    out.push_str("H");
    assert(out@ =~= old(out)@ + cursor_to(row as nat, col as nat));
}

/// The values of a list of parameters.
pub open spec fn param_values(params: Seq<u64>) -> Seq<nat> {
    Seq::new(params.len(), |i: int| params[i] as nat)
}

fn push_flag(params: &mut Vec<u64>, on: bool, code: u64)
    ensures
        param_values(final(params)@) == param_values(old(params)@) + flag_param(on, code as nat),
{
    reveal(flag_param);
    if on {
        params.push(code);
    }
    assert(param_values(params@) =~= param_values(old(params)@) + flag_param(on, code as nat));
}

fn push_color(params: &mut Vec<u64>, code: u64, color: StyleColor)
    ensures
        param_values(final(params)@) == param_values(old(params)@) + color_params(
            code as nat,
            color,
        ),
{
    reveal(color_params);
    match color {
        StyleColor::Rgb(c) => {
            params.push(code);
            params.push(2);
            params.push(c.r as u64);
            params.push(c.g as u64);
            params.push(c.b as u64);
        },
        StyleColor::Palette(index) => {
            params.push(code);
            params.push(5);
            params.push(index as u64);
        },
        StyleColor::Default => {},
    }
    assert(param_values(params@) =~= param_values(old(params)@) + color_params(
        code as nat,
        color,
    ));
}

/// Appends parameters in decimal, separated by semicolons.
fn push_params(out: &mut String, params: &Vec<u64>)
    ensures
        final(out)@ == old(out)@ + join_params(param_values(params@)),
{
    let ghost all = param_values(params@);
    assert(all.skip(0) =~= all);
    let mut i: usize = 0;
    while i < params.len()
        invariant
            i <= params@.len(),
            all == param_values(params@),
            i < params@.len() ==> old(out)@ + join_params(all) == out@ + join_params(
                all.skip(i as int),
            ),
            i == params@.len() ==> old(out)@ + join_params(all) == out@,
        decreases params@.len() - i,
    {
        let ghost before = out@;
        push_decimal(out, params[i]);
        assert(all.skip(i as int)[0] == params@[i as int] as nat);
        if i + 1 < params.len() {
            out.push_str(";");
            proof {
                assert(all.skip(i as int).drop_first() =~= all.skip(i + 1));
                assert(before + join_params(all.skip(i as int)) =~= out@ + join_params(
                    all.skip(i + 1),
                ));
            }
        }
        i = i + 1;
    }
    proof {
        if params@.len() == 0 {
            assert(out@ =~= old(out)@ + join_params(all));
        }
    }
}

/// The escape sequence that enables the given style attributes.
pub fn style_on(style: &CellStyle) -> (res: String)
    ensures
        res@ == style_sequence(*style),
{
    let mut params: Vec<u64> = Vec::new();
    assert(param_values(params@) =~= Seq::<nat>::empty());
    push_flag(&mut params, style.bold, 1);
    push_flag(&mut params, style.faint, 2);
    push_flag(&mut params, style.italic, 3);
    push_flag(&mut params, style.underline, 4);
    push_flag(&mut params, style.blink, 5);
    push_flag(&mut params, style.inverse, 7);
    push_flag(&mut params, style.invisible, 8);
    push_flag(&mut params, style.strikethrough, 9);
    push_flag(&mut params, style.overline, 53);
    push_color(&mut params, 38, style.fg);
    push_color(&mut params, 48, style.bg);
    assert(param_values(params@) =~= style_params(*style));
    let mut res = String::new();
    if params.len() > 0 {
        res.push_str("\x1b[");
        push_params(&mut res, &params);
        res.push_str("m");
    }
    assert(res@ =~= style_sequence(*style));
    res
}

} // verus!
