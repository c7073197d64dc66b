//! The 8 by 24 colour matrix of the DP-104 and the reports that carry a frame to it.

use crate::ccswitch::balance_text;
use crate::consumption::{consumption_level, level_of, ConsumptionChart, BAR_COUNT};
use crate::quota::{
    format_display_percent, law_percentage_is_two_digits, percent_text, QuotaStatus,
    WEEK_RESET_CELL_COUNT,
};
use crate::text::{chars_of, decimal, decimal_text, digit, padded_decimal};
use vstd::prelude::*;
use vstd::string::*;

verus! {

pub const VENDOR_ID: u16 = 0xE560;

pub const PRODUCT_ID: u16 = 0xE104;

pub const VENDOR_USAGE_PAGE: u16 = 0xFF60;

pub const VENDOR_USAGE: u16 = 0x61;

pub const MATRIX_ROWS: usize = 8;

pub const MATRIX_COLS: usize = 24;

pub const FRAME_LENGTH: usize = 576;

pub const HSV_RED: [u8; 3] = [0, 255, 255];

pub const HSV_YELLOW: [u8; 3] = [43, 255, 255];

pub const HSV_GREEN: [u8; 3] = [85, 255, 255];

pub const HSV_WHITE: [u8; 3] = [0, 0, 255];

pub const HSV_PINK_PURPLE: [u8; 3] = [213, 200, 255];

pub const HSV_BLUE: [u8; 3] = [170, 255, 255];

pub const HSV_ORANGE: [u8; 3] = [21, 255, 255];

/// Why a frame or a report could not be made or was not accepted.
#[derive(Clone, Copy, Debug, PartialEq, Eq)]
pub enum KeyboardError {
    TooManyCells,
    UnsupportedCharacter(char),
    BalanceTooWide,
    FrameLength,
    ReportTooLong,
    WrittenLength(usize),
    EchoMismatch,
}

/// The colour of a remaining percentage: green from 60, yellow from 20, red below; green without
/// a limit.
pub open spec fn percent_color(percent: Option<u8>) -> Seq<u8> {
    match percent {
        None => HSV_GREEN@,
        Some(value) => if value >= 60 {
            HSV_GREEN@
        } else if value >= 20 {
            HSV_YELLOW@
        } else {
            HSV_RED@
        },
    }
}

/// Chooses the colour of a remaining percentage.
pub fn quota_color(remaining_percent: Option<u8>) -> (color: [u8; 3])
    ensures
        color@ == percent_color(remaining_percent),
{
    match remaining_percent {
        None => HSV_GREEN,
        Some(value) => if value >= 60 {
            HSV_GREEN
        } else if value >= 20 {
            HSV_YELLOW
        } else {
            HSV_RED
        },
    }
}

/// A character as five rows of pixels; each row is a binary number with the leftmost pixel in its
/// highest place.
pub struct Glyph {
    pub width: usize,
    pub rows: [u8; 5],
}

/// Whether the matrix has a glyph for a character.
pub open spec fn has_glyph(c: char) -> bool {
    '0' <= c <= '9' || c == '-' || c == '|'
}

/// The width of a character in pixels.
pub open spec fn glyph_width(c: char) -> int {
    if c == '|' {
        1
    } else {
        3
    }
}

/// The rows of a character that has a glyph.
pub open spec fn glyph_rows(c: char) -> Seq<u8> {
    if c == '0' {
        seq![7u8, 5, 5, 5, 7]
    } else if c == '1' {
        seq![2u8, 6, 2, 2, 7]
    } else if c == '2' {
        seq![6u8, 1, 2, 4, 7]
    } else if c == '3' {
        seq![6u8, 1, 2, 1, 6]
    } else if c == '4' {
        seq![5u8, 5, 7, 1, 1]
    } else if c == '5' {
        seq![7u8, 4, 6, 1, 6]
    } else if c == '6' {
        seq![6u8, 4, 7, 5, 7]
    } else if c == '7' {
        seq![7u8, 1, 2, 2, 2]
    } else if c == '8' {
        seq![7u8, 5, 7, 5, 7]
    } else if c == '9' {
        seq![7u8, 5, 7, 1, 6]
    } else if c == '-' {
        seq![0u8, 0, 7, 0, 0]
    } else {
        seq![1u8, 1, 1, 1, 1]
    }
}

/// Looks up the glyph of a character.
pub fn glyph(character: char) -> (found: Result<Glyph, KeyboardError>)
    ensures
        match found {
            Ok(shape) => has_glyph(character) && shape.width == glyph_width(character)
                && shape.rows@ == glyph_rows(character),
            Err(error) => !has_glyph(character) && error == KeyboardError::UnsupportedCharacter(
                character,
            ),
        },
{
    let rows: [u8; 5] = if character == '0' {
        [7, 5, 5, 5, 7]
    } else if character == '1' {
        [2, 6, 2, 2, 7]
    } else if character == '2' {
        [6, 1, 2, 4, 7]
    } else if character == '3' {
        [6, 1, 2, 1, 6]
    } else if character == '4' {
        [5, 5, 7, 1, 1]
    } else if character == '5' {
        [7, 4, 6, 1, 6]
    } else if character == '6' {
        [6, 4, 7, 5, 7]
    } else if character == '7' {
        [7, 1, 2, 2, 2]
    } else if character == '8' {
        [7, 5, 7, 5, 7]
    } else if character == '9' {
        [7, 5, 7, 1, 6]
    } else if character == '-' {
        [0, 0, 7, 0, 0]
    } else if character == '|' {
        [1, 1, 1, 1, 1]
    } else {
        return Err(KeyboardError::UnsupportedCharacter(character));
    };
    assert(rows@ =~= glyph_rows(character));
    Ok(
        Glyph {
            width: if character == '|' {
                1
            } else {
                3
            },
            rows,
        },
    )
}

/// The place value of a column in a row of the given width.
pub open spec fn place(width: int, x: int) -> int {
    if x == width - 1 {
        1
    } else if x == width - 2 {
        2
    } else {
        4
    }
}

/// Whether a character lights the pixel at a column and row of its glyph.
pub open spec fn glyph_lit(c: char, x: int, y: int) -> bool {
    &&& 0 <= x < glyph_width(c)
    &&& 0 <= y < 5
    &&& (glyph_rows(c)[y] as int / place(glyph_width(c), x)) % 2 == 1
}

/// The first byte of a pixel.
pub open spec fn pixel_offset(x: int, y: int) -> int {
    (y * MATRIX_COLS + x) * 3
}

/// The three bytes of a pixel.
pub open spec fn pixel_at(frame: Seq<u8>, x: int, y: int) -> Seq<u8> {
    frame.subrange(pixel_offset(x, y), pixel_offset(x, y) + 3)
}

/// A position on the matrix.
pub open spec fn on_matrix(x: int, y: int) -> bool {
    0 <= x < MATRIX_COLS && 0 <= y < MATRIX_ROWS
}

/// A pixel that is off.
pub open spec fn dark() -> Seq<u8> {
    seq![0u8, 0, 0]
}

/// Writes one pixel.
pub fn set_pixel(frame: &mut Vec<u8>, x: usize, y: usize, color: [u8; 3])
    requires
        on_matrix(x as int, y as int),
        old(frame)@.len() == FRAME_LENGTH,
    ensures
        final(frame)@.len() == FRAME_LENGTH,
        forall|px: int, py: int|
            on_matrix(px, py) ==> #[trigger] pixel_at(final(frame)@, px, py) == (if px == x && py
                == y {
                color@
            } else {
                pixel_at(old(frame)@, px, py)
            }),
{
    let offset: usize = (y * MATRIX_COLS + x) * 3;
    frame[offset] = color[0];
    frame[offset + 1] = color[1];
    frame[offset + 2] = color[2];
    assert forall|px: int, py: int| on_matrix(px, py) implies #[trigger] pixel_at(frame@, px, py)
        == (if px == x && py == y {
        color@
    } else {
        pixel_at(old(frame)@, px, py)
    }) by {
        if px == x && py == y {
            assert(pixel_at(frame@, px, py) =~= color@);
        } else {
            assert(pixel_at(frame@, px, py) =~= pixel_at(old(frame)@, px, py));
        }
    }
}

/// A frame with every pixel off.
fn dark_frame() -> (frame: Vec<u8>)
    ensures
        frame@.len() == FRAME_LENGTH,
        forall|x: int, y: int| on_matrix(x, y) ==> #[trigger] pixel_at(frame@, x, y) == dark(),
{
    let frame: Vec<u8> = vec![0u8; FRAME_LENGTH];
    assert forall|x: int, y: int| on_matrix(x, y) implies #[trigger] pixel_at(frame@, x, y)
        == dark() by {
        assert(pixel_at(frame@, x, y) =~= dark());
    }
    frame
}

/// Draws a glyph with its top in the second row.
fn draw_glyph(frame: &mut Vec<u8>, left: usize, character: char, shape: &Glyph, color: [u8; 3])
    requires
        old(frame)@.len() == FRAME_LENGTH,
        has_glyph(character),
        shape.width == glyph_width(character),
        shape.rows@ == glyph_rows(character),
        left + shape.width <= MATRIX_COLS,
    ensures
        final(frame)@.len() == FRAME_LENGTH,
        forall|px: int, py: int|
            on_matrix(px, py) ==> #[trigger] pixel_at(final(frame)@, px, py) == (if glyph_lit(
                character,
                px - left,
                py - 1,
            ) {
                color@
            } else {
                pixel_at(old(frame)@, px, py)
            }),
{
    for y in 0..5usize
        invariant
            frame@.len() == FRAME_LENGTH,
            has_glyph(character),
            shape.width == glyph_width(character),
            shape.rows@ == glyph_rows(character),
            left + shape.width <= MATRIX_COLS,
            forall|px: int, py: int|
                on_matrix(px, py) ==> #[trigger] pixel_at(frame@, px, py) == (if glyph_lit(
                    character,
                    px - left,
                    py - 1,
                ) && py - 1 < y {
                    color@
                } else {
                    pixel_at(old(frame)@, px, py)
                }),
    {
        for x in 0..shape.width
            invariant
                0 <= y < 5,
                frame@.len() == FRAME_LENGTH,
                has_glyph(character),
                shape.width == glyph_width(character),
                shape.rows@ == glyph_rows(character),
                left + shape.width <= MATRIX_COLS,
                forall|px: int, py: int|
                    on_matrix(px, py) ==> #[trigger] pixel_at(frame@, px, py) == (if glyph_lit(
                        character,
                        px - left,
                        py - 1,
                    ) && (py - 1 < y || (py - 1 == y && px - left < x)) {
                        color@
                    } else {
                        pixel_at(old(frame)@, px, py)
                    }),
        {
            let row: u8 = shape.rows[y];
            let value: u8 = if x == shape.width - 1 {
                1
            } else if x + 2 == shape.width {
                2
            } else {
                4
            };
            let lit: bool = (row / value) % 2 == 1;
            assert(lit == glyph_lit(character, x as int, y as int));
            if lit {
                set_pixel(frame, left + x, y + 1, color);
            }
        }
    }
}

/// Whether a hourglass pixel is lit: the ten cells fill two columns row by row, and go out from
/// the left and from the top.
pub open spec fn cell_lit(cells: int, x: int, y: int) -> bool {
    &&& 0 <= x < 2
    &&& 0 <= y < 5
    &&& 2 * y + x >= WEEK_RESET_CELL_COUNT - cells
}

/// The pixels of the official layout: two digits, a line, two digits, a line, and the hourglass.
pub open spec fn quota_pixel(
    five_hour: Option<u8>,
    seven_day: Option<u8>,
    reset_cells: Option<u8>,
    x: int,
    y: int,
) -> Seq<u8> {
    let cells = match reset_cells {
        Some(count) => count as int,
        None => 0,
    };
    if glyph_lit(percent_text(five_hour)[0], x, y - 1) || glyph_lit(
        percent_text(five_hour)[1],
        x - 5,
        y - 1,
    ) {
        percent_color(five_hour)
    } else if glyph_lit(percent_text(seven_day)[0], x - 11, y - 1) || glyph_lit(
        percent_text(seven_day)[1],
        x - 16,
        y - 1,
    ) {
        percent_color(seven_day)
    } else if (x == 9 || x == 20) && 1 <= y <= 5 {
        HSV_WHITE@
    } else if cell_lit(cells, x - 22, y - 1) {
        HSV_PINK_PURPLE@
    } else {
        dark()
    }
}

/// How far a text moves the drawing position: each glyph takes its width and one column more.
pub open spec fn text_advance(text: Seq<char>) -> int
    decreases text.len(),
{
    if text.len() == 0 {
        0
    } else {
        text_advance(text.drop_last()) + glyph_width(text.last()) + 1
    }
}

/// The width of a text, with one dark column between neighbouring glyphs.
pub open spec fn text_width(text: Seq<char>) -> int {
    if text.len() == 0 {
        0
    } else {
        text_advance(text) - 1
    }
}

/// Whether a text that starts at a column lights a pixel.
pub open spec fn text_lit(text: Seq<char>, left: int, x: int, y: int) -> bool
    decreases text.len(),
{
    text.len() > 0 && (text_lit(text.drop_last(), left, x, y) || glyph_lit(
        text.last(),
        x - left - text_advance(text.drop_last()),
        y,
    ))
}

/// The colour of a bar.
pub open spec fn level_color(level: int) -> Seq<u8> {
    if level <= 2 {
        HSV_GREEN@
    } else if level == 3 {
        HSV_BLUE@
    } else if level == 4 {
        HSV_ORANGE@
    } else {
        HSV_RED@
    }
}

/// Whether a bar lights the pixel in a row; bars grow from the sixth row upwards.
pub open spec fn bar_lit(bar: Option<u64>, y: int) -> bool {
    bar matches Some(amount) && 5 - level_of(amount) < y <= 5
}

/// The pixels of the relay layout: the balance right-aligned in eleven columns, a line, and ten
/// bars with the latest on the right.
pub open spec fn balance_pixel(text: Seq<char>, bars: Seq<Option<u64>>, x: int, y: int) -> Seq<u8> {
    if text_lit(text, 11 - text_width(text), x, y - 1) {
        HSV_GREEN@
    } else if x == 12 && 1 <= y <= 5 {
        HSV_WHITE@
    } else if 14 <= x && bar_lit(bars[x - 14], y) {
        level_color(level_of(bars[x - 14]->0))
    } else {
        dark()
    }
}

/// Whether every character of a text has a glyph.
pub open spec fn drawable(text: Seq<char>) -> bool {
    forall|i: int| 0 <= i < text.len() ==> has_glyph(#[trigger] text[i])
}

/// The first character of a text without a glyph.
pub open spec fn first_undrawable(text: Seq<char>, at: int) -> bool {
    &&& 0 <= at < text.len()
    &&& !has_glyph(text[at])
    &&& forall|i: int| 0 <= i < at ==> has_glyph(#[trigger] text[i])
}

/// A percentage is shown in two characters that have glyphs.
proof fn lemma_percent_text(percent: Option<u8>)
    ensures
        percent_text(percent).len() == 2,
        has_glyph(percent_text(percent)[0]),
        has_glyph(percent_text(percent)[1]),
        percent_text(percent)[0] != '|',
        percent_text(percent)[1] != '|',
{
    reveal_strlit("--");
    if let Some(value) = percent {
        let shown: nat = if value > 99 {
            99
        } else {
            value as nat
        };
        reveal_with_fuel(padded_decimal, 3);
        assert(padded_decimal(shown, 2) =~= seq![digit(shown / 10 % 10), digit(shown % 10)]);
    }
}

fn draw_character(frame: &mut Vec<u8>, left: usize, character: char, color: [u8; 3]) -> (drawn:
    Result<(), KeyboardError>)
    requires
        old(frame)@.len() == FRAME_LENGTH,
        left + glyph_width(character) <= MATRIX_COLS,
    ensures
        final(frame)@.len() == FRAME_LENGTH,
        match drawn {
            Ok(_) => has_glyph(character) && forall|px: int, py: int|
                on_matrix(px, py) ==> #[trigger] pixel_at(final(frame)@, px, py) == (if glyph_lit(
                    character,
                    px - left,
                    py - 1,
                ) {
                    color@
                } else {
                    pixel_at(old(frame)@, px, py)
                }),
            Err(error) => !has_glyph(character) && error == KeyboardError::UnsupportedCharacter(
                character,
            ),
        },
{
    match glyph(character) {
        Ok(shape) => {
            draw_glyph(frame, left, character, &shape, color);
            Ok(())
        },
        Err(error) => Err(error),
    }
}

/// Draws the fixed layout of the official quota.
fn build_quota_frame(five_hour: Option<u8>, seven_day: Option<u8>, reset_cells: Option<u8>) -> (
    built: Result<Vec<u8>, KeyboardError>)
    ensures
        match built {
            Ok(frame) => {
                &&& (reset_cells matches Some(cells) ==> cells <= WEEK_RESET_CELL_COUNT)
                &&& frame@.len() == FRAME_LENGTH
                &&& forall|x: int, y: int|
                    on_matrix(x, y) ==> #[trigger] pixel_at(frame@, x, y) == quota_pixel(
                        five_hour,
                        seven_day,
                        reset_cells,
                        x,
                        y,
                    )
            },
            Err(error) => reset_cells matches Some(cells) && cells > WEEK_RESET_CELL_COUNT && error
                == KeyboardError::TooManyCells,
        },
{
    let cells: u8 = match reset_cells {
        Some(count) => count,
        None => 0,
    };
    if cells > WEEK_RESET_CELL_COUNT {
        return Err(KeyboardError::TooManyCells);
    }
    proof {
        lemma_percent_text(five_hour);
        lemma_percent_text(seven_day);
    }
    let left = chars_of(format_display_percent(five_hour).as_str());
    let right = chars_of(format_display_percent(seven_day).as_str());
    let left_color = quota_color(five_hour);
    let right_color = quota_color(seven_day);
    let mut frame = dark_frame();
    draw_character(&mut frame, 0, left[0], left_color)?;
    draw_character(&mut frame, 5, left[1], left_color)?;
    draw_character(&mut frame, 9, '|', HSV_WHITE)?;
    draw_character(&mut frame, 11, right[0], right_color)?;
    draw_character(&mut frame, 16, right[1], right_color)?;
    draw_character(&mut frame, 20, '|', HSV_WHITE)?;
    let ghost drawn = frame@;
    let gone: u8 = WEEK_RESET_CELL_COUNT - cells;
    for index in gone..WEEK_RESET_CELL_COUNT
        invariant
            gone == WEEK_RESET_CELL_COUNT - cells,
            cells <= WEEK_RESET_CELL_COUNT,
            gone <= index <= WEEK_RESET_CELL_COUNT,
            frame@.len() == FRAME_LENGTH,
            forall|x: int, y: int|
                on_matrix(x, y) ==> #[trigger] pixel_at(frame@, x, y) == (if cell_lit(
                    cells as int,
                    x - 22,
                    y - 1,
                ) && 2 * (y - 1) + (x - 22) < index {
                    HSV_PINK_PURPLE@
                } else {
                    pixel_at(drawn, x, y)
                }),
    {
        let x: usize = 22 + (index % 2) as usize;
        let y: usize = 1 + (index / 2) as usize;
        set_pixel(&mut frame, x, y, HSV_PINK_PURPLE);
    }
    assert forall|x: int, y: int| on_matrix(x, y) implies #[trigger] pixel_at(frame@, x, y)
        == quota_pixel(five_hour, seven_day, reset_cells, x, y) by {
        assert(pixel_at(drawn, x, y) == pixel_at(drawn, x, y));
    }
    Ok(frame)
}

/// A text moves on by at least two columns for each glyph.
proof fn lemma_advance(text: Seq<char>)
    ensures
        text_advance(text) >= 2 * text.len(),
    decreases text.len(),
{
    if text.len() > 0 {
        lemma_advance(text.drop_last());
    }
}

/// A shorter start of a text moves on no further than the text.
proof fn lemma_advance_grows(text: Seq<char>, taken: int)
    requires
        0 <= taken <= text.len(),
    ensures
        text_advance(text.take(taken)) <= text_advance(text),
    decreases text.len() - taken,
{
    if taken < text.len() {
        lemma_advance_grows(text, taken + 1);
        assert(text.take(taken + 1).drop_last() == text.take(taken));
    } else {
        assert(text.take(taken) == text);
    }
}

/// Measures a text that is to be shown as a balance.
fn measure_balance(chars: &Vec<char>) -> (measured: Result<usize, KeyboardError>)
    ensures
        match measured {
            Ok(width) => drawable(chars@) && width == text_width(chars@) && width <= 11,
            Err(KeyboardError::UnsupportedCharacter(c)) => exists|at: int|
                #[trigger] first_undrawable(chars@, at) && chars@[at] == c,
            Err(error) => drawable(chars@) && text_width(chars@) > 11 && error
                == KeyboardError::BalanceTooWide,
        },
{
    for i in 0..chars.len()
        invariant
            forall|j: int| 0 <= j < i ==> has_glyph(#[trigger] chars@[j]),
    {
        match glyph(chars[i]) {
            Ok(_) => {},
            Err(_) => {
                assert(first_undrawable(chars@, i as int));
                return Err(KeyboardError::UnsupportedCharacter(chars[i]));
            },
        }
    }
    let mut advance: usize = 0;
    assert(chars@.take(0) == Seq::<char>::empty());
    for i in 0..chars.len()
        invariant
            drawable(chars@),
            advance == text_advance(chars@.take(i as int)),
            advance <= 12,
    {
        proof {
            assert(chars@.take(i + 1).drop_last() == chars@.take(i as int));
            lemma_advance_grows(chars@, i + 1);
        }
        advance = advance + (if chars[i] == '|' {
            2
        } else {
            4
        });
        if advance > 12 {
            return Err(KeyboardError::BalanceTooWide);
        }
    }
    assert(chars@.take(chars@.len() as int) == chars@);
    if chars.len() == 0 {
        Ok(0)
    } else {
        proof {
            lemma_advance(chars@);
        }
        Ok(advance - 1)
    }
}

/// Draws the layout of a relay balance.
pub fn build_balance_frame(text: &str, chart: &ConsumptionChart) -> (built: Result<
    Vec<u8>,
    KeyboardError,
>)
    ensures
        match built {
            Ok(frame) => {
                &&& drawable(text@) && text_width(text@) <= 11
                &&& frame@.len() == FRAME_LENGTH
                &&& forall|x: int, y: int|
                    on_matrix(x, y) ==> #[trigger] pixel_at(frame@, x, y) == balance_pixel(
                        text@,
                        chart.bars@,
                        x,
                        y,
                    )
            },
            Err(KeyboardError::UnsupportedCharacter(c)) => exists|at: int|
                #[trigger] first_undrawable(text@, at) && text@[at] == c,
            Err(error) => drawable(text@) && text_width(text@) > 11 && error
                == KeyboardError::BalanceTooWide,
        },
{
    let chars = chars_of(text);
    let width = match measure_balance(&chars) {
        Ok(width) => width,
        Err(error) => return Err(error),
    };
    let left: usize = 11 - width;
    let mut frame = dark_frame();
    let mut x: usize = left;
    assert(chars@.take(0) == Seq::<char>::empty());
    for i in 0..chars.len()
        invariant
            chars@ == text@,
            drawable(text@),
            width == text_width(text@),
            width <= 11,
            left == 11 - width,
            x == left + text_advance(text@.take(i as int)),
            frame@.len() == FRAME_LENGTH,
            forall|px: int, py: int|
                on_matrix(px, py) ==> #[trigger] pixel_at(frame@, px, py) == (if text_lit(
                    text@.take(i as int),
                    left as int,
                    px,
                    py - 1,
                ) {
                    HSV_GREEN@
                } else {
                    dark()
                }),
    {
        proof {
            assert(text@.take(i + 1).drop_last() == text@.take(i as int));
            lemma_advance_grows(text@, i + 1);
        }
        assert(has_glyph(chars@[i as int]));
        match draw_character(&mut frame, x, chars[i], HSV_GREEN) {
            Ok(_) => {},
            Err(error) => return Err(error),
        }
        x = x + (if chars[i] == '|' {
            2
        } else {
            4
        });
    }
    assert(text@.take(text@.len() as int) == text@);
    let ghost balance = frame@;
    proof {
        assert forall|px: int, py: int| on_matrix(px, py) && px >= 11 implies !text_lit(
            text@,
            left as int,
            px,
            py - 1,
        ) by {
            lemma_text_ends(text@, left as int, px, py - 1);
        }
    }
    for y in 1..6usize
        invariant
            frame@.len() == FRAME_LENGTH,
            forall|px: int, py: int|
                on_matrix(px, py) ==> #[trigger] pixel_at(frame@, px, py) == (if px == 12 && 1 <= py
                    < y {
                    HSV_WHITE@
                } else {
                    pixel_at(balance, px, py)
                }),
    {
        set_pixel(&mut frame, 12, y, HSV_WHITE);
    }
    let ghost lined = frame@;
    for index in 0..BAR_COUNT
        invariant
            frame@.len() == FRAME_LENGTH,
            forall|px: int, py: int|
                on_matrix(px, py) ==> #[trigger] pixel_at(frame@, px, py) == (if 14 <= px < 14
                    + index && bar_lit(chart.bars@[px - 14], py) {
                    level_color(level_of(chart.bars@[px - 14]->0))
                } else {
                    pixel_at(lined, px, py)
                }),
    {
        if let Some(amount) = chart.bars[index] {
            let level: usize = consumption_level(amount);
            let color: [u8; 3] = if level <= 2 {
                HSV_GREEN
            } else if level == 3 {
                HSV_BLUE
            } else if level == 4 {
                HSV_ORANGE
            } else {
                HSV_RED
            };
            for point in 0..level
                invariant
                    index < BAR_COUNT,
                    chart.bars@[index as int] == Some(amount),
                    level == level_of(amount),
                    color@ == level_color(level as int),
                    frame@.len() == FRAME_LENGTH,
                    forall|px: int, py: int|
                        on_matrix(px, py) ==> #[trigger] pixel_at(frame@, px, py) == (if (14 <= px
                            < 14 + index && bar_lit(chart.bars@[px - 14], py)) || (px == 14 + index
                            && 5 - point < py <= 5) {
                            level_color(level_of(chart.bars@[px - 14]->0))
                        } else {
                            pixel_at(lined, px, py)
                        }),
            {
                set_pixel(&mut frame, 14 + index, 5 - point, color);
            }
        }
    }
    assert forall|px: int, py: int| on_matrix(px, py) implies #[trigger] pixel_at(frame@, px, py)
        == balance_pixel(text@, chart.bars@, px, py) by {
        assert(pixel_at(lined, px, py) == pixel_at(lined, px, py));
        assert(pixel_at(balance, px, py) == pixel_at(balance, px, py));
    }
    Ok(frame)
}

/// A text lights nothing beyond its width.
proof fn lemma_text_ends(text: Seq<char>, left: int, x: int, y: int)
    requires
        x >= left + text_width(text),
    ensures
        !text_lit(text, left, x, y),
    decreases text.len(),
{
    if text.len() > 0 {
        lemma_advance(text.drop_last());
        lemma_text_ends(text.drop_last(), left, x, y);
    }
}

/// A balance is shown in at most three digits, or in two dashes.
proof fn lemma_balance_text(remaining: Option<i64>)
    ensures
        drawable(balance_text(remaining)),
        text_width(balance_text(remaining)) <= 11,
{
    reveal_strlit("--");
    reveal_with_fuel(text_advance, 4);
    let text = balance_text(remaining);
    if let Some(amount) = remaining {
        reveal_with_fuel(decimal, 3);
        let units = crate::ccswitch::whole_units(amount);
        crate::text::lemma_decimal_denotes(units);
        assert(drawable(text)) by {
            assert forall|i: int| 0 <= i < text.len() implies has_glyph(#[trigger] text[i]) by {
                assert(crate::text::is_digit(text[i]));
            }
        }
        assert(text.len() <= 3);
    }
    assert(text.len() <= 3);
    lemma_advance_bound(text);
}

proof fn lemma_advance_bound(text: Seq<char>)
    ensures
        text_advance(text) <= 4 * text.len(),
    decreases text.len(),
{
    if text.len() > 0 {
        lemma_advance_bound(text.drop_last());
    }
}

/// Every pixel that the keyboard is to show for a status.
pub open spec fn status_pixel(status: QuotaStatus, x: int, y: int) -> Seq<u8> {
    match status.relay {
        Some(relay) => balance_pixel(balance_text(relay.remaining), relay.chart.bars@, x, y),
        None => quota_pixel(status.five_hour, status.seven_day, status.reset_cells, x, y),
    }
}

/// Whether a frame shows a status.
pub open spec fn shows(frame: Seq<u8>, status: QuotaStatus) -> bool {
    &&& frame.len() == FRAME_LENGTH
    &&& forall|x: int, y: int|
        on_matrix(x, y) ==> #[trigger] pixel_at(frame, x, y) == status_pixel(status, x, y)
}

/// Whether a status can be shown: a relay always, official quota with at most ten cells.
pub open spec fn showable(status: QuotaStatus) -> bool {
    status.relay is Some || (status.reset_cells matches Some(cells) ==> cells
        <= WEEK_RESET_CELL_COUNT)
}

/// Renders a status: the balance layout for a relay, otherwise the fixed quota layout.
pub fn build_static_frame(status: &QuotaStatus) -> (built: Result<Vec<u8>, KeyboardError>)
    ensures
        match built {
            Ok(frame) => showable(*status) && shows(frame@, *status),
            Err(error) => !showable(*status) && error == KeyboardError::TooManyCells,
        },
{
    match &status.relay {
        Some(relay) => {
            proof {
                lemma_balance_text(relay.remaining);
            }
            build_balance_frame(relay.display_text().as_str(), &relay.chart)
        },
        None => build_quota_frame(status.five_hour, status.seven_day, status.reset_cells),
    }
}

pub const MATRIX_FRAME_COUNT: u8 = 1;

pub const MATRIX_FPS: u8 = 1;

pub const MATRIX_DATA_CHUNK_LENGTH: usize = 25;

pub const CHUNK_COUNT: usize = 24;

pub const HID_REPORT_LENGTH: usize = 33;

pub const COMMAND_CUSTOM_ANIMATION: u8 = 209;

/// One report to the keyboard, and the bytes that its answer has to repeat.
#[derive(Debug)]
pub struct HidExchange {
    pub report: Vec<u8>,
    pub expected: Vec<u8>,
}

/// Whether the numbers of a device are those of the vendor interface of a DP-104.
pub open spec fn is_dp104(vendor_id: u16, product_id: u16, usage_page: u16, usage: u16) -> bool {
    vendor_id == VENDOR_ID && product_id == PRODUCT_ID && usage_page == VENDOR_USAGE_PAGE && usage
        == VENDOR_USAGE
}

/// Whether a device is the vendor interface of a DP-104.
pub fn is_dp104_interface(vendor_id: u16, product_id: u16, usage_page: u16, usage: u16) -> (target:
    bool)
    ensures
        target == is_dp104(vendor_id, product_id, usage_page, usage),
{
    vendor_id == VENDOR_ID && product_id == PRODUCT_ID && usage_page == VENDOR_USAGE_PAGE && usage
        == VENDOR_USAGE
}

/// A report: an empty report number, the command, its arguments, and zeros up to the full length.
pub open spec fn report_bytes(command: u8, arguments: Seq<u8>) -> Seq<u8> {
    seq![0u8, command] + arguments + Seq::new(
        (HID_REPORT_LENGTH - 2 - arguments.len()) as nat,
        |i: int| 0u8,
    )
}

/// Whether an exchange carries a command with its arguments.
pub open spec fn carries(exchange: HidExchange, command: u8, arguments: Seq<u8>) -> bool {
    &&& exchange.report@ == report_bytes(command, arguments)
    &&& exchange.expected@ == seq![command] + arguments
}

/// Packs a command into a report of the fixed length.
pub fn build_exchange(command: u8, arguments: &Vec<u8>) -> (built: Result<
    HidExchange,
    KeyboardError,
>)
    ensures
        match built {
            Ok(exchange) => arguments@.len() + 2 <= HID_REPORT_LENGTH && carries(
                exchange,
                command,
                arguments@,
            ) && exchange.report@.len() == HID_REPORT_LENGTH,
            Err(error) => arguments@.len() + 2 > HID_REPORT_LENGTH && error
                == KeyboardError::ReportTooLong,
        },
{
    if arguments.len() > HID_REPORT_LENGTH - 2 {
        return Err(KeyboardError::ReportTooLong);
    }
    let mut report: Vec<u8> = vec![0u8, command];
    let mut expected: Vec<u8> = vec![command];
    for i in 0..arguments.len()
        invariant
            report@ == seq![0u8, command] + arguments@.take(i as int),
            expected@ == seq![command] + arguments@.take(i as int),
    {
        report.push(arguments[i]);
        expected.push(arguments[i]);
        assert(report@ =~= seq![0u8, command] + arguments@.take(i + 1));
        assert(expected@ =~= seq![command] + arguments@.take(i + 1));
    }
    assert(arguments@.take(arguments@.len() as int) == arguments@);
    while report.len() < HID_REPORT_LENGTH
        invariant
            arguments@.len() + 2 <= report@.len() <= HID_REPORT_LENGTH,
            report@ == seq![0u8, command] + arguments@ + Seq::new(
                (report@.len() - 2 - arguments@.len()) as nat,
                |i: int| 0u8,
            ),
        decreases HID_REPORT_LENGTH - report@.len(),
    {
        report.push(0);
        assert(report@ =~= seq![0u8, command] + arguments@ + Seq::new(
            (report@.len() - 2 - arguments@.len()) as nat,
            |i: int| 0u8,
        ));
    }
    Ok(HidExchange { report, expected })
}

/// The arguments that start a single still frame.
pub open spec fn start_arguments() -> Seq<u8> {
    seq![48u8, MATRIX_FRAME_COUNT, MATRIX_FPS, MATRIX_ROWS as u8, MATRIX_COLS as u8]
}

/// The bytes of a frame that its k-th part carries.
pub open spec fn frame_part(frame: Seq<u8>, k: int) -> Seq<u8> {
    frame.subrange(
        k * MATRIX_DATA_CHUNK_LENGTH,
        if (k + 1) * MATRIX_DATA_CHUNK_LENGTH < frame.len() {
            (k + 1) * MATRIX_DATA_CHUNK_LENGTH
        } else {
            frame.len() as int
        },
    )
}

/// A number below 65536 in four bytes, the highest first.
pub open spec fn big_endian(value: int) -> Seq<u8> {
    seq![0u8, 0, (value / 256) as u8, (value % 256) as u8]
}

/// The arguments that carry the k-th part of a frame: its position, its length and its bytes.
pub open spec fn part_arguments(frame: Seq<u8>, k: int) -> Seq<u8> {
    seq![49u8] + big_endian(k * MATRIX_DATA_CHUNK_LENGTH) + seq![frame_part(frame, k).len() as u8]
        + frame_part(frame, k)
}

/// Whether some exchanges write a frame: a start, then the parts in order.
pub open spec fn writes_frame(exchanges: Seq<HidExchange>, frame: Seq<u8>) -> bool {
    &&& frame.len() == FRAME_LENGTH
    &&& exchanges.len() == 1 + CHUNK_COUNT
    &&& carries(exchanges[0], COMMAND_CUSTOM_ANIMATION, start_arguments())
    &&& forall|k: int|
        0 <= k < CHUNK_COUNT ==> carries(
            #[trigger] exchanges[k + 1],
            COMMAND_CUSTOM_ANIMATION,
            part_arguments(frame, k),
        )
}

/// Splits a frame into the exchanges that write it: a start, then the parts in order.
pub fn frame_exchanges(frame: &Vec<u8>) -> (split: Result<Vec<HidExchange>, KeyboardError>)
    ensures
        match split {
            Ok(exchanges) => writes_frame(exchanges@, frame@),
            Err(error) => frame@.len() != FRAME_LENGTH && error == KeyboardError::FrameLength,
        },
{
    if frame.len() != FRAME_LENGTH {
        return Err(KeyboardError::FrameLength);
    }
    let mut exchanges: Vec<HidExchange> = Vec::new();
    let start: Vec<u8> = vec![
        48,
        MATRIX_FRAME_COUNT,
        MATRIX_FPS,
        MATRIX_ROWS as u8,
        MATRIX_COLS as u8,
    ];
    assert(start@ =~= start_arguments());
    exchanges.push(build_exchange(COMMAND_CUSTOM_ANIMATION, &start)?);
    for part in 0..CHUNK_COUNT
        invariant
            frame@.len() == FRAME_LENGTH,
            exchanges@.len() == 1 + part,
            carries(exchanges@[0], COMMAND_CUSTOM_ANIMATION, start_arguments()),
            forall|k: int|
                0 <= k < part ==> carries(
                    #[trigger] exchanges@[k + 1],
                    COMMAND_CUSTOM_ANIMATION,
                    part_arguments(frame@, k),
                ),
    {
        let offset: usize = part * MATRIX_DATA_CHUNK_LENGTH;
        let end: usize = if offset + MATRIX_DATA_CHUNK_LENGTH < frame.len() {
            offset + MATRIX_DATA_CHUNK_LENGTH
        } else {
            frame.len()
        };
        let length: u8 = (end - offset) as u8;
        let ghost whole = frame_part(frame@, part as int);
        let ghost head = seq![49u8] + big_endian(offset as int) + seq![whole.len() as u8];
        let mut arguments: Vec<u8> = vec![
            49,
            0,
            0,
            (offset / 256) as u8,
            (offset % 256) as u8,
            length,
        ];
        assert(arguments@ =~= head);
        for i in offset..end
            invariant
                frame@.len() == FRAME_LENGTH,
                offset <= i <= end <= FRAME_LENGTH,
                whole == frame@.subrange(offset as int, end as int),
                arguments@ == head + whole.take(i - offset),
        {
            arguments.push(frame[i]);
            assert(arguments@ =~= head + whole.take(i + 1 - offset));
        }
        assert(whole.take(whole.len() as int) == whole);
        assert(arguments@ == part_arguments(frame@, part as int));
        exchanges.push(build_exchange(COMMAND_CUSTOM_ANIMATION, &arguments)?);
    }
    Ok(exchanges)
}

/// Checks how many bytes of a report were written.
pub fn check_written(written: usize) -> (checked: Result<(), KeyboardError>)
    ensures
        match checked {
            Ok(_) => written == HID_REPORT_LENGTH,
            Err(error) => written != HID_REPORT_LENGTH && error == KeyboardError::WrittenLength(
                written,
            ),
        },
{
    if written == HID_REPORT_LENGTH {
        Ok(())
    } else {
        Err(KeyboardError::WrittenLength(written))
    }
}

/// An answer without the report number zero that it may start with.
pub open spec fn answer_body(response: Seq<u8>) -> Seq<u8> {
    if response.len() > 0 && response[0] == 0 {
        response.drop_first()
    } else {
        response
    }
}

/// Checks that an answer starts with the command and the arguments that were sent.
pub fn check_echo(expected: &Vec<u8>, response: &[u8]) -> (checked: Result<(), KeyboardError>)
    ensures
        match checked {
            Ok(_) => expected@.is_prefix_of(answer_body(response@)),
            Err(error) => !expected@.is_prefix_of(answer_body(response@)) && error
                == KeyboardError::EchoMismatch,
        },
{
    let start: usize = if response.len() > 0 && response[0] == 0 {
        1
    } else {
        0
    };
    let ghost body = answer_body(response@);
    assert(body == response@.skip(start as int));
    if response.len() - start < expected.len() {
        return Err(KeyboardError::EchoMismatch);
    }
    for i in 0..expected.len()
        invariant
            start <= 1,
            start <= response@.len(),
            body == response@.skip(start as int),
            body == answer_body(response@),
            response.len() - start >= expected.len(),
            forall|j: int| 0 <= j < i ==> expected@[j] == body[j],
    {
        assert(body[i as int] == response@[start + i]);
        if expected[i] != response[start + i] {
            assert(!expected@.is_prefix_of(body)) by {
                assert(body.subrange(0, expected@.len() as int)[i as int] == body[i as int]);
            }
            return Err(KeyboardError::EchoMismatch);
        }
    }
    assert(expected@ =~= body.subrange(0, expected@.len() as int));
    Ok(())
}

impl KeyboardError {
    /// What a message says of the error.
    pub open spec fn described(self) -> Seq<char> {
        match self {
            KeyboardError::TooManyCells => "周重置倒计时格数必须在 0 到 10 之间"@,
            KeyboardError::UnsupportedCharacter(c) => "点阵字库不支持字符："@.push(c),
            KeyboardError::BalanceTooWide => "余额超过三位数字宽度"@,
            KeyboardError::FrameLength => "自定义帧长度必须为 576 字节"@,
            KeyboardError::ReportTooLong => "HID 报文超过 DP-104 的 32 字节数据区"@,
            KeyboardError::WrittenLength(written) => "DP-104 HID 写入长度异常："@ + decimal(
                written as nat,
            ),
            KeyboardError::EchoMismatch => "DP-104 HID 响应校验失败，请关闭网页驱动后重试"@,
        }
    }

    /// The error as a message.
    pub fn message(&self) -> (text: String)
        ensures
            text@ == self.described(),
    {
        match self {
            KeyboardError::TooManyCells => "周重置倒计时格数必须在 0 到 10 之间".to_owned(),
            KeyboardError::UnsupportedCharacter(c) => {
                let mut text = "点阵字库不支持字符：".to_owned();
                text.push(*c);
                text
            },
            KeyboardError::BalanceTooWide => "余额超过三位数字宽度".to_owned(),
            KeyboardError::FrameLength => "自定义帧长度必须为 576 字节".to_owned(),
            KeyboardError::ReportTooLong => "HID 报文超过 DP-104 的 32 字节数据区".to_owned(),
            KeyboardError::WrittenLength(written) => {
                let mut text = "DP-104 HID 写入长度异常：".to_owned();
                text.append(decimal_text(*written as u64).as_str());
                text
            },
            KeyboardError::EchoMismatch => "DP-104 HID 响应校验失败，请关闭网页驱动后重试".to_owned(),
        }
    }
}

/// No two characters look alike.
pub proof fn law_glyphs_are_distinct(first: char, second: char)
    requires
        has_glyph(first),
        has_glyph(second),
        glyph_width(first) == glyph_width(second),
        glyph_rows(first) == glyph_rows(second),
    ensures
        first == second,
{
    let rows = glyph_rows(first);
    let others = glyph_rows(second);
    assert(rows[0] == others[0] && rows[1] == others[1] && rows[2] == others[2] && rows[3]
        == others[3] && rows[4] == others[4]);
}

/// The parts of a frame from the start to the k-th, joined.
pub open spec fn joined_parts(frame: Seq<u8>, k: int) -> Seq<u8>
    decreases k,
{
    if k <= 0 {
        Seq::empty()
    } else {
        joined_parts(frame, k - 1) + frame_part(frame, k - 1)
    }
}

/// The parts of a frame, joined in order, are the frame: nothing is lost, repeated or moved.
pub proof fn law_parts_join_to_the_frame(frame: Seq<u8>)
    requires
        frame.len() == FRAME_LENGTH,
    ensures
        joined_parts(frame, CHUNK_COUNT as int) == frame,
{
    lemma_joined_parts(frame, CHUNK_COUNT as int);
    assert(frame.take(FRAME_LENGTH as int) == frame);
}

proof fn lemma_joined_parts(frame: Seq<u8>, k: int)
    requires
        frame.len() == FRAME_LENGTH,
        0 <= k <= CHUNK_COUNT,
    ensures
        joined_parts(frame, k) == frame.take(
            if k * MATRIX_DATA_CHUNK_LENGTH < frame.len() {
                k * MATRIX_DATA_CHUNK_LENGTH
            } else {
                frame.len() as int
            },
        ),
    decreases k,
{
    if k > 0 {
        lemma_joined_parts(frame, k - 1);
    }
    assert(joined_parts(frame, k) =~= frame.take(
        if k * MATRIX_DATA_CHUNK_LENGTH < frame.len() {
            k * MATRIX_DATA_CHUNK_LENGTH
        } else {
            frame.len() as int
        },
    ));
}

/// An answer that repeats the whole report is accepted, with its report number or without it.
pub proof fn law_full_echo_is_accepted(exchange: HidExchange, command: u8, arguments: Seq<u8>)
    requires
        carries(exchange, command, arguments),
        command != 0,
        arguments.len() + 2 <= HID_REPORT_LENGTH,
    ensures
        exchange.expected@.is_prefix_of(answer_body(exchange.report@)),
        exchange.expected@.is_prefix_of(answer_body(exchange.report@.drop_first())),
{
    let body = exchange.report@.drop_first();
    assert(exchange.expected@ =~= body.subrange(0, exchange.expected@.len() as int));
    assert(body[0] == command);
}

/// A frame is fixed by what it shows: two frames that show one status are the same.
pub proof fn law_status_fixes_the_frame(left: Seq<u8>, right: Seq<u8>, status: QuotaStatus)
    requires
        shows(left, status),
        shows(right, status),
    ensures
        left == right,
{
    assert forall|i: int| 0 <= i < FRAME_LENGTH implies left[i] == right[i] by {
        let x = (i / 3) % 24;
        let y = (i / 3) / 24;
        assert(pixel_offset(x, y) == i - i % 3);
        assert(on_matrix(x, y));
        assert(pixel_at(left, x, y) == pixel_at(right, x, y));
        assert(pixel_at(left, x, y)[i % 3] == left[i]);
        assert(pixel_at(right, x, y)[i % 3] == right[i]);
    }
    assert(left =~= right);
}

/// In the official layout both lines stand in their columns and the first and the last rows are
/// dark, whatever is shown.
pub proof fn law_official_layout_is_fixed(status: QuotaStatus, frame: Seq<u8>)
    requires
        status.relay is None,
        shows(frame, status),
    ensures
        forall|y: int| 1 <= y <= 5 ==> #[trigger] pixel_at(frame, 9, y) == HSV_WHITE@,
        forall|y: int| 1 <= y <= 5 ==> #[trigger] pixel_at(frame, 20, y) == HSV_WHITE@,
        forall|x: int, y: int|
            on_matrix(x, y) && (y == 0 || y >= 6) ==> #[trigger] pixel_at(frame, x, y) == dark(),
{
    lemma_percent_text(status.five_hour);
    lemma_percent_text(status.seven_day);
}

/// In the relay layout the line stands in its column with a dark column on either side, and a bar
/// lights as many points as its level, from the bottom.
pub proof fn law_relay_layout(status: QuotaStatus, frame: Seq<u8>, bar: int)
    requires
        status.relay is Some,
        shows(frame, status),
        0 <= bar < BAR_COUNT,
    ensures
        forall|y: int| 1 <= y <= 5 ==> #[trigger] pixel_at(frame, 12, y) == HSV_WHITE@,
        forall|y: int| 0 <= y < MATRIX_ROWS ==> #[trigger] pixel_at(frame, 11, y) == dark(),
        forall|y: int| 0 <= y < MATRIX_ROWS ==> #[trigger] pixel_at(frame, 13, y) == dark(),
        forall|y: int|
            0 <= y < MATRIX_ROWS ==> #[trigger] pixel_at(frame, 14 + bar, y) == (
            match status.relay->0.chart.bars@[bar] {
                Some(amount) => if 5 - level_of(amount) < y <= 5 {
                    level_color(level_of(amount))
                } else {
                    dark()
                },
                None => dark(),
            }),
{
    let text = balance_text(status.relay->0.remaining);
    lemma_balance_text(status.relay->0.remaining);
    let left = 11 - text_width(text);
    assert forall|x: int, y: int| x >= 11 implies !text_lit(text, left, x, y) by {
        lemma_text_ends(text, left, x, y);
    }
}

/// As the hourglass runs down its cells go out from the left and from the top, and none comes back.
pub proof fn law_cells_go_out_in_order(more: int, fewer: int, x: int, y: int)
    requires
        0 <= fewer <= more <= WEEK_RESET_CELL_COUNT,
    ensures
        cell_lit(fewer, x, y) ==> cell_lit(more, x, y),
        !cell_lit(0, x, y),
        0 <= x < 2 && 0 <= y < 5 ==> cell_lit(WEEK_RESET_CELL_COUNT as int, x, y),
{
}

/// The shapes of the digits, of the dash and of the line, row by row from the top, with the left
/// pixel in the highest place.
pub proof fn law_shapes(c: char)
    requires
        '0' <= c <= '9' || c == '-' || c == '|',
    ensures
        has_glyph(c),
        glyph_width(c) == (if c == '|' {
            1int
        } else {
            3
        }),
        c == '0' ==> glyph_rows(c) == seq![0b111u8, 0b101, 0b101, 0b101, 0b111],
        c == '1' ==> glyph_rows(c) == seq![0b010u8, 0b110, 0b010, 0b010, 0b111],
        c == '2' ==> glyph_rows(c) == seq![0b110u8, 0b001, 0b010, 0b100, 0b111],
        c == '3' ==> glyph_rows(c) == seq![0b110u8, 0b001, 0b010, 0b001, 0b110],
        c == '4' ==> glyph_rows(c) == seq![0b101u8, 0b101, 0b111, 0b001, 0b001],
        c == '5' ==> glyph_rows(c) == seq![0b111u8, 0b100, 0b110, 0b001, 0b110],
        c == '6' ==> glyph_rows(c) == seq![0b110u8, 0b100, 0b111, 0b101, 0b111],
        c == '7' ==> glyph_rows(c) == seq![0b111u8, 0b001, 0b010, 0b010, 0b010],
        c == '8' ==> glyph_rows(c) == seq![0b111u8, 0b101, 0b111, 0b101, 0b111],
        c == '9' ==> glyph_rows(c) == seq![0b111u8, 0b101, 0b111, 0b001, 0b110],
        c == '-' ==> glyph_rows(c) == seq![0b000u8, 0b000, 0b111, 0b000, 0b000],
        c == '|' ==> glyph_rows(c) == seq![0b1u8, 0b1, 0b1, 0b1, 0b1],
{
}

/// A row of a shape reads from left to right as a binary number, and nothing is lit beside it.
pub proof fn law_rows_read_from_left_to_right(c: char, x: int, y: int)
    requires
        '0' <= c <= '9' || c == '-',
        0 <= y < 5,
    ensures
        glyph_rows(c)[y] == (if glyph_lit(c, 0, y) {
            4int
        } else {
            0
        }) + (if glyph_lit(c, 1, y) {
            2int
        } else {
            0
        }) + (if glyph_lit(c, 2, y) {
            1int
        } else {
            0
        }),
        x < 0 || x >= 3 ==> !glyph_lit(c, x, y),
        glyph_lit('|', 0, y),
        x != 0 ==> !glyph_lit('|', x, y),
{
}

/// The pixels of a frame follow each other row by row from the top left, three bytes each.
pub proof fn law_pixels_follow_row_by_row(frame: Seq<u8>, x: int, y: int)
    requires
        frame.len() == 576,
        0 <= x < 24,
        0 <= y < 8,
    ensures
        on_matrix(x, y),
        pixel_at(frame, x, y) == seq![
            frame[72 * y + 3 * x],
            frame[72 * y + 3 * x + 1],
            frame[72 * y + 3 * x + 2],
        ],
{
    assert(pixel_at(frame, x, y) =~= seq![
        frame[72 * y + 3 * x],
        frame[72 * y + 3 * x + 1],
        frame[72 * y + 3 * x + 2],
    ]);
}

/// The official layout reads from left to right: the tens digit of the five-hour percentage in the
/// columns from 0, its units digit in those from 5, and those of the weekly percentage in the columns
/// from 11 and from 16, a hundred as 99. Each is green from 60, yellow from 20 and red below.
pub proof fn law_percentages_read_from_left_to_right(
    status: QuotaStatus,
    frame: Seq<u8>,
    percent: u8,
    left: int,
    tens: char,
    units: char,
    x: int,
    y: int,
)
    requires
        status.relay is None,
        shows(frame, status),
        left == 0 && status.five_hour == Some(percent) || left == 11 && status.seven_day == Some(
            percent,
        ),
        '0' <= tens <= '9',
        '0' <= units <= '9',
        10 * (tens as int - '0' as int) + (units as int - '0' as int) == (if percent >= 99 {
            99
        } else {
            percent as int
        }),
        0 <= x < 3,
        0 <= y < 5,
    ensures
        ({
            let color = if percent >= 60 {
                seq![85u8, 255, 255]
            } else if percent >= 20 {
                seq![43u8, 255, 255]
            } else {
                seq![0u8, 255, 255]
            };
            &&& pixel_at(frame, left + x, y + 1) == (if glyph_lit(tens, x, y) {
                color
            } else {
                seq![0u8, 0, 0]
            })
            &&& pixel_at(frame, left + 5 + x, y + 1) == (if glyph_lit(units, x, y) {
                color
            } else {
                seq![0u8, 0, 0]
            })
        }),
{
    lemma_percent_text(status.five_hour);
    lemma_percent_text(status.seven_day);
    let shown: int = if percent >= 99 {
        99
    } else {
        percent as int
    };
    law_percentage_is_two_digits(percent, shown);
    assert(percent_text(Some(percent))[0] == tens);
    assert(percent_text(Some(percent))[1] == units);
    assert(percent_color(Some(percent)) =~= (if percent >= 60 {
        seq![85u8, 255, 255]
    } else if percent >= 20 {
        seq![43u8, 255, 255]
    } else {
        seq![0u8, 255, 255]
    }));
    assert(on_matrix(left + x, y + 1));
    assert(on_matrix(left + 5 + x, y + 1));
}

/// A dash is the three pixels of the middle row.
proof fn lemma_dash(x: int, y: int)
    ensures
        glyph_lit('-', x, y) == (y == 2 && 0 <= x < 3),
{
    let rows = glyph_rows('-');
    assert(rows[0] == 0 && rows[1] == 0 && rows[2] == 7 && rows[3] == 0 && rows[4] == 0);
    if 0 <= y < 5 && 0 <= x < 3 {
        let value = place(3, x);
        assert(value == 1 || value == 2 || value == 4);
        assert(0int / 1 == 0 && 0int / 2 == 0 && 0int / 4 == 0);
        assert(7int / 1 == 7 && 7int / 2 == 3 && 7int / 4 == 1);
        if y == 2 {
            assert(rows[y] == 7);
        } else {
            assert(rows[y] == 0);
        }
    }
}

/// A percentage without a limit is two green dashes in the middle row.
pub proof fn law_no_limit_is_two_green_dashes(
    status: QuotaStatus,
    frame: Seq<u8>,
    left: int,
    x: int,
    y: int,
)
    requires
        status.relay is None,
        shows(frame, status),
        left == 0 && status.five_hour is None || left == 11 && status.seven_day is None,
        0 <= x < 3,
        1 <= y <= 5,
    ensures
        pixel_at(frame, left + x, y) == (if y == 3 {
            seq![85u8, 255, 255]
        } else {
            seq![0u8, 0, 0]
        }),
        pixel_at(frame, left + 5 + x, y) == (if y == 3 {
            seq![85u8, 255, 255]
        } else {
            seq![0u8, 0, 0]
        }),
{
    reveal_strlit("--");
    lemma_percent_text(status.five_hour);
    lemma_percent_text(status.seven_day);
    assert(HSV_GREEN@ =~= seq![85u8, 255, 255]);
    assert(on_matrix(left + x, y));
    assert(on_matrix(left + 5 + x, y));
    lemma_dash(x, y - 1);
}

/// Beside the digits the official layout has two white lines, in columns 9 and 20, and the hourglass
/// in columns 22 and 23. Of its ten cells, counted from left to right and from top to bottom, the
/// last ones are lit, as many as are left. All other pixels are dark.
pub proof fn law_lines_and_hourglass_have_their_places(
    status: QuotaStatus,
    frame: Seq<u8>,
    cells: int,
    x: int,
    y: int,
)
    requires
        status.relay is None,
        shows(frame, status),
        cells == (match status.reset_cells {
            Some(count) => count as int,
            None => 0,
        }),
        0 <= x < 24,
        0 <= y < 8,
        !(0 <= x < 3),
        !(5 <= x < 8),
        !(11 <= x < 14),
        !(16 <= x < 19),
    ensures
        pixel_at(frame, x, y) == (if y == 0 || y >= 6 {
            seq![0u8, 0, 0]
        } else if x == 9 || x == 20 {
            seq![0u8, 0, 255]
        } else if x >= 22 && 2 * (y - 1) + (x - 22) >= 10 - cells {
            seq![213u8, 200, 255]
        } else {
            seq![0u8, 0, 0]
        }),
{
    lemma_percent_text(status.five_hour);
    lemma_percent_text(status.seven_day);
    assert(HSV_WHITE@ =~= seq![0u8, 0, 255]);
    assert(HSV_PINK_PURPLE@ =~= seq![213u8, 200, 255]);
    assert(on_matrix(x, y));
}

/// A balance is shown in whole units without its fraction, nothing below zero as 0 and everything
/// above as 999.
pub proof fn law_balance_is_shown_in_whole_units(amount: i64, shown: nat)
    requires
        amount <= 0 ==> shown == 0,
        0 <= amount < 1_000_000_000 ==> shown * 1_000_000 <= amount < (shown + 1) * 1_000_000,
        amount >= 1_000_000_000 ==> shown == 999,
    ensures
        balance_text(Some(amount)) == decimal(shown),
{
    assert(crate::ccswitch::whole_units(amount) == shown);
}

/// The text of a number below a thousand is its digits, the highest first and none of them a leading
/// zero.
proof fn lemma_short_decimal(value: nat)
    requires
        value < 1000,
    ensures
        value < 10 ==> decimal(value) == seq![digit(value)],
        10 <= value < 100 ==> decimal(value) == seq![digit(value / 10), digit(value % 10)],
        100 <= value ==> decimal(value) == seq![
            digit(value / 100),
            digit(value / 10 % 10),
            digit(value % 10),
        ],
{
    reveal_with_fuel(decimal, 4);
    if value >= 100 {
        assert(value / 10 / 10 == value / 100);
        assert(decimal(value) =~= seq![
            digit(value / 100),
            digit(value / 10 % 10),
            digit(value % 10),
        ]);
    } else if value >= 10 {
        assert(decimal(value) =~= seq![digit(value / 10), digit(value % 10)]);
    }
}

/// The relay layout shows the balance in green and right-aligned: the units digit in the columns
/// from 8, the tens digit in those from 4 and the hundreds digit in those from 0, each only where the
/// number has it, with dark columns between them.
pub proof fn law_balance_reads_from_left_to_right(
    status: QuotaStatus,
    frame: Seq<u8>,
    shown: nat,
    place: int,
    c: char,
    x: int,
    y: int,
)
    requires
        status.relay is Some,
        shows(frame, status),
        status.relay->0.remaining matches Some(amount) && {
            &&& amount <= 0 ==> shown == 0
            &&& 0 <= amount < 1_000_000_000 ==> shown * 1_000_000 <= amount < (shown + 1)
                * 1_000_000
            &&& amount >= 1_000_000_000 ==> shown == 999
        },
        place == 0 || place == 1 || place == 2,
        c as int == '0' as int + (if place == 0 {
            shown % 10
        } else if place == 1 {
            shown / 10 % 10
        } else {
            shown / 100
        }),
        0 <= x < 4,
        0 <= y < 5,
        place == 0 ==> x < 3,
    ensures
        pixel_at(frame, 8 - 4 * place + x, y + 1) == (if glyph_lit(c, x, y) && (place == 0 || place
            == 1 && shown >= 10 || shown >= 100) {
            seq![85u8, 255, 255]
        } else {
            seq![0u8, 0, 0]
        }),
{
    let amount = status.relay->0.remaining->0;
    law_balance_is_shown_in_whole_units(amount, shown);
    assert(shown < 1000);
    lemma_short_decimal(shown);
    let text = balance_text(status.relay->0.remaining);
    let px = 8 - 4 * place + x;
    reveal_with_fuel(text_advance, 4);
    reveal_with_fuel(text_lit, 5);
    assert(HSV_GREEN@ =~= seq![85u8, 255, 255]);
    assert(on_matrix(px, y + 1));
    let ones = digit(shown % 10);
    let row = y;
    if shown < 10 {
        assert(text.drop_last() =~= Seq::empty());
        assert(text_advance(text) == 4);
        assert(text_lit(text, 8, px, row) == glyph_lit(ones, px - 8, row));
    } else if shown < 100 {
        assert(text.drop_last() =~= seq![digit(shown / 10)]);
        assert(text.drop_last().drop_last() =~= Seq::empty());
        assert(text_advance(text.drop_last()) == 4);
        assert(text_advance(text) == 8);
        assert(text_lit(text, 4, px, row) == (glyph_lit(digit(shown / 10), px - 4, row)
            || glyph_lit(ones, px - 8, row)));
    } else {
        assert(text.drop_last() =~= seq![digit(shown / 100), digit(shown / 10 % 10)]);
        assert(text.drop_last().drop_last() =~= seq![digit(shown / 100)]);
        assert(text.drop_last().drop_last().drop_last() =~= Seq::empty());
        assert(text_advance(text.drop_last().drop_last()) == 4);
        assert(text_advance(text.drop_last()) == 8);
        assert(text_advance(text) == 12);
        assert(text_lit(text, 0, px, row) == (glyph_lit(digit(shown / 100), px, row) || glyph_lit(
            digit(shown / 10 % 10),
            px - 4,
            row,
        ) || glyph_lit(ones, px - 8, row)));
    }
}

/// A relay without a balance shows two green dashes at the right end of the balance.
pub proof fn law_missing_balance_is_two_green_dashes(
    status: QuotaStatus,
    frame: Seq<u8>,
    x: int,
    y: int,
)
    requires
        status.relay is Some,
        status.relay->0.remaining is None,
        shows(frame, status),
        0 <= x < 11,
        1 <= y <= 5,
    ensures
        pixel_at(frame, x, y) == (if y == 3 && (4 <= x < 7 || 8 <= x) {
            seq![85u8, 255, 255]
        } else {
            seq![0u8, 0, 0]
        }),
{
    reveal_strlit("--");
    let text = balance_text(status.relay->0.remaining);
    reveal_with_fuel(text_advance, 3);
    reveal_with_fuel(text_lit, 4);
    assert(HSV_GREEN@ =~= seq![85u8, 255, 255]);
    assert(on_matrix(x, y));
    assert(text =~= seq!['-', '-']);
    assert(text.drop_last() =~= seq!['-']);
    assert(text.drop_last().drop_last() =~= Seq::empty());
    assert(text_advance(text.drop_last()) == 4);
    assert(text_advance(text) == 8);
    assert(text_width(text) == 7);
    assert(text_lit(text, 4, x, y - 1) == (glyph_lit('-', x - 4, y - 1) || glyph_lit(
        '-',
        x - 8,
        y - 1,
    )));
    lemma_dash(x - 4, y - 1);
    lemma_dash(x - 8, y - 1);
}

/// In the relay layout the bar of each period stands in its own column from 14 on, the newest in the
/// last. From the bottom it lights one point for a tenth of a unit and more points for one, two, five
/// and ten units: green up to two points, then blue, orange and red. A period without a bar is dark,
/// the line in column 12 is white, and the columns beside it and the outer rows are dark.
pub proof fn law_bars_show_their_amounts(status: QuotaStatus, frame: Seq<u8>, x: int, y: int)
    requires
        status.relay is Some,
        shows(frame, status),
        0 <= x < 24,
        0 <= y < 8,
        x >= 11 || y == 0 || y >= 6,
    ensures
        pixel_at(frame, x, y) == (if y == 0 || y >= 6 || x == 11 || x == 13 {
            seq![0u8, 0, 0]
        } else if x == 12 {
            seq![0u8, 0, 255]
        } else {
            match status.relay->0.chart.bars@[x - 14] {
                None => seq![0u8, 0, 0],
                Some(amount) => if amount >= 10_000_000 {
                    seq![0u8, 255, 255]
                } else if amount >= 5_000_000 && y >= 2 {
                    seq![21u8, 255, 255]
                } else if amount >= 2_000_000 && amount < 5_000_000 && y >= 3 {
                    seq![170u8, 255, 255]
                } else if amount >= 1_000_000 && amount < 2_000_000 && y >= 4 {
                    seq![85u8, 255, 255]
                } else if amount >= 100_000 && amount < 1_000_000 && y == 5 {
                    seq![85u8, 255, 255]
                } else {
                    seq![0u8, 0, 0]
                },
            }
        }),
{
    let text = balance_text(status.relay->0.remaining);
    lemma_balance_text(status.relay->0.remaining);
    let left = 11 - text_width(text);
    if x >= 11 {
        lemma_text_ends(text, left, x, y - 1);
    } else {
        lemma_text_rows(text, left, x, y - 1);
    }
    assert(HSV_GREEN@ =~= seq![85u8, 255, 255]);
    assert(HSV_BLUE@ =~= seq![170u8, 255, 255]);
    assert(HSV_ORANGE@ =~= seq![21u8, 255, 255]);
    assert(HSV_RED@ =~= seq![0u8, 255, 255]);
    assert(HSV_WHITE@ =~= seq![0u8, 0, 255]);
    assert(on_matrix(x, y));
}

/// A text lights nothing above its first or below its last row.
proof fn lemma_text_rows(text: Seq<char>, left: int, x: int, y: int)
    requires
        y < 0 || y >= 5,
    ensures
        !text_lit(text, left, x, y),
    decreases text.len(),
{
    if text.len() > 0 {
        lemma_text_rows(text.drop_last(), left, x, y);
    }
}

/// A report is 33 bytes: zero, the command, the arguments, and zeros. The answer is expected to
/// repeat the command and the arguments.
pub proof fn law_report_is_padded_with_zeros(
    exchange: HidExchange,
    command: u8,
    arguments: Seq<u8>,
    i: int,
)
    requires
        carries(exchange, command, arguments),
        arguments.len() <= 31,
        0 <= i < 33,
    ensures
        exchange.report@.len() == 33,
        exchange.report@[i] == (if i == 1 {
            command
        } else if 2 <= i < 2 + arguments.len() {
            arguments[i - 2]
        } else {
            0
        }),
        exchange.expected@.len() == 1 + arguments.len(),
        exchange.expected@[0] == command,
        0 < i <= arguments.len() ==> exchange.expected@[i] == arguments[i - 1],
{
}

/// The parts of a frame carry 25 bytes each, the last one the byte that is left. Each says where its
/// bytes start, as a number of four bytes with the highest first, and how many they are.
pub proof fn law_part_says_where_its_bytes_belong(frame: Seq<u8>, k: int, i: int)
    requires
        frame.len() == 576,
        0 <= k < 24,
        0 <= i < 25,
        25 * k + i < 576,
    ensures
        ({
            let arguments = part_arguments(frame, k);
            let length = if k == 23 {
                1int
            } else {
                25
            };
            &&& arguments.len() == 6 + length
            &&& arguments[0] == 49
            &&& arguments[1] == 0
            &&& arguments[2] == 0
            &&& 256 * arguments[3] + arguments[4] == 25 * k
            &&& arguments[5] == length
            &&& arguments[6 + i] == frame[25 * k + i]
        }),
{
}

/// The start of a frame announces one still picture of 8 rows and 24 columns.
pub proof fn law_start_announces_one_picture()
    ensures
        start_arguments() == seq![48u8, 1, 1, 8, 24],
        COMMAND_CUSTOM_ANIMATION == 209,
        CHUNK_COUNT == 24,
{
    assert(start_arguments() =~= seq![48u8, 1, 1, 8, 24]);
}

/// An answer counts as an echo exactly where it repeats every expected byte, from its start or from
/// behind a report number of zero.
pub proof fn law_echo_repeats_every_byte(expected: Seq<u8>, response: Seq<u8>, skipped: int)
    requires
        skipped == (if response.len() > 0 && response[0] == 0 {
            1int
        } else {
            0
        }),
    ensures
        expected.is_prefix_of(answer_body(response)) <==> {
            &&& expected.len() + skipped <= response.len()
            &&& forall|i: int|
                0 <= i < expected.len() ==> #[trigger] expected[i] == response[i + skipped]
        },
{
    let body = answer_body(response);
    assert(body =~= response.skip(skipped));
    if expected.is_prefix_of(body) {
        assert forall|i: int| 0 <= i < expected.len() implies #[trigger] expected[i] == response[i
            + skipped] by {
            assert(body.subrange(0, expected.len() as int)[i] == body[i]);
        }
    }
    if expected.len() + skipped <= response.len() && (forall|i: int|
        0 <= i < expected.len() ==> #[trigger] expected[i] == response[i + skipped]) {
        assert(expected =~= body.subrange(0, expected.len() as int));
    }
}

/// A frame is written in 25 reports of 33 bytes with one command. The first announces the picture;
/// each other says where its bytes start and how many they are, and carries the bytes of the frame
/// from there. What an answer has to repeat is the report without its number and its zeros.
pub proof fn law_reports_carry_the_frame(
    exchanges: Seq<HidExchange>,
    frame: Seq<u8>,
    k: int,
    i: int,
)
    requires
        writes_frame(exchanges, frame),
        0 <= k < 24,
        0 <= i < 25,
        25 * k + i < 576,
    ensures
        exchanges.len() == 25,
        exchanges[0].report@.len() == 33,
        exchanges[0].report@.take(7) == seq![0u8, 209, 48, 1, 1, 8, 24],
        exchanges[0].expected@ == seq![209u8, 48, 1, 1, 8, 24],
        ({
            let report = exchanges[k + 1].report@;
            let length = if k == 23 {
                1int
            } else {
                25
            };
            &&& report.len() == 33
            &&& report.take(5) == seq![0u8, 209, 49, 0, 0]
            &&& 256 * report[5] + report[6] == 25 * k
            &&& report[7] == length
            &&& report[8 + i] == frame[25 * k + i]
            &&& exchanges[k + 1].expected@ == report.subrange(1, 8 + length)
        }),
{
    let arguments = part_arguments(frame, k);
    law_part_says_where_its_bytes_belong(frame, k, i);
    law_start_announces_one_picture();
    let first = exchanges[0];
    let part = exchanges[k + 1];
    assert(carries(part, 209, arguments));
    assert(first.report@.take(7) =~= seq![0u8, 209, 48, 1, 1, 8, 24]);
    assert(first.expected@ =~= seq![209u8, 48, 1, 1, 8, 24]);
    assert(part.report@.take(5) =~= seq![0u8, 209, 49, 0, 0]);
    assert(part.expected@ =~= part.report@.subrange(1, 2 + arguments.len() as int));
}

/// A device counts as the keyboard only with all four of its numbers.
pub proof fn law_keyboard_has_its_four_numbers(
    vendor_id: u16,
    product_id: u16,
    usage_page: u16,
    usage: u16,
)
    ensures
        is_dp104(vendor_id, product_id, usage_page, usage) <==> vendor_id == 58_720 && product_id
            == 57_604 && usage_page == 65_376 && usage == 97,
{
}

/// A status can be shown as a relay whatever else it holds, and otherwise with no more than ten cells.
pub proof fn law_ten_cells_can_be_shown(status: QuotaStatus)
    ensures
        status.relay is Some ==> showable(status),
        status.relay is None && status.reset_cells is None ==> showable(status),
        status.relay is None && status.reset_cells is Some ==> (showable(status)
            <==> status.reset_cells->0 <= 10),
{
}

/// The character that is refused is the first one without a shape.
pub proof fn law_first_character_without_a_shape_is_refused(text: Seq<char>, at: int, i: int)
    requires
        first_undrawable(text, at),
    ensures
        0 <= at < text.len(),
        !has_glyph(text[at]),
        0 <= i < at ==> has_glyph(text[i]),
        !drawable(text),
{
}

} // verus!
