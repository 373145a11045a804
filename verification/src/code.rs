//! From text to picture: marking the text for the symbology, drawing one
//! symbol, and putting two symbols on one canvas.

use crate::bitmap::{lemma_from_fn, lemma_overlay_pixel, Bitmap, Raster, Rgba};
use crate::bitmap::lemma_bars_pixel;
use crate::code128::{
    check_symbol, checked, code128_symbol, encode_text, encodes, framed, lemma_symbol_edges,
    valid_symbol, weighted_sum, MAX_SYMBOL_MODULES, MAX_TEXT_CHARS,
};
use crate::error::{BarcodeError, CompositionError, EncodingError};
use crate::png::{filed, serialize, serialized};
use std::sync::Arc;
use vstd::prelude::*;
use vstd::string::*;

verus! {

/// The marker that starts code set A or switches to it.
pub const SET_A: char = '\u{00C0}';

/// The marker that starts code set C, the set of digit pairs, or switches to
/// it.
pub const SET_C: char = '\u{0106}';

/// A decimal digit, `0` to `9`.
pub open spec fn is_digit(c: char) -> bool {
    '0' <= c && c <= '9'
}

/// The upper-case form of an ASCII letter; any other character itself.
pub open spec fn upper(c: char) -> char {
    if 'a' <= c && c <= 'z' {
        ((c as u8) - 32) as char
    } else {
        c
    }
}

/// A text with its ASCII letters in upper case.
pub open spec fn uppercase(text: Seq<char>) -> Seq<char> {
    text.map_values(|c: char| upper(c))
}

/// A text in upper case behind the marker of code set A.
pub open spec fn marked(text: Seq<char>) -> Seq<char> {
    seq![SET_A] + uppercase(text)
}

/// The first position at or after `from` that holds a digit, or the length of
/// the text where none does.
pub open spec fn next_digit(text: Seq<char>, from: int) -> int
    decreases text.len() - from,
{
    if from >= text.len() {
        text.len() as int
    } else if is_digit(text[from]) {
        from
    } else {
        next_digit(text, from + 1)
    }
}

/// The first position at or after `from` that holds no digit, or the length
/// of the text where all do.
pub open spec fn next_other(text: Seq<char>, from: int) -> int
    decreases text.len() - from,
{
    if from >= text.len() {
        text.len() as int
    } else if !is_digit(text[from]) {
        from
    } else {
        next_other(text, from + 1)
    }
}

/// Where the first run of digits stands: nothing where the text has no digit,
/// else its first position, and the position behind it unless the run
/// reaches the end of the text.
pub open spec fn number_location(text: Seq<char>) -> Option<(int, Option<int>)> {
    let start = next_digit(text, 0);
    let end = next_other(text, start);
    if start >= text.len() {
        None
    } else if end >= text.len() {
        Some((start, None))
    } else {
        Some((start, Some(end)))
    }
}

/// A text in upper case with its first run of digits set apart: the marker
/// of code set C before the run, the marker of code set A behind it and in
/// front of the whole. A run that reaches the end gets the marker of code set
/// C in front of the whole text and nothing else; a text without digits is
/// [`marked`].
pub open spec fn numeric_marked(text: Seq<char>) -> Seq<char> {
    let up = uppercase(text);
    match number_location(text) {
        None => marked(text),
        Some((start, None)) => seq![SET_C] + up,
        Some((start, Some(end))) => seq![SET_A] + up.subrange(0, start) + seq![SET_C]
            + up.subrange(start, end) + seq![SET_A] + up.subrange(end, up.len() as int),
    }
}

/// Specifies `str::to_ascii_uppercase`: the copy it returns has `a` to `z`
/// replaced by `A` to `Z` and every other character unchanged.
pub assume_specification[ str::to_ascii_uppercase ](text: &str) -> (r: String)
    ensures
        r@ == uppercase(text@),
;

/// Prepares a text for code set A: upper case, behind the marker.
pub fn into_barcode(code: &str) -> (r: String)
    ensures
        r@ == marked(code@),
{
    let up = code.to_ascii_uppercase();
    let mut r = String::from_str("\u{00C0}");
    proof {
        reveal_strlit("\u{00C0}");
        assert("\u{00C0}"@ =~= seq![SET_A]);
    }
    r.append(up.as_str());
    r
}

/// `next_digit` finds the first digit: nothing before it is one.
pub proof fn lemma_next_digit(text: Seq<char>, from: int)
    requires
        0 <= from <= text.len(),
    ensures
        from <= next_digit(text, from) <= text.len(),
        forall|i: int| from <= i < next_digit(text, from) ==> !is_digit(#[trigger] text[i]),
        next_digit(text, from) < text.len() ==> is_digit(text[next_digit(text, from)]),
    decreases text.len() - from,
{
    if from < text.len() && !is_digit(text[from]) {
        lemma_next_digit(text, from + 1);
    }
}

/// `next_other` finds the end of a run of digits.
pub proof fn lemma_next_other(text: Seq<char>, from: int)
    requires
        0 <= from <= text.len(),
    ensures
        from <= next_other(text, from) <= text.len(),
        forall|i: int| from <= i < next_other(text, from) ==> is_digit(#[trigger] text[i]),
        next_other(text, from) < text.len() ==> !is_digit(text[next_other(text, from)]),
    decreases text.len() - from,
{
    if from < text.len() && is_digit(text[from]) {
        lemma_next_other(text, from + 1);
    }
}

/// The scan may start anywhere before the position it finds.
pub proof fn lemma_next_digit_from(text: Seq<char>, from: int, at: int)
    requires
        0 <= from <= at <= text.len(),
        forall|i: int| from <= i < at ==> !is_digit(#[trigger] text[i]),
    ensures
        next_digit(text, from) == next_digit(text, at),
    decreases at - from,
{
    if from < at {
        lemma_next_digit_from(text, from + 1, at);
    }
}

/// The scan for the end of a run may start anywhere inside the run.
pub proof fn lemma_next_other_from(text: Seq<char>, from: int, at: int)
    requires
        0 <= from <= at <= text.len(),
        forall|i: int| from <= i < at ==> is_digit(#[trigger] text[i]),
    ensures
        next_other(text, from) == next_other(text, at),
    decreases at - from,
{
    if from < at {
        lemma_next_other_from(text, from + 1, at);
    }
}

/// Finds the first run of digits in one pass from the left.
pub fn get_number_location(code: &str) -> (r: Option<(usize, Option<usize>)>)
    ensures
        match r {
            None => number_location(code@) is None,
            Some((start, None)) => number_location(code@) == Some((start as int, None::<int>)),
            Some((start, Some(end))) => number_location(code@) == Some(
                (start as int, Some(end as int)),
            ),
        },
{
    let n = code.unicode_len();
    let mut start: Option<usize> = None;
    let mut index: usize = 0;
    for c in it: code.chars()
        invariant
            it.seq() == code@,
            n == code@.len(),
            index == it.index(),
            match start {
                None => forall|i: int| 0 <= i < index ==> !is_digit(#[trigger] code@[i]),
                Some(s) => {
                    &&& s < index
                    &&& is_digit(code@[s as int])
                    &&& forall|i: int| 0 <= i < s ==> !is_digit(#[trigger] code@[i])
                    &&& forall|i: int| s <= i < index ==> is_digit(#[trigger] code@[i])
                },
            },
    {
        let digit = '0' <= c && c <= '9';
        match start {
            None => {
                if digit {
                    start = Some(index);
                }
            },
            Some(s) => {
                if !digit {
                    proof {
                        lemma_next_digit_from(code@, 0, s as int);
                        lemma_next_other_from(code@, s as int, index as int);
                    }
                    return Some((s, Some(index)));
                }
            },
        }
        index = index + 1;
    }
    match start {
        Some(s) => {
            proof {
                lemma_next_digit_from(code@, 0, s as int);
                lemma_next_other_from(code@, s as int, n as int);
            }
            Some((s, None))
        },
        None => {
            proof {
                lemma_next_digit_from(code@, 0, n as int);
            }
            None
        },
    }
}

/// Prepares a text whose first run of digits is to be encoded in code set C.
pub fn specify_barcode(code: &str) -> (r: String)
    ensures
        r@ == numeric_marked(code@),
{
    match get_number_location(code) {
        None => into_barcode(code),
        Some((index, end)) => {
            let up = code.to_ascii_uppercase();
            proof {
                lemma_next_digit(code@, 0);
                lemma_next_other(code@, next_digit(code@, 0));
                reveal_strlit("\u{00C0}");
                reveal_strlit("\u{0106}");
                assert("\u{00C0}"@ =~= seq![SET_A]);
                assert("\u{0106}"@ =~= seq![SET_C]);
            }
            match end {
                None => {
                    let mut r = String::from_str("\u{0106}");
                    r.append(up.as_str());
                    r
                },
                Some(end) => {
                    let n = up.as_str().unicode_len();
                    let mut r = String::from_str("\u{00C0}");
                    r.append(up.as_str().substring_char(0, index));
                    r.append("\u{0106}");
                    r.append(up.as_str().substring_char(index, end));
                    r.append("\u{00C0}");
                    r.append(up.as_str().substring_char(end, n));
                    r
                },
            }
        },
    }
}

/// A text without digits is prepared by [`specify_barcode`] exactly as by
/// [`into_barcode`].
pub proof fn lemma_no_digit_is_plain(text: Seq<char>)
    requires
        forall|i: int| 0 <= i < text.len() ==> !is_digit(#[trigger] text[i]),
    ensures
        numeric_marked(text) == marked(text),
{
    lemma_next_digit_from(text, 0, text.len() as int);
}

/// Where the first run of digits reaches the end of the text, the text gets
/// the marker of code set C in front and no other marker.
pub proof fn lemma_run_to_end(text: Seq<char>, start: int)
    requires
        0 <= start < text.len(),
        forall|i: int| 0 <= i < start ==> !is_digit(#[trigger] text[i]),
        forall|i: int| start <= i < text.len() ==> is_digit(#[trigger] text[i]),
    ensures
        numeric_marked(text) == seq![SET_C] + uppercase(text),
{
    lemma_next_digit_from(text, 0, start);
    lemma_next_other_from(text, start, text.len() as int);
}

/// Where the first run of digits, from `start` to before `end`, is followed
/// by another character, the marker of code set C stands immediately before
/// the run, the marker of code set A immediately behind it and in front of
/// the whole text, and no marker stands anywhere else: later runs stay as
/// they are.
pub proof fn lemma_run_inside(text: Seq<char>, start: int, end: int)
    requires
        0 <= start < end < text.len(),
        forall|i: int| 0 <= i < start ==> !is_digit(#[trigger] text[i]),
        forall|i: int| start <= i < end ==> is_digit(#[trigger] text[i]),
        !is_digit(text[end]),
    ensures
        numeric_marked(text) == seq![SET_A] + uppercase(text).subrange(0, start) + seq![SET_C]
            + uppercase(text).subrange(start, end) + seq![SET_A] + uppercase(text).subrange(
            end,
            text.len() as int,
        ),
        numeric_marked(text).len() == text.len() + 3,
        numeric_marked(text)[0] == SET_A,
        numeric_marked(text)[start + 1] == SET_C,
        numeric_marked(text)[end + 2] == SET_A,
        forall|i: int| 0 <= i < start ==> numeric_marked(text)[i + 1] == upper(#[trigger] text[i]),
        forall|i: int|
            start <= i < end ==> numeric_marked(text)[i + 2] == upper(#[trigger] text[i]),
        forall|i: int|
            end <= i < text.len() ==> numeric_marked(text)[i + 3] == upper(#[trigger] text[i]),
{
    lemma_next_digit_from(text, 0, start);
    lemma_next_other_from(text, start, end);
}

/// Height of every symbol, in pixels.
pub const HEIGHT: u32 = 30;

/// Free columns left of each symbol.
pub const LEFT: u32 = 20;

/// Free rows above the first symbol.
pub const TOP: u32 = 10;

/// Free rows between the two symbols.
pub const GAP: u32 = 20;

/// Columns that the canvas is wider than the wider symbol: the left margin
/// and as much again on the right.
pub const SIDES: u32 = 40;

/// Rows of the canvas before it is turned.
pub const CANVAS_HEIGHT: u32 = 2 * HEIGHT + 40;

/// A character that may stand in a text to be encoded: printable ASCII or one
/// of the two code set markers.
pub open spec fn in_repertoire(c: char) -> bool {
    (' ' <= c && c <= '~') || c == SET_A || c == SET_C
}

/// Every character of the text is in the repertoire.
pub open spec fn encodable(text: Seq<char>) -> bool {
    forall|i: int| 0 <= i < text.len() ==> in_repertoire(#[trigger] text[i])
}

/// Whether every character of the text is in the repertoire.
pub fn is_encodable(text: &str) -> (ok: bool)
    ensures
        ok == encodable(text@),
{
    for c in it: text.chars()
        invariant
            it.seq() == text@,
            forall|k: int| 0 <= k < it.index() ==> in_repertoire(#[trigger] text@[k]),
    {
        if !((' ' <= c && c <= '~') || c == SET_A || c == SET_C) {
            return false;
        }
    }
    true
}

/// A picture of `modules.len()` columns and `height` rows can be held on this
/// machine.
pub open spec fn drawable(modules: Seq<u8>, height: u32) -> bool {
    modules.len() <= u32::MAX && modules.len() * height <= usize::MAX
}

/// What becomes of a row of modules: the picture of its bars, unless it is no
/// symbol with a correct check codeword or cannot be drawn.
pub open spec fn drawn(modules: Seq<u8>, height: u32) -> Result<Raster, EncodingError> {
    if !valid_symbol(modules) {
        Err(EncodingError::Checksum)
    } else if !drawable(modules, height) {
        Err(EncodingError::Generate)
    } else {
        Ok(Raster::bars(modules, height as nat))
    }
}

/// An outcome with the picture in place of the bitmap.
pub open spec fn pictured<E>(r: Result<Bitmap, E>) -> Result<Raster, E> {
    match r {
        Ok(bitmap) => Ok(bitmap@),
        Err(e) => Err(e),
    }
}

/// Checks a row of modules and draws it `height` pixels tall.
pub fn draw_symbol(modules: &Vec<u8>, height: u32) -> (r: Result<Bitmap, EncodingError>)
    ensures
        pictured(r) == drawn(modules@, height),
{
    if !check_symbol(modules) {
        return Err(EncodingError::Checksum);
    }
    match Bitmap::bars(modules, height) {
        Some(bitmap) => Ok(bitmap),
        None => Err(EncodingError::Generate),
    }
}

/// What becomes of a text: a character outside the repertoire or a text that
/// is too long is refused; else the symbology encoder decides, and its
/// modules are checked and drawn, unless they are more than a text of the
/// greatest length can make.
pub open spec fn encoded(text: Seq<char>, height: u32) -> Result<Raster, EncodingError> {
    if !encodable(text) {
        Err(EncodingError::Character)
    } else if text.len() > MAX_TEXT_CHARS {
        Err(EncodingError::Length)
    } else {
        match code128_symbol(text) {
            Err(e) => Err(e),
            Ok(modules) => if modules.len() > MAX_SYMBOL_MODULES {
                Err(EncodingError::Generate)
            } else {
                drawn(modules, height)
            },
        }
    }
}

/// Encodes a marked text as a Code 128 symbol and draws it `height` pixels
/// tall. A bitmap is returned only for a symbol that begins with a start code
/// and whose check codeword is the weighted sum of the codewords before it,
/// modulo 103.
pub fn encode(text: &str, height: u32) -> (r: Result<Bitmap, EncodingError>)
    ensures
        pictured(r) == encoded(text@, height),
        r is Ok ==> code128_symbol(text@) is Ok && valid_symbol(code128_symbol(text@)->Ok_0),
{
    if !is_encodable(text) {
        return Err(EncodingError::Character);
    }
    if text.unicode_len() > MAX_TEXT_CHARS {
        return Err(EncodingError::Length);
    }
    match encode_text(text) {
        Err(e) => Err(e),
        Ok(modules) => {
            if modules.len() > MAX_SYMBOL_MODULES {
                return Err(EncodingError::Generate);
            }
            draw_symbol(&modules, height)
        },
    }
}

/// Encodes a marked text and draws it at the fixed height.
pub fn generate_code_128(code: &str) -> (r: Result<Bitmap, EncodingError>)
    ensures
        pictured(r) == encoded(code@, HEIGHT),
{
    encode(code, HEIGHT)
}

/// Any two outcomes of [`encode`] for one text and one height are the same:
/// the same picture, pixel for pixel, or the same error.
pub proof fn lemma_encode_deterministic(
    text: Seq<char>,
    height: u32,
    first: Result<Bitmap, EncodingError>,
    second: Result<Bitmap, EncodingError>,
)
    requires
        pictured(first) == encoded(text, height),
        pictured(second) == encoded(text, height),
    ensures
        pictured(first) == pictured(second),
{
}

/// Every text that is encoded gives a symbol that begins with a start code
/// and whose last codeword is the weighted sum, modulo 103, of the codewords
/// before it.
pub proof fn lemma_encoded_is_checked(text: Seq<char>, height: u32)
    requires
        encoded(text, height) is Ok,
    ensures
        code128_symbol(text) is Ok,
        valid_symbol(code128_symbol(text)->Ok_0),
        exists|codewords: Seq<u8>|
            {
                &&& #[trigger] encodes(code128_symbol(text)->Ok_0, codewords)
                &&& codewords.len() >= 2
                &&& 103 <= codewords[0] <= 105
                &&& codewords.last() == weighted_sum(codewords.drop_last()) % 103
            },
{
    let modules = code128_symbol(text)->Ok_0;
    let codewords = choose|codewords: Seq<u8>| #[trigger]
        encodes(modules, codewords) && framed(codewords) && checked(codewords);
    assert(encodes(modules, codewords) && framed(codewords) && checked(codewords));
}

/// The picture of an encoded text has one column for each module of the
/// symbol, between 35 and 70380 of them, and `height` rows. Every column is
/// black from top to bottom or white from top to bottom, and the first two
/// and the last two columns are black.
pub proof fn lemma_encoded_picture(text: Seq<char>, height: u32, x: int, y: int)
    requires
        encoded(text, height) is Ok,
        0 <= x < (encoded(text, height)->Ok_0).width,
        0 <= y < height,
    ensures
        (encoded(text, height)->Ok_0).wf(),
        (encoded(text, height)->Ok_0).height == height,
        35 <= (encoded(text, height)->Ok_0).width <= MAX_SYMBOL_MODULES,
        (encoded(text, height)->Ok_0).width == (code128_symbol(text)->Ok_0).len(),
        (encoded(text, height)->Ok_0).at(x, y) == (encoded(text, height)->Ok_0).at(x, 0),
        (encoded(text, height)->Ok_0).at(x, y) == Rgba::spec_black() || (encoded(
            text,
            height,
        )->Ok_0).at(x, y) == Rgba::spec_white(),
        x < 2 || x >= (encoded(text, height)->Ok_0).width - 2 ==> (encoded(text, height)->Ok_0).at(
            x,
            y,
        ) == Rgba::spec_black(),
{
    let modules = code128_symbol(text)->Ok_0;
    lemma_symbol_edges(modules);
    lemma_bars_pixel(modules, height as nat, x, y);
    lemma_bars_pixel(modules, height as nat, x, 0);
}

/// A text with a character outside the repertoire is refused, and no picture
/// is made of any part of it.
pub proof fn lemma_foreign_character_fails(text: Seq<char>, height: u32, at: int)
    requires
        0 <= at < text.len(),
        !in_repertoire(text[at]),
    ensures
        encoded(text, height) == Err::<Raster, EncodingError>(EncodingError::Character),
{
}

/// Width of the canvas for two pictures, before it is turned.
pub open spec fn canvas_width(id: Raster, payload: Raster) -> nat {
    if id.width >= payload.width {
        id.width + SIDES as nat
    } else {
        payload.width + SIDES as nat
    }
}

/// The canvas before it is turned: white, with `id` at the top and `payload`
/// below it.
pub open spec fn canvas(id: Raster, payload: Raster) -> Raster {
    Raster::filled(canvas_width(id, payload), CANVAS_HEIGHT as nat, Rgba::spec_white()).overlay(
        id,
        LEFT as nat,
        TOP as nat,
    ).overlay(payload, LEFT as nat, (TOP + id.height + GAP) as nat)
}

/// What becomes of two pictures: the turned canvas, unless one of them is
/// empty, they are too tall for the canvas, or the canvas is too large.
pub open spec fn composed(id: Raster, payload: Raster) -> Result<Raster, CompositionError> {
    if id.width == 0 || id.height == 0 || payload.width == 0 || payload.height == 0 {
        Err(CompositionError::EmptySymbol)
    } else if TOP + id.height + GAP + payload.height > CANVAS_HEIGHT {
        Err(CompositionError::OutOfCanvas)
    } else if canvas_width(id, payload) > u32::MAX || canvas_width(id, payload) * CANVAS_HEIGHT
        > usize::MAX {
        Err(CompositionError::TooLarge)
    } else {
        Ok(canvas(id, payload).rotate270())
    }
}

/// Puts two symbols on one white canvas, `id` above `payload`, and turns the
/// canvas by 270 degrees.
pub fn compose(id: &Bitmap, payload: &Bitmap) -> (r: Result<Bitmap, CompositionError>)
    ensures
        pictured(r) == composed(id@, payload@),
{
    let w1 = id.width();
    let h1 = id.height();
    let w2 = payload.width();
    let h2 = payload.height();
    if w1 == 0 || h1 == 0 || w2 == 0 || h2 == 0 {
        return Err(CompositionError::EmptySymbol);
    }
    if TOP as u64 + h1 as u64 + GAP as u64 + h2 as u64 > CANVAS_HEIGHT as u64 {
        return Err(CompositionError::OutOfCanvas);
    }
    let wider = if w1 >= w2 {
        w1
    } else {
        w2
    };
    if wider > u32::MAX - SIDES {
        return Err(CompositionError::TooLarge);
    }
    let mut base = match Bitmap::from_pixel(wider + SIDES, CANVAS_HEIGHT, Rgba::white()) {
        Some(base) => base,
        None => {
            return Err(CompositionError::TooLarge);
        },
    };
    let first = base.copy_from(id, LEFT, TOP);
    let second = base.copy_from(payload, LEFT, TOP + h1 + GAP);
    assert(first && second);
    Ok(base.rotate270())
}

/// The canvas is 40 columns wider than the wider picture and 100 rows tall;
/// turning it swaps the two.
pub proof fn lemma_canvas_size(id: Raster, payload: Raster)
    ensures
        canvas(id, payload).width == (if id.width >= payload.width {
            id.width
        } else {
            payload.width
        }) + 40,
        canvas(id, payload).height == 100,
        canvas(id, payload).rotate270().width == canvas(id, payload).height,
        canvas(id, payload).rotate270().height == canvas(id, payload).width,
        composed(id, payload) matches Ok(turned) ==> turned.width == 100 && turned.height
            == canvas(id, payload).width,
{
}

/// What stands where on the canvas before it is turned: `id` with its
/// top-left corner at `(20, 10)`, `payload` at `(20, id.height + 30)`, and
/// opaque white everywhere else.
pub proof fn lemma_canvas_pixel(id: Raster, payload: Raster, x: int, y: int)
    requires
        composed(id, payload) is Ok,
        canvas(id, payload).contains(x, y),
    ensures
        canvas(id, payload).wf(),
        canvas(id, payload).at(x, y) == if LEFT <= x < LEFT + id.width && TOP <= y < TOP
            + id.height {
            id.at(x - LEFT, y - TOP)
        } else if LEFT <= x < LEFT + payload.width && TOP + id.height + GAP <= y < TOP + id.height
            + GAP + payload.height {
            payload.at(x - LEFT, y - (TOP + id.height + GAP))
        } else {
            Rgba::spec_white()
        },
{
    let width = canvas_width(id, payload);
    let blank = Raster::filled(width, CANVAS_HEIGHT as nat, Rgba::spec_white());
    let first = blank.overlay(id, LEFT as nat, TOP as nat);
    lemma_from_fn(width, CANVAS_HEIGHT as nat, |x: int, y: int| Rgba::spec_white());
    lemma_overlay_pixel(blank, id, LEFT as nat, TOP as nat, x, y);
    lemma_overlay_pixel(first, payload, LEFT as nat, (TOP + id.height + GAP) as nat, x, y);
}

/// What becomes of the two texts: both are encoded at the fixed height, the
/// first error ends the work, and the two pictures are composed.
pub open spec fn merged(self_id: Seq<char>, code: Seq<char>) -> Result<Raster, BarcodeError> {
    match encoded(self_id, HEIGHT) {
        Err(e) => Err(BarcodeError::Encoding(e)),
        Ok(id) => match encoded(code, HEIGHT) {
            Err(e) => Err(BarcodeError::Encoding(e)),
            Ok(payload) => match composed(id, payload) {
                Err(e) => Err(BarcodeError::Composition(e)),
                Ok(turned) => Ok(turned),
            },
        },
    }
}

/// Encodes the two marked texts and composes their symbols.
pub fn merge2(self_id: Arc<String>, code: &str) -> (r: Result<Bitmap, BarcodeError>)
    ensures
        pictured(r) == merged(self_id@, code@),
{
    let image1 = match generate_code_128(self_id.as_str()) {
        Ok(image) => image,
        Err(e) => {
            return Err(BarcodeError::Encoding(e));
        },
    };
    let image2 = match generate_code_128(code) {
        Ok(image) => image,
        Err(e) => {
            return Err(BarcodeError::Encoding(e));
        },
    };
    match compose(&image1, &image2) {
        Ok(turned) => Ok(turned),
        Err(e) => Err(BarcodeError::Composition(e)),
    }
}

/// Where both texts are encoded at the fixed height, their symbols are
/// composed: the canvas, once turned, is 100 columns wide and 40 rows taller
/// than the wider symbol is wide.
pub proof fn lemma_encoded_symbols_compose(self_id: Seq<char>, code: Seq<char>)
    requires
        encoded(self_id, HEIGHT) is Ok,
        encoded(code, HEIGHT) is Ok,
    ensures
        merged(self_id, code) is Ok,
        (merged(self_id, code)->Ok_0).width == 100,
        (merged(self_id, code)->Ok_0).height == (if (encoded(self_id, HEIGHT)->Ok_0).width >= (
        encoded(code, HEIGHT)->Ok_0).width {
            (encoded(self_id, HEIGHT)->Ok_0).width
        } else {
            (encoded(code, HEIGHT)->Ok_0).width
        }) + 40,
{
    lemma_symbol_edges(code128_symbol(self_id)->Ok_0);
    lemma_symbol_edges(code128_symbol(code)->Ok_0);
}

/// Where one of the two texts is not encoded, nothing is composed: the error
/// of the first text that fails is the outcome.
pub proof fn lemma_encoding_error_ends_the_work(self_id: Seq<char>, code: Seq<char>)
    ensures
        encoded(self_id, HEIGHT) matches Err(e) ==> merged(self_id, code) == Err::<
            Raster,
            BarcodeError,
        >(BarcodeError::Encoding(e)),
        encoded(self_id, HEIGHT) is Ok ==> (encoded(code, HEIGHT) matches Err(e) ==> merged(
            self_id,
            code,
        ) == Err::<Raster, BarcodeError>(BarcodeError::Encoding(e))),
{
}

/// What the two texts come to as a file: the error of encoding or
/// composition where there is one, else what serialising the turned canvas
/// gives.
pub open spec fn merged_file(self_id: Seq<char>, code: Seq<char>) -> Result<
    Seq<u8>,
    BarcodeError,
> {
    match merged(self_id, code) {
        Err(e) => Err(e),
        Ok(turned) => match serialized(turned) {
            Ok(file) => Ok(file),
            Err(e) => Err(BarcodeError::Serialization(e)),
        },
    }
}

/// Encodes the two marked texts, composes their symbols and returns the
/// canvas as the bytes of a PNG file.
pub fn merge2memory(self_id: Arc<String>, code: &str) -> (r: Result<Vec<u8>, BarcodeError>)
    ensures
        filed(r) == merged_file(self_id@, code@),
{
    let turned = match merge2(self_id, code) {
        Ok(turned) => turned,
        Err(e) => {
            return Err(e);
        },
    };
    match serialize(&turned) {
        Ok(bytes) => Ok(bytes),
        Err(e) => Err(BarcodeError::Serialization(e)),
    }
}

} // verus!
