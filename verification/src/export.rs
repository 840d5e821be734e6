//! Pure pieces of the card-export path: grid layout for exported tiles,
//! the average rating of an exported selection, and the decimal formatting
//! used on the cards.  Rendering itself (templates, rasterising, encoding)
//! is presentation and stays outside.

use crate::records::RatingInfo;
use vstd::arithmetic::div_mod::lemma_fundamental_div_mod;
use vstd::prelude::*;
use vstd::string::StringExecFns;

verus! {

/// Width of one rendered score card, in pixels.
pub const CARD_WIDTH: u32 = 1200;

/// Height of one rendered score card, in pixels.
pub const CARD_HEIGHT: u32 = 350;

/// Largest number of tiles an export accepts; far beyond any real export
/// and small enough that every grid offset fits in 32 bits.
pub const MAX_EXPORT_TILES: usize = 3_000_000;

/// One already-rendered score tile: its position in the selection and its
/// image, encoded as base64 text.
pub struct ScoreTileBase64 {
    pub index: i32,
    pub base64_string: String,
}

/// One tile placed on the export grid: pixel offsets and the image text.
pub struct ExportCardData {
    pub x_offset: u32,
    pub y_offset: u32,
    pub base64_data: String,
}

/// Lays the rendered tiles out on a three-column grid, one row of card
/// height per three tiles, starting one row down.
pub fn generate_export_data(info_vec: Vec<ScoreTileBase64>) -> (r: Vec<ExportCardData>)
    requires
        info_vec@.len() <= MAX_EXPORT_TILES,
    ensures
        r@.len() == info_vec@.len(),
        forall|i: int|
            0 <= i < r@.len() ==> (#[trigger] r@[i]).x_offset == (i % 3) * CARD_WIDTH
                && r@[i].y_offset == (i / 3 + 1) * CARD_HEIGHT && r@[i].base64_data
                == info_vec@[i].base64_string,
{
    let mut r: Vec<ExportCardData> = Vec::new();
    let mut i: usize = 0;
    while i < info_vec.len()
        invariant
            i <= info_vec@.len(),
            info_vec@.len() <= MAX_EXPORT_TILES,
            r@.len() == i,
            forall|k: int|
                0 <= k < i ==> (#[trigger] r@[k]).x_offset == (k % 3) * CARD_WIDTH
                    && r@[k].y_offset == (k / 3 + 1) * CARD_HEIGHT && r@[k].base64_data
                    == info_vec@[k].base64_string,
        decreases info_vec@.len() - i,
    {
        let x_offset = (i as u32 % 3) * CARD_WIDTH;
        let y_offset = (i as u32 / 3 + 1) * CARD_HEIGHT;
        r.push(
            ExportCardData {
                x_offset,
                y_offset,
                base64_data: info_vec[i].base64_string.clone(),
            },
        );
        i += 1;
    }
    r
}

/// The vertical position of the disclaimer row under `count` tiles, and
/// the total export height: one grid row per three tiles (rounded up), one
/// header row, and a fixed margin under the disclaimer.
pub fn export_layout(count: usize) -> (r: (u32, u32))
    requires
        count <= MAX_EXPORT_TILES,
    ensures
        r.0 == ((count + 2) / 3 + 1) * CARD_HEIGHT,
        r.1 == r.0 + 150,
{
    let rows = (count as u32 + 2) / 3;
    let y_disclaimer = (rows + 1) * CARD_HEIGHT;
    (y_disclaimer, y_disclaimer + 150)
}

/// Largest rating value the export average accepts: the curve's own upper
/// bound at the largest accepted difficulty constant.
pub const MAX_EXPORT_RATING: i64 = 4_005_000_000_000;

/// Whether the index at position `j` already occurred earlier in the list.
pub open spec fn index_repeats(indexes: Seq<usize>, j: int) -> bool {
    exists|j2: int| 0 <= j2 < j && (#[trigger] indexes[j2]) == indexes[j]
}

/// Sum of the ratings of the tiles named by the first `upto` exported
/// indexes, counting each distinct in-range index once.
pub open spec fn selected_rating_sum(
    ratings: Seq<RatingInfo>,
    indexes: Seq<usize>,
    upto: int,
) -> int
    decreases upto,
{
    if upto <= 0 {
        0
    } else {
        selected_rating_sum(ratings, indexes, upto - 1) + (if indexes[upto - 1] < ratings.len()
            && !index_repeats(indexes, upto - 1) {
            ratings[indexes[upto - 1] as int].rating as int
        } else {
            0
        })
    }
}

/// Whether the index at position `j` occurs among the first `j` positions.
fn repeats_before(indexes: &Vec<usize>, j: usize) -> (r: bool)
    requires
        j < indexes@.len(),
    ensures
        r == index_repeats(indexes@, j as int),
{
    let mut j2: usize = 0;
    while j2 < j
        invariant
            j2 <= j < indexes@.len(),
            forall|m: int| 0 <= m < j2 ==> (#[trigger] indexes@[m]) != indexes@[j as int],
        decreases j - j2,
    {
        if indexes[j2] == indexes[j] {
            return true;
        }
        j2 += 1;
    }
    false
}

/// The average rating over the exported tiles: the ratings of the entries
/// the exported indexes name, divided by the number of exported indexes;
/// zero when nothing is exported.
pub fn average_selected_rating(ratings: &Vec<RatingInfo>, indexes: &Vec<usize>) -> (r: i64)
    requires
        indexes@.len() <= 1_000_000,
        forall|k: int|
            0 <= k < ratings@.len() ==> 0 <= (#[trigger] ratings@[k]).rating
                <= MAX_EXPORT_RATING,
    ensures
        indexes@.len() == 0 ==> r == 0,
        indexes@.len() > 0 ==> r == selected_rating_sum(
            ratings@,
            indexes@,
            indexes@.len() as int,
        ) / indexes@.len() as int,
{
    let mut sum: i128 = 0;
    let mut j: usize = 0;
    while j < indexes.len()
        invariant
            j <= indexes@.len() <= 1_000_000,
            forall|k: int|
                0 <= k < ratings@.len() ==> 0 <= (#[trigger] ratings@[k]).rating
                    <= MAX_EXPORT_RATING,
            sum == selected_rating_sum(ratings@, indexes@, j as int),
            0 <= sum <= j * (MAX_EXPORT_RATING as int),
        decreases indexes@.len() - j,
    {
        if indexes[j] < ratings.len() && !repeats_before(indexes, j) {
            sum = sum + ratings[indexes[j]].rating as i128;
        }
        j += 1;
    }
    if indexes.len() == 0 {
        0
    } else {
        proof {
            crate::rating::lemma_ratio_bounds(
                sum as int,
                indexes@.len() as int,
                1_000_000 * (MAX_EXPORT_RATING as int),
            );
        }
        (sum / indexes.len() as i128) as i64
    }
}

/// The decimal digit character for `d`.
pub open spec fn digit_char(d: int) -> char {
    if d == 0 {
        '0'
    } else if d == 1 {
        '1'
    } else if d == 2 {
        '2'
    } else if d == 3 {
        '3'
    } else if d == 4 {
        '4'
    } else if d == 5 {
        '5'
    } else if d == 6 {
        '6'
    } else if d == 7 {
        '7'
    } else if d == 8 {
        '8'
    } else {
        '9'
    }
}

/// The decimal representation of `n`, most significant digit first.
pub open spec fn dec_rep(n: int) -> Seq<char>
    decreases n,
{
    if n < 10 {
        seq![digit_char(n)]
    } else {
        dec_rep(n / 10).push(digit_char(n % 10))
    }
}

/// The one-character string for a decimal digit.
fn digit_str(d: u64) -> (r: &'static str)
    requires
        d < 10,
    ensures
        r@ == seq![digit_char(d as int)],
{
    proof {
        reveal_strlit("0");
        reveal_strlit("1");
        reveal_strlit("2");
        reveal_strlit("3");
        reveal_strlit("4");
        reveal_strlit("5");
        reveal_strlit("6");
        reveal_strlit("7");
        reveal_strlit("8");
        reveal_strlit("9");
        assert("0"@ =~= seq![digit_char(0)]);
        assert("1"@ =~= seq![digit_char(1)]);
        assert("2"@ =~= seq![digit_char(2)]);
        assert("3"@ =~= seq![digit_char(3)]);
        assert("4"@ =~= seq![digit_char(4)]);
        assert("5"@ =~= seq![digit_char(5)]);
        assert("6"@ =~= seq![digit_char(6)]);
        assert("7"@ =~= seq![digit_char(7)]);
        assert("8"@ =~= seq![digit_char(8)]);
        assert("9"@ =~= seq![digit_char(9)]);
    }
    match d {
        0 => "0",
        1 => "1",
        2 => "2",
        3 => "3",
        4 => "4",
        5 => "5",
        6 => "6",
        7 => "7",
        8 => "8",
        _ => "9",
    }
}

/// Appends the decimal representation of `n`.
pub fn append_dec(s: &mut String, n: u64)
    ensures
        final(s)@ == old(s)@ + dec_rep(n as int),
    decreases n,
{
    if n < 10 {
        s.append(digit_str(n));
    } else {
        append_dec(s, n / 10);
        s.append(digit_str(n % 10));
        proof {
            assert(final(s)@ =~= old(s)@ + dec_rep(n as int));
        }
    }
}

/// The displayed length of a beatmap, `minutes:seconds` with the seconds
/// zero-padded to two digits, from a length in milliseconds.
pub open spec fn length_str_spec(length: u32) -> Seq<char> {
    let mins = length as int / 60000;
    let secs = (length as int - 60000 * mins) / 1000;
    dec_rep(mins) + seq![':'] + (if secs < 10 {
        seq!['0']
    } else {
        Seq::<char>::empty()
    }) + dec_rep(secs)
}

/// Formats a beatmap length in milliseconds as `minutes:seconds`.
pub fn format_length_str(length: u32) -> (r: String)
    ensures
        r@ == length_str_spec(length),
{
    proof {
        lemma_fundamental_div_mod(length as int, 60000);
    }
    let mins = length / 60000;
    let secs = (length - 60000 * mins) / 1000;
    let mut s = String::new();
    append_dec(&mut s, mins as u64);
    proof {
        reveal_strlit(":");
        reveal_strlit("0");
        assert(":"@ =~= seq![':']);
        assert("0"@ =~= seq!['0']);
    }
    s.append(":");
    if secs < 10 {
        s.append("0");
    }
    append_dec(&mut s, secs as u64);
    proof {
        assert(s@ =~= length_str_spec(length));
    }
    s
}

} // verus!
