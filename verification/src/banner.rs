//! Banner fitting arithmetic and character display widths, for checking how
//! the banner art renders at different terminal sizes.

use vstd::prelude::*;

verus! {

/// The three banner styles the size check chooses between.
#[derive(Clone, Copy, Debug, PartialEq, Eq, Structural)]
pub enum BannerSize {
    Wide,
    Medium,
    Compact,
}

/// Which banner a terminal of a given size gets, and the row it starts at:
/// the wide art from forty columns and ten rows, the medium art from
/// twenty-five columns and eight rows, the compact word otherwise.
pub open spec fn spec_pick_banner(cols: u16, rows: u16) -> (BannerSize, int) {
    if cols >= 40 && rows >= 10 {
        (BannerSize::Wide, 2)
    } else if cols >= 25 && rows >= 8 {
        (BannerSize::Medium, 3)
    } else {
        (BannerSize::Compact, 4)
    }
}

/// Pick the banner for a terminal size.
pub fn pick_banner(cols: u16, rows: u16) -> (r: (BannerSize, usize))
    ensures
        (r.0, r.1 as int) == spec_pick_banner(cols, rows),
{
    if cols >= 40 && rows >= 10 {
        (BannerSize::Wide, 2)
    } else if cols >= 25 && rows >= 8 {
        (BannerSize::Medium, 3)
    } else {
        (BannerSize::Compact, 4)
    }
}

/// Whether art of a given maximum line width fits a terminal width.
pub fn banner_fits(max_width: usize, cols: u16) -> (r: bool)
    ensures
        r == (max_width <= cols as usize),
{
    max_width <= cols as usize
}

/// What `unicode_width`'s character width returns: the displayed column
/// count, or none for a control character; a function of the character
/// alone.
pub uninterp spec fn width_of(c: char) -> Option<usize>;

/// Relies on `unicode_width::UnicodeWidthChar::width`: the character's
/// displayed width in columns per the Unicode east-Asian-width tables, none
/// for control characters.
#[verifier::external_body]
fn char_display_width(c: char) -> (r: Option<usize>)
    ensures
        r == width_of(c),
{
    unicode_width::UnicodeWidthChar::width(c)
}

/// Whether a character displays in exactly one column.
pub open spec fn spec_single_column(c: char) -> bool {
    width_of(c) == Some(1usize)
}

/// The positions of a line's characters that do not display in exactly one
/// column — the ones that break fixed-width banner art — in order.
pub fn unusual_width_positions(line: &str) -> (r: Vec<usize>)
    ensures
        forall|j: int|
            0 <= j < r@.len() ==> (#[trigger] r@[j]) < line@.len() && !spec_single_column(
                line@[r@[j] as int],
            ),
        forall|i: int|
            0 <= i < line@.len() && !spec_single_column(#[trigger] line@[i]) ==> r@.contains(
                i as usize,
            ),
        forall|j: int, k: int| 0 <= j < k < r@.len() ==> r@[j] < r@[k],
{
    let len = line.unicode_len();
    let mut out: Vec<usize> = Vec::new();
    let mut i: usize = 0;
    while i < len
        invariant
            i <= len,
            len == line@.len(),
            forall|j: int|
                0 <= j < out@.len() ==> (#[trigger] out@[j]) < i && !spec_single_column(
                    line@[out@[j] as int],
                ),
            forall|p: int|
                0 <= p < i && !spec_single_column(#[trigger] line@[p]) ==> out@.contains(
                    p as usize,
                ),
            forall|j: int, k: int| 0 <= j < k < out@.len() ==> out@[j] < out@[k],
        decreases len - i,
    {
        let c = line.get_char(i);
        let keep = match char_display_width(c) {
            Some(w) => w != 1,
            None => true,
        };
        if keep {
            let ghost before = out@;
            out.push(i);
            proof {
                assert(out@ =~= before.push(i));
                assert(out@[out@.len() - 1] == i);
                assert(forall|p: int|
                    0 <= p < i && !spec_single_column(#[trigger] line@[p]) ==> before.contains(
                        p as usize,
                    ));
                assert(forall|p: usize| before.contains(p) ==> out@.contains(p)) by {
                    assert(forall|j: int| 0 <= j < before.len() ==> out@[j] == before[j]);
                }
                assert(out@.contains(i));
            }
        }
        i += 1;
    }
    out
}

} // verus!
