//! Column widths for a table that is resized while it is on screen.
//!
//! This is the quick way to divide a table's width among its columns: one
//! pass, nothing evened out afterwards. Columns of fixed width are served
//! first. Columns with a ratio take that part of what the fixed ones leave,
//! each of them reckoned from the same amount. Greedy columns split evenly
//! what is left after that. No column with a ratio and no greedy column gets
//! less than the minimum width, so the columns can be wider together than the
//! table is.

use vstd::prelude::*;
use crate::text::{ends_in, ends_with, lowercase_of, to_lowercase};

verus! {

/// How a column claims its width.
#[derive(Debug, Clone, Copy, PartialEq, Eq, Structural)]
pub enum ColSize {
    /// The column is exactly this wide.
    Fixed(i32),
    /// The column takes this many hundredths of the width that the fixed
    /// columns leave.
    Ratio(u32),
    /// The column takes an even part of what is left in the end.
    Greedy,
}

/// A column of a table: the text in its header and how it claims its width.
#[derive(Debug, Clone)]
pub struct ColHeader {
    pub label: String,
    pub width: ColSize,
}

impl ColHeader {
    /// A column with the given header text and width rule.
    pub fn new(label: &str, col_size: ColSize) -> (header: Self)
        ensures
            header.label@ == label@,
            header.width == col_size,
    {
        ColHeader { label: label.to_owned(), width: col_size }
    }
}

/// The width rules of the columns, in the order of the columns.
pub open spec fn col_sizes(columns: Seq<ColHeader>) -> Seq<ColSize> {
    Seq::new(columns.len(), |i: int| columns[i].width)
}

/// The sum of the first `k` numbers of `s`.
pub open spec fn total_before(s: Seq<int>, k: int) -> int
    decreases k,
{
    if k <= 0 {
        0
    } else {
        total_before(s, k - 1) + s[k - 1]
    }
}

/// `a` divided by `b`, rounded toward zero.
pub open spec fn toward_zero(a: int, b: int) -> int {
    if a >= 0 {
        a / b
    } else {
        -((-a) / b)
    }
}

/// The number nearest to `x` that an `i32` can hold.
pub open spec fn clamp_i32(x: int) -> int {
    if x < i32::MIN {
        i32::MIN as int
    } else if x > i32::MAX {
        i32::MAX as int
    } else {
        x
    }
}

/// The larger of two numbers.
pub open spec fn larger(a: int, b: int) -> int {
    if a >= b {
        a
    } else {
        b
    }
}

/// For each column the width it takes for being fixed, and zero otherwise.
pub open spec fn fixed_parts(sizes: Seq<ColSize>) -> Seq<int> {
    Seq::new(
        sizes.len(),
        |i: int|
            match sizes[i] {
                ColSize::Fixed(w) => w as int,
                _ => 0int,
            },
    )
}

/// The width that the fixed columns leave of the table. It is below zero
/// where they are wider than the table.
pub open spec fn left_after_fixed(table_width: int, sizes: Seq<ColSize>) -> int {
    table_width - total_before(fixed_parts(sizes), sizes.len() as int)
}

/// The width of a column that takes `percent` hundredths of `left`, but at
/// least `min_width`.
pub open spec fn ratio_width(left: int, min_width: int, percent: int) -> int {
    larger(clamp_i32(toward_zero(left * percent, 100)), min_width)
}

/// For each column the width it takes for having a ratio, and zero
/// otherwise.
pub open spec fn ratio_parts(table_width: int, min_width: int, sizes: Seq<ColSize>) -> Seq<int> {
    Seq::new(
        sizes.len(),
        |i: int|
            match sizes[i] {
                ColSize::Ratio(percent) => ratio_width(
                    left_after_fixed(table_width, sizes),
                    min_width,
                    percent as int,
                ),
                _ => 0int,
            },
    )
}

/// The width that the fixed columns and those with a ratio leave of the
/// table.
pub open spec fn left_after_ratio(table_width: int, min_width: int, sizes: Seq<ColSize>) -> int {
    left_after_fixed(table_width, sizes) - total_before(
        ratio_parts(table_width, min_width, sizes),
        sizes.len() as int,
    )
}

/// For each column one if it is greedy, and zero otherwise.
pub open spec fn greedy_flags(sizes: Seq<ColSize>) -> Seq<int> {
    Seq::new(
        sizes.len(),
        |i: int|
            match sizes[i] {
                ColSize::Greedy => 1int,
                _ => 0int,
            },
    )
}

/// The number of greedy columns.
pub open spec fn greedy_count(sizes: Seq<ColSize>) -> int {
    total_before(greedy_flags(sizes), sizes.len() as int)
}

/// The width of each greedy column: an even part of what is left, but at
/// least `min_width`.
pub open spec fn greedy_width(table_width: int, min_width: int, sizes: Seq<ColSize>) -> int {
    larger(
        clamp_i32(
            toward_zero(left_after_ratio(table_width, min_width, sizes), greedy_count(sizes)),
        ),
        min_width,
    )
}

/// The width of column `i`.
pub open spec fn column_width(table_width: int, min_width: int, sizes: Seq<ColSize>, i: int) -> int {
    match sizes[i] {
        ColSize::Fixed(w) => w as int,
        ColSize::Ratio(percent) => ratio_width(
            left_after_fixed(table_width, sizes),
            min_width,
            percent as int,
        ),
        ColSize::Greedy => greedy_width(table_width, min_width, sizes),
    }
}

/// What holds of the width of every column, whatever the width of the
/// table, the minimum and the other columns are: a fixed column has its own
/// width, and a column with a ratio or a greedy column at least the minimum.
pub proof fn lemma_column_width_keeps_laws(
    table_width: int,
    min_width: int,
    sizes: Seq<ColSize>,
    i: int,
)
    requires
        0 <= i < sizes.len(),
    ensures
        match sizes[i] {
            ColSize::Fixed(w) => column_width(table_width, min_width, sizes, i) == w,
            ColSize::Ratio(_) => column_width(table_width, min_width, sizes, i) >= min_width,
            ColSize::Greedy => column_width(table_width, min_width, sizes, i) >= min_width,
        },
{
}

/// `a` divided by `b`, rounded toward zero and brought into the range of an
/// `i32`.
fn divide_toward_zero(a: i128, b: i128) -> (q: i32)
    requires
        b > 0,
        a > i128::MIN,
    ensures
        q == clamp_i32(toward_zero(a as int, b as int)),
{
    let whole: i128 = if a >= 0 {
        a / b
    } else {
        let up: i128 = (-a) / b;
        -up
    };
    if whole < i32::MIN as i128 {
        i32::MIN
    } else if whole > i32::MAX as i128 {
        i32::MAX
    } else {
        whole as i32
    }
}

/// The width of a column that takes `percent` hundredths of `left`.
fn ratio_share(left: i128, min_width: i32, percent: u32) -> (w: i32)
    requires
        -0x4000_0000_8000_0000 <= left <= 0x4000_0000_8000_0000,
    ensures
        w == ratio_width(left as int, min_width as int, percent as int),
{
    assert(-0x4000_0000_8000_0000 * 0x1_0000_0000 <= left * percent <= 0x4000_0000_8000_0000
        * 0x1_0000_0000) by (nonlinear_arith)
        requires
            -0x4000_0000_8000_0000 <= left <= 0x4000_0000_8000_0000,
            0 <= percent < 0x1_0000_0000,
    ;
    let scaled: i128 = left * (percent as i128);
    let part = divide_toward_zero(scaled, 100);
    if part >= min_width {
        part
    } else {
        min_width
    }
}

/// The width of every column of a table that is `table_width` wide, each
/// with the index of its column, in the order of the columns.
///
/// A fixed column gets its width. A column with a ratio gets that many
/// hundredths of what the fixed columns leave, a greedy column an even part
/// of what is left after both; either gets `min_width` where that is more.
/// Parts are rounded toward zero.
///
/// The index of a column is handed out as an `i32`, so there can be no more
/// columns than an `i32` can count.
pub fn resize_column_internal(table_width: i32, min_width: i32, columns: &Vec<ColHeader>) -> (widths:
    Vec<(i32, i32)>)
    requires
        columns@.len() <= i32::MAX,
    ensures
        widths@.len() == columns@.len(),
        forall|i: int|
            0 <= i < columns@.len() ==> {
                &&& (#[trigger] widths@[i]).0 == i
                &&& widths@[i].1 == column_width(
                    table_width as int,
                    min_width as int,
                    col_sizes(columns@),
                    i,
                )
            },
        forall|i: int|
            0 <= i < columns@.len() ==> (match columns@[i].width {
                ColSize::Fixed(w) => (#[trigger] widths@[i]).1 == w,
                ColSize::Ratio(_) => widths@[i].1 >= min_width,
                ColSize::Greedy => widths@[i].1 >= min_width,
            }),
{
    let n = columns.len();
    let ghost sizes = col_sizes(columns@);
    let ghost fixed = fixed_parts(sizes);
    let mut left: i128 = table_width as i128;
    let mut i: usize = 0;
    while i < n
        invariant
            i <= n,
            n == columns@.len(),
            n <= i32::MAX,
            sizes == col_sizes(columns@),
            fixed == fixed_parts(sizes),
            left == table_width - total_before(fixed, i as int),
            -0x8000_0000 * (i + 1) <= left <= 0x8000_0000 * (i + 1),
        decreases n - i,
    {
        match columns[i].width {
            ColSize::Fixed(w) => {
                left = left - w as i128;
            },
            _ => {},
        }
        i += 1;
    }
    let ghost ratios = ratio_parts(table_width as int, min_width as int, sizes);
    let ghost flags = greedy_flags(sizes);
    let mut rest: i128 = left;
    let mut greedy: i128 = 0;
    let mut i: usize = 0;
    while i < n
        invariant
            i <= n,
            n == columns@.len(),
            n <= i32::MAX,
            sizes == col_sizes(columns@),
            ratios == ratio_parts(table_width as int, min_width as int, sizes),
            flags == greedy_flags(sizes),
            left == left_after_fixed(table_width as int, sizes),
            -0x4000_0000_8000_0000 <= left <= 0x4000_0000_8000_0000,
            rest == left - total_before(ratios, i as int),
            left - 0x8000_0000 * i <= rest <= left + 0x8000_0000 * i,
            greedy == total_before(flags, i as int),
            0 <= greedy <= i,
        decreases n - i,
    {
        match columns[i].width {
            ColSize::Fixed(_) => {},
            ColSize::Ratio(percent) => {
                let w = ratio_share(left, min_width, percent);
                rest = rest - w as i128;
            },
            ColSize::Greedy => {
                greedy = greedy + 1;
            },
        }
        i += 1;
    }
    let even: i32 = if greedy > 0 {
        let part = divide_toward_zero(rest, greedy);
        if part >= min_width {
            part
        } else {
            min_width
        }
    } else {
        min_width
    };
    let mut widths: Vec<(i32, i32)> = Vec::new();
    let mut i: usize = 0;
    while i < n
        invariant
            i <= n,
            n == columns@.len(),
            n <= i32::MAX,
            sizes == col_sizes(columns@),
            left == left_after_fixed(table_width as int, sizes),
            -0x4000_0000_8000_0000 <= left <= 0x4000_0000_8000_0000,
            greedy == greedy_count(sizes),
            greedy > 0 ==> even == greedy_width(table_width as int, min_width as int, sizes),
            widths@.len() == i,
            forall|j: int|
                0 <= j < i ==> {
                    &&& (#[trigger] widths@[j]).0 == j
                    &&& widths@[j].1 == column_width(
                        table_width as int,
                        min_width as int,
                        sizes,
                        j,
                    )
                },
        decreases n - i,
    {
        let w: i32 = match columns[i].width {
            ColSize::Fixed(w) => w,
            ColSize::Ratio(percent) => ratio_share(left, min_width, percent),
            ColSize::Greedy => {
                proof {
                    lemma_flag_counted(greedy_flags(sizes), i as int, n as int);
                }
                even
            },
        };
        widths.push((i as i32, w));
        i += 1;
    }
    widths
}

/// The width below which no column with a ratio and no greedy column of a
/// table on screen is made.
pub const MIN_WIDTH: i32 = 50;

/// The width that a table sets aside for its scroll bar.
pub const SCROLL_BAR_WIDTH: i32 = 20;

/// The width of every column of a table whose widget is `widget_width`
/// wide: the widths that [`resize_column_internal`] gives for what the
/// scroll bar leaves of the widget, with [`MIN_WIDTH`] as the minimum.
pub fn resize_column(widget_width: i32, columns: &Vec<ColHeader>) -> (widths: Vec<(i32, i32)>)
    requires
        widget_width - SCROLL_BAR_WIDTH >= i32::MIN,
        columns@.len() <= i32::MAX,
    ensures
        widths@.len() == columns@.len(),
        forall|i: int|
            0 <= i < columns@.len() ==> {
                &&& (#[trigger] widths@[i]).0 == i
                &&& widths@[i].1 == column_width(
                    widget_width - SCROLL_BAR_WIDTH,
                    MIN_WIDTH as int,
                    col_sizes(columns@),
                    i,
                )
            },
{
    resize_column_internal(widget_width - SCROLL_BAR_WIDTH, MIN_WIDTH, columns)
}

/// The colour in which a file's row is written.
#[derive(Debug, Clone, Copy, PartialEq, Eq, Structural)]
pub enum FileColor {
    /// The colour of video files.
    Blue,
    /// The colour of every other file.
    Gray0,
}

/// The endings by which a video file is known, in lower case.
pub const VIDEO_FORMATS: [&'static str; 23] = [
    ".mkv",
    ".webm",
    ".flv",
    ".vob",
    ".ogg",
    ".ogv",
    ".avi",
    ".mov",
    ".qt",
    ".wmv",
    ".rm",
    ".rmvb",
    ".asf",
    ".amv",
    ".mp4",
    ".m4p",
    ".m4v",
    ".mpg",
    ".mp2",
    ".mpeg",
    ".mpe",
    ".mpv",
    ".m2v",
];

/// Whether a name in lower case has one of the endings of [`VIDEO_FORMATS`].
pub open spec fn ends_as_video(lower: Seq<char>) -> bool {
    exists|k: int|
        0 <= k < VIDEO_FORMATS@.len() && ends_in(lower, (#[trigger] VIDEO_FORMATS@[k])@)
}

/// Whether a name, taken without regard to case, has the ending of a video
/// file.
pub open spec fn is_video_name(file_name: Seq<char>) -> bool {
    ends_as_video(lowercase_of(file_name))
}

/// Whether a name that is in lower case already has the ending of a video
/// file. The endings are compared as they stand: a name in upper case has
/// none of them.
pub fn has_video_ending(lower: &str) -> (found: bool)
    ensures
        found == ends_as_video(lower@),
{
    let mut k: usize = 0;
    while k < 23
        invariant
            k <= 23,
            VIDEO_FORMATS@.len() == 23,
            forall|j: int| 0 <= j < k ==> !ends_in(lower@, (#[trigger] VIDEO_FORMATS@[j])@),
        decreases 23 - k,
    {
        if ends_with(lower, VIDEO_FORMATS[k]) {
            return true;
        }
        k += 1;
    }
    false
}

/// The colour for the row of the file `file_name`: blue for a video file,
/// which is known by the ending of its name, in upper or lower case.
pub fn get_file_color(file_name: &str) -> (color: FileColor)
    ensures
        color == (if is_video_name(file_name@) {
            FileColor::Blue
        } else {
            FileColor::Gray0
        }),
{
    let lower = to_lowercase(file_name);
    if has_video_ending(lower.as_str()) {
        FileColor::Blue
    } else {
        FileColor::Gray0
    }
}

/// A thousand bytes.
pub const KB: i64 = 1000;

/// A million bytes.
pub const MB: i64 = 1_000_000;

/// A thousand million bytes.
pub const GB: i64 = 1_000_000_000;

/// A size in the unit in which it is shown.
#[derive(Debug, Clone, Copy, PartialEq, Eq, Structural)]
pub enum PrettySize {
    /// More than a thousand million bytes: shown in gigabytes with one
    /// decimal. Holds the size in bytes.
    Giga(i64),
    /// More than a million bytes: holds the whole megabytes.
    Mega(i64),
    /// More than a thousand bytes: holds the whole kilobytes.
    Kilo(i64),
    /// Holds the bytes.
    Bytes(i64),
}

/// The unit in which a size is shown and the number that is shown with it.
/// A unit is used only for sizes above one of it.
pub fn pretty_size(size: i64) -> (shown: PrettySize)
    ensures
        size > GB ==> shown == PrettySize::Giga(size),
        MB < size <= GB ==> (shown matches PrettySize::Mega(whole) && whole == size / MB),
        KB < size <= MB ==> (shown matches PrettySize::Kilo(whole) && whole == size / KB),
        size <= KB ==> shown == PrettySize::Bytes(size),
{
    if size > GB {
        PrettySize::Giga(size)
    } else if size > MB {
        PrettySize::Mega(size / MB)
    } else if size > KB {
        PrettySize::Kilo(size / KB)
    } else {
        PrettySize::Bytes(size)
    }
}

/// A list of zeros and ones that has a one sums to more than zero.
proof fn lemma_flag_counted(flags: Seq<int>, i: int, k: int)
    requires
        0 <= i < k,
        flags[i] == 1,
        forall|j: int| 0 <= j < k ==> flags[j] >= 0,
    ensures
        total_before(flags, k) > 0,
    decreases k,
{
    lemma_flags_not_negative(flags, k - 1);
    if i < k - 1 {
        lemma_flag_counted(flags, i, k - 1);
    }
}

/// A list of numbers that are not below zero does not sum to less than zero.
proof fn lemma_flags_not_negative(flags: Seq<int>, k: int)
    requires
        forall|j: int| 0 <= j < k ==> flags[j] >= 0,
    ensures
        total_before(flags, k) >= 0,
    decreases k,
{
    if k > 0 {
        lemma_flags_not_negative(flags, k - 1);
    }
}

} // verus!
