//! Where a new word may start. A word may not touch the one spawned just
//! before it: between the two there is at least one empty cell.

use vstd::prelude::*;

verus! {

/// The cells `[column, column + len)` that a spawned word covers.
#[derive(Clone, Copy, Debug, PartialEq, Eq, Structural)]
pub struct Span {
    pub column: i32,
    pub len: u32,
}

/// Whether a word of `len` cells starting at column `start` covers cell `c`.
pub open spec fn covers(start: int, len: int, c: int) -> bool {
    start <= c < start + len
}

/// Whether a word of `len` cells starting at column `x` would meet the
/// cells of `prev` or one of the two cells beside them.
pub open spec fn blocked(prev: Option<Span>, x: int, len: int) -> bool {
    match prev {
        None => false,
        Some(p) => p.column - 1 < x + len && x < p.column + p.len + 1,
    }
}

/// Whether a word of `len` cells may start at column `x` on a field of
/// `width` columns: it starts in `[0, width - len)` and is not blocked.
pub open spec fn is_free(width: int, len: int, prev: Option<Span>, x: int) -> bool {
    0 <= x < width - len && !blocked(prev, x, len)
}

/// How many free columns lie to the left of the previous word.
pub open spec fn left_columns(width: int, len: int, prev: Option<Span>) -> int {
    match prev {
        None => if width - len > 0 {
            width - len
        } else {
            0
        },
        Some(p) => {
            let end = if width - len < p.column - len {
                width - len
            } else {
                p.column - len
            };
            if end > 0 {
                end
            } else {
                0
            }
        },
    }
}

/// The first column to the right of the previous word at which a word may
/// start.
pub open spec fn right_start(prev: Option<Span>) -> int {
    match prev {
        None => 0,
        Some(p) => p.column + p.len + 1,
    }
}

/// How many free columns lie to the right of the previous word.
pub open spec fn right_columns(width: int, len: int, prev: Option<Span>) -> int {
    match prev {
        None => 0,
        Some(p) => if width - len > right_start(prev) {
            width - len - right_start(prev)
        } else {
            0
        },
    }
}

/// How many columns are free for a word of `len` cells.
pub open spec fn free_columns(width: int, len: int, prev: Option<Span>) -> int {
    left_columns(width, len, prev) + right_columns(width, len, prev)
}

/// The free column number `k`, counting from the left and from zero.
pub open spec fn column_of(width: int, len: int, prev: Option<Span>, k: int) -> int {
    if k < left_columns(width, len, prev) {
        k
    } else {
        right_start(prev) + (k - left_columns(width, len, prev))
    }
}

/// What the engine remembers of a spawned word is a span that lies on the
/// field.
pub open spec fn span_on_field(width: int, prev: Option<Span>) -> bool {
    prev matches Some(p) ==> 0 <= p.column && p.column + p.len < width
}

/// Counting the free columns finds each of them once and nothing else:
/// every number below the count gives a free column, different numbers
/// give different columns, and every free column has its number.
pub proof fn lemma_columns_cover(width: int, len: int, prev: Option<Span>, k: int, j: int, x: int)
    requires
        len >= 0,
        span_on_field(width, prev),
    ensures
        0 <= k < free_columns(width, len, prev) ==> is_free(
            width,
            len,
            prev,
            column_of(width, len, prev, k),
        ),
        0 <= k < j < free_columns(width, len, prev) ==> column_of(width, len, prev, k)
            < column_of(width, len, prev, j),
        is_free(width, len, prev, x) ==> exists|i: int|
            0 <= i < free_columns(width, len, prev) && #[trigger] column_of(width, len, prev, i)
                == x,
{
    if is_free(width, len, prev, x) {
        let i = if x < left_columns(width, len, prev) {
            x
        } else {
            x - right_start(prev) + left_columns(width, len, prev)
        };
        assert(0 <= i < free_columns(width, len, prev) && column_of(width, len, prev, i) == x);
    }
}

/// Two words spawned one after the other never share a cell, nor do they
/// stand side by side without a gap.
pub proof fn lemma_spans_apart(width: int, len: int, prev: Span, x: int)
    requires
        len >= 0,
        is_free(width, len, Some(prev), x),
    ensures
        forall|c: int|
            !(#[trigger] covers(prev.column as int, prev.len as int, c) && covers(x, len, c)),
        x + len < prev.column || prev.column + prev.len < x,
{
}

/// Counts the columns that are free for a word of `len` cells.
pub fn count_free(width: i32, len: usize, prev: Option<Span>) -> (n: usize)
    requires
        span_on_field(width as int, prev),
    ensures
        n == free_columns(width as int, len as int, prev),
{
    if width <= 0 || len >= width as usize {
        return 0;
    }
    let room: i64 = width as i64 - len as i64;
    match prev {
        None => room as usize,
        Some(p) => {
            let before: i64 = p.column as i64 - len as i64;
            let end: i64 = if room < before {
                room
            } else {
                before
            };
            let left: i64 = if end > 0 {
                end
            } else {
                0
            };
            let start: i64 = p.column as i64 + p.len as i64 + 1;
            let right: i64 = if room > start {
                room - start
            } else {
                0
            };
            (left + right) as usize
        },
    }
}

/// Finds the free column number `k`.
pub fn nth_free(width: i32, len: usize, prev: Option<Span>, k: usize) -> (x: i32)
    requires
        span_on_field(width as int, prev),
        k < free_columns(width as int, len as int, prev),
    ensures
        x == column_of(width as int, len as int, prev, k as int),
        is_free(width as int, len as int, prev, x as int),
{
    proof {
        lemma_columns_cover(width as int, len as int, prev, k as int, 0, 0);
    }
    match prev {
        None => k as i32,
        Some(p) => {
            let room: i64 = width as i64 - len as i64;
            let before: i64 = p.column as i64 - len as i64;
            let end: i64 = if room < before {
                room
            } else {
                before
            };
            let left: i64 = if end > 0 {
                end
            } else {
                0
            };
            if (k as i64) < left {
                k as i32
            } else {
                (p.column as i64 + p.len as i64 + 1 + (k as i64 - left)) as i32
            }
        },
    }
}

} // verus!
