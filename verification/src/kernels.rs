//! The operations that only move entries, on plain buffers of any entry type.
//!
//! A buffer holds a number of columns, one after the other, each with the
//! same number of rows: the entry in row `r` of column `c` is at `c * rows +
//! r`. A batched tensor holds the columns of all its samples in this way.

use vstd::prelude::*;
use vstd::arithmetic::div_mod::{lemma_fundamental_div_mod, lemma_fundamental_div_mod_converse};

verus! {

/// The place of row `r` of column `c` in a buffer whose columns have `rows`
/// rows.
pub open spec fn place(rows: nat, r: int, c: int) -> int {
    c * rows + r
}

/// A place determines its row and its column, and lies in the buffer if the
/// column does.
pub proof fn lemma_place(rows: nat, columns: nat, r: int, c: int)
    requires
        0 <= r < rows,
        0 <= c < columns,
    ensures
        0 <= place(rows, r, c) < rows * columns,
        place(rows, r, c) / (rows as int) == c,
        place(rows, r, c) % (rows as int) == r,
{
    lemma_fundamental_div_mod_converse(place(rows, r, c), rows as int, c, r);
    assert(0 <= c * rows && c * rows + rows <= rows * columns) by (nonlinear_arith)
        requires
            0 <= c < columns,
            0 <= rows,
    ;
}

/// The place of row `r` of column `c` in a buffer of `columns` columns of
/// `rows` rows. It lies in the buffer.
pub fn place_of(rows: usize, columns: usize, r: usize, c: usize) -> (at: usize)
    requires
        r < rows,
        c < columns,
        rows * columns <= usize::MAX,
    ensures
        at == place(rows as nat, r as int, c as int),
        at < rows * columns,
{
    proof {
        lemma_place(rows as nat, columns as nat, r as int, c as int);
        assert(0 <= c * rows) by (nonlinear_arith);
    }
    c * rows + r
}

/// The place after the last row of a column is the first of the next column.
proof fn lemma_next_column(rows: nat, c: int)
    ensures
        place(rows, rows as int, c) == place(rows, 0, c + 1),
{
    assert(c * rows + rows == (c + 1) * rows + 0) by (nonlinear_arith);
}

/// Every position of a buffer is the place of a row in a column.
pub proof fn lemma_place_of_position(rows: nat, columns: nat, i: int)
    requires
        0 <= i < rows * columns,
    ensures
        0 <= i % (rows as int) < rows,
        0 <= i / (rows as int) < columns,
        place(rows, i % (rows as int), i / (rows as int)) == i,
{
    let d = rows as int;
    assert(rows > 0) by (nonlinear_arith)
        requires
            0 <= i < rows * columns,
    ;
    lemma_fundamental_div_mod(i, d);
    let q = i / d;
    assert(0 <= i % d < d);
    assert(0 <= q < columns) by (nonlinear_arith)
        requires
            i == d * q + i % d,
            0 <= i % d < d,
            0 <= i < d * columns,
    ;
    assert(d * q == q * d) by (nonlinear_arith);
}

/// The buffer that stacks each column of `lower` below the same column of
/// `upper`.
pub open spec fn spec_concat_rows<T>(
    upper: Seq<T>,
    upper_rows: nat,
    lower: Seq<T>,
    lower_rows: nat,
    columns: nat,
) -> Seq<T> {
    let rows = upper_rows + lower_rows;
    Seq::new(
        rows * columns,
        |i: int|
            {
                let r = i % (rows as int);
                let c = i / (rows as int);
                if r < upper_rows {
                    upper[place(upper_rows, r, c)]
                } else {
                    lower[place(lower_rows, r - upper_rows, c)]
                }
            },
    )
}

/// The buffer that keeps, of each column of `input`, the rows from `start`
/// up to, not including, `end`.
pub open spec fn spec_slice_rows<T>(input: Seq<T>, rows: nat, start: nat, end: nat, columns: nat)
    -> Seq<T> {
    let kept = (end - start) as nat;
    Seq::new(
        kept * columns,
        |i: int| input[place(rows, start + i % (kept as int), i / (kept as int))],
    )
}

/// The buffer with `rows` rows in each column that holds `part` in the rows
/// from `start` up to `end` of each column and `fill` in every other row.
pub open spec fn spec_spread_rows<T>(
    part: Seq<T>,
    rows: nat,
    start: nat,
    end: nat,
    columns: nat,
    fill: T,
) -> Seq<T> {
    let kept = (end - start) as nat;
    Seq::new(
        rows * columns,
        |i: int|
            {
                let r = i % (rows as int);
                let c = i / (rows as int);
                if start <= r < end {
                    part[place(kept, r - start, c)]
                } else {
                    fill
                }
            },
    )
}

/// Slicing a concatenation at the boundary gives back the two operands: the
/// first rows, as many as `upper` has, are `upper`, and the rows after them
/// are `lower`.
pub proof fn lemma_slices_of_concat<T>(
    upper: Seq<T>,
    upper_rows: nat,
    lower: Seq<T>,
    lower_rows: nat,
    columns: nat,
)
    requires
        upper.len() == upper_rows * columns,
        lower.len() == lower_rows * columns,
    ensures
        spec_slice_rows(
            spec_concat_rows(upper, upper_rows, lower, lower_rows, columns),
            upper_rows + lower_rows,
            0,
            upper_rows,
            columns,
        ) == upper,
        spec_slice_rows(
            spec_concat_rows(upper, upper_rows, lower, lower_rows, columns),
            upper_rows + lower_rows,
            upper_rows,
            upper_rows + lower_rows,
            columns,
        ) == lower,
{
    let rows = upper_rows + lower_rows;
    let joined = spec_concat_rows(upper, upper_rows, lower, lower_rows, columns);
    let first = spec_slice_rows(joined, rows, 0, upper_rows, columns);
    let second = spec_slice_rows(joined, rows, upper_rows, rows, columns);
    assert(first.len() == upper.len());
    assert(second.len() == lower.len());
    assert forall|i: int| 0 <= i < upper.len() implies first[i] == upper[i] by {
        lemma_place_of_position(upper_rows, columns, i);
        let r = i % (upper_rows as int);
        let c = i / (upper_rows as int);
        lemma_place(rows, columns, r, c);
    }
    assert forall|i: int| 0 <= i < lower.len() implies second[i] == lower[i] by {
        lemma_place_of_position(lower_rows, columns, i);
        let r = i % (lower_rows as int);
        let c = i / (lower_rows as int);
        lemma_place(rows, columns, upper_rows + r, c);
    }
    assert(first =~= upper);
    assert(second =~= lower);
}

/// Slicing the rows into which a part was spread gives back the part.
pub proof fn lemma_slice_of_spread<T>(
    part: Seq<T>,
    rows: nat,
    start: nat,
    end: nat,
    columns: nat,
    fill: T,
)
    requires
        start <= end <= rows,
        part.len() == (end - start) * columns,
    ensures
        spec_slice_rows(
            spec_spread_rows(part, rows, start, end, columns, fill),
            rows,
            start,
            end,
            columns,
        ) == part,
{
    let kept = (end - start) as nat;
    let spread = spec_spread_rows(part, rows, start, end, columns, fill);
    let back = spec_slice_rows(spread, rows, start, end, columns);
    assert forall|i: int| 0 <= i < part.len() implies back[i] == part[i] by {
        lemma_place_of_position(kept, columns, i);
        let r = i % (kept as int);
        let c = i / (kept as int);
        lemma_place(rows, columns, start + r, c);
    }
    assert(back =~= part);
}

/// Stacks each column of `lower` below the same column of `upper`: the value
/// of a concatenation. Both buffers hold `columns` columns.
pub fn concat_rows<T: Copy>(
    upper: &[T],
    upper_rows: usize,
    lower: &[T],
    lower_rows: usize,
    columns: usize,
) -> (joined: Vec<T>)
    requires
        upper@.len() == upper_rows * columns,
        lower@.len() == lower_rows * columns,
    ensures
        joined@ == spec_concat_rows(
            upper@,
            upper_rows as nat,
            lower@,
            lower_rows as nat,
            columns as nat,
        ),
{
    let ghost rows = (upper_rows + lower_rows) as nat;
    let ghost want = spec_concat_rows(
        upper@,
        upper_rows as nat,
        lower@,
        lower_rows as nat,
        columns as nat,
    );
    let mut joined: Vec<T> = Vec::new();
    let mut from_upper: usize = 0;
    let mut from_lower: usize = 0;
    let mut c: usize = 0;
    assert(joined@ =~= want.take(place(rows, 0, 0)));
    while c < columns
        invariant
            c <= columns,
            rows == upper_rows + lower_rows,
            upper@.len() == upper_rows * columns,
            lower@.len() == lower_rows * columns,
            want == spec_concat_rows(
                upper@,
                upper_rows as nat,
                lower@,
                lower_rows as nat,
                columns as nat,
            ),
            from_upper == place(upper_rows as nat, 0, c as int),
            from_lower == place(lower_rows as nat, 0, c as int),
            joined@ == want.take(place(rows, 0, c as int)),
        decreases columns - c,
    {
        let mut r: usize = 0;
        while r < upper_rows
            invariant
                c < columns,
                r <= upper_rows,
                rows == upper_rows + lower_rows,
                upper@.len() == upper_rows * columns,
                want == spec_concat_rows(
                    upper@,
                    upper_rows as nat,
                    lower@,
                    lower_rows as nat,
                    columns as nat,
                ),
                from_upper == place(upper_rows as nat, r as int, c as int),
                joined@ == want.take(place(rows, r as int, c as int)),
            decreases upper_rows - r,
        {
            proof {
                lemma_place(upper_rows as nat, columns as nat, r as int, c as int);
                lemma_place(rows, columns as nat, r as int, c as int);
                let at = place(rows, r as int, c as int);
                assert(want.take(at + 1) =~= want.take(at).push(want[at]));
            }
            joined.push(upper[from_upper]);
            from_upper += 1;
            r += 1;
        }
        let mut r: usize = 0;
        while r < lower_rows
            invariant
                c < columns,
                r <= lower_rows,
                rows == upper_rows + lower_rows,
                lower@.len() == lower_rows * columns,
                want == spec_concat_rows(
                    upper@,
                    upper_rows as nat,
                    lower@,
                    lower_rows as nat,
                    columns as nat,
                ),
                from_lower == place(lower_rows as nat, r as int, c as int),
                joined@ == want.take(place(rows, upper_rows + r, c as int)),
            decreases lower_rows - r,
        {
            proof {
                lemma_place(lower_rows as nat, columns as nat, r as int, c as int);
                lemma_place(rows, columns as nat, upper_rows + r, c as int);
                let at = place(rows, upper_rows + r, c as int);
                assert(want.take(at + 1) =~= want.take(at).push(want[at]));
            }
            joined.push(lower[from_lower]);
            from_lower += 1;
            r += 1;
        }
        proof {
            lemma_next_column(upper_rows as nat, c as int);
            lemma_next_column(lower_rows as nat, c as int);
            lemma_next_column(rows, c as int);
        }
        c += 1;
    }
    proof {
        assert(place(rows, 0, columns as int) == rows * columns) by (nonlinear_arith)
            requires
                place(rows, 0, columns as int) == columns * rows + 0,
        ;
        assert(want.take(want.len() as int) =~= want);
    }
    joined
}

/// Keeps, of each column of `input`, the rows from `start` up to, not
/// including, `end`: the value of a slice. The buffer holds `columns` columns
/// of `rows` rows.
pub fn slice_rows<T: Copy>(
    input: &[T],
    rows: usize,
    start: usize,
    end: usize,
    columns: usize,
) -> (kept: Vec<T>)
    requires
        input@.len() == rows * columns,
        start <= end <= rows,
    ensures
        kept@ == spec_slice_rows(input@, rows as nat, start as nat, end as nat, columns as nat),
{
    let ghost height = (end - start) as nat;
    let ghost want = spec_slice_rows(input@, rows as nat, start as nat, end as nat, columns as nat);
    let mut kept: Vec<T> = Vec::new();
    let mut base: usize = 0;
    let mut c: usize = 0;
    assert(kept@ =~= want.take(place(height, 0, 0)));
    assert(input@.len() == input.len());
    while c < columns
        invariant
            c <= columns,
            input@.len() <= usize::MAX,
            start <= end <= rows,
            height == end - start,
            input@.len() == rows * columns,
            want == spec_slice_rows(input@, rows as nat, start as nat, end as nat, columns as nat),
            base == place(rows as nat, 0, c as int),
            kept@ == want.take(place(height, 0, c as int)),
        decreases columns - c,
    {
        let mut r: usize = start;
        while r < end
            invariant
                c < columns,
                start <= r <= end,
                end <= rows,
                input@.len() <= usize::MAX,
                height == end - start,
                input@.len() == rows * columns,
                want == spec_slice_rows(
                    input@,
                    rows as nat,
                    start as nat,
                    end as nat,
                    columns as nat,
                ),
                base == place(rows as nat, 0, c as int),
                kept@ == want.take(place(height, r - start, c as int)),
            decreases end - r,
        {
            proof {
                lemma_place(rows as nat, columns as nat, r as int, c as int);
                lemma_place(height, columns as nat, r - start, c as int);
                let at = place(height, r - start, c as int);
                assert(want.take(at + 1) =~= want.take(at).push(want[at]));
            }
            kept.push(input[base + r]);
            r += 1;
        }
        proof {
            lemma_next_column(rows as nat, c as int);
            lemma_next_column(height, c as int);
            assert((c + 1) * rows <= rows * columns) by (nonlinear_arith)
                requires
                    c + 1 <= columns,
                    0 <= rows,
            ;
        }
        base += rows;
        c += 1;
    }
    proof {
        assert(place(height, 0, columns as int) == height * columns) by (nonlinear_arith)
            requires
                place(height, 0, columns as int) == columns * height + 0,
        ;
        assert(want.take(want.len() as int) =~= want);
    }
    kept
}

/// Puts `part` into the rows from `start` up to `end` of each column of a
/// buffer with `rows` rows in each column, and `fill` into every other row.
/// With the gradient of a slice for `part` and zero for `fill`, this is what
/// the slice adds to the gradient of its operand.
pub fn spread_rows<T: Copy>(
    part: &[T],
    rows: usize,
    start: usize,
    end: usize,
    columns: usize,
    fill: T,
) -> (spread: Vec<T>)
    requires
        start <= end <= rows,
        part@.len() == (end - start) * columns,
    ensures
        spread@ == spec_spread_rows(
            part@,
            rows as nat,
            start as nat,
            end as nat,
            columns as nat,
            fill,
        ),
{
    let ghost height = (end - start) as nat;
    let ghost want = spec_spread_rows(
        part@,
        rows as nat,
        start as nat,
        end as nat,
        columns as nat,
        fill,
    );
    let mut spread: Vec<T> = Vec::new();
    let mut from_part: usize = 0;
    let mut c: usize = 0;
    assert(spread@ =~= want.take(place(rows as nat, 0, 0)));
    while c < columns
        invariant
            c <= columns,
            start <= end <= rows,
            height == end - start,
            part@.len() == height * columns,
            want == spec_spread_rows(
                part@,
                rows as nat,
                start as nat,
                end as nat,
                columns as nat,
                fill,
            ),
            from_part == place(height, 0, c as int),
            spread@ == want.take(place(rows as nat, 0, c as int)),
        decreases columns - c,
    {
        let mut r: usize = 0;
        while r < rows
            invariant
                c < columns,
                r <= rows,
                start <= end <= rows,
                height == end - start,
                part@.len() == height * columns,
                want == spec_spread_rows(
                    part@,
                    rows as nat,
                    start as nat,
                    end as nat,
                    columns as nat,
                    fill,
                ),
                from_part == place(
                    height,
                    if r < start {
                        0
                    } else if r < end {
                        r - start
                    } else {
                        height as int
                    },
                    c as int,
                ),
                spread@ == want.take(place(rows as nat, r as int, c as int)),
            decreases rows - r,
        {
            proof {
                lemma_place(rows as nat, columns as nat, r as int, c as int);
                let at = place(rows as nat, r as int, c as int);
                assert(want.take(at + 1) =~= want.take(at).push(want[at]));
            }
            if start <= r && r < end {
                proof {
                    lemma_place(height, columns as nat, r - start, c as int);
                }
                spread.push(part[from_part]);
                from_part += 1;
            } else {
                spread.push(fill);
            }
            r += 1;
        }
        proof {
            lemma_next_column(rows as nat, c as int);
            lemma_next_column(height, c as int);
        }
        c += 1;
    }
    proof {
        assert(place(rows as nat, 0, columns as int) == rows * columns) by (nonlinear_arith)
            requires
                place(rows as nat, 0, columns as int) == columns * rows + 0,
        ;
        assert(want.take(want.len() as int) =~= want);
    }
    spread
}

/// The two rows of a column of `rows` rows whose product is row `i` of the
/// pairwise product.
///
/// Plainly, the column is cut in two halves and row `i` of the upper half is
/// paired with row `i` of the lower half. After a dual affine map the column
/// holds two accumulators, one on the other; each of them is cut in two
/// halves and paired in this way within itself, and the products of the upper
/// accumulator come first.
pub open spec fn spec_pairwise_partners(rows: nat, post_dual: bool, i: nat) -> (nat, nat) {
    if post_dual {
        let quarter = rows / 4;
        let first = (i / quarter) * (rows / 2) + i % quarter;
        (first, first + quarter)
    } else {
        (i, i + rows / 2)
    }
}

/// Whether a column of `rows` rows can be paired: plainly it needs an even
/// number of rows, after a dual affine map each of the two accumulators does.
pub open spec fn pairable(rows: nat, post_dual: bool) -> bool {
    if post_dual {
        rows % 4 == 0
    } else {
        rows % 2 == 0
    }
}

/// Whether a column of `rows` rows can be paired.
pub fn can_pair(rows: usize, post_dual: bool) -> (can: bool)
    ensures
        can == pairable(rows as nat, post_dual),
{
    if post_dual {
        rows % 4 == 0
    } else {
        rows % 2 == 0
    }
}

/// The partners of a row of the product are two different rows of the
/// operand. After a dual affine map they lie in the accumulator whose
/// products the row belongs to: both in the upper half for the upper half of
/// the products, both in the lower half for the lower one.
pub proof fn lemma_partners_in_range(rows: nat, post_dual: bool, i: nat)
    requires
        pairable(rows, post_dual),
        i < rows / 2,
    ensures
        ({
            let (first, second) = spec_pairwise_partners(rows, post_dual, i);
            &&& first < second < rows
            &&& post_dual ==> (i < rows / 4 <==> second < rows / 2)
            &&& post_dual ==> (i >= rows / 4 <==> first >= rows / 2)
        }),
{
    if post_dual {
        let quarter = (rows / 4) as int;
        lemma_place_of_position(quarter as nat, 2, i as int);
        let acc = i as int / quarter;
        assert(acc * (rows / 2) == acc * 2 * quarter) by (nonlinear_arith)
            requires
                rows / 2 == 2 * quarter,
        ;
        assert(acc == 0 || acc == 1);
    }
}

/// No row of the operand is used twice: different rows of the product have
/// no partner in common.
pub proof fn lemma_partners_disjoint(rows: nat, post_dual: bool, i: nat, j: nat)
    requires
        pairable(rows, post_dual),
        i < rows / 2,
        j < rows / 2,
        i != j,
    ensures
        ({
            let (first, second) = spec_pairwise_partners(rows, post_dual, i);
            let (other_first, other_second) = spec_pairwise_partners(rows, post_dual, j);
            first != other_first && first != other_second && second != other_first && second
                != other_second
        }),
{
    if post_dual {
        let quarter = (rows / 4) as int;
        lemma_place_of_position(quarter as nat, 2, i as int);
        lemma_place_of_position(quarter as nat, 2, j as int);
        let a = i as int / quarter;
        let b = j as int / quarter;
        assert(a * (rows / 2) == a * 2 * quarter) by (nonlinear_arith)
            requires
                rows / 2 == 2 * quarter,
        ;
        assert(b * (rows / 2) == b * 2 * quarter) by (nonlinear_arith)
            requires
                rows / 2 == 2 * quarter,
        ;
        assert(a == 0 || a == 1);
        assert(b == 0 || b == 1);
    }
}

/// Every row of the operand is used: it is a partner of some row of the
/// product.
pub proof fn lemma_partners_cover(rows: nat, post_dual: bool, r: nat)
    requires
        pairable(rows, post_dual),
        r < rows,
    ensures
        exists|i: nat|
            i < rows / 2 && (spec_pairwise_partners(rows, post_dual, i).0 == r
                || spec_pairwise_partners(rows, post_dual, i).1 == r),
{
    let half = rows / 2;
    if post_dual {
        let quarter = (rows / 4) as int;
        let acc: int = if r < half {
            0
        } else {
            1
        };
        let within = r - acc * half;
        let k = if within < quarter {
            within
        } else {
            within - quarter
        };
        let i = (acc * quarter + k) as nat;
        lemma_place(quarter as nat, 2, k, acc);
        assert(acc * (rows / 2) == acc * 2 * quarter) by (nonlinear_arith)
            requires
                rows / 2 == 2 * quarter,
        ;
        assert(i < rows / 2);
        assert(spec_pairwise_partners(rows, post_dual, i).0 == r || spec_pairwise_partners(
            rows,
            post_dual,
            i,
        ).1 == r);
    } else {
        let i = if r < half {
            r
        } else {
            (r - half) as nat
        };
        assert(spec_pairwise_partners(rows, post_dual, i).0 == r || spec_pairwise_partners(
            rows,
            post_dual,
            i,
        ).1 == r);
    }
}

/// The two rows of a column of `rows` rows whose product is row `i` of the
/// pairwise product.
pub fn pairwise_partners(rows: usize, post_dual: bool, i: usize) -> (partners: (usize, usize))
    requires
        pairable(rows as nat, post_dual),
        i < rows / 2,
    ensures
        partners.0 == spec_pairwise_partners(rows as nat, post_dual, i as nat).0,
        partners.1 == spec_pairwise_partners(rows as nat, post_dual, i as nat).1,
{
    proof {
        lemma_partners_in_range(rows as nat, post_dual, i as nat);
    }
    if post_dual {
        let quarter = rows / 4;
        let first = if i < quarter {
            i
        } else {
            i + quarter
        };
        proof {
            let acc = i as int / (quarter as int);
            if i < quarter {
                lemma_place(quarter as nat, 2, i as int, 0);
            } else {
                lemma_place(quarter as nat, 2, i - quarter, 1);
            }
            assert(acc * (rows / 2) == acc * 2 * quarter) by (nonlinear_arith)
                requires
                    rows / 2 == 2 * quarter,
            ;
        }
        (first, first + quarter)
    } else {
        (i, i + rows / 2)
    }
}

} // verus!
