//! One multiplication table, produced by three forms of loop: a `while` that
//! skips one count, a `loop` that leaves by `break`, and a `for` over a range.

use vstd::prelude::*;
use vstd::string::StringExecFns;
use crate::decimal::{
    decimal, digit, is_digit, lemma_decimal_injective, lemma_decimal_shape, unsigned_text,
};
use crate::lines::{lemma_texts_add, lemma_texts_push, texts};

verus! {

/// The multiplier of the demonstration.
pub const MULTIPLIER: u8 = 5;

/// The last count of a table.
pub const LAST: u8 = 10;

/// The count whose row the `while` form leaves out.
pub const SKIPPED: u8 = 5;

/// The row `multiplier x count = product`.
pub open spec fn row(multiplier: nat, count: nat) -> Seq<char> {
    decimal(multiplier) + " x "@ + decimal(count) + " = "@ + decimal(multiplier * count)
}

/// The rows for the counts from 1 to `last`, in order.
pub open spec fn rows(multiplier: nat, last: nat) -> Seq<Seq<char>> {
    Seq::new(last, |i: int| row(multiplier, (i + 1) as nat))
}

/// The rows for the counts from 1 to `last` but `skipped`, in order.
pub open spec fn rows_skipping(multiplier: nat, last: nat, skipped: nat) -> Seq<Seq<char>> {
    if 1 <= skipped <= last {
        rows(multiplier, last).remove(skipped - 1)
    } else {
        rows(multiplier, last)
    }
}

/// A product of a multiplier that fits the whole table fits a byte.
proof fn lemma_product_fits(multiplier: u8, count: u8)
    requires
        multiplier * LAST <= u8::MAX,
        count <= LAST,
    ensures
        multiplier * count <= u8::MAX,
{
    assert(multiplier * count <= multiplier * LAST) by (nonlinear_arith)
        requires
            count <= LAST,
    ;
}

/// The rows up to `count` are the rows before it and then its own.
proof fn lemma_rows_step(multiplier: nat, count: nat)
    requires
        count >= 1,
    ensures
        rows(multiplier, count) == rows(multiplier, (count - 1) as nat).push(
            row(multiplier, count),
        ),
{
    assert(rows(multiplier, count) =~= rows(multiplier, (count - 1) as nat).push(
        row(multiplier, count),
    ));
}

/// With one count left out, the rows up to `count` are the rows before it
/// and then, unless it is the one left out, its own.
proof fn lemma_rows_skipping_step(multiplier: nat, count: nat, skipped: nat)
    requires
        count >= 1,
    ensures
        rows_skipping(multiplier, count, skipped) == if count == skipped {
            rows_skipping(multiplier, (count - 1) as nat, skipped)
        } else {
            rows_skipping(multiplier, (count - 1) as nat, skipped).push(row(multiplier, count))
        },
{
    let before = rows_skipping(multiplier, (count - 1) as nat, skipped);
    if count == skipped {
        assert(rows_skipping(multiplier, count, skipped) =~= before);
    } else {
        assert(rows_skipping(multiplier, count, skipped) =~= before.push(row(multiplier, count)));
    }
}

/// With the count `skipped` left out, the table is one row shorter; the rows
/// before the gap are those of the counts from 1, and each row after it is
/// that of the count one further on.
pub proof fn lemma_rows_skipping_counts(multiplier: nat, last: nat, skipped: nat)
    requires
        1 <= skipped <= last,
    ensures
        rows_skipping(multiplier, last, skipped).len() == last - 1,
        forall|i: int|
            0 <= i < skipped - 1 ==> #[trigger] rows_skipping(multiplier, last, skipped)[i] == row(
                multiplier,
                (i + 1) as nat,
            ),
        forall|i: int|
            skipped - 1 <= i < last - 1 ==> #[trigger] rows_skipping(multiplier, last, skipped)[i]
                == row(multiplier, (i + 2) as nat),
{
}

/// A number written out holds no blank.
proof fn lemma_decimal_has_no_blank(n: nat, i: int)
    requires
        0 <= i < decimal(n).len(),
    ensures
        decimal(n)[i] != ' ',
{
    lemma_decimal_shape(n);
    let c = decimal(n)[i];
    assert(is_digit(c));
    let d = choose|d: nat| d < 10 && c == #[trigger] digit(d);
    assert(digit(d) != ' ');
}

/// Within one table a row tells its count: two counts have the same row
/// only where they are equal.
pub proof fn lemma_row_tells_count(multiplier: nat, first: nat, second: nat)
    requires
        row(multiplier, first) == row(multiplier, second),
    ensures
        first == second,
{
    reveal_strlit(" x ");
    reveal_strlit(" = ");
    let head = decimal(multiplier) + " x "@;
    let a = decimal(first);
    let b = decimal(second);
    let rest_a = a + " = "@ + decimal(multiplier * first);
    let rest_b = b + " = "@ + decimal(multiplier * second);
    assert(row(multiplier, first) =~= head + rest_a);
    assert(row(multiplier, second) =~= head + rest_b);
    assert(rest_a =~= (head + rest_a).subrange(head.len() as int, (head + rest_a).len() as int));
    assert(rest_b =~= (head + rest_b).subrange(head.len() as int, (head + rest_b).len() as int));
    assert(rest_a == rest_b);
    if a.len() < b.len() {
        assert(rest_a[a.len() as int] == ' ');
        assert(rest_b[a.len() as int] == b[a.len() as int]);
        lemma_decimal_has_no_blank(second, a.len() as int);
    } else if b.len() < a.len() {
        assert(rest_b[b.len() as int] == ' ');
        assert(rest_a[b.len() as int] == a[b.len() as int]);
        lemma_decimal_has_no_blank(first, b.len() as int);
    }
    assert(a =~= rest_a.subrange(0, a.len() as int));
    assert(b =~= rest_b.subrange(0, b.len() as int));
    lemma_decimal_injective(first, second);
}

/// The row of the count left out stands nowhere in the table that leaves it
/// out.
pub proof fn lemma_skipped_row_absent(multiplier: nat, last: nat, skipped: nat)
    requires
        1 <= skipped <= last,
    ensures
        forall|i: int|
            0 <= i < last - 1 ==> #[trigger] rows_skipping(multiplier, last, skipped)[i] != row(
                multiplier,
                skipped,
            ),
{
    lemma_rows_skipping_counts(multiplier, last, skipped);
    assert forall|i: int| 0 <= i < last - 1 implies #[trigger] rows_skipping(
        multiplier,
        last,
        skipped,
    )[i] != row(multiplier, skipped) by {
        let count = if i < skipped - 1 {
            (i + 1) as nat
        } else {
            (i + 2) as nat
        };
        assert(rows_skipping(multiplier, last, skipped)[i] == row(multiplier, count));
        if row(multiplier, count) == row(multiplier, skipped) {
            lemma_row_tells_count(multiplier, count, skipped);
        }
    }
}

/// Writes the row of `count` in the table of `multiplier`. The product is
/// held in a byte, so it has to fit one.
pub fn table_row(multiplier: u8, count: u8) -> (line: String)
    requires
        multiplier * count <= u8::MAX,
    ensures
        line@ == row(multiplier as nat, count as nat),
{
    let product: u8 = multiplier * count;
    let mut line = unsigned_text(multiplier as u64);
    line.append(" x ");
    line.append(unsigned_text(count as u64).as_str());
    line.append(" = ");
    line.append(unsigned_text(product as u64).as_str());
    line
}

/// The table by a `while` loop: the count is raised first, and the row of
/// `SKIPPED` is passed over by `continue`. The products are held in a byte,
/// so the multiplier is 25 at most.
pub fn while_table(multiplier: u8) -> (lines: Vec<String>)
    requires
        multiplier * LAST <= u8::MAX,
    ensures
        lines@.len() == LAST - 1,
        texts(lines@) == rows_skipping(multiplier as nat, LAST as nat, SKIPPED as nat),
{
    let mut lines: Vec<String> = Vec::new();
    let mut count: u8 = 0;
    while count < LAST
        invariant
            count <= LAST,
            multiplier * LAST <= u8::MAX,
            texts(lines@) =~= rows_skipping(multiplier as nat, count as nat, SKIPPED as nat),
        decreases LAST - count,
    {
        count += 1;
        proof {
            lemma_rows_skipping_step(multiplier as nat, count as nat, SKIPPED as nat);
        }
        if count == SKIPPED {
            continue ;
        }
        proof {
            lemma_product_fits(multiplier, count);
        }
        let line = table_row(multiplier, count);
        proof {
            lemma_texts_push(lines@, line);
        }
        lines.push(line);
    }
    lines
}

/// The table by a `loop` that leaves by `break` once the row of `LAST` is
/// written. The products are held in a byte, so the multiplier is 25 at most.
pub fn loop_table(multiplier: u8) -> (lines: Vec<String>)
    requires
        multiplier * LAST <= u8::MAX,
    ensures
        lines@.len() == LAST,
        texts(lines@) == rows(multiplier as nat, LAST as nat),
{
    let mut lines: Vec<String> = Vec::new();
    let mut count: u8 = 0;
    loop
        invariant_except_break
            count < LAST,
        invariant
            count <= LAST,
            multiplier * LAST <= u8::MAX,
            texts(lines@) =~= rows(multiplier as nat, count as nat),
        ensures
            count == LAST,
        decreases LAST - count,
    {
        count += 1;
        proof {
            lemma_product_fits(multiplier, count);
        }
        let line = table_row(multiplier, count);
        proof {
            lemma_rows_step(multiplier as nat, count as nat);
            lemma_texts_push(lines@, line);
        }
        lines.push(line);
        if count == LAST {
            break ;
        }
    }
    lines
}

/// The table by a `for` loop over the counts from 1 to `LAST`. The products
/// are held in a byte, so the multiplier is 25 at most.
pub fn for_table(multiplier: u8) -> (lines: Vec<String>)
    requires
        multiplier * LAST <= u8::MAX,
    ensures
        lines@.len() == LAST,
        texts(lines@) == rows(multiplier as nat, LAST as nat),
{
    let mut lines: Vec<String> = Vec::new();
    for count in 1u8..LAST + 1
        invariant
            multiplier * LAST <= u8::MAX,
            texts(lines@) =~= rows(multiplier as nat, (count - 1) as nat),
    {
        proof {
            lemma_product_fits(multiplier, count);
        }
        let line = table_row(multiplier, count);
        proof {
            lemma_rows_step(multiplier as nat, count as nat);
            lemma_texts_push(lines@, line);
        }
        lines.push(line);
    }
    lines
}

/// The three tables of `MULTIPLIER`, one after the other: by `while`, by
/// `loop`, by `for`.
pub fn repeticoes() -> (lines: Vec<String>)
    ensures
        lines@.len() == 3 * LAST - 1,
        texts(lines@) == rows_skipping(MULTIPLIER as nat, LAST as nat, SKIPPED as nat) + rows(
            MULTIPLIER as nat,
            LAST as nat,
        ) + rows(MULTIPLIER as nat, LAST as nat),
{
    let multiplier: u8 = MULTIPLIER;
    let mut lines = while_table(multiplier);
    let mut by_loop = loop_table(multiplier);
    let mut by_for = for_table(multiplier);
    proof {
        lemma_texts_add(lines@, by_loop@);
        lemma_texts_add(lines@ + by_loop@, by_for@);
    }
    lines.append(&mut by_loop);
    lines.append(&mut by_for);
    lines
}

} // verus!
