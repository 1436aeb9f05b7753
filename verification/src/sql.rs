//! The text of the statements that store batches: one row of numbered
//! placeholders for each record.

use vstd::prelude::*;
use crate::text::{decimal_text, push_decimal};

verus! {

/// The tables that batches are stored in.
#[derive(Clone, Copy, Debug, PartialEq, Eq, Structural)]
pub enum Table {
    /// One row for each level of a book: time, price, quantity, side.
    OrderBooks,
    /// One row for each aggregated trade.
    AggTrades,
    /// One row for each liquidation.
    Liquidations,
}

/// How many liquidations one statement stores.
pub const LIQUIDATION_CHUNK: usize = 10;

/// The number of columns of a table.
pub open spec fn column_count(table: Table) -> nat {
    match table {
        Table::OrderBooks => 4,
        Table::AggTrades => 9,
        Table::Liquidations => 12,
    }
}

/// Whether a column, counted from zero, holds a time, which is sent as
/// seconds and converted by the store.
pub open spec fn is_time_column(table: Table, column: nat) -> bool {
    match table {
        Table::OrderBooks => column == 0,
        Table::AggTrades => column == 0 || column == 7,
        Table::Liquidations => column == 0 || column == 11,
    }
}

/// The head of the statement that inserts into a table.
pub open spec fn insert_head(table: Table) -> Seq<char> {
    match table {
        Table::OrderBooks =>
            "INSERT INTO binance.order_books (time, price_level, quantity, side) VALUES "@,
        Table::AggTrades =>
            "INSERT INTO binance.agg_trades (event_time, symbol, aggregate_trade_id, price, quantity, first_trade_id, last_trade_id, trade_time, buyer_is_market_maker) VALUES "@,
        Table::Liquidations =>
            "INSERT INTO binance.liquidations (event_time, symbol, side, order_type, time_in_force, quantity, price, avg_price, order_status, last_filled_quantity, total_filled_quantity, trade_time) VALUES "@,
    }
}

/// The placeholder of one column for the parameter of a number.
pub open spec fn placeholder(table: Table, column: nat, parameter: nat) -> Seq<char> {
    if is_time_column(table, column) {
        "to_timestamp($"@ + decimal_text(parameter) + "::FLOAT8)"@
    } else {
        "$"@ + decimal_text(parameter)
    }
}

/// The placeholders of the first `columns` columns of a row whose first
/// parameter has the number `first`, separated by a comma and a blank.
pub open spec fn placeholders(table: Table, first: nat, columns: nat) -> Seq<char>
    decreases columns,
{
    if columns == 0 {
        Seq::empty()
    } else if columns == 1 {
        placeholder(table, 0, first)
    } else {
        placeholders(table, first, (columns - 1) as nat) + ", "@ + placeholder(
            table,
            (columns - 1) as nat,
            (first + columns - 1) as nat,
        )
    }
}

/// One row of placeholders in round brackets.
pub open spec fn row_text(table: Table, first: nat) -> Seq<char> {
    "("@ + placeholders(table, first, column_count(table)) + ")"@
}

/// The first `rows` rows of a statement, separated by commas. Parameters
/// are numbered from one, row after row.
pub open spec fn rows_text(table: Table, rows: nat) -> Seq<char>
    decreases rows,
{
    if rows == 0 {
        Seq::empty()
    } else if rows == 1 {
        row_text(table, 1)
    } else {
        rows_text(table, (rows - 1) as nat) + ","@ + row_text(
            table,
            ((rows - 1) * column_count(table) + 1) as nat,
        )
    }
}

/// The statement that inserts `rows` records into a table.
pub open spec fn insert_text(table: Table, rows: nat) -> Seq<char> {
    insert_head(table) + rows_text(table, rows)
}

/// The number of columns of a table.
pub fn columns_of(table: Table) -> (count: u64)
    ensures
        count == column_count(table),
{
    match table {
        Table::OrderBooks => 4,
        Table::AggTrades => 9,
        Table::Liquidations => 12,
    }
}

/// Whether a column, counted from zero, holds a time.
pub fn column_holds_time(table: Table, column: u64) -> (time: bool)
    ensures
        time == is_time_column(table, column as nat),
{
    match table {
        Table::OrderBooks => column == 0,
        Table::AggTrades => column == 0 || column == 7,
        Table::Liquidations => column == 0 || column == 11,
    }
}

fn push_placeholder(text: &mut String, table: Table, column: u64, parameter: u64)
    ensures
        final(text)@ == old(text)@ + placeholder(table, column as nat, parameter as nat),
{
    if column_holds_time(table, column) {
        text.append("to_timestamp($");
        push_decimal(text, parameter);
        text.append("::FLOAT8)");
        proof {
            assert(old(text)@ + "to_timestamp($"@ + decimal_text(parameter as nat) + "::FLOAT8)"@
                =~= old(text)@ + placeholder(table, column as nat, parameter as nat));
        }
    } else {
        text.append("$");
        push_decimal(text, parameter);
        proof {
            assert(old(text)@ + "$"@ + decimal_text(parameter as nat) =~= old(text)@ + placeholder(
                table,
                column as nat,
                parameter as nat,
            ));
        }
    }
}

fn push_row(text: &mut String, table: Table, first: u64)
    requires
        first + 12 <= u64::MAX,
    ensures
        final(text)@ == old(text)@ + row_text(table, first as nat),
{
    let count = columns_of(table);
    text.append("(");
    let ghost opened = text@;
    let mut column: u64 = 0;
    proof {
        assert(opened + placeholders(table, first as nat, 0) =~= opened);
    }
    while column < count
        invariant
            column <= count,
            count == column_count(table),
            count <= 12,
            first + 12 <= u64::MAX,
            text@ == opened + placeholders(table, first as nat, column as nat),
        decreases count - column,
    {
        if column > 0 {
            text.append(", ");
        }
        push_placeholder(text, table, column, first + column);
        proof {
            let done = placeholders(table, first as nat, column as nat);
            let next = placeholder(table, column as nat, (first + column) as nat);
            if column == 0 {
                assert(done =~= Seq::empty());
                assert(opened + done + next =~= opened + placeholders(table, first as nat, 1));
            } else {
                assert(opened + done + ", "@ + next =~= opened + placeholders(
                    table,
                    first as nat,
                    (column + 1) as nat,
                ));
            }
        }
        column += 1;
    }
    text.append(")");
    proof {
        assert(old(text)@ + "("@ + placeholders(table, first as nat, column_count(table)) + ")"@
            =~= old(text)@ + row_text(table, first as nat));
    }
}

fn insert_head_of(table: Table) -> (head: String)
    ensures
        head@ == insert_head(table),
{
    match table {
        Table::OrderBooks =>
            "INSERT INTO binance.order_books (time, price_level, quantity, side) VALUES ".to_owned(),
        Table::AggTrades =>
            "INSERT INTO binance.agg_trades (event_time, symbol, aggregate_trade_id, price, quantity, first_trade_id, last_trade_id, trade_time, buyer_is_market_maker) VALUES ".to_owned(),
        Table::Liquidations =>
            "INSERT INTO binance.liquidations (event_time, symbol, side, order_type, time_in_force, quantity, price, avg_price, order_status, last_filled_quantity, total_filled_quantity, trade_time) VALUES ".to_owned(),
    }
}

/// The statement that inserts `rows` records into a table, or nothing where
/// there is no record to insert. Parameters are numbered from one, row
/// after row, each row taking as many as the table has columns.
pub fn insert_statement(table: Table, rows: u32) -> (statement: Option<String>)
    ensures
        match statement {
            Some(text) => rows > 0 && text@ == insert_text(table, rows as nat),
            None => rows == 0,
        },
{
    if rows == 0 {
        return None;
    }
    let count = columns_of(table);
    let mut text = insert_head_of(table);
    let ghost head = text@;
    let mut row: u32 = 0;
    proof {
        assert(head + rows_text(table, 0) =~= head);
    }
    while row < rows
        invariant
            row <= rows,
            count == column_count(table),
            count <= 12,
            text@ == head + rows_text(table, row as nat),
        decreases rows - row,
    {
        if row > 0 {
            text.append(",");
        }
        let first: u64 = (row as u64) * count + 1;
        push_row(&mut text, table, first);
        proof {
            let done = rows_text(table, row as nat);
            let next = row_text(table, first as nat);
            if row == 0 {
                assert(done =~= Seq::empty());
                assert(head + done + next =~= head + rows_text(table, 1));
            } else {
                assert(head + done + ","@ + next =~= head + rows_text(table, (row + 1) as nat));
            }
        }
        row += 1;
    }
    Some(text)
}

/// The bounds of each chunk when `total` records are stored in chunks of
/// `size`: the chunks follow each other from the first record to the last,
/// all are full but possibly the last, and none is empty.
pub open spec fn chunks_cover(chunks: Seq<(usize, usize)>, total: usize, size: usize) -> bool {
    &&& chunks.len() * size >= total
    &&& forall|i: int|
        0 <= i < chunks.len() ==> {
            &&& (#[trigger] chunks[i]).0 == i * size
            &&& chunks[i].1 == if (i + 1) * size <= total {
                (i + 1) * size
            } else {
                total as int
            }
            &&& chunks[i].0 < chunks[i].1
        }
}

/// Splits `total` records into chunks of `size`, each given by the index of
/// its first record and the index behind its last.
pub fn chunk_ranges(total: usize, size: usize) -> (chunks: Vec<(usize, usize)>)
    requires
        size > 0,
    ensures
        chunks_cover(chunks@, total, size),
{
    let mut chunks: Vec<(usize, usize)> = Vec::new();
    let mut start: usize = 0;
    proof {
        let n = chunks@.len() as int;
        assert(n * size == 0) by (nonlinear_arith)
            requires
                n == 0,
        ;
    }
    while start < total
        invariant
            size > 0,
            start <= total,
            start < total ==> start == chunks@.len() * size,
            start == total ==> chunks@.len() * size >= total,
            forall|i: int|
                0 <= i < chunks@.len() ==> {
                    &&& (#[trigger] chunks@[i]).0 == i * size
                    &&& chunks@[i].1 == if (i + 1) * size <= total {
                        (i + 1) * size
                    } else {
                        total as int
                    }
                    &&& chunks@[i].0 < chunks@[i].1
                },
        decreases total - start,
    {
        let end = if total - start >= size {
            start + size
        } else {
            total
        };
        proof {
            let n = chunks@.len() as int;
            assert((n + 1) * size == n * size + size) by (nonlinear_arith);
        }
        chunks.push((start, end));
        start = end;
    }
    chunks
}

} // verus!
