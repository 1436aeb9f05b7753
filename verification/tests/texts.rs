use market_feed::elapsed::format_elapsed_time;
use market_feed::reader::{on_frame, Frame, ReaderStep, StopReason};
use market_feed::sql::{
    chunk_ranges, column_holds_time, columns_of, insert_statement, Table, LIQUIDATION_CHUNK,
};
use market_feed::text::{decimal_string, digit_str, push_decimal, push_two_digits};

#[test]
fn elapsed_time_is_written_in_days_hours_minutes_seconds() {
    assert_eq!(format_elapsed_time(0), "0d 00h 00m 00s");
    assert_eq!(format_elapsed_time(59), "0d 00h 00m 59s");
    assert_eq!(format_elapsed_time(60), "0d 00h 01m 00s");
    assert_eq!(format_elapsed_time(3599), "0d 00h 59m 59s");
    assert_eq!(format_elapsed_time(3600), "0d 01h 00m 00s");
    assert_eq!(format_elapsed_time(86_399), "0d 23h 59m 59s");
    assert_eq!(format_elapsed_time(86_400), "1d 00h 00m 00s");
    assert_eq!(format_elapsed_time(93_784), "1d 02h 03m 04s");
    assert_eq!(format_elapsed_time(12 * 86_400 + 10 * 3600 + 11 * 60 + 12), "12d 10h 11m 12s");
    assert_eq!(format_elapsed_time(u64::MAX), "213503982334601d 07h 00m 15s");
}

#[test]
fn decimal_numerals_have_no_leading_zero() {
    assert_eq!(decimal_string(0), "0");
    assert_eq!(decimal_string(7), "7");
    assert_eq!(decimal_string(10), "10");
    assert_eq!(decimal_string(1234567890), "1234567890");
    assert_eq!(decimal_string(u64::MAX), "18446744073709551615");
    for digit in 0..10u64 {
        assert_eq!(digit_str(digit), digit.to_string());
    }
    let mut text = "n=".to_string();
    push_decimal(&mut text, 405);
    assert_eq!(text, "n=405");
    push_two_digits(&mut text, 5);
    push_two_digits(&mut text, 0);
    push_two_digits(&mut text, 10);
    push_two_digits(&mut text, 123);
    assert_eq!(text, "n=405050010123");
}

#[test]
fn no_record_gives_no_statement() {
    assert_eq!(insert_statement(Table::OrderBooks, 0), None);
    assert_eq!(insert_statement(Table::AggTrades, 0), None);
    assert_eq!(insert_statement(Table::Liquidations, 0), None);
}

#[test]
fn order_book_rows_take_four_parameters_each() {
    assert_eq!(
        insert_statement(Table::OrderBooks, 1).unwrap(),
        "INSERT INTO binance.order_books (time, price_level, quantity, side) VALUES (to_timestamp($1::FLOAT8), $2, $3, $4)"
    );
    assert_eq!(
        insert_statement(Table::OrderBooks, 3).unwrap(),
        "INSERT INTO binance.order_books (time, price_level, quantity, side) VALUES (to_timestamp($1::FLOAT8), $2, $3, $4),(to_timestamp($5::FLOAT8), $6, $7, $8),(to_timestamp($9::FLOAT8), $10, $11, $12)"
    );
}

#[test]
fn trade_rows_take_nine_parameters_each() {
    assert_eq!(
        insert_statement(Table::AggTrades, 2).unwrap(),
        "INSERT INTO binance.agg_trades (event_time, symbol, aggregate_trade_id, price, quantity, first_trade_id, last_trade_id, trade_time, buyer_is_market_maker) VALUES (to_timestamp($1::FLOAT8), $2, $3, $4, $5, $6, $7, to_timestamp($8::FLOAT8), $9),(to_timestamp($10::FLOAT8), $11, $12, $13, $14, $15, $16, to_timestamp($17::FLOAT8), $18)"
    );
}

#[test]
fn liquidation_rows_take_twelve_parameters_each() {
    assert_eq!(
        insert_statement(Table::Liquidations, 2).unwrap(),
        "INSERT INTO binance.liquidations (event_time, symbol, side, order_type, time_in_force, quantity, price, avg_price, order_status, last_filled_quantity, total_filled_quantity, trade_time) VALUES (to_timestamp($1::FLOAT8), $2, $3, $4, $5, $6, $7, $8, $9, $10, $11, to_timestamp($12::FLOAT8)),(to_timestamp($13::FLOAT8), $14, $15, $16, $17, $18, $19, $20, $21, $22, $23, to_timestamp($24::FLOAT8))"
    );
}

#[test]
fn a_statement_has_as_many_parameters_as_rows_times_columns() {
    for (table, columns) in
        [(Table::OrderBooks, 4u64), (Table::AggTrades, 9), (Table::Liquidations, 12)]
    {
        assert_eq!(columns_of(table), columns);
        let text = insert_statement(table, 37).unwrap();
        assert_eq!(text.matches('$').count() as u64, 37 * columns);
        assert_eq!(text.matches("),(").count(), 36);
        let last = format!("${}", 37 * columns);
        assert!(text.contains(&last));
        let beyond = format!("${}", 37 * columns + 1);
        assert!(!text.contains(&beyond));
    }
    assert!(column_holds_time(Table::OrderBooks, 0));
    assert!(!column_holds_time(Table::OrderBooks, 1));
    assert!(column_holds_time(Table::AggTrades, 7));
    assert!(!column_holds_time(Table::AggTrades, 8));
    assert!(column_holds_time(Table::Liquidations, 11));
    assert!(!column_holds_time(Table::Liquidations, 7));
}

#[test]
fn records_are_split_into_chunks() {
    assert_eq!(LIQUIDATION_CHUNK, 10);
    assert_eq!(chunk_ranges(0, 10), vec![]);
    assert_eq!(chunk_ranges(1, 10), vec![(0, 1)]);
    assert_eq!(chunk_ranges(10, 10), vec![(0, 10)]);
    assert_eq!(chunk_ranges(11, 10), vec![(0, 10), (10, 11)]);
    assert_eq!(chunk_ranges(25, 10), vec![(0, 10), (10, 20), (20, 25)]);
    assert_eq!(chunk_ranges(3, 1), vec![(0, 1), (1, 2), (2, 3)]);
    assert_eq!(chunk_ranges(usize::MAX, usize::MAX), vec![(0, usize::MAX)]);
    assert_eq!(
        chunk_ranges(usize::MAX, usize::MAX - 1),
        vec![(0, usize::MAX - 1), (usize::MAX - 1, usize::MAX)]
    );
}

#[test]
fn a_reader_decodes_answers_passes_over_or_stops() {
    match on_frame(Frame::Text("{\"a\":1}".to_string())) {
        ReaderStep::Decode(text) => assert_eq!(text, "{\"a\":1}"),
        other => panic!("{:?}", other),
    }
    match on_frame(Frame::Ping(vec![1, 2, 3])) {
        ReaderStep::Reply(payload) => assert_eq!(payload, vec![1, 2, 3]),
        other => panic!("{:?}", other),
    }
    assert!(matches!(on_frame(Frame::Pong), ReaderStep::Continue));
    assert!(matches!(on_frame(Frame::Other), ReaderStep::Continue));
    assert!(matches!(on_frame(Frame::Close), ReaderStep::Stop(StopReason::Closed)));
    assert!(matches!(on_frame(Frame::Failed), ReaderStep::Stop(StopReason::TransportError)));
}
