use grid_trader::candle::{Candle, CandleError, RawCandle};
use grid_trader::database::{Database, Order as Direction};
use grid_trader::deal::{Deal, DealStatus};
use grid_trader::dto::{
    check_and_extract_data, extract_balance, extract_candles, handle_status, AnyResponse, Balance,
    BasicResponse, ListResponse, Order, OrderPages, PaginatedListResponse, StockError,
};
use grid_trader::fixed::SCALE;
use grid_trader::number::{parse_decimal, parse_integer};
use grid_trader::stock::{generate_query_str, Method, Side, Stock, RECV_WINDOW};
use grid_trader::retry::RetryPolicy;
use grid_trader::sync::{CandleSync, SyncCommand, SyncStatus, SYNC_PAGE_MS, SYNC_RETRY_MS};
use grid_trader::text::{fixed_text, integer_text};
use grid_trader::trade_state::TradeState;
use hmac::{Hmac, KeyInit, Mac};
use sha2::Sha256;

const ONE: i64 = SCALE;

fn raw(fields: [&str; 5]) -> RawCandle {
    RawCandle(
        fields[0].to_string(),
        fields[1].to_string(),
        fields[2].to_string(),
        fields[3].to_string(),
        fields[4].to_string(),
        "12.5".to_string(),
        "100".to_string(),
    )
}

fn answer<T>(ret_code: i64, result: T) -> BasicResponse<T> {
    BasicResponse { ret_code, ret_msg: if ret_code == 0 { "OK" } else { "denied" }.to_string(), result }
}

fn pairs(list: &[(&str, &str)]) -> Vec<(String, String)> {
    list.iter().map(|(k, v)| (k.to_string(), v.to_string())).collect()
}

fn bar(timestamp: i64, close: i64) -> Candle {
    Candle { timestamp, open: close * ONE, high: close * ONE, low: close * ONE, close: close * ONE }
}

#[test]
fn decimal_numbers_become_fixed_point() {
    assert_eq!(parse_decimal("42350.5"), Some(4_235_050_000_000));
    assert_eq!(parse_decimal("0.00000001"), Some(1));
    assert_eq!(parse_decimal("0.000000019"), Some(1));
    assert_eq!(parse_decimal("1"), Some(ONE));
    assert_eq!(parse_decimal("1."), Some(ONE));
    assert_eq!(parse_decimal(".5"), Some(ONE / 2));
    assert_eq!(parse_decimal("-2.25"), Some(-225_000_000));
    assert_eq!(parse_decimal("+2.25"), Some(225_000_000));
    assert_eq!(parse_decimal("007"), Some(7 * ONE));
    assert_eq!(parse_decimal("92233720368.54775807"), Some(i64::MAX));
    assert_eq!(parse_decimal("-92233720368.54775808"), Some(i64::MIN));
}

#[test]
fn what_is_no_decimal_number_is_rejected() {
    for text in ["", ".", "-", "+", "1e5", "1,5", "1.2.3", " 1", "1 ", "abc", "1.5x", "--1", "٣", "inf", "NaN"] {
        assert_eq!(parse_decimal(text), None, "{:?}", text);
    }
    assert_eq!(parse_decimal("92233720368.54775808"), None);
    assert_eq!(parse_decimal("-92233720368.54775809"), None);
    assert_eq!(parse_decimal("99999999999999999999999999999999999999999999"), None);
}

#[test]
fn whole_numbers_are_read() {
    assert_eq!(parse_integer("1622505600000"), Some(1_622_505_600_000));
    assert_eq!(parse_integer("-5"), Some(-5));
    assert_eq!(parse_integer("+5"), Some(5));
    assert_eq!(parse_integer("0"), Some(0));
    assert_eq!(parse_integer("9223372036854775807"), Some(i64::MAX));
    assert_eq!(parse_integer("-9223372036854775808"), Some(i64::MIN));
    assert_eq!(parse_integer("9223372036854775808"), None);
    assert_eq!(parse_integer("340282366920938463463374607431768211456"), None);
    for text in ["", "-", "1.0", "1 ", "x", "1_000"] {
        assert_eq!(parse_integer(text), None, "{:?}", text);
    }
}

#[test]
fn raw_candle_is_read_field_by_field() {
    let candle = Candle::from_raw(raw(["1700000000000", "100.5", "101", "99.25", "100"]));
    assert_eq!(
        candle,
        Ok(Candle {
            timestamp: 1_700_000_000_000,
            open: 10_050_000_000,
            high: 101 * ONE,
            low: 9_925_000_000,
            close: 100 * ONE,
        })
    );
    assert_eq!(Candle::from_raw(raw(["1.5", "x", "x", "x", "x"])), Err(CandleError::Timestamp));
    assert_eq!(Candle::from_raw(raw(["1", "x", "x", "x", "x"])), Err(CandleError::Open));
    assert_eq!(Candle::from_raw(raw(["1", "1", "", "x", "x"])), Err(CandleError::High));
    assert_eq!(Candle::from_raw(raw(["1", "1", "1", "1e3", "x"])), Err(CandleError::Low));
    assert_eq!(Candle::from_raw(raw(["1", "1", "1", "1", "one"])), Err(CandleError::Close));
}

#[test]
fn candle_shape_is_checked() {
    assert!(bar(1, 5).is_wf());
    assert!(Candle { timestamp: 1, open: 3, high: 5, low: 1, close: 4 }.is_wf());
    assert!(!Candle { timestamp: 1, open: 6, high: 5, low: 1, close: 4 }.is_wf());
    assert!(!Candle { timestamp: 1, open: 3, high: 5, low: 4, close: 3 }.is_wf());
    assert!(!Candle { timestamp: 1, open: 0, high: 5, low: 0, close: 4 }.is_wf());
}

#[test]
fn answer_with_code_zero_gives_its_result() {
    assert_eq!(check_and_extract_data(answer(0, 7u8)).unwrap(), 7);
    match check_and_extract_data(answer(10001, 7u8)) {
        Err(StockError::Refused { ret_code, ret_msg }) => {
            assert_eq!(ret_code, 10001);
            assert_eq!(ret_msg, "denied");
        }
        other => panic!("{:?}", other),
    }
    assert!(check_and_extract_data(answer(0, AnyResponse {})).is_ok());
}

#[test]
fn transport_status_decides_success() {
    assert!(handle_status(200).is_ok());
    assert!(handle_status(204).is_ok());
    assert!(handle_status(299).is_ok());
    for status in [0, 199, 300, 404, 500] {
        assert!(matches!(handle_status(status), Err(StockError::Status { status: s }) if s == status));
    }
}

#[test]
fn balance_is_that_of_the_first_account() {
    let two = ListResponse {
        list: vec![
            Balance { total_margin_balance: 5 * ONE },
            Balance { total_margin_balance: 9 * ONE },
        ],
    };
    assert_eq!(extract_balance(answer(0, two)).unwrap(), 5 * ONE);
    let none = ListResponse { list: vec![] };
    assert!(matches!(extract_balance(answer(0, none)), Err(StockError::EmptyBalance)));
    let refused = ListResponse { list: vec![Balance { total_margin_balance: 1 }] };
    assert!(matches!(extract_balance(answer(3, refused)), Err(StockError::Refused { .. })));
}

#[test]
fn candles_come_out_in_ascending_order() {
    let list = ListResponse {
        list: vec![
            raw(["30", "3", "3", "3", "3"]),
            raw(["20", "2", "2", "2", "2"]),
            raw(["10", "1", "1", "1", "1"]),
        ],
    };
    let candles = extract_candles(answer(0, list)).unwrap();
    assert_eq!(candles, vec![bar(10, 1), bar(20, 2), bar(30, 3)]);
    let broken = ListResponse {
        list: vec![raw(["30", "3", "3", "3", "3"]), raw(["20", "2", "up", "2", "2"])],
    };
    assert!(matches!(
        extract_candles(answer(0, broken)),
        Err(StockError::BadCandle { field: CandleError::High })
    ));
    let refused = ListResponse { list: vec![] };
    assert!(matches!(extract_candles(answer(5, refused)), Err(StockError::Refused { .. })));
    let empty = ListResponse { list: vec![] };
    assert!(extract_candles(answer(0, empty)).unwrap().is_empty());
}

#[test]
fn order_pages_are_gathered_until_the_cursor_is_empty() {
    let order = |id: &str| Order { order_id: id.to_string(), price: ONE, qty: ONE, side: Side::Buy };
    let mut pages = OrderPages::new();
    assert_eq!(pages.cursor, "");
    let first = PaginatedListResponse { next_page_cursor: "page-2".to_string(), list: vec![order("a"), order("b")] };
    assert_eq!(pages.accept(answer(0, first)).unwrap(), false);
    assert_eq!(pages.cursor, "page-2");
    let refused = PaginatedListResponse { next_page_cursor: "zz".to_string(), list: vec![order("q")] };
    assert!(matches!(pages.accept(answer(1, refused)), Err(StockError::Refused { .. })));
    assert_eq!(pages.cursor, "page-2");
    assert_eq!(pages.orders.len(), 2);
    let last = PaginatedListResponse { next_page_cursor: String::new(), list: vec![order("c")] };
    assert_eq!(pages.accept(answer(0, last)).unwrap(), true);
    let ids: Vec<&str> = pages.orders.iter().map(|o| o.order_id.as_str()).collect();
    assert_eq!(ids, vec!["a", "b", "c"]);
    let copy = pages.orders[0].clone();
    assert_eq!(copy.order_id, "a");
    assert_eq!(copy.side, Side::Buy);
}

#[test]
fn numbers_are_written_as_text() {
    assert_eq!(integer_text(0), "0");
    assert_eq!(integer_text(1_622_505_600_000), "1622505600000");
    assert_eq!(integer_text(-45), "-45");
    assert_eq!(integer_text(i64::MIN), "-9223372036854775808");
    assert_eq!(integer_text(i64::MAX), "9223372036854775807");
    assert_eq!(fixed_text(81_000_000, 2), "0.81");
    assert_eq!(fixed_text(ONE, 2), "1.00");
    assert_eq!(fixed_text(4_235_050_000_000, 1), "42350.5");
    assert_eq!(fixed_text(123_456_789, 0), "1");
    assert_eq!(fixed_text(150_000_000, 0), "2");
    assert_eq!(fixed_text(250_000_000, 0), "2");
    assert_eq!(fixed_text(12_500_000, 2), "0.12");
    assert_eq!(fixed_text(13_500_000, 2), "0.14");
    assert_eq!(fixed_text(12_500_001, 2), "0.13");
    assert_eq!(fixed_text(99_999_999, 3), "1.000");
    assert_eq!(fixed_text(-100_000, 2), "-0.00");
    assert_eq!(fixed_text(-225_000_000, 2), "-2.25");
    assert_eq!(fixed_text(5, 8), "0.00000005");
    assert_eq!(fixed_text(5, 10), "0.0000000500");
    assert_eq!(fixed_text(i64::MIN, 8), "-92233720368.54775808");
}

#[test]
fn text_and_numbers_agree() {
    for v in [0, 1, -1, 10, 99, 100, 123_456_789, i64::MAX, i64::MIN] {
        assert_eq!(parse_integer(&integer_text(v)), Some(v));
        assert_eq!(parse_decimal(&fixed_text(v, 8)), Some(v));
    }
}

#[test]
fn query_joins_the_parameters_in_order() {
    assert_eq!(generate_query_str(&pairs(&[])), "");
    assert_eq!(generate_query_str(&pairs(&[("a", "1")])), "a=1");
    assert_eq!(
        generate_query_str(&pairs(&[("category", "linear"), ("symbol", "BTCUSDT"), ("limit", "10")])),
        "category=linear&symbol=BTCUSDT&limit=10"
    );
}

#[test]
fn signature_is_the_hex_code_of_the_payload() {
    let stock = Stock::new("public".to_string(), "secret".to_string());
    let signature = stock.generate_signature(1_700_000_000_000, "a=1&b=2").unwrap();
    let mut mac = Hmac::<Sha256>::new_from_slice(b"secret").unwrap();
    mac.update(format!("1700000000000public{}a=1&b=2", RECV_WINDOW).as_bytes());
    let expected: String =
        mac.finalize().into_bytes().iter().map(|byte| format!("{:02x}", byte)).collect();
    assert_eq!(signature, expected);
    assert_eq!(signature.len(), 64);
    assert!(signature.chars().all(|c| c.is_ascii_digit() || ('a'..='f').contains(&c)));
    let other = stock.generate_signature(1_700_000_000_001, "a=1&b=2").unwrap();
    assert_ne!(signature, other);
}

#[test]
fn signature_matches_a_known_code() {
    // HMAC-SHA256 with the key "key" of "0" + "" + "5000" + "" is fixed
    let stock = Stock::new(String::new(), "key".to_string());
    let signature = stock.generate_signature(0, "").unwrap();
    let mut mac = Hmac::<Sha256>::new_from_slice(b"key").unwrap();
    mac.update(b"05000");
    assert_eq!(signature, hex::encode(mac.finalize().into_bytes()));
}

#[test]
fn headers_carry_key_signature_and_timestamp() {
    let stock = Stock::new("public".to_string(), "secret".to_string());
    let headers = stock.inject_api_headers(&"abcd".to_string(), 17);
    assert_eq!(
        headers,
        pairs(&[
            ("X-BAPI-API-KEY", "public"),
            ("X-BAPI-SIGN", "abcd"),
            ("X-BAPI-SIGN-TYPE", "2"),
            ("X-BAPI-TIMESTAMP", "17"),
            ("X-BAPI-RECV-WINDOW", "5000"),
        ])
    );
}

#[test]
fn requests_name_end_point_and_parameters() {
    let candles = Stock::get_candles("BTCUSDT", 60);
    assert_eq!(candles.method, Method::Get);
    assert_eq!(candles.point, "market/kline");
    assert_eq!(
        candles.params,
        pairs(&[("category", "linear"), ("symbol", "BTCUSDT"), ("interval", "60"), ("limit", "10")])
    );
    let from = Stock::get_candles_from(1_622_505_599_999, "BTCUSDT", 60);
    assert_eq!(
        from.params,
        pairs(&[
            ("category", "linear"),
            ("symbol", "BTCUSDT"),
            ("interval", "60"),
            ("start", "1622505599999"),
            ("limit", "1000"),
        ])
    );
    let balance = Stock::get_balance();
    assert_eq!(balance.point, "account/wallet-balance");
    assert_eq!(balance.params, pairs(&[("accountType", "UNIFIED")]));
    let orders = Stock::get_orders("BTCUSDT", "page-2");
    assert_eq!(orders.point, "order/realtime");
    assert_eq!(
        orders.params,
        pairs(&[
            ("category", "linear"),
            ("symbol", "BTCUSDT"),
            ("openOnly", "0"),
            ("orderFilter", "Order"),
            ("cursor", "page-2"),
            ("limit", "50"),
        ])
    );
    let place = Stock::place_order("BTCUSDT", Side::Sell, 4_235_050_000_000, 3, 1, 81_000_000);
    assert_eq!(place.method, Method::Post);
    assert_eq!(place.point, "order/create");
    assert_eq!(
        place.params,
        pairs(&[
            ("category", "linear"),
            ("symbol", "BTCUSDT"),
            ("side", "Sell"),
            ("orderType", "Limit"),
            ("qty", "0.810"),
            ("price", "42350.5"),
        ])
    );
    let liquidate = Stock::liquidate("BTCUSDT", 2, 3 * ONE);
    assert_eq!(
        liquidate.params,
        pairs(&[
            ("category", "linear"),
            ("symbol", "BTCUSDT"),
            ("side", "Buy"),
            ("orderType", "Market"),
            ("qty", "3.00"),
        ])
    );
    let cancel = Stock::cancel_order("BTCUSDT", "id-1");
    assert_eq!(cancel.point, "order/cancel");
    assert_eq!(
        cancel.params,
        pairs(&[("category", "linear"), ("symbol", "BTCUSDT"), ("orderId", "id-1")])
    );
}

#[test]
fn names_of_states_and_sides() {
    let all = [
        (DealStatus::Initial, "Initial"),
        (DealStatus::FilledBuy, "FilledBuy"),
        (DealStatus::FilledSell, "FilledSell"),
        (DealStatus::Profit, "Profit"),
        (DealStatus::FailBuy, "FailBuy"),
        (DealStatus::FailSell, "FailSell"),
    ];
    for (status, name) in all {
        assert_eq!(status.name(), name);
        assert_eq!(DealStatus::from_name(&name.to_string()), Some(status));
    }
    assert_eq!(DealStatus::from_name(&"initial".to_string()), None);
    assert_eq!(DealStatus::from_name(&String::new()), None);
    assert_eq!(Side::Buy.name(), "Buy");
    assert_eq!(Side::Sell.name(), "Sell");
    assert_eq!(Direction::ASC.name(), "ASC");
    assert_eq!(Direction::DESC.name(), "DESC");
}

#[test]
fn store_keeps_rows_in_order_and_replaces_by_timestamp() {
    let mut database = Database::new();
    Candle::upsert_candles(&mut database, vec![bar(30, 3), bar(10, 1), bar(20, 2), bar(10, 7)]);
    assert_eq!(database.candle_count(), 3);
    assert_eq!(database.candle_at(0), bar(10, 7));
    assert_eq!(database.candle_at(2), bar(30, 3));
    assert_eq!(Candle::get_last_candle_timestamp(&database), 30);
    assert_eq!(Candle::get_candles(&database, 2), vec![bar(20, 2), bar(30, 3)]);
    assert_eq!(Candle::get_candles(&database, 0), vec![]);
    assert_eq!(Candle::get_candles(&database, 100).len(), 3);
    assert_eq!(Candle::get_candles(&database, -1).len(), 3);
    assert_eq!(Candle::get_last_candle_timestamp(&Database::new()), 0);
}

#[test]
fn open_deals_are_listed_in_order() {
    let deal = |timestamp: i64, status: DealStatus| Deal {
        timestamp,
        status,
        amount: ONE,
        unfilled_amount: 0,
        base_price: 100,
        buy_price: 99,
        buy_stop_price: 97,
        sell_price: 101,
        sell_stop_price: 103,
    };
    let mut database = Database::new();
    for d in [
        deal(5, DealStatus::FilledBuy),
        deal(1, DealStatus::Profit),
        deal(3, DealStatus::Initial),
        deal(4, DealStatus::FailSell),
        deal(2, DealStatus::FilledSell),
        deal(6, DealStatus::FailBuy),
    ] {
        d.save_to_database(&mut database);
    }
    let opened: Vec<i64> = Deal::get_opened(&database).iter().map(|d| d.timestamp).collect();
    assert_eq!(opened, vec![2, 3, 5]);
    assert!(database.has_deal(4));
    assert!(!database.has_deal(7));
    // writing a deal again replaces it
    deal(3, DealStatus::Profit).save_to_database(&mut database);
    assert_eq!(database.deal_count(), 6);
    assert_eq!(database.deal_at(2).status, DealStatus::Profit);
    Deal::truncate(&mut database);
    assert_eq!(database.deal_count(), 0);
}

#[test]
fn ledger_is_started_once() {
    let mut database = Database::new();
    TradeState::initiate(&mut database, 250 * ONE, 77);
    TradeState::initiate(&mut database, 999 * ONE, 88);
    assert_eq!(database.state_count(), 1);
    let state = TradeState::get_last_state(&database);
    assert_eq!(
        state,
        TradeState {
            timestamp: 77,
            trade_capital: 250 * ONE,
            available_capital: 250 * ONE,
            awaited_deals: 0,
            stuck_deals: 0,
        }
    );
    let later = TradeState { timestamp: 80, ..state };
    later.save_to_database(&mut database);
    let earlier = TradeState { timestamp: 60, ..state };
    earlier.save_to_database(&mut database);
    assert_eq!(TradeState::get_last_state(&database).timestamp, 80);
    assert_eq!(database.state_at(0).timestamp, 60);
    TradeState::truncate(&mut database);
    assert_eq!(database.state_count(), 0);
}

#[test]
fn sync_starts_from_the_fixed_instant_when_the_store_is_empty() {
    let database = Database::new();
    let sync = CandleSync::new(&database).unwrap();
    assert_eq!(sync.last_timestamp, 1_622_505_600_000);
    assert!(sync.is_full_sync);
    assert_eq!(sync.start(), SyncCommand::Fetch { from: 1_622_505_599_999, delay_ms: 0 });
}

#[test]
fn sync_pages_until_nothing_is_new() {
    let mut database = Database::new();
    Candle::upsert_candles(&mut database, vec![bar(100, 1)]);
    let mut sync = CandleSync::new(&database).unwrap();
    assert!(!sync.is_full_sync);
    assert_eq!(sync.start(), SyncCommand::Fetch { from: 99, delay_ms: 0 });
    assert_eq!(
        sync.sync(&mut database, None),
        SyncCommand::Fetch { from: 99, delay_ms: SYNC_RETRY_MS }
    );
    let page = vec![bar(100, 5), bar(200, 2), bar(300, 3)];
    assert_eq!(
        sync.sync(&mut database, Some(page)),
        SyncCommand::Fetch { from: 299, delay_ms: SYNC_PAGE_MS }
    );
    assert_eq!(database.candle_count(), 3);
    assert_eq!(database.candle_at(0), bar(100, 5));
    // the next page ends with the bar already known: nothing is written
    assert_eq!(sync.sync(&mut database, Some(vec![bar(300, 9)])), SyncCommand::Finished);
    assert_eq!(database.candle_at(2), bar(300, 3));
    assert_eq!(sync.status, SyncStatus::Finished);
    assert_eq!(sync.sync(&mut database, Some(vec![bar(400, 4)])), SyncCommand::Finished);
    assert_eq!(database.candle_count(), 3);
    assert_eq!(sync.start(), SyncCommand::Finished);
}

#[test]
fn sync_ends_on_an_empty_page() {
    let mut database = Database::new();
    let mut sync = CandleSync::new(&database).unwrap();
    assert_eq!(sync.sync(&mut database, Some(vec![])), SyncCommand::Finished);
    assert_eq!(database.candle_count(), 0);
}

#[test]
fn sync_gives_up_when_the_policy_says_so() {
    let mut database = Database::new();
    Candle::upsert_candles(&mut database, vec![bar(100, 1)]);
    let mut sync = CandleSync::new(&database).unwrap();
    assert_eq!(sync.retry, RetryPolicy::unbounded(SYNC_RETRY_MS));
    sync.retry = RetryPolicy::bounded(7, 3);
    assert_eq!(sync.sync(&mut database, None), SyncCommand::Fetch { from: 99, delay_ms: 7 });
    assert_eq!(sync.sync(&mut database, None), SyncCommand::Fetch { from: 99, delay_ms: 7 });
    assert_eq!(sync.failures, 2);
    // a page that comes through clears the count
    let page = vec![bar(100, 1), bar(200, 2)];
    assert_eq!(
        sync.sync(&mut database, Some(page)),
        SyncCommand::Fetch { from: 199, delay_ms: SYNC_PAGE_MS }
    );
    assert_eq!(sync.failures, 0);
    assert_eq!(sync.sync(&mut database, None), SyncCommand::Fetch { from: 199, delay_ms: 7 });
    assert_eq!(sync.sync(&mut database, None), SyncCommand::Fetch { from: 199, delay_ms: 7 });
    assert_eq!(sync.sync(&mut database, None), SyncCommand::GiveUp);
    assert_eq!(sync.status, SyncStatus::GaveUp);
    assert_eq!(sync.sync(&mut database, Some(vec![bar(300, 3)])), SyncCommand::GiveUp);
    assert_eq!(database.candle_count(), 2);
    assert_eq!(sync.start(), SyncCommand::GiveUp);
}

#[test]
fn retry_policy_bounds_the_attempts() {
    let unbounded = RetryPolicy::unbounded(500);
    assert_eq!(unbounded.next_delay(0), Some(500));
    assert_eq!(unbounded.next_delay(u64::MAX), Some(500));
    let twice = RetryPolicy::bounded(9, 2);
    assert_eq!(twice.next_delay(1), Some(9));
    assert_eq!(twice.next_delay(2), None);
    assert_eq!(twice.next_delay(3), None);
    let once = RetryPolicy::bounded(9, 1);
    assert_eq!(once.next_delay(1), None);
}
