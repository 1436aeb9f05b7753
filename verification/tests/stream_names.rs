use market_feed::bitget::{subscription_message, BitgetStreamArg, BitgetStreamBuilder};
use market_feed::streams::{
    has_ending, snapshot_url, stream_kind, stream_url, BinanceStreamBuilder, StreamKind,
};

#[test]
fn builder_lowers_the_symbol_and_names_the_streams() {
    let builder = BinanceStreamBuilder::new("BTCUSDT");
    assert_eq!(builder.symbol(), "btcusdt");
    assert!(builder.streams().is_empty());
    assert!(builder.plan().is_empty());
    let builder = builder.with_depth().with_liquidation().with_agg_trade();
    assert_eq!(
        builder.streams(),
        vec![
            "btcusdt@depth".to_string(),
            "btcusdt@forceOrder".to_string(),
            "btcusdt@aggTrade".to_string()
        ]
    );
}

#[test]
fn builder_keeps_the_order_in_which_streams_were_added() {
    let builder = BinanceStreamBuilder::new("EthUsdt").with_agg_trade().with_depth();
    assert_eq!(
        builder.streams(),
        vec!["ethusdt@aggTrade".to_string(), "ethusdt@depth".to_string()]
    );
    let again = BinanceStreamBuilder::new("x").with_depth().with_depth();
    assert_eq!(again.streams(), vec!["x@depth".to_string(), "x@depth".to_string()]);
}

#[test]
fn plan_gives_the_address_and_the_kind_of_each_stream() {
    let plans =
        BinanceStreamBuilder::new("BTCUSDT").with_depth().with_liquidation().with_agg_trade().plan();
    assert_eq!(plans.len(), 3);
    assert_eq!(plans[0].name, "btcusdt@depth");
    assert_eq!(plans[0].url, "wss://fstream.binance.com/stream?streams=btcusdt@depth");
    assert_eq!(plans[0].kind, StreamKind::Depth);
    assert_eq!(plans[1].name, "btcusdt@forceOrder");
    assert_eq!(plans[1].url, "wss://fstream.binance.com/stream?streams=btcusdt@forceOrder");
    assert_eq!(plans[1].kind, StreamKind::Liquidation);
    assert_eq!(plans[2].name, "btcusdt@aggTrade");
    assert_eq!(plans[2].url, "wss://fstream.binance.com/stream?streams=btcusdt@aggTrade");
    assert_eq!(plans[2].kind, StreamKind::AggTrade);
}

#[test]
fn a_symbol_that_looks_like_an_ending_does_not_confuse_the_plan() {
    let plans = BinanceStreamBuilder::new("a@depth").with_agg_trade().plan();
    assert_eq!(plans.len(), 1);
    assert_eq!(plans[0].name, "a@depth@aggTrade");
    assert_eq!(plans[0].kind, StreamKind::AggTrade);
}

#[test]
fn stream_kind_goes_by_the_ending() {
    assert_eq!(stream_kind("btcusdt@depth"), Some(StreamKind::Depth));
    assert_eq!(stream_kind("btcusdt@forceOrder"), Some(StreamKind::Liquidation));
    assert_eq!(stream_kind("btcusdt@aggTrade"), Some(StreamKind::AggTrade));
    assert_eq!(stream_kind("@depth"), Some(StreamKind::Depth));
    assert_eq!(stream_kind("btcusdt@depth5"), None);
    assert_eq!(stream_kind("btcusdt@forceorder"), None);
    assert_eq!(stream_kind("depth"), None);
    assert_eq!(stream_kind(""), None);
}

#[test]
fn has_ending_compares_the_tail() {
    assert!(has_ending("abc", "bc"));
    assert!(has_ending("abc", "abc"));
    assert!(has_ending("abc", ""));
    assert!(has_ending("", ""));
    assert!(!has_ending("abc", "ab"));
    assert!(!has_ending("bc", "abc"));
    assert!(has_ending("preis€", "s€"));
    assert!(!has_ending("preis€", "s"));
}

#[test]
fn addresses_are_built_from_their_parts() {
    assert_eq!(stream_url("x@depth"), "wss://fstream.binance.com/stream?streams=x@depth");
    assert_eq!(stream_url(""), "wss://fstream.binance.com/stream?streams=");
    assert_eq!(
        snapshot_url("BTCUSDT", 1000),
        "https://fapi.binance.com/fapi/v1/depth?symbol=BTCUSDT&limit=1000"
    );
    assert_eq!(
        snapshot_url("ethusdt", 5),
        "https://fapi.binance.com/fapi/v1/depth?symbol=ethusdt&limit=5"
    );
}

#[test]
fn bitget_builder_raises_the_symbol_and_subscribes_to_books() {
    let builder = BitgetStreamBuilder::new("btcusdt");
    assert_eq!(builder.symbol(), "BTCUSDT");
    assert!(builder.subscriptions().is_empty());
    assert_eq!(builder.url(), "wss://ws.bitget.com/v2/ws/public");
    let builder = builder.with_depth();
    assert_eq!(
        builder.subscriptions(),
        vec![
            "{\"args\":[{\"channel\":\"books\",\"instId\":\"BTCUSDT\",\"instType\":\"USDT-FUTURES\"}],\"op\":\"subscribe\"}"
                .to_string()
        ]
    );
    assert_eq!(builder.with_depth().subscriptions().len(), 2);
}

#[test]
fn subscription_escapes_what_the_format_reserves() {
    let arg = BitgetStreamArg {
        instType: "A\"B".to_string(),
        channel: "back\\slash".to_string(),
        instId: "line\nbreak".to_string(),
    };
    assert_eq!(
        subscription_message(&arg),
        "{\"args\":[{\"channel\":\"back\\\\slash\",\"instId\":\"line\\nbreak\",\"instType\":\"A\\\"B\"}],\"op\":\"subscribe\"}"
    );
}

#[test]
fn subscription_is_what_the_json_library_writes_for_the_same_object() {
    let arg = BitgetStreamArg {
        instType: "USDT-FUTURES".to_string(),
        channel: "books".to_string(),
        instId: "ETHUSDT".to_string(),
    };
    let mut inner = serde_json::Map::new();
    inner.insert("instType".to_string(), serde_json::Value::String(arg.instType.clone()));
    inner.insert("channel".to_string(), serde_json::Value::String(arg.channel.clone()));
    inner.insert("instId".to_string(), serde_json::Value::String(arg.instId.clone()));
    let mut outer = serde_json::Map::new();
    outer.insert("op".to_string(), serde_json::Value::String("subscribe".to_string()));
    outer.insert(
        "args".to_string(),
        serde_json::Value::Array(vec![serde_json::Value::Object(inner)]),
    );
    assert_eq!(subscription_message(&arg), serde_json::Value::Object(outer).to_string());
}

#[test]
fn builders_take_a_symbol_as_it_is() {
    let builder = BinanceStreamBuilder::for_symbol("BtcUsdt".to_string()).with_depth();
    assert_eq!(builder.symbol(), "BtcUsdt");
    assert_eq!(builder.streams(), vec!["BtcUsdt@depth".to_string()]);
    let bitget = BitgetStreamBuilder::for_symbol("ethusdt".to_string()).with_depth();
    assert_eq!(bitget.symbol(), "ethusdt");
    assert_eq!(
        bitget.subscriptions(),
        vec![
            "{\"args\":[{\"channel\":\"books\",\"instId\":\"ethusdt\",\"instType\":\"USDT-FUTURES\"}],\"op\":\"subscribe\"}"
                .to_string()
        ]
    );
}

#[test]
fn subscription_is_assembled_from_texts_already_quoted() {
    assert_eq!(
        market_feed::bitget::assemble_subscription("\"c\"", "\"i\"", "\"t\""),
        "{\"args\":[{\"channel\":\"c\",\"instId\":\"i\",\"instType\":\"t\"}],\"op\":\"subscribe\"}"
    );
    assert_eq!(
        market_feed::bitget::assemble_subscription("", "", ""),
        "{\"args\":[{\"channel\":,\"instId\":,\"instType\":}],\"op\":\"subscribe\"}"
    );
}
