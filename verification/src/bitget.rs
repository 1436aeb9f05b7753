//! The Bitget feed: its depth messages and the request that subscribes to
//! a channel.

use vstd::prelude::*;

verus! {

/// The upper-case form of a text, as `str::to_uppercase` of the standard
/// library gives it.
pub uninterp spec fn uppercase_of(text: Seq<char>) -> Seq<char>;

/// Calls `str::to_uppercase` of the standard library. The contract only
/// names the result: the same text always gives the same upper-case form.
#[verifier::external_body]
fn uppercase(text: &str) -> (upper: String)
    ensures
        upper@ == uppercase_of(text@),
{
    text.to_uppercase()
}

/// A text as a JSON string: between double quotes, with the escapes that
/// `serde_json` writes.
pub uninterp spec fn json_text_of(text: Seq<char>) -> Seq<char>;

/// Has `serde_json` write a text as a JSON string, by the `Display` of
/// `serde_json::Value`. The contract only names the result: the same text
/// always gives the same JSON string.
#[verifier::external_body]
fn json_text(text: &str) -> (json: String)
    ensures
        json@ == json_text_of(text@),
{
    serde_json::Value::String(text.to_string()).to_string()
}


/// A channel of the Bitget feed, with the field names of the wire format.
#[allow(non_snake_case)]
#[derive(Debug)]
pub struct BitgetStreamArg {
    /// Product line, such as `USDT-FUTURES`.
    pub instType: String,
    /// Channel, such as `books`.
    pub channel: String,
    /// Instrument, such as `BTCUSDT`.
    pub instId: String,
}

/// A channel as a mathematical value.
#[allow(non_snake_case)]
pub struct StreamArgSpec {
    pub instType: Seq<char>,
    pub channel: Seq<char>,
    pub instId: Seq<char>,
}

impl View for BitgetStreamArg {
    type V = StreamArgSpec;

    open spec fn view(&self) -> StreamArgSpec {
        StreamArgSpec { instType: self.instType@, channel: self.channel@, instId: self.instId@ }
    }
}

/// One book update of a Bitget depth message.
#[derive(Debug)]
pub struct DepthData {
    /// Asks as pairs of price and quantity.
    pub asks: Vec<(String, String)>,
    /// Bids as pairs of price and quantity.
    pub bids: Vec<(String, String)>,
    /// Checksum of the book after the update.
    pub checksum: i64,
    /// Time of the update, as text.
    pub ts: String,
}

/// A depth message of the Bitget feed.
#[derive(Debug)]
pub struct BitgetDepthMessage {
    /// `snapshot` or `update`.
    pub action: String,
    pub arg: BitgetStreamArg,
    pub data: Vec<DepthData>,
}

/// The unit of the Bitget feed that travels through a pipeline.
#[derive(Debug)]
pub enum BitgetData {
    Depth(BitgetDepthMessage),
}

/// The address of the public Bitget feed.
pub open spec fn bitget_url() -> Seq<char> {
    "wss://ws.bitget.com/v2/ws/public"@
}

/// The request that subscribes to a channel, given the three texts of the
/// channel as JSON strings: a JSON object with the operation and the
/// channel, its keys in alphabetical order.
pub open spec fn subscription_text(
    channel: Seq<char>,
    inst_id: Seq<char>,
    inst_type: Seq<char>,
) -> Seq<char> {
    "{\"args\":[{\"channel\":"@ + channel + ",\"instId\":"@ + inst_id + ",\"instType\":"@
        + inst_type + "}],\"op\":\"subscribe\"}"@
}

/// The request that subscribes to a channel.
pub open spec fn subscription_of(arg: StreamArgSpec) -> Seq<char> {
    subscription_text(
        json_text_of(arg.channel),
        json_text_of(arg.instId),
        json_text_of(arg.instType),
    )
}

/// Puts the request together from the three texts of the channel, each
/// already written as a JSON string.
pub fn assemble_subscription(channel: &str, inst_id: &str, inst_type: &str) -> (message: String)
    ensures
        message@ == subscription_text(channel@, inst_id@, inst_type@),
{
    let mut message = "{\"args\":[{\"channel\":".to_owned();
    message.append(channel);
    message.append(",\"instId\":");
    message.append(inst_id);
    message.append(",\"instType\":");
    message.append(inst_type);
    message.append("}],\"op\":\"subscribe\"}");
    message
}

/// The request that subscribes to a channel.
pub fn subscription_message(arg: &BitgetStreamArg) -> (message: String)
    ensures
        message@ == subscription_of(arg@),
{
    let channel = json_text(arg.channel.as_str());
    let inst_id = json_text(arg.instId.as_str());
    let inst_type = json_text(arg.instType.as_str());
    assemble_subscription(channel.as_str(), inst_id.as_str(), inst_type.as_str())
}

/// A builder as a mathematical value.
pub struct BitgetBuilderSpec {
    pub symbol: Seq<char>,
    pub streams: Seq<StreamArgSpec>,
}

/// The channels of a sequence, each as a mathematical value.
pub open spec fn arg_seq(args: Seq<BitgetStreamArg>) -> Seq<StreamArgSpec> {
    Seq::new(args.len(), |i: int| args[i]@)
}

/// The depth channel of a symbol.
pub open spec fn depth_channel(symbol: Seq<char>) -> StreamArgSpec {
    StreamArgSpec { instType: "USDT-FUTURES"@, channel: "books"@, instId: symbol }
}

/// Collects the channels of one symbol.
#[derive(Debug)]
pub struct BitgetStreamBuilder {
    symbol: String,
    streams: Vec<BitgetStreamArg>,
}

impl View for BitgetStreamBuilder {
    type V = BitgetBuilderSpec;

    closed spec fn view(&self) -> BitgetBuilderSpec {
        BitgetBuilderSpec { symbol: self.symbol@, streams: arg_seq(self.streams@) }
    }
}

impl BitgetStreamBuilder {
    /// A builder for a symbol, which the feed names in upper case, with no
    /// channel yet.
    pub fn new(symbol: &str) -> (builder: BitgetStreamBuilder)
        ensures
            builder@ == (BitgetBuilderSpec {
                symbol: uppercase_of(symbol@),
                streams: Seq::empty(),
            }),
    {
        BitgetStreamBuilder::for_symbol(uppercase(symbol))
    }

    /// A builder for a symbol that is already written as the feed names it,
    /// with no channel yet.
    pub fn for_symbol(symbol: String) -> (builder: BitgetStreamBuilder)
        ensures
            builder@ == (BitgetBuilderSpec { symbol: symbol@, streams: Seq::empty() }),
    {
        let builder = BitgetStreamBuilder { symbol, streams: Vec::new() };
        assert(builder@.streams =~= Seq::empty());
        builder
    }

    /// Adds the depth channel of the symbol.
    pub fn with_depth(self) -> (builder: BitgetStreamBuilder)
        ensures
            builder@ == (BitgetBuilderSpec {
                symbol: self@.symbol,
                streams: self@.streams.push(depth_channel(self@.symbol)),
            }),
    {
        let arg = BitgetStreamArg {
            instType: "USDT-FUTURES".to_owned(),
            channel: "books".to_owned(),
            instId: self.symbol.clone(),
        };
        let mut builder = self;
        let ghost before = arg_seq(builder.streams@);
        builder.streams.push(arg);
        assert(arg_seq(builder.streams@) =~= before.push(depth_channel(self@.symbol)));
        builder
    }

    /// The symbol, in upper case.
    pub fn symbol(&self) -> (symbol: String)
        ensures
            symbol@ == self@.symbol,
    {
        self.symbol.clone()
    }

    /// The address to connect to.
    pub fn url(&self) -> (url: String)
        ensures
            url@ == bitget_url(),
    {
        "wss://ws.bitget.com/v2/ws/public".to_owned()
    }

    /// The requests to send after connecting: one for each channel
    /// collected, in the order they were added.
    pub fn subscriptions(&self) -> (messages: Vec<String>)
        ensures
            messages@.len() == self@.streams.len(),
            forall|i: int|
                0 <= i < messages@.len() ==> (#[trigger] messages@[i])@ == subscription_of(
                    self@.streams[i],
                ),
    {
        let mut messages: Vec<String> = Vec::new();
        let mut i: usize = 0;
        while i < self.streams.len()
            invariant
                i <= self.streams@.len(),
                messages@.len() == i,
                forall|k: int|
                    0 <= k < i ==> (#[trigger] messages@[k])@ == subscription_of(
                        self.streams@[k]@,
                    ),
            decreases self.streams@.len() - i,
        {
            messages.push(subscription_message(&self.streams[i]));
            i += 1;
        }
        messages
    }
}

} // verus!
