//! The streams of the Binance futures feed that a pipeline subscribes to.

use vstd::prelude::*;
use crate::text::{decimal_text, push_decimal};

verus! {

/// The lower-case form of a text, as `str::to_lowercase` of the standard
/// library gives it.
pub uninterp spec fn lowercase_of(text: Seq<char>) -> Seq<char>;

/// Calls `str::to_lowercase` of the standard library. The contract only
/// names the result: the same text always gives the same lower-case form.
#[verifier::external_body]
fn lowercase(text: &str) -> (lower: String)
    ensures
        lower@ == lowercase_of(text@),
{
    text.to_lowercase()
}

/// The kinds of stream that the feed offers for a symbol.
#[derive(Clone, Copy, Debug, PartialEq, Eq, Structural)]
pub enum StreamKind {
    /// Order-book depth diffs.
    Depth,
    /// Forced liquidation orders.
    Liquidation,
    /// Aggregated trades.
    AggTrade,
}

/// The ending of the name of a stream of a kind.
pub open spec fn suffix_of(kind: StreamKind) -> Seq<char> {
    match kind {
        StreamKind::Depth => "@depth"@,
        StreamKind::Liquidation => "@forceOrder"@,
        StreamKind::AggTrade => "@aggTrade"@,
    }
}

/// The name of the stream of a kind for a symbol.
pub open spec fn stream_name(symbol: Seq<char>, kind: StreamKind) -> Seq<char> {
    symbol + suffix_of(kind)
}

/// The address at which a stream is served.
pub open spec fn stream_url_of(stream: Seq<char>) -> Seq<char> {
    "wss://fstream.binance.com/stream?streams="@ + stream
}

/// Whether a text ends with another.
pub open spec fn ends_with(text: Seq<char>, ending: Seq<char>) -> bool {
    ending.len() <= text.len() && text.subrange(text.len() - ending.len(), text.len() as int)
        =~= ending
}

/// The kind of stream that a name ends in, if it ends in one.
pub open spec fn kind_of_name(name: Seq<char>) -> Option<StreamKind> {
    if ends_with(name, suffix_of(StreamKind::Depth)) {
        Some(StreamKind::Depth)
    } else if ends_with(name, suffix_of(StreamKind::Liquidation)) {
        Some(StreamKind::Liquidation)
    } else if ends_with(name, suffix_of(StreamKind::AggTrade)) {
        Some(StreamKind::AggTrade)
    } else {
        None
    }
}

/// What the three endings hold, letter by letter.
pub proof fn lemma_suffixes()
    ensures
        suffix_of(StreamKind::Depth) =~= seq!['@', 'd', 'e', 'p', 't', 'h'],
        suffix_of(StreamKind::Liquidation) =~= seq![
            '@',
            'f',
            'o',
            'r',
            'c',
            'e',
            'O',
            'r',
            'd',
            'e',
            'r',
        ],
        suffix_of(StreamKind::AggTrade) =~= seq!['@', 'a', 'g', 'g', 'T', 'r', 'a', 'd', 'e'],
{
    reveal_strlit("@depth");
    reveal_strlit("@forceOrder");
    reveal_strlit("@aggTrade");
}

/// The name built for a kind ends in that kind and in no other.
pub proof fn lemma_kind_of_stream_name(symbol: Seq<char>, kind: StreamKind)
    ensures
        kind_of_name(stream_name(symbol, kind)) == Some(kind),
{
    lemma_suffixes();
    let name = stream_name(symbol, kind);
    let own = suffix_of(kind);
    assert(name.subrange(name.len() - own.len(), name.len() as int) =~= own);
    assert(name.last() == own.last());
    let depth = suffix_of(StreamKind::Depth);
    let forced = suffix_of(StreamKind::Liquidation);
    let trade = suffix_of(StreamKind::AggTrade);
    if ends_with(name, depth) {
        assert(name.subrange(name.len() - depth.len(), name.len() as int).last() == depth.last());
    }
    if ends_with(name, forced) {
        assert(name.subrange(name.len() - forced.len(), name.len() as int).last()
            == forced.last());
    }
    if ends_with(name, trade) {
        assert(name.subrange(name.len() - trade.len(), name.len() as int).last() == trade.last());
    }
}

/// Whether a text ends with another.
pub fn has_ending(text: &str, ending: &str) -> (found: bool)
    ensures
        found == ends_with(text@, ending@),
{
    let text_len = text.unicode_len();
    let ending_len = ending.unicode_len();
    if ending_len > text_len {
        return false;
    }
    let start = text_len - ending_len;
    let mut i: usize = 0;
    while i < ending_len
        invariant
            i <= ending_len,
            ending_len == ending@.len(),
            text_len == text@.len(),
            start == text_len - ending_len,
            forall|k: int| 0 <= k < i ==> text@[start + k] == ending@[k],
        decreases ending_len - i,
    {
        if text.get_char(start + i) != ending.get_char(i) {
            proof {
                let tail = text@.subrange(text@.len() - ending@.len(), text@.len() as int);
                assert(tail[i as int] == text@[start + i]);
            }
            return false;
        }
        i += 1;
    }
    true
}

/// The kind of stream that a name ends in, if it ends in one.
pub fn stream_kind(name: &str) -> (kind: Option<StreamKind>)
    ensures
        kind == kind_of_name(name@),
{
    if has_ending(name, "@depth") {
        Some(StreamKind::Depth)
    } else if has_ending(name, "@forceOrder") {
        Some(StreamKind::Liquidation)
    } else if has_ending(name, "@aggTrade") {
        Some(StreamKind::AggTrade)
    } else {
        None
    }
}

/// The address at which a stream is served.
pub fn stream_url(stream: &str) -> (url: String)
    ensures
        url@ == stream_url_of(stream@),
{
    let url = "wss://fstream.binance.com/stream?streams=".to_owned();
    url.concat(stream)
}

/// The address of the depth snapshot of a symbol with at most `limit` levels
/// on each side.
pub open spec fn snapshot_url_of(symbol: Seq<char>, limit: nat) -> Seq<char> {
    "https://fapi.binance.com/fapi/v1/depth?symbol="@ + symbol + "&limit="@ + decimal_text(limit)
}

/// The address of the depth snapshot of a symbol with at most `limit` levels
/// on each side.
pub fn snapshot_url(symbol: &str, limit: u64) -> (url: String)
    ensures
        url@ == snapshot_url_of(symbol@, limit as nat),
{
    let mut url = "https://fapi.binance.com/fapi/v1/depth?symbol=".to_owned();
    url.append(symbol);
    url.append("&limit=");
    push_decimal(&mut url, limit);
    url
}

/// A stream to open: its name, its address and what it carries.
#[derive(Debug)]
pub struct StreamPlan {
    pub name: String,
    pub url: String,
    pub kind: StreamKind,
}

/// A builder as a mathematical value.
pub struct BuilderSpec {
    pub symbol: Seq<char>,
    pub streams: Seq<Seq<char>>,
}

/// Collects the streams of one symbol.
#[derive(Debug)]
pub struct BinanceStreamBuilder {
    symbol: String,
    streams: Vec<String>,
}

/// The texts of a sequence, each as a sequence of characters.
pub open spec fn text_seq(texts: Seq<String>) -> Seq<Seq<char>> {
    Seq::new(texts.len(), |i: int| texts[i]@)
}

impl View for BinanceStreamBuilder {
    type V = BuilderSpec;

    closed spec fn view(&self) -> BuilderSpec {
        BuilderSpec { symbol: self.symbol@, streams: text_seq(self.streams@) }
    }
}

/// Whether a name is that of a stream of the symbol.
pub open spec fn is_stream_of(symbol: Seq<char>, name: Seq<char>) -> bool {
    ||| name == stream_name(symbol, StreamKind::Depth)
    ||| name == stream_name(symbol, StreamKind::Liquidation)
    ||| name == stream_name(symbol, StreamKind::AggTrade)
}

/// Whether each name of a list is the name of a stream of the symbol.
pub open spec fn streams_belong(symbol: Seq<char>, streams: Seq<Seq<char>>) -> bool {
    forall|i: int| 0 <= i < streams.len() ==> is_stream_of(symbol, #[trigger] streams[i])
}

impl BinanceStreamBuilder {
    /// Whether every stream collected is one of the symbol. Every
    /// constructor gives such a builder and every method keeps it so.
    pub closed spec fn wf(&self) -> bool {
        streams_belong(self.symbol@, text_seq(self.streams@))
    }

    /// A builder for a symbol, which the feed names in lower case, with no
    /// stream yet.
    pub fn new(symbol: &str) -> (builder: BinanceStreamBuilder)
        ensures
            builder.wf(),
            builder@ == (BuilderSpec { symbol: lowercase_of(symbol@), streams: Seq::empty() }),
    {
        BinanceStreamBuilder::for_symbol(lowercase(symbol))
    }

    /// A builder for a symbol that is already written as the feed names it,
    /// with no stream yet.
    pub fn for_symbol(symbol: String) -> (builder: BinanceStreamBuilder)
        ensures
            builder.wf(),
            builder@ == (BuilderSpec { symbol: symbol@, streams: Seq::empty() }),
    {
        let builder = BinanceStreamBuilder { symbol, streams: Vec::new() };
        assert(builder@.streams =~= Seq::empty());
        builder
    }

    fn with_stream(self, kind: StreamKind) -> (builder: BinanceStreamBuilder)
        requires
            self.wf(),
        ensures
            builder.wf(),
            builder@ == (BuilderSpec {
                symbol: self@.symbol,
                streams: self@.streams.push(stream_name(self@.symbol, kind)),
            }),
    {
        let suffix = match kind {
            StreamKind::Depth => "@depth",
            StreamKind::Liquidation => "@forceOrder",
            StreamKind::AggTrade => "@aggTrade",
        };
        let name = self.symbol.clone().concat(suffix);
        let mut builder = self;
        let ghost before = text_seq(builder.streams@);
        builder.streams.push(name);
        proof {
            let after = text_seq(builder.streams@);
            assert(after =~= before.push(stream_name(self@.symbol, kind)));
            assert forall|i: int| 0 <= i < after.len() implies is_stream_of(
                builder.symbol@,
                #[trigger] after[i],
            ) by {
                if i < before.len() {
                    assert(after[i] == before[i]);
                    assert(is_stream_of(self.symbol@, before[i]));
                } else {
                    assert(stream_name(builder.symbol@, kind) == after[i]);
                }
            }
        }
        builder
    }

    /// Adds the depth stream of the symbol.
    pub fn with_depth(self) -> (builder: BinanceStreamBuilder)
        requires
            self.wf(),
        ensures
            builder.wf(),
            builder@ == (BuilderSpec {
                symbol: self@.symbol,
                streams: self@.streams.push(stream_name(self@.symbol, StreamKind::Depth)),
            }),
    {
        self.with_stream(StreamKind::Depth)
    }

    /// Adds the liquidation stream of the symbol.
    pub fn with_liquidation(self) -> (builder: BinanceStreamBuilder)
        requires
            self.wf(),
        ensures
            builder.wf(),
            builder@ == (BuilderSpec {
                symbol: self@.symbol,
                streams: self@.streams.push(stream_name(self@.symbol, StreamKind::Liquidation)),
            }),
    {
        self.with_stream(StreamKind::Liquidation)
    }

    /// Adds the stream of aggregated trades of the symbol.
    pub fn with_agg_trade(self) -> (builder: BinanceStreamBuilder)
        requires
            self.wf(),
        ensures
            builder.wf(),
            builder@ == (BuilderSpec {
                symbol: self@.symbol,
                streams: self@.streams.push(stream_name(self@.symbol, StreamKind::AggTrade)),
            }),
    {
        self.with_stream(StreamKind::AggTrade)
    }

    /// The symbol, in lower case.
    pub fn symbol(&self) -> (symbol: String)
        ensures
            symbol@ == self@.symbol,
    {
        self.symbol.clone()
    }

    /// The names of the streams collected, in the order they were added.
    pub fn streams(&self) -> (names: Vec<String>)
        ensures
            text_seq(names@) == self@.streams,
    {
        let mut names: Vec<String> = Vec::new();
        let mut i: usize = 0;
        while i < self.streams.len()
            invariant
                i <= self.streams@.len(),
                names@.len() == i,
                forall|k: int| 0 <= k < i ==> (#[trigger] names@[k])@ == self.streams@[k]@,
            decreases self.streams@.len() - i,
        {
            names.push(self.streams[i].clone());
            i += 1;
        }
        assert(text_seq(names@) =~= text_seq(self.streams@));
        names
    }

    /// What to open: for each stream collected, in order, its name, its
    /// address and the kind of event it carries.
    pub fn plan(&self) -> (plans: Vec<StreamPlan>)
        requires
            self.wf(),
        ensures
            plans@.len() == self@.streams.len(),
            forall|i: int|
                0 <= i < plans@.len() ==> {
                    &&& (#[trigger] plans@[i]).name@ == self@.streams[i]
                    &&& plans@[i].url@ == stream_url_of(self@.streams[i])
                    &&& self@.streams[i] == stream_name(self@.symbol, plans@[i].kind)
                },
    {
        let mut plans: Vec<StreamPlan> = Vec::new();
        let mut i: usize = 0;
        while i < self.streams.len()
            invariant
                i <= self.streams@.len(),
                self.wf(),
                plans@.len() == i,
                forall|k: int|
                    0 <= k < i ==> {
                        &&& (#[trigger] plans@[k]).name@ == self.streams@[k]@
                        &&& plans@[k].url@ == stream_url_of(self.streams@[k]@)
                        &&& self.streams@[k]@ == stream_name(self.symbol@, plans@[k].kind)
                    },
            decreases self.streams@.len() - i,
        {
            let name = self.streams[i].clone();
            let found = stream_kind(name.as_str());
            proof {
                let names = text_seq(self.streams@);
                assert(names[i as int] == name@);
                assert(is_stream_of(self.symbol@, names[i as int]));
                lemma_kind_of_stream_name(self.symbol@, StreamKind::Depth);
                lemma_kind_of_stream_name(self.symbol@, StreamKind::Liquidation);
                lemma_kind_of_stream_name(self.symbol@, StreamKind::AggTrade);
            }
            let kind = found.unwrap();
            let url = stream_url(name.as_str());
            plans.push(StreamPlan { name, url, kind });
            i += 1;
        }
        plans
    }
}

} // verus!
