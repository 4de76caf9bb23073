//! Decoding of per-contract news ticks (35=G bodies of tick type 0x1E90).

use vstd::prelude::*;

use crate::depth::be_value;
use crate::hmds::{lossy_text, utf8_lossy_text};
use crate::market_state::{lookup, MarketState};
use crate::types::InstrumentId;

verus! {

/// One news headline. The text fields are the raw bytes of the message;
/// `texts` reads them as lossy UTF-8.
#[derive(Clone, Debug, PartialEq, Eq)]
pub struct TickNews {
    pub instrument: InstrumentId,
    pub provider_code: Vec<u8>,
    pub article_id: Vec<u8>,
    pub headline: Vec<u8>,
    pub timestamp: u64,
}

impl View for TickNews {
    type V = (InstrumentId, Seq<u8>, Seq<u8>, Seq<u8>, u64);

    open spec fn view(&self) -> Self::V {
        (self.instrument, self.provider_code@, self.article_id@, self.headline@, self.timestamp)
    }
}

impl TickNews {
    /// The provider code, article id and headline as text, each invalid
    /// UTF-8 sequence replaced by U+FFFD.
    pub fn texts(&self) -> (t: (String, String, String))
        ensures
            t.0@ == utf8_lossy_text(self.provider_code@),
            t.1@ == utf8_lossy_text(self.article_id@),
            t.2@ == utf8_lossy_text(self.headline@),
    {
        (lossy_text(self.provider_code.as_slice()), lossy_text(self.article_id.as_slice()), lossy_text(self.headline.as_slice()))
    }
}

/// Index of the first `}` in `h` at or after `k`, or -1.
pub open spec fn first_close_brace(h: Seq<u8>, k: int) -> int
    decreases h.len() - k,
    when 0 <= k <= h.len()
{
    if k >= h.len() {
        -1
    } else if h[k] == 0x7D {
        k
    } else {
        first_close_brace(h, k + 1)
    }
}

/// A headline that starts with `{` loses everything up to and including the
/// first `}` (a provider annotation); any other headline is kept.
pub open spec fn strip_annotation(h: Seq<u8>) -> Seq<u8> {
    if h.len() > 0 && h[0] == 0x7B && first_close_brace(h, 0) >= 0 {
        h.subrange(first_close_brace(h, 0) + 1, h.len() as int)
    } else {
        h
    }
}

/// The news item that starts at `pos`, and the position after it; `None`
/// if the item is truncated. Item layout: `[4-byte provider length][provider]
/// [4 bytes][2-byte article-id length][article id][4 bytes][4-byte timestamp]
/// [4-byte headline length][headline]`, all lengths and numbers big-endian.
pub open spec fn news_item_at(b: Seq<u8>, pos: int, instrument: InstrumentId) -> Option<((InstrumentId, Seq<u8>, Seq<u8>, Seq<u8>, u64), int)> {
    let len = b.len() as int;
    if pos + 4 > len {
        None
    } else {
        let pl = be_value(b, pos, 4);
        let p1 = pos + 4;
        if p1 + pl > len {
            None
        } else {
            let provider = b.subrange(p1, p1 + pl);
            let p2 = p1 + pl;
            if p2 + 4 > len || p2 + 6 > len {
                None
            } else {
                let p3 = p2 + 4;
                let al = be_value(b, p3, 2);
                let p4 = p3 + 2;
                if p4 + al > len {
                    None
                } else {
                    let article = b.subrange(p4, p4 + al);
                    let p5 = p4 + al;
                    if p5 + 8 > len {
                        None
                    } else {
                        let ts = be_value(b, p5 + 4, 4) as u64;
                        let p6 = p5 + 8;
                        if p6 + 4 > len {
                            None
                        } else {
                            let hl = be_value(b, p6, 4);
                            let p7 = p6 + 4;
                            if p7 + hl > len {
                                None
                            } else {
                                let raw = b.subrange(p7, p7 + hl);
                                Some(((instrument, provider, article, strip_annotation(raw), ts), p7 + hl))
                            }
                        }
                    }
                }
            }
        }
    }
}

/// Up to `k` consecutive news items from `pos`, stopping at the first truncated one.
pub open spec fn news_items(b: Seq<u8>, pos: int, k: nat, instrument: InstrumentId) -> Seq<(InstrumentId, Seq<u8>, Seq<u8>, Seq<u8>, u64)>
    decreases k,
{
    if k == 0 {
        Seq::empty()
    } else {
        match news_item_at(b, pos, instrument) {
            None => Seq::empty(),
            Some((item, next)) => seq![item] + news_items(b, next, (k - 1) as nat, instrument),
        }
    }
}

/// The news of a 35=G body: header `[2-byte tick type 0x1E90][4-byte server tag]
/// [2 bytes][4-byte item count]`, then the items. The instrument is the one
/// mapped to the server tag, 0 if the tag is not mapped. A body shorter than
/// the header or of another tick type yields nothing.
pub open spec fn tick_news_items(b: Seq<u8>, tags: Seq<(u32, InstrumentId)>) -> Seq<(InstrumentId, Seq<u8>, Seq<u8>, Seq<u8>, u64)> {
    if b.len() < 12 || be_value(b, 0, 2) != 0x1E90 {
        Seq::empty()
    } else {
        let instrument = match lookup(tags, be_value(b, 2, 4) as u32) {
            Some(i) => i,
            None => 0,
        };
        news_items(b, 12, be_value(b, 8, 4) as nat, instrument)
    }
}

fn be32(b: &[u8], i: usize) -> (r: u32)
    requires
        i + 4 <= b@.len(),
    ensures
        r == be_value(b@, i as int, 4),
{
    proof {
        reveal_with_fuel(be_value, 5);
    }
    (b[i] as u32) * 16777216 + (b[i + 1] as u32) * 65536 + (b[i + 2] as u32) * 256 + (b[i + 3] as u32)
}

fn be16(b: &[u8], i: usize) -> (r: u32)
    requires
        i + 2 <= b@.len(),
    ensures
        r == be_value(b@, i as int, 2),
{
    proof {
        reveal_with_fuel(be_value, 3);
    }
    (b[i] as u32) * 256 + (b[i + 1] as u32)
}

/// Removes a leading `{...}` annotation from a headline (see `strip_annotation`).
fn strip_headline(raw: &[u8]) -> (h: Vec<u8>)
    ensures
        h@ == strip_annotation(raw@),
{
    let n = raw.len();
    if n > 0 && raw[0] == 0x7B {
        let mut i: usize = 0;
        while i < n
            invariant
                n == raw@.len(),
                n > 0,
                raw@[0] == 0x7B,
                i <= n,
                first_close_brace(raw@, 0) == first_close_brace(raw@, i as int),
            decreases n - i,
        {
            if raw[i] == 0x7D {
                assert(first_close_brace(raw@, i as int) == i as int);
                return vstd::slice::slice_to_vec(&raw[i + 1..n]);
            }
            i = i + 1;
        }
    }
    vstd::slice::slice_to_vec(raw)
}

/// Decodes the news items of a 35=G body (see `tick_news_items`).
pub fn decode_tick_news(body: &[u8], market: &MarketState) -> (out: Vec<TickNews>)
    requires
        market.wf(),
    ensures
        out@.map_values(|n: TickNews| n@) == tick_news_items(body@, market.server_tags()),
{
    let ghost b = body@;
    let len = body.len();
    let mut out: Vec<TickNews> = Vec::new();
    if len < 12 {
        assert(out@.map_values(|n: TickNews| n@) =~= tick_news_items(b, market.server_tags()));
        return out;
    }
    let tick_type = be16(body, 0);
    if tick_type != 0x1E90 {
        assert(out@.map_values(|n: TickNews| n@) =~= tick_news_items(b, market.server_tags()));
        return out;
    }
    let server_tag = be32(body, 2);
    let instrument = match market.instrument_by_server_tag(server_tag) {
        Some(i) => i,
        None => 0,
    };
    let batch_count = be32(body, 8);
    let ghost total = news_items(b, 12, batch_count as nat, instrument);
    let mut pos: usize = 12;
    let mut left: u32 = batch_count;
    assert(out@.map_values(|n: TickNews| n@) + news_items(b, 12, batch_count as nat, instrument) =~= total);
    while left > 0
        invariant
            len == b.len(),
            b == body@,
            pos <= len,
            out@.map_values(|n: TickNews| n@) + news_items(b, pos as int, left as nat, instrument) == total,
        decreases left,
    {
        let ghost before = out@.map_values(|n: TickNews| n@);
        match parse_news_item(body, pos, instrument) {
            None => {
                left = 0;
            },
            Some((news, next)) => {
                let ghost item = news@;
                out.push(news);
                pos = next;
                left = left - 1;
                proof {
                    assert(out@.map_values(|n: TickNews| n@) =~= before.push(item));
                    assert(before.push(item) + news_items(b, pos as int, left as nat, instrument)
                        =~= before + (seq![item] + news_items(b, pos as int, left as nat, instrument)));
                }
            },
        }
    }
    assert(out@.map_values(|n: TickNews| n@) =~= total);
    out
}

/// Reads the news item at `pos` (see `news_item_at`).
fn parse_news_item(body: &[u8], start: usize, instrument: InstrumentId) -> (r: Option<(TickNews, usize)>)
    requires
        start <= body@.len(),
    ensures
        match r {
            None => news_item_at(body@, start as int, instrument) is None,
            Some((n, next)) => news_item_at(body@, start as int, instrument) == Some((n@, next as int)) && next <= body@.len(),
        },
{
    let len = body.len();
    let mut pos = start;
    if len - pos < 4 {
        return None;
    }
    let prov_len = be32(body, pos) as usize;
    pos = pos + 4;
    if len - pos < prov_len {
        return None;
    }
    let provider = vstd::slice::slice_to_vec(&body[pos..pos + prov_len]);
    pos = pos + prov_len;
    if len - pos < 6 {
        return None;
    }
    pos = pos + 4;
    let aid_len = be16(body, pos) as usize;
    pos = pos + 2;
    if len - pos < aid_len {
        return None;
    }
    let article_id = vstd::slice::slice_to_vec(&body[pos..pos + aid_len]);
    pos = pos + aid_len;
    if len - pos < 8 {
        return None;
    }
    pos = pos + 4;
    let timestamp = be32(body, pos) as u64;
    pos = pos + 4;
    if len - pos < 4 {
        return None;
    }
    let hl_len = be32(body, pos) as usize;
    pos = pos + 4;
    if len - pos < hl_len {
        return None;
    }
    let headline = strip_headline(&body[pos..pos + hl_len]);
    pos = pos + hl_len;
    Some((TickNews { instrument, provider_code: provider, article_id, headline, timestamp }, pos))
}

} // verus!
