//! Decoding of market-depth (order book) messages: the byte-aligned entries of
//! 35=P bodies and the market-maker entries of 35=Y (NASDAQ TotalView).

use vstd::prelude::*;

use crate::hmds::{lossy_text, utf8_lossy_text};

verus! {

/// An active depth subscription as seen on the wire: the server tag that the
/// farm assigned, the user's request id, whether it is a SmartDepth request,
/// and the instrument's minimum tick as the bit pattern of a 64-bit float
/// (carried unchanged; prices are `price_ticks` times that tick).
#[derive(Clone, Copy, Debug, PartialEq, Eq, Structural)]
pub struct DepthTag {
    pub server_tag: u32,
    pub req_id: u32,
    pub is_smart: bool,
    pub min_tick_bits: u64,
}

/// One order-book update. `price_ticks` is the price in minimum ticks of the
/// instrument (the price is `price_ticks * min_tick`); `market_maker` holds the
/// four market-maker bytes (big-endian) of a 35=Y entry and is `None` for 35=P.
/// `side` is 0 for ask and 1 for bid; `operation` is 0 for a snapshot (insert)
/// and 1 for an update.
#[derive(Clone, Copy, Debug, PartialEq, Eq, Structural)]
pub struct DepthUpdate {
    pub req_id: u32,
    pub server_tag: u32,
    pub position: i32,
    pub market_maker: Option<u32>,
    pub operation: i32,
    pub side: i32,
    pub price_ticks: u32,
    pub size: u32,
    pub is_smart_depth: bool,
}

/// The four market-maker bytes of a 35=Y entry, most significant first.
pub open spec fn market_maker_bytes(mm: u32) -> Seq<u8> {
    seq![(mm / 0x100_0000) as u8, ((mm / 0x1_0000) % 0x100) as u8, ((mm / 0x100) % 0x100) as u8, (mm % 0x100) as u8]
}

/// A text with its leading and trailing whitespace removed.
pub uninterp spec fn whitespace_trimmed(s: Seq<char>) -> Seq<char>;

/// `str::trim`: the text without leading and trailing whitespace (as
/// `char::is_whitespace` defines it). The result is named, not stated.
#[verifier::external_body]
fn trim_text(s: &str) -> (r: &str)
    ensures
        r@ == whitespace_trimmed(s@),
{
    s.trim()
}

/// The market-maker name of a 35=Y entry: its four bytes read as lossy
/// UTF-8 text, without leading and trailing whitespace.
pub fn market_maker_text(mm: u32) -> (name: String)
    ensures
        name@ == whitespace_trimmed(utf8_lossy_text(market_maker_bytes(mm))),
{
    let bytes: [u8; 4] = [(mm / 0x100_0000) as u8, ((mm / 0x1_0000) % 0x100) as u8, ((mm / 0x100) % 0x100) as u8, (mm % 0x100) as u8];
    assert(bytes@ =~= market_maker_bytes(mm));
    let text = lossy_text(&bytes);
    trim_text(text.as_str()).to_string()
}

/// First subscription of `table` with server tag `stag`.
pub open spec fn find_depth_tag(table: Seq<DepthTag>, stag: u32) -> Option<DepthTag>
    decreases table.len(),
{
    if table.len() == 0 {
        None
    } else if table[0].server_tag == stag {
        Some(table[0])
    } else {
        find_depth_tag(table.drop_first(), stag)
    }
}

/// Big-endian unsigned value of `b[i..i + n]`.
pub open spec fn be_value(b: Seq<u8>, i: int, n: nat) -> int
    decreases n,
{
    if n == 0 {
        0
    } else {
        be_value(b, i, (n - 1) as nat) * 256 + b[i + n - 1] as int
    }
}

/// Looks up the subscription of a server tag.
pub fn lookup_depth_tag(table: &[DepthTag], stag: u32) -> (r: Option<DepthTag>)
    ensures
        r == find_depth_tag(table@, stag),
{
    let n = table.len();
    let mut i: usize = 0;
    assert(table@.subrange(0, n as int) =~= table@);
    while i < n
        invariant
            n == table@.len(),
            i <= n,
            find_depth_tag(table@, stag) == find_depth_tag(table@.subrange(i as int, n as int), stag),
        decreases n - i,
    {
        let ghost rest = table@.subrange(i as int, n as int);
        assert(rest.drop_first() =~= table@.subrange(i + 1, n as int));
        if table[i].server_tag == stag {
            return Some(table[i]);
        }
        i = i + 1;
    }
    None
}

/// Decoding state inside one 35=P entry: the subscription, the current side,
/// whether a snapshot flag was seen, and the price and size read so far.
#[derive(Clone, Copy, Debug, PartialEq, Eq, Structural)]
pub struct PEntry {
    pub tag: DepthTag,
    pub side: i32,
    pub snapshot: bool,
    pub has_price: bool,
    pub price: u32,
    pub has_size: bool,
    pub size: u32,
}

/// The updates that a 35=P body yields from position `pos` on, with `bid` and
/// `ask` updates already numbered, inside `entry` (or between entries).
///
/// Wire format: entries `[00][3-byte server tag][field tags...][58]`; bytes
/// outside entries are skipped, as are entries of unknown server tags. A field
/// tag has bit 0x20 for size (else price), 0x08 for ask (else bid), 0x04 for
/// snapshot, 0x01 for a two-byte value (else one byte; a one-byte size is in
/// hundreds); a tag with 0x80 or 0x40 set, a 00 or 58 byte, or a truncated
/// value ends the entry. Each time a price and a size have both been read, an
/// update is produced at the next position of its side.
pub open spec fn p_updates(b: Seq<u8>, table: Seq<DepthTag>, pos: int, bid: int, ask: int, entry: Option<PEntry>) -> Seq<DepthUpdate>
    decreases b.len() - pos, if entry is Some { 1int } else { 0int },
    when 0 <= pos <= b.len()
{
    match entry {
        None => {
            if pos >= b.len() {
                Seq::empty()
            } else if b[pos] != 0 {
                p_updates(b, table, pos + 1, bid, ask, None)
            } else if pos + 4 > b.len() {
                Seq::empty()
            } else {
                let stag = be_value(b, pos + 1, 3) as u32;
                match find_depth_tag(table, stag) {
                    None => p_updates(b, table, pos + 4, bid, ask, None),
                    Some(t) => p_updates(b, table, pos + 4, bid, ask, Some(PEntry {
                        tag: t, side: 1, snapshot: false, has_price: false, price: 0, has_size: false, size: 0,
                    })),
                }
            }
        },
        Some(e) => {
            if pos >= b.len() || b[pos] == 0x58 || b[pos] == 0 || b[pos] & 0xC0 != 0 {
                let next = if pos < b.len() && b[pos] == 0x58 { pos + 1 } else { pos };
                p_updates(b, table, next, bid, ask, None)
            } else {
                let tag = b[pos];
                let p1 = pos + 1;
                let two = tag & 0x01 != 0;
                let side: i32 = if tag & 0x08 != 0 { 0 } else { 1 };
                let snap = e.snapshot || tag & 0x04 != 0;
                if (two && p1 + 2 > b.len()) || (!two && p1 >= b.len()) {
                    let next = if p1 < b.len() && b[p1] == 0x58 { p1 + 1 } else { p1 };
                    p_updates(b, table, next, bid, ask, None)
                } else {
                    let val = if two { be_value(b, p1, 2) } else { be_value(b, p1, 1) };
                    let p2 = if two { p1 + 2 } else { p1 + 1 };
                    let is_size = tag & 0x20 != 0;
                    let has_price = if is_size { e.has_price } else { true };
                    let price: u32 = if is_size { e.price } else { val as u32 };
                    let has_size = if is_size { true } else { e.has_size };
                    let size: u32 = if is_size { (if two { val } else { val * 100 }) as u32 } else { e.size };
                    if has_price && has_size {
                        let u = DepthUpdate {
                            req_id: e.tag.req_id,
                            server_tag: e.tag.server_tag,
                            position: (if side == 0 { ask } else { bid }) as i32,
                            market_maker: None,
                            operation: if snap { 0 } else { 1 },
                            side,
                            price_ticks: price,
                            size,
                            is_smart_depth: e.tag.is_smart,
                        };
                        seq![u] + p_updates(
                            b,
                            table,
                            p2,
                            if side == 0 { bid } else { bid + 1 },
                            if side == 0 { ask + 1 } else { ask },
                            Some(PEntry { tag: e.tag, side, snapshot: snap, has_price: false, price, has_size: false, size }),
                        )
                    } else {
                        p_updates(b, table, p2, bid, ask, Some(PEntry {
                            tag: e.tag, side, snapshot: snap, has_price, price, has_size, size,
                        }))
                    }
                }
            }
        },
    }
}

/// The updates of a whole 35=P body.
pub open spec fn depth_35p_updates(b: Seq<u8>, table: Seq<DepthTag>) -> Seq<DepthUpdate> {
    p_updates(b, table, 0, 0, 0, None)
}

/// Law: sizes of 35=P entries are in shares, a one-byte size counting
/// hundreds. An entry of a subscribed server tag with a two-byte price `p`
/// and then a size field yields one update at position 0 of its side (ask
/// when bit 0x08 of the tags is set, else bid), with price `p` and size
/// `100 * v` for a one-byte size `v`, or size `v` for a two-byte size `v`;
/// it is a snapshot (operation 0) when the price tag has bit 0x04, else an
/// update (operation 1); its request id, server tag and SmartDepth flag are
/// the subscription's.
pub proof fn law_35p_size_units(
    table: Seq<DepthTag>,
    t: DepthTag,
    s2: u8,
    s1: u8,
    s0: u8,
    ph: u8,
    pl: u8,
    sh: u8,
    sl: u8,
    ask: bool,
    wide: bool,
    snap: bool,
)
    requires
        find_depth_tag(table, (s2 * 0x1_0000 + s1 * 0x100 + s0) as u32) == Some(t),
    ensures
        ({
            let pt: u8 = if ask { if snap { 0x0D } else { 0x09 } } else { if snap { 0x05 } else { 0x01 } };
            let st: u8 = if ask { 0x28 } else { 0x20 };
            let body = if wide {
                seq![0u8, s2, s1, s0, pt, ph, pl, st | 0x01, sh, sl, 0x58u8]
            } else {
                seq![0u8, s2, s1, s0, pt, ph, pl, st, sh, 0x58u8]
            };
            depth_35p_updates(body, table) == seq![DepthUpdate {
                req_id: t.req_id,
                server_tag: t.server_tag,
                position: 0,
                market_maker: None,
                operation: if snap { 0 } else { 1 },
                side: if ask { 0 } else { 1 },
                price_ticks: (ph * 0x100 + pl) as u32,
                size: (if wide { sh * 0x100 + sl } else { 100 * sh }) as u32,
                is_smart_depth: t.is_smart,
            }]
        }),
{
    let pt: u8 = if ask { if snap { 0x0D } else { 0x09 } } else { if snap { 0x05 } else { 0x01 } };
    let st: u8 = if ask { 0x28 } else { 0x20 };
    let stw: u8 = st | 0x01;
    assert(0x0Du8 & 0x01u8 != 0 && 0x0Du8 & 0x08u8 != 0 && 0x0Du8 & 0x04u8 != 0 && 0x0Du8 & 0x20u8 == 0 && 0x0Du8 & 0xC0u8 == 0) by (bit_vector);
    assert(0x05u8 & 0x01u8 != 0 && 0x05u8 & 0x08u8 == 0 && 0x05u8 & 0x04u8 != 0 && 0x05u8 & 0x20u8 == 0 && 0x05u8 & 0xC0u8 == 0) by (bit_vector);
    assert(stw == (if ask { 0x29u8 } else { 0x21u8 })) by (bit_vector)
        requires
            st == (if ask { 0x28u8 } else { 0x20u8 }),
            stw == st | 0x01,
    ;
    assert(0x09u8 & 0x01u8 != 0 && 0x09u8 & 0x08u8 != 0 && 0x09u8 & 0x04u8 == 0 && 0x09u8 & 0x20u8 == 0 && 0x09u8 & 0xC0u8 == 0) by (bit_vector);
    assert(0x01u8 & 0x01u8 != 0 && 0x01u8 & 0x08u8 == 0 && 0x01u8 & 0x04u8 == 0 && 0x01u8 & 0x20u8 == 0 && 0x01u8 & 0xC0u8 == 0) by (bit_vector);
    assert(0x28u8 & 0x01u8 == 0 && 0x28u8 & 0x08u8 != 0 && 0x28u8 & 0x04u8 == 0 && 0x28u8 & 0x20u8 != 0 && 0x28u8 & 0xC0u8 == 0) by (bit_vector);
    assert(0x20u8 & 0x01u8 == 0 && 0x20u8 & 0x08u8 == 0 && 0x20u8 & 0x04u8 == 0 && 0x20u8 & 0x20u8 != 0 && 0x20u8 & 0xC0u8 == 0) by (bit_vector);
    assert(0x29u8 & 0x01u8 != 0 && 0x29u8 & 0x08u8 != 0 && 0x29u8 & 0x04u8 == 0 && 0x29u8 & 0x20u8 != 0 && 0x29u8 & 0xC0u8 == 0) by (bit_vector);
    assert(0x21u8 & 0x01u8 != 0 && 0x21u8 & 0x08u8 == 0 && 0x21u8 & 0x04u8 == 0 && 0x21u8 & 0x20u8 != 0 && 0x21u8 & 0xC0u8 == 0) by (bit_vector);
    let body = if wide {
        seq![0u8, s2, s1, s0, pt, ph, pl, stw, sh, sl, 0x58u8]
    } else {
        seq![0u8, s2, s1, s0, pt, ph, pl, st, sh, 0x58u8]
    };
    reveal_with_fuel(be_value, 4);
    assert(be_value(body, 1, 3) == s2 * 0x1_0000 + s1 * 0x100 + s0);
    assert(be_value(body, 5, 2) == ph * 0x100 + pl);
    let side: i32 = if ask { 0 } else { 1 };
    let e0 = PEntry { tag: t, side: 1, snapshot: false, has_price: false, price: 0, has_size: false, size: 0 };
    let price = (ph * 0x100 + pl) as u32;
    let e1 = PEntry { tag: t, side, snapshot: snap, has_price: true, price, has_size: false, size: 0 };
    let size: u32 = (if wide { sh * 0x100 + sl } else { 100 * sh }) as u32;
    let e2 = PEntry { tag: t, side, snapshot: snap, has_price: false, price, has_size: false, size };
    let u = DepthUpdate {
        req_id: t.req_id,
        server_tag: t.server_tag,
        position: 0,
        market_maker: None,
        operation: if snap { 0 } else { 1 },
        side,
        price_ticks: price,
        size,
        is_smart_depth: t.is_smart,
    };
    let bid: int = if ask { 0 } else { 1 };
    let askn: int = if ask { 1 } else { 0 };
    let end = body.len() as int;
    assert(p_updates(body, table, end, bid, askn, None) == Seq::<DepthUpdate>::empty());
    assert(p_updates(body, table, end - 1, bid, askn, Some(e2)) == p_updates(body, table, end, bid, askn, None));
    if wide {
        assert(be_value(body, 8, 2) == sh * 0x100 + sl);
        assert(p_updates(body, table, 7, 0, 0, Some(e1)) == seq![u] + p_updates(body, table, 10, bid, askn, Some(e2)));
    } else {
        assert(be_value(body, 8, 1) == sh);
        assert(p_updates(body, table, 7, 0, 0, Some(e1)) == seq![u] + p_updates(body, table, 9, bid, askn, Some(e2)));
    }
    assert(p_updates(body, table, 4, 0, 0, Some(e0)) == p_updates(body, table, 7, 0, 0, Some(e1)));
    assert(p_updates(body, table, 0, 0, 0, None) == p_updates(body, table, 4, 0, 0, Some(e0)));
    assert(seq![u] + Seq::<DepthUpdate>::empty() =~= seq![u]);
}

/// Number of updates that can come out of the bytes from `pos` on (at most one per byte).
proof fn lemma_p_updates_len(b: Seq<u8>, table: Seq<DepthTag>, pos: int, bid: int, ask: int, entry: Option<PEntry>)
    requires
        0 <= pos <= b.len(),
    ensures
        p_updates(b, table, pos, bid, ask, entry).len() <= b.len() - pos,
    decreases b.len() - pos, if entry is Some { 1int } else { 0int },
{
    match entry {
        None => {
            if pos >= b.len() {
            } else if b[pos] != 0 {
                lemma_p_updates_len(b, table, pos + 1, bid, ask, None);
            } else if pos + 4 > b.len() {
            } else {
                let stag = be_value(b, pos + 1, 3) as u32;
                match find_depth_tag(table, stag) {
                    None => lemma_p_updates_len(b, table, pos + 4, bid, ask, None),
                    Some(t) => lemma_p_updates_len(b, table, pos + 4, bid, ask, Some(PEntry {
                        tag: t, side: 1, snapshot: false, has_price: false, price: 0, has_size: false, size: 0,
                    })),
                }
            }
        },
        Some(e) => {
            if pos >= b.len() || b[pos] == 0x58 || b[pos] == 0 || b[pos] & 0xC0 != 0 {
                let next = if pos < b.len() && b[pos] == 0x58 { pos + 1 } else { pos };
                lemma_p_updates_len(b, table, next, bid, ask, None);
            } else {
                let tag = b[pos];
                let p1 = pos + 1;
                let two = tag & 0x01 != 0;
                let side: i32 = if tag & 0x08 != 0 { 0 } else { 1 };
                let snap = e.snapshot || tag & 0x04 != 0;
                if (two && p1 + 2 > b.len()) || (!two && p1 >= b.len()) {
                    let next = if p1 < b.len() && b[p1] == 0x58 { p1 + 1 } else { p1 };
                    lemma_p_updates_len(b, table, next, bid, ask, None);
                } else {
                    let val = if two { be_value(b, p1, 2) } else { be_value(b, p1, 1) };
                    let p2 = if two { p1 + 2 } else { p1 + 1 };
                    let is_size = tag & 0x20 != 0;
                    let has_price = if is_size { e.has_price } else { true };
                    let price: u32 = if is_size { e.price } else { val as u32 };
                    let has_size = if is_size { true } else { e.has_size };
                    let size: u32 = if is_size { (if two { val } else { val * 100 }) as u32 } else { e.size };
                    if has_price && has_size {
                        lemma_p_updates_len(
                            b,
                            table,
                            p2,
                            if side == 0 { bid } else { bid + 1 },
                            if side == 0 { ask + 1 } else { ask },
                            Some(PEntry { tag: e.tag, side, snapshot: snap, has_price: false, price, has_size: false, size }),
                        );
                    } else {
                        lemma_p_updates_len(b, table, p2, bid, ask, Some(PEntry {
                            tag: e.tag, side, snapshot: snap, has_price, price, has_size, size,
                        }));
                    }
                }
            }
        },
    }
}


/// Decodes the depth entries of a 35=P body (see `p_updates`). Price and size
/// pairs are reported in the order they complete, each at the next position
/// of its side; positions count over the whole body.
#[verifier::rlimit(60)]
pub fn decode_depth_35p(body: &[u8], table: &[DepthTag]) -> (out: Vec<DepthUpdate>)
    requires
        body@.len() <= i32::MAX,
    ensures
        out@ == depth_35p_updates(body@, table@),
{
    let ghost b = body@;
    let ghost t = table@;
    let ghost total = depth_35p_updates(b, t);
    proof {
        lemma_p_updates_len(b, t, 0, 0, 0, None);
    }
    let len = body.len();
    let mut out: Vec<DepthUpdate> = Vec::new();
    let mut pos: usize = 0;
    let mut bid_position: i32 = 0;
    let mut ask_position: i32 = 0;
    assert(out@ + p_updates(b, t, 0, 0, 0, None) =~= total);
    while pos < len
        invariant
            len == b.len(),
            b == body@,
            t == table@,
            len <= i32::MAX,
            pos <= len,
            total.len() <= len,
            0 <= bid_position,
            0 <= ask_position,
            bid_position + ask_position == out@.len(),
            out@ + p_updates(b, t, pos as int, bid_position as int, ask_position as int, None) == total,
        decreases len - pos,
    {
        let ghost iter_start = pos;
        if body[pos] != 0x00 {
            pos = pos + 1;
        } else if pos + 4 > len {
            pos = len;
        } else {
            let stag = (body[pos + 1] as u32) * 65536 + (body[pos + 2] as u32) * 256 + (body[pos + 3] as u32);
            proof {
                reveal_with_fuel(be_value, 4);
                assert(stag == be_value(b, pos + 1, 3) as u32);
            }
            pos = pos + 4;
            match lookup_depth_tag(table, stag) {
                None => {},
                Some(tag) => {
                    let mut side: i32 = 1;
                    let mut is_snapshot = false;
                    let mut has_price = false;
                    let mut price: u32 = 0;
                    let mut has_size = false;
                    let mut size: u32 = 0;
                    let mut open = true;
                    while open
                        invariant
                            len == b.len(),
                            b == body@,
                            t == table@,
                            len <= i32::MAX,
                            pos <= len,
                            pos > iter_start,
                            total.len() <= len,
                            0 <= bid_position,
                            0 <= ask_position,
                            bid_position + ask_position == out@.len(),
                            open ==> out@ + p_updates(b, t, pos as int, bid_position as int, ask_position as int, Some(PEntry {
                                tag, side, snapshot: is_snapshot, has_price, price, has_size, size,
                            })) == total,
                            !open ==> out@ + p_updates(b, t, pos as int, bid_position as int, ask_position as int, None) == total,
                        decreases len - pos, if open { 1int } else { 0int },
                    {
                        if pos >= len || body[pos] == 0x58 || body[pos] == 0x00 || body[pos] & 0xC0 != 0 {
                            if pos < len && body[pos] == 0x58 {
                                pos = pos + 1;
                            }
                            open = false;
                        } else {
                            let tag_byte = body[pos];
                            pos = pos + 1;
                            let is_size_field = tag_byte & 0x20 != 0;
                            let two_byte = tag_byte & 0x01 != 0;
                            let new_side: i32 = if tag_byte & 0x08 != 0 { 0 } else { 1 };
                            if tag_byte & 0x04 != 0 {
                                is_snapshot = true;
                            }
                            side = new_side;
                            if (two_byte && pos + 2 > len) || (!two_byte && pos >= len) {
                                if pos < len && body[pos] == 0x58 {
                                    pos = pos + 1;
                                }
                                open = false;
                            } else {
                                let val: u32 = if two_byte {
                                    (body[pos] as u32) * 256 + (body[pos + 1] as u32)
                                } else {
                                    body[pos] as u32
                                };
                                proof {
                                    reveal_with_fuel(be_value, 3);
                                }
                                pos = if two_byte { pos + 2 } else { pos + 1 };
                                if is_size_field {
                                    size = if two_byte { val } else { val * 100 };
                                    has_size = true;
                                } else {
                                    price = val;
                                    has_price = true;
                                }
                                if has_price && has_size {
                                    proof {
                                        lemma_p_updates_len(b, t, pos as int, bid_position as int, ask_position as int, Some(PEntry {
                                            tag, side, snapshot: is_snapshot, has_price: false, price, has_size: false, size,
                                        }));
                                    }
                                    let position = if side == 0 {
                                        let p = ask_position;
                                        ask_position = ask_position + 1;
                                        p
                                    } else {
                                        let p = bid_position;
                                        bid_position = bid_position + 1;
                                        p
                                    };
                                    let operation: i32 = if is_snapshot { 0 } else { 1 };
                                    let u = DepthUpdate {
                                        req_id: tag.req_id,
                                        server_tag: tag.server_tag,
                                        position,
                                        market_maker: None,
                                        operation,
                                        side,
                                        price_ticks: price,
                                        size,
                                        is_smart_depth: tag.is_smart,
                                    };
                                    let ghost before = out@;
                                    out.push(u);
                                    proof {
                                        assert(out@ == before + seq![u]);
                                        assert(before + (seq![u] + p_updates(b, t, pos as int, bid_position as int, ask_position as int, Some(PEntry {
                                            tag, side, snapshot: is_snapshot, has_price: false, price, has_size: false, size,
                                        }))) =~= out@ + p_updates(b, t, pos as int, bid_position as int, ask_position as int, Some(PEntry {
                                            tag, side, snapshot: is_snapshot, has_price: false, price, has_size: false, size,
                                        })));
                                    }
                                    has_price = false;
                                    has_size = false;
                                }
                            }
                        }
                    }
                },
            }
        }
    }
    assert(out@ =~= total);
    out
}


/// Decoding state inside one 35=Y entry: the market maker, its book position,
/// the current side, whether a snapshot flag was seen, and the price and size read.
#[derive(Clone, Copy, Debug, PartialEq, Eq, Structural)]
pub struct YEntry {
    pub market_maker: u32,
    pub book_position: i32,
    pub side: i32,
    pub snapshot: bool,
    pub has_price: bool,
    pub price: u32,
    pub has_size: bool,
    pub size: u32,
}

/// The update of a finished 35=Y entry: one if a price or a size was read, else none.
pub open spec fn y_emit(tag: DepthTag, e: YEntry) -> Seq<DepthUpdate> {
    if e.has_price || e.has_size {
        seq![DepthUpdate {
            req_id: tag.req_id,
            server_tag: tag.server_tag,
            position: e.book_position,
            market_maker: Some(e.market_maker),
            operation: if e.snapshot { 0 } else { 1 },
            side: e.side,
            price_ticks: e.price,
            size: e.size,
            is_smart_depth: tag.is_smart,
        }]
    } else {
        Seq::empty()
    }
}

/// The updates that a 35=Y body yields from position `pos` on, inside `entry`
/// or between entries.
///
/// Wire format after the 6-byte header: entries `[C4|44][4-byte market maker]
/// [1-byte position][field tags...]`; bytes before an entry prefix are skipped,
/// and an entry whose market maker and position are truncated ends the body.
/// A field tag has bit 0x80 for size (else price), 0x08 for ask (else bid),
/// 0x04 for snapshot, and its two low bits give the value length (00: 1 byte,
/// 01: 2 bytes, else 3 bytes). An entry ends at the next prefix byte, at the
/// end of the body, or at a truncated value, and yields one update if a price
/// or size was read (the last price, the last size, the last side).
pub open spec fn y_updates(b: Seq<u8>, tag: DepthTag, pos: int, entry: Option<YEntry>) -> Seq<DepthUpdate>
    decreases b.len() - pos, if entry is Some { 1int } else { 0int },
    when 0 <= pos <= b.len()
{
    match entry {
        None => {
            if pos >= b.len() {
                Seq::empty()
            } else if b[pos] != 0xC4 && b[pos] != 0x44 {
                y_updates(b, tag, pos + 1, None)
            } else if pos + 6 > b.len() {
                Seq::empty()
            } else {
                y_updates(b, tag, pos + 6, Some(YEntry {
                    market_maker: be_value(b, pos + 1, 4) as u32,
                    book_position: b[pos + 5] as i32,
                    side: 1,
                    snapshot: false,
                    has_price: false,
                    price: 0,
                    has_size: false,
                    size: 0,
                }))
            }
        },
        Some(e) => {
            if pos >= b.len() || b[pos] == 0xC4 || b[pos] == 0x44 {
                y_emit(tag, e) + y_updates(b, tag, pos, None)
            } else {
                let t = b[pos];
                let p1 = pos + 1;
                let side: i32 = if t & 0x08 != 0 { 0 } else { 1 };
                let snap = e.snapshot || t & 0x04 != 0;
                let n: nat = if t & 0x03 == 0 { 1 } else if t & 0x03 == 1 { 2 } else { 3 };
                if p1 + n > b.len() {
                    y_emit(tag, YEntry { side, snapshot: snap, ..e }) + y_updates(b, tag, p1, None)
                } else {
                    let val = be_value(b, p1, n) as u32;
                    let e2 = if t & 0x80 != 0 {
                        YEntry { side, snapshot: snap, has_size: true, size: val, ..e }
                    } else {
                        YEntry { side, snapshot: snap, has_price: true, price: val, ..e }
                    };
                    y_updates(b, tag, p1 + n, Some(e2))
                }
            }
        },
    }
}

/// The updates of a whole 35=Y body: the header `[3 bytes][3-byte server tag]`
/// names the subscription; a body shorter than the header, or of an unknown
/// server tag, yields nothing.
pub open spec fn depth_35y_updates(b: Seq<u8>, table: Seq<DepthTag>) -> Seq<DepthUpdate> {
    if b.len() < 6 {
        Seq::empty()
    } else {
        match find_depth_tag(table, be_value(b, 3, 3) as u32) {
            None => Seq::empty(),
            Some(t) => y_updates(b, t, 6, None),
        }
    }
}

/// Law: a 35=Y market-maker entry of a subscribed server tag with a
/// two-byte price `p` and then a one-byte size `v` yields one update for the
/// entry's market maker (its four bytes, big-endian) at the entry's book
/// position, with price `p` and size `v`; its side is ask when bit 0x08
/// (bit 3) of the field tags is set, else bid, and it is a snapshot
/// (operation 0) when the price tag has bit 0x04, else an update.
pub proof fn law_35y_entry(
    table: Seq<DepthTag>,
    t: DepthTag,
    h0: u8,
    h1: u8,
    h2: u8,
    s2: u8,
    s1: u8,
    s0: u8,
    high_prefix: bool,
    m3: u8,
    m2: u8,
    m1: u8,
    m0: u8,
    bpos: u8,
    ph: u8,
    pl: u8,
    v: u8,
    ask: bool,
    snap: bool,
)
    requires
        find_depth_tag(table, (s2 * 0x1_0000 + s1 * 0x100 + s0) as u32) == Some(t),
    ensures
        ({
            let pfx: u8 = if high_prefix { 0xC4 } else { 0x44 };
            let pt: u8 = if ask { if snap { 0x0D } else { 0x09 } } else { if snap { 0x05 } else { 0x01 } };
            let st: u8 = if ask { 0x88 } else { 0x80 };
            let body = seq![h0, h1, h2, s2, s1, s0, pfx, m3, m2, m1, m0, bpos, pt, ph, pl, st, v];
            depth_35y_updates(body, table) == seq![DepthUpdate {
                req_id: t.req_id,
                server_tag: t.server_tag,
                position: bpos as i32,
                market_maker: Some((m3 * 0x100_0000 + m2 * 0x1_0000 + m1 * 0x100 + m0) as u32),
                operation: if snap { 0 } else { 1 },
                side: if ask { 0 } else { 1 },
                price_ticks: (ph * 0x100 + pl) as u32,
                size: v as u32,
                is_smart_depth: t.is_smart,
            }]
        }),
{
    let pfx: u8 = if high_prefix { 0xC4 } else { 0x44 };
    let pt: u8 = if ask { if snap { 0x0D } else { 0x09 } } else { if snap { 0x05 } else { 0x01 } };
    let st: u8 = if ask { 0x88 } else { 0x80 };
    assert(0x0Du8 & 0x03u8 == 1 && 0x0Du8 & 0x08u8 != 0 && 0x0Du8 & 0x04u8 != 0 && 0x0Du8 & 0x80u8 == 0) by (bit_vector);
    assert(0x09u8 & 0x03u8 == 1 && 0x09u8 & 0x08u8 != 0 && 0x09u8 & 0x04u8 == 0 && 0x09u8 & 0x80u8 == 0) by (bit_vector);
    assert(0x05u8 & 0x03u8 == 1 && 0x05u8 & 0x08u8 == 0 && 0x05u8 & 0x04u8 != 0 && 0x05u8 & 0x80u8 == 0) by (bit_vector);
    assert(0x01u8 & 0x03u8 == 1 && 0x01u8 & 0x08u8 == 0 && 0x01u8 & 0x04u8 == 0 && 0x01u8 & 0x80u8 == 0) by (bit_vector);
    assert(0x88u8 & 0x03u8 == 0 && 0x88u8 & 0x08u8 != 0 && 0x88u8 & 0x04u8 == 0 && 0x88u8 & 0x80u8 != 0) by (bit_vector);
    assert(0x80u8 & 0x03u8 == 0 && 0x80u8 & 0x08u8 == 0 && 0x80u8 & 0x04u8 == 0 && 0x80u8 & 0x80u8 != 0) by (bit_vector);
    let body = seq![h0, h1, h2, s2, s1, s0, pfx, m3, m2, m1, m0, bpos, pt, ph, pl, st, v];
    reveal_with_fuel(be_value, 5);
    assert(be_value(body, 3, 3) == s2 * 0x1_0000 + s1 * 0x100 + s0);
    assert(be_value(body, 7, 4) == m3 * 0x100_0000 + m2 * 0x1_0000 + m1 * 0x100 + m0);
    assert(be_value(body, 13, 2) == ph * 0x100 + pl);
    assert(be_value(body, 16, 1) == v);
    let mm = (m3 * 0x100_0000 + m2 * 0x1_0000 + m1 * 0x100 + m0) as u32;
    let side: i32 = if ask { 0 } else { 1 };
    let e0 = YEntry { market_maker: mm, book_position: bpos as i32, side: 1, snapshot: false, has_price: false, price: 0, has_size: false, size: 0 };
    let e1 = YEntry { side, snapshot: snap, has_price: true, price: (ph * 0x100 + pl) as u32, ..e0 };
    let e2 = YEntry { side, snapshot: snap, has_size: true, size: v as u32, ..e1 };
    assert(y_updates(body, t, 17, None) == Seq::<DepthUpdate>::empty());
    assert(y_updates(body, t, 17, Some(e2)) == y_emit(t, e2) + y_updates(body, t, 17, None));
    assert(y_updates(body, t, 15, Some(e1)) == y_updates(body, t, 17, Some(e2)));
    assert(y_updates(body, t, 12, Some(e0)) == y_updates(body, t, 15, Some(e1)));
    assert(y_updates(body, t, 6, None) == y_updates(body, t, 12, Some(e0)));
    assert(y_emit(t, e2) + Seq::<DepthUpdate>::empty() =~= y_emit(t, e2));
}

/// Decodes the market-maker entries of a 35=Y body (see `y_updates`).
#[verifier::rlimit(60)]
pub fn decode_depth_35y(body: &[u8], table: &[DepthTag]) -> (out: Vec<DepthUpdate>)
    ensures
        out@ == depth_35y_updates(body@, table@),
{
    let ghost b = body@;
    let len = body.len();
    let mut out: Vec<DepthUpdate> = Vec::new();
    if len < 6 {
        return out;
    }
    let stag = (body[3] as u32) * 65536 + (body[4] as u32) * 256 + (body[5] as u32);
    proof {
        reveal_with_fuel(be_value, 4);
    }
    let tag = match lookup_depth_tag(table, stag) {
        Some(t) => t,
        None => {
            return out;
        },
    };
    let ghost total = y_updates(b, tag, 6, None);
    let mut pos: usize = 6;
    assert(out@ + y_updates(b, tag, 6, None) =~= total);
    while pos < len
        invariant
            len == b.len(),
            b == body@,
            6 <= pos <= len,
            out@ + y_updates(b, tag, pos as int, None) == total,
        decreases len - pos,
    {
        let ghost iter_start = pos;
        let prefix = body[pos];
        if prefix != 0xC4 && prefix != 0x44 {
            pos = pos + 1;
        } else if len - pos < 6 {
            pos = len;
        } else {
            let mm: u32 = (body[pos + 1] as u32) * 16777216 + (body[pos + 2] as u32) * 65536
                + (body[pos + 3] as u32) * 256 + (body[pos + 4] as u32);
            proof {
                reveal_with_fuel(be_value, 5);
            }
            let book_position = body[pos + 5] as i32;
            pos = pos + 6;
            let mut side: i32 = 1;
            let mut is_snapshot = false;
            let mut has_price = false;
            let mut price: u32 = 0;
            let mut has_size = false;
            let mut size: u32 = 0;
            let mut open = true;
            while open
                invariant
                    len == b.len(),
                    b == body@,
                    6 <= pos <= len,
                    pos > iter_start,
                    open ==> out@ + y_updates(b, tag, pos as int, Some(YEntry {
                        market_maker: mm, book_position, side, snapshot: is_snapshot, has_price, price, has_size, size,
                    })) == total,
                    !open ==> out@ + y_updates(b, tag, pos as int, None) == total,
                decreases len - pos, if open { 1int } else { 0int },
            {
                let ghost e = YEntry {
                    market_maker: mm, book_position, side, snapshot: is_snapshot, has_price, price, has_size, size,
                };
                if pos >= len || body[pos] == 0xC4 || body[pos] == 0x44 {
                    open = false;
                } else {
                    let t = body[pos];
                    pos = pos + 1;
                    let is_size_field = t & 0x80 != 0;
                    side = if t & 0x08 != 0 { 0 } else { 1 };
                    if t & 0x04 != 0 {
                        is_snapshot = true;
                    }
                    let val_len = t & 0x03;
                    let n: usize = if val_len == 0 { 1 } else if val_len == 1 { 2 } else { 3 };
                    if len - pos < n {
                        open = false;
                    } else {
                        let val: u32 = if n == 1 {
                            body[pos] as u32
                        } else if n == 2 {
                            (body[pos] as u32) * 256 + (body[pos + 1] as u32)
                        } else {
                            (body[pos] as u32) * 65536 + (body[pos + 1] as u32) * 256 + (body[pos + 2] as u32)
                        };
                        proof {
                            reveal_with_fuel(be_value, 4);
                        }
                        pos = pos + n;
                        if is_size_field {
                            size = val;
                            has_size = true;
                        } else {
                            price = val;
                            has_price = true;
                        }
                    }
                }
                if !open {
                    if has_price || has_size {
                        let operation: i32 = if is_snapshot { 0 } else { 1 };
                        let u = DepthUpdate {
                            req_id: tag.req_id,
                            server_tag: tag.server_tag,
                            position: book_position,
                            market_maker: Some(mm),
                            operation,
                            side,
                            price_ticks: price,
                            size,
                            is_smart_depth: tag.is_smart,
                        };
                        let ghost before = out@;
                        out.push(u);
                        proof {
                            assert(out@ =~= before + seq![u]);
                        }
                    }
                    proof {
                        let ef = YEntry {
                            market_maker: mm, book_position, side, snapshot: is_snapshot, has_price, price, has_size, size,
                        };
                        assert(out@ + y_updates(b, tag, pos as int, None) =~= total);
                    }
                }
            }
        }
    }
    assert(out@ =~= total);
    out
}

/// Whether a 35=P body has, at `off`, a zero byte followed by the 24-bit
/// server tag of a depth subscription.
pub open spec fn depth_entry_at(b: Seq<u8>, table: Seq<DepthTag>, off: int) -> bool {
    &&& 0 <= off
    &&& off + 3 < b.len()
    &&& b[off] == 0
    &&& find_depth_tag(table, be_value(b, off + 1, 3) as u32) is Some
}

/// Whether a 35=P body carries depth entries (any offset, see `depth_entry_at`).
pub fn body_has_depth_entry(body: &[u8], table: &[DepthTag]) -> (r: bool)
    ensures
        r == exists|off: int| depth_entry_at(body@, table@, off),
{
    let n = body.len();
    let mut off: usize = 0;
    while n >= 4 && off < n - 3
        invariant
            n == body@.len(),
            forall|o: int| 0 <= o < off ==> !depth_entry_at(body@, table@, o),
        decreases n - off,
    {
        if body[off] == 0 {
            let stag: u32 = (body[off + 1] as u32) * 65536 + (body[off + 2] as u32) * 256 + body[off + 3] as u32;
            proof {
                reveal_with_fuel(be_value, 4);
                assert(be_value(body@, off + 1, 3) == stag);
            }
            if lookup_depth_tag(table, stag).is_some() {
                assert(depth_entry_at(body@, table@, off as int));
                return true;
            }
        }
        off = off + 1;
    }
    proof {
        assert forall|o: int| !depth_entry_at(body@, table@, o) by {
            if 0 <= o && o + 3 < body@.len() {
                assert(o < off || !(n >= 4 && off < n - 3));
            }
        }
    }
    false
}

} // verus!
