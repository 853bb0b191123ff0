//! The market-data feed: decoding of the binary tick frames.
//!
//! A frame holds a 16-bit packet count, then the packets one after the other:
//! each a 16-bit length and that many bytes, a 32-bit instrument token and a
//! body whose layout the length selects: 8 bytes (LTP), 28/32 bytes (index
//! quote/full) and 44/184 bytes (quote/full, full with five levels of market
//! depth each way).
use crate::json::{encode_mode_request, encode_token_request, mode_request_json, token_request_json};
use crate::wire::{be_i16_at, be_i32_at, cursor_after, i16_field, i32_field, FrameReader};
use std::collections::HashMap;
use vstd::prelude::*;

verus! {

/// The address of the feed's WebSocket.
pub const WS_URL: &'static str = "wss://ws.kite.trade";

/// A number as the feed packs it: the value `raw / divisor`.
#[derive(Clone, Copy, Debug, PartialEq, Eq, Structural)]
pub struct Scaled {
    pub raw: i32,
    pub divisor: u32,
}

/// One level of market depth.
#[derive(Clone, Copy, Debug, PartialEq, Eq, Structural)]
pub struct DepthEntry {
    pub quantity: u64,
    pub price: Scaled,
    pub orders: u32,
}

/// Five levels of bids and five of offers.
#[derive(Clone, Debug)]
pub struct Depth {
    pub buy: Vec<DepthEntry>,
    pub sell: Vec<DepthEntry>,
}

/// One decoded packet of the feed.
#[derive(Clone, Debug)]
pub struct Tick {
    pub instrument_token: u32,
    pub last_price: Scaled,
    pub last_quantity: Option<u64>,
    pub average_price: Option<Scaled>,
    pub volume: Option<u64>,
    pub buy_quantity: Option<u64>,
    pub sell_quantity: Option<u64>,
    pub open: Option<Scaled>,
    pub high: Option<Scaled>,
    pub low: Option<Scaled>,
    pub close: Option<Scaled>,
    pub oi: Option<Scaled>,
    pub last_trade_time: Option<u64>,
    pub oi_day_high: Option<Scaled>,
    pub oi_day_low: Option<Scaled>,
    pub timestamp: Option<Scaled>,
    pub tradable: bool,
    pub mode: String,
    pub depth: Option<Depth>,
}

/// The contents of a `Depth`.
pub struct DepthView {
    pub buy: Seq<DepthEntry>,
    pub sell: Seq<DepthEntry>,
}

/// The contents of a `Tick`.
pub struct TickView {
    pub instrument_token: u32,
    pub last_price: Scaled,
    pub last_quantity: Option<u64>,
    pub average_price: Option<Scaled>,
    pub volume: Option<u64>,
    pub buy_quantity: Option<u64>,
    pub sell_quantity: Option<u64>,
    pub open: Option<Scaled>,
    pub high: Option<Scaled>,
    pub low: Option<Scaled>,
    pub close: Option<Scaled>,
    pub oi: Option<Scaled>,
    pub last_trade_time: Option<u64>,
    pub oi_day_high: Option<Scaled>,
    pub oi_day_low: Option<Scaled>,
    pub timestamp: Option<Scaled>,
    pub tradable: bool,
    pub mode: Seq<char>,
    pub depth: Option<DepthView>,
}

impl View for Depth {
    type V = DepthView;

    open spec fn view(&self) -> DepthView {
        DepthView { buy: self.buy@, sell: self.sell@ }
    }
}

impl View for Tick {
    type V = TickView;

    open spec fn view(&self) -> TickView {
        TickView {
            instrument_token: self.instrument_token,
            last_price: self.last_price,
            last_quantity: self.last_quantity,
            average_price: self.average_price,
            volume: self.volume,
            buy_quantity: self.buy_quantity,
            sell_quantity: self.sell_quantity,
            open: self.open,
            high: self.high,
            low: self.low,
            close: self.close,
            oi: self.oi,
            last_trade_time: self.last_trade_time,
            oi_day_high: self.oi_day_high,
            oi_day_low: self.oi_day_low,
            timestamp: self.timestamp,
            tradable: self.tradable,
            mode: self.mode@,
            depth: match self.depth {
                Some(d) => Some(d@),
                None => None,
            },
        }
    }
}

/// The contents of a list of ticks.
pub open spec fn tick_views(ticks: Seq<Tick>) -> Seq<TickView> {
    ticks.map_values(|t: Tick| t@)
}

/// Prices of instruments in segment 3 (the low byte of the token) are sent
/// in units of 10^-7, all others in units of 10^-2.
pub open spec fn price_divisor(token: u32) -> u32 {
    if token % 256 == 3 {
        10_000_000
    } else {
        100
    }
}

/// Instruments of segment 9 (indices) cannot be traded.
pub open spec fn is_tradable(token: u32) -> bool {
    token % 256 != 9
}

/// The packet lengths that the decoder understands.
pub open spec fn is_known_length(plen: int) -> bool {
    plen == 8 || plen == 28 || plen == 32 || plen == 44 || plen == 184
}

/// The price field at `p`.
pub open spec fn price_at(data: Seq<u8>, p: int, divisor: u32) -> Scaled {
    Scaled { raw: i32_field(data, p), divisor }
}

/// An unscaled 32-bit field at `p`.
pub open spec fn count_at(data: Seq<u8>, p: int) -> Scaled {
    Scaled { raw: i32_field(data, p), divisor: 1 }
}

/// The 32-bit field at `p` widened as the decoder widens quantities.
pub open spec fn quantity_at(data: Seq<u8>, p: int) -> u64 {
    i32_field(data, p) as u64
}

/// The 12-byte depth level at `p`: quantity, price, order count, padding.
pub open spec fn depth_entry_at(data: Seq<u8>, p: int, divisor: u32) -> DepthEntry {
    DepthEntry {
        quantity: quantity_at(data, p),
        price: price_at(data, p + 4, divisor),
        orders: i16_field(data, p + 8) as u32,
    }
}

/// The ten depth levels of a full packet, bids first.
pub open spec fn depth_view_at(data: Seq<u8>, p: int, divisor: u32) -> DepthView {
    DepthView {
        buy: Seq::new(5, |i: int| depth_entry_at(data, p + 12 * i, divisor)),
        sell: Seq::new(5, |i: int| depth_entry_at(data, p + 60 + 12 * i, divisor)),
    }
}

/// The tick that a packet of known length `plen` with instrument `token` and
/// body at `body` decodes to. Fields past the end of the frame read as 0.
#[verifier::opaque]
pub open spec fn packet_view(data: Seq<u8>, body: int, plen: int, token: u32) -> TickView {
    let d: u32 = price_divisor(token);
    let ltp = TickView {
        instrument_token: token,
        last_price: price_at(data, body, d),
        last_quantity: None,
        average_price: None,
        volume: None,
        buy_quantity: None,
        sell_quantity: None,
        open: None,
        high: None,
        low: None,
        close: None,
        oi: None,
        last_trade_time: None,
        oi_day_high: None,
        oi_day_low: None,
        timestamp: None,
        tradable: is_tradable(token),
        mode: "ltp"@,
        depth: None,
    };
    if plen == 28 || plen == 32 {
        TickView {
            high: Some(price_at(data, body + 4, d)),
            low: Some(price_at(data, body + 8, d)),
            open: Some(price_at(data, body + 12, d)),
            close: Some(price_at(data, body + 16, d)),
            timestamp: if plen == 32 {
                Some(price_at(data, body + 20, d))
            } else {
                None
            },
            mode: if plen == 28 {
                "quote"@
            } else {
                "full"@
            },
            ..ltp
        }
    } else if plen == 44 || plen == 184 {
        let quote = TickView {
            last_quantity: Some(quantity_at(data, body + 4)),
            average_price: Some(price_at(data, body + 8, d)),
            volume: Some(quantity_at(data, body + 12)),
            buy_quantity: Some(quantity_at(data, body + 16)),
            sell_quantity: Some(quantity_at(data, body + 20)),
            open: Some(price_at(data, body + 24, d)),
            high: Some(price_at(data, body + 28, d)),
            low: Some(price_at(data, body + 32, d)),
            close: Some(price_at(data, body + 36, d)),
            mode: if plen == 44 {
                "quote"@
            } else {
                "full"@
            },
            ..ltp
        };
        if plen == 44 {
            quote
        } else {
            TickView {
                last_trade_time: Some(quantity_at(data, body + 40)),
                oi: Some(count_at(data, body + 44)),
                oi_day_high: Some(count_at(data, body + 48)),
                oi_day_low: Some(count_at(data, body + 52)),
                timestamp: Some(count_at(data, body + 56)),
                depth: Some(depth_view_at(data, body + 60, d)),
                ..quote
            }
        }
    } else {
        ltp
    }
}

/// Where the packet whose length field stands at `pos` ends: its length in
/// bytes after the length field (the token and the body), or the end of the
/// frame where the packet runs past it.
pub open spec fn packet_end(data: Seq<u8>, pos: int, plen: int) -> int {
    if pos + 2 + plen <= data.len() {
        pos + 2 + plen
    } else {
        data.len() as int
    }
}

/// The outcome of the rest of a frame, starting at `pos` with `remaining`
/// packets still announced. Every packet of non-negative length occupies its
/// length in bytes after its length field, and the next packet follows it;
/// a packet of known length yields a tick, any other is skipped whole. A
/// negative length is refused (`None`) where its magnitude is at most the
/// body's position (the body's position plus the length, as an unsigned
/// 64-bit sum, overflows there); otherwise the next header is read right
/// after the instrument token.
pub open spec fn frame_walk(data: Seq<u8>, pos: int, remaining: nat) -> Option<Seq<TickView>>
    decreases remaining,
{
    if remaining == 0 || pos + 6 > data.len() {
        Some(Seq::empty())
    } else {
        let plen: int = be_i16_at(data, pos);
        let token: u32 = i32_field(data, pos + 2) as u32;
        let body: int = pos + 6;
        if plen < 0 {
            if body >= -plen {
                None
            } else {
                frame_walk(data, body, (remaining - 1) as nat)
            }
        } else if is_known_length(plen) {
            match frame_walk(data, packet_end(data, pos, plen), (remaining - 1) as nat) {
                Some(rest) => Some(seq![packet_view(data, body, plen, token)] + rest),
                None => None,
            }
        } else {
            frame_walk(data, packet_end(data, pos, plen), (remaining - 1) as nat)
        }
    }
}

/// The packet count announced in the frame's first two bytes.
pub open spec fn announced_packets(data: Seq<u8>) -> int {
    be_i16_at(data, 0)
}

/// The ticks of a whole frame; `None` where the decoder cannot proceed: a
/// negative packet count (no buffer can be reserved for it) or a refused
/// packet length in `frame_walk`.
pub open spec fn frame_ticks(data: Seq<u8>) -> Option<Seq<TickView>> {
    if data.len() < 2 {
        Some(Seq::empty())
    } else if announced_packets(data) < 0 {
        None
    } else {
        frame_walk(data, 2, announced_packets(data) as nat)
    }
}

/// `done` followed by the outcome `rest`.
pub open spec fn after(done: Seq<TickView>, rest: Option<Seq<TickView>>) -> Option<Seq<TickView>> {
    match rest {
        Some(r) => Some(done + r),
        None => None,
    }
}

/// The contents of an optional list of ticks.
pub open spec fn outcome_view(r: Option<Vec<Tick>>) -> Option<Seq<TickView>> {
    match r {
        Some(v) => Some(tick_views(v@)),
        None => None,
    }
}

/// The next 32-bit field of a packet body that starts at `start`, `k` bytes in.
fn next_i32(reader: &mut FrameReader, Ghost(start): Ghost<int>, Ghost(k): Ghost<int>) -> (v: i32)
    requires
        old(reader).wf(),
        0 <= start <= old(reader).data@.len(),
        0 <= k,
        old(reader).pos == cursor_after(old(reader).data@.len() as int, start, k),
    ensures
        final(reader).wf(),
        final(reader).data@ == old(reader).data@,
        final(reader).pos == cursor_after(old(reader).data@.len() as int, start, k + 4),
        v == i32_field(old(reader).data@, start + k),
{
    reader.read_i32().unwrap_or(0)
}

/// The next 16-bit field of a packet body that starts at `start`, `k` bytes in.
fn next_i16(reader: &mut FrameReader, Ghost(start): Ghost<int>, Ghost(k): Ghost<int>) -> (v: i16)
    requires
        old(reader).wf(),
        0 <= start <= old(reader).data@.len(),
        0 <= k,
        old(reader).pos == cursor_after(old(reader).data@.len() as int, start, k),
    ensures
        final(reader).wf(),
        final(reader).data@ == old(reader).data@,
        final(reader).pos == cursor_after(old(reader).data@.len() as int, start, k + 2),
        v == i16_field(old(reader).data@, start + k),
{
    reader.read_i16().unwrap_or(0)
}

/// A tick with no optional field set.
fn default_tick() -> (t: Tick)
    ensures
        t@ == (TickView {
            instrument_token: 0,
            last_price: Scaled { raw: 0, divisor: 100 },
            last_quantity: None,
            average_price: None,
            volume: None,
            buy_quantity: None,
            sell_quantity: None,
            open: None,
            high: None,
            low: None,
            close: None,
            oi: None,
            last_trade_time: None,
            oi_day_high: None,
            oi_day_low: None,
            timestamp: None,
            tradable: true,
            mode: "ltp"@,
            depth: None,
        }),
{
    Tick {
        instrument_token: 0,
        last_price: Scaled { raw: 0, divisor: 100 },
        last_quantity: None,
        average_price: None,
        volume: None,
        buy_quantity: None,
        sell_quantity: None,
        open: None,
        high: None,
        low: None,
        close: None,
        oi: None,
        last_trade_time: None,
        oi_day_high: None,
        oi_day_low: None,
        timestamp: None,
        tradable: true,
        mode: "ltp".to_string(),
        depth: None,
    }
}

/// Decodes the body of a packet of known length that starts at the reader's
/// position.
fn decode_packet(reader: &mut FrameReader, plen: i16, token: u32) -> (t: Tick)
    requires
        old(reader).wf(),
        is_known_length(plen as int),
    ensures
        final(reader).wf(),
        final(reader).data@ == old(reader).data@,
        t@ == packet_view(old(reader).data@, old(reader).pos as int, plen as int, token),
{
    reveal(packet_view);
    let ghost data = reader.data@;
    let ghost body = reader.pos as int;
    let ghost len = data.len() as int;
    let segment: u32 = token & 0xff;
    assert(token & 0xff == token % 256) by (bit_vector);
    let divisor: u32 = if segment == 3 {
        10_000_000
    } else {
        100
    };
    let tradable = segment != 9;
    let last_price = Scaled { raw: next_i32(reader, Ghost(body), Ghost(0)), divisor };
    if plen == 8 {
        return Tick {
            instrument_token: token,
            last_price,
            tradable,
            mode: "ltp".to_string(),
            ..default_tick()
        };
    }
    if plen == 28 || plen == 32 {
        let high = Scaled { raw: next_i32(reader, Ghost(body), Ghost(4)), divisor };
        let low = Scaled { raw: next_i32(reader, Ghost(body), Ghost(8)), divisor };
        let open = Scaled { raw: next_i32(reader, Ghost(body), Ghost(12)), divisor };
        let close = Scaled { raw: next_i32(reader, Ghost(body), Ghost(16)), divisor };
        let timestamp = if plen == 32 {
            Some(Scaled { raw: next_i32(reader, Ghost(body), Ghost(20)), divisor })
        } else {
            None
        };
        return Tick {
            instrument_token: token,
            last_price,
            tradable,
            open: Some(open),
            high: Some(high),
            low: Some(low),
            close: Some(close),
            timestamp,
            mode: if plen == 28 {
                "quote".to_string()
            } else {
                "full".to_string()
            },
            ..default_tick()
        };
    }
    let last_quantity: u64 = next_i32(reader, Ghost(body), Ghost(4)) as u64;
    let average_price = Scaled { raw: next_i32(reader, Ghost(body), Ghost(8)), divisor };
    let volume: u64 = next_i32(reader, Ghost(body), Ghost(12)) as u64;
    let buy_quantity: u64 = next_i32(reader, Ghost(body), Ghost(16)) as u64;
    let sell_quantity: u64 = next_i32(reader, Ghost(body), Ghost(20)) as u64;
    let open = Scaled { raw: next_i32(reader, Ghost(body), Ghost(24)), divisor };
    let high = Scaled { raw: next_i32(reader, Ghost(body), Ghost(28)), divisor };
    let low = Scaled { raw: next_i32(reader, Ghost(body), Ghost(32)), divisor };
    let close = Scaled { raw: next_i32(reader, Ghost(body), Ghost(36)), divisor };
    let mut tick = Tick {
        instrument_token: token,
        last_price,
        tradable,
        last_quantity: Some(last_quantity),
        average_price: Some(average_price),
        volume: Some(volume),
        buy_quantity: Some(buy_quantity),
        sell_quantity: Some(sell_quantity),
        open: Some(open),
        high: Some(high),
        low: Some(low),
        close: Some(close),
        mode: if plen == 44 {
            "quote".to_string()
        } else {
            "full".to_string()
        },
        ..default_tick()
    };
    if plen == 184 {
        tick.last_trade_time = Some(next_i32(reader, Ghost(body), Ghost(40)) as u64);
        tick.oi = Some(Scaled { raw: next_i32(reader, Ghost(body), Ghost(44)), divisor: 1 });
        tick.oi_day_high = Some(Scaled { raw: next_i32(reader, Ghost(body), Ghost(48)), divisor: 1 });
        tick.oi_day_low = Some(Scaled { raw: next_i32(reader, Ghost(body), Ghost(52)), divisor: 1 });
        tick.timestamp = Some(Scaled { raw: next_i32(reader, Ghost(body), Ghost(56)), divisor: 1 });
        let mut buy: Vec<DepthEntry> = Vec::new();
        let mut sell: Vec<DepthEntry> = Vec::new();
        let mut idx: usize = 0;
        while idx < 10
            invariant
                reader.wf(),
                reader.data@ == data,
                len == data.len(),
                0 <= body <= len,
                idx <= 10,
                reader.pos == cursor_after(len, body, 60 + 12 * idx),
                idx <= 5 ==> buy@ == Seq::new(
                    idx as nat,
                    |i: int| depth_entry_at(data, body + 60 + 12 * i, divisor),
                ),
                idx <= 5 ==> sell@.len() == 0,
                idx > 5 ==> buy@ == Seq::new(
                    5,
                    |i: int| depth_entry_at(data, body + 60 + 12 * i, divisor),
                ),
                idx > 5 ==> sell@ == Seq::new(
                    (idx - 5) as nat,
                    |i: int| depth_entry_at(data, body + 120 + 12 * i, divisor),
                ),
            decreases 10 - idx,
        {
            let k: usize = 60 + 12 * idx;
            let quantity: u64 = next_i32(reader, Ghost(body), Ghost(k as int)) as u64;
            let price = Scaled { raw: next_i32(reader, Ghost(body), Ghost(k + 4)), divisor };
            let orders: u32 = next_i16(reader, Ghost(body), Ghost(k + 8)) as u32;
            let _padding: i16 = next_i16(reader, Ghost(body), Ghost(k + 10));
            let entry = DepthEntry { quantity, price, orders };
            assert(entry == depth_entry_at(data, body + k, divisor));
            if idx < 5 {
                buy.push(entry);
            } else {
                sell.push(entry);
            }
            idx = idx + 1;
        }
        tick.depth = Some(Depth { buy, sell });
        assert(tick@.depth == packet_view(data, body, plen as int, token).depth);
    }
    tick
}

/// Walks a frame as the decoder does; `None` exactly where `frame_ticks` is.
fn scan_frame(data: &[u8]) -> (r: Option<Vec<Tick>>)
    ensures
        outcome_view(r) == frame_ticks(data@),
{
    let mut reader = FrameReader::new(data);
    let count: i16 = match reader.read_i16() {
        Some(n) => n,
        None => return Some(Vec::new()),
    };
    if count < 0 {
        return None;
    }
    let n: usize = count as usize;
    let mut ticks: Vec<Tick> = Vec::new();
    let mut i: usize = 0;
    assert(tick_views(ticks@) =~= Seq::<TickView>::empty());
    while i < n
        invariant
            reader.wf(),
            reader.data@ == data@,
            i <= n,
            n == announced_packets(data@),
            data@.len() >= 2,
            frame_ticks(data@) == after(
                tick_views(ticks@),
                frame_walk(data@, reader.pos as int, (n - i) as nat),
            ),
        decreases n - i,
    {
        let ghost pos0 = reader.pos as int;
        let ghost done = tick_views(ticks@);
        let plen: i16 = match reader.read_i16() {
            Some(v) => v,
            None => {
                assert(done + Seq::<TickView>::empty() =~= done);
                return Some(ticks);
            },
        };
        let raw_token: i32 = match reader.read_i32() {
            Some(v) => v,
            None => {
                assert(done + Seq::<TickView>::empty() =~= done);
                return Some(ticks);
            },
        };
        let token: u32 = raw_token as u32;
        let body: usize = reader.position();
        if plen < 0 {
            let back: usize = (0 - (plen as i32)) as usize;
            if body >= back {
                return None;
            }
        }
        i = i + 1;
        if plen >= 0 {
            let packet_start: usize = body - 4;
            let step: usize = plen as usize;
            let target: usize = if step <= data.len() - packet_start {
                packet_start + step
            } else {
                data.len()
            };
            if plen == 8 || plen == 28 || plen == 32 || plen == 44 || plen == 184 {
                let tick = decode_packet(&mut reader, plen, token);
                ticks.push(tick);
                proof {
                    let rest = frame_walk(data@, target as int, (n - i) as nat);
                    assert(tick_views(ticks@) =~= done.push(tick@));
                    if rest is Some {
                        assert(done + (seq![tick@] + rest.unwrap()) =~= done.push(tick@)
                            + rest.unwrap());
                    }
                }
            }
            reader.set_position(target);
        }
    }
    assert(tick_views(ticks@) + Seq::<TickView>::empty() =~= tick_views(ticks@));
    Some(ticks)
}

/// Decodes a binary frame of the feed into its ticks.
///
/// A packet's length counts its token and body, and the next packet follows
/// it. A packet whose length is none of 8, 28, 32, 44 and 184 is skipped
/// whole and yields no tick. Decoding stops where the frame cannot hold the
/// next packet header; fields past the end read as 0.
pub fn parse_ticks(data: &[u8]) -> (ticks: Vec<Tick>)
    requires
        frame_ticks(data@) is Some,
    ensures
        Some(tick_views(ticks@)) == frame_ticks(data@),
{
    if data.len() < 2 {
        return Vec::new();
    }
    match scan_frame(data) {
        Some(ticks) => ticks,
        None => Vec::new(),
    }
}

/// `parse_ticks` (and `parse_binary`) for any frame: `None` for the frames
/// that they do not accept, and their result for all others.
pub fn try_parse_ticks(data: &[u8]) -> (r: Option<Vec<Tick>>)
    ensures
        outcome_view(r) == frame_ticks(data@),
{
    scan_frame(data)
}

/// Decodes a binary frame of the feed into its ticks, as `parse_ticks` does.
pub fn parse_binary(data: &[u8]) -> (ticks: Vec<Tick>)
    requires
        frame_ticks(data@) is Some,
    ensures
        Some(tick_views(ticks@)) == frame_ticks(data@),
{
    parse_binary_data(data)
}

fn parse_binary_data(data: &[u8]) -> (ticks: Vec<Tick>)
    requires
        frame_ticks(data@) is Some,
    ensures
        Some(tick_views(ticks@)) == frame_ticks(data@),
{
    match scan_frame(data) {
        Some(ticks) => ticks,
        None => Vec::new(),
    }
}

/// What every decoded tick satisfies.
pub open spec fn tick_well_formed(t: TickView) -> bool {
    &&& t.tradable == is_tradable(t.instrument_token)
    &&& t.last_price.divisor == price_divisor(t.instrument_token)
    &&& (t.mode == "ltp"@ || t.mode == "quote"@ || t.mode == "full"@)
    &&& t.mode == "ltp"@ ==> t.open is None && t.high is None && t.low is None && t.close is None
    &&& t.mode != "ltp"@ ==> t.open is Some && t.high is Some && t.low is Some && t.close is Some
    &&& t.depth matches Some(d) ==> {
        &&& d.buy.len() == 5
        &&& d.sell.len() == 5
        &&& t.mode == "full"@
    }
}

proof fn lemma_walk_count(data: Seq<u8>, pos: int, remaining: nat)
    requires
        0 <= pos <= data.len(),
    ensures
        frame_walk(data, pos, remaining) matches Some(ts) ==> ts.len() <= remaining && 6
            * ts.len() <= data.len() - pos,
    decreases remaining,
{
    if remaining > 0 && pos + 6 <= data.len() {
        let plen: int = be_i16_at(data, pos);
        if plen < 0 {
            lemma_walk_count(data, pos + 6, (remaining - 1) as nat);
        } else {
            lemma_walk_count(data, packet_end(data, pos, plen), (remaining - 1) as nat);
        }
    }
}

/// A frame never yields more ticks than it announces, and every tick takes at
/// least the six bytes of its packet header.
pub proof fn law_tick_count_bounded(data: Seq<u8>)
    ensures
        frame_ticks(data) matches Some(ts) ==> (ts.len() > 0 ==> ts.len()
            <= announced_packets(data) && 2 + 6 * ts.len() <= data.len()),
{
    if data.len() >= 2 && announced_packets(data) >= 0 {
        lemma_walk_count(data, 2, announced_packets(data) as nat);
    }
}

proof fn lemma_packet_well_formed(data: Seq<u8>, body: int, plen: int, token: u32)
    requires
        is_known_length(plen),
    ensures
        tick_well_formed(packet_view(data, body, plen, token)),
{
    reveal(packet_view);
    reveal_strlit("ltp");
    reveal_strlit("quote");
    reveal_strlit("full");
    assert("ltp"@.len() != "quote"@.len() && "ltp"@.len() != "full"@.len());
    let t = packet_view(data, body, plen, token);
    if plen == 184 {
        assert(t.depth.unwrap().buy.len() == 5);
    }
}

proof fn lemma_walk_well_formed(data: Seq<u8>, pos: int, remaining: nat)
    ensures
        frame_walk(data, pos, remaining) matches Some(ts) ==> forall|i: int|
            0 <= i < ts.len() ==> tick_well_formed(#[trigger] ts[i]),
    decreases remaining,
{
    if remaining > 0 && pos + 6 <= data.len() {
        let plen: int = be_i16_at(data, pos);
        let body: int = pos + 6;
        let token: u32 = i32_field(data, pos + 2) as u32;
        if plen < 0 {
            lemma_walk_well_formed(data, body, (remaining - 1) as nat);
        } else {
            let next: int = packet_end(data, pos, plen);
            lemma_walk_well_formed(data, next, (remaining - 1) as nat);
            if is_known_length(plen) {
                lemma_packet_well_formed(data, body, plen, token);
                if let Some(rest) = frame_walk(data, next, (remaining - 1) as nat) {
                    let ts = seq![packet_view(data, body, plen, token)] + rest;
                    assert forall|i: int| 0 <= i < ts.len() implies tick_well_formed(
                        #[trigger] ts[i],
                    ) by {
                        if i > 0 {
                            assert(ts[i] == rest[i - 1]);
                        }
                    }
                }
            }
        }
    }
}

/// Every decoded tick is tradable exactly when its instrument is not an index
/// (segment 9), carries its prices in the units of its segment, is in one of
/// the modes `ltp`, `quote` and `full`, carries open, high, low and close
/// exactly when it is not an `ltp` tick, and where it carries market depth it
/// is a full tick with five levels each way.
pub proof fn law_ticks_well_formed(data: Seq<u8>)
    ensures
        frame_ticks(data) matches Some(ts) ==> forall|i: int|
            0 <= i < ts.len() ==> tick_well_formed(#[trigger] ts[i]),
{
    if data.len() >= 2 && announced_packets(data) >= 0 {
        lemma_walk_well_formed(data, 2, announced_packets(data) as nat);
    }
}

/// The units of a tick's prices, spelled out: the last price is in units of
/// 10^-7 for an instrument of segment 3 (the low byte of its token) and of
/// 10^-2 for every other; the average price, open, high, low and close and
/// the price of every level of market depth are in the units of the last
/// price; open interest and its day's range are plain counts.
pub open spec fn prices_in_segment_units(t: TickView) -> bool {
    &&& t.last_price.divisor == (if t.instrument_token % 256 == 3 {
        10_000_000u32
    } else {
        100u32
    })
    &&& t.average_price matches Some(p) ==> p.divisor == t.last_price.divisor
    &&& t.open matches Some(p) ==> p.divisor == t.last_price.divisor
    &&& t.high matches Some(p) ==> p.divisor == t.last_price.divisor
    &&& t.low matches Some(p) ==> p.divisor == t.last_price.divisor
    &&& t.close matches Some(p) ==> p.divisor == t.last_price.divisor
    &&& t.oi matches Some(p) ==> p.divisor == 1
    &&& t.oi_day_high matches Some(p) ==> p.divisor == 1
    &&& t.oi_day_low matches Some(p) ==> p.divisor == 1
    &&& t.depth matches Some(d) ==> {
        &&& forall|i: int| 0 <= i < d.buy.len() ==> (#[trigger] d.buy[i]).price.divisor
            == t.last_price.divisor
        &&& forall|i: int| 0 <= i < d.sell.len() ==> (#[trigger] d.sell[i]).price.divisor
            == t.last_price.divisor
    }
}

proof fn lemma_packet_units(data: Seq<u8>, body: int, plen: int, token: u32)
    requires
        is_known_length(plen),
    ensures
        prices_in_segment_units(packet_view(data, body, plen, token)),
{
    reveal(packet_view);
}

/// Where every packet of known length decodes to a tick with property
/// `good`, every tick of the rest of a frame has it.
proof fn lemma_walk_all(data: Seq<u8>, pos: int, remaining: nat, good: spec_fn(TickView) -> bool)
    requires
        forall|body: int, plen: int, token: u32|
            is_known_length(plen) ==> #[trigger] good(packet_view(data, body, plen, token)),
    ensures
        frame_walk(data, pos, remaining) matches Some(ts) ==> forall|i: int|
            0 <= i < ts.len() ==> good(#[trigger] ts[i]),
    decreases remaining,
{
    if remaining > 0 && pos + 6 <= data.len() {
        let plen: int = be_i16_at(data, pos);
        let body: int = pos + 6;
        let token: u32 = i32_field(data, pos + 2) as u32;
        if plen < 0 {
            lemma_walk_all(data, body, (remaining - 1) as nat, good);
        } else {
            let next: int = packet_end(data, pos, plen);
            lemma_walk_all(data, next, (remaining - 1) as nat, good);
            if is_known_length(plen) {
                if let Some(rest) = frame_walk(data, next, (remaining - 1) as nat) {
                    let ts = seq![packet_view(data, body, plen, token)] + rest;
                    assert(good(packet_view(data, body, plen, token)));
                    assert forall|i: int| 0 <= i < ts.len() implies good(#[trigger] ts[i]) by {
                        if i > 0 {
                            assert(ts[i] == rest[i - 1]);
                        }
                    }
                }
            }
        }
    }
}

/// Every decoded tick carries its prices in the units of its instrument's
/// segment: a last price in units of 10^-7 where the low byte of the token is
/// 3 and of 10^-2 otherwise, and the average price, open, high, low, close
/// and every level of market depth in the units of the last price.
pub proof fn law_prices_in_segment_units(data: Seq<u8>)
    ensures
        frame_ticks(data) matches Some(ts) ==> forall|i: int|
            0 <= i < ts.len() ==> prices_in_segment_units(#[trigger] ts[i]),
{
    let good = |t: TickView| prices_in_segment_units(t);
    assert forall|body: int, plen: int, token: u32| is_known_length(plen) implies #[trigger] good(
        packet_view(data, body, plen, token),
    ) by {
        lemma_packet_units(data, body, plen, token);
    }
    if data.len() >= 2 && announced_packets(data) >= 0 {
        lemma_walk_all(data, 2, announced_packets(data) as nat, good);
        if let Some(ts) = frame_ticks(data) {
            assert forall|i: int| 0 <= i < ts.len() implies prices_in_segment_units(
                #[trigger] ts[i],
            ) by {
                assert(good(ts[i]));
            }
        }
    }
}

/// The first packet of a frame, read at its offsets from the start of the
/// frame: the packet count (bytes 0-1), the packet's length (2-3), its
/// instrument token (4-7) and its body from byte 8 on. The body of an index
/// packet (length 28 or 32) holds last price, high, low, open and close, and
/// for length 32 a timestamp; that of a quote or full packet (44 or 184)
/// holds last price, last quantity, average price, volume, buy and sell
/// quantity, open, high, low and close, and for length 184 the last trade
/// time, open interest and its day's high and low, a timestamp and ten
/// 12-byte depth levels (quantity, price, order count, padding), bids first.
#[verifier::rlimit(30)]
pub proof fn law_first_packet_fields(data: Seq<u8>)
    requires
        data.len() >= 8,
        announced_packets(data) >= 1,
        is_known_length(be_i16_at(data, 2)),
    ensures
        frame_ticks(data) matches Some(ts) ==> {
            let plen = be_i16_at(data, 2);
            let t = ts[0];
            let units = t.last_price.divisor;
            &&& ts.len() >= 1
            &&& t.instrument_token == i32_field(data, 4) as u32
            &&& t.last_price.raw == i32_field(data, 8)
            &&& t.tradable == (t.instrument_token % 256 != 9)
            &&& t.mode == if plen == 8 {
                "ltp"@
            } else if plen == 28 || plen == 44 {
                "quote"@
            } else {
                "full"@
            }
            &&& plen == 8 ==> {
                &&& t.open is None && t.high is None && t.low is None && t.close is None
                &&& t.last_quantity is None && t.average_price is None && t.volume is None
                &&& t.timestamp is None && t.depth is None
            }
            &&& (plen == 28 || plen == 32) ==> {
                &&& t.high == Some(Scaled { raw: i32_field(data, 12), divisor: units })
                &&& t.low == Some(Scaled { raw: i32_field(data, 16), divisor: units })
                &&& t.open == Some(Scaled { raw: i32_field(data, 20), divisor: units })
                &&& t.close == Some(Scaled { raw: i32_field(data, 24), divisor: units })
                &&& t.timestamp == if plen == 32 {
                    Some(Scaled { raw: i32_field(data, 28), divisor: units })
                } else {
                    None
                }
            }
            &&& (plen == 44 || plen == 184) ==> {
                &&& t.last_quantity == Some(i32_field(data, 12) as u64)
                &&& t.average_price == Some(Scaled { raw: i32_field(data, 16), divisor: units })
                &&& t.volume == Some(i32_field(data, 20) as u64)
                &&& t.buy_quantity == Some(i32_field(data, 24) as u64)
                &&& t.sell_quantity == Some(i32_field(data, 28) as u64)
                &&& t.open == Some(Scaled { raw: i32_field(data, 32), divisor: units })
                &&& t.high == Some(Scaled { raw: i32_field(data, 36), divisor: units })
                &&& t.low == Some(Scaled { raw: i32_field(data, 40), divisor: units })
                &&& t.close == Some(Scaled { raw: i32_field(data, 44), divisor: units })
            }
            &&& plen == 184 ==> {
                &&& t.last_trade_time == Some(i32_field(data, 48) as u64)
                &&& t.oi == Some(Scaled { raw: i32_field(data, 52), divisor: 1 })
                &&& t.oi_day_high == Some(Scaled { raw: i32_field(data, 56), divisor: 1 })
                &&& t.oi_day_low == Some(Scaled { raw: i32_field(data, 60), divisor: 1 })
                &&& t.timestamp == Some(Scaled { raw: i32_field(data, 64), divisor: 1 })
                &&& t.depth matches Some(d)
                &&& d.buy.len() == 5
                &&& d.sell.len() == 5
                &&& forall|k: int| 0 <= k < 5 ==> #[trigger] d.buy[k] == (DepthEntry {
                    quantity: i32_field(data, 68 + 12 * k) as u64,
                    price: Scaled { raw: i32_field(data, 72 + 12 * k), divisor: units },
                    orders: i16_field(data, 76 + 12 * k) as u32,
                })
                &&& forall|k: int| 0 <= k < 5 ==> #[trigger] d.sell[k] == (DepthEntry {
                    quantity: i32_field(data, 128 + 12 * k) as u64,
                    price: Scaled { raw: i32_field(data, 132 + 12 * k), divisor: units },
                    orders: i16_field(data, 136 + 12 * k) as u32,
                })
            }
        },
{
    reveal(packet_view);
    let plen: int = be_i16_at(data, 2);
    let token: u32 = i32_field(data, 4) as u32;
    let n: nat = announced_packets(data) as nat;
    let next: int = packet_end(data, 2, plen);
    if let Some(rest) = frame_walk(data, next, (n - 1) as nat) {
        let ts = seq![packet_view(data, 8, plen, token)] + rest;
        assert(frame_ticks(data) == Some(ts));
        assert(ts[0] == packet_view(data, 8, plen, token));
    }
}

/// The second packet of a frame starts right after the first: at byte
/// 4 + `plen` for a first packet of length `plen`, whether or not the first
/// packet yields a tick. Where it is of a known length it yields the tick
/// after the first packet's (the first tick where the first packet's length
/// is unknown), with the token and last price read from there.
pub proof fn law_second_packet_follows_first(data: Seq<u8>)
    requires
        announced_packets(data) >= 2,
        be_i16_at(data, 2) >= 0,
        4 + be_i16_at(data, 2) + 6 <= data.len(),
        is_known_length(be_i16_at(data, 4 + be_i16_at(data, 2))),
    ensures
        frame_ticks(data) matches Some(ts) ==> {
            let q = 4 + be_i16_at(data, 2);
            let k: int = if is_known_length(be_i16_at(data, 2)) {
                1
            } else {
                0
            };
            &&& ts.len() >= k + 1
            &&& ts[k].instrument_token == i32_field(data, q + 2) as u32
            &&& ts[k].last_price.raw == i32_field(data, q + 6)
        },
{
    reveal(packet_view);
    let p1: int = be_i16_at(data, 2);
    let q: int = 4 + p1;
    let p2: int = be_i16_at(data, q);
    let n: nat = announced_packets(data) as nat;
    assert(packet_end(data, 2, p1) == q);
    let tail = frame_walk(data, packet_end(data, q, p2), (n - 2) as nat);
    if let Some(rest) = tail {
        let second = seq![packet_view(data, q + 6, p2, i32_field(data, q + 2) as u32)] + rest;
        assert(frame_walk(data, q, (n - 1) as nat) == Some(second));
        assert(second[0] == packet_view(data, q + 6, p2, i32_field(data, q + 2) as u32));
        if is_known_length(p1) {
            let ts = seq![packet_view(data, 8, p1, i32_field(data, 4) as u32)] + second;
            assert(frame_ticks(data) == Some(ts));
            assert(ts[1] == second[0]);
        } else {
            assert(frame_ticks(data) == Some(second));
        }
    }
}

/// A connection to the feed: its credentials and the instruments that a new
/// connection subscribes to.
pub struct KiteTicker {
    api_key: String,
    access_token: String,
    subscribed_tokens: HashMap<u32, String>,
}

/// The contents of a `KiteTicker`.
pub struct TickerView {
    pub api_key: Seq<char>,
    pub access_token: Seq<char>,
    pub subscribed: Set<u32>,
}

impl View for KiteTicker {
    type V = TickerView;

    closed spec fn view(&self) -> TickerView {
        TickerView {
            api_key: self.api_key@,
            access_token: self.access_token@,
            subscribed: self.subscribed_tokens@.dom(),
        }
    }
}

/// The text of `WS_URL`.
pub open spec fn ws_url_text() -> Seq<char> {
    seq!['w', 's', 's', ':', '/', '/', 'w', 's', '.', 'k', 'i', 't', 'e', '.', 't', 'r', 'a', 'd', 'e']
}

/// The address that a connection opens: the feed's address with the
/// credentials as query parameters.
pub open spec fn connection_url_text(api_key: Seq<char>, access_token: Seq<char>) -> Seq<char> {
    ws_url_text() + "?api_key="@ + api_key + "&access_token="@ + access_token
}

impl KiteTicker {
    pub fn new(api_key: &str, access_token: &str) -> (t: Self)
        ensures
            t@.api_key == api_key@,
            t@.access_token == access_token@,
            t@.subscribed == Set::<u32>::empty(),
    {
        let t = KiteTicker {
            api_key: api_key.to_string(),
            access_token: access_token.to_string(),
            subscribed_tokens: HashMap::new(),
        };
        assert(t@.subscribed =~= Set::<u32>::empty());
        t
    }

    /// The address that `connect` opens.
    pub fn connection_url(&self) -> (url: String)
        ensures
            url@ == connection_url_text(self@.api_key, self@.access_token),
    {
        proof {
            reveal_strlit("wss://ws.kite.trade");
        }
        let mut url = WS_URL.to_string();
        assert(url@ =~= ws_url_text());
        url.append("?api_key=");
        url.append(self.api_key.as_str());
        url.append("&access_token=");
        url.append(self.access_token.as_str());
        url
    }

    /// The messages that a new connection sends before anything else: none
    /// when no instrument is subscribed; otherwise a subscription to every
    /// subscribed instrument and a switch of them all to quote mode, the
    /// instruments listed in the map's own order.
    pub fn initial_messages(&self) -> (msgs: Vec<String>)
        ensures
            self@.subscribed.is_empty() ==> msgs@.len() == 0,
            !self@.subscribed.is_empty() ==> exists|tokens: Seq<u32>|
                {
                    &&& tokens.to_set() == self@.subscribed
                    &&& tokens.no_duplicates()
                    &&& msgs@.len() == 2
                    &&& #[trigger] msgs@[0]@ == token_request_json("subscribe"@, tokens)
                    &&& msgs@[1]@ == mode_request_json("mode"@, "quote"@, tokens)
                },
    {
        let mut msgs: Vec<String> = Vec::new();
        if self.subscribed_tokens.is_empty() {
            return msgs;
        }
        let mut tokens: Vec<u32> = Vec::new();
        broadcast use vstd::std_specs::hash::group_hash_axioms;

        for k in it: self.subscribed_tokens.keys()
            invariant
                it.seq() == vstd::std_specs::iter::IteratorSpec::remaining(
                    &vstd::std_specs::hash::spec_keys_iter(&self.subscribed_tokens),
                ),
                tokens@.len() == it.index(),
                forall|j: int| 0 <= j < it.index() ==> tokens@[j] == *#[trigger] it.seq()[j],
        {
            tokens.push(*k);
        }
        proof {
            let keys = vstd::std_specs::iter::IteratorSpec::remaining(
                &vstd::std_specs::hash::spec_keys_iter(&self.subscribed_tokens),
            );
            assert(tokens@ =~= keys.unref());
        }
        msgs.push(encode_token_request("subscribe", &tokens));
        msgs.push(encode_mode_request("mode", "quote", &tokens));
        msgs
    }

    /// Keeps the instruments that a new connection subscribes to in step with
    /// a command sent on the current connection: a subscription adds its
    /// instruments, an unsubscription removes them, a change of mode keeps
    /// them. A reconnection then renews exactly the subscriptions in force.
    pub fn record(&mut self, cmd: &TickerCommand)
        ensures
            final(self)@.api_key == old(self)@.api_key,
            final(self)@.access_token == old(self)@.access_token,
            match cmd {
                TickerCommand::Subscribe(tokens) => final(self)@.subscribed == old(
                    self,
                )@.subscribed + tokens@.to_set(),
                TickerCommand::Unsubscribe(tokens) => final(self)@.subscribed == old(
                    self,
                )@.subscribed - tokens@.to_set(),
                TickerCommand::SetMode(_, _) => final(self)@.subscribed == old(self)@.subscribed,
            },
    {
        broadcast use vstd::std_specs::hash::group_hash_axioms;

        let ghost before = self.subscribed_tokens@.dom();
        match cmd {
            TickerCommand::Subscribe(tokens) => {
                let mut k: usize = 0;
                while k < tokens.len()
                    invariant
                        k <= tokens@.len(),
                        self.api_key@ == old(self)@.api_key,
                        self.access_token@ == old(self)@.access_token,
                        forall|x: u32|
                            #![trigger self.subscribed_tokens@.dom().contains(x)]
                            self.subscribed_tokens@.dom().contains(x) <==> (before.contains(x)
                                || exists|j: int| 0 <= j < k && tokens@[j] == x),
                    decreases tokens@.len() - k,
                {
                    self.subscribed_tokens.insert(tokens[k], "quote".to_string());
                    proof {
                        assert forall|x: u32|
                            #![trigger self.subscribed_tokens@.dom().contains(x)]
                            self.subscribed_tokens@.dom().contains(x) <==> (before.contains(x)
                                || exists|j: int| 0 <= j < k + 1 && tokens@[j] == x) by {
                            if x == tokens@[k as int] {
                                assert(tokens@[k as int] == x);
                            }
                        }
                    }
                    k = k + 1;
                }
                assert(self@.subscribed =~= old(self)@.subscribed + tokens@.to_set()) by {
                    assert forall|x: u32| #[trigger] tokens@.to_set().contains(x) <==> exists|j: int|
                        0 <= j < tokens@.len() && tokens@[j] == x by {
                        if tokens@.contains(x) {
                            let j = choose|j: int| 0 <= j < tokens@.len() && tokens@[j] == x;
                        }
                    }
                }
            },
            TickerCommand::Unsubscribe(tokens) => {
                let mut k: usize = 0;
                while k < tokens.len()
                    invariant
                        k <= tokens@.len(),
                        self.api_key@ == old(self)@.api_key,
                        self.access_token@ == old(self)@.access_token,
                        forall|x: u32|
                            #![trigger self.subscribed_tokens@.dom().contains(x)]
                            self.subscribed_tokens@.dom().contains(x) <==> (before.contains(x)
                                && !exists|j: int| 0 <= j < k && tokens@[j] == x),
                    decreases tokens@.len() - k,
                {
                    self.subscribed_tokens.remove(&tokens[k]);
                    proof {
                        assert forall|x: u32|
                            #![trigger self.subscribed_tokens@.dom().contains(x)]
                            self.subscribed_tokens@.dom().contains(x) <==> (before.contains(x)
                                && !exists|j: int| 0 <= j < k + 1 && tokens@[j] == x) by {
                            if x == tokens@[k as int] {
                                assert(tokens@[k as int] == x);
                            }
                        }
                    }
                    k = k + 1;
                }
                assert(self@.subscribed =~= old(self)@.subscribed - tokens@.to_set()) by {
                    assert forall|x: u32| #[trigger] tokens@.to_set().contains(x) <==> exists|j: int|
                        0 <= j < tokens@.len() && tokens@[j] == x by {
                        if tokens@.contains(x) {
                            let j = choose|j: int| 0 <= j < tokens@.len() && tokens@[j] == x;
                        }
                    }
                }
            },
            TickerCommand::SetMode(_, _) => {},
        }
    }
}

/// Commands to send to the ticker WebSocket.
pub enum TickerCommand {
    Subscribe(Vec<u32>),
    Unsubscribe(Vec<u32>),
    SetMode(String, Vec<u32>),
}

impl TickerCommand {
    /// The text message that carries the command.
    pub fn message(&self) -> (text: String)
        ensures
            match self {
                TickerCommand::Subscribe(tokens) => text@ == token_request_json(
                    "subscribe"@,
                    tokens@,
                ),
                TickerCommand::Unsubscribe(tokens) => text@ == token_request_json(
                    "unsubscribe"@,
                    tokens@,
                ),
                TickerCommand::SetMode(mode, tokens) => text@ == mode_request_json(
                    "mode"@,
                    mode@,
                    tokens@,
                ),
            },
    {
        match self {
            TickerCommand::Subscribe(tokens) => encode_token_request("subscribe", tokens),
            TickerCommand::Unsubscribe(tokens) => encode_token_request("unsubscribe", tokens),
            TickerCommand::SetMode(mode, tokens) => encode_mode_request("mode", mode.as_str(), tokens),
        }
    }
}

/// What the connection receives.
pub enum TickerEvent {
    Binary(Vec<u8>),
    Text(String),
    Close,
    Failure,
    /// An attempt to open the connection again failed.
    ConnectFailure,
    Other,
}

/// What the connection does in answer.
pub enum TickerAction {
    /// Hand the decoded ticks to the receiver.
    Deliver(Vec<Tick>),
    /// Log the text message.
    Log,
    /// Open the connection again and renew the subscriptions.
    Reconnect,
    /// Wait this many milliseconds, then try to open the connection again.
    RetryAfter(u64),
    /// Nothing.
    Ignore,
    /// The frame is one that `parse_binary` does not accept.
    Abort,
}

/// The answer to one received message: frames of more than two bytes are
/// decoded by `parse_binary` and their ticks delivered unless there are
/// none; text is logged; a close or a failure of the connection is answered
/// by reconnecting, and a failed attempt to reconnect by another attempt a
/// second later.
pub fn next_action(event: &TickerEvent) -> (action: TickerAction)
    ensures
        match event {
            TickerEvent::Binary(data) => if data@.len() <= 2 {
                action is Ignore
            } else {
                match frame_ticks(data@) {
                    None => action is Abort,
                    Some(ts) => if ts.len() == 0 {
                        action is Ignore
                    } else {
                        action matches TickerAction::Deliver(ticks) && tick_views(ticks@) == ts
                    },
                }
            },
            TickerEvent::Text(_) => action is Log,
            TickerEvent::Close => action is Reconnect,
            TickerEvent::Failure => action is Reconnect,
            TickerEvent::ConnectFailure => action == TickerAction::RetryAfter(1000),
            TickerEvent::Other => action is Ignore,
        },
{
    match event {
        TickerEvent::Binary(data) => {
            if data.len() > 2 {
                match try_parse_ticks(data.as_slice()) {
                    None => TickerAction::Abort,
                    Some(ticks) => {
                        if ticks.len() > 0 {
                            TickerAction::Deliver(ticks)
                        } else {
                            TickerAction::Ignore
                        }
                    },
                }
            } else {
                TickerAction::Ignore
            }
        },
        TickerEvent::Text(_) => TickerAction::Log,
        TickerEvent::Close => TickerAction::Reconnect,
        TickerEvent::Failure => TickerAction::Reconnect,
        TickerEvent::ConnectFailure => TickerAction::RetryAfter(1000),
        TickerEvent::Other => TickerAction::Ignore,
    }
}

/// A frame that announces one LTP packet and holds its token and price
/// decodes to exactly one tick: that instrument's last price, in the units of
/// its segment, in `ltp` mode with no other field.
pub proof fn law_single_ltp_frame(token: Seq<u8>, price: Seq<u8>)
    requires
        token.len() == 4,
        price.len() == 4,
    ensures
        ({
            let data = seq![0u8, 1, 0, 8] + token + price;
            let t: u32 = be_i32_at(token, 0) as i32 as u32;
            &&& frame_ticks(data) matches Some(ts)
            &&& ts.len() == 1
            &&& ts[0].instrument_token == t
            &&& ts[0].last_price == Scaled {
                raw: be_i32_at(price, 0) as i32,
                divisor: price_divisor(t),
            }
            &&& ts[0].tradable == is_tradable(t)
            &&& ts[0].mode == "ltp"@
            &&& ts[0].last_quantity is None && ts[0].close is None && ts[0].depth is None
        }),
{
    reveal(packet_view);
    let data = seq![0u8, 1, 0, 8] + token + price;
    assert(data.len() == 12);
    assert(data[0] == 0 && data[1] == 1 && data[2] == 0 && data[3] == 8);
    assert(data[4] == token[0] && data[5] == token[1] && data[6] == token[2] && data[7] == token[3]);
    assert(data[8] == price[0] && data[9] == price[1] && data[10] == price[2] && data[11] == price[3]);
    assert(announced_packets(data) == 1);
    assert(be_i16_at(data, 2) == 8);
    assert(be_i32_at(data, 4) == be_i32_at(token, 0));
    assert(be_i32_at(data, 8) == be_i32_at(price, 0));
    assert(packet_end(data, 2, 8) == 12);
    assert(frame_walk(data, 12, 0) == Some(Seq::<TickView>::empty()));
}

} // verus!
