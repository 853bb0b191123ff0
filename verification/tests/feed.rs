use kite_connect::ticker::{
    parse_binary, parse_ticks, try_parse_ticks, DepthEntry, Scaled, Tick,
};

fn be16(v: i16) -> Vec<u8> {
    v.to_be_bytes().to_vec()
}

fn be32(v: i32) -> Vec<u8> {
    v.to_be_bytes().to_vec()
}

/// A frame announcing `count` packets, followed by `rest`.
fn frame(count: i16, rest: &[Vec<u8>]) -> Vec<u8> {
    let mut out = be16(count);
    for part in rest {
        out.extend_from_slice(part);
    }
    out
}

fn scaled(raw: i32, divisor: u32) -> Scaled {
    Scaled { raw, divisor }
}

fn assert_only_ltp_fields(t: &Tick) {
    assert_eq!(t.last_quantity, None);
    assert_eq!(t.average_price, None);
    assert_eq!(t.volume, None);
    assert_eq!(t.buy_quantity, None);
    assert_eq!(t.sell_quantity, None);
    assert_eq!(t.open, None);
    assert_eq!(t.high, None);
    assert_eq!(t.low, None);
    assert_eq!(t.close, None);
    assert_eq!(t.oi, None);
    assert_eq!(t.last_trade_time, None);
    assert_eq!(t.oi_day_high, None);
    assert_eq!(t.oi_day_low, None);
    assert_eq!(t.timestamp, None);
    assert!(t.depth.is_none());
}

#[test]
fn ltp_packet_decodes_price_in_hundredths() {
    let token: i32 = 0x0003_8E01;
    let data = frame(1, &[be16(8), be32(token), be32(150_025)]);
    let ticks = parse_ticks(&data);
    assert_eq!(ticks.len(), 1);
    let t = &ticks[0];
    assert_eq!(t.instrument_token, token as u32);
    assert_eq!(t.last_price, scaled(150_025, 100));
    assert!(t.tradable);
    assert_eq!(t.mode, "ltp");
    assert_only_ltp_fields(t);
}

#[test]
fn segment_three_prices_are_in_units_of_ten_millionths() {
    let token: i32 = 0x0000_1203;
    let data = frame(1, &[be16(8), be32(token), be32(12_345_678)]);
    let ticks = parse_binary(&data);
    assert_eq!(ticks.len(), 1);
    assert_eq!(ticks[0].last_price, scaled(12_345_678, 10_000_000));
    assert!(ticks[0].tradable);
}

#[test]
fn index_segment_is_not_tradable() {
    let token: i32 = 256265; // low byte 9
    let data = frame(1, &[be16(8), be32(token), be32(2_200_000)]);
    let ticks = parse_ticks(&data);
    assert_eq!(ticks.len(), 1);
    assert!(!ticks[0].tradable);
    assert_eq!(ticks[0].last_price, scaled(2_200_000, 100));
}

#[test]
fn index_quote_packet_has_ohlc_and_no_timestamp() {
    let token: i32 = 256265;
    let body: Vec<Vec<u8>> =
        vec![be32(1000), be32(1100), be32(900), be32(950), be32(980)];
    let mut parts = vec![be16(28), be32(token)];
    parts.extend(body);
    let ticks = parse_ticks(&frame(1, &parts));
    assert_eq!(ticks.len(), 1);
    let t = &ticks[0];
    assert_eq!(t.last_price, scaled(1000, 100));
    assert_eq!(t.high, Some(scaled(1100, 100)));
    assert_eq!(t.low, Some(scaled(900, 100)));
    assert_eq!(t.open, Some(scaled(950, 100)));
    assert_eq!(t.close, Some(scaled(980, 100)));
    assert_eq!(t.timestamp, None);
    assert_eq!(t.mode, "quote");
    assert!(t.depth.is_none());
}

#[test]
fn index_full_packet_has_scaled_timestamp() {
    let token: i32 = 256265;
    let parts = vec![
        be16(32),
        be32(token),
        be32(1000),
        be32(1100),
        be32(900),
        be32(950),
        be32(980),
        be32(1_700_000_000),
    ];
    let ticks = parse_binary(&frame(1, &parts));
    assert_eq!(ticks.len(), 1);
    assert_eq!(ticks[0].timestamp, Some(scaled(1_700_000_000, 100)));
    assert_eq!(ticks[0].mode, "full");
}

fn quote_body() -> Vec<Vec<u8>> {
    vec![
        be32(150_000), // last price
        be32(25),      // last quantity
        be32(149_900), // average price
        be32(1_000_000), // volume
        be32(5_000),   // buy quantity
        be32(-1),      // sell quantity (negative on the wire)
        be32(148_000), // open
        be32(151_000), // high
        be32(147_500), // low
        be32(149_000), // close
    ]
}

#[test]
fn quote_packet_fields() {
    let token: i32 = 408065;
    let mut parts = vec![be16(44), be32(token)];
    parts.extend(quote_body());
    let ticks = parse_ticks(&frame(1, &parts));
    assert_eq!(ticks.len(), 1);
    let t = &ticks[0];
    assert_eq!(t.last_price, scaled(150_000, 100));
    assert_eq!(t.last_quantity, Some(25));
    assert_eq!(t.average_price, Some(scaled(149_900, 100)));
    assert_eq!(t.volume, Some(1_000_000));
    assert_eq!(t.buy_quantity, Some(5_000));
    assert_eq!(t.sell_quantity, Some((-1i32) as u64));
    assert_eq!(t.open, Some(scaled(148_000, 100)));
    assert_eq!(t.high, Some(scaled(151_000, 100)));
    assert_eq!(t.low, Some(scaled(147_500, 100)));
    assert_eq!(t.close, Some(scaled(149_000, 100)));
    assert_eq!(t.mode, "quote");
    assert_eq!(t.oi, None);
    assert!(t.depth.is_none());
}

#[test]
fn full_packet_has_depth_and_open_interest() {
    let token: i32 = 408065;
    let mut parts = vec![be16(184), be32(token)];
    parts.extend(quote_body());
    parts.push(be32(1_699_999_999)); // last trade time
    parts.push(be32(7_000)); // oi
    parts.push(be32(8_000)); // oi day high
    parts.push(be32(6_000)); // oi day low
    parts.push(be32(1_700_000_000)); // exchange timestamp
    for level in 0..10i32 {
        parts.push(be32(100 + level));
        parts.push(be32(150_000 + level));
        parts.push(be16(level as i16 + 1));
        parts.push(be16(0));
    }
    let data = frame(1, &parts);
    assert_eq!(data.len(), 2 + 2 + 184);
    let ticks = parse_ticks(&data);
    assert_eq!(ticks.len(), 1);
    let t = &ticks[0];
    assert_eq!(t.mode, "full");
    assert_eq!(t.last_trade_time, Some(1_699_999_999));
    assert_eq!(t.oi, Some(scaled(7_000, 1)));
    assert_eq!(t.oi_day_high, Some(scaled(8_000, 1)));
    assert_eq!(t.oi_day_low, Some(scaled(6_000, 1)));
    assert_eq!(t.timestamp, Some(scaled(1_700_000_000, 1)));
    let depth = t.depth.as_ref().unwrap();
    assert_eq!(depth.buy.len(), 5);
    assert_eq!(depth.sell.len(), 5);
    assert_eq!(
        depth.buy[0],
        DepthEntry { quantity: 100, price: scaled(150_000, 100), orders: 1 }
    );
    assert_eq!(
        depth.sell[4],
        DepthEntry { quantity: 109, price: scaled(150_009, 100), orders: 10 }
    );
}

#[test]
fn fields_past_the_end_of_the_frame_read_as_zero() {
    let token: i32 = 408065;
    // A quote packet cut after its last price and half of its last quantity.
    let data = frame(1, &[be16(44), be32(token), be32(150_000), vec![0, 0]]);
    let ticks = parse_ticks(&data);
    assert_eq!(ticks.len(), 1);
    let t = &ticks[0];
    assert_eq!(t.last_price, scaled(150_000, 100));
    assert_eq!(t.last_quantity, Some(0));
    assert_eq!(t.close, Some(scaled(0, 100)));
}

#[test]
fn packets_follow_each_other() {
    let first: i32 = 0x0000_0101;
    let second: i32 = 0x0000_0201;
    let data = frame(2, &[be16(8), be32(first), be32(111), be16(8), be32(second), be32(222)]);
    let ticks = parse_ticks(&data);
    assert_eq!(ticks.len(), 2);
    assert_eq!(ticks[0].instrument_token, first as u32);
    assert_eq!(ticks[0].last_price, scaled(111, 100));
    assert_eq!(ticks[1].instrument_token, second as u32);
    assert_eq!(ticks[1].last_price, scaled(222, 100));
}

#[test]
fn mixed_modes_in_one_frame() {
    let mut parts = vec![be16(44), be32(408065)];
    parts.extend(quote_body());
    parts.extend(vec![be16(8), be32(256265), be32(5)]);
    let ticks = parse_binary(&frame(2, &parts));
    assert_eq!(ticks.len(), 2);
    assert_eq!(ticks[0].mode, "quote");
    assert_eq!(ticks[1].mode, "ltp");
    assert!(!ticks[1].tradable);
    assert_eq!(ticks[1].last_price, scaled(5, 100));
}

#[test]
fn unknown_length_packet_is_skipped_whole() {
    let data: Vec<u8> = vec![
        0, 2, 0, 12, 0, 0, 1, 1, 0, 0, 0, 0, 0, 0, 0, 0, 0, 8, 0, 0, 2, 1, 0, 0, 78, 32,
    ];
    for ticks in [parse_ticks(&data), parse_binary(&data)] {
        assert_eq!(ticks.len(), 1);
        assert_eq!(ticks[0].instrument_token, 513);
        assert_eq!(ticks[0].last_price, scaled(20000, 100));
        assert_eq!(ticks[0].mode, "ltp");
    }
}

#[test]
fn decoders_agree_on_unknown_lengths() {
    let data: Vec<u8> = vec![0, 2, 0, 0, 0, 0, 0, 0, 0, 8, 0, 0, 1, 1, 0, 0, 0, 0];
    assert_eq!(parse_ticks(&data).len(), parse_binary(&data).len());
    let inner: i32 = 0x0000_0103;
    let data = frame(2, &[be16(10), be32(0x0101), vec![9; 6], be16(8), be32(inner), be32(777)]);
    let a = parse_ticks(&data);
    let b = parse_binary(&data);
    assert_eq!(a.len(), 1);
    assert_eq!(b.len(), 1);
    assert_eq!(a[0].instrument_token, inner as u32);
    assert_eq!(b[0].last_price, scaled(777, 10_000_000));
}

#[test]
fn decoders_agree_when_all_lengths_are_known() {
    let data = frame(
        2,
        &[be16(8), be32(7), be32(1), be16(8), be32(9), be32(2)],
    );
    let a = parse_ticks(&data);
    let b = parse_binary(&data);
    assert_eq!(a.len(), b.len());
    for (x, y) in a.iter().zip(b.iter()) {
        assert_eq!(x.instrument_token, y.instrument_token);
        assert_eq!(x.last_price, y.last_price);
        assert_eq!(x.mode, y.mode);
    }
}

#[test]
fn short_frames_yield_nothing() {
    assert!(parse_ticks(&[]).is_empty());
    assert!(parse_ticks(&[0]).is_empty());
    assert!(parse_binary(&[]).is_empty());
    assert!(parse_binary(&[5]).is_empty());
    // Announces one packet but holds only part of its header.
    assert!(parse_ticks(&[0, 1, 0, 8, 0, 0]).is_empty());
}

#[test]
fn count_is_bounded_by_announced_packets_and_length() {
    // Announces three packets, holds one.
    let data = frame(3, &[be16(8), be32(1), be32(5)]);
    let ticks = parse_ticks(&data);
    assert_eq!(ticks.len(), 1);
    assert!(2 + 6 * ticks.len() <= data.len());
    // Announces none, holds one.
    let data = frame(0, &[be16(8), be32(1), be32(5)]);
    assert!(parse_binary(&data).is_empty());
}

#[test]
fn negative_packet_count_is_refused() {
    assert!(try_parse_ticks(&[0xFF, 0xFF, 0, 8]).is_none());
    assert!(try_parse_ticks(&[0x80, 0x00]).is_none());
}

#[test]
fn negative_packet_length_within_reach_is_refused() {
    // Body starts at 8, the length is -8: the position arithmetic overflows.
    let data = frame(1, &[be16(-8), be32(1), be32(5)]);
    assert!(try_parse_ticks(&data).is_none());
    assert!(try_parse_ticks(&data).is_none());
    // A length of -9 stays out of reach; the next header is read after the token.
    let data = frame(2, &[be16(-9), be32(1), be16(8), be32(0x0201), be32(5)]);
    let ticks = try_parse_ticks(&data).unwrap();
    assert_eq!(ticks.len(), 1);
    assert_eq!(ticks[0].instrument_token, 0x0201);
}

#[test]
fn try_variants_agree_with_the_decoders() {
    let data = frame(1, &[be16(8), be32(0x0103), be32(42)]);
    let a = try_parse_ticks(&data).unwrap();
    let b = parse_ticks(&data);
    assert_eq!(a.len(), b.len());
    assert_eq!(a[0].last_price, b[0].last_price);
    let c = try_parse_ticks(&data).unwrap();
    assert_eq!(c[0].last_price, scaled(42, 10_000_000));
}
