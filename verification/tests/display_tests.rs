use xau_tray::display::{
    build_tooltip, classify_trend, format_price_line, format_title, icon_for_trend,
    pick_display_symbol, trend_glyph, IconKind,
};
use xau_tray::error::{error_title, format_transport_error, transport_tags, FetchError};
use xau_tray::market::{PriceMap, Trend, TrendMap};
use xau_tray::num::{i64_to_string, parse_uint, u64_to_string};
use xau_tray::price::{format_price, parse_price};
use xau_tray::settings::{ApiType, DisplayMode, QuoteSettings, SymbolItem};
use xau_tray::text::trim_str;

fn sym(code: &str, label: &str) -> SymbolItem {
    SymbolItem { code: code.to_string(), label: label.to_string() }
}

fn settings_with(symbols: Vec<SymbolItem>, mode: DisplayMode, fixed: Option<&str>) -> QuoteSettings {
    QuoteSettings {
        token: "tok".to_string(),
        symbols,
        display_mode: mode,
        api_type: ApiType::Commodity,
        refresh_seconds: 10,
        rotate_seconds: 10,
        fixed_symbol: fixed.map(|s| s.to_string()),
        use_system_proxy: false,
    }
}

#[test]
fn trend_classification() {
    assert!(classify_trend(10500, 10000) == Trend::Up);
    assert!(classify_trend(9500, 10000) == Trend::Down);
    assert!(classify_trend(10000, 10000) == Trend::Flat);
}

#[test]
fn trend_glyphs_and_icons() {
    assert_eq!(trend_glyph(Trend::Up), "▲");
    assert_eq!(trend_glyph(Trend::Down), "▼");
    assert_eq!(trend_glyph(Trend::Flat), "—");
    assert!(icon_for_trend(Some(Trend::Up)) == IconKind::Up);
    assert!(icon_for_trend(Some(Trend::Down)) == IconKind::Down);
    assert!(icon_for_trend(Some(Trend::Flat)) == IconKind::Pending);
    assert!(icon_for_trend(None) == IconKind::Pending);
}

#[test]
fn fixed_mode_falls_back_to_first_symbol() {
    let s = settings_with(
        vec![sym("XAUUSD", "Gold"), sym("Silver", "Silver")],
        DisplayMode::Fixed,
        Some("GONE"),
    );
    let picked = pick_display_symbol(&s, 0).expect("some symbol");
    assert_eq!(picked.code, "XAUUSD");

    let s = settings_with(
        vec![sym("XAUUSD", "Gold"), sym("Silver", "Silver")],
        DisplayMode::Fixed,
        Some("Silver"),
    );
    assert_eq!(pick_display_symbol(&s, 0).unwrap().code, "Silver");
}

#[test]
fn rotate_mode_picks_by_index() {
    let s = settings_with(
        vec![sym("A", "a"), sym("B", "b"), sym("C", "c")],
        DisplayMode::Rotate,
        None,
    );
    assert_eq!(pick_display_symbol(&s, 1).unwrap().code, "B");
    assert!(pick_display_symbol(&s, 3).is_none());
    let empty = settings_with(Vec::new(), DisplayMode::Rotate, None);
    assert!(pick_display_symbol(&empty, 0).is_none());
}

#[test]
fn title_formatting() {
    let g = sym("XAUUSD", "Gold");
    assert_eq!(format_title(&g, Some(195000)), "Gold 1950.00");
    assert_eq!(format_title(&g, None), "Gold --");
    let unlabeled = sym("XAUUSD", "");
    assert_eq!(format_title(&unlabeled, Some(5)), "XAUUSD 0.05");
}

#[test]
fn price_line_formatting() {
    let g = sym("XAUUSD", "Gold");
    assert_eq!(format_price_line(&g, Some(195000), Some(Trend::Up)), "▲ Gold 1950.00");
    assert_eq!(format_price_line(&g, Some(195000), None), "Gold --");
    assert_eq!(format_price_line(&g, None, Some(Trend::Flat)), "Gold --");
    assert_eq!(format_price_line(&g, Some(-150), Some(Trend::Down)), "▼ Gold -1.50");
}

#[test]
fn error_title_marks_the_previous_title() {
    assert_eq!(error_title("Gold 1950.00"), "🔴 Gold 1950.00");
    assert_eq!(error_title("  "), "🔴");
    assert_eq!(error_title(""), "🔴");
}

#[test]
fn tooltip_prepends_error_lines() {
    let symbols = vec![sym("XAUUSD", "Gold"), sym("Silver", "Silver")];
    let mut prices = PriceMap::new();
    prices.insert("XAUUSD".to_string(), 195000);
    let mut trends = TrendMap::new();
    trends.insert("XAUUSD".to_string(), Trend::Up);
    trends.insert("Silver".to_string(), Trend::Flat);
    let err = FetchError::with_msg("api ret=500".to_string(), Some(" down ".to_string()));
    let tip = build_tooltip(&symbols, &prices, &trends, Some(&err));
    assert_eq!(tip, "错误: api ret=500\nmsg: down\n▲ Gold 1950.00\nSilver --");
    let tip_ok = build_tooltip(&symbols, &prices, &trends, None);
    assert_eq!(tip_ok, "▲ Gold 1950.00\nSilver --");
}

#[test]
fn fetch_error_tooltip_lines() {
    let e = FetchError::new("timeout".to_string());
    assert_eq!(e.tooltip_lines(), vec!["错误: timeout".to_string()]);
    let e = FetchError::with_msg("api ret=400".to_string(), Some("  ".to_string()));
    assert_eq!(e.tooltip_lines(), vec!["错误: api ret=400".to_string()]);
    let e = FetchError::with_msg("api ret=400".to_string(), Some("bad token".to_string()));
    assert_eq!(
        e.tooltip_lines(),
        vec!["错误: api ret=400".to_string(), "msg: bad token".to_string()]
    );
}

#[test]
fn price_parsing_reads_plain_decimals() {
    assert_eq!(parse_price("1950.00"), Some(195000));
    assert_eq!(parse_price("1950"), Some(195000));
    assert_eq!(parse_price("1950."), Some(195000));
    assert_eq!(parse_price(".5"), Some(50));
    assert_eq!(parse_price("-1.5"), Some(-150));
    assert_eq!(parse_price("+2"), Some(200));
    assert_eq!(parse_price("1950.004"), Some(195000));
    assert_eq!(parse_price("1950.005"), Some(195001));
    assert_eq!(parse_price("0.999"), Some(100));
    assert_eq!(parse_price(""), None);
    assert_eq!(parse_price("."), None);
    assert_eq!(parse_price("-"), None);
    assert_eq!(parse_price("1e5"), None);
    assert_eq!(parse_price("12a"), None);
    assert_eq!(parse_price("99999999999999999999999"), None);
}

#[test]
fn price_formatting_shows_two_decimals() {
    assert_eq!(format_price(195000), "1950.00");
    assert_eq!(format_price(5), "0.05");
    assert_eq!(format_price(0), "0.00");
    assert_eq!(format_price(-150), "-1.50");
    assert_eq!(format_price(-5), "-0.05");
}

#[test]
fn integer_text_helpers() {
    assert_eq!(u64_to_string(0), "0");
    assert_eq!(u64_to_string(10230), "10230");
    assert_eq!(i64_to_string(-42), "-42");
    assert_eq!(i64_to_string(7), "7");
    assert_eq!(i64_to_string(i64::MIN), format!("{}", i64::MIN));
    assert_eq!(parse_uint("123", u64::MAX), Some(123));
    assert_eq!(parse_uint("+123", u64::MAX), Some(123));
    assert_eq!(parse_uint("256", 255), None);
    assert_eq!(parse_uint("", u64::MAX), None);
    assert_eq!(parse_uint("12x", u64::MAX), None);
    assert_eq!(parse_uint("99999999999999999999999", u64::MAX), None);
}

#[test]
fn transport_error_lines_carry_tags_and_causes() {
    assert_eq!(
        format_transport_error("connection failed", &vec![], &vec![]),
        "connection failed"
    );
    assert_eq!(
        format_transport_error(
            "x",
            &vec!["timeout".to_string(), "connect".to_string()],
            &vec!["dns".to_string(), "io".to_string()],
        ),
        "x (timeout, connect); causes: dns | io"
    );
    assert_eq!(
        format_transport_error("y", &vec!["body".to_string()], &vec![]),
        "y (body)"
    );
}

#[test]
fn transport_tags_keep_their_fixed_order() {
    assert_eq!(transport_tags(false, false, false, false, false, None), Vec::<String>::new());
    assert_eq!(
        transport_tags(true, true, false, true, false, Some("502 Bad Gateway")),
        vec![
            "timeout".to_string(),
            "connect".to_string(),
            "body".to_string(),
            "status=502 Bad Gateway".to_string(),
        ]
    );
    assert_eq!(transport_tags(false, false, true, false, false, None), vec!["request".to_string()]);
}

#[test]
fn trimming_matches_the_usual_whitespace() {
    assert_eq!(trim_str("  a b\t"), "a b");
    assert_eq!(trim_str("\r\n x \r\n"), "x");
    assert_eq!(trim_str("   "), "");
    assert_eq!(trim_str(""), "");
}
