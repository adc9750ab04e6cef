use xau_tray::settings::{
    default_stock_symbols, default_symbols, legacy_token_fallback, normalize_settings,
    parse_tokens, ApiType, DisplayMode, QuoteSettings, SymbolItem,
};

fn sym(code: &str, label: &str) -> SymbolItem {
    SymbolItem { code: code.to_string(), label: label.to_string() }
}

fn base_settings() -> QuoteSettings {
    QuoteSettings {
        token: String::new(),
        symbols: vec![sym("XAUUSD", "Gold")],
        display_mode: DisplayMode::Rotate,
        api_type: ApiType::Commodity,
        refresh_seconds: 10,
        rotate_seconds: 10,
        fixed_symbol: None,
        use_system_proxy: false,
    }
}

#[test]
fn default_settings_use_the_commodity_category() {
    let s = QuoteSettings::default();
    assert_eq!(s.token, "");
    assert_eq!(s.refresh_seconds, 10);
    assert_eq!(s.rotate_seconds, 10);
    assert!(s.display_mode == DisplayMode::Rotate);
    assert!(s.api_type == ApiType::Commodity);
    assert!(s.fixed_symbol.is_none());
    assert!(!s.use_system_proxy);
    let d = default_symbols();
    assert_eq!(s.symbols.len(), d.len());
    for (a, b) in s.symbols.iter().zip(d.iter()) {
        assert_eq!(a.code, b.code);
        assert_eq!(a.label, b.label);
    }
}

#[test]
fn parse_tokens_splits_trims_and_drops_empties() {
    let tokens = parse_tokens(" a \n\n b\r\n\tc ");
    assert_eq!(tokens, vec!["a".to_string(), "b".to_string(), "c".to_string()]);
    assert_eq!(parse_tokens(""), Vec::<String>::new());
    assert_eq!(parse_tokens(" \n \n"), Vec::<String>::new());
    assert_eq!(parse_tokens("only"), vec!["only".to_string()]);
}

#[test]
fn normalize_joins_tokens_canonically() {
    let mut s = base_settings();
    s.token = "  t1 \n\n t2\r\n".to_string();
    let n = normalize_settings(s);
    assert_eq!(n.token, "t1\nt2");
}

#[test]
fn normalize_dedups_codes_first_occurrence_wins() {
    let mut s = base_settings();
    s.symbols = vec![
        sym(" XAUUSD ", "Gold"),
        sym("Silver", ""),
        sym("XAUUSD", "Other"),
        sym("  ", "Blank"),
        sym("BTCUSDT", " Coin "),
    ];
    let n = normalize_settings(s);
    let codes: Vec<&str> = n.symbols.iter().map(|x| x.code.as_str()).collect();
    assert_eq!(codes, vec!["XAUUSD", "Silver", "BTCUSDT"]);
    // A blank label falls back to the code; labels are trimmed.
    assert_eq!(n.symbols[0].label, "Gold");
    assert_eq!(n.symbols[1].label, "Silver");
    assert_eq!(n.symbols[2].label, "Coin");
}

#[test]
fn normalize_clamps_rotate_seconds() {
    let mut s = base_settings();
    s.rotate_seconds = 0;
    assert_eq!(normalize_settings(s).rotate_seconds, 3);
    let mut s = base_settings();
    s.rotate_seconds = 1;
    assert_eq!(normalize_settings(s).rotate_seconds, 3);
    let mut s = base_settings();
    s.rotate_seconds = 1_000_000;
    assert_eq!(normalize_settings(s).rotate_seconds, 3600);
    let mut s = base_settings();
    s.rotate_seconds = u64::MAX;
    assert_eq!(normalize_settings(s).rotate_seconds, 3600);
    let mut s = base_settings();
    s.rotate_seconds = 60;
    assert_eq!(normalize_settings(s).rotate_seconds, 60);
}

#[test]
fn normalize_forces_default_refresh() {
    let mut s = base_settings();
    s.refresh_seconds = 999;
    assert_eq!(normalize_settings(s).refresh_seconds, 10);
}

#[test]
fn normalize_refills_empty_symbols_by_category() {
    let mut s = base_settings();
    s.symbols = vec![sym("  ", "")];
    s.api_type = ApiType::Commodity;
    let n = normalize_settings(s);
    let d = default_symbols();
    assert_eq!(n.symbols.len(), d.len());
    for (a, b) in n.symbols.iter().zip(d.iter()) {
        assert_eq!(a.code, b.code);
        assert_eq!(a.label, b.label);
    }

    let mut s = base_settings();
    s.symbols = Vec::new();
    s.api_type = ApiType::Stock;
    let n = normalize_settings(s);
    let d = default_stock_symbols();
    assert_eq!(n.symbols.len(), d.len());
    for (a, b) in n.symbols.iter().zip(d.iter()) {
        assert_eq!(a.code, b.code);
        assert_eq!(a.label, b.label);
    }
}

#[test]
fn normalize_fixed_symbol_must_exist() {
    let mut s = base_settings();
    s.symbols = vec![sym("XAUUSD", "Gold"), sym("Silver", "Silver")];
    s.display_mode = DisplayMode::Fixed;
    s.fixed_symbol = Some(" Silver ".to_string());
    let n = normalize_settings(s);
    assert_eq!(n.fixed_symbol, Some("Silver".to_string()));

    let mut s = base_settings();
    s.symbols = vec![sym("XAUUSD", "Gold"), sym("Silver", "Silver")];
    s.display_mode = DisplayMode::Fixed;
    s.fixed_symbol = Some("GONE".to_string());
    let n = normalize_settings(s);
    assert_eq!(n.fixed_symbol, Some("XAUUSD".to_string()));

    let mut s = base_settings();
    s.display_mode = DisplayMode::Fixed;
    s.fixed_symbol = None;
    let n = normalize_settings(s);
    assert_eq!(n.fixed_symbol, Some("XAUUSD".to_string()));
}

#[test]
fn legacy_token_wins_only_over_a_blank_one() {
    assert_eq!(legacy_token_fallback("  ", Some(" old-token \n")), "old-token");
    assert_eq!(legacy_token_fallback("", None), "");
    assert_eq!(legacy_token_fallback("kept", Some("old")), "kept");
}

#[test]
fn normalize_is_idempotent_on_concrete_values() {
    let mut s = base_settings();
    s.token = " t1 \nt2\n\nt1 ".to_string();
    s.symbols = vec![sym(" A ", ""), sym("A", "dup"), sym("B", " b "), sym("", "x")];
    s.rotate_seconds = 0;
    s.display_mode = DisplayMode::Fixed;
    s.fixed_symbol = Some(" B".to_string());
    let once = normalize_settings(s);
    let twice = normalize_settings(once.clone());
    assert_eq!(once.token, twice.token);
    assert_eq!(once.symbols.len(), twice.symbols.len());
    for (a, b) in once.symbols.iter().zip(twice.symbols.iter()) {
        assert_eq!(a.code, b.code);
        assert_eq!(a.label, b.label);
    }
    assert_eq!(once.rotate_seconds, twice.rotate_seconds);
    assert_eq!(once.refresh_seconds, twice.refresh_seconds);
    assert_eq!(once.fixed_symbol, twice.fixed_symbol);
}
