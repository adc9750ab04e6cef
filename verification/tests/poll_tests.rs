use xau_tray::backoff::BackoffController;
use xau_tray::display::IconKind;
use xau_tray::error::FetchError;
use xau_tray::failover::FailoverFetcher;
use xau_tray::market::{PriceMap, QuoteMap, TrendMap};
use xau_tray::poll::{apply_refresh, begin_cycle, maybe_rotate, next_wake_delay, CycleStep, PollState};
use xau_tray::quote::parse_batch_response;
use xau_tray::settings::{normalize_settings, ApiType, DisplayMode, QuoteSettings, SymbolItem};

fn sym(code: &str, label: &str) -> SymbolItem {
    SymbolItem { code: code.to_string(), label: label.to_string() }
}

fn ready_settings(token: &str, symbols: Vec<SymbolItem>) -> QuoteSettings {
    normalize_settings(QuoteSettings {
        token: token.to_string(),
        symbols,
        display_mode: DisplayMode::Rotate,
        api_type: ApiType::Commodity,
        refresh_seconds: 10,
        rotate_seconds: 10,
        fixed_symbol: None,
        use_system_proxy: false,
    })
}

fn fresh_state() -> PollState {
    PollState {
        rotate_index: 0,
        token_index: 0,
        last_title: String::new(),
        last_error: None,
        backoff: BackoffController::new(),
        prices: PriceMap::new(),
        trends: TrendMap::new(),
        next_refresh_at: 0,
        next_rotate_at: 0,
    }
}

const GOLD_RESPONSE: &str = "{\"ret\":200,\"data\":{\"kline_list\":[{\"code\":\"XAUUSD\",\"kline_data\":[{\"timestamp\":\"1700000000\",\"open_price\":\"1945.00\",\"close_price\":\"1950.00\"}]}]}}";

#[test]
fn first_fetch_shows_gold_title_and_up_icon() {
    let settings = ready_settings("tok1", vec![sym("XAUUSD", "Gold")]);
    let mut state = fresh_state();
    let step = begin_cycle(&settings, &mut state, 0);
    let tokens = match step {
        CycleStep::RefreshFetch(tokens) => tokens,
        _ => panic!("a refresh with credentials is due"),
    };
    assert_eq!(tokens, vec!["tok1".to_string()]);
    let mut fo: FailoverFetcher<QuoteMap> =
        FailoverFetcher::new(tokens.len(), state.token_index).unwrap();
    assert_eq!(fo.next_attempt(), Some(0));
    fo.record_success(parse_batch_response(GOLD_RESPONSE).unwrap());
    let update = apply_refresh(&settings, &mut state, fo.finish(), 0);
    assert_eq!(update.title, Some("Gold 1950.00".to_string()));
    assert!(update.icon == Some(IconKind::Up));
    let tooltip = update.tooltip.unwrap();
    assert!(tooltip.contains("▲ Gold 1950.00"));
    assert!(state.last_error.is_none());
    assert_eq!(state.backoff.seconds, 0);
    assert_eq!(state.token_index, 0);
    assert_eq!(state.next_refresh_at, 10_000);
}

#[test]
fn empty_credentials_show_the_fixed_notice_without_fetching() {
    let settings = ready_settings("", vec![sym("XAUUSD", "Gold")]);
    let mut state = fresh_state();
    let step = begin_cycle(&settings, &mut state, 0);
    match step {
        CycleStep::RefreshNoCredentials(u) => {
            assert_eq!(u.title, Some("设置 Token".to_string()));
            assert_eq!(u.tooltip, Some("请先在设置中填写 Alltick Token".to_string()));
            assert!(u.icon == Some(IconKind::Pending));
        },
        _ => panic!("expected the no-credential notice"),
    }
    assert_eq!(state.backoff.seconds, 0);
    assert_eq!(state.next_refresh_at, 10_000);
}

#[test]
fn empty_symbols_show_the_fixed_notice() {
    let mut settings = ready_settings("tok1", vec![sym("XAUUSD", "Gold")]);
    settings.symbols = Vec::new();
    let mut state = fresh_state();
    match begin_cycle(&settings, &mut state, 0) {
        CycleStep::NoSymbols(u) => {
            assert_eq!(u.title, Some("No symbols".to_string()));
            assert_eq!(u.tooltip, Some("请在设置中添加品类".to_string()));
            assert!(u.icon == Some(IconKind::Pending));
        },
        _ => panic!("expected the no-symbol notice"),
    }
}

#[test]
fn total_failure_marks_title_and_escalates_backoff() {
    let settings = ready_settings("tok1", vec![sym("XAUUSD", "Gold")]);
    let mut state = fresh_state();
    let update = apply_refresh(
        &settings,
        &mut state,
        Err(FetchError::new("boom".to_string())),
        0,
    );
    assert_eq!(update.title, Some("🔴".to_string()));
    assert!(update.icon == Some(IconKind::Pending));
    assert_eq!(update.tooltip, Some("错误: boom\nGold --".to_string()));
    assert_eq!(state.backoff.seconds, 30);
    assert_eq!(state.token_index, 0);
    assert_eq!(state.next_refresh_at, 30_000);

    let update = apply_refresh(
        &settings,
        &mut state,
        Err(FetchError::new("again".to_string())),
        30_000,
    );
    assert_eq!(state.backoff.seconds, 60);
    assert_eq!(state.next_refresh_at, 90_000);
    assert_eq!(update.title, Some("🔴".to_string()));
}

#[test]
fn stale_data_gets_one_star_and_stays_visible() {
    let settings = ready_settings("tok1", vec![sym("XAUUSD", "Gold")]);
    let mut state = fresh_state();
    apply_refresh(
        &settings,
        &mut state,
        Ok((parse_batch_response(GOLD_RESPONSE).unwrap(), 0)),
        0,
    );
    assert_eq!(state.last_title, "Gold 1950.00");

    // A successful cycle that resolved no symbol: stale, marked once.
    let empty: QuoteMap = parse_batch_response(
        "{\"ret\":200,\"data\":{\"kline_list\":[]}}",
    )
    .unwrap();
    let update = apply_refresh(&settings, &mut state, Ok((empty, 0)), 10_000);
    assert_eq!(update.title, Some("Gold 1950.00*".to_string()));
    assert!(update.icon == Some(IconKind::Pending));
    // The cached price stays visible in the tooltip, trend unknown.
    assert_eq!(update.tooltip, Some("— Gold 1950.00".to_string()));

    let empty: QuoteMap = parse_batch_response(
        "{\"ret\":200,\"data\":{\"kline_list\":[]}}",
    )
    .unwrap();
    let update = apply_refresh(&settings, &mut state, Ok((empty, 0)), 20_000);
    // The star is added once; no new title is emitted.
    assert_eq!(update.title, None);
    assert_eq!(state.last_title, "Gold 1950.00*");
}

#[test]
fn rotation_never_leaves_the_list_even_after_a_shrink() {
    let settings = ready_settings("tok1", vec![sym("A", "a"), sym("B", "b"), sym("C", "c")]);
    let mut state = fresh_state();
    state.next_refresh_at = u64::MAX;
    let mut now = 0u64;
    for _ in 0..5 {
        let step = begin_cycle(&settings, &mut state, now);
        assert!(matches!(step, CycleStep::Idle));
        maybe_rotate(&settings, &mut state, now).expect("rotation fires");
        assert!(state.rotate_index < 3);
        now = state.next_rotate_at;
    }
    assert_eq!(state.rotate_index, 2 % 3);

    // The list shrinks below the remembered index; the next cycle clamps
    // it before anything uses it.
    state.rotate_index = 2;
    let shrunk = ready_settings("tok1", vec![sym("A", "a")]);
    let step = begin_cycle(&shrunk, &mut state, now);
    assert!(matches!(step, CycleStep::Idle));
    assert!(state.rotate_index < 1);
    maybe_rotate(&shrunk, &mut state, now).expect("rotation fires");
    assert!(state.rotate_index < 1);
}

#[test]
fn rotation_shows_the_next_symbol_from_cache_only() {
    let settings = ready_settings("tok1", vec![sym("XAUUSD", "Gold"), sym("Silver", "Silver")]);
    let mut state = fresh_state();
    apply_refresh(
        &settings,
        &mut state,
        Ok((parse_batch_response(GOLD_RESPONSE).unwrap(), 0)),
        0,
    );
    state.next_rotate_at = 0;
    let update = maybe_rotate(&settings, &mut state, 5_000).expect("rotation fires");
    // Index moved from 0 to 1: Silver has no cached price.
    assert_eq!(state.rotate_index, 1);
    assert_eq!(update.title, Some("Silver --".to_string()));
    assert!(update.tooltip.is_none());
    assert!(update.icon == Some(IconKind::Pending));
    assert_eq!(state.next_rotate_at, 15_000);

    // In fixed mode the rotation never fires.
    let mut fixed = settings.clone();
    fixed.display_mode = DisplayMode::Fixed;
    assert!(maybe_rotate(&fixed, &mut state, 100_000).is_none());
}

#[test]
fn error_marked_titles_follow_rotation() {
    let settings = ready_settings("tok1", vec![sym("XAUUSD", "Gold"), sym("Silver", "Silver")]);
    let mut state = fresh_state();
    apply_refresh(
        &settings,
        &mut state,
        Ok((parse_batch_response(GOLD_RESPONSE).unwrap(), 0)),
        0,
    );
    apply_refresh(
        &settings,
        &mut state,
        Err(FetchError::new("boom".to_string())),
        10_000,
    );
    state.next_rotate_at = 0;
    let update = maybe_rotate(&settings, &mut state, 11_000).expect("rotation fires");
    assert_eq!(update.title, Some("🔴 Silver --".to_string()));
}

#[test]
fn next_wake_picks_the_earlier_deadline() {
    let settings = ready_settings("tok1", vec![sym("XAUUSD", "Gold")]);
    let mut state = fresh_state();
    state.next_refresh_at = 5_000;
    state.next_rotate_at = 3_000;
    assert_eq!(next_wake_delay(&settings, &state, 1_000), 2_000);
    let mut fixed = settings.clone();
    fixed.display_mode = DisplayMode::Fixed;
    assert_eq!(next_wake_delay(&fixed, &state, 1_000), 4_000);
    // Past deadlines wait the one-second floor instead of spinning.
    assert_eq!(next_wake_delay(&settings, &state, 9_000), 1_000);
}
