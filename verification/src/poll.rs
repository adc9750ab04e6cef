//! The poll cycle's state machine. Each cycle the caller takes a
//! normalized settings snapshot, asks `begin_cycle` what to do, runs the
//! failover fetch when one is due, hands the outcome to `apply_refresh`,
//! lets `maybe_rotate` advance the rotation, and sleeps for
//! `next_wake_delay`. Everything that decides is here and verified; the
//! caller only moves bytes and waits.
use crate::backoff::{backoff_after, effective_delay_spec, BackoffController};
use crate::display::{
    icon_spec, pick_spec, prices_wf, title_spec, tooltip_spec, trend_spec, IconKind,
};
use crate::error::{error_title_spec, FetchError, FetchErrorView};
use crate::market::{PriceMap, Quote, QuoteMap, Trend, TrendMap};
use crate::quote::quotes_wf;
use crate::settings::{contains_code, tokens_of, DisplayMode, QuoteSettings, SymbolItemView};
use vstd::prelude::*;

verus! {

/// What the poll loop remembers between cycles.
pub struct PollState {
    pub rotate_index: usize,
    /// Index of the last successful credential; attempts start here.
    pub token_index: usize,
    /// The last title computed from market data, without error marks.
    pub last_title: String,
    pub last_error: Option<FetchError>,
    pub backoff: BackoffController,
    pub prices: PriceMap,
    pub trends: TrendMap,
    /// Instants in milliseconds on the caller's clock.
    pub next_refresh_at: u64,
    pub next_rotate_at: u64,
}

/// What the status surface should change this cycle; `None` fields stay
/// as they are.
pub struct DisplayUpdate {
    pub title: Option<String>,
    pub tooltip: Option<String>,
    pub icon: Option<IconKind>,
}

/// What a cycle does next.
pub enum CycleStep {
    /// No symbols are configured: show the fixed notice and retry shortly.
    NoSymbols(DisplayUpdate),
    /// Nothing is due yet.
    Idle,
    /// A refresh is due but no credential is set: show the fixed notice.
    RefreshNoCredentials(DisplayUpdate),
    /// A refresh is due: run the failover fetch over these credentials.
    RefreshFetch(Vec<String>),
}

/// The state invariant the cycle functions preserve.
pub open spec fn state_wf(st: PollState) -> bool {
    &&& st.prices.wf()
    &&& st.trends.wf()
    &&& prices_wf(st.prices.view())
    &&& (st.backoff.seconds == 0 || (10 <= st.backoff.seconds <= 300))
}

/// What normalization guarantees and the cycle arithmetic relies on.
pub open spec fn settings_ready(s: crate::settings::SettingsView) -> bool {
    &&& s.refresh_seconds == 10
    &&& 3 <= s.rotate_seconds <= 3600
}

/// Every normalized settings value is ready for the poll loop.
pub proof fn lemma_normalized_ready(v: crate::settings::SettingsView)
    ensures
        settings_ready(crate::settings::normalize_spec(v)),
{
}

/// Seconds to milliseconds, saturating.
pub open spec fn mul1000(s: u64) -> u64 {
    if s * 1000 > u64::MAX {
        u64::MAX
    } else {
        (s * 1000) as u64
    }
}

pub open spec fn sat_add64(a: u64, b: u64) -> u64 {
    if a + b > u64::MAX {
        u64::MAX
    } else {
        (a + b) as u64
    }
}

fn sat_add(a: u64, b: u64) -> (r: u64)
    ensures
        r == sat_add64(a, b),
{
    match a.checked_add(b) {
        Some(v) => v,
        None => u64::MAX,
    }
}

pub open spec fn no_symbols_update_spec(u: DisplayUpdate) -> bool {
    &&& u.title matches Some(t) && t@ == "No symbols"@
    &&& u.tooltip matches Some(t) && t@ == "请在设置中添加品类"@
    &&& u.icon == Some(IconKind::Pending)
}

pub open spec fn no_credentials_update_spec(u: DisplayUpdate) -> bool {
    &&& u.title matches Some(t) && t@ == "设置 Token"@
    &&& u.tooltip matches Some(t) && t@ == "请先在设置中填写 Alltick Token"@
    &&& u.icon == Some(IconKind::Pending)
}

fn owned(s: &str) -> (r: String)
    ensures
        r@ == s@,
{
    let mut out = String::new();
    out.append(s);
    assert(out@ =~= s@);
    out
}

/// Plans one cycle: handles the special states, clamps the indexes, and
/// says whether a refresh is due. No other field of the state changes.
pub fn begin_cycle(settings: &QuoteSettings, state: &mut PollState, now: u64) -> (r: CycleStep)
    requires
        settings@.refresh_seconds <= 3600,
        old(state).backoff.seconds <= 300,
    ensures
        final(state).last_title == old(state).last_title,
        final(state).last_error == old(state).last_error,
        final(state).backoff == old(state).backoff,
        final(state).prices == old(state).prices,
        final(state).trends == old(state).trends,
        final(state).next_rotate_at == old(state).next_rotate_at,
        (r matches CycleStep::NoSymbols(u)) <==> settings@.symbols.len() == 0,
        r matches CycleStep::NoSymbols(u) ==> no_symbols_update_spec(u) && *final(state)
            == *old(state),
        settings@.symbols.len() > 0 ==> final(state).rotate_index == (if old(state).rotate_index
            < settings@.symbols.len() {
            old(state).rotate_index as int
        } else {
            0
        }) && final(state).rotate_index < settings@.symbols.len(),
        (r matches CycleStep::Idle) ==> {
            &&& settings@.symbols.len() > 0
            &&& now < old(state).next_refresh_at
            &&& final(state).token_index == old(state).token_index
            &&& final(state).next_refresh_at == old(state).next_refresh_at
        },
        r matches CycleStep::RefreshNoCredentials(u) ==> settings@.symbols.len() > 0 && now >= old(
            state,
        ).next_refresh_at && tokens_of(settings@.token).len() == 0 && no_credentials_update_spec(u)
            && final(state).token_index == old(state).token_index && final(state).next_refresh_at
            == sat_add64(
            now,
            mul1000(effective_delay_spec(old(state).backoff.seconds, settings@.refresh_seconds)),
        ),
        r matches CycleStep::RefreshFetch(tokens) ==> settings@.symbols.len() > 0 && now >= old(
            state,
        ).next_refresh_at && tokens.deep_view() == tokens_of(settings@.token)
            && tokens.deep_view().len() > 0 && final(state).token_index < tokens.deep_view().len()
            && (final(state).token_index == old(state).token_index || final(state).token_index == 0)
            && final(state).next_refresh_at == old(state).next_refresh_at,
        settings@.symbols.len() > 0 && now >= old(state).next_refresh_at ==> !(
        r matches CycleStep::Idle),
        settings_ready(settings@) && state_wf(*old(state)) ==> state_wf(*final(state)),
{
    if settings.symbols.len() == 0 {
        return CycleStep::NoSymbols(
            DisplayUpdate {
                title: Some(owned("No symbols")),
                tooltip: Some(owned("请在设置中添加品类")),
                icon: Some(IconKind::Pending),
            },
        );
    }
    if state.rotate_index >= settings.symbols.len() {
        state.rotate_index = 0;
    }
    if now >= state.next_refresh_at {
        let tokens = crate::settings::parse_tokens(settings.token.as_str());
        if tokens.len() == 0 {
            let eff = state.backoff.effective_delay(settings.refresh_seconds);
            state.next_refresh_at = sat_add(now, eff * 1000);
            return CycleStep::RefreshNoCredentials(
                DisplayUpdate {
                    title: Some(owned("设置 Token")),
                    tooltip: Some(owned("请先在设置中填写 Alltick Token")),
                    icon: Some(IconKind::Pending),
                },
            );
        }
        if state.token_index >= tokens.len() {
            state.token_index = 0;
        }
        return CycleStep::RefreshFetch(tokens);
    }
    CycleStep::Idle
}

/// The prices cached after a successful fetch: fresh closes where the
/// response had them, the previous close where it did not, nothing for
/// codes outside the current symbol list.
pub open spec fn new_prices_ok(
    symbols: Seq<SymbolItemView>,
    m: Map<Seq<char>, Quote>,
    old_prices: Map<Seq<char>, i64>,
) -> Map<Seq<char>, i64> {
    Map::new(
        |c: Seq<char>| contains_code(symbols, c) && (m.contains_key(c) || old_prices.contains_key(c)),
        |c: Seq<char>|
            if m.contains_key(c) {
                m[c].close
            } else {
                old_prices[c]
            },
    )
}

/// The trends recomputed by a successful fetch: classified where the
/// response had the code, flat where it did not.
pub open spec fn new_trends_ok(symbols: Seq<SymbolItemView>, m: Map<Seq<char>, Quote>) -> Map<
    Seq<char>,
    Trend,
> {
    Map::new(
        |c: Seq<char>| contains_code(symbols, c),
        |c: Seq<char>|
            if m.contains_key(c) {
                trend_spec(m[c].close as int, m[c].open as int)
            } else {
                Trend::Flat
            },
    )
}

/// The prices kept after a failed cycle: the old ones, pruned to the
/// current symbol list.
pub open spec fn new_prices_err(symbols: Seq<SymbolItemView>, old_prices: Map<Seq<char>, i64>) -> Map<
    Seq<char>,
    i64,
> {
    Map::new(
        |c: Seq<char>| contains_code(symbols, c) && old_prices.contains_key(c),
        |c: Seq<char>| old_prices[c],
    )
}

/// After a failed cycle every current symbol's trend is flat.
pub open spec fn new_trends_err(symbols: Seq<SymbolItemView>) -> Map<Seq<char>, Trend> {
    Map::new(|c: Seq<char>| contains_code(symbols, c), |c: Seq<char>| Trend::Flat)
}

/// The caches a refresh leaves behind are keyed only by codes of the
/// current symbol list, whichever way the cycle went.
pub proof fn lemma_cache_keys_within_symbols(
    symbols: Seq<SymbolItemView>,
    m: Map<Seq<char>, Quote>,
    old_prices: Map<Seq<char>, i64>,
)
    ensures
        forall|c: Seq<char>|
            new_prices_ok(symbols, m, old_prices).contains_key(c) ==> contains_code(symbols, c),
        forall|c: Seq<char>| new_trends_ok(symbols, m).contains_key(c) ==> contains_code(symbols, c),
        forall|c: Seq<char>|
            new_prices_err(symbols, old_prices).contains_key(c) ==> contains_code(symbols, c),
        forall|c: Seq<char>| new_trends_err(symbols).contains_key(c) ==> contains_code(symbols, c),
{
}

/// How many configured symbols the response carried a quote for.
pub open spec fn success_count(symbols: Seq<SymbolItemView>, m: Map<Seq<char>, Quote>) -> int
    decreases symbols.len(),
{
    if symbols.len() == 0 {
        0int
    } else {
        success_count(symbols.drop_last(), m) + (if m.contains_key(symbols.last().code) {
            1int
        } else {
            0int
        })
    }
}

/// A title is marked stale by one `*`, added once.
pub open spec fn stale_marked(t: Seq<char>) -> bool {
    t.len() > 0 && t.last() == '*'
}

/// The title after the stale annotation: unchanged when empty or already
/// marked, else with one `*` appended.
pub open spec fn stale_title(t: Seq<char>) -> Seq<char> {
    if t.len() == 0 || stale_marked(t) {
        t
    } else {
        t + seq!['*']
    }
}

/// What `apply_refresh` guarantees of the update and state after a
/// successful fetch.
pub open spec fn refresh_ok_post(
    s: crate::settings::SettingsView,
    pre: PollState,
    post: PollState,
    m: Map<Seq<char>, Quote>,
    idx: int,
    u: DisplayUpdate,
    now: u64,
) -> bool {
    &&& post.last_error is None
    &&& post.backoff.seconds == 0
    &&& post.token_index == idx
    &&& post.prices.view() == new_prices_ok(s.symbols, m, pre.prices.view())
    &&& post.trends.view() == new_trends_ok(s.symbols, m)
    &&& post.rotate_index == pre.rotate_index
    &&& post.next_rotate_at == pre.next_rotate_at
    &&& post.next_refresh_at == sat_add64(now, mul1000(s.refresh_seconds))
    &&& u.tooltip matches Some(t) && t@ == tooltip_spec(
        None,
        s.symbols,
        post.prices.view(),
        post.trends.view(),
    )
    &&& u.icon is Some
    &&& (success_count(s.symbols, m) == 0 ==> {
        &&& post.last_title@ == stale_title(pre.last_title@)
        &&& (match u.title {
            Some(t) => t@ == stale_title(pre.last_title@) && pre.last_title@ != stale_title(
                pre.last_title@,
            ),
            None => pre.last_title@ == stale_title(pre.last_title@),
        })
        &&& u.icon == Some(IconKind::Pending)
    })
    &&& (success_count(s.symbols, m) != 0 ==> {
        &&& pick_spec(s, pre.rotate_index as int) matches Some(sym)
        &&& post.last_title@ == title_spec(
            sym,
            if post.prices.view().contains_key(sym.code) {
                Some(post.prices.view()[sym.code])
            } else {
                None
            },
        )
        &&& u.title matches Some(t) && t@ == post.last_title@
        &&& u.icon == Some(
            icon_spec(
                if post.trends.view().contains_key(sym.code) {
                    Some(post.trends.view()[sym.code])
                } else {
                    None
                },
            ),
        )
    })
}

/// What `apply_refresh` guarantees after a cycle in which every
/// credential failed.
pub open spec fn refresh_err_post(
    s: crate::settings::SettingsView,
    pre: PollState,
    post: PollState,
    e: FetchErrorView,
    u: DisplayUpdate,
    now: u64,
) -> bool {
    &&& post.last_error matches Some(x) && x@ == e
    &&& post.backoff.seconds == backoff_after(false, s.refresh_seconds, pre.backoff.seconds)
    &&& post.token_index == 0
    &&& post.prices.view() == new_prices_err(s.symbols, pre.prices.view())
    &&& post.trends.view() == new_trends_err(s.symbols)
    &&& post.last_title == pre.last_title
    &&& post.rotate_index == pre.rotate_index
    &&& post.next_rotate_at == pre.next_rotate_at
    &&& post.next_refresh_at == sat_add64(
        now,
        mul1000(effective_delay_spec(post.backoff.seconds, s.refresh_seconds)),
    )
    &&& u.tooltip matches Some(t) && t@ == tooltip_spec(
        Some(e),
        s.symbols,
        post.prices.view(),
        post.trends.view(),
    )
    &&& u.title matches Some(t) && t@ == error_title_spec(pre.last_title@)
    &&& u.icon == Some(IconKind::Pending)
}

/// Applies one fetch cycle's outcome: refills the caches, steps the
/// backoff, remembers which credential succeeded, and renders the
/// update.
#[verifier::loop_isolation(false)]
pub fn apply_refresh(
    settings: &QuoteSettings,
    state: &mut PollState,
    outcome: Result<(QuoteMap, usize), FetchError>,
    now: u64,
) -> (u: DisplayUpdate)
    requires
        settings_ready(settings@),
        state_wf(*old(state)),
        settings@.symbols.len() > 0,
        old(state).rotate_index < settings@.symbols.len(),
        outcome matches Ok((m, idx)) ==> m.wf() && quotes_wf(m.view()),
    ensures
        state_wf(*final(state)),
        outcome matches Ok((m, idx)) ==> refresh_ok_post(
            settings@,
            *old(state),
            *final(state),
            m.view(),
            idx as int,
            u,
            now,
        ),
        outcome matches Err(e) ==> refresh_err_post(
            settings@,
            *old(state),
            *final(state),
            e@,
            u,
            now,
        ),
{
    let n = settings.symbols.len();
    let ghost syms = settings.symbols.deep_view();
    match outcome {
        Ok((map, idx)) => {
            state.last_error = None;
            state.backoff.on_result(true, settings.refresh_seconds);
            state.token_index = idx;
            let mut newp = PriceMap::new();
            let mut newt = TrendMap::new();
            let mut success: usize = 0;
            let mut i: usize = 0;
            while i < n
                invariant
                    0 <= i <= n,
                    newp.wf(),
                    newt.wf(),
                    success <= i,
                    success == success_count(syms.subrange(0, i as int), map.view()),
                    forall|c: Seq<char>|
                        #[trigger] newp.view().contains_key(c) <==> (exists|j: int|
                            0 <= j < i && syms[j].code == c && (map.view().contains_key(c)
                                || old(state).prices.view().contains_key(c))),
                    forall|c: Seq<char>|
                        newp.view().contains_key(c) ==> #[trigger] newp.view()[c] == (
                        if map.view().contains_key(c) {
                            map.view()[c].close
                        } else {
                            old(state).prices.view()[c]
                        }),
                    forall|c: Seq<char>|
                        #[trigger] newt.view().contains_key(c) <==> (exists|j: int|
                            0 <= j < i && syms[j].code == c),
                    forall|c: Seq<char>|
                        newt.view().contains_key(c) ==> #[trigger] newt.view()[c] == (
                        if map.view().contains_key(c) {
                            trend_spec(map.view()[c].close as int, map.view()[c].open as int)
                        } else {
                            Trend::Flat
                        }),
                    prices_wf(newp.view()),
                decreases n - i,
            {
                let sym = &settings.symbols[i];
                assert(sym@ == syms[i as int]);
                let ghost prefix = syms.subrange(0, i as int);
                let ghost cur = syms.subrange(0, i + 1);
                proof {
                    assert(cur.drop_last() =~= prefix);
                    assert(cur.last() == syms[i as int]);
                }
                match map.get(&sym.code) {
                    Some(q) => {
                        newp.insert(sym.code.clone(), q.close);
                        newt.insert(
                            sym.code.clone(),
                            crate::display::classify_trend(q.close, q.open),
                        );
                        success = success + 1;
                    },
                    None => {
                        newt.insert(sym.code.clone(), Trend::Flat);
                        match state.prices.get(&sym.code) {
                            Some(p) => {
                                newp.insert(sym.code.clone(), p);
                            },
                            None => {},
                        }
                    },
                }
                i = i + 1;
            }
            proof {
                assert(syms.subrange(0, n as int) =~= syms);
                assert(newp.view() =~= new_prices_ok(syms, map.view(), old(state).prices.view()));
                assert(newt.view() =~= new_trends_ok(syms, map.view()));
            }
            state.prices = newp;
            state.trends = newt;
            let tooltip = crate::display::build_tooltip(
                &settings.symbols,
                &state.prices,
                &state.trends,
                None,
            );
            let mut title: Option<String> = None;
            let mut icon: IconKind = IconKind::Pending;
            if success == 0 {
                let tl = state.last_title.as_str().unicode_len();
                if tl > 0 && state.last_title.as_str().get_char(tl - 1) != '*' {
                    proof {
                        reveal_strlit("*");
                    }
                    let mut marked = state.last_title.clone();
                    marked.append("*");
                    assert(marked@ =~= old(state).last_title@ + seq!['*']);
                    state.last_title = marked.clone();
                    title = Some(marked);
                }
            } else {
                let sym = match crate::display::pick_display_symbol(settings, state.rotate_index) {
                    Some(sym) => sym,
                    None => {
                        proof {
                            assert(false);
                        }
                        &settings.symbols[0]
                    },
                };
                let price = state.prices.get(&sym.code);
                let trend = state.trends.get(&sym.code);
                proof {
                    if price is Some {
                        assert(state.prices.view()[sym@.code] > i64::MIN);
                    }
                }
                state.last_title = crate::display::format_title(sym, price);
                title = Some(state.last_title.clone());
                icon = crate::display::icon_for_trend(trend);
            }
            let eff = state.backoff.effective_delay(settings.refresh_seconds);
            state.next_refresh_at = sat_add(now, eff * 1000);
            DisplayUpdate { title, tooltip: Some(tooltip), icon: Some(icon) }
        },
        Err(e) => {
            state.last_error = Some(e);
            state.backoff.on_result(false, settings.refresh_seconds);
            state.token_index = 0;
            let mut newp = PriceMap::new();
            let mut newt = TrendMap::new();
            let mut i: usize = 0;
            while i < n
                invariant
                    0 <= i <= n,
                    newp.wf(),
                    newt.wf(),
                    forall|c: Seq<char>|
                        #[trigger] newp.view().contains_key(c) <==> (exists|j: int|
                            0 <= j < i && syms[j].code == c && old(state).prices.view().contains_key(
                                c,
                            )),
                    forall|c: Seq<char>|
                        newp.view().contains_key(c) ==> #[trigger] newp.view()[c] == old(
                            state,
                        ).prices.view()[c],
                    forall|c: Seq<char>|
                        #[trigger] newt.view().contains_key(c) <==> (exists|j: int|
                            0 <= j < i && syms[j].code == c),
                    forall|c: Seq<char>|
                        newt.view().contains_key(c) ==> #[trigger] newt.view()[c] == Trend::Flat,
                    prices_wf(newp.view()),
                decreases n - i,
            {
                let sym = &settings.symbols[i];
                assert(sym@ == syms[i as int]);
                match state.prices.get(&sym.code) {
                    Some(p) => {
                        newp.insert(sym.code.clone(), p);
                    },
                    None => {},
                }
                newt.insert(sym.code.clone(), Trend::Flat);
                i = i + 1;
            }
            proof {
                assert(newp.view() =~= new_prices_err(syms, old(state).prices.view()));
                assert(newt.view() =~= new_trends_err(syms));
            }
            state.prices = newp;
            state.trends = newt;
            let tooltip = crate::display::build_tooltip(
                &settings.symbols,
                &state.prices,
                &state.trends,
                state.last_error.as_ref(),
            );
            let title = crate::error::error_title(state.last_title.as_str());
            let eff = state.backoff.effective_delay(settings.refresh_seconds);
            state.next_refresh_at = sat_add(now, eff * 1000);
            DisplayUpdate {
                title: Some(title),
                tooltip: Some(tooltip),
                icon: Some(IconKind::Pending),
            }
        },
    }
}

/// What `maybe_rotate` guarantees when the rotation fires.
pub open spec fn rotate_post(
    s: crate::settings::SettingsView,
    pre: PollState,
    post: PollState,
    u: DisplayUpdate,
    now: u64,
) -> bool {
    &&& post.rotate_index == crate::display::advance_spec(
        pre.rotate_index as int,
        s.symbols.len() as int,
    )
    &&& post.rotate_index < s.symbols.len()
    &&& post.next_rotate_at == sat_add64(now, mul1000(s.rotate_seconds))
    &&& pick_spec(s, post.rotate_index as int) matches Some(sym) && {
        &&& post.last_title@ == title_spec(
            sym,
            if post.prices.view().contains_key(sym.code) {
                Some(post.prices.view()[sym.code])
            } else {
                None
            },
        )
        &&& u.title matches Some(t) && t@ == (if post.last_error is Some {
            error_title_spec(post.last_title@)
        } else {
            post.last_title@
        })
        &&& u.icon == Some(
            icon_spec(
                if post.trends.view().contains_key(sym.code) {
                    Some(post.trends.view()[sym.code])
                } else {
                    None
                },
            ),
        )
        &&& u.tooltip is None
    }
    &&& post.prices == pre.prices
    &&& post.trends == pre.trends
    &&& post.last_error == pre.last_error
    &&& post.backoff == pre.backoff
    &&& post.token_index == pre.token_index
    &&& post.next_refresh_at == pre.next_refresh_at
}

/// Advances the rotation when its deadline has passed; shows the next
/// symbol from cached state only.
pub fn maybe_rotate(settings: &QuoteSettings, state: &mut PollState, now: u64) -> (r: Option<
    DisplayUpdate,
>)
    requires
        settings_ready(settings@),
        state_wf(*old(state)),
        settings@.symbols.len() > 0,
        old(state).rotate_index < settings@.symbols.len(),
    ensures
        state_wf(*final(state)),
        final(state).rotate_index < settings@.symbols.len(),
        settings@.display_mode == DisplayMode::Rotate && now >= old(state).next_rotate_at ==> (
        r matches Some(u) && rotate_post(settings@, *old(state), *final(state), u, now)),
        !(settings@.display_mode == DisplayMode::Rotate && now >= old(state).next_rotate_at) ==> r
            is None && *final(state) == *old(state),
{
    let fires = match settings.display_mode {
        DisplayMode::Rotate => now >= state.next_rotate_at,
        DisplayMode::Fixed => false,
    };
    if !fires {
        return None;
    }
    state.next_rotate_at = sat_add(now, settings.rotate_seconds * 1000);
    state.rotate_index = crate::display::advance_rotate(state.rotate_index, settings.symbols.len());
    let sym = match crate::display::pick_display_symbol(settings, state.rotate_index) {
        Some(sym) => sym,
        None => {
            proof {
                assert(false);
            }
            &settings.symbols[0]
        },
    };
    let price = state.prices.get(&sym.code);
    let trend = state.trends.get(&sym.code);
    proof {
        if price is Some {
            assert(state.prices.view()[sym@.code] > i64::MIN);
        }
    }
    state.last_title = crate::display::format_title(sym, price);
    let title = if state.last_error.is_some() {
        crate::error::error_title(state.last_title.as_str())
    } else {
        state.last_title.clone()
    };
    let icon = crate::display::icon_for_trend(trend);
    Some(DisplayUpdate { title: Some(title), tooltip: None, icon: Some(icon) })
}

/// The next wake instant: the refresh deadline, or the rotation deadline
/// when rotating and it comes first.
pub open spec fn next_tick_spec(s: crate::settings::SettingsView, st: PollState) -> u64 {
    if s.display_mode == DisplayMode::Rotate && st.next_rotate_at < st.next_refresh_at {
        st.next_rotate_at
    } else {
        st.next_refresh_at
    }
}

/// How long to sleep until the next deadline, at least one second so a
/// past deadline cannot spin the loop.
pub fn next_wake_delay(settings: &QuoteSettings, state: &PollState, now: u64) -> (r: u64)
    ensures
        r == (if next_tick_spec(settings@, *state) <= now {
            1000u64
        } else {
            (next_tick_spec(settings@, *state) - now) as u64
        }),
{
    let mut next_tick = state.next_refresh_at;
    let rotating = match settings.display_mode {
        DisplayMode::Rotate => true,
        DisplayMode::Fixed => false,
    };
    if rotating && state.next_rotate_at < next_tick {
        next_tick = state.next_rotate_at;
    }
    if next_tick <= now {
        1000
    } else {
        next_tick - now
    }
}

} // verus!

