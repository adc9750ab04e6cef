//! Choosing what the status surface shows: the trend of a symbol, which
//! symbol is current under rotation or fixed mode, and the title, tooltip
//! and icon texts.
use crate::error::{tooltip_lines_spec, FetchError, FetchErrorView};
use crate::market::{PriceMap, Trend, TrendMap};
use crate::price::price_text;
use crate::settings::{contains_code, QuoteSettings, SettingsView, SymbolItem, SymbolItemView};
use crate::text::join_char;
use vstd::prelude::*;

verus! {

/// Which tray icon to show.
#[derive(Clone, Copy, PartialEq, Eq, Structural)]
pub enum IconKind {
    Up,
    Down,
    Pending,
}

pub open spec fn trend_spec(close: int, open: int) -> Trend {
    if close > open {
        Trend::Up
    } else if close < open {
        Trend::Down
    } else {
        Trend::Flat
    }
}

/// Classifies a candle: up when it closed above its open, down when
/// below, flat otherwise.
pub fn classify_trend(close: i64, open: i64) -> (r: Trend)
    ensures
        r == trend_spec(close as int, open as int),
{
    if close > open {
        Trend::Up
    } else if close < open {
        Trend::Down
    } else {
        Trend::Flat
    }
}

pub open spec fn glyph_spec(t: Trend) -> Seq<char> {
    match t {
        Trend::Up => "▲"@,
        Trend::Down => "▼"@,
        Trend::Flat => "—"@,
    }
}

/// The tooltip glyph of a trend.
pub fn trend_glyph(t: Trend) -> (r: &'static str)
    ensures
        r@ == glyph_spec(t),
{
    match t {
        Trend::Up => "▲",
        Trend::Down => "▼",
        Trend::Flat => "—",
    }
}

pub open spec fn icon_spec(trend: Option<Trend>) -> IconKind {
    match trend {
        Some(Trend::Up) => IconKind::Up,
        Some(Trend::Down) => IconKind::Down,
        _ => IconKind::Pending,
    }
}

/// The icon for the selected symbol's trend; unknown or flat trends show
/// the pending icon.
pub fn icon_for_trend(trend: Option<Trend>) -> (r: IconKind)
    ensures
        r == icon_spec(trend),
{
    match trend {
        Some(Trend::Up) => IconKind::Up,
        Some(Trend::Down) => IconKind::Down,
        _ => IconKind::Pending,
    }
}

/// The index of the first symbol carrying exactly this code.
pub open spec fn find_code(syms: Seq<SymbolItemView>, code: Seq<char>) -> int
    decreases syms.len(),
{
    if syms.len() == 0 {
        0
    } else if syms[0].code == code {
        0
    } else {
        1 + find_code(syms.drop_first(), code)
    }
}

pub proof fn lemma_find_code(syms: Seq<SymbolItemView>, code: Seq<char>)
    requires
        contains_code(syms, code),
    ensures
        0 <= find_code(syms, code) < syms.len(),
        syms[find_code(syms, code)].code == code,
        forall|k: int| 0 <= k < find_code(syms, code) ==> syms[k].code != code,
    decreases syms.len(),
{
    assert(syms.len() > 0);
    if syms[0].code != code {
        let d = syms.drop_first();
        assert(forall|k: int| 0 <= k < d.len() ==> d[k] == syms[k + 1]);
        assert(contains_code(d, code)) by {
            let j = choose|j: int| 0 <= j < syms.len() && syms[j].code == code;
            assert(d[j - 1].code == code);
        }
        lemma_find_code(d, code);
        assert forall|k: int| 0 <= k < find_code(syms, code) implies syms[k].code != code by {
            if k > 0 {
                assert(d[k - 1] == syms[k]);
            }
        }
    }
}

/// The symbol the display resolves to: none when the list is empty; under
/// rotation the symbol at the rotation index (none when that index is out
/// of range); in fixed mode the first symbol carrying the configured
/// code, or the first symbol of the list when no symbol carries it.
pub open spec fn pick_spec(s: SettingsView, rotate_index: int) -> Option<SymbolItemView> {
    if s.symbols.len() == 0 {
        None
    } else {
        match s.display_mode {
            crate::settings::DisplayMode::Rotate => if rotate_index < s.symbols.len() {
                Some(s.symbols[rotate_index])
            } else {
                None
            },
            crate::settings::DisplayMode::Fixed => match s.fixed_symbol {
                Some(code) => if contains_code(s.symbols, code) {
                    Some(s.symbols[find_code(s.symbols, code)])
                } else {
                    Some(s.symbols[0])
                },
                None => Some(s.symbols[0]),
            },
        }
    }
}

/// Resolves the symbol the display should show.
#[verifier::loop_isolation(false)]
pub fn pick_display_symbol<'a>(settings: &'a QuoteSettings, rotate_index: usize) -> (r: Option<
    &'a SymbolItem,
>)
    ensures
        match r {
            Some(sym) => pick_spec(settings@, rotate_index as int) == Some(sym@),
            None => pick_spec(settings@, rotate_index as int) is None,
        },
{
    if settings.symbols.len() == 0 {
        return None;
    }
    match settings.display_mode {
        crate::settings::DisplayMode::Rotate => {
            if rotate_index < settings.symbols.len() {
                Some(&settings.symbols[rotate_index])
            } else {
                None
            }
        },
        crate::settings::DisplayMode::Fixed => {
            match &settings.fixed_symbol {
                Some(code) => {
                    let n = settings.symbols.len();
                    let mut j: usize = 0;
                    while j < n
                        invariant
                            0 <= j <= n,
                            n == settings.symbols@.len(),
                            forall|k: int|
                                0 <= k < j ==> (#[trigger] settings.symbols.deep_view()[k].code)
                                    != code@,
                        decreases n - j,
                    {
                        if settings.symbols[j].code == *code {
                            proof {
                                assert(settings@.fixed_symbol == Some(code@));
                                assert(settings.symbols.deep_view()[j as int].code == code@);
                                lemma_find_code(settings@.symbols, code@);
                                assert(find_code(settings@.symbols, code@) == j);
                                assert(settings.symbols[j as int]@ == settings@.symbols[j as int]);
                                assert(pick_spec(settings@, rotate_index as int) == Some(
                                    settings@.symbols[j as int],
                                ));
                            }
                            return Some(&settings.symbols[j]);
                        }
                        j = j + 1;
                    }
                    assert(settings@.fixed_symbol == Some(code@));
                    assert(!contains_code(settings@.symbols, code@));
                    Some(&settings.symbols[0])
                },
                None => {
                    assert(settings@.fixed_symbol is None);
                    Some(&settings.symbols[0])
                },
            }
        },
    }
}

/// The next rotation index: one step forward, wrapping to the front.
pub open spec fn advance_spec(index: int, len: int) -> int {
    if index + 1 < len {
        index + 1
    } else {
        0
    }
}

/// Advances the rotation; the result always indexes into the list.
pub fn advance_rotate(index: usize, len: usize) -> (r: usize)
    requires
        0 < len,
        index < len,
    ensures
        r == advance_spec(index as int, len as int),
        r < len,
{
    if index + 1 < len {
        index + 1
    } else {
        0
    }
}

/// The name a symbol is shown under: its label, or its code when the
/// label is blank.
pub open spec fn display_name(sym: SymbolItemView) -> Seq<char> {
    if sym.label.len() == 0 {
        sym.code
    } else {
        sym.label
    }
}

/// The title for a symbol: name and price to two decimals, or a dash
/// marker when no price is known.
pub open spec fn title_spec(sym: SymbolItemView, price: Option<i64>) -> Seq<char> {
    match price {
        Some(p) => display_name(sym) + seq![' '] + price_text(p as int),
        None => display_name(sym) + " --"@,
    }
}

fn name_of<'a>(symbol: &'a SymbolItem) -> (r: &'a str)
    ensures
        r@ == display_name(symbol@),
{
    if symbol.label.as_str().unicode_len() == 0 {
        symbol.code.as_str()
    } else {
        symbol.label.as_str()
    }
}

/// Formats the status-bar title for a symbol.
pub fn format_title(symbol: &SymbolItem, price: Option<i64>) -> (r: String)
    requires
        price matches Some(p) ==> p > i64::MIN,
    ensures
        r@ == title_spec(symbol@, price),
{
    let mut out = String::new();
    out.append(name_of(symbol));
    match price {
        Some(p) => {
            proof {
                reveal_strlit(" ");
            }
            out.append(" ");
            let text = crate::price::format_price(p);
            out.append(text.as_str());
            assert(out@ =~= title_spec(symbol@, price));
        },
        None => {
            out.append(" --");
        },
    }
    out
}

/// One tooltip line: trend glyph, name and price when both are known,
/// else the name with a dash marker.
pub open spec fn price_line_spec(sym: SymbolItemView, price: Option<i64>, trend: Option<
    Trend,
>) -> Seq<char> {
    if price is Some && trend is Some {
        glyph_spec(trend->0) + seq![' '] + display_name(sym) + seq![' '] + price_text(
            price->0 as int,
        )
    } else {
        display_name(sym) + " --"@
    }
}

/// Formats one tooltip line for a symbol.
pub fn format_price_line(symbol: &SymbolItem, price: Option<i64>, trend: Option<Trend>) -> (r:
    String)
    requires
        price matches Some(p) ==> p > i64::MIN,
    ensures
        r@ == price_line_spec(symbol@, price, trend),
{
    match (trend, price) {
        (Some(t), Some(p)) => {
            proof {
                reveal_strlit(" ");
            }
            let mut out = String::new();
            out.append(trend_glyph(t));
            out.append(" ");
            out.append(name_of(symbol));
            out.append(" ");
            let text = crate::price::format_price(p);
            out.append(text.as_str());
            assert(out@ =~= price_line_spec(symbol@, price, trend));
            out
        },
        _ => {
            let mut out = String::new();
            out.append(name_of(symbol));
            out.append(" --");
            out
        },
    }
}

/// All values a price cache may hold are above `i64::MIN`, so they can be
/// formatted.
pub open spec fn prices_wf(prices: Map<Seq<char>, i64>) -> bool {
    forall|c: Seq<char>| prices.contains_key(c) ==> #[trigger] prices[c] > i64::MIN
}

/// The tooltip line of one symbol, from the caches.
pub open spec fn symbol_line_spec(
    sym: SymbolItemView,
    prices: Map<Seq<char>, i64>,
    trends: Map<Seq<char>, Trend>,
) -> Seq<char> {
    let price = if prices.contains_key(sym.code) {
        Some(prices[sym.code])
    } else {
        None
    };
    let trend = if trends.contains_key(sym.code) {
        Some(trends[sym.code])
    } else {
        None
    };
    price_line_spec(sym, price, trend)
}

/// The whole tooltip: the current error's lines, if any, then one line
/// per configured symbol, in settings order.
pub open spec fn tooltip_spec(
    err: Option<FetchErrorView>,
    symbols: Seq<SymbolItemView>,
    prices: Map<Seq<char>, i64>,
    trends: Map<Seq<char>, Trend>,
) -> Seq<char> {
    let err_lines = match err {
        Some(e) => tooltip_lines_spec(e),
        None => Seq::<Seq<char>>::empty(),
    };
    let sym_lines = Seq::new(symbols.len(), |i: int| symbol_line_spec(symbols[i], prices, trends));
    join_char(err_lines + sym_lines, '\n')
}

/// Builds the tooltip text.
#[verifier::loop_isolation(false)]
pub fn build_tooltip(
    symbols: &Vec<SymbolItem>,
    prices: &PriceMap,
    trends: &TrendMap,
    err: Option<&FetchError>,
) -> (r: String)
    requires
        prices.wf(),
        trends.wf(),
        prices_wf(prices.view()),
    ensures
        r@ == tooltip_spec(
            match err {
                Some(e) => Some(e@),
                None => None,
            },
            symbols.deep_view(),
            prices.view(),
            trends.view(),
        ),
{
    let ghost err_lines = match err {
        Some(e) => tooltip_lines_spec(e@),
        None => Seq::<Seq<char>>::empty(),
    };
    let mut lines: Vec<String> = Vec::new();
    if let Some(e) = err {
        let mut el = e.tooltip_lines();
        let ghost el0 = el.deep_view();
        let mut k: usize = 0;
        let en = el.len();
        while k < en
            invariant
                0 <= k <= en,
                en == el@.len(),
                el.deep_view() == el0,
                lines.deep_view() == el0.subrange(0, k as int),
            decreases en - k,
        {
            let line = el[k].clone();
            assert(line@ == el.deep_view()[k as int]);
            let ghost before = lines.deep_view();
            lines.push(line);
            assert(lines.deep_view() =~= el0.subrange(0, k + 1));
            k = k + 1;
        }
        assert(lines.deep_view() =~= err_lines);
    }
    assert(lines.deep_view() =~= err_lines);
    let ghost sym_lines = Seq::new(
        symbols.deep_view().len(),
        |i: int| symbol_line_spec(symbols.deep_view()[i], prices.view(), trends.view()),
    );
    let n = symbols.len();
    let mut i: usize = 0;
    while i < n
        invariant
            0 <= i <= n,
            n == symbols@.len(),
            lines.deep_view() == err_lines + sym_lines.subrange(0, i as int),
        decreases n - i,
    {
        let sym = &symbols[i];
        assert(sym@ == symbols.deep_view()[i as int]);
        let price = prices.get(&sym.code);
        let trend = trends.get(&sym.code);
        proof {
            if price is Some {
                assert(prices.view()[sym@.code] > i64::MIN);
            }
            assert(price == (if prices.view().contains_key(sym@.code) {
                Some(prices.view()[sym@.code])
            } else {
                None::<i64>
            }));
            assert(trend == (if trends.view().contains_key(sym@.code) {
                Some(trends.view()[sym@.code])
            } else {
                None::<Trend>
            }));
        }
        let line = format_price_line(sym, price, trend);
        assert(line@ == sym_lines[i as int]);
        let ghost before = lines.deep_view();
        lines.push(line);
        assert(lines.deep_view() =~= before.push(line@));
        assert(sym_lines.subrange(0, i + 1) =~= sym_lines.subrange(0, i as int).push(
            sym_lines[i as int],
        ));
        assert(lines.deep_view() =~= err_lines + sym_lines.subrange(0, i + 1));
        i = i + 1;
    }
    assert(err_lines + sym_lines.subrange(0, n as int) =~= err_lines + sym_lines);
    crate::text::join_with_newlines(&lines)
}

} // verus!
