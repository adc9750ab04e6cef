//! The settings snapshot the poller works from, and its normalization:
//! credential lines cleaned, symbol codes trimmed and deduplicated with
//! first occurrence winning, empty lists refilled with the defaults of the
//! configured market category, the rotation interval clamped, and the
//! fixed symbol forced to an existing code.
use crate::text::{
    is_trim_fixed,
    clean_tokens, join_char, lemma_clean_concat, lemma_split_at_first, lemma_split_no_sep,
    split_char, trim_str, trimmed,
};
use vstd::prelude::*;

verus! {

/// Smallest accepted rotation interval, in seconds.
pub const ROTATE_MIN_SECONDS: u64 = 3;

/// Largest accepted rotation interval, in seconds.
pub const ROTATE_MAX_SECONDS: u64 = 3600;

/// A quoted symbol: the code the API understands and the label shown.
#[derive(Clone)]
pub struct SymbolItem {
    pub code: String,
    pub label: String,
}

#[verifier::ext_equal]
pub ghost struct SymbolItemView {
    pub code: Seq<char>,
    pub label: Seq<char>,
}

impl View for SymbolItem {
    type V = SymbolItemView;

    open spec fn view(&self) -> SymbolItemView {
        SymbolItemView { code: self.code@, label: self.label@ }
    }
}

impl DeepView for SymbolItem {
    type V = SymbolItemView;

    open spec fn deep_view(&self) -> SymbolItemView {
        self.view()
    }
}

/// Whether one symbol's price stays on display or the list rotates.
#[derive(Clone, Copy, PartialEq, Eq, Structural)]
pub enum DisplayMode {
    Rotate,
    Fixed,
}

/// Which quote API category the symbol list belongs to.
#[derive(Clone, Copy, PartialEq, Eq, Structural)]
pub enum ApiType {
    Commodity,
    Stock,
}

impl Default for DisplayMode {
    fn default() -> (r: Self)
        ensures
            r == DisplayMode::Rotate,
    {
        DisplayMode::Rotate
    }
}

impl Default for ApiType {
    fn default() -> (r: Self)
        ensures
            r == ApiType::Commodity,
    {
        ApiType::Commodity
    }
}

/// The poller's configuration snapshot.
#[derive(Clone)]
pub struct QuoteSettings {
    /// Credential list, one per line.
    pub token: String,
    pub symbols: Vec<SymbolItem>,
    pub display_mode: DisplayMode,
    pub api_type: ApiType,
    pub refresh_seconds: u64,
    pub rotate_seconds: u64,
    pub fixed_symbol: Option<String>,
    pub use_system_proxy: bool,
}

#[verifier::ext_equal]
pub ghost struct SettingsView {
    pub token: Seq<char>,
    pub symbols: Seq<SymbolItemView>,
    pub display_mode: DisplayMode,
    pub api_type: ApiType,
    pub refresh_seconds: u64,
    pub rotate_seconds: u64,
    pub fixed_symbol: Option<Seq<char>>,
    pub use_system_proxy: bool,
}

impl View for QuoteSettings {
    type V = SettingsView;

    open spec fn view(&self) -> SettingsView {
        SettingsView {
            token: self.token@,
            symbols: self.symbols.deep_view(),
            display_mode: self.display_mode,
            api_type: self.api_type,
            refresh_seconds: self.refresh_seconds,
            rotate_seconds: self.rotate_seconds,
            fixed_symbol: self.fixed_symbol.deep_view(),
            use_system_proxy: self.use_system_proxy,
        }
    }
}

impl Default for QuoteSettings {
    fn default() -> (r: Self)
        ensures
            r@.token.len() == 0,
            r@.symbols == default_symbols_spec(),
            r@.display_mode == DisplayMode::Rotate,
            r@.api_type == ApiType::Commodity,
            r@.refresh_seconds == 10,
            r@.rotate_seconds == 10,
            r@.fixed_symbol is None,
            !r@.use_system_proxy,
    {
        QuoteSettings {
            token: String::new(),
            symbols: default_symbols(),
            display_mode: DisplayMode::Rotate,
            api_type: ApiType::Commodity,
            refresh_seconds: 10,
            rotate_seconds: 10,
            fixed_symbol: None,
            use_system_proxy: false,
        }
    }
}

pub fn default_refresh_seconds() -> (r: u64)
    ensures
        r == 10,
{
    10
}

pub fn default_rotate_seconds() -> (r: u64)
    ensures
        r == 10,
{
    10
}

pub open spec fn default_symbols_spec() -> Seq<SymbolItemView> {
    seq![
        SymbolItemView { code: "XAUUSD"@, label: "黄金"@ },
        SymbolItemView { code: "Silver"@, label: "白银"@ },
        SymbolItemView { code: "BTCUSDT"@, label: "比特币"@ },
    ]
}

pub open spec fn default_stock_symbols_spec() -> Seq<SymbolItemView> {
    seq![
        SymbolItemView { code: "000001.SH"@, label: "上证指数"@ },
        SymbolItemView { code: "HSI.HK"@, label: "恒生指数"@ },
        SymbolItemView { code: ".IXIC.US"@, label: "纳斯达克指数"@ },
    ]
}

/// The commodity-category default symbol list.
pub fn default_symbols() -> (r: Vec<SymbolItem>)
    ensures
        r.deep_view() == default_symbols_spec(),
{
    let r = vec![
        SymbolItem { code: "XAUUSD".to_owned(), label: "黄金".to_owned() },
        SymbolItem { code: "Silver".to_owned(), label: "白银".to_owned() },
        SymbolItem { code: "BTCUSDT".to_owned(), label: "比特币".to_owned() },
    ];
    assert(r.deep_view() =~= default_symbols_spec());
    r
}

/// The stock-category default symbol list.
pub fn default_stock_symbols() -> (r: Vec<SymbolItem>)
    ensures
        r.deep_view() == default_stock_symbols_spec(),
{
    let r = vec![
        SymbolItem { code: "000001.SH".to_owned(), label: "上证指数".to_owned() },
        SymbolItem { code: "HSI.HK".to_owned(), label: "恒生指数".to_owned() },
        SymbolItem { code: ".IXIC.US".to_owned(), label: "纳斯达克指数".to_owned() },
    ];
    assert(r.deep_view() =~= default_stock_symbols_spec());
    r
}

/// The credential lines of a token text: split on newlines, trimmed,
/// empties dropped.
pub open spec fn tokens_of(token: Seq<char>) -> Seq<Seq<char>> {
    clean_tokens(split_char(token, '\n'))
}

/// Splits credential text into its non-empty trimmed lines.
#[verifier::loop_isolation(false)]
pub fn parse_tokens(token: &str) -> (r: Vec<String>)
    ensures
        r.deep_view() == tokens_of(token@),
{
    let len = token.unicode_len();
    let mut out: Vec<String> = Vec::new();
    let mut start: usize = 0;
    let mut i: usize = 0;
    proof {
        assert(token@.subrange(0, len as int) =~= token@);
        assert(out.deep_view() =~= Seq::<Seq<char>>::empty());
        assert(out.deep_view() + clean_tokens(split_char(token@, '\n')) =~= clean_tokens(
            split_char(token@, '\n'),
        ));
    }
    while i < len
        invariant
            0 <= start <= i <= len,
            len == token@.len(),
            forall|k: int| start <= k < i ==> token@[k] != '\n',
            tokens_of(token@) == out.deep_view() + clean_tokens(
                split_char(token@.subrange(start as int, len as int), '\n'),
            ),
        decreases len - i,
    {
        if token.get_char(i) == '\n' {
            let seg = token.substring_char(start, i);
            let t = trim_str(seg);
            let ghost suffix = token@.subrange(start as int, len as int);
            proof {
                lemma_split_at_first(suffix, '\n', i - start);
                assert(suffix.subrange(0, i - start) =~= seg@);
                assert(suffix.subrange(i - start + 1, suffix.len() as int) =~= token@.subrange(
                    i + 1,
                    len as int,
                ));
                lemma_clean_concat(seq![seg@], split_char(token@.subrange(i + 1, len as int), '\n'));
                crate::text::lemma_clean_single(seg@);
            }
            if t.unicode_len() > 0 {
                let ghost before = out.deep_view();
                out.push(t.to_owned());
                assert(out.deep_view() =~= before.push(t@));
            }
            assert(tokens_of(token@) =~= out.deep_view() + clean_tokens(
                split_char(token@.subrange(i + 1, len as int), '\n'),
            ));
            start = i + 1;
        }
        i = i + 1;
    }
    let seg = token.substring_char(start, len);
    let t = trim_str(seg);
    proof {
        lemma_split_no_sep(seg@, '\n');
        crate::text::lemma_clean_single(seg@);
    }
    if t.unicode_len() > 0 {
        let ghost before = out.deep_view();
        out.push(t.to_owned());
        assert(out.deep_view() =~= before.push(t@));
    }
    assert(out.deep_view() =~= tokens_of(token@));
    out
}

/// Joins credential lines back into one newline-separated text.
pub fn join_tokens(tokens: &Vec<String>) -> (r: String)
    ensures
        r@ == join_char(tokens.deep_view(), '\n'),
{
    crate::text::join_with_newlines(tokens)
}

/// The credential text after the legacy fallback: a blank stored token is
/// replaced by the trimmed content of the legacy token file, when one was
/// read.
pub open spec fn legacy_token_spec(current: Seq<char>, legacy: Option<Seq<char>>) -> Seq<char> {
    if trimmed(current).len() == 0 {
        match legacy {
            Some(l) => trimmed(l),
            None => current,
        }
    } else {
        current
    }
}

/// Applies the legacy single-token fallback to the stored credential text.
pub fn legacy_token_fallback(current: &str, legacy: Option<&str>) -> (r: String)
    ensures
        r@ == legacy_token_spec(
            current@,
            match legacy {
                Some(l) => Some(l@),
                None => None,
            },
        ),
{
    let t = trim_str(current);
    if t.unicode_len() == 0 {
        if let Some(l) = legacy {
            return trim_str(l).to_owned();
        }
    }
    current.to_owned()
}

/// A symbol with its code and label trimmed, a blank label defaulting to
/// the code.
pub open spec fn norm_symbol(s: SymbolItemView) -> SymbolItemView {
    let code = trimmed(s.code);
    let label = trimmed(s.label);
    SymbolItemView { code: code, label: if label.len() == 0 { code } else { label } }
}

pub open spec fn contains_code(syms: Seq<SymbolItemView>, code: Seq<char>) -> bool {
    exists|i: int| 0 <= i < syms.len() && syms[i].code == code
}

/// The normalized symbol list: codes trimmed, empties dropped, later
/// duplicates dropped, labels defaulted.
pub open spec fn norm_symbols(syms: Seq<SymbolItemView>) -> Seq<SymbolItemView>
    decreases syms.len(),
{
    if syms.len() == 0 {
        Seq::<SymbolItemView>::empty()
    } else {
        let prefix = norm_symbols(syms.drop_last());
        let item = norm_symbol(syms.last());
        if item.code.len() == 0 || contains_code(prefix, item.code) {
            prefix
        } else {
            prefix.push(item)
        }
    }
}

pub open spec fn clamp64(x: u64, lo: u64, hi: u64) -> u64 {
    if x < lo {
        lo
    } else if x > hi {
        hi
    } else {
        x
    }
}

/// What normalization returns for any settings value.
pub open spec fn normalize_spec(s: SettingsView) -> SettingsView {
    let toks = tokens_of(s.token);
    let syms0 = norm_symbols(s.symbols);
    let symbols = if syms0.len() == 0 {
        if s.api_type == ApiType::Commodity {
            default_symbols_spec()
        } else {
            default_stock_symbols_spec()
        }
    } else {
        syms0
    };
    let fixed = if s.display_mode == DisplayMode::Fixed {
        let f = trimmed(
            match s.fixed_symbol {
                Some(f) => f,
                None => Seq::<char>::empty(),
            },
        );
        Some(
            if contains_code(symbols, f) {
                f
            } else {
                symbols[0].code
            },
        )
    } else {
        s.fixed_symbol
    };
    SettingsView {
        token: join_char(toks, '\n'),
        symbols: symbols,
        display_mode: s.display_mode,
        api_type: s.api_type,
        refresh_seconds: 10,
        rotate_seconds: clamp64(s.rotate_seconds, ROTATE_MIN_SECONDS, ROTATE_MAX_SECONDS),
        fixed_symbol: fixed,
        use_system_proxy: s.use_system_proxy,
    }
}

/// Does the list hold a symbol with exactly this code?
pub fn vec_contains_code(syms: &Vec<SymbolItem>, code: &String) -> (r: bool)
    ensures
        r == contains_code(syms.deep_view(), code@),
{
    let mut j: usize = 0;
    while j < syms.len()
        invariant
            0 <= j <= syms@.len(),
            forall|k: int| 0 <= k < j ==> syms.deep_view()[k].code != code@,
        decreases syms@.len() - j,
    {
        if syms[j].code == *code {
            assert(syms.deep_view()[j as int].code == code@);
            return true;
        }
        j = j + 1;
    }
    false
}

/// Normalizes a settings value; every field afterwards satisfies the
/// invariants the poller relies on. The rotation interval always lands in
/// `[ROTATE_MIN_SECONDS, ROTATE_MAX_SECONDS]`.
#[verifier::loop_isolation(false)]
pub fn normalize_settings(settings: QuoteSettings) -> (r: QuoteSettings)
    ensures
        r@ == normalize_spec(settings@),
        ROTATE_MIN_SECONDS <= r.rotate_seconds <= ROTATE_MAX_SECONDS,
{
    let ghost orig = settings@;
    let mut s = settings;
    let tokens = parse_tokens(s.token.as_str());
    s.token = join_tokens(&tokens);

    let mut syms: Vec<SymbolItem> = Vec::new();
    let n = s.symbols.len();
    let mut i: usize = 0;
    while i < n
        invariant
            0 <= i <= n,
            n == s.symbols@.len(),
            s.symbols.deep_view() == orig.symbols,
            syms.deep_view() == norm_symbols(orig.symbols.subrange(0, i as int)),
        decreases n - i,
    {
        let ghost prefix = orig.symbols.subrange(0, i as int);
        let ghost cur = orig.symbols.subrange(0, i + 1);
        proof {
            assert(cur.drop_last() =~= prefix);
            assert(cur.last() == orig.symbols[i as int]);
        }
        let code_ref = trim_str(s.symbols[i].code.as_str());
        if code_ref.unicode_len() > 0 {
            let code = code_ref.to_owned();
            if !vec_contains_code(&syms, &code) {
                let label_ref = trim_str(s.symbols[i].label.as_str());
                let label = if label_ref.unicode_len() == 0 {
                    code.clone()
                } else {
                    label_ref.to_owned()
                };
                let ghost before = syms.deep_view();
                syms.push(SymbolItem { code: code, label: label });
                assert(syms.deep_view() =~= before.push(norm_symbol(orig.symbols[i as int])));
            }
        }
        i = i + 1;
    }
    proof {
        assert(orig.symbols.subrange(0, n as int) =~= orig.symbols);
    }
    if syms.len() == 0 {
        syms = match s.api_type {
            ApiType::Commodity => default_symbols(),
            ApiType::Stock => default_stock_symbols(),
        };
    }
    s.symbols = syms;
    s.refresh_seconds = default_refresh_seconds();
    s.rotate_seconds = if s.rotate_seconds < ROTATE_MIN_SECONDS {
        ROTATE_MIN_SECONDS
    } else if s.rotate_seconds > ROTATE_MAX_SECONDS {
        ROTATE_MAX_SECONDS
    } else {
        s.rotate_seconds
    };
    if s.display_mode == DisplayMode::Fixed {
        let f = match &s.fixed_symbol {
            Some(x) => trim_str(x.as_str()).to_owned(),
            None => String::new(),
        };
        let exists_in_list = vec_contains_code(&s.symbols, &f);
        assert(s.symbols@.len() > 0);
        s.fixed_symbol = Some(
            if exists_in_list {
                f
            } else {
                s.symbols[0].code.clone()
            },
        );
    }
    assert(s@ =~= normalize_spec(orig));
    s
}

/// A credential line as parsing produces it: non-empty, fixed by
/// trimming, and free of newlines.
pub open spec fn good_token(t: Seq<char>) -> bool {
    &&& is_trim_fixed(t)
    &&& t.len() > 0
    &&& forall|k: int| 0 <= k < t.len() ==> t[k] != '\n'
}

proof fn lemma_tokens_good(t: Seq<char>)
    ensures
        forall|j: int| 0 <= j < tokens_of(t).len() ==> good_token(#[trigger] tokens_of(t)[j]),
{
    let parts = split_char(t, '\n');
    assert forall|j: int| 0 <= j < tokens_of(t).len() implies good_token(
        #[trigger] tokens_of(t)[j],
    ) by {
        crate::text::lemma_clean_elem(parts, j);
        let p = choose|p: int| 0 <= p < parts.len() && tokens_of(t)[j] == trimmed(#[trigger] parts[p]);
        assert forall|k: int| 0 <= k < parts[p].len() implies parts[p][k] != '\n' by {
            crate::text::lemma_split_part_no_sep(t, '\n', p, k);
        }
        crate::text::lemma_trimmed_no_char(parts[p], '\n');
    }
}

/// Parsing the joined credential lines yields the lines back: cleaning
/// credential text is idempotent.
pub proof fn lemma_tokens_roundtrip(t: Seq<char>)
    ensures
        tokens_of(join_char(tokens_of(t), '\n')) == tokens_of(t),
{
    let toks = tokens_of(t);
    lemma_tokens_good(t);
    if toks.len() == 0 {
        let j = join_char(toks, '\n');
        assert(j =~= Seq::<char>::empty());
        lemma_split_no_sep(j, '\n');
        crate::text::lemma_clean_single(j);
        assert(trimmed(j).len() == 0);
        assert(tokens_of(j) =~= toks);
    } else {
        assert(forall|p: int, k: int|
            0 <= p < toks.len() && 0 <= k < toks[p].len() ==> #[trigger] toks[p][k] != '\n');
        crate::text::lemma_split_join(toks, '\n');
        crate::text::lemma_clean_fixed(toks);
    }
}

pub open spec fn good_symbol(s: SymbolItemView) -> bool {
    &&& is_trim_fixed(s.code)
    &&& s.code.len() > 0
    &&& is_trim_fixed(s.label)
    &&& s.label.len() > 0
}

pub open spec fn all_good_symbols(syms: Seq<SymbolItemView>) -> bool {
    forall|i: int| 0 <= i < syms.len() ==> good_symbol(#[trigger] syms[i])
}

/// No two symbols share a code.
pub open spec fn unique_codes(syms: Seq<SymbolItemView>) -> bool {
    forall|i: int, j: int|
        0 <= i < j < syms.len() ==> (#[trigger] syms[i].code) != (#[trigger] syms[j].code)
}

proof fn lemma_norm_symbols_props(syms: Seq<SymbolItemView>)
    ensures
        all_good_symbols(norm_symbols(syms)),
        unique_codes(norm_symbols(syms)),
    decreases syms.len(),
{
    if syms.len() > 0 {
        lemma_norm_symbols_props(syms.drop_last());
        let prefix = norm_symbols(syms.drop_last());
        let item = norm_symbol(syms.last());
        if item.code.len() == 0 || contains_code(prefix, item.code) {
        } else {
            crate::text::lemma_trimmed_fixed(syms.last().code);
            crate::text::lemma_trimmed_fixed(syms.last().label);
            assert(good_symbol(item));
            assert forall|i: int, j: int|
                0 <= i < j < prefix.push(item).len() implies (#[trigger] prefix.push(item)[i].code)
                != (#[trigger] prefix.push(item)[j].code) by {
                if j < prefix.len() {
                } else {
                    assert(prefix.push(item)[i].code == prefix[i].code);
                    assert(!contains_code(prefix, item.code));
                }
            }
        }
    }
}

/// Normalizing an already-normalized symbol list changes nothing.
proof fn lemma_norm_symbols_fixed(syms: Seq<SymbolItemView>)
    requires
        all_good_symbols(syms),
        unique_codes(syms),
    ensures
        norm_symbols(syms) == syms,
    decreases syms.len(),
{
    if syms.len() == 0 {
        assert(norm_symbols(syms) =~= syms);
    } else {
        let d = syms.drop_last();
        assert(forall|k: int| 0 <= k < d.len() ==> d[k] == syms[k]);
        lemma_norm_symbols_fixed(d);
        let last = syms.last();
        assert(good_symbol(syms[syms.len() - 1]));
        crate::text::lemma_trim_fixed(last.code);
        crate::text::lemma_trim_fixed(last.label);
        assert(norm_symbol(last) =~= last);
        assert(!contains_code(d, last.code)) by {
            if contains_code(d, last.code) {
                let i = choose|i: int| 0 <= i < d.len() && d[i].code == last.code;
                assert(syms[i].code == syms[syms.len() - 1].code);
            }
        }
        assert(norm_symbols(syms) =~= syms);
    }
}

proof fn lemma_defaults_good()
    ensures
        all_good_symbols(default_symbols_spec()),
        unique_codes(default_symbols_spec()),
        all_good_symbols(default_stock_symbols_spec()),
        unique_codes(default_stock_symbols_spec()),
{
    reveal_strlit("XAUUSD");
    reveal_strlit("黄金");
    reveal_strlit("Silver");
    reveal_strlit("白银");
    reveal_strlit("BTCUSDT");
    reveal_strlit("比特币");
    reveal_strlit("000001.SH");
    reveal_strlit("上证指数");
    reveal_strlit("HSI.HK");
    reveal_strlit("恒生指数");
    reveal_strlit(".IXIC.US");
    reveal_strlit("纳斯达克指数");
}

/// Normalization is idempotent: a second pass returns the settings value
/// unchanged.
pub proof fn lemma_normalize_idempotent(v: SettingsView)
    ensures
        normalize_spec(normalize_spec(v)) == normalize_spec(v),
{
    let n1 = normalize_spec(v);
    lemma_tokens_roundtrip(v.token);
    lemma_norm_symbols_props(v.symbols);
    lemma_defaults_good();
    if norm_symbols(v.symbols).len() == 0 {
        lemma_norm_symbols_fixed(default_symbols_spec());
        lemma_norm_symbols_fixed(default_stock_symbols_spec());
    } else {
        lemma_norm_symbols_fixed(norm_symbols(v.symbols));
    }
    assert(norm_symbols(n1.symbols) == n1.symbols);
    assert(n1.symbols.len() > 0);
    if v.display_mode == DisplayMode::Fixed {
        let f0 = trimmed(
            match v.fixed_symbol {
                Some(f) => f,
                None => Seq::<char>::empty(),
            },
        );
        crate::text::lemma_trimmed_fixed(
            match v.fixed_symbol {
                Some(f) => f,
                None => Seq::<char>::empty(),
            },
        );
        if contains_code(n1.symbols, f0) {
            crate::text::lemma_trim_fixed(f0);
        } else {
            assert(good_symbol(n1.symbols[0]));
            crate::text::lemma_trim_fixed(n1.symbols[0].code);
            assert(contains_code(n1.symbols, n1.symbols[0].code));
        }
    }
    assert(normalize_spec(n1) =~= n1);
}

/// The index of the first input symbol whose trimmed code is `code`.
pub open spec fn first_occurrence(syms: Seq<SymbolItemView>, code: Seq<char>) -> int
    decreases syms.len(),
{
    if syms.len() == 0 {
        0
    } else if trimmed(syms[0].code) == code {
        0
    } else {
        1 + first_occurrence(syms.drop_first(), code)
    }
}

pub open spec fn input_has_code(syms: Seq<SymbolItemView>, code: Seq<char>) -> bool {
    exists|j: int| 0 <= j < syms.len() && trimmed(#[trigger] syms[j].code) == code
}

proof fn lemma_first_occ_push(s: Seq<SymbolItemView>, x: SymbolItemView, code: Seq<char>)
    requires
        input_has_code(s, code),
    ensures
        first_occurrence(s.push(x), code) == first_occurrence(s, code),
        0 <= first_occurrence(s, code) < s.len(),
        trimmed(s[first_occurrence(s, code)].code) == code,
    decreases s.len(),
{
    assert(s.len() > 0);
    assert(s.push(x)[0] == s[0]);
    if trimmed(s[0].code) != code {
        let d = s.drop_first();
        assert(forall|k: int| 0 <= k < d.len() ==> d[k] == s[k + 1]);
        assert(input_has_code(d, code)) by {
            let j = choose|j: int| 0 <= j < s.len() && trimmed(#[trigger] s[j].code) == code;
            assert(trimmed(d[j - 1].code) == code);
        }
        lemma_first_occ_push(d, x, code);
        assert(s.push(x).drop_first() =~= d.push(x));
    }
}

proof fn lemma_first_occ_push_new(s: Seq<SymbolItemView>, x: SymbolItemView, code: Seq<char>)
    requires
        !input_has_code(s, code),
        trimmed(x.code) == code,
    ensures
        first_occurrence(s.push(x), code) == s.len(),
    decreases s.len(),
{
    if s.len() == 0 {
        assert(s.push(x)[0] == x);
    } else {
        assert(trimmed(s[0].code) != code);
        assert(s.push(x)[0] == s[0]);
        let d = s.drop_first();
        assert(forall|k: int| 0 <= k < d.len() ==> d[k] == s[k + 1]);
        assert(!input_has_code(d, code)) by {
            if input_has_code(d, code) {
                let j = choose|j: int| 0 <= j < d.len() && trimmed(#[trigger] d[j].code) == code;
                assert(trimmed(s[j + 1].code) == code);
            }
        }
        lemma_first_occ_push_new(d, x, code);
        assert(s.push(x).drop_first() =~= d.push(x));
    }
}

proof fn lemma_norm_membership(syms: Seq<SymbolItemView>, code: Seq<char>)
    ensures
        contains_code(norm_symbols(syms), code) <==> (input_has_code(syms, code) && code.len()
            > 0),
    decreases syms.len(),
{
    if syms.len() == 0 {
    } else {
        let d = syms.drop_last();
        assert(forall|k: int| 0 <= k < d.len() ==> d[k] == syms[k]);
        lemma_norm_membership(d, code);
        let prefix = norm_symbols(d);
        let item = norm_symbol(syms.last());
        if contains_code(norm_symbols(syms), code) {
            if item.code.len() == 0 || contains_code(prefix, item.code) {
                assert(input_has_code(d, code) && code.len() > 0);
                let j = choose|j: int| 0 <= j < d.len() && trimmed(#[trigger] d[j].code) == code;
                assert(trimmed(syms[j].code) == code);
            } else {
                let i = choose|i: int|
                    0 <= i < prefix.push(item).len() && prefix.push(item)[i].code == code;
                if i < prefix.len() {
                    assert(contains_code(prefix, code));
                    let j = choose|j: int|
                        0 <= j < d.len() && trimmed(#[trigger] d[j].code) == code;
                    assert(trimmed(syms[j].code) == code);
                } else {
                    assert(code == item.code);
                    assert(trimmed(syms[syms.len() - 1].code) == code);
                }
            }
        }
        if input_has_code(syms, code) && code.len() > 0 {
            let j = choose|j: int| 0 <= j < syms.len() && trimmed(#[trigger] syms[j].code) == code;
            if j < syms.len() - 1 {
                assert(trimmed(d[j].code) == code);
                assert(contains_code(prefix, code));
                let i = choose|i: int| 0 <= i < prefix.len() && prefix[i].code == code;
                if !(item.code.len() == 0 || contains_code(prefix, item.code)) {
                    assert(prefix.push(item)[i].code == code);
                }
            } else {
                assert(item.code == code);
                if contains_code(prefix, item.code) {
                    let i = choose|i: int| 0 <= i < prefix.len() && prefix[i].code == code;
                    assert(contains_code(norm_symbols(syms), code));
                } else {
                    assert(prefix.push(item)[prefix.len() as int].code == code);
                }
            }
        }
    }
}

/// Normalizing a symbol list yields unique codes: each is the trimmed
/// code of its first occurrence in the input, and the survivors keep the
/// order of those first occurrences.
pub proof fn lemma_norm_symbols_first_occurrence(syms: Seq<SymbolItemView>)
    ensures
        unique_codes(norm_symbols(syms)),
        forall|i: int|
            0 <= i < norm_symbols(syms).len() ==> {
                let o = first_occurrence(syms, #[trigger] norm_symbols(syms)[i].code);
                0 <= o < syms.len() && trimmed(syms[o].code) == norm_symbols(syms)[i].code
            },
        forall|i: int, j: int|
            0 <= i < j < norm_symbols(syms).len() ==> first_occurrence(
                syms,
                #[trigger] norm_symbols(syms)[i].code,
            ) < first_occurrence(syms, #[trigger] norm_symbols(syms)[j].code),
    decreases syms.len(),
{
    lemma_norm_symbols_props(syms);
    if syms.len() > 0 {
        let d = syms.drop_last();
        let last = syms.last();
        assert(forall|k: int| 0 <= k < d.len() ==> d[k] == syms[k]);
        assert(syms =~= d.push(last));
        lemma_norm_symbols_first_occurrence(d);
        let prefix = norm_symbols(d);
        let item = norm_symbol(last);
        assert forall|i: int| 0 <= i < prefix.len() implies {
            &&& first_occurrence(syms, prefix[i].code) == first_occurrence(d, prefix[i].code)
            &&& 0 <= first_occurrence(d, prefix[i].code) < d.len()
            &&& trimmed(syms[first_occurrence(d, prefix[i].code)].code) == prefix[i].code
        } by {
            lemma_norm_membership(d, prefix[i].code);
            assert(contains_code(prefix, prefix[i].code));
            lemma_first_occ_push(d, last, prefix[i].code);
        }
        if item.code.len() == 0 || contains_code(prefix, item.code) {
            assert(norm_symbols(syms) == prefix);
        } else {
            assert(norm_symbols(syms) == prefix.push(item));
            lemma_norm_membership(d, item.code);
            lemma_first_occ_push_new(d, last, item.code);
            assert(trimmed(syms[d.len() as int].code) == item.code);
            assert forall|i: int| 0 <= i < norm_symbols(syms).len() implies {
                let o = first_occurrence(syms, #[trigger] norm_symbols(syms)[i].code);
                0 <= o < syms.len() && trimmed(syms[o].code) == norm_symbols(syms)[i].code
            } by {
                if i < prefix.len() {
                    assert(norm_symbols(syms)[i] == prefix[i]);
                } else {
                    assert(norm_symbols(syms)[i] == item);
                }
            }
        }
    }
}

/// After normalization the symbol codes are unique, whatever the input.
pub proof fn lemma_normalize_codes_unique(v: SettingsView)
    ensures
        unique_codes(normalize_spec(v).symbols),
{
    lemma_norm_symbols_props(v.symbols);
    lemma_defaults_good();
}

} // verus!
