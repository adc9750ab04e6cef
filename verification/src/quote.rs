//! One batched quote request: the endpoint for the API category, the
//! credential attached as a query parameter, the JSON request body asking
//! for the latest candle of every configured code, and the walk over the
//! JSON response envelope into a quote map.
//!
//! The transport that carries the request is outside the library; callers
//! hand the response body text to `parse_batch_response`.
use crate::error::{FetchError, FetchErrorView};
use crate::jsonio::{json_of, node_of, JsonNode};
use crate::market::{Quote, QuoteMap};
use crate::num::{digit_char, int_digits, parse_uint_spec};
use crate::price::parse_price_spec;
use crate::settings::ApiType;
use vstd::prelude::*;
use vstd::string::StringSliceAdditionalSpecFns;

verus! {

pub open spec fn endpoint_spec(api: ApiType) -> Seq<char> {
    match api {
        ApiType::Commodity => "https://quote.alltick.io/quote-b-api/batch-kline"@,
        ApiType::Stock => "https://quote.alltick.io/quote-stock-b-api/batch-kline"@,
    }
}

/// The fixed endpoint of an API category.
pub fn endpoint_url(api: ApiType) -> (r: &'static str)
    ensures
        r@ == endpoint_spec(api),
{
    match api {
        ApiType::Commodity => "https://quote.alltick.io/quote-b-api/batch-kline",
        ApiType::Stock => "https://quote.alltick.io/quote-stock-b-api/batch-kline",
    }
}

pub open spec fn hex_char(n: int) -> char {
    if n < 10 {
        digit_char(n)
    } else if n == 10 {
        'A'
    } else if n == 11 {
        'B'
    } else if n == 12 {
        'C'
    } else if n == 13 {
        'D'
    } else if n == 14 {
        'E'
    } else {
        'F'
    }
}

/// The bytes the form-urlencoded query encoding leaves as they are.
pub open spec fn unchanged_byte(b: u8) -> bool {
    b == 42 || b == 45 || b == 46 || b == 95 || (48 <= b && b <= 57) || (65 <= b && b <= 90) || (97
        <= b && b <= 122)
}

pub open spec fn encode_byte(b: u8) -> Seq<char> {
    if unchanged_byte(b) {
        seq![b as char]
    } else if b == 32 {
        seq!['+']
    } else {
        seq!['%', hex_char(b as int / 16), hex_char(b as int % 16)]
    }
}

/// The form-urlencoded query encoding of a byte string: unreserved bytes
/// kept, space as a plus, everything else percent-escaped in upper-case
/// hex.
pub open spec fn form_encode(bs: Seq<u8>) -> Seq<char>
    decreases bs.len(),
{
    if bs.len() == 0 {
        Seq::<char>::empty()
    } else {
        form_encode(bs.drop_last()) + encode_byte(bs.last())
    }
}

#[verifier::loop_isolation(false)]
fn form_encode_bytes(bs: &[u8]) -> (r: String)
    ensures
        r@ == form_encode(bs@),
{
    let mut out: Vec<u8> = Vec::new();
    let n = bs.len();
    let mut i: usize = 0;
    while i < n
        invariant
            0 <= i <= n,
            n == bs@.len(),
            forall|k: int| 0 <= k < out@.len() ==> out@[k] < 128,
            out@.map_values(|b: u8| b as char) == form_encode(bs@.subrange(0, i as int)),
        decreases n - i,
    {
        let b = bs[i];
        if (48 <= b && b <= 57) || (65 <= b && b <= 90) || (97 <= b && b <= 122) || b == 42 || b
            == 45 || b == 46 || b == 95 {
            out.push(b);
        } else if b == 32 {
            out.push(43);
        } else {
            out.push(37);
            let hi = b / 16;
            let lo = b % 16;
            out.push(
                if hi < 10 {
                    48 + hi
                } else {
                    55 + hi
                },
            );
            out.push(
                if lo < 10 {
                    48 + lo
                } else {
                    55 + lo
                },
            );
        }
        proof {
            assert(bs@.subrange(0, i + 1).drop_last() =~= bs@.subrange(0, i as int));
            assert(out@.map_values(|b: u8| b as char) =~= form_encode(bs@.subrange(0, i as int))
                + encode_byte(bs@[i as int]));
        }
        i = i + 1;
    }
    assert(bs@.subrange(0, n as int) =~= bs@);
    crate::text::ascii_to_string(out)
}

/// The request URL: the category endpoint with the credential as its
/// `token` query parameter, form-urlencoded.
pub open spec fn quote_url_spec(api: ApiType, token_bytes: Seq<u8>) -> Seq<char> {
    endpoint_spec(api) + "?token="@ + form_encode(token_bytes)
}

/// Builds the request URL for one credential.
pub fn build_quote_url(api: ApiType, token: &str) -> (r: String)
    ensures
        r@ == quote_url_spec(api, token.spec_bytes()),
{
    let mut out = String::new();
    out.append(endpoint_url(api));
    out.append("?token=");
    let encoded = form_encode_bytes(token.as_bytes());
    out.append(encoded.as_str());
    assert(out@ =~= quote_url_spec(api, token.spec_bytes()));
    out
}

/// How one character is written inside a JSON string literal.
pub open spec fn esc_char(c: char) -> Seq<char> {
    if c == '"' {
        seq!['\\', '"']
    } else if c == '\\' {
        seq!['\\', '\\']
    } else if c == '\n' {
        seq!['\\', 'n']
    } else if c == '\r' {
        seq!['\\', 'r']
    } else if c == '\t' {
        seq!['\\', 't']
    } else if (c as int) < 32 {
        seq!['\\', 'u', '0', '0', hex_char(c as int / 16), hex_char(c as int % 16)]
    } else {
        seq![c]
    }
}

/// A string's characters as they stand inside a JSON string literal.
pub open spec fn json_escaped(s: Seq<char>) -> Seq<char>
    decreases s.len(),
{
    if s.len() == 0 {
        Seq::<char>::empty()
    } else {
        json_escaped(s.drop_last()) + esc_char(s.last())
    }
}

fn hex_str(n: u64) -> (r: &'static str)
    requires
        n < 16,
    ensures
        r@ =~= seq![hex_char(n as int)],
{
    if n < 10 {
        crate::num::digit_str(n)
    } else {
        proof {
            reveal_strlit("A");
            reveal_strlit("B");
            reveal_strlit("C");
            reveal_strlit("D");
            reveal_strlit("E");
            reveal_strlit("F");
        }
        match n {
            10 => "A",
            11 => "B",
            12 => "C",
            13 => "D",
            14 => "E",
            _ => "F",
        }
    }
}

#[verifier::loop_isolation(false)]
fn append_json_escaped(s: &str, out: &mut String)
    ensures
        final(out)@ == old(out)@ + json_escaped(s@),
{
    let n = s.unicode_len();
    let mut i: usize = 0;
    proof {
        assert(s@.subrange(0, 0) =~= Seq::<char>::empty());
        assert(out@ =~= old(out)@ + json_escaped(s@.subrange(0, 0)));
    }
    while i < n
        invariant
            0 <= i <= n,
            n == s@.len(),
            out@ == old(out)@ + json_escaped(s@.subrange(0, i as int)),
        decreases n - i,
    {
        let c = s.get_char(i);
        if c == '"' {
            proof {
                reveal_strlit("\\\"");
            }
            out.append("\\\"");
        } else if c == '\\' {
            proof {
                reveal_strlit("\\\\");
            }
            out.append("\\\\");
        } else if c == '\n' {
            proof {
                reveal_strlit("\\n");
            }
            out.append("\\n");
        } else if c == '\r' {
            proof {
                reveal_strlit("\\r");
            }
            out.append("\\r");
        } else if c == '\t' {
            proof {
                reveal_strlit("\\t");
            }
            out.append("\\t");
        } else if (c as u32) < 32 {
            proof {
                reveal_strlit("\\u00");
            }
            out.append("\\u00");
            out.append(hex_str((c as u32 / 16) as u64));
            out.append(hex_str((c as u32 % 16) as u64));
        } else {
            let one = crate::text::char_to_string(c);
            out.append(one.as_str());
        }
        proof {
            assert(s@.subrange(0, i + 1).drop_last() =~= s@.subrange(0, i as int));
            assert(out@ =~= old(out)@ + json_escaped(s@.subrange(0, i + 1)));
        }
        i = i + 1;
    }
    assert(s@.subrange(0, n as int) =~= s@);
}

/// The request entry asking for the single latest unadjusted candle of a
/// code.
pub open spec fn kline_entry_json(code: Seq<char>) -> Seq<char> {
    "{\"code\":\""@ + json_escaped(code)
        + "\",\"kline_type\":1,\"kline_timestamp_end\":0,\"query_kline_num\":1,\"adjust_type\":0}"@
}

pub open spec fn data_list_json(codes: Seq<Seq<char>>) -> Seq<char>
    decreases codes.len(),
{
    if codes.len() == 0 {
        Seq::<char>::empty()
    } else if codes.len() == 1 {
        kline_entry_json(codes[0])
    } else {
        data_list_json(codes.drop_last()) + seq![','] + kline_entry_json(codes.last())
    }
}

/// The whole request body: the trace identifier and one entry per code,
/// in the codes' order.
pub open spec fn batch_body_spec(trace: Seq<char>, codes: Seq<Seq<char>>) -> Seq<char> {
    "{\"trace\":\""@ + json_escaped(trace) + "\",\"data\":{\"data_list\":["@ + data_list_json(codes)
        + "]}}"@
}

fn append_kline_entry(code: &String, out: &mut String)
    ensures
        final(out)@ == old(out)@ + kline_entry_json(code@),
{
    out.append("{\"code\":\"");
    append_json_escaped(code.as_str(), out);
    out.append("\",\"kline_type\":1,\"kline_timestamp_end\":0,\"query_kline_num\":1,\"adjust_type\":0}");
    assert(out@ =~= old(out)@ + kline_entry_json(code@));
}

/// Builds the batched request body.
#[verifier::loop_isolation(false)]
pub fn build_batch_body(trace: &str, codes: &Vec<String>) -> (r: String)
    ensures
        r@ == batch_body_spec(trace@, codes.deep_view()),
{
    let mut out = String::new();
    out.append("{\"trace\":\"");
    append_json_escaped(trace, &mut out);
    out.append("\",\"data\":{\"data_list\":[");
    let ghost head = "{\"trace\":\""@ + json_escaped(trace@) + "\",\"data\":{\"data_list\":["@;
    assert(out@ =~= head);
    let n = codes.len();
    let mut i: usize = 0;
    proof {
        assert(codes.deep_view().subrange(0, 0) =~= Seq::<Seq<char>>::empty());
    }
    while i < n
        invariant
            0 <= i <= n,
            n == codes@.len(),
            out@ == head + data_list_json(codes.deep_view().subrange(0, i as int)),
        decreases n - i,
    {
        if i > 0 {
            proof {
                reveal_strlit(",");
            }
            out.append(",");
        }
        append_kline_entry(&codes[i], &mut out);
        proof {
            let prefix = codes.deep_view().subrange(0, i as int);
            let cur = codes.deep_view().subrange(0, i + 1);
            assert(cur.drop_last() =~= prefix);
            assert(cur.last() == codes.deep_view()[i as int]);
            assert(codes[i as int]@ == codes.deep_view()[i as int]);
            assert(out@ =~= head + data_list_json(cur));
        }
        i = i + 1;
    }
    assert(codes.deep_view().subrange(0, n as int) =~= codes.deep_view());
    out.append("]}}");
    assert(out@ =~= batch_body_spec(trace@, codes.deep_view()));
    out
}

/// A fresh trace identifier for one request.
/// Relies on uuid::Uuid::new_v4 and its hyphenated text form, which is
/// always 36 characters; the value itself is random.
#[verifier::external_body]
pub fn new_trace_id() -> (r: String)
    ensures
        r@.len() == 36,
{
    uuid::Uuid::new_v4().to_string()
}

/// The quote of one response item, when all three numeric fields parse;
/// anything else leaves the code unmapped.
pub open spec fn decode_kline_spec(ts: Seq<char>, open_p: Seq<char>, close_p: Seq<char>) -> Option<
    Quote,
> {
    match (parse_uint_spec(ts, u64::MAX as int), parse_price_spec(open_p), parse_price_spec(
        close_p,
    )) {
        (Some(t), Some(o), Some(c)) => Some(Quote { close: c, timestamp: t, open: o }),
        _ => None,
    }
}

/// Decodes one symbol's candle fields.
pub fn decode_kline(ts: &str, open_p: &str, close_p: &str) -> (r: Option<Quote>)
    ensures
        r == decode_kline_spec(ts@, open_p@, close_p@),
        r matches Some(q) ==> q.close > i64::MIN && q.open > i64::MIN,
{
    proof {
        crate::price::lemma_parse_price_bound(open_p@);
        crate::price::lemma_parse_price_bound(close_p@);
    }
    let t = crate::num::parse_uint(ts, u64::MAX);
    let o = crate::price::parse_price(open_p);
    let c = crate::price::parse_price(close_p);
    match (t, o, c) {
        (Some(t), Some(o), Some(c)) => Some(Quote { close: c, timestamp: t, open: o }),
        _ => None,
    }
}

/// The error reported when the server answers with a non-success
/// application status.
pub open spec fn api_error_spec(ret: int, msg: Option<Seq<char>>) -> FetchErrorView {
    FetchErrorView { detail: "api ret="@ + int_digits(ret), msg: msg }
}

/// Builds the API-level error for a non-success `ret`.
pub fn api_error(ret: i64, msg: Option<String>) -> (r: FetchError)
    ensures
        r@ == api_error_spec(ret as int, msg.deep_view()),
{
    let mut detail = String::new();
    detail.append("api ret=");
    let digits = crate::num::i64_to_string(ret);
    detail.append(digits.as_str());
    assert(detail@ =~= "api ret="@ + int_digits(ret as int));
    FetchError::with_msg(detail, msg)
}

/// Every quote a fetch may cache can be formatted later.
pub open spec fn quotes_wf(m: Map<Seq<char>, Quote>) -> bool {
    forall|c: Seq<char>|
        m.contains_key(c) ==> (#[trigger] m[c]).close > i64::MIN && m[c].open > i64::MIN
}

/// The value of a field of an object node.
pub open spec fn obj_field(n: JsonNode, key: Seq<char>) -> Option<JsonNode> {
    match n {
        JsonNode::Obj(m) => if m.contains_key(key) {
            Some(m[key])
        } else {
            None
        },
        _ => None,
    }
}

/// A field holding a number with an i64 value.
pub open spec fn field_i64(n: JsonNode, key: Seq<char>) -> Option<i64> {
    match obj_field(n, key) {
        Some(JsonNode::Num(o)) => o,
        _ => None,
    }
}

/// A field holding a string.
pub open spec fn field_text(n: JsonNode, key: Seq<char>) -> Option<Seq<char>> {
    match obj_field(n, key) {
        Some(JsonNode::Text(t)) => Some(t),
        _ => None,
    }
}

/// A field holding an array.
pub open spec fn field_items(n: JsonNode, key: Seq<char>) -> Option<Seq<JsonNode>> {
    match obj_field(n, key) {
        Some(JsonNode::Arr(items)) => Some(items),
        _ => None,
    }
}

/// The server message may be absent, null, or a string; any other shape
/// refuses the envelope.
pub open spec fn msg_ok(root: JsonNode) -> bool {
    match obj_field(root, "msg"@) {
        None => true,
        Some(JsonNode::Null) => true,
        Some(JsonNode::Text(_)) => true,
        Some(_) => false,
    }
}

/// The first candle of an item must carry its three fields as strings.
pub open spec fn candle_ok(k: JsonNode) -> bool {
    &&& field_text(k, "timestamp"@) is Some
    &&& field_text(k, "open_price"@) is Some
    &&& field_text(k, "close_price"@) is Some
}

/// An item must carry a string code and a candle array; an empty candle
/// array is accepted.
pub open spec fn item_ok(item: JsonNode) -> bool {
    &&& field_text(item, "code"@) is Some
    &&& match field_items(item, "kline_data"@) {
        Some(ks) => ks.len() == 0 || candle_ok(ks[0]),
        None => false,
    }
}

/// The envelope's item list, under `data.kline_list`.
pub open spec fn items_of(root: JsonNode) -> Option<Seq<JsonNode>> {
    match obj_field(root, "data"@) {
        Some(d) => field_items(d, "kline_list"@),
        None => None,
    }
}

/// A response envelope the walk accepts: an integral status, a
/// well-shaped message, an item list, every item well-shaped.
pub open spec fn envelope_ok(root: JsonNode) -> bool {
    &&& field_i64(root, "ret"@) is Some
    &&& msg_ok(root)
    &&& items_of(root) is Some
    &&& forall|i: int|
        0 <= i < items_of(root)->0.len() ==> item_ok(#[trigger] items_of(root)->0[i])
}

/// The code and quote one accepted item contributes: none when its candle
/// list is empty or its numeric fields do not parse.
pub open spec fn item_quote(item: JsonNode) -> Option<(Seq<char>, Quote)> {
    let ks = field_items(item, "kline_data"@)->0;
    if ks.len() == 0 {
        None
    } else {
        match decode_kline_spec(
            field_text(ks[0], "timestamp"@)->0,
            field_text(ks[0], "open_price"@)->0,
            field_text(ks[0], "close_price"@)->0,
        ) {
            Some(q) => Some((field_text(item, "code"@)->0, q)),
            None => None,
        }
    }
}

/// The quote map the accepted items build, in order, a later duplicate
/// code overwriting an earlier one.
pub open spec fn quotes_of_items(items: Seq<JsonNode>) -> Map<Seq<char>, Quote>
    decreases items.len(),
{
    if items.len() == 0 {
        Map::<Seq<char>, Quote>::empty()
    } else {
        let rest = quotes_of_items(items.drop_last());
        match item_quote(items.last()) {
            Some((c, q)) => rest.insert(c, q),
            None => rest,
        }
    }
}

/// The error for text that is not JSON at all.
pub open spec fn invalid_body_error() -> FetchErrorView {
    FetchErrorView { detail: "decode error: invalid response body"@, msg: None }
}

/// The error for JSON that is not a quote envelope.
pub open spec fn bad_shape_error() -> FetchErrorView {
    FetchErrorView { detail: "decode error: unexpected response shape"@, msg: None }
}

fn decode_error() -> (r: FetchError)
    ensures
        r@ == bad_shape_error(),
{
    let e = FetchError::new("decode error: unexpected response shape".to_owned());
    assert(e@ =~= bad_shape_error());
    e
}

/// What the walk returns for given response text.
pub open spec fn parse_batch_response_spec(text: Seq<char>, r: Result<QuoteMap, FetchError>) -> bool {
    match json_of(text) {
        None => r matches Err(e) && e@ == invalid_body_error(),
        Some(root) => {
            if !envelope_ok(root) {
                r matches Err(e) && e@ == bad_shape_error()
            } else if field_i64(root, "ret"@)->0 != 200 {
                r matches Err(e) && e@ == api_error_spec(
                    field_i64(root, "ret"@)->0 as int,
                    field_text(root, "msg"@),
                )
            } else {
                r matches Ok(m) && m.view() == quotes_of_items(items_of(root)->0)
            }
        },
    }
}

/// Walks the response envelope. The body text is accepted exactly when it
/// is JSON of the envelope shape; with a success status the result maps
/// each listed code to its decoded first candle, silently skipping codes
/// whose candle is missing or whose numeric fields do not parse; a
/// non-success status yields the API error carrying that status and the
/// server message; anything else is a decode error.
#[verifier::loop_isolation(false)]
pub fn parse_batch_response(text: &str) -> (r: Result<QuoteMap, FetchError>)
    ensures
        r matches Ok(m) ==> m.wf() && quotes_wf(m.view()),
        parse_batch_response_spec(text@, r),
{
    let root_v = match crate::jsonio::json_parse(text) {
        Some(v) => v,
        None => {
            let e = FetchError::new("decode error: invalid response body".to_owned());
            assert(e@ =~= invalid_body_error());
            return Err(e);
        },
    };
    let ghost root = node_of(root_v);
    let ret = match crate::jsonio::json_get(&root_v, "ret") {
        Some(v) => match crate::jsonio::json_as_i64(v) {
            Some(n) => {
                assert(field_i64(root, "ret"@) == Some(n));
                n
            },
            None => {
                assert(field_i64(root, "ret"@) is None);
                return Err(decode_error());
            },
        },
        None => {
            assert(field_i64(root, "ret"@) is None);
            return Err(decode_error());
        },
    };
    let msg: Option<String> = match crate::jsonio::json_get(&root_v, "msg") {
        Some(v) => {
            if crate::jsonio::json_is_null(v) {
                assert(msg_ok(root) && field_text(root, "msg"@) is None);
                None
            } else {
                match crate::jsonio::json_as_str(v) {
                    Some(s) => {
                        assert(msg_ok(root) && field_text(root, "msg"@) == Some(s@));
                        Some(s.to_owned())
                    },
                    None => {
                        assert(!msg_ok(root));
                        return Err(decode_error());
                    },
                }
            }
        },
        None => {
            assert(msg_ok(root) && field_text(root, "msg"@) is None);
            None
        },
    };
    assert(msg.deep_view() == field_text(root, "msg"@));
    let data = match crate::jsonio::json_get(&root_v, "data") {
        Some(v) => v,
        None => {
            assert(items_of(root) is None);
            return Err(decode_error());
        },
    };
    let list = match crate::jsonio::json_get(data, "kline_list") {
        Some(v) => match crate::jsonio::json_as_array(v) {
            Some(a) => a,
            None => {
                assert(items_of(root) is None);
                return Err(decode_error());
            },
        },
        None => {
            assert(items_of(root) is None);
            return Err(decode_error());
        },
    };
    let ghost items = items_of(root)->0;
    proof {
        assert(items_of(root) == Some(items));
        assert(list@.len() == items.len());
    }
    let mut map = QuoteMap::new();
    let n = list.len();
    let mut i: usize = 0;
    proof {
        assert(items.subrange(0, 0) =~= Seq::<JsonNode>::empty());
    }
    while i < n
        invariant
            0 <= i <= n,
            n == list@.len(),
            map.wf(),
            quotes_wf(map.view()),
            forall|j: int| 0 <= j < i ==> item_ok(#[trigger] items[j]),
            map.view() == quotes_of_items(items.subrange(0, i as int)),
        decreases n - i,
    {
        let item = &list[i];
        assert(node_of(*item) == items[i as int]);
        let ghost inode = items[i as int];
        let code = match crate::jsonio::json_get(item, "code") {
            Some(v) => match crate::jsonio::json_as_str(v) {
                Some(s) => {
                    assert(field_text(inode, "code"@) == Some(s@));
                    s
                },
                None => {
                    assert(!item_ok(inode));
                    assert(!envelope_ok(root));
                    return Err(decode_error());
                },
            },
            None => {
                assert(!item_ok(inode));
                assert(!envelope_ok(root));
                return Err(decode_error());
            },
        };
        let kline_data = match crate::jsonio::json_get(item, "kline_data") {
            Some(v) => match crate::jsonio::json_as_array(v) {
                Some(a) => a,
                None => {
                    assert(!item_ok(inode));
                    assert(!envelope_ok(root));
                    return Err(decode_error());
                },
            },
            None => {
                assert(!item_ok(inode));
                assert(!envelope_ok(root));
                return Err(decode_error());
            },
        };
        let ghost ks = field_items(inode, "kline_data"@)->0;
        proof {
            assert(field_items(inode, "kline_data"@) == Some(ks));
            assert(kline_data@.len() == ks.len());
        }
        let ghost prefix = items.subrange(0, i as int);
        let ghost cur = items.subrange(0, i + 1);
        proof {
            assert(cur.drop_last() =~= prefix);
            assert(cur.last() == inode);
        }
        if kline_data.len() > 0 {
            let k = &kline_data[0];
            assert(node_of(*k) == ks[0]);
            let ts = match crate::jsonio::json_get(k, "timestamp") {
                Some(v) => match crate::jsonio::json_as_str(v) {
                    Some(s) => {
                        assert(field_text(ks[0], "timestamp"@) == Some(s@));
                        s
                    },
                    None => {
                        assert(!candle_ok(ks[0]));
                        assert(!item_ok(inode));
                        assert(!envelope_ok(root));
                        return Err(decode_error());
                    },
                },
                None => {
                    assert(!candle_ok(ks[0]));
                    assert(!item_ok(inode));
                    assert(!envelope_ok(root));
                    return Err(decode_error());
                },
            };
            let open_p = match crate::jsonio::json_get(k, "open_price") {
                Some(v) => match crate::jsonio::json_as_str(v) {
                    Some(s) => {
                        assert(field_text(ks[0], "open_price"@) == Some(s@));
                        s
                    },
                    None => {
                        assert(!candle_ok(ks[0]));
                        assert(!item_ok(inode));
                        assert(!envelope_ok(root));
                        return Err(decode_error());
                    },
                },
                None => {
                    assert(!candle_ok(ks[0]));
                    assert(!item_ok(inode));
                    assert(!envelope_ok(root));
                    return Err(decode_error());
                },
            };
            let close_p = match crate::jsonio::json_get(k, "close_price") {
                Some(v) => match crate::jsonio::json_as_str(v) {
                    Some(s) => {
                        assert(field_text(ks[0], "close_price"@) == Some(s@));
                        s
                    },
                    None => {
                        assert(!candle_ok(ks[0]));
                        assert(!item_ok(inode));
                        assert(!envelope_ok(root));
                        return Err(decode_error());
                    },
                },
                None => {
                    assert(!candle_ok(ks[0]));
                    assert(!item_ok(inode));
                    assert(!envelope_ok(root));
                    return Err(decode_error());
                },
            };
            assert(item_ok(inode));
            if let Some(q) = decode_kline(ts, open_p, close_p) {
                assert(item_quote(inode) == Some((code@, q)));
                map.insert(code.to_owned(), q);
            } else {
                assert(item_quote(inode) is None);
            }
        } else {
            assert(ks.len() == 0);
            assert(item_ok(inode));
            assert(item_quote(inode) is None);
        }
        assert(map.view() == quotes_of_items(cur));
        i = i + 1;
    }
    proof {
        assert(items.subrange(0, n as int) =~= items);
        assert(envelope_ok(root));
    }
    if ret != 200 {
        let e = api_error(ret, msg);
        return Err(e);
    }
    Ok(map)
}

} // verus!

