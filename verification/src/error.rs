//! The error a fetch attempt surfaces: a detail line for diagnostics and,
//! for API-level failures, the server's own message.
use crate::text::trimmed;
use vstd::prelude::*;

verus! {

/// Why a fetch attempt failed, as shown in the tooltip.
#[derive(Clone, Debug)]
pub struct FetchError {
    pub detail: String,
    pub msg: Option<String>,
}

#[verifier::ext_equal]
pub ghost struct FetchErrorView {
    pub detail: Seq<char>,
    pub msg: Option<Seq<char>>,
}

impl View for FetchError {
    type V = FetchErrorView;

    open spec fn view(&self) -> FetchErrorView {
        FetchErrorView { detail: self.detail@, msg: self.msg.deep_view() }
    }
}

impl FetchError {
    /// An error with a detail line and no server message.
    pub fn new(detail: String) -> (r: Self)
        ensures
            r@ == (FetchErrorView { detail: detail@, msg: None }),
    {
        FetchError { detail, msg: None }
    }

    /// An error carrying the server's message alongside the detail.
    pub fn with_msg(detail: String, msg: Option<String>) -> (r: Self)
        ensures
            r@ == (FetchErrorView { detail: detail@, msg: msg.deep_view() }),
    {
        FetchError { detail, msg }
    }

    /// The tooltip lines for this error: the detail, then the trimmed
    /// server message when one is present and non-blank.
    pub fn tooltip_lines(&self) -> (r: Vec<String>)
        ensures
            r.deep_view() == tooltip_lines_spec(self@),
    {
        let mut lines: Vec<String> = Vec::new();
        let mut first = String::new();
        first.append("错误: ");
        first.append(self.detail.as_str());
        let ghost empty_lines = lines.deep_view();
        lines.push(first);
        assert(lines.deep_view() =~= empty_lines.push("错误: "@ + self.detail@));
        if let Some(msg) = &self.msg {
            let m = crate::text::trim_str(msg.as_str());
            if m.unicode_len() > 0 {
                let mut second = String::new();
                second.append("msg: ");
                second.append(m);
                let ghost one_line = lines.deep_view();
                lines.push(second);
                assert(lines.deep_view() =~= one_line.push("msg: "@ + trimmed(msg@)));
            }
        }
        assert(lines.deep_view() =~= tooltip_lines_spec(self@));
        lines
    }
}

/// The tooltip lines an error produces.
pub open spec fn tooltip_lines_spec(e: FetchErrorView) -> Seq<Seq<char>> {
    let first = "错误: "@ + e.detail;
    match e.msg {
        Some(m) => if trimmed(m).len() > 0 {
            seq![first, "msg: "@ + trimmed(m)]
        } else {
            seq![first]
        },
        None => seq![first],
    }
}

/// Appends a tag when its condition holds.
pub open spec fn tag_if(acc: Seq<Seq<char>>, cond: bool, tag: Seq<char>) -> Seq<Seq<char>> {
    if cond {
        acc.push(tag)
    } else {
        acc
    }
}

/// The category tags of a transport failure, in their fixed order, with
/// the status tag last when a status is known.
pub open spec fn transport_tags_spec(
    timeout: bool,
    connect: bool,
    request: bool,
    body: bool,
    decode: bool,
    status: Option<Seq<char>>,
) -> Seq<Seq<char>> {
    let a = tag_if(Seq::<Seq<char>>::empty(), timeout, "timeout"@);
    let b = tag_if(a, connect, "connect"@);
    let c = tag_if(b, request, "request"@);
    let d = tag_if(c, body, "body"@);
    let e = tag_if(d, decode, "decode"@);
    match status {
        Some(s) => e.push("status="@ + s),
        None => e,
    }
}

fn push_tag(tags: &mut Vec<String>, tag: &str)
    ensures
        final(tags).deep_view() == old(tags).deep_view().push(tag@),
{
    let mut t = String::new();
    t.append(tag);
    let ghost before = tags.deep_view();
    tags.push(t);
    assert(tags.deep_view() =~= before.push(tag@));
}

/// Builds a transport failure's category tags from its predicates and its
/// status text, when one is known.
pub fn transport_tags(
    is_timeout: bool,
    is_connect: bool,
    is_request: bool,
    is_body: bool,
    is_decode: bool,
    status: Option<&str>,
) -> (r: Vec<String>)
    ensures
        r.deep_view() == transport_tags_spec(
            is_timeout,
            is_connect,
            is_request,
            is_body,
            is_decode,
            match status {
                Some(s) => Some(s@),
                None => None,
            },
        ),
{
    let mut tags: Vec<String> = Vec::new();
    assert(tags.deep_view() =~= Seq::<Seq<char>>::empty());
    if is_timeout {
        push_tag(&mut tags, "timeout");
    }
    if is_connect {
        push_tag(&mut tags, "connect");
    }
    if is_request {
        push_tag(&mut tags, "request");
    }
    if is_body {
        push_tag(&mut tags, "body");
    }
    if is_decode {
        push_tag(&mut tags, "decode");
    }
    if let Some(s) = status {
        let mut t = String::new();
        t.append("status=");
        t.append(s);
        let ghost before = tags.deep_view();
        tags.push(t);
        assert(tags.deep_view() =~= before.push("status="@ + s@));
    }
    tags
}

/// A transport failure's diagnostic text: the underlying message, the
/// failure categories in parentheses, and the cause chain.
pub open spec fn transport_error_spec(
    details: Seq<char>,
    tags: Seq<Seq<char>>,
    causes: Seq<Seq<char>>,
) -> Seq<char> {
    let with_tags = if tags.len() == 0 {
        details
    } else {
        details + " ("@ + crate::text::join_seq(tags, ", "@) + ")"@
    };
    if causes.len() == 0 {
        with_tags
    } else {
        with_tags + "; causes: "@ + crate::text::join_seq(causes, " | "@)
    }
}

/// Assembles a transport failure's diagnostic line from its message, its
/// category tags and its cause chain, as the tooltip shows it.
pub fn format_transport_error(details: &str, tags: &Vec<String>, causes: &Vec<String>) -> (r:
    String)
    ensures
        r@ == transport_error_spec(details@, tags.deep_view(), causes.deep_view()),
{
    let mut out = String::new();
    out.append(details);
    if tags.len() > 0 {
        out.append(" (");
        let joined = crate::text::join_with_str(tags, ", ");
        out.append(joined.as_str());
        out.append(")");
    }
    if causes.len() > 0 {
        out.append("; causes: ");
        let joined = crate::text::join_with_str(causes, " | ");
        out.append(joined.as_str());
    }
    assert(out@ =~= transport_error_spec(details@, tags.deep_view(), causes.deep_view()));
    out
}

/// The title shown while the last fetch cycle failed: the previous title
/// behind an error marker, or the bare marker when there is none.
pub open spec fn error_title_spec(base: Seq<char>) -> Seq<char> {
    if trimmed(base).len() == 0 {
        "🔴"@
    } else {
        "🔴 "@ + trimmed(base)
    }
}

/// Marks a title as failing.
pub fn error_title(base: &str) -> (r: String)
    ensures
        r@ == error_title_spec(base@),
{
    let t = crate::text::trim_str(base);
    if t.unicode_len() == 0 {
        let mut out = String::new();
        out.append("🔴");
        assert(out@ =~= "🔴"@);
        out
    } else {
        let mut out = String::new();
        out.append("🔴 ");
        out.append(t);
        assert(out@ =~= "🔴 "@ + trimmed(base@));
        out
    }
}

} // verus!
