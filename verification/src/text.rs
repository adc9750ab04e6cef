//! Character-level text utilities: trimming, splitting on a separator,
//! joining, and prefix tests, each with a specification over `Seq<char>`
//! and a verified executable counterpart.
use vstd::prelude::*;

verus! {

/// The whitespace characters that trimming removes.
pub open spec fn is_space_char(c: char) -> bool {
    c == ' ' || c == '\t' || c == '\n' || c == '\r' || c == '\u{b}' || c == '\u{c}'
}

/// `s` without its leading whitespace.
pub open spec fn trim_start_spec(s: Seq<char>) -> Seq<char>
    decreases s.len(),
{
    if s.len() > 0 && is_space_char(s[0]) {
        trim_start_spec(s.drop_first())
    } else {
        s
    }
}

/// `s` without its trailing whitespace.
pub open spec fn trim_end_spec(s: Seq<char>) -> Seq<char>
    decreases s.len(),
{
    if s.len() > 0 && is_space_char(s[s.len() - 1]) {
        trim_end_spec(s.drop_last())
    } else {
        s
    }
}

/// `s` without leading and trailing whitespace.
pub open spec fn trimmed(s: Seq<char>) -> Seq<char> {
    trim_end_spec(trim_start_spec(s))
}

pub fn is_space(c: char) -> (r: bool)
    ensures
        r == is_space_char(c),
{
    c == ' ' || c == '\t' || c == '\n' || c == '\r' || c == '\u{b}' || c == '\u{c}'
}

proof fn lemma_trim_start_at(s: Seq<char>, i: int)
    requires
        0 <= i <= s.len(),
        forall|k: int| 0 <= k < i ==> is_space_char(s[k]),
        i < s.len() ==> !is_space_char(s[i]),
    ensures
        trim_start_spec(s) =~= s.subrange(i, s.len() as int),
    decreases i,
{
    if i == 0 {
        assert(s.subrange(0, s.len() as int) =~= s);
    } else {
        lemma_trim_start_at(s.drop_first(), i - 1);
        assert(s.drop_first().subrange(i - 1, s.drop_first().len() as int) =~= s.subrange(
            i,
            s.len() as int,
        ));
    }
}

proof fn lemma_trim_end_at(s: Seq<char>, j: int)
    requires
        0 <= j <= s.len(),
        forall|k: int| j <= k < s.len() ==> is_space_char(s[k]),
        j > 0 ==> !is_space_char(s[j - 1]),
    ensures
        trim_end_spec(s) =~= s.subrange(0, j),
    decreases s.len() - j,
{
    if j == s.len() {
        assert(s.subrange(0, s.len() as int) =~= s);
    } else {
        lemma_trim_end_at(s.drop_last(), j);
        assert(s.drop_last().subrange(0, j) =~= s.subrange(0, j));
    }
}

/// Trims `s` on both sides; the result is `trimmed(s@)`.
pub fn trim_str(s: &str) -> (r: &str)
    ensures
        r@ == trimmed(s@),
{
    let len = s.unicode_len();
    let mut i: usize = 0;
    while i < len && is_space(s.get_char(i))
        invariant
            0 <= i <= len,
            len == s@.len(),
            forall|k: int| 0 <= k < i ==> is_space_char(s@[k]),
        decreases len - i,
    {
        i = i + 1;
    }
    let mut j: usize = len;
    while j > i && is_space(s.get_char(j - 1))
        invariant
            i <= j <= len,
            len == s@.len(),
            i < s@.len() ==> !is_space_char(s@[i as int]),
            forall|k: int| j <= k < len ==> is_space_char(s@[k]),
        decreases j,
    {
        j = j - 1;
    }
    let r = s.substring_char(i, j);
    proof {
        lemma_trim_start_at(s@, i as int);
        let t = s@.subrange(i as int, s@.len() as int);
        lemma_trim_end_at(t, j - i);
        assert(t.subrange(0, j - i) =~= s@.subrange(i as int, j as int));
    }
    r
}

/// A string fixed by trimming: empty, or without whitespace at either end.
pub open spec fn is_trim_fixed(s: Seq<char>) -> bool {
    s.len() > 0 ==> (!is_space_char(s[0]) && !is_space_char(s[s.len() - 1]))
}

pub proof fn lemma_trim_fixed(s: Seq<char>)
    requires
        is_trim_fixed(s),
    ensures
        trimmed(s) == s,
{
}

proof fn lemma_trim_start_props(s: Seq<char>)
    ensures
        trim_start_spec(s).len() > 0 ==> !is_space_char(trim_start_spec(s)[0]),
        trim_start_spec(s).len() > 0 ==> trim_start_spec(s).last() == s.last(),
        trim_start_spec(s).len() <= s.len(),
    decreases s.len(),
{
    if s.len() > 0 && is_space_char(s[0]) {
        lemma_trim_start_props(s.drop_first());
    }
}

proof fn lemma_trim_end_props(s: Seq<char>)
    ensures
        trim_end_spec(s).len() > 0 ==> !is_space_char(trim_end_spec(s).last()),
        trim_end_spec(s).len() > 0 ==> trim_end_spec(s)[0] == s[0],
        trim_end_spec(s).len() <= s.len(),
    decreases s.len(),
{
    if s.len() > 0 && is_space_char(s[s.len() - 1]) {
        lemma_trim_end_props(s.drop_last());
    }
}

/// The result of trimming is itself fixed by trimming.
pub proof fn lemma_trimmed_fixed(s: Seq<char>)
    ensures
        is_trim_fixed(trimmed(s)),
        trimmed(trimmed(s)) == trimmed(s),
{
    lemma_trim_start_props(s);
    lemma_trim_end_props(trim_start_spec(s));
    lemma_trim_fixed(trimmed(s));
}

/// The pieces of `s` between occurrences of the separator `c`.
/// Splitting an empty string yields one empty piece.
pub open spec fn split_char(s: Seq<char>, c: char) -> Seq<Seq<char>>
    decreases s.len(),
{
    if s.len() == 0 {
        seq![Seq::<char>::empty()]
    } else if s[0] == c {
        seq![Seq::<char>::empty()] + split_char(s.drop_first(), c)
    } else {
        let rest = split_char(s.drop_first(), c);
        seq![seq![s[0]] + rest[0]] + rest.drop_first()
    }
}

pub proof fn lemma_split_len(s: Seq<char>, c: char)
    ensures
        split_char(s, c).len() >= 1,
    decreases s.len(),
{
    if s.len() > 0 {
        lemma_split_len(s.drop_first(), c);
    }
}

/// A string free of the separator splits into itself alone.
pub proof fn lemma_split_no_sep(s: Seq<char>, c: char)
    requires
        forall|k: int| 0 <= k < s.len() ==> s[k] != c,
    ensures
        split_char(s, c) =~= seq![s],
    decreases s.len(),
{
    if s.len() > 0 {
        lemma_split_no_sep(s.drop_first(), c);
        assert(split_char(s, c) =~= seq![seq![s[0]] + s.drop_first()]);
        assert(seq![s[0]] + s.drop_first() =~= s);
    } else {
        assert(s =~= Seq::<char>::empty());
    }
}

/// Splitting at the first occurrence of the separator.
pub proof fn lemma_split_at_first(s: Seq<char>, c: char, i: int)
    requires
        0 <= i < s.len(),
        s[i] == c,
        forall|k: int| 0 <= k < i ==> s[k] != c,
    ensures
        split_char(s, c) =~= seq![s.subrange(0, i)] + split_char(
            s.subrange(i + 1, s.len() as int),
            c,
        ),
    decreases i,
{
    if i == 0 {
        assert(s.subrange(0, 0) =~= Seq::<char>::empty());
        assert(s.subrange(1, s.len() as int) =~= s.drop_first());
    } else {
        lemma_split_at_first(s.drop_first(), c, i - 1);
        let d = s.drop_first();
        assert(d.subrange(0, i - 1) =~= s.subrange(1, i));
        assert(d.subrange(i, d.len() as int) =~= s.subrange(i + 1, s.len() as int));
        lemma_split_len(d.subrange(i, d.len() as int), c);
        assert(seq![s[0]] + d.subrange(0, i - 1) =~= s.subrange(0, i));
    }
}

/// The pieces joined back with the separator between them.
pub open spec fn join_char(parts: Seq<Seq<char>>, c: char) -> Seq<char>
    decreases parts.len(),
{
    if parts.len() == 0 {
        Seq::<char>::empty()
    } else if parts.len() == 1 {
        parts[0]
    } else {
        parts[0] + seq![c] + join_char(parts.drop_first(), c)
    }
}

pub proof fn lemma_join_push(parts: Seq<Seq<char>>, x: Seq<char>, c: char)
    ensures
        parts.len() == 0 ==> join_char(parts.push(x), c) =~= x,
        parts.len() > 0 ==> join_char(parts.push(x), c) =~= join_char(parts, c) + seq![c] + x,
    decreases parts.len(),
{
    if parts.len() == 0 {
        assert(parts.push(x)[0] =~= x);
    } else if parts.len() == 1 {
        assert(parts.push(x).drop_first() =~= seq![x]);
        assert(join_char(seq![x], c) == x);
        assert(parts.push(x)[0] == parts[0]);
        assert(join_char(parts.push(x), c) =~= parts[0] + seq![c] + x);
    } else {
        lemma_join_push(parts.drop_first(), x, c);
        assert(parts.push(x).drop_first() =~= parts.drop_first().push(x));
    }
}

/// Joining pieces that are free of the separator, then splitting,
/// recovers the pieces.
pub proof fn lemma_split_join(parts: Seq<Seq<char>>, c: char)
    requires
        parts.len() >= 1,
        forall|p: int, k: int|
            0 <= p < parts.len() && 0 <= k < parts[p].len() ==> #[trigger] parts[p][k] != c,
    ensures
        split_char(join_char(parts, c), c) =~= parts,
    decreases parts.len(),
{
    if parts.len() == 1 {
        lemma_split_no_sep(parts[0], c);
    } else {
        lemma_split_join(parts.drop_first(), c);
        let j = join_char(parts, c);
        let i = parts[0].len() as int;
        assert(forall|k: int| 0 <= k < i ==> j[k] == parts[0][k]);
        assert(j[i] == c);
        lemma_split_at_first(j, c, i);
        assert(j.subrange(0, i) =~= parts[0]);
        assert(j.subrange(i + 1, j.len() as int) =~= join_char(parts.drop_first(), c));
    }
}

/// Trims every piece and drops the empty ones.
pub open spec fn clean_tokens(parts: Seq<Seq<char>>) -> Seq<Seq<char>>
    decreases parts.len(),
{
    if parts.len() == 0 {
        Seq::<Seq<char>>::empty()
    } else {
        let rest = clean_tokens(parts.drop_last());
        let t = trimmed(parts.last());
        if t.len() == 0 {
            rest
        } else {
            rest.push(t)
        }
    }
}

pub proof fn lemma_clean_concat(a: Seq<Seq<char>>, b: Seq<Seq<char>>)
    ensures
        clean_tokens(a + b) =~= clean_tokens(a) + clean_tokens(b),
    decreases b.len(),
{
    if b.len() == 0 {
        assert(a + b =~= a);
        assert(clean_tokens(b) =~= Seq::<Seq<char>>::empty());
    } else {
        lemma_clean_concat(a, b.drop_last());
        assert((a + b).drop_last() =~= a + b.drop_last());
        assert((a + b).last() == b.last());
    }
}

pub proof fn lemma_trim_start_no_char(s: Seq<char>, c: char)
    requires
        forall|k: int| 0 <= k < s.len() ==> s[k] != c,
    ensures
        forall|k: int| 0 <= k < trim_start_spec(s).len() ==> trim_start_spec(s)[k] != c,
    decreases s.len(),
{
    if s.len() > 0 && is_space_char(s[0]) {
        let d = s.drop_first();
        assert(forall|k: int| 0 <= k < d.len() ==> d[k] == s[k + 1]);
        lemma_trim_start_no_char(d, c);
        assert(trim_start_spec(s) == trim_start_spec(d));
        assert forall|k: int| 0 <= k < trim_start_spec(s).len() implies trim_start_spec(s)[k]
            != c by {
            assert(trim_start_spec(s)[k] == trim_start_spec(d)[k]);
        }
    }
}

pub proof fn lemma_trim_end_no_char(s: Seq<char>, c: char)
    requires
        forall|k: int| 0 <= k < s.len() ==> s[k] != c,
    ensures
        forall|k: int| 0 <= k < trim_end_spec(s).len() ==> trim_end_spec(s)[k] != c,
    decreases s.len(),
{
    if s.len() > 0 && is_space_char(s[s.len() - 1]) {
        let d = s.drop_last();
        assert(forall|k: int| 0 <= k < d.len() ==> d[k] == s[k]);
        lemma_trim_end_no_char(d, c);
        assert(trim_end_spec(s) == trim_end_spec(d));
        assert forall|k: int| 0 <= k < trim_end_spec(s).len() implies trim_end_spec(s)[k] != c by {
            assert(trim_end_spec(s)[k] == trim_end_spec(d)[k]);
        }
    }
}

/// Trimming never introduces a character.
pub proof fn lemma_trimmed_no_char(s: Seq<char>, c: char)
    requires
        forall|k: int| 0 <= k < s.len() ==> s[k] != c,
    ensures
        forall|k: int| 0 <= k < trimmed(s).len() ==> trimmed(s)[k] != c,
{
    lemma_trim_start_no_char(s, c);
    lemma_trim_end_no_char(trim_start_spec(s), c);
}

/// Every piece of a split is free of the separator.
pub proof fn lemma_split_part_no_sep(s: Seq<char>, c: char, p: int, k: int)
    requires
        0 <= p < split_char(s, c).len(),
        0 <= k < split_char(s, c)[p].len(),
    ensures
        split_char(s, c)[p][k] != c,
    decreases s.len(),
{
    if s.len() == 0 {
        assert(split_char(s, c)[0].len() == 0);
    } else if s[0] == c {
        let rest = split_char(s.drop_first(), c);
        assert(split_char(s, c) =~= seq![Seq::<char>::empty()] + rest);
        if p > 0 {
            lemma_split_part_no_sep(s.drop_first(), c, p - 1, k);
            assert(split_char(s, c)[p] == rest[p - 1]);
        }
    } else {
        let rest = split_char(s.drop_first(), c);
        lemma_split_len(s.drop_first(), c);
        if p == 0 {
            assert(split_char(s, c)[0] == seq![s[0]] + rest[0]);
            if k > 0 {
                lemma_split_part_no_sep(s.drop_first(), c, 0, k - 1);
                assert((seq![s[0]] + rest[0])[k] == rest[0][k - 1]);
            }
        } else {
            lemma_split_part_no_sep(s.drop_first(), c, p, k);
            assert(split_char(s, c)[p] == rest.drop_first()[p - 1]);
            assert(rest.drop_first()[p - 1] == rest[p]);
        }
    }
}

/// Each cleaned piece is non-empty, fixed by trimming, and the trimming
/// of one of the given pieces.
pub proof fn lemma_clean_elem(parts: Seq<Seq<char>>, j: int)
    requires
        0 <= j < clean_tokens(parts).len(),
    ensures
        is_trim_fixed(clean_tokens(parts)[j]),
        clean_tokens(parts)[j].len() > 0,
        exists|p: int|
            0 <= p < parts.len() && clean_tokens(parts)[j] == trimmed(#[trigger] parts[p]),
    decreases parts.len(),
{
    let rest = clean_tokens(parts.drop_last());
    let t = trimmed(parts.last());
    if t.len() == 0 || j < rest.len() {
        lemma_clean_elem(parts.drop_last(), j);
        let p0 = choose|p: int|
            0 <= p < parts.drop_last().len() && rest[j] == trimmed(#[trigger] parts.drop_last()[p]);
        assert(parts.drop_last()[p0] == parts[p0]);
        assert(clean_tokens(parts)[j] == trimmed(parts[p0]));
    } else {
        lemma_trimmed_fixed(parts.last());
        assert(clean_tokens(parts)[j] == t);
        assert(parts.last() == parts[parts.len() - 1]);
        assert(clean_tokens(parts)[j] == trimmed(parts[parts.len() - 1]));
    }
}

/// Cleaning pieces that are already non-empty and fixed by trimming
/// changes nothing.
pub proof fn lemma_clean_fixed(parts: Seq<Seq<char>>)
    requires
        forall|j: int|
            0 <= j < parts.len() ==> is_trim_fixed(#[trigger] parts[j]) && parts[j].len() > 0,
    ensures
        clean_tokens(parts) =~= parts,
    decreases parts.len(),
{
    if parts.len() > 0 {
        let d = parts.drop_last();
        assert(forall|j: int| 0 <= j < d.len() ==> d[j] == parts[j]);
        lemma_clean_fixed(d);
        lemma_trim_fixed(parts.last());
    }
}

pub proof fn lemma_clean_single(p: Seq<char>)
    ensures
        clean_tokens(seq![p]) =~= if trimmed(p).len() == 0 {
            Seq::<Seq<char>>::empty()
        } else {
            seq![trimmed(p)]
        },
{
    assert(seq![p].drop_last() =~= Seq::<Seq<char>>::empty());
    assert(clean_tokens(Seq::<Seq<char>>::empty()) =~= Seq::<Seq<char>>::empty());
    assert(seq![p].last() == p);
    if trimmed(p).len() > 0 {
        assert(Seq::<Seq<char>>::empty().push(trimmed(p)) =~= seq![trimmed(p)]);
    }
}

/// Joins the pieces with `sep` between each pair.
#[verifier::loop_isolation(false)]
pub fn join_with_char(lines: &Vec<String>, sep: char) -> (r: String)
    ensures
        r@ == join_char(lines.deep_view(), sep),
{
    let mut out = String::new();
    let mut i: usize = 0;
    while i < lines.len()
        invariant
            0 <= i <= lines@.len(),
            out@ == join_char(lines.deep_view().subrange(0, i as int), sep),
        decreases lines@.len() - i,
    {
        let ghost prefix = lines.deep_view().subrange(0, i as int);
        if i > 0 {
            let s = char_to_string(sep);
            out.append(s.as_str());
            assert(out@ =~= join_char(prefix, sep) + seq![sep]);
        }
        out.append(lines[i].as_str());
        proof {
            lemma_join_push(prefix, lines.deep_view()[i as int], sep);
            assert(prefix.push(lines.deep_view()[i as int]) =~= lines.deep_view().subrange(
                0,
                i + 1,
            ));
        }
        i = i + 1;
    }
    assert(lines.deep_view().subrange(0, lines@.len() as int) =~= lines.deep_view());
    out
}

/// The pieces joined with a separator string between them.
pub open spec fn join_seq(parts: Seq<Seq<char>>, sep: Seq<char>) -> Seq<char>
    decreases parts.len(),
{
    if parts.len() == 0 {
        Seq::<char>::empty()
    } else if parts.len() == 1 {
        parts[0]
    } else {
        parts[0] + sep + join_seq(parts.drop_first(), sep)
    }
}

pub proof fn lemma_join_seq_push(parts: Seq<Seq<char>>, x: Seq<char>, sep: Seq<char>)
    ensures
        parts.len() == 0 ==> join_seq(parts.push(x), sep) =~= x,
        parts.len() > 0 ==> join_seq(parts.push(x), sep) =~= join_seq(parts, sep) + sep + x,
    decreases parts.len(),
{
    if parts.len() == 0 {
        assert(parts.push(x)[0] =~= x);
    } else if parts.len() == 1 {
        assert(parts.push(x).drop_first() =~= seq![x]);
        assert(join_seq(seq![x], sep) == x);
        assert(parts.push(x)[0] == parts[0]);
        assert(join_seq(parts.push(x), sep) =~= parts[0] + sep + x);
    } else {
        lemma_join_seq_push(parts.drop_first(), x, sep);
        assert(parts.push(x).drop_first() =~= parts.drop_first().push(x));
    }
}

/// Joins the pieces with a separator string between each pair.
#[verifier::loop_isolation(false)]
pub fn join_with_str(lines: &Vec<String>, sep: &str) -> (r: String)
    ensures
        r@ == join_seq(lines.deep_view(), sep@),
{
    let mut out = String::new();
    let mut i: usize = 0;
    while i < lines.len()
        invariant
            0 <= i <= lines@.len(),
            out@ == join_seq(lines.deep_view().subrange(0, i as int), sep@),
        decreases lines@.len() - i,
    {
        let ghost prefix = lines.deep_view().subrange(0, i as int);
        if i > 0 {
            out.append(sep);
        }
        out.append(lines[i].as_str());
        proof {
            lemma_join_seq_push(prefix, lines.deep_view()[i as int], sep@);
            assert(prefix.push(lines.deep_view()[i as int]) =~= lines.deep_view().subrange(
                0,
                i + 1,
            ));
        }
        i = i + 1;
    }
    assert(lines.deep_view().subrange(0, lines@.len() as int) =~= lines.deep_view());
    out
}

/// Joins the lines with a newline between each pair.
pub fn join_with_newlines(lines: &Vec<String>) -> (r: String)
    ensures
        r@ == join_char(lines.deep_view(), '\n'),
{
    join_with_char(lines, '\n')
}

/// Splits `s` at every newline, keeping the raw pieces.
#[verifier::loop_isolation(false)]
pub fn split_str_lines(s: &str) -> (r: Vec<String>)
    ensures
        r.deep_view() == split_char(s@, '\n'),
{
    let len = s.unicode_len();
    let mut out: Vec<String> = Vec::new();
    let mut start: usize = 0;
    let mut i: usize = 0;
    proof {
        assert(s@.subrange(0, len as int) =~= s@);
        assert(out.deep_view() =~= Seq::<Seq<char>>::empty());
        assert(out.deep_view() + split_char(s@, '\n') =~= split_char(s@, '\n'));
    }
    while i < len
        invariant
            0 <= start <= i <= len,
            len == s@.len(),
            forall|k: int| start <= k < i ==> s@[k] != '\n',
            split_char(s@, '\n') == out.deep_view() + split_char(
                s@.subrange(start as int, len as int),
                '\n',
            ),
        decreases len - i,
    {
        if s.get_char(i) == '\n' {
            let seg = s.substring_char(start, i);
            let ghost suffix = s@.subrange(start as int, len as int);
            proof {
                lemma_split_at_first(suffix, '\n', i - start);
                assert(suffix.subrange(0, i - start) =~= seg@);
                assert(suffix.subrange(i - start + 1, suffix.len() as int) =~= s@.subrange(
                    i + 1,
                    len as int,
                ));
            }
            let ghost before = out.deep_view();
            out.push(seg.to_owned());
            proof {
                assert(out.deep_view() =~= before.push(seg@));
                assert(before.push(seg@) + split_char(s@.subrange(i + 1, len as int), '\n') =~= before
                    + (seq![seg@] + split_char(s@.subrange(i + 1, len as int), '\n')));
            }
            start = i + 1;
        }
        i = i + 1;
    }
    let seg = s.substring_char(start, len);
    proof {
        lemma_split_no_sep(seg@, '\n');
    }
    let ghost before = out.deep_view();
    out.push(seg.to_owned());
    proof {
        assert(out.deep_view() =~= before.push(seg@));
        assert(before.push(seg@) =~= before + seq![seg@]);
    }
    out
}

/// The one-character string of `c`.
/// Relies on char::to_string.
#[verifier::external_body]
pub fn char_to_string(c: char) -> (r: String)
    ensures
        r@ == seq![c],
{
    c.to_string()
}

/// An ASCII byte string as text, character for character.
/// Relies on String::from_utf8: ASCII bytes are valid UTF-8 and decode to
/// the code points of the bytes themselves.
#[verifier::external_body]
pub fn ascii_to_string(v: Vec<u8>) -> (r: String)
    requires
        forall|i: int| 0 <= i < v@.len() ==> v@[i] < 128,
    ensures
        r@ == v@.map_values(|b: u8| b as char),
{
    String::from_utf8(v).unwrap_or_default()
}

/// Does `s` begin with `p`?
pub open spec fn has_prefix(s: Seq<char>, p: Seq<char>) -> bool {
    s.len() >= p.len() && s.subrange(0, p.len() as int) == p
}

pub fn str_has_prefix(s: &str, p: &str) -> (r: bool)
    ensures
        r == has_prefix(s@, p@),
{
    let sn = s.unicode_len();
    let pn = p.unicode_len();
    if sn < pn {
        assert(!has_prefix(s@, p@));
        return false;
    }
    let mut i: usize = 0;
    while i < pn
        invariant
            0 <= i <= pn <= sn,
            sn == s@.len(),
            pn == p@.len(),
            forall|k: int| 0 <= k < i ==> s@[k] == p@[k],
        decreases pn - i,
    {
        if s.get_char(i) != p.get_char(i) {
            assert(s@.subrange(0, p@.len() as int)[i as int] != p@[i as int]);
            return false;
        }
        i = i + 1;
    }
    assert(s@.subrange(0, p@.len() as int) =~= p@);
    true
}

/// The index of the first occurrence of `c` in `s`, or -1 when absent.
pub open spec fn find_char(s: Seq<char>, c: char) -> int
    decreases s.len(),
{
    if s.len() == 0 {
        -1
    } else if s[0] == c {
        0
    } else {
        let r = find_char(s.drop_first(), c);
        if r < 0 {
            -1
        } else {
            r + 1
        }
    }
}

pub proof fn lemma_find_char(s: Seq<char>, c: char)
    ensures
        find_char(s, c) < 0 ==> forall|k: int| 0 <= k < s.len() ==> s[k] != c,
        find_char(s, c) >= 0 ==> find_char(s, c) < s.len() && s[find_char(s, c)] == c && forall|
            k: int,
        | 0 <= k < find_char(s, c) ==> s[k] != c,
    decreases s.len(),
{
    if s.len() > 0 && s[0] != c {
        let d = s.drop_first();
        lemma_find_char(d, c);
        assert(forall|k: int| 1 <= k < s.len() ==> s[k] == d[k - 1]);
    }
}

/// Finds the first occurrence of `c` in `s`.
pub fn str_find_char(s: &str, c: char) -> (r: Option<usize>)
    ensures
        match r {
            Some(i) => find_char(s@, c) == i,
            None => find_char(s@, c) < 0,
        },
{
    let len = s.unicode_len();
    let mut i: usize = 0;
    while i < len
        invariant
            0 <= i <= len,
            len == s@.len(),
            forall|k: int| 0 <= k < i ==> s@[k] != c,
        decreases len - i,
    {
        if s.get_char(i) == c {
            proof {
                lemma_find_char(s@, c);
            }
            return Some(i);
        }
        i = i + 1;
    }
    proof {
        lemma_find_char(s@, c);
    }
    None
}

} // verus!
