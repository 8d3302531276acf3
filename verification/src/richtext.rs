//! Reading a piece of markup as a list of styled segments.
//!
//! Text outside tags is plain. `<br>` is a line break; `<b>`/`<strong>`,
//! `<i>`/`<em>` and `<code>`/`<pre>` style what stands up to their closing
//! tag; `<a ...>` makes a link with the address of its `href`. Any other tag
//! is passed over. Tag names are compared in lower case.
use vstd::prelude::*;
use vstd::string::*;
use crate::models::{strip_html_chars, strip_html_spec};
use crate::text::{
    chars_eq, chars_of, decode_entities, decode_entities_spec, lemma_run_len_bounds, matches_at,
    run_end, run_len, slice_of, string_of, Stop,
};

verus! {

/// A run of text with one style.
#[derive(Debug, Clone, PartialEq)]
pub enum RichSegment {
    Plain(String),
    Bold(String),
    Italic(String),
    Code(String),
    Link { text: String, url: String },
    Newline,
}

/// A segment by the characters it holds.
pub enum Segment {
    Plain(Seq<char>),
    Bold(Seq<char>),
    Italic(Seq<char>),
    Code(Seq<char>),
    Link { text: Seq<char>, url: Seq<char> },
    Newline,
}

impl RichSegment {
    /// The segment by the characters it holds.
    pub open spec fn shape(&self) -> Segment {
        match self {
            RichSegment::Plain(t) => Segment::Plain(t@),
            RichSegment::Bold(t) => Segment::Bold(t@),
            RichSegment::Italic(t) => Segment::Italic(t@),
            RichSegment::Code(t) => Segment::Code(t@),
            RichSegment::Link { text, url } => Segment::Link { text: text@, url: url@ },
            RichSegment::Newline => Segment::Newline,
        }
    }
}

/// The lower-case form of a text, as `str::to_lowercase` gives it.
pub uninterp spec fn lowercase_spec(s: Seq<char>) -> Seq<char>;

/// Turns a text into lower case through `str::to_lowercase`, which follows
/// the Unicode rules and depends on the text alone.
#[verifier::external_body]
fn lowercase(s: &str) -> (r: String)
    ensures
        r@ == lowercase_spec(s@),
{
    s.to_lowercase()
}

/// The style that a tag opens.
pub enum TagKind {
    Break,
    Bold,
    Italic,
    Code,
    Link,
    Other,
}

/// The style that a tag with the given lower-case content opens.
pub open spec fn tag_kind(low: Seq<char>) -> TagKind {
    if low == "br"@ || low == "br/"@ || low == "br /"@ {
        TagKind::Break
    } else if low == "b"@ || low == "strong"@ {
        TagKind::Bold
    } else if low == "i"@ || low == "em"@ {
        TagKind::Italic
    } else if low == "code"@ || low == "pre"@ {
        TagKind::Code
    } else if low.len() >= 2 && low[0] == 'a' && low[1] == ' ' {
        TagKind::Link
    } else {
        TagKind::Other
    }
}

/// The content of the tag that opens before position `from`: what stands up
/// to the next `>`, or to the end.
pub open spec fn tag_at(s: Seq<char>, from: int) -> Seq<char> {
    let rest = s.skip(from);
    rest.take(tag_len(rest))
}

/// The length of the content of a tag at the start of `rest`.
pub open spec fn tag_len(rest: Seq<char>) -> int {
    let n = run_len(rest, Stop::At('>'));
    if 0 <= n <= rest.len() {
        n
    } else {
        0
    }
}

/// The position behind the tag that opens before position `from`.
pub open spec fn after_tag(s: Seq<char>, from: int) -> int {
    let rest = s.skip(from);
    if tag_len(rest) < rest.len() {
        from + tag_len(rest) + 1
    } else {
        from + tag_len(rest)
    }
}

/// The text from `from` up to the closing tag `close`, and the position
/// behind that tag. Other tags on the way are kept as they stand. Without the
/// closing tag, the text runs to the end.
pub open spec fn inner_text(s: Seq<char>, from: int, close: Seq<char>) -> (Seq<char>, int)
    decreases s.len() - from,
{
    if from < 0 || from >= s.len() {
        (Seq::<char>::empty(), s.len() as int)
    } else if s[from] == '<' {
        let tag = tag_at(s, from + 1);
        let next = after_tag(s, from + 1);
        if lowercase_spec(tag) == close {
            (Seq::<char>::empty(), next)
        } else {
            let rest = inner_text(s, next, close);
            (seq!['<'] + tag + seq!['>'] + rest.0, rest.1)
        }
    } else {
        let rest = inner_text(s, from + 1, close);
        (seq![s[from]] + rest.0, rest.1)
    }
}

/// The first position at which `pat` stands in `s`.
pub open spec fn find_sub(s: Seq<char>, pat: Seq<char>) -> Option<int>
    decreases s.len(),
{
    if s.len() < pat.len() {
        None
    } else if s.take(pat.len() as int) == pat {
        Some(0)
    } else if s.len() == 0 {
        None
    } else {
        match find_sub(s.skip(1), pat) {
            Some(i) => Some(i + 1),
            None => None,
        }
    }
}

/// The value of an attribute opened by `open` (the name, `=` and a quote) and
/// closed by the quote `quote`, if the tag holds one.
pub open spec fn quoted_value(tag: Seq<char>, open: Seq<char>, quote: char) -> Option<Seq<char>> {
    match find_sub(tag, open) {
        Some(p) => {
            let rest = tag.skip(p + open.len());
            let n = run_len(rest, Stop::At(quote));
            if 0 <= n < rest.len() {
                Some(rest.take(n))
            } else {
                None
            }
        },
        None => None,
    }
}

/// The address of a link tag: the value of its `href` in double quotes, else
/// in single quotes, else nothing.
pub open spec fn href_of(tag: Seq<char>) -> Seq<char> {
    match quoted_value(tag, "href=\""@, '"') {
        Some(v) => v,
        None => match quoted_value(tag, "href='"@, '\'') {
            Some(v) => v,
            None => Seq::<char>::empty(),
        },
    }
}

/// The plain segment that pending text makes; none when nothing is pending.
pub open spec fn flush(current: Seq<char>) -> Seq<Segment> {
    if current.len() > 0 {
        seq![Segment::Plain(decode_entities_spec(current))]
    } else {
        Seq::<Segment>::empty()
    }
}

/// The text of a styled run: its markup removed and its entities decoded.
pub open spec fn styled_text(inner: Seq<char>) -> Seq<char> {
    decode_entities_spec(strip_html_spec(inner))
}

/// The segment that a styled run makes; none when the run is empty.
pub open spec fn styled(kind: TagKind, tag: Seq<char>, inner: Seq<char>) -> Seq<Segment> {
    match kind {
        TagKind::Bold => if inner.len() > 0 {
            seq![Segment::Bold(styled_text(inner))]
        } else {
            Seq::<Segment>::empty()
        },
        TagKind::Italic => if inner.len() > 0 {
            seq![Segment::Italic(styled_text(inner))]
        } else {
            Seq::<Segment>::empty()
        },
        TagKind::Code => if inner.len() > 0 {
            seq![Segment::Code(styled_text(inner))]
        } else {
            Seq::<Segment>::empty()
        },
        TagKind::Link => if styled_text(inner).len() > 0 {
            seq![Segment::Link { text: styled_text(inner), url: href_of(tag) }]
        } else {
            Seq::<Segment>::empty()
        },
        _ => Seq::<Segment>::empty(),
    }
}

/// The closing tag of a styled run.
pub open spec fn closing(kind: TagKind, low: Seq<char>) -> Seq<char> {
    match kind {
        TagKind::Link => "/a"@,
        _ => seq!['/'] + low,
    }
}

/// The segments of the markup from `pos` on, with the plain text `current`
/// pending.
pub open spec fn segments_from(s: Seq<char>, pos: int, current: Seq<char>) -> Seq<Segment>
    decreases s.len() - pos,
{
    if pos < 0 || pos >= s.len() {
        flush(current)
    } else if s[pos] == '<' {
        let tag = tag_at(s, pos + 1);
        let next = after_tag(s, pos + 1);
        let low = lowercase_spec(tag);
        match tag_kind(low) {
            TagKind::Other => if next > pos {
                segments_from(s, next, current)
            } else {
                flush(current)
            },
            TagKind::Break => if next > pos {
                flush(current) + seq![Segment::Newline] + segments_from(
                    s,
                    next,
                    Seq::<char>::empty(),
                )
            } else {
                flush(current)
            },
            kind => {
                let run = inner_text(s, next, closing(kind, low));
                if pos < run.1 <= s.len() {
                    flush(current) + styled(kind, tag, run.0) + segments_from(
                        s,
                        run.1,
                        Seq::<char>::empty(),
                    )
                } else {
                    flush(current)
                }
            },
        }
    } else {
        segments_from(s, pos + 1, current.push(s[pos]))
    }
}

/// The segments of a piece of markup. Markup without any segment gives one
/// empty plain segment.
pub open spec fn rich_text_spec(s: Seq<char>) -> Seq<Segment> {
    let r = segments_from(s, 0, Seq::<char>::empty());
    if r.len() == 0 {
        seq![Segment::Plain(Seq::<char>::empty())]
    } else {
        r
    }
}

/// The shapes of a list of segments.
pub open spec fn shapes(v: Seq<RichSegment>) -> Seq<Segment> {
    Seq::new(v.len(), |i: int| v[i].shape())
}

/// A run of text ends at or behind its start, and inside the markup.
proof fn lemma_inner_text_bounds(s: Seq<char>, from: int, close: Seq<char>)
    requires
        0 <= from <= s.len(),
    ensures
        from <= inner_text(s, from, close).1 <= s.len(),
    decreases s.len() - from,
{
    if from < s.len() {
        if s[from] == '<' {
            lemma_run_len_bounds(s.skip(from + 1), Stop::At('>'));
            let next = after_tag(s, from + 1);
            if lowercase_spec(tag_at(s, from + 1)) != close {
                lemma_inner_text_bounds(s, next, close);
            }
        } else {
            lemma_inner_text_bounds(s, from + 1, close);
        }
    }
}

/// Reads the tag that opens before position `from`: its content and the
/// position behind it.
fn read_tag(v: &Vec<char>, from: usize) -> (r: (Vec<char>, usize))
    requires
        from <= v.len(),
    ensures
        r.0@ == tag_at(v@, from as int),
        r.1 == after_tag(v@, from as int),
        from <= r.1 <= v.len(),
{
    let end: usize = run_end(v, from, Stop::At('>'));
    let tag = slice_of(v, from, end);
    proof {
        let rest = v@.skip(from as int);
        assert(rest.take(end - from) =~= v@.subrange(from as int, end as int));
    }
    let next: usize = if end < v.len() {
        end + 1
    } else {
        end
    };
    (tag, next)
}

/// The lower-case form of a run of characters.
fn lower_chars(v: &Vec<char>) -> (r: Vec<char>)
    ensures
        r@ == lowercase_spec(v@),
{
    let s = string_of(v);
    let low = lowercase(s.as_str());
    chars_of(low.as_str())
}

fn is_text(v: &Vec<char>, t: &str) -> (r: bool)
    ensures
        r == (v@ == t@),
{
    let w = chars_of(t);
    chars_eq(v, &w)
}

fn kind_of(low: &Vec<char>) -> (r: TagKind)
    ensures
        r == tag_kind(low@),
{
    if is_text(low, "br") || is_text(low, "br/") || is_text(low, "br /") {
        TagKind::Break
    } else if is_text(low, "b") || is_text(low, "strong") {
        TagKind::Bold
    } else if is_text(low, "i") || is_text(low, "em") {
        TagKind::Italic
    } else if is_text(low, "code") || is_text(low, "pre") {
        TagKind::Code
    } else if low.len() >= 2 && low[0] == 'a' && low[1] == ' ' {
        TagKind::Link
    } else {
        TagKind::Other
    }
}

/// Collects the text from `from` up to the closing tag `close`.
fn collect_until_close(v: &Vec<char>, from: usize, close: &Vec<char>) -> (r: (Vec<char>, usize))
    requires
        from <= v.len(),
    ensures
        r.0@ == inner_text(v@, from as int, close@).0,
        r.1 == inner_text(v@, from as int, close@).1,
        from <= r.1 <= v.len(),
{
    let mut out: Vec<char> = Vec::new();
    let mut pos: usize = from;
    let mut done: bool = false;
    let ghost goal = inner_text(v@, from as int, close@);
    proof {
        lemma_inner_text_bounds(v@, from as int, close@);
    }
    while !done && pos < v.len()
        invariant
            from <= pos <= v.len(),
            goal == inner_text(v@, from as int, close@),
            from <= goal.1 <= v.len(),
            !done ==> out@ + inner_text(v@, pos as int, close@).0 == goal.0,
            !done ==> inner_text(v@, pos as int, close@).1 == goal.1,
            done ==> out@ == goal.0 && pos == goal.1,
        decreases
            (if done {
                0int
            } else {
                1
            }),
            v.len() - pos,
    {
        let ghost before = out@;
        let ghost here = inner_text(v@, pos as int, close@);
        if v[pos] == '<' {
            let (tag, next) = read_tag(v, pos + 1);
            let low = lower_chars(&tag);
            if chars_eq(&low, close) {
                pos = next;
                done = true;
                assert(before + Seq::<char>::empty() =~= before);
            } else {
                out.push('<');
                let mut t = tag;
                out.append(&mut t);
                out.push('>');
                assert(out@ + inner_text(v@, next as int, close@).0 =~= before + here.0);
                pos = next;
            }
        } else {
            out.push(v[pos]);
            assert(out@ + inner_text(v@, pos + 1, close@).0 =~= before + here.0);
            pos += 1;
        }
    }
    if !done {
        assert(out@ + Seq::<char>::empty() =~= out@);
    }
    (out, pos)
}

/// The first position at which `pat` stands in `v`.
fn find_in(v: &Vec<char>, pat: &Vec<char>) -> (r: Option<usize>)
    ensures
        match r {
            Some(i) => find_sub(v@, pat@) == Some(i as int) && i + pat.len() <= v.len(),
            None => find_sub(v@, pat@) is None,
        },
{
    let mut i: usize = 0;
    assert(v@.skip(0) =~= v@);
    if pat.len() == 0 {
        assert(v@.take(0) =~= pat@);
        return Some(0);
    }
    while i < v.len() && v.len() - i >= pat.len()
        invariant
            i <= v.len(),
            pat.len() > 0,
            find_sub(v@, pat@) == match find_sub(v@.skip(i as int), pat@) {
                Some(k) => Some(k + i),
                None => None,
            },
        decreases v.len() - i,
    {
        let ghost tail = v@.skip(i as int);
        assert(tail.take(pat.len() as int) =~= v@.subrange(i as int, i + pat.len()));
        if matches_at(v, i, pat) {
            return Some(i);
        }
        assert(tail.skip(1) =~= v@.skip(i + 1));
        i += 1;
    }
    None
}

fn quoted(tag: &Vec<char>, open: &str, quote: char) -> (r: Option<Vec<char>>)
    ensures
        match r {
            Some(t) => quoted_value(tag@, open@, quote) == Some(t@),
            None => quoted_value(tag@, open@, quote) is None,
        },
{
    let pat = chars_of(open);
    match find_in(tag, &pat) {
        Some(p) => {
            let start: usize = p + pat.len();
            let end: usize = run_end(tag, start, Stop::At(quote));
            if end < tag.len() {
                let r = slice_of(tag, start, end);
                assert(tag@.skip(start as int).take(end - start) =~= tag@.subrange(
                    start as int,
                    end as int,
                ));
                Some(r)
            } else {
                None
            }
        },
        None => None,
    }
}

/// The address of a link tag.
fn extract_href(tag: &Vec<char>) -> (r: Vec<char>)
    ensures
        r@ == href_of(tag@),
{
    match quoted(tag, "href=\"", '"') {
        Some(v) => v,
        None => match quoted(tag, "href='", '\'') {
            Some(v) => v,
            None => Vec::new(),
        },
    }
}

/// The text of a styled run.
fn styled_chars(inner: &Vec<char>) -> (r: Vec<char>)
    ensures
        r@ == styled_text(inner@),
{
    let bare = strip_html_chars(inner);
    decode_entities(&bare)
}

fn flush_into(segments: &mut Vec<RichSegment>, current: &Vec<char>)
    ensures
        shapes(final(segments)@) == shapes(old(segments)@) + flush(current@),
{
    if current.len() > 0 {
        let text = decode_entities(current);
        segments.push(RichSegment::Plain(string_of(&text)));
        assert(shapes(segments@) =~= shapes(old(segments)@) + flush(current@));
    } else {
        assert(shapes(segments@) =~= shapes(old(segments)@) + flush(current@));
    }
}

fn styled_into(segments: &mut Vec<RichSegment>, kind: TagKind, tag: &Vec<char>, inner: &Vec<char>)
    ensures
        shapes(final(segments)@) == shapes(old(segments)@) + styled(kind, tag@, inner@),
{
    match kind {
        TagKind::Bold => {
            if inner.len() > 0 {
                let t = styled_chars(inner);
                segments.push(RichSegment::Bold(string_of(&t)));
            }
        },
        TagKind::Italic => {
            if inner.len() > 0 {
                let t = styled_chars(inner);
                segments.push(RichSegment::Italic(string_of(&t)));
            }
        },
        TagKind::Code => {
            if inner.len() > 0 {
                let t = styled_chars(inner);
                segments.push(RichSegment::Code(string_of(&t)));
            }
        },
        TagKind::Link => {
            let url = extract_href(tag);
            let t = styled_chars(inner);
            if t.len() > 0 {
                segments.push(RichSegment::Link { text: string_of(&t), url: string_of(&url) });
            }
        },
        _ => {},
    }
    assert(shapes(segments@) =~= shapes(old(segments)@) + styled(kind, tag@, inner@));
}

/// Reads a piece of markup as a list of styled segments.
pub fn parse_rich_text(html: &str) -> (r: Vec<RichSegment>)
    ensures
        shapes(r@) == rich_text_spec(html@),
{
    let v = chars_of(html);
    let mut segments: Vec<RichSegment> = Vec::new();
    let mut current: Vec<char> = Vec::new();
    let mut pos: usize = 0;
    let ghost goal = segments_from(v@, 0, Seq::<char>::empty());
    assert(shapes(segments@) =~= Seq::<Segment>::empty());
    assert(shapes(segments@) + goal =~= goal);
    while pos < v.len()
        invariant
            pos <= v.len(),
            shapes(segments@) + segments_from(v@, pos as int, current@) == goal,
        decreases v.len() - pos,
    {
        let ghost before = shapes(segments@);
        let ghost here = segments_from(v@, pos as int, current@);
        if v[pos] == '<' {
            let (tag, next) = read_tag(&v, pos + 1);
            let low = lower_chars(&tag);
            let kind = kind_of(&low);
            match kind {
                TagKind::Other => {
                    pos = next;
                },
                TagKind::Break => {
                    flush_into(&mut segments, &current);
                    segments.push(RichSegment::Newline);
                    assert(shapes(segments@) =~= before + flush(current@) + seq![Segment::Newline]);
                    current = Vec::new();
                    assert(shapes(segments@) + segments_from(v@, next as int, current@) =~= before
                        + here);
                    pos = next;
                },
                _ => {
                    let close: Vec<char> = match kind {
                        TagKind::Link => chars_of("/a"),
                        _ => {
                            let mut c: Vec<char> = Vec::new();
                            c.push('/');
                            let mut l = low;
                            c.append(&mut l);
                            assert(c@ =~= seq!['/'] + lowercase_spec(tag@));
                            c
                        },
                    };
                    let (inner, end) = collect_until_close(&v, next, &close);
                    flush_into(&mut segments, &current);
                    styled_into(&mut segments, kind, &tag, &inner);
                    current = Vec::new();
                    assert(shapes(segments@) + segments_from(v@, end as int, current@) =~= before
                        + here);
                    pos = end;
                },
            }
        } else {
            current.push(v[pos]);
            pos += 1;
        }
    }
    flush_into(&mut segments, &current);
    if segments.len() == 0 {
        segments.push(RichSegment::Plain(String::new()));
        assert(shapes(segments@) =~= seq![Segment::Plain(Seq::<char>::empty())]);
    }
    segments
}

} // verus!
