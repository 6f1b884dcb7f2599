//! String interpolation with the `${name}` and `${name:default}` syntax.
//!
//! A template is read line by line. Every position is a byte offset, as in
//! `str`, and every text in a contract is given by its UTF-8 bytes.

use crate::utils::text::drop_ascii_head;
use crate::utils::text::find_byte;
use crate::utils::text::first_byte;
use crate::utils::text::decimal;
use crate::utils::text::decimal_string;
use crate::utils::text::lemma_utf8_concat;
use crate::utils::text::push_text;
use crate::utils::text::split_before_ascii;
use crate::utils::text::utf8;
use vstd::prelude::*;
use vstd::string::StringExecFns;
use vstd::string::StringSliceAdditionalSpecFns;

verus! {

pub const DOLLAR: u8 = 36;

pub const BRACE_OPEN: u8 = 123;

pub const BRACE_CLOSE: u8 = 125;

pub const COLON: u8 = 58;

pub const LINE_FEED: u8 = 10;

pub const CARRIAGE_RETURN: u8 = 13;

/// Why a template could not be rendered, and where: `line` counts from one,
/// `char` is the byte offset in that line just behind the `${` at fault.
pub struct InterpolationError {
    pub reason: String,
    pub line: usize,
    pub char: usize,
}

/// One piece of a template.
pub enum Segment {
    /// Text that is copied as it stands.
    Literal(String),
    /// `${name}` or `${name:default}`.
    Placeholder { name: String, default: Option<String>, line: usize, column: usize },
    /// A `${` with no `}` behind it on its line.
    Unclosed { line: usize, column: usize },
}

/// A segment by the bytes of its texts.
pub enum SegmentView {
    Literal(Seq<u8>),
    Placeholder { name: Seq<u8>, default: Option<Seq<u8>>, line: nat, column: nat },
    Unclosed { line: nat, column: nat },
}

impl View for Segment {
    type V = SegmentView;

    open spec fn view(&self) -> SegmentView {
        match self {
            Segment::Literal(text) => SegmentView::Literal(utf8(text@)),
            Segment::Placeholder { name, default, line, column } => SegmentView::Placeholder {
                name: utf8(name@),
                default: match default {
                    Some(d) => Some(utf8(d@)),
                    None => None,
                },
                line: *line as nat,
                column: *column as nat,
            },
            Segment::Unclosed { line, column } => SegmentView::Unclosed {
                line: *line as nat,
                column: *column as nat,
            },
        }
    }
}

/// The views of a run of segments.
pub open spec fn segment_views(segments: Seq<Segment>) -> Seq<SegmentView> {
    segments.map_values(|s: Segment| s@)
}

/// A `${` stands at `i`.
pub open spec fn opens_at(s: Seq<u8>, i: int) -> bool {
    0 <= i && i + 1 < s.len() && s[i] == DOLLAR && s[i + 1] == BRACE_OPEN
}

/// `i` is the place of the first `${` in `s`, or the length of `s` where it holds none.
pub open spec fn is_first_open(s: Seq<u8>, i: int) -> bool {
    &&& 0 <= i <= s.len()
    &&& i < s.len() ==> opens_at(s, i)
    &&& forall|j: int| 0 <= j < i ==> !opens_at(s, j)
}

/// The place of the first `${` in `s`, or the length of `s` where it holds none.
pub open spec fn first_open(s: Seq<u8>) -> int {
    choose|i: int| is_first_open(s, i)
}

/// Whether `s` holds a `${` at all.
pub open spec fn has_open(s: Seq<u8>) -> bool {
    exists|i: int| opens_at(s, i)
}

pub proof fn lemma_first_open(s: Seq<u8>, i: int)
    requires
        is_first_open(s, i),
    ensures
        first_open(s) == i,
        has_open(s) <==> i < s.len(),
{
    let k = first_open(s);
    assert(is_first_open(s, k));
    if k < i {
        assert(!opens_at(s, k));
    } else if i < k {
        assert(!opens_at(s, i));
    }
    if i < s.len() {
        assert(opens_at(s, i));
    }
}

/// What stands between `${` and `}`: a name, or a name and a default behind the first colon.
pub open spec fn placeholder(expr: Seq<u8>, line: nat, column: nat) -> SegmentView {
    let c = first_byte(expr, COLON);
    if 0 <= c < expr.len() {
        SegmentView::Placeholder {
            name: expr.take(c),
            default: Some(expr.skip(c + 1)),
            line,
            column,
        }
    } else {
        SegmentView::Placeholder { name: expr, default: None, line, column }
    }
}

/// The segments of one line, of which `column` bytes were read before `line`.
pub open spec fn line_segments(line: Seq<u8>, line_no: nat, column: nat) -> Seq<SegmentView>
    decreases line.len(),
{
    let p = first_open(line);
    if 0 <= p && p + 2 <= line.len() {
        let rest = line.skip(p + 2);
        let q = first_byte(rest, BRACE_CLOSE);
        let at = (column + p + 2) as nat;
        if 0 <= q < rest.len() {
            seq![SegmentView::Literal(line.take(p)), placeholder(rest.take(q), line_no, at)]
                + line_segments(rest.skip(q + 1), line_no, (at + q + 1) as nat)
        } else {
            seq![SegmentView::Literal(line.take(p)), SegmentView::Unclosed { line: line_no, column: at }]
        }
    } else {
        seq![SegmentView::Literal(line)]
    }
}

/// A line without the carriage return that stood before its line feed.
pub open spec fn without_carriage_return(line: Seq<u8>) -> Seq<u8> {
    if line.len() > 0 && line.last() == CARRIAGE_RETURN {
        line.drop_last()
    } else {
        line
    }
}

/// The segments of a text that starts at the beginning of line `line_no`.
/// A line ends with a line feed, or a carriage return and a line feed, or
/// with the text; each line but the first is preceded by one line feed.
pub open spec fn text_segments(text: Seq<u8>, line_no: nat) -> Seq<SegmentView>
    decreases text.len(),
{
    if text.len() == 0 {
        seq![]
    } else {
        let n = first_byte(text, LINE_FEED);
        let lead = if line_no > 1 {
            seq![SegmentView::Literal(seq![LINE_FEED])]
        } else {
            seq![]
        };
        if 0 <= n < text.len() {
            lead + line_segments(without_carriage_return(text.take(n)), line_no, 0)
                + text_segments(text.skip(n + 1), line_no + 1)
        } else {
            lead + line_segments(text, line_no, 0)
        }
    }
}

/// The segments of a whole template.
pub open spec fn template(text: Seq<u8>) -> Seq<SegmentView> {
    text_segments(text, 1)
}

/// Finds the first `${` in `s`; the length of `s` where there is none.
pub fn find_open(s: &[u8]) -> (i: usize)
    ensures
        i == first_open(s@),
        is_first_open(s@, i as int),
        has_open(s@) <==> i < s.len(),
{
    let n = s.len();
    let mut i: usize = 0;
    while i < n
        invariant
            i <= n,
            n == s.len(),
            forall|j: int| 0 <= j < i ==> !opens_at(s@, j),
        decreases n - i,
    {
        if s[i] == DOLLAR && i + 1 < n && s[i + 1] == BRACE_OPEN {
            proof {
                lemma_first_open(s@, i as int);
            }
            return i;
        }
        i += 1;
    }
    proof {
        lemma_first_open(s@, i as int);
    }
    i
}

proof fn lemma_views_push(v: Seq<Segment>, x: Segment)
    ensures
        segment_views(v.push(x)) == segment_views(v).push(x@),
{
    assert(segment_views(v.push(x)) =~= segment_views(v).push(x@));
}

/// The text of a single line feed.
fn line_feed() -> (s: String)
    ensures
        utf8(s@) == seq![LINE_FEED],
{
    let s = String::from_str("\n");
    proof {
        reveal_strlit("\n");
        vstd::utf8::is_ascii_chars_encode_utf8(s@);
        assert(utf8(s@) =~= seq![LINE_FEED]);
    }
    s
}

/// Reads what stands between `${` and `}`.
fn parse_placeholder(expr: &str, line: usize, column: usize) -> (segment: Segment)
    ensures
        segment@ == placeholder(expr.spec_bytes(), line as nat, column as nat),
{
    let bytes = expr.as_bytes();
    let c = find_byte(bytes, COLON);
    if c < bytes.len() {
        let (name, d0) = split_before_ascii(expr, c);
        let default = drop_ascii_head(d0);
        assert(default.spec_bytes() =~= expr.spec_bytes().skip(c + 1));
        Segment::Placeholder {
            name: name.to_owned(),
            default: Some(default.to_owned()),
            line,
            column,
        }
    } else {
        Segment::Placeholder { name: expr.to_owned(), default: None, line, column }
    }
}

/// Appends the segments of one line.
fn parse_line(line: &str, line_no: usize, segments: &mut Vec<Segment>)
    ensures
        segment_views(final(segments)@) == segment_views(old(segments)@) + line_segments(
            line.spec_bytes(),
            line_no as nat,
            0,
        ),
{
    let ghost start = segment_views(segments@);
    let ghost whole = line.spec_bytes();
    let total = line.as_bytes().len();
    let mut cur: &str = line;
    let mut col: usize = 0;
    loop
        invariant_except_break
            total == whole.len(),
            col + cur.spec_bytes().len() == total,
            start + line_segments(whole, line_no as nat, 0) == segment_views(segments@)
                + line_segments(cur.spec_bytes(), line_no as nat, col as nat),
        ensures
            segment_views(segments@) == start + line_segments(whole, line_no as nat, 0),
        decreases cur.spec_bytes().len(),
    {
        let bytes = cur.as_bytes();
        let p = find_open(bytes);
        let ghost before_push = segments@;
        if p >= bytes.len() {
            segments.push(Segment::Literal(cur.to_owned()));
            proof {
                lemma_views_push(before_push, segments@.last());
                assert(line_segments(cur.spec_bytes(), line_no as nat, col as nat) =~= seq![
                    SegmentView::Literal(cur.spec_bytes()),
                ]);
                assert(segment_views(segments@) =~= start + line_segments(
                    whole,
                    line_no as nat,
                    0,
                ));
            }
            break ;
        }
        let (before, r0) = split_before_ascii(cur, p);
        let r1 = drop_ascii_head(r0);
        let rest = drop_ascii_head(r1);
        assert(rest.spec_bytes() =~= cur.spec_bytes().skip(p + 2));
        let at = col + p + 2;
        let q = find_byte(rest.as_bytes(), BRACE_CLOSE);
        segments.push(Segment::Literal(before.to_owned()));
        proof {
            lemma_views_push(before_push, segments@.last());
        }
        let ghost with_literal = segments@;
        if q >= rest.as_bytes().len() {
            segments.push(Segment::Unclosed { line: line_no, column: at });
            proof {
                lemma_views_push(with_literal, segments@.last());
                assert(segment_views(segments@) =~= start + line_segments(
                    whole,
                    line_no as nat,
                    0,
                ));
            }
            break ;
        }
        let (expr, t0) = split_before_ascii(rest, q);
        let tail = drop_ascii_head(t0);
        assert(tail.spec_bytes() =~= rest.spec_bytes().skip(q + 1));
        segments.push(parse_placeholder(expr, line_no, at));
        proof {
            lemma_views_push(with_literal, segments@.last());
            assert(segment_views(segments@) + line_segments(
                tail.spec_bytes(),
                line_no as nat,
                (at + q + 1) as nat,
            ) =~= start + line_segments(whole, line_no as nat, 0));
        }
        col = at + q + 1;
        cur = tail;
    }
}

/// Drops the carriage return at the end of a line that ended with a line feed.
fn strip_carriage_return<'a>(line: &'a str) -> (r: &'a str)
    ensures
        r.spec_bytes() == without_carriage_return(line.spec_bytes()),
{
    let bytes = line.as_bytes();
    let n = bytes.len();
    if n > 0 && bytes[n - 1] == CARRIAGE_RETURN {
        let (head, _) = split_before_ascii(line, n - 1);
        assert(head.spec_bytes() =~= line.spec_bytes().drop_last());
        head
    } else {
        line
    }
}

/// Reads a template into its segments.
pub fn parse_template(text: &str) -> (segments: Vec<Segment>)
    ensures
        segment_views(segments@) == template(text.spec_bytes()),
{
    let mut segments: Vec<Segment> = Vec::new();
    let total = text.as_bytes().len();
    let mut rest: &str = text;
    let mut lines_read: usize = 0;
    assert(segment_views(segments@) =~= Seq::<SegmentView>::empty());
    while rest.as_bytes().len() > 0
        invariant
            lines_read + rest.spec_bytes().len() <= total,
            template(text.spec_bytes()) == segment_views(segments@) + text_segments(
                rest.spec_bytes(),
                (lines_read + 1) as nat,
            ),
        decreases rest.spec_bytes().len(),
    {
        let bytes = rest.as_bytes();
        let n = find_byte(bytes, LINE_FEED);
        let line_no = lines_read + 1;
        let ghost before = segment_views(segments@);
        let ghost raw = segments@;
        if line_no > 1 {
            segments.push(Segment::Literal(line_feed()));
            proof {
                lemma_views_push(raw, segments@.last());
            }
        }
        if n < bytes.len() {
            let (head, t0) = split_before_ascii(rest, n);
            let tail = drop_ascii_head(t0);
            assert(tail.spec_bytes() =~= rest.spec_bytes().skip(n + 1));
            let line = strip_carriage_return(head);
            parse_line(line, line_no, &mut segments);
            proof {
                assert(segment_views(segments@) + text_segments(
                    tail.spec_bytes(),
                    (line_no + 1) as nat,
                ) =~= before + text_segments(rest.spec_bytes(), line_no as nat));
            }
            rest = tail;
            lines_read += 1;
        } else {
            parse_line(rest, line_no, &mut segments);
            let (_, tail) = split_before_ascii(rest, n);
            proof {
                assert(tail.spec_bytes() =~= Seq::<u8>::empty());
                assert(segment_views(segments@) + text_segments(
                    tail.spec_bytes(),
                    line_no as nat,
                ) =~= before + text_segments(rest.spec_bytes(), line_no as nat));
            }
            rest = tail;
        }
    }
    assert(text_segments(rest.spec_bytes(), (lines_read + 1) as nat) =~= Seq::<
        SegmentView,
    >::empty());
    assert(segment_views(segments@) =~= template(text.spec_bytes()));
    segments
}

/// Why a template could not be rendered, by the bytes of the reason.
pub struct Failure {
    pub reason: Seq<u8>,
    pub line: nat,
    pub column: nat,
}

impl View for InterpolationError {
    type V = Failure;

    open spec fn view(&self) -> Failure {
        Failure { reason: utf8(self.reason@), line: self.line as nat, column: self.char as nat }
    }
}

impl Failure {
    /// The error as one line of text.
    pub open spec fn message(self) -> Seq<u8> {
        utf8("Invalid configuration template: "@) + self.reason + utf8(" at "@) + decimal(
            self.line,
        ) + utf8(":"@) + decimal(self.column)
    }
}

impl InterpolationError {
    /// The error as one line of text: the reason, then the line and the offset in it.
    pub fn message(&self) -> (text: String)
        ensures
            utf8(text@) == self@.message(),
    {
        let mut text = String::from_str("Invalid configuration template: ");
        push_text(&mut text, self.reason.as_str());
        push_text(&mut text, " at ");
        let line = decimal_string(self.line as u64);
        push_text(&mut text, line.as_str());
        push_text(&mut text, ":");
        let column = decimal_string(self.char as u64);
        push_text(&mut text, column.as_str());
        text
    }
}

/// What a lookup gave, by the bytes of the value.
pub open spec fn answer_bytes(answer: Option<String>) -> Option<Seq<u8>> {
    match answer {
        Some(value) => Some(utf8(value@)),
        None => None,
    }
}

/// What `interpolate` and `render` return, by the bytes of the texts.
pub open spec fn outcome(r: Result<String, InterpolationError>) -> Result<Seq<u8>, Failure> {
    match r {
        Ok(text) => Ok(utf8(text@)),
        Err(e) => Err(e@),
    }
}

/// A segment fails where it is an unclosed brace, or a placeholder without a
/// default whose name the lookup does not know.
pub open spec fn fails(segment: SegmentView, answer: Option<Seq<u8>>) -> bool {
    match segment {
        SegmentView::Literal(_) => false,
        SegmentView::Placeholder { default, .. } => answer is None && default is None,
        SegmentView::Unclosed { .. } => true,
    }
}

/// What a segment adds to the output: its text, or for a placeholder the
/// value that the lookup gave, and its default where the lookup gave none.
pub open spec fn piece(segment: SegmentView, answer: Option<Seq<u8>>) -> Seq<u8> {
    match segment {
        SegmentView::Literal(text) => text,
        SegmentView::Placeholder { default, .. } => match answer {
            Some(value) => value,
            None => match default {
                Some(d) => d,
                None => seq![],
            },
        },
        SegmentView::Unclosed { .. } => seq![],
    }
}

/// The reason given for a `${` without a `}`.
pub open spec fn unclosed_reason() -> Seq<u8> {
    utf8("missing closing braces"@)
}

/// The reason given for a name that the lookup does not know.
pub open spec fn undefined_reason(name: Seq<u8>) -> Seq<u8> {
    utf8("env variable '"@) + name + utf8("' not defined"@)
}

/// The error of a segment that fails.
pub open spec fn failure(segment: SegmentView) -> Failure {
    match segment {
        SegmentView::Literal(_) => Failure { reason: seq![], line: 0, column: 0 },
        SegmentView::Placeholder { name, line, column, .. } => Failure {
            reason: undefined_reason(name),
            line,
            column,
        },
        SegmentView::Unclosed { line, column } => Failure {
            reason: unclosed_reason(),
            line,
            column,
        },
    }
}

/// The segments rendered from left to right, `answers[i]` being what the
/// lookup gave for segment `i`: the pieces one after the other, or the error
/// of the first segment that fails.
pub open spec fn rendering(segments: Seq<SegmentView>, answers: Seq<Option<Seq<u8>>>) -> Result<
    Seq<u8>,
    Failure,
>
    decreases segments.len(),
{
    if segments.len() == 0 {
        Ok(seq![])
    } else {
        match rendering(segments.drop_last(), answers.drop_last()) {
            Err(e) => Err(e),
            Ok(text) => if fails(segments.last(), answers.last()) {
                Err(failure(segments.last()))
            } else {
                Ok(text + piece(segments.last(), answers.last()))
            },
        }
    }
}

/// `lookup`, asked for `name`, may give `answer`.
pub open spec fn may_answer<F: Fn(&str) -> Option<String>>(
    lookup: F,
    name: Seq<u8>,
    answer: Option<Seq<u8>>,
) -> bool {
    exists|n: &str, r: Option<String>|
        n.spec_bytes() == name && #[trigger] call_ensures(lookup, (n,), r) && answer_bytes(r)
            == answer
}

/// `answers` holds one entry for each segment, and for each placeholder that
/// the rendering reaches it holds what `lookup` may give for its name.
pub open spec fn answers_of<F: Fn(&str) -> Option<String>>(
    lookup: F,
    segments: Seq<SegmentView>,
    answers: Seq<Option<Seq<u8>>>,
) -> bool {
    &&& answers.len() == segments.len()
    &&& forall|i: int|
        0 <= i < segments.len() && (#[trigger] segments[i]) is Placeholder && rendering(
            segments.take(i),
            answers.take(i),
        ) is Ok ==> may_answer(lookup, segments[i]->name, answers[i])
}

/// Once a segment has failed, what follows it changes nothing.
pub proof fn lemma_failure_is_final(
    segments: Seq<SegmentView>,
    answers: Seq<Option<Seq<u8>>>,
    n: int,
)
    requires
        answers.len() == segments.len(),
        0 <= n <= segments.len(),
        rendering(segments.take(n), answers.take(n)) is Err,
    ensures
        rendering(segments, answers) == rendering(segments.take(n), answers.take(n)),
    decreases segments.len(),
{
    if n == segments.len() {
        assert(segments.take(n) =~= segments);
        assert(answers.take(n) =~= answers);
    } else {
        assert(segments.drop_last().take(n) =~= segments.take(n));
        assert(answers.drop_last().take(n) =~= answers.take(n));
        lemma_failure_is_final(segments.drop_last(), answers.drop_last(), n);
    }
}

proof fn lemma_rendering_step(
    segments: Seq<SegmentView>,
    answers: Seq<Option<Seq<u8>>>,
    i: int,
    answer: Option<Seq<u8>>,
)
    requires
        0 <= i < segments.len(),
        answers.len() == i,
    ensures
        rendering(segments.take(i + 1), answers.push(answer)) == (match rendering(
            segments.take(i),
            answers,
        ) {
            Err(e) => Err(e),
            Ok(text) => if fails(segments[i], answer) {
                Err(failure(segments[i]))
            } else {
                Ok(text + piece(segments[i], answer))
            },
        }),
{
    assert(segments.take(i + 1).drop_last() =~= segments.take(i));
    assert(answers.push(answer).drop_last() =~= answers);
}

/// The answers that were gathered up to a failing segment, filled up to the
/// length of the template, account for the error.
proof fn lemma_failed_answers<F: Fn(&str) -> Option<String>>(
    lookup: F,
    segments: Seq<SegmentView>,
    gathered: Seq<Option<Seq<u8>>>,
) -> (answers: Seq<Option<Seq<u8>>>)
    requires
        0 < gathered.len() <= segments.len(),
        rendering(segments.take(gathered.len() as int), gathered) is Err,
        forall|k: int|
            0 <= k < gathered.len() && (#[trigger] segments[k]) is Placeholder ==> may_answer(
                lookup,
                segments[k]->name,
                gathered[k],
            ),
    ensures
        answers_of(lookup, segments, answers),
        rendering(segments, answers) == rendering(
            segments.take(gathered.len() as int),
            gathered,
        ),
{
    let n = gathered.len() as int;
    let answers = Seq::new(
        segments.len(),
        |k: int|
            if k < n {
                gathered[k]
            } else {
                None
            },
    );
    assert(answers.take(n) =~= gathered);
    lemma_failure_is_final(segments, answers, n);
    assert forall|i: int|
        0 <= i < segments.len() && (#[trigger] segments[i]) is Placeholder && rendering(
            segments.take(i),
            answers.take(i),
        ) is Ok implies may_answer(lookup, segments[i]->name, answers[i]) by {
        if i >= n {
            assert(segments.take(i).take(n) =~= segments.take(n));
            assert(answers.take(i).take(n) =~= gathered);
            lemma_failure_is_final(segments.take(i), answers.take(i), n);
        }
    }
    answers
}

/// The error for a `${` without a `}`.
fn unclosed_error(line: usize, column: usize) -> (e: InterpolationError)
    ensures
        e@ == (Failure { reason: unclosed_reason(), line: line as nat, column: column as nat }),
{
    InterpolationError { reason: String::from_str("missing closing braces"), line, char: column }
}

/// The error for a name that the lookup does not know.
fn undefined_error(name: &str, line: usize, column: usize) -> (e: InterpolationError)
    ensures
        e@ == (Failure {
            reason: undefined_reason(name.spec_bytes()),
            line: line as nat,
            column: column as nat,
        }),
{
    let mut reason = String::from_str("env variable '");
    let ghost head = reason@;
    reason.append(name);
    let ghost middle = reason@;
    reason.append("' not defined");
    proof {
        lemma_utf8_concat(head, name@);
        lemma_utf8_concat(middle, "' not defined"@);
    }
    InterpolationError { reason, line, char: column }
}

/// Renders the segments from left to right, asking `lookup` for the name of
/// each placeholder as it is reached.
pub fn render<F: Fn(&str) -> Option<String>>(segments: &Vec<Segment>, lookup: &F) -> (r: Result<
    String,
    InterpolationError,
>)
    requires
        forall|n: &str| call_requires(*lookup, (n,)),
    ensures
        exists|answers: Seq<Option<Seq<u8>>>|
            answers_of(*lookup, segment_views(segments@), answers) && outcome(r) == rendering(
                segment_views(segments@),
                answers,
            ),
{
    let ghost views = segment_views(segments@);
    let mut out = String::new();
    let ghost mut answers: Seq<Option<Seq<u8>>> = Seq::empty();
    let mut i: usize = 0;
    proof {
        vstd::utf8::is_ascii_chars_encode_utf8(out@);
        assert(views.take(0) =~= Seq::<SegmentView>::empty());
    }
    while i < segments.len()
        invariant
            i <= segments.len(),
            views == segment_views(segments@),
            answers.len() == i,
            rendering(views.take(i as int), answers) == Ok::<Seq<u8>, Failure>(utf8(out@)),
            forall|k: int|
                0 <= k < i && (#[trigger] views[k]) is Placeholder ==> may_answer(
                    *lookup,
                    views[k]->name,
                    answers[k],
                ),
            forall|n: &str| call_requires(*lookup, (n,)),
        decreases segments.len() - i,
    {
        let ghost before = out@;
        let ghost gathered = answers;
        assert(views[i as int] == segments@[i as int]@);
        match &segments[i] {
            Segment::Literal(text) => {
                out.append(text.as_str());
                proof {
                    answers = gathered.push(None);
                    lemma_rendering_step(views, gathered, i as int, None);
                    lemma_utf8_concat(before, text@);
                }
            },
            Segment::Placeholder { name, default, line, column } => {
                let got = lookup(name.as_str());
                proof {
                    answers = gathered.push(answer_bytes(got));
                    lemma_rendering_step(views, gathered, i as int, answer_bytes(got));
                    assert(may_answer(*lookup, views[i as int]->name, answer_bytes(got)));
                }
                match got {
                    Some(value) => {
                        out.append(value.as_str());
                        proof {
                            lemma_utf8_concat(before, value@);
                        }
                    },
                    None => match default {
                        Some(d) => {
                            out.append(d.as_str());
                            proof {
                                lemma_utf8_concat(before, d@);
                            }
                        },
                        None => {
                            let e = undefined_error(name.as_str(), *line, *column);
                            proof {
                                assert(views.take(i + 1) =~= views.take(answers.len() as int));
                                let all = lemma_failed_answers(*lookup, views, answers);
                                assert(outcome(Err(e)) == rendering(views, all));
                            }
                            return Err(e);
                        },
                    },
                }
            },
            Segment::Unclosed { line, column } => {
                let e = unclosed_error(*line, *column);
                proof {
                    answers = gathered.push(None);
                    lemma_rendering_step(views, gathered, i as int, None);
                    assert(views.take(i + 1) =~= views.take(answers.len() as int));
                    let all = lemma_failed_answers(*lookup, views, answers);
                    assert(outcome(Err(e)) == rendering(views, all));
                }
                return Err(e);
            },
        }
        i += 1;
    }
    proof {
        assert(views.take(i as int) =~= views);
        assert(answers.take(i as int) =~= answers);
        assert forall|k: int|
            0 <= k < views.len() && (#[trigger] views[k]) is Placeholder && rendering(
                views.take(k),
                answers.take(k),
            ) is Ok implies may_answer(*lookup, views[k]->name, answers[k]) by {}
        assert(answers_of(*lookup, views, answers));
        assert(outcome(Ok(out)) == rendering(views, answers));
    }
    Ok(out)
}

/// Simple string interpolation using the `${name}` and `${name:default}` syntax.
///
/// A text without any `${` comes back as it is. Any other text is read as a
/// template and rendered: its lines joined by single line feeds, each
/// placeholder replaced by what `lookup` gives for its name, or by its
/// default. The first `${` without a `}` on its line, or the first name
/// without a default that `lookup` does not know, ends it with an error.
pub fn interpolate(s: String, lookup: impl Fn(&str) -> Option<String>) -> (r: Result<
    String,
    InterpolationError,
>)
    requires
        forall|n: &str| call_requires(lookup, (n,)),
    ensures
        !has_open(utf8(s@)) ==> r == Ok::<String, InterpolationError>(s),
        has_open(utf8(s@)) ==> exists|answers: Seq<Option<Seq<u8>>>|
            answers_of(lookup, template(utf8(s@)), answers) && outcome(r) == rendering(
                template(utf8(s@)),
                answers,
            ),
{
    let bytes = s.as_str().as_bytes();
    if find_open(bytes) >= bytes.len() {
        return Ok(s);
    }
    let segments = parse_template(s.as_str());
    render(&segments, &lookup)
}

/// What a lookup that is a function of the name gives for each segment.
pub open spec fn answers_from(
    env: spec_fn(Seq<u8>) -> Option<Seq<u8>>,
    segments: Seq<SegmentView>,
) -> Seq<Option<Seq<u8>>> {
    Seq::new(
        segments.len(),
        |i: int|
            match segments[i] {
                SegmentView::Placeholder { name, .. } => env(name),
                _ => None,
            },
    )
}

/// Whatever `lookup` gives for a name is what `env` gives for it.
pub open spec fn answers_as<F: Fn(&str) -> Option<String>>(
    lookup: F,
    env: spec_fn(Seq<u8>) -> Option<Seq<u8>>,
) -> bool {
    forall|n: &str, r: Option<String>| #[trigger]
        call_ensures(lookup, (n,), r) ==> answer_bytes(r) == env(n.spec_bytes())
}

proof fn lemma_prefix_with_environment<F: Fn(&str) -> Option<String>>(
    lookup: F,
    env: spec_fn(Seq<u8>) -> Option<Seq<u8>>,
    segments: Seq<SegmentView>,
    answers: Seq<Option<Seq<u8>>>,
    n: int,
)
    requires
        answers_as(lookup, env),
        answers_of(lookup, segments, answers),
        0 <= n <= segments.len(),
    ensures
        rendering(segments.take(n), answers.take(n)) == rendering(
            segments.take(n),
            answers_from(env, segments).take(n),
        ),
    decreases n,
{
    let given = answers_from(env, segments);
    if n > 0 {
        lemma_prefix_with_environment(lookup, env, segments, answers, n - 1);
        assert(segments.take(n).drop_last() =~= segments.take(n - 1));
        assert(answers.take(n).drop_last() =~= answers.take(n - 1));
        assert(given.take(n).drop_last() =~= given.take(n - 1));
        assert(segments.take(n).last() == segments[n - 1]);
        if rendering(segments.take(n - 1), answers.take(n - 1)) is Ok && segments[n - 1]
            is Placeholder {
            assert(may_answer(lookup, segments[n - 1]->name, answers[n - 1]));
            assert(answers[n - 1] == given[n - 1]);
        }
    }
}

/// With a lookup that is a function of the name, what comes out is a
/// function of the template: the rendering with what `env` gives for the
/// name of each placeholder.
pub proof fn lemma_rendering_with_environment<F: Fn(&str) -> Option<String>>(
    lookup: F,
    env: spec_fn(Seq<u8>) -> Option<Seq<u8>>,
    segments: Seq<SegmentView>,
    answers: Seq<Option<Seq<u8>>>,
)
    requires
        answers_as(lookup, env),
        answers_of(lookup, segments, answers),
    ensures
        rendering(segments, answers) == rendering(segments, answers_from(env, segments)),
{
    lemma_prefix_with_environment(lookup, env, segments, answers, segments.len() as int);
    assert(segments.take(segments.len() as int) =~= segments);
    assert(answers.take(segments.len() as int) =~= answers);
    assert(answers_from(env, segments).take(segments.len() as int) =~= answers_from(
        env,
        segments,
    ));
}

} // verus!
