//! Path patterns.
//!
//! A pattern is a sequence of segments, each introduced by a slash. A
//! segment is either literal text or a named parameter written in braces,
//! as in `/users/{id}`. A parameter matches one non-empty path segment.
use crate::util::{bytes_eq, bytes_eq_ignore_case, lower_seq};
use vstd::prelude::*;
use vstd::slice::{slice_subrange, slice_to_vec};

verus! {

/// The byte that introduces a segment.
pub const SLASH: u8 = 47;

/// The byte that opens a parameter.
pub const OPEN: u8 = 123;

/// The byte that closes a parameter.
pub const CLOSE: u8 = 125;

/// One segment of a pattern.
#[derive(Debug)]
pub enum Segment {
    /// Literal text.
    Static(Vec<u8>),
    /// A parameter with its name.
    Param(Vec<u8>),
}

/// Mathematical value of a segment.
pub enum SegmentView {
    Static(Seq<u8>),
    Param(Seq<u8>),
}

impl View for Segment {
    type V = SegmentView;

    open spec fn view(&self) -> SegmentView {
        match self {
            Segment::Static(text) => SegmentView::Static(text@),
            Segment::Param(name) => SegmentView::Param(name@),
        }
    }
}

/// Why a text is no pattern.
#[derive(Clone, Copy, Debug, PartialEq, Eq, Structural)]
pub enum PatternError {
    /// The text is not empty and does not begin with a slash.
    MissingSlash,
    /// A segment holds a brace that is not part of one enclosing pair.
    Malformed,
    /// A parameter has no name.
    EmptyName,
}

/// A captured parameter.
#[derive(Debug)]
pub struct Param {
    pub name: Vec<u8>,
    pub value: Vec<u8>,
}

/// Mathematical value of a captured parameter.
pub struct ParamView {
    pub name: Seq<u8>,
    pub value: Seq<u8>,
}

impl View for Param {
    type V = ParamView;

    open spec fn view(&self) -> ParamView {
        ParamView { name: self.name@, value: self.value@ }
    }
}

/// The values of a sequence of captured parameters.
pub open spec fn param_views(params: Seq<Param>) -> Seq<ParamView> {
    params.map_values(|p: Param| p@)
}

/// The values of a sequence of segments.
pub open spec fn segment_views(segments: Seq<Segment>) -> Seq<SegmentView> {
    segments.map_values(|s: Segment| s@)
}

/// Length of the segment at the start of `s`: the number of bytes before
/// the first slash, or all of `s` if it holds none.
pub open spec fn segment_len(s: Seq<u8>) -> int
    decreases s.len(),
{
    if s.len() == 0 || s[0] == SLASH {
        0
    } else {
        1 + segment_len(s.skip(1))
    }
}

/// Whether `t` holds a brace.
pub open spec fn has_brace(t: Seq<u8>) -> bool {
    exists|i: int| 0 <= i < t.len() && (#[trigger] t[i] == OPEN || t[i] == CLOSE)
}

/// The segment that the text `t` between two slashes denotes.
pub open spec fn parse_segment(t: Seq<u8>) -> Result<SegmentView, PatternError> {
    if !has_brace(t) {
        Ok(SegmentView::Static(t))
    } else if t.len() >= 2 && t[0] == OPEN && t[t.len() - 1] == CLOSE {
        let name = t.subrange(1, t.len() - 1);
        if name.len() == 0 {
            Err(PatternError::EmptyName)
        } else if has_brace(name) {
            Err(PatternError::Malformed)
        } else {
            Ok(SegmentView::Param(name))
        }
    } else {
        Err(PatternError::Malformed)
    }
}

/// `done` followed by what `rest` holds, or the error of `rest`.
pub open spec fn prepend(
    done: Seq<SegmentView>,
    rest: Result<Seq<SegmentView>, PatternError>,
) -> Result<Seq<SegmentView>, PatternError> {
    match rest {
        Ok(more) => Ok(done + more),
        Err(e) => Err(e),
    }
}

/// The segments that `r` denotes, where `r` is what follows a slash.
pub open spec fn parse_segments(r: Seq<u8>) -> Result<Seq<SegmentView>, PatternError>
    decreases r.len(),
{
    let n = segment_len(r);
    if n < 0 || n > r.len() {
        Err(PatternError::Malformed)
    } else {
        match parse_segment(r.take(n)) {
            Err(e) => Err(e),
            Ok(seg) => if n == r.len() {
                Ok(seq![seg])
            } else {
                prepend(seq![seg], parse_segments(r.skip(n + 1)))
            },
        }
    }
}

/// The segments that the pattern text `p` denotes. The empty text denotes
/// the empty pattern; the first malformed segment decides the error.
pub open spec fn parse_pattern(p: Seq<u8>) -> Result<Seq<SegmentView>, PatternError> {
    if p.len() == 0 {
        Ok(Seq::empty())
    } else if p[0] != SLASH {
        Err(PatternError::MissingSlash)
    } else {
        parse_segments(p.skip(1))
    }
}

/// `segment_len` is the position of the first slash.
pub proof fn lemma_segment_len(s: Seq<u8>, n: int)
    requires
        0 <= n <= s.len(),
        forall|j: int| 0 <= j < n ==> s[j] != SLASH,
        n == s.len() || s[n] == SLASH,
    ensures
        segment_len(s) == n,
    decreases n,
{
    if n > 0 {
        lemma_segment_len(s.skip(1), n - 1);
    }
}

/// `segment_len` stays within the text.
pub proof fn lemma_segment_len_bounds(s: Seq<u8>)
    ensures
        0 <= segment_len(s) <= s.len(),
        forall|j: int| 0 <= j < segment_len(s) ==> s[j] != SLASH,
        segment_len(s) == s.len() || s[segment_len(s)] == SLASH,
    decreases s.len(),
{
    if s.len() > 0 && s[0] != SLASH {
        lemma_segment_len_bounds(s.skip(1));
        assert forall|j: int| 0 <= j < segment_len(s) implies s[j] != SLASH by {
            if j > 0 {
                assert(s[j] == s.skip(1)[j - 1]);
            }
        }
    }
}

/// Whether `t` holds a slash.
pub open spec fn has_slash(t: Seq<u8>) -> bool {
    exists|i: int| 0 <= i < t.len() && #[trigger] t[i] == SLASH
}

/// Whether a segment can be written down: its text holds neither a slash
/// nor a brace, and a parameter has a name.
pub open spec fn writable(seg: SegmentView) -> bool {
    match seg {
        SegmentView::Static(text) => !has_slash(text) && !has_brace(text),
        SegmentView::Param(name) => name.len() > 0 && !has_slash(name) && !has_brace(name),
    }
}

/// The text of one segment, without the slash in front of it.
pub open spec fn written_segment(seg: SegmentView) -> Seq<u8> {
    match seg {
        SegmentView::Static(text) => text,
        SegmentView::Param(name) => seq![OPEN] + name + seq![CLOSE],
    }
}

/// The text of a pattern: each segment with a slash in front of it.
pub open spec fn written(segments: Seq<SegmentView>) -> Seq<u8>
    decreases segments.len(),
{
    if segments.len() == 0 {
        Seq::empty()
    } else {
        seq![SLASH] + written_segment(segments[0]) + written(segments.skip(1))
    }
}

/// The text of a writable segment denotes that segment.
pub proof fn lemma_parse_written_segment(seg: SegmentView)
    requires
        writable(seg),
    ensures
        parse_segment(written_segment(seg)) == Ok::<SegmentView, PatternError>(seg),
        !has_slash(written_segment(seg)),
{
    let t = written_segment(seg);
    match seg {
        SegmentView::Static(text) => {},
        SegmentView::Param(name) => {
            assert(t[0] == OPEN);
            assert(t.subrange(1, t.len() - 1) =~= name);
            if has_slash(t) {
                let i = choose|i: int| 0 <= i < t.len() && #[trigger] t[i] == SLASH;
                assert(t[i] == name[i - 1]);
            }
        },
    }
}

/// Parsing is the inverse of writing down: the text of a pattern made of
/// writable segments denotes that pattern.
pub proof fn lemma_parse_written(segments: Seq<SegmentView>)
    requires
        forall|i: int| 0 <= i < segments.len() ==> writable(#[trigger] segments[i]),
    ensures
        parse_pattern(written(segments)) == Ok::<Seq<SegmentView>, PatternError>(segments),
    decreases segments.len(),
{
    if segments.len() == 0 {
        assert(segments =~= Seq::<SegmentView>::empty());
    } else {
        let first = written_segment(segments[0]);
        let rest = written(segments.skip(1));
        let text = written(segments);
        let body = text.skip(1);
        assert(body =~= first + rest);
        lemma_parse_written_segment(segments[0]);
        assert forall|j: int| 0 <= j < first.len() implies body[j] != SLASH by {
            assert(body[j] == first[j]);
        }
        if segments.len() == 1 {
            assert(written(segments.skip(1)) =~= Seq::<u8>::empty());
            lemma_segment_len(body, first.len() as int);
            assert(body.take(first.len() as int) =~= first);
            assert(seq![segments[0]] =~= segments);
        } else {
            assert(rest[0] == SLASH);
            assert(body[first.len() as int] == rest[0]);
            lemma_segment_len(body, first.len() as int);
            assert(body.take(first.len() as int) =~= first);
            assert(body.skip(first.len() as int + 1) =~= rest.skip(1));
            assert forall|i: int| 0 <= i < segments.skip(1).len() implies writable(
                #[trigger] segments.skip(1)[i],
            ) by {
                assert(segments.skip(1)[i] == segments[i + 1]);
            }
            lemma_parse_written(segments.skip(1));
            assert(seq![segments[0]] + segments.skip(1) =~= segments);
        }
    }
}

/// Whether a path segment equals a literal, up to ASCII case if
/// `ignore_case` is set.
pub open spec fn text_eq(seg: Seq<u8>, lit: Seq<u8>, ignore_case: bool) -> bool {
    if ignore_case {
        lower_seq(seg) == lower_seq(lit)
    } else {
        seg == lit
    }
}

/// Outcome of matching a pattern against the start of a path: the
/// parameters captured and the part of the path that is left.
pub struct MatchView {
    pub params: Seq<ParamView>,
    pub rest: Seq<u8>,
}

/// `params` put in front of what `m` captured.
pub open spec fn with_params(params: Seq<ParamView>, m: Option<MatchView>) -> Option<MatchView> {
    match m {
        Some(found) => Some(MatchView { params: params + found.params, rest: found.rest }),
        None => None,
    }
}

/// Matches `pat` against the start of `path`, segment by segment. Each
/// segment of the pattern takes a slash and the text up to the next slash:
/// a literal takes the text that equals it, a parameter any non-empty text.
pub open spec fn match_at(pat: Seq<SegmentView>, path: Seq<u8>, ignore_case: bool) -> Option<
    MatchView,
>
    decreases pat.len(),
{
    if pat.len() == 0 {
        Some(MatchView { params: Seq::empty(), rest: path })
    } else if path.len() == 0 || path[0] != SLASH {
        None
    } else {
        let body = path.skip(1);
        let n = segment_len(body);
        let seg = body.take(n);
        let rest = body.skip(n);
        match pat[0] {
            SegmentView::Static(lit) => if text_eq(seg, lit, ignore_case) {
                match_at(pat.skip(1), rest, ignore_case)
            } else {
                None
            },
            SegmentView::Param(name) => if n > 0 {
                with_params(
                    seq![ParamView { name, value: seg }],
                    match_at(pat.skip(1), rest, ignore_case),
                )
            } else {
                None
            },
        }
    }
}

/// Whether `pat` matches all of `path`.
pub open spec fn matches_fully(pat: Seq<SegmentView>, path: Seq<u8>, ignore_case: bool) -> bool {
    match match_at(pat, path, ignore_case) {
        Some(m) => m.rest.len() == 0,
        None => false,
    }
}

/// A parsed pattern.
#[derive(Debug)]
pub struct ResourceDef {
    pub segments: Vec<Segment>,
}

impl View for ResourceDef {
    type V = Seq<SegmentView>;

    open spec fn view(&self) -> Seq<SegmentView> {
        segment_views(self.segments@)
    }
}

/// End of the segment that begins at `start`.
fn segment_end(path: &[u8], start: usize) -> (end: usize)
    requires
        start <= path@.len(),
    ensures
        start <= end <= path@.len(),
        end - start == segment_len(path@.skip(start as int)),
{
    let mut end: usize = start;
    while end < path.len() && path[end] != SLASH
        invariant
            start <= end <= path@.len(),
            forall|j: int| start <= j < end ==> path@[j] != SLASH,
        decreases path@.len() - end,
    {
        end += 1;
    }
    proof {
        lemma_segment_len(path@.skip(start as int), end - start);
    }
    end
}

/// Computes `has_brace`.
fn holds_brace(t: &[u8]) -> (b: bool)
    ensures
        b == has_brace(t@),
{
    let mut i: usize = 0;
    while i < t.len()
        invariant
            i <= t@.len(),
            forall|j: int| 0 <= j < i ==> !(t@[j] == OPEN || t@[j] == CLOSE),
        decreases t@.len() - i,
    {
        if t[i] == OPEN || t[i] == CLOSE {
            return true;
        }
        i += 1;
    }
    false
}

/// Computes `parse_segment`.
fn read_segment(t: &[u8]) -> (r: Result<Segment, PatternError>)
    ensures
        match r {
            Ok(seg) => parse_segment(t@) == Ok::<SegmentView, PatternError>(seg@),
            Err(e) => parse_segment(t@) == Err::<SegmentView, PatternError>(e),
        },
{
    if !holds_brace(t) {
        return Ok(Segment::Static(slice_to_vec(t)));
    }
    let len = t.len();
    if len >= 2 && t[0] == OPEN && t[len - 1] == CLOSE {
        let name = slice_subrange(t, 1, len - 1);
        if name.len() == 0 {
            Err(PatternError::EmptyName)
        } else if holds_brace(name) {
            Err(PatternError::Malformed)
        } else {
            Ok(Segment::Param(slice_to_vec(name)))
        }
    } else {
        Err(PatternError::Malformed)
    }
}

impl ResourceDef {
    /// The empty pattern, which matches the empty path and, as a prefix,
    /// the start of every path.
    pub fn root() -> (def: ResourceDef)
        ensures
            def@ == Seq::<SegmentView>::empty(),
    {
        ResourceDef { segments: Vec::new() }
    }

    /// Parses a pattern text.
    pub fn new(pattern: &[u8]) -> (r: Result<ResourceDef, PatternError>)
        ensures
            match r {
                Ok(def) => parse_pattern(pattern@) == Ok::<Seq<SegmentView>, PatternError>(def@),
                Err(e) => parse_pattern(pattern@) == Err::<Seq<SegmentView>, PatternError>(e),
            },
    {
        let len = pattern.len();
        if len == 0 {
            return Ok(ResourceDef::root());
        }
        if pattern[0] != SLASH {
            return Err(PatternError::MissingSlash);
        }
        let mut segments: Vec<Segment> = Vec::new();
        let mut pos: usize = 1;
        proof {
            if let Ok(more) = parse_segments(pattern@.skip(1)) {
                assert(Seq::<SegmentView>::empty() + more =~= more);
            }
        }
        loop
            invariant
                len == pattern@.len(),
                1 <= pos <= len,
                pattern@[0] == SLASH,
                parse_segments(pattern@.skip(1)) == prepend(
                    segment_views(segments@),
                    parse_segments(pattern@.skip(pos as int)),
                ),
            decreases len - pos,
        {
            let end = segment_end(pattern, pos);
            let text = slice_subrange(pattern, pos, end);
            let ghost r = pattern@.skip(pos as int);
            let ghost done = segment_views(segments@);
            proof {
                lemma_segment_len_bounds(r);
                assert(text@ =~= r.take(segment_len(r)));
            }
            match read_segment(text) {
                Err(e) => {
                    return Err(e);
                },
                Ok(seg) => {
                    segments.push(seg);
                    proof {
                        assert(segment_views(segments@) =~= done + seq![seg@]);
                    }
                    if end == len {
                        return Ok(ResourceDef { segments });
                    }
                    proof {
                        assert(r.skip(segment_len(r) + 1) =~= pattern@.skip(end + 1));
                        match parse_segments(pattern@.skip(end + 1)) {
                            Ok(more) => {
                                assert(done + (seq![seg@] + more) =~= (done + seq![seg@]) + more);
                            },
                            Err(_) => {},
                        }
                    }
                    pos = end + 1;
                },
            }
        }
    }

    /// Matches the pattern against `path` from position `start` on. Gives
    /// the captured parameters and the position where the match ends.
    pub fn match_prefix(&self, path: &[u8], start: usize, ignore_case: bool) -> (r: Option<
        (Vec<Param>, usize),
    >)
        requires
            start <= path@.len(),
        ensures
            match r {
                Some((params, end)) => start <= end <= path@.len() && match_at(
                    self@,
                    path@.skip(start as int),
                    ignore_case,
                ) == Some(MatchView { params: param_views(params@), rest: path@.skip(end as int) }),
                None => match_at(self@, path@.skip(start as int), ignore_case) is None,
            },
    {
        let mut params: Vec<Param> = Vec::new();
        let mut pos: usize = start;
        let mut k: usize = 0;
        proof {
            assert(self@.skip(0) =~= self@);
            if let Some(m) = match_at(self@, path@.skip(start as int), ignore_case) {
                assert(Seq::<ParamView>::empty() + m.params =~= m.params);
            }
        }
        while k < self.segments.len()
            invariant
                k <= self.segments@.len(),
                start <= pos <= path@.len(),
                match_at(self@, path@.skip(start as int), ignore_case) == with_params(
                    param_views(params@),
                    match_at(self@.skip(k as int), path@.skip(pos as int), ignore_case),
                ),
            decreases self.segments@.len() - k,
        {
            let ghost pat = self@.skip(k as int);
            let ghost here = path@.skip(pos as int);
            let ghost done = param_views(params@);
            if pos >= path.len() || path[pos] != SLASH {
                return None;
            }
            let end = segment_end(path, pos + 1);
            let text = slice_subrange(path, pos + 1, end);
            proof {
                let body = here.skip(1);
                assert(body =~= path@.skip(pos + 1));
                lemma_segment_len_bounds(body);
                assert(text@ =~= body.take(segment_len(body)));
                assert(body.skip(segment_len(body)) =~= path@.skip(end as int));
                assert(pat.skip(1) =~= self@.skip(k + 1));
            }
            match &self.segments[k] {
                Segment::Static(lit) => {
                    let same = if ignore_case {
                        bytes_eq_ignore_case(text, lit.as_slice())
                    } else {
                        bytes_eq(text, lit.as_slice())
                    };
                    if !same {
                        return None;
                    }
                },
                Segment::Param(name) => {
                    if end == pos + 1 {
                        return None;
                    }
                    let param = Param { name: slice_to_vec(name.as_slice()), value: slice_to_vec(text) };
                    params.push(param);
                    proof {
                        assert(param_views(params@) =~= done + seq![param@]);
                        match match_at(self@.skip(k + 1), path@.skip(end as int), ignore_case) {
                            Some(m) => {
                                assert(done + (seq![param@] + m.params) =~= (done + seq![param@])
                                    + m.params);
                            },
                            None => {},
                        }
                    }
                },
            }
            pos = end;
            k += 1;
        }
        Some((params, pos))
    }
}

} // verus!
