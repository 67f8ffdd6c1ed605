//! Path patterns of routes: literal segments, parameters that capture one
//! segment, and a trailing wildcard that captures the rest of the path.
use vstd::prelude::*;
use crate::text::{append_text, chars_of, join, rows, same_text, split, split_text, string_of};

verus! {

/// One segment of a pattern.
#[derive(Clone, Debug, PartialEq, Eq)]
pub enum Segment {
    /// Matches the segment that holds exactly these characters.
    Literal(Vec<char>),
    /// Matches any one segment and captures it. Written `:name`.
    Param,
    /// Matches what is left of the path, one segment or more, and captures
    /// it with its separators. Written `*name`.
    Wildcard,
}

/// A segment as a plain value.
pub enum SegmentView {
    Literal(Seq<char>),
    Param,
    Wildcard,
}

impl View for Segment {
    type V = SegmentView;

    open spec fn view(&self) -> SegmentView {
        match *self {
            Segment::Literal(text) => SegmentView::Literal(text@),
            Segment::Param => SegmentView::Param,
            Segment::Wildcard => SegmentView::Wildcard,
        }
    }
}

impl Segment {
    /// Whether two segments are the same.
    pub fn same(&self, other: &Segment) -> (r: bool)
        ensures
            r == (self@ == other@),
    {
        match (self, other) {
            (Segment::Literal(a), Segment::Literal(b)) => same_text(a, b),
            (Segment::Param, Segment::Param) => true,
            (Segment::Wildcard, Segment::Wildcard) => true,
            _ => false,
        }
    }
}

/// The segments that a vector of segments holds, as plain values.
pub open spec fn shape(segments: Seq<Segment>) -> Seq<SegmentView> {
    Seq::new(segments.len(), |i: int| segments[i]@)
}

/// The strings of a vector, as plain values.
pub open spec fn texts(strings: Seq<String>) -> Seq<Seq<char>> {
    Seq::new(strings.len(), |i: int| strings[i]@)
}

/// A path or a pattern without the one separator that may close it.
pub open spec fn trim_slash(text: Seq<char>) -> Seq<char> {
    if text.len() > 0 && text.last() == '/' {
        text.drop_last()
    } else {
        text
    }
}

/// The segments of a request path: the pieces between its separators, once
/// a closing separator is taken off. The path `/a/b` has the segments ``,
/// `a` and `b`.
pub open spec fn path_pieces(text: Seq<char>) -> Seq<Seq<char>> {
    split(trim_slash(text), '/')
}

/// The segment that a piece of a pattern's text stands for.
pub open spec fn segment_of(piece: Seq<char>) -> SegmentView {
    if piece.len() > 0 && piece[0] == ':' {
        SegmentView::Param
    } else if piece.len() > 0 && piece[0] == '*' {
        SegmentView::Wildcard
    } else {
        SegmentView::Literal(piece)
    }
}

/// The segments that a pattern's text stands for.
pub open spec fn pattern_of(text: Seq<char>) -> Seq<SegmentView> {
    Seq::new(path_pieces(text).len(), |i: int| segment_of(path_pieces(text)[i]))
}

/// A wildcard stands nowhere but at the end.
pub open spec fn wildcard_last(pattern: Seq<SegmentView>) -> bool {
    forall|i: int| 0 <= i < pattern.len() - 1 ==> !(#[trigger] pattern[i] is Wildcard)
}

/// Whether the pattern ends in a wildcard.
pub open spec fn ends_in_wildcard(pattern: Seq<SegmentView>) -> bool {
    pattern.len() > 0 && pattern.last() is Wildcard
}

/// The captures followed by those of the rest, where the rest matches.
pub open spec fn captured_before(
    captures: Seq<Seq<char>>,
    rest: Option<Seq<Seq<char>>>,
) -> Option<Seq<Seq<char>>> {
    match rest {
        Some(more) => Some(captures + more),
        None => None,
    }
}

/// What a pattern captures from the segments of a path, or `None` where it
/// does not match. Segments are taken in turn: a literal asks for its own
/// text, a parameter takes any one segment, and a wildcard in last place
/// takes all that is left, which must be a segment at least. Pattern and
/// path must end together.
pub open spec fn match_segments(pattern: Seq<SegmentView>, path: Seq<Seq<char>>) -> Option<
    Seq<Seq<char>>,
>
    decreases pattern.len(),
{
    if pattern.len() == 0 {
        if path.len() == 0 {
            Some(Seq::<Seq<char>>::empty())
        } else {
            None
        }
    } else if path.len() == 0 {
        None
    } else {
        match pattern[0] {
            SegmentView::Literal(text) => if path[0] == text {
                match_segments(pattern.skip(1), path.skip(1))
            } else {
                None
            },
            SegmentView::Param => captured_before(
                seq![path[0]],
                match_segments(pattern.skip(1), path.skip(1)),
            ),
            SegmentView::Wildcard => if pattern.len() == 1 {
                Some(seq![join(path, '/')])
            } else {
                None
            },
        }
    }
}

/// Why a text is no pattern.
#[derive(Clone, Copy, Debug, PartialEq, Eq, Structural)]
pub enum PatternError {
    /// A wildcard stands before the last segment.
    WildcardNotLast,
}

/// The segments of a request path, computed.
pub fn pieces_of(text: &str) -> (pieces: Vec<Vec<char>>)
    ensures
        rows(pieces@) == path_pieces(text@),
{
    let mut chars = chars_of(text);
    if chars.len() > 0 && chars[chars.len() - 1] == '/' {
        chars.pop();
    }
    split_text(&chars, '/')
}

/// The pieces from `from` on, joined by `sep`.
fn join_from(pieces: &Vec<Vec<char>>, from: usize, sep: char) -> (text: Vec<char>)
    requires
        from <= pieces.len(),
    ensures
        text@ == join(rows(pieces@).skip(from as int), sep),
{
    let mut text: Vec<char> = Vec::new();
    let mut i: usize = from;
    let ghost all = rows(pieces@);
    proof {
        assert(all.subrange(from as int, from as int) =~= Seq::<Seq<char>>::empty());
    }
    while i < pieces.len()
        invariant
            from <= i <= pieces.len(),
            all == rows(pieces@),
            text@ == join(all.subrange(from as int, i as int), sep),
        decreases pieces.len() - i,
    {
        proof {
            let upto = all.subrange(from as int, i + 1);
            assert(upto.drop_last() =~= all.subrange(from as int, i as int));
            assert(upto.last() == pieces@[i as int]@);
            if i == from {
                assert(join(upto, sep) == upto[0]);
                assert(text@ =~= Seq::<char>::empty());
                assert(text@ + pieces@[i as int]@ =~= pieces@[i as int]@);
            }
        }
        if i > from {
            text.push(sep);
        }
        append_text(&mut text, &pieces[i]);
        i += 1;
    }
    proof {
        assert(all.subrange(from as int, pieces@.len() as int) =~= all.skip(from as int));
    }
    text
}

/// The pattern of a route.
#[derive(Debug, PartialEq, Eq)]
pub struct Pattern {
    segments: Vec<Segment>,
}

impl View for Pattern {
    type V = Seq<SegmentView>;

    closed spec fn view(&self) -> Seq<SegmentView> {
        shape(self.segments@)
    }
}

impl Pattern {
    /// A pattern has a segment at least, and a wildcard only at its end.
    #[verifier::type_invariant]
    pub closed spec fn wf(&self) -> bool {
        self@.len() > 0 && wildcard_last(self@)
    }

    /// Reads a pattern such as `/meta/gist/:id` or `/assets/*asset`.
    pub fn parse(text: &str) -> (r: Result<Pattern, PatternError>)
        ensures
            match r {
                Ok(pattern) => pattern@ == pattern_of(text@) && wildcard_last(pattern@)
                    && pattern@.len() > 0,
                Err(e) => e == PatternError::WildcardNotLast && !wildcard_last(pattern_of(text@)),
            },
    {
        let pieces = pieces_of(text);
        proof {
            crate::text::lemma_split_pieces(trim_slash(text@), '/');
        }
        let mut segments: Vec<Segment> = Vec::new();
        let mut i: usize = 0;
        while i < pieces.len()
            invariant
                i <= pieces.len(),
                rows(pieces@) == path_pieces(text@),
                segments@.len() == i,
                forall|j: int| 0 <= j < i ==> (#[trigger] segments@[j])@ == pattern_of(text@)[j],
                forall|j: int|
                    0 <= j < i && j < pieces.len() - 1 ==> !(#[trigger] pattern_of(text@)[j]
                        is Wildcard),
            decreases pieces.len() - i,
        {
            let piece = &pieces[i];
            proof {
                assert(rows(pieces@)[i as int] == piece@);
            }
            let segment = if piece.len() > 0 && piece[0] == ':' {
                Segment::Param
            } else if piece.len() > 0 && piece[0] == '*' {
                Segment::Wildcard
            } else {
                Segment::Literal(piece.clone())
            };
            assert(segment@ == pattern_of(text@)[i as int]);
            if i + 1 < pieces.len() {
                if let Segment::Wildcard = segment {
                    return Err(PatternError::WildcardNotLast);
                }
            }
            segments.push(segment);
            i += 1;
        }
        proof {
            assert(shape(segments@) =~= pattern_of(text@));
        }
        Ok(Pattern { segments })
    }

    /// The pattern made of the segments, if a wildcard among them stands
    /// last and there is a segment at all.
    pub fn from_segments(segments: Vec<Segment>) -> (r: Result<Pattern, PatternError>)
        ensures
            match r {
                Ok(pattern) => pattern@ == shape(segments@) && wildcard_last(pattern@)
                    && pattern@.len() > 0,
                Err(e) => e == PatternError::WildcardNotLast && !(wildcard_last(shape(segments@))
                    && segments@.len() > 0),
            },
    {
        if segments.len() == 0 {
            return Err(PatternError::WildcardNotLast);
        }
        let mut i: usize = 0;
        while i + 1 < segments.len()
            invariant
                i < segments.len(),
                forall|j: int| 0 <= j < i ==> !(#[trigger] shape(segments@)[j] is Wildcard),
            decreases segments.len() - i,
        {
            if let Segment::Wildcard = &segments[i] {
                assert(shape(segments@)[i as int] is Wildcard);
                return Err(PatternError::WildcardNotLast);
            }
            i += 1;
        }
        Ok(Pattern { segments })
    }

    /// Whether two patterns are the same, segment by segment.
    pub fn same(&self, other: &Pattern) -> (r: bool)
        ensures
            r == (self@ == other@),
    {
        if self.segments.len() != other.segments.len() {
            assert(self@.len() != other@.len());
            return false;
        }
        let mut i: usize = 0;
        while i < self.segments.len()
            invariant
                i <= self.segments.len(),
                self.segments.len() == other.segments.len(),
                forall|j: int| 0 <= j < i ==> self@[j] == other@[j],
            decreases self.segments.len() - i,
        {
            if !self.segments[i].same(&other.segments[i]) {
                assert(self@[i as int] != other@[i as int]);
                return false;
            }
            i += 1;
        }
        assert(self@ =~= other@);
        true
    }

    /// Whether the pattern ends in a wildcard.
    pub fn has_wildcard(&self) -> (r: bool)
        ensures
            r == ends_in_wildcard(self@),
    {
        proof {
            use_type_invariant(self);
        }
        match &self.segments[self.segments.len() - 1] {
            Segment::Wildcard => true,
            _ => false,
        }
    }

    /// Matches a request path against the pattern and hands back what the
    /// parameters and the wildcard captured, in order.
    pub fn matches(&self, path: &str) -> (r: Option<Vec<String>>)
        ensures
            match r {
                Some(found) => match_segments(self@, path_pieces(path@)) == Some(texts(found@)),
                None => match_segments(self@, path_pieces(path@)) is None,
            },
    {
        let pieces = pieces_of(path);
        self.captures(&pieces)
    }

    /// Matches the segments of a request path against the pattern and hands
    /// back what the parameters and the wildcard captured, in order.
    pub fn captures(&self, path: &Vec<Vec<char>>) -> (r: Option<Vec<String>>)
        ensures
            match r {
                Some(found) => match_segments(self@, rows(path@)) == Some(texts(found@)),
                None => match_segments(self@, rows(path@)) is None,
            },
    {
        let mut found: Vec<String> = Vec::new();
        let mut i: usize = 0;
        let ghost pattern = self@;
        let ghost segments = rows(path@);
        proof {
            assert(pattern.skip(0) =~= pattern);
            assert(segments.skip(0) =~= segments);
            assert(texts(found@) =~= Seq::<Seq<char>>::empty());
            assert(match_segments(pattern, segments) == captured_before(
                texts(found@),
                match_segments(pattern, segments),
            )) by {
                if let Some(more) = match_segments(pattern, segments) {
                    assert(texts(found@) + more =~= more);
                }
            }
        }
        while i < self.segments.len()
            invariant
                i <= self.segments.len(),
                i <= path.len(),
                pattern == self@,
                segments == rows(path@),
                match_segments(pattern, segments) == captured_before(
                    texts(found@),
                    match_segments(pattern.skip(i as int), segments.skip(i as int)),
                ),
            decreases self.segments.len() - i,
        {
            if i == path.len() {
                return None;
            }
            proof {
                assert(pattern.skip(i as int)[0] == self.segments@[i as int]@);
                assert(segments.skip(i as int)[0] == path@[i as int]@);
                assert(pattern.skip(i as int).skip(1) =~= pattern.skip(i + 1));
                assert(segments.skip(i as int).skip(1) =~= segments.skip(i + 1));
            }
            match &self.segments[i] {
                Segment::Literal(text) => {
                    if !same_text(text, &path[i]) {
                        return None;
                    }
                },
                Segment::Param => {
                    let ghost before = texts(found@);
                    let value = string_of(&path[i]);
                    found.push(value);
                    proof {
                        assert(texts(found@) =~= before.push(path@[i as int]@));
                        if let Some(more) = match_segments(
                            pattern.skip(i + 1),
                            segments.skip(i + 1),
                        ) {
                            assert(before + (seq![path@[i as int]@] + more) =~= texts(found@)
                                + more);
                        }
                    }
                },
                Segment::Wildcard => {
                    if i + 1 != self.segments.len() {
                        return None;
                    }
                    let ghost before = texts(found@);
                    let rest = join_from(path, i, '/');
                    found.push(string_of(&rest));
                    proof {
                        assert(texts(found@) =~= before + seq![rest@]);
                    }
                    return Some(found);
                },
            }
            i += 1;
        }
        if i == path.len() {
            proof {
                assert(texts(found@) + Seq::<Seq<char>>::empty() =~= texts(found@));
            }
            Some(found)
        } else {
            None
        }
    }
}

} // verus!
