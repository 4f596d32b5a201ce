//! Route patterns: literal segments, named parameters and an optional
//! trailing wildcard, and how a request path is matched against them.

use routerify::RouteParams;
use vstd::prelude::*;

use crate::params::{new_params, no_params, param_entries, set_param};
use crate::text::{
    chars_of, join_slash, join_tail, lemma_split_join, lemma_split_pieces, split_slash,
    split_tail, text_of,
};

verus! {

/// The segments of a path: the pieces between the slashes behind the leading
/// `/`, where one trailing slash counts for nothing. A text that does not
/// begin with `/` has no segments to speak of.
pub open spec fn path_segments(path: Seq<char>) -> Option<Seq<Seq<char>>> {
    if path.len() > 0 && path[0] == '/' {
        let pieces = split_slash(path.skip(1));
        if pieces.last().len() == 0 {
            Some(pieces.drop_last())
        } else {
            Some(pieces)
        }
    } else {
        None
    }
}

/// Cuts a path into its segments.
pub fn segments_of(path: &str) -> (segments: Option<Vec<String>>)
    ensures
        match segments {
            Some(found) => path_segments(path@) == Some(text_of(found@)),
            None => path_segments(path@) is None,
        },
{
    let chars = chars_of(path);
    if chars.len() == 0 || chars[0] != '/' {
        return None;
    }
    let mut pieces = split_tail(path, &chars, 1);
    proof {
        lemma_split_pieces(path@.skip(1));
    }
    let ghost all = text_of(pieces@);
    let last = pieces.len() - 1;
    if pieces[last].as_str().is_empty() {
        pieces.pop();
        assert(text_of(pieces@) =~= all.drop_last());
    }
    Some(pieces)
}

/// One fixed position of a pattern.
#[derive(Clone, Debug, PartialEq, Eq)]
pub enum Segment {
    /// Matches the path segment that is this text.
    Literal(String),
    /// Matches any one non-empty path segment and binds it to this name.
    Param(String),
}

/// The mathematical content of a [`Segment`].
pub enum SegmentView {
    Literal(Seq<char>),
    Param(Seq<char>),
}

impl View for Segment {
    type V = SegmentView;

    open spec fn view(&self) -> SegmentView {
        match self {
            Segment::Literal(text) => SegmentView::Literal(text@),
            Segment::Param(name) => SegmentView::Param(name@),
        }
    }
}

impl SegmentView {
    /// Whether this position of a pattern takes the path segment `piece`.
    pub open spec fn accepts(self, piece: Seq<char>) -> bool {
        match self {
            SegmentView::Literal(text) => piece == text,
            SegmentView::Param(_) => piece.len() > 0,
        }
    }
}

/// A route pattern: fixed segments, then perhaps a wildcard that takes
/// whatever is left of the path.
#[derive(Clone, Debug, PartialEq, Eq)]
pub struct Pattern {
    pub segments: Vec<Segment>,
    pub wildcard: bool,
}

/// The mathematical content of a [`Pattern`].
pub struct PatternView {
    pub segments: Seq<SegmentView>,
    pub wildcard: bool,
}

impl View for Pattern {
    type V = PatternView;

    open spec fn view(&self) -> PatternView {
        PatternView {
            segments: Seq::new(self.segments.len() as nat, |i: int| self.segments[i]@),
            wildcard: self.wildcard,
        }
    }
}

/// The name under which a wildcard binds the rest of the path.
pub open spec fn wildcard_name() -> Seq<char> {
    seq!['*']
}

impl PatternView {
    /// Whether the pattern matches a path with these segments: each fixed
    /// position takes the segment at its place, and the path ends where the
    /// pattern does unless a wildcard takes the rest.
    pub open spec fn matches(self, segments: Seq<Seq<char>>) -> bool {
        &&& if self.wildcard {
            segments.len() >= self.segments.len()
        } else {
            segments.len() == self.segments.len()
        }
        &&& forall|i: int|
            0 <= i < self.segments.len() ==> (#[trigger] self.segments[i]).accepts(segments[i])
    }

    /// The bindings that the first `count` positions make, a later position
    /// overriding an earlier one of the same name.
    pub open spec fn bound(self, segments: Seq<Seq<char>>, count: nat) -> Map<Seq<char>, Seq<char>>
        decreases count,
    {
        if count == 0 {
            no_params()
        } else {
            let before = self.bound(segments, (count - 1) as nat);
            match self.segments[count - 1] {
                SegmentView::Param(name) => before.insert(name, segments[count - 1]),
                SegmentView::Literal(_) => before,
            }
        }
    }

    /// The parameters that a match against `segments` extracts: each named
    /// position binds its segment, and a wildcard binds the rest of the
    /// path, slashes included, to [`wildcard_name`].
    pub open spec fn bindings(self, segments: Seq<Seq<char>>) -> Map<Seq<char>, Seq<char>> {
        let fixed = self.bound(segments, self.segments.len());
        if self.wildcard {
            fixed.insert(wildcard_name(), join_slash(segments.skip(self.segments.len() as int)))
        } else {
            fixed
        }
    }
}

/// Whether one of the first `count` positions of the pattern is the
/// parameter `name`.
pub open spec fn names_param(pattern: PatternView, name: Seq<char>, count: int) -> bool {
    exists|i: int| 0 <= i < count && #[trigger] pattern.segments[i] == SegmentView::Param(name)
}

/// The first `count` positions bind exactly the names of the parameters
/// among them.
proof fn lemma_bound_names(
    pattern: PatternView,
    segments: Seq<Seq<char>>,
    name: Seq<char>,
    count: nat,
)
    requires
        count <= pattern.segments.len(),
    ensures
        pattern.bound(segments, count).dom().contains(name) <==> names_param(
            pattern,
            name,
            count as int,
        ),
    decreases count,
{
    if count > 0 {
        lemma_bound_names(pattern, segments, name, (count - 1) as nat);
        if names_param(pattern, name, count as int) {
            let i = choose|i: int|
                0 <= i < count && #[trigger] pattern.segments[i] == SegmentView::Param(name);
            if i < count - 1 {
                assert(names_param(pattern, name, count - 1));
            }
        }
        if names_param(pattern, name, count - 1) {
            let i = choose|i: int|
                0 <= i < count - 1 && #[trigger] pattern.segments[i] == SegmentView::Param(name);
            assert(pattern.segments[i] == SegmentView::Param(name));
        }
        if pattern.segments[count - 1] == SegmentView::Param(name) {
            assert(names_param(pattern, name, count as int));
        }
    }
}

/// Once past the last position that binds `name`, the bindings hold the
/// segment of that position under the name.
proof fn lemma_bound_value(
    pattern: PatternView,
    segments: Seq<Seq<char>>,
    name: Seq<char>,
    index: int,
    count: nat,
)
    requires
        0 <= index < count <= pattern.segments.len(),
        pattern.segments[index] == SegmentView::Param(name),
        forall|j: int|
            index < j < pattern.segments.len() ==> #[trigger] pattern.segments[j]
                != SegmentView::Param(name),
    ensures
        pattern.bound(segments, count).dom().contains(name),
        pattern.bound(segments, count)[name] == segments[index],
    decreases count,
{
    if count - 1 > index {
        lemma_bound_value(pattern, segments, name, index, (count - 1) as nat);
        assert(pattern.segments[count - 1] != SegmentView::Param(name));
    }
}

/// A match binds exactly the names of the pattern's parameters and, where
/// the pattern ends in a wildcard, the wildcard's name.
pub proof fn lemma_bindings_names(pattern: PatternView, segments: Seq<Seq<char>>, name: Seq<char>)
    ensures
        pattern.bindings(segments).dom().contains(name) <==> names_param(
            pattern,
            name,
            pattern.segments.len() as int,
        ) || (pattern.wildcard && name == wildcard_name()),
{
    lemma_bound_names(pattern, segments, name, pattern.segments.len());
}

/// A named position binds exactly one path segment, the one at its place,
/// unless a later position or the wildcard takes the same name.
pub proof fn lemma_param_binds_its_segment(
    pattern: PatternView,
    segments: Seq<Seq<char>>,
    name: Seq<char>,
    index: int,
)
    requires
        0 <= index < pattern.segments.len(),
        pattern.segments[index] == SegmentView::Param(name),
        forall|j: int|
            index < j < pattern.segments.len() ==> #[trigger] pattern.segments[j]
                != SegmentView::Param(name),
        !(pattern.wildcard && name == wildcard_name()),
    ensures
        pattern.bindings(segments).dom().contains(name),
        pattern.bindings(segments)[name] == segments[index],
{
    lemma_bound_value(pattern, segments, name, index, pattern.segments.len());
}

/// A trailing wildcard binds the rest of the path behind the fixed
/// positions, with the slashes between its segments.
pub proof fn lemma_wildcard_binds_the_rest(pattern: PatternView, segments: Seq<Seq<char>>)
    requires
        pattern.wildcard,
    ensures
        pattern.bindings(segments).dom().contains(wildcard_name()),
        pattern.bindings(segments)[wildcard_name()] == join_slash(
            segments.skip(pattern.segments.len() as int),
        ),
{
}

impl Pattern {
    /// Whether the pattern matches a path with these segments.
    pub fn matches(&self, segments: &Vec<String>) -> (matched: bool)
        ensures
            matched == self@.matches(text_of(segments@)),
    {
        let n = self.segments.len();
        if segments.len() < n || (!self.wildcard && segments.len() != n) {
            return false;
        }
        let mut i: usize = 0;
        while i < n
            invariant
                n == self.segments.len(),
                n <= segments.len(),
                i <= n,
                forall|j: int|
                    0 <= j < i ==> (#[trigger] self@.segments[j]).accepts(text_of(segments@)[j]),
            decreases n - i,
        {
            let accepted = match &self.segments[i] {
                Segment::Literal(text) => *text == segments[i],
                Segment::Param(_) => !segments[i].as_str().is_empty(),
            };
            assert(accepted == self@.segments[i as int].accepts(text_of(segments@)[i as int]));
            if !accepted {
                return false;
            }
            i += 1;
        }
        true
    }

    /// Matches the pattern against a path with these segments and, when it
    /// matches, extracts the parameters.
    pub fn capture(&self, segments: &Vec<String>) -> (captured: Option<RouteParams>)
        ensures
            match captured {
                Some(params) => self@.matches(text_of(segments@)) && param_entries(params)
                    == self@.bindings(text_of(segments@)),
                None => !self@.matches(text_of(segments@)),
            },
    {
        if !self.matches(segments) {
            return None;
        }
        let n = self.segments.len();
        let mut params = new_params();
        let mut i: usize = 0;
        while i < n
            invariant
                n == self.segments.len(),
                n <= segments.len(),
                i <= n,
                param_entries(params) == self@.bound(text_of(segments@), i as nat),
            decreases n - i,
        {
            match &self.segments[i] {
                Segment::Param(name) => {
                    set_param(&mut params, name.as_str(), segments[i].as_str());
                },
                Segment::Literal(_) => {},
            }
            i += 1;
        }
        if self.wildcard {
            let rest = join_tail(segments, n);
            proof {
                reveal_strlit("*");
            }
            assert("*"@ =~= wildcard_name());
            set_param(&mut params, "*", rest.as_str());
        }
        Some(params)
    }
}

/// What is wrong with the text of a pattern.
#[derive(Clone, Copy, Debug, PartialEq, Eq, Structural)]
pub enum PatternError {
    /// The text does not begin with `/`.
    MissingLeadingSlash,
    /// Two slashes meet: a segment is empty.
    EmptySegment,
    /// A segment is the marker `:` with no name behind it.
    EmptyParamName,
    /// A `*` stands anywhere but alone in the last segment.
    MisplacedWildcard,
}

/// What is wrong with one fixed segment of a pattern's text, if anything.
pub open spec fn piece_error(piece: Seq<char>) -> Option<PatternError> {
    if piece.len() == 0 {
        Some(PatternError::EmptySegment)
    } else if piece.contains('*') {
        Some(PatternError::MisplacedWildcard)
    } else if piece.len() == 1 && piece[0] == ':' {
        Some(PatternError::EmptyParamName)
    } else {
        None
    }
}

/// The segment that a fixed piece of a pattern's text stands for: a piece
/// that begins with `:` names a parameter, any other is taken literally.
pub open spec fn segment_of(piece: Seq<char>) -> SegmentView {
    if piece.len() > 0 && piece[0] == ':' {
        SegmentView::Param(piece.skip(1))
    } else {
        SegmentView::Literal(piece)
    }
}

/// Whether `index` is the first piece with something wrong.
pub open spec fn is_first_bad(pieces: Seq<Seq<char>>, index: int) -> bool {
    &&& 0 <= index < pieces.len()
    &&& piece_error(pieces[index]) is Some
    &&& forall|j: int| 0 <= j < index ==> piece_error(#[trigger] pieces[j]) is None
}

/// Whether the text of a pattern ends in a wildcard segment.
pub open spec fn ends_in_wildcard(pieces: Seq<Seq<char>>) -> bool {
    pieces.len() > 0 && pieces.last() == wildcard_name()
}

/// The fixed pieces of a pattern's text: all of them but a final wildcard.
pub open spec fn fixed_pieces(pieces: Seq<Seq<char>>) -> Seq<Seq<char>> {
    if ends_in_wildcard(pieces) {
        pieces.drop_last()
    } else {
        pieces
    }
}

/// The pattern that a text stands for, or what is wrong with the text. Of
/// several faulty segments the first one decides the error.
pub open spec fn pattern_of(text: Seq<char>) -> Result<PatternView, PatternError> {
    match path_segments(text) {
        None => Err(PatternError::MissingLeadingSlash),
        Some(pieces) => {
            let fixed = fixed_pieces(pieces);
            if exists|i: int| is_first_bad(fixed, i) {
                Err(piece_error(fixed[choose|i: int| is_first_bad(fixed, i)])->0)
            } else {
                Ok(
                    PatternView {
                        segments: Seq::new(fixed.len(), |i: int| segment_of(fixed[i])),
                        wildcard: ends_in_wildcard(pieces),
                    },
                )
            }
        },
    }
}

/// Reads one fixed segment of a pattern.
pub fn parse_segment(piece: &str) -> (parsed: Result<Segment, PatternError>)
    ensures
        match parsed {
            Ok(segment) => piece_error(piece@) is None && segment@ == segment_of(piece@),
            Err(error) => piece_error(piece@) == Some(error),
        },
{
    let chars = chars_of(piece);
    let n = chars.len();
    if n == 0 {
        return Err(PatternError::EmptySegment);
    }
    let mut i: usize = 0;
    while i < n
        invariant
            chars@ == piece@,
            n == chars.len(),
            i <= n,
            forall|j: int| 0 <= j < i ==> piece@[j] != '*',
        decreases n - i,
    {
        if chars[i] == '*' {
            assert(piece@.contains(piece@[i as int]));
            return Err(PatternError::MisplacedWildcard);
        }
        i += 1;
    }
    assert(!piece@.contains('*'));
    if chars[0] == ':' {
        if n == 1 {
            Err(PatternError::EmptyParamName)
        } else {
            Ok(Segment::Param(piece.substring_char(1, n).to_owned()))
        }
    } else {
        Ok(Segment::Literal(piece.to_owned()))
    }
}

/// Whether `piece` is the wildcard segment.
fn is_wildcard(piece: &str) -> (wild: bool)
    ensures
        wild == (piece@ == wildcard_name()),
{
    let chars = chars_of(piece);
    let wild = chars.len() == 1 && chars[0] == '*';
    assert(wild ==> piece@ =~= wildcard_name());
    wild
}

/// Reads a pattern from its text, such as `/users/:userId` or `/files/*`.
pub fn parse_pattern(text: &str) -> (parsed: Result<Pattern, PatternError>)
    ensures
        match parsed {
            Ok(pattern) => pattern_of(text@) == Ok::<PatternView, PatternError>(pattern@),
            Err(error) => pattern_of(text@) == Err::<PatternView, PatternError>(error),
        },
{
    let pieces = match segments_of(text) {
        Some(found) => found,
        None => {
            return Err(PatternError::MissingLeadingSlash);
        },
    };
    let n = pieces.len();
    let wildcard = n > 0 && is_wildcard(pieces[n - 1].as_str());
    let count = if wildcard {
        n - 1
    } else {
        n
    };
    let ghost fixed = fixed_pieces(text_of(pieces@));
    assert(fixed.len() == count);
    assert(forall|j: int| 0 <= j < count ==> fixed[j] == pieces@[j]@);
    let mut segments: Vec<Segment> = Vec::new();
    let mut i: usize = 0;
    while i < count
        invariant
            path_segments(text@) == Some(text_of(pieces@)),
            fixed == fixed_pieces(text_of(pieces@)),
            count <= pieces.len(),
            fixed.len() == count,
            forall|j: int| 0 <= j < count ==> fixed[j] == pieces@[j]@,
            i <= count,
            segments.len() == i,
            forall|j: int| 0 <= j < i ==> piece_error(#[trigger] fixed[j]) is None,
            forall|j: int| 0 <= j < i ==> (#[trigger] segments@[j])@ == segment_of(fixed[j]),
        decreases count - i,
    {
        match parse_segment(pieces[i].as_str()) {
            Ok(segment) => {
                segments.push(segment);
            },
            Err(error) => {
                proof {
                    assert(fixed[i as int] == pieces@[i as int]@);
                    assert(piece_error(fixed[i as int]) == Some(error));
                    assert(is_first_bad(fixed, i as int));
                    let first = choose|k: int| is_first_bad(fixed, k);
                    assert(is_first_bad(fixed, first));
                    assert(first == i) by {
                        if first < i {
                            assert(piece_error(fixed[first]) is None);
                        } else if first > i {
                            assert(piece_error(fixed[i as int]) is None);
                        }
                    }
                }
                return Err(error);
            },
        }
        i += 1;
    }
    assert(!exists|k: int| is_first_bad(fixed, k));
    let pattern = Pattern { segments, wildcard };
    assert(pattern@.segments =~= Seq::new(fixed.len(), |i: int| segment_of(fixed[i])));
    Ok(pattern)
}

/// A slash followed by segments joined with slashes is a path with exactly
/// those segments, provided that there is a segment, that none of them
/// holds a slash and that the last one is not empty.
pub proof fn lemma_segments_of_joined(pieces: Seq<Seq<char>>)
    requires
        pieces.len() >= 1,
        forall|i: int| 0 <= i < pieces.len() ==> !(#[trigger] pieces[i]).contains('/'),
        pieces.last().len() > 0,
    ensures
        path_segments(seq!['/'] + join_slash(pieces)) == Some(pieces),
{
    let path = seq!['/'] + join_slash(pieces);
    assert(path.skip(1) =~= join_slash(pieces));
    lemma_split_join(pieces);
}

/// A slash followed by faultless pieces joined with slashes is the text of
/// the pattern with the segments that the pieces stand for, in their order,
/// and without a wildcard unless the last piece is one.
pub proof fn lemma_pattern_of_joined(pieces: Seq<Seq<char>>)
    requires
        pieces.len() >= 1,
        forall|i: int| 0 <= i < pieces.len() ==> !(#[trigger] pieces[i]).contains('/'),
        forall|i: int| 0 <= i < pieces.len() ==> piece_error(#[trigger] pieces[i]) is None,
    ensures
        pattern_of(seq!['/'] + join_slash(pieces)) == Ok::<PatternView, PatternError>(
            PatternView {
                segments: Seq::new(pieces.len(), |i: int| segment_of(pieces[i])),
                wildcard: false,
            },
        ),
{
    assert(piece_error(pieces[pieces.len() - 1]) is None);
    lemma_segments_of_joined(pieces);
    assert(pieces.last().contains(pieces.last()[0]));
    assert(!ends_in_wildcard(pieces)) by {
        if pieces.last() == wildcard_name() {
            assert(pieces.last()[0] == '*');
        }
    }
    assert(!exists|k: int| is_first_bad(fixed_pieces(pieces), k));
}

} // verus!
