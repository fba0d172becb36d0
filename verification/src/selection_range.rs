//! Ranges of a selection document: their text, their place in the painted layouts and the caret.
use crate::element_id::ElementId;
use crate::geometry::{Bounds, Pixels, Point, Size};
use crate::selection::{ActionList, SelectionAction, TextLayout};
use crate::selection_document;
use crate::selection_document::{SelectionDocument, SelectionDocumentFragment};
use crate::utf16;
use crate::words;
use std::ops::Range;
use vstd::prelude::*;
use vstd::string::*;

verus! {

/// Snapshot of a read-only selection inside a selection area.
#[derive(Debug, PartialEq, Eq)]
pub struct ReadOnlySelectionSnapshot {
    /// The selected area's stable element id.
    pub area_id: ElementId,
    /// The selected range in the area's flattened UTF-16 document.
    pub range_utf16: Range<usize>,
    /// The text covered by `range_utf16`.
    pub text: String,
}

/// The smaller of two numbers.
pub open spec fn min(a: int, b: int) -> int {
    if a <= b {
        a
    } else {
        b
    }
}

/// The start of a range after both ends are limited to `len` and put in order.
pub open spec fn clamped_start(len: int, start: int, end: int) -> int {
    min(min(start, end), len)
}

/// The end of a range after both ends are limited to `len` and put in order.
pub open spec fn clamped_end(len: int, start: int, end: int) -> int {
    min(if start <= end { end } else { start }, len)
}

/// A range limited to `len` with its ends in order.
pub open spec fn clamp_range(len: usize, range: Range<usize>) -> Range<usize> {
    Range {
        start: clamped_start(len as int, range.start as int, range.end as int) as usize,
        end: clamped_end(len as int, range.start as int, range.end as int) as usize,
    }
}

/// A run of bytes in the text of one painted fragment.
#[derive(Debug, PartialEq, Eq)]
pub struct FragmentSpan {
    /// The place of the fragment among those registered in the frame.
    pub source_index: usize,
    pub layout: TextLayout,
    pub bytes: Range<usize>,
}

/// The part of a range that lies in the text of a fragment, relative to that text.
pub open spec fn local_part(fragment: SelectionDocumentFragment, range: Range<usize>) -> Option<
    (int, int),
> {
    if range.start >= fragment.content_end_utf16 || range.end <= fragment.content_start_utf16 {
        None
    } else {
        let start = if range.start <= fragment.content_start_utf16 {
            0
        } else {
            range.start - fragment.content_start_utf16
        };
        Some((start, min(range.end as int, fragment.content_end_utf16 as int)
            - fragment.content_start_utf16))
    }
}

impl<'a> SelectionDocumentFragment<'a> {
    /// Whether the ends of the fragment are in order.
    pub open spec fn ordered(self) -> bool {
        self.content_start_utf16 <= self.content_end_utf16 <= self.separator_end_utf16
    }

    /// Limits a range to the text of this fragment.
    pub fn local_utf16_range(&self, range_utf16: &Range<usize>) -> (local: Option<Range<usize>>)
        requires
            self.ordered(),
        ensures
            match local {
                Some(local) => local_part(*self, *range_utf16) == Some(
                    (local.start as int, local.end as int),
                ),
                None => local_part(*self, *range_utf16) is None,
            },
    {
        if range_utf16.start >= self.content_end_utf16 || range_utf16.end
            <= self.content_start_utf16 {
            return None;
        }
        let start: usize = if range_utf16.start <= self.content_start_utf16 {
            0
        } else {
            range_utf16.start - self.content_start_utf16
        };
        let end: usize = if range_utf16.end <= self.content_end_utf16 {
            range_utf16.end
        } else {
            self.content_end_utf16
        };
        Some(start..end - self.content_start_utf16)
    }

    /// The run of bytes that a range covers in the text of this fragment.
    pub open spec fn span(self, range: Range<usize>) -> Option<(usize, TextLayout, int, int)> {
        match local_part(self, range) {
            Some((start, end)) => Some(
                (
                    self.source_index,
                    self.fragment.fragment.layout,
                    utf16::byte_of_unit(self.fragment.fragment.text@, start as nat) as int,
                    utf16::byte_of_unit(self.fragment.fragment.text@, end as nat) as int,
                ),
            ),
            None => None,
        }
    }
}

/// What a [`FragmentSpan`] holds.
pub open spec fn span_parts(span: FragmentSpan) -> (usize, TextLayout, int, int) {
    (span.source_index, span.layout, span.bytes.start as int, span.bytes.end as int)
}

/// What a list of spans holds.
pub open spec fn span_list(spans: Seq<FragmentSpan>) -> Seq<(usize, TextLayout, int, int)> {
    spans.map_values(|span: FragmentSpan| span_parts(span))
}

proof fn lemma_span_list_push(spans: Seq<FragmentSpan>, span: FragmentSpan)
    ensures
        span_list(spans.push(span)) == span_list(spans).push(span_parts(span)),
{
    assert(span_list(spans.push(span)) =~= span_list(spans).push(span_parts(span)));
}

/// The runs of bytes that a range covers in fragments, in order.
pub open spec fn covered_spans(fragments: Seq<SelectionDocumentFragment>, range: Range<usize>) -> Seq<
    (usize, TextLayout, int, int),
>
    decreases fragments.len(),
{
    if fragments.len() == 0 {
        Seq::empty()
    } else {
        let rest = covered_spans(fragments.drop_last(), range);
        match fragments.last().span(range) {
            Some(span) => rest.push(span),
            None => rest,
        }
    }
}

/// Fragments lie between the start and the end of their document, each before the next.
pub proof fn fragments_tile_the_document(document: SelectionDocument, n: int)
    requires
        document.well_formed(),
        0 <= n < document.fragments@.len(),
    ensures
        document.fragments@[n].ordered(),
        n == 0 ==> document.fragments@[n].content_start_utf16 == 0,
        n + 1 < document.fragments@.len() ==> document.fragments@[n].separator_end_utf16
            == document.fragments@[n + 1].content_start_utf16,
        n + 1 == document.fragments@.len() ==> document.fragments@[n].separator_end_utf16
            == document.len_utf16,
        document.fragments@[n].separator_end_utf16 <= document.len_utf16,
    decreases document.fragments@.len() - n,
{
    let registered = document.registered();
    let shorter = registered.take(n);
    let longer = registered.take(n + 1);
    assert(longer.drop_last() =~= shorter);
    assert(longer.last() == *document.fragments@[n].fragment);
    assert(document.fragments@[n].separator_end_utf16 == selection_document::total_units(longer));
    if n == 0 {
        assert(shorter =~= Seq::empty());
    }
    if n + 1 == document.fragments@.len() {
        assert(longer =~= registered);
    } else {
        assert(document.fragments@[n + 1].content_start_utf16 == selection_document::total_units(
            longer,
        ));
        fragments_tile_the_document(document, document.fragments@.len() - 1);
        lemma_ends_increase(document, n, document.fragments@.len() - 1);
    }
}

proof fn lemma_ends_increase(document: SelectionDocument, n: int, m: int)
    requires
        document.well_formed(),
        0 <= n <= m < document.fragments@.len(),
    ensures
        document.fragments@[n].separator_end_utf16 <= document.fragments@[m].separator_end_utf16,
    decreases m - n,
{
    if n < m {
        lemma_ends_increase(document, n, m - 1);
        let registered = document.registered();
        let longer = registered.take(m);
        assert(longer.drop_last() =~= registered.take(m - 1));
        assert(longer.last() == *document.fragments@[m - 1].fragment);
        assert(document.fragments@[m - 1].content_start_utf16 == selection_document::total_units(
            registered.take(m - 1),
        ));
        assert(document.fragments@[m].content_start_utf16 == selection_document::total_units(
            longer,
        ));
    }
}

impl<'a> SelectionDocument<'a> {
    /// Limits a range to the document and puts its ends in order.
    pub fn clamped_range(&self, range_utf16: Range<usize>) -> (clamped: Range<usize>)
        ensures
            clamped == clamp_range(self.len_utf16, range_utf16),
    {
        let start: usize = if range_utf16.start <= self.len_utf16 {
            range_utf16.start
        } else {
            self.len_utf16
        };
        let end: usize = if range_utf16.end <= self.len_utf16 {
            range_utf16.end
        } else {
            self.len_utf16
        };
        if start <= end {
            start..end
        } else {
            end..start
        }
    }

    /// Joins the text of all fragments, each followed by its separator.
    pub fn serialize_text(&self) -> (text: String)
        ensures
            text@ == self.text(),
    {
        let mut text: String = String::new();
        let mut i: usize = 0;
        while i < self.fragments.len()
            invariant
                i <= self.fragments@.len(),
                text@ == selection_document::serialized(self.registered().take(i as int)),
            decreases self.fragments@.len() - i,
        {
            let piece = &self.fragments[i];
            text.append(piece.fragment.fragment.text.as_str());
            text.append(piece.fragment.fragment.separator_after.as_str());
            proof {
                let longer = self.registered().take(i as int + 1);
                assert(longer.drop_last() =~= self.registered().take(i as int));
                assert(longer.last() == *piece.fragment);
            }
            i = i + 1;
        }
        assert(self.registered().take(self.fragments@.len() as int) =~= self.registered());
        text
    }

    /// The text that a range covers.
    pub open spec fn text_in(self, range: Range<usize>) -> Seq<char> {
        let clamped = clamp_range(self.len_utf16, range);
        utf16::utf16_subrange(self.text(), clamped.start as nat, clamped.end as nat)
    }

    /// Copies the text that a range covers after it is limited to the document.
    pub fn text_for_range(&self, range_utf16: Range<usize>) -> (text: Option<String>)
        ensures
            text is Some,
            text->0@ == self.text_in(range_utf16),
    {
        let range: Range<usize> = self.clamped_range(range_utf16);
        let full_text: String = self.serialize_text();
        Some(utf16::utf16_slice(full_text.as_str(), range.start, range.end))
    }

    /// Takes a snapshot of a range that is not empty after it is limited to the document.
    pub fn snapshot_for_range(&self, range_utf16: Range<usize>) -> (snapshot: Option<
        ReadOnlySelectionSnapshot,
    >)
        ensures
            snapshot is Some <==> self.range_shows(range_utf16)
                && selection_document::key_area_id(self.key@) is Some,
            snapshot matches Some(snapshot) ==> {
                &&& Some(snapshot.area_id@) == selection_document::key_area_id(self.key@)
                &&& snapshot.range_utf16 == clamp_range(self.len_utf16, range_utf16)
                &&& snapshot.text@ == self.text_in(range_utf16)
            },
    {
        let range: Range<usize> = self.clamped_range(range_utf16.start..range_utf16.end);
        if range.start >= range.end {
            return None;
        }
        match self.key.selection_area_id() {
            Some(area_id) => match self.text_for_range(range_utf16) {
                Some(text) => Some(
                    ReadOnlySelectionSnapshot { area_id: area_id.clone(), range_utf16: range, text },
                ),
                None => None,
            },
            None => None,
        }
    }

    /// Whether a range covers anything once it is limited to the document.
    pub open spec fn range_shows(self, range: Range<usize>) -> bool {
        clamp_range(self.len_utf16, range).start < clamp_range(self.len_utf16, range).end
    }

    /// The menu actions of the area.
    pub open spec fn menu(self) -> Seq<SelectionAction> {
        if self.fragments@.len() == 0 {
            Seq::empty()
        } else {
            self.fragments@[0].fragment.active_area.selection_area.actions@
        }
    }

    /// Copies the menu actions of the area that owns the first fragment.
    pub fn actions(&self) -> (actions: ActionList)
        ensures
            actions@ == self.menu(),
    {
        if self.fragments.len() == 0 {
            ActionList::new()
        } else {
            self.fragments[0].fragment.active_area.selection_area.actions.clone()
        }
    }

    /// Finds the word around a position.
    pub fn word_range_at(&self, offset_utf16: usize) -> (found: Option<Range<usize>>)
        ensures
            words::is_word_at(
                self.text(),
                words::unicode_words(self.text()),
                offset_utf16 as nat,
                found,
            ),
            words::words_in_order(self.text(), words::unicode_words(self.text())),
            found matches Some(range) ==> range.start <= offset_utf16 < range.end
                <= utf16::utf16_units(self.text()),
    {
        let text: String = self.serialize_text();
        words::word_range_at_utf16(text.as_str(), offset_utf16)
    }

    /// The runs of bytes that a range covers once it is limited to the document.
    pub open spec fn spans_in(self, range: Range<usize>) -> Seq<(usize, TextLayout, int, int)> {
        if self.range_shows(range) {
            covered_spans(self.fragments@, clamp_range(self.len_utf16, range))
        } else {
            Seq::empty()
        }
    }

    /// Finds the runs of bytes whose painted rectangles make up a range.
    pub fn spans_for_range(&self, range_utf16: Range<usize>) -> (spans: Vec<FragmentSpan>)
        requires
            self.well_formed(),
        ensures
            span_list(spans@) == self.spans_in(range_utf16),
    {
        let range: Range<usize> = self.clamped_range(range_utf16.start..range_utf16.end);
        let mut spans: Vec<FragmentSpan> = Vec::new();
        if range.start >= range.end {
            assert(span_list(spans@) =~= Seq::empty());
            return spans;
        }
        let mut i: usize = 0;
        assert(span_list(spans@) =~= covered_spans(
            self.fragments@.take(0),
            range,
        ));
        while i < self.fragments.len()
            invariant
                self.well_formed(),
                i <= self.fragments@.len(),
                span_list(spans@) == covered_spans(
                    self.fragments@.take(i as int),
                    range,
                ),
            decreases self.fragments@.len() - i,
        {
            proof {
                fragments_tile_the_document(*self, i as int);
                let longer = self.fragments@.take(i as int + 1);
                assert(longer.drop_last() =~= self.fragments@.take(i as int));
            }
            let piece = &self.fragments[i];
            if let Some(local) = piece.local_utf16_range(&range) {
                let text: &str = piece.fragment.fragment.text.as_str();
                let start: usize = utf16::utf16_offset_to_byte(text, local.start);
                let end: usize = utf16::utf16_offset_to_byte(text, local.end);
                let span = FragmentSpan {
                    source_index: piece.source_index,
                    layout: piece.fragment.fragment.layout,
                    bytes: start..end,
                };
                proof {
                    assert(piece.span(range) == Some(span_parts(span)));
                    lemma_span_list_push(spans@, span);
                }
                spans.push(span);
            }
            i = i + 1;
        }
        assert(self.fragments@.take(self.fragments@.len() as int) =~= self.fragments@);
        spans
    }
}

/// Which painted rectangle a caret stands beside.
#[derive(Debug, PartialEq, Eq)]
pub enum CaretProbe {
    /// Before the first rectangle of these bytes.
    Leading(Range<usize>),
    /// After the last rectangle of these bytes.
    Trailing(Range<usize>),
    /// There is no text to stand beside.
    Position,
}

/// What to ask the painted layout of a fragment in order to place a caret.
#[derive(Debug, PartialEq, Eq)]
pub struct CaretQuery {
    /// The place of the fragment among those registered in the frame.
    pub source_index: usize,
    pub layout: TextLayout,
    /// The byte of the fragment's text at which the caret stands.
    pub local_byte: usize,
    pub probe: CaretProbe,
}

/// Whether `probe` names the rectangle beside a caret in front of character `index` of `text`: that
/// of the character itself, or at the end of the text that of the last character.
pub open spec fn probes_char(text: Seq<char>, index: int, probe: CaretProbe) -> bool {
    if index < text.len() {
        probe == CaretProbe::Leading(
            Range {
                start: utf16::byte_of_char(text, index) as usize,
                end: utf16::byte_of_char(text, index + 1) as usize,
            },
        )
    } else if index > 0 {
        probe == CaretProbe::Trailing(
            Range {
                start: utf16::byte_of_char(text, index - 1) as usize,
                end: utf16::byte_of_char(text, index) as usize,
            },
        )
    } else {
        probe == CaretProbe::Position
    }
}

/// A number moved into a range.
pub open spec fn into_range(value: int, low: int, high: int) -> int {
    if value < low {
        low
    } else if value > high {
        high
    } else {
        value
    }
}

/// A painted rectangle with the coordinate of its right edge.
#[derive(Clone, Copy, Debug, PartialEq, Eq, Structural)]
pub struct LayoutRect {
    pub bounds: Bounds,
    pub right: Pixels,
}

/// A rectangle without width.
pub open spec fn caret_at(origin: Point, height: Pixels) -> Bounds {
    Bounds { origin, size: Size { width: Pixels { bits: 0 }, height } }
}

/// Where a caret stands, given the rectangles painted for the bytes its query names.
pub open spec fn caret_place(
    probe: CaretProbe,
    rects: Seq<LayoutRect>,
    position: Option<Point>,
    layout_height: Pixels,
) -> Option<Bounds> {
    if probe is Leading && rects.len() > 0 {
        Some(caret_at(rects[0].bounds.origin, rects[0].bounds.size.height))
    } else if probe is Trailing && rects.len() > 0 {
        Some(
            caret_at(
                Point { x: rects.last().right, y: rects.last().bounds.origin.y },
                rects.last().bounds.size.height,
            ),
        )
    } else {
        match position {
            Some(position) => Some(caret_at(position, layout_height)),
            None => None,
        }
    }
}

/// Places a caret from the rectangles painted for the bytes its query names, or else from the
/// position the layout gives for its byte.
pub fn caret_bounds(
    probe: &CaretProbe,
    rects: &Vec<LayoutRect>,
    position: Option<Point>,
    layout_height: Pixels,
) -> (bounds: Option<Bounds>)
    ensures
        bounds == caret_place(*probe, rects@, position, layout_height),
{
    if rects.len() > 0 {
        match probe {
            CaretProbe::Leading(_) => {
                let rect: LayoutRect = rects[0];
                return Some(
                    Bounds {
                        origin: rect.bounds.origin,
                        size: Size { width: Pixels::zero(), height: rect.bounds.size.height },
                    },
                );
            },
            CaretProbe::Trailing(_) => {
                let rect: LayoutRect = rects[rects.len() - 1];
                return Some(
                    Bounds {
                        origin: Point { x: rect.right, y: rect.bounds.origin.y },
                        size: Size { width: Pixels::zero(), height: rect.bounds.size.height },
                    },
                );
            },
            CaretProbe::Position => {},
        }
    }
    match position {
        Some(position) => Some(
            Bounds { origin: position, size: Size { width: Pixels::zero(), height: layout_height } },
        ),
        None => None,
    }
}

/// What to ask the painted layouts for the rectangle that stands for a range.
#[derive(Debug, PartialEq, Eq)]
pub enum BoundsQuery {
    /// The caret of an empty range, if the document has any fragment.
    Caret(Option<CaretQuery>),
    /// The first rectangle painted for these runs of bytes.
    FirstRect(Vec<FragmentSpan>),
}

impl<'a> SelectionDocument<'a> {
    /// Whether fragment `n` is the first whose text and separator reach `offset`.
    pub open spec fn reaches_first(self, offset: int, n: int) -> bool {
        &&& 0 <= n < self.fragments@.len()
        &&& offset <= self.fragments@[n].separator_end_utf16
        &&& forall|m: int|
            0 <= m < n ==> (#[trigger] self.fragments@[m]).separator_end_utf16 < offset
    }

    /// Whether `query` asks for the caret at `offset`, which is limited to the document.
    pub open spec fn asks_for_caret(self, offset: int, query: CaretQuery) -> bool {
        let limited = min(offset, self.len_utf16 as int);
        exists|n: int| #[trigger]
            self.reaches_first(limited, n) && {
                let piece = self.fragments@[n];
                let text = piece.fragment.fragment.text@;
                let local = into_range(
                    limited,
                    piece.content_start_utf16 as int,
                    piece.content_end_utf16 as int,
                ) - piece.content_start_utf16;
                let index = utf16::chars_within_units(text, local as nat) as int;
                &&& query.source_index == piece.source_index
                &&& query.layout == piece.fragment.fragment.layout
                &&& query.local_byte == utf16::byte_of_char(text, index)
                &&& probes_char(text, index, query.probe)
            }
    }

    /// Finds what to ask a painted layout in order to place the caret at a position.
    #[verifier::spinoff_prover]
    #[verifier::rlimit(40)]
    pub fn caret_query(&self, offset_utf16: usize) -> (query: Option<CaretQuery>)
        requires
            self.well_formed(),
        ensures
            query is Some <==> self.fragments@.len() > 0,
            query matches Some(query) ==> self.asks_for_caret(offset_utf16 as int, query),
    {
        if self.fragments.len() == 0 {
            return None;
        }
        let offset: usize = if offset_utf16 <= self.len_utf16 {
            offset_utf16
        } else {
            self.len_utf16
        };
        let mut n: usize = 0;
        while n < self.fragments.len() - 1 && self.fragments[n].separator_end_utf16 < offset
            invariant
                n < self.fragments@.len(),
                forall|m: int|
                    0 <= m < n ==> (#[trigger] self.fragments@[m]).separator_end_utf16 < offset,
            decreases self.fragments@.len() - n,
        {
            n = n + 1;
        }
        proof {
            fragments_tile_the_document(*self, n as int);
            assert(self.reaches_first(offset as int, n as int));
        }
        let piece = &self.fragments[n];
        let local_utf16: usize = if offset < piece.content_start_utf16 {
            0
        } else if offset > piece.content_end_utf16 {
            piece.content_end_utf16 - piece.content_start_utf16
        } else {
            offset - piece.content_start_utf16
        };
        let text: &str = piece.fragment.fragment.text.as_str();
        let local_byte: usize = utf16::utf16_offset_to_byte(text, local_utf16);
        let total: usize = utf16::byte_len(text);
        let ghost index = utf16::chars_within_units(text@, local_utf16 as nat) as int;
        proof {
            utf16::lemma_chars_within_units(text@, local_utf16 as nat);
            assert(text@.take(text@.len() as int) =~= text@);
            utf16::lemma_char_starts_increase(text@, index, text@.len() as int);
            utf16::lemma_char_starts_increase(text@, 0, index);
            utf16::offsets_round_trip_at_characters(text@, index);
            if index < text@.len() {
                utf16::lemma_take_step(text@, index);
                utf16::lemma_char_starts_increase(text@, index + 1, text@.len() as int);
            }
            if index > 0 {
                utf16::lemma_char_starts_increase(text@, index - 1, index);
            }
            utf16::lemma_chars_before_byte_unique(text@, local_byte as nat, index);
        }
        let probe: CaretProbe = if local_byte < total {
            match utf16::next_char_byte(text, local_byte) {
                Some(next_byte) => CaretProbe::Leading(local_byte..next_byte),
                None => CaretProbe::Position,
            }
        } else {
            match utf16::previous_char_byte(text, local_byte) {
                Some(previous_byte) => CaretProbe::Trailing(previous_byte..local_byte),
                None => CaretProbe::Position,
            }
        };
        proof {
            if index < text@.len() {
                assert(utf16::byte_of_char(text@, index) == local_byte);
                assert(utf16::starts_char(text@, local_byte as nat));
            }
            assert(probes_char(text@, index, probe));
        }
        let query = CaretQuery {
            source_index: piece.source_index,
            layout: piece.fragment.fragment.layout,
            local_byte,
            probe,
        };
        assert(self.asks_for_caret(offset_utf16 as int, query)) by {
            let limited = min(offset_utf16 as int, self.len_utf16 as int);
            assert(limited == offset);
            assert(self.reaches_first(limited, n as int));
            assert(self.fragments@[n as int].fragment.fragment.text@ == text@);
            assert(into_range(
                limited,
                piece.content_start_utf16 as int,
                piece.content_end_utf16 as int,
            ) - piece.content_start_utf16 == local_utf16);
        }
        Some(query)
    }

    /// Finds what to ask the painted layouts for the rectangle that stands for a range: a caret for
    /// an empty range, else the first rectangle of the range.
    pub fn bounds_query(&self, range_utf16: Range<usize>) -> (query: BoundsQuery)
        requires
            self.well_formed(),
        ensures
            match query {
                BoundsQuery::Caret(caret) => {
                    &&& !self.range_shows(range_utf16)
                    &&& caret is Some <==> self.fragments@.len() > 0
                    &&& caret matches Some(caret) ==> self.asks_for_caret(
                        clamp_range(self.len_utf16, range_utf16).start as int,
                        caret,
                    )
                },
                BoundsQuery::FirstRect(spans) => {
                    &&& self.range_shows(range_utf16)
                    &&& span_list(spans@) == self.spans_in(
                        range_utf16,
                    )
                },
            },
    {
        let range: Range<usize> = self.clamped_range(range_utf16.start..range_utf16.end);
        if range.start >= range.end {
            BoundsQuery::Caret(self.caret_query(range.start))
        } else {
            BoundsQuery::FirstRect(self.spans_for_range(range_utf16))
        }
    }
}

/// Limiting a range twice is the same as limiting it once, and the result lies in the document with
/// its ends in order.
pub proof fn clamping_is_idempotent(len: usize, range: Range<usize>)
    ensures
        ({
            let once = clamp_range(len, range);
            &&& once.start <= once.end <= len
            &&& clamp_range(len, once) == once
        }),
{
}

/// A range that already lies in the document with its ends in order is left alone.
pub proof fn clamping_keeps_valid_ranges(len: usize, range: Range<usize>)
    requires
        range.start <= range.end <= len,
    ensures
        clamp_range(len, range) == range,
{
}

/// The range from the start to the end of a document covers its whole text.
pub proof fn full_range_is_the_whole_text(document: SelectionDocument)
    requires
        document.well_formed(),
    ensures
        document.text_in(Range { start: 0, end: document.len_utf16 }) == document.text(),
        utf16::utf16_units(document.text()) == document.len_utf16,
{
    let text = document.text();
    selection_document::lemma_serialized_units(document.registered());
    assert(text.take(text.len() as int) =~= text);
    utf16::lemma_chars_within_units_unique(text, document.len_utf16 as nat, text.len() as int);
    if text.len() > 0 {
        utf16::lemma_take_step(text, 0);
    }
    utf16::lemma_chars_within_units_unique(text, 0, 0);
    assert(text.subrange(0, text.len() as int) =~= text);
}

/// Selecting two neighbouring ranges one after the other yields the text of the range that spans
/// both.
pub proof fn neighbouring_ranges_join(document: SelectionDocument, a: usize, b: usize, c: usize)
    requires
        document.well_formed(),
        a <= b <= c,
    ensures
        document.text_in(Range { start: a, end: b }) + document.text_in(Range { start: b, end: c })
            == document.text_in(Range { start: a, end: c }),
{
    let len = document.len_utf16;
    let within = |offset: usize|
        if offset <= len {
            offset as nat
        } else {
            len as nat
        };
    utf16::adjacent_slices_join(document.text(), within(a), within(b), within(c));
}

/// A caret behind a character stands at the right edge of the last rectangle painted for it, and
/// one before a character at the corner of the first. Either is as high as its rectangle and has no
/// width.
pub proof fn carets_stand_beside_their_rectangles(
    bytes: Range<usize>,
    rects: Seq<LayoutRect>,
    position: Option<Point>,
    layout_height: Pixels,
)
    requires
        rects.len() > 0,
    ensures
        caret_place(CaretProbe::Trailing(bytes), rects, position, layout_height) matches Some(caret)
            && {
            &&& caret.origin.x == rects[rects.len() - 1].right
            &&& caret.origin.y == rects[rects.len() - 1].bounds.origin.y
            &&& caret.size.height == rects[rects.len() - 1].bounds.size.height
            &&& caret.size.width.bits == 0
        },
        caret_place(CaretProbe::Leading(bytes), rects, position, layout_height) matches Some(caret)
            && {
            &&& caret.origin.x == rects[0].bounds.origin.x
            &&& caret.origin.y == rects[0].bounds.origin.y
            &&& caret.size.height == rects[0].bounds.size.height
            &&& caret.size.width.bits == 0
        },
{
}

/// Where nothing was painted, or there is no character to stand beside, a caret stands where the
/// layout puts its byte and is as high as the layout. There is none where the layout gives no place.
pub proof fn carets_without_a_rectangle_stand_at_their_byte(
    probe: CaretProbe,
    rects: Seq<LayoutRect>,
    position: Option<Point>,
    layout_height: Pixels,
)
    requires
        rects.len() == 0 || probe is Position,
    ensures
        position is None ==> caret_place(probe, rects, position, layout_height) is None,
        position matches Some(place) ==> {
            &&& caret_place(probe, rects, position, layout_height) matches Some(caret)
            &&& caret.origin.x == place.x
            &&& caret.origin.y == place.y
            &&& caret.size.height == layout_height
            &&& caret.size.width.bits == 0
        },
{
}

/// A limited range holds exactly the positions of the document between the two ends it was made
/// from, in whichever order these come, and an end inside the document stays where it is.
pub proof fn limited_ranges_hold_the_positions_between_their_ends(
    len: usize,
    range: Range<usize>,
    position: int,
)
    ensures
        ({
            let limited = clamp_range(len, range);
            &&& limited.start <= position < limited.end <==> 0 <= position < len && (range.start
                <= position < range.end || range.end <= position < range.start)
            &&& clamp_range(len, Range { start: range.end, end: range.start }) == limited
            &&& range.start <= len && range.start <= range.end ==> limited.start == range.start
            &&& range.end <= len && range.start <= range.end ==> limited.end == range.end
            &&& range.start >= len && range.end >= len ==> limited.start == len && limited.end
                == len
        }),
{
}

/// The part of a range in a fragment holds exactly the positions of the range that lie in the
/// fragment's text, counted from where that text begins.
pub proof fn parts_hold_the_positions_of_the_range(
    fragment: SelectionDocumentFragment,
    range: Range<usize>,
    position: int,
)
    requires
        fragment.ordered(),
        fragment.content_start_utf16 <= position < fragment.content_end_utf16,
    ensures
        range.start <= position < range.end <==> (local_part(fragment, range) matches Some(part)
            && part.0 <= position - fragment.content_start_utf16 < part.1),
        local_part(fragment, range) is None <==> range.start >= fragment.content_end_utf16
            || range.end <= fragment.content_start_utf16,
        local_part(fragment, range) matches Some(part) ==> 0 <= part.0 && part.1
            <= fragment.content_end_utf16 - fragment.content_start_utf16,
{
}

/// A character of a fragment lies in the bytes that a range covers exactly where the range holds
/// the character's last code unit.
pub proof fn spans_cover_the_selected_characters(
    document: SelectionDocument,
    range: Range<usize>,
    n: int,
    index: int,
)
    requires
        document.well_formed(),
        0 <= n < document.fragments@.len(),
        0 <= index < document.fragments@[n].fragment.fragment.text@.len(),
        range.start <= range.end,
    ensures
        ({
            let piece = document.fragments@[n];
            let text = piece.fragment.fragment.text@;
            let last_unit = piece.content_start_utf16 + utf16::utf16_units(
                text.subrange(0, index + 1),
            ) - 1;
            let byte = utf16::utf8_units(text.subrange(0, index));
            &&& range.start <= last_unit < range.end <==> (piece.span(range) matches Some(span)
                && span.2 <= byte < span.3)
            &&& piece.span(range) matches Some(span) ==> span.0 == piece.source_index && span.1
                == piece.fragment.fragment.layout
        }),
{
    let piece = document.fragments@[n];
    let text = piece.fragment.fragment.text@;
    fragments_tile_the_document(document, n);
    assert(text.subrange(0, index) =~= text.take(index));
    assert(text.subrange(0, index + 1) =~= text.take(index + 1));
    assert(text.take(text.len() as int) =~= text);
    utf16::lemma_char_starts_increase(text, 0, index);
    utf16::lemma_char_starts_increase(text, index, index + 1);
    utf16::lemma_char_starts_increase(text, index + 1, text.len() as int);
    if local_part(piece, range) is Some {
        let (start, end) = local_part(piece, range)->0;
        assert(start >= 0 && end >= 0);
        lemma_before_unit(text, start as nat, index);
        lemma_before_unit(text, end as nat, index);
    }
}

/// A character begins before the byte of a unit offset exactly when it ends at or before the offset.
proof fn lemma_before_unit(text: Seq<char>, units: nat, index: int)
    requires
        0 <= index < text.len(),
    ensures
        utf16::byte_of_char(text, index) < utf16::byte_of_unit(text, units) <==> utf16::unit_of_char(
            text,
            index + 1,
        ) <= units,
{
    utf16::lemma_chars_within_units(text, units);
    let count = utf16::chars_within_units(text, units) as int;
    if index < count {
        utf16::lemma_char_starts_increase(text, index + 1, count);
        utf16::lemma_char_starts_increase(text, index, count);
    } else {
        utf16::lemma_char_starts_increase(text, count + 1, index + 1);
        utf16::lemma_char_starts_increase(text, count, index);
    }
}

/// The runs of bytes that a range covers come from the fragments whose text it meets, from each of
/// them once and in the order of the fragments.
pub proof fn spans_come_from_the_fragments_that_the_range_meets(
    fragments: Seq<SelectionDocumentFragment>,
    range: Range<usize>,
) -> (sources: Seq<int>)
    ensures
        sources.len() == covered_spans(fragments, range).len(),
        forall|i: int, j: int| 0 <= i < j < sources.len() ==> #[trigger] sources[i] < #[trigger] sources[j],
        forall|i: int|
            0 <= i < sources.len() ==> {
                &&& 0 <= #[trigger] sources[i] < fragments.len()
                &&& fragments[sources[i]].span(range) == Some(covered_spans(fragments, range)[i])
            },
        forall|n: int|
            0 <= n < fragments.len() ==> (sources.contains(n) <==> range.start < (
            #[trigger] fragments[n]).content_end_utf16 && fragments[n].content_start_utf16
                < range.end),
    decreases fragments.len(),
{
    if fragments.len() == 0 {
        Seq::empty()
    } else {
        let shorter = fragments.drop_last();
        let rest = spans_come_from_the_fragments_that_the_range_meets(shorter, range);
        let last = fragments.len() - 1;
        if fragments.last().span(range) is Some {
            let sources = rest.push(last);
            assert forall|n: int| 0 <= n < fragments.len() implies (sources.contains(n)
                <==> range.start < (#[trigger] fragments[n]).content_end_utf16
                && fragments[n].content_start_utf16 < range.end) by {
                if n == last {
                    assert(sources[rest.len() as int] == n);
                } else {
                    assert(shorter[n] == fragments[n]);
                    if rest.contains(n) {
                        let k = choose|k: int| 0 <= k < rest.len() && rest[k] == n;
                        assert(sources[k] == n);
                    }
                    if sources.contains(n) {
                        let k = choose|k: int| 0 <= k < sources.len() && sources[k] == n;
                        assert(rest[k] == n);
                    }
                }
            }
            sources
        } else {
            assert forall|n: int| 0 <= n < fragments.len() implies (rest.contains(n)
                <==> range.start < (#[trigger] fragments[n]).content_end_utf16
                && fragments[n].content_start_utf16 < range.end) by {
                if n < last {
                    assert(shorter[n] == fragments[n]);
                }
            }
            rest
        }
    }
}

/// Exactly the ranges that hold a position of the document cover any bytes, and what they cover is
/// what the limited range covers.
pub proof fn ranges_show_where_they_hold_a_position(document: SelectionDocument, range: Range<usize>)
    ensures
        document.range_shows(range) <==> exists|position: int|
            0 <= position < document.len_utf16 && #[trigger] is_between(range, position),
        !document.range_shows(range) ==> document.spans_in(range).len() == 0,
        range.start < range.end <= document.len_utf16 ==> document.spans_in(range)
            == covered_spans(document.fragments@, range),
{
    if document.range_shows(range) {
        assert(is_between(range, clamp_range(document.len_utf16, range).start as int));
    }
}

/// Whether a position lies between the ends of a range, in whichever order these come.
pub open spec fn is_between(range: Range<usize>, position: int) -> bool {
    range.start <= position < range.end || range.end <= position < range.start
}

/// A caret at the start of a character asks for the rectangle of that character, in the fragment
/// that holds it. Between two fragments it belongs to the first.
#[verifier::spinoff_prover]
#[verifier::rlimit(40)]
pub proof fn carets_are_asked_for_at_their_character(
    document: SelectionDocument,
    n: int,
    index: int,
    offset: int,
    query: CaretQuery,
)
    requires
        document.well_formed(),
        0 <= n < document.fragments@.len(),
        0 <= index < document.fragments@[n].fragment.fragment.text@.len(),
        index > 0 || n == 0,
        offset == document.fragments@[n].content_start_utf16 + utf16::utf16_units(
            document.fragments@[n].fragment.fragment.text@.subrange(0, index),
        ),
        document.asks_for_caret(offset, query),
    ensures
        ({
            let piece = document.fragments@[n];
            let text = piece.fragment.fragment.text@;
            &&& query.source_index == piece.source_index
            &&& query.layout == piece.fragment.fragment.layout
            &&& query.local_byte == utf16::utf8_units(text.subrange(0, index))
            &&& query.probe matches CaretProbe::Leading(bytes)
            &&& bytes.start == utf16::utf8_units(text.subrange(0, index)) as usize
            &&& bytes.end == utf16::utf8_units(text.subrange(0, index + 1)) as usize
        }),
{
    let piece = document.fragments@[n];
    let text = piece.fragment.fragment.text@;
    assert(text.subrange(0, index) =~= text.take(index));
    assert(text.subrange(0, index + 1) =~= text.take(index + 1));
    assert(text.take(text.len() as int) =~= text);
    fragments_tile_the_document(document, n);
    utf16::lemma_char_starts_increase(text, 0, index);
    utf16::lemma_char_starts_increase(text, index, text.len() as int);
    utf16::lemma_take_step(text, index);
    utf16::lemma_chars_within_units_unique(text, utf16::unit_of_char(text, index), index);
    lemma_reaches_first_is(document, offset, n);
}

/// A caret at the end of a fragment's text, or in its separator, asks for the rectangle of the
/// text's last character, and for a mere position where the text is empty.
#[verifier::spinoff_prover]
#[verifier::rlimit(40)]
pub proof fn carets_past_the_text_follow_its_last_character(
    document: SelectionDocument,
    n: int,
    offset: int,
    query: CaretQuery,
)
    requires
        document.well_formed(),
        0 <= n < document.fragments@.len(),
        document.fragments@[n].content_end_utf16 <= offset <= document.fragments@[n].separator_end_utf16,
        offset > document.fragments@[n].content_start_utf16 || n == 0,
        document.asks_for_caret(offset, query),
    ensures
        ({
            let piece = document.fragments@[n];
            let text = piece.fragment.fragment.text@;
            &&& query.source_index == piece.source_index
            &&& query.layout == piece.fragment.fragment.layout
            &&& query.local_byte == utf16::utf8_units(text)
            &&& text.len() == 0 <==> query.probe is Position
            &&& text.len() > 0 ==> {
                &&& query.probe matches CaretProbe::Trailing(bytes)
                &&& bytes.start == utf16::utf8_units(text.subrange(0, text.len() - 1)) as usize
                &&& bytes.end == utf16::utf8_units(text) as usize
            }
        }),
{
    let piece = document.fragments@[n];
    let text = piece.fragment.fragment.text@;
    assert(text.take(text.len() as int) =~= text);
    fragments_tile_the_document(document, n);
    if text.len() > 0 {
        assert(text.subrange(0, text.len() - 1) =~= text.take(text.len() - 1));
    }
    utf16::lemma_chars_within_units_unique(text, utf16::utf16_units(text), text.len() as int);
    lemma_reaches_first_is(document, offset, n);
}

/// A position past where a fragment begins, or at the very start, and up to the end of its separator
/// is reached first by that fragment.
proof fn lemma_reaches_first_is(document: SelectionDocument, offset: int, n: int)
    requires
        document.well_formed(),
        0 <= n < document.fragments@.len(),
        offset <= document.fragments@[n].separator_end_utf16,
        offset > document.fragments@[n].content_start_utf16 || n == 0,
    ensures
        forall|m: int| #[trigger] document.reaches_first(offset, m) ==> m == n,
        offset <= document.len_utf16,
{
    fragments_tile_the_document(document, n);
    assert forall|m: int| #[trigger] document.reaches_first(offset, m) implies m == n by {
        if m < n {
            fragments_tile_the_document(document, n - 1);
            lemma_ends_increase(document, m, n - 1);
        } else if m > n {
            assert(document.fragments@[n].separator_end_utf16 < offset);
        }
    }
}

/// A caret past the end of a document is asked for as one at its end.
pub proof fn carets_past_the_end_are_at_the_end(
    document: SelectionDocument,
    offset: int,
    query: CaretQuery,
)
    requires
        offset >= document.len_utf16,
    ensures
        document.asks_for_caret(offset, query) <==> document.asks_for_caret(
            document.len_utf16 as int,
            query,
        ),
{
    let end = document.len_utf16 as int;
    assert(min(offset, end) == end && min(end, end) == end);
    if document.asks_for_caret(offset, query) {
        let n = choose|n: int| #[trigger] document.reaches_first(min(offset, end), n);
        assert(document.reaches_first(min(end, end), n));
    }
    if document.asks_for_caret(end, query) {
        let n = choose|n: int| #[trigger] document.reaches_first(min(end, end), n);
        assert(document.reaches_first(min(offset, end), n));
    }
}

/// The selected text is the piece of the document between the characters that hold the two ends of
/// the range, and the same whichever end is named first.
pub proof fn selected_text_lies_between_the_ends(
    document: SelectionDocument,
    range: Range<usize>,
) -> (cut: (int, int))
    requires
        range.start <= range.end <= document.len_utf16,
    ensures
        0 <= cut.0 <= cut.1 <= document.text().len(),
        document.text_in(range) == document.text().subrange(cut.0, cut.1),
        document.text_in(Range { start: range.end, end: range.start }) == document.text_in(range),
        utf16::utf16_units(document.text().subrange(0, cut.0)) <= range.start,
        cut.0 < document.text().len() ==> utf16::utf16_units(
            document.text().subrange(0, cut.0 + 1),
        ) > range.start,
        utf16::utf16_units(document.text().subrange(0, cut.1)) <= range.end,
        cut.1 < document.text().len() ==> utf16::utf16_units(
            document.text().subrange(0, cut.1 + 1),
        ) > range.end,
{
    utf16::slices_are_cut_in_front_of_a_character(
        document.text(),
        range.start as nat,
        range.end as nat,
    )
}

/// A document offers the menu of the area that its first fragment stands in, and without fragments
/// it offers nothing.
pub proof fn menus_are_those_of_the_first_fragment(document: SelectionDocument, i: int)
    ensures
        document.fragments@.len() == 0 ==> document.menu().len() == 0,
        document.fragments@.len() > 0 ==> {
            let area = document.fragments@[0].fragment.active_area.selection_area;
            &&& document.menu().len() == area.actions@.len()
            &&& 0 <= i < area.actions@.len() ==> document.menu()[i] == area.actions@[i]
        },
{
}

/// A span shows its fragment, its layout, and where its bytes begin and end.
pub proof fn spans_show_what_they_hold(spans: Seq<FragmentSpan>, i: int)
    requires
        0 <= i < spans.len(),
    ensures
        span_list(spans).len() == spans.len(),
        span_list(spans)[i].0 == spans[i].source_index,
        span_list(spans)[i].1 == spans[i].layout,
        span_list(spans)[i].2 == spans[i].bytes.start,
        span_list(spans)[i].3 == spans[i].bytes.end,
{
}

} // verus!
