//! The read-only selection of a window, as native selection UI queries and changes it.
use crate::selection::{ActionList, RegisteredTextSelectionFragment, SelectionAction};
use crate::selection_document;
use crate::selection_document::{AreaKeyView, Entry, SelectionAreaKey, SelectionDocument};
use crate::selection_probe::PointProbe;
use crate::selection_range;
use crate::selection_range::{BoundsQuery, FragmentSpan, ReadOnlySelectionSnapshot};
use crate::utf16;
use crate::words;
use std::ops::Range;
use vstd::prelude::*;

verus! {

/// Which area of a window is selected, and how much of it.
#[derive(Debug, PartialEq, Eq)]
pub struct SelectionState {
    pub active_area: Option<SelectionAreaKey>,
    pub range_utf16: Option<Range<usize>>,
    pub reversed: bool,
}

impl Default for SelectionState {
    fn default() -> (state: Self)
        ensures
            state == (SelectionState { active_area: None, range_utf16: None, reversed: false }),
    {
        SelectionState { active_area: None, range_utf16: None, reversed: false }
    }
}

/// A selected range and whether its head comes before its tail.
#[derive(Debug, PartialEq, Eq)]
pub struct UTF16Selection {
    pub range: Range<usize>,
    pub reversed: bool,
}

/// The selection-related state of a window: the fragments of the rendered frame and the selection.
pub struct SelectionWindow {
    pub fragments: Vec<RegisteredTextSelectionFragment>,
    pub selection_state: SelectionState,
    /// The last selection that covered any text.
    pub latest_read_only_selection: Option<ReadOnlySelectionSnapshot>,
}

/// The fragments of an area in document order.
pub open spec fn area_entries(
    fragments: Seq<RegisteredTextSelectionFragment>,
    key: AreaKeyView,
) -> Seq<Entry<'static>> {
    choose|entries: Seq<Entry<'static>>| #[trigger]
        selection_document::in_document_order(entries) && forall|entry: Entry| #[trigger]
            entries.contains(entry) <==> selection_document::is_member(fragments, key, entry)
}

/// The text of an area.
pub open spec fn area_text(
    fragments: Seq<RegisteredTextSelectionFragment>,
    key: AreaKeyView,
) -> Seq<char> {
    selection_document::serialized(
        selection_document::entry_fragments(area_entries(fragments, key)),
    )
}

/// The length of the text of an area in UTF-16 code units.
pub open spec fn area_len(
    fragments: Seq<RegisteredTextSelectionFragment>,
    key: AreaKeyView,
) -> usize {
    selection_document::total_units(
        selection_document::entry_fragments(area_entries(fragments, key)),
    ) as usize
}

/// The menu actions of an area: those of its first fragment.
pub open spec fn area_menu(
    fragments: Seq<RegisteredTextSelectionFragment>,
    key: AreaKeyView,
) -> Seq<SelectionAction> {
    let entries = area_entries(fragments, key);
    if entries.len() == 0 {
        Seq::empty()
    } else {
        entries[0].1.active_area.selection_area.actions@
    }
}

proof fn lemma_order_is_unique(a: Seq<Entry>, b: Seq<Entry>)
    requires
        selection_document::in_document_order(a),
        selection_document::in_document_order(b),
        forall|entry: Entry| #[trigger] a.contains(entry) <==> b.contains(entry),
    ensures
        a == b,
    decreases a.len(),
{
    if a.len() == 0 {
        if b.len() > 0 {
            assert(b.contains(b[0]));
            assert(a.contains(b[0]));
        }
        assert(a =~= b);
    } else {
        assert(a.contains(a.last()));
        assert(b.contains(a.last()));
        let j = choose|j: int| 0 <= j < b.len() && b[j] == a.last();
        assert(b.contains(b.last()));
        assert(a.contains(b.last()));
        let i = choose|i: int| 0 <= i < a.len() && a[i] == b.last();
        if j < b.len() - 1 {
            assert(selection_document::placed_before(b[j], b[b.len() - 1]));
            if i < a.len() - 1 {
                assert(selection_document::placed_before(a[i], a[a.len() - 1]));
            }
        }
        let c = a.drop_last();
        let d = b.drop_last();
        assert forall|entry: Entry| #[trigger] c.contains(entry) <==> d.contains(entry) by {
            if c.contains(entry) {
                let k = choose|k: int| 0 <= k < c.len() && c[k] == entry;
                assert(a[k] == entry);
                assert(a.contains(entry));
                assert(b.contains(entry));
                let m = choose|m: int| 0 <= m < b.len() && b[m] == entry;
                if m == b.len() - 1 {
                    assert(selection_document::placed_before(a[k], a[a.len() - 1]));
                }
                assert(d[m] == entry);
            }
            if d.contains(entry) {
                let k = choose|k: int| 0 <= k < d.len() && d[k] == entry;
                assert(b[k] == entry);
                assert(b.contains(entry));
                assert(a.contains(entry));
                let m = choose|m: int| 0 <= m < a.len() && a[m] == entry;
                if m == a.len() - 1 {
                    assert(selection_document::placed_before(b[k], b[b.len() - 1]));
                }
                assert(c[m] == entry);
            }
        }
        lemma_order_is_unique(c, d);
        assert(a =~= c.push(a.last()));
        assert(b =~= d.push(b.last()));
    }
}

/// The registered fragments determine the document of an area: its fragments and their order, its
/// text, its length and its menu.
pub proof fn documents_are_determined(
    fragments: Seq<RegisteredTextSelectionFragment>,
    key: AreaKeyView,
    document: SelectionDocument,
)
    requires
        selection_document::is_document_of(fragments, key, document),
    ensures
        document.entries() == area_entries(fragments, key),
        document.text() == area_text(fragments, key),
        document.len_utf16 == area_len(fragments, key),
        document.menu() == area_menu(fragments, key),
{
    let entries: Seq<Entry<'static>> = document.entries();
    assert(selection_document::in_document_order(entries));
    assert(forall|entry: Entry| #[trigger]
        entries.contains(entry) <==> selection_document::is_member(fragments, key, entry));
    lemma_order_is_unique(document.entries(), area_entries(fragments, key));
    if document.fragments@.len() > 0 {
        assert(document.entries()[0].1 == document.fragments@[0].fragment);
    }
}

impl SelectionWindow {
    /// Whether the text of the frame can be addressed.
    pub open spec fn fits(self) -> bool {
        selection_document::total_units(self.fragments@) <= usize::MAX
    }

    /// The key of the active area among those on screen.
    pub open spec fn active_key(self) -> Option<AreaKeyView> {
        selection_document::resolve_active(
            selection_document::area_keys(self.fragments@),
            selection_document::key_view(self.selection_state.active_area),
        )
    }

    /// The text length of the active area.
    pub open spec fn active_len(self) -> usize {
        area_len(self.fragments@, self.active_key()->0)
    }
}

/// The range that is stored, or the empty range at the start.
pub open spec fn stored_range(state: SelectionState) -> Range<usize> {
    match state.range_utf16 {
        Some(range) => range,
        None => Range { start: 0, end: 0 },
    }
}

/// Window-level read-only selection bridge.
///
/// Platform backends expose this through their native text-input surface so system selection UI
/// can query text, ranges, hit testing, and selection rects for selection areas.
#[derive(Clone, Copy, Debug)]
pub struct WindowSelectionHandler;

impl WindowSelectionHandler {
    /// Reports the selected range of the active area, and stores it limited to the area.
    pub fn selected_text_range(&self, window: &mut SelectionWindow) -> (selection: Option<
        UTF16Selection,
    >)
        requires
            old(window).fits(),
        ensures
            match selection {
                None => old(window).active_key() is None && *final(window) == *old(window),
                Some(selection) => {
                    let range = selection_range::clamp_range(
                        old(window).active_len(),
                        stored_range(old(window).selection_state),
                    );
                    &&& old(window).active_key() is Some
                    &&& selection == (UTF16Selection {
                        range,
                        reversed: old(window).selection_state.reversed,
                    })
                    &&& *final(window) == (SelectionWindow {
                        selection_state: SelectionState {
                            range_utf16: Some(range),
                            ..old(window).selection_state
                        },
                        ..*old(window)
                    })
                },
            },
    {
        let document = match SelectionDocument::active(
            &window.fragments,
            &window.selection_state.active_area,
        ) {
            Some(document) => document,
            None => {
                return None;
            },
        };
        proof {
            documents_are_determined(window.fragments@, window.active_key()->0, document);
        }
        let range: Range<usize> = match &window.selection_state.range_utf16 {
            Some(range) => document.clamped_range(range.start..range.end),
            None => 0..0,
        };
        window.selection_state.range_utf16 = Some(range.start..range.end);
        Some(UTF16Selection { range, reversed: window.selection_state.reversed })
    }

    /// A read-only selection marks no text.
    pub fn marked_text_range(&self) -> (range: Option<Range<usize>>)
        ensures
            range is None,
    {
        None
    }

    /// Copies the text that a range covers in the active area and reports the range used.
    pub fn text_for_range(&self, range_utf16: Range<usize>, window: &SelectionWindow) -> (copied:
        Option<(Range<usize>, String)>)
        requires
            window.fits(),
        ensures
            copied is Some == window.active_key() is Some,
            copied matches Some((adjusted, text)) ==> {
                &&& adjusted == selection_range::clamp_range(window.active_len(), range_utf16)
                &&& text@ == crate::utf16::utf16_subrange(
                    area_text(window.fragments@, window.active_key()->0),
                    adjusted.start as nat,
                    adjusted.end as nat,
                )
            },
    {
        let document = match SelectionDocument::active(
            &window.fragments,
            &window.selection_state.active_area,
        ) {
            Some(document) => document,
            None => {
                return None;
            },
        };
        proof {
            documents_are_determined(window.fragments@, window.active_key()->0, document);
        }
        let range: Range<usize> = document.clamped_range(range_utf16);
        match document.text_for_range(range.start..range.end) {
            Some(text) => Some((range, text)),
            None => None,
        }
    }

    /// Finds what to ask the painted layouts for the rectangle that stands for a range.
    pub fn bounds_for_range(&self, range_utf16: Range<usize>, window: &SelectionWindow) -> (query:
        Option<BoundsQuery>)
        requires
            window.fits(),
        ensures
            query is Some == window.active_key() is Some,
            query matches Some(query) ==> exists|document: SelectionDocument| #[trigger]
                selection_document::is_document_of(
                    window.fragments@,
                    window.active_key()->0,
                    document,
                ) && match query {
                    BoundsQuery::Caret(caret) => {
                        &&& !document.range_shows(range_utf16)
                        &&& caret is Some <==> document.fragments@.len() > 0
                        &&& caret matches Some(caret) ==> document.asks_for_caret(
                            selection_range::clamp_range(
                                window.active_len(),
                                range_utf16,
                            ).start as int,
                            caret,
                        )
                    },
                    BoundsQuery::FirstRect(spans) => {
                        &&& document.range_shows(range_utf16)
                        &&& selection_range::span_list(spans@) == document.spans_in(range_utf16)
                    },
                },
    {
        match SelectionDocument::active(&window.fragments, &window.selection_state.active_area) {
            Some(document) => {
                proof {
                    documents_are_determined(window.fragments@, window.active_key()->0, document);
                }
                Some(document.bounds_query(range_utf16))
            },
            None => None,
        }
    }

    /// Finds the runs of bytes whose painted rectangles make up a range.
    pub fn rects_for_range(&self, range_utf16: Range<usize>, window: &SelectionWindow) -> (spans:
        Vec<FragmentSpan>)
        requires
            window.fits(),
        ensures
            window.active_key() is None ==> spans@.len() == 0,
            window.active_key() is Some ==> exists|document: SelectionDocument| #[trigger]
                selection_document::is_document_of(
                    window.fragments@,
                    window.active_key()->0,
                    document,
                ) && selection_range::span_list(spans@) == document.spans_in(range_utf16),
    {
        match SelectionDocument::active(&window.fragments, &window.selection_state.active_area) {
            Some(document) => document.spans_for_range(range_utf16),
            None => Vec::new(),
        }
    }

    /// A read-only selection takes no text.
    pub fn accepts_text_input(&self) -> (accepts: bool)
        ensures
            !accepts,
    {
        false
    }

    /// Selects a range of the active area, and remembers what it covers if it covers anything.
    pub fn set_selected_text_range(&self, range: Range<usize>, window: &mut SelectionWindow)
        requires
            old(window).fits(),
        ensures
            old(window).active_key() is None ==> *final(window) == *old(window),
            old(window).active_key() matches Some(key) ==> {
                let clamped = selection_range::clamp_range(old(window).active_len(), range);
                &&& final(window).fragments == old(window).fragments
                &&& final(window).selection_state == (SelectionState {
                    range_utf16: Some(clamped),
                    reversed: false,
                    ..old(window).selection_state
                })
                &&& if clamped.start < clamped.end && selection_document::key_area_id(
                    key,
                ) is Some {
                    &&& final(window).latest_read_only_selection is Some
                    &&& shows_selection(
                        *old(window),
                        clamped,
                        final(window).latest_read_only_selection->0,
                    )
                } else {
                    final(window).latest_read_only_selection
                        == old(window).latest_read_only_selection
                }
            },
    {
        let document = match SelectionDocument::active(
            &window.fragments,
            &window.selection_state.active_area,
        ) {
            Some(document) => document,
            None => {
                return;
            },
        };
        proof {
            documents_are_determined(window.fragments@, window.active_key()->0, document);
        }
        let clamped: Range<usize> = document.clamped_range(range.start..range.end);
        let snapshot = document.snapshot_for_range(range);
        window.selection_state.range_utf16 = Some(clamped);
        window.selection_state.reversed = false;
        if let Some(snapshot) = snapshot {
            window.latest_read_only_selection = Some(snapshot);
        }
    }

    /// Forgets the selected area and range.
    pub fn clear_selected_text_range(&self, window: &mut SelectionWindow)
        ensures
            *final(window) == (SelectionWindow {
                selection_state: SelectionState {
                    active_area: None,
                    range_utf16: None,
                    reversed: false,
                },
                ..*old(window)
            }),
    {
        window.selection_state = SelectionState::default();
    }

    /// Finds the range a native selection gesture starts with: the word at the start of the touched
    /// range, or else that range.
    pub fn initial_native_selection_range(
        &self,
        range: Range<usize>,
        window: &SelectionWindow,
    ) -> (initial: Option<Range<usize>>)
        requires
            window.fits(),
        ensures
            initial is Some == window.active_key() is Some,
            initial matches Some(initial) ==> {
                let text = area_text(window.fragments@, window.active_key()->0);
                let words = words::unicode_words(text);
                let clamped = selection_range::clamp_range(window.active_len(), range);
                &&& words::words_in_order(text, words)
                &&& {
                    ||| words::is_word_at(text, words, clamped.start as nat, Some(initial))
                        && initial.start <= clamped.start < initial.end <= utf16::utf16_units(text)
                    ||| words::is_word_at(text, words, clamped.start as nat, None) && initial
                        == clamped
                }
            },
    {
        let document = match SelectionDocument::active(
            &window.fragments,
            &window.selection_state.active_area,
        ) {
            Some(document) => document,
            None => {
                return None;
            },
        };
        proof {
            documents_are_determined(window.fragments@, window.active_key()->0, document);
        }
        let range: Range<usize> = document.clamped_range(range);
        match document.word_range_at(range.start) {
            Some(word) => Some(word),
            None => Some(range),
        }
    }

    /// Lists the menu actions for the current selection, if it covers anything.
    pub fn selection_actions(&self, window: &SelectionWindow) -> (actions: ActionList)
        requires
            window.fits(),
        ensures
            actions@ == if window.selection_shows() {
                area_menu(window.fragments@, window.active_key()->0)
            } else {
                Seq::empty()
            },
    {
        let document = match SelectionDocument::active(
            &window.fragments,
            &window.selection_state.active_area,
        ) {
            Some(document) => document,
            None => {
                return ActionList::new();
            },
        };
        proof {
            documents_are_determined(window.fragments@, window.active_key()->0, document);
        }
        let range: Range<usize> = match &window.selection_state.range_utf16 {
            Some(range) => document.clamped_range(range.start..range.end),
            None => {
                return ActionList::new();
            },
        };
        if range.start >= range.end {
            return ActionList::new();
        }
        document.actions()
    }
}

/// Whether a snapshot shows a range of the active area.
pub open spec fn shows_selection(
    window: SelectionWindow,
    range: Range<usize>,
    snapshot: ReadOnlySelectionSnapshot,
) -> bool {
    let key = window.active_key()->0;
    &&& Some(snapshot.area_id@) == selection_document::key_area_id(key)
    &&& snapshot.range_utf16 == range
    &&& snapshot.text@ == crate::utf16::utf16_subrange(
        area_text(window.fragments@, key),
        range.start as nat,
        range.end as nat,
    )
}

impl SelectionWindow {
    /// Whether the stored range covers any text of the active area.
    pub open spec fn selection_shows(self) -> bool {
        &&& self.active_key() is Some
        &&& self.selection_state.range_utf16 is Some
        &&& {
            let range = selection_range::clamp_range(
                self.active_len(),
                self.selection_state.range_utf16->0,
            );
            range.start < range.end
        }
    }
}

/// Takes a snapshot of the current selection, if it covers any text.
pub fn active_read_only_selection(window: &SelectionWindow) -> (snapshot: Option<
    ReadOnlySelectionSnapshot,
>)
    requires
        window.fits(),
    ensures
        snapshot is Some <==> window.selection_shows() && selection_document::key_area_id(
            window.active_key()->0,
        ) is Some,
        snapshot matches Some(snapshot) ==> shows_selection(
            *window,
            selection_range::clamp_range(
                window.active_len(),
                window.selection_state.range_utf16->0,
            ),
            snapshot,
        ),
{
    let document = match SelectionDocument::active(
        &window.fragments,
        &window.selection_state.active_area,
    ) {
        Some(document) => document,
        None => {
            return None;
        },
    };
    proof {
        documents_are_determined(window.fragments@, window.active_key()->0, document);
    }
    match &window.selection_state.range_utf16 {
        Some(range) => document.snapshot_for_range(range.start..range.end),
        None => None,
    }
}

/// Whether documents are those of all areas on screen, in order.
pub open spec fn are_documents(
    fragments: Seq<RegisteredTextSelectionFragment>,
    documents: Seq<SelectionDocument>,
) -> bool {
    &&& documents.len() == selection_document::area_keys(fragments).len()
    &&& forall|d: int|
        0 <= d < documents.len() ==> selection_document::is_document_of(
            fragments,
            selection_document::area_keys(fragments)[d],
            #[trigger] documents[d],
        )
}

/// Whether documents are that of the active area, if any, followed by those of all areas.
pub open spec fn are_candidates(window: SelectionWindow, documents: Seq<SelectionDocument>) -> bool {
    match window.active_key() {
        Some(key) => documents.len() > 0 && selection_document::is_document_of(
            window.fragments@,
            key,
            documents[0],
        ) && are_documents(window.fragments@, documents.drop_first()),
        None => are_documents(window.fragments@, documents),
    }
}

/// Whether document `d` is the first with a position under the point, and `index` is that position.
pub open spec fn hit_at(
    documents: Seq<SelectionDocument>,
    probe: PointProbe,
    d: int,
    index: usize,
) -> bool {
    &&& 0 <= d < documents.len()
    &&& documents[d].is_index_under(probe, Some(index))
    &&& forall|e: int| 0 <= e < d ==> (#[trigger] documents[e]).is_index_under(probe, None)
}

/// Whether document `d` is the first with a nearest position, and `index` is that position.
pub open spec fn nearest_at(
    documents: Seq<SelectionDocument>,
    probe: PointProbe,
    d: int,
    index: usize,
) -> bool {
    &&& 0 <= d < documents.len()
    &&& documents[d].is_nearest_index(probe, Some(index))
    &&& forall|e: int| 0 <= e < d ==> (#[trigger] documents[e]).is_nearest_index(probe, None)
}

impl SelectionWindow {
    /// Whether a probe reports on every fragment of the frame and their hitboxes are in order.
    pub open spec fn probed_by(self, probe: PointProbe) -> bool {
        &&& probe.fragments@.len() == self.fragments@.len()
        &&& forall|i: int|
            0 <= i < self.fragments@.len() && (
            #[trigger] self.fragments@[i]).active_area.hitbox_range is Some ==> {
                let (start, end) = crate::selection_probe::hitbox_window(
                    probe.hitboxes@.len() as int,
                    self.fragments@[i].active_area.hitbox_range->0,
                );
                start <= end
            }
    }

    proof fn lemma_documents_are_probed(
        self,
        key: AreaKeyView,
        document: SelectionDocument,
        probe: PointProbe,
    )
        requires
            self.probed_by(probe),
            selection_document::is_document_of(self.fragments@, key, document),
        ensures
            document.probed_by(probe),
    {
        assert forall|n: int| 0 <= n < document.fragments@.len() implies (
        #[trigger] document.fragments@[n]).source_index < probe.fragments@.len() by {
            assert(document.entries().contains(document.entries()[n]));
        }
        if document.fragments@.len() > 0 {
            assert(document.entries().contains(document.entries()[0]));
            assert(*document.fragments@[0].fragment
                == self.fragments@[document.fragments@[0].source_index as int]);
        }
    }
}

impl WindowSelectionHandler {
    /// Finds the text under a point, and makes the area it lies in the active one.
    ///
    /// Where the area was not active, or nothing was selected, the selection becomes empty at the
    /// found position.
    pub fn character_index_for_point(&self, probe: &PointProbe, window: &mut SelectionWindow) -> (
    found: Option<usize>)
        requires
            old(window).fits(),
            old(window).probed_by(*probe),
        ensures
            exists|documents: Seq<SelectionDocument>| #[trigger]
                are_documents(old(window).fragments@, documents) && match found {
                    None => {
                        &&& *final(window) == *old(window)
                        &&& forall|e: int|
                            0 <= e < documents.len() ==> (
                            #[trigger] documents[e]).is_index_under(*probe, None)
                    },
                    Some(index) => exists|d: int| #[trigger]
                        hit_at(documents, *probe, d, index) && {
                            let key = documents[d].key@;
                            let before = old(window).selection_state;
                            let after = final(window).selection_state;
                            &&& final(window).fragments == old(window).fragments
                            &&& final(window).latest_read_only_selection
                                == old(window).latest_read_only_selection
                            &&& selection_document::key_view(after.active_area) == Some(key)
                            &&& if selection_document::key_view(before.active_area) != Some(key)
                                || before.range_utf16 is None {
                                after.range_utf16 == Some(Range { start: index, end: index })
                                    && !after.reversed
                            } else {
                                after.range_utf16 == before.range_utf16 && after.reversed
                                    == before.reversed
                            }
                        },
                },
    {
        let documents: Vec<SelectionDocument> = SelectionDocument::all(&window.fragments);
        let mut d: usize = 0;
        let mut hit: Option<(usize, usize)> = None;
        while d < documents.len()
            invariant_except_break
                hit is None,
            invariant
                *window == *old(window),
                window.probed_by(*probe),
                d <= documents@.len(),
                are_documents(window.fragments@, documents@),
                forall|e: int|
                    0 <= e < d ==> (#[trigger] documents@[e]).is_index_under(*probe, None),
            ensures
                *window == *old(window),
                are_documents(window.fragments@, documents@),
                match hit {
                    Some((at, index)) => hit_at(documents@, *probe, at as int, index),
                    None => forall|e: int|
                        0 <= e < documents@.len() ==> (
                        #[trigger] documents@[e]).is_index_under(*probe, None),
                },
            decreases documents@.len() - d,
        {
            proof {
                window.lemma_documents_are_probed(
                    selection_document::area_keys(window.fragments@)[d as int],
                    documents@[d as int],
                    *probe,
                );
            }
            if let Some(index) = documents[d].character_index_for_point(probe) {
                hit = Some((d, index));
                assert(hit_at(documents@, *probe, d as int, index));
                break ;
            }
            d = d + 1;
        }
        match hit {
            Some((at, index)) => {
                let key = documents[at].key.clone();
                let area_changed: bool = match &window.selection_state.active_area {
                    Some(active) => !active.same(&key),
                    None => true,
                };
                assert(hit_at(documents@, *probe, at as int, index));
                window.selection_state.active_area = Some(key);
                if area_changed || window.selection_state.range_utf16.is_none() {
                    window.selection_state.range_utf16 = Some(index..index);
                    window.selection_state.reversed = false;
                }
                Some(index)
            },
            None => None,
        }
    }

    /// Finds the text closest to a point, in the active area first.
    pub fn nearest_character_index_for_point(
        &self,
        probe: &PointProbe,
        window: &SelectionWindow,
    ) -> (found: Option<usize>)
        requires
            window.fits(),
            window.probed_by(*probe),
        ensures
            exists|documents: Seq<SelectionDocument>| #[trigger]
                are_candidates(*window, documents) && match found {
                    None => forall|e: int|
                        0 <= e < documents.len() ==> (
                        #[trigger] documents[e]).is_nearest_index(*probe, None),
                    Some(index) => exists|d: int| #[trigger]
                        nearest_at(documents, *probe, d, index),
                },
    {
        let active = SelectionDocument::active(
            &window.fragments,
            &window.selection_state.active_area,
        );
        let documents: Vec<SelectionDocument> = SelectionDocument::all(&window.fragments);
        let ghost candidates: Seq<SelectionDocument> = if active is Some {
            seq![active->0] + documents@
        } else {
            documents@
        };
        let ghost shift: int = if active is Some { 1 } else { 0 };
        proof {
            assert(are_documents(window.fragments@, documents@));
            if active is Some {
                assert(candidates.drop_first() =~= documents@);
            }
            assert(are_candidates(*window, candidates));
        }
        if let Some(document) = &active {
            proof {
                window.lemma_documents_are_probed(window.active_key()->0, *document, *probe);
            }
            let nearest: Option<usize> = document.nearest_character_index_for_point(probe);
            if let Some(index) = nearest {
                assert(nearest_at(candidates, *probe, 0, index));
                return nearest;
            }
        }
        let mut d: usize = 0;
        while d < documents.len()
            invariant
                d <= documents@.len(),
                window.probed_by(*probe),
                are_documents(window.fragments@, documents@),
                are_candidates(*window, candidates),
                shift == 0 || shift == 1,
                candidates.len() == documents@.len() + shift,
                forall|e: int| 0 <= e < documents@.len() ==> candidates[e + shift] == #[trigger] documents@[e],
                forall|e: int|
                    0 <= e < d + shift ==> (#[trigger] candidates[e]).is_nearest_index(
                        *probe,
                        None,
                    ),
            decreases documents@.len() - d,
        {
            proof {
                window.lemma_documents_are_probed(
                    selection_document::area_keys(window.fragments@)[d as int],
                    documents@[d as int],
                    *probe,
                );
            }
            let nearest: Option<usize> = documents[d].nearest_character_index_for_point(probe);
            assert(candidates[d + shift] == documents@[d as int]);
            if let Some(index) = nearest {
                assert(nearest_at(candidates, *probe, d + shift, index));
                return nearest;
            }
            d = d + 1;
        }
        None
    }
}

/// Selecting a range of the active area and then asking for the selection gives that range back,
/// limited to the area.
pub proof fn selection_reads_back(
    before: SelectionWindow,
    range: Range<usize>,
    after: SelectionWindow,
)
    requires
        before.active_key() is Some,
        after.fragments == before.fragments,
        after.selection_state == (SelectionState {
            range_utf16: Some(selection_range::clamp_range(before.active_len(), range)),
            reversed: false,
            ..before.selection_state
        }),
    ensures
        after.active_key() == before.active_key(),
        selection_range::clamp_range(after.active_len(), stored_range(after.selection_state))
            == selection_range::clamp_range(before.active_len(), range),
{
    selection_range::clamping_is_idempotent(before.active_len(), range);
}

/// After the selection is cleared no area is active, so nothing is selected and no menu action is
/// offered.
pub proof fn cleared_selection_is_silent(window: SelectionWindow)
    requires
        window.selection_state.active_area is None,
    ensures
        window.active_key() is None,
        !window.selection_shows(),
{
}

/// An area that is on screen under its own key stays the active one, whatever other areas share its
/// identity.
pub proof fn exact_key_stays_active(window: SelectionWindow)
    requires
        window.selection_state.active_area is Some,
        selection_document::area_keys(window.fragments@).contains(
            window.selection_state.active_area->0@,
        ),
    ensures
        window.active_key() == Some(window.selection_state.active_area->0@),
{
}

/// An area whose key is gone is not replaced where several areas share its identity.
pub proof fn ambiguous_areas_are_not_active(window: SelectionWindow, i: int, j: int)
    requires
        window.selection_state.active_area is Some,
        !selection_document::area_keys(window.fragments@).contains(
            window.selection_state.active_area->0@,
        ),
        0 <= i < j < selection_document::area_keys(window.fragments@).len(),
        selection_document::key_area_id(selection_document::area_keys(window.fragments@)[i])
            == selection_document::key_area_id(window.selection_state.active_area->0@),
        selection_document::key_area_id(selection_document::area_keys(window.fragments@)[j])
            == selection_document::key_area_id(window.selection_state.active_area->0@),
    ensures
        window.active_key() is None,
{
    let keys = selection_document::area_keys(window.fragments@);
    let key = window.selection_state.active_area->0@;
    if selection_document::key_area_id(key) is Some {
        let id = selection_document::key_area_id(key)->0;
        assert forall|k: int| !selection_document::sole_match(keys, id, k) by {
            if selection_document::sole_match(keys, id, k) {
                let other = if k == i { j } else { i };
                assert(selection_document::key_area_id(keys[other]) == Some(id));
            }
        }
    }
}

/// Without a stored range the selection is the empty one at the start, and a stored range is taken
/// as it is.
pub proof fn nothing_stored_is_an_empty_selection(state: SelectionState)
    ensures
        state.range_utf16 is None ==> stored_range(state).start == 0 && stored_range(state).end == 0,
        state.range_utf16 matches Some(range) ==> stored_range(state) == range,
{
}

/// A selection shows exactly where an area is active, a range is stored, and a position of the
/// area's text lies between the ends of the range.
pub proof fn selections_show_where_they_hold_a_position(window: SelectionWindow, position: int)
    ensures
        window.active_key() is None || window.selection_state.range_utf16 is None
            ==> !window.selection_shows(),
        window.active_key() is Some && 0 <= position < window.active_len()
            && window.selection_state.range_utf16 is Some && selection_range::is_between(
            window.selection_state.range_utf16->0,
            position,
        ) ==> window.selection_shows(),
        window.selection_shows() ==> window.selection_state.range_utf16->0.start
            != window.selection_state.range_utf16->0.end && window.active_len() > 0,
{
}

/// A snapshot of a selection names the area by the last step of its path and holds the range and the
/// text of the document between its ends.
pub proof fn snapshots_hold_the_selected_text(
    window: SelectionWindow,
    range: Range<usize>,
    snapshot: ReadOnlySelectionSnapshot,
    document: SelectionDocument,
) -> (cut: (int, int))
    requires
        window.active_key() is Some,
        selection_document::is_document_of(window.fragments@, window.active_key()->0, document),
        range.start <= range.end <= document.len_utf16,
        shows_selection(window, range, snapshot),
    ensures
        snapshot.range_utf16 == range,
        window.active_key()->0 matches AreaKeyView::Global(path) ==> path.len() > 0
            && snapshot.area_id@ == path[path.len() - 1],
        window.active_key()->0 matches AreaKeyView::ViewScoped(_, id) ==> snapshot.area_id@ == id,
        0 <= cut.0 <= cut.1 <= document.text().len(),
        snapshot.text@ == document.text().subrange(cut.0, cut.1),
        utf16::utf16_units(document.text().subrange(0, cut.0)) <= range.start,
        cut.0 < document.text().len() ==> utf16::utf16_units(
            document.text().subrange(0, cut.0 + 1),
        ) > range.start,
        utf16::utf16_units(document.text().subrange(0, cut.1)) <= range.end,
        cut.1 < document.text().len() ==> utf16::utf16_units(
            document.text().subrange(0, cut.1 + 1),
        ) > range.end,
{
    documents_are_determined(window.fragments@, window.active_key()->0, document);
    utf16::slices_are_cut_in_front_of_a_character(
        document.text(),
        range.start as nat,
        range.end as nat,
    )
}

/// A point is found in the first area that has a position under it: none before that area has one.
pub proof fn points_are_found_in_the_first_area(
    documents: Seq<SelectionDocument>,
    probe: PointProbe,
    d: int,
    index: usize,
    e: int,
    earlier: usize,
)
    requires
        hit_at(documents, probe, d, index),
        0 <= e < d,
    ensures
        d < documents.len(),
        documents[d].is_index_under(probe, Some(index)),
        !documents[e].is_index_under(probe, Some(earlier)),
{
    assert(documents[e].is_index_under(probe, None));
    if documents[e].is_index_under(probe, Some(earlier)) {
        let n = choose|n: int| #[trigger]
            documents[e].first_under(probe, n) && earlier == documents[e].index_at(probe, n);
        assert(documents[e].probe_of(probe, n).in_layout);
    }
}

/// The text near a point is looked for in the active area before all others, and found in the first
/// area that the point reaches.
pub proof fn the_active_area_is_searched_first(
    window: SelectionWindow,
    documents: Seq<SelectionDocument>,
    probe: PointProbe,
    d: int,
    index: usize,
)
    requires
        are_candidates(window, documents),
        nearest_at(documents, probe, d, index),
        window.probed_by(probe),
    ensures
        window.active_key() matches Some(key) ==> {
            &&& documents[0].key@ == key
            &&& !documents[0].out_of_reach(probe) && documents[0].fragments@.len() > 0 ==> d == 0
        },
        documents[d].is_nearest_index(probe, Some(index)),
        forall|e: int|
            0 <= e < d ==> (#[trigger] documents[e]).out_of_reach(probe)
                || documents[e].fragments@.len() == 0,
{
    assert forall|e: int| 0 <= e < d implies (#[trigger] documents[e]).out_of_reach(probe)
        || documents[e].fragments@.len() == 0 by {
        assert(documents[e].is_nearest_index(probe, None));
    }
}

} // verus!
