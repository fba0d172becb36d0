//! The text of a selection area as one document, and positions inside it.
//!
//! The fragments registered in a frame are grouped by the area that owns them. The fragments of an
//! area form a document: each contributes its text followed by its separator, and all positions in
//! the document are counted in UTF-16 code units.
use crate::element_id::{ElementId, ElementIdView, GlobalElementId};
use crate::geometry::Bounds;
use crate::selection::RegisteredTextSelectionFragment;
use crate::utf16;
use std::ops::Range;
use vstd::prelude::*;
use vstd::string::*;

verus! {

/// What identifies a selection area across frames.
#[derive(Debug, PartialEq, Eq)]
pub enum SelectionAreaKey {
    /// The path of the area's element.
    Global(GlobalElementId),
    /// The area's identity inside the view that painted it.
    ViewScoped(u64, ElementId),
}

/// What a [`SelectionAreaKey`] holds.
pub enum AreaKeyView {
    Global(Seq<ElementIdView>),
    ViewScoped(u64, ElementIdView),
}

impl View for SelectionAreaKey {
    type V = AreaKeyView;

    open spec fn view(&self) -> AreaKeyView {
        match *self {
            SelectionAreaKey::Global(global_id) => AreaKeyView::Global(global_id@),
            SelectionAreaKey::ViewScoped(view_id, id) => AreaKeyView::ViewScoped(view_id, id@),
        }
    }
}

/// The key of the area that owns a fragment.
pub open spec fn area_key(fragment: RegisteredTextSelectionFragment) -> AreaKeyView {
    match fragment.active_area.global_id {
        Some(global_id) => AreaKeyView::Global(global_id@),
        None => AreaKeyView::ViewScoped(
            fragment.view_id,
            fragment.active_area.selection_area.id@,
        ),
    }
}

/// The identity of the area itself under a key: the last identity of its path, if it has one.
pub open spec fn key_area_id(key: AreaKeyView) -> Option<ElementIdView> {
    match key {
        AreaKeyView::Global(ids) => if ids.len() == 0 {
            None
        } else {
            Some(ids.last())
        },
        AreaKeyView::ViewScoped(_, id) => Some(id),
    }
}

impl SelectionAreaKey {
    /// The key of the area that owns a fragment.
    pub fn from_fragment(fragment: &RegisteredTextSelectionFragment) -> (key: Self)
        ensures
            key@ == area_key(*fragment),
    {
        match &fragment.active_area.global_id {
            Some(global_id) => SelectionAreaKey::Global(global_id.clone()),
            None => SelectionAreaKey::ViewScoped(
                fragment.view_id,
                fragment.active_area.selection_area.id.clone(),
            ),
        }
    }

    /// The identity of the area itself.
    pub fn selection_area_id(&self) -> (id: Option<&ElementId>)
        ensures
            id is Some == key_area_id(self@) is Some,
            id matches Some(id) ==> id@ == key_area_id(self@)->0,
    {
        match self {
            SelectionAreaKey::Global(global_id) => {
                if global_id.0.len() == 0 {
                    None
                } else {
                    Some(&global_id.0[global_id.0.len() - 1])
                }
            },
            SelectionAreaKey::ViewScoped(_, element_id) => Some(element_id),
        }
    }

    /// Compares two keys.
    pub fn same(&self, other: &SelectionAreaKey) -> (same: bool)
        ensures
            same == (self@ == other@),
    {
        match (self, other) {
            (SelectionAreaKey::Global(a), SelectionAreaKey::Global(b)) => a.same(b),
            (SelectionAreaKey::ViewScoped(u, a), SelectionAreaKey::ViewScoped(v, b)) => *u == *v
                && a.same(b),
            _ => false,
        }
    }
}

impl Clone for SelectionAreaKey {
    fn clone(&self) -> (copy: Self)
        ensures
            copy@ == self@,
    {
        match self {
            SelectionAreaKey::Global(global_id) => SelectionAreaKey::Global(global_id.clone()),
            SelectionAreaKey::ViewScoped(view_id, id) => SelectionAreaKey::ViewScoped(
                *view_id,
                id.clone(),
            ),
        }
    }
}

/// The text that fragments contribute one after the other.
pub open spec fn serialized(fragments: Seq<RegisteredTextSelectionFragment>) -> Seq<char>
    decreases fragments.len(),
{
    if fragments.len() == 0 {
        Seq::empty()
    } else {
        serialized(fragments.drop_last()) + fragments.last().fragment.text@
            + fragments.last().fragment.separator_after@
    }
}

/// The UTF-16 code units a fragment contributes.
pub open spec fn fragment_units(fragment: RegisteredTextSelectionFragment) -> nat {
    utf16::utf16_units(fragment.fragment.text@) + utf16::utf16_units(
        fragment.fragment.separator_after@,
    )
}

/// The UTF-16 code units that fragments contribute together.
pub open spec fn total_units(fragments: Seq<RegisteredTextSelectionFragment>) -> nat
    decreases fragments.len(),
{
    if fragments.len() == 0 {
        0
    } else {
        total_units(fragments.drop_last()) + fragment_units(fragments.last())
    }
}

/// A document is as long as its fragments together.
pub proof fn lemma_serialized_units(fragments: Seq<RegisteredTextSelectionFragment>)
    ensures
        utf16::utf16_units(serialized(fragments)) == total_units(fragments),
    decreases fragments.len(),
{
    if fragments.len() > 0 {
        let rest = fragments.drop_last();
        let text = fragments.last().fragment.text@;
        lemma_serialized_units(rest);
        utf16::lemma_units_concat(serialized(rest), text);
        utf16::lemma_units_concat(
            serialized(rest) + text,
            fragments.last().fragment.separator_after@,
        );
    }
}

proof fn lemma_total_units_split(
    a: Seq<RegisteredTextSelectionFragment>,
    b: Seq<RegisteredTextSelectionFragment>,
)
    ensures
        total_units(a + b) == total_units(a) + total_units(b),
    decreases b.len(),
{
    if b.len() == 0 {
        assert(a + b =~= a);
    } else {
        assert((a + b).drop_last() =~= a + b.drop_last());
        lemma_total_units_split(a, b.drop_last());
    }
}

proof fn lemma_total_units_insert(
    fragments: Seq<RegisteredTextSelectionFragment>,
    at: int,
    fragment: RegisteredTextSelectionFragment,
)
    requires
        0 <= at <= fragments.len(),
    ensures
        total_units(fragments.insert(at, fragment)) == total_units(fragments) + fragment_units(
            fragment,
        ),
{
    let head = fragments.take(at);
    let tail = fragments.skip(at);
    assert(fragments =~= head + tail);
    assert(fragments.insert(at, fragment) =~= head.push(fragment) + tail);
    assert(head.push(fragment).drop_last() =~= head);
    lemma_total_units_split(head, tail);
    lemma_total_units_split(head.push(fragment), tail);
}

/// A fragment and its place among those registered in the frame.
pub type Entry<'a> = (usize, &'a RegisteredTextSelectionFragment);

/// Where a fragment asks to stand: its explicit order, or else its place of registration.
pub open spec fn place_rank(entry: Entry) -> int {
    match entry.1.fragment.order {
        Some(order) => order as int,
        None => entry.0 as int,
    }
}

/// Whether one fragment comes before another: by rank, then by place of registration.
pub open spec fn placed_before(a: Entry, b: Entry) -> bool {
    place_rank(a) < place_rank(b) || (place_rank(a) == place_rank(b) && a.0 < b.0)
}

/// Whether fragments stand in document order.
pub open spec fn in_document_order(entries: Seq<Entry>) -> bool {
    forall|i: int, j: int|
        0 <= i < j < entries.len() ==> placed_before(#[trigger] entries[i], #[trigger] entries[j])
}

/// The fragments of entries without their places.
pub open spec fn entry_fragments(entries: Seq<Entry>) -> Seq<RegisteredTextSelectionFragment> {
    entries.map_values(|entry: Entry| *entry.1)
}

/// A fragment inside a document, with the UTF-16 offsets at which its text begins and ends and at
/// which its separator ends.
pub struct SelectionDocumentFragment<'a> {
    pub fragment: &'a RegisteredTextSelectionFragment,
    /// The place of the fragment among those registered in the frame.
    pub source_index: usize,
    pub content_start_utf16: usize,
    pub content_end_utf16: usize,
    pub separator_end_utf16: usize,
}

/// The text of one selection area.
pub struct SelectionDocument<'a> {
    pub key: SelectionAreaKey,
    pub fragments: Vec<SelectionDocumentFragment<'a>>,
    pub len_utf16: usize,
    /// Where the area was painted.
    pub bounds: Option<Bounds>,
    /// The hitboxes that the area's subtree owns.
    pub hitbox_range: Option<Range<usize>>,
}

impl<'a> SelectionDocument<'a> {
    /// The fragments in document order with their places of registration.
    pub open spec fn entries(self) -> Seq<Entry<'a>> {
        self.fragments@.map_values(
            |fragment: SelectionDocumentFragment<'a>| (fragment.source_index, fragment.fragment),
        )
    }

    /// The fragments in document order.
    pub open spec fn registered(self) -> Seq<RegisteredTextSelectionFragment> {
        entry_fragments(self.entries())
    }

    /// The whole text.
    pub open spec fn text(self) -> Seq<char> {
        serialized(self.registered())
    }

    /// Whether the offsets of all fragments follow from their texts.
    pub open spec fn well_formed(self) -> bool {
        &&& self.len_utf16 == total_units(self.registered())
        &&& forall|n: int|
            0 <= n < self.fragments@.len() ==> {
                let fragment = #[trigger] self.fragments@[n];
                &&& fragment.content_start_utf16 == total_units(self.registered().take(n))
                &&& fragment.content_end_utf16 == fragment.content_start_utf16
                    + utf16::utf16_units(fragment.fragment.fragment.text@)
                &&& fragment.separator_end_utf16 == fragment.content_end_utf16
                    + utf16::utf16_units(fragment.fragment.fragment.separator_after@)
            }
    }

    /// Whether the area's region is that of the first fragment.
    pub open spec fn region_follows(self) -> bool {
        if self.fragments@.len() == 0 {
            self.bounds is None && self.hitbox_range is None
        } else {
            let area = self.fragments@[0].fragment.active_area;
            self.bounds == area.bounds && self.hitbox_range == area.hitbox_range
        }
    }
}

/// Whether no two entries stand for the same registered fragment.
pub open spec fn sources_differ(entries: Seq<Entry>) -> bool {
    forall|i: int, j: int|
        0 <= i < j < entries.len() ==> (#[trigger] entries[i]).0 != (#[trigger] entries[j]).0
}

/// Places fragments in document order.
fn place_fragments<'a>(fragments: &Vec<Entry<'a>>) -> (placed: Vec<Entry<'a>>)
    requires
        sources_differ(fragments@),
    ensures
        in_document_order(placed@),
        forall|entry: Entry| #[trigger] placed@.contains(entry) <==> fragments@.contains(entry),
        placed@.len() == fragments@.len(),
        total_units(entry_fragments(placed@)) == total_units(entry_fragments(fragments@)),
{
    let mut placed: Vec<Entry<'a>> = Vec::new();
    let mut i: usize = 0;
    assert(entry_fragments(placed@) =~= entry_fragments(fragments@.take(0)));
    while i < fragments.len()
        invariant
            i <= fragments@.len(),
            sources_differ(fragments@),
            in_document_order(placed@),
            placed@.len() == i,
            forall|entry: Entry|
                #[trigger] placed@.contains(entry) <==> fragments@.take(i as int).contains(entry),
            total_units(entry_fragments(placed@)) == total_units(
                entry_fragments(fragments@.take(i as int)),
            ),
        decreases fragments@.len() - i,
    {
        let entry: Entry<'a> = fragments[i];
        let ghost before = placed@;
        let ghost done = fragments@.take(i as int);
        let mut at: usize = 0;
        while at < placed.len() && !comes_before(entry, placed[at])
            invariant
                at <= placed@.len(),
                placed@ == before,
                forall|k: int| 0 <= k < at ==> !placed_before(entry, #[trigger] before[k]),
            decreases placed@.len() - at,
        {
            at = at + 1;
        }
        proof {
            assert forall|k: int| 0 <= k < before.len() implies (#[trigger] before[k]).0
                != entry.0 by {
                assert(before.contains(before[k]));
                assert(done.contains(before[k]));
                let q = choose|q: int| 0 <= q < done.len() && done[q] == before[k];
                assert(fragments@[q].0 != fragments@[i as int].0);
            }
            assert forall|k: int| at <= k < before.len() implies placed_before(
                entry,
                #[trigger] before[k],
            ) by {
                if k > at {
                    assert(placed_before(before[at as int], before[k]));
                }
            }
        }
        placed.insert(at, entry);
        proof {
            let after = placed@;
            assert(after == before.insert(at as int, entry));
            assert forall|a: int, b: int| 0 <= a < b < after.len() implies placed_before(
                #[trigger] after[a],
                #[trigger] after[b],
            ) by {
                let pa = if a < at { a } else { a - 1 };
                let pb = if b < at { b } else { b - 1 };
                if a != at && b != at {
                    assert(after[a] == before[pa] && after[b] == before[pb]);
                } else if a == at {
                    assert(after[b] == before[b - 1]);
                } else {
                    assert(after[a] == before[a]);
                }
            }
            let grown = fragments@.take(i as int + 1);
            assert(grown =~= done.push(entry));
            assert forall|e: Entry| #[trigger] after.contains(e) <==> grown.contains(e) by {
                if after.contains(e) {
                    let k = choose|k: int| 0 <= k < after.len() && after[k] == e;
                    if k == at {
                        assert(grown[i as int] == e);
                    } else {
                        let p = if k < at { k } else { k - 1 };
                        assert(before[p] == e);
                        assert(before.contains(e));
                        assert(done.contains(e));
                        let q = choose|q: int| 0 <= q < done.len() && done[q] == e;
                        assert(grown[q] == e);
                    }
                }
                if grown.contains(e) {
                    let q = choose|q: int| 0 <= q < grown.len() && grown[q] == e;
                    if q == i {
                        assert(after[at as int] == e);
                    } else {
                        assert(done[q] == e);
                        assert(done.contains(e));
                        assert(before.contains(e));
                        let p = choose|p: int| 0 <= p < before.len() && before[p] == e;
                        if p < at {
                            assert(after[p] == e);
                        } else {
                            assert(after[p + 1] == e);
                        }
                    }
                }
            }
            assert(entry_fragments(after) =~= entry_fragments(before).insert(
                at as int,
                *entry.1,
            ));
            lemma_total_units_insert(entry_fragments(before), at as int, *entry.1);
            assert(entry_fragments(grown).drop_last() =~= entry_fragments(done));
        }
        i = i + 1;
    }
    assert(fragments@.take(fragments@.len() as int) =~= fragments@);
    placed
}

/// Finds the rank by which a fragment is placed.
fn rank_of(entry: Entry) -> (rank: u64)
    ensures
        rank == place_rank(entry),
{
    match entry.1.fragment.order {
        Some(order) => order,
        None => entry.0 as u64,
    }
}

/// Tests whether a fragment is placed before another.
fn comes_before(a: Entry, b: Entry) -> (before: bool)
    ensures
        before == placed_before(a, b),
{
    let first: u64 = rank_of(a);
    let second: u64 = rank_of(b);
    first < second || (first == second && a.0 < b.0)
}

/// The keys of the areas that own fragments, in the order in which they first appear.
pub open spec fn area_keys(fragments: Seq<RegisteredTextSelectionFragment>) -> Seq<AreaKeyView>
    decreases fragments.len(),
{
    if fragments.len() == 0 {
        Seq::empty()
    } else {
        let keys = area_keys(fragments.drop_last());
        let key = area_key(fragments.last());
        if keys.contains(key) {
            keys
        } else {
            keys.push(key)
        }
    }
}

/// Whether an entry is a registered fragment of the area with this key.
pub open spec fn is_member(
    fragments: Seq<RegisteredTextSelectionFragment>,
    key: AreaKeyView,
    entry: Entry,
) -> bool {
    &&& entry.0 < fragments.len()
    &&& *entry.1 == fragments[entry.0 as int]
    &&& area_key(*entry.1) == key
}

/// Whether `document` is the document of the area with this key: its fragments are exactly those
/// registered for the area, in document order.
pub open spec fn is_document_of(
    fragments: Seq<RegisteredTextSelectionFragment>,
    key: AreaKeyView,
    document: SelectionDocument,
) -> bool {
    &&& document.key@ == key
    &&& document.well_formed()
    &&& document.region_follows()
    &&& in_document_order(document.entries())
    &&& forall|entry: Entry| #[trigger]
        document.entries().contains(entry) <==> is_member(fragments, key, entry)
}

impl<'a> SelectionDocument<'a> {
    /// Joins the fragments of an area to its document.
    pub fn from_fragments(key: SelectionAreaKey, fragments: Vec<Entry<'a>>) -> (document: Self)
        requires
            sources_differ(fragments@),
            total_units(entry_fragments(fragments@)) <= usize::MAX,
        ensures
            document.key == key,
            document.well_formed(),
            document.region_follows(),
            in_document_order(document.entries()),
            forall|entry: Entry| #[trigger]
                document.entries().contains(entry) <==> fragments@.contains(entry),
            document.entries().len() == fragments@.len(),
    {
        let placed: Vec<Entry<'a>> = place_fragments(&fragments);
        let bounds: Option<Bounds> = if placed.len() == 0 {
            None
        } else {
            placed[0].1.active_area.bounds
        };
        let hitbox_range: Option<Range<usize>> = if placed.len() == 0 {
            None
        } else {
            copy_range(&placed[0].1.active_area.hitbox_range)
        };
        let mut len_utf16: usize = 0;
        let mut pieces: Vec<SelectionDocumentFragment<'a>> = Vec::new();
        let ghost all = entry_fragments(placed@);
        let mut i: usize = 0;
        while i < placed.len()
            invariant
                i <= placed@.len(),
                all == entry_fragments(placed@),
                total_units(all) <= usize::MAX,
                len_utf16 == total_units(all.take(i as int)),
                pieces@.len() == i,
                forall|n: int|
                    0 <= n < i ==> {
                        let piece = #[trigger] pieces@[n];
                        &&& (piece.source_index, piece.fragment) == placed@[n]
                        &&& piece.content_start_utf16 == total_units(all.take(n))
                        &&& piece.content_end_utf16 == piece.content_start_utf16
                            + utf16::utf16_units(piece.fragment.fragment.text@)
                        &&& piece.separator_end_utf16 == piece.content_end_utf16
                            + utf16::utf16_units(piece.fragment.fragment.separator_after@)
                    },
            decreases placed@.len() - i,
        {
            let entry: Entry<'a> = placed[i];
            proof {
                let longer = all.take(i as int + 1);
                assert(longer.drop_last() =~= all.take(i as int));
                assert(longer.last() == *entry.1);
                assert(all =~= longer + all.skip(i as int + 1));
                lemma_total_units_split(longer, all.skip(i as int + 1));
            }
            let content_start_utf16: usize = len_utf16;
            len_utf16 = len_utf16 + utf16::utf16_len(entry.1.fragment.text.as_str());
            let content_end_utf16: usize = len_utf16;
            len_utf16 = len_utf16 + utf16::utf16_len(entry.1.fragment.separator_after.as_str());
            let separator_end_utf16: usize = len_utf16;
            pieces.push(
                SelectionDocumentFragment {
                    fragment: entry.1,
                    source_index: entry.0,
                    content_start_utf16,
                    content_end_utf16,
                    separator_end_utf16,
                },
            );
            i = i + 1;
        }
        let document = SelectionDocument { key, fragments: pieces, len_utf16, bounds, hitbox_range };
        proof {
            assert(document.entries() =~= placed@);
            assert(all.take(placed@.len() as int) =~= all);
        }
        document
    }

    /// Builds the documents of all areas that own fragments.
    pub fn all(fragments: &'a Vec<RegisteredTextSelectionFragment>) -> (documents: Vec<Self>)
        requires
            total_units(fragments@) <= usize::MAX,
        ensures
            documents@.len() == area_keys(fragments@).len(),
            forall|d: int|
                0 <= d < documents@.len() ==> is_document_of(
                    fragments@,
                    area_keys(fragments@)[d],
                    #[trigger] documents@[d],
                ),
    {
        let keys: Vec<SelectionAreaKey> = distinct_keys(fragments);
        let mut documents: Vec<Self> = Vec::new();
        let mut d: usize = 0;
        while d < keys.len()
            invariant
                d <= keys@.len(),
                total_units(fragments@) <= usize::MAX,
                keys@.map_values(|key: SelectionAreaKey| key@) == area_keys(fragments@),
                documents@.len() == d,
                forall|e: int|
                    0 <= e < d ==> is_document_of(
                        fragments@,
                        area_keys(fragments@)[e],
                        #[trigger] documents@[e],
                    ),
            decreases keys@.len() - d,
        {
            let members: Vec<Entry<'a>> = members_of(fragments, &keys[d]);
            let document = Self::from_fragments(keys[d].clone(), members);
            assert(area_keys(fragments@)[d as int] == keys@[d as int]@);
            documents.push(document);
            d = d + 1;
        }
        documents
    }
}

/// Copies an optional range.
pub(crate) fn copy_range(range: &Option<Range<usize>>) -> (copy: Option<Range<usize>>)
    ensures
        copy == *range,
{
    match range {
        Some(range) => Some(range.start..range.end),
        None => None,
    }
}

/// Tests whether a key is among others.
fn holds_key(keys: &Vec<SelectionAreaKey>, key: &SelectionAreaKey) -> (holds: bool)
    ensures
        holds == keys@.map_values(|key: SelectionAreaKey| key@).contains(key@),
{
    let ghost views = keys@.map_values(|key: SelectionAreaKey| key@);
    let mut k: usize = 0;
    while k < keys.len()
        invariant
            k <= keys@.len(),
            views == keys@.map_values(|key: SelectionAreaKey| key@),
            forall|j: int| 0 <= j < k ==> #[trigger] views[j] != key@,
        decreases keys@.len() - k,
    {
        if keys[k].same(key) {
            assert(views[k as int] == key@);
            return true;
        }
        assert(views[k as int] != key@);
        k = k + 1;
    }
    false
}

/// Lists the keys of the areas that own fragments.
fn distinct_keys(fragments: &Vec<RegisteredTextSelectionFragment>) -> (keys: Vec<SelectionAreaKey>)
    ensures
        keys@.map_values(|key: SelectionAreaKey| key@) == area_keys(fragments@),
{
    let mut keys: Vec<SelectionAreaKey> = Vec::new();
    let mut i: usize = 0;
    assert(keys@.map_values(|key: SelectionAreaKey| key@) =~= area_keys(fragments@.take(0)));
    while i < fragments.len()
        invariant
            i <= fragments@.len(),
            keys@.map_values(|key: SelectionAreaKey| key@) == area_keys(
                fragments@.take(i as int),
            ),
        decreases fragments@.len() - i,
    {
        let key = SelectionAreaKey::from_fragment(&fragments[i]);
        let ghost seen = keys@.map_values(|key: SelectionAreaKey| key@);
        let found: bool = holds_key(&keys, &key);
        proof {
            let longer = fragments@.take(i as int + 1);
            assert(longer.drop_last() =~= fragments@.take(i as int));
        }
        if !found {
            keys.push(key);
            assert(keys@.map_values(|key: SelectionAreaKey| key@) =~= seen.push(key@));
        }
        i = i + 1;
    }
    assert(fragments@.take(fragments@.len() as int) =~= fragments@);
    keys
}

/// Lists the fragments of one area in the order of registration.
fn members_of<'a>(
    fragments: &'a Vec<RegisteredTextSelectionFragment>,
    key: &SelectionAreaKey,
) -> (members: Vec<Entry<'a>>)
    ensures
        forall|i: int, j: int|
            0 <= i < j < members@.len() ==> (#[trigger] members@[i]).0 < (
            #[trigger] members@[j]).0,
        forall|entry: Entry| #[trigger]
            members@.contains(entry) <==> is_member(fragments@, key@, entry),
        total_units(entry_fragments(members@)) <= total_units(fragments@),
{
    let mut members: Vec<Entry<'a>> = Vec::new();
    let mut i: usize = 0;
    while i < fragments.len()
        invariant
            i <= fragments@.len(),
            forall|a: int, b: int|
                0 <= a < b < members@.len() ==> (#[trigger] members@[a]).0 < (
                #[trigger] members@[b]).0,
            forall|a: int| 0 <= a < members@.len() ==> (#[trigger] members@[a]).0 < i,
            forall|entry: Entry| #[trigger]
                members@.contains(entry) <==> is_member(fragments@, key@, entry) && entry.0 < i,
            total_units(entry_fragments(members@)) <= total_units(fragments@.take(i as int)),
        decreases fragments@.len() - i,
    {
        let fragment_key = SelectionAreaKey::from_fragment(&fragments[i]);
        let ghost before = members@;
        let ghost entry: Entry = (i, &fragments@[i as int]);
        proof {
            let longer = fragments@.take(i as int + 1);
            assert(longer.drop_last() =~= fragments@.take(i as int));
        }
        if fragment_key.same(key) {
            members.push((i, &fragments[i]));
            proof {
                assert(members@ == before.push(entry));
                assert(entry_fragments(members@).drop_last() =~= entry_fragments(before));
                assert forall|e: Entry| #[trigger]
                    members@.contains(e) <==> is_member(fragments@, key@, e) && e.0 < i + 1 by {
                    if members@.contains(e) {
                        let k = choose|k: int| 0 <= k < members@.len() && members@[k] == e;
                        if k < before.len() {
                            assert(before[k] == e);
                            assert(before.contains(e));
                        }
                    }
                    if is_member(fragments@, key@, e) && e.0 < i + 1 {
                        if e.0 == i {
                            assert(members@[before.len() as int] == e);
                        } else {
                            assert(before.contains(e));
                            let k = choose|k: int| 0 <= k < before.len() && before[k] == e;
                            assert(members@[k] == e);
                        }
                    }
                }
            }
        }
        i = i + 1;
    }
    assert(fragments@.take(fragments@.len() as int) =~= fragments@);
    members
}

/// Whether key `index` is the only one of its area identity.
pub open spec fn sole_match(keys: Seq<AreaKeyView>, id: ElementIdView, index: int) -> bool {
    &&& 0 <= index < keys.len()
    &&& key_area_id(keys[index]) == Some(id)
    &&& forall|j: int|
        0 <= j < keys.len() && j != index ==> key_area_id(#[trigger] keys[j]) != Some(id)
}

/// The key of the area that stands for `active` among those on screen: the very same key, or else
/// the only one with the same area identity.
pub open spec fn resolve_active(keys: Seq<AreaKeyView>, active: Option<AreaKeyView>) -> Option<
    AreaKeyView,
> {
    match active {
        None => None,
        Some(key) => if keys.contains(key) {
            Some(key)
        } else {
            match key_area_id(key) {
                None => None,
                Some(id) => if exists|i: int| sole_match(keys, id, i) {
                    Some(keys[choose|i: int| sole_match(keys, id, i)])
                } else {
                    None
                },
            }
        },
    }
}

/// What an optional key holds.
pub open spec fn key_view(key: Option<SelectionAreaKey>) -> Option<AreaKeyView> {
    match key {
        Some(key) => Some(key@),
        None => None,
    }
}

/// Tests whether a key is of the area with this identity.
fn has_area_id(key: &SelectionAreaKey, id: &ElementId) -> (matched: bool)
    ensures
        matched == (key_area_id(key@) == Some(id@)),
{
    match key.selection_area_id() {
        Some(other) => other.same(id),
        None => false,
    }
}

impl<'a> SelectionDocument<'a> {
    /// Finds the document of the active area.
    pub fn active(
        fragments: &'a Vec<RegisteredTextSelectionFragment>,
        active_area: &Option<SelectionAreaKey>,
    ) -> (document: Option<Self>)
        requires
            total_units(fragments@) <= usize::MAX,
        ensures
            document is Some == resolve_active(
                area_keys(fragments@),
                key_view(*active_area),
            ) is Some,
            document matches Some(document) ==> is_document_of(
                fragments@,
                resolve_active(area_keys(fragments@), key_view(*active_area))->0,
                document,
            ),
    {
        let active_key: &SelectionAreaKey = match active_area {
            Some(key) => key,
            None => {
                return None;
            },
        };
        let mut documents: Vec<Self> = Self::all(fragments);
        let ghost keys = area_keys(fragments@);
        let mut i: usize = 0;
        while i < documents.len()
            invariant
                i <= documents@.len(),
                keys == area_keys(fragments@),
                documents@.len() == keys.len(),
                forall|d: int|
                    0 <= d < documents@.len() ==> is_document_of(
                        fragments@,
                        keys[d],
                        #[trigger] documents@[d],
                    ),
                key_view(*active_area) == Some(active_key@),
                forall|j: int| 0 <= j < i ==> #[trigger] keys[j] != active_key@,
            decreases documents@.len() - i,
        {
            assert(is_document_of(fragments@, keys[i as int], documents@[i as int]));
            if documents[i].key.same(active_key) {
                assert(keys[i as int] == active_key@);
                return Some(documents.remove(i));
            }
            i = i + 1;
        }
        assert(!keys.contains(active_key@));
        let active_area_id: &ElementId = match active_key.selection_area_id() {
            Some(id) => id,
            None => {
                return None;
            },
        };
        let ghost id = active_area_id@;
        let mut matching: Option<usize> = None;
        let mut k: usize = 0;
        while k < documents.len()
            invariant
                k <= documents@.len(),
                keys == area_keys(fragments@),
                documents@.len() == keys.len(),
                id == active_area_id@,
                forall|d: int|
                    0 <= d < documents@.len() ==> is_document_of(
                        fragments@,
                        keys[d],
                        #[trigger] documents@[d],
                    ),
                key_area_id(active_key@) == Some(id),
                !keys.contains(active_key@),
                key_view(*active_area) == Some(active_key@),
                matching matches Some(m) ==> m < k && key_area_id(keys[m as int]) == Some(id),
                forall|j: int|
                    0 <= j < k && matching != Some(j as usize) ==> key_area_id(#[trigger] keys[j])
                        != Some(id),
            decreases documents@.len() - k,
        {
            assert(is_document_of(fragments@, keys[k as int], documents@[k as int]));
            if has_area_id(&documents[k].key, active_area_id) {
                if matching.is_some() {
                    proof {
                        let m = matching->0 as int;
                        assert forall|i: int| !sole_match(keys, id, i) by {
                            if sole_match(keys, id, i) {
                                let other = if i == m {
                                    k as int
                                } else {
                                    m
                                };
                                assert(key_area_id(keys[other]) == Some(id));
                            }
                        }
                    }
                    return None;
                }
                matching = Some(k);
            }
            k = k + 1;
        }
        match matching {
            Some(m) => {
                proof {
                    assert(sole_match(keys, id, m as int));
                    let c = choose|i: int| sole_match(keys, id, i);
                    assert(key_area_id(keys[m as int]) == Some(id));
                    assert(c == m);
                }
                Some(documents.remove(m))
            },
            None => {
                proof {
                    assert forall|i: int| !sole_match(keys, id, i) by {
                        if sole_match(keys, id, i) {
                            assert(key_area_id(keys[i]) != Some(id));
                        }
                    }
                }
                None
            },
        }
    }
}

/// Two fragments belong to one area exactly when both are known by their path and the paths are the
/// same, or neither is and they share the view and the area's identity.
pub proof fn areas_are_told_apart_by_path_or_view(
    a: RegisteredTextSelectionFragment,
    b: RegisteredTextSelectionFragment,
)
    ensures
        area_key(a) == area_key(b) <==> match (a.active_area.global_id, b.active_area.global_id) {
            (Some(x), Some(y)) => x@ == y@,
            (None, None) => a.view_id == b.view_id && a.active_area.selection_area.id@
                == b.active_area.selection_area.id@,
            _ => false,
        },
{
}

/// An area is identified by the last step of its path, whatever leads there, or by its own identity
/// in its view. An empty path identifies nothing.
pub proof fn areas_are_identified_by_their_last_step(
    path: Seq<ElementIdView>,
    id: ElementIdView,
    view_id: u64,
)
    ensures
        key_area_id(AreaKeyView::Global(path.push(id))) == Some(id),
        key_area_id(AreaKeyView::Global(Seq::empty())) is None,
        key_area_id(AreaKeyView::ViewScoped(view_id, id)) == Some(id),
{
}

/// The areas on screen are those that own a fragment, each named once, in the order of their first
/// fragments.
pub proof fn areas_are_listed_once_in_order(fragments: Seq<RegisteredTextSelectionFragment>) -> (
firsts: Seq<int>)
    ensures
        firsts.len() == area_keys(fragments).len(),
        forall|i: int, j: int| 0 <= i < j < firsts.len() ==> #[trigger] firsts[i] < #[trigger] firsts[j],
        forall|i: int|
            0 <= i < firsts.len() ==> {
                &&& 0 <= #[trigger] firsts[i] < fragments.len()
                &&& area_key(fragments[firsts[i]]) == area_keys(fragments)[i]
            },
        forall|i: int, j: int|
            0 <= i < j < area_keys(fragments).len() ==> #[trigger] area_keys(fragments)[i]
                != #[trigger] area_keys(fragments)[j],
        forall|n: int|
            0 <= n < fragments.len() ==> area_keys(fragments).contains(
                area_key(#[trigger] fragments[n]),
            ),
        forall|i: int, n: int|
            0 <= i < firsts.len() && 0 <= n < fragments.len() && area_key(#[trigger] fragments[n])
                == area_keys(fragments)[i] ==> #[trigger] firsts[i] <= n,
    decreases fragments.len(),
{
    if fragments.len() == 0 {
        Seq::empty()
    } else {
        let shorter = fragments.drop_last();
        let rest = areas_are_listed_once_in_order(shorter);
        let keys = area_keys(shorter);
        let key = area_key(fragments.last());
        let last = fragments.len() - 1;
        let firsts = if keys.contains(key) {
            rest
        } else {
            rest.push(last)
        };
        let now = area_keys(fragments);
        assert forall|n: int| 0 <= n < fragments.len() implies now.contains(
            area_key(#[trigger] fragments[n]),
        ) by {
            if n < last {
                assert(shorter[n] == fragments[n]);
                let i = choose|i: int| 0 <= i < keys.len() && keys[i] == area_key(shorter[n]);
                assert(now[i] == keys[i]);
            } else if keys.contains(key) {
                assert(now == keys);
            } else {
                assert(now[keys.len() as int] == key);
            }
        }
        assert forall|i: int, n: int|
            0 <= i < firsts.len() && 0 <= n < fragments.len() && area_key(#[trigger] fragments[n])
                == now[i] implies #[trigger] firsts[i] <= n by {
            if n < last {
                assert(shorter[n] == fragments[n]);
                assert(keys.contains(area_key(shorter[n])));
                if i < rest.len() {
                    assert(now[i] == keys[i]);
                    assert(rest[i] <= n);
                }
            }
        }
        firsts
    }
}

/// In a document, fragments with an explicit order stand by that order and the others by their place
/// of registration, which also decides between equals.
pub proof fn fragments_stand_in_the_order_they_ask_for(
    fragments: Seq<RegisteredTextSelectionFragment>,
    key: AreaKeyView,
    document: SelectionDocument,
    n: int,
    m: int,
)
    requires
        is_document_of(fragments, key, document),
        0 <= n < m < document.fragments@.len(),
    ensures
        ({
            let a = document.fragments@[n];
            let b = document.fragments@[m];
            match (a.fragment.fragment.order, b.fragment.fragment.order) {
                (Some(x), Some(y)) => x < y || x == y && a.source_index < b.source_index,
                (Some(x), None) => x < b.source_index || x == b.source_index && a.source_index
                    < b.source_index,
                (None, Some(y)) => a.source_index < y || a.source_index == y && a.source_index
                    < b.source_index,
                (None, None) => a.source_index < b.source_index,
            }
        }),
{
    assert(placed_before(document.entries()[n], document.entries()[m]));
}

/// A document is made of the fragments that are registered for its area: all of them, each once,
/// and no others.
pub proof fn documents_hold_the_fragments_of_their_area(
    fragments: Seq<RegisteredTextSelectionFragment>,
    key: AreaKeyView,
    document: SelectionDocument,
    source: int,
)
    requires
        is_document_of(fragments, key, document),
        0 <= source < fragments.len(),
        fragments.len() <= usize::MAX,
    ensures
        area_key(fragments[source]) == key <==> exists|n: int|
            0 <= n < document.fragments@.len() && (#[trigger] document.fragments@[n]).source_index
                == source,
        forall|n: int|
            0 <= n < document.fragments@.len() ==> {
                &&& (#[trigger] document.fragments@[n]).source_index < fragments.len()
                &&& *document.fragments@[n].fragment
                    == fragments[document.fragments@[n].source_index as int]
            },
{
    assert forall|n: int| 0 <= n < document.fragments@.len() implies {
        &&& (#[trigger] document.fragments@[n]).source_index < fragments.len()
        &&& *document.fragments@[n].fragment
            == fragments[document.fragments@[n].source_index as int]
        &&& area_key(*document.fragments@[n].fragment) == key
    } by {
        assert(document.entries().contains(document.entries()[n]));
    }
    if area_key(fragments[source]) == key {
        let entry: Entry = (source as usize, &fragments[source]);
        assert(is_member(fragments, key, entry));
        assert(document.entries().contains(entry));
        let n = choose|n: int| 0 <= n < document.entries().len() && document.entries()[n] == entry;
        assert(document.fragments@[n].source_index == source);
    }
}

/// Appending a fragment to a document appends its text and after that its separator.
pub proof fn fragments_add_their_text_and_separator(
    fragments: Seq<RegisteredTextSelectionFragment>,
    fragment: RegisteredTextSelectionFragment,
)
    ensures
        serialized(Seq::empty()) == Seq::<char>::empty(),
        serialized(fragments.push(fragment)) == serialized(fragments) + fragment.fragment.text@
            + fragment.fragment.separator_after@,
{
    assert(fragments.push(fragment).drop_last() =~= fragments);
}

proof fn lemma_serialized_split(
    a: Seq<RegisteredTextSelectionFragment>,
    b: Seq<RegisteredTextSelectionFragment>,
)
    ensures
        serialized(a + b) == serialized(a) + serialized(b),
    decreases b.len(),
{
    if b.len() == 0 {
        assert(a + b =~= a);
        assert(serialized(a) + serialized(b) =~= serialized(a));
    } else {
        assert((a + b).drop_last() =~= a + b.drop_last());
        lemma_serialized_split(a, b.drop_last());
        assert(serialized(a + b) =~= serialized(a) + serialized(b));
    }
}

/// Between the offsets that a document gives for a fragment stands the fragment's text, and from
/// there to the end of its separator stands the separator.
pub proof fn fragments_stand_at_their_offsets(document: SelectionDocument, n: int)
    requires
        document.well_formed(),
        0 <= n < document.fragments@.len(),
    ensures
        ({
            let piece = document.fragments@[n];
            &&& utf16::utf16_subrange(
                document.text(),
                piece.content_start_utf16 as nat,
                piece.content_end_utf16 as nat,
            ) == piece.fragment.fragment.text@
            &&& utf16::utf16_subrange(
                document.text(),
                piece.content_end_utf16 as nat,
                piece.separator_end_utf16 as nat,
            ) == piece.fragment.fragment.separator_after@
        }),
{
    let all = document.registered();
    let piece = document.fragments@[n];
    let before = all.take(n);
    let upto = all.take(n + 1);
    let text = piece.fragment.fragment.text@;
    let separator = piece.fragment.fragment.separator_after@;
    assert(upto.drop_last() =~= before);
    assert(upto.last() == *piece.fragment);
    assert(all =~= upto + all.skip(n + 1));
    lemma_serialized_split(upto, all.skip(n + 1));
    lemma_serialized_units(before);
    lemma_piece_is_cut_out(serialized(before), text, separator, serialized(all.skip(n + 1)));
}

proof fn lemma_piece_is_cut_out(
    before: Seq<char>,
    text: Seq<char>,
    separator: Seq<char>,
    after: Seq<char>,
)
    ensures
        ({
            let whole = before + text + separator + after;
            let start = utf16::utf16_units(before);
            let middle = start + utf16::utf16_units(text);
            let end = middle + utf16::utf16_units(separator);
            &&& utf16::utf16_subrange(whole, start, middle) == text
            &&& utf16::utf16_subrange(whole, middle, end) == separator
        }),
{
    let whole = before + text + separator + after;
    let first = before.len() as int;
    let middle = first + text.len();
    let end = middle + separator.len();
    assert(whole.take(first) =~= before);
    assert(whole.take(middle) =~= before + text);
    assert(whole.take(end) =~= before + text + separator);
    utf16::lemma_units_concat(before, text);
    utf16::lemma_units_concat(before + text, separator);
    lemma_cut(whole, first);
    lemma_cut(whole, middle);
    lemma_cut(whole, end);
    assert(whole.subrange(first, middle) =~= text);
    assert(whole.subrange(middle, end) =~= separator);
}

proof fn lemma_cut(text: Seq<char>, index: int)
    requires
        0 <= index <= text.len(),
    ensures
        utf16::chars_within_units(text, utf16::utf16_units(text.take(index))) == index,
{
    if index < text.len() {
        utf16::lemma_take_step(text, index);
    }
    utf16::lemma_chars_within_units_unique(text, utf16::unit_of_char(text, index), index);
}

/// A document lies where the area of its first fragment was painted and owns that area's hitboxes.
pub proof fn documents_lie_where_their_area_does(
    fragments: Seq<RegisteredTextSelectionFragment>,
    key: AreaKeyView,
    document: SelectionDocument,
)
    requires
        is_document_of(fragments, key, document),
    ensures
        document.fragments@.len() == 0 ==> document.bounds is None && document.hitbox_range is None,
        document.fragments@.len() > 0 ==> {
            &&& document.bounds == document.fragments@[0].fragment.active_area.bounds
            &&& document.hitbox_range == document.fragments@[0].fragment.active_area.hitbox_range
        },
        document.key@ == key,
{
}

/// An area whose key is gone is replaced by the only area of the same identity, and by none where
/// there is no such area.
pub proof fn the_only_area_of_an_identity_takes_over(
    keys: Seq<AreaKeyView>,
    active: AreaKeyView,
    id: ElementIdView,
)
    requires
        !keys.contains(active),
        key_area_id(active) == Some(id),
    ensures
        resolve_active(keys, None) is None,
        (forall|j: int| 0 <= j < keys.len() ==> key_area_id(#[trigger] keys[j]) != Some(id))
            ==> resolve_active(keys, Some(active)) is None,
        forall|i: int|
            0 <= i < keys.len() && key_area_id(#[trigger] keys[i]) == Some(id) && (forall|j: int|
                0 <= j < keys.len() && j != i ==> key_area_id(#[trigger] keys[j]) != Some(id))
                ==> resolve_active(keys, Some(active)) == Some(keys[i]),
{
    assert forall|i: int|
        0 <= i < keys.len() && key_area_id(#[trigger] keys[i]) == Some(id) && (forall|j: int|
            0 <= j < keys.len() && j != i ==> key_area_id(#[trigger] keys[j]) != Some(id)) implies resolve_active(
        keys,
        Some(active),
    ) == Some(keys[i]) by {
        assert(sole_match(keys, id, i));
        let c = choose|c: int| sole_match(keys, id, c);
        assert(sole_match(keys, id, c));
        assert(c == i);
    }
}

/// The key of an area shows its path, or its view and identity.
pub proof fn keys_show_what_they_hold(key: SelectionAreaKey)
    ensures
        key matches SelectionAreaKey::Global(path) ==> key@ == AreaKeyView::Global(path@),
        key matches SelectionAreaKey::ViewScoped(view_id, id) ==> key@ == AreaKeyView::ViewScoped(
            view_id,
            id@,
        ),
        key_view(Some(key)) == Some(key@),
        key_view(None) is None,
{
}

/// A document shows its fragments in order, each with its place of registration.
pub proof fn documents_show_their_fragments(document: SelectionDocument, n: int)
    ensures
        document.entries().len() == document.fragments@.len(),
        document.registered().len() == document.fragments@.len(),
        0 <= n < document.fragments@.len() ==> {
            &&& document.entries()[n].0 == document.fragments@[n].source_index
            &&& document.entries()[n].1 == document.fragments@[n].fragment
            &&& document.registered()[n] == *document.fragments@[n].fragment
        },
        document.text() == serialized(document.registered()),
{
}

/// The area of a fragment is known by its path where it has one, and else by its view and its own
/// identity.
pub proof fn fragments_belong_to_their_area(fragment: RegisteredTextSelectionFragment)
    ensures
        fragment.active_area.global_id matches Some(path) ==> area_key(fragment)
            == AreaKeyView::Global(path@),
        fragment.active_area.global_id is None ==> area_key(fragment) == AreaKeyView::ViewScoped(
            fragment.view_id,
            fragment.active_area.selection_area.id@,
        ),
{
}

} // verus!
