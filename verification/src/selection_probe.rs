//! Finding the text position under a point.
//!
//! The renderer reports what it knows about the point: which areas and layouts contain it, which
//! hitboxes are under it, and how far away each layout is.
use crate::geometry;
use crate::geometry::Pixels;
use crate::selection_document::{SelectionDocument, SelectionDocumentFragment};
use crate::selection_range;
use crate::utf16;
use std::ops::Range;
use vstd::prelude::*;
use vstd::string::*;

verus! {

/// How a hitbox treats the pointer.
#[derive(Clone, Copy, Debug, PartialEq, Eq, Structural)]
pub enum HitboxBehavior {
    /// The pointer reaches what lies behind.
    Normal,
    /// Nothing behind is reached.
    BlockMouse,
    /// Nothing but scrolling reaches what lies behind.
    BlockMouseExceptScroll,
}

/// A hitbox of the rendered frame, and whether the point lies inside it.
#[derive(Clone, Copy, Debug, PartialEq, Eq, Structural)]
pub struct HitboxProbe {
    pub id: u64,
    pub behavior: HitboxBehavior,
    pub contains_point: bool,
}

impl HitboxProbe {
    /// Whether this hitbox keeps the pointer from what lies behind.
    pub open spec fn blocks(self) -> bool {
        self.behavior is BlockMouse || self.behavior is BlockMouseExceptScroll
    }

    /// Tests whether this hitbox keeps the pointer from what lies behind.
    pub fn is_blocking(&self) -> (blocking: bool)
        ensures
            blocking == self.blocks(),
    {
        match self.behavior {
            HitboxBehavior::BlockMouse => true,
            HitboxBehavior::BlockMouseExceptScroll => true,
            HitboxBehavior::Normal => false,
        }
    }
}

/// What the renderer reports about a point and one registered fragment.
#[derive(Clone, Copy, Debug, PartialEq, Eq, Structural)]
pub struct FragmentProbe {
    /// Whether the area that owns the fragment was painted over the point.
    pub in_area: bool,
    /// Whether the fragment's layout was painted over the point.
    pub in_layout: bool,
    /// The byte of the fragment's text closest to the point.
    pub byte_index: usize,
    pub vertical_distance: Pixels,
    pub horizontal_distance: Pixels,
}

/// What the renderer reports about a point.
#[derive(Debug)]
pub struct PointProbe {
    /// One entry for each registered fragment.
    pub fragments: Vec<FragmentProbe>,
    /// The hitboxes of the rendered frame in paint order.
    pub hitboxes: Vec<HitboxProbe>,
    /// The hitboxes that a hit test finds at the point.
    pub hit_ids: Vec<u64>,
}

/// The hitboxes of a range that exist in a frame of `len` hitboxes, as first and past-the-end index.
pub open spec fn hitbox_window(len: int, range: Range<usize>) -> (int, int) {
    (selection_range::min(range.start as int, len), selection_range::min(range.end as int, len))
}

/// Whether a blocking hitbox inside an area's own range, or painted after it, is hit at the point.
pub open spec fn is_occluded(
    hitboxes: Seq<HitboxProbe>,
    hit_ids: Seq<u64>,
    range: Range<usize>,
) -> bool {
    let (start, end) = hitbox_window(hitboxes.len() as int, range);
    ||| exists|i: int|
        start <= i < end && (#[trigger] hitboxes[i]).blocks() && hitboxes[i].contains_point
            && hit_ids.contains(hitboxes[i].id)
    ||| exists|i: int|
        end <= i < hitboxes.len() && (#[trigger] hitboxes[i]).blocks() && hit_ids.contains(
            hitboxes[i].id,
        )
}

/// Tests whether a hitbox is among those that a hit test found.
fn is_hit(hit_ids: &Vec<u64>, id: u64) -> (hit: bool)
    ensures
        hit == hit_ids@.contains(id),
{
    let mut i: usize = 0;
    while i < hit_ids.len()
        invariant
            i <= hit_ids@.len(),
            forall|j: int| 0 <= j < i ==> hit_ids@[j] != id,
        decreases hit_ids@.len() - i,
    {
        if hit_ids[i] == id {
            return true;
        }
        i = i + 1;
    }
    false
}

/// Tests whether an explicit blocker keeps a point from the area that owns a range of hitboxes.
pub fn selection_area_is_occluded_at_point(
    hitboxes: &Vec<HitboxProbe>,
    hit_ids: &Vec<u64>,
    hitbox_range: &Range<usize>,
) -> (occluded: bool)
    requires
        ({
            let (start, end) = hitbox_window(hitboxes@.len() as int, *hitbox_range);
            start <= end
        }),
    ensures
        occluded == is_occluded(hitboxes@, hit_ids@, *hitbox_range),
{
    let start: usize = if hitbox_range.start <= hitboxes.len() {
        hitbox_range.start
    } else {
        hitboxes.len()
    };
    let end: usize = if hitbox_range.end <= hitboxes.len() {
        hitbox_range.end
    } else {
        hitboxes.len()
    };
    let mut i: usize = start;
    while i < end
        invariant
            start <= i <= end <= hitboxes@.len(),
            (start as int, end as int) == hitbox_window(hitboxes@.len() as int, *hitbox_range),
            forall|j: int|
                start <= j < i ==> !((#[trigger] hitboxes@[j]).blocks()
                    && hitboxes@[j].contains_point && hit_ids@.contains(hitboxes@[j].id)),
        decreases end - i,
    {
        let hitbox: HitboxProbe = hitboxes[i];
        if hitbox.is_blocking() && hitbox.contains_point && is_hit(hit_ids, hitbox.id) {
            assert(hitboxes@[i as int].blocks());
            return true;
        }
        i = i + 1;
    }
    let mut k: usize = end;
    while k < hitboxes.len()
        invariant
            end <= k <= hitboxes@.len(),
            (start as int, end as int) == hitbox_window(hitboxes@.len() as int, *hitbox_range),
            forall|j: int|
                start <= j < end ==> !((#[trigger] hitboxes@[j]).blocks()
                    && hitboxes@[j].contains_point && hit_ids@.contains(hitboxes@[j].id)),
            forall|j: int|
                end <= j < k ==> !((#[trigger] hitboxes@[j]).blocks() && hit_ids@.contains(
                    hitboxes@[j].id,
                )),
        decreases hitboxes@.len() - k,
    {
        let hitbox: HitboxProbe = hitboxes[k];
        if hitbox.is_blocking() && is_hit(hit_ids, hitbox.id) {
            assert(hitboxes@[k as int].blocks());
            return true;
        }
        k = k + 1;
    }
    false
}

/// Hitboxes that do not block never keep a point from an area, wherever they were painted.
pub proof fn normal_hitboxes_never_occlude(
    hitboxes: Seq<HitboxProbe>,
    hit_ids: Seq<u64>,
    range: Range<usize>,
)
    requires
        forall|i: int| 0 <= i < hitboxes.len() ==> (#[trigger] hitboxes[i]).behavior is Normal,
    ensures
        !is_occluded(hitboxes, hit_ids, range),
{
}

/// Hitboxes painted before an area never keep a point from it.
pub proof fn earlier_hitboxes_never_occlude(
    hitboxes: Seq<HitboxProbe>,
    hit_ids: Seq<u64>,
    range: Range<usize>,
)
    requires
        range.start >= hitboxes.len(),
        range.end >= hitboxes.len(),
    ensures
        !is_occluded(hitboxes, hit_ids, range),
{
}

/// How far a fragment is from the point: vertically first, then horizontally, then its place in the
/// document.
pub open spec fn distance(fragment: SelectionDocumentFragment, probe: FragmentProbe) -> (
    int,
    int,
    int,
) {
    (
        geometry::total_rank(probe.vertical_distance.bits),
        geometry::total_rank(probe.horizontal_distance.bits),
        fragment.content_start_utf16 as int,
    )
}

/// Whether one distance is strictly less than another.
pub open spec fn closer(a: (int, int, int), b: (int, int, int)) -> bool {
    a.0 < b.0 || (a.0 == b.0 && (a.1 < b.1 || (a.1 == b.1 && a.2 < b.2)))
}

/// Tests whether one fragment is strictly closer to the point than another.
fn is_closer(
    a: &SelectionDocumentFragment,
    pa: &FragmentProbe,
    b: &SelectionDocumentFragment,
    pb: &FragmentProbe,
) -> (first: bool)
    ensures
        first == closer(distance(*a, *pa), distance(*b, *pb)),
{
    if pa.vertical_distance.ranks_before(&pb.vertical_distance) {
        return true;
    }
    if pb.vertical_distance.ranks_before(&pa.vertical_distance) {
        return false;
    }
    if pa.horizontal_distance.ranks_before(&pb.horizontal_distance) {
        return true;
    }
    if pb.horizontal_distance.ranks_before(&pa.horizontal_distance) {
        return false;
    }
    a.content_start_utf16 < b.content_start_utf16
}

impl<'a> SelectionDocument<'a> {
    /// Whether a probe reports on every fragment of this document and its hitboxes are in order.
    pub open spec fn probed_by(self, probe: PointProbe) -> bool {
        &&& forall|n: int|
            0 <= n < self.fragments@.len() ==> (#[trigger] self.fragments@[n]).source_index
                < probe.fragments@.len()
        &&& self.hitbox_range matches Some(range) ==> {
            let (start, end) = hitbox_window(probe.hitboxes@.len() as int, range);
            start <= end
        }
    }

    /// What a probe reports about fragment `n`.
    pub open spec fn probe_of(self, probe: PointProbe, n: int) -> FragmentProbe {
        probe.fragments@[self.fragments@[n].source_index as int]
    }

    /// Whether the point misses the area or something blocks it.
    pub open spec fn out_of_reach(self, probe: PointProbe) -> bool {
        ||| self.bounds is Some && self.fragments@.len() > 0 && !self.probe_of(probe, 0).in_area
        ||| self.hitbox_range is Some && is_occluded(
            probe.hitboxes@,
            probe.hit_ids@,
            self.hitbox_range->0,
        )
    }

    /// The document position of the byte that a probe reports for fragment `n`.
    pub open spec fn index_at(self, probe: PointProbe, n: int) -> nat {
        self.fragments@[n].content_start_utf16 as nat + utf16::unit_of_byte(
            self.fragments@[n].fragment.fragment.text@,
            self.probe_of(probe, n).byte_index as nat,
        )
    }

    /// Whether fragment `n` is the first that was painted over the point.
    pub open spec fn first_under(self, probe: PointProbe, n: int) -> bool {
        &&& 0 <= n < self.fragments@.len()
        &&& self.probe_of(probe, n).in_layout
        &&& forall|m: int| 0 <= m < n ==> !(#[trigger] self.probe_of(probe, m)).in_layout
    }

    /// Whether `found` is the position under the point: that in the first fragment painted over it.
    pub open spec fn is_index_under(self, probe: PointProbe, found: Option<usize>) -> bool {
        match found {
            Some(index) => !self.out_of_reach(probe) && exists|n: int| #[trigger]
                self.first_under(probe, n) && index == self.index_at(probe, n),
            None => self.out_of_reach(probe) || forall|n: int|
                0 <= n < self.fragments@.len() ==> !(#[trigger] self.probe_of(probe, n)).in_layout,
        }
    }

    /// How far fragment `n` is from the point.
    pub open spec fn distance_of(self, probe: PointProbe, n: int) -> (int, int, int) {
        distance(self.fragments@[n], self.probe_of(probe, n))
    }

    /// Whether fragment `n` is the closest to the point among the first `count`, and the first of
    /// equals.
    pub open spec fn closest_among(self, probe: PointProbe, count: int, n: int) -> bool {
        &&& 0 <= n < count
        &&& forall|m: int|
            0 <= m < count ==> !closer(
                #[trigger] self.distance_of(probe, m),
                self.distance_of(probe, n),
            )
        &&& forall|m: int|
            0 <= m < n ==> closer(
                self.distance_of(probe, n),
                #[trigger] self.distance_of(probe, m),
            )
    }

    /// Whether fragment `n` is the closest to the point, the first of equals.
    pub open spec fn closest(self, probe: PointProbe, n: int) -> bool {
        self.closest_among(probe, self.fragments@.len() as int, n)
    }

    proof fn lemma_closest_step(self, probe: PointProbe, count: int, n: int)
        requires
            self.closest_among(probe, count, n),
        ensures
            closer(self.distance_of(probe, count), self.distance_of(probe, n))
                ==> self.closest_among(probe, count + 1, count),
            !closer(self.distance_of(probe, count), self.distance_of(probe, n))
                ==> self.closest_among(probe, count + 1, n),
    {
        if closer(self.distance_of(probe, count), self.distance_of(probe, n)) {
            assert forall|m: int| 0 <= m < count implies closer(
                self.distance_of(probe, count),
                #[trigger] self.distance_of(probe, m),
            ) by {
                assert(!closer(self.distance_of(probe, m), self.distance_of(probe, n)));
            }
        }
    }

    /// Whether `found` is the position closest to the point: that under it, or else that in the
    /// closest fragment.
    pub open spec fn is_nearest_index(self, probe: PointProbe, found: Option<usize>) -> bool {
        match found {
            Some(index) => {
                ||| self.is_index_under(probe, found)
                ||| !self.out_of_reach(probe) && self.is_index_under(probe, None)
                    && exists|n: int| #[trigger]
                    self.closest(probe, n) && index == self.index_at(probe, n)
            },
            None => self.out_of_reach(probe) || self.fragments@.len() == 0,
        }
    }

    /// Tests whether the point misses the area or something blocks it.
    fn is_out_of_reach(&self, probe: &PointProbe) -> (out: bool)
        requires
            self.probed_by(*probe),
        ensures
            out == self.out_of_reach(*probe),
    {
        if self.bounds.is_some() && self.fragments.len() > 0
            && !probe.fragments[self.fragments[0].source_index].in_area {
            return true;
        }
        match &self.hitbox_range {
            Some(range) => selection_area_is_occluded_at_point(
                &probe.hitboxes,
                &probe.hit_ids,
                range,
            ),
            None => false,
        }
    }

    /// The document position of the byte that a probe reports for a fragment.
    fn utf16_index_for_point(&self, n: usize, probe: &PointProbe) -> (index: usize)
        requires
            self.well_formed(),
            self.probed_by(*probe),
            n < self.fragments@.len(),
        ensures
            index == self.index_at(*probe, n as int),
            index <= self.len_utf16,
    {
        proof {
            selection_range::fragments_tile_the_document(*self, n as int);
        }
        let piece = &self.fragments[n];
        let local: usize = utf16::byte_offset_to_utf16(
            piece.fragment.fragment.text.as_str(),
            probe.fragments[piece.source_index].byte_index,
        );
        piece.content_start_utf16 + local
    }

    /// Finds the position under a point.
    pub fn character_index_for_point(&self, probe: &PointProbe) -> (found: Option<usize>)
        requires
            self.well_formed(),
            self.probed_by(*probe),
        ensures
            self.is_index_under(*probe, found),
            found matches Some(index) ==> index <= self.len_utf16,
    {
        if self.is_out_of_reach(probe) {
            return None;
        }
        let mut n: usize = 0;
        while n < self.fragments.len()
            invariant
                n <= self.fragments@.len(),
                self.well_formed(),
                self.probed_by(*probe),
                !self.out_of_reach(*probe),
                forall|m: int| 0 <= m < n ==> !(#[trigger] self.probe_of(*probe, m)).in_layout,
            decreases self.fragments@.len() - n,
        {
            if probe.fragments[self.fragments[n].source_index].in_layout {
                assert(self.first_under(*probe, n as int));
                return Some(self.utf16_index_for_point(n, probe));
            }
            n = n + 1;
        }
        None
    }

    /// Finds the position closest to a point that reaches the area.
    pub fn nearest_character_index_for_point(&self, probe: &PointProbe) -> (found: Option<usize>)
        requires
            self.well_formed(),
            self.probed_by(*probe),
        ensures
            self.is_nearest_index(*probe, found),
            found matches Some(index) ==> index <= self.len_utf16,
    {
        if self.is_out_of_reach(probe) {
            return None;
        }
        let under: Option<usize> = self.character_index_for_point(probe);
        if under.is_some() {
            return under;
        }
        if self.fragments.len() == 0 {
            return None;
        }
        let mut best: usize = 0;
        let mut n: usize = 1;
        while n < self.fragments.len()
            invariant
                n <= self.fragments@.len(),
                self.probed_by(*probe),
                self.closest_among(*probe, n as int, best as int),
            decreases self.fragments@.len() - n,
        {
            let candidate = &self.fragments[n];
            let current = &self.fragments[best];
            proof {
                self.lemma_closest_step(*probe, n as int, best as int);
            }
            if is_closer(
                candidate,
                &probe.fragments[candidate.source_index],
                current,
                &probe.fragments[current.source_index],
            ) {
                best = n;
            }
            n = n + 1;
        }
        assert(self.closest(*probe, best as int));
        Some(self.utf16_index_for_point(best, probe))
    }
}

/// A point that reaches an area with any text always has a nearest position, and a position under
/// the point is the nearest one.
pub proof fn reachable_points_have_a_nearest_index(
    document: SelectionDocument,
    probe: PointProbe,
    under: Option<usize>,
    nearest: Option<usize>,
)
    requires
        document.probed_by(probe),
        document.fragments@.len() > 0,
        !document.out_of_reach(probe),
        document.is_index_under(probe, under),
        document.is_nearest_index(probe, nearest),
    ensures
        nearest is Some,
        under is Some ==> nearest == under,
{
    if under is Some {
        let n = choose|n: int| #[trigger]
            document.first_under(probe, n) && under->0 == document.index_at(probe, n);
        assert(document.probe_of(probe, n).in_layout);
        if document.is_index_under(probe, nearest) && nearest is Some {
            let m = choose|m: int| #[trigger]
                document.first_under(probe, m) && nearest->0 == document.index_at(probe, m);
            assert(document.probe_of(probe, m).in_layout);
            assert(n == m);
        }
    }
}

/// A hitbox that blocks the pointer, that a hit test finds and that was painted after an area keeps
/// the point from the area; so does one inside the area's own range if the point lies in it.
pub proof fn hit_blockers_occlude(
    hitboxes: Seq<HitboxProbe>,
    hit_ids: Seq<u64>,
    range: Range<usize>,
    i: int,
)
    requires
        range.start <= range.end,
        range.start <= i < hitboxes.len(),
        hitboxes[i].behavior != HitboxBehavior::Normal,
        hit_ids.contains(hitboxes[i].id),
        i < range.end ==> hitboxes[i].contains_point,
    ensures
        is_occluded(hitboxes, hit_ids, range),
{
    assert(hitboxes[i].blocks());
}

/// Nothing but such a hitbox keeps a point from an area.
pub proof fn only_hit_blockers_occlude(
    hitboxes: Seq<HitboxProbe>,
    hit_ids: Seq<u64>,
    range: Range<usize>,
) -> (i: int)
    requires
        range.start <= range.end,
        is_occluded(hitboxes, hit_ids, range),
    ensures
        range.start <= i < hitboxes.len(),
        hitboxes[i].behavior != HitboxBehavior::Normal,
        hit_ids.contains(hitboxes[i].id),
        i < range.end ==> hitboxes[i].contains_point,
{
    let (start, end) = hitbox_window(hitboxes.len() as int, range);
    if exists|i: int|
        start <= i < end && (#[trigger] hitboxes[i]).blocks() && hitboxes[i].contains_point
            && hit_ids.contains(hitboxes[i].id) {
        choose|i: int|
            start <= i < end && (#[trigger] hitboxes[i]).blocks() && hitboxes[i].contains_point
                && hit_ids.contains(hitboxes[i].id)
    } else {
        choose|i: int|
            end <= i < hitboxes.len() && (#[trigger] hitboxes[i]).blocks() && hit_ids.contains(
                hitboxes[i].id,
            )
    }
}

/// The position under a point is counted in the first fragment that was painted over it: the start
/// of the fragment's text, and from there the text up to the end of the character that holds the
/// byte before the reported one.
pub proof fn points_are_found_in_the_first_fragment_over_them(
    document: SelectionDocument,
    probe: PointProbe,
    n: int,
    index: int,
    found: Option<usize>,
)
    requires
        document.probed_by(probe),
        !document.out_of_reach(probe),
        0 <= n < document.fragments@.len(),
        probe.fragments@[document.fragments@[n].source_index as int].in_layout,
        forall|m: int|
            0 <= m < n ==> !probe.fragments@[(
            #[trigger] document.fragments@[m]).source_index as int].in_layout,
        document.is_index_under(probe, found),
        0 <= index < document.fragments@[n].fragment.fragment.text@.len(),
    ensures
        ({
            let text = document.fragments@[n].fragment.fragment.text@;
            let byte = probe.fragments@[document.fragments@[n].source_index as int].byte_index;
            &&& found is Some
            &&& byte == 0 ==> found->0 == document.fragments@[n].content_start_utf16
            &&& utf16::utf8_units(text.subrange(0, index)) < byte <= utf16::utf8_units(
                text.subrange(0, index + 1),
            ) ==> found->0 == document.fragments@[n].content_start_utf16 + utf16::utf16_units(
                text.subrange(0, index + 1),
            )
        }),
{
    let text = document.fragments@[n].fragment.fragment.text@;
    let byte = probe.fragments@[document.fragments@[n].source_index as int].byte_index as nat;
    assert(document.probe_of(probe, n).in_layout);
    let m = choose|m: int| #[trigger]
        document.first_under(probe, m) && found->0 == document.index_at(probe, m);
    if m < n {
        assert(!probe.fragments@[document.fragments@[m].source_index as int].in_layout);
    } else if n < m {
        assert(!document.probe_of(probe, n).in_layout);
    }
    if utf16::utf8_units(text.subrange(0, index)) < byte <= utf16::utf8_units(
        text.subrange(0, index + 1),
    ) {
        utf16::byte_offsets_count_the_text_in_front(text, index, byte);
    }
    if byte == 0 {
        utf16::lemma_chars_before_byte_unique(text, 0, 0);
    }
}

/// A point outside the painted area, or kept from it, finds nothing, neither under it nor near it.
pub proof fn points_out_of_reach_find_nothing(
    document: SelectionDocument,
    probe: PointProbe,
    under: Option<usize>,
    nearest: Option<usize>,
)
    requires
        document.probed_by(probe),
        document.fragments@.len() > 0,
        document.is_index_under(probe, under),
        document.is_nearest_index(probe, nearest),
        ({
            ||| document.bounds is Some
                && !probe.fragments@[document.fragments@[0].source_index as int].in_area
            ||| document.hitbox_range is Some && is_occluded(
                probe.hitboxes@,
                probe.hit_ids@,
                document.hitbox_range->0,
            )
        }),
    ensures
        under is None,
        nearest is None,
{
}

/// A point inside an area's bounds that nothing keeps from it is in reach, and so is any point of an
/// area that has neither bounds nor hitboxes.
pub proof fn unhindered_points_are_in_reach(document: SelectionDocument, probe: PointProbe)
    requires
        document.bounds is None || document.fragments@.len() > 0
            && probe.fragments@[document.fragments@[0].source_index as int].in_area,
        document.hitbox_range is None || !is_occluded(
            probe.hitboxes@,
            probe.hit_ids@,
            document.hitbox_range->0,
        ),
    ensures
        !document.out_of_reach(probe),
{
}

/// Where no fragment lies under a point, the position near it is found in the fragment that is
/// vertically nearest, among those in the one that is horizontally nearest, and among equals in the
/// first.
pub proof fn points_are_found_in_the_nearest_fragment(
    document: SelectionDocument,
    probe: PointProbe,
    n: int,
    found: Option<usize>,
)
    requires
        document.well_formed(),
        document.probed_by(probe),
        !document.out_of_reach(probe),
        0 <= n < document.fragments@.len(),
        forall|m: int|
            0 <= m < document.fragments@.len() ==> !probe.fragments@[(
            #[trigger] document.fragments@[m]).source_index as int].in_layout,
        forall|m: int|
            0 <= m < document.fragments@.len() && m != n ==> {
                let near = probe.fragments@[document.fragments@[n].source_index as int];
                let other = probe.fragments@[(
                #[trigger] document.fragments@[m]).source_index as int];
                let down = geometry::total_rank(near.vertical_distance.bits);
                let other_down = geometry::total_rank(other.vertical_distance.bits);
                let across = geometry::total_rank(near.horizontal_distance.bits);
                let other_across = geometry::total_rank(other.horizontal_distance.bits);
                ||| down < other_down
                ||| down == other_down && across < other_across
                ||| down == other_down && across == other_across && n < m
            },
        document.is_nearest_index(probe, found),
    ensures
        found is Some,
        found->0 == document.fragments@[n].content_start_utf16 + utf16::unit_of_byte(
            document.fragments@[n].fragment.fragment.text@,
            probe.fragments@[document.fragments@[n].source_index as int].byte_index as nat,
        ),
{
    assert forall|m: int| 0 <= m < document.fragments@.len() implies !(
    #[trigger] document.probe_of(probe, m)).in_layout by {
        assert(!probe.fragments@[document.fragments@[m].source_index as int].in_layout);
    }
    if document.is_index_under(probe, found) {
        let k = choose|k: int| #[trigger]
            document.first_under(probe, k) && found->0 == document.index_at(probe, k);
        assert(document.probe_of(probe, k).in_layout);
        assert(false);
    }
    let k = choose|k: int| #[trigger]
        document.closest(probe, k) && found->0 == document.index_at(probe, k);
    if k != n {
        assert(document.fragments@[k].source_index < probe.fragments@.len());
        assert(!closer(document.distance_of(probe, n), document.distance_of(probe, k)));
        if k < n {
            lemma_starts_increase(document, k, n);
        } else {
            lemma_starts_increase(document, n, k);
            assert(closer(document.distance_of(probe, k), document.distance_of(probe, n)));
        }
    }
}

proof fn lemma_starts_increase(document: SelectionDocument, n: int, m: int)
    requires
        document.well_formed(),
        0 <= n <= m < document.fragments@.len(),
    ensures
        document.fragments@[n].content_start_utf16 <= document.fragments@[m].content_start_utf16,
    decreases m - n,
{
    if n < m {
        lemma_starts_increase(document, n, m - 1);
        selection_range::fragments_tile_the_document(document, m - 1);
    }
}

} // verus!
