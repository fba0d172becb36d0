//! Choosing fonts: which faces stand for a family, which of them fits a request best, and how shaped
//! glyphs form runs.
use crate::text;
use crate::utf16;
use smallvec::SmallVec;
use vstd::prelude::*;
use vstd::string::*;

verus! {

/// The width class of faces that are neither narrow nor wide.
pub const NORMAL_STRETCH: u16 = 5;

/// The slant of a font.
#[derive(Clone, Copy, Debug, PartialEq, Eq, Structural)]
pub enum FontStyle {
    Normal,
    Italic,
    Oblique,
}

/// A face as the font database lists it.
#[derive(Debug, PartialEq, Eq)]
pub struct FaceInfo {
    /// The number of the face in the database.
    pub face_id: u64,
    /// The place of the face in its file.
    pub index: u32,
    pub families: Vec<String>,
    pub post_script_name: String,
    pub style: FontStyle,
    pub weight: u16,
    /// The width class, from one for the narrowest to nine for the widest.
    pub stretch: u16,
}

/// What a font is asked for.
#[derive(Clone, Copy, Debug, PartialEq, Eq, Structural)]
pub struct FontRequest {
    pub style: FontStyle,
    pub weight: i32,
}

/// How a face looks.
#[derive(Clone, Copy, Debug, PartialEq, Eq, Structural)]
pub struct FaceTraits {
    pub style: FontStyle,
    pub weight: u16,
    /// The width class, from one for the narrowest to nine for the widest.
    pub stretch: u16,
}

/// Tests for the fonts that hold colored symbols.
pub fn check_is_known_emoji_font(postscript_name: &str) -> (is_emoji: bool)
    ensures
        is_emoji <==> is_emoji_name(postscript_name@),
{
    if text::same_text(postscript_name, "NotoColorEmoji") {
        proof {
            reveal_strlit("NotoColorEmoji");
            reveal_strlit("Emoji");
            assert(postscript_name@.subrange(9, 14) =~= "Emoji"@);
            assert(text::occurs_at(postscript_name@, "Emoji"@, 9));
        }
        return true;
    }
    text::contains_text(postscript_name, "Emoji") || text::contains_text(postscript_name, "emoji")
}

/// Whether a PostScript name is that of a font of colored symbols.
pub open spec fn is_emoji_name(name: Seq<char>) -> bool {
    text::occurs(name, "Emoji"@) || text::occurs(name, "emoji"@)
}

/// Whether a family name asks for any font without serifs.
pub open spec fn wants_sans_serif(name: Seq<char>) -> bool {
    ||| text::occurs(text::lowercase(name), "sans"@)
    ||| name == ".ZedSans"@
    ||| name == "Helvetica"@
    ||| name == "Arial"@
    ||| name == "IBM Plex Sans"@
}

/// Tests whether a family name asks for any font without serifs.
pub fn is_sans_serif_request(name: &str) -> (wants: bool)
    ensures
        wants == wants_sans_serif(name@),
{
    let name_lower: String = text::to_lowercase(name);
    text::contains_text(name_lower.as_str(), "sans") || text::same_text(name, ".ZedSans")
        || text::same_text(name, "Helvetica") || text::same_text(name, "Arial")
        || text::same_text(name, "IBM Plex Sans")
}

/// Whether a family stands for a requested name: the same name, the same in lower case, or one
/// inside the other in lower case.
pub open spec fn family_fits(name: Seq<char>, family: Seq<char>) -> bool {
    let name_lower = text::lowercase(name);
    let family_lower = text::lowercase(family);
    ||| name == family
    ||| family_lower == name_lower
    ||| text::occurs(family_lower, name_lower)
    ||| text::occurs(name_lower, family_lower)
}

/// Whether a family is one of the common fonts without serifs.
pub open spec fn is_common_sans(family: Seq<char>) -> bool {
    let lower = text::lowercase(family);
    ||| text::occurs(lower, "roboto"@)
    ||| text::occurs(lower, "droidsans"@)
    ||| text::occurs(lower, "misans"@)
}

/// The texts in a list.
pub open spec fn texts(list: Seq<String>) -> Seq<Seq<char>> {
    list.map_values(|entry: String| entry@)
}

/// The families of each face in a list.
pub open spec fn family_lists(faces: Seq<FaceInfo>) -> Seq<Seq<Seq<char>>> {
    faces.map_values(|face: FaceInfo| texts(face.families@))
}

/// Whether some family of a face passes a test.
pub open spec fn any_family(families: Seq<Seq<char>>, test: spec_fn(Seq<char>) -> bool) -> bool {
    exists|i: int| 0 <= i < families.len() && test(#[trigger] families[i])
}

/// Tests whether a face stands for a requested name.
fn face_fits(face: &FaceInfo, name: &str, name_lower: &str) -> (fits: bool)
    requires
        name_lower@ == text::lowercase(name@),
    ensures
        fits == any_family(texts(face.families@), |family: Seq<char>| family_fits(name@, family)),
{
    let ghost test = |family: Seq<char>| family_fits(name@, family);
    let ghost names = texts(face.families@);
    let mut i: usize = 0;
    while i < face.families.len()
        invariant
            i <= face.families@.len(),
            name_lower@ == text::lowercase(name@),
            test == (|family: Seq<char>| family_fits(name@, family)),
            names == texts(face.families@),
            forall|j: int| 0 <= j < i ==> !test(#[trigger] names[j]),
        decreases face.families@.len() - i,
    {
        let family: &str = face.families[i].as_str();
        let family_lower: String = text::to_lowercase(family);
        if text::same_text(name, family) || text::same_text(family_lower.as_str(), name_lower)
            || text::contains_text(family_lower.as_str(), name_lower) || text::contains_text(
            name_lower,
            family_lower.as_str(),
        ) {
            assert(test(names[i as int]));
            return true;
        }
        assert(!test(names[i as int]));
        i = i + 1;
    }
    false
}

/// Tests whether a face is one of the common fonts without serifs.
fn face_is_common_sans(face: &FaceInfo) -> (common: bool)
    ensures
        common == any_family(texts(face.families@), |family: Seq<char>| is_common_sans(family)),
{
    let ghost test = |family: Seq<char>| is_common_sans(family);
    let ghost names = texts(face.families@);
    let mut i: usize = 0;
    while i < face.families.len()
        invariant
            i <= face.families@.len(),
            test == (|family: Seq<char>| is_common_sans(family)),
            names == texts(face.families@),
            forall|j: int| 0 <= j < i ==> !test(#[trigger] names[j]),
        decreases face.families@.len() - i,
    {
        let lower: String = text::to_lowercase(face.families[i].as_str());
        if text::contains_text(lower.as_str(), "roboto") || text::contains_text(
            lower.as_str(),
            "droidsans",
        ) || text::contains_text(lower.as_str(), "misans") {
            assert(test(names[i as int]));
            return true;
        }
        assert(!test(names[i as int]));
        i = i + 1;
    }
    false
}

/// The places of the faces that pass a test, in order, given the families of each face.
pub open spec fn faces_where(
    faces: Seq<Seq<Seq<char>>>,
    test: spec_fn(Seq<char>) -> bool,
) -> Seq<usize>
    decreases faces.len(),
{
    if faces.len() == 0 {
        Seq::empty()
    } else {
        let rest = faces_where(faces.drop_last(), test);
        if any_family(faces.last(), test) {
            rest.push((faces.len() - 1) as usize)
        } else {
            rest
        }
    }
}

/// The places of the faces that stand for a requested name. Where none does and the name asks for
/// any font without serifs, the common ones stand for it.
pub open spec fn family_faces(faces: Seq<Seq<Seq<char>>>, name: Seq<char>) -> Seq<usize> {
    let fitting = faces_where(faces, |family: Seq<char>| family_fits(name, family));
    if fitting.len() == 0 && wants_sans_serif(name) {
        faces_where(faces, |family: Seq<char>| is_common_sans(family))
    } else {
        fitting
    }
}

/// Finds the faces that stand for a requested family.
pub fn find_family(faces: &Vec<FaceInfo>, name: &str) -> (found: Vec<usize>)
    ensures
        found@ == family_faces(family_lists(faces@), name@),
{
    let name_lower: String = text::to_lowercase(name);
    let ghost lists = family_lists(faces@);
    let ghost fits = |family: Seq<char>| family_fits(name@, family);
    let mut found: Vec<usize> = Vec::new();
    let mut i: usize = 0;
    assert(found@ =~= faces_where(lists.take(0), fits));
    while i < faces.len()
        invariant
            i <= faces@.len(),
            lists == family_lists(faces@),
            name_lower@ == text::lowercase(name@),
            fits == (|family: Seq<char>| family_fits(name@, family)),
            found@ == faces_where(lists.take(i as int), fits),
        decreases faces@.len() - i,
    {
        assert(lists.take(i as int + 1).drop_last() =~= lists.take(i as int));
        if face_fits(&faces[i], name, name_lower.as_str()) {
            found.push(i);
        }
        i = i + 1;
    }
    assert(lists.take(faces@.len() as int) =~= lists);
    if found.len() > 0 || !is_sans_serif_request(name) {
        return found;
    }
    let ghost common = |family: Seq<char>| is_common_sans(family);
    let mut sans: Vec<usize> = Vec::new();
    let mut k: usize = 0;
    assert(sans@ =~= faces_where(lists.take(0), common));
    while k < faces.len()
        invariant
            k <= faces@.len(),
            lists == family_lists(faces@),
            common == (|family: Seq<char>| is_common_sans(family)),
            sans@ == faces_where(lists.take(k as int), common),
        decreases faces@.len() - k,
    {
        assert(lists.take(k as int + 1).drop_last() =~= lists.take(k as int));
        if face_is_common_sans(&faces[k]) {
            sans.push(k);
        }
        k = k + 1;
    }
    assert(lists.take(faces@.len() as int) =~= lists);
    sans
}

/// How far a slant is from the one asked for: italic and oblique stand in for each other.
pub open spec fn style_distance(wanted: FontStyle, face: FontStyle) -> int {
    if wanted == face {
        0
    } else if wanted !is Normal && face !is Normal {
        1
    } else {
        2
    }
}

/// How badly a face fits a request: the slant weighs most, then the weight, and an unusual width
/// counts a hundred.
pub open spec fn face_score(request: FontRequest, face: FaceTraits) -> int {
    let weight_distance = if request.weight >= face.weight {
        request.weight - face.weight
    } else {
        face.weight - request.weight
    };
    style_distance(request.style, face.style) * 1000 + weight_distance + if face.stretch == NORMAL_STRETCH {
        0int
    } else {
        100int
    }
}

/// Measures how badly a face fits a request.
fn score_face(request: FontRequest, face: FaceTraits) -> (score: i64)
    ensures
        score == face_score(request, face),
{
    let style_score: i64 = match (request.style, face.style) {
        (FontStyle::Normal, FontStyle::Normal) => 0,
        (FontStyle::Italic, FontStyle::Italic) => 0,
        (FontStyle::Oblique, FontStyle::Oblique) => 0,
        (FontStyle::Italic, FontStyle::Oblique) => 1,
        (FontStyle::Oblique, FontStyle::Italic) => 1,
        _ => 2,
    };
    let weight: i64 = request.weight as i64;
    let face_weight: i64 = face.weight as i64;
    let weight_diff: i64 = if weight >= face_weight {
        weight - face_weight
    } else {
        face_weight - weight
    };
    let stretch_score: i64 = if face.stretch == NORMAL_STRETCH {
        0
    } else {
        100
    };
    style_score * 1000 + weight_diff + stretch_score
}

/// Whether candidate `index` is known and fits a request at all.
pub open spec fn competes(request: FontRequest, faces: Seq<Option<FaceTraits>>, index: int) -> bool {
    &&& 0 <= index < faces.len()
    &&& faces[index] is Some
    &&& face_score(request, faces[index]->0) < i32::MAX
}

/// Whether candidate `index` fits a request better than all before it and no worse than all after.
pub open spec fn fits_best(request: FontRequest, faces: Seq<Option<FaceTraits>>, index: int) -> bool {
    &&& competes(request, faces, index)
    &&& forall|j: int|
        0 <= j < index && #[trigger] competes(request, faces, j) ==> face_score(
            request,
            faces[index]->0,
        ) < face_score(request, faces[j]->0)
    &&& forall|j: int|
        index < j && #[trigger] competes(request, faces, j) ==> face_score(
            request,
            faces[index]->0,
        ) <= face_score(request, faces[j]->0)
}

/// Whether a candidate is the one to pick.
pub open spec fn is_pick(request: FontRequest, faces: Seq<Option<FaceTraits>>, best: int) -> bool {
    &&& faces.len() > 1 ==> fits_best(request, faces, best) || (best == 0 && forall|j: int|
        !(#[trigger] competes(request, faces, j)))
    &&& faces.len() <= 1 ==> best == 0
}

/// Picks the candidate that fits a request best, the first of equals. A single candidate is taken
/// as it is, and so is the first where nothing is known of any.
pub fn find_best_match(request: FontRequest, faces: &Vec<Option<FaceTraits>>) -> (best: usize)
    ensures
        is_pick(request, faces@, best as int),
        faces@.len() > 0 ==> best < faces@.len(),
{
    if faces.len() <= 1 {
        return 0;
    }
    let mut best_score: i64 = i32::MAX as i64;
    let mut best: usize = 0;
    let mut found: bool = false;
    let mut i: usize = 0;
    while i < faces.len()
        invariant
            i <= faces@.len(),
            faces@.len() > 1,
            found ==> best < i && competes(request, faces@, best as int) && best_score
                == face_score(request, faces@[best as int]->0),
            !found ==> best == 0 && best_score == i32::MAX,
            forall|j: int|
                0 <= j < i && #[trigger] competes(request, faces@, j) ==> found && best_score
                    <= face_score(request, faces@[j]->0) && (j < best ==> best_score < face_score(
                    request,
                    faces@[j]->0,
                )),
        decreases faces@.len() - i,
    {
        if let Some(face) = faces[i] {
            let score: i64 = score_face(request, face);
            if score < best_score {
                best_score = score;
                best = i;
                found = true;
            }
        }
        i = i + 1;
    }
    best
}

/// The numbers of loaded fonts in order, kept in a small vector that stores up to four inline.
#[verifier::external_body]
pub struct FontIdList {
    ids: SmallVec<[usize; 4]>,
}

/// The numbers a list holds, in order.
pub uninterp spec fn font_ids(list: FontIdList) -> Seq<usize>;

impl FontIdList {
    /// Calls `SmallVec::new`. Trusted: a new small vector holds nothing.
    #[verifier::external_body]
    pub(crate) fn new() -> (list: Self)
        ensures
            font_ids(list) == Seq::<usize>::empty(),
    {
        FontIdList { ids: SmallVec::new() }
    }

    /// Calls `SmallVec::push`. Trusted: the value is added behind what was there.
    #[verifier::external_body]
    pub(crate) fn push(&mut self, id: usize)
        ensures
            font_ids(*final(self)) == font_ids(*old(self)).push(id),
    {
        self.ids.push(id)
    }

    /// Calls `SmallVec::as_slice`. Trusted: the slice holds the contents in order.
    #[verifier::external_body]
    fn slice(&self) -> (slice: &[usize])
        ensures
            slice@ == font_ids(*self),
    {
        self.ids.as_slice()
    }

    /// The numbers in order.
    pub fn as_slice(&self) -> (slice: &[usize])
        ensures
            slice@ == self@,
    {
        self.slice()
    }
}

impl View for FontIdList {
    type V = Seq<usize>;

    open spec fn view(&self) -> Seq<usize> {
        font_ids(*self)
    }
}

impl Clone for FontIdList {
    fn clone(&self) -> (copy: Self)
        ensures
            copy@ == self@,
    {
        let ids: &[usize] = self.slice();
        let mut copy = FontIdList::new();
        let mut i: usize = 0;
        while i < ids.len()
            invariant
                i <= ids@.len(),
                copy@ == ids@.take(i as int),
            decreases ids@.len() - i,
        {
            copy.push(ids[i]);
            i = i + 1;
            assert(copy@ =~= ids@.take(i as int));
        }
        assert(ids@.take(ids@.len() as int) =~= ids@);
        copy
    }
}

/// A request for a family with features, under which the fonts found for it are kept.
#[derive(Debug, PartialEq, Eq)]
pub struct FontKey {
    pub family: String,
    /// Feature names with their values.
    pub features: Vec<(String, u32)>,
}

/// What a list of features holds.
pub open spec fn feature_values(features: Seq<(String, u32)>) -> Seq<(Seq<char>, u32)> {
    features.map_values(|feature: (String, u32)| (feature.0@, feature.1))
}

impl View for FontKey {
    type V = (Seq<char>, Seq<(Seq<char>, u32)>);

    open spec fn view(&self) -> (Seq<char>, Seq<(Seq<char>, u32)>) {
        (self.family@, feature_values(self.features@))
    }
}

impl FontKey {
    pub fn new(family: String, features: Vec<(String, u32)>) -> (key: Self)
        ensures
            key.family == family,
            key.features == features,
    {
        FontKey { family, features }
    }

    /// Compares two requests.
    pub fn same(&self, other: &FontKey) -> (same: bool)
        ensures
            same == (self@ == other@),
    {
        if !text::same_text(self.family.as_str(), other.family.as_str()) {
            return false;
        }
        let ghost a = feature_values(self.features@);
        let ghost b = feature_values(other.features@);
        if self.features.len() != other.features.len() {
            assert(a.len() != b.len());
            return false;
        }
        let mut i: usize = 0;
        while i < self.features.len()
            invariant
                self.features@.len() == other.features@.len(),
                a == feature_values(self.features@),
                b == feature_values(other.features@),
                i <= self.features@.len(),
                forall|j: int| 0 <= j < i ==> #[trigger] a[j] == b[j],
            decreases self.features@.len() - i,
        {
            let same_value: bool = self.features[i].1 == other.features[i].1;
            if !same_value || !text::same_text(
                self.features[i].0.as_str(),
                other.features[i].0.as_str(),
            ) {
                assert(a[i as int] != b[i as int]);
                return false;
            }
            assert(a[i as int] == b[i as int]);
            i = i + 1;
        }
        assert(a =~= b);
        true
    }
}

/// What is kept for a request in a list, if anything.
pub open spec fn kept_for(
    entries: Seq<(FontKey, FontIdList)>,
    key: (Seq<char>, Seq<(Seq<char>, u32)>),
) -> Option<Seq<usize>>
    decreases entries.len(),
{
    if entries.len() == 0 {
        None
    } else if entries[0].0@ == key {
        Some(entries[0].1@)
    } else {
        kept_for(entries.skip(1), key)
    }
}

/// The fonts found for earlier requests. No request is listed twice.
pub struct FontFamilyCache {
    pub entries: Vec<(FontKey, FontIdList)>,
}

impl FontFamilyCache {
    /// Whether entry `index` is that of a request.
    pub open spec fn holds(
        self,
        key: (Seq<char>, Seq<(Seq<char>, u32)>),
        index: int,
    ) -> bool {
        0 <= index < self.entries@.len() && self.entries@[index].0@ == key
    }

    /// Whether no request is listed twice.
    pub open spec fn well_formed(self) -> bool {
        forall|i: int, j: int|
            0 <= i < j < self.entries@.len() ==> (#[trigger] self.entries@[i]).0@ != (
            #[trigger] self.entries@[j]).0@
    }

    /// Starts without entries.
    pub fn new() -> (cache: Self)
        ensures
            cache.entries@.len() == 0,
            cache.well_formed(),
    {
        FontFamilyCache { entries: Vec::new() }
    }

    /// Finds the fonts of an earlier request.
    pub fn get(&self, key: &FontKey) -> (found: Option<FontIdList>)
        ensures
            match found {
                Some(ids) => kept_for(self.entries@, key@) == Some(ids@) && exists|i: int|
                    #[trigger] self.holds(key@, i) && ids@ == self.entries@[i].1@,
                None => kept_for(self.entries@, key@) is None && forall|i: int|
                    !(#[trigger] self.holds(key@, i)),
            },
    {
        let mut i: usize = 0;
        assert(self.entries@.skip(0) =~= self.entries@);
        while i < self.entries.len()
            invariant
                i <= self.entries@.len(),
                forall|j: int| 0 <= j < i ==> !(#[trigger] self.holds(key@, j)),
                kept_for(self.entries@, key@) == kept_for(self.entries@.skip(i as int), key@),
            decreases self.entries@.len() - i,
        {
            let ghost rest = self.entries@.skip(i as int);
            assert(rest.skip(1) =~= self.entries@.skip(i as int + 1));
            if self.entries[i].0.same(key) {
                assert(self.holds(key@, i as int));
                return Some(self.entries[i].1.clone());
            }
            i = i + 1;
        }
        None
    }

    /// Keeps the fonts found for a request that is not listed yet.
    pub fn insert(&mut self, key: FontKey, ids: FontIdList)
        requires
            old(self).well_formed(),
            forall|i: int| !(#[trigger] old(self).holds(key@, i)),
        ensures
            final(self).well_formed(),
            final(self).entries@ == old(self).entries@.push((key, ids)),
    {
        proof {
            assert forall|i: int| 0 <= i < self.entries@.len() implies (
            #[trigger] self.entries@[i]).0@ != key@ by {
                assert(!self.holds(key@, i));
            }
        }
        self.entries.push((key, ids));
    }
}

/// Whether every feature is named by a tag of four bytes.
pub open spec fn features_valid(features: Seq<(String, u32)>) -> bool {
    forall|i: int|
        0 <= i < features.len() ==> utf16::utf8_units((#[trigger] features[i]).0@) == 4
}

/// Tests whether every feature is named by a tag of four bytes.
pub fn check_features(features: &Vec<(String, u32)>) -> (valid: bool)
    ensures
        valid == features_valid(features@),
{
    let mut i: usize = 0;
    while i < features.len()
        invariant
            i <= features@.len(),
            forall|j: int| 0 <= j < i ==> utf16::utf8_units((#[trigger] features@[j]).0@) == 4,
        decreases features@.len() - i,
    {
        if utf16::byte_len(features[i].0.as_str()) != 4 {
            assert(utf16::utf8_units(features@[i as int].0@) != 4);
            return false;
        }
        i = i + 1;
    }
    true
}

/// The faces that stand for a family are listed ones.
pub proof fn lemma_family_faces_are_listed(faces: Seq<Seq<Seq<char>>>, name: Seq<char>)
    requires
        faces.len() <= usize::MAX,
    ensures
        forall|i: int|
            0 <= i < family_faces(faces, name).len() ==> (#[trigger] family_faces(faces, name)[i])
                < faces.len(),
        family_faces(faces, name).len() <= faces.len(),
{
    lemma_faces_where_are_listed(faces, |family: Seq<char>| family_fits(name, family));
    lemma_faces_where_are_listed(faces, |family: Seq<char>| is_common_sans(family));
}

proof fn lemma_faces_where_are_listed(
    faces: Seq<Seq<Seq<char>>>,
    test: spec_fn(Seq<char>) -> bool,
)
    requires
        faces.len() <= usize::MAX,
    ensures
        forall|i: int|
            0 <= i < faces_where(faces, test).len() ==> (#[trigger] faces_where(faces, test)[i])
                < faces.len(),
        faces_where(faces, test).len() <= faces.len(),
    decreases faces.len(),
{
    if faces.len() > 0 {
        lemma_faces_where_are_listed(faces.drop_last(), test);
    }
}

/// A candidate that loses to another by every measure is not picked: the pick has the least score.
pub proof fn best_match_has_the_least_score(
    request: FontRequest,
    faces: Seq<Option<FaceTraits>>,
    best: int,
    other: int,
)
    requires
        fits_best(request, faces, best),
        competes(request, faces, other),
    ensures
        face_score(request, faces[best]->0) <= face_score(request, faces[other]->0),
{
}

/// Only one candidate is the one to pick.
pub proof fn the_pick_is_unique(
    request: FontRequest,
    faces: Seq<Option<FaceTraits>>,
    one: int,
    other: int,
)
    requires
        is_pick(request, faces, one),
        is_pick(request, faces, other),
    ensures
        one == other,
{
    if faces.len() > 1 {
        assert(fits_best(request, faces, one) ==> competes(request, faces, one));
        assert(fits_best(request, faces, other) ==> competes(request, faces, other));
    }
}

/// A face with exactly the slant and weight asked for, and normal width, fits perfectly, and only
/// such a face does.
pub proof fn only_exact_faces_fit_perfectly(request: FontRequest, face: FaceTraits)
    ensures
        face_score(request, face) >= 0,
        face_score(request, face) == 0 <==> face.style == request.style && face.weight
            == request.weight && face.stretch == NORMAL_STRETCH,
{
}

/// How far the weight of a face is from the one asked for.
pub open spec fn weight_gap(request: FontRequest, face: FaceTraits) -> int {
    if request.weight >= face.weight {
        request.weight - face.weight
    } else {
        face.weight - request.weight
    }
}

/// Where a face has the slant that was asked for, and a weight less than nine hundred away from the one
/// asked for, the face that is picked has that slant too.
pub proof fn the_asked_slant_is_preferred(
    request: FontRequest,
    faces: Seq<Option<FaceTraits>>,
    best: int,
    other: int,
)
    requires
        faces.len() > 1,
        is_pick(request, faces, best),
        0 <= other < faces.len(),
        faces[other] is Some,
        faces[other]->0.style == request.style,
        request.weight - faces[other]->0.weight < 900,
        faces[other]->0.weight - request.weight < 900,
    ensures
        0 <= best < faces.len(),
        faces[best] is Some,
        faces[best]->0.style == request.style,
{
    assert(competes(request, faces, other));
}

/// Where a slanted face was asked for and some face is slanted, with a weight less than nine hundred away
/// from the one asked for, an upright face is not picked.
pub proof fn a_slanted_face_stands_in_for_another(
    request: FontRequest,
    faces: Seq<Option<FaceTraits>>,
    best: int,
    other: int,
)
    requires
        faces.len() > 1,
        is_pick(request, faces, best),
        request.style !is Normal,
        0 <= other < faces.len(),
        faces[other] is Some,
        faces[other]->0.style !is Normal,
        request.weight - faces[other]->0.weight < 900,
        faces[other]->0.weight - request.weight < 900,
    ensures
        faces[best] is Some,
        faces[best]->0.style !is Normal,
{
    assert(competes(request, faces, other));
}

/// Between faces of one slant that are both of normal width, or both not, the one whose weight is nearer
/// to the one asked for is picked, and the first of those that are equally near.
pub proof fn the_nearest_weight_is_picked(
    request: FontRequest,
    faces: Seq<Option<FaceTraits>>,
    best: int,
    other: int,
)
    requires
        faces.len() > 1,
        is_pick(request, faces, best),
        faces[best] is Some,
        0 <= other < faces.len(),
        other != best,
        faces[other] is Some,
        faces[other]->0.style == faces[best]->0.style,
        faces[other]->0.stretch == 5 <==> faces[best]->0.stretch == 5,
        -0x4000_0000 <= request.weight <= 0x4000_0000,
    ensures
        ({
            let picked = faces[best]->0.weight;
            let passed = faces[other]->0.weight;
            let near = if picked <= request.weight {
                request.weight - picked
            } else {
                picked - request.weight
            };
            let far = if passed <= request.weight {
                request.weight - passed
            } else {
                passed - request.weight
            };
            near <= far && (other < best ==> near < far)
        }),
{
    assert(competes(request, faces, other));
    assert(competes(request, faces, best));
}

/// Between faces of one slant a narrow or a wide one is picked over one of normal width only where its
/// weight is nearer by a hundred.
pub proof fn normal_widths_are_preferred(
    request: FontRequest,
    faces: Seq<Option<FaceTraits>>,
    best: int,
    other: int,
)
    requires
        faces.len() > 1,
        is_pick(request, faces, best),
        faces[best] is Some,
        0 <= other < faces.len(),
        faces[other] is Some,
        faces[other]->0.style == faces[best]->0.style,
        faces[other]->0.stretch == 5,
        faces[best]->0.stretch != 5,
        -0x4000_0000 <= request.weight <= 0x4000_0000,
    ensures
        weight_gap(request, faces[best]->0) + 100 <= weight_gap(request, faces[other]->0),
{
    assert(competes(request, faces, other));
}

/// Where a face is just what was asked for, in normal width, such a face is picked, the first of them.
pub proof fn an_exact_face_is_picked(
    request: FontRequest,
    faces: Seq<Option<FaceTraits>>,
    best: int,
    other: int,
)
    requires
        faces.len() > 1,
        is_pick(request, faces, best),
        0 <= other < faces.len(),
        faces[other] is Some,
        faces[other]->0.style == request.style,
        faces[other]->0.weight == request.weight,
        faces[other]->0.stretch == 5,
    ensures
        faces[best] is Some,
        faces[best]->0.style == request.style,
        faces[best]->0.weight == request.weight,
        faces[best]->0.stretch == 5,
        best <= other,
{
    assert(competes(request, faces, other));
}

/// A single face is taken as it is, and a face of which nothing is known is passed over where anything is
/// known of another.
pub proof fn known_faces_are_picked(
    request: FontRequest,
    faces: Seq<Option<FaceTraits>>,
    best: int,
    other: int,
)
    requires
        is_pick(request, faces, best),
        0 <= other < faces.len(),
        faces[other] is Some,
        -0x4000_0000 <= request.weight <= 0x4000_0000,
    ensures
        0 <= best < faces.len(),
        faces[best] is Some,
        faces.len() == 1 ==> best == 0,
{
    if faces.len() > 1 {
        assert(competes(request, faces, other));
    }
}

/// A font holds coloured symbols where its name has `Emoji` or `emoji` anywhere in it, and only there.
pub proof fn symbol_fonts_say_so_in_their_name(before: Seq<char>, after: Seq<char>, name: Seq<char>)
    ensures
        is_emoji_name(before + seq!['E', 'm', 'o', 'j', 'i'] + after),
        is_emoji_name(before + seq!['e', 'm', 'o', 'j', 'i'] + after),
        is_emoji_name(name) ==> exists|k: int|
            0 <= k && k + 5 <= name.len() && (name[k] == 'E' || name[k] == 'e') && name[k + 1] == 'm'
                && name[k + 2] == 'o' && name[k + 3] == 'j' && #[trigger] name[k + 4] == 'i',
{
    reveal_strlit("Emoji");
    reveal_strlit("emoji");
    let large = seq!['E', 'm', 'o', 'j', 'i'];
    let small = seq!['e', 'm', 'o', 'j', 'i'];
    assert(large =~= "Emoji"@);
    assert(small =~= "emoji"@);
    let at = before.len() as int;
    assert((before + large + after).subrange(at, at + 5) =~= "Emoji"@);
    assert(text::occurs_at(before + large + after, "Emoji"@, at));
    assert((before + small + after).subrange(at, at + 5) =~= "emoji"@);
    assert(text::occurs_at(before + small + after, "emoji"@, at));
    if text::occurs(name, "Emoji"@) {
        let k = choose|k: int| text::occurs_at(name, "Emoji"@, k);
        let part = name.subrange(k, k + 5);
        assert(part[0] == 'E' && part[1] == 'm' && part[2] == 'o' && part[3] == 'j' && part[4] == 'i');
        assert(name[k + 4] == 'i');
    } else if text::occurs(name, "emoji"@) {
        let k = choose|k: int| text::occurs_at(name, "emoji"@, k);
        let part = name.subrange(k, k + 5);
        assert(part[0] == 'e' && part[1] == 'm' && part[2] == 'o' && part[3] == 'j' && part[4] == 'i');
        assert(name[k + 4] == 'i');
    }
}

/// The faces that pass a test are listed in order, each of them and no other.
proof fn lemma_faces_where(faces: Seq<Seq<Seq<char>>>, test: spec_fn(Seq<char>) -> bool)
    requires
        faces.len() <= usize::MAX,
    ensures
        forall|i: int, j: int|
            0 <= i < j < faces_where(faces, test).len() ==> (#[trigger] faces_where(faces, test)[i]) < (
            #[trigger] faces_where(faces, test)[j]),
        forall|k: usize| #[trigger]
            faces_where(faces, test).contains(k) <==> k < faces.len() && any_family(
                faces[k as int],
                test,
            ),
    decreases faces.len(),
{
    let found = faces_where(faces, test);
    if faces.len() > 0 {
        let rest = faces.drop_last();
        let earlier = faces_where(rest, test);
        lemma_faces_where(rest, test);
        lemma_faces_where_are_listed(rest, test);
        let last = (faces.len() - 1) as usize;
        assert forall|k: usize| #[trigger] found.contains(k) <==> k < faces.len() && any_family(
            faces[k as int],
            test,
        ) by {
            if k < rest.len() {
                assert(rest[k as int] == faces[k as int]);
            }
            if found.contains(k) {
                let i = choose|i: int| 0 <= i < found.len() && found[i] == k;
                if i < earlier.len() {
                    assert(earlier[i] == k);
                    assert(earlier.contains(k));
                }
            }
            if earlier.contains(k) {
                let i = choose|i: int| 0 <= i < earlier.len() && earlier[i] == k;
                assert(found[i] == k);
            }
            if k == last && any_family(faces.last(), test) {
                assert(found[found.len() - 1] == k);
            }
        }
    }
}

/// A face stands for a requested family where one of its families is that name, in any case, or has that
/// name in it, or is part of it; such faces are all found, in order. Where there is none, a name that asks
/// for a font without serifs finds the common ones, and any other name finds nothing.
pub proof fn families_are_found_by_name(faces: Seq<Seq<Seq<char>>>, name: Seq<char>, k: usize)
    requires
        faces.len() <= usize::MAX,
    ensures
        ({
            let found = family_faces(faces, name);
            let lower = text::lowercase(name);
            let fits = |face: int|
                exists|i: int|
                    0 <= i < faces[face].len() && {
                        let family = #[trigger] faces[face][i];
                        let family_lower = text::lowercase(family);
                        ||| family == name
                        ||| family_lower == lower
                        ||| exists|at: int|
                            0 <= at && at + lower.len() <= family_lower.len()
                                && #[trigger] family_lower.subrange(at, at + lower.len()) == lower
                        ||| exists|at: int|
                            0 <= at && at + family_lower.len() <= lower.len()
                                && #[trigger] lower.subrange(at, at + family_lower.len())
                                == family_lower
                    };
            &&& forall|i: int, j: int| 0 <= i < j < found.len() ==> found[i] < found[j]
            &&& k < faces.len() && fits(k as int) ==> found.contains(k)
            &&& found.contains(k) ==> k < faces.len() && (fits(k as int) || (forall|other: int|
                0 <= other < faces.len() ==> !(#[trigger] fits(other))))
            &&& found.contains(k) && !fits(k as int) ==> wants_sans_serif(name) && exists|i: int|
                0 <= i < faces[k as int].len() && is_common_sans(#[trigger] faces[k as int][i])
        }),
{
    let test = |family: Seq<char>| family_fits(name, family);
    let common = |family: Seq<char>| is_common_sans(family);
    let lower = text::lowercase(name);
    let fits = |face: int|
        exists|i: int|
            0 <= i < faces[face].len() && {
                let family = #[trigger] faces[face][i];
                let family_lower = text::lowercase(family);
                ||| family == name
                ||| family_lower == lower
                ||| exists|at: int|
                    0 <= at && at + lower.len() <= family_lower.len()
                        && #[trigger] family_lower.subrange(at, at + lower.len()) == lower
                ||| exists|at: int|
                    0 <= at && at + family_lower.len() <= lower.len() && #[trigger] lower.subrange(
                        at,
                        at + family_lower.len(),
                    ) == family_lower
            };
    lemma_faces_where(faces, test);
    lemma_faces_where(faces, common);
    assert forall|face: int| 0 <= face < faces.len() implies #[trigger] fits(face) == any_family(
        faces[face],
        test,
    ) by {
        let families = faces[face];
        assert forall|i: int| 0 <= i < families.len() implies test(#[trigger] families[i]) == ({
            let family = families[i];
            let family_lower = text::lowercase(family);
            ||| family == name
            ||| family_lower == lower
            ||| exists|at: int|
                0 <= at && at + lower.len() <= family_lower.len()
                    && #[trigger] family_lower.subrange(at, at + lower.len()) == lower
            ||| exists|at: int|
                0 <= at && at + family_lower.len() <= lower.len() && #[trigger] lower.subrange(
                    at,
                    at + family_lower.len(),
                ) == family_lower
        }) by {
            let family_lower = text::lowercase(families[i]);
            assert forall|at: int| #[trigger] text::occurs_at(family_lower, lower, at) implies 0 <= at
                && at + lower.len() <= family_lower.len() && family_lower.subrange(
                at,
                at + lower.len(),
            ) == lower by {}
            assert forall|at: int|
                0 <= at && at + lower.len() <= family_lower.len()
                    && #[trigger] family_lower.subrange(at, at + lower.len())
                    == lower implies text::occurs_at(family_lower, lower, at) by {}
            assert forall|at: int|
                0 <= at && at + family_lower.len() <= lower.len() && #[trigger] lower.subrange(
                    at,
                    at + family_lower.len(),
                ) == family_lower implies text::occurs_at(lower, family_lower, at) by {}
        }
    }
    let fitting = faces_where(faces, test);
    assert forall|other: int| 0 <= other < faces.len() && #[trigger] fits(other) implies fitting.contains(
        other as usize,
    ) by {}
    if fitting.len() > 0 {
        assert(fitting.contains(fitting[0]));
    }
    let found = family_faces(faces, name);
    if found.contains(k) && !fits(k as int) {
        assert(!fitting.contains(k));
        assert(faces_where(faces, common).contains(k));
        let i = choose|i: int| 0 <= i < faces[k as int].len() && common(#[trigger] faces[k as int][i]);
        assert(is_common_sans(faces[k as int][i]));
    }
}

/// A name asks for any font without serifs where it has `sans` in it, in any case, or is one of the names
/// that such fonts commonly have.
pub proof fn requests_for_sans_serif_are_told_by_name(name: Seq<char>, before: Seq<char>, after: Seq<char>)
    ensures
        text::lowercase(name) == before + seq!['s', 'a', 'n', 's'] + after ==> wants_sans_serif(name),
        name == seq!['A', 'r', 'i', 'a', 'l'] ==> wants_sans_serif(name),
        name == seq!['H', 'e', 'l', 'v', 'e', 't', 'i', 'c', 'a'] ==> wants_sans_serif(name),
        name == seq!['.', 'Z', 'e', 'd', 'S', 'a', 'n', 's'] ==> wants_sans_serif(name),
        name == seq!['I', 'B', 'M', ' ', 'P', 'l', 'e', 'x', ' ', 'S', 'a', 'n', 's']
            ==> wants_sans_serif(name),
        wants_sans_serif(name) ==> (name.len() == 5 || name.len() == 8 || name.len() == 9 || name.len()
            == 13) || exists|k: int|
            0 <= k && k + 4 <= text::lowercase(name).len() && text::lowercase(name)[k] == 's'
                && text::lowercase(name)[k + 1] == 'a' && text::lowercase(name)[k + 2] == 'n'
                && #[trigger] text::lowercase(name)[k + 3] == 's',
{
    reveal_strlit("sans");
    reveal_strlit("Arial");
    reveal_strlit("Helvetica");
    reveal_strlit(".ZedSans");
    reveal_strlit("IBM Plex Sans");
    assert(seq!['A', 'r', 'i', 'a', 'l'] =~= "Arial"@);
    assert(seq!['H', 'e', 'l', 'v', 'e', 't', 'i', 'c', 'a'] =~= "Helvetica"@);
    assert(seq!['.', 'Z', 'e', 'd', 'S', 'a', 'n', 's'] =~= ".ZedSans"@);
    assert(seq!['I', 'B', 'M', ' ', 'P', 'l', 'e', 'x', ' ', 'S', 'a', 'n', 's']
        =~= "IBM Plex Sans"@);
    let lower = text::lowercase(name);
    if lower == before + seq!['s', 'a', 'n', 's'] + after {
        let at = before.len() as int;
        assert(lower.subrange(at, at + 4) =~= "sans"@);
        assert(text::occurs_at(lower, "sans"@, at));
    }
    if text::occurs(lower, "sans"@) {
        let k = choose|k: int| text::occurs_at(lower, "sans"@, k);
        let part = lower.subrange(k, k + 4);
        assert(part[0] == 's' && part[1] == 'a' && part[2] == 'n' && part[3] == 's');
        assert(lower[k + 3] == 's');
    }
}

/// The common fonts without serifs are told by the name of a family of theirs, in any case.
pub proof fn common_sans_fonts_are_told_by_name(family: Seq<char>, before: Seq<char>, after: Seq<char>)
    ensures
        text::lowercase(family) == before + seq!['r', 'o', 'b', 'o', 't', 'o'] + after
            ==> is_common_sans(family),
        text::lowercase(family) == before + seq!['d', 'r', 'o', 'i', 'd', 's', 'a', 'n', 's'] + after
            ==> is_common_sans(family),
        text::lowercase(family) == before + seq!['m', 'i', 's', 'a', 'n', 's'] + after
            ==> is_common_sans(family),
        is_common_sans(family) ==> text::lowercase(family).len() >= 6 && (
        text::lowercase(family).contains('b') || text::lowercase(family).contains('s')),
{
    reveal_strlit("roboto");
    reveal_strlit("droidsans");
    reveal_strlit("misans");
    let lower = text::lowercase(family);
    let at = before.len() as int;
    if lower == before + seq!['r', 'o', 'b', 'o', 't', 'o'] + after {
        assert(lower.subrange(at, at + 6) =~= "roboto"@);
        assert(text::occurs_at(lower, "roboto"@, at));
    }
    if lower == before + seq!['d', 'r', 'o', 'i', 'd', 's', 'a', 'n', 's'] + after {
        assert(lower.subrange(at, at + 9) =~= "droidsans"@);
        assert(text::occurs_at(lower, "droidsans"@, at));
    }
    if lower == before + seq!['m', 'i', 's', 'a', 'n', 's'] + after {
        assert(lower.subrange(at, at + 6) =~= "misans"@);
        assert(text::occurs_at(lower, "misans"@, at));
    }
    if text::occurs(lower, "roboto"@) {
        let k = choose|k: int| text::occurs_at(lower, "roboto"@, k);
        assert(lower.subrange(k, k + 6)[2] == 'b');
        assert(lower[k + 2] == 'b');
    }
    if text::occurs(lower, "droidsans"@) {
        let k = choose|k: int| text::occurs_at(lower, "droidsans"@, k);
        assert(lower.subrange(k, k + 9)[5] == 's');
        assert(lower[k + 5] == 's');
    }
    if text::occurs(lower, "misans"@) {
        let k = choose|k: int| text::occurs_at(lower, "misans"@, k);
        assert(lower.subrange(k, k + 6)[2] == 's');
        assert(lower[k + 2] == 's');
    }
}

/// What is kept for a request is what was kept for it first; a request that was not kept is not found, and
/// keeping another one changes nothing.
pub proof fn requests_are_remembered(
    entries: Seq<(FontKey, FontIdList)>,
    key: FontKey,
    ids: FontIdList,
    other: (Seq<char>, Seq<(Seq<char>, u32)>),
)
    requires
        forall|i: int| 0 <= i < entries.len() ==> (#[trigger] entries[i]).0@ != key@,
    ensures
        kept_for(entries, key@) is None,
        kept_for(entries.push((key, ids)), key@) == Some(ids@),
        other != key@ ==> kept_for(entries.push((key, ids)), other) == kept_for(entries, other),
    decreases entries.len(),
{
    let longer = entries.push((key, ids));
    if entries.len() > 0 {
        let rest = entries.skip(1);
        assert forall|i: int| 0 <= i < rest.len() implies (#[trigger] rest[i]).0@ != key@ by {
            assert(entries[i + 1].0@ != key@);
        }
        requests_are_remembered(rest, key, ids, other);
        assert(longer.skip(1) =~= rest.push((key, ids)));
        assert(entries[0].0@ != key@);
    } else {
        assert(longer.skip(1) =~= Seq::empty());
        assert(kept_for(longer.skip(1), other) is None);
    }
}

/// A request is told apart by its family and by the names and values of its features, in order.
pub proof fn requests_are_told_apart_by_what_they_hold(key: FontKey, i: int)
    ensures
        key@.0 == key.family@,
        key@.1.len() == key.features@.len(),
        0 <= i < key.features@.len() ==> key@.1[i].0 == key.features@[i].0@ && key@.1[i].1
            == key.features@[i].1,
{
}

/// The families of faces are listed face by face and in order.
pub proof fn families_are_listed_in_order(faces: Seq<FaceInfo>, i: int, j: int)
    requires
        0 <= i < faces.len(),
        0 <= j < faces[i].families@.len(),
    ensures
        family_lists(faces).len() == faces.len(),
        family_lists(faces)[i].len() == faces[i].families@.len(),
        family_lists(faces)[i][j] == faces[i].families@[j]@,
{
}

/// What makes a face fit badly adds up: a slant other than the one asked for counts a thousand where both lean
/// and two thousand where one is upright, each step of weight counts one, and a width other than the usual one
/// a hundred.
pub proof fn differences_add_up(request: FontRequest, face: FaceTraits)
    ensures
        ({
            let score = face_score(request, face);
            let slant: int = match (request.style, face.style) {
                (FontStyle::Normal, FontStyle::Normal) => 0,
                (FontStyle::Normal, _) => 2000,
                (_, FontStyle::Normal) => 2000,
                (FontStyle::Italic, FontStyle::Oblique) => 1000,
                (FontStyle::Oblique, FontStyle::Italic) => 1000,
                _ => 0,
            };
            let usual = face.stretch == 5;
            &&& usual && face.weight <= request.weight ==> score + face.weight == slant + request.weight
            &&& usual && face.weight >= request.weight ==> score + request.weight == slant + face.weight
            &&& !usual && face.weight <= request.weight ==> score + face.weight == slant + request.weight + 100
            &&& !usual && face.weight >= request.weight ==> score + request.weight == slant + face.weight + 100
        }),
{
}

} // verus!
