//! The fonts of an application: files that were added, the faces in them, and the search for the
//! font that a request is drawn with.
use crate::charmap;
use crate::font_book;
use crate::font_book::{
    FaceReport, FontBook, FontError, FontRun, FontSpan, LayoutGlyph, LoadedFont, ReportData, ShapedRun,
};
use crate::font_database;
use crate::font_database::{FaceData, FaceEntry, ListedFace};
use crate::font_file;
use crate::fonts;
use crate::fonts::{
    find_family, FaceInfo, FaceTraits, FontFamilyCache, FontIdList, FontKey, FontRequest,
};
use crate::layout_tables;
use crate::text;
use cosmic_text::fontdb::{Database, ID};
use vstd::prelude::*;
use vstd::string::*;

verus! {

/// Where a face stands: the file, and the place of the face in it.
#[derive(Clone, Copy, Debug, PartialEq, Eq, Structural)]
pub struct FacePlace {
    pub file: usize,
    pub index: u32,
}

/// What a list of files holds.
pub open spec fn file_list(files: Seq<Vec<u8>>) -> Seq<Seq<u8>> {
    files.map_values(|file: Vec<u8>| file@)
}

/// The files that hold the faces that they claim, in order. A collection without offsets for all of its
/// faces holds none.
pub open spec fn whole_files(files: Seq<Seq<u8>>) -> Seq<Seq<u8>>
    decreases files.len(),
{
    if files.len() == 0 {
        Seq::empty()
    } else {
        let rest = whole_files(files.drop_last());
        if font_file::offsets_fit(files.last()) {
            rest.push(files.last())
        } else {
            rest
        }
    }
}

/// How many faces files claim to hold.
pub open spec fn face_room(files: Seq<Seq<u8>>) -> int
    decreases files.len(),
{
    if files.len() == 0 {
        0
    } else {
        face_room(files.drop_last()) + font_file::faces_claimed(files.last())
    }
}

/// The places of the faces in files, of which the first has number `first_file`.
pub open spec fn places_for(first_file: int, files: Seq<Seq<u8>>) -> Seq<FacePlace>
    decreases files.len(),
{
    if files.len() == 0 {
        Seq::empty()
    } else {
        let faces = font_database::parsed_faces(files.last());
        places_for(first_file, files.drop_last()) + Seq::new(
            faces.len(),
            |i: int|
                FacePlace {
                    file: (first_file + files.len() - 1) as usize,
                    index: faces[i].index,
                },
        )
    }
}

/// The faces in files, in order.
pub open spec fn faces_for(files: Seq<Seq<u8>>) -> Seq<FaceData>
    decreases files.len(),
{
    if files.len() == 0 {
        Seq::empty()
    } else {
        faces_for(files.drop_last()) + font_database::parsed_faces(files.last())
    }
}

/// What is known of a listed face.
pub open spec fn info_data(face: FaceInfo) -> FaceData {
    FaceData {
        index: face.index,
        families: fonts::texts(face.families@),
        post_script_name: face.post_script_name@,
        style: face.style,
        weight: face.weight,
        stretch: face.stretch,
    }
}

/// A listed face with its number.
pub struct FaceRecord {
    pub face_id: u64,
    pub data: FaceData,
}

/// What is known of the faces in a list.
pub open spec fn record_list(faces: Seq<FaceInfo>) -> Seq<FaceRecord> {
    faces.map_values(|face: FaceInfo| FaceRecord { face_id: face.face_id, data: info_data(face) })
}

/// The number of a key: the last place that it has among the keys that were ever given out. A key may
/// be given out again once its face has been dropped.
pub open spec fn number_of(ids: Seq<ID>, id: ID) -> int
    decreases ids.len(),
{
    if ids.len() == 0 {
        0
    } else if ids.last() == id {
        ids.len() - 1
    } else {
        number_of(ids.drop_last(), id)
    }
}

/// The faces of a database under their numbers.
pub open spec fn numbered(entries: Seq<FaceEntry>, ids: Seq<ID>) -> Seq<FaceRecord> {
    entries.map_values(
        |entry: FaceEntry|
            FaceRecord { face_id: number_of(ids, entry.id) as u64, data: entry.data },
    )
}

/// The faces whose number is below a bound, in the same order.
pub open spec fn below(faces: Seq<FaceRecord>, bound: int) -> Seq<FaceRecord>
    decreases faces.len(),
{
    if faces.len() == 0 {
        Seq::empty()
    } else {
        let rest = below(faces.drop_last(), bound);
        if faces.last().face_id < bound {
            rest.push(faces.last())
        } else {
            rest
        }
    }
}

/// New faces under the numbers from `first` on.
pub open spec fn new_records(first: int, added: Seq<FaceData>) -> Seq<FaceRecord> {
    Seq::new(added.len(), |i: int| FaceRecord { face_id: (first + i) as u64, data: added[i] })
}

/// Whether a list holds the faces of before, in the same order, and new ones under the numbers from
/// `first` on.
pub open spec fn grows(
    before: Seq<FaceRecord>,
    first: int,
    added: Seq<FaceData>,
    after: Seq<FaceRecord>,
) -> bool {
    &&& after.len() == before.len() + added.len()
    &&& below(after, first) == before
    &&& forall|i: int|
        0 <= i < added.len() ==> after.contains(#[trigger] new_records(first, added)[i])
}

proof fn lemma_number_of(ids: Seq<ID>, id: ID)
    requires
        ids.contains(id),
    ensures
        0 <= number_of(ids, id) < ids.len(),
        ids[number_of(ids, id)] == id,
        forall|k: int| number_of(ids, id) < k < ids.len() ==> ids[k] != id,
    decreases ids.len(),
{
    if ids.last() != id {
        let k = choose|k: int| 0 <= k < ids.len() && ids[k] == id;
        assert(ids.drop_last()[k] == id);
        lemma_number_of(ids.drop_last(), id);
        assert forall|j: int| number_of(ids, id) < j < ids.len() implies ids[j] != id by {
            if j < ids.len() - 1 {
                assert(ids.drop_last()[j] == ids[j]);
            }
        }
    }
}

proof fn lemma_number_is_last(ids: Seq<ID>, id: ID, n: int)
    requires
        0 <= n < ids.len(),
        ids[n] == id,
        forall|k: int| n < k < ids.len() ==> ids[k] != id,
    ensures
        number_of(ids, id) == n,
{
    lemma_number_of(ids, id);
}

proof fn lemma_old_number(ids: Seq<ID>, more: Seq<ID>, id: ID)
    requires
        ids.contains(id),
        !more.contains(id),
    ensures
        number_of(ids + more, id) == number_of(ids, id),
{
    lemma_number_of(ids, id);
    let all = ids + more;
    let n = number_of(ids, id);
    assert(all[n] == id);
    assert forall|k: int| n < k < all.len() implies all[k] != id by {
        if k >= ids.len() {
            assert(all[k] == more[k - ids.len()]);
            assert(more.contains(all[k]));
        }
    }
    lemma_number_is_last(all, id, n);
}

/// Faces under new keys get the numbers past all others.
proof fn lemma_new_numbers(entries: Seq<FaceEntry>, ids: Seq<ID>, more: Seq<ID>)
    requires
        forall|k: int|
            0 <= k < entries.len() ==> more.contains((#[trigger] entries[k]).id) || ids.contains(
                entries[k].id,
            ),
        ids.len() + more.len() <= u64::MAX,
    ensures
        below(numbered(entries, ids + more), ids.len() as int) == numbered(
            font_database::without(entries, more),
            ids,
        ),
    decreases entries.len(),
{
    let all = numbered(entries, ids + more);
    if entries.len() > 0 {
        let shorter = entries.drop_last();
        let entry = entries.last();
        assert forall|k: int| 0 <= k < shorter.len() implies more.contains(
            (#[trigger] shorter[k]).id,
        ) || ids.contains(shorter[k].id) by {
            assert(shorter[k] == entries[k]);
        }
        lemma_new_numbers(shorter, ids, more);
        assert(all.drop_last() =~= numbered(shorter, ids + more));
        assert(entry == entries[entries.len() - 1]);
        let kept = font_database::without(shorter, more);
        if more.contains(entry.id) {
            let j = choose|j: int| 0 <= j < more.len() && more[j] == entry.id;
            assert((ids + more)[ids.len() + j] == entry.id);
            lemma_number_of(ids + more, entry.id);
            assert(number_of(ids + more, entry.id) >= ids.len());
        } else {
            lemma_old_number(ids, more, entry.id);
            lemma_number_of(ids, entry.id);
            assert(numbered(kept.push(entry), ids) =~= numbered(kept, ids).push(all.last()));
        }
    } else {
        assert(all =~= Seq::empty());
        assert(below(all, ids.len() as int) =~= numbered(font_database::without(entries, more), ids));
    }
}

proof fn lemma_below_is_there(faces: Seq<FaceRecord>, bound: int)
    ensures
        forall|k: int|
            0 <= k < below(faces, bound).len() ==> faces.contains(
                #[trigger] below(faces, bound)[k],
            ) && below(faces, bound)[k].face_id < bound,
    decreases faces.len(),
{
    if faces.len() > 0 {
        let shorter = faces.drop_last();
        let rest = below(shorter, bound);
        let kept = below(faces, bound);
        lemma_below_is_there(shorter, bound);
        assert forall|k: int| 0 <= k < kept.len() implies faces.contains(#[trigger] kept[k])
            && kept[k].face_id < bound by {
            if k < rest.len() {
                assert(rest[k] == kept[k]);
                assert(shorter.contains(rest[k]));
                let j = choose|j: int| 0 <= j < shorter.len() && shorter[j] == rest[k];
                assert(faces[j] == kept[k]);
            } else {
                assert(faces[faces.len() - 1] == kept[k]);
            }
        }
    }
}

proof fn lemma_below_twice(faces: Seq<FaceRecord>, low: int, high: int)
    requires
        low <= high,
    ensures
        below(below(faces, high), low) == below(faces, low),
    decreases faces.len(),
{
    if faces.len() > 0 {
        lemma_below_twice(faces.drop_last(), low, high);
        let rest = below(faces.drop_last(), high);
        if faces.last().face_id < high {
            assert(rest.push(faces.last()).drop_last() =~= rest);
        }
    }
}

/// Adding faces in two steps is adding them at once.
proof fn lemma_grows_twice(
    before: Seq<FaceRecord>,
    first: int,
    one: Seq<FaceData>,
    between: Seq<FaceRecord>,
    two: Seq<FaceData>,
    after: Seq<FaceRecord>,
)
    requires
        grows(before, first, one, between),
        grows(between, first + one.len(), two, after),
    ensures
        grows(before, first, one + two, after),
{
    lemma_below_twice(after, first, first + one.len());
    lemma_below_is_there(after, first + one.len());
    let all = new_records(first, one + two);
    assert forall|i: int| 0 <= i < (one + two).len() implies after.contains(
        #[trigger] all[i],
    ) by {
        if i < one.len() {
            assert(all[i] == new_records(first, one)[i]);
            assert(between.contains(new_records(first, one)[i]));
            let k = choose|k: int| 0 <= k < between.len() && between[k] == all[i];
            assert(after.contains(below(after, first + one.len())[k]));
        } else {
            assert(all[i] == new_records(first + one.len(), two)[i - one.len()]);
        }
    }
}

/// A face with an older number is listed after faces have been added exactly if it was before.
pub proof fn added_faces_keep_the_others(
    before: Seq<FaceRecord>,
    first: int,
    added: Seq<FaceData>,
    after: Seq<FaceRecord>,
    face: FaceRecord,
)
    requires
        grows(before, first, added, after),
        face.face_id < first,
    ensures
        before.contains(face) <==> after.contains(face),
{
    lemma_below_is_there(after, first);
    if before.contains(face) {
        let k = choose|k: int| 0 <= k < before.len() && before[k] == face;
        assert(after.contains(below(after, first)[k]));
    }
    if after.contains(face) {
        lemma_below_holds(after, first, face);
    }
}

proof fn lemma_below_holds(faces: Seq<FaceRecord>, bound: int, face: FaceRecord)
    requires
        faces.contains(face),
        face.face_id < bound,
    ensures
        below(faces, bound).contains(face),
    decreases faces.len(),
{
    let shorter = faces.drop_last();
    let rest = below(shorter, bound);
    let kept = below(faces, bound);
    if faces.last() == face {
        assert(kept[kept.len() - 1] == face);
    } else {
        let k = choose|k: int| 0 <= k < faces.len() && faces[k] == face;
        assert(shorter[k] == face);
        lemma_below_holds(shorter, bound, face);
        let j = choose|j: int| 0 <= j < rest.len() && rest[j] == face;
        assert(kept[j] == face);
    }
}

/// Files, the faces in them and the fonts that were loaded.
pub struct FontState {
    pub files: Seq<Seq<u8>>,
    pub places: Seq<FacePlace>,
    pub faces: Seq<FaceRecord>,
    pub fonts: Seq<LoadedFont>,
}

/// Finds fonts among the faces of the files that were added.
pub struct FontSystem {
    pub files: Vec<Vec<u8>>,
    /// The place of each face by its number.
    pub places: Vec<FacePlace>,
    /// The key of each face by its number.
    pub ids: Vec<ID>,
    /// The faces that can still be loaded.
    pub database: Database,
    pub book: FontBook,
    pub cache: FontFamilyCache,
}

impl View for FontSystem {
    type V = FontState;

    open spec fn view(&self) -> FontState {
        FontState {
            files: file_list(self.files@),
            places: self.places@,
            faces: numbered(font_database::listed(self.database), self.ids@),
            fonts: self.book.fonts@,
        }
    }
}

impl FontState {
    /// Whether every face has a place in a file, and every file holds the faces that it claims.
    pub open spec fn well_formed(self) -> bool {
        &&& forall|i: int| 0 <= i < self.files.len() ==> font_file::offsets_fit(#[trigger] self.files[i])
        &&& forall|i: int|
            0 <= i < self.places.len() ==> (#[trigger] self.places[i]).file < self.files.len()
        &&& forall|k: int|
            0 <= k < self.faces.len() ==> (#[trigger] self.faces[k]).face_id < self.places.len()
        &&& forall|k: int|
            0 <= k < self.fonts.len() ==> (#[trigger] self.fonts[k]).face_id < self.places.len()
    }

    /// Whether the face of that number can be loaded: its layout tables can be read, and it loads.
    pub open spec fn loads(self, face_id: u64) -> bool {
        let place = self.places[face_id as int];
        let bytes = self.files[place.file as int];
        layout_tables::load_fits(bytes, place.index as int) && font_database::font_loads(
            bytes,
            place.index,
        )
    }

    /// Whether a character can be looked up in the face of that number.
    pub open spec fn has_lookup(self, face_id: u64, ch: char) -> bool {
        let place = self.places[face_id as int];
        charmap::lookup_fits(self.files[place.file as int], place.index as int, ch)
    }

    /// The glyph of a character in the face of that number.
    pub open spec fn glyph(self, face_id: u64, ch: char) -> Option<u16> {
        let place = self.places[face_id as int];
        font_database::mapped_glyph(self.files[place.file as int], place.index, ch)
    }
}

/// Whether every listed font is loaded.
pub open spec fn all_loaded(ids: Seq<usize>, count: int) -> bool {
    forall|i: int| 0 <= i < ids.len() ==> (#[trigger] ids[i]) < count
}

/// Whether a face of the database has a number, and stands where its number says.
pub open spec fn entry_stands(
    files: Seq<Seq<u8>>,
    places: Seq<FacePlace>,
    ids: Seq<ID>,
    entry: FaceEntry,
) -> bool {
    let place = places[number_of(ids, entry.id)];
    &&& ids.contains(entry.id)
    &&& place.file < files.len()
    &&& entry.bytes == files[place.file as int]
    &&& entry.data.index == place.index
}

/// Finds the number of a key that was given out.
fn find_number(ids: &Vec<ID>, id: ID) -> (number: usize)
    requires
        ids@.contains(id),
    ensures
        number == number_of(ids@, id),
        number < ids@.len(),
{
    let mut at: usize = ids.len();
    assert(ids@.take(at as int) =~= ids@);
    while at > 0
        invariant
            at <= ids@.len(),
            ids@.take(at as int).contains(id),
            number_of(ids@, id) == number_of(ids@.take(at as int), id),
        decreases at,
    {
        let ghost head = ids@.take(at as int);
        assert(head.drop_last() =~= ids@.take(at - 1));
        at = at - 1;
        if font_database::same_key(&ids[at], &id) {
            return at;
        }
        proof {
            let k = choose|k: int| 0 <= k < head.len() && head[k] == id;
            assert(head.drop_last()[k] == id);
        }
    }
    assert(ids@.take(0).len() == 0);
    0
}

impl FontSystem {
    /// Whether the state is well formed, and the faces of the database stand in the files.
    pub open spec fn is_sound(self) -> bool {
        &&& self@.well_formed()
        &&& self.ids@.len() == self.places@.len()
        &&& forall|k: int|
            0 <= k < font_database::listed(self.database).len() ==> entry_stands(
                self@.files,
                self.places@,
                self.ids@,
                #[trigger] font_database::listed(self.database)[k],
            )
    }

    /// Whether the fonts are sound, and earlier answers name loaded fonts.
    pub open spec fn well_formed(self) -> bool {
        &&& self.is_sound()
        &&& self.cache.well_formed()
        &&& forall|i: int|
            0 <= i < self.cache.entries@.len() ==> all_loaded(
                (#[trigger] self.cache.entries@[i]).1@,
                self.book.fonts@.len() as int,
            )
    }

    /// Starts without files.
    pub fn new() -> (system: Self)
        ensures
            system.well_formed(),
            system@ == (FontState {
                files: Seq::empty(),
                places: Seq::empty(),
                faces: Seq::empty(),
                fonts: Seq::empty(),
            }),
            system.cache.entries@.len() == 0,
            font_database::never_dropped(system.database),
    {
        let system = FontSystem {
            files: Vec::new(),
            places: Vec::new(),
            ids: Vec::new(),
            database: font_database::new_database(),
            book: FontBook::new(),
            cache: FontFamilyCache::new(),
        };
        proof {
            assert(system@.files =~= Seq::empty());
            assert(system@.faces =~= Seq::empty());
            assert(system@.fonts =~= Seq::empty());
        }
        system
    }

    /// The faces that can still be loaded, under their numbers and in the order of the database.
    pub fn faces(&self) -> (faces: Vec<FaceInfo>)
        requires
            self.is_sound(),
        ensures
            record_list(faces@) == self@.faces,
            faces@.len() == self@.faces.len(),
    {
        let ghost entries = font_database::listed(self.database);
        let mut rest: Vec<ListedFace> = font_database::list_faces(&self.database);
        let ghost all = rest@;
        let mut faces: Vec<FaceInfo> = Vec::new();
        assert(rest@ =~= all.skip(0));
        while rest.len() > 0
            invariant
                self.is_sound(),
                entries == font_database::listed(self.database),
                all.len() == entries.len(),
                forall|k: int|
                    0 <= k < all.len() ==> (#[trigger] all[k]).id == entries[k].id
                        && all[k].data() == entries[k].data,
                faces@.len() <= all.len(),
                rest@ == all.skip(faces@.len() as int),
                forall|k: int|
                    0 <= k < faces@.len() ==> (FaceRecord {
                        face_id: (#[trigger] faces@[k]).face_id,
                        data: info_data(faces@[k]),
                    }) == self@.faces[k],
            decreases rest@.len(),
        {
            let ghost at = faces@.len() as int;
            let face: ListedFace = rest.remove(0);
            proof {
                assert(face == all[at]);
                assert(rest@ =~= all.skip(at + 1));
                assert(entry_stands(self@.files, self.places@, self.ids@, entries[at]));
            }
            let number: usize = find_number(&self.ids, face.id);
            let info = FaceInfo {
                face_id: number as u64,
                index: face.index,
                families: face.families,
                post_script_name: face.post_script_name,
                style: face.style,
                weight: face.weight,
                stretch: face.stretch,
            };
            assert(info_data(info) == entries[at].data);
            faces.push(info);
        }
        assert(record_list(faces@) =~= self@.faces);
        faces
    }

    /// Adds a font file: every face that it holds is listed.
    fn add_file(&mut self, bytes: Vec<u8>)
        requires
            old(self).is_sound(),
            font_file::offsets_fit(bytes@),
            old(self)@.faces.len() + font_file::faces_claimed(bytes@) < u32::MAX,
        ensures
            final(self).is_sound(),
            final(self)@.files == old(self)@.files.push(bytes@),
            final(self).places@ == old(self).places@ + places_for(
                old(self).files@.len() as int,
                seq![bytes@],
            ),
            grows(
                old(self)@.faces,
                old(self).places@.len() as int,
                font_database::parsed_faces(bytes@),
                final(self)@.faces,
            ),
            final(self)@.faces.len() <= old(self)@.faces.len() + font_file::faces_claimed(bytes@),
            font_database::never_dropped(old(self).database) ==> font_database::never_dropped(
                final(self).database,
            ) && final(self)@.faces == old(self)@.faces + new_records(
                old(self).places@.len() as int,
                font_database::parsed_faces(bytes@),
            ),
            final(self).book == old(self).book,
            final(self).cache == old(self).cache,
    {
        let ghost before = *self;
        let file: usize = self.files.len();
        let given: Vec<ID> = font_database::load_font(&mut self.database, &bytes);
        let ghost parsed = font_database::parsed_faces(bytes@);
        let ghost added = font_database::new_entries(bytes@, given@);
        let ghost database = self.database;
        let ghost entries = font_database::listed(database);
        let mut i: usize = 0;
        assert(self.ids@ =~= before.ids@ + given@.take(0));
        while i < given.len()
            invariant
                i <= given@.len(),
                given@.len() == parsed.len(),
                added == font_database::new_entries(bytes@, given@),
                parsed == font_database::parsed_faces(bytes@),
                self.database == database,
                entries == font_database::listed(database),
                forall|k: int| 0 <= k < added.len() ==> entries.contains(#[trigger] added[k]),
                self.files == before.files,
                self.book == before.book,
                self.cache == before.cache,
                self.ids@ == before.ids@ + given@.take(i as int),
                self.places@ == before.places@ + Seq::new(
                    i as nat,
                    |k: int| FacePlace { file, index: parsed[k].index },
                ),
                before.ids@.len() == before.places@.len(),
            decreases given@.len() - i,
        {
            let id: ID = given[i];
            proof {
                assert(entries.contains(added[i as int]));
                let k = choose|k: int| 0 <= k < entries.len() && entries[k] == added[i as int];
                assert(entries[k].id == id);
            }
            let index: u32 = match font_database::face_index(&self.database, id) {
                Some(index) => index,
                None => 0,
            };
            assert(index == parsed[i as int].index);
            self.ids.push(id);
            self.places.push(FacePlace { file, index });
            i = i + 1;
            assert(self.ids@ =~= before.ids@ + given@.take(i as int));
            assert(self.places@ =~= before.places@ + Seq::new(
                i as nat,
                |k: int| FacePlace { file, index: parsed[k].index },
            ));
        }
        self.files.push(bytes);
        let total: usize = self.ids.len();
        let count: usize = self.files.len();
        proof {
            assert(total == before.ids@.len() + given@.len());
            assert(count == file + 1);
            assert(given@.take(i as int) =~= given@);
            assert(self@.files =~= before@.files.push(bytes@));
            reveal_with_fuel(places_for, 2);
            assert(seq![bytes@].drop_last() =~= Seq::<Seq<u8>>::empty());
            assert(seq![bytes@].last() == bytes@);
            assert(self.places@ =~= before.places@ + places_for(file as int, seq![bytes@]));
            lemma_file_is_added(before, *self, bytes@, given@);
        }
    }
}

/// Whether a file was added: its faces have been loaded under the keys given.
pub open spec fn is_added(
    before: FontSystem,
    after: FontSystem,
    bytes: Seq<u8>,
    given: Seq<ID>,
) -> bool {
    &&& after@.files == before@.files.push(bytes)
    &&& after.ids@ == before.ids@ + given
    &&& after.places@ == before.places@ + places_for(before.files@.len() as int, seq![bytes])
    &&& after.book == before.book
    &&& given.len() == font_database::parsed_faces(bytes).len()
    &&& forall|i: int, j: int| 0 <= i < j < given.len() ==> #[trigger] given[i] != #[trigger] given[j]
    &&& font_database::gains(
        font_database::listed(before.database),
        given,
        font_database::new_entries(bytes, given),
        font_database::listed(after.database),
    )
}

proof fn lemma_new_entry(
    before: FontSystem,
    after: FontSystem,
    bytes: Seq<u8>,
    given: Seq<ID>,
    j: int,
)
    requires
        is_added(before, after, bytes, given),
        before.ids@.len() == before.places@.len(),
        before.ids@.len() + given.len() <= usize::MAX,
        before.files@.len() < usize::MAX,
        0 <= j < given.len(),
    ensures
        number_of(after.ids@, given[j]) == before.ids@.len() + j,
        entry_stands(
            after@.files,
            after.places@,
            after.ids@,
            font_database::new_entries(bytes, given)[j],
        ),
{
    let n = before.ids@.len() + j;
    assert(after.ids@[n] == given[j]);
    assert forall|k: int| n < k < after.ids@.len() implies after.ids@[k] != given[j] by {
        assert(after.ids@[k] == given[k - before.ids@.len()]);
    }
    lemma_number_is_last(after.ids@, given[j], n);
    reveal_with_fuel(places_for, 2);
    assert(seq![bytes].drop_last() =~= Seq::<Seq<u8>>::empty());
    assert(after.places@[n].file == before.files@.len());
    assert(after@.files[before.files@.len() as int] == bytes);
}

proof fn lemma_file_is_added(
    before: FontSystem,
    after: FontSystem,
    bytes: Seq<u8>,
    given: Seq<ID>,
)
    requires
        before.is_sound(),
        font_file::offsets_fit(bytes),
        is_added(before, after, bytes, given),
        before.ids@.len() + given.len() <= usize::MAX,
        before.files@.len() < usize::MAX,
    ensures
        after.is_sound(),
        grows(
            before@.faces,
            before.places@.len() as int,
            font_database::parsed_faces(bytes),
            after@.faces,
        ),
        font_database::listed(after.database) == font_database::listed(before.database)
            + font_database::new_entries(bytes, given) ==> after@.faces == before@.faces
            + new_records(before.places@.len() as int, font_database::parsed_faces(bytes)),
{
    let parsed = font_database::parsed_faces(bytes);
    let added = font_database::new_entries(bytes, given);
    let old_entries = font_database::listed(before.database);
    let entries = font_database::listed(after.database);
    let first = before.ids@.len() as int;
    font_database::lemma_kept_is_there(entries, given);
    assert forall|k: int| 0 <= k < old_entries.len() implies !given.contains(
        (#[trigger] old_entries[k]).id,
    ) && number_of(after.ids@, old_entries[k].id) == number_of(before.ids@, old_entries[k].id)
        && entry_stands(after@.files, after.places@, after.ids@, old_entries[k]) by {
        let entry = font_database::without(entries, given)[k];
        assert(entry_stands(before@.files, before.places@, before.ids@, old_entries[k]));
        lemma_old_number(before.ids@, given, entry.id);
        lemma_number_of(before.ids@, entry.id);
        let n = number_of(before.ids@, entry.id);
        assert(after.ids@[n] == entry.id);
        assert(after.places@[n] == before.places@[n]);
    }
    assert forall|j: int| 0 <= j < given.len() implies number_of(
        after.ids@,
        #[trigger] given[j],
    ) == first + j by {
        lemma_new_entry(before, after, bytes, given, j);
    }
    assert(after@.faces.len() == before@.faces.len() + parsed.len());
    assert forall|k: int| 0 <= k < entries.len() implies given.contains((#[trigger] entries[k]).id)
        || before.ids@.contains(entries[k].id) by {
        if !given.contains(entries[k].id) {
            assert(old_entries.contains(entries[k]));
            let j = choose|j: int| 0 <= j < old_entries.len() && old_entries[j] == entries[k];
            assert(entry_stands(before@.files, before.places@, before.ids@, old_entries[j]));
        }
    }
    lemma_new_numbers(entries, before.ids@, given);
    let fresh = new_records(first, parsed);
    assert forall|j: int| 0 <= j < parsed.len() implies after@.faces.contains(
        #[trigger] fresh[j],
    ) by {
        assert(entries.contains(added[j]));
        let k = choose|k: int| 0 <= k < entries.len() && entries[k] == added[j];
        assert(number_of(after.ids@, given[j]) == first + j);
        assert(after@.faces[k] == fresh[j]);
    }
    if entries == old_entries + added {
        assert forall|k: int| 0 <= k < entries.len() implies #[trigger] after@.faces[k] == (
        before@.faces + fresh)[k] by {
            if k < old_entries.len() {
                assert(entries[k] == old_entries[k]);
            } else {
                let j = k - old_entries.len();
                assert(entries[k] == added[j]);
                assert(number_of(after.ids@, given[j]) == first + j);
            }
        }
        assert(after@.faces =~= before@.faces + fresh);
    }
    lemma_added_is_sound(before, after, bytes, given);
}

proof fn lemma_added_is_sound(
    before: FontSystem,
    after: FontSystem,
    bytes: Seq<u8>,
    given: Seq<ID>,
)
    requires
        before.is_sound(),
        font_file::offsets_fit(bytes),
        is_added(before, after, bytes, given),
        before.ids@.len() + given.len() <= usize::MAX,
        before.files@.len() < usize::MAX,
        forall|k: int|
            0 <= k < font_database::listed(before.database).len() ==> entry_stands(
                after@.files,
                after.places@,
                after.ids@,
                #[trigger] font_database::listed(before.database)[k],
            ),
    ensures
        after.is_sound(),
{
    let old_entries = font_database::listed(before.database);
    let entries = font_database::listed(after.database);
    let added = font_database::new_entries(bytes, given);
    reveal_with_fuel(places_for, 2);
    assert(seq![bytes].drop_last() =~= Seq::<Seq<u8>>::empty());
    font_database::lemma_kept_is_there(entries, given);
    assert forall|k: int| 0 <= k < entries.len() implies entry_stands(
        after@.files,
        after.places@,
        after.ids@,
        #[trigger] entries[k],
    ) by {
        if given.contains(entries[k].id) {
            assert(added.contains(entries[k]));
            let j = choose|j: int| 0 <= j < added.len() && added[j] == entries[k];
            lemma_new_entry(before, after, bytes, given, j);
        } else {
            assert(old_entries.contains(entries[k]));
            let j = choose|j: int| 0 <= j < old_entries.len() && old_entries[j] == entries[k];
            assert(old_entries[j] == entries[k]);
        }
    }
    assert forall|i: int| 0 <= i < after@.files.len() implies font_file::offsets_fit(
        #[trigger] after@.files[i],
    ) by {
        if i < before@.files.len() {
            assert(after@.files[i] == before@.files[i]);
        }
    }
    assert forall|i: int| 0 <= i < after@.places.len() implies (
    #[trigger] after@.places[i]).file < after@.files.len() by {
        if i < before.places@.len() {
            assert(after@.places[i] == before@.places[i]);
        }
    }
    assert forall|k: int| 0 <= k < after@.faces.len() implies (#[trigger] after@.faces[k]).face_id
        < after@.places.len() by {
        assert(entry_stands(after@.files, after.places@, after.ids@, entries[k]));
        lemma_number_of(after.ids@, entries[k].id);
    }
    assert forall|k: int| 0 <= k < after@.fonts.len() implies (#[trigger] after@.fonts[k]).face_id
        < after@.places.len() by {
        assert(after@.fonts[k] == before@.fonts[k]);
    }
}

proof fn lemma_below_all(faces: Seq<FaceRecord>, bound: int)
    requires
        forall|k: int| 0 <= k < faces.len() ==> (#[trigger] faces[k]).face_id < bound,
    ensures
        below(faces, bound) == faces,
    decreases faces.len(),
{
    if faces.len() > 0 {
        assert forall|k: int| 0 <= k < faces.drop_last().len() implies (
        #[trigger] faces.drop_last()[k]).face_id < bound by {
            assert(faces.drop_last()[k] == faces[k]);
        }
        lemma_below_all(faces.drop_last(), bound);
        assert(faces.last() == faces[faces.len() - 1]);
        assert(faces.drop_last().push(faces.last()) =~= faces);
    }
}

/// Every face in files has a place.
proof fn lemma_every_face_has_a_place(first_file: int, files: Seq<Seq<u8>>)
    ensures
        places_for(first_file, files).len() == faces_for(files).len(),
    decreases files.len(),
{
    if files.len() > 0 {
        lemma_every_face_has_a_place(first_file, files.drop_last());
    }
}

proof fn lemma_places_of_one_more(first_file: int, files: Seq<Seq<u8>>, bytes: Seq<u8>)
    ensures
        places_for(first_file, files.push(bytes)) == places_for(first_file, files) + places_for(
            first_file + files.len(),
            seq![bytes],
        ),
        faces_for(files.push(bytes)) == faces_for(files) + font_database::parsed_faces(bytes),
{
    let longer = files.push(bytes);
    assert(longer.drop_last() =~= files);
    reveal_with_fuel(places_for, 2);
    assert(seq![bytes].drop_last() =~= Seq::<Seq<u8>>::empty());
    assert(places_for(first_file, longer) =~= places_for(first_file, files) + places_for(
        first_file + files.len(),
        seq![bytes],
    ));
}

impl FontSystem {
    /// Adds font files: every face that they hold is listed.
    pub fn add_fonts(&mut self, fonts: Vec<Vec<u8>>)
        requires
            old(self).well_formed(),
            old(self)@.faces.len() + face_room(whole_files(file_list(fonts@))) < u32::MAX,
        ensures
            final(self).well_formed(),
            final(self)@.files == old(self)@.files + whole_files(file_list(fonts@)),
            final(self).places@ == old(self).places@ + places_for(
                old(self).files@.len() as int,
                whole_files(file_list(fonts@)),
            ),
            grows(
                old(self)@.faces,
                old(self).places@.len() as int,
                faces_for(whole_files(file_list(fonts@))),
                final(self)@.faces,
            ),
            font_database::never_dropped(old(self).database) ==> font_database::never_dropped(
                final(self).database,
            ) && final(self)@.faces == old(self)@.faces + new_records(
                old(self).places@.len() as int,
                faces_for(whole_files(file_list(fonts@))),
            ),
            final(self).book == old(self).book,
            final(self).cache == old(self).cache,
    {
        let ghost all = file_list(fonts@);
        let ghost before = *self;
        let ghost first_file = self.files@.len() as int;
        let ghost first = self.places@.len() as int;
        let mut rest: Vec<Vec<u8>> = fonts;
        let ghost mut done: int = 0;
        let ghost mut added: Seq<Seq<u8>> = Seq::empty();
        proof {
            assert(self@.files =~= before@.files + added);
            assert(self.places@ =~= before.places@ + places_for(first_file, added));
            assert(faces_for(added) =~= Seq::empty());
            lemma_below_all(before@.faces, first);
            assert(self@.faces =~= before@.faces + new_records(first, faces_for(added)));
        }
        while rest.len() > 0
            invariant
                0 <= done <= all.len(),
                all == file_list(fonts@),
                before == *old(self),
                rest@ == fonts@.skip(done),
                added == whole_files(all.take(done)),
                first_file == before.files@.len(),
                first == before.places@.len(),
                before@.faces.len() + face_room(whole_files(all)) < u32::MAX,
                self@.faces.len() <= before@.faces.len() + face_room(added),
                self@.files == before@.files + added,
                self.files@.len() == first_file + added.len(),
                self.places@ == before.places@ + places_for(first_file, added),
                grows(before@.faces, first, faces_for(added), self@.faces),
                font_database::never_dropped(before.database) ==> font_database::never_dropped(
                    self.database,
                ) && self@.faces == before@.faces + new_records(first, faces_for(added)),
                self.book == before.book,
                self.cache == before.cache,
                self.well_formed(),
            decreases rest@.len(),
        {
            let bytes: Vec<u8> = rest.remove(0);
            let ghost state = *self;
            let ghost shorter = added;
            proof {
                let longer = all.take(done + 1);
                assert(longer.drop_last() =~= all.take(done));
                assert(longer.last() == bytes@);
                assert(rest@ =~= fonts@.skip(done + 1));
                lemma_room_grows(all, done + 1);
                done = done + 1;
            }
            if font_file::check_offsets(&bytes) {
                let ghost data = bytes@;
                assert(shorter.push(data).drop_last() =~= shorter);
                self.add_file(bytes);
                proof {
                    added = shorter.push(data);
                    let parsed = font_database::parsed_faces(data);
                    lemma_places_of_one_more(first_file, shorter, data);
                    lemma_every_face_has_a_place(first_file, shorter);
                    let next = first + faces_for(shorter).len();
                    assert(state.places@.len() == next);
                    assert(self@.files =~= before@.files + added);
                    assert(self.places@ =~= before.places@ + places_for(first_file, added));
                    lemma_grows_twice(
                        before@.faces,
                        first,
                        faces_for(shorter),
                        state@.faces,
                        parsed,
                        self@.faces,
                    );
                    assert(new_records(first, faces_for(added)) =~= new_records(
                        first,
                        faces_for(shorter),
                    ) + new_records(next, parsed));
                    assert(before@.faces + new_records(first, faces_for(added)) =~= before@.faces
                        + new_records(first, faces_for(shorter)) + new_records(next, parsed));
                }
            }
        }
        assert(all.take(done) =~= all);
    }
}

proof fn lemma_room_grows(files: Seq<Seq<u8>>, count: int)
    requires
        0 <= count <= files.len(),
    ensures
        face_room(whole_files(files.take(count))) <= face_room(whole_files(files)),
    decreases files.len() - count,
{
    if count < files.len() {
        let shorter = files.take(count);
        let longer = files.take(count + 1);
        assert(longer.drop_last() =~= shorter);
        assert(whole_files(shorter).push(longer.last()).drop_last() =~= whole_files(shorter));
        lemma_room_grows(files, count + 1);
    } else {
        assert(files.take(count) =~= files);
    }
}

/// The faces whose numbers are not among those left out.
pub open spec fn kept_faces(faces: Seq<FaceRecord>, left_out: Seq<u64>) -> Seq<FaceRecord>
    decreases faces.len(),
{
    if faces.len() == 0 {
        Seq::empty()
    } else {
        let rest = kept_faces(faces.drop_last(), left_out);
        if left_out.contains(faces.last().face_id) {
            rest
        } else {
            rest.push(faces.last())
        }
    }
}

/// How the first listed face of that number looks.
pub open spec fn traits_of(faces: Seq<FaceRecord>, face_id: u64) -> Option<FaceTraits>
    decreases faces.len(),
{
    if faces.len() == 0 {
        None
    } else if faces[0].face_id == face_id {
        Some(
            FaceTraits {
                style: faces[0].data.style,
                weight: faces[0].data.weight,
                stretch: faces[0].data.stretch,
            },
        )
    } else {
        traits_of(faces.skip(1), face_id)
    }
}

impl FontState {
    /// What is reported of a face that is to be loaded.
    pub open spec fn report(self, face: FaceRecord) -> ReportData {
        ReportData {
            face_id: face.face_id,
            post_script_name: face.data.post_script_name,
            loads: self.loads(face.face_id) && self.has_lookup(face.face_id, 'm'),
            has_basic_letters: !self.has_lookup(face.face_id, 'm') || self.glyph(face.face_id, 'm')
                != Some(0u16),
        }
    }

    /// The families of each listed face.
    pub open spec fn family_names(self) -> Seq<Seq<Seq<char>>> {
        self.faces.map_values(|face: FaceRecord| face.data.families)
    }

    /// What is reported of the faces that stand for a family.
    pub open spec fn family_reports(self, name: Seq<char>) -> Seq<ReportData> {
        fonts::family_faces(self.family_names(), name).map_values(
            |k: usize| self.report(self.faces[k as int]),
        )
    }

    /// The state after a family has been loaded: fonts were added, and faces without basic letters
    /// are not listed any more.
    pub open spec fn after_family(self, name: Seq<char>, features_valid: bool) -> FontState {
        let good = font_book::good_reports(self.family_reports(name), features_valid);
        FontState {
            faces: kept_faces(self.faces, font_book::faces_left_out(good)),
            fonts: self.fonts + font_book::fonts_from(good),
            ..self
        }
    }

    /// The fonts that loading a family gives.
    pub open spec fn family_result(self, name: Seq<char>, features_valid: bool) -> Result<
        Seq<usize>,
        FontError,
    > {
        font_book::load_result(self.fonts.len() as int, self.family_reports(name), features_valid)
    }

    /// Takes any font: the first that was ever loaded, or else the first listed face.
    pub open spec fn any_font(self) -> (FontState, Seq<usize>) {
        if self.fonts.len() > 0 {
            (self, seq![0usize])
        } else if self.faces.len() > 0 && self.loads(self.faces[0].face_id) {
            let font = LoadedFont {
                face_id: self.faces[0].face_id,
                takes_features: false,
                is_known_emoji_font: false,
            };
            (FontState { fonts: self.fonts.push(font), ..self }, seq![0usize])
        } else {
            (self, Seq::empty())
        }
    }

    /// Takes the fonts of the first of two families that has any, or else any font.
    pub open spec fn fallback(self, first: Seq<char>, second: Seq<char>, features_valid: bool) -> (
        FontState,
        Result<Seq<usize>, FontError>,
    ) {
        let after_first = self.after_family(first, features_valid);
        let after_second = after_first.after_family(second, features_valid);
        match self.family_result(first, features_valid) {
            Err(error) => (after_first, Err(error)),
            Ok(ids) => if ids.len() > 0 {
                (after_first, Ok(ids))
            } else {
                match after_first.family_result(second, features_valid) {
                    Err(error) => (after_second, Err(error)),
                    Ok(more) => if more.len() > 0 {
                        (after_second, Ok(more))
                    } else {
                        (after_second.any_font().0, Ok(after_second.any_font().1))
                    },
                }
            },
        }
    }

    /// The fonts for a request: those kept from an earlier one, or else those of the family; where
    /// these are none, those that stand in for it.
    pub open spec fn candidates(
        self,
        kept: Option<Seq<usize>>,
        name: Seq<char>,
        features_valid: bool,
    ) -> (FontState, Result<Seq<usize>, FontError>) {
        let (state, found) = match kept {
            Some(ids) => (self, Ok(ids)),
            None => (
                self.after_family(name, features_valid),
                self.family_result(name, features_valid),
            ),
        };
        match found {
            Err(error) => (state, Err(error)),
            Ok(ids) => if ids.len() > 0 {
                (state, Ok(ids))
            } else {
                state.fallback("Roboto"@, "DroidSans"@, features_valid)
            },
        }
    }

    /// How the faces of fonts look, where they are still listed.
    pub open spec fn looks(self, ids: Seq<usize>) -> Seq<Option<FaceTraits>> {
        ids.map_values(|id: usize| traits_of(self.faces, self.fonts[id as int].face_id))
    }
}

proof fn lemma_kept_faces_are_listed(faces: Seq<FaceRecord>, left_out: Seq<u64>, bound: int)
    requires
        forall|k: int| 0 <= k < faces.len() ==> (#[trigger] faces[k]).face_id < bound,
    ensures
        forall|k: int|
            0 <= k < kept_faces(faces, left_out).len() ==> (#[trigger] kept_faces(
                faces,
                left_out,
            )[k]).face_id < bound,
        kept_faces(faces, left_out).len() <= faces.len(),
    decreases faces.len(),
{
    if faces.len() > 0 {
        lemma_kept_faces_are_listed(faces.drop_last(), left_out, bound);
    }
}

proof fn lemma_fonts_from_are_reported(reports: Seq<ReportData>, bound: int)
    requires
        forall|k: int| 0 <= k < reports.len() ==> (#[trigger] reports[k]).face_id < bound,
    ensures
        forall|k: int|
            0 <= k < font_book::fonts_from(reports).len() ==> (#[trigger] font_book::fonts_from(
                reports,
            )[k]).face_id < bound,
        font_book::fonts_from(reports).len() <= reports.len(),
    decreases reports.len(),
{
    if reports.len() > 0 {
        lemma_fonts_from_are_reported(reports.drop_last(), bound);
    }
}

/// Whether a number is that of a reported face.
pub open spec fn is_reported(reports: Seq<ReportData>, number: u64) -> bool {
    exists|j: int| 0 <= j < reports.len() && (#[trigger] reports[j]).face_id == number
}

proof fn lemma_left_out_are_reported(reports: Seq<ReportData>)
    ensures
        forall|k: int|
            0 <= k < font_book::faces_left_out(reports).len() ==> is_reported(
                reports,
                #[trigger] font_book::faces_left_out(reports)[k],
            ),
    decreases reports.len(),
{
    if reports.len() > 0 {
        let shorter = reports.drop_last();
        let rest = font_book::faces_left_out(shorter);
        lemma_left_out_are_reported(shorter);
        assert forall|k: int| 0 <= k < font_book::faces_left_out(reports).len() implies is_reported(
            reports,
            #[trigger] font_book::faces_left_out(reports)[k],
        ) by {
            let number = font_book::faces_left_out(reports)[k];
            if k < rest.len() {
                assert(number == rest[k]);
                let j = choose|j: int| 0 <= j < shorter.len() && (#[trigger] shorter[j]).face_id
                    == number;
                assert(reports[j].face_id == number);
            } else {
                assert(reports[reports.len() - 1].face_id == number);
            }
        }
    }
}

proof fn lemma_good_count_is_bounded(reports: Seq<ReportData>, features_valid: bool)
    ensures
        font_book::good_count(reports, features_valid) <= reports.len(),
    decreases reports.len(),
{
    if reports.len() > 0 {
        lemma_good_count_is_bounded(reports.drop_last(), features_valid);
    }
}

/// Loading a family keeps the state well formed, only adds fonts, and gives fonts that are loaded.
pub proof fn loading_a_family_only_adds_fonts(
    state: FontState,
    name: Seq<char>,
    features_valid: bool,
)
    requires
        state.well_formed(),
        state.faces.len() <= usize::MAX,
        state.fonts.len() + state.faces.len() <= usize::MAX,
    ensures
        ({
            let after = state.after_family(name, features_valid);
            &&& after.well_formed()
            &&& after.faces.len() <= state.faces.len()
            &&& state.fonts.len() <= after.fonts.len() <= state.fonts.len() + state.faces.len()
            &&& after.fonts.take(state.fonts.len() as int) == state.fonts
            &&& state.family_result(name, features_valid) is Ok ==> all_loaded(
                state.family_result(name, features_valid)->Ok_0,
                after.fonts.len() as int,
            )
        }),
{
    let after = state.after_family(name, features_valid);
    let reports = state.family_reports(name);
    let good = font_book::good_reports(reports, features_valid);
    let bound = state.places.len() as int;
    fonts::lemma_family_faces_are_listed(state.family_names(), name);
    lemma_good_count_is_bounded(reports, features_valid);
    assert forall|k: int| 0 <= k < good.len() implies (#[trigger] good[k]).face_id < bound by {
        let place = fonts::family_faces(state.family_names(), name)[k];
        assert(good[k] == state.report(state.faces[place as int]));
    }
    lemma_fonts_from_are_reported(good, bound);
    lemma_kept_faces_are_listed(state.faces, font_book::faces_left_out(good), bound);
    assert(after.fonts.take(state.fonts.len() as int) =~= state.fonts);
    assert forall|k: int| 0 <= k < after.fonts.len() implies (#[trigger] after.fonts[k]).face_id
        < bound by {
        if k < state.fonts.len() {
            assert(after.fonts[k] == state.fonts[k]);
        } else {
            assert(after.fonts[k] == font_book::fonts_from(good)[k - state.fonts.len()]);
        }
    }
    if state.family_result(name, features_valid) is Ok {
        assert(good =~= reports);
    }
}

/// Whether a number is that of a listed face.
pub open spec fn lists_number(faces: Seq<FaceRecord>, number: u64) -> bool {
    exists|k: int| 0 <= k < faces.len() && (#[trigger] faces[k]).face_id == number
}

proof fn lemma_kept_twice(faces: Seq<FaceRecord>, left_out: Seq<u64>, number: u64)
    ensures
        kept_faces(kept_faces(faces, left_out), seq![number]) == kept_faces(
            faces,
            left_out.push(number),
        ),
    decreases faces.len(),
{
    if faces.len() > 0 {
        lemma_kept_twice(faces.drop_last(), left_out, number);
        let rest = kept_faces(faces.drop_last(), left_out);
        let id = faces.last().face_id;
        let longer = left_out.push(number);
        assert(seq![number].contains(id) <==> id == number) by {
            assert(seq![number][0] == number);
        }
        assert(longer.contains(id) <==> left_out.contains(id) || id == number) by {
            if left_out.contains(id) {
                let k = choose|k: int| 0 <= k < left_out.len() && left_out[k] == id;
                assert(longer[k] == id);
            }
            if id == number {
                assert(longer[left_out.len() as int] == id);
            }
        }
        if !left_out.contains(id) {
            assert(rest.push(faces.last()).drop_last() =~= rest);
        }
    }
}

proof fn lemma_kept_all(faces: Seq<FaceRecord>)
    ensures
        kept_faces(faces, Seq::empty()) == faces,
    decreases faces.len(),
{
    if faces.len() > 0 {
        lemma_kept_all(faces.drop_last());
        assert(faces.drop_last().push(faces.last()) =~= faces);
    }
}

/// Dropping the key of a number drops the face of that number and no other.
proof fn lemma_face_is_dropped(entries: Seq<FaceEntry>, ids: Seq<ID>, number: u64)
    requires
        forall|k: int| 0 <= k < entries.len() ==> ids.contains((#[trigger] entries[k]).id),
        number < ids.len() <= u64::MAX,
        number_of(ids, ids[number as int]) == number,
    ensures
        numbered(font_database::without(entries, seq![ids[number as int]]), ids) == kept_faces(
            numbered(entries, ids),
            seq![number],
        ),
    decreases entries.len(),
{
    let id = ids[number as int];
    let all = numbered(entries, ids);
    if entries.len() > 0 {
        let shorter = entries.drop_last();
        let entry = entries.last();
        assert forall|k: int| 0 <= k < shorter.len() implies ids.contains(
            (#[trigger] shorter[k]).id,
        ) by {
            assert(shorter[k] == entries[k]);
        }
        lemma_face_is_dropped(shorter, ids, number);
        assert(all.drop_last() =~= numbered(shorter, ids));
        assert(entry == entries[entries.len() - 1]);
        lemma_number_of(ids, entry.id);
        assert(seq![id].contains(entry.id) <==> entry.id == id) by {
            assert(seq![id][0] == id);
        }
        assert(seq![number].contains(all.last().face_id) <==> all.last().face_id == number) by {
            assert(seq![number][0] == number);
        }
        let rest = font_database::without(shorter, seq![id]);
        assert(numbered(rest.push(entry), ids) =~= numbered(rest, ids).push(all.last()));
    } else {
        assert(numbered(font_database::without(entries, seq![id]), ids) =~= kept_faces(
            all,
            seq![number],
        ));
    }
}

proof fn lemma_dropping_shrinks(faces: Seq<FaceRecord>, left_out: Seq<u64>)
    requires
        left_out.len() > 0,
        lists_number(faces, left_out[0]),
    ensures
        kept_faces(faces, left_out).len() < faces.len(),
    decreases faces.len(),
{
    let shorter = faces.drop_last();
    lemma_kept_shrinks(shorter, left_out);
    assert(left_out.contains(left_out[0]));
    if faces.last().face_id != left_out[0] {
        let k = choose|k: int| 0 <= k < faces.len() && (#[trigger] faces[k]).face_id
            == left_out[0];
        assert(shorter[k].face_id == left_out[0]);
        lemma_dropping_shrinks(shorter, left_out);
    }
}

proof fn lemma_kept_shrinks(faces: Seq<FaceRecord>, left_out: Seq<u64>)
    ensures
        kept_faces(faces, left_out).len() <= faces.len(),
    decreases faces.len(),
{
    if faces.len() > 0 {
        lemma_kept_shrinks(faces.drop_last(), left_out);
    }
}

impl FontSystem {
    /// Tests whether a character can be looked up in a face.
    fn face_has_lookup(&self, face_id: u64, ch: char) -> (has: bool)
        requires
            self@.well_formed(),
            face_id < self.places@.len(),
        ensures
            has == self@.has_lookup(face_id, ch),
    {
        let total: usize = self.places.len();
        assert(face_id < total);
        let place: FacePlace = self.places[face_id as usize];
        assert(self@.places[face_id as int].file < self@.files.len());
        charmap::check_lookup(&self.files[place.file], place.index, ch)
    }

    /// Looks up the glyph of a character in a face.
    fn face_glyph(&self, face_id: u64, ch: char) -> (glyph: Option<u16>)
        requires
            self@.well_formed(),
            face_id < self.places@.len(),
            self@.has_lookup(face_id, ch),
        ensures
            glyph == self@.glyph(face_id, ch),
    {
        let total: usize = self.places.len();
        assert(face_id < total);
        let place: FacePlace = self.places[face_id as usize];
        assert(self@.places[face_id as int].file < self@.files.len());
        assert(font_file::offsets_fit(self@.files[place.file as int]));
        font_database::map_char(&self.files[place.file], place.index, ch)
    }

    /// The key of the face of a number, if the number is listed.
    proof fn lemma_listed_key(self, face_id: u64) -> (k: int)
        requires
            self.is_sound(),
            self.ids@.len() <= usize::MAX,
            lists_number(self@.faces, face_id),
        ensures
            0 <= k < font_database::listed(self.database).len(),
            face_id < self.ids@.len(),
            font_database::listed(self.database)[k].id == self.ids@[face_id as int],
            number_of(self.ids@, self.ids@[face_id as int]) == face_id,
    {
        let entries = font_database::listed(self.database);
        let k = choose|k: int| 0 <= k < self@.faces.len() && (#[trigger] self@.faces[k]).face_id
            == face_id;
        assert(entry_stands(self@.files, self.places@, self.ids@, entries[k]));
        lemma_number_of(self.ids@, entries[k].id);
        k
    }

    /// Tests whether a listed face can be loaded.
    fn face_loads(&self, face_id: u64) -> (loads: bool)
        requires
            self.is_sound(),
            lists_number(self@.faces, face_id),
        ensures
            loads == self@.loads(face_id),
    {
        let total: usize = self.ids.len();
        proof {
            let k = self.lemma_listed_key(face_id);
            assert(entry_stands(
                self@.files,
                self.places@,
                self.ids@,
                font_database::listed(self.database)[k],
            ));
        }
        assert(face_id < total);
        let place: FacePlace = self.places[face_id as usize];
        assert(self@.places[face_id as int].file < self@.files.len());
        if !layout_tables::check_load(&self.files[place.file], place.index) {
            return false;
        }
        proof {
            let entries = font_database::listed(self.database);
            assert forall|j: int| 0 <= j < entries.len() && (#[trigger] entries[j]).id
                == self.ids@[face_id as int] implies layout_tables::load_fits(
                entries[j].bytes,
                entries[j].data.index as int,
            ) by {
                assert(entry_stands(self@.files, self.places@, self.ids@, entries[j]));
            }
        }
        font_database::opens(&self.database, self.ids[face_id as usize])
    }

    /// Stops listing faces.
    fn remove_faces(&mut self, left_out: &Vec<u64>)
        requires
            old(self).is_sound(),
            forall|i: int|
                0 <= i < left_out@.len() ==> lists_number(
                    old(self)@.faces,
                    #[trigger] left_out@[i],
                ),
        ensures
            final(self).is_sound(),
            final(self)@ == (FontState {
                faces: kept_faces(old(self)@.faces, left_out@),
                ..old(self)@
            }),
            left_out@.len() == 0 ==> final(self).database == old(self).database,
            final(self).ids == old(self).ids,
            final(self).book == old(self).book,
            final(self).cache == old(self).cache,
    {
        let ghost before = *self;
        let total: usize = self.ids.len();
        let mut i: usize = 0;
        proof {
            assert(left_out@.take(0) =~= Seq::empty());
            lemma_kept_all(before@.faces);
        }
        while i < left_out.len()
            invariant
                i <= left_out@.len(),
                before == *old(self),
                before.is_sound(),
                forall|k: int|
                    0 <= k < left_out@.len() ==> lists_number(
                        before@.faces,
                        #[trigger] left_out@[k],
                    ),
                total == self.ids@.len(),
                i == 0 ==> self.database == before.database,
                self.is_sound(),
                self@.faces == kept_faces(before@.faces, left_out@.take(i as int)),
                self.ids == before.ids,
                self.files == before.files,
                self.places == before.places,
                self.book == before.book,
                self.cache == before.cache,
            decreases left_out@.len() - i,
        {
            let number: u64 = left_out[i];
            let ghost state = *self;
            let ghost entries = font_database::listed(self.database);
            proof {
                assert(lists_number(before@.faces, left_out@[i as int]));
                before.lemma_listed_key(number);
                assert(number < total);
            }
            let id: ID = self.ids[number as usize];
            font_database::remove_face(&mut self.database, id);
            proof {
                let kept = font_database::listed(self.database);
                assert forall|k: int| 0 <= k < entries.len() implies state.ids@.contains(
                    (#[trigger] entries[k]).id,
                ) by {
                    assert(entry_stands(state@.files, state.places@, state.ids@, entries[k]));
                }
                lemma_face_is_dropped(entries, state.ids@, number);
                lemma_kept_twice(before@.faces, left_out@.take(i as int), number);
                assert(left_out@.take(i as int + 1) =~= left_out@.take(i as int).push(number));
                font_database::lemma_kept_is_there(entries, seq![id]);
                assert forall|k: int| 0 <= k < kept.len() implies entry_stands(
                    self@.files,
                    self.places@,
                    self.ids@,
                    #[trigger] kept[k],
                ) by {
                    assert(entries.contains(kept[k]));
                    let j = choose|j: int| 0 <= j < entries.len() && entries[j] == kept[k];
                    assert(entry_stands(state@.files, state.places@, state.ids@, entries[j]));
                }
                assert forall|k: int| 0 <= k < self@.faces.len() implies (
                #[trigger] self@.faces[k]).face_id < self@.places.len() by {
                    assert(entry_stands(self@.files, self.places@, self.ids@, kept[k]));
                    lemma_number_of(self.ids@, kept[k].id);
                }
                assert(self@.files == state@.files);
                assert(self@.fonts == state@.fonts);
            }
            i = i + 1;
        }
        assert(left_out@.take(i as int) =~= left_out@);
    }

    /// Loads the fonts of a family. Faces that cannot render basic letters are left out and not
    /// listed any more.
    pub fn load_family(&mut self, name: &str, features: &Vec<(String, u32)>) -> (ids: Result<
        FontIdList,
        FontError,
    >)
        requires
            old(self).is_sound(),
            old(self).book.fonts@.len() + old(self)@.faces.len() <= usize::MAX,
        ensures
            final(self).is_sound(),
            final(self)@ == old(self)@.after_family(name@, fonts::features_valid(features@)),
            final(self)@.faces.len() == old(self)@.faces.len() ==> final(self).database == old(
                self,
            ).database,
            final(self).cache == old(self).cache,
            match ids {
                Ok(list) => old(self)@.family_result(name@, fonts::features_valid(features@)) == Ok::<
                    Seq<usize>,
                    FontError,
                >(list@),
                Err(error) => old(self)@.family_result(name@, fonts::features_valid(features@))
                    == Err::<Seq<usize>, FontError>(error),
            },
    {
        let ghost state = self@;
        let faces: Vec<FaceInfo> = self.faces();
        let chosen: Vec<usize> = find_family(&faces, name);
        let listed: usize = faces.len();
        proof {
            assert(fonts::family_lists(faces@) =~= state.family_names()) by {
                assert forall|k: int| 0 <= k < faces@.len() implies fonts::family_lists(faces@)[k]
                    == #[trigger] state.family_names()[k] by {
                    assert(record_list(faces@)[k] == state.faces[k]);
                }
            }
            fonts::lemma_family_faces_are_listed(state.family_names(), name@);
            loading_a_family_only_adds_fonts(
                state,
                name@,
                fonts::features_valid(features@),
            );
        }
        let mut reports: Vec<FaceReport> = Vec::new();
        let mut i: usize = 0;
        while i < chosen.len()
            invariant
                i <= chosen@.len(),
                state == self@,
                self.is_sound(),
                *self == *old(self),
                listed == faces@.len(),
                listed == state.faces.len(),
                record_list(faces@) == state.faces,
                chosen@ == fonts::family_faces(state.family_names(), name@),
                chosen@.len() <= listed,
                forall|k: int| 0 <= k < chosen@.len() ==> (#[trigger] chosen@[k]) < listed,
                reports@.len() == i,
                forall|k: int|
                    0 <= k < i ==> (#[trigger] reports@[k])@ == state.report(
                        state.faces[chosen@[k] as int],
                    ),
            decreases chosen@.len() - i,
        {
            let face: &FaceInfo = &faces[chosen[i]];
            let ghost record = state.faces[chosen@[i as int] as int];
            assert(record_list(faces@)[chosen@[i as int] as int] == record);
            assert(lists_number(state.faces, record.face_id));
            let has_lookup: bool = self.face_has_lookup(face.face_id, 'm');
            let loads: bool = has_lookup && self.face_loads(face.face_id);
            let has_basic_letters: bool = if has_lookup {
                match self.face_glyph(face.face_id, 'm') {
                    Some(id) => id != 0,
                    None => true,
                }
            } else {
                true
            };
            let report = FaceReport {
                face_id: face.face_id,
                post_script_name: face.post_script_name.clone(),
                loads,
                has_basic_letters,
            };
            assert(report@ == state.report(record));
            reports.push(report);
            i = i + 1;
        }
        assert(font_book::report_list(reports@) =~= state.family_reports(name@));
        let (outcome, left_out) = self.book.load_faces(&reports, features);
        proof {
            let data = font_book::report_list(reports@);
            let good = font_book::good_reports(data, fonts::features_valid(features@));
            lemma_good_count_is_bounded(data, fonts::features_valid(features@));
            lemma_left_out_are_reported(good);
            assert forall|k: int| 0 <= k < left_out@.len() implies lists_number(
                state.faces,
                #[trigger] left_out@[k],
            ) by {
                assert(is_reported(good, left_out@[k]));
                let j = choose|j: int| 0 <= j < good.len() && (#[trigger] good[j]).face_id
                    == left_out@[k];
                assert(good[j] == reports@[j]@);
                assert(state.faces[chosen@[j] as int].face_id == left_out@[k]);
            }
            let after = state.after_family(name@, fonts::features_valid(features@));
            assert(self@.fonts == after.fonts);
            assert forall|k: int| 0 <= k < self@.fonts.len() implies (
            #[trigger] self@.fonts[k]).face_id < self@.places.len() by {
                assert(after.fonts[k].face_id < after.places.len());
            }
            if left_out@.len() > 0 {
                lemma_dropping_shrinks(state.faces, left_out@);
            }
        }
        self.remove_faces(&left_out);
        outcome
    }

    /// Takes any font: the first that was ever loaded, or else the first listed face.
    fn any_font(&mut self) -> (ids: FontIdList)
        requires
            old(self).is_sound(),
        ensures
            final(self).is_sound(),
            final(self)@ == old(self)@.any_font().0,
            ids@ == old(self)@.any_font().1,
            final(self).cache == old(self).cache,
    {
        let ghost state = self@;
        let mut ids = FontIdList::new();
        if self.book.fonts.len() > 0 {
            ids.push(0);
            assert(ids@ =~= seq![0usize]);
            return ids;
        }
        let faces: Vec<FaceInfo> = self.faces();
        if faces.len() > 0 {
            let face_id: u64 = faces[0].face_id;
            assert(record_list(faces@)[0] == state.faces[0]);
            assert(lists_number(state.faces, face_id));
            assert(state.faces[0].face_id < state.places.len());
            if self.face_loads(face_id) {
                self.book.fonts.push(
                    LoadedFont { face_id, takes_features: false, is_known_emoji_font: false },
                );
                ids.push(0);
                assert(ids@ =~= seq![0usize]);
                return ids;
            }
        }
        ids
    }

    /// Takes the fonts of the standard families, or else any font.
    pub fn load_fallback_fonts(&mut self, features: &Vec<(String, u32)>) -> (ids: Result<
        FontIdList,
        FontError,
    >)
        requires
            old(self).is_sound(),
            old(self).book.fonts@.len() + 2 * old(self)@.faces.len() <= usize::MAX,
        ensures
            final(self).is_sound(),
            final(self)@ == old(self)@.fallback(
                "Roboto"@,
                "DroidSans"@,
                fonts::features_valid(features@),
            ).0,
            final(self).cache == old(self).cache,
            match ids {
                Ok(list) => old(self)@.fallback(
                    "Roboto"@,
                    "DroidSans"@,
                    fonts::features_valid(features@),
                ).1 == Ok::<Seq<usize>, FontError>(list@),
                Err(error) => old(self)@.fallback(
                    "Roboto"@,
                    "DroidSans"@,
                    fonts::features_valid(features@),
                ).1 == Err::<Seq<usize>, FontError>(error),
            },
    {
        proof {
            let valid = fonts::features_valid(features@);
            loading_a_family_only_adds_fonts(self@, "Roboto"@, valid);
            let after = self@.after_family("Roboto"@, valid);
            loading_a_family_only_adds_fonts(after, "DroidSans"@, valid);
        }
        let first: FontIdList = match self.load_family("Roboto", features) {
            Ok(ids) => ids,
            Err(error) => {
                return Err(error);
            },
        };
        if first.as_slice().len() > 0 {
            return Ok(first);
        }
        let second: FontIdList = match self.load_family("DroidSans", features) {
            Ok(ids) => ids,
            Err(error) => {
                return Err(error);
            },
        };
        if second.as_slice().len() > 0 {
            return Ok(second);
        }
        Ok(self.any_font())
    }
}

/// How the first listed face of that number looks.
fn look_of(faces: &Vec<FaceInfo>, face_id: u64) -> (look: Option<FaceTraits>)
    ensures
        look == traits_of(record_list(faces@), face_id),
{
    let ghost records = record_list(faces@);
    let mut i: usize = 0;
    assert(records.skip(0) =~= records);
    while i < faces.len()
        invariant
            i <= faces@.len(),
            records == record_list(faces@),
            traits_of(records, face_id) == traits_of(records.skip(i as int), face_id),
        decreases faces@.len() - i,
    {
        assert(records.skip(i as int).skip(1) =~= records.skip(i as int + 1));
        assert(records.skip(i as int)[0] == records[i as int]);
        if faces[i].face_id == face_id {
            return Some(
                FaceTraits {
                    style: faces[i].style,
                    weight: faces[i].weight,
                    stretch: faces[i].stretch,
                },
            );
        }
        i = i + 1;
    }
    None
}

/// The search for fonts keeps the state well formed, and gives fonts that are loaded.
pub proof fn candidates_are_loaded(
    state: FontState,
    kept: Option<Seq<usize>>,
    name: Seq<char>,
    features_valid: bool,
)
    requires
        state.well_formed(),
        state.fonts.len() + 3 * state.faces.len() <= usize::MAX,
        kept is Some ==> all_loaded(kept->0, state.fonts.len() as int),
    ensures
        ({
            let (after, found) = state.candidates(kept, name, features_valid);
            &&& after.well_formed()
            &&& state.fonts.len() <= after.fonts.len()
            &&& after.fonts.take(state.fonts.len() as int) == state.fonts
            &&& found is Ok ==> all_loaded(found->Ok_0, after.fonts.len() as int)
        }),
{
    let first = if kept is Some {
        state
    } else {
        state.after_family(name, features_valid)
    };
    if kept is None {
        loading_a_family_only_adds_fonts(state, name, features_valid);
    }
    loading_a_family_only_adds_fonts(first, "Roboto"@, features_valid);
    let second = first.after_family("Roboto"@, features_valid);
    loading_a_family_only_adds_fonts(second, "DroidSans"@, features_valid);
    let third = second.after_family("DroidSans"@, features_valid);
    let any = third.any_font().0;
    assert forall|k: int| 0 <= k < any.fonts.len() implies (#[trigger] any.fonts[k]).face_id
        < any.places.len() by {
        if k < third.fonts.len() {
            assert(any.fonts[k] == third.fonts[k]);
        } else {
            assert(third.faces[0].face_id < third.places.len());
        }
    }
    let count = state.fonts.len() as int;
    assert(state.fonts.take(count) =~= state.fonts);
    assert(first.fonts.take(count) =~= state.fonts);
    assert forall|k: int| 0 <= k < count implies second.fonts[k] == state.fonts[k] by {
        assert(second.fonts[k] == second.fonts.take(first.fonts.len() as int)[k]);
        assert(first.fonts[k] == first.fonts.take(count)[k]);
    }
    assert(second.fonts.take(count) =~= state.fonts);
    assert forall|k: int| 0 <= k < count implies third.fonts[k] == state.fonts[k] by {
        assert(third.fonts[k] == third.fonts.take(second.fonts.len() as int)[k]);
    }
    assert(third.fonts.take(count) =~= state.fonts);
    assert(any.fonts.take(count) =~= state.fonts);
}

/// Whether `result` is the font that a request is drawn with.
pub open spec fn answers(
    state: FontState,
    found: Result<Seq<usize>, FontError>,
    request: FontRequest,
    result: Result<usize, FontError>,
) -> bool {
    match found {
        Err(error) => result == Err::<usize, FontError>(error),
        Ok(ids) => if ids.len() == 0 {
            result == Err::<usize, FontError>(FontError::NoFonts)
        } else {
            exists|best: int| #[trigger]
                fonts::is_pick(request, state.looks(ids), best) && 0 <= best < ids.len() && result
                    == Ok::<usize, FontError>(ids[best])
        },
    }
}

/// The requests kept after a search: a family that was loaded is kept.
pub open spec fn kept_after(
    before: Seq<(FontKey, FontIdList)>,
    after: Seq<(FontKey, FontIdList)>,
    key: FontKey,
    loaded: Result<Seq<usize>, FontError>,
) -> bool {
    if fonts::kept_for(before, key@) is None && loaded is Ok {
        &&& after.len() == before.len() + 1
        &&& after.drop_last() == before
        &&& after.last().0 == key
        &&& after.last().1@ == loaded->Ok_0
    } else {
        after == before
    }
}

impl FontSystem {
    /// Finds the font that a request is drawn with. `name` is the name of the family after aliases
    /// have been resolved.
    pub fn font_id(&mut self, key: FontKey, name: &str, request: FontRequest) -> (font: Result<
        usize,
        FontError,
    >)
        requires
            old(self).well_formed(),
            old(self).book.fonts@.len() + 3 * old(self)@.faces.len() <= usize::MAX,
        ensures
            final(self).well_formed(),
            final(self)@ == old(self)@.candidates(
                fonts::kept_for(old(self).cache.entries@, key@),
                name@,
                fonts::features_valid(key.features@),
            ).0,
            answers(
                final(self)@,
                old(self)@.candidates(
                    fonts::kept_for(old(self).cache.entries@, key@),
                    name@,
                    fonts::features_valid(key.features@),
                ).1,
                request,
                font,
            ),
            kept_after(
                old(self).cache.entries@,
                final(self).cache.entries@,
                key,
                old(self)@.family_result(name@, fonts::features_valid(key.features@)),
            ),
    {
        let ghost valid = fonts::features_valid(key.features@);
        let ghost state = self@;
        let ghost kept = fonts::kept_for(self.cache.entries@, key@);
        let cached: Option<FontIdList> = self.cache.get(&key);
        proof {
            loading_a_family_only_adds_fonts(state, name@, valid);
            candidates_are_loaded(state, kept, name@, valid);
        }
        let fresh: bool = cached.is_none();
        let ids: FontIdList = match cached {
            Some(ids) => ids,
            None => match self.load_family(name, &key.features) {
                Ok(ids) => ids,
                Err(error) => {
                    return Err(error);
                },
            },
        };
        let kept_ids: FontIdList = ids.clone();
        let found: Result<FontIdList, FontError> = if ids.as_slice().len() > 0 {
            Ok(ids)
        } else {
            self.load_fallback_fonts(&key.features)
        };
        if fresh {
            self.cache.insert(key, kept_ids);
            assert(self.cache.entries@.drop_last() =~= old(self).cache.entries@);
        }
        let ids: FontIdList = match found {
            Ok(ids) => ids,
            Err(error) => {
                return Err(error);
            },
        };
        let slice: &[usize] = ids.as_slice();
        if slice.len() == 0 {
            return Err(FontError::NoFonts);
        }
        let faces: Vec<FaceInfo> = self.faces();
        let mut looks: Vec<Option<FaceTraits>> = Vec::new();
        let mut i: usize = 0;
        while i < slice.len()
            invariant
                i <= slice@.len(),
                record_list(faces@) == self@.faces,
                all_loaded(slice@, self.book.fonts@.len() as int),
                looks@ == self@.looks(slice@).take(i as int),
            decreases slice@.len() - i,
        {
            let id: usize = slice[i];
            looks.push(look_of(&faces, self.book.fonts[id].face_id));
            i = i + 1;
            assert(looks@ =~= self@.looks(slice@).take(i as int));
        }
        assert(self@.looks(slice@).take(i as int) =~= self@.looks(slice@));
        let best: usize = fonts::find_best_match(request, &looks);
        assert(fonts::is_pick(request, self@.looks(slice@), best as int));
        Ok(slice[best])
    }
}

/// Whether every name stands before those behind it.
pub open spec fn names_ascend(names: Seq<String>) -> bool {
    forall|i: int, j: int|
        0 <= i < j < names.len() ==> text::text_before(
            (#[trigger] names[i])@,
            (#[trigger] names[j])@,
        )
}

/// Whether a name is listed.
pub open spec fn lists_name(names: Seq<String>, name: Seq<char>) -> bool {
    exists|i: int| 0 <= i < names.len() && (#[trigger] names[i])@ == name
}

/// Whether a name is the first family of a face.
pub open spec fn names_a_face(faces: Seq<FaceRecord>, name: Seq<char>) -> bool {
    exists|k: int|
        0 <= k < faces.len() && (#[trigger] faces[k]).data.families.len() > 0
            && faces[k].data.families[0] == name
}

/// Adds a name at its place in a sorted list, unless it is listed.
fn insert_name(names: &mut Vec<String>, name: &String)
    requires
        names_ascend(old(names)@),
    ensures
        names_ascend(final(names)@),
        forall|other: Seq<char>| #[trigger]
            lists_name(final(names)@, other) <==> lists_name(old(names)@, other) || other == name@,
{
    let ghost before = names@;
    let mut i: usize = 0;
    while i < names.len() && text::stands_before(names[i].as_str(), name.as_str())
        invariant
            names@ == before,
            i <= before.len(),
            forall|k: int| 0 <= k < i ==> text::text_before((#[trigger] before[k])@, name@),
        decreases before.len() - i,
    {
        i = i + 1;
    }
    if i < names.len() && text::same_text(names[i].as_str(), name.as_str()) {
        assert(lists_name(before, name@));
        return;
    }
    let added: String = name.clone();
    names.insert(i, added);
    proof {
        let after = names@;
        assert(after =~= before.insert(i as int, added));
        assert forall|a: int, b: int| 0 <= a < b < after.len() implies text::text_before(
            (#[trigger] after[a])@,
            (#[trigger] after[b])@,
        ) by {
            if i < before.len() {
                text::text_order_is_strict(before[i as int]@, name@);
            }
            if a == i {
                assert(after[b] == before[b - 1]);
                if b - 1 > i {
                    text::text_order_is_transitive(name@, before[i as int]@, before[b - 1]@);
                }
            } else if b == i {
                assert(after[a] == before[a]);
            } else {
                let old_a = if a < i {
                    a
                } else {
                    a - 1
                };
                let old_b = if b < i {
                    b
                } else {
                    b - 1
                };
                assert(after[a] == before[old_a]);
                assert(after[b] == before[old_b]);
            }
        }
        assert forall|other: Seq<char>| #[trigger]
            lists_name(after, other) <==> lists_name(before, other) || other == name@ by {
            if lists_name(after, other) {
                let k = choose|k: int| 0 <= k < after.len() && (#[trigger] after[k])@ == other;
                if k < i {
                    assert(before[k]@ == other);
                } else if k > i {
                    assert(before[k - 1]@ == other);
                }
            }
            if lists_name(before, other) {
                let k = choose|k: int| 0 <= k < before.len() && (#[trigger] before[k])@ == other;
                if k < i {
                    assert(after[k]@ == other);
                } else {
                    assert(after[k + 1]@ == other);
                }
            }
            if other == name@ {
                assert(after[i as int]@ == other);
            }
        }
    }
}

impl FontSystem {
    /// The first family of every listed face, in order and each once.
    pub fn all_font_names(&self) -> (names: Vec<String>)
        requires
            self.is_sound(),
        ensures
            names_ascend(names@),
            forall|name: Seq<char>| #[trigger]
                lists_name(names@, name) <==> names_a_face(self@.faces, name),
    {
        let faces: Vec<FaceInfo> = self.faces();
        let ghost records = self@.faces;
        let mut names: Vec<String> = Vec::new();
        let mut i: usize = 0;
        while i < faces.len()
            invariant
                i <= faces@.len(),
                records == record_list(faces@),
                names_ascend(names@),
                forall|name: Seq<char>| #[trigger]
                    lists_name(names@, name) <==> names_a_face(records.take(i as int), name),
            decreases faces@.len() - i,
        {
            let ghost before = names@;
            let ghost shorter = records.take(i as int);
            let ghost longer = records.take(i as int + 1);
            assert(records[i as int].data.families.len() == faces@[i as int].families@.len());
            if faces[i].families.len() > 0 {
                assert(records[i as int].data.families[0] == faces@[i as int].families@[0]@);
                insert_name(&mut names, &faces[i].families[0]);
            }
            proof {
                assert forall|name: Seq<char>| #[trigger]
                    lists_name(names@, name) <==> names_a_face(longer, name) by {
                    assert(lists_name(before, name) <==> names_a_face(shorter, name));
                    if names_a_face(shorter, name) {
                        let k = choose|k: int|
                            0 <= k < shorter.len() && (#[trigger] shorter[k]).data.families.len()
                                > 0 && shorter[k].data.families[0] == name;
                        assert(longer[k].data.families[0] == name);
                    }
                    if names_a_face(longer, name) {
                        let k = choose|k: int|
                            0 <= k < longer.len() && (#[trigger] longer[k]).data.families.len() > 0
                                && longer[k].data.families[0] == name;
                        if k < i {
                            assert(shorter[k].data.families[0] == name);
                        }
                    }
                    if records[i as int].data.families.len() > 0 {
                        assert(longer[i as int] == records[i as int]);
                    }
                }
            }
            i = i + 1;
        }
        assert(records.take(i as int) =~= records);
        names
    }

    /// Tests whether a character can be looked up in a loaded font.
    pub fn can_look_up(&self, font_id: usize, ch: char) -> (can: bool)
        requires
            self.well_formed(),
            font_id < self.book.fonts@.len(),
        ensures
            can == self@.has_lookup(self.book.fonts@[font_id as int].face_id, ch),
    {
        assert(self@.fonts[font_id as int].face_id < self@.places.len());
        self.face_has_lookup(self.book.fonts[font_id].face_id, ch)
    }

    /// The glyph of a character in a loaded font, if it has one.
    pub fn glyph_for_char(&self, font_id: usize, ch: char) -> (glyph: Option<u32>)
        requires
            self.well_formed(),
            font_id < self.book.fonts@.len(),
            self@.has_lookup(self.book.fonts@[font_id as int].face_id, ch),
        ensures
            glyph == glyph_number(self@.glyph(self.book.fonts@[font_id as int].face_id, ch)),
    {
        assert(self@.fonts[font_id as int].face_id < self@.places.len());
        known_glyph(self.face_glyph(self.book.fonts[font_id].face_id, ch))
    }

    /// Groups the glyphs of a shaped line into runs of one font, and loads the fonts that shaping
    /// fell back to.
    pub fn shape_runs(&mut self, glyphs: &Vec<LayoutGlyph>) -> (runs: Vec<ShapedRun>)
        requires
            old(self).well_formed(),
            old(self).book.fonts@.len() + glyphs@.len() < usize::MAX,
            forall|i: int|
                0 <= i < glyphs@.len() ==> (#[trigger] glyphs@[i]).face_id
                    < old(self).places@.len(),
        ensures
            final(self).well_formed(),
            font_book::run_list(runs@) == font_book::shaped(old(self).book.fonts@, glyphs@).1,
            final(self)@ == (FontState {
                fonts: font_book::shaped(old(self).book.fonts@, glyphs@).0,
                ..old(self)@
            }),
            final(self).cache == old(self).cache,
    {
        proof {
            assert forall|k: int| 0 <= k < self.book.fonts@.len() implies (
            #[trigger] self.book.fonts@[k]).face_id < self.places@.len() by {
                assert(self@.fonts[k].face_id < self@.places.len());
            }
            lemma_shaped_faces(self.book.fonts@, glyphs@, self.places@.len() as int);
        }
        self.book.shape_runs(glyphs)
    }
}

/// The PostScript name of the first listed face of that number.
pub open spec fn post_script_name_of(faces: Seq<FaceRecord>, face_id: u64) -> Option<Seq<char>>
    decreases faces.len(),
{
    if faces.len() == 0 {
        None
    } else if faces[0].face_id == face_id {
        Some(faces[0].data.post_script_name)
    } else {
        post_script_name_of(faces.skip(1), face_id)
    }
}

impl FontSystem {
    /// The PostScript name of a face that shaping fell back to, if it is listed and can be loaded.
    pub fn fallback_name(&self, face_id: u64) -> (name: Option<String>)
        requires
            self.is_sound(),
        ensures
            match name {
                Some(found) => self@.loads(face_id) && post_script_name_of(self@.faces, face_id)
                    == Some(found@),
                None => post_script_name_of(self@.faces, face_id) is None || !self@.loads(face_id),
            },
    {
        let faces: Vec<FaceInfo> = self.faces();
        let ghost records = self@.faces;
        let mut i: usize = 0;
        assert(records.skip(0) =~= records);
        while i < faces.len()
            invariant
                i <= faces@.len(),
                self.is_sound(),
                records == self@.faces,
                records == record_list(faces@),
                post_script_name_of(records, face_id) == post_script_name_of(
                    records.skip(i as int),
                    face_id,
                ),
            decreases faces@.len() - i,
        {
            assert(records.skip(i as int).skip(1) =~= records.skip(i as int + 1));
            assert(records.skip(i as int)[0] == records[i as int]);
            if faces[i].face_id == face_id {
                assert(records[i as int].face_id == face_id);
                if self.face_loads(face_id) {
                    return Some(faces[i].post_script_name.clone());
                }
                return None;
            }
            i = i + 1;
        }
        None
    }
}

/// Whether the first listed face of that number names a family.
pub open spec fn names_family(faces: Seq<FaceRecord>, face_id: u64) -> bool
    decreases faces.len(),
{
    if faces.len() == 0 {
        false
    } else if faces[0].face_id == face_id {
        faces[0].data.families.len() > 0
    } else {
        names_family(faces.skip(1), face_id)
    }
}

/// Tests whether the first listed face of that number names a family.
fn has_family(faces: &Vec<FaceInfo>, face_id: u64) -> (named: bool)
    ensures
        named == names_family(record_list(faces@), face_id),
{
    let ghost records = record_list(faces@);
    let mut i: usize = 0;
    assert(records.skip(0) =~= records);
    while i < faces.len()
        invariant
            i <= faces@.len(),
            records == record_list(faces@),
            names_family(records, face_id) == names_family(records.skip(i as int), face_id),
        decreases faces@.len() - i,
    {
        assert(records.skip(i as int).skip(1) =~= records.skip(i as int + 1));
        assert(records.skip(i as int)[0] == records[i as int]);
        if faces[i].face_id == face_id {
            assert(records[i as int].data.families.len() == faces@[i as int].families@.len());
            return faces[i].families.len() > 0;
        }
        i = i + 1;
    }
    false
}

/// The span of run `n` of a line.
pub open spec fn span_of(state: FontState, runs: Seq<FontRun>, n: int) -> FontSpan {
    let font_id = runs[n].font_id;
    FontSpan {
        start: font_book::run_offset(runs, n) as usize,
        end: font_book::run_offset(runs, n + 1) as usize,
        font_id: if font_id < state.fonts.len() && names_family(
            state.faces,
            state.fonts[font_id as int].face_id,
        ) {
            Some(font_id)
        } else {
            None
        },
    }
}

impl FontSystem {
    /// Places the runs of a line one after the other. A run of a font that is not loaded, or whose
    /// face names no family, is left to the font that shaping prefers.
    pub fn run_spans(&self, runs: &Vec<FontRun>) -> (spans: Vec<FontSpan>)
        requires
            self.is_sound(),
            font_book::run_offset(runs@, runs@.len() as int) <= usize::MAX,
        ensures
            spans@.len() == runs@.len(),
            forall|n: int|
                0 <= n < runs@.len() ==> #[trigger] spans@[n] == span_of(self@, runs@, n),
    {
        let faces: Vec<FaceInfo> = self.faces();
        let mut spans: Vec<FontSpan> = Vec::new();
        let mut offset: usize = 0;
        let mut i: usize = 0;
        while i < runs.len()
            invariant
                i <= runs@.len(),
                record_list(faces@) == self@.faces,
                offset == font_book::run_offset(runs@, i as int),
                font_book::run_offset(runs@, runs@.len() as int) <= usize::MAX,
                spans@.len() == i,
                forall|n: int| 0 <= n < i ==> #[trigger] spans@[n] == span_of(self@, runs@, n),
            decreases runs@.len() - i,
        {
            let run: FontRun = runs[i];
            proof {
                font_book::lemma_run_offsets_increase(runs@, i as int + 1, runs@.len() as int);
            }
            let end: usize = offset + run.len;
            let font_id: Option<usize> = if run.font_id < self.book.fonts.len() && has_family(
                &faces,
                self.book.fonts[run.font_id].face_id,
            ) {
                Some(run.font_id)
            } else {
                None
            };
            spans.push(FontSpan { start: offset, end, font_id });
            offset = end;
            i = i + 1;
        }
        spans
    }
}

proof fn lemma_shaped_faces(book: Seq<LoadedFont>, glyphs: Seq<LayoutGlyph>, bound: int)
    requires
        forall|k: int| 0 <= k < book.len() ==> (#[trigger] book[k]).face_id < bound,
        forall|i: int| 0 <= i < glyphs.len() ==> (#[trigger] glyphs[i]).face_id < bound,
    ensures
        forall|k: int|
            0 <= k < font_book::shaped(book, glyphs).0.len() ==> (#[trigger] font_book::shaped(
                book,
                glyphs,
            ).0[k]).face_id < bound,
        book.len() <= font_book::shaped(book, glyphs).0.len(),
    decreases glyphs.len(),
{
    if glyphs.len() > 0 {
        lemma_shaped_faces(book, glyphs.drop_last(), bound);
    }
}

/// The number of a glyph as a character map answers, where zero stands for a missing glyph.
pub open spec fn glyph_number(mapped: Option<u16>) -> Option<u32> {
    match mapped {
        Some(id) => if id == 0 {
            None
        } else {
            Some(id as u32)
        },
        None => None,
    }
}

/// Takes the answer of a character map, where zero stands for a missing glyph.
pub fn known_glyph(mapped: Option<u16>) -> (glyph: Option<u32>)
    ensures
        glyph == glyph_number(mapped),
{
    match mapped {
        Some(id) => if id == 0 {
            None
        } else {
            Some(id as u32)
        },
        None => None,
    }
}

proof fn lemma_kept_for_push(
    entries: Seq<(FontKey, FontIdList)>,
    entry: (FontKey, FontIdList),
    key: (Seq<char>, Seq<(Seq<char>, u32)>),
)
    ensures
        fonts::kept_for(entries.push(entry), key) == (if fonts::kept_for(entries, key) is Some {
            fonts::kept_for(entries, key)
        } else if entry.0@ == key {
            Some(entry.1@)
        } else {
            None
        }),
    decreases entries.len(),
{
    if entries.len() > 0 {
        lemma_kept_for_push(entries.skip(1), entry, key);
        assert(entries.push(entry).skip(1) =~= entries.skip(1).push(entry));
    } else {
        let rest = entries.push(entry).skip(1);
        assert(rest.len() == 0);
        assert(fonts::kept_for(rest, key) is None);
        assert(entries.push(entry)[0] == entry);
    }
}

/// A family that was found once is answered from memory afterwards, with the same fonts, and
/// without loading anything.
pub proof fn repeated_requests_load_nothing(
    before: Seq<(FontKey, FontIdList)>,
    after: Seq<(FontKey, FontIdList)>,
    key: FontKey,
    loaded: Result<Seq<usize>, FontError>,
    state: FontState,
    name: Seq<char>,
    features_valid: bool,
)
    requires
        kept_after(before, after, key, loaded),
        fonts::kept_for(before, key@) is None,
        loaded is Ok,
        loaded->Ok_0.len() > 0,
    ensures
        fonts::kept_for(after, key@) == Some(loaded->Ok_0),
        state.candidates(fonts::kept_for(after, key@), name, features_valid) == (
            state,
            Ok::<Seq<usize>, FontError>(loaded->Ok_0),
        ),
{
    lemma_kept_for_push(before, after.last(), key@);
    assert(before.push(after.last()) =~= after);
}

/// The faces that stay listed are those that are not left out, as they were and in their order.
pub proof fn listed_faces_stay_unless_left_out(items: Seq<FaceRecord>, left_out: Seq<u64>) -> (sources: Seq<int>)
    ensures
        sources.len() == kept_faces(items, left_out).len(),
        forall|i: int, j: int| 0 <= i < j < sources.len() ==> #[trigger] sources[i] < #[trigger] sources[j],
        forall|i: int|
            0 <= i < sources.len() ==> {
                &&& 0 <= #[trigger] sources[i] < items.len()
                &&& !left_out.contains(items[sources[i]].face_id)
                &&& kept_faces(items, left_out)[i] == items[sources[i]]
            },
        forall|k: int|
            0 <= k < items.len() && !left_out.contains((#[trigger] items[k]).face_id) ==> sources.contains(k),
    decreases items.len(),
{
    if items.len() == 0 {
        Seq::empty()
    } else {
        let shorter = items.drop_last();
        let rest = listed_faces_stay_unless_left_out(shorter, left_out);
        let last = items.len() - 1;
        let sources = if !left_out.contains(items[last].face_id) {
            rest.push(last)
        } else {
            rest
        };
        assert forall|k: int|
            0 <= k < items.len() && !left_out.contains((#[trigger] items[k]).face_id) implies sources.contains(k) by {
            if k < last {
                assert(shorter[k] == items[k]);
                let i = choose|i: int| 0 <= i < rest.len() && rest[i] == k;
                assert(sources[i] == k);
            } else {
                assert(sources[rest.len() as int] == k);
            }
        }
        assert forall|i: int| 0 <= i < rest.len() implies items[#[trigger] rest[i]]
            == shorter[rest[i]] by {}
        sources
    }
}

/// The files that are added are those with offsets for all faces that they claim, in the order in which they came.
pub proof fn whole_files_are_added_in_order(items: Seq<Seq<u8>>) -> (sources: Seq<int>)
    ensures
        sources.len() == whole_files(items).len(),
        forall|i: int, j: int| 0 <= i < j < sources.len() ==> #[trigger] sources[i] < #[trigger] sources[j],
        forall|i: int|
            0 <= i < sources.len() ==> {
                &&& 0 <= #[trigger] sources[i] < items.len()
                &&& font_file::offsets_fit(items[sources[i]])
                &&& whole_files(items)[i] == items[sources[i]]
            },
        forall|k: int|
            0 <= k < items.len() && font_file::offsets_fit((#[trigger] items[k])) ==> sources.contains(k),
    decreases items.len(),
{
    if items.len() == 0 {
        Seq::empty()
    } else {
        let shorter = items.drop_last();
        let rest = whole_files_are_added_in_order(shorter);
        let last = items.len() - 1;
        let sources = if font_file::offsets_fit(items[last]) {
            rest.push(last)
        } else {
            rest
        };
        assert forall|k: int|
            0 <= k < items.len() && font_file::offsets_fit((#[trigger] items[k])) implies sources.contains(k) by {
            if k < last {
                assert(shorter[k] == items[k]);
                let i = choose|i: int| 0 <= i < rest.len() && rest[i] == k;
                assert(sources[i] == k);
            } else {
                assert(sources[rest.len() as int] == k);
            }
        }
        assert forall|i: int| 0 <= i < rest.len() implies items[#[trigger] rest[i]]
            == shorter[rest[i]] by {}
        sources
    }
}

/// The runs of a line follow one another without gaps from its start: each span is as long as its run
/// and begins where the one before ends.
pub proof fn spans_follow_one_another(state: FontState, runs: Seq<FontRun>, n: int)
    requires
        0 <= n < runs.len(),
        font_book::run_offset(runs, runs.len() as int) <= usize::MAX,
    ensures
        span_of(state, runs, 0).start == 0,
        span_of(state, runs, n).end - span_of(state, runs, n).start == runs[n].len,
        n + 1 < runs.len() ==> span_of(state, runs, n + 1).start == span_of(state, runs, n).end,
{
    font_book::lemma_run_offsets_increase(runs, n, runs.len() as int);
    font_book::lemma_run_offsets_increase(runs, n + 1, runs.len() as int);
}

/// A span asks for the font of its run, where that is loaded and its face still names a family, and
/// else for none.
pub proof fn spans_ask_for_the_font_of_their_run(
    state: FontState,
    runs: Seq<FontRun>,
    n: int,
    k: int,
)
    requires
        0 <= n < runs.len(),
        runs[n].font_id < state.fonts.len(),
        0 <= k < state.faces.len(),
        state.faces[k].face_id == state.fonts[runs[n].font_id as int].face_id,
        forall|j: int| 0 <= j < k ==> (#[trigger] state.faces[j]).face_id != state.faces[k].face_id,
    ensures
        state.faces[k].data.families.len() > 0 ==> span_of(state, runs, n).font_id == Some(
            runs[n].font_id,
        ),
        state.faces[k].data.families.len() == 0 ==> span_of(state, runs, n).font_id is None,
{
    the_first_face_of_a_number_counts(state.faces, state.faces[k].face_id, k);
}

/// A run of a font that is not loaded, or whose face is not listed any more, asks for no font.
pub proof fn spans_of_unknown_fonts_ask_for_none(state: FontState, runs: Seq<FontRun>, n: int)
    requires
        0 <= n < runs.len(),
        runs[n].font_id >= state.fonts.len() || forall|j: int|
            0 <= j < state.faces.len() ==> (#[trigger] state.faces[j]).face_id
                != state.fonts[runs[n].font_id as int].face_id,
    ensures
        span_of(state, runs, n).font_id is None,
{
    if runs[n].font_id < state.fonts.len() {
        numbers_that_are_not_listed_tell_nothing(
            state.faces,
            state.fonts[runs[n].font_id as int].face_id,
        );
    }
}

/// What is known of a number is what the first listed face of that number says: its style, weight and
/// width, its PostScript name, and whether it names a family.
pub proof fn the_first_face_of_a_number_counts(faces: Seq<FaceRecord>, face_id: u64, k: int)
    requires
        0 <= k < faces.len(),
        faces[k].face_id == face_id,
        forall|j: int| 0 <= j < k ==> (#[trigger] faces[j]).face_id != face_id,
    ensures
        traits_of(faces, face_id) matches Some(look) && look.style == faces[k].data.style
            && look.weight == faces[k].data.weight && look.stretch == faces[k].data.stretch,
        post_script_name_of(faces, face_id) == Some(faces[k].data.post_script_name),
        names_family(faces, face_id) <==> faces[k].data.families.len() > 0,
    decreases k,
{
    if k > 0 {
        assert(faces[0].face_id != face_id);
        let rest = faces.skip(1);
        assert(rest[k - 1] == faces[k]);
        assert forall|j: int| 0 <= j < k - 1 implies (#[trigger] rest[j]).face_id != face_id by {
            assert(rest[j] == faces[j + 1]);
        }
        the_first_face_of_a_number_counts(rest, face_id, k - 1);
    }
}

/// Of a number that no listed face has, nothing is known.
pub proof fn numbers_that_are_not_listed_tell_nothing(faces: Seq<FaceRecord>, face_id: u64)
    requires
        forall|j: int| 0 <= j < faces.len() ==> (#[trigger] faces[j]).face_id != face_id,
    ensures
        traits_of(faces, face_id) is None,
        post_script_name_of(faces, face_id) is None,
        !names_family(faces, face_id),
    decreases faces.len(),
{
    if faces.len() > 0 {
        assert(faces[0].face_id != face_id);
        let rest = faces.skip(1);
        assert forall|j: int| 0 <= j < rest.len() implies (#[trigger] rest[j]).face_id
            != face_id by {
            assert(rest[j] == faces[j + 1]);
        }
        numbers_that_are_not_listed_tell_nothing(rest, face_id);
    }
}

/// A face is reported under its own number and name. It has basic letters unless the letter `m` can be
/// looked up and maps to the missing glyph, and it loads where it can be read and the letter be looked
/// up.
pub proof fn faces_are_reported_as_they_are(state: FontState, face: FaceRecord)
    ensures
        ({
            let place = state.places[face.face_id as int];
            let bytes = state.files[place.file as int];
            let report = state.report(face);
            &&& report.face_id == face.face_id
            &&& report.post_script_name == face.data.post_script_name
            &&& report.loads <==> layout_tables::load_fits(bytes, place.index as int)
                && font_database::font_loads(bytes, place.index) && charmap::lookup_fits(
                bytes,
                place.index as int,
                'm',
            )
            &&& report.has_basic_letters <==> !(charmap::lookup_fits(
                bytes,
                place.index as int,
                'm',
            ) && font_database::mapped_glyph(bytes, place.index, 'm') == Some(0u16))
        }),
{
}

/// Loading a family leaves the files and the places of faces alone, and keeps all fonts that were
/// loaded under their numbers.
pub proof fn families_are_loaded_behind_the_others(
    state: FontState,
    name: Seq<char>,
    features_valid: bool,
    i: int,
)
    ensures
        ({
            let after = state.after_family(name, features_valid);
            &&& after.files == state.files
            &&& after.places == state.places
            &&& after.fonts.len() >= state.fonts.len()
            &&& 0 <= i < state.fonts.len() ==> after.fonts[i] == state.fonts[i]
        }),
{
}

/// A request whose fonts are remembered loads nothing. One for a family that has fonts gets those, and
/// one for a family that has none gets Roboto, or else Droid Sans, or else any font.
pub proof fn requests_fall_back_in_order(
    state: FontState,
    kept: Seq<usize>,
    name: Seq<char>,
    features_valid: bool,
)
    ensures
        kept.len() > 0 ==> state.candidates(Some(kept), name, features_valid) == (
            state,
            Ok::<Seq<usize>, FontError>(kept),
        ),
        state.family_result(name, features_valid) matches Err(error) ==> state.candidates(
            None,
            name,
            features_valid,
        ).1 == Err::<Seq<usize>, FontError>(error),
        state.family_result(name, features_valid) matches Ok(ids) ==> (ids.len() > 0
            ==> state.candidates(None, name, features_valid) == (
            state.after_family(name, features_valid),
            Ok::<Seq<usize>, FontError>(ids),
        )),
        state.family_result("Roboto"@, features_valid) matches Ok(ids) ==> (ids.len() > 0
            ==> state.candidates(Some(Seq::empty()), name, features_valid) == (
            state.after_family("Roboto"@, features_valid),
            Ok::<Seq<usize>, FontError>(ids),
        )),
        state.family_result("Roboto"@, features_valid) == Ok::<Seq<usize>, FontError>(Seq::empty())
            ==> {
            let next = state.after_family("Roboto"@, features_valid);
            let last = next.after_family("DroidSans"@, features_valid);
            let found = state.candidates(Some(Seq::empty()), name, features_valid);
            &&& next.family_result("DroidSans"@, features_valid) matches Ok(ids) ==> (ids.len() > 0
                ==> found == (last, Ok::<Seq<usize>, FontError>(ids)))
            &&& next.family_result("DroidSans"@, features_valid) == Ok::<Seq<usize>, FontError>(
                Seq::empty(),
            ) ==> {
                &&& last.fonts.len() > 0 ==> found == (
                    last,
                    Ok::<Seq<usize>, FontError>(seq![0usize]),
                )
                &&& last.fonts.len() == 0 && last.faces.len() > 0 && last.loads(
                    last.faces[0].face_id,
                ) ==> {
                    &&& found.1 == Ok::<Seq<usize>, FontError>(seq![0usize])
                    &&& found.0.fonts.len() == 1
                    &&& found.0.fonts[0].face_id == last.faces[0].face_id
                    &&& !found.0.fonts[0].takes_features
                    &&& !found.0.fonts[0].is_known_emoji_font
                }
                &&& last.fonts.len() == 0 && (last.faces.len() == 0 || !last.loads(
                    last.faces[0].face_id,
                )) ==> found == (last, Ok::<Seq<usize>, FontError>(Seq::empty()))
            }
        },
{
}

/// A request is answered with one of the fonts found for it, and with an error only where the search
/// failed or found none.
pub proof fn requests_are_answered_with_a_font_found(
    state: FontState,
    found: Result<Seq<usize>, FontError>,
    request: FontRequest,
    result: Result<usize, FontError>,
)
    requires
        answers(state, found, request, result),
    ensures
        found matches Err(error) ==> result == Err::<usize, FontError>(error),
        found matches Ok(ids) ==> {
            &&& ids.len() == 0 ==> result == Err::<usize, FontError>(FontError::NoFonts)
            &&& ids.len() > 0 ==> result is Ok && ids.contains(result->Ok_0)
        },
{
}

/// How a font looks is how the face looks that it was loaded from.
pub proof fn fonts_look_like_their_faces(state: FontState, ids: Seq<usize>, i: int, k: int)
    requires
        0 <= i < ids.len(),
        ids[i] < state.fonts.len(),
        0 <= k < state.faces.len(),
        state.faces[k].face_id == state.fonts[ids[i] as int].face_id,
        forall|j: int| 0 <= j < k ==> (#[trigger] state.faces[j]).face_id != state.faces[k].face_id,
    ensures
        state.looks(ids).len() == ids.len(),
        state.looks(ids)[i] matches Some(look) && look.style == state.faces[k].data.style
            && look.weight == state.faces[k].data.weight && look.stretch
            == state.faces[k].data.stretch,
{
    the_first_face_of_a_number_counts(state.faces, state.faces[k].face_id, k);
}

/// A character maps to the glyph that the map names, unless that is the missing one.
pub proof fn missing_glyphs_are_none(id: u16)
    ensures
        glyph_number(None) is None,
        id == 0 ==> glyph_number(Some(id)) is None,
        id > 0 ==> glyph_number(Some(id)) == Some(id as u32),
{
}

/// The faces of a file that is added come behind those of the files before it, each at its own place in
/// that file.
pub proof fn faces_stand_in_their_file(first_file: int, files: Seq<Seq<u8>>, bytes: Seq<u8>, i: int)
    requires
        0 <= i < font_database::parsed_faces(bytes).len(),
    ensures
        ({
            let places = places_for(first_file, files.push(bytes));
            let before = places_for(first_file, files).len() as int;
            let faces = faces_for(files.push(bytes));
            &&& places.len() == before + font_database::parsed_faces(bytes).len()
            &&& places.len() == faces.len()
            &&& places.subrange(0, before) == places_for(first_file, files)
            &&& places[before + i].file == (first_file + files.len()) as usize
            &&& places[before + i].index == font_database::parsed_faces(bytes)[i].index
            &&& faces[before + i] == font_database::parsed_faces(bytes)[i]
        }),
{
    assert(files.push(bytes).drop_last() =~= files);
    lemma_every_face_has_a_place(first_file, files);
    lemma_every_face_has_a_place(first_file, files.push(bytes));
    let places = places_for(first_file, files.push(bytes));
    let before = places_for(first_file, files).len() as int;
    assert(places.subrange(0, before) =~= places_for(first_file, files));
}

/// New faces get the numbers behind those that were given out, in the order of the files.
pub proof fn new_faces_are_numbered_in_order(
    before: Seq<FaceRecord>,
    first: int,
    added: Seq<FaceData>,
    after: Seq<FaceRecord>,
    i: int,
)
    requires
        grows(before, first, added, after),
        0 <= i < added.len(),
        0 <= first,
        first + added.len() <= u64::MAX,
    ensures
        after.len() == before.len() + added.len(),
        exists|k: int|
            0 <= k < after.len() && (#[trigger] after[k]).face_id == first + i && after[k].data
                == added[i],
{
    let fresh = new_records(first, added)[i];
    assert(after.contains(fresh));
    let k = choose|k: int| 0 <= k < after.len() && after[k] == fresh;
    assert(after[k].face_id == first + i);
}

/// The faces below a bound are those with a smaller number, as they were and in their order.
pub proof fn older_faces_keep_their_order(items: Seq<FaceRecord>, bound: int) -> (sources: Seq<int>)
    ensures
        sources.len() == below(items, bound).len(),
        forall|i: int, j: int| 0 <= i < j < sources.len() ==> #[trigger] sources[i] < #[trigger] sources[j],
        forall|i: int|
            0 <= i < sources.len() ==> {
                &&& 0 <= #[trigger] sources[i] < items.len()
                &&& items[sources[i]].face_id < bound
                &&& below(items, bound)[i] == items[sources[i]]
            },
        forall|k: int|
            0 <= k < items.len() && (#[trigger] items[k]).face_id < bound ==> sources.contains(k),
    decreases items.len(),
{
    if items.len() == 0 {
        Seq::empty()
    } else {
        let shorter = items.drop_last();
        let rest = older_faces_keep_their_order(shorter, bound);
        let last = items.len() - 1;
        let sources = if items[last].face_id < bound {
            rest.push(last)
        } else {
            rest
        };
        assert forall|k: int|
            0 <= k < items.len() && (#[trigger] items[k]).face_id < bound implies sources.contains(k) by {
            if k < last {
                assert(shorter[k] == items[k]);
                let i = choose|i: int| 0 <= i < rest.len() && rest[i] == k;
                assert(sources[i] == k);
            } else {
                assert(sources[rest.len() as int] == k);
            }
        }
        assert forall|i: int| 0 <= i < rest.len() implies items[#[trigger] rest[i]]
            == shorter[rest[i]] by {}
        sources
    }
}

/// The state of a font system shows its files, the places of faces and the loaded fonts as it holds
/// them, and every face of its database in order.
pub proof fn font_systems_show_what_they_hold(system: FontSystem, i: int)
    ensures
        system@.files.len() == system.files@.len(),
        0 <= i < system.files@.len() ==> system@.files[i] == system.files@[i]@,
        system@.places == system.places@,
        system@.fonts == system.book.fonts@,
        system@.faces.len() == font_database::listed(system.database).len(),
        0 <= i < system@.faces.len() ==> system@.faces[i].data == font_database::listed(
            system.database,
        )[i].data,
{
}

/// A face goes by the last number that its key was given.
pub proof fn faces_go_by_the_last_number_of_their_key(
    entries: Seq<FaceEntry>,
    ids: Seq<ID>,
    k: int,
    number: int,
)
    requires
        0 <= k < entries.len(),
        0 <= number < ids.len() <= u64::MAX,
        ids[number] == entries[k].id,
        forall|n: int| number < n < ids.len() ==> ids[n] != entries[k].id,
    ensures
        numbered(entries, ids).len() == entries.len(),
        numbered(entries, ids)[k].face_id == number,
        numbered(entries, ids)[k].data == entries[k].data,
{
    lemma_number_is_last(ids, entries[k].id, number);
}

/// What is recorded of a listed face is what it holds, under its number.
pub proof fn records_show_what_faces_hold(faces: Seq<FaceInfo>, i: int)
    requires
        0 <= i < faces.len(),
    ensures
        record_list(faces).len() == faces.len(),
        record_list(faces)[i].face_id == faces[i].face_id,
        record_list(faces)[i].data.index == faces[i].index,
        record_list(faces)[i].data.post_script_name == faces[i].post_script_name@,
        record_list(faces)[i].data.style == faces[i].style,
        record_list(faces)[i].data.weight == faces[i].weight,
        record_list(faces)[i].data.stretch == faces[i].stretch,
        record_list(faces)[i].data.families.len() == faces[i].families@.len(),
        forall|j: int|
            0 <= j < faces[i].families@.len() ==> #[trigger] record_list(faces)[i].data.families[j]
                == faces[i].families@[j]@,
{
}

/// The faces that are reported for a family are those that stand for it, in order.
pub proof fn families_are_reported_face_by_face(state: FontState, name: Seq<char>, i: int)
    ensures
        state.family_names().len() == state.faces.len(),
        0 <= i < state.faces.len() ==> state.family_names()[i] == state.faces[i].data.families,
        state.family_reports(name).len() == fonts::family_faces(state.family_names(), name).len(),
        0 <= i < state.family_reports(name).len() ==> state.family_reports(name)[i] == state.report(
            state.faces[fonts::family_faces(state.family_names(), name)[i] as int],
        ),
{
}

/// Files claim as many faces together as each of them does.
pub proof fn files_claim_their_faces_together(files: Seq<Seq<u8>>, bytes: Seq<u8>)
    ensures
        face_room(Seq::empty()) == 0,
        face_room(files.push(bytes)) == face_room(files) + font_file::faces_claimed(bytes),
{
    assert(files.push(bytes).drop_last() =~= files);
}

/// After a search a family that was loaded for the first time is remembered with its fonts, and all
/// earlier answers stay as they were.
pub proof fn searches_remember_what_they_loaded(
    before: Seq<(FontKey, FontIdList)>,
    after: Seq<(FontKey, FontIdList)>,
    key: FontKey,
    loaded: Result<Seq<usize>, FontError>,
    i: int,
)
    requires
        kept_after(before, after, key, loaded),
    ensures
        0 <= i < before.len() ==> i < after.len() && after[i] == before[i],
        fonts::kept_for(before, key@) is Some || loaded is Err ==> after == before,
        fonts::kept_for(before, key@) is None && loaded is Ok ==> after.len() == before.len() + 1
            && after[before.len() as int].0 == key && after[before.len() as int].1@
            == loaded->Ok_0,
{
    if after != before && 0 <= i < before.len() {
        assert(after.drop_last()[i] == after[i]);
    }
}

/// Names in ascending order are all different, and of two the one that stands first is a beginning of the other
/// or has the smaller character where they first differ.
pub proof fn ascending_names_are_listed_once(names: Seq<String>, i: int, j: int)
    requires
        names_ascend(names),
        0 <= i < j < names.len(),
    ensures
        names[i]@ != names[j]@,
        exists|at: int|
            {
                &&& 0 <= at <= names[i]@.len() && at < names[j]@.len()
                &&& #[trigger] names[i]@.take(at) == names[j]@.take(at)
                &&& at == names[i]@.len() || names[i]@[at] < names[j]@[at]
            },
{
    text::texts_stand_by_their_first_difference(names[i]@, names[j]@);
    text::text_order_is_strict(names[i]@, names[j]@);
}

/// A name is listed exactly if an entry holds it, and a face is named by the first of its families alone.
pub proof fn faces_are_named_by_their_first_family(
    names: Seq<String>,
    faces: Seq<FaceRecord>,
    name: Seq<char>,
)
    ensures
        lists_name(names, name) <==> exists|i: int| 0 <= i < names.len() && (#[trigger] names[i])@ == name,
        names_a_face(faces, name) <==> exists|k: int|
            0 <= k < faces.len() && (#[trigger] faces[k]).data.families.len() > 0
                && faces[k].data.families.first() == name,
{
}

} // verus!
