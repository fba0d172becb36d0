//! The database of an application's fonts: the faces that its font files hold, under the keys by which
//! the database knows them, and what can be drawn with them.
use crate::charmap;
use crate::font_file;
use crate::fonts;
use crate::fonts::FontStyle;
use crate::layout_tables;
use cosmic_text::fontdb::{Database, ID};
use vstd::prelude::*;
use vstd::string::*;

verus! {

/// The database of fonts, an outside type.
#[verifier::external_type_specification]
#[verifier::external_body]
pub struct FontDatabase(cosmic_text::fontdb::Database);

/// The key of a face in a database, an outside type.
#[verifier::external_type_specification]
#[verifier::external_body]
pub struct FaceKey(cosmic_text::fontdb::ID);

/// What a font file says of a face.
pub struct FaceData {
    /// The place of the face in its file.
    pub index: u32,
    pub families: Seq<Seq<char>>,
    pub post_script_name: Seq<char>,
    pub style: FontStyle,
    pub weight: u16,
    pub stretch: u16,
}

/// A face in a database: its key, the file that holds it, and what the file says of it.
pub struct FaceEntry {
    pub id: ID,
    pub bytes: Seq<u8>,
    pub data: FaceData,
}

/// A face as the database lists it.
pub struct ListedFace {
    pub id: ID,
    pub index: u32,
    pub families: Vec<String>,
    pub post_script_name: String,
    pub style: FontStyle,
    pub weight: u16,
    pub stretch: u16,
}

impl ListedFace {
    /// What the font file says of the face.
    pub open spec fn data(self) -> FaceData {
        FaceData {
            index: self.index,
            families: fonts::texts(self.families@),
            post_script_name: self.post_script_name@,
            style: self.style,
            weight: self.weight,
            stretch: self.stretch,
        }
    }
}

/// The faces in a database, in the order in which it lists them.
pub uninterp spec fn listed(database: Database) -> Seq<FaceEntry>;

/// Whether no face was ever dropped from a database.
pub uninterp spec fn never_dropped(database: Database) -> bool;

/// The faces that a font file holds, in order, as the database reads them.
pub uninterp spec fn parsed_faces(bytes: Seq<u8>) -> Seq<FaceData>;

/// Whether a face of a font file can be loaded.
pub uninterp spec fn font_loads(bytes: Seq<u8>, index: u32) -> bool;

/// The glyph of a character in a face of a font file, zero where it has none; nothing where there is no
/// such face.
pub uninterp spec fn mapped_glyph(bytes: Seq<u8>, index: u32, ch: char) -> Option<u16>;

/// The faces that a font file adds, under their keys.
pub open spec fn new_entries(bytes: Seq<u8>, ids: Seq<ID>) -> Seq<FaceEntry> {
    Seq::new(
        parsed_faces(bytes).len(),
        |i: int| FaceEntry { id: ids[i], bytes, data: parsed_faces(bytes)[i] },
    )
}

/// The faces whose keys are not among those given, in the same order.
pub open spec fn without(entries: Seq<FaceEntry>, ids: Seq<ID>) -> Seq<FaceEntry>
    decreases entries.len(),
{
    if entries.len() == 0 {
        Seq::empty()
    } else {
        let rest = without(entries.drop_last(), ids);
        if ids.contains(entries.last().id) {
            rest
        } else {
            rest.push(entries.last())
        }
    }
}

/// Whether the faces in a list under new keys are those that were added, and the others those of before.
pub open spec fn gains(
    before: Seq<FaceEntry>,
    ids: Seq<ID>,
    added: Seq<FaceEntry>,
    after: Seq<FaceEntry>,
) -> bool {
    &&& after.len() == before.len() + added.len()
    &&& without(after, ids) == before
    &&& forall|i: int| 0 <= i < added.len() ==> after.contains(#[trigger] added[i])
    &&& forall|k: int|
        0 <= k < after.len() && ids.contains((#[trigger] after[k]).id) ==> added.contains(after[k])
}

/// A face whose key is not among those given is still there, and no other is.
pub proof fn lemma_kept_is_there(entries: Seq<FaceEntry>, ids: Seq<ID>)
    ensures
        forall|k: int|
            0 <= k < entries.len() && !ids.contains((#[trigger] entries[k]).id) ==> without(
                entries,
                ids,
            ).contains(entries[k]),
        forall|k: int|
            0 <= k < without(entries, ids).len() ==> entries.contains(
                #[trigger] without(entries, ids)[k],
            ) && !ids.contains(without(entries, ids)[k].id),
        without(entries, ids).len() <= entries.len(),
    decreases entries.len(),
{
    if entries.len() > 0 {
        let shorter = entries.drop_last();
        let rest = without(shorter, ids);
        let kept = without(entries, ids);
        lemma_kept_is_there(shorter, ids);
        assert forall|k: int| 0 <= k < entries.len() && !ids.contains(
            (#[trigger] entries[k]).id,
        ) implies kept.contains(entries[k]) by {
            if k < shorter.len() {
                assert(shorter[k] == entries[k]);
                assert(rest.contains(shorter[k]));
                let j = choose|j: int| 0 <= j < rest.len() && rest[j] == shorter[k];
                assert(kept[j] == entries[k]);
            } else {
                assert(kept[kept.len() - 1] == entries[k]);
            }
        }
        assert forall|k: int| 0 <= k < kept.len() implies entries.contains(#[trigger] kept[k])
            && !ids.contains(kept[k].id) by {
            if k < rest.len() {
                assert(rest[k] == kept[k]);
                assert(shorter.contains(rest[k]));
                let j = choose|j: int| 0 <= j < shorter.len() && shorter[j] == rest[k];
                assert(entries[j] == kept[k]);
            } else {
                assert(entries[entries.len() - 1] == kept[k]);
            }
        }
    }
}

/// Calls `fontdb::Database::new`. Trusted: a new database holds no faces, and none was dropped from it.
#[verifier::external_body]
pub(crate) fn new_database() -> (database: Database)
    ensures
        listed(database) == Seq::<FaceEntry>::empty(),
        never_dropped(database),
{
    Database::new()
}

/// Calls `fontdb::Database::load_font_source` on bytes in memory. Trusted: the keys that it returns are
/// those of the faces in the file, in order, all different; the database then also lists these faces
/// under these keys, and the other faces as before. As long as no face was ever dropped the new ones
/// come last, in order; where they come otherwise is left open. There are at most as many as the file
/// claims. The database panics where it would hold as many faces as a key of 32 bits
/// can tell apart, and where a collection claims more faces than memory has room for.
#[verifier::external_body]
pub(crate) fn load_font(database: &mut Database, bytes: &Vec<u8>) -> (ids: Vec<ID>)
    requires
        font_file::offsets_fit(bytes@),
        listed(*old(database)).len() + font_file::faces_claimed(bytes@) < u32::MAX,
    ensures
        ids@.len() == parsed_faces(bytes@).len(),
        ids@.len() <= font_file::faces_claimed(bytes@),
        forall|i: int, j: int|
            0 <= i < j < ids@.len() ==> #[trigger] ids@[i] != #[trigger] ids@[j],
        gains(
            listed(*old(database)),
            ids@,
            new_entries(bytes@, ids@),
            listed(*final(database)),
        ),
        never_dropped(*old(database)) ==> never_dropped(*final(database)) && listed(
            *final(database),
        ) == listed(*old(database)) + new_entries(bytes@, ids@),
{
    let source = cosmic_text::fontdb::Source::Binary(std::sync::Arc::new(bytes.clone()));
    database.load_font_source(source).into_iter().collect()
}

/// Calls `fontdb::Database::faces`. Trusted: it lists the faces of the database in order. The width
/// class of a face is its number in the font file, from one to nine.
#[verifier::external_body]
pub(crate) fn list_faces(database: &Database) -> (faces: Vec<ListedFace>)
    ensures
        faces@.len() == listed(*database).len(),
        forall|k: int|
            0 <= k < faces@.len() ==> (#[trigger] faces@[k]).id == listed(*database)[k].id
                && faces@[k].data() == listed(*database)[k].data,
{
    database.faces().map(|face| ListedFace {
        id: face.id,
        index: face.index,
        families: face.families.iter().map(|family| family.0.clone()).collect(),
        post_script_name: face.post_script_name.clone(),
        style: match face.style {
            cosmic_text::Style::Normal => FontStyle::Normal,
            cosmic_text::Style::Italic => FontStyle::Italic,
            cosmic_text::Style::Oblique => FontStyle::Oblique,
        },
        weight: face.weight.0,
        stretch: face.stretch.to_number(),
    }).collect()
}

/// Calls `fontdb::Database::face`. Trusted: it finds the face that is listed under a key.
#[verifier::external_body]
pub(crate) fn face_index(database: &Database, id: ID) -> (index: Option<u32>)
    ensures
        forall|k: int|
            0 <= k < listed(*database).len() && (#[trigger] listed(*database)[k]).id == id
                ==> index == Some(listed(*database)[k].data.index),
        index is Some ==> exists|k: int|
            0 <= k < listed(*database).len() && (#[trigger] listed(*database)[k]).id == id,
{
    database.face(id).map(|face| face.index)
}

/// Calls `fontdb::Database::remove_face`. Trusted: the face under the key is not listed any more, and
/// the others are as before.
#[verifier::external_body]
pub(crate) fn remove_face(database: &mut Database, id: ID)
    ensures
        listed(*final(database)) == without(listed(*old(database)), seq![id]),
{
    database.remove_face(id)
}

/// Calls the `==` of `fontdb::ID`. Trusted: two keys are equal where they are the same value.
#[verifier::external_body]
pub(crate) fn same_key(a: &ID, b: &ID) -> (same: bool)
    ensures
        same == (*a == *b),
{
    *a == *b
}

/// Calls `cosmic_text::Font::new` for a face that is listed. Trusted: whether it loads is a function of
/// the font file and the place of the face in it, and a face that is not listed does not load. Loading
/// reads every lookup of the layout tables: it does not come to an end where an extension names another
/// extension. Where arithmetic is checked it panics if a list of glyphs or of tables is too long, if the
/// sizes of a device table descend, or if a sum is too large for an address.
#[verifier::external_body]
pub(crate) fn opens(database: &Database, id: ID) -> (loads: bool)
    requires
        forall|k: int|
            0 <= k < listed(*database).len() && (#[trigger] listed(*database)[k]).id == id
                ==> layout_tables::load_fits(
                listed(*database)[k].bytes,
                listed(*database)[k].data.index as int,
            ),
    ensures
        forall|k: int|
            0 <= k < listed(*database).len() && (#[trigger] listed(*database)[k]).id == id
                ==> loads == font_loads(
                listed(*database)[k].bytes,
                listed(*database)[k].data.index,
            ),
        loads ==> exists|k: int|
            0 <= k < listed(*database).len() && (#[trigger] listed(*database)[k]).id == id,
{
    cosmic_text::Font::new(database, id).is_some()
}

/// Calls `swash::FontRef::from_index`, and `swash::Charmap::map` on its character map. Trusted: what
/// the map answers is a function of the font file, the place of the face in it and the character. The
/// map adds the place of a character in a group to the first glyph of the group, and panics where the
/// sum is no number of 32 bits, or where a map of groups is cut off.
#[verifier::external_body]
pub(crate) fn map_char(bytes: &Vec<u8>, index: u32, ch: char) -> (glyph: Option<u16>)
    requires
        font_file::offsets_fit(bytes@),
        charmap::lookup_fits(bytes@, index as int, ch),
    ensures
        glyph == mapped_glyph(bytes@, index, ch),
{
    let font = swash::FontRef::from_index(bytes, index as usize)?;
    Some(font.charmap().map(ch))
}

/// The faces that stay in a list are those whose keys are not named, as they were and in their order.
pub proof fn faces_that_are_not_named_stay(items: Seq<FaceEntry>, ids: Seq<ID>) -> (sources: Seq<int>)
    ensures
        sources.len() == without(items, ids).len(),
        forall|i: int, j: int| 0 <= i < j < sources.len() ==> #[trigger] sources[i] < #[trigger] sources[j],
        forall|i: int|
            0 <= i < sources.len() ==> {
                &&& 0 <= #[trigger] sources[i] < items.len()
                &&& !ids.contains(items[sources[i]].id)
                &&& without(items, ids)[i] == items[sources[i]]
            },
        forall|k: int|
            0 <= k < items.len() && !ids.contains((#[trigger] items[k]).id) ==> sources.contains(k),
    decreases items.len(),
{
    if items.len() == 0 {
        Seq::empty()
    } else {
        let shorter = items.drop_last();
        let rest = faces_that_are_not_named_stay(shorter, ids);
        let last = items.len() - 1;
        let sources = if !ids.contains(items[last].id) {
            rest.push(last)
        } else {
            rest
        };
        assert forall|k: int|
            0 <= k < items.len() && !ids.contains((#[trigger] items[k]).id) implies sources.contains(k) by {
            if k < last {
                assert(shorter[k] == items[k]);
                let i = choose|i: int| 0 <= i < rest.len() && rest[i] == k;
                assert(sources[i] == k);
            } else {
                assert(sources[rest.len() as int] == k);
            }
        }
        assert forall|i: int| 0 <= i < rest.len() implies items[#[trigger] rest[i]]
            == shorter[rest[i]] by {}
        sources
    }
}

/// What a listed face says is what it holds.
pub proof fn listed_faces_show_what_they_hold(face: ListedFace)
    ensures
        face.data().index == face.index,
        face.data().post_script_name == face.post_script_name@,
        face.data().style == face.style,
        face.data().weight == face.weight,
        face.data().stretch == face.stretch,
        face.data().families.len() == face.families@.len(),
        forall|i: int|
            0 <= i < face.families@.len() ==> #[trigger] face.data().families[i]
                == face.families@[i]@,
{
}

} // verus!
