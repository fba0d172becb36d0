//! The character maps of a face, as far as looking up a character in them can go wrong: a map of groups
//! adds the place of a character inside its group to the first glyph of the group, and the sum has to be
//! a number of 32 bits.
use crate::font_file;
use vstd::prelude::*;

verus! {

/// The name of the table of character maps, as a number.
pub const CMAP: u32 = 0x636D_6170;

/// Where the table of a name begins among the table records from `low` up to `high` of the face at
/// `face`, which are searched by halves; zero where it is not found.
pub open spec fn table_start(data: Seq<u8>, face: int, name: int, low: int, high: int) -> int
    decreases high - low,
{
    if low >= high {
        0
    } else {
        let middle = (low + high) / 2;
        let record = face + 12 + 16 * middle;
        if record + 4 > data.len() {
            0
        } else if name < font_file::be32(data, record) {
            table_start(data, face, name, low, middle)
        } else if name > font_file::be32(data, record) {
            table_start(data, face, name, middle + 1, high)
        } else if record + 16 > data.len() || font_file::be32(data, record + 8) + font_file::be32(
            data,
            record + 12,
        ) > u32::MAX {
            0
        } else {
            font_file::be32(data, record + 8)
        }
    }
}

/// A character map: where it begins, whether it is one of groups, and whether it is one of symbols.
pub struct PickedMap {
    pub start: int,
    pub has_groups: bool,
    pub is_symbol: bool,
}

/// Whether a character map is one of symbols.
pub open spec fn names_symbols(platform: int, encoding: int) -> bool {
    platform == 3 && encoding == 0
}

/// Whether a character map is one of Unicode.
pub open spec fn names_unicode(platform: int, encoding: int) -> bool {
    platform == 0 || (platform == 3 && (encoding == 1 || encoding == 10))
}

/// The character map that is searched, among those of the table at `table` from `number` on: the first
/// one of symbols, or else the last one of groups for Unicode, or else the first one of segments for it.
/// `best` is the best one before `number`. Nothing is picked where the table is cut off.
pub open spec fn picked_map(
    data: Seq<u8>,
    table: int,
    number: int,
    best: Option<PickedMap>,
) -> Option<PickedMap>
    decreases font_file::be16(data, table + 2) - number,
{
    if number >= font_file::be16(data, table + 2) {
        best
    } else {
        let entry = table + 4 + 8 * number;
        let start = table + font_file::be32(data, entry + 4);
        let platform = font_file::be16(data, entry);
        let encoding = font_file::be16(data, entry + 2);
        if entry + 8 > data.len() || start + 2 > data.len() {
            None
        } else if data[start + 1] != 4 && data[start + 1] != 12 {
            picked_map(data, table, number + 1, best)
        } else if start > u32::MAX {
            None
        } else {
            let has_groups = data[start + 1] == 12;
            if names_symbols(platform, encoding) {
                Some(PickedMap { start, has_groups, is_symbol: true })
            } else if names_unicode(platform, encoding) && (has_groups || best is None) {
                picked_map(
                    data,
                    table,
                    number + 1,
                    Some(PickedMap { start, has_groups, is_symbol: false }),
                )
            } else {
                picked_map(data, table, number + 1, best)
            }
        }
    }
}

/// The character map in which the characters of the face at `face` are looked up.
pub open spec fn face_map(data: Seq<u8>, face: int) -> Option<PickedMap> {
    if face + 6 > data.len() {
        None
    } else {
        let table = table_start(data, face, CMAP as int, 0, font_file::be16(data, face + 4));
        if table == 0 || table + 4 > data.len() {
            None
        } else {
            picked_map(data, table, 0, None)
        }
    }
}

/// Whether the glyph of a code in group `group` is a number of 32 bits, if the group holds the code. The
/// groups begin at `first`; each holds its first code, its last one and the glyph of the first.
pub open spec fn group_fits(data: Seq<u8>, first: int, group: int, code: int) -> bool {
    let at = first + 12 * group;
    font_file::be32(data, at) <= code <= font_file::be32(data, at + 4) ==> font_file::be32(
        data,
        at + 8,
    ) + (code - font_file::be32(data, at)) <= u32::MAX
}

/// Whether a code can be looked up in the map of groups that begins at `map`.
pub open spec fn groups_fit(data: Seq<u8>, map: int, code: int) -> bool {
    let count = font_file::be32(data, map + 12);
    &&& map + 16 <= data.len()
    &&& count * 12 <= usize::MAX
    &&& map + 16 + count * 12 <= data.len() ==> forall|group: int|
        0 <= group < count ==> #[trigger] group_fits(data, map + 16, group, code)
}

/// Whether a character can be looked up in a map. In a map of symbols, a character of one byte is also
/// looked up in an area of its own.
pub open spec fn map_fits(data: Seq<u8>, map: PickedMap, ch: char) -> bool {
    map.has_groups ==> {
        &&& groups_fit(data, map.start, ch as int)
        &&& map.is_symbol && ch as int <= 0xFF ==> groups_fit(data, map.start, ch as int + 0xF000)
    }
}

/// Whether a character can be looked up in a face of a font file.
pub open spec fn lookup_fits(data: Seq<u8>, index: int, ch: char) -> bool {
    match font_file::face_start(data, index) {
        Some(face) => match face_map(data, face) {
            Some(map) => map_fits(data, map, ch),
            None => true,
        },
        None => true,
    }
}

/// Finds where the table of character maps begins, or zero.
fn find_table(data: &Vec<u8>, face: u64, count: u64) -> (start: u64)
    requires
        face <= u32::MAX,
        count <= 0xFFFF,
    ensures
        start == table_start(data@, face as int, CMAP as int, 0, count as int),
        start <= u32::MAX,
{
    let len: u64 = data.len() as u64;
    let mut low: u64 = 0;
    let mut high: u64 = count;
    while low < high
        invariant
            low <= high <= 0xFFFF,
            face <= u32::MAX,
            len == data@.len(),
            table_start(data@, face as int, CMAP as int, 0, count as int) == table_start(
                data@,
                face as int,
                CMAP as int,
                low as int,
                high as int,
            ),
        decreases high - low,
    {
        let middle: u64 = (low + high) / 2;
        let record: u64 = face + 12 + 16 * middle;
        if record + 4 > len {
            return 0;
        }
        let name: u64 = font_file::read32(data, record);
        if (CMAP as u64) < name {
            high = middle;
        } else if CMAP as u64 > name {
            low = middle + 1;
        } else {
            if record + 16 > len {
                return 0;
            }
            let start: u64 = font_file::read32(data, record + 8);
            if start + font_file::read32(data, record + 12) > u32::MAX as u64 {
                return 0;
            }
            return start;
        }
    }
    0
}

/// A character map as it is found.
struct FoundMap {
    start: u64,
    has_groups: bool,
    is_symbol: bool,
}

/// What is known of a map that is found.
spec fn found_view(found: Option<FoundMap>) -> Option<PickedMap> {
    match found {
        Some(map) => Some(
            PickedMap {
                start: map.start as int,
                has_groups: map.has_groups,
                is_symbol: map.is_symbol,
            },
        ),
        None => None,
    }
}

/// Whether a map that is found begins where a number of 32 bits can point.
spec fn found_near(found: Option<FoundMap>) -> bool {
    found is Some ==> found->0.start <= u32::MAX
}

/// Finds the character map that is searched.
fn pick_map(data: &Vec<u8>, table: u64) -> (found: Option<FoundMap>)
    requires
        table <= u32::MAX,
        table + 4 <= data@.len(),
    ensures
        found_view(found) == picked_map(data@, table as int, 0, None),
        found_near(found),
{
    let len: u64 = data.len() as u64;
    let count: u64 = font_file::read16(data, table + 2);
    let mut best: Option<FoundMap> = None;
    let mut number: u64 = 0;
    while number < count
        invariant
            number <= count <= 0xFFFF,
            table <= u32::MAX,
            len == data@.len(),
            count == font_file::be16(data@, table + 2),
            found_near(best),
            picked_map(data@, table as int, 0, None) == picked_map(
                data@,
                table as int,
                number as int,
                found_view(best),
            ),
        decreases count - number,
    {
        let entry: u64 = table + 4 + 8 * number;
        if entry + 8 > len {
            return None;
        }
        let platform: u64 = font_file::read16(data, entry);
        let encoding: u64 = font_file::read16(data, entry + 2);
        let start: u64 = table + font_file::read32(data, entry + 4);
        if start + 2 > len {
            return None;
        }
        let format: u8 = font_file::read8(data, start + 1);
        if format == 4 || format == 12 {
            if start > u32::MAX as u64 {
                return None;
            }
            let has_groups: bool = format == 12;
            if platform == 3 && encoding == 0 {
                return Some(FoundMap { start, has_groups, is_symbol: true });
            }
            let unicode: bool = platform == 0 || (platform == 3 && (encoding == 1 || encoding
                == 10));
            if unicode && (has_groups || best.is_none()) {
                best = Some(FoundMap { start, has_groups, is_symbol: false });
            }
        }
        number = number + 1;
    }
    best
}

/// Tests whether a code can be looked up in a map of groups.
fn check_groups(data: &Vec<u8>, map: u64, code: u64) -> (fits: bool)
    requires
        map <= u32::MAX,
        code <= 0x20_FFFF,
    ensures
        fits == groups_fit(data@, map as int, code as int),
{
    let len: u64 = data.len() as u64;
    if len < map + 16 {
        return false;
    }
    let count: u64 = font_file::read32(data, map + 12);
    if count * 12 > usize::MAX as u64 {
        return false;
    }
    let first: u64 = map + 16;
    if first + count * 12 > len {
        return true;
    }
    let mut group: u64 = 0;
    while group < count
        invariant
            group <= count <= 0xFFFF_FFFF,
            map <= u32::MAX,
            code <= 0x20_FFFF,
            first == map + 16,
            len == data@.len(),
            count == font_file::be32(data@, map + 12),
            first + count * 12 <= len,
            forall|i: int|
                0 <= i < group ==> #[trigger] group_fits(data@, first as int, i, code as int),
        decreases count - group,
    {
        let at: u64 = first + group * 12;
        let start: u64 = font_file::read32(data, at);
        let end: u64 = font_file::read32(data, at + 4);
        let glyph: u64 = font_file::read32(data, at + 8);
        if start <= code && code <= end && glyph + (code - start) > u32::MAX as u64 {
            assert(!group_fits(data@, first as int, group as int, code as int));
            return false;
        }
        assert(group_fits(data@, first as int, group as int, code as int));
        group = group + 1;
    }
    true
}

/// Tests whether a character can be looked up in a face of a font file.
pub fn check_lookup(data: &Vec<u8>, index: u32, ch: char) -> (fits: bool)
    ensures
        fits == lookup_fits(data@, index as int, ch),
{
    let len: u64 = data.len() as u64;
    let face: u64 = match font_file::find_face(data, index) {
        Some(face) => face,
        None => {
            return true;
        },
    };
    if face + 6 > len {
        return true;
    }
    let count: u64 = font_file::read16(data, face + 4);
    let table: u64 = find_table(data, face, count);
    if table == 0 || table + 4 > len {
        return true;
    }
    match pick_map(data, table) {
        Some(map) => {
            if !map.has_groups {
                return true;
            }
            let code: u64 = ch as u64;
            if !check_groups(data, map.start, code) {
                return false;
            }
            !map.is_symbol || code > 0xFF || check_groups(data, map.start, code + 0xF000)
        },
        None => true,
    }
}

/// Maps of the platform with number three and encoding zero are those of symbols. Those of Unicode are
/// all of platform zero, and of platform three those of encoding one and ten.
pub proof fn maps_are_told_by_platform_and_encoding(platform: int, encoding: int)
    ensures
        names_symbols(platform, encoding) <==> platform == 3 && encoding == 0,
        platform == 0 ==> names_unicode(platform, encoding),
        platform == 3 ==> (names_unicode(platform, encoding) <==> encoding == 1 || encoding == 10),
        platform != 0 && platform != 3 ==> !names_unicode(platform, encoding),
{
}

/// In records whose names ascend, a table is found where its record says.
pub proof fn ascending_tables_are_found(
    data: Seq<u8>,
    face: int,
    name: int,
    low: int,
    high: int,
    wanted: int,
)
    requires
        0 <= face,
        0 <= low <= wanted < high,
        face + 12 + 16 * high <= data.len(),
        font_file::be32(data, face + 12 + 16 * wanted) == name,
        font_file::be32(data, face + 12 + 16 * wanted + 8) + font_file::be32(
            data,
            face + 12 + 16 * wanted + 12,
        ) <= u32::MAX,
        forall|i: int, j: int|
            low <= i < j < high ==> font_file::be32(data, #[trigger] font_file::record_at(face, i))
                < font_file::be32(data, #[trigger] font_file::record_at(face, j)),
    ensures
        table_start(data, face, name, low, high) == font_file::be32(
            data,
            face + 12 + 16 * wanted + 8,
        ),
    decreases high - low,
{
    let middle = (low + high) / 2;
    let record = font_file::record_at(face, middle);
    assert(font_file::be32(data, font_file::record_at(face, wanted)) == name);
    assert(record == face + 12 + 16 * middle);
    if wanted < middle {
        assert(name < font_file::be32(data, record));
        ascending_tables_are_found(data, face, name, low, middle, wanted);
    } else if wanted > middle {
        assert(name > font_file::be32(data, record));
        ascending_tables_are_found(data, face, name, middle + 1, high, wanted);
    }
}

/// A name that no record has is found nowhere.
pub proof fn missing_tables_are_not_found(data: Seq<u8>, face: int, name: int, low: int, high: int)
    requires
        forall|i: int|
            low <= i < high ==> font_file::be32(data, #[trigger] font_file::record_at(face, i))
                != name,
    ensures
        table_start(data, face, name, low, high) == 0,
    decreases high - low,
{
    if low < high {
        let middle = (low + high) / 2;
        assert(font_file::be32(data, font_file::record_at(face, middle)) != name);
        missing_tables_are_not_found(data, face, name, low, middle);
        missing_tables_are_not_found(data, face, name, middle + 1, high);
    }
}

/// Whether entry `number` of the table at `table` lists a map of segments or groups.
pub open spec fn lists_map(data: Seq<u8>, table: int, number: int) -> bool {
    let start = table + font_file::be32(data, table + 4 + 8 * number + 4);
    data[start + 1] == 4 || data[start + 1] == 12
}

/// Whether entry `number` of the table at `table` lists a map of symbols.
pub open spec fn lists_symbols(data: Seq<u8>, table: int, number: int) -> bool {
    lists_map(data, table, number) && font_file::be16(data, table + 4 + 8 * number) == 3
        && font_file::be16(data, table + 4 + 8 * number + 2) == 0
}

/// The first map of symbols is picked before any other map, whatever comes behind it.
pub proof fn the_first_map_of_symbols_is_picked(
    data: Seq<u8>,
    table: int,
    number: int,
    best: Option<PickedMap>,
    first: int,
)
    requires
        0 <= number <= first < font_file::be16(data, table + 2),
        lists_symbols(data, table, first),
        forall|k: int| number <= k < first ==> !#[trigger] lists_symbols(data, table, k),
        picked_map(data, table, number, best) is Some,
    ensures
        picked_map(data, table, number, best) matches Some(map) && {
            let start = table + font_file::be32(data, table + 4 + 8 * first + 4);
            &&& map.is_symbol
            &&& map.start == start
            &&& map.has_groups <==> data[start + 1] == 12
        },
    decreases first - number,
{
    if number < first {
        assert(!lists_symbols(data, table, number));
        let entry = table + 4 + 8 * number;
        let start = table + font_file::be32(data, entry + 4);
        let platform = font_file::be16(data, entry);
        let encoding = font_file::be16(data, entry + 2);
        let has_groups = data[start + 1] == 12;
        let next = if data[start + 1] != 4 && data[start + 1] != 12 {
            best
        } else if names_unicode(platform, encoding) && (has_groups || best is None) {
            Some(PickedMap { start, has_groups, is_symbol: false })
        } else {
            best
        };
        the_first_map_of_symbols_is_picked(data, table, number + 1, next, first);
    }
}

/// Without a map of symbols the map that is picked is one of Unicode that the table lists, and one of
/// groups wherever there is any.
pub proof fn maps_of_groups_are_preferred(
    data: Seq<u8>,
    table: int,
    number: int,
    best: Option<PickedMap>,
)
    requires
        0 <= number,
        forall|k: int|
            number <= k < font_file::be16(data, table + 2) ==> !#[trigger] lists_symbols(
                data,
                table,
                k,
            ),
        best is Some ==> !best->0.is_symbol,
        picked_map(data, table, number, best) is Some,
    ensures
        ({
            let map = picked_map(data, table, number, best)->0;
            &&& !map.is_symbol
            &&& Some(map) == best || exists|k: int|
                number <= k < font_file::be16(data, table + 2) && #[trigger] lists_map(
                    data,
                    table,
                    k,
                ) && map.start == table + font_file::be32(data, table + 4 + 8 * k + 4)
                    && names_unicode(
                    font_file::be16(data, table + 4 + 8 * k),
                    font_file::be16(data, table + 4 + 8 * k + 2),
                ) && (map.has_groups <==> data[map.start + 1] == 12)
            &&& best is Some && best->0.has_groups ==> map.has_groups
            &&& forall|k: int|
                number <= k < font_file::be16(data, table + 2) && #[trigger] lists_map(
                    data,
                    table,
                    k,
                ) && names_unicode(
                    font_file::be16(data, table + 4 + 8 * k),
                    font_file::be16(data, table + 4 + 8 * k + 2),
                ) && data[table + font_file::be32(data, table + 4 + 8 * k + 4) + 1] == 12
                    ==> map.has_groups
        }),
    decreases font_file::be16(data, table + 2) - number,
{
    if number < font_file::be16(data, table + 2) {
        assert(!lists_symbols(data, table, number));
        let entry = table + 4 + 8 * number;
        let start = table + font_file::be32(data, entry + 4);
        let platform = font_file::be16(data, entry);
        let encoding = font_file::be16(data, entry + 2);
        let has_groups = data[start + 1] == 12;
        let next = if data[start + 1] != 4 && data[start + 1] != 12 {
            best
        } else if names_unicode(platform, encoding) && (has_groups || best is None) {
            Some(PickedMap { start, has_groups, is_symbol: false })
        } else {
            best
        };
        maps_of_groups_are_preferred(data, table, number + 1, next);
        assert(lists_map(data, table, number) <==> data[start + 1] == 4 || data[start + 1] == 12);
    }
}

/// Where no map of groups is picked, every character can be looked up.
pub proof fn maps_without_groups_never_overflow(data: Seq<u8>, index: int, ch: char)
    requires
        font_file::face_start(data, index) matches Some(face) ==> (face_map(data, face) matches Some(
            map,
        ) ==> !map.has_groups),
    ensures
        lookup_fits(data, index, ch),
{
}

/// In a map of groups that is all there, a character can be looked up exactly where no group that holds
/// it gives it a glyph past the largest number of four bytes.
pub proof fn groups_give_glyphs_of_four_bytes(data: Seq<u8>, map: int, code: int, group: int)
    requires
        map + 16 <= data.len(),
        font_file::be32(data, map + 12) * 12 <= usize::MAX,
        map + 16 + font_file::be32(data, map + 12) * 12 <= data.len(),
        0 <= group < font_file::be32(data, map + 12),
        font_file::be32(data, map + 16 + 12 * group) <= code <= font_file::be32(
            data,
            map + 16 + 12 * group + 4,
        ),
    ensures
        groups_fit(data, map, code) ==> font_file::be32(data, map + 16 + 12 * group + 8) + code
            - font_file::be32(data, map + 16 + 12 * group) <= 0xFFFF_FFFF,
        font_file::be32(data, map + 16 + 12 * group + 8) + code - font_file::be32(
            data,
            map + 16 + 12 * group,
        ) > 0xFFFF_FFFF ==> !groups_fit(data, map, code),
{
    if groups_fit(data, map, code) {
        assert(group_fits(data, map + 16, group, code));
    }
}

} // verus!
