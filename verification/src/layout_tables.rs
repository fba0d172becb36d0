//! The layout tables of a face, as far as reading them can go wrong. All lookups are read when a face is
//! loaded: an extension that names another extension leads on without an end, a list of glyphs as long as
//! two bytes can count is counted past its end, the sizes of a device table have to ascend, and a matrix
//! has to end where an address can tell.
use crate::font_file;
use crate::table_sums;
use crate::table_sums::{GPOS, GSUB};
use vstd::prelude::*;

verus! {

/// The length of a list that cannot be counted through.
pub const LONGEST: u64 = 0xFFFF;

/// Whether a list of `count` items of `size` bytes that begins at `at` ends before `end`.
pub open spec fn list_fits(at: int, count: int, size: int, end: int) -> bool {
    at + count * size <= end
}

/// Whether the glyphs of the coverage at `at` can be counted through, as far as they are there: they are
/// listed one by one or in ranges.
pub open spec fn coverage_fits(data: Seq<u8>, at: int, end: int) -> bool {
    at + 4 <= end && font_file::be16(data, at + 2) == LONGEST ==> {
        &&& font_file::be16(data, at) == 1 ==> !list_fits(at + 4, LONGEST as int, 2, end)
        &&& font_file::be16(data, at) == 2 ==> !list_fits(at + 4, LONGEST as int, 6, end)
    }
}

/// Whether a subtable at `at` says where its coverage is at another place than the usual: contexts that
/// are made of coverages do.
pub open spec fn coverage_place(
    data: Seq<u8>,
    at: int,
    end: int,
    is_context: bool,
    is_chained: bool,
) -> int {
    if is_context && at + 4 <= end && font_file::be16(data, at) == 3 {
        at + 6
    } else if is_chained && at + 4 <= end && font_file::be16(data, at) == 3 {
        at + 6 + 2 * font_file::be16(data, at + 2)
    } else {
        at + 2
    }
}

/// Whether the glyphs of the first coverage of a subtable can be counted through.
pub open spec fn covers_fit(
    data: Seq<u8>,
    at: int,
    end: int,
    is_context: bool,
    is_chained: bool,
) -> bool {
    let place = coverage_place(data, at, end, is_context, is_chained);
    place + 2 <= end ==> coverage_fits(data, at + font_file::be16(data, place), end)
}

/// Whether the sizes of the device table at `at` ascend, and are not all there can be.
pub open spec fn device_fits(data: Seq<u8>, at: int, end: int) -> bool {
    at + 6 <= end && 1 <= font_file::be16(data, at + 4) <= 3 ==> {
        &&& font_file::be16(data, at) <= font_file::be16(data, at + 2)
        &&& font_file::be16(data, at + 2) - font_file::be16(data, at) < 0xFFFF
    }
}

/// One, if a bit of a byte is set.
pub open spec fn bit(flags: u8, mask: u8) -> int {
    if flags & mask != 0 {
        1
    } else {
        0
    }
}

/// How many of the bits of a byte below a mask are set.
pub open spec fn bits_below(flags: u8, mask: u8) -> int {
    bit(flags, 1) + bit(flags, 2) + bit(flags, 4) + bit(flags, 8) + if mask > 16 {
        bit(flags, 16)
    } else {
        0
    } + if mask > 32 {
        bit(flags, 32)
    } else {
        0
    } + if mask > 64 {
        bit(flags, 64)
    } else {
        0
    }
}

/// Whether the device table that a bit of the flags of a single adjustment at `at` stands for can be
/// read, if there is one. The adjustment holds a number for each bit that is set.
pub open spec fn flagged_device_fits(data: Seq<u8>, at: int, end: int, mask: u8) -> bool {
    let flags = data[at + 5];
    let place = at + 6 + 2 * bits_below(flags, mask);
    at + 6 <= end && flags & mask != 0 && place + 2 <= end && font_file::be16(data, place) != 0
        ==> device_fits(data, at + font_file::be16(data, place), end)
}

/// Whether the device tables of the single adjustment at `at` can be read.
pub open spec fn adjustment_fits(data: Seq<u8>, at: int, end: int) -> bool {
    at + 6 <= end && font_file::be16(data, at) == 1 ==> {
        &&& flagged_device_fits(data, at, end, 16)
        &&& flagged_device_fits(data, at, end, 32)
        &&& flagged_device_fits(data, at, end, 64)
        &&& flagged_device_fits(data, at, end, 128)
    }
}

/// How many of the bits of a byte are set.
pub open spec fn ones(flags: u8) -> int {
    bits_below(flags, 128) + bit(flags, 128)
}

/// Whether the end of the matrix of an adjustment of pairs of classes at `at` can be told. It holds two
/// records for each pair, of two bytes for each bit of their flags.
pub open spec fn pairs_fit(data: Seq<u8>, at: int, end: int, most: int) -> bool {
    at + 16 <= end && font_file::be16(data, at) == 2 ==> 16 + font_file::be16(data, at + 12)
        * font_file::be16(data, at + 14) * (2 * (ones(data[at + 5]) + ones(data[at + 7]))) <= most
}

/// Whether the end of the matrix of anchors of an attachment of marks at `at` can be told. It holds an
/// offset of two bytes for each row and each class of marks.
pub open spec fn anchors_fit(data: Seq<u8>, at: int, end: int, most: int) -> bool {
    let matrix = at + font_file::be16(data, at + 10);
    at + 12 <= end && font_file::be16(data, at) == 1 && matrix + 2 <= end ==> 2 + font_file::be16(
        data,
        matrix,
    ) * font_file::be16(data, at + 6) * 2 <= most
}

/// Whether the subtable at `at` of a kind that is no extension can be read. Substitutions and positions
/// count their kinds differently.
pub open spec fn plain_fits(data: Seq<u8>, at: int, end: int, positions: bool, kind: int) -> bool {
    if positions {
        &&& 1 <= kind <= 8 ==> covers_fit(data, at, end, kind == 7, kind == 8)
        &&& kind == 1 ==> adjustment_fits(data, at, end)
        &&& kind == 2 ==> pairs_fit(data, at, end, usize::MAX as int)
        &&& kind == 4 || kind == 6 ==> anchors_fit(data, at, end, usize::MAX as int)
    } else {
        1 <= kind <= 8 && kind != 7 ==> covers_fit(data, at, end, kind == 5, kind == 6)
    }
}

/// The kind of extensions.
pub open spec fn extension_kind(positions: bool) -> int {
    if positions {
        9
    } else {
        7
    }
}

/// Whether the subtable at `at` can be read. An extension says of which kind it is, and where the
/// subtable is that it stands for; it must not be an extension again.
pub open spec fn subtable_fits(data: Seq<u8>, at: int, end: int, positions: bool, kind: int) -> bool {
    if kind == extension_kind(positions) {
        at + 8 <= end && font_file::be16(data, at) == 1 ==> {
            &&& font_file::be16(data, at + 2) != extension_kind(positions)
            &&& plain_fits(
                data,
                at + font_file::be32(data, at + 4),
                end,
                positions,
                font_file::be16(data, at + 2),
            )
        }
    } else {
        plain_fits(data, at, end, positions, kind)
    }
}

/// Whether subtable `number` of the lookup at `lookup` can be read.
pub open spec fn listed_subtable_fits(
    data: Seq<u8>,
    lookup: int,
    end: int,
    positions: bool,
    number: int,
) -> bool {
    subtable_fits(
        data,
        lookup + font_file::be16(data, lookup + 6 + 2 * number),
        end,
        positions,
        font_file::be16(data, lookup),
    )
}

/// Whether the lookup at `lookup` can be read.
pub open spec fn lookup_fits(data: Seq<u8>, lookup: int, end: int, positions: bool) -> bool {
    lookup + 6 <= end && list_fits(lookup + 6, font_file::be16(data, lookup + 4), 2, end)
        ==> forall|number: int|
        0 <= number < font_file::be16(data, lookup + 4) ==> #[trigger] listed_subtable_fits(
            data,
            lookup,
            end,
            positions,
            number,
        )
}

/// Whether lookup `number` of the list at `list` can be read, if there is one.
pub open spec fn listed_lookup_fits(
    data: Seq<u8>,
    list: int,
    end: int,
    positions: bool,
    number: int,
) -> bool {
    font_file::be16(data, list + 2 + 2 * number) != 0 ==> lookup_fits(
        data,
        list + font_file::be16(data, list + 2 + 2 * number),
        end,
        positions,
    )
}

/// Whether the list of named records at `at` is there.
pub open spec fn records_there(data: Seq<u8>, at: int, end: int) -> bool {
    at + 2 <= end && list_fits(at + 2, font_file::be16(data, at), 6, end)
}

/// Whether a layout table is taken up at all: it is of the first version, and the lists that it begins
/// with are there.
pub open spec fn table_counts(data: Seq<u8>, start: int, end: int) -> bool {
    &&& start + 10 <= end
    &&& font_file::be16(data, start) == 1
    &&& font_file::be16(data, start + 2) >= 1 ==> start + 14 <= end
    &&& records_there(data, start + font_file::be16(data, start + 4), end)
    &&& records_there(data, start + font_file::be16(data, start + 6), end)
    &&& start + font_file::be16(data, start + 8) + 2 <= end
    &&& list_fits(
        start + font_file::be16(data, start + 8) + 2,
        font_file::be16(data, start + font_file::be16(data, start + 8)),
        2,
        end,
    )
}

/// Whether all lookups of a layout table can be read.
pub open spec fn table_fits(data: Seq<u8>, start: int, end: int, positions: bool) -> bool {
    let list = start + font_file::be16(data, start + 8);
    table_counts(data, start, end) ==> forall|number: int|
        0 <= number < font_file::be16(data, list) ==> #[trigger] listed_lookup_fits(
            data,
            list,
            end,
            positions,
            number,
        )
}

/// Whether the last layout table of a name can be read.
pub open spec fn named_table_fits(
    data: Seq<u8>,
    face: int,
    count: int,
    name: int,
    positions: bool,
) -> bool {
    match font_file::last_table(data, face, name, count) {
        Some(span) => table_fits(data, span.start as int, span.end as int, positions),
        None => true,
    }
}

/// Whether the face at `face` can be loaded: its table records can be counted through, and its layout
/// tables can be read.
pub open spec fn face_fits(data: Seq<u8>, face: int) -> bool {
    let count = font_file::be16(data, face + 4);
    face + 6 <= data.len() && list_fits(face + 12, count, 16, data.len() as int) ==> {
        &&& count < LONGEST
        &&& named_table_fits(data, face, count, GSUB as int, false)
        &&& named_table_fits(data, face, count, GPOS as int, true)
    }
}

/// Whether a face of a font file can be loaded: its layout tables can be read, and no sum that is formed
/// on the way is too large for an address.
pub open spec fn load_fits(data: Seq<u8>, index: int) -> bool {
    match font_file::face_start(data, index) {
        Some(face) => face_fits(data, face) && table_sums::sums_fit(data, face, usize::MAX as int),
        None => true,
    }
}

/// Tests whether the glyphs of a coverage can be counted through.
fn check_coverage(data: &Vec<u8>, at: u64, end: u64) -> (fits: bool)
    requires
        at <= 0x4_0000_0000,
        end <= data@.len(),
    ensures
        fits == coverage_fits(data@, at as int, end as int),
{
    if at + 4 > end || font_file::read16(data, at + 2) != LONGEST {
        return true;
    }
    let format: u64 = font_file::read16(data, at);
    if format == 1 {
        at + 4 + LONGEST * 2 > end
    } else if format == 2 {
        at + 4 + LONGEST * 6 > end
    } else {
        true
    }
}

/// Tests whether the glyphs of the first coverage of a subtable can be counted through.
fn check_covers(data: &Vec<u8>, at: u64, end: u64, is_context: bool, is_chained: bool) -> (fits: bool)
    requires
        at <= 0x3_0000_0000,
        end <= data@.len(),
    ensures
        fits == covers_fit(data@, at as int, end as int, is_context, is_chained),
{
    let place: u64 = if (is_context || is_chained) && at + 4 <= end && font_file::read16(data, at)
        == 3 {
        if is_context {
            at + 6
        } else {
            at + 6 + 2 * font_file::read16(data, at + 2)
        }
    } else {
        at + 2
    };
    assert(place == coverage_place(data@, at as int, end as int, is_context, is_chained));
    if place + 2 > end {
        return true;
    }
    check_coverage(data, at + font_file::read16(data, place), end)
}

/// Tests whether the sizes of a device table ascend.
fn check_device(data: &Vec<u8>, at: u64, end: u64) -> (fits: bool)
    requires
        at <= 0x4_0000_0000,
        end <= data@.len(),
    ensures
        fits == device_fits(data@, at as int, end as int),
{
    if at + 6 > end {
        return true;
    }
    let format: u64 = font_file::read16(data, at + 4);
    if format < 1 || format > 3 {
        return true;
    }
    let first: u64 = font_file::read16(data, at);
    let last: u64 = font_file::read16(data, at + 2);
    first <= last && last - first < 0xFFFF
}

/// Tests a bit of a byte.
fn one_if(flags: u8, mask: u8) -> (one: u64)
    ensures
        one == bit(flags, mask),
        one <= 1,
{
    if flags & mask != 0 {
        1
    } else {
        0
    }
}

/// Counts the bits of a byte that are set below a mask.
fn count_below(flags: u8, mask: u8) -> (count: u64)
    ensures
        count == bits_below(flags, mask),
        count <= 7,
{
    let values: u64 = one_if(flags, 1) + one_if(flags, 2) + one_if(flags, 4) + one_if(flags, 8);
    let first: u64 = if mask > 16 {
        one_if(flags, 16)
    } else {
        0
    };
    let second: u64 = if mask > 32 {
        one_if(flags, 32)
    } else {
        0
    };
    let third: u64 = if mask > 64 {
        one_if(flags, 64)
    } else {
        0
    };
    values + first + second + third
}

/// Tests whether the device table that a bit stands for can be read.
fn check_flagged(data: &Vec<u8>, at: u64, end: u64, mask: u8) -> (fits: bool)
    requires
        at <= 0x3_0000_0000,
        end <= data@.len(),
    ensures
        fits == flagged_device_fits(data@, at as int, end as int, mask),
{
    if at + 6 > end {
        return true;
    }
    let flags: u8 = font_file::read8(data, at + 5);
    if flags & mask == 0 {
        return true;
    }
    let place: u64 = at + 6 + 2 * count_below(flags, mask);
    if place + 2 > end {
        return true;
    }
    let offset: u64 = font_file::read16(data, place);
    offset == 0 || check_device(data, at + offset, end)
}

/// Counts the bits of a byte that are set.
fn count_ones(flags: u8) -> (count: u64)
    ensures
        count == ones(flags),
        count <= 8,
{
    count_below(flags, 128) + one_if(flags, 128)
}

/// Tests whether the end of the matrix of an adjustment of pairs of classes can be told.
fn check_pairs(data: &Vec<u8>, at: u64, end: u64, most: u64) -> (fits: bool)
    requires
        at <= 0x3_0000_0000,
        end <= data@.len(),
    ensures
        fits == pairs_fit(data@, at as int, end as int, most as int),
{
    if at + 16 > end || font_file::read16(data, at) != 2 {
        return true;
    }
    let first: u64 = font_file::read16(data, at + 12);
    let second: u64 = font_file::read16(data, at + 14);
    let size: u64 = 2 * (count_ones(font_file::read8(data, at + 5)) + count_ones(
        font_file::read8(data, at + 7),
    ));
    assert(first * second <= 0xFFFF * 0xFFFF && first * second * size <= 0xFFFF * 0xFFFF * 32)
        by (nonlinear_arith)
        requires
            first <= 0xFFFF,
            second <= 0xFFFF,
            size <= 32,
    ;
    16 + first * second * size <= most
}

/// Tests whether the end of the matrix of anchors of an attachment of marks can be told.
fn check_anchors(data: &Vec<u8>, at: u64, end: u64, most: u64) -> (fits: bool)
    requires
        at <= 0x3_0000_0000,
        end <= data@.len(),
    ensures
        fits == anchors_fit(data@, at as int, end as int, most as int),
{
    if at + 12 > end || font_file::read16(data, at) != 1 {
        return true;
    }
    let matrix: u64 = at + font_file::read16(data, at + 10);
    if matrix + 2 > end {
        return true;
    }
    let rows: u64 = font_file::read16(data, matrix);
    let classes: u64 = font_file::read16(data, at + 6);
    assert(rows * classes <= 0xFFFF * 0xFFFF) by (nonlinear_arith)
        requires
            rows <= 0xFFFF,
            classes <= 0xFFFF,
    ;
    2 + rows * classes * 2 <= most
}

/// Tests whether a subtable of a kind that is no extension can be read.
fn check_plain(data: &Vec<u8>, at: u64, end: u64, positions: bool, kind: u64) -> (fits: bool)
    requires
        at <= 0x3_0000_0000,
        end <= data@.len(),
    ensures
        fits == plain_fits(data@, at as int, end as int, positions, kind as int),
{
    if kind < 1 || kind > 8 {
        return true;
    }
    if !positions {
        return kind == 7 || check_covers(data, at, end, kind == 5, kind == 6);
    }
    if !check_covers(data, at, end, kind == 7, kind == 8) {
        return false;
    }
    if kind == 2 {
        return check_pairs(data, at, end, usize::MAX as u64);
    }
    if kind == 4 || kind == 6 {
        return check_anchors(data, at, end, usize::MAX as u64);
    }
    if kind != 1 || at + 6 > end || font_file::read16(data, at) != 1 {
        return true;
    }
    check_flagged(data, at, end, 16) && check_flagged(data, at, end, 32) && check_flagged(
        data,
        at,
        end,
        64,
    ) && check_flagged(data, at, end, 128)
}

/// Tests whether a subtable can be read.
fn check_subtable(data: &Vec<u8>, at: u64, end: u64, positions: bool, kind: u64) -> (fits: bool)
    requires
        at <= 0x1_1000_0000,
        end <= data@.len(),
    ensures
        fits == subtable_fits(data@, at as int, end as int, positions, kind as int),
{
    let extension: u64 = if positions {
        9
    } else {
        7
    };
    if kind != extension {
        return check_plain(data, at, end, positions, kind);
    }
    if at + 8 > end || font_file::read16(data, at) != 1 {
        return true;
    }
    let inner: u64 = font_file::read16(data, at + 2);
    inner != extension && check_plain(
        data,
        at + font_file::read32(data, at + 4),
        end,
        positions,
        inner,
    )
}

/// Tests whether a lookup can be read.
fn check_listed_lookup(data: &Vec<u8>, lookup: u64, end: u64, positions: bool) -> (fits: bool)
    requires
        lookup <= 0x1_0800_0000,
        end <= data@.len(),
    ensures
        fits == lookup_fits(data@, lookup as int, end as int, positions),
{
    if lookup + 6 > end {
        return true;
    }
    let kind: u64 = font_file::read16(data, lookup);
    let count: u64 = font_file::read16(data, lookup + 4);
    if lookup + 6 + count * 2 > end {
        return true;
    }
    let mut number: u64 = 0;
    while number < count
        invariant
            number <= count <= 0xFFFF,
            lookup <= 0x1_0800_0000,
            end <= data@.len(),
            lookup + 6 + count * 2 <= end,
            kind == font_file::be16(data@, lookup as int),
            count == font_file::be16(data@, lookup + 4),
            forall|i: int|
                0 <= i < number ==> #[trigger] listed_subtable_fits(
                    data@,
                    lookup as int,
                    end as int,
                    positions,
                    i,
                ),
        decreases count - number,
    {
        let at: u64 = lookup + font_file::read16(data, lookup + 6 + 2 * number);
        if !check_subtable(data, at, end, positions, kind) {
            assert(!listed_subtable_fits(
                data@,
                lookup as int,
                end as int,
                positions,
                number as int,
            ));
            return false;
        }
        assert(listed_subtable_fits(data@, lookup as int, end as int, positions, number as int));
        number = number + 1;
    }
    true
}

/// Tests whether a list of named records is there.
fn check_records(data: &Vec<u8>, at: u64, end: u64) -> (there: bool)
    requires
        at <= 0x1_0000_FFFF,
        end <= data@.len(),
    ensures
        there == records_there(data@, at as int, end as int),
{
    at + 2 <= end && at + 2 + font_file::read16(data, at) * 6 <= end
}

/// Tests whether all lookups of a layout table can be read.
fn check_table(data: &Vec<u8>, start: u64, end: u64, positions: bool) -> (fits: bool)
    requires
        start <= u32::MAX,
        end <= data@.len(),
    ensures
        fits == table_fits(data@, start as int, end as int, positions),
{
    if start + 10 > end || font_file::read16(data, start) != 1 {
        return true;
    }
    if font_file::read16(data, start + 2) >= 1 && start + 14 > end {
        return true;
    }
    if !check_records(data, start + font_file::read16(data, start + 4), end) || !check_records(
        data,
        start + font_file::read16(data, start + 6),
        end,
    ) {
        return true;
    }
    let list: u64 = start + font_file::read16(data, start + 8);
    if list + 2 > end {
        return true;
    }
    let count: u64 = font_file::read16(data, list);
    if list + 2 + count * 2 > end {
        return true;
    }
    let mut number: u64 = 0;
    while number < count
        invariant
            number <= count <= 0xFFFF,
            list <= 0x1_0000_FFFF,
            end <= data@.len(),
            list + 2 + count * 2 <= end,
            list == start + font_file::be16(data@, start + 8),
            table_counts(data@, start as int, end as int),
            count == font_file::be16(data@, list as int),
            forall|i: int|
                0 <= i < number ==> #[trigger] listed_lookup_fits(
                    data@,
                    list as int,
                    end as int,
                    positions,
                    i,
                ),
        decreases count - number,
    {
        let offset: u64 = font_file::read16(data, list + 2 + 2 * number);
        if offset != 0 && !check_listed_lookup(data, list + offset, end, positions) {
            assert(!listed_lookup_fits(data@, list as int, end as int, positions, number as int));
            return false;
        }
        assert(listed_lookup_fits(data@, list as int, end as int, positions, number as int));
        number = number + 1;
    }
    true
}

/// Tests whether the last layout table of a name can be read.
fn check_named(data: &Vec<u8>, face: u64, count: u64, name: u32, positions: bool) -> (fits: bool)
    requires
        face <= u32::MAX,
        count <= 0xFFFF,
        face + 12 + 16 * count <= data@.len(),
    ensures
        fits == named_table_fits(data@, face as int, count as int, name as int, positions),
{
    match font_file::find_table(data, face, count, name) {
        Some(span) => check_table(data, span.start, span.end, positions),
        None => true,
    }
}

/// Tests whether a face of a font file can be loaded.
pub fn check_load(data: &Vec<u8>, index: u32) -> (fits: bool)
    ensures
        fits == load_fits(data@, index as int),
{
    let len: u64 = data.len() as u64;
    let face: u64 = match font_file::find_face(data, index) {
        Some(face) => face,
        None => {
            return true;
        },
    };
    if !table_sums::check_sums(data, face as u32, usize::MAX as u64) {
        return false;
    }
    if face + 6 > len {
        return true;
    }
    let count: u64 = font_file::read16(data, face + 4);
    if face + 12 + count * 16 > len {
        return true;
    }
    count < LONGEST && check_named(data, face, count, GSUB, false) && check_named(
        data,
        face,
        count,
        GPOS,
        true,
    )
}

/// Extensions are the ninth of the positions and the seventh of the substitutions.
pub proof fn extensions_are_numbered_apart()
    ensures
        extension_kind(true) == 9,
        extension_kind(false) == 7,
{
}

/// A coverage is only too long to be counted through where it claims all glyphs there can be and holds
/// them.
pub proof fn shorter_coverages_can_be_counted(data: Seq<u8>, at: int, end: int)
    ensures
        at + 4 > end ==> coverage_fits(data, at, end),
        font_file::be16(data, at + 2) < 0xFFFF ==> coverage_fits(data, at, end),
        font_file::be16(data, at) != 1 && font_file::be16(data, at) != 2 ==> coverage_fits(
            data,
            at,
            end,
        ),
        font_file::be16(data, at) == 1 && font_file::be16(data, at + 2) == 0xFFFF && at + 4 + 2
            * 0xFFFF <= end ==> !coverage_fits(data, at, end),
        font_file::be16(data, at) == 2 && font_file::be16(data, at + 2) == 0xFFFF && at + 4 + 6
            * 0xFFFF <= end ==> !coverage_fits(data, at, end),
{
}

/// A device table whose sizes ascend can be read, and one whose sizes descend cannot.
pub proof fn device_sizes_ascend(data: Seq<u8>, at: int, end: int)
    requires
        at + 6 <= end,
        1 <= font_file::be16(data, at + 4) <= 3,
        0 <= font_file::be16(data, at),
        font_file::be16(data, at + 2) < 0xFFFF,
    ensures
        device_fits(data, at, end) <==> font_file::be16(data, at) <= font_file::be16(data, at + 2),
{
}

/// A face that a file does not have is no hindrance.
pub proof fn missing_faces_are_no_hindrance(data: Seq<u8>, index: int)
    requires
        font_file::face_start(data, index) is None,
    ensures
        load_fits(data, index),
{
}

} // verus!
