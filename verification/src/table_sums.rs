//! The sums that loading a face forms of numbers of four bytes out of the font file. Lists are as long as
//! such a number says, and tables begin as far behind others as such a number says: where addresses are no
//! longer than four bytes themselves, a sum may be too large for one. The largest sum that is not is
//! `most` here.
use crate::cff_tables;
use crate::charmap::CMAP;
use crate::font_file;
use crate::font_file::TableSpan;
use vstd::prelude::*;

verus! {

/// The name of the table of pictures, as a number.
pub const SBIX: u32 = 0x7362_6978;

/// The name of the table of coloured layers, as a number.
pub const COLR: u32 = 0x434F_4C52;

/// The name of the table of glyph classes, as a number.
pub const GDEF: u32 = 0x4744_4546;

/// The name of the table of substitutions, as a number.
pub const GSUB: u32 = 0x4753_5542;

/// The name of the table of positions, as a number.
pub const GPOS: u32 = 0x4750_4F53;

/// The name of the table of varying widths, as a number.
pub const HVAR: u32 = 0x4856_4152;

/// The name of the table of varying heights, as a number.
pub const VVAR: u32 = 0x5656_4152;

/// The name of the table of varying metrics, as a number.
pub const MVAR: u32 = 0x4D56_4152;

/// The name of the table of compact outlines, as a number.
pub const CFF: u32 = 0x4346_4620;

/// The name of the table of compact outlines that vary, as a number.
pub const CFF2: u32 = 0x4346_4632;

/// More than any of the sums can be.
pub const AMPLE: u64 = 0x100_0000_0000;

/// The version of tables that are made of two numbers, one and nought.
pub const FIRST_VERSION: u64 = 0x0001_0000;

/// The version of glyph classes that vary.
pub const VARYING_CLASSES: u64 = 0x0001_0003;

/// Whether the end of the list at `at` can be told, if its length is there: items of `size` bytes follow
/// on their number. Ends are counted from `base`.
pub open spec fn list_sum_fits(
    data: Seq<u8>,
    base: int,
    at: int,
    end: int,
    size: int,
    most: int,
) -> bool {
    at + 4 <= end ==> at + 4 - base + font_file::be32(data, at) * size <= most
}

/// Whether the place of the regions of the variations at `at` can be told, and the number behind it.
pub open spec fn store_sum_fits(data: Seq<u8>, base: int, at: int, end: int, most: int) -> bool {
    at + 6 <= end && font_file::be16(data, at) == 1 ==> at - base + font_file::be32(data, at + 2) + 2
        <= most
}

/// Whether the list of sizes of a table of pictures ends where it can be told.
pub open spec fn pictures_fit(data: Seq<u8>, start: int, end: int, most: int) -> bool {
    start + 8 <= end && font_file::be16(data, start) == 1 ==> list_sum_fits(
        data,
        start,
        start + 4,
        end,
        4,
        most,
    )
}

/// Whether the lists of a table of coloured layers end where it can be told: those of glyphs, of layers
/// and of clips, and the variations of them.
pub open spec fn layers_fit(data: Seq<u8>, start: int, end: int, most: int) -> bool {
    start + 34 <= end && font_file::be16(data, start) == 1 ==> {
        let glyphs = start + font_file::be32(data, start + 14);
        let layers = start + font_file::be32(data, start + 18);
        let clips = start + font_file::be32(data, start + 22);
        let store = start + font_file::be32(data, start + 30);
        &&& list_sum_fits(data, start, glyphs, end, 6, most)
        &&& layers != start ==> list_sum_fits(data, start, layers, end, 4, most)
        &&& clips != start ==> list_sum_fits(data, clips, clips + 1, end, 7, most)
        &&& store != start ==> store_sum_fits(data, store, store, end, most)
    }
}

/// Whether the list of the character map at `at` ends where it can be told.
pub open spec fn map_sum_fits(data: Seq<u8>, at: int, end: int, most: int) -> bool {
    at + 2 <= end ==> {
        let format = font_file::be16(data, at);
        &&& format == 10 ==> list_sum_fits(data, at, at + 16, end, 2, most)
        &&& format == 12 || format == 13 ==> list_sum_fits(data, at, at + 12, end, 12, most)
        &&& format == 14 ==> list_sum_fits(data, at, at + 6, end, 11, most)
    }
}

/// Whether the list of character map `number` ends where it can be told.
pub open spec fn listed_map_fits(
    data: Seq<u8>,
    start: int,
    end: int,
    most: int,
    number: int,
) -> bool {
    map_sum_fits(data, start + font_file::be32(data, start + 8 + 8 * number), end, most)
}

/// Whether the lists of all character maps end where it can be told.
pub open spec fn maps_fit(data: Seq<u8>, start: int, end: int, most: int) -> bool {
    start + 4 <= end && start + 4 + 8 * font_file::be16(data, start + 2) <= end
        ==> forall|number: int|
        0 <= number < font_file::be16(data, start + 2) ==> #[trigger] listed_map_fits(
            data,
            start,
            end,
            most,
            number,
        )
}

/// Whether the list of the variations of a layout table ends where it can be told.
pub open spec fn variations_fit(data: Seq<u8>, start: int, end: int, most: int) -> bool {
    let at = start + font_file::be32(data, start + 10);
    start + 14 <= end && font_file::be16(data, start) == 1 && font_file::be16(data, start + 2) >= 1
        && at != start && at + 4 <= end && font_file::be16(data, at) == 1 ==> list_sum_fits(
        data,
        at,
        at + 4,
        end,
        8,
        most,
    )
}

/// Whether the place of the variations of glyph classes can be told.
pub open spec fn classes_fit(data: Seq<u8>, start: int, end: int, most: int) -> bool {
    let at = start + font_file::be32(data, start + 14);
    start + 18 <= end && font_file::be32(data, start) == VARYING_CLASSES && at != start
        ==> store_sum_fits(data, at, at, end, most)
}

/// Whether the place of the variations of widths or heights can be told.
pub open spec fn advances_fit(data: Seq<u8>, start: int, end: int, most: int) -> bool {
    start + 8 <= end && font_file::be32(data, start) == FIRST_VERSION ==> store_sum_fits(
        data,
        start,
        start + font_file::be32(data, start + 4),
        end,
        most,
    )
}

/// Whether the place of the variations of metrics can be told.
pub open spec fn metrics_fit(data: Seq<u8>, start: int, end: int, most: int) -> bool {
    let at = start + font_file::be16(data, start + 10);
    start + 12 <= end && font_file::be32(data, start) == FIRST_VERSION && at != start
        ==> store_sum_fits(data, start, at, end, most)
}

/// Whether the sums that are formed over a table of a name fit.
pub open spec fn table_sums_fit(data: Seq<u8>, name: u32, span: TableSpan, most: int) -> bool {
    let start = span.start as int;
    let end = span.end as int;
    if name == SBIX {
        pictures_fit(data, start, end, most)
    } else if name == COLR {
        layers_fit(data, start, end, most)
    } else if name == CMAP {
        maps_fit(data, start, end, most)
    } else if name == GDEF {
        classes_fit(data, start, end, most)
    } else if name == GSUB || name == GPOS {
        variations_fit(data, start, end, most)
    } else if name == HVAR || name == VVAR {
        advances_fit(data, start, end, most)
    } else if name == MVAR {
        metrics_fit(data, start, end, most)
    } else if name == CFF {
        cff_tables::outlines_fit(data, start, end, most)
    } else if name == CFF2 {
        cff_tables::varying_outlines_fit(data, start, end, most)
    } else {
        true
    }
}

/// Whether the sums that are formed over the last table of a name fit.
pub open spec fn named_sums_fit(data: Seq<u8>, face: int, count: int, name: u32, most: int) -> bool {
    match font_file::last_table(data, face, name as int, count) {
        Some(span) => table_sums_fit(data, name, span, most),
        None => true,
    }
}

/// Whether the sums that are formed over the tables of the face at `face` fit.
pub open spec fn sums_fit(data: Seq<u8>, face: int, most: int) -> bool {
    let count = font_file::be16(data, face + 4);
    face + 6 <= data.len() && face + 12 + count * 16 <= data.len() ==> {
        &&& named_sums_fit(data, face, count, SBIX, most)
        &&& named_sums_fit(data, face, count, COLR, most)
        &&& named_sums_fit(data, face, count, CMAP, most)
        &&& named_sums_fit(data, face, count, GDEF, most)
        &&& named_sums_fit(data, face, count, GSUB, most)
        &&& named_sums_fit(data, face, count, GPOS, most)
        &&& named_sums_fit(data, face, count, HVAR, most)
        &&& named_sums_fit(data, face, count, VVAR, most)
        &&& named_sums_fit(data, face, count, MVAR, most)
        &&& named_sums_fit(data, face, count, CFF, most)
        &&& named_sums_fit(data, face, count, CFF2, most)
    }
}

/// Tests whether the end of a list can be told.
fn check_list(data: &Vec<u8>, base: u64, at: u64, end: u64, size: u64, most: u64) -> (fits: bool)
    requires
        base <= at <= 0x4_0000_0000,
        end <= data@.len(),
        size <= 12,
    ensures
        fits == list_sum_fits(
            data@,
            base as int,
            at as int,
            end as int,
            size as int,
            most as int,
        ),
{
    if at + 4 > end {
        return true;
    }
    let count: u64 = font_file::read32(data, at);
    assert(count * size <= 0xFFFF_FFFF * 12) by (nonlinear_arith)
        requires
            count <= 0xFFFF_FFFF,
            size <= 12,
    ;
    at + 4 - base + count * size <= most
}

/// Tests whether the place of the regions of variations can be told.
pub(crate) fn check_store(data: &Vec<u8>, base: u64, at: u64, end: u64, most: u64) -> (fits: bool)
    requires
        base <= at <= 0x4_0000_0000,
        end <= data@.len(),
    ensures
        fits == store_sum_fits(data@, base as int, at as int, end as int, most as int),
{
    at + 6 > end || font_file::read16(data, at) != 1 || at - base + font_file::read32(data, at + 2) + 2
        <= most
}

/// Tests whether the lists of a table of coloured layers end where it can be told.
fn check_layers(data: &Vec<u8>, start: u64, end: u64, most: u64) -> (fits: bool)
    requires
        start <= u32::MAX,
        end <= data@.len(),
    ensures
        fits == layers_fit(data@, start as int, end as int, most as int),
{
    if start + 34 > end || font_file::read16(data, start) != 1 {
        return true;
    }
    let glyphs: u64 = start + font_file::read32(data, start + 14);
    let layers: u64 = start + font_file::read32(data, start + 18);
    let clips: u64 = start + font_file::read32(data, start + 22);
    let store: u64 = start + font_file::read32(data, start + 30);
    check_list(data, start, glyphs, end, 6, most) && (layers == start || check_list(
        data,
        start,
        layers,
        end,
        4,
        most,
    )) && (clips == start || check_list(data, clips, clips + 1, end, 7, most)) && (store == start
        || check_store(data, store, store, end, most))
}

/// Tests whether the list of a character map ends where it can be told.
fn check_map(data: &Vec<u8>, at: u64, end: u64, most: u64) -> (fits: bool)
    requires
        at <= 0x2_0000_0000,
        end <= data@.len(),
    ensures
        fits == map_sum_fits(data@, at as int, end as int, most as int),
{
    if at + 2 > end {
        return true;
    }
    let format: u64 = font_file::read16(data, at);
    if format == 10 {
        check_list(data, at, at + 16, end, 2, most)
    } else if format == 12 || format == 13 {
        check_list(data, at, at + 12, end, 12, most)
    } else if format == 14 {
        check_list(data, at, at + 6, end, 11, most)
    } else {
        true
    }
}

/// Tests whether the lists of all character maps end where it can be told.
fn check_maps(data: &Vec<u8>, start: u64, end: u64, most: u64) -> (fits: bool)
    requires
        start <= u32::MAX,
        end <= data@.len(),
    ensures
        fits == maps_fit(data@, start as int, end as int, most as int),
{
    if start + 4 > end {
        return true;
    }
    let count: u64 = font_file::read16(data, start + 2);
    if start + 4 + 8 * count > end {
        return true;
    }
    let mut number: u64 = 0;
    while number < count
        invariant
            number <= count <= 0xFFFF,
            start <= u32::MAX,
            end <= data@.len(),
            start + 4 + 8 * count <= end,
            count == font_file::be16(data@, start + 2),
            forall|i: int|
                0 <= i < number ==> #[trigger] listed_map_fits(
                    data@,
                    start as int,
                    end as int,
                    most as int,
                    i,
                ),
        decreases count - number,
    {
        let at: u64 = start + font_file::read32(data, start + 8 + 8 * number);
        if !check_map(data, at, end, most) {
            assert(!listed_map_fits(
                data@,
                start as int,
                end as int,
                most as int,
                number as int,
            ));
            return false;
        }
        assert(listed_map_fits(data@, start as int, end as int, most as int, number as int));
        number = number + 1;
    }
    true
}

/// Tests whether the list of the variations of a layout table ends where it can be told.
fn check_variations(data: &Vec<u8>, start: u64, end: u64, most: u64) -> (fits: bool)
    requires
        start <= u32::MAX,
        end <= data@.len(),
    ensures
        fits == variations_fit(data@, start as int, end as int, most as int),
{
    if start + 14 > end || font_file::read16(data, start) != 1 || font_file::read16(data, start + 2)
        < 1 {
        return true;
    }
    let at: u64 = start + font_file::read32(data, start + 10);
    if at == start || at + 4 > end || font_file::read16(data, at) != 1 {
        return true;
    }
    check_list(data, at, at + 4, end, 8, most)
}

/// Tests whether the sums that are formed over a table of a name fit.
fn check_table_sums(data: &Vec<u8>, name: u32, span: TableSpan, most: u64) -> (fits: bool)
    requires
        span.start <= u32::MAX,
        span.start <= span.end <= data@.len(),
        span.end <= span.start + u32::MAX,
    ensures
        fits == table_sums_fit(data@, name, span, most as int),
{
    let start: u64 = span.start;
    let end: u64 = span.end;
    if name == SBIX {
        start + 8 > end || font_file::read16(data, start) != 1 || check_list(
            data,
            start,
            start + 4,
            end,
            4,
            most,
        )
    } else if name == COLR {
        check_layers(data, start, end, most)
    } else if name == CMAP {
        check_maps(data, start, end, most)
    } else if name == GDEF {
        if start + 18 > end || font_file::read32(data, start) != VARYING_CLASSES {
            return true;
        }
        let at: u64 = start + font_file::read32(data, start + 14);
        at == start || check_store(data, at, at, end, most)
    } else if name == GSUB || name == GPOS {
        check_variations(data, start, end, most)
    } else if name == HVAR || name == VVAR {
        start + 8 > end || font_file::read32(data, start) != FIRST_VERSION || check_store(
            data,
            start,
            start + font_file::read32(data, start + 4),
            end,
            most,
        )
    } else if name == MVAR {
        if start + 12 > end || font_file::read32(data, start) != FIRST_VERSION {
            return true;
        }
        let at: u64 = start + font_file::read16(data, start + 10);
        at == start || check_store(data, start, at, end, most)
    } else if name == CFF {
        cff_tables::check_outlines(data, start, end, most)
    } else if name == CFF2 {
        cff_tables::check_varying_outlines(data, start, end, most)
    } else {
        true
    }
}

/// Tests whether the sums that are formed over the last table of a name fit.
fn check_named_sums(data: &Vec<u8>, face: u64, count: u64, name: u32, most: u64) -> (fits: bool)
    requires
        face <= u32::MAX,
        count <= 0xFFFF,
        face + 12 + 16 * count <= data@.len(),
    ensures
        fits == named_sums_fit(data@, face as int, count as int, name, most as int),
{
    match font_file::find_table(data, face, count, name) {
        Some(span) => check_table_sums(data, name, span, most),
        None => true,
    }
}

/// Tests whether the sums that are formed over the tables of the face at `face` fit.
pub fn check_sums(data: &Vec<u8>, face: u32, most: u64) -> (fits: bool)
    ensures
        fits == sums_fit(data@, face as int, most as int),
{
    let len: u64 = data.len() as u64;
    let face: u64 = face as u64;
    if face + 6 > len {
        return true;
    }
    let count: u64 = font_file::read16(data, face + 4);
    if face + 12 + count * 16 > len {
        return true;
    }
    check_named_sums(data, face, count, SBIX, most) && check_named_sums(
        data,
        face,
        count,
        COLR,
        most,
    ) && check_named_sums(data, face, count, CMAP, most) && check_named_sums(
        data,
        face,
        count,
        GDEF,
        most,
    ) && check_named_sums(data, face, count, GSUB, most) && check_named_sums(
        data,
        face,
        count,
        GPOS,
        most,
    ) && check_named_sums(data, face, count, HVAR, most) && check_named_sums(
        data,
        face,
        count,
        VVAR,
        most,
    ) && check_named_sums(data, face, count, MVAR, most) && check_named_sums(
        data,
        face,
        count,
        CFF,
        most,
    ) && check_named_sums(data, face, count, CFF2, most)
}

/// Every sum that is formed over a table fits a long address.
proof fn lemma_named_sums_fit(data: Seq<u8>, face: int, count: int, name: u32, most: int)
    requires
        most >= AMPLE,
    ensures
        named_sums_fit(data, face, count, name, most),
    decreases count,
{
    if count > 0 {
        let record = face + 12 + 16 * (count - 1);
        if font_file::be32(data, record) != name {
            lemma_named_sums_fit(data, face, count - 1, name, most);
        } else {
            let start = font_file::be32(data, record + 8);
            let end = start + font_file::be32(data, record + 12);
            cff_tables::lemma_outlines_fit(data, start, end, most);
        }
    }
}

/// Where addresses are long enough for every sum, no face is refused on their account.
pub proof fn long_addresses_hold_every_sum(data: Seq<u8>, face: int, most: int)
    requires
        most >= AMPLE,
    ensures
        sums_fit(data, face, most),
{
    let count = font_file::be16(data, face + 4);
    lemma_named_sums_fit(data, face, count, SBIX, most);
    lemma_named_sums_fit(data, face, count, COLR, most);
    lemma_named_sums_fit(data, face, count, CMAP, most);
    lemma_named_sums_fit(data, face, count, GDEF, most);
    lemma_named_sums_fit(data, face, count, GSUB, most);
    lemma_named_sums_fit(data, face, count, GPOS, most);
    lemma_named_sums_fit(data, face, count, HVAR, most);
    lemma_named_sums_fit(data, face, count, VVAR, most);
    lemma_named_sums_fit(data, face, count, MVAR, most);
    lemma_named_sums_fit(data, face, count, CFF, most);
    lemma_named_sums_fit(data, face, count, CFF2, most);
}

} // verus!
