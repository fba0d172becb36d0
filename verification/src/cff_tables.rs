//! The tables of compact outlines, as far as reading them forms sums of numbers out of the font file. Such
//! a table is made of indices, which are lists of items of different lengths, and of dictionaries, which
//! say where more indices are. In the variant for outlines that vary, indices count in four bytes instead
//! of two.
use crate::font_file;
use crate::font_file::TableSpan;
use crate::table_sums;
use vstd::prelude::*;

verus! {

/// The operator for the place of the outlines.
pub const CHAR_STRINGS: u64 = 17;

/// The operator for the length and the place of a private dictionary.
pub const PRIVATE: u64 = 18;

/// The operator for the place of the subroutines, counted from their dictionary.
pub const SUBROUTINES: u64 = 19;

/// The operator for the place of variations.
pub const VARIATIONS: u64 = 24;

/// The operator for the place of the font dictionaries; it takes two bytes.
pub const FONT_DICTIONARIES: u64 = 1236;

/// How many bytes the number of items of an index takes.
pub open spec fn count_len(wide: bool) -> int {
    if wide {
        4
    } else {
        2
    }
}

/// The number of items of the index at `at`.
pub open spec fn item_count(data: Seq<u8>, at: int, wide: bool) -> int {
    if wide {
        font_file::be32(data, at)
    } else {
        font_file::be16(data, at)
    }
}

/// Whether an index has no items. The largest number that there is counts for none.
pub open spec fn has_none(data: Seq<u8>, at: int, wide: bool) -> bool {
    item_count(data, at, wide) == 0 || item_count(data, at, wide) == u32::MAX
}

/// How many bytes an offset of the index at `at` takes.
pub open spec fn offset_len(data: Seq<u8>, at: int, wide: bool) -> int {
    data[at + count_len(wide)] as int
}

/// Whether the index at `at` has items, and offsets of one to four bytes.
pub open spec fn has_items(data: Seq<u8>, at: int, end: int, wide: bool) -> bool {
    &&& at + count_len(wide) + 1 <= end
    &&& !has_none(data, at, wide)
    &&& 1 <= offset_len(data, at, wide) <= 4
}

/// Where the items of the index at `at` begin, behind one more offset than items.
pub open spec fn items_start(data: Seq<u8>, at: int, wide: bool) -> int {
    at + count_len(wide) + 1 + (item_count(data, at, wide) + 1) * offset_len(data, at, wide)
}

/// The number of `len` bytes at `at`.
pub open spec fn sized_number(data: Seq<u8>, at: int, len: int) -> int {
    if len == 1 {
        data[at] as int
    } else if len == 2 {
        font_file::be16(data, at)
    } else if len == 3 {
        data[at] * 65536 + font_file::be16(data, at + 1)
    } else {
        font_file::be32(data, at)
    }
}

/// Offset `number` of the index at `at`. Offsets count from one.
pub open spec fn item_offset(data: Seq<u8>, at: int, wide: bool, number: int) -> int {
    let len = offset_len(data, at, wide);
    sized_number(data, at + count_len(wide) + 1 + number * len, len)
}

/// Whether the ends of the offsets and of the items of the index at `at` can be told, and the number
/// behind them. Ends are counted from `base`.
pub open spec fn index_fits(
    data: Seq<u8>,
    base: int,
    at: int,
    end: int,
    wide: bool,
    most: int,
) -> bool {
    let items = items_start(data, at, wide);
    let last = item_offset(data, at, wide, item_count(data, at, wide));
    has_items(data, at, end, wide) ==> {
        &&& items - base <= most
        &&& items <= end && last >= 1 ==> items + last - 1 + count_len(wide) - base <= most
    }
}

/// Where the index at `at` ends, if it can be read that far.
pub open spec fn index_end(data: Seq<u8>, at: int, end: int, wide: bool) -> Option<int> {
    let items = items_start(data, at, wide);
    let last = item_offset(data, at, wide, item_count(data, at, wide));
    if at + count_len(wide) > end {
        None
    } else if has_none(data, at, wide) {
        Some(at + count_len(wide))
    } else if !has_items(data, at, end, wide) || items > end {
        None
    } else if last >= 1 {
        Some(items + last - 1)
    } else {
        Some(items)
    }
}

/// The part of the file that item `number` of the index at `at` covers, if it is there.
pub open spec fn item_span(data: Seq<u8>, at: int, end: int, wide: bool, number: int) -> Option<
    TableSpan,
> {
    let items = items_start(data, at, wide);
    let first = item_offset(data, at, wide, number);
    let next = item_offset(data, at, wide, number + 1);
    if has_items(data, at, end, wide) && items <= end && 0 <= number < item_count(data, at, wide)
        && 1 <= first <= next && items + next - 1 <= end {
        Some(TableSpan { start: (items + first - 1) as u64, end: (items + next - 1) as u64 })
    } else {
        None
    }
}

/// An operator of a dictionary: where it is, and where its operands begin.
#[derive(Clone, Copy, Debug, PartialEq, Eq, Structural)]
pub struct DictEntry {
    pub operator: u64,
    pub operands: u64,
    pub at: u64,
}

/// Whether a byte of a dictionary is an operator, or else begins a number.
pub open spec fn is_operator(byte: u8) -> bool {
    byte <= 27 || byte == 31 || byte == 255
}

/// Whether a byte ends a number that is written out in digits.
pub open spec fn ends_digits(byte: u8) -> bool {
    byte / 16 == 15 || byte % 16 == 15
}

/// Where a number that is written out in digits ends.
pub open spec fn digits_end(data: Seq<u8>, at: int, end: int) -> int
    decreases end - at,
{
    if at >= end {
        at
    } else if ends_digits(data[at]) {
        at + 1
    } else {
        digits_end(data, at + 1, end)
    }
}

/// Where the number at `at` ends.
pub open spec fn number_end(data: Seq<u8>, at: int, end: int) -> int {
    let byte = data[at];
    if byte == 28 {
        at + 3
    } else if byte == 29 {
        at + 5
    } else if byte == 30 {
        digits_end(data, at + 1, end)
    } else if byte <= 246 {
        at + 1
    } else {
        at + 2
    }
}

/// The operator at `at`, and where it ends. One that begins with twelve takes two bytes.
pub open spec fn operator_at(data: Seq<u8>, at: int) -> (int, int) {
    if data[at] == 12 {
        (1200 + data[at + 1], at + 2)
    } else {
        (data[at] as int, at + 1)
    }
}

/// The operators of a dictionary from `at` on, where the operands of the first begin at `operands`.
pub open spec fn dict_entries(data: Seq<u8>, operands: int, at: int, end: int) -> Seq<DictEntry>
    decreases
            if at < end {
                end - at
            } else {
                0
            },
    via dict_entries_end
{
    if at >= end {
        Seq::empty()
    } else if !is_operator(data[at]) {
        dict_entries(data, operands, number_end(data, at, end), end)
    } else if data[at] == 12 && at + 1 >= end {
        Seq::empty()
    } else {
        let (operator, next) = operator_at(data, at);
        seq![DictEntry { operator: operator as u64, operands: operands as u64, at: at as u64 }]
            + dict_entries(data, next, next, end)
    }
}

#[via_fn]
proof fn dict_entries_end(data: Seq<u8>, operands: int, at: int, end: int) {
    lemma_digits_end(data, at + 1, end);
}

/// A number that is written out in digits does not end before it begins.
proof fn lemma_digits_end(data: Seq<u8>, at: int, end: int)
    ensures
        digits_end(data, at, end) >= at,
    decreases end - at,
{
    if at < end && !ends_digits(data[at]) {
        lemma_digits_end(data, at + 1, end);
    }
}

/// The value of the number at `at`, if it is written as an integer.
pub open spec fn integer_at(data: Seq<u8>, at: int) -> Option<int> {
    let byte = data[at];
    if byte == 28 {
        let value = font_file::be16(data, at + 1);
        Some(if value < 0x8000 {
            value
        } else {
            value - 0x1_0000
        })
    } else if byte == 29 {
        let value = font_file::be32(data, at + 1);
        Some(if value < 0x8000_0000 {
            value
        } else {
            value - 0x1_0000_0000
        })
    } else if byte == 30 {
        None
    } else if byte <= 246 {
        Some(byte - 139)
    } else if byte <= 250 {
        Some((byte - 247) * 256 + data[at + 1] + 108)
    } else {
        Some(-(byte - 251) * 256 - data[at + 1] - 108)
    }
}

/// Whether an operator has one operand.
pub open spec fn has_one(data: Seq<u8>, entry: DictEntry) -> bool {
    entry.operands < entry.at && number_end(data, entry.operands as int, entry.at as int)
        == entry.at
}

/// Where the second operand of an operator begins.
pub open spec fn second_operand(data: Seq<u8>, entry: DictEntry) -> int {
    number_end(data, entry.operands as int, entry.at as int)
}

/// Whether an operator has two operands.
pub open spec fn has_two(data: Seq<u8>, entry: DictEntry) -> bool {
    let second = second_operand(data, entry);
    entry.operands < entry.at && second < entry.at && number_end(data, second, entry.at as int)
        == entry.at
}

/// Whether the index that an operator places behind `start` fits. One that is placed by a number in
/// digits may be anywhere.
pub open spec fn placed_index_fits(
    data: Seq<u8>,
    start: int,
    end: int,
    entry: DictEntry,
    wide: bool,
    most: int,
) -> bool {
    has_one(data, entry) ==> match integer_at(data, entry.operands as int) {
        Some(offset) => offset >= 0 ==> index_fits(data, start, start + offset, end, wide, most),
        None => most >= table_sums::AMPLE,
    }
}

/// Whether the subroutines of a private dictionary fit. They are read on their own.
pub open spec fn subroutines_fit(
    data: Seq<u8>,
    start: int,
    end: int,
    entry: DictEntry,
    wide: bool,
    most: int,
) -> bool {
    entry.operator == SUBROUTINES && has_one(data, entry) ==> match integer_at(
        data,
        entry.operands as int,
    ) {
        Some(offset) => offset >= 0 ==> index_fits(
            data,
            start + offset,
            start + offset,
            end,
            wide,
            most,
        ),
        None => most >= table_sums::AMPLE,
    }
}

/// Whether the private dictionary from `start` to `dict_end` fits.
pub open spec fn private_fits(
    data: Seq<u8>,
    start: int,
    dict_end: int,
    end: int,
    wide: bool,
    most: int,
) -> bool {
    let entries = dict_entries(data, start, start, dict_end);
    forall|k: int|
        0 <= k < entries.len() ==> subroutines_fit(
            data,
            start,
            end,
            #[trigger] entries[k],
            wide,
            most,
        )
}

/// Whether the private dictionary that an operator places in the table fits.
pub open spec fn placed_private_fits(
    data: Seq<u8>,
    start: int,
    end: int,
    entry: DictEntry,
    wide: bool,
    most: int,
) -> bool {
    entry.operator == PRIVATE && has_two(data, entry) ==> match (
        integer_at(data, entry.operands as int),
        integer_at(data, second_operand(data, entry)),
    ) {
        (Some(len), Some(offset)) => len >= 0 && offset >= 0 && start + offset + len <= end
            ==> private_fits(data, start + offset, start + offset + len, end, wide, most),
        _ => most >= table_sums::AMPLE,
    }
}

/// Whether the private dictionaries that a font dictionary places fit.
pub open spec fn font_dict_fits(
    data: Seq<u8>,
    start: int,
    end: int,
    dict: TableSpan,
    wide: bool,
    most: int,
) -> bool {
    let entries = dict_entries(data, dict.start as int, dict.start as int, dict.end as int);
    forall|k: int|
        0 <= k < entries.len() ==> placed_private_fits(
            data,
            start,
            end,
            #[trigger] entries[k],
            wide,
            most,
        )
}

/// Whether item `number` of the index at `at` fits as a font dictionary, if it is there.
pub open spec fn item_fits(
    data: Seq<u8>,
    start: int,
    at: int,
    end: int,
    wide: bool,
    most: int,
    number: int,
) -> bool {
    match item_span(data, at, end, wide, number) {
        Some(dict) => font_dict_fits(data, start, end, dict, wide, most),
        None => true,
    }
}

/// Whether the font dictionaries that an operator places fit. They are read at once where outlines vary.
pub open spec fn font_dicts_fit(
    data: Seq<u8>,
    start: int,
    end: int,
    entry: DictEntry,
    most: int,
) -> bool {
    has_one(data, entry) ==> match integer_at(data, entry.operands as int) {
        Some(offset) => offset >= 0 ==> forall|number: int|
            0 <= number < item_count(data, start + offset, true) ==> #[trigger] item_fits(
                data,
                start,
                start + offset,
                end,
                true,
                most,
                number,
            ),
        None => most >= table_sums::AMPLE,
    }
}

/// Whether the place of the variations that an operator tells can be told, behind their length.
pub open spec fn placed_store_fits(
    data: Seq<u8>,
    start: int,
    end: int,
    entry: DictEntry,
    most: int,
) -> bool {
    has_one(data, entry) ==> match integer_at(data, entry.operands as int) {
        Some(offset) => offset >= 0 ==> table_sums::store_sum_fits(
            data,
            start,
            start + offset + 2,
            end,
            most,
        ),
        None => most >= table_sums::AMPLE,
    }
}

/// Whether what an operator of the first dictionary of a table places fits.
pub open spec fn entry_fits(
    data: Seq<u8>,
    start: int,
    end: int,
    entry: DictEntry,
    wide: bool,
    most: int,
) -> bool {
    if entry.operator == CHAR_STRINGS {
        placed_index_fits(data, start, end, entry, wide, most)
    } else if entry.operator == FONT_DICTIONARIES {
        &&& placed_index_fits(data, start, end, entry, wide, most)
        &&& wide ==> font_dicts_fit(data, start, end, entry, most)
    } else if entry.operator == VARIATIONS {
        wide ==> placed_store_fits(data, start, end, entry, most)
    } else {
        wide || placed_private_fits(data, start, end, entry, wide, most)
    }
}

/// Whether what the first dictionary of a table places fits.
pub open spec fn top_dict_fits(
    data: Seq<u8>,
    start: int,
    end: int,
    dict: TableSpan,
    wide: bool,
    most: int,
) -> bool {
    let entries = dict_entries(data, dict.start as int, dict.start as int, dict.end as int);
    forall|k: int|
        0 <= k < entries.len() ==> entry_fits(data, start, end, #[trigger] entries[k], wide, most)
}

/// Where a table goes on behind a header that says how long it is.
pub open spec fn header_end(data: Seq<u8>, start: int, least: int) -> int {
    if data[start + 2] > least {
        start + data[start + 2]
    } else {
        start + least
    }
}

/// Whether the indices of strings and of subroutines fit, one behind the other.
pub open spec fn later_indices_fit(data: Seq<u8>, start: int, at: int, end: int, most: int) -> bool {
    &&& index_fits(data, start, at, end, false, most)
    &&& match index_end(data, at, end, false) {
        Some(next) => index_fits(data, start, next, end, false, most),
        None => true,
    }
}

/// Whether the sums that are formed over a table of compact outlines fit: over the indices of names, of
/// dictionaries, of strings and of subroutines, and over what the first dictionary places.
pub open spec fn outlines_fit(data: Seq<u8>, start: int, end: int, most: int) -> bool {
    let names = header_end(data, start, 4);
    start + 3 <= end && data[start] == 1 ==> {
        &&& index_fits(data, start, names, end, false, most)
        &&& match index_end(data, names, end, false) {
            Some(dicts) => {
                &&& index_fits(data, start, dicts, end, false, most)
                &&& match item_span(data, dicts, end, false, 0) {
                    Some(dict) => top_dict_fits(data, start, end, dict, false, most),
                    None => true,
                }
                &&& match index_end(data, dicts, end, false) {
                    Some(strings) => later_indices_fit(data, start, strings, end, most),
                    None => true,
                }
            },
            None => true,
        }
    }
}

/// Whether the sums that are formed over a table of compact outlines that vary fit: over the index of
/// subroutines behind the first dictionary, and over what that dictionary places.
pub open spec fn varying_outlines_fit(data: Seq<u8>, start: int, end: int, most: int) -> bool {
    let dict = header_end(data, start, 5);
    let dict_end = dict + font_file::be16(data, start + 3);
    start + 5 <= end && data[start] == 2 && dict_end <= end ==> {
        &&& index_fits(data, start, dict_end, end, true, most)
        &&& top_dict_fits(
            data,
            start,
            end,
            TableSpan { start: dict as u64, end: dict_end as u64 },
            true,
            most,
        )
    }
}

/// Reads a number of one to four bytes.
fn read_sized(data: &Vec<u8>, at: u64, len: u64) -> (value: u64)
    requires
        1 <= len <= 4,
        at + len <= data@.len(),
    ensures
        value == sized_number(data@, at as int, len as int),
        value <= 0xFFFF_FFFF,
{
    let total: usize = data.len();
    assert(at + len <= total);
    if len == 1 {
        font_file::read8(data, at) as u64
    } else if len == 2 {
        font_file::read16(data, at)
    } else if len == 3 {
        font_file::read8(data, at) as u64 * 65536 + font_file::read16(data, at + 1)
    } else {
        font_file::read32(data, at)
    }
}

/// The frame of an index that has items.
struct IndexFrame {
    count: u64,
    offset_len: u64,
    offsets: u64,
    items: u64,
}

/// Whether a frame is that of the index at `at`.
spec fn frames(data: Seq<u8>, at: int, wide: bool, frame: IndexFrame) -> bool {
    &&& frame.count == item_count(data, at, wide)
    &&& 1 <= frame.count <= u32::MAX
    &&& frame.offset_len == offset_len(data, at, wide)
    &&& 1 <= frame.offset_len <= 4
    &&& frame.offsets == at + count_len(wide) + 1
    &&& frame.items == items_start(data, at, wide)
    &&& frame.items == frame.offsets + frame.count * frame.offset_len + frame.offset_len
    &&& frame.items <= frame.offsets + 0x4_0000_0000
}

/// How many bytes the number of items of an index takes.
fn len_of_count(wide: bool) -> (len: u64)
    ensures
        len == count_len(wide),
{
    if wide {
        4
    } else {
        2
    }
}

/// Reads the number of items of an index.
fn read_count(data: &Vec<u8>, at: u64, wide: bool) -> (count: u64)
    requires
        at + count_len(wide) <= data@.len(),
    ensures
        count == item_count(data@, at as int, wide),
        count <= u32::MAX,
{
    if wide {
        font_file::read32(data, at)
    } else {
        font_file::read16(data, at)
    }
}

/// Reads the frame of an index, if it has items.
fn read_frame(data: &Vec<u8>, at: u64, end: u64, wide: bool) -> (frame: Option<IndexFrame>)
    requires
        at <= 0x8_0000_0000,
        end <= data@.len(),
    ensures
        match frame {
            Some(frame) => has_items(data@, at as int, end as int, wide) && frames(
                data@,
                at as int,
                wide,
                frame,
            ),
            None => !has_items(data@, at as int, end as int, wide),
        },
{
    let head: u64 = len_of_count(wide);
    if at + head + 1 > end {
        return None;
    }
    let count: u64 = read_count(data, at, wide);
    let offset_len: u64 = font_file::read8(data, at + head) as u64;
    if count == 0 || count == u32::MAX as u64 || offset_len < 1 || offset_len > 4 {
        return None;
    }
    assert(count * offset_len <= 0xFFFF_FFFF * 4 && (count + 1) * offset_len == count * offset_len
        + offset_len) by (nonlinear_arith)
        requires
            count < 0xFFFF_FFFF,
            offset_len <= 4,
    ;
    let offsets: u64 = at + head + 1;
    let items: u64 = offsets + count * offset_len + offset_len;
    Some(IndexFrame { count, offset_len, offsets, items })
}

/// Reads an offset of an index.
fn read_offset(data: &Vec<u8>, at: u64, end: u64, wide: bool, frame: &IndexFrame, number: u64) -> (offset:
    u64)
    requires
        frames(data@, at as int, wide, *frame),
        frame.offsets <= 0x9_0000_0000,
        frame.items <= end <= data@.len(),
        number <= frame.count,
    ensures
        offset == item_offset(data@, at as int, wide, number as int),
        offset <= 0xFFFF_FFFF,
{
    assert(number * frame.offset_len <= frame.count * frame.offset_len && number * frame.offset_len
        <= 0xFFFF_FFFF * 4) by (nonlinear_arith)
        requires
            number <= frame.count <= 0xFFFF_FFFF,
            frame.offset_len <= 4,
    ;
    read_sized(data, frame.offsets + number * frame.offset_len, frame.offset_len)
}

/// Tests whether the ends of the offsets and of the items of an index can be told.
fn check_index(data: &Vec<u8>, base: u64, at: u64, end: u64, wide: bool, most: u64) -> (fits: bool)
    requires
        base <= at <= 0x8_0000_0000,
        end <= data@.len(),
    ensures
        fits == index_fits(
            data@,
            base as int,
            at as int,
            end as int,
            wide,
            most as int,
        ),
{
    match read_frame(data, at, end, wide) {
        Some(frame) => {
            if frame.items - base > most {
                return false;
            }
            if frame.items > end {
                return true;
            }
            let last: u64 = read_offset(data, at, end, wide, &frame, frame.count);
            last < 1 || frame.items + last - 1 + len_of_count(wide) - base <= most
        },
        None => true,
    }
}

/// Finds where an index ends.
fn find_end(data: &Vec<u8>, at: u64, end: u64, wide: bool) -> (found: Option<u64>)
    requires
        at <= 0x8_0000_0000,
        end <= data@.len(),
        end <= 0x2_0000_0000,
    ensures
        match found {
            Some(next) => index_end(data@, at as int, end as int, wide) == Some(next as int)
                && at <= next <= 0x4_0000_0000,
            None => index_end(data@, at as int, end as int, wide) is None,
        },
{
    let head: u64 = len_of_count(wide);
    if at + head > end {
        return None;
    }
    let count: u64 = read_count(data, at, wide);
    if count == 0 || count == u32::MAX as u64 {
        return Some(at + head);
    }
    match read_frame(data, at, end, wide) {
        Some(frame) => {
            if frame.items > end {
                return None;
            }
            let last: u64 = read_offset(data, at, end, wide, &frame, frame.count);
            if last >= 1 {
                Some(frame.items + last - 1)
            } else {
                Some(frame.items)
            }
        },
        None => None,
    }
}

/// Finds the part of the file that an item of an index covers.
fn find_item(data: &Vec<u8>, at: u64, end: u64, wide: bool, frame: &IndexFrame, number: u64) -> (span:
    Option<TableSpan>)
    requires
        has_items(data@, at as int, end as int, wide),
        frames(data@, at as int, wide, *frame),
        frame.offsets <= 0x9_0000_0000,
        frame.items <= end <= data@.len(),
        number < frame.count,
    ensures
        span == item_span(data@, at as int, end as int, wide, number as int),
        span matches Some(span) ==> span.start <= span.end <= end,
{
    let first: u64 = read_offset(data, at, end, wide, frame, number);
    let next: u64 = read_offset(data, at, end, wide, frame, number + 1);
    if 1 <= first && first <= next && frame.items + next - 1 <= end {
        Some(TableSpan { start: frame.items + first - 1, end: frame.items + next - 1 })
    } else {
        None
    }
}

/// Finds where a number that is written out in digits ends.
fn find_digits_end(data: &Vec<u8>, at: u64, end: u64) -> (found: u64)
    requires
        at <= 0x8_0000_0000,
        end <= data@.len(),
        end <= 0x2_0000_0000,
    ensures
        found == digits_end(data@, at as int, end as int),
        found >= at,
        found <= at || found <= end,
{
    let mut place: u64 = at;
    while place < end && !(font_file::read8(data, place) / 16 == 15 || font_file::read8(data, place)
        % 16 == 15)
        invariant
            at <= place,
            place <= at || place <= end,
            end <= data@.len(),
            end <= 0x2_0000_0000,
            digits_end(data@, at as int, end as int) == digits_end(
                data@,
                place as int,
                end as int,
            ),
        decreases end - place,
    {
        place = place + 1;
    }
    if place < end {
        place + 1
    } else {
        place
    }
}

/// Finds where a number ends.
fn find_number_end(data: &Vec<u8>, at: u64, end: u64) -> (found: u64)
    requires
        at < end <= data@.len(),
        end <= 0x2_0000_0000,
    ensures
        found == number_end(data@, at as int, end as int),
        at < found <= 0x2_0000_0005,
{
    let byte: u8 = font_file::read8(data, at);
    if byte == 28 {
        at + 3
    } else if byte == 29 {
        at + 5
    } else if byte == 30 {
        find_digits_end(data, at + 1, end)
    } else if byte <= 246 {
        at + 1
    } else {
        at + 2
    }
}

/// Reads the operators of a dictionary.
fn read_dict(data: &Vec<u8>, start: u64, end: u64) -> (entries: Vec<DictEntry>)
    requires
        end <= data@.len(),
        start <= end <= 0x2_0000_0000,
    ensures
        entries@ == dict_entries(data@, start as int, start as int, end as int),
        forall|k: int| 0 <= k < entries@.len() ==> (#[trigger] entries@[k]).at < end,
{
    let mut entries: Vec<DictEntry> = Vec::new();
    let mut operands: u64 = start;
    let mut at: u64 = start;
    assert(entries@ + dict_entries(data@, operands as int, at as int, end as int) =~= dict_entries(
        data@,
        start as int,
        start as int,
        end as int,
    ));
    while at < end
        invariant
            end <= data@.len(),
            end <= 0x2_0000_0000,
            at <= 0x2_0000_0005,
            operands <= 0x2_0000_0005,
            entries@ + dict_entries(data@, operands as int, at as int, end as int) == dict_entries(
                data@,
                start as int,
                start as int,
                end as int,
            ),
            forall|k: int| 0 <= k < entries@.len() ==> (#[trigger] entries@[k]).at < end,
        decreases 0x2_0000_0005 - at,
    {
        let byte: u8 = font_file::read8(data, at);
        if !(byte <= 27 || byte == 31 || byte == 255) {
            at = find_number_end(data, at, end);
        } else if byte == 12 && at + 1 >= end {
            assert(entries@ =~= dict_entries(data@, start as int, start as int, end as int));
            return entries;
        } else {
            let ghost before = entries@;
            let operator: u64 = if byte == 12 {
                1200 + font_file::read8(data, at + 1) as u64
            } else {
                byte as u64
            };
            let next: u64 = if byte == 12 {
                at + 2
            } else {
                at + 1
            };
            let entry: DictEntry = DictEntry { operator, operands, at };
            entries.push(entry);
            assert(dict_entries(data@, operands as int, at as int, end as int) == seq![entry]
                + dict_entries(data@, next as int, next as int, end as int));
            assert(entries@ + dict_entries(data@, next as int, next as int, end as int) =~= before
                + dict_entries(data@, operands as int, at as int, end as int));
            operands = next;
            at = next;
        }
    }
    assert(entries@ =~= dict_entries(data@, start as int, start as int, end as int));
    entries
}

/// Reads a number that is written as an integer.
fn read_integer(data: &Vec<u8>, at: u64, end: u64) -> (value: Option<i64>)
    requires
        at < end <= data@.len(),
        end <= 0x2_0000_0000,
        number_end(data@, at as int, end as int) <= end,
    ensures
        match value {
            Some(value) => integer_at(data@, at as int) == Some(value as int) && value
                <= 0x7FFF_FFFF,
            None => integer_at(data@, at as int) is None,
        },
{
    let byte: u8 = font_file::read8(data, at);
    if byte == 28 {
        let value: i64 = font_file::read16(data, at + 1) as i64;
        Some(if value < 0x8000 {
            value
        } else {
            value - 0x1_0000
        })
    } else if byte == 29 {
        let value: i64 = font_file::read32(data, at + 1) as i64;
        Some(if value < 0x8000_0000 {
            value
        } else {
            value - 0x1_0000_0000
        })
    } else if byte == 30 {
        None
    } else if byte <= 246 {
        Some(byte as i64 - 139)
    } else if byte <= 250 {
        Some((byte as i64 - 247) * 256 + font_file::read8(data, at + 1) as i64 + 108)
    } else {
        Some(-(byte as i64 - 251) * 256 - font_file::read8(data, at + 1) as i64 - 108)
    }
}

/// The only operand of an operator.
enum Operand {
    /// There are more, or none.
    Other,
    /// It is written out in digits.
    Digits,
    Integer(i64),
}

/// Reads the only operand of an operator.
fn read_operand(data: &Vec<u8>, entry: &DictEntry) -> (operand: Operand)
    requires
        entry.at <= data@.len(),
        entry.at <= 0x2_0000_0000,
    ensures
        match operand {
            Operand::Other => !has_one(data@, *entry),
            Operand::Digits => has_one(data@, *entry) && integer_at(data@, entry.operands as int)
                is None,
            Operand::Integer(value) => has_one(data@, *entry) && integer_at(
                data@,
                entry.operands as int,
            ) == Some(value as int) && value <= 0x7FFF_FFFF,
        },
{
    if entry.operands >= entry.at || find_number_end(data, entry.operands, entry.at) != entry.at {
        return Operand::Other;
    }
    match read_integer(data, entry.operands, entry.at) {
        Some(value) => Operand::Integer(value),
        None => Operand::Digits,
    }
}

/// Tests whether the index that an operator places behind `start` fits.
fn check_placed_index(
    data: &Vec<u8>,
    start: u64,
    end: u64,
    entry: &DictEntry,
    wide: bool,
    most: u64,
) -> (fits: bool)
    requires
        start <= 0x2_0000_0000,
        entry.at <= end <= data@.len(),
        end <= 0x2_0000_0000,
    ensures
        fits == placed_index_fits(data@, start as int, end as int, *entry, wide, most as int),
{
    match read_operand(data, entry) {
        Operand::Other => true,
        Operand::Digits => most >= table_sums::AMPLE,
        Operand::Integer(offset) => offset < 0 || check_index(
            data,
            start,
            start + offset as u64,
            end,
            wide,
            most,
        ),
    }
}

/// Tests whether the subroutines of a private dictionary fit.
fn check_private(data: &Vec<u8>, start: u64, dict_end: u64, end: u64, wide: bool, most: u64) -> (fits: bool)
    requires
        start <= dict_end <= end <= data@.len(),
        end <= 0x2_0000_0000,
    ensures
        fits == private_fits(
            data@,
            start as int,
            dict_end as int,
            end as int,
            wide,
            most as int,
        ),
{
    let entries: Vec<DictEntry> = read_dict(data, start, dict_end);
    let mut k: usize = 0;
    while k < entries.len()
        invariant
            k <= entries@.len(),
            start <= dict_end <= end <= data@.len(),
            end <= 0x2_0000_0000,
            entries@ == dict_entries(data@, start as int, start as int, dict_end as int),
            forall|j: int| 0 <= j < entries@.len() ==> (#[trigger] entries@[j]).at < dict_end,
            forall|j: int|
                0 <= j < k ==> subroutines_fit(
                    data@,
                    start as int,
                    end as int,
                    #[trigger] entries@[j],
                    wide,
                    most as int,
                ),
        decreases entries@.len() - k,
    {
        let entry: DictEntry = entries[k];
        if entry.operator == SUBROUTINES {
            let fits: bool = match read_operand(data, &entry) {
                Operand::Other => true,
                Operand::Digits => most >= table_sums::AMPLE,
                Operand::Integer(offset) => offset < 0 || check_index(
                    data,
                    start + offset as u64,
                    start + offset as u64,
                    end,
                    wide,
                    most,
                ),
            };
            if !fits {
                assert(!subroutines_fit(
                    data@,
                    start as int,
                    end as int,
                    entries@[k as int],
                    wide,
                    most as int,
                ));
                return false;
            }
        }
        k = k + 1;
    }
    true
}

/// Tests whether the private dictionary that an operator places in the table fits.
fn check_placed_private(
    data: &Vec<u8>,
    start: u64,
    end: u64,
    entry: &DictEntry,
    wide: bool,
    most: u64,
) -> (fits: bool)
    requires
        start <= 0x2_0000_0000,
        entry.at <= end <= data@.len(),
        end <= 0x2_0000_0000,
    ensures
        fits == placed_private_fits(data@, start as int, end as int, *entry, wide, most as int),
{
    if entry.operator != PRIVATE || entry.operands >= entry.at {
        return true;
    }
    let second: u64 = find_number_end(data, entry.operands, entry.at);
    if second >= entry.at || find_number_end(data, second, entry.at) != entry.at {
        return true;
    }
    match (
        read_integer(data, entry.operands, entry.at),
        read_integer(data, second, entry.at),
    ) {
        (Some(len), Some(offset)) => {
            if len < 0 || offset < 0 || start + offset as u64 + len as u64 > end {
                return true;
            }
            check_private(
                data,
                start + offset as u64,
                start + offset as u64 + len as u64,
                end,
                wide,
                most,
            )
        },
        _ => most >= table_sums::AMPLE,
    }
}

/// Tests whether the private dictionaries that a font dictionary places fit.
fn check_font_dict(
    data: &Vec<u8>,
    start: u64,
    end: u64,
    dict: TableSpan,
    wide: bool,
    most: u64,
) -> (fits: bool)
    requires
        start <= 0x2_0000_0000,
        dict.start <= dict.end <= end <= data@.len(),
        end <= 0x2_0000_0000,
    ensures
        fits == font_dict_fits(data@, start as int, end as int, dict, wide, most as int),
{
    let entries: Vec<DictEntry> = read_dict(data, dict.start, dict.end);
    let mut k: usize = 0;
    while k < entries.len()
        invariant
            k <= entries@.len(),
            start <= 0x2_0000_0000,
            dict.start <= dict.end <= end <= data@.len(),
            end <= 0x2_0000_0000,
            entries@ == dict_entries(
                data@,
                dict.start as int,
                dict.start as int,
                dict.end as int,
            ),
            forall|j: int| 0 <= j < entries@.len() ==> (#[trigger] entries@[j]).at < dict.end,
            forall|j: int|
                0 <= j < k ==> placed_private_fits(
                    data@,
                    start as int,
                    end as int,
                    #[trigger] entries@[j],
                    wide,
                    most as int,
                ),
        decreases entries@.len() - k,
    {
        let entry: DictEntry = entries[k];
        if !check_placed_private(data, start, end, &entry, wide, most) {
            assert(!placed_private_fits(
                data@,
                start as int,
                end as int,
                entries@[k as int],
                wide,
                most as int,
            ));
            return false;
        }
        k = k + 1;
    }
    true
}

/// Tests whether the items of an index fit as font dictionaries.
fn check_items(data: &Vec<u8>, start: u64, at: u64, end: u64, most: u64) -> (fits: bool)
    requires
        start <= 0x2_0000_0000,
        at <= 0x8_0000_0000,
        end <= data@.len(),
        end <= 0x2_0000_0000,
    ensures
        fits <==> forall|number: int|
            0 <= number < item_count(data@, at as int, true) ==> #[trigger] item_fits(
                data@,
                start as int,
                at as int,
                end as int,
                true,
                most as int,
                number,
            ),
{
    let frame: IndexFrame = match read_frame(data, at, end, true) {
        Some(frame) => frame,
        None => {
            return true;
        },
    };
    if frame.items > end {
        return true;
    }
    let mut number: u64 = 0;
    while number < frame.count
        invariant
            number <= frame.count,
            start <= 0x2_0000_0000,
            at <= 0x8_0000_0000,
            frame.items <= end <= data@.len(),
            end <= 0x2_0000_0000,
            has_items(data@, at as int, end as int, true),
            frames(data@, at as int, true, frame),
            forall|i: int|
                0 <= i < number ==> #[trigger] item_fits(
                    data@,
                    start as int,
                    at as int,
                    end as int,
                    true,
                    most as int,
                    i,
                ),
        decreases frame.count - number,
    {
        let fits: bool = match find_item(data, at, end, true, &frame, number) {
            Some(dict) => check_font_dict(data, start, end, dict, true, most),
            None => true,
        };
        assert(fits == item_fits(
            data@,
            start as int,
            at as int,
            end as int,
            true,
            most as int,
            number as int,
        ));
        if !fits {
            return false;
        }
        number = number + 1;
    }
    true
}

/// Tests whether what an operator of the first dictionary of a table places fits.
fn check_entry(data: &Vec<u8>, start: u64, end: u64, entry: &DictEntry, wide: bool, most: u64) -> (fits:
    bool)
    requires
        start <= 0x2_0000_0000,
        entry.at <= end <= data@.len(),
        end <= 0x2_0000_0000,
    ensures
        fits == entry_fits(data@, start as int, end as int, *entry, wide, most as int),
{
    if entry.operator == CHAR_STRINGS {
        check_placed_index(data, start, end, entry, wide, most)
    } else if entry.operator == FONT_DICTIONARIES {
        if !check_placed_index(data, start, end, entry, wide, most) {
            return false;
        }
        if !wide {
            return true;
        }
        match read_operand(data, entry) {
            Operand::Other => true,
            Operand::Digits => most >= table_sums::AMPLE,
            Operand::Integer(offset) => offset < 0 || check_items(
                data,
                start,
                start + offset as u64,
                end,
                most,
            ),
        }
    } else if entry.operator == VARIATIONS {
        if !wide {
            return true;
        }
        match read_operand(data, entry) {
            Operand::Other => true,
            Operand::Digits => most >= table_sums::AMPLE,
            Operand::Integer(offset) => offset < 0 || table_sums::check_store(
                data,
                start,
                start + offset as u64 + 2,
                end,
                most,
            ),
        }
    } else {
        wide || check_placed_private(data, start, end, entry, wide, most)
    }
}

/// Tests whether what the first dictionary of a table places fits.
fn check_top_dict(
    data: &Vec<u8>,
    start: u64,
    end: u64,
    dict: TableSpan,
    wide: bool,
    most: u64,
) -> (fits: bool)
    requires
        start <= 0x2_0000_0000,
        dict.start <= dict.end <= end <= data@.len(),
        end <= 0x2_0000_0000,
    ensures
        fits == top_dict_fits(data@, start as int, end as int, dict, wide, most as int),
{
    let entries: Vec<DictEntry> = read_dict(data, dict.start, dict.end);
    let mut k: usize = 0;
    while k < entries.len()
        invariant
            k <= entries@.len(),
            start <= 0x2_0000_0000,
            dict.start <= dict.end <= end <= data@.len(),
            end <= 0x2_0000_0000,
            entries@ == dict_entries(
                data@,
                dict.start as int,
                dict.start as int,
                dict.end as int,
            ),
            forall|j: int| 0 <= j < entries@.len() ==> (#[trigger] entries@[j]).at < dict.end,
            forall|j: int|
                0 <= j < k ==> entry_fits(
                    data@,
                    start as int,
                    end as int,
                    #[trigger] entries@[j],
                    wide,
                    most as int,
                ),
        decreases entries@.len() - k,
    {
        let entry: DictEntry = entries[k];
        if !check_entry(data, start, end, &entry, wide, most) {
            assert(!entry_fits(
                data@,
                start as int,
                end as int,
                entries@[k as int],
                wide,
                most as int,
            ));
            return false;
        }
        k = k + 1;
    }
    true
}

/// Finds where a table goes on behind its header.
fn find_header_end(data: &Vec<u8>, start: u64, least: u64) -> (found: u64)
    requires
        start + 3 <= data@.len(),
        start <= u32::MAX,
        least <= 5,
    ensures
        found == header_end(data@, start as int, least as int),
        start <= found <= start + 255,
{
    let len: u64 = font_file::read8(data, start + 2) as u64;
    if len > least {
        start + len
    } else {
        start + least
    }
}

/// Tests whether the sums that are formed over a table of compact outlines fit.
pub(crate) fn check_outlines(data: &Vec<u8>, start: u64, end: u64, most: u64) -> (fits: bool)
    requires
        start <= u32::MAX,
        start <= end <= data@.len(),
        end <= 0x2_0000_0000,
    ensures
        fits == outlines_fit(data@, start as int, end as int, most as int),
{
    if start + 3 > end || font_file::read8(data, start) != 1 {
        return true;
    }
    let names: u64 = find_header_end(data, start, 4);
    if !check_index(data, start, names, end, false, most) {
        return false;
    }
    let dicts: u64 = match find_end(data, names, end, false) {
        Some(dicts) => dicts,
        None => {
            return true;
        },
    };
    if !check_index(data, start, dicts, end, false, most) {
        return false;
    }
    if let Some(frame) = read_frame(data, dicts, end, false) {
        if frame.items <= end {
            if let Some(dict) = find_item(data, dicts, end, false, &frame, 0) {
                if !check_top_dict(data, start, end, dict, false, most) {
                    return false;
                }
            }
        }
    }
    let strings: u64 = match find_end(data, dicts, end, false) {
        Some(strings) => strings,
        None => {
            return true;
        },
    };
    check_index(data, start, strings, end, false, most) && match find_end(
        data,
        strings,
        end,
        false,
    ) {
        Some(subroutines) => check_index(data, start, subroutines, end, false, most),
        None => true,
    }
}

/// Tests whether the sums that are formed over a table of compact outlines that vary fit.
pub(crate) fn check_varying_outlines(data: &Vec<u8>, start: u64, end: u64, most: u64) -> (fits: bool)
    requires
        start <= u32::MAX,
        start <= end <= data@.len(),
        end <= 0x2_0000_0000,
    ensures
        fits == varying_outlines_fit(data@, start as int, end as int, most as int),
{
    if start + 5 > end || font_file::read8(data, start) != 2 {
        return true;
    }
    let dict: u64 = find_header_end(data, start, 5);
    let dict_end: u64 = dict + font_file::read16(data, start + 3);
    dict_end > end || (check_index(data, start, dict_end, end, true, most) && check_top_dict(
        data,
        start,
        end,
        TableSpan { start: dict, end: dict_end },
        true,
        most,
    ))
}

/// An index whose place is told by a number of the file ends where a long address can tell.
proof fn lemma_index_fits(data: Seq<u8>, base: int, at: int, end: int, wide: bool, most: int)
    requires
        at - base <= 0x4_0000_0000,
        most >= table_sums::AMPLE,
    ensures
        index_fits(data, base, at, end, wide, most),
        index_end(data, at, end, wide) matches Some(next) ==> next <= at + 4 || next <= end
            + u32::MAX,
{
    if has_items(data, at, end, wide) {
        let count = item_count(data, at, wide);
        let len = offset_len(data, at, wide);
        assert((count + 1) * len <= 0x1_0000_0000 * 4) by (nonlinear_arith)
            requires
                0 <= count <= u32::MAX,
                1 <= len <= 4,
        ;
    }
}

/// What the operators of a private dictionary place ends where a long address can tell.
proof fn lemma_private_fits(
    data: Seq<u8>,
    start: int,
    dict_end: int,
    end: int,
    wide: bool,
    most: int,
)
    requires
        most >= table_sums::AMPLE,
    ensures
        private_fits(data, start, dict_end, end, wide, most),
{
    let entries = dict_entries(data, start, start, dict_end);
    assert forall|k: int| 0 <= k < entries.len() implies subroutines_fit(
        data,
        start,
        end,
        #[trigger] entries[k],
        wide,
        most,
    ) by {
        if let Some(offset) = integer_at(data, entries[k].operands as int) {
            lemma_index_fits(data, start + offset, start + offset, end, wide, most);
        }
    }
}

/// What a font dictionary places ends where a long address can tell.
proof fn lemma_placed_private_fits(
    data: Seq<u8>,
    start: int,
    end: int,
    entry: DictEntry,
    wide: bool,
    most: int,
)
    requires
        most >= table_sums::AMPLE,
    ensures
        placed_private_fits(data, start, end, entry, wide, most),
{
    if let (Some(len), Some(offset)) = (
        integer_at(data, entry.operands as int),
        integer_at(data, second_operand(data, entry)),
    ) {
        lemma_private_fits(data, start + offset, start + offset + len, end, wide, most);
    }
}

/// What the first dictionary of a table places ends where a long address can tell.
proof fn lemma_top_dict_fits(
    data: Seq<u8>,
    start: int,
    end: int,
    dict: TableSpan,
    wide: bool,
    most: int,
)
    requires
        most >= table_sums::AMPLE,
    ensures
        top_dict_fits(data, start, end, dict, wide, most),
{
    let entries = dict_entries(data, dict.start as int, dict.start as int, dict.end as int);
    assert forall|k: int| 0 <= k < entries.len() implies entry_fits(
        data,
        start,
        end,
        #[trigger] entries[k],
        wide,
        most,
    ) by {
        let entry = entries[k];
        lemma_placed_private_fits(data, start, end, entry, wide, most);
        if let Some(offset) = integer_at(data, entry.operands as int) {
            lemma_index_fits(data, start, start + offset, end, wide, most);
            assert forall|number: int|
                0 <= number < item_count(data, start + offset, true) implies #[trigger] item_fits(
                data,
                start,
                start + offset,
                end,
                true,
                most,
                number,
            ) by {
                if let Some(inner) = item_span(data, start + offset, end, true, number) {
                    let placed = dict_entries(
                        data,
                        inner.start as int,
                        inner.start as int,
                        inner.end as int,
                    );
                    assert forall|j: int| 0 <= j < placed.len() implies placed_private_fits(
                        data,
                        start,
                        end,
                        #[trigger] placed[j],
                        true,
                        most,
                    ) by {
                        lemma_placed_private_fits(data, start, end, placed[j], true, most);
                    }
                }
            }
        }
    }
}

/// Every sum that is formed over a table of compact outlines fits a long address.
pub(crate) proof fn lemma_outlines_fit(data: Seq<u8>, start: int, end: int, most: int)
    requires
        start <= end <= start + u32::MAX,
        most >= table_sums::AMPLE,
    ensures
        outlines_fit(data, start, end, most),
        varying_outlines_fit(data, start, end, most),
{
    if start + 3 <= end && data[start] == 1 {
        let names = header_end(data, start, 4);
        lemma_index_fits(data, start, names, end, false, most);
        if let Some(dicts) = index_end(data, names, end, false) {
            lemma_index_fits(data, start, dicts, end, false, most);
            if let Some(dict) = item_span(data, dicts, end, false, 0) {
                lemma_top_dict_fits(data, start, end, dict, false, most);
            }
            if let Some(strings) = index_end(data, dicts, end, false) {
                lemma_index_fits(data, start, strings, end, false, most);
                if let Some(subroutines) = index_end(data, strings, end, false) {
                    lemma_index_fits(data, start, subroutines, end, false, most);
                }
            }
        }
    }
    let dict = header_end(data, start, 5);
    let dict_end = dict + font_file::be16(data, start + 3);
    lemma_index_fits(data, start, dict_end, end, true, most);
    lemma_top_dict_fits(
        data,
        start,
        end,
        TableSpan { start: dict as u64, end: dict_end as u64 },
        true,
        most,
    );
}

/// Integers of a dictionary take one, two, three or five bytes and are told apart by the first: from 32 to 246
/// the byte itself less 139, up to 254 two bytes on either side of these, behind 28 two and behind 29 four bytes
/// with a sign. None begins with 30, behind which digits are written out.
pub proof fn integers_are_read_by_their_first_byte(data: Seq<u8>, at: int, end: int)
    ensures
        28 == data[at] && data[at + 1] < 128 ==> integer_at(data, at) == Some(data[at + 1] * 256 + data[at + 2]),
        28 == data[at] && data[at + 1] >= 128 ==> integer_at(data, at) == Some(
            (data[at + 1] - 256) * 256 + data[at + 2],
        ),
        29 == data[at] && data[at + 1] < 128 ==> integer_at(data, at) == Some(
            data[at + 1] * 0x100_0000 + data[at + 2] * 0x1_0000 + data[at + 3] * 256 + data[at + 4],
        ),
        29 == data[at] && data[at + 1] >= 128 ==> integer_at(data, at) == Some(
            (data[at + 1] - 256) * 0x100_0000 + data[at + 2] * 0x1_0000 + data[at + 3] * 256 + data[at + 4],
        ),
        30 == data[at] ==> integer_at(data, at) is None,
        32 <= data[at] <= 246 ==> integer_at(data, at) == Some(data[at] - 139),
        247 <= data[at] <= 250 ==> integer_at(data, at) == Some(
            (data[at] - 247) * 256 + data[at + 1] + 108,
        ),
        251 <= data[at] <= 254 ==> integer_at(data, at) == Some(
            (251 - data[at]) * 256 - data[at + 1] - 108,
        ),
        28 == data[at] ==> number_end(data, at, end) == at + 3,
        29 == data[at] ==> number_end(data, at, end) == at + 5,
        32 <= data[at] <= 246 ==> number_end(data, at, end) == at + 1,
        247 <= data[at] <= 254 ==> number_end(data, at, end) == at + 2,
{
}

/// Digits end behind the first byte with a half of all ones, or where the dictionary does.
pub proof fn digits_end_behind_a_half_of_ones(data: Seq<u8>, at: int, end: int)
    requires
        at <= end,
    ensures
        ({
            let stop = digits_end(data, at, end);
            &&& at <= stop <= end
            &&& stop == end || data[stop - 1] >= 240 || data[stop - 1] % 16 == 15
            &&& forall|k: int|
                at <= k < stop - 1 ==> (#[trigger] data[k]) < 240 && data[k] % 16 != 15
            &&& at < end ==> at < stop
        }),
    decreases end - at,
{
    if at < end && !ends_digits(data[at]) {
        digits_end_behind_a_half_of_ones(data, at + 1, end);
        assert forall|k: int| at <= k < digits_end(data, at, end) - 1 implies (#[trigger] data[k]) < 240
            && data[k] % 16 != 15 by {}
    }
}

/// The bytes up to 27, 31 and 255 are operators and all others begin a number. An operator is its byte, except
/// that behind 12 the next byte tells it.
pub proof fn operators_are_told_by_their_bytes(data: Seq<u8>, at: int)
    ensures
        is_operator(data[at]) <==> data[at] < 28 || data[at] == 31 || data[at] == 255,
        data[at] == 12 ==> operator_at(data, at).0 == 1200 + data[at + 1] && operator_at(data, at).1 == at
            + 2,
        data[at] != 12 ==> operator_at(data, at).0 == data[at] && operator_at(data, at).1 == at + 1,
{
}

/// The number of items of an index stands in its first two or four bytes, the highest first. The byte behind
/// says how many bytes an offset takes, and an offset is written with the highest byte first too.
pub proof fn indices_begin_with_their_count(data: Seq<u8>, at: int, number: int)
    ensures
        item_count(data, at, false) == data[at] * 256 + data[at + 1],
        item_count(data, at, true) == data[at] * 0x100_0000 + data[at + 1] * 0x1_0000 + data[at + 2] * 256
            + data[at + 3],
        has_none(data, at, false) <==> data[at] == 0 && data[at + 1] == 0,
        has_none(data, at, true) <==> (data[at] == 0 && data[at + 1] == 0 && data[at + 2] == 0 && data[at + 3]
            == 0) || (data[at] == 255 && data[at + 1] == 255 && data[at + 2] == 255 && data[at + 3] == 255),
        data[at + 2] == 1 ==> item_offset(data, at, false, number) == data[at + 3 + number],
        data[at + 2] == 2 ==> item_offset(data, at, false, number) == data[at + 3 + number * 2] * 256
            + data[at + 4 + number * 2],
        data[at + 2] == 3 ==> item_offset(data, at, false, number) == data[at + 3 + number * 3] * 0x1_0000
            + data[at + 4 + number * 3] * 256 + data[at + 5 + number * 3],
        data[at + 2] == 4 ==> item_offset(data, at, false, number) == data[at + 3 + number * 4] * 0x100_0000
            + data[at + 4 + number * 4] * 0x1_0000 + data[at + 5 + number * 4] * 256 + data[at + 6
            + number * 4],
        data[at + 4] == 1 ==> item_offset(data, at, true, number) == data[at + 5 + number],
        data[at + 4] == 2 ==> item_offset(data, at, true, number) == data[at + 5 + number * 2] * 256
            + data[at + 6 + number * 2],
        data[at + 4] == 3 ==> item_offset(data, at, true, number) == data[at + 5 + number * 3] * 0x1_0000
            + data[at + 6 + number * 3] * 256 + data[at + 7 + number * 3],
        data[at + 4] == 4 ==> item_offset(data, at, true, number) == data[at + 5 + number * 4] * 0x100_0000
            + data[at + 6 + number * 4] * 0x1_0000 + data[at + 7 + number * 4] * 256 + data[at + 8
            + number * 4],
{
    assert(number * 1 == number);
    assert(forall|width: int|
        #![trigger number * width]
        width == 1 ==> number * width == number * 1);
}

/// An item that is there lies inside the index: it begins where the item before it ended, the first behind the
/// offsets, and the index ends with its last item.
pub proof fn items_follow_one_another(data: Seq<u8>, at: int, end: int, wide: bool, number: int)
    requires
        0 <= at,
        end <= u64::MAX,
        item_span(data, at, end, wide, number) is Some,
    ensures
        ({
            let span = item_span(data, at, end, wide, number)->0;
            let lead = if wide {
                4int
            } else {
                2
            };
            let width = data[at + lead];
            let items = at + lead + 1 + (item_count(data, at, wide) + 1) * width;
            &&& 1 <= width <= 4
            &&& items <= span.start <= span.end <= end
            &&& span.end - span.start == item_offset(data, at, wide, number + 1) - item_offset(
                data,
                at,
                wide,
                number,
            )
            &&& item_offset(data, at, wide, number) == 1 ==> span.start == items
            &&& item_span(data, at, end, wide, number + 1) is Some ==> item_span(
                data,
                at,
                end,
                wide,
                number + 1,
            )->0.start == span.end
            &&& number + 1 == item_count(data, at, wide) ==> index_end(data, at, end, wide) == Some(
                span.end as int,
            )
        }),
{
    let count = item_count(data, at, wide);
    let width = offset_len(data, at, wide);
    assert((count + 1) * width >= 0) by (nonlinear_arith)
        requires
            count >= 0,
            width >= 0,
    ;
}

/// An index without items is as long as the count of its items.
pub proof fn empty_indices_end_behind_their_count(data: Seq<u8>, at: int, end: int)
    ensures
        data[at] == 0 && data[at + 1] == 0 && at + 2 <= end ==> index_end(data, at, end, false) == Some(
            at + 2,
        ),
        data[at] == 0 && data[at + 1] == 0 && data[at + 2] == 0 && data[at + 3] == 0 && at + 4 <= end
            ==> index_end(data, at, end, true) == Some(at + 4),
        at + 2 > end ==> index_end(data, at, end, false) is None,
        at + 4 > end ==> index_end(data, at, end, true) is None,
{
}

} // verus!
