//! The frame of a font file: numbers of two and four bytes, and where the faces of a collection begin.
use vstd::prelude::*;

verus! {

/// The number of two bytes, the first of which weighs most.
pub open spec fn be16(data: Seq<u8>, at: int) -> int {
    data[at] * 256 + data[at + 1]
}

/// The number of four bytes, the first of which weighs most.
pub open spec fn be32(data: Seq<u8>, at: int) -> int {
    be16(data, at) * 65536 + be16(data, at + 2)
}

/// Reads a byte.
pub fn read8(data: &Vec<u8>, at: u64) -> (value: u8)
    requires
        at < data@.len(),
    ensures
        value == data@[at as int],
{
    let total: usize = data.len();
    assert(at < total);
    data[at as usize]
}

/// Reads the number of two bytes.
pub fn read16(data: &Vec<u8>, at: u64) -> (value: u64)
    requires
        at + 2 <= data@.len(),
    ensures
        value == be16(data@, at as int),
        value <= 0xFFFF,
{
    let total: usize = data.len();
    assert(at + 2 <= total);
    let first: u64 = data[at as usize] as u64;
    let second: u64 = data[(at + 1) as usize] as u64;
    first * 256 + second
}

/// Reads the number of four bytes.
pub fn read32(data: &Vec<u8>, at: u64) -> (value: u64)
    requires
        at + 4 <= data@.len(),
    ensures
        value == be32(data@, at as int),
        value <= 0xFFFF_FFFF,
{
    let total: usize = data.len();
    assert(at + 4 <= total);
    read16(data, at) * 65536 + read16(data, at + 2)
}

/// Whether a file is a collection of faces.
pub open spec fn is_collection(data: Seq<u8>) -> bool {
    data.len() >= 12 && data[0] == 0x74 && data[1] == 0x74 && data[2] == 0x63 && data[3] == 0x66
}

/// Tests whether a file is a collection of faces.
fn holds_faces(data: &Vec<u8>) -> (holds: bool)
    ensures
        holds == is_collection(data@),
{
    data.len() >= 12 && data[0] == 0x74 && data[1] == 0x74 && data[2] == 0x63 && data[3] == 0x66
}

/// How many faces a font file claims to hold: a file that is no collection is taken for one face.
pub open spec fn faces_claimed(data: Seq<u8>) -> int {
    if is_collection(data) {
        be32(data, 8)
    } else {
        1
    }
}

/// Reads how many faces a font file claims to hold.
pub fn count_claimed(data: &Vec<u8>) -> (count: u64)
    ensures
        count == faces_claimed(data@),
        count <= u32::MAX,
{
    if holds_faces(data) {
        read32(data, 8)
    } else {
        1
    }
}

/// Whether a collection holds as many offsets as faces, and a list of its faces fits into memory, each of
/// which takes eight bytes there.
pub open spec fn offsets_fit(data: Seq<u8>) -> bool {
    is_collection(data) ==> 12 + 4 * faces_claimed(data) <= data.len() && faces_claimed(data) * 16
        <= usize::MAX
}

/// Tests whether a collection holds as many offsets as faces, and a list of its faces fits into memory.
pub fn check_offsets(data: &Vec<u8>) -> (fit: bool)
    ensures
        fit == offsets_fit(data@),
{
    if holds_faces(data) {
        let len: u64 = data.len() as u64;
        let count: u64 = count_claimed(data);
        12 + 4 * count <= len && count * 16 <= usize::MAX as u64
    } else {
        true
    }
}

/// Where a face begins, if the file has one of that index.
pub open spec fn face_start(data: Seq<u8>, index: int) -> Option<int> {
    if is_collection(data) {
        if 0 <= index < faces_claimed(data) && 16 + 4 * index <= data.len() {
            Some(be32(data, 12 + 4 * index))
        } else {
            None
        }
    } else if index == 0 {
        Some(0)
    } else {
        None
    }
}

/// Finds where a face begins.
pub fn find_face(data: &Vec<u8>, index: u32) -> (start: Option<u64>)
    ensures
        match start {
            Some(at) => face_start(data@, index as int) == Some(at as int) && at <= u32::MAX,
            None => face_start(data@, index as int) is None,
        },
{
    let len: u64 = data.len() as u64;
    if holds_faces(data) {
        if (index as u64) < count_claimed(data) && 16 + 4 * (index as u64) <= len {
            Some(read32(data, 12 + 4 * (index as u64)))
        } else {
            None
        }
    } else if index == 0 {
        Some(0)
    } else {
        None
    }
}

/// The part of a file that a table covers.
#[derive(Clone, Copy, Debug, PartialEq, Eq, Structural)]
pub struct TableSpan {
    pub start: u64,
    pub end: u64,
}

/// The part of the file that the last of the first `count` table records of a name covers, if it lies
/// inside the file.
pub open spec fn last_table(data: Seq<u8>, face: int, name: int, count: int) -> Option<TableSpan>
    decreases count,
{
    if count <= 0 {
        None
    } else {
        let record = face + 12 + 16 * (count - 1);
        let start = be32(data, record + 8);
        let end = start + be32(data, record + 12);
        if be32(data, record) != name {
            last_table(data, face, name, count - 1)
        } else if end <= data.len() {
            Some(TableSpan { start: start as u64, end: end as u64 })
        } else {
            None
        }
    }
}

/// Finds the last table of a name.
pub fn find_table(data: &Vec<u8>, face: u64, count: u64, name: u32) -> (span: Option<TableSpan>)
    requires
        face <= u32::MAX,
        count <= 0xFFFF,
        face + 12 + 16 * count <= data@.len(),
    ensures
        span == last_table(data@, face as int, name as int, count as int),
        span matches Some(span) ==> span.start <= u32::MAX && span.start <= span.end
            && span.end <= span.start + u32::MAX && span.end <= data@.len(),
{
    let len: u64 = data.len() as u64;
    let mut left: u64 = count;
    while left > 0
        invariant
            left <= count <= 0xFFFF,
            face <= u32::MAX,
            len == data@.len(),
            face + 12 + 16 * count <= len,
            last_table(data@, face as int, name as int, count as int) == last_table(
                data@,
                face as int,
                name as int,
                left as int,
            ),
        decreases left,
    {
        let record: u64 = face + 12 + 16 * (left - 1);
        if read32(data, record) == name as u64 {
            let start: u64 = read32(data, record + 8);
            let end: u64 = start + read32(data, record + 12);
            return if end <= len {
                Some(TableSpan { start, end })
            } else {
                None
            };
        }
        left = left - 1;
    }
    None
}

/// A number of two bytes counts the first byte two hundred and fifty-six times, and one of four bytes
/// goes on like that from byte to byte.
pub proof fn earlier_bytes_weigh_more(data: Seq<u8>, at: int)
    requires
        0 <= at,
        at + 4 <= data.len(),
    ensures
        be16(data, at) == 256 * data[at] + data[at + 1],
        be32(data, at) == 256 * (256 * (256 * data[at] + data[at + 1]) + data[at + 2]) + data[at
            + 3],
        0 <= be16(data, at) <= 0xFFFF,
        0 <= be32(data, at) <= 0xFFFF_FFFF,
{
}

/// A file that begins with the mark of collections holds as many faces as it says behind the version,
/// and each begins where its offset says. Any other file is one face that begins at its start.
pub proof fn collections_say_where_their_faces_begin(data: Seq<u8>, index: int)
    requires
        data.len() >= 12,
        0 <= index,
    ensures
        data[0] as char == 't' && data[1] as char == 't' && data[2] as char == 'c' && data[3] as char
            == 'f' ==> {
            &&& faces_claimed(data) == be32(data, 8)
            &&& index < be32(data, 8) && 16 + 4 * index <= data.len() ==> face_start(data, index)
                == Some(be32(data, 12 + 4 * index))
            &&& index >= be32(data, 8) || 16 + 4 * index > data.len() ==> face_start(
                data,
                index,
            ) is None
            &&& offsets_fit(data) <==> 12 + 4 * be32(data, 8) <= data.len() && 16 * be32(data, 8)
                <= usize::MAX
        },
        data[0] as char != 't' || data[1] as char != 't' || data[2] as char != 'c' || data[3] as char
            != 'f' ==> {
            &&& faces_claimed(data) == 1
            &&& face_start(data, 0) == Some(0int)
            &&& index > 0 ==> face_start(data, index) is None
            &&& offsets_fit(data)
        },
{
}

/// A table is where its last record says, if it lies inside the file, and without a record of its name
/// it is nowhere.
pub proof fn the_last_record_of_a_name_counts(
    data: Seq<u8>,
    face: int,
    name: int,
    count: int,
    last: int,
)
    requires
        0 <= face,
        0 <= last < count,
        face + 12 + 16 * count <= data.len(),
        be32(data, face + 12 + 16 * last) == name,
        forall|r: int| last < r < count ==> be32(data, #[trigger] record_at(face, r)) != name,
    ensures
        ({
            let start = be32(data, face + 12 + 16 * last + 8);
            let end = start + be32(data, face + 12 + 16 * last + 12);
            &&& end <= data.len() ==> {
                &&& last_table(data, face, name, count) matches Some(span)
                &&& span.start == start
                &&& span.end == end
            }
            &&& end > data.len() ==> last_table(data, face, name, count) is None
        }),
    decreases count,
{
    if last < count - 1 {
        assert(be32(data, record_at(face, count - 1)) != name);
        the_last_record_of_a_name_counts(data, face, name, count - 1, last);
    }
}

/// Where a table record stands.
pub open spec fn record_at(face: int, number: int) -> int {
    face + 12 + 16 * number
}

/// A name that no record has is no table.
pub proof fn unrecorded_names_are_no_tables(data: Seq<u8>, face: int, name: int, count: int)
    requires
        forall|r: int| 0 <= r < count ==> be32(data, #[trigger] record_at(face, r)) != name,
    ensures
        last_table(data, face, name, count) is None,
    decreases count,
{
    if count > 0 {
        assert(be32(data, record_at(face, count - 1)) != name);
        unrecorded_names_are_no_tables(data, face, name, count - 1);
    }
}

} // verus!
