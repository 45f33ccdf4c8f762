//! The byte-level side of the self-persisting leaderboard.
//!
//! The leaderboard outlives the process by living inside the running
//! executable itself: a reserved, fixed-size data section holds the serialized
//! table, and at shutdown a patched copy of the binary atomically replaces the
//! original. This module owns everything about that scheme that is pure
//! computation: the exact byte layout of the table, serialization and parsing
//! with a proved round trip, locating the reserved section in an executable
//! image, and patching a table into an image. Copying the executable, mapping
//! it and renaming it over the original are file work and stay with the host.
//!
//! Layout: ten records of 68 bytes each, 680 bytes in all. A record is
//! sixteen characters stored as little-endian 32-bit code points (64 bytes),
//! the score as a little-endian 16-bit value, and two zero padding bytes.

use crate::leaderboard::{records_model, Record, RecordModel, BOARD_LEN, NAME_LEN};
use object::{Object, ObjectSection};
use vstd::arithmetic::div_mod::{
    lemma_div_denominator, lemma_fundamental_div_mod, lemma_fundamental_div_mod_converse,
};
use vstd::prelude::*;
use vstd::utf8::{char_is_scalar, char_u32_cast, is_scalar};

verus! {

/// How many bytes one serialized record takes.
pub const RECORD_BYTES: usize = 68;

/// How many bytes the whole serialized table takes: the exact size of the
/// reserved section.
pub const TABLE_BYTES: usize = 680;

/// The name of the reserved section in the host executable.
pub const SECTION_NAME: &'static str = ".leaderboard";

/// Byte `i` (little-endian, `0 <= i < 4`) of a 32-bit value.
pub open spec fn u32_byte(v: u32, i: int) -> u8 {
    if i == 0 {
        (v as int % 256) as u8
    } else if i == 1 {
        ((v as int / 256) % 256) as u8
    } else if i == 2 {
        ((v as int / 65536) % 256) as u8
    } else {
        ((v as int / 16777216) % 256) as u8
    }
}

/// The 32-bit value stored little-endian in four bytes.
pub open spec fn u32_of_bytes(b0: u8, b1: u8, b2: u8, b3: u8) -> u32 {
    (b0 + 256 * b1 + 65536 * b2 + 16777216 * b3) as u32
}

/// Byte `j` (`0 <= j < 68`) of one serialized record.
pub open spec fn record_byte(r: RecordModel, j: int) -> u8 {
    if j < 64 {
        u32_byte(r.name[j / 4] as u32, j % 4)
    } else if j == 64 {
        (r.score as int % 256) as u8
    } else if j == 65 {
        (r.score as int / 256) as u8
    } else {
        0u8
    }
}

/// The serialized table: ten 68-byte records in order.
pub open spec fn board_bytes(b: Seq<RecordModel>) -> Seq<u8> {
    Seq::new(TABLE_BYTES as nat, |k: int| record_byte(b[k / 68], k % 68))
}

/// The code point of character `ci` of record `ri`, read from serialized
/// bytes.
pub open spec fn code_at(bytes: Seq<u8>, ri: int, ci: int) -> u32 {
    u32_of_bytes(
        bytes[68 * ri + 4 * ci],
        bytes[68 * ri + 4 * ci + 1],
        bytes[68 * ri + 4 * ci + 2],
        bytes[68 * ri + 4 * ci + 3],
    )
}

/// The score of record `ri`, read from serialized bytes.
pub open spec fn score_at(bytes: Seq<u8>, ri: int) -> u16 {
    (bytes[68 * ri + 64] + 256 * bytes[68 * ri + 65]) as u16
}

/// A byte block parses as a table when it has the exact reserved-section
/// size, every stored code point is a Unicode scalar, and the padding bytes
/// are zero.
pub open spec fn valid_table_bytes(bytes: Seq<u8>) -> bool {
    &&& bytes.len() == TABLE_BYTES
    &&& forall|ri: int, ci: int|
        0 <= ri < BOARD_LEN && 0 <= ci < NAME_LEN ==> is_scalar(#[trigger] code_at(bytes, ri, ci))
    &&& forall|ri: int|
        0 <= ri < BOARD_LEN ==> bytes[#[trigger] (68 * ri) + 66] == 0 && bytes[68 * ri + 67] == 0
}

/// Record `ri` as parsed from serialized bytes.
pub open spec fn parsed_record(bytes: Seq<u8>, ri: int) -> RecordModel {
    RecordModel {
        name: Seq::new(NAME_LEN as nat, |ci: int| code_at(bytes, ri, ci) as char),
        score: score_at(bytes, ri),
    }
}

/// The whole table as parsed from serialized bytes.
pub open spec fn parsed_board(bytes: Seq<u8>) -> Seq<RecordModel> {
    Seq::new(BOARD_LEN as nat, |ri: int| parsed_record(bytes, ri))
}

/// Why a byte block failed to parse as a table.
#[derive(Clone, Copy, PartialEq, Eq, Structural, Debug)]
pub enum ParseError {
    WrongLength,
    InvalidChar,
    BadPadding,
}

/// Why an executable image cannot take the table.
#[derive(Clone, Copy, PartialEq, Eq, Structural, Debug)]
pub enum PersistError {
    SectionMissing,
    WrongSize,
    OutOfBounds,
}

/// Splitting a 32-bit value into its four little-endian bytes loses nothing.
proof fn lemma_u32_bytes_id(v: u32)
    ensures
        u32_of_bytes(u32_byte(v, 0), u32_byte(v, 1), u32_byte(v, 2), u32_byte(v, 3)) == v,
{
    let x = v as int;
    lemma_fundamental_div_mod(x, 256);
    lemma_fundamental_div_mod(x / 256, 256);
    lemma_div_denominator(x, 256, 256);
    lemma_fundamental_div_mod(x / 65536, 256);
    lemma_div_denominator(x, 65536, 256);
    assert(x / 16777216 < 256) by (nonlinear_arith)
        requires
            0 <= x < 4294967296,
    ;
    assert(x / 16777216 % 256 == x / 16777216) by {
        vstd::arithmetic::div_mod::lemma_small_mod((x / 16777216) as nat, 256nat);
    }
}

/// Indices inside one record split as expected: for `0 <= j < 68`,
/// position `68 * ri + j` addresses record `ri` at offset `j`.
proof fn lemma_record_index(ri: int, j: int)
    requires
        0 <= j < 68,
    ensures
        (68 * ri + j) / 68 == ri,
        (68 * ri + j) % 68 == j,
{
    lemma_fundamental_div_mod_converse(68 * ri + j, 68, ri, j);
}

/// Character indices split as expected: for `0 <= t < 4`, offset
/// `4 * ci + t` addresses character `ci`, byte `t`.
proof fn lemma_char_index(ci: int, t: int)
    requires
        0 <= t < 4,
    ensures
        (4 * ci + t) / 4 == ci,
        (4 * ci + t) % 4 == t,
{
    lemma_fundamental_div_mod_converse(4 * ci + t, 4, ci, t);
}

/// Serializing a table and parsing the bytes back yields the same table:
/// the persistence round trip loses nothing.
pub proof fn lemma_table_round_trip(m: Seq<RecordModel>)
    requires
        m.len() == BOARD_LEN,
        forall|i: int| 0 <= i < m.len() ==> (#[trigger] m[i]).name.len() == NAME_LEN,
    ensures
        valid_table_bytes(board_bytes(m)),
        parsed_board(board_bytes(m)) == m,
{
    let bytes = board_bytes(m);
    assert forall|ri: int, ci: int|
        0 <= ri < BOARD_LEN && 0 <= ci < NAME_LEN implies is_scalar(
        #[trigger] code_at(bytes, ri, ci),
    ) && code_at(bytes, ri, ci) == m[ri].name[ci] as u32 by {
        let c = m[ri].name[ci];
        let v = c as u32;
        assert forall|t: int| 0 <= t < 4 implies bytes[68 * ri + 4 * ci + t] == u32_byte(v, t) by {
            lemma_record_index(ri, 4 * ci + t);
            lemma_char_index(ci, t);
            assert(bytes[68 * ri + (4 * ci + t)] == record_byte(m[ri], 4 * ci + t));
        }
        lemma_u32_bytes_id(v);
        char_is_scalar(c);
    }
    assert forall|ri: int| 0 <= ri < BOARD_LEN implies bytes[#[trigger] (68 * ri) + 66] == 0
        && bytes[68 * ri + 67] == 0 && score_at(bytes, ri) == m[ri].score by {
        lemma_record_index(ri, 66);
        lemma_record_index(ri, 67);
        lemma_record_index(ri, 64);
        lemma_record_index(ri, 65);
        let s = m[ri].score as int;
        lemma_fundamental_div_mod(s, 256);
    }
    assert(parsed_board(bytes) =~= m) by {
        assert forall|ri: int| 0 <= ri < BOARD_LEN implies parsed_board(bytes)[ri] == m[ri] by {
            assert forall|ci: int|
                0 <= ci < NAME_LEN implies parsed_record(bytes, ri).name[ci]
                == m[ri].name[ci] by {
                let c = m[ri].name[ci];
                char_u32_cast(c, code_at(bytes, ri, ci));
            }
            assert(parsed_record(bytes, ri).name =~= m[ri].name);
        }
    }
}

/// Appends the 68 serialized bytes of one record.
fn push_record_bytes(out: &mut Vec<u8>, r: &Record)
    requires
        r@.name.len() == NAME_LEN,
    ensures
        final(out)@.len() == old(out)@.len() + RECORD_BYTES,
        forall|k: int| 0 <= k < old(out)@.len() ==> final(out)@[k] == old(out)@[k],
        forall|j: int|
            0 <= j < RECORD_BYTES ==> final(out)@[old(out)@.len() + j] == record_byte(r@, j),
{
    let base = out.len();
    let mut ci: usize = 0;
    while ci < NAME_LEN
        invariant
            r@.name.len() == NAME_LEN,
            out@.len() == base + 4 * ci,
            0 <= ci <= NAME_LEN,
            forall|k: int| 0 <= k < base ==> out@[k] == old(out)@[k],
            forall|j: int| 0 <= j < 4 * ci ==> out@[base + j] == record_byte(r@, j),
        decreases NAME_LEN - ci,
    {
        let v: u32 = r.name[ci] as u32;
        let b0: u8 = (v % 256) as u8;
        let b1: u8 = ((v / 256) % 256) as u8;
        let b2: u8 = ((v / 65536) % 256) as u8;
        let b3: u8 = ((v / 16777216) % 256) as u8;
        out.push(b0);
        out.push(b1);
        out.push(b2);
        out.push(b3);
        proof {
            assert forall|j: int|
                4 * ci <= j < 4 * ci + 4 implies out@[base + j] == #[trigger] record_byte(
                r@,
                j,
            ) by {
                lemma_char_index(ci as int, j - 4 * (ci as int));
            }
        }
        ci = ci + 1;
    }
    let s: u16 = r.score;
    out.push((s % 256) as u8);
    out.push((s / 256) as u8);
    out.push(0);
    out.push(0);
    proof {
        assert(s as int / 256 < 256);
    }
}

/// Serializes the table into its exact reserved-section byte image.
pub fn serialize_board(board: &Vec<Record>) -> (out: Vec<u8>)
    requires
        board@.len() == BOARD_LEN,
        forall|i: int| 0 <= i < board@.len() ==> (#[trigger] board@[i])@.name.len() == NAME_LEN,
    ensures
        out@.len() == TABLE_BYTES,
        out@ == board_bytes(records_model(board@)),
{
    let mut out: Vec<u8> = Vec::new();
    let mut ri: usize = 0;
    while ri < BOARD_LEN
        invariant
            board@.len() == BOARD_LEN,
            forall|i: int| 0 <= i < board@.len() ==> (#[trigger] board@[i])@.name.len() == NAME_LEN,
            0 <= ri <= BOARD_LEN,
            out@.len() == 68 * ri,
            forall|k: int|
                0 <= k < 68 * ri ==> out@[k] == record_byte(records_model(board@)[k / 68], k % 68),
        decreases BOARD_LEN - ri,
    {
        let ghost len_before = out@.len();
        push_record_bytes(&mut out, &board[ri]);
        proof {
            assert forall|k: int|
                68 * ri <= k < 68 * (ri + 1) implies out@[k] == record_byte(
                records_model(board@)[k / 68],
                k % 68,
            ) by {
                lemma_record_index(ri as int, k - 68 * ri);
                assert(out@[len_before + (k - 68 * ri)] == record_byte(board@[ri as int]@, k - 68
                    * ri));
                assert(records_model(board@)[k / 68] == board@[ri as int]@);
            }
        }
        ri = ri + 1;
    }
    assert(out@ =~= board_bytes(records_model(board@)));
    out
}

/// Relies on std's `char::from_u32`: `Some` exactly on Unicode scalar
/// values (not a surrogate, at most `0x10FFFF`), and the returned character
/// carries the given code point.
#[verifier::external_body]
fn char_from_u32(v: u32) -> (r: Option<char>)
    ensures
        r is Some <==> is_scalar(v),
        r matches Some(c) ==> c as u32 == v,
{
    char::from_u32(v)
}

/// Parses a reserved-section byte image back into a table.
///
/// Succeeds exactly on well-formed images: the exact section size, every
/// stored code point a Unicode scalar, and zero padding. An oversized code
/// point is reported before bad padding, wherever either sits.
pub fn parse_board(bytes: &[u8]) -> (r: Result<Vec<Record>, ParseError>)
    ensures
        r is Ok <==> valid_table_bytes(bytes@),
        (r matches Err(e) && e == ParseError::WrongLength) <==> bytes@.len() != TABLE_BYTES,
        (r matches Err(e) && e == ParseError::InvalidChar) <==> (bytes@.len() == TABLE_BYTES
            && exists|ri: int, ci: int|
            0 <= ri < BOARD_LEN && 0 <= ci < NAME_LEN && !is_scalar(
                #[trigger] code_at(bytes@, ri, ci),
            )),
        r matches Ok(t) ==> records_model(t@) == parsed_board(bytes@),
{
    if bytes.len() != TABLE_BYTES {
        return Err(ParseError::WrongLength);
    }
    let mut records: Vec<Record> = Vec::new();
    let mut ri: usize = 0;
    while ri < BOARD_LEN
        invariant
            bytes@.len() == TABLE_BYTES,
            0 <= ri <= BOARD_LEN,
            records@.len() == ri,
            forall|i: int| 0 <= i < ri ==> records@[i]@ == parsed_record(bytes@, i),
            forall|i: int, ci: int|
                0 <= i < ri && 0 <= ci < NAME_LEN ==> is_scalar(#[trigger] code_at(bytes@, i, ci)),
        decreases BOARD_LEN - ri,
    {
        let mut name: Vec<char> = Vec::new();
        let mut ci: usize = 0;
        while ci < NAME_LEN
            invariant
                bytes@.len() == TABLE_BYTES,
                0 <= ri < BOARD_LEN,
                0 <= ci <= NAME_LEN,
                name@.len() == ci,
                forall|c: int|
                    0 <= c < ci ==> name@[c] == (code_at(bytes@, ri as int, c) as char)
                        && is_scalar(#[trigger] code_at(bytes@, ri as int, c)),
            decreases NAME_LEN - ci,
        {
            let off: usize = 68 * ri + 4 * ci;
            let b0 = bytes[off];
            let b1 = bytes[off + 1];
            let b2 = bytes[off + 2];
            let b3 = bytes[off + 3];
            let code: u32 = b0 as u32 + 256 * (b1 as u32) + 65536 * (b2 as u32) + 16777216 * (
            b3 as u32);
            assert(code == code_at(bytes@, ri as int, ci as int));
            match char_from_u32(code) {
                Some(c) => {
                    proof {
                        char_u32_cast(c, code);
                    }
                    name.push(c);
                },
                None => {
                    return Err(ParseError::InvalidChar);
                },
            }
            ci = ci + 1;
        }
        let s0 = bytes[68 * ri + 64];
        let s1 = bytes[68 * ri + 65];
        let score: u16 = s0 as u16 + 256 * (s1 as u16);
        assert(score == score_at(bytes@, ri as int));
        records.push(Record { name, score });
        proof {
            assert(records@[ri as int]@.name =~= parsed_record(bytes@, ri as int).name);
        }
        ri = ri + 1;
    }
    let mut pi: usize = 0;
    while pi < BOARD_LEN
        invariant
            bytes@.len() == TABLE_BYTES,
            0 <= pi <= BOARD_LEN,
            forall|i: int, ci: int|
                0 <= i < BOARD_LEN && 0 <= ci < NAME_LEN ==> is_scalar(
                    #[trigger] code_at(bytes@, i, ci),
                ),
            forall|i: int| 0 <= i < pi ==> bytes@[#[trigger] (68 * i) + 66] == 0 && bytes@[68 * i + 67] == 0,
        decreases BOARD_LEN - pi,
    {
        if bytes[68 * pi + 66] != 0 || bytes[68 * pi + 67] != 0 {
            return Err(ParseError::BadPadding);
        }
        pi = pi + 1;
    }
    assert(records_model(records@) =~= parsed_board(bytes@));
    Ok(records)
}

/// The byte offset and size the executable parser reports for the named
/// section of an image, or nothing when the image is malformed, the
/// section is absent, or it carries no file data. The lookup reads only
/// the image bytes and the name, so its result is a function of them.
pub uninterp spec fn section_range_of(image: Seq<u8>, name: Seq<char>) -> Option<(u64, u64)>;

/// Relies on `object::File::parse`, `object::Object::section_by_name` and
/// `object::ObjectSection::file_range`: parses an executable image from
/// plain bytes and reports the named section's byte offset and size within
/// the file. The result depends on the bytes and the name alone;
/// `validate_range` checks it against the image.
#[verifier::external_body]
fn section_range(image: &[u8], name: &str) -> (r: Option<(u64, u64)>)
    ensures
        r == section_range_of(image@, name@),
{
    let file = object::File::parse(image).ok()?;
    let section = file.section_by_name(name)?;
    section.file_range()
}

/// Checks a reported section range against the image size and the fixed
/// table size, and turns it into a usable offset.
pub fn validate_range(image_len: usize, range: Option<(u64, u64)>) -> (r: Result<
    usize,
    PersistError,
>)
    ensures
        r == (match range {
            Option::<(u64, u64)>::None => Result::<usize, PersistError>::Err(
                PersistError::SectionMissing,
            ),
            Option::Some((off, size)) => {
                if size != TABLE_BYTES as u64 {
                    Result::<usize, PersistError>::Err(PersistError::WrongSize)
                } else if off as int + TABLE_BYTES as int > image_len as int {
                    Result::<usize, PersistError>::Err(PersistError::OutOfBounds)
                } else {
                    Result::<usize, PersistError>::Ok(off as usize)
                }
            },
        }),
{
    match range {
        None => Err(PersistError::SectionMissing),
        Some((off, size)) => {
            if size != TABLE_BYTES as u64 {
                Err(PersistError::WrongSize)
            } else if off > usize::MAX as u64 {
                Err(PersistError::OutOfBounds)
            } else if (off as usize) > image_len || image_len - (off as usize) < TABLE_BYTES {
                Err(PersistError::OutOfBounds)
            } else {
                Ok(off as usize)
            }
        },
    }
}

/// Locates the reserved leaderboard section in an executable image:
/// exactly the range the executable parser reports for it, rejected when
/// the section is missing, has the wrong size, or falls outside the image.
///
/// On success the returned offset carries a table-sized range that lies
/// within the image. A well-built host binary always carries the section,
/// so a failure is an unrecoverable build defect for the caller.
pub fn locate_table(image: &[u8]) -> (r: Result<usize, PersistError>)
    ensures
        r == (match section_range_of(image@, SECTION_NAME@) {
            Option::<(u64, u64)>::None => Result::<usize, PersistError>::Err(
                PersistError::SectionMissing,
            ),
            Option::Some((off, size)) => {
                if size != TABLE_BYTES as u64 {
                    Result::<usize, PersistError>::Err(PersistError::WrongSize)
                } else if off as int + TABLE_BYTES as int > image@.len() {
                    Result::<usize, PersistError>::Err(PersistError::OutOfBounds)
                } else {
                    Result::<usize, PersistError>::Ok(off as usize)
                }
            },
        }),
        r matches Ok(base) ==> base + TABLE_BYTES <= image@.len(),
{
    let range = section_range(image, SECTION_NAME);
    validate_range(image.len(), range)
}

/// Overwrites the table-sized range at `base` with the serialized table,
/// leaving every other byte of the image as it was.
pub fn patch_image(image: &mut Vec<u8>, base: usize, board: &Vec<Record>)
    requires
        base + TABLE_BYTES <= old(image)@.len(),
        board@.len() == BOARD_LEN,
        forall|i: int| 0 <= i < board@.len() ==> (#[trigger] board@[i])@.name.len() == NAME_LEN,
    ensures
        final(image)@.len() == old(image)@.len(),
        forall|k: int|
            0 <= k < old(image)@.len() && !(base <= k < base + TABLE_BYTES) ==> final(image)@[k]
                == old(image)@[k],
        forall|j: int|
            0 <= j < TABLE_BYTES ==> final(image)@[base + j] == board_bytes(records_model(board@))[j],
{
    let table = serialize_board(board);
    let _image_len = image.len();
    assert(image@.len() <= usize::MAX);
    let mut j: usize = 0;
    while j < TABLE_BYTES
        invariant
            base + TABLE_BYTES <= image@.len(),
            image@.len() <= usize::MAX,
            image@.len() == old(image)@.len(),
            table@ == board_bytes(records_model(board@)),
            table@.len() == TABLE_BYTES,
            0 <= j <= TABLE_BYTES,
            forall|k: int|
                0 <= k < old(image)@.len() && !(base <= k < base + TABLE_BYTES) ==> image@[k]
                    == old(image)@[k],
            forall|k: int| 0 <= k < j ==> image@[base + k] == table@[k],
        decreases TABLE_BYTES - j,
    {
        image[base + j] = table[j];
        j = j + 1;
    }
}

} // verus!
