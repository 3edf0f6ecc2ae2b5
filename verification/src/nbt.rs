//! The length-prefixed nested tag format carried by the dimension-registry
//! resources and by the world-codec packet of the join sequence.
//!
//! A document is an arbitrarily nested tree of named tagged values: primitive
//! scalars, homogeneous lists, and compounds of named fields. The wire form
//! is big-endian and length-prefixed throughout. Numeric payloads are kept as
//! raw big-endian bit patterns (`u8`/`u16`/`u32`/`u64`); how a reader signs or
//! floats them is the wire protocol's business, and the session logic never
//! interprets them.

use vstd::prelude::*;
use vstd::string::StringSliceAdditionalSpecFns;
use crate::DecodeError;

verus! {

/// One tagged value of a document, as held in memory.
#[derive(Debug)]
pub enum Tag {
    /// A single byte (wire kind 1).
    Byte(u8),
    /// A 16-bit value (wire kind 2).
    Short(u16),
    /// A 32-bit value (wire kind 3).
    Int(u32),
    /// A 64-bit value (wire kind 4).
    Long(u64),
    /// The bit pattern of a 32-bit floating-point value (wire kind 5).
    Float(u32),
    /// The bit pattern of a 64-bit floating-point value (wire kind 6).
    Double(u64),
    /// A length-prefixed run of raw bytes (wire kind 7).
    ByteArray(Vec<u8>),
    /// A length-prefixed UTF-8 string, kept as its bytes (wire kind 8).
    Str(Vec<u8>),
    /// A homogeneous list: the element kind, then the elements (wire kind 9).
    List(u8, Vec<Tag>),
    /// Named fields in order, each name kept as UTF-8 bytes (wire kind 10).
    Compound(Vec<(Vec<u8>, Tag)>),
    /// A length-prefixed run of 32-bit values (wire kind 11).
    IntArray(Vec<u32>),
    /// A length-prefixed run of 64-bit values (wire kind 12).
    LongArray(Vec<u64>),
}

/// The mathematical value of a [`Tag`]: the same tree over `Seq`.
pub enum TagModel {
    Byte(u8),
    Short(u16),
    Int(u32),
    Long(u64),
    Float(u32),
    Double(u64),
    ByteArray(Seq<u8>),
    Str(Seq<u8>),
    List(u8, Seq<TagModel>),
    Compound(Seq<(Seq<u8>, TagModel)>),
    IntArray(Seq<u32>),
    LongArray(Seq<u64>),
}

/// A whole decoded document: the root compound's name and its fields.
#[derive(Debug)]
pub struct NbtDocument {
    /// The root compound's name, as UTF-8 bytes (usually empty).
    pub name: Vec<u8>,
    /// The root compound's named fields, in wire order.
    pub entries: Vec<(Vec<u8>, Tag)>,
}

/// The mathematical value of an [`NbtDocument`].
pub struct NbtDocumentModel {
    pub name: Seq<u8>,
    pub entries: Seq<(Seq<u8>, TagModel)>,
}

impl Tag {
    /// The mathematical value of this tag.
    pub open spec fn model(self) -> TagModel
        decreases self,
    {
        match self {
            Tag::Byte(v) => TagModel::Byte(v),
            Tag::Short(v) => TagModel::Short(v),
            Tag::Int(v) => TagModel::Int(v),
            Tag::Long(v) => TagModel::Long(v),
            Tag::Float(v) => TagModel::Float(v),
            Tag::Double(v) => TagModel::Double(v),
            Tag::ByteArray(v) => TagModel::ByteArray(v@),
            Tag::Str(v) => TagModel::Str(v@),
            Tag::List(elem, items) => TagModel::List(elem, models_of(items@)),
            Tag::Compound(entries) => TagModel::Compound(entry_models_of(entries@)),
            Tag::IntArray(v) => TagModel::IntArray(v@),
            Tag::LongArray(v) => TagModel::LongArray(v@),
        }
    }
}

impl View for Tag {
    type V = TagModel;

    open spec fn view(&self) -> TagModel {
        self.model()
    }
}

impl View for NbtDocument {
    type V = NbtDocumentModel;

    open spec fn view(&self) -> NbtDocumentModel {
        NbtDocumentModel { name: self.name@, entries: entry_models_of(self.entries@) }
    }
}

/// The models of a sequence of tags, in order.
pub open spec fn models_of(s: Seq<Tag>) -> Seq<TagModel>
    decreases s,
{
    if s.len() == 0 {
        Seq::empty()
    } else {
        models_of(s.drop_last()).push(s.last().model())
    }
}

/// The models of a sequence of named tags, in order.
pub open spec fn entry_models_of(s: Seq<(Vec<u8>, Tag)>) -> Seq<(Seq<u8>, TagModel)>
    decreases s,
{
    if s.len() == 0 {
        Seq::empty()
    } else {
        entry_models_of(s.drop_last()).push((s.last().0@, s.last().1.model()))
    }
}

pub proof fn lemma_models_of(s: Seq<Tag>)
    ensures
        models_of(s).len() == s.len(),
        forall|i: int| 0 <= i < s.len() ==> models_of(s)[i] == s[i].model(),
    decreases s,
{
    if s.len() > 0 {
        lemma_models_of(s.drop_last());
    }
}

pub proof fn lemma_models_of_push(s: Seq<Tag>, t: Tag)
    ensures
        models_of(s.push(t)) == models_of(s).push(t.model()),
{
    assert(s.push(t).drop_last() =~= s);
    assert(s.push(t).last() == t);
}

pub proof fn lemma_entry_models_of(s: Seq<(Vec<u8>, Tag)>)
    ensures
        entry_models_of(s).len() == s.len(),
        forall|i: int| 0 <= i < s.len()
            ==> entry_models_of(s)[i] == (s[i].0@, s[i].1.model()),
    decreases s,
{
    if s.len() > 0 {
        lemma_entry_models_of(s.drop_last());
    }
}

pub proof fn lemma_entry_models_of_push(s: Seq<(Vec<u8>, Tag)>, name: Vec<u8>, t: Tag)
    ensures
        entry_models_of(s.push((name, t))) == entry_models_of(s).push((name@, t.model())),
{
    assert(s.push((name, t)).drop_last() =~= s);
    assert(s.push((name, t)).last() == (name, t));
}

/// The two bytes at `pos`, read big-endian.
pub open spec fn spec_be_u16(b: Seq<u8>, pos: int) -> u16 {
    (b[pos] * 0x100 + b[pos + 1]) as u16
}

/// The four bytes at `pos`, read big-endian.
pub open spec fn spec_be_u32(b: Seq<u8>, pos: int) -> u32 {
    (b[pos] * 0x1000000 + b[pos + 1] * 0x10000 + b[pos + 2] * 0x100 + b[pos + 3]) as u32
}

/// The eight bytes at `pos`, read big-endian.
pub open spec fn spec_be_u64(b: Seq<u8>, pos: int) -> u64 {
    (spec_be_u32(b, pos) * 0x100000000 + spec_be_u32(b, pos + 4)) as u64
}

/// The bytes that remain at `pos`: the decoders' termination measure.
pub open spec fn remaining(b: Seq<u8>, pos: int) -> int {
    if pos <= b.len() {
        b.len() - pos
    } else {
        0
    }
}

/// What decoding one tag payload of kind `id` at `pos` yields: the value and
/// the position just past it, or the error. A four-byte count field carries a
/// signed 32-bit value on the wire; a count with the sign bit set is
/// malformed. Every count is checked against the bytes that remain before
/// anything is built, so a decoder that follows this definition never
/// allocates more than the input it was handed.
///
/// The two defensive arms that reject a nested result which did not advance
/// past its own start, or ran past the end of the input, only pin the
/// recursion's termination measure; no result of this definition takes them.
pub open spec fn spec_decode_payload(b: Seq<u8>, pos: int, id: u8) -> Result<(TagModel, int), DecodeError>
    decreases remaining(b, pos), 1int, 0int,
{
    if id == 1 {
        if pos + 1 <= b.len() {
            Ok((TagModel::Byte(b[pos]), pos + 1))
        } else {
            Err(DecodeError::Truncated)
        }
    } else if id == 2 {
        if pos + 2 <= b.len() {
            Ok((TagModel::Short(spec_be_u16(b, pos)), pos + 2))
        } else {
            Err(DecodeError::Truncated)
        }
    } else if id == 3 {
        if pos + 4 <= b.len() {
            Ok((TagModel::Int(spec_be_u32(b, pos)), pos + 4))
        } else {
            Err(DecodeError::Truncated)
        }
    } else if id == 4 {
        if pos + 8 <= b.len() {
            Ok((TagModel::Long(spec_be_u64(b, pos)), pos + 8))
        } else {
            Err(DecodeError::Truncated)
        }
    } else if id == 5 {
        if pos + 4 <= b.len() {
            Ok((TagModel::Float(spec_be_u32(b, pos)), pos + 4))
        } else {
            Err(DecodeError::Truncated)
        }
    } else if id == 6 {
        if pos + 8 <= b.len() {
            Ok((TagModel::Double(spec_be_u64(b, pos)), pos + 8))
        } else {
            Err(DecodeError::Truncated)
        }
    } else if id == 7 {
        if pos + 4 <= b.len() {
            let n = spec_be_u32(b, pos);
            if n >= 0x80000000 {
                Err(DecodeError::Malformed)
            } else if pos + 4 + n <= b.len() {
                Ok((TagModel::ByteArray(b.subrange(pos + 4, pos + 4 + n)), pos + 4 + n))
            } else {
                Err(DecodeError::Truncated)
            }
        } else {
            Err(DecodeError::Truncated)
        }
    } else if id == 8 {
        if pos + 2 <= b.len() {
            let n = spec_be_u16(b, pos);
            if pos + 2 + n <= b.len() {
                Ok((TagModel::Str(b.subrange(pos + 2, pos + 2 + n)), pos + 2 + n))
            } else {
                Err(DecodeError::Truncated)
            }
        } else {
            Err(DecodeError::Truncated)
        }
    } else if id == 9 {
        if pos + 5 <= b.len() {
            let elem = b[pos];
            let n = spec_be_u32(b, pos + 1);
            if n >= 0x80000000 {
                Err(DecodeError::Malformed)
            } else {
                match spec_decode_list(b, pos + 5, elem, n as int, Seq::empty()) {
                    Ok((items, end)) => Ok((TagModel::List(elem, items), end)),
                    Err(e) => Err(e),
                }
            }
        } else {
            Err(DecodeError::Truncated)
        }
    } else if id == 10 {
        match spec_decode_entries(b, pos, Seq::empty()) {
            Ok((entries, end)) => Ok((TagModel::Compound(entries), end)),
            Err(e) => Err(e),
        }
    } else if id == 11 {
        if pos + 4 <= b.len() {
            let n = spec_be_u32(b, pos);
            if n >= 0x80000000 {
                Err(DecodeError::Malformed)
            } else if pos + 4 + 4 * n <= b.len() {
                Ok((
                    TagModel::IntArray(Seq::new(n as nat, |i: int| spec_be_u32(b, pos + 4 + 4 * i))),
                    pos + 4 + 4 * n,
                ))
            } else {
                Err(DecodeError::Truncated)
            }
        } else {
            Err(DecodeError::Truncated)
        }
    } else if id == 12 {
        if pos + 4 <= b.len() {
            let n = spec_be_u32(b, pos);
            if n >= 0x80000000 {
                Err(DecodeError::Malformed)
            } else if pos + 4 + 8 * n <= b.len() {
                Ok((
                    TagModel::LongArray(Seq::new(n as nat, |i: int| spec_be_u64(b, pos + 4 + 8 * i))),
                    pos + 4 + 8 * n,
                ))
            } else {
                Err(DecodeError::Truncated)
            }
        } else {
            Err(DecodeError::Truncated)
        }
    } else {
        Err(DecodeError::Malformed)
    }
}

/// What decoding the named fields of a compound at `pos` yields, appended to
/// `acc`: field after field until the terminating zero byte.
pub open spec fn spec_decode_entries(
    b: Seq<u8>,
    pos: int,
    acc: Seq<(Seq<u8>, TagModel)>,
) -> Result<(Seq<(Seq<u8>, TagModel)>, int), DecodeError>
    decreases remaining(b, pos), 0int, 0int,
{
    if pos + 1 <= b.len() {
        let id = b[pos];
        if id == 0 {
            Ok((acc, pos + 1))
        } else if pos + 3 <= b.len() {
            let n = spec_be_u16(b, pos + 1);
            if pos + 3 + n <= b.len() {
                let name = b.subrange(pos + 3, pos + 3 + n);
                match spec_decode_payload(b, pos + 3 + n, id) {
                    Ok((t, end)) => {
                        if end <= pos + 3 + n || end > b.len() {
                            Err(DecodeError::Malformed)
                        } else {
                            spec_decode_entries(b, end, acc.push((name, t)))
                        }
                    },
                    Err(e) => Err(e),
                }
            } else {
                Err(DecodeError::Truncated)
            }
        } else {
            Err(DecodeError::Truncated)
        }
    } else {
        Err(DecodeError::Truncated)
    }
}

/// What decoding `n` more list elements of kind `elem` at `pos` yields,
/// appended to `acc`.
pub open spec fn spec_decode_list(
    b: Seq<u8>,
    pos: int,
    elem: u8,
    n: int,
    acc: Seq<TagModel>,
) -> Result<(Seq<TagModel>, int), DecodeError>
    decreases remaining(b, pos), 2int, n,
{
    if n <= 0 {
        Ok((acc, pos))
    } else {
        match spec_decode_payload(b, pos, elem) {
            Ok((t, end)) => {
                if end <= pos || end > b.len() {
                    Err(DecodeError::Malformed)
                } else {
                    spec_decode_list(b, end, elem, n - 1, acc.push(t))
                }
            },
            Err(e) => Err(e),
        }
    }
}

/// What decoding a whole document within `limit` bytes yields. An input
/// longer than `limit` is rejected outright: this is the decoder's size
/// guard, and with it nothing ever allocates beyond `limit`. An input whose
/// first byte is the terminator carries no root document. The root must be a
/// compound (wire kind 10); trailing bytes past the root are ignored, as a
/// stream reader would leave them unread.
pub open spec fn spec_decode_document(b: Seq<u8>, limit: int) -> Result<Option<NbtDocumentModel>, DecodeError> {
    if b.len() > limit {
        Err(DecodeError::SizeLimitExceeded)
    } else if b.len() < 1 {
        Err(DecodeError::Truncated)
    } else if b[0] == 0 {
        Ok(None)
    } else if b[0] != 10 {
        Err(DecodeError::Malformed)
    } else if b.len() < 3 {
        Err(DecodeError::Truncated)
    } else {
        let n = spec_be_u16(b, 1);
        if 3 + n <= b.len() {
            match spec_decode_entries(b, 3 + n, Seq::empty()) {
                Ok((entries, _)) => Ok(Some(NbtDocumentModel {
                    name: b.subrange(3, 3 + n),
                    entries,
                })),
                Err(e) => Err(e),
            }
        } else {
            Err(DecodeError::Truncated)
        }
    }
}

/// Whether an executable payload-decode result carries the values that the
/// specification-level decode yields.
pub open spec fn payload_result_matches(
    r: Result<(Tag, usize), DecodeError>,
    s: Result<(TagModel, int), DecodeError>,
) -> bool {
    match (r, s) {
        (Ok((t, p)), Ok((tm, pm))) => t.model() == tm && p as int == pm,
        (Err(e1), Err(e2)) => e1 == e2,
        _ => false,
    }
}

/// Whether an executable compound-decode result carries the values that the
/// specification-level decode yields.
pub open spec fn entries_result_matches(
    r: Result<(Vec<(Vec<u8>, Tag)>, usize), DecodeError>,
    s: Result<(Seq<(Seq<u8>, TagModel)>, int), DecodeError>,
) -> bool {
    match (r, s) {
        (Ok((es, p)), Ok((em, pm))) => entry_models_of(es@) == em && p as int == pm,
        (Err(e1), Err(e2)) => e1 == e2,
        _ => false,
    }
}

/// Whether an executable list-decode result carries the values that the
/// specification-level decode yields.
pub open spec fn list_result_matches(
    r: Result<(Vec<Tag>, usize), DecodeError>,
    s: Result<(Seq<TagModel>, int), DecodeError>,
) -> bool {
    match (r, s) {
        (Ok((items, p)), Ok((im, pm))) => models_of(items@) == im && p as int == pm,
        (Err(e1), Err(e2)) => e1 == e2,
        _ => false,
    }
}

/// Whether an executable document-decode result carries the values that the
/// specification-level decode yields.
pub open spec fn document_result_matches(
    r: Result<Option<NbtDocument>, DecodeError>,
    s: Result<Option<NbtDocumentModel>, DecodeError>,
) -> bool {
    match (r, s) {
        (Ok(rd), Ok(sd)) => match (rd, sd) {
            (Some(d), Some(m)) => d@ == m,
            (None, None) => true,
            _ => false,
        },
        (Err(e1), Err(e2)) => e1 == e2,
        _ => false,
    }
}

fn be_u16(b: &Vec<u8>, pos: usize) -> (r: u16)
    requires
        pos + 2 <= b.len(),
    ensures
        r == spec_be_u16(b@, pos as int),
{
    (b[pos] as u16) * 0x100 + (b[pos + 1] as u16)
}

fn be_u32(b: &Vec<u8>, pos: usize) -> (r: u32)
    requires
        pos + 4 <= b.len(),
    ensures
        r == spec_be_u32(b@, pos as int),
{
    (b[pos] as u32) * 0x1000000 + (b[pos + 1] as u32) * 0x10000 + (b[pos + 2] as u32) * 0x100
        + (b[pos + 3] as u32)
}

fn be_u64(b: &Vec<u8>, pos: usize) -> (r: u64)
    requires
        pos + 8 <= b.len(),
    ensures
        r == spec_be_u64(b@, pos as int),
{
    (be_u32(b, pos) as u64) * 0x100000000 + (be_u32(b, pos + 4) as u64)
}

fn read_bytes(b: &Vec<u8>, start: usize, n: usize) -> (r: Vec<u8>)
    requires
        start + n <= b.len(),
    ensures
        r@ == b@.subrange(start as int, start + n as int),
{
    let mut r: Vec<u8> = Vec::new();
    let mut i: usize = 0;
    while i < n
        invariant
            i <= n,
            start + n <= b.len(),
            r@ == b@.subrange(start as int, start + i as int),
        decreases n - i,
    {
        r.push(b[start + i]);
        assert(b@.subrange(start as int, start + (i + 1) as int)
            =~= b@.subrange(start as int, start + i as int).push(b@[start + i]));
        i = i + 1;
    }
    r
}

/// Decodes one tag payload of kind `id` at `pos`, exactly as
/// [`spec_decode_payload`] says.
pub fn decode_payload(b: &Vec<u8>, pos: usize, id: u8) -> (r: Result<(Tag, usize), DecodeError>)
    ensures
        payload_result_matches(r, spec_decode_payload(b@, pos as int, id)),
    decreases remaining(b@, pos as int), 1int, 0int,
{
    if id == 1 {
        if pos < b.len() {
            Ok((Tag::Byte(b[pos]), pos + 1))
        } else {
            Err(DecodeError::Truncated)
        }
    } else if id == 2 {
        if pos <= b.len() && 2 <= b.len() - pos {
            Ok((Tag::Short(be_u16(b, pos)), pos + 2))
        } else {
            Err(DecodeError::Truncated)
        }
    } else if id == 3 {
        if pos <= b.len() && 4 <= b.len() - pos {
            Ok((Tag::Int(be_u32(b, pos)), pos + 4))
        } else {
            Err(DecodeError::Truncated)
        }
    } else if id == 4 {
        if pos <= b.len() && 8 <= b.len() - pos {
            Ok((Tag::Long(be_u64(b, pos)), pos + 8))
        } else {
            Err(DecodeError::Truncated)
        }
    } else if id == 5 {
        if pos <= b.len() && 4 <= b.len() - pos {
            Ok((Tag::Float(be_u32(b, pos)), pos + 4))
        } else {
            Err(DecodeError::Truncated)
        }
    } else if id == 6 {
        if pos <= b.len() && 8 <= b.len() - pos {
            Ok((Tag::Double(be_u64(b, pos)), pos + 8))
        } else {
            Err(DecodeError::Truncated)
        }
    } else if id == 7 {
        if pos <= b.len() && 4 <= b.len() - pos {
            let n = be_u32(b, pos);
            if n >= 0x80000000 {
                Err(DecodeError::Malformed)
            } else {
                let nu = n as usize;
                if nu <= b.len() - (pos + 4) {
                    Ok((Tag::ByteArray(read_bytes(b, pos + 4, nu)), pos + 4 + nu))
                } else {
                    Err(DecodeError::Truncated)
                }
            }
        } else {
            Err(DecodeError::Truncated)
        }
    } else if id == 8 {
        if pos <= b.len() && 2 <= b.len() - pos {
            let n = be_u16(b, pos) as usize;
            if n <= b.len() - (pos + 2) {
                Ok((Tag::Str(read_bytes(b, pos + 2, n)), pos + 2 + n))
            } else {
                Err(DecodeError::Truncated)
            }
        } else {
            Err(DecodeError::Truncated)
        }
    } else if id == 9 {
        if pos <= b.len() && 5 <= b.len() - pos {
            let elem = b[pos];
            let n = be_u32(b, pos + 1);
            if n >= 0x80000000 {
                Err(DecodeError::Malformed)
            } else {
                match decode_list(b, pos + 5, elem, n) {
                    Ok((items, end)) => Ok((Tag::List(elem, items), end)),
                    Err(e) => Err(e),
                }
            }
        } else {
            Err(DecodeError::Truncated)
        }
    } else if id == 10 {
        match decode_entries(b, pos) {
            Ok((entries, end)) => Ok((Tag::Compound(entries), end)),
            Err(e) => Err(e),
        }
    } else if id == 11 {
        if pos <= b.len() && 4 <= b.len() - pos {
            let n = be_u32(b, pos);
            if n >= 0x80000000 {
                Err(DecodeError::Malformed)
            } else {
                let nu = n as usize;
                let room = b.len() - (pos + 4);
                if nu <= room / 4 {
                    let mut items: Vec<u32> = Vec::new();
                    let mut i: usize = 0;
                    assert(4 * nu <= room);
                    while i < nu
                        invariant
                            i <= nu,
                            pos + 4 + 4 * nu <= b.len(),
                            items@ == Seq::new(i as nat, |j: int| spec_be_u32(b@, pos + 4 + 4 * j)),
                        decreases nu - i,
                    {
                        items.push(be_u32(b, pos + 4 + 4 * i));
                        assert(items@ =~= Seq::new(
                            (i + 1) as nat,
                            |j: int| spec_be_u32(b@, pos + 4 + 4 * j),
                        ));
                        i = i + 1;
                    }
                    Ok((Tag::IntArray(items), pos + 4 + 4 * nu))
                } else {
                    Err(DecodeError::Truncated)
                }
            }
        } else {
            Err(DecodeError::Truncated)
        }
    } else if id == 12 {
        if pos <= b.len() && 4 <= b.len() - pos {
            let n = be_u32(b, pos);
            if n >= 0x80000000 {
                Err(DecodeError::Malformed)
            } else {
                let nu = n as usize;
                let room = b.len() - (pos + 4);
                if nu <= room / 8 {
                    let mut items: Vec<u64> = Vec::new();
                    let mut i: usize = 0;
                    assert(8 * nu <= room);
                    while i < nu
                        invariant
                            i <= nu,
                            pos + 4 + 8 * nu <= b.len(),
                            items@ == Seq::new(i as nat, |j: int| spec_be_u64(b@, pos + 4 + 8 * j)),
                        decreases nu - i,
                    {
                        items.push(be_u64(b, pos + 4 + 8 * i));
                        assert(items@ =~= Seq::new(
                            (i + 1) as nat,
                            |j: int| spec_be_u64(b@, pos + 4 + 8 * j),
                        ));
                        i = i + 1;
                    }
                    Ok((Tag::LongArray(items), pos + 4 + 8 * nu))
                } else {
                    Err(DecodeError::Truncated)
                }
            }
        } else {
            Err(DecodeError::Truncated)
        }
    } else {
        Err(DecodeError::Malformed)
    }
}

/// Decodes the named fields of a compound at `pos`, exactly as
/// [`spec_decode_entries`] says (started with no fields accumulated).
pub fn decode_entries(b: &Vec<u8>, pos: usize) -> (r: Result<(Vec<(Vec<u8>, Tag)>, usize), DecodeError>)
    ensures
        entries_result_matches(r, spec_decode_entries(b@, pos as int, Seq::empty())),
    decreases remaining(b@, pos as int), 0int, 0int,
{
    let mut acc: Vec<(Vec<u8>, Tag)> = Vec::new();
    let mut cur: usize = pos;
    loop
        invariant
            pos <= cur,
            spec_decode_entries(b@, pos as int, Seq::empty())
                == spec_decode_entries(b@, cur as int, entry_models_of(acc@)),
        decreases remaining(b@, cur as int),
    {
        if cur >= b.len() {
            return Err(DecodeError::Truncated);
        }
        let id = b[cur];
        if id == 0 {
            return Ok((acc, cur + 1));
        }
        if b.len() - cur < 3 {
            return Err(DecodeError::Truncated);
        }
        let n = be_u16(b, cur + 1) as usize;
        if n > b.len() - (cur + 3) {
            return Err(DecodeError::Truncated);
        }
        let name = read_bytes(b, cur + 3, n);
        match decode_payload(b, cur + 3 + n, id) {
            Err(e) => {
                return Err(e);
            },
            Ok((t, end)) => {
                if end <= cur + 3 + n || end > b.len() {
                    return Err(DecodeError::Malformed);
                }
                proof {
                    lemma_entry_models_of_push(acc@, name, t);
                }
                acc.push((name, t));
                cur = end;
            },
        }
    }
}

/// Decodes `n` list elements of kind `elem` at `pos`, exactly as
/// [`spec_decode_list`] says (started with no elements accumulated).
pub fn decode_list(b: &Vec<u8>, pos: usize, elem: u8, n: u32) -> (r: Result<(Vec<Tag>, usize), DecodeError>)
    ensures
        list_result_matches(r, spec_decode_list(b@, pos as int, elem, n as int, Seq::empty())),
    decreases remaining(b@, pos as int), 2int, n as int,
{
    let mut acc: Vec<Tag> = Vec::new();
    let mut cur: usize = pos;
    let mut left: u32 = n;
    loop
        invariant
            pos <= cur,
            left <= n,
            spec_decode_list(b@, pos as int, elem, n as int, Seq::empty())
                == spec_decode_list(b@, cur as int, elem, left as int, models_of(acc@)),
        decreases left,
    {
        if left == 0 {
            return Ok((acc, cur));
        }
        match decode_payload(b, cur, elem) {
            Err(e) => {
                return Err(e);
            },
            Ok((t, end)) => {
                if end <= cur || end > b.len() {
                    return Err(DecodeError::Malformed);
                }
                proof {
                    lemma_models_of_push(acc@, t);
                }
                acc.push(t);
                cur = end;
                left = left - 1;
            },
        }
    }
}

/// Decodes a whole document within `limit` bytes, exactly as
/// [`spec_decode_document`] says. The input's length is checked against
/// `limit` first, and every length field inside is checked against the bytes
/// that remain before anything is built, so no call ever allocates beyond
/// `limit`.
pub fn decode_document(b: &Vec<u8>, limit: usize) -> (r: Result<Option<NbtDocument>, DecodeError>)
    ensures
        document_result_matches(r, spec_decode_document(b@, limit as int)),
{
    if b.len() > limit {
        return Err(DecodeError::SizeLimitExceeded);
    }
    if b.len() < 1 {
        return Err(DecodeError::Truncated);
    }
    let id = b[0];
    if id == 0 {
        return Ok(None);
    }
    if id != 10 {
        return Err(DecodeError::Malformed);
    }
    if b.len() < 3 {
        return Err(DecodeError::Truncated);
    }
    let n = be_u16(b, 1) as usize;
    if n > b.len() - 3 {
        return Err(DecodeError::Truncated);
    }
    let name = read_bytes(b, 3, n);
    match decode_entries(b, 3 + n) {
        Ok((entries, _)) => Ok(Some(NbtDocument { name, entries })),
        Err(e) => Err(e),
    }
}

/// The wire kind of a tag value.
pub open spec fn spec_kind_of(t: TagModel) -> u8 {
    match t {
        TagModel::Byte(_) => 1,
        TagModel::Short(_) => 2,
        TagModel::Int(_) => 3,
        TagModel::Long(_) => 4,
        TagModel::Float(_) => 5,
        TagModel::Double(_) => 6,
        TagModel::ByteArray(_) => 7,
        TagModel::Str(_) => 8,
        TagModel::List(_, _) => 9,
        TagModel::Compound(_) => 10,
        TagModel::IntArray(_) => 11,
        TagModel::LongArray(_) => 12,
    }
}

/// The two big-endian bytes of a 16-bit value.
pub open spec fn spec_be_u16_bytes(v: u16) -> Seq<u8> {
    seq![(v / 0x100) as u8, (v % 0x100) as u8]
}

/// The four big-endian bytes of a 32-bit value.
pub open spec fn spec_be_u32_bytes(v: u32) -> Seq<u8> {
    seq![
        (v / 0x1000000) as u8,
        ((v / 0x10000) % 0x100) as u8,
        ((v / 0x100) % 0x100) as u8,
        (v % 0x100) as u8,
    ]
}

/// The eight big-endian bytes of a 64-bit value.
pub open spec fn spec_be_u64_bytes(v: u64) -> Seq<u8> {
    spec_be_u32_bytes((v / 0x100000000) as u32) + spec_be_u32_bytes((v % 0x100000000) as u32)
}

/// Whether a tag fits the wire form: every string and name fits its 16-bit
/// length prefix, and every count fits its signed 32-bit count field.
pub open spec fn spec_wf_tag(t: TagModel) -> bool
    decreases t,
{
    match t {
        TagModel::Byte(_) => true,
        TagModel::Short(_) => true,
        TagModel::Int(_) => true,
        TagModel::Long(_) => true,
        TagModel::Float(_) => true,
        TagModel::Double(_) => true,
        TagModel::ByteArray(s) => s.len() < 0x80000000,
        TagModel::Str(s) => s.len() <= 0xFFFF,
        TagModel::List(elem, items) => items.len() < 0x80000000 && spec_wf_list(items, elem),
        TagModel::Compound(es) => spec_wf_entries(es),
        TagModel::IntArray(s) => s.len() < 0x80000000,
        TagModel::LongArray(s) => s.len() < 0x80000000,
    }
}

/// Whether every element of a list fits the wire form and has the list's
/// element kind.
pub open spec fn spec_wf_list(items: Seq<TagModel>, elem: u8) -> bool
    decreases items,
{
    forall|i: int| 0 <= i < items.len()
        ==> (spec_kind_of(#[trigger] items[i]) == elem && spec_wf_tag(items[i]))
}

/// Whether every field of a compound fits the wire form.
pub open spec fn spec_wf_entries(es: Seq<(Seq<u8>, TagModel)>) -> bool
    decreases es,
{
    forall|i: int| 0 <= i < es.len()
        ==> ((#[trigger] es[i]).0.len() <= 0xFFFF && spec_wf_tag(es[i].1))
}

/// Whether a whole document fits the wire form.
pub open spec fn spec_wf_document(d: NbtDocumentModel) -> bool {
    d.name.len() <= 0xFFFF && spec_wf_entries(d.entries)
}

pub proof fn lemma_wf_list_index(items: Seq<TagModel>, elem: u8, i: int)
    requires
        spec_wf_list(items, elem),
        0 <= i < items.len(),
    ensures
        spec_wf_tag(items[i]),
        spec_kind_of(items[i]) == elem,
{
}

pub proof fn lemma_wf_entries_index(es: Seq<(Seq<u8>, TagModel)>, i: int)
    requires
        spec_wf_entries(es),
        0 <= i < es.len(),
    ensures
        es[i].0.len() <= 0xFFFF,
        spec_wf_tag(es[i].1),
{
}

/// The wire bytes of one tag payload (without its kind byte or name).
pub open spec fn spec_encode_payload(t: TagModel) -> Seq<u8>
    decreases t,
{
    match t {
        TagModel::Byte(v) => seq![v],
        TagModel::Short(v) => spec_be_u16_bytes(v),
        TagModel::Int(v) => spec_be_u32_bytes(v),
        TagModel::Long(v) => spec_be_u64_bytes(v),
        TagModel::Float(v) => spec_be_u32_bytes(v),
        TagModel::Double(v) => spec_be_u64_bytes(v),
        TagModel::ByteArray(s) => spec_be_u32_bytes(s.len() as u32) + s,
        TagModel::Str(s) => spec_be_u16_bytes(s.len() as u16) + s,
        TagModel::List(elem, items) => seq![elem] + spec_be_u32_bytes(items.len() as u32)
            + spec_encode_list(items),
        TagModel::Compound(es) => spec_encode_entries(es) + seq![0u8],
        TagModel::IntArray(s) => spec_be_u32_bytes(s.len() as u32) + spec_encode_u32s(s),
        TagModel::LongArray(s) => spec_be_u32_bytes(s.len() as u32) + spec_encode_u64s(s),
    }
}

/// The wire bytes of a list's elements, in order.
pub open spec fn spec_encode_list(items: Seq<TagModel>) -> Seq<u8>
    decreases items,
{
    if items.len() == 0 {
        Seq::empty()
    } else {
        spec_encode_list(items.drop_last()) + spec_encode_payload(items.last())
    }
}

/// The wire bytes of one named field: kind, name length, name, payload.
pub open spec fn spec_encode_entry(e: (Seq<u8>, TagModel)) -> Seq<u8>
    decreases e,
{
    seq![spec_kind_of(e.1)] + spec_be_u16_bytes(e.0.len() as u16) + e.0 + spec_encode_payload(e.1)
}

/// The wire bytes of a compound's named fields, in order, without the
/// terminating zero byte.
pub open spec fn spec_encode_entries(es: Seq<(Seq<u8>, TagModel)>) -> Seq<u8>
    decreases es,
{
    if es.len() == 0 {
        Seq::empty()
    } else {
        spec_encode_entries(es.drop_last()) + spec_encode_entry(es.last())
    }
}

/// The wire bytes of a run of 32-bit values, big-endian each.
pub open spec fn spec_encode_u32s(s: Seq<u32>) -> Seq<u8>
    decreases s,
{
    if s.len() == 0 {
        Seq::empty()
    } else {
        spec_encode_u32s(s.drop_last()) + spec_be_u32_bytes(s.last())
    }
}

/// The wire bytes of a run of 64-bit values, big-endian each.
pub open spec fn spec_encode_u64s(s: Seq<u64>) -> Seq<u8>
    decreases s,
{
    if s.len() == 0 {
        Seq::empty()
    } else {
        spec_encode_u64s(s.drop_last()) + spec_be_u64_bytes(s.last())
    }
}

/// The wire bytes of a whole document: root kind, root name, fields,
/// terminator.
pub open spec fn spec_encode_document(d: NbtDocumentModel) -> Seq<u8> {
    seq![10u8] + spec_be_u16_bytes(d.name.len() as u16) + d.name + spec_encode_entries(d.entries)
        + seq![0u8]
}

fn push_be_u16(buf: &mut Vec<u8>, v: u16)
    ensures
        final(buf)@ == old(buf)@ + spec_be_u16_bytes(v),
{
    buf.push((v / 0x100) as u8);
    buf.push((v % 0x100) as u8);
    assert(buf@ =~= old(buf)@ + spec_be_u16_bytes(v));
}

fn push_be_u32(buf: &mut Vec<u8>, v: u32)
    ensures
        final(buf)@ == old(buf)@ + spec_be_u32_bytes(v),
{
    buf.push((v / 0x1000000) as u8);
    buf.push(((v / 0x10000) % 0x100) as u8);
    buf.push(((v / 0x100) % 0x100) as u8);
    buf.push((v % 0x100) as u8);
    assert(buf@ =~= old(buf)@ + spec_be_u32_bytes(v));
}

fn push_be_u64(buf: &mut Vec<u8>, v: u64)
    ensures
        final(buf)@ == old(buf)@ + spec_be_u64_bytes(v),
{
    push_be_u32(buf, (v / 0x100000000) as u32);
    push_be_u32(buf, (v % 0x100000000) as u32);
    assert(buf@ =~= old(buf)@ + spec_be_u64_bytes(v));
}

fn push_bytes(buf: &mut Vec<u8>, s: &Vec<u8>)
    ensures
        final(buf)@ == old(buf)@ + s@,
{
    let mut i: usize = 0;
    while i < s.len()
        invariant
            i <= s.len(),
            buf@ == old(buf)@ + s@.subrange(0, i as int),
        decreases s.len() - i,
    {
        buf.push(s[i]);
        assert(buf@ =~= old(buf)@ + s@.subrange(0, (i + 1) as int));
        i = i + 1;
    }
    assert(s@.subrange(0, s@.len() as int) =~= s@);
}

/// The wire kind of a tag, as [`spec_kind_of`] says.
pub fn kind_of(t: &Tag) -> (k: u8)
    ensures
        k == spec_kind_of(t.model()),
{
    match t {
        Tag::Byte(_) => 1,
        Tag::Short(_) => 2,
        Tag::Int(_) => 3,
        Tag::Long(_) => 4,
        Tag::Float(_) => 5,
        Tag::Double(_) => 6,
        Tag::ByteArray(_) => 7,
        Tag::Str(_) => 8,
        Tag::List(_, _) => 9,
        Tag::Compound(_) => 10,
        Tag::IntArray(_) => 11,
        Tag::LongArray(_) => 12,
    }
}

/// Appends the wire bytes of one tag payload, exactly as
/// [`spec_encode_payload`] says.
#[verifier::loop_isolation(false)]
pub fn encode_payload_into(t: &Tag, buf: &mut Vec<u8>)
    requires
        spec_wf_tag(t.model()),
    ensures
        final(buf)@ == old(buf)@ + spec_encode_payload(t.model()),
    decreases *t, 1int,
{
    match t {
        Tag::Byte(v) => {
            buf.push(*v);
            assert(buf@ =~= old(buf)@ + spec_encode_payload(t.model()));
        },
        Tag::Short(v) => {
            push_be_u16(buf, *v);
        },
        Tag::Int(v) => {
            push_be_u32(buf, *v);
        },
        Tag::Long(v) => {
            push_be_u64(buf, *v);
        },
        Tag::Float(v) => {
            push_be_u32(buf, *v);
        },
        Tag::Double(v) => {
            push_be_u64(buf, *v);
        },
        Tag::ByteArray(s) => {
            push_be_u32(buf, s.len() as u32);
            push_bytes(buf, s);
            assert(buf@ =~= old(buf)@ + spec_encode_payload(t.model()));
        },
        Tag::Str(s) => {
            push_be_u16(buf, s.len() as u16);
            push_bytes(buf, s);
            assert(buf@ =~= old(buf)@ + spec_encode_payload(t.model()));
        },
        Tag::List(elem, items) => {
            buf.push(*elem);
            push_be_u32(buf, items.len() as u32);
            let ghost models = models_of(items@);
            proof {
                lemma_models_of(items@);
            }
            let mut j: usize = 0;
            while j < items.len()
                invariant
                    j <= items.len(),
                    spec_wf_list(models, *elem),
                    models == models_of(items@),
                    models.len() == items@.len(),
                    forall|k: int| 0 <= k < items@.len() ==> models[k] == items@[k].model(),
                    buf@ == old(buf)@ + seq![*elem] + spec_be_u32_bytes(items@.len() as u32)
                        + spec_encode_list(models.subrange(0, j as int)),
                decreases items.len() - j,
            {
                proof {
                    lemma_wf_list_index(models, *elem, j as int);
                    assert(decreases_to!(*t => *items));
                    assert(decreases_to!(*items => items@[j as int]));
                }
                encode_payload_into(&items[j], buf);
                proof {
                    assert(models.subrange(0, (j + 1) as int).drop_last() =~= models.subrange(
                        0,
                        j as int,
                    ));
                    i_encode_list_step(models, j as int);
                }
                j = j + 1;
            }
            assert(models.subrange(0, models.len() as int) =~= models);
            assert(buf@ =~= old(buf)@ + spec_encode_payload(t.model()));
        },
        Tag::Compound(entries) => {
            encode_entries_into(entries, buf);
            buf.push(0);
            assert(buf@ =~= old(buf)@ + spec_encode_payload(t.model()));
        },
        Tag::IntArray(s) => {
            push_be_u32(buf, s.len() as u32);
            let mut j: usize = 0;
            while j < s.len()
                invariant
                    j <= s.len(),
                    buf@ == old(buf)@ + spec_be_u32_bytes(s@.len() as u32) + spec_encode_u32s(
                        s@.subrange(0, j as int),
                    ),
                decreases s.len() - j,
            {
                push_be_u32(buf, s[j]);
                assert(s@.subrange(0, (j + 1) as int).drop_last() =~= s@.subrange(0, j as int));
                j = j + 1;
            }
            assert(s@.subrange(0, s@.len() as int) =~= s@);
            assert(buf@ =~= old(buf)@ + spec_encode_payload(t.model()));
        },
        Tag::LongArray(s) => {
            push_be_u32(buf, s.len() as u32);
            let mut j: usize = 0;
            while j < s.len()
                invariant
                    j <= s.len(),
                    buf@ == old(buf)@ + spec_be_u32_bytes(s@.len() as u32) + spec_encode_u64s(
                        s@.subrange(0, j as int),
                    ),
                decreases s.len() - j,
            {
                push_be_u64(buf, s[j]);
                assert(s@.subrange(0, (j + 1) as int).drop_last() =~= s@.subrange(0, j as int));
                j = j + 1;
            }
            assert(s@.subrange(0, s@.len() as int) =~= s@);
            assert(buf@ =~= old(buf)@ + spec_encode_payload(t.model()));
        },
    }
}

/// A step of the list-encoding proof, kept out of the loop body.
proof fn i_encode_list_step(models: Seq<TagModel>, j: int)
    requires
        0 <= j < models.len(),
        models.subrange(0, j + 1).drop_last() =~= models.subrange(0, j),
    ensures
        spec_encode_list(models.subrange(0, j + 1)) == spec_encode_list(models.subrange(0, j))
            + spec_encode_payload(models[j]),
{
    assert(models.subrange(0, j + 1).last() == models[j]);
}

/// Appends the wire bytes of a compound's named fields (without the
/// terminating zero byte), exactly as [`spec_encode_entries`] says.
pub fn encode_entries_into(entries: &Vec<(Vec<u8>, Tag)>, buf: &mut Vec<u8>)
    requires
        spec_wf_entries(entry_models_of(entries@)),
    ensures
        final(buf)@ == old(buf)@ + spec_encode_entries(entry_models_of(entries@)),
    decreases *entries, 0int,
{
    let ghost models = entry_models_of(entries@);
    proof {
        lemma_entry_models_of(entries@);
    }
    let mut j: usize = 0;
    while j < entries.len()
        invariant
            j <= entries.len(),
            spec_wf_entries(models),
            models == entry_models_of(entries@),
            models.len() == entries@.len(),
            forall|k: int| 0 <= k < entries@.len()
                ==> models[k] == (entries@[k].0@, entries@[k].1.model()),
            buf@ == old(buf)@ + spec_encode_entries(models.subrange(0, j as int)),
        decreases entries.len() - j,
    {
        proof {
            lemma_wf_entries_index(models, j as int);
        }
        let kind = kind_of(&entries[j].1);
        buf.push(kind);
        push_be_u16(buf, entries[j].0.len() as u16);
        push_bytes(buf, &entries[j].0);
        encode_payload_into(&entries[j].1, buf);
        proof {
            assert(models.subrange(0, (j + 1) as int).drop_last() =~= models.subrange(0, j as int));
            assert(models.subrange(0, (j + 1) as int).last() == models[j as int]);
            let em = models[j as int];
            assert(spec_encode_entries(models.subrange(0, (j + 1) as int))
                == spec_encode_entries(models.subrange(0, j as int)) + spec_encode_entry(em));
            assert(spec_encode_entry(em) == seq![spec_kind_of(em.1)]
                + spec_be_u16_bytes(em.0.len() as u16) + em.0 + spec_encode_payload(em.1));
        }
        assert(buf@ =~= old(buf)@ + spec_encode_entries(models.subrange(0, (j + 1) as int)));
        j = j + 1;
    }
    assert(models.subrange(0, models.len() as int) =~= models);
}

/// The wire bytes of a whole document, exactly as [`spec_encode_document`]
/// says.
pub fn encode_document(d: &NbtDocument) -> (r: Vec<u8>)
    requires
        spec_wf_document(d@),
    ensures
        r@ == spec_encode_document(d@),
{
    let mut buf: Vec<u8> = Vec::new();
    buf.push(10);
    push_be_u16(&mut buf, d.name.len() as u16);
    push_bytes(&mut buf, &d.name);
    encode_entries_into(&d.entries, &mut buf);
    buf.push(0);
    assert(buf@ =~= spec_encode_document(d@));
    buf
}

/// A named field of a compound, looked up by its name: the first field of
/// that name, as the wire order has it.
pub open spec fn spec_lookup(entries: Seq<(Seq<u8>, TagModel)>, name: Seq<u8>) -> Option<TagModel>
    decreases entries,
{
    if entries.len() == 0 {
        None
    } else if entries.first().0 == name {
        Some(entries.first().1)
    } else {
        spec_lookup(entries.drop_first(), name)
    }
}

/// Whether two byte vectors hold the same bytes.
pub fn bytes_eq(a: &Vec<u8>, b: &Vec<u8>) -> (r: bool)
    ensures
        r == (a@ == b@),
{
    if a.len() != b.len() {
        return false;
    }
    let mut i: usize = 0;
    while i < a.len()
        invariant
            a@.len() == b@.len(),
            i <= a@.len(),
            forall|j: int| 0 <= j < i ==> a@[j] == b@[j],
        decreases a@.len() - i,
    {
        if a[i] != b[i] {
            return false;
        }
        i = i + 1;
    }
    proof {
        assert(a@ =~= b@);
    }
    true
}

/// The first field named `name` among `entries`, exactly as [`spec_lookup`]
/// says.
pub fn get_tag<'a>(entries: &'a Vec<(Vec<u8>, Tag)>, name: &Vec<u8>) -> (r: Option<&'a Tag>)
    ensures
        match r {
            Some(t) => spec_lookup(entry_models_of(entries@), name@) == Some(t.model()),
            None => spec_lookup(entry_models_of(entries@), name@) is None,
        },
{
    let ghost models = entry_models_of(entries@);
    proof {
        lemma_entry_models_of(entries@);
        assert(models.skip(0) =~= models);
    }
    let mut i: usize = 0;
    while i < entries.len()
        invariant
            i <= entries@.len(),
            models == entry_models_of(entries@),
            models.len() == entries@.len(),
            forall|k: int| 0 <= k < entries@.len()
                ==> models[k] == (entries@[k].0@, entries@[k].1.model()),
            spec_lookup(models, name@) == spec_lookup(models.skip(i as int), name@),
        decreases entries@.len() - i,
    {
        proof {
            assert(models.skip(i as int).first() == models[i as int]);
            assert(models.skip(i as int).drop_first() =~= models.skip(i + 1));
        }
        if bytes_eq(&entries[i].0, name) {
            return Some(&entries[i].1);
        }
        i = i + 1;
    }
    proof {
        assert(models.skip(models.len() as int).len() == 0);
    }
    None
}

/// An element-wise copy of a vector of plain values.
pub fn copy_vec<T: Copy>(v: &Vec<T>) -> (r: Vec<T>)
    ensures
        r@ == v@,
{
    let mut r: Vec<T> = Vec::new();
    let mut i: usize = 0;
    while i < v.len()
        invariant
            i <= v@.len(),
            r@ == v@.subrange(0, i as int),
        decreases v@.len() - i,
    {
        r.push(v[i]);
        assert(r@ =~= v@.subrange(0, (i + 1) as int));
        i = i + 1;
    }
    proof {
        assert(v@.subrange(0, v@.len() as int) =~= v@);
    }
    r
}

/// A deep copy of a tag, with the same mathematical value.
#[verifier::loop_isolation(false)]
pub fn clone_tag(t: &Tag) -> (r: Tag)
    ensures
        r.model() == t.model(),
    decreases *t,
{
    match t {
        Tag::Byte(v) => Tag::Byte(*v),
        Tag::Short(v) => Tag::Short(*v),
        Tag::Int(v) => Tag::Int(*v),
        Tag::Long(v) => Tag::Long(*v),
        Tag::Float(v) => Tag::Float(*v),
        Tag::Double(v) => Tag::Double(*v),
        Tag::ByteArray(v) => Tag::ByteArray(copy_vec(v)),
        Tag::Str(v) => Tag::Str(copy_vec(v)),
        Tag::IntArray(v) => Tag::IntArray(copy_vec(v)),
        Tag::LongArray(v) => Tag::LongArray(copy_vec(v)),
        Tag::List(elem, items) => {
            let mut out: Vec<Tag> = Vec::new();
            let mut j: usize = 0;
            while j < items.len()
                invariant
                    j <= items@.len(),
                    models_of(out@) == models_of(items@.subrange(0, j as int)),
                decreases items@.len() - j,
            {
                proof {
                    assert(decreases_to!(*t => *items));
                    assert(decreases_to!(*items => items@[j as int]));
                }
                let c = clone_tag(&items[j]);
                proof {
                    lemma_models_of_push(out@, c);
                    assert(items@.subrange(0, (j + 1) as int).drop_last() =~= items@.subrange(
                        0,
                        j as int,
                    ));
                    lemma_models_of_push_general(items@.subrange(0, j as int), items@[j as int]);
                    assert(items@.subrange(0, (j + 1) as int) =~= items@.subrange(
                        0,
                        j as int,
                    ).push(items@[j as int]));
                }
                out.push(c);
                j = j + 1;
            }
            proof {
                assert(items@.subrange(0, items@.len() as int) =~= items@);
            }
            Tag::List(*elem, out)
        },
        Tag::Compound(entries) => {
            let mut out: Vec<(Vec<u8>, Tag)> = Vec::new();
            let mut j: usize = 0;
            while j < entries.len()
                invariant
                    j <= entries@.len(),
                    entry_models_of(out@) == entry_models_of(entries@.subrange(0, j as int)),
                decreases entries@.len() - j,
            {
                proof {
                    assert(decreases_to!(*t => *entries));
                    assert(decreases_to!(*entries => entries@[j as int]));
                    assert(decreases_to!(entries@[j as int] => entries@[j as int].1));
                }
                let name = copy_vec(&entries[j].0);
                let c = clone_tag(&entries[j].1);
                proof {
                    lemma_entry_models_of_push(out@, name, c);
                    lemma_entry_models_of_push_general(
                        entries@.subrange(0, j as int),
                        entries@[j as int],
                    );
                    assert(entries@.subrange(0, (j + 1) as int) =~= entries@.subrange(
                        0,
                        j as int,
                    ).push(entries@[j as int]));
                }
                out.push((name, c));
                j = j + 1;
            }
            proof {
                assert(entries@.subrange(0, entries@.len() as int) =~= entries@);
            }
            Tag::Compound(out)
        },
    }
}

pub proof fn lemma_models_of_push_general(s: Seq<Tag>, t: Tag)
    ensures
        models_of(s.push(t)) == models_of(s).push(t.model()),
{
    lemma_models_of_push(s, t);
}

pub proof fn lemma_entry_models_of_push_general(s: Seq<(Vec<u8>, Tag)>, e: (Vec<u8>, Tag))
    ensures
        entry_models_of(s.push(e)) == entry_models_of(s).push((e.0@, e.1.model())),
{
    assert(s.push(e).drop_last() =~= s);
    assert(s.push(e).last() == e);
}

/// Appends one named field, tracking the compound's mathematical value.
pub fn push_entry(es: &mut Vec<(Vec<u8>, Tag)>, name: Vec<u8>, t: Tag)
    ensures
        entry_models_of(final(es)@) == entry_models_of(old(es)@).push((name@, t.model())),
{
    proof {
        lemma_entry_models_of_push(es@, name, t);
    }
    es.push((name, t));
}

/// Appends one list element, tracking the list's mathematical value.
pub fn push_item(items: &mut Vec<Tag>, t: Tag)
    ensures
        models_of(final(items)@) == models_of(old(items)@).push(t.model()),
{
    proof {
        lemma_models_of_push(items@, t);
    }
    items.push(t);
}

/// Decoding only moves forward: a payload decoded at `pos` ends past `pos`
/// and within the input.
pub proof fn lemma_payload_bounds(b: Seq<u8>, pos: int, id: u8)
    ensures
        match spec_decode_payload(b, pos, id) {
            Ok((t, end)) => pos < end <= b.len(),
            Err(_) => true,
        },
    decreases remaining(b, pos), 1int, 0int,
{
    if id == 9 {
        if pos + 5 <= b.len() {
            let n = spec_be_u32(b, pos + 1);
            if n < 0x80000000 {
                lemma_list_bounds(b, pos + 5, b[pos], n as int, Seq::empty());
            }
        }
    } else if id == 10 {
        lemma_entries_bounds(b, pos, Seq::empty());
    }
}

/// Compound fields decoded at `pos` end strictly past `pos` and within the
/// input.
pub proof fn lemma_entries_bounds(b: Seq<u8>, pos: int, acc: Seq<(Seq<u8>, TagModel)>)
    ensures
        match spec_decode_entries(b, pos, acc) {
            Ok((es, end)) => pos < end <= b.len(),
            Err(_) => true,
        },
    decreases remaining(b, pos), 0int, 0int,
{
    if pos + 1 <= b.len() {
        let id = b[pos];
        if id != 0 && pos + 3 <= b.len() {
            let n = spec_be_u16(b, pos + 1);
            if pos + 3 + n <= b.len() {
                lemma_payload_bounds(b, pos + 3 + n, id);
                match spec_decode_payload(b, pos + 3 + n, id) {
                    Ok((t, pend)) => {
                        if pos + 3 + n < pend <= b.len() {
                            lemma_entries_bounds(b, pend, acc.push((b.subrange(
                                pos + 3,
                                pos + 3 + n,
                            ), t)));
                        }
                    },
                    Err(_) => {},
                }
            }
        }
    }
}

/// List elements decoded at `pos` end at or past `pos` and within the input.
pub proof fn lemma_list_bounds(b: Seq<u8>, pos: int, elem: u8, n: int, acc: Seq<TagModel>)
    requires
        pos <= b.len(),
    ensures
        match spec_decode_list(b, pos, elem, n, acc) {
            Ok((items, end)) => pos <= end <= b.len(),
            Err(_) => true,
        },
    decreases remaining(b, pos), 2int, n,
{
    if n > 0 {
        lemma_payload_bounds(b, pos, elem);
        match spec_decode_payload(b, pos, elem) {
            Ok((t, e1)) => {
                if pos < e1 <= b.len() {
                    lemma_list_bounds(b, e1, elem, n - 1, acc.push(t));
                }
            },
            Err(_) => {},
        }
    }
}

/// Decoding reads nothing past what it consumes: a payload decode that ends
/// at or before `m` comes out the same on the input cut at `m`.
pub proof fn lemma_payload_stable(b: Seq<u8>, m: int, pos: int, id: u8)
    requires
        0 <= pos,
        0 <= m <= b.len(),
    ensures
        match spec_decode_payload(b, pos, id) {
            Ok((t, end)) => end <= m ==> spec_decode_payload(b.subrange(0, m), pos, id)
                == Ok::<(TagModel, int), DecodeError>((t, end)),
            Err(_) => true,
        },
    decreases remaining(b, pos), 1int, 0int,
{
    let p = b.subrange(0, m);
    match spec_decode_payload(b, pos, id) {
        Ok((t, end)) => {
            if end <= m {
                if id == 7 {
                    let n = spec_be_u32(b, pos);
                    assert(p.subrange(pos + 4, pos + 4 + n) =~= b.subrange(pos + 4, pos + 4 + n));
                } else if id == 8 {
                    let n = spec_be_u16(b, pos);
                    assert(p.subrange(pos + 2, pos + 2 + n) =~= b.subrange(pos + 2, pos + 2 + n));
                } else if id == 9 {
                    lemma_list_bounds(b, pos + 5, b[pos], spec_be_u32(b, pos + 1) as int,
                        Seq::empty());
                    lemma_list_stable(b, m, pos + 5, b[pos], spec_be_u32(b, pos + 1) as int,
                        Seq::empty());
                } else if id == 10 {
                    lemma_entries_stable(b, m, pos, Seq::empty());
                } else if id == 11 {
                    let n = spec_be_u32(b, pos);
                    assert(Seq::new(n as nat, |i: int| spec_be_u32(p, pos + 4 + 4 * i)) =~= Seq::new(
                        n as nat,
                        |i: int| spec_be_u32(b, pos + 4 + 4 * i),
                    ));
                } else if id == 12 {
                    let n = spec_be_u32(b, pos);
                    assert(Seq::new(n as nat, |i: int| spec_be_u64(p, pos + 4 + 8 * i)) =~= Seq::new(
                        n as nat,
                        |i: int| spec_be_u64(b, pos + 4 + 8 * i),
                    ));
                }
            }
        },
        Err(_) => {},
    }
}

/// Compound fields whose decode ends at or before `m` come out the same on
/// the input cut at `m`.
pub proof fn lemma_entries_stable(b: Seq<u8>, m: int, pos: int, acc: Seq<(Seq<u8>, TagModel)>)
    requires
        0 <= pos,
        0 <= m <= b.len(),
    ensures
        match spec_decode_entries(b, pos, acc) {
            Ok((es, end)) => end <= m ==> spec_decode_entries(b.subrange(0, m), pos, acc)
                == Ok::<(Seq<(Seq<u8>, TagModel)>, int), DecodeError>((es, end)),
            Err(_) => true,
        },
    decreases remaining(b, pos), 0int, 0int,
{
    let p = b.subrange(0, m);
    match spec_decode_entries(b, pos, acc) {
        Ok((es, end)) => {
            if end <= m {
                let id = b[pos];
                if id != 0 {
                    let n = spec_be_u16(b, pos + 1);
                    match spec_decode_payload(b, pos + 3 + n, id) {
                        Ok((t, pend)) => {
                            lemma_entries_bounds(b, pend, acc.push((b.subrange(
                                pos + 3,
                                pos + 3 + n,
                            ), t)));
                            assert(p.subrange(pos + 3, pos + 3 + n) =~= b.subrange(
                                pos + 3,
                                pos + 3 + n,
                            ));
                            lemma_payload_stable(b, m, pos + 3 + n, id);
                            lemma_entries_stable(b, m, pend, acc.push((b.subrange(
                                pos + 3,
                                pos + 3 + n,
                            ), t)));
                        },
                        Err(_) => {},
                    }
                }
            }
        },
        Err(_) => {},
    }
}

/// List elements whose decode ends at or before `m` come out the same on the
/// input cut at `m`.
pub proof fn lemma_list_stable(b: Seq<u8>, m: int, pos: int, elem: u8, n: int, acc: Seq<TagModel>)
    requires
        0 <= pos,
        0 <= m <= b.len(),
    ensures
        match spec_decode_list(b, pos, elem, n, acc) {
            Ok((items, end)) => end <= m ==> spec_decode_list(b.subrange(0, m), pos, elem, n, acc)
                == Ok::<(Seq<TagModel>, int), DecodeError>((items, end)),
            Err(_) => true,
        },
    decreases remaining(b, pos), 2int, n,
{
    match spec_decode_list(b, pos, elem, n, acc) {
        Ok((items, end)) => {
            if end <= m && n > 0 {
                match spec_decode_payload(b, pos, elem) {
                    Ok((t, e1)) => {
                        if pos < e1 <= b.len() {
                            lemma_list_bounds(b, e1, elem, n - 1, acc.push(t));
                            lemma_payload_stable(b, m, pos, elem);
                            lemma_list_stable(b, m, e1, elem, n - 1, acc.push(t));
                        }
                    },
                    Err(_) => {},
                }
            }
        },
        Err(_) => {},
    }
}

/// Cutting the input strictly before the end of a payload makes its decode
/// fail: no truncation is silently accepted.
pub proof fn lemma_payload_truncated(b: Seq<u8>, m: int, pos: int, id: u8)
    requires
        0 <= pos,
        0 <= m <= b.len(),
    ensures
        match spec_decode_payload(b, pos, id) {
            Ok((t, end)) => end > m ==> spec_decode_payload(b.subrange(0, m), pos, id) is Err,
            Err(_) => true,
        },
    decreases remaining(b, pos), 1int, 0int,
{
    let p = b.subrange(0, m);
    match spec_decode_payload(b, pos, id) {
        Ok((t, end)) => {
            if end > m {
                if id == 9 {
                    if pos + 5 <= m {
                        lemma_list_bounds(b, pos + 5, b[pos], spec_be_u32(b, pos + 1) as int,
                            Seq::empty());
                        lemma_list_truncated(b, m, pos + 5, b[pos],
                            spec_be_u32(b, pos + 1) as int, Seq::empty());
                    }
                } else if id == 10 {
                    lemma_entries_truncated(b, m, pos, Seq::empty());
                }
            }
        },
        Err(_) => {},
    }
}

/// Cutting the input strictly before the end of a compound's fields makes
/// their decode fail.
pub proof fn lemma_entries_truncated(b: Seq<u8>, m: int, pos: int, acc: Seq<(Seq<u8>, TagModel)>)
    requires
        0 <= pos,
        0 <= m <= b.len(),
    ensures
        match spec_decode_entries(b, pos, acc) {
            Ok((es, end)) => end > m ==> spec_decode_entries(b.subrange(0, m), pos, acc) is Err,
            Err(_) => true,
        },
    decreases remaining(b, pos), 0int, 0int,
{
    let p = b.subrange(0, m);
    match spec_decode_entries(b, pos, acc) {
        Ok((es, end)) => {
            if end > m && pos + 1 <= m {
                let id = b[pos];
                if id != 0 && pos + 3 <= m {
                    let n = spec_be_u16(b, pos + 1);
                    if pos + 3 + n <= m {
                        assert(p.subrange(pos + 3, pos + 3 + n) =~= b.subrange(
                            pos + 3,
                            pos + 3 + n,
                        ));
                        match spec_decode_payload(b, pos + 3 + n, id) {
                            Ok((t, pend)) => {
                                lemma_payload_bounds(b, pos + 3 + n, id);
                                lemma_entries_bounds(b, pend, acc.push((b.subrange(
                                    pos + 3,
                                    pos + 3 + n,
                                ), t)));
                                if pend > m {
                                    lemma_payload_truncated(b, m, pos + 3 + n, id);
                                } else {
                                    lemma_payload_stable(b, m, pos + 3 + n, id);
                                    lemma_entries_truncated(b, m, pend, acc.push((b.subrange(
                                        pos + 3,
                                        pos + 3 + n,
                                    ), t)));
                                }
                            },
                            Err(_) => {},
                        }
                    }
                }
            }
        },
        Err(_) => {},
    }
}

/// Cutting the input strictly before the end of a list's elements makes
/// their decode fail.
pub proof fn lemma_list_truncated(b: Seq<u8>, m: int, pos: int, elem: u8, n: int, acc: Seq<TagModel>)
    requires
        0 <= pos <= m <= b.len(),
    ensures
        match spec_decode_list(b, pos, elem, n, acc) {
            Ok((items, end)) => end > m ==> spec_decode_list(b.subrange(0, m), pos, elem, n, acc)
                is Err,
            Err(_) => true,
        },
    decreases remaining(b, pos), 2int, n,
{
    match spec_decode_list(b, pos, elem, n, acc) {
        Ok((items, end)) => {
            if end > m && n > 0 {
                match spec_decode_payload(b, pos, elem) {
                    Ok((t, e1)) => {
                        lemma_payload_bounds(b, pos, elem);
                        if e1 > m {
                            lemma_payload_truncated(b, m, pos, elem);
                        } else {
                            lemma_payload_stable(b, m, pos, elem);
                            lemma_list_truncated(b, m, e1, elem, n - 1, acc.push(t));
                        }
                    },
                    Err(_) => {},
                }
            }
        },
        Err(_) => {},
    }
}

/// How many bytes of the input a document decode consumes: where its root
/// compound's fields end.
pub open spec fn spec_document_consumed(b: Seq<u8>) -> int {
    if b.len() >= 3 && b[0] == 10 {
        let n = spec_be_u16(b, 1);
        match spec_decode_entries(b, 3 + n, Seq::empty()) {
            Ok((es, end)) => end,
            Err(_) => 0,
        }
    } else {
        0
    }
}

/// Law: a truncated binary resource fails to decode. Cutting a resource that
/// decodes to a document anywhere strictly before the document's end leaves
/// an input that the decoder rejects — it never yields a document from a
/// partial resource.
pub proof fn lemma_truncated_document_rejected(b: Seq<u8>, m: int, limit: int)
    requires
        spec_decode_document(b, limit) matches Ok(d) && d is Some,
        0 <= m < spec_document_consumed(b),
    ensures
        spec_decode_document(b.subrange(0, m), limit) is Err,
{
    let p = b.subrange(0, m);
    let n = spec_be_u16(b, 1);
    lemma_entries_bounds(b, 3 + n, Seq::empty());
    if m >= 3 {
        if 3 + n <= m {
            assert(spec_be_u16(p, 1) == n);
            lemma_entries_truncated(b, m, 3 + n, Seq::empty());
        }
    }
}

/// The UTF-8 bytes of an ASCII string are its characters, one byte each.
pub proof fn lemma_ascii_bytes(s: &str)
    requires
        vstd::utf8::is_ascii_chars(s@),
    ensures
        s.spec_bytes().len() == s@.len(),
        forall|i: int| 0 <= i < s@.len() ==> s.spec_bytes()[i] == s@[i] as u8,
{
    vstd::utf8::is_ascii_chars_encode_utf8(s@);
}

} // verus!
