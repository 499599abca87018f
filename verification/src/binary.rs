//! Typed values and their encoding into bytes.
//!
//! A value is encoded as a tag that names its type, followed by the bytes
//! of the value. Numbers are written with the most significant byte first,
//! signed ones shifted so that the smallest is written as zero: among
//! numbers of one type the byte strings are ordered as the numbers are.
//! A text is written as the number of its bytes, then the bytes.

use vstd::prelude::*;
use vstd::utf8::{decode_utf8, encode_utf8, valid_utf8};
use crate::bytes::{
    be_bytes, be_encode, be_u64, be_value, bytes_less, lemma_be_bytes_of_value, lemma_be_len,
    lemma_be_order, lemma_be_value_of_bytes, lemma_span_bound, lex_less, precedes_at, span,
};
use crate::ordered::{OrderedKey, Plain};
use crate::request::copy_range;
use crate::text::text_from_utf8;

verus! {

pub const NULL: u8 = 0;

pub const FALSE: u8 = 1;

pub const TRUE: u8 = 2;

pub const INT16: u8 = 3;

pub const INT32: u8 = 4;

pub const INT64: u8 = 5;

pub const UINT64: u8 = 6;

pub const STRING: u8 = 7;

/// A typed value.
#[derive(Debug, Clone, PartialEq)]
pub enum Datum {
    Null,
    True,
    False,
    Int16(i16),
    Int32(i32),
    Int64(i64),
    UInt64(u64),
    String(String),
}

/// What a `Datum` holds, as plain values.
pub enum DatumModel {
    Null,
    True,
    False,
    Int16(i16),
    Int32(i32),
    Int64(i64),
    UInt64(u64),
    String(Seq<char>),
}

impl View for Datum {
    type V = DatumModel;

    open spec fn view(&self) -> DatumModel {
        match self {
            Datum::Null => DatumModel::Null,
            Datum::True => DatumModel::True,
            Datum::False => DatumModel::False,
            Datum::Int16(value) => DatumModel::Int16(*value),
            Datum::Int32(value) => DatumModel::Int32(*value),
            Datum::Int64(value) => DatumModel::Int64(*value),
            Datum::UInt64(value) => DatumModel::UInt64(*value),
            Datum::String(value) => DatumModel::String(value@),
        }
    }
}

/// The values of `values`, as plain values.
pub open spec fn datums(values: Seq<Datum>) -> Seq<DatumModel> {
    values.map_values(|value: Datum| value@)
}

impl Datum {
    pub fn from_null() -> (datum: Datum)
        ensures
            datum@ == DatumModel::Null,
    {
        Datum::Null
    }

    pub fn from_bool(value: bool) -> (datum: Datum)
        ensures
            datum@ == if value {
                DatumModel::True
            } else {
                DatumModel::False
            },
    {
        if value {
            Datum::True
        } else {
            Datum::False
        }
    }

    pub fn from_i16(value: i16) -> (datum: Datum)
        ensures
            datum@ == DatumModel::Int16(value),
    {
        Datum::Int16(value)
    }

    pub fn from_i32(value: i32) -> (datum: Datum)
        ensures
            datum@ == DatumModel::Int32(value),
    {
        Datum::Int32(value)
    }

    pub fn from_i64(value: i64) -> (datum: Datum)
        ensures
            datum@ == DatumModel::Int64(value),
    {
        Datum::Int64(value)
    }

    pub fn from_u64(value: u64) -> (datum: Datum)
        ensures
            datum@ == DatumModel::UInt64(value),
    {
        Datum::UInt64(value)
    }

    pub fn from_string(value: String) -> (datum: Datum)
        ensures
            datum@ == DatumModel::String(value@),
    {
        Datum::String(value)
    }

    pub fn is_integer(&self) -> (integer: bool)
        ensures
            integer == self@.is_integer(),
    {
        match self {
            Datum::Int16(_) | Datum::Int32(_) | Datum::Int64(_) | Datum::UInt64(_) => true,
            _ => false,
        }
    }

    pub fn is_string(&self) -> (string: bool)
        ensures
            string == self@ is String,
    {
        match self {
            Datum::String(_) => true,
            _ => false,
        }
    }

    pub fn is_boolean(&self) -> (boolean: bool)
        ensures
            boolean == (self@ is True || self@ is False),
    {
        match self {
            Datum::True | Datum::False => true,
            _ => false,
        }
    }
}

impl DatumModel {
    pub open spec fn is_integer(self) -> bool {
        self is Int16 || self is Int32 || self is Int64 || self is UInt64
    }

    /// The number that an integer value holds.
    pub open spec fn number(self) -> int {
        match self {
            DatumModel::Int16(value) => value as int,
            DatumModel::Int32(value) => value as int,
            DatumModel::Int64(value) => value as int,
            DatumModel::UInt64(value) => value as int,
            _ => 0,
        }
    }

    /// The bytes that encode the value.
    pub open spec fn encoding(self) -> Seq<u8> {
        match self {
            DatumModel::Null => seq![NULL],
            DatumModel::False => seq![FALSE],
            DatumModel::True => seq![TRUE],
            DatumModel::Int16(value) => seq![INT16] + be_bytes((value + 0x8000) as nat, 2),
            DatumModel::Int32(value) => seq![INT32] + be_bytes((value + 0x8000_0000) as nat, 4),
            DatumModel::Int64(value) => seq![INT64] + be_bytes(
                (value + 0x8000_0000_0000_0000) as nat,
                8,
            ),
            DatumModel::UInt64(value) => seq![UINT64] + be_bytes(value as nat, 8),
            DatumModel::String(value) => seq![STRING] + be_bytes(encode_utf8(value).len(), 8)
                + encode_utf8(value),
        }
    }

    /// Whether the value can be encoded: a text must not have more bytes
    /// than its length field can count.
    pub open spec fn encodable(self) -> bool {
        match self {
            DatumModel::String(value) => encode_utf8(value).len() < span(8),
            _ => true,
        }
    }
}

/// The encodings of the values, one after the other.
pub open spec fn packed(values: Seq<DatumModel>) -> Seq<u8>
    decreases values.len(),
{
    if values.len() == 0 {
        Seq::empty()
    } else {
        values[0].encoding() + packed(values.drop_first())
    }
}

/// The value that is encoded at the head of `bytes`, and the number of
/// bytes that encode it.
pub open spec fn first_datum(bytes: Seq<u8>) -> Option<(DatumModel, int)> {
    if bytes.len() == 0 {
        None
    } else if bytes[0] == NULL {
        Some((DatumModel::Null, 1))
    } else if bytes[0] == FALSE {
        Some((DatumModel::False, 1))
    } else if bytes[0] == TRUE {
        Some((DatumModel::True, 1))
    } else if bytes[0] == INT16 {
        if bytes.len() >= 3 {
            Some((DatumModel::Int16((be_value(bytes.subrange(1, 3)) - 0x8000) as i16), 3))
        } else {
            None
        }
    } else if bytes[0] == INT32 {
        if bytes.len() >= 5 {
            Some((DatumModel::Int32((be_value(bytes.subrange(1, 5)) - 0x8000_0000) as i32), 5))
        } else {
            None
        }
    } else if bytes[0] == INT64 {
        if bytes.len() >= 9 {
            Some(
                (
                    DatumModel::Int64(
                        (be_value(bytes.subrange(1, 9)) - 0x8000_0000_0000_0000) as i64,
                    ),
                    9,
                ),
            )
        } else {
            None
        }
    } else if bytes[0] == UINT64 {
        if bytes.len() >= 9 {
            Some((DatumModel::UInt64(be_value(bytes.subrange(1, 9)) as u64), 9))
        } else {
            None
        }
    } else if bytes[0] == STRING {
        if bytes.len() >= 9 {
            let len = be_value(bytes.subrange(1, 9)) as int;
            if bytes.len() >= 9 + len && valid_utf8(bytes.subrange(9, 9 + len)) {
                Some((DatumModel::String(decode_utf8(bytes.subrange(9, 9 + len))), 9 + len))
            } else {
                None
            }
        } else {
            None
        }
    } else {
        None
    }
}

/// The values that `bytes` encode, if they encode values from their first
/// byte to their last.
pub open spec fn unpacked(bytes: Seq<u8>) -> Option<Seq<DatumModel>>
    decreases bytes.len(),
{
    if bytes.len() == 0 {
        Some(Seq::empty())
    } else {
        match first_datum(bytes) {
            Some((datum, consumed)) => if 0 < consumed <= bytes.len() {
                match unpacked(bytes.skip(consumed)) {
                    Some(rest) => Some(seq![datum] + rest),
                    None => None,
                }
            } else {
                None
            },
            None => None,
        }
    }
}

/// The encoding of a value is read back as the value, whatever follows.
pub proof fn lemma_first_datum_of_encoding(datum: DatumModel, rest: Seq<u8>)
    requires
        datum.encodable(),
    ensures
        first_datum(datum.encoding() + rest) == Some((datum, datum.encoding().len() as int)),
        datum.encoding().len() > 0,
        (datum.encoding() + rest).skip(datum.encoding().len() as int) == rest,
{
    let bytes = datum.encoding() + rest;
    assert(bytes.skip(datum.encoding().len() as int) =~= rest);
    lemma_span_bound(8);
    lemma_span_bound(4);
    lemma_span_bound(2);
    match datum {
        DatumModel::Int16(value) => {
            let shifted = (value + 0x8000) as nat;
            lemma_be_len(shifted, 2);
            lemma_be_value_of_bytes(shifted, 2);
            assert(bytes.subrange(1, 3) =~= be_bytes(shifted, 2));
        },
        DatumModel::Int32(value) => {
            let shifted = (value + 0x8000_0000) as nat;
            lemma_be_len(shifted, 4);
            lemma_be_value_of_bytes(shifted, 4);
            assert(bytes.subrange(1, 5) =~= be_bytes(shifted, 4));
        },
        DatumModel::Int64(value) => {
            let shifted = (value + 0x8000_0000_0000_0000) as nat;
            lemma_be_len(shifted, 8);
            lemma_be_value_of_bytes(shifted, 8);
            assert(bytes.subrange(1, 9) =~= be_bytes(shifted, 8));
        },
        DatumModel::UInt64(value) => {
            lemma_be_len(value as nat, 8);
            lemma_be_value_of_bytes(value as nat, 8);
            assert(bytes.subrange(1, 9) =~= be_bytes(value as nat, 8));
        },
        DatumModel::String(value) => {
            let text = encode_utf8(value);
            lemma_be_len(text.len(), 8);
            lemma_be_value_of_bytes(text.len(), 8);
            assert(bytes.subrange(1, 9) =~= be_bytes(text.len(), 8));
            assert(bytes.subrange(9, 9 + text.len() as int) =~= text);
            vstd::utf8::encode_utf8_valid_utf8(value);
            vstd::utf8::encode_utf8_decode_utf8(value);
        },
        _ => {},
    }
}

/// Values that are packed and unpacked again are the values that were
/// packed.
pub proof fn lemma_unpack_pack(values: Seq<DatumModel>)
    requires
        forall|i: int| 0 <= i < values.len() ==> (#[trigger] values[i]).encodable(),
    ensures
        unpacked(packed(values)) == Some(values),
    decreases values.len(),
{
    if values.len() > 0 {
        let rest = values.drop_first();
        assert forall|i: int| 0 <= i < rest.len() implies (#[trigger] rest[i]).encodable() by {
            assert(rest[i] == values[i + 1]);
        }
        lemma_unpack_pack(rest);
        lemma_first_datum_of_encoding(values[0], packed(rest));
        assert(seq![values[0]] + rest =~= values);
    }
}

/// Among the integers of one type, the smaller one is packed into the
/// byte string that comes first.
pub proof fn lemma_pack_order(a: DatumModel, b: DatumModel)
    requires
        a.is_integer(),
        (a is Int16 && b is Int16) || (a is Int32 && b is Int32) || (a is Int64 && b is Int64) || (a
            is UInt64 && b is UInt64),
        a.number() < b.number(),
    ensures
        lex_less(packed(seq![a]), packed(seq![b])),
{
    lemma_span_bound(8);
    lemma_span_bound(4);
    lemma_span_bound(2);
    assert(packed(seq![a]) =~= a.encoding()) by {
        reveal_with_fuel(packed, 2);
        assert(seq![a].drop_first() =~= Seq::<DatumModel>::empty());
    }
    assert(packed(seq![b]) =~= b.encoding()) by {
        reveal_with_fuel(packed, 2);
        assert(seq![b].drop_first() =~= Seq::<DatumModel>::empty());
    }
    match (a, b) {
        (DatumModel::Int16(x), DatumModel::Int16(y)) => {
            lemma_shifted_order(INT16, (x + 0x8000) as nat, (y + 0x8000) as nat, 2);
        },
        (DatumModel::Int32(x), DatumModel::Int32(y)) => {
            lemma_shifted_order(INT32, (x + 0x8000_0000) as nat, (y + 0x8000_0000) as nat, 4);
        },
        (DatumModel::Int64(x), DatumModel::Int64(y)) => {
            lemma_shifted_order(
                INT64,
                (x + 0x8000_0000_0000_0000) as nat,
                (y + 0x8000_0000_0000_0000) as nat,
                8,
            );
        },
        (DatumModel::UInt64(x), DatumModel::UInt64(y)) => {
            lemma_shifted_order(UINT64, x as nat, y as nat, 8);
        },
        _ => {},
    }
}

/// Behind one and the same tag, the smaller number has the byte string
/// that comes first.
proof fn lemma_shifted_order(tag: u8, x: nat, y: nat, width: nat)
    requires
        x < y,
        y < span(width),
    ensures
        lex_less(seq![tag] + be_bytes(x, width), seq![tag] + be_bytes(y, width)),
{
    lemma_be_order(x, y, width);
    let a = be_bytes(x, width);
    let b = be_bytes(y, width);
    let k = choose|k: int| precedes_at(a, b, k);
    assert(precedes_at(seq![tag] + a, seq![tag] + b, k + 1)) by {
        assert forall|i: int| 0 <= i < k + 1 implies (seq![tag] + a)[i] == (seq![tag] + b)[i] by {
            if i > 0 {
                assert(a[i - 1] == b[i - 1]);
            }
        }
    }
}

/// Encoded values.
#[derive(Debug, Clone, PartialEq)]
pub struct Binary(pub Vec<u8>);

impl View for Binary {
    type V = Seq<u8>;

    open spec fn view(&self) -> Seq<u8> {
        self.0@
    }
}

fn encode_into(bytes: &mut Vec<u8>, datum: &Datum)
    ensures
        final(bytes)@ == old(bytes)@ + datum@.encoding(),
        datum@.encodable(),
{
    proof {
        lemma_span_bound(8);
    }
    match datum {
        Datum::Null => {
            bytes.push(NULL);
        },
        Datum::False => {
            bytes.push(FALSE);
        },
        Datum::True => {
            bytes.push(TRUE);
        },
        Datum::Int16(value) => {
            bytes.push(INT16);
            let mut number = be_encode((*value as i64 + 0x8000) as u64, 2);
            bytes.append(&mut number);
        },
        Datum::Int32(value) => {
            bytes.push(INT32);
            let mut number = be_encode((*value as i64 + 0x8000_0000) as u64, 4);
            bytes.append(&mut number);
        },
        Datum::Int64(value) => {
            bytes.push(INT64);
            let mut number = be_encode((*value as i128 + 0x8000_0000_0000_0000) as u64, 8);
            bytes.append(&mut number);
        },
        Datum::UInt64(value) => {
            bytes.push(UINT64);
            let mut number = be_encode(*value, 8);
            bytes.append(&mut number);
        },
        Datum::String(value) => {
            bytes.push(STRING);
            let mut text = value.as_str().as_bytes_vec();
            let mut len = be_encode(text.len() as u64, 8);
            bytes.append(&mut len);
            bytes.append(&mut text);
        },
    }
    assert(bytes@ =~= old(bytes)@ + datum@.encoding());
}

impl Binary {
    /// Encoded values from their bytes.
    pub fn with_data(data: Vec<u8>) -> (binary: Binary)
        ensures
            binary@ == data@,
    {
        Binary(data)
    }

    /// The encoding of the values, one after the other.
    pub fn pack(values: &[Datum]) -> (binary: Binary)
        ensures
            binary@ == packed(datums(values@)),
    {
        let mut bytes: Vec<u8> = Vec::new();
        let mut j: usize = 0;
        proof {
            assert(datums(values@).skip(0) =~= datums(values@));
            assert(bytes@ + packed(datums(values@)) =~= packed(datums(values@)));
        }
        while j < values.len()
            invariant
                j <= values@.len(),
                bytes@ + packed(datums(values@).skip(j as int)) == packed(datums(values@)),
            decreases values.len() - j,
        {
            proof {
                let rest = datums(values@).skip(j as int);
                assert(rest[0] == values@[j as int]@);
                assert(rest.drop_first() =~= datums(values@).skip(j + 1));
                assert(bytes@ + (rest[0].encoding() + packed(rest.drop_first())) =~= (bytes@
                    + rest[0].encoding()) + packed(rest.drop_first()));
            }
            encode_into(&mut bytes, &values[j]);
            j += 1;
        }
        proof {
            assert(datums(values@).skip(values@.len() as int) =~= Seq::<DatumModel>::empty());
            assert(bytes@ + Seq::<u8>::empty() =~= bytes@);
        }
        Binary(bytes)
    }

    /// The bytes of the encoding.
    pub fn to_bytes(&self) -> (bytes: &[u8])
        ensures
            bytes@ == self@,
    {
        self.0.as_slice()
    }

    /// The values that the bytes encode, or nothing if the bytes do not
    /// encode values from the first byte to the last.
    pub fn unpack(&self) -> (values: Option<Vec<Datum>>)
        ensures
            match values {
                Some(values) => unpacked(self@) == Some(datums(values@)),
                None => unpacked(self@) is None,
            },
    {
        let bytes = self.0.as_slice();
        let mut values: Vec<Datum> = Vec::new();
        let mut at: usize = 0;
        proof {
            assert(bytes@.skip(0) =~= bytes@);
            match unpacked(bytes@) {
                Some(rest) => {
                    assert(datums(values@) + rest =~= rest);
                },
                None => {},
            }
        }
        while at < bytes.len()
            invariant
                at <= bytes@.len(),
                bytes@ == self@,
                unpacked(self@) == match unpacked(bytes@.skip(at as int)) {
                    Some(rest) => Some(datums(values@) + rest),
                    None => None,
                },
            decreases bytes@.len() - at,
        {
            let ghost rest = bytes@.skip(at as int);
            let (datum, consumed) = match read_datum(bytes, at) {
                Some(read) => read,
                None => {
                    return None;
                },
            };
            proof {
                let before = datums(values@);
                assert(rest.skip(consumed as int) =~= bytes@.skip(at + consumed));
                match unpacked(bytes@.skip(at + consumed)) {
                    Some(more) => {
                        assert(before + (seq![datum@] + more) =~= before.push(datum@) + more);
                    },
                    None => {},
                }
                assert(datums(values@.push(datum)) =~= before.push(datum@));
            }
            values.push(datum);
            at += consumed;
        }
        proof {
            assert(bytes@.skip(at as int) =~= Seq::<u8>::empty());
            assert(datums(values@) + Seq::<DatumModel>::empty() =~= datums(values@));
        }
        Some(values)
    }
}

/// Reads the value that is encoded at `at`.
fn read_datum(bytes: &[u8], at: usize) -> (read: Option<(Datum, usize)>)
    requires
        at < bytes@.len(),
    ensures
        match read {
            Some((datum, consumed)) => first_datum(bytes@.skip(at as int)) == Some(
                (datum@, consumed as int),
            ) && 0 < consumed <= bytes@.len() - at,
            None => first_datum(bytes@.skip(at as int)) is None,
        },
{
    let ghost rest = bytes@.skip(at as int);
    let tag = bytes[at];
    let left = bytes.len() - at;
    assert(rest[0] == tag);
    proof {
        lemma_span_bound(8);
        lemma_span_bound(4);
        lemma_span_bound(2);
    }
    if tag == NULL {
        Some((Datum::Null, 1))
    } else if tag == FALSE {
        Some((Datum::False, 1))
    } else if tag == TRUE {
        Some((Datum::True, 1))
    } else if tag == INT16 {
        if left < 3 {
            return None;
        }
        let field = copy_range(bytes, at + 1, at + 3);
        assert(field@ =~= rest.subrange(1, 3));
        proof {
            lemma_be_bytes_of_value(field@);
        }
        let shifted = be_u64(field.as_slice());
        Some((Datum::Int16((shifted as i64 - 0x8000) as i16), 3))
    } else if tag == INT32 {
        if left < 5 {
            return None;
        }
        let field = copy_range(bytes, at + 1, at + 5);
        assert(field@ =~= rest.subrange(1, 5));
        proof {
            lemma_be_bytes_of_value(field@);
        }
        let shifted = be_u64(field.as_slice());
        Some((Datum::Int32((shifted as i64 - 0x8000_0000) as i32), 5))
    } else if tag == INT64 {
        if left < 9 {
            return None;
        }
        let field = copy_range(bytes, at + 1, at + 9);
        assert(field@ =~= rest.subrange(1, 9));
        proof {
            lemma_be_bytes_of_value(field@);
        }
        let shifted = be_u64(field.as_slice());
        Some((Datum::Int64((shifted as i128 - 0x8000_0000_0000_0000) as i64), 9))
    } else if tag == UINT64 {
        if left < 9 {
            return None;
        }
        let field = copy_range(bytes, at + 1, at + 9);
        assert(field@ =~= rest.subrange(1, 9));
        let value = be_u64(field.as_slice());
        Some((Datum::UInt64(value), 9))
    } else if tag == STRING {
        if left < 9 {
            return None;
        }
        let field = copy_range(bytes, at + 1, at + 9);
        assert(field@ =~= rest.subrange(1, 9));
        let len = be_u64(field.as_slice());
        if len > (left - 9) as u64 {
            return None;
        }
        let len = len as usize;
        let text = copy_range(bytes, at + 9, at + 9 + len);
        assert(text@ =~= rest.subrange(9, 9 + len));
        match text_from_utf8(text) {
            Some(value) => Some((Datum::String(value), 9 + len)),
            None => None,
        }
    } else {
        None
    }
}

impl Plain for Binary {
    type Model = Seq<u8>;

    open spec fn model(&self) -> Seq<u8> {
        self@
    }

    fn duplicate(&self) -> (copy: Self) {
        Binary(self.0.duplicate())
    }
}

impl OrderedKey for Binary {
    open spec fn precedes(a: Seq<u8>, b: Seq<u8>) -> bool {
        lex_less(a, b)
    }

    proof fn lemma_irreflexive(a: Seq<u8>) {
        crate::bytes::lemma_lex_irreflexive(a);
    }

    proof fn lemma_transitive(a: Seq<u8>, b: Seq<u8>, c: Seq<u8>) {
        crate::bytes::lemma_lex_transitive(a, b, c);
    }

    proof fn lemma_total(a: Seq<u8>, b: Seq<u8>) {
        crate::bytes::lemma_lex_total(a, b);
    }

    fn is_before(&self, other: &Self) -> (before: bool) {
        bytes_less(&self.0, &other.0)
    }
}

} // verus!
