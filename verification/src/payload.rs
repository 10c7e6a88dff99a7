//! Message payloads as protobuf field lists.
//!
//! The bridge relays payloads without interpreting them, so a payload is kept
//! as the ordered list of fields that its bytes spell out: a field number and
//! a value in one of the four scalar wire types. A nested message is a
//! length-delimited value that holds the bytes of another payload. The two
//! group wire types are not accepted.

use vstd::prelude::*;
use vstd::bytes::*;
use vstd::slice::*;
use crate::error::{FrameError, EncodeError};
use crate::varint::{
    lemma_parse_varint_bounds, lemma_varint_round_trip, parse_varint, read_varint, varint_bytes,
    write_varint,
};

verus! {

/// The largest field number that a key can carry.
pub const MAX_FIELD_NUMBER: u32 = 536_870_911;

/// The value of one field.
#[derive(Debug)]
pub enum FieldValue {
    /// Wire type 0: an integer written as a varint.
    Varint(u64),
    /// Wire type 1: eight bytes, least significant first.
    Fixed64(u64),
    /// Wire type 2: a length and that many bytes.
    Bytes(Vec<u8>),
    /// Wire type 5: four bytes, least significant first.
    Fixed32(u32),
}

/// One field: its number and its value.
#[derive(Debug)]
pub struct Field {
    pub number: u32,
    pub value: FieldValue,
}

/// A payload: its fields in the order in which they are written.
#[derive(Debug)]
pub struct Payload {
    pub fields: Vec<Field>,
}

/// A field value as contracts see it.
pub enum FieldValueView {
    Varint(u64),
    Fixed64(u64),
    Bytes(Seq<u8>),
    Fixed32(u32),
}

/// A field as contracts see it.
pub struct FieldView {
    pub number: u32,
    pub value: FieldValueView,
}

impl View for FieldValue {
    type V = FieldValueView;

    open spec fn view(&self) -> FieldValueView {
        match self {
            FieldValue::Varint(v) => FieldValueView::Varint(*v),
            FieldValue::Fixed64(v) => FieldValueView::Fixed64(*v),
            FieldValue::Bytes(b) => FieldValueView::Bytes(b@),
            FieldValue::Fixed32(v) => FieldValueView::Fixed32(*v),
        }
    }
}

impl View for Field {
    type V = FieldView;

    open spec fn view(&self) -> FieldView {
        FieldView { number: self.number, value: self.value@ }
    }
}

/// A list of fields as contracts see it.
pub open spec fn fields_view(fields: Seq<Field>) -> Seq<FieldView> {
    Seq::new(fields.len(), |i: int| fields[i]@)
}

impl View for Payload {
    type V = Seq<FieldView>;

    open spec fn view(&self) -> Seq<FieldView> {
        fields_view(self.fields@)
    }
}

impl Clone for FieldValue {
    fn clone(&self) -> (r: Self)
        ensures
            r@ == self@,
    {
        match self {
            FieldValue::Varint(v) => FieldValue::Varint(*v),
            FieldValue::Fixed64(v) => FieldValue::Fixed64(*v),
            FieldValue::Bytes(b) => FieldValue::Bytes(slice_to_vec(b.as_slice())),
            FieldValue::Fixed32(v) => FieldValue::Fixed32(*v),
        }
    }
}

impl Clone for Field {
    fn clone(&self) -> (r: Self)
        ensures
            r@ == self@,
    {
        Field { number: self.number, value: self.value.clone() }
    }
}

impl Clone for Payload {
    fn clone(&self) -> (r: Self)
        ensures
            r@ == self@,
    {
        let mut fields: Vec<Field> = Vec::new();
        let mut i: usize = 0;
        while i < self.fields.len()
            invariant
                i <= self.fields@.len(),
                fields@.len() == i,
                forall|j: int| 0 <= j < i ==> fields@[j]@ == self.fields@[j]@,
            decreases self.fields@.len() - i,
        {
            fields.push(self.fields[i].clone());
            i += 1;
        }
        assert(fields_view(fields@) =~= fields_view(self.fields@));
        Payload { fields }
    }
}

/// Whether a key can carry `number`.
pub open spec fn valid_number(number: u32) -> bool {
    1 <= number <= MAX_FIELD_NUMBER
}

/// The wire type that a value is written in.
pub open spec fn wire_type(value: FieldValueView) -> nat {
    match value {
        FieldValueView::Varint(_) => 0,
        FieldValueView::Fixed64(_) => 1,
        FieldValueView::Bytes(_) => 2,
        FieldValueView::Fixed32(_) => 5,
    }
}

/// The key of a field: its number above the three bits of its wire type.
pub open spec fn field_key(field: FieldView) -> nat {
    field.number as nat * 8 + wire_type(field.value)
}

/// The bytes of a value, without its key.
pub open spec fn value_bytes(value: FieldValueView) -> Seq<u8> {
    match value {
        FieldValueView::Varint(v) => varint_bytes(v as nat),
        FieldValueView::Fixed64(v) => spec_u64_to_le_bytes(v),
        FieldValueView::Bytes(b) => varint_bytes(b.len()) + b,
        FieldValueView::Fixed32(v) => spec_u32_to_le_bytes(v),
    }
}

/// The bytes of a field: its key as a varint, then its value.
pub open spec fn field_bytes(field: FieldView) -> Seq<u8> {
    varint_bytes(field_key(field)) + value_bytes(field.value)
}

/// The bytes of a payload: those of its fields, one after the other.
pub open spec fn payload_bytes(fields: Seq<FieldView>) -> Seq<u8>
    decreases fields.len(),
{
    if fields.len() == 0 {
        Seq::empty()
    } else {
        field_bytes(fields[0]) + payload_bytes(fields.skip(1))
    }
}

/// A field that can be written: its number fits a key and its length fits a
/// varint.
pub open spec fn field_writable(field: FieldView) -> bool {
    &&& valid_number(field.number)
    &&& field.value matches FieldValueView::Bytes(b) ==> b.len() <= u64::MAX
}

/// A payload that can be written: each of its fields can.
pub open spec fn payload_writable(fields: Seq<FieldView>) -> bool {
    forall|i: int| 0 <= i < fields.len() ==> field_writable(#[trigger] fields[i])
}

/// The value in wire type `wire` at the head of `bytes`, and its length.
pub open spec fn parse_value(wire: nat, bytes: Seq<u8>) -> Option<(FieldValueView, nat)> {
    if wire == 0 {
        match parse_varint(bytes) {
            Some((v, n)) => Some((FieldValueView::Varint(v as u64), n)),
            None => None,
        }
    } else if wire == 1 {
        if bytes.len() >= 8 {
            Some((FieldValueView::Fixed64(spec_u64_from_le_bytes(bytes.take(8))), 8nat))
        } else {
            None
        }
    } else if wire == 2 {
        match parse_varint(bytes) {
            Some((len, n)) => if n + len <= bytes.len() {
                Some((FieldValueView::Bytes(bytes.subrange(n as int, (n + len) as int)), n + len))
            } else {
                None
            },
            None => None,
        }
    } else if wire == 5 {
        if bytes.len() >= 4 {
            Some((FieldValueView::Fixed32(spec_u32_from_le_bytes(bytes.take(4))), 4nat))
        } else {
            None
        }
    } else {
        None
    }
}

/// The field at the head of `bytes`, and its length. The key must fit in 32
/// bits and name a field number of at least one.
pub open spec fn parse_field(bytes: Seq<u8>) -> Option<(FieldView, nat)> {
    match parse_varint(bytes) {
        Some((key, n)) => if key <= u32::MAX && key / 8 >= 1 && n <= bytes.len() {
            match parse_value(key % 8, bytes.skip(n as int)) {
                Some((value, m)) => Some((FieldView { number: (key / 8) as u32, value }, n + m)),
                None => None,
            }
        } else {
            None
        },
        None => None,
    }
}

/// The fields that `bytes` spell out, where they are fields from the first
/// byte to the last.
pub open spec fn parse_payload(bytes: Seq<u8>) -> Option<Seq<FieldView>>
    decreases bytes.len(),
{
    if bytes.len() == 0 {
        Some(Seq::empty())
    } else {
        match parse_field(bytes) {
            Some((field, n)) => if 0 < n <= bytes.len() {
                match parse_payload(bytes.skip(n as int)) {
                    Some(rest) => Some(seq![field] + rest),
                    None => None,
                }
            } else {
                None
            },
            None => None,
        }
    }
}

/// A value that was read takes at least one byte, lies within the bytes and
/// is of the wire type that was asked for.
pub proof fn lemma_parse_value_bounds(wire: nat, bytes: Seq<u8>)
    ensures
        parse_value(wire, bytes) matches Some((value, len)) ==> {
            &&& 1 <= len <= bytes.len()
            &&& wire_type(value) == wire
            &&& value matches FieldValueView::Bytes(b) ==> b.len() <= bytes.len()
        },
{
    lemma_parse_varint_bounds(bytes, 0);
}

/// A field that was read lies within the bytes, takes at least two of them,
/// and can be written again.
pub proof fn lemma_parse_field_bounds(bytes: Seq<u8>)
    ensures
        parse_field(bytes) matches Some((field, len)) ==> {
            &&& 2 <= len <= bytes.len()
            &&& valid_number(field.number)
            &&& field.value matches FieldValueView::Bytes(b) ==> b.len() <= bytes.len()
        },
{
    lemma_parse_varint_bounds(bytes, 0);
    if let Some((key, n)) = parse_varint(bytes) {
        if key <= u32::MAX && key / 8 >= 1 {
            lemma_parse_value_bounds(key % 8, bytes.skip(n as int));
        }
    }
}

/// Reading undoes writing, for one field: after the bytes of a writable
/// field, whatever follows, the reader finds that field and consumes exactly
/// those bytes.
pub proof fn lemma_field_round_trip(field: FieldView, rest: Seq<u8>)
    requires
        field_writable(field),
    ensures
        parse_field(field_bytes(field) + rest) == Some((field, field_bytes(field).len())),
        field_bytes(field).len() >= 2,
{
    let key = field_key(field);
    let key_part = varint_bytes(key);
    let value_part = value_bytes(field.value);
    let all = field_bytes(field) + rest;
    assert(key <= u32::MAX && key / 8 == field.number && key % 8 == wire_type(field.value));
    lemma_varint_round_trip(key as u64, value_part + rest);
    assert(all =~= key_part + (value_part + rest));
    let n = key_part.len();
    assert(all.skip(n as int) =~= value_part + rest);
    let tail = value_part + rest;
    match field.value {
        FieldValueView::Varint(v) => {
            lemma_varint_round_trip(v, rest);
        },
        FieldValueView::Fixed64(v) => {
            lemma_auto_spec_u64_to_from_le_bytes();
            assert(tail.take(8) =~= value_part);
        },
        FieldValueView::Bytes(b) => {
            let len_part = varint_bytes(b.len());
            lemma_varint_round_trip(b.len() as u64, b + rest);
            assert(tail =~= len_part + (b + rest));
            assert(tail.subrange(len_part.len() as int, (len_part.len() + b.len()) as int) =~= b);
        },
        FieldValueView::Fixed32(v) => {
            lemma_auto_spec_u32_to_from_le_bytes();
            assert(tail.take(4) =~= value_part);
        },
    }
}

/// Writing a list of fields and one more writes the list and then the field.
pub proof fn lemma_payload_bytes_push(fields: Seq<FieldView>, field: FieldView)
    ensures
        payload_bytes(fields.push(field)) == payload_bytes(fields) + field_bytes(field),
    decreases fields.len(),
{
    let longer = fields.push(field);
    if fields.len() == 0 {
        assert(longer.skip(1) =~= Seq::<FieldView>::empty());
        assert(payload_bytes(longer.skip(1)) =~= Seq::<u8>::empty());
        assert(payload_bytes(longer) =~= field_bytes(field));
        assert(payload_bytes(fields) + field_bytes(field) =~= field_bytes(field));
    } else {
        lemma_payload_bytes_push(fields.skip(1), field);
        assert(longer.skip(1) =~= fields.skip(1).push(field));
        assert(payload_bytes(longer) =~= payload_bytes(fields) + field_bytes(field));
    }
}

/// Reading undoes writing: the bytes of a writable payload spell out its
/// fields and nothing else.
pub proof fn lemma_payload_round_trip(fields: Seq<FieldView>)
    requires
        payload_writable(fields),
    ensures
        parse_payload(payload_bytes(fields)) == Some(fields),
    decreases fields.len(),
{
    if fields.len() == 0 {
        assert(fields =~= Seq::<FieldView>::empty());
    } else {
        let first = fields[0];
        let rest = fields.skip(1);
        let bytes = payload_bytes(fields);
        lemma_field_round_trip(first, payload_bytes(rest));
        lemma_payload_round_trip(rest);
        let n = field_bytes(first).len();
        assert(bytes.skip(n as int) =~= payload_bytes(rest));
        assert(seq![first] + rest =~= fields);
    }
}

/// Reading a field and then the rest reads the whole: where a field stands
/// at the head of `bytes`, the payload is that field before what the bytes
/// after it spell out.
pub proof fn lemma_parse_payload_step(bytes: Seq<u8>)
    requires
        bytes.len() > 0,
    ensures
        parse_payload(bytes) == match parse_field(bytes) {
            Some((field, n)) => match parse_payload(bytes.skip(n as int)) {
                Some(rest) => Some(seq![field] + rest),
                None => None,
            },
            None => None::<Seq<FieldView>>,
        },
{
    lemma_parse_field_bounds(bytes);
}

/// The number that stands for the wire type of `value` in a key.
fn wire_code(value: &FieldValue) -> (code: u64)
    ensures
        code == wire_type(value@),
{
    match value {
        FieldValue::Varint(_) => 0,
        FieldValue::Fixed64(_) => 1,
        FieldValue::Bytes(_) => 2,
        FieldValue::Fixed32(_) => 5,
    }
}

/// Appends the bytes of one field to `buf`.
pub fn encode_field(field: &Field, buf: &mut Vec<u8>)
    requires
        valid_number(field.number),
    ensures
        final(buf)@ == old(buf)@ + field_bytes(field@),
{
    let key: u64 = (field.number as u64) * 8 + wire_code(&field.value);
    write_varint(key, buf);
    match &field.value {
        FieldValue::Varint(v) => {
            write_varint(*v, buf);
        },
        FieldValue::Fixed64(v) => {
            let mut raw = u64_to_le_bytes(*v);
            buf.append(&mut raw);
        },
        FieldValue::Bytes(b) => {
            write_varint(b.len() as u64, buf);
            let mut raw = slice_to_vec(b.as_slice());
            buf.append(&mut raw);
        },
        FieldValue::Fixed32(v) => {
            let mut raw = u32_to_le_bytes(*v);
            buf.append(&mut raw);
        },
    }
    assert(buf@ =~= old(buf)@ + field_bytes(field@));
}

/// Writes a payload: the bytes of its fields, in order. Fails on the first
/// field whose number no key can carry, and only then.
pub fn encode_payload(payload: &Payload) -> (r: Result<Vec<u8>, EncodeError>)
    ensures
        match r {
            Ok(bytes) => payload_writable(payload@) && bytes@ == payload_bytes(payload@),
            Err(EncodeError::InvalidFieldNumber { index, number }) => {
                &&& index < payload@.len()
                &&& number == payload@[index as int].number
                &&& !valid_number(number)
                &&& forall|j: int| 0 <= j < index ==> valid_number(#[trigger] payload@[j].number)
            },
        },
{
    let mut buf: Vec<u8> = Vec::new();
    let mut i: usize = 0;
    while i < payload.fields.len()
        invariant
            i <= payload.fields@.len(),
            buf@ == payload_bytes(payload@.take(i as int)),
            forall|j: int| 0 <= j < i ==> valid_number(#[trigger] payload@[j].number),
        decreases payload.fields@.len() - i,
    {
        let field = &payload.fields[i];
        if field.number < 1 || field.number > MAX_FIELD_NUMBER {
            return Err(EncodeError::InvalidFieldNumber { index: i, number: field.number });
        }
        encode_field(field, &mut buf);
        proof {
            lemma_payload_bytes_push(payload@.take(i as int), payload@[i as int]);
            assert(payload@.take(i + 1) =~= payload@.take(i as int).push(payload@[i as int]));
        }
        i += 1;
    }
    proof {
        assert(payload@.take(i as int) =~= payload@);
        assert forall|j: int| 0 <= j < payload@.len() implies field_writable(
            #[trigger] payload@[j],
        ) by {
            match payload.fields@[j].value {
                FieldValue::Bytes(b) => {
                    assert(b@.len() == b.len());
                },
                _ => {},
            }
        }
    }
    Ok(buf)
}

/// Reads the field that starts at `start`. Gives the field and the position
/// just after it, or `None` where no field stands there.
pub fn decode_field(bytes: &[u8], start: usize) -> (r: Option<(Field, usize)>)
    requires
        start <= bytes@.len(),
    ensures
        match parse_field(bytes@.skip(start as int)) {
            Some((field, len)) => r matches Some((f, next)) && f@ == field && next == start + len
                && start < next <= bytes@.len(),
            None => r is None,
        },
{
    let ghost tail = bytes@.skip(start as int);
    proof {
        lemma_parse_field_bounds(tail);
        lemma_parse_varint_bounds(tail, 0);
    }
    let head = read_varint(bytes, start);
    if head.is_none() {
        return None;
    }
    let (key, at) = head.unwrap();
    if key > 0xFFFF_FFFF || key / 8 < 1 {
        return None;
    }
    let number: u32 = (key / 8) as u32;
    let wire: u64 = key % 8;
    let ghost body = bytes@.skip(at as int);
    assert(body =~= tail.skip(at - start));
    proof {
        lemma_parse_varint_bounds(body, 0);
    }
    let len: usize = bytes.len();
    if wire == 0 {
        match read_varint(bytes, at) {
            Some((v, next)) => Some((Field { number, value: FieldValue::Varint(v) }, next)),
            None => None,
        }
    } else if wire == 1 {
        if len - at < 8 {
            return None;
        }
        let v = u64_from_le_bytes(slice_subrange(bytes, at, at + 8));
        assert(bytes@.subrange(at as int, at + 8) =~= body.take(8));
        Some((Field { number, value: FieldValue::Fixed64(v) }, at + 8))
    } else if wire == 2 {
        match read_varint(bytes, at) {
            Some((n, from)) => {
                if n > (len - from) as u64 {
                    return None;
                }
                let until: usize = from + n as usize;
                let data = slice_to_vec(slice_subrange(bytes, from, until));
                assert(bytes@.subrange(from as int, until as int) =~= body.subrange(
                    from - at,
                    from - at + n,
                ));
                Some((Field { number, value: FieldValue::Bytes(data) }, until))
            },
            None => None,
        }
    } else if wire == 5 {
        if len - at < 4 {
            return None;
        }
        let v = u32_from_le_bytes(slice_subrange(bytes, at, at + 4));
        assert(bytes@.subrange(at as int, at + 4) =~= body.take(4));
        Some((Field { number, value: FieldValue::Fixed32(v) }, at + 4))
    } else {
        None
    }
}

/// Reads a payload: the fields that `bytes` spell out from the first byte to
/// the last. Fails where they are not fields throughout.
pub fn decode_payload(bytes: &[u8]) -> (r: Result<Payload, FrameError>)
    ensures
        match parse_payload(bytes@) {
            Some(fields) => r matches Ok(payload) && payload@ == fields,
            None => r matches Err(e) && e == FrameError::MalformedPayload,
        },
        r matches Ok(payload) ==> payload_writable(payload@),
{
    let mut fields: Vec<Field> = Vec::new();
    let mut pos: usize = 0;
    proof {
        assert(bytes@.skip(0) =~= bytes@);
        assert(fields_view(fields@) =~= Seq::<FieldView>::empty());
        match parse_payload(bytes@) {
            Some(rest) => {
                assert(fields_view(fields@) + rest =~= rest);
            },
            None => {},
        }
    }
    while pos < bytes.len()
        invariant
            pos <= bytes@.len(),
            parse_payload(bytes@) == match parse_payload(bytes@.skip(pos as int)) {
                Some(rest) => Some(fields_view(fields@) + rest),
                None => None::<Seq<FieldView>>,
            },
            payload_writable(fields_view(fields@)),
        decreases bytes@.len() - pos,
    {
        let ghost tail = bytes@.skip(pos as int);
        let ghost before = fields_view(fields@);
        proof {
            lemma_parse_payload_step(tail);
            lemma_parse_field_bounds(tail);
        }
        match decode_field(bytes, pos) {
            Some((field, next)) => {
                assert(tail.skip(next - pos) =~= bytes@.skip(next as int));
                fields.push(field);
                proof {
                    assert(fields_view(fields@) =~= before.push(field@));
                    match parse_payload(bytes@.skip(next as int)) {
                        Some(rest) => {
                            assert(before + (seq![field@] + rest) =~= before.push(field@) + rest);
                        },
                        None => {},
                    }
                }
                pos = next;
            },
            None => {
                return Err(FrameError::MalformedPayload);
            },
        }
    }
    assert(bytes@.skip(pos as int) =~= Seq::<u8>::empty());
    assert(fields_view(fields@) + Seq::<FieldView>::empty() =~= fields_view(fields@));
    Ok(Payload { fields })
}

} // verus!
