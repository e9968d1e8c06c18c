//! The binary side of the wire codec.
//!
//! A binary frame is one message in the protocol-buffers wire format: a run of
//! fields, each a key (field number times eight, plus wire type) followed by a
//! value. The top-level message is a choice of one payload:
//!
//! | field | payload            | mapped to                          |
//! |-------|--------------------|------------------------------------|
//! | 1     | function call      | dropped                            |
//! | 2     | subscription update| `SpaceDbResponse::SubscriptionUpdate` |
//! | 3     | event              | dropped                            |
//! | 4     | transaction update | dropped                            |
//! | 5     | identity token     | `SpaceDbResponse::IdentityToken`   |
//!
//! Where a field that holds one value occurs more than once, the last
//! occurrence counts. A field that is absent has its default: zero, or empty.
//! A byte string that stands for an identity or for the key of a row
//! becomes text as lower-case hexadecimal, two digits a byte.

use vstd::prelude::*;
use vstd::slice::slice_subrange;
use vstd::slice::slice_to_vec;
use vstd::utf8::decode_utf8;
use vstd::utf8::valid_utf8;
use crate::errors::DecodeError;
use crate::messages::{
    operations_view, updates_view, IdentityTokenJson, IdentityTokenView, SpaceDbResponse,
    SpaceDbResponseView, SubscriptionUpdateJson, SubscriptionUpdateView, TableOp,
    TableRowOperationJson, TableRowOperationView, TableUpdateJson, TableUpdateView, TypeValue,
    TypeValueView,
};

verus! {

/// The value of one field, by wire type. The contents of fixed-width fields
/// are not kept: no message of this protocol has one.
#[derive(Debug, Clone, PartialEq, Eq)]
pub enum WireValue {
    Varint(u64),
    Fixed64,
    Bytes(Vec<u8>),
    Fixed32,
}

pub enum WireValueView {
    Varint(u64),
    Fixed64,
    Bytes(Seq<u8>),
    Fixed32,
}

impl View for WireValue {
    type V = WireValueView;

    open spec fn view(&self) -> WireValueView {
        match self {
            WireValue::Varint(v) => WireValueView::Varint(*v),
            WireValue::Fixed64 => WireValueView::Fixed64,
            WireValue::Bytes(b) => WireValueView::Bytes(b@),
            WireValue::Fixed32 => WireValueView::Fixed32,
        }
    }
}

/// One field of a message: its number and its value.
#[derive(Debug, Clone, PartialEq, Eq)]
pub struct WireField {
    pub number: u64,
    pub value: WireValue,
}

pub struct WireFieldView {
    pub number: u64,
    pub value: WireValueView,
}

impl View for WireField {
    type V = WireFieldView;

    open spec fn view(&self) -> WireFieldView {
        WireFieldView { number: self.number, value: self.value@ }
    }
}

/// The views of a message's fields, in order.
pub open spec fn fields_view(fields: Seq<WireField>) -> Seq<WireFieldView> {
    fields.map_values(|f: WireField| f@)
}

/// A base-128 number, least significant group first, of at most `limit`
/// bytes: its value and the number of bytes it takes.
pub open spec fn varint(bytes: Seq<u8>, limit: nat) -> Result<(int, int), DecodeError>
    decreases limit,
{
    if bytes.len() == 0 {
        Err(DecodeError::Truncated)
    } else if limit == 0 {
        Err(DecodeError::Malformed)
    } else if bytes[0] < 128 {
        Ok((bytes[0] as int, 1))
    } else {
        match varint(bytes.drop_first(), (limit - 1) as nat) {
            Err(e) => Err(e),
            Ok((v, n)) => Ok((bytes[0] - 128 + 128 * v, n + 1)),
        }
    }
}

/// A base-128 number of at most ten bytes that fits 64 bits.
pub open spec fn read_varint(bytes: Seq<u8>) -> Result<(u64, int), DecodeError> {
    match varint(bytes, 10) {
        Err(e) => Err(e),
        Ok((v, n)) => if v <= u64::MAX {
            Ok((v as u64, n))
        } else {
            Err(DecodeError::Malformed)
        },
    }
}

/// A number that was read takes at least one byte, and no more than there are.
pub proof fn lemma_varint_length(bytes: Seq<u8>, limit: nat)
    ensures
        match varint(bytes, limit) {
            Ok((v, n)) => 1 <= n <= bytes.len() && n <= limit && 0 <= v,
            Err(_) => true,
        },
    decreases limit,
{
    if bytes.len() != 0 && limit != 0 && bytes[0] >= 128 {
        lemma_varint_length(bytes.drop_first(), (limit - 1) as nat);
    }
}

/// The value of a field of the given wire type at the head of `bytes`, and
/// the number of bytes it takes.
pub open spec fn wire_value(wire_type: int, bytes: Seq<u8>) -> Result<
    (WireValueView, int),
    DecodeError,
> {
    if wire_type == 0 {
        match read_varint(bytes) {
            Err(e) => Err(e),
            Ok((v, n)) => Ok((WireValueView::Varint(v), n)),
        }
    } else if wire_type == 1 {
        if bytes.len() >= 8 {
            Ok((WireValueView::Fixed64, 8))
        } else {
            Err(DecodeError::Truncated)
        }
    } else if wire_type == 2 {
        match read_varint(bytes) {
            Err(e) => Err(e),
            Ok((len, n)) => if len <= bytes.len() - n {
                Ok((WireValueView::Bytes(bytes.subrange(n, n + len)), n + len))
            } else {
                Err(DecodeError::Truncated)
            },
        }
    } else if wire_type == 5 {
        if bytes.len() >= 4 {
            Ok((WireValueView::Fixed32, 4))
        } else {
            Err(DecodeError::Truncated)
        }
    } else {
        Err(DecodeError::Malformed)
    }
}

/// The field at the head of `bytes`, and the number of bytes it takes. Field
/// number zero is not allowed.
pub open spec fn wire_field(bytes: Seq<u8>) -> Result<(WireFieldView, int), DecodeError> {
    match read_varint(bytes) {
        Err(e) => Err(e),
        Ok((key, n)) => if key / 8 == 0 {
            Err(DecodeError::Malformed)
        } else {
            match wire_value(key as int % 8, bytes.skip(n)) {
                Err(e) => Err(e),
                Ok((value, m)) => Ok((WireFieldView { number: key / 8, value }, n + m)),
            }
        },
    }
}

/// A field that was read takes at least one byte, and no more than there are.
pub proof fn lemma_wire_field_length(bytes: Seq<u8>)
    ensures
        match wire_field(bytes) {
            Ok((_, n)) => 1 <= n <= bytes.len(),
            Err(_) => true,
        },
{
    lemma_varint_length(bytes, 10);
    match read_varint(bytes) {
        Ok((key, n)) => {
            lemma_varint_length(bytes.skip(n), 10);
        },
        Err(_) => {},
    }
}

/// All the fields of a message, in order.
pub open spec fn wire_fields(bytes: Seq<u8>) -> Result<Seq<WireFieldView>, DecodeError>
    decreases bytes.len(),
{
    if bytes.len() == 0 {
        Ok(Seq::empty())
    } else {
        match wire_field(bytes) {
            Err(e) => Err(e),
            Ok((first, n)) => {
                proof {
                    lemma_wire_field_length(bytes);
                }
                match wire_fields(bytes.skip(n)) {
                    Err(e) => Err(e),
                    Ok(rest) => Ok(seq![first] + rest),
                }
            },
        }
    }
}

/// The value of the last field numbered `number`.
pub open spec fn last_value(fields: Seq<WireFieldView>, number: u64) -> Option<WireValueView>
    decreases fields.len(),
{
    if fields.len() == 0 {
        None
    } else if fields.last().number == number {
        Some(fields.last().value)
    } else {
        last_value(fields.drop_last(), number)
    }
}

/// An unsigned 32-bit field; zero where it is absent.
pub open spec fn uint32_field(fields: Seq<WireFieldView>, number: u64) -> Result<u32, DecodeError> {
    match last_value(fields, number) {
        None => Ok(0u32),
        Some(WireValueView::Varint(v)) => if v <= u32::MAX {
            Ok(v as u32)
        } else {
            Err(DecodeError::OutOfRange)
        },
        Some(_) => Err(DecodeError::Malformed),
    }
}

/// A byte-string field; empty where it is absent.
pub open spec fn bytes_field(fields: Seq<WireFieldView>, number: u64) -> Result<
    Seq<u8>,
    DecodeError,
> {
    match last_value(fields, number) {
        None => Ok(Seq::empty()),
        Some(WireValueView::Bytes(b)) => Ok(b),
        Some(_) => Err(DecodeError::Malformed),
    }
}

/// A string field, which must be UTF-8; empty where it is absent.
pub open spec fn string_field(fields: Seq<WireFieldView>, number: u64) -> Result<
    Seq<char>,
    DecodeError,
> {
    match bytes_field(fields, number) {
        Err(e) => Err(e),
        Ok(b) => if valid_utf8(b) {
            Ok(decode_utf8(b))
        } else {
            Err(DecodeError::InvalidUtf8)
        },
    }
}

/// Decodes every field numbered `number` as an embedded message, from first
/// to last, and stops at the first that fails.
pub open spec fn repeated_field<T>(
    fields: Seq<WireFieldView>,
    number: u64,
    decode: spec_fn(Seq<u8>) -> Result<T, DecodeError>,
) -> Result<Seq<T>, DecodeError>
    decreases fields.len(),
{
    if fields.len() == 0 {
        Ok(Seq::empty())
    } else {
        match repeated_field(fields.drop_last(), number, decode) {
            Err(e) => Err(e),
            Ok(head) => if fields.last().number != number {
                Ok(head)
            } else {
                match fields.last().value {
                    WireValueView::Bytes(body) => match decode(body) {
                        Err(e) => Err(e),
                        Ok(x) => Ok(head.push(x)),
                    },
                    _ => Err(DecodeError::Malformed),
                }
            },
        }
    }
}

/// A failure among the first fields of a message is the failure of the message.
pub proof fn lemma_repeated_field_prefix<T>(
    fields: Seq<WireFieldView>,
    number: u64,
    decode: spec_fn(Seq<u8>) -> Result<T, DecodeError>,
    n: int,
)
    requires
        0 <= n <= fields.len(),
        repeated_field(fields.take(n), number, decode) is Err,
    ensures
        repeated_field(fields, number, decode) == repeated_field(fields.take(n), number, decode),
    decreases fields.len() - n,
{
    if n == fields.len() {
        assert(fields.take(n) =~= fields);
    } else {
        assert(fields.take(n + 1).drop_last() =~= fields.take(n));
        lemma_repeated_field_prefix(fields, number, decode, n + 1);
    }
}

/// The lower-case hexadecimal digit of a number below sixteen.
pub open spec fn hex_digit(n: int) -> Seq<char> {
    if n == 0 {
        "0"@
    } else if n == 1 {
        "1"@
    } else if n == 2 {
        "2"@
    } else if n == 3 {
        "3"@
    } else if n == 4 {
        "4"@
    } else if n == 5 {
        "5"@
    } else if n == 6 {
        "6"@
    } else if n == 7 {
        "7"@
    } else if n == 8 {
        "8"@
    } else if n == 9 {
        "9"@
    } else if n == 10 {
        "a"@
    } else if n == 11 {
        "b"@
    } else if n == 12 {
        "c"@
    } else if n == 13 {
        "d"@
    } else if n == 14 {
        "e"@
    } else {
        "f"@
    }
}

/// The lower-case hexadecimal form of a byte string, two digits a byte.
pub open spec fn hex(bytes: Seq<u8>) -> Seq<char>
    decreases bytes.len(),
{
    if bytes.len() == 0 {
        Seq::empty()
    } else {
        hex(bytes.drop_last()) + hex_digit(bytes.last() as int / 16) + hex_digit(
            bytes.last() as int % 16,
        )
    }
}

/// The identity token of a message body: the identity (field 1), a byte
/// string, in hexadecimal, and the token (field 2).
pub open spec fn identity_token_spec(body: Seq<u8>) -> Result<IdentityTokenView, DecodeError> {
    match wire_fields(body) {
        Err(e) => Err(e),
        Ok(fields) => match bytes_field(fields, 1) {
            Err(e) => Err(e),
            Ok(identity) => match string_field(fields, 2) {
                Err(e) => Err(e),
                Ok(token) => Ok(IdentityTokenView { identity: hex(identity), token }),
            },
        },
    }
}

/// The operation that a number stands for: 0 deletes, 1 inserts.
pub open spec fn op_field(fields: Seq<WireFieldView>, number: u64) -> Result<TableOp, DecodeError> {
    match last_value(fields, number) {
        None => Ok(TableOp::Delete),
        Some(WireValueView::Varint(v)) => if v == 0 {
            Ok(TableOp::Delete)
        } else if v == 1 {
            Ok(TableOp::Insert)
        } else {
            Err(DecodeError::UnknownOp)
        },
        Some(_) => Err(DecodeError::Malformed),
    }
}

/// One row operation: the operation (field 1), the row's key (field 2) in
/// hexadecimal, and the row (field 3) as one column of undecoded bytes.
pub open spec fn row_operation_spec(body: Seq<u8>) -> Result<TableRowOperationView, DecodeError> {
    match wire_fields(body) {
        Err(e) => Err(e),
        Ok(fields) => match op_field(fields, 1) {
            Err(e) => Err(e),
            Ok(op) => match bytes_field(fields, 2) {
                Err(e) => Err(e),
                Ok(key) => match bytes_field(fields, 3) {
                    Err(e) => Err(e),
                    Ok(row) => Ok(
                        TableRowOperationView {
                            op,
                            row_pk: hex(key),
                            row: seq![TypeValueView::Bytes(row)],
                        },
                    ),
                },
            },
        },
    }
}

/// [`row_operation_spec`], as a value to hand on.
pub open spec fn row_operation_decoder() -> spec_fn(Seq<u8>) -> Result<
    TableRowOperationView,
    DecodeError,
> {
    |body: Seq<u8>| row_operation_spec(body)
}

/// The update of one table: its number (field 1), its name (field 2) and its
/// row operations (field 3, repeated).
pub open spec fn table_update_spec(body: Seq<u8>) -> Result<TableUpdateView, DecodeError> {
    match wire_fields(body) {
        Err(e) => Err(e),
        Ok(fields) => match uint32_field(fields, 1) {
            Err(e) => Err(e),
            Ok(table_id) => match string_field(fields, 2) {
                Err(e) => Err(e),
                Ok(table_name) => match repeated_field(fields, 3, row_operation_decoder()) {
                    Err(e) => Err(e),
                    Ok(table_row_operations) => Ok(
                        TableUpdateView { table_id, table_name, table_row_operations },
                    ),
                },
            },
        },
    }
}

/// [`table_update_spec`], as a value to hand on.
pub open spec fn table_update_decoder() -> spec_fn(Seq<u8>) -> Result<TableUpdateView, DecodeError> {
    |body: Seq<u8>| table_update_spec(body)
}

/// A batch of table updates (field 1, repeated).
pub open spec fn subscription_update_spec(body: Seq<u8>) -> Result<
    SubscriptionUpdateView,
    DecodeError,
> {
    match wire_fields(body) {
        Err(e) => Err(e),
        Ok(fields) => match repeated_field(fields, 1, table_update_decoder()) {
            Err(e) => Err(e),
            Ok(table_updates) => Ok(SubscriptionUpdateView { table_updates }),
        },
    }
}

/// The last field that holds a payload: one numbered from 1 to 5.
pub open spec fn last_payload(fields: Seq<WireFieldView>) -> Option<WireFieldView>
    decreases fields.len(),
{
    if fields.len() == 0 {
        None
    } else if 1 <= fields.last().number <= 5 {
        Some(fields.last())
    } else {
        last_payload(fields.drop_last())
    }
}

/// What a binary frame carries: a response, nothing (a payload that is
/// accepted and dropped, or none at all), or an error.
pub open spec fn binary_frame_spec(bytes: Seq<u8>) -> Result<
    Option<SpaceDbResponseView>,
    DecodeError,
> {
    match wire_fields(bytes) {
        Err(e) => Err(e),
        Ok(fields) => match last_payload(fields) {
            None => Ok(None),
            Some(payload) => match payload.value {
                WireValueView::Bytes(body) => if payload.number == 5 {
                    match identity_token_spec(body) {
                        Err(e) => Err(e),
                        Ok(token) => Ok(Some(SpaceDbResponseView::IdentityToken(token))),
                    }
                } else if payload.number == 2 {
                    match subscription_update_spec(body) {
                        Err(e) => Err(e),
                        Ok(update) => Ok(Some(SpaceDbResponseView::SubscriptionUpdate(update))),
                    }
                } else {
                    Ok(None)
                },
                _ => Err(DecodeError::Malformed),
            },
        },
    }
}

/// `String::from_utf8`: a string with exactly these bytes where they are
/// UTF-8, nothing where they are not.
#[verifier::external_body]
fn string_from_utf8(bytes: Vec<u8>) -> (r: Option<String>)
    ensures
        match r {
            Some(s) => valid_utf8(bytes@) && s@ == decode_utf8(bytes@),
            None => !valid_utf8(bytes@),
        },
{
    String::from_utf8(bytes).ok()
}

fn parse_varint(bytes: &[u8], pos: usize, limit: u8) -> (r: Result<(u128, usize), DecodeError>)
    requires
        pos <= bytes.len(),
        limit <= 10,
    ensures
        match r {
            Ok((v, n)) => varint(bytes@.skip(pos as int), limit as nat) == Ok::<
                (int, int),
                DecodeError,
            >((v as int, n as int)) && 1 <= n <= bytes.len() - pos && n <= limit,
            Err(e) => varint(bytes@.skip(pos as int), limit as nat) == Err::<
                (int, int),
                DecodeError,
            >(e),
        },
        r matches Ok((v, n)) ==> v < pow128(limit as nat),
    decreases limit,
{
    let ghost rest = bytes@.skip(pos as int);
    if pos == bytes.len() {
        Err(DecodeError::Truncated)
    } else if limit == 0 {
        Err(DecodeError::Malformed)
    } else {
        let b = bytes[pos];
        assert(rest[0] == b);
        assert(rest.drop_first() =~= bytes@.skip(pos + 1));
        proof {
            reveal_with_fuel(pow128, 2);
        }
        if b < 128 {
            proof {
                lemma_pow128_positive((limit - 1) as nat);
            }
            Ok((b as u128, 1))
        } else {
            match parse_varint(bytes, pos + 1, limit - 1) {
                Err(e) => Err(e),
                Ok((v, n)) => {
                    proof {
                        lemma_pow128_bound((limit - 1) as nat);
                    }
                    Ok(((b - 128) as u128 + 128 * v, n + 1))
                },
            }
        }
    }
}

/// 128 to the power `n`.
pub open spec fn pow128(n: nat) -> int
    decreases n,
{
    if n == 0 {
        1
    } else {
        128 * pow128((n - 1) as nat)
    }
}

proof fn lemma_pow128_positive(n: nat)
    ensures
        pow128(n) >= 1,
    decreases n,
{
    if n > 0 {
        lemma_pow128_positive((n - 1) as nat);
    }
}

proof fn lemma_pow128_bound(n: nat)
    requires
        n <= 10,
    ensures
        pow128(n) <= 0x4000_0000_0000_0000_0000,
    decreases n,
{
    reveal_with_fuel(pow128, 11);
}

fn parse_u64(bytes: &[u8], pos: usize) -> (r: Result<(u64, usize), DecodeError>)
    requires
        pos <= bytes.len(),
    ensures
        match r {
            Ok((v, n)) => read_varint(bytes@.skip(pos as int)) == Ok::<(u64, int), DecodeError>(
                (v, n as int),
            ) && 1 <= n <= bytes.len() - pos,
            Err(e) => read_varint(bytes@.skip(pos as int)) == Err::<(u64, int), DecodeError>(e),
        },
{
    match parse_varint(bytes, pos, 10) {
        Err(e) => Err(e),
        Ok((v, n)) => if v <= 0xffff_ffff_ffff_ffff {
            Ok((v as u64, n))
        } else {
            Err(DecodeError::Malformed)
        },
    }
}

fn parse_value(wire_type: u8, bytes: &[u8], pos: usize) -> (r: Result<
    (WireValue, usize),
    DecodeError,
>)
    requires
        pos <= bytes.len(),
    ensures
        match r {
            Ok((value, n)) => wire_value(wire_type as int, bytes@.skip(pos as int)) == Ok::<
                (WireValueView, int),
                DecodeError,
            >((value@, n as int)) && n <= bytes.len() - pos,
            Err(e) => wire_value(wire_type as int, bytes@.skip(pos as int)) == Err::<
                (WireValueView, int),
                DecodeError,
            >(e),
        },
{
    let ghost rest = bytes@.skip(pos as int);
    if wire_type == 0 {
        match parse_u64(bytes, pos) {
            Err(e) => Err(e),
            Ok((v, n)) => Ok((WireValue::Varint(v), n)),
        }
    } else if wire_type == 1 {
        if bytes.len() - pos >= 8 {
            Ok((WireValue::Fixed64, 8))
        } else {
            Err(DecodeError::Truncated)
        }
    } else if wire_type == 2 {
        match parse_u64(bytes, pos) {
            Err(e) => Err(e),
            Ok((len, n)) => {
                let left = bytes.len() - pos - n;
                if len as u128 <= left as u128 {
                    let start = pos + n;
                    let end = start + len as usize;
                    let body = slice_to_vec(slice_subrange(bytes, start, end));
                    assert(body@ =~= rest.subrange(n as int, n + len));
                    Ok((WireValue::Bytes(body), n + len as usize))
                } else {
                    Err(DecodeError::Truncated)
                }
            },
        }
    } else if wire_type == 5 {
        if bytes.len() - pos >= 4 {
            Ok((WireValue::Fixed32, 4))
        } else {
            Err(DecodeError::Truncated)
        }
    } else {
        Err(DecodeError::Malformed)
    }
}

fn parse_field(bytes: &[u8], pos: usize) -> (r: Result<(WireField, usize), DecodeError>)
    requires
        pos <= bytes.len(),
    ensures
        match r {
            Ok((f, n)) => wire_field(bytes@.skip(pos as int)) == Ok::<
                (WireFieldView, int),
                DecodeError,
            >((f@, n as int)) && 1 <= n <= bytes.len() - pos,
            Err(e) => wire_field(bytes@.skip(pos as int)) == Err::<
                (WireFieldView, int),
                DecodeError,
            >(e),
        },
{
    match parse_u64(bytes, pos) {
        Err(e) => Err(e),
        Ok((key, n)) => {
            let number = key / 8;
            let wire_type = (key % 8) as u8;
            if number == 0 {
                Err(DecodeError::Malformed)
            } else {
                assert(bytes@.skip(pos as int).skip(n as int) =~= bytes@.skip(pos + n));
                match parse_value(wire_type, bytes, pos + n) {
                    Err(e) => Err(e),
                    Ok((value, m)) => Ok((WireField { number, value }, n + m)),
                }
            }
        },
    }
}

/// What is left to read decides the whole: the fields read so far, then the
/// fields of the rest.
spec fn continues(
    whole: Result<Seq<WireFieldView>, DecodeError>,
    done: Seq<WireFieldView>,
    rest: Result<Seq<WireFieldView>, DecodeError>,
) -> bool {
    match rest {
        Ok(tail) => whole == Ok::<Seq<WireFieldView>, DecodeError>(done + tail),
        Err(e) => whole == Err::<Seq<WireFieldView>, DecodeError>(e),
    }
}

/// Splits a message into its fields.
pub fn parse_fields(bytes: &[u8]) -> (r: Result<Vec<WireField>, DecodeError>)
    ensures
        match r {
            Ok(fields) => wire_fields(bytes@) == Ok::<Seq<WireFieldView>, DecodeError>(
                fields_view(fields@),
            ),
            Err(e) => wire_fields(bytes@) == Err::<Seq<WireFieldView>, DecodeError>(e),
        },
{
    let mut out: Vec<WireField> = Vec::new();
    let mut pos: usize = 0;
    assert(bytes@.skip(0) =~= bytes@);
    assert(match wire_fields(bytes@) {
        Ok(tail) => Seq::<WireFieldView>::empty() + tail =~= tail,
        Err(_) => true,
    });
    assert(fields_view(out@) =~= Seq::empty());
    while pos < bytes.len()
        invariant
            pos <= bytes.len(),
            continues(wire_fields(bytes@), fields_view(out@), wire_fields(bytes@.skip(pos as int))),
        decreases bytes.len() - pos,
    {
        let ghost rest = bytes@.skip(pos as int);
        let ghost done = fields_view(out@);
        match parse_field(bytes, pos) {
            Err(e) => {
                return Err(e);
            },
            Ok((f, n)) => {
                proof {
                    assert(rest.skip(n as int) =~= bytes@.skip(pos + n));
                    match wire_fields(bytes@.skip(pos + n)) {
                        Ok(tail) => {
                            assert(done + (seq![f@] + tail) =~= done.push(f@) + tail);
                        },
                        Err(_) => {},
                    }
                }
                out.push(f);
                assert(fields_view(out@) =~= done.push(f@));
                pos = pos + n;
            },
        }
    }
    proof {
        let done = fields_view(out@);
        assert(done + Seq::<WireFieldView>::empty() =~= done);
    }
    Ok(out)
}

fn find_last<'a>(fields: &'a Vec<WireField>, number: u64) -> (r: Option<&'a WireValue>)
    ensures
        match r {
            Some(value) => last_value(fields_view(fields@), number) == Some(value@),
            None => last_value(fields_view(fields@), number) is None,
        },
{
    let mut found: Option<&WireValue> = None;
    let mut i: usize = 0;
    assert(fields_view(fields@).take(0) =~= Seq::empty());
    while i < fields.len()
        invariant
            i <= fields.len(),
            match found {
                Some(value) => last_value(fields_view(fields@).take(i as int), number) == Some(
                    value@,
                ),
                None => last_value(fields_view(fields@).take(i as int), number) is None,
            },
        decreases fields.len() - i,
    {
        let ghost all = fields_view(fields@);
        assert(all.take(i + 1).drop_last() =~= all.take(i as int));
        assert(all.take(i + 1).last() == fields[i as int]@);
        if fields[i].number == number {
            found = Some(&fields[i].value);
        }
        i += 1;
    }
    assert(fields_view(fields@).take(i as int) =~= fields_view(fields@));
    found
}

fn get_uint32(fields: &Vec<WireField>, number: u64) -> (r: Result<u32, DecodeError>)
    ensures
        r == uint32_field(fields_view(fields@), number),
{
    match find_last(fields, number) {
        None => Ok(0),
        Some(WireValue::Varint(v)) => if *v <= 0xffff_ffff {
            Ok(*v as u32)
        } else {
            Err(DecodeError::OutOfRange)
        },
        Some(_) => Err(DecodeError::Malformed),
    }
}

fn get_bytes(fields: &Vec<WireField>, number: u64) -> (r: Result<Vec<u8>, DecodeError>)
    ensures
        match r {
            Ok(b) => bytes_field(fields_view(fields@), number) == Ok::<Seq<u8>, DecodeError>(b@),
            Err(e) => bytes_field(fields_view(fields@), number) == Err::<Seq<u8>, DecodeError>(e),
        },
{
    match find_last(fields, number) {
        None => Ok(Vec::new()),
        Some(WireValue::Bytes(b)) => Ok(b.clone()),
        Some(_) => Err(DecodeError::Malformed),
    }
}

fn get_string(fields: &Vec<WireField>, number: u64) -> (r: Result<String, DecodeError>)
    ensures
        match r {
            Ok(s) => string_field(fields_view(fields@), number) == Ok::<Seq<char>, DecodeError>(
                s@,
            ),
            Err(e) => string_field(fields_view(fields@), number) == Err::<
                Seq<char>,
                DecodeError,
            >(e),
        },
{
    let bytes = get_bytes(fields, number)?;
    match string_from_utf8(bytes) {
        Some(s) => Ok(s),
        None => Err(DecodeError::InvalidUtf8),
    }
}

fn get_op(fields: &Vec<WireField>, number: u64) -> (r: Result<TableOp, DecodeError>)
    ensures
        r == op_field(fields_view(fields@), number),
{
    match find_last(fields, number) {
        None => Ok(TableOp::Delete),
        Some(WireValue::Varint(v)) => if *v == 0 {
            Ok(TableOp::Delete)
        } else if *v == 1 {
            Ok(TableOp::Insert)
        } else {
            Err(DecodeError::UnknownOp)
        },
        Some(_) => Err(DecodeError::Malformed),
    }
}

fn hex_digit_of(n: u8) -> (r: &'static str)
    requires
        n < 16,
    ensures
        r@ == hex_digit(n as int),
{
    if n == 0 {
        "0"
    } else if n == 1 {
        "1"
    } else if n == 2 {
        "2"
    } else if n == 3 {
        "3"
    } else if n == 4 {
        "4"
    } else if n == 5 {
        "5"
    } else if n == 6 {
        "6"
    } else if n == 7 {
        "7"
    } else if n == 8 {
        "8"
    } else if n == 9 {
        "9"
    } else if n == 10 {
        "a"
    } else if n == 11 {
        "b"
    } else if n == 12 {
        "c"
    } else if n == 13 {
        "d"
    } else if n == 14 {
        "e"
    } else {
        "f"
    }
}

/// The lower-case hexadecimal form of a byte string.
pub fn to_hex(bytes: &Vec<u8>) -> (r: String)
    ensures
        r@ == hex(bytes@),
{
    let mut out = String::new();
    let mut i: usize = 0;
    assert(bytes@.take(0) =~= Seq::empty());
    while i < bytes.len()
        invariant
            i <= bytes.len(),
            out@ == hex(bytes@.take(i as int)),
        decreases bytes.len() - i,
    {
        assert(bytes@.take(i + 1).drop_last() =~= bytes@.take(i as int));
        assert(bytes@.take(i + 1).last() == bytes[i as int]);
        let b = bytes[i];
        out.append(hex_digit_of(b / 16));
        out.append(hex_digit_of(b % 16));
        i += 1;
    }
    assert(bytes@.take(i as int) =~= bytes@);
    out
}

/// Decodes the body of an identity token.
pub fn decode_identity_token(body: &[u8]) -> (r: Result<IdentityTokenJson, DecodeError>)
    ensures
        match r {
            Ok(t) => identity_token_spec(body@) == Ok::<IdentityTokenView, DecodeError>(t@),
            Err(e) => identity_token_spec(body@) == Err::<IdentityTokenView, DecodeError>(e),
        },
{
    let fields = parse_fields(body)?;
    let identity = get_bytes(&fields, 1)?;
    let token = get_string(&fields, 2)?;
    Ok(IdentityTokenJson { identity: to_hex(&identity), token })
}

/// Decodes the body of one row operation.
pub fn decode_row_operation(body: &[u8]) -> (r: Result<TableRowOperationJson, DecodeError>)
    ensures
        match r {
            Ok(op) => row_operation_spec(body@) == Ok::<TableRowOperationView, DecodeError>(op@),
            Err(e) => row_operation_spec(body@) == Err::<TableRowOperationView, DecodeError>(e),
        },
{
    let fields = parse_fields(body)?;
    let op = get_op(&fields, 1)?;
    let key = get_bytes(&fields, 2)?;
    let row = get_bytes(&fields, 3)?;
    let mut values: Vec<TypeValue> = Vec::new();
    let ghost row_view = row@;
    values.push(TypeValue::Bytes(row));
    let r = TableRowOperationJson { op, row_pk: to_hex(&key), row: values };
    assert(r@.row =~= seq![TypeValueView::Bytes(row_view)]);
    Ok(r)
}

fn decode_row_operations(fields: &Vec<WireField>, number: u64) -> (r: Result<
    Vec<TableRowOperationJson>,
    DecodeError,
>)
    ensures
        match r {
            Ok(ops) => repeated_field(fields_view(fields@), number, row_operation_decoder())
                == Ok::<Seq<TableRowOperationView>, DecodeError>(operations_view(ops@)),
            Err(e) => repeated_field(fields_view(fields@), number, row_operation_decoder())
                == Err::<Seq<TableRowOperationView>, DecodeError>(e),
        },
{
    let mut out: Vec<TableRowOperationJson> = Vec::new();
    let mut i: usize = 0;
    assert(fields_view(fields@).take(0) =~= Seq::empty());
    assert(operations_view(out@) =~= Seq::empty());
    while i < fields.len()
        invariant
            i <= fields.len(),
            repeated_field(fields_view(fields@).take(i as int), number, row_operation_decoder())
                == Ok::<Seq<TableRowOperationView>, DecodeError>(operations_view(out@)),
        decreases fields.len() - i,
    {
        let ghost all = fields_view(fields@);
        let ghost before = out@;
        assert(all.take(i + 1).drop_last() =~= all.take(i as int));
        assert(all.take(i + 1).last() == fields[i as int]@);
        if fields[i].number == number {
            match &fields[i].value {
                WireValue::Bytes(body) => match decode_row_operation(body.as_slice()) {
                    Ok(op) => {
                        out.push(op);
                        assert(operations_view(out@) =~= operations_view(before).push(op@));
                    },
                    Err(e) => {
                        proof {
                            lemma_repeated_field_prefix(all, number, row_operation_decoder(), i + 1);
                        }
                        return Err(e);
                    },
                },
                _ => {
                    proof {
                        lemma_repeated_field_prefix(all, number, row_operation_decoder(), i + 1);
                    }
                    return Err(DecodeError::Malformed);
                },
            }
        }
        i += 1;
    }
    assert(fields_view(fields@).take(i as int) =~= fields_view(fields@));
    Ok(out)
}

/// Decodes the body of one table update.
pub fn decode_table_update(body: &[u8]) -> (r: Result<TableUpdateJson, DecodeError>)
    ensures
        match r {
            Ok(u) => table_update_spec(body@) == Ok::<TableUpdateView, DecodeError>(u@),
            Err(e) => table_update_spec(body@) == Err::<TableUpdateView, DecodeError>(e),
        },
{
    let fields = parse_fields(body)?;
    let table_id = get_uint32(&fields, 1)?;
    let table_name = get_string(&fields, 2)?;
    let table_row_operations = decode_row_operations(&fields, 3)?;
    Ok(TableUpdateJson { table_id, table_name, table_row_operations })
}

fn decode_table_updates(fields: &Vec<WireField>, number: u64) -> (r: Result<
    Vec<TableUpdateJson>,
    DecodeError,
>)
    ensures
        match r {
            Ok(updates) => repeated_field(fields_view(fields@), number, table_update_decoder())
                == Ok::<Seq<TableUpdateView>, DecodeError>(updates_view(updates@)),
            Err(e) => repeated_field(fields_view(fields@), number, table_update_decoder())
                == Err::<Seq<TableUpdateView>, DecodeError>(e),
        },
{
    let mut out: Vec<TableUpdateJson> = Vec::new();
    let mut i: usize = 0;
    assert(fields_view(fields@).take(0) =~= Seq::empty());
    assert(updates_view(out@) =~= Seq::empty());
    while i < fields.len()
        invariant
            i <= fields.len(),
            repeated_field(fields_view(fields@).take(i as int), number, table_update_decoder())
                == Ok::<Seq<TableUpdateView>, DecodeError>(updates_view(out@)),
        decreases fields.len() - i,
    {
        let ghost all = fields_view(fields@);
        let ghost before = out@;
        assert(all.take(i + 1).drop_last() =~= all.take(i as int));
        assert(all.take(i + 1).last() == fields[i as int]@);
        if fields[i].number == number {
            match &fields[i].value {
                WireValue::Bytes(body) => match decode_table_update(body.as_slice()) {
                    Ok(update) => {
                        out.push(update);
                        assert(updates_view(out@) =~= updates_view(before).push(update@));
                    },
                    Err(e) => {
                        proof {
                            lemma_repeated_field_prefix(all, number, table_update_decoder(), i + 1);
                        }
                        return Err(e);
                    },
                },
                _ => {
                    proof {
                        lemma_repeated_field_prefix(all, number, table_update_decoder(), i + 1);
                    }
                    return Err(DecodeError::Malformed);
                },
            }
        }
        i += 1;
    }
    assert(fields_view(fields@).take(i as int) =~= fields_view(fields@));
    Ok(out)
}

/// Decodes the body of a subscription update.
pub fn decode_subscription_update(body: &[u8]) -> (r: Result<SubscriptionUpdateJson, DecodeError>)
    ensures
        match r {
            Ok(u) => subscription_update_spec(body@) == Ok::<SubscriptionUpdateView, DecodeError>(
                u@,
            ),
            Err(e) => subscription_update_spec(body@) == Err::<
                SubscriptionUpdateView,
                DecodeError,
            >(e),
        },
{
    let fields = parse_fields(body)?;
    let table_updates = decode_table_updates(&fields, 1)?;
    Ok(SubscriptionUpdateJson { table_updates })
}

fn find_payload<'a>(fields: &'a Vec<WireField>) -> (r: Option<&'a WireField>)
    ensures
        match r {
            Some(f) => last_payload(fields_view(fields@)) == Some(f@),
            None => last_payload(fields_view(fields@)) is None,
        },
{
    let mut found: Option<&WireField> = None;
    let mut i: usize = 0;
    assert(fields_view(fields@).take(0) =~= Seq::empty());
    while i < fields.len()
        invariant
            i <= fields.len(),
            match found {
                Some(f) => last_payload(fields_view(fields@).take(i as int)) == Some(f@),
                None => last_payload(fields_view(fields@).take(i as int)) is None,
            },
        decreases fields.len() - i,
    {
        let ghost all = fields_view(fields@);
        assert(all.take(i + 1).drop_last() =~= all.take(i as int));
        assert(all.take(i + 1).last() == fields[i as int]@);
        if 1 <= fields[i].number && fields[i].number <= 5 {
            found = Some(&fields[i]);
        }
        i += 1;
    }
    assert(fields_view(fields@).take(i as int) =~= fields_view(fields@));
    found
}

/// Decodes a binary frame: a response, or nothing where the frame holds a
/// payload that is accepted and dropped, or none.
pub fn decode_binary(bytes: &[u8]) -> (r: Result<Option<SpaceDbResponse>, DecodeError>)
    ensures
        match r {
            Ok(Some(response)) => binary_frame_spec(bytes@) == Ok::<
                Option<SpaceDbResponseView>,
                DecodeError,
            >(Some(response@)),
            Ok(None) => binary_frame_spec(bytes@) == Ok::<
                Option<SpaceDbResponseView>,
                DecodeError,
            >(None),
            Err(e) => binary_frame_spec(bytes@) == Err::<Option<SpaceDbResponseView>, DecodeError>(
                e,
            ),
        },
{
    let fields = parse_fields(bytes)?;
    match find_payload(&fields) {
        None => Ok(None),
        Some(payload) => match &payload.value {
            WireValue::Bytes(body) => if payload.number == 5 {
                Ok(Some(SpaceDbResponse::IdentityToken(decode_identity_token(body.as_slice())?)))
            } else if payload.number == 2 {
                Ok(
                    Some(
                        SpaceDbResponse::SubscriptionUpdate(
                            decode_subscription_update(body.as_slice())?,
                        ),
                    ),
                )
            } else {
                Ok(None)
            },
            _ => Err(DecodeError::Malformed),
        },
    }
}

} // verus!
