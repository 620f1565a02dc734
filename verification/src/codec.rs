//! How addresses and values are written to, and read from, bytes.
//!
//! An address is written as the path to its leaf: one byte for each
//! choice, and one byte for each index. A value is written as a
//! variable-length integer, a real number by its raw value. Whatever is
//! written is read back as it was, whatever follows it.

use vstd::prelude::*;
use vstd::slice::slice_subrange;
use crate::address::{
    CalField,
    ConfigField,
    ContainerGetter,
    ContainerSetter,
    ControllerField,
    EncoderField,
    FocField,
    Kind,
    UpdateField,
    Value,
};
use crate::fixed::Fixed;
use crate::wire::{
    lemma_varint_round_trip,
    parse_varint,
    put_i64,
    put_u16,
    put_u32,
    take_i64,
    take_u16,
    take_u32,
    unzigzag,
    varint,
    zigzag,
    U16_BYTE,
    U32_BYTE,
    U64_BYTE,
};

verus! {

/// Appends `more` to `out`.
pub fn append(out: &mut Vec<u8>, more: &[u8])
    ensures
        final(out)@ == old(out)@ + more@,
{
    let mut i: usize = 0;
    while i < more.len()
        invariant
            i <= more@.len(),
            out@ == old(out)@ + more@.subrange(0, i as int),
        decreases more@.len() - i,
    {
        out.push(more[i]);
        assert(out@ =~= old(out)@ + more@.subrange(0, i + 1));
        i += 1;
    }
    assert(more@.subrange(0, more@.len() as int) =~= more@);
}

/// The bytes from place `from` on; none where `from` lies beyond the end.
pub open spec fn tail(s: Seq<u8>, from: nat) -> Seq<u8> {
    if from <= s.len() {
        s.subrange(from as int, s.len() as int)
    } else {
        Seq::empty()
    }
}

/// The bytes of `src` from place `from` on.
pub fn rest(src: &[u8], from: usize) -> (r: &[u8])
    ensures
        r@ == tail(src@, from as nat),
{
    if from <= src.len() {
        slice_subrange(src, from, src.len())
    } else {
        slice_subrange(src, 0, 0)
    }
}

/// The bytes that stand for a field of the controller.
pub open spec fn controller_field_bytes(field: ControllerField) -> Seq<u8> {
    match field {
        ControllerField::Residual(i) => seq![0u8, i],
        ControllerField::Cal(f) => seq![1u8, f.index()],
        ControllerField::Foc(f) => seq![2u8, f.index()],
    }
}

/// The bytes that stand for a field of the sensor.
pub open spec fn encoder_field_bytes(field: EncoderField) -> Seq<u8> {
    match field {
        EncoderField::Normalized(i) => seq![0u8, i],
        EncoderField::Compensated(i) => seq![1u8, i],
        EncoderField::Unwrapped(i) => seq![2u8, i],
        EncoderField::Position => seq![3u8],
        EncoderField::FilteredPosition => seq![4u8],
        EncoderField::Velocity => seq![5u8],
    }
}

/// The bytes that stand for a field of the settings.
pub open spec fn config_field_bytes(field: ConfigField) -> Seq<u8> {
    match field {
        ConfigField::CompBias(i) => seq![17u8, i],
        ConfigField::CompMatrix(j, i) => seq![18u8, j, i],
        _ => seq![field.index()],
    }
}

/// The bytes that stand for an address.
pub open spec fn getter_bytes(getter: ContainerGetter) -> Seq<u8> {
    match getter {
        ContainerGetter::Adc(i) => seq![0u8, i],
        ContainerGetter::Pwm(i) => seq![1u8, i],
        ContainerGetter::Controller(f) => seq![2u8] + controller_field_bytes(f),
        ContainerGetter::Update(f) => seq![3u8, f.index()],
        ContainerGetter::Encoder(f) => seq![4u8] + encoder_field_bytes(f),
        ContainerGetter::Config(f) => seq![5u8] + config_field_bytes(f),
    }
}

/// The field of the controller at the start of `s`, with the number of
/// bytes it takes up.
pub open spec fn parse_controller_field(s: Seq<u8>) -> Option<(ControllerField, nat)> {
    if s.len() < 2 {
        None
    } else if s[0] == 0 {
        Some((ControllerField::Residual(s[1]), 2nat))
    } else if s[0] == 1 {
        match CalField::from_index(s[1]) {
            Some(f) => Some((ControllerField::Cal(f), 2nat)),
            None => None,
        }
    } else if s[0] == 2 {
        match FocField::from_index(s[1]) {
            Some(f) => Some((ControllerField::Foc(f), 2nat)),
            None => None,
        }
    } else {
        None
    }
}

/// The field of the sensor at the start of `s`, with the number of bytes
/// it takes up.
pub open spec fn parse_encoder_field(s: Seq<u8>) -> Option<(EncoderField, nat)> {
    if s.len() < 1 {
        None
    } else if s[0] == 3 {
        Some((EncoderField::Position, 1nat))
    } else if s[0] == 4 {
        Some((EncoderField::FilteredPosition, 1nat))
    } else if s[0] == 5 {
        Some((EncoderField::Velocity, 1nat))
    } else if s.len() < 2 {
        None
    } else if s[0] == 0 {
        Some((EncoderField::Normalized(s[1]), 2nat))
    } else if s[0] == 1 {
        Some((EncoderField::Compensated(s[1]), 2nat))
    } else if s[0] == 2 {
        Some((EncoderField::Unwrapped(s[1]), 2nat))
    } else {
        None
    }
}

/// The field of the settings at the start of `s`, with the number of bytes
/// it takes up.
pub open spec fn parse_config_field(s: Seq<u8>) -> Option<(ConfigField, nat)> {
    if s.len() < 1 {
        None
    } else if s[0] < 17 {
        match ConfigField::scalar(s[0]) {
            Some(f) => Some((f, 1nat)),
            None => None,
        }
    } else if s[0] == 17 && s.len() >= 2 {
        Some((ConfigField::CompBias(s[1]), 2nat))
    } else if s[0] == 18 && s.len() >= 3 {
        Some((ConfigField::CompMatrix(s[1], s[2]), 3nat))
    } else {
        None
    }
}

/// The address at the start of `s`, with the number of bytes it takes up.
pub open spec fn parse_getter(s: Seq<u8>) -> Option<(ContainerGetter, nat)> {
    if s.len() < 2 {
        None
    } else if s[0] == 0 {
        Some((ContainerGetter::Adc(s[1]), 2nat))
    } else if s[0] == 1 {
        Some((ContainerGetter::Pwm(s[1]), 2nat))
    } else if s[0] == 2 {
        match parse_controller_field(tail(s, 1)) {
            Some((f, n)) => Some((ContainerGetter::Controller(f), 1 + n)),
            None => None,
        }
    } else if s[0] == 3 {
        match UpdateField::from_index(s[1]) {
            Some(f) => Some((ContainerGetter::Update(f), 2nat)),
            None => None,
        }
    } else if s[0] == 4 {
        match parse_encoder_field(tail(s, 1)) {
            Some((f, n)) => Some((ContainerGetter::Encoder(f), 1 + n)),
            None => None,
        }
    } else if s[0] == 5 {
        match parse_config_field(tail(s, 1)) {
            Some((f, n)) => Some((ContainerGetter::Config(f), 1 + n)),
            None => None,
        }
    } else {
        None
    }
}

/// An address that is followed by anything at all is read back as it was
/// written, with its own length.
pub proof fn lemma_getter_round_trip(getter: ContainerGetter, more: Seq<u8>)
    ensures
        parse_getter(getter_bytes(getter) + more) == Some((getter, getter_bytes(getter).len())),
        2 <= getter_bytes(getter).len() <= 4,
{
    let s = getter_bytes(getter) + more;
    match getter {
        ContainerGetter::Controller(f) => {
            assert(tail(s, 1) =~= controller_field_bytes(f) + more);
        },
        ContainerGetter::Encoder(f) => {
            assert(tail(s, 1) =~= encoder_field_bytes(f) + more);
        },
        ContainerGetter::Config(f) => {
            assert(tail(s, 1) =~= config_field_bytes(f) + more);
            assert(f.index() < 17 ==> ConfigField::spec_scalar(f.index()) == Some(f));
        },
        _ => {},
    }
}

/// Writes an address.
pub fn put_getter(out: &mut Vec<u8>, getter: ContainerGetter)
    ensures
        final(out)@ == old(out)@ + getter_bytes(getter),
{
    match getter {
        ContainerGetter::Adc(i) => {
            out.push(0);
            out.push(i);
        },
        ContainerGetter::Pwm(i) => {
            out.push(1);
            out.push(i);
        },
        ContainerGetter::Controller(f) => {
            out.push(2);
            match f {
                ControllerField::Residual(i) => {
                    out.push(0);
                    out.push(i);
                },
                ControllerField::Cal(c) => {
                    out.push(1);
                    out.push(c.index());
                },
                ControllerField::Foc(x) => {
                    out.push(2);
                    out.push(x.index());
                },
            }
        },
        ContainerGetter::Update(f) => {
            out.push(3);
            out.push(f.index());
        },
        ContainerGetter::Encoder(f) => {
            out.push(4);
            match f {
                EncoderField::Normalized(i) => {
                    out.push(0);
                    out.push(i);
                },
                EncoderField::Compensated(i) => {
                    out.push(1);
                    out.push(i);
                },
                EncoderField::Unwrapped(i) => {
                    out.push(2);
                    out.push(i);
                },
                EncoderField::Position => {
                    out.push(3);
                },
                EncoderField::FilteredPosition => {
                    out.push(4);
                },
                EncoderField::Velocity => {
                    out.push(5);
                },
            }
        },
        ContainerGetter::Config(f) => {
            out.push(5);
            match f {
                ConfigField::CompBias(i) => {
                    out.push(17);
                    out.push(i);
                },
                ConfigField::CompMatrix(j, i) => {
                    out.push(18);
                    out.push(j);
                    out.push(i);
                },
                _ => {
                    out.push(f.index());
                },
            }
        },
    }
    assert(out@ =~= old(out)@ + getter_bytes(getter));
}

/// Reads an address from the start of `src`, with the number of bytes it
/// takes up.
pub fn take_getter(src: &[u8]) -> (r: Option<(ContainerGetter, usize)>)
    ensures
        match parse_getter(src@) {
            Some((g, n)) => r == Some((g, n as usize)),
            None => r is None,
        },
{
    if src.len() < 2 {
        return None;
    }
    let tag = src[0];
    if tag == 0 {
        Some((ContainerGetter::Adc(src[1]), 2))
    } else if tag == 1 {
        Some((ContainerGetter::Pwm(src[1]), 2))
    } else if tag == 2 {
        assert(tail(src@, 1).len() == src@.len() - 1);
        assert(tail(src@, 1)[0] == src@[1]);
        if src[1] == 0 {
            if src.len() < 3 {
                return None;
            }
            assert(tail(src@, 1)[1] == src@[2]);
            Some((ContainerGetter::Controller(ControllerField::Residual(src[2])), 3))
        } else if src[1] == 1 {
            if src.len() < 3 {
                return None;
            }
            assert(tail(src@, 1)[1] == src@[2]);
            match CalField::from_index(src[2]) {
                Some(f) => Some((ContainerGetter::Controller(ControllerField::Cal(f)), 3)),
                None => None,
            }
        } else if src[1] == 2 {
            if src.len() < 3 {
                return None;
            }
            assert(tail(src@, 1)[1] == src@[2]);
            match FocField::from_index(src[2]) {
                Some(f) => Some((ContainerGetter::Controller(ControllerField::Foc(f)), 3)),
                None => None,
            }
        } else {
            None
        }
    } else if tag == 3 {
        match UpdateField::from_index(src[1]) {
            Some(f) => Some((ContainerGetter::Update(f), 2)),
            None => None,
        }
    } else if tag == 4 {
        assert(tail(src@, 1).len() == src@.len() - 1);
        assert(tail(src@, 1)[0] == src@[1]);
        let kind = src[1];
        if kind == 3 {
            Some((ContainerGetter::Encoder(EncoderField::Position), 2))
        } else if kind == 4 {
            Some((ContainerGetter::Encoder(EncoderField::FilteredPosition), 2))
        } else if kind == 5 {
            Some((ContainerGetter::Encoder(EncoderField::Velocity), 2))
        } else if src.len() < 3 {
            None
        } else {
            assert(tail(src@, 1)[1] == src@[2]);
            if kind == 0 {
                Some((ContainerGetter::Encoder(EncoderField::Normalized(src[2])), 3))
            } else if kind == 1 {
                Some((ContainerGetter::Encoder(EncoderField::Compensated(src[2])), 3))
            } else if kind == 2 {
                Some((ContainerGetter::Encoder(EncoderField::Unwrapped(src[2])), 3))
            } else {
                None
            }
        }
    } else if tag == 5 {
        assert(tail(src@, 1).len() == src@.len() - 1);
        assert(tail(src@, 1)[0] == src@[1]);
        let kind = src[1];
        if kind < 17 {
            match ConfigField::scalar(kind) {
                Some(f) => Some((ContainerGetter::Config(f), 2)),
                None => None,
            }
        } else if kind == 17 && src.len() >= 3 {
            assert(tail(src@, 1)[1] == src@[2]);
            Some((ContainerGetter::Config(ConfigField::CompBias(src[2])), 3))
        } else if kind == 18 && src.len() >= 4 {
            assert(tail(src@, 1)[1] == src@[2]);
            assert(tail(src@, 1)[2] == src@[3]);
            Some((ContainerGetter::Config(ConfigField::CompMatrix(src[2], src[3])), 4))
        } else {
            None
        }
    } else {
        None
    }
}

/// The bytes that stand for a value.
pub open spec fn value_bytes(value: Value) -> Seq<u8> {
    match value {
        Value::U16(x) => varint(x as nat),
        Value::U32(x) => varint(x as nat),
        Value::Real(x) => varint(zigzag(x.raw as int)),
    }
}

/// The value of type `kind` at the start of `s`, with the number of bytes
/// it takes up.
pub open spec fn parse_value(kind: Kind, s: Seq<u8>) -> Option<(Value, nat)> {
    match kind {
        Kind::U16 => match parse_varint(s, U16_BYTE) {
            Some((v, n)) => Some((Value::U16(v as u16), n)),
            None => None,
        },
        Kind::U32 => match parse_varint(s, U32_BYTE) {
            Some((v, n)) => Some((Value::U32(v as u32), n)),
            None => None,
        },
        Kind::Real => match parse_varint(s, U64_BYTE) {
            Some((v, n)) => Some((Value::Real(Fixed { raw: unzigzag(v) as i64 }), n)),
            None => None,
        },
    }
}

/// A value that is followed by anything at all is read back as it was
/// written, with its own length.
pub proof fn lemma_value_round_trip(value: Value, more: Seq<u8>)
    ensures
        parse_value(value.kind(), value_bytes(value) + more) == Some(
            (value, value_bytes(value).len()),
        ),
        1 <= value_bytes(value).len() <= 9,
{
    match value {
        Value::U16(x) => {
            lemma_varint_round_trip(x as nat, more, U16_BYTE);
        },
        Value::U32(x) => {
            lemma_varint_round_trip(x as nat, more, U32_BYTE);
        },
        Value::Real(x) => {
            lemma_varint_round_trip(zigzag(x.raw as int), more, U64_BYTE);
            crate::wire::lemma_zigzag_round_trip(x.raw as int);
        },
    }
}

/// Writes a value: the bytes that stand for it.
pub fn dehydrate(value: Value) -> (r: Vec<u8>)
    ensures
        r@ == value_bytes(value),
{
    match value {
        Value::U16(x) => put_u16(x),
        Value::U32(x) => put_u32(x),
        Value::Real(x) => put_i64(x.raw),
    }
}

/// Reads a value of type `kind` from the start of `src`, with the number
/// of bytes it takes up.
pub fn hydrate(kind: Kind, src: &[u8]) -> (r: Option<(Value, usize)>)
    ensures
        match parse_value(kind, src@) {
            Some((v, n)) => r == Some((v, n as usize)),
            None => r is None,
        },
{
    match kind {
        Kind::U16 => match take_u16(src) {
            Some((v, n)) => Some((Value::U16(v), n)),
            None => None,
        },
        Kind::U32 => match take_u32(src) {
            Some((v, n)) => Some((Value::U32(v), n)),
            None => None,
        },
        Kind::Real => match take_i64(src) {
            Some((v, n)) => Some((Value::Real(Fixed { raw: v }), n)),
            None => None,
        },
    }
}

/// The byte that stands for a type.
pub open spec fn kind_byte(kind: Kind) -> u8 {
    match kind {
        Kind::U16 => 0,
        Kind::U32 => 1,
        Kind::Real => 2,
    }
}

/// The bytes that stand for a value whose type is not known beforehand:
/// the byte of its type, then the value.
pub open spec fn tagged_value_bytes(value: Value) -> Seq<u8> {
    seq![kind_byte(value.kind())] + value_bytes(value)
}

/// The value at the start of `s`, after the byte of its type, with the
/// number of bytes the two take up.
pub open spec fn parse_tagged_value(s: Seq<u8>) -> Option<(Value, nat)> {
    if s.len() < 1 || s[0] > 2 {
        None
    } else {
        let kind = if s[0] == 0 {
            Kind::U16
        } else if s[0] == 1 {
            Kind::U32
        } else {
            Kind::Real
        };
        match parse_value(kind, tail(s, 1)) {
            Some((v, n)) => Some((v, 1 + n)),
            None => None,
        }
    }
}

/// A value written with its type is read back as it was written.
pub proof fn lemma_tagged_value_round_trip(value: Value, more: Seq<u8>)
    ensures
        parse_tagged_value(tagged_value_bytes(value) + more) == Some(
            (value, tagged_value_bytes(value).len()),
        ),
        2 <= tagged_value_bytes(value).len() <= 10,
{
    let s = tagged_value_bytes(value) + more;
    lemma_value_round_trip(value, more);
    assert(tail(s, 1) =~= value_bytes(value) + more);
}

/// Writes a value with its type.
pub fn put_tagged_value(out: &mut Vec<u8>, value: Value)
    ensures
        final(out)@ == old(out)@ + tagged_value_bytes(value),
{
    let tag: u8 = match value {
        Value::U16(_) => 0,
        Value::U32(_) => 1,
        Value::Real(_) => 2,
    };
    out.push(tag);
    let bytes = dehydrate(value);
    append(out, bytes.as_slice());
    assert(out@ =~= old(out)@ + tagged_value_bytes(value));
}

/// Reads a value with its type from the start of `src`.
pub fn take_tagged_value(src: &[u8]) -> (r: Option<(Value, usize)>)
    ensures
        match parse_tagged_value(src@) {
            Some((v, n)) => r == Some((v, n as usize)),
            None => r is None,
        },
{
    if src.len() < 1 || src[0] > 2 {
        return None;
    }
    let kind = if src[0] == 0 {
        Kind::U16
    } else if src[0] == 1 {
        Kind::U32
    } else {
        Kind::Real
    };
    match hydrate(kind, rest(src, 1)) {
        Some((v, n)) => {
            proof {
                crate::wire::lemma_parse_is_short(tail(src@, 1), U64_BYTE);
            }
            Some((v, 1 + n))
        },
        None => None,
    }
}

/// The bytes that stand for a write: the address, then the value with its
/// type.
pub open spec fn setter_bytes(setter: ContainerSetter) -> Seq<u8> {
    getter_bytes(setter.address) + tagged_value_bytes(setter.value)
}

/// The write at the start of `s`, with the number of bytes it takes up.
pub open spec fn parse_setter(s: Seq<u8>) -> Option<(ContainerSetter, nat)> {
    match parse_getter(s) {
        Some((address, n)) => match parse_tagged_value(tail(s, n)) {
            Some((value, m)) => Some((ContainerSetter { address, value }, n + m)),
            None => None,
        },
        None => None,
    }
}

/// A write is read back as it was written.
pub proof fn lemma_setter_round_trip(setter: ContainerSetter, more: Seq<u8>)
    ensures
        parse_setter(setter_bytes(setter) + more) == Some((setter, setter_bytes(setter).len())),
{
    let s = setter_bytes(setter) + more;
    let g = getter_bytes(setter.address);
    let v = tagged_value_bytes(setter.value);
    assert(s =~= g + (v + more));
    lemma_getter_round_trip(setter.address, v + more);
    assert(tail(s, g.len()) =~= v + more);
    lemma_tagged_value_round_trip(setter.value, more);
}

} // verus!
