//! The wire codec: how values become bytes and bytes become values.
//!
//! Every type that travels on the wire implements [`Packet`]. The trait
//! ties the executable encoder and decoder to two mathematical
//! functions, and obliges each implementation to prove that decoding
//! undoes encoding and that a truncated encoding is reported as such.

use vstd::prelude::*;
use vstd::slice::slice_subrange;

verus! {

/// Why bytes could not be decoded.
#[derive(Clone, Copy, Debug, PartialEq, Eq, Structural)]
pub enum DecodeError {
    /// The input ends before the value does.
    UnexpectedEndOfInput,
    /// A tagged union starts with a tag that none of its variants has.
    UnknownDiscriminant(u32),
}

/// A value with a byte layout.
pub trait Packet: Sized {
    /// The mathematical content of a value.
    type Model;

    /// The mathematical content of `self`.
    spec fn model(&self) -> Self::Model;

    /// Whether a value can be encoded at all. A sequence, for one, must
    /// be short enough for its length prefix.
    spec fn encodable(value: Self::Model) -> bool;

    /// The bytes of a value.
    spec fn wire(value: Self::Model) -> Seq<u8>;

    /// The value at the start of `bytes` and the number of bytes it
    /// takes, or the reason why there is none.
    spec fn parse(bytes: Seq<u8>) -> Result<(Self::Model, nat), DecodeError>;

    /// Appends the bytes of `self` to `buffer`.
    fn encode(&self, buffer: &mut Vec<u8>)
        requires
            Self::encodable(self.model()),
        ensures
            final(buffer)@ == old(buffer)@ + Self::wire(self.model()),
    ;

    /// Reads a value from the start of `bytes`. Returns the value and the
    /// number of bytes read, and fails exactly when [`Packet::parse`]
    /// does, with the same error.
    fn decode(bytes: &[u8]) -> (result: Result<(Self, usize), DecodeError>)
        ensures
            match result {
                Ok((value, read)) => Self::parse(bytes@) == Ok::<(Self::Model, nat), DecodeError>(
                    (value.model(), read as nat),
                ) && read <= bytes@.len(),
                Err(error) => Self::parse(bytes@) == Err::<(Self::Model, nat), DecodeError>(error),
            },
    ;

    /// What is read never reaches beyond the input, and can be encoded
    /// again.
    proof fn lemma_parse_bounds(bytes: Seq<u8>)
        ensures
            Self::parse(bytes) matches Ok((value, read)) ==> read <= bytes.len()
                && Self::encodable(value),
    ;

    /// Decoding undoes encoding, whatever follows the encoded bytes.
    proof fn lemma_round_trip(value: Self::Model, rest: Seq<u8>)
        requires
            Self::encodable(value),
        ensures
            Self::parse(Self::wire(value) + rest) == Ok::<(Self::Model, nat), DecodeError>(
                (value, Self::wire(value).len()),
            ),
    ;

    /// An encoding that was cut short decodes to nothing but the report
    /// that the input ended too early.
    proof fn lemma_truncated(value: Self::Model, cut: int)
        requires
            Self::encodable(value),
            0 <= cut < Self::wire(value).len(),
        ensures
            Self::parse(Self::wire(value).take(cut)) == Err::<(Self::Model, nat), DecodeError>(
                DecodeError::UnexpectedEndOfInput,
            ),
    ;
}

/// Encodes a value into a buffer of its own.
pub fn to_bytes<T: Packet>(value: &T) -> (bytes: Vec<u8>)
    requires
        T::encodable(value.model()),
    ensures
        bytes@ == T::wire(value.model()),
{
    let mut bytes: Vec<u8> = Vec::new();
    value.encode(&mut bytes);
    assert(bytes@ =~= T::wire(value.model()));
    bytes
}

/// Decodes a value from the start of `bytes` and drops what follows it.
pub fn from_bytes<T: Packet>(bytes: &[u8]) -> (result: Result<T, DecodeError>)
    ensures
        match result {
            Ok(value) => T::parse(bytes@) matches Ok((parsed, _)) && parsed == value.model(),
            Err(error) => T::parse(bytes@) == Err::<(T::Model, nat), DecodeError>(error),
        },
{
    match T::decode(bytes) {
        Ok((value, _)) => Ok(value),
        Err(error) => Err(error),
    }
}

/// Decoding what was encoded gives the value back, and all of the bytes
/// are read.
pub proof fn lemma_decode_encode<T: Packet>(value: T::Model)
    requires
        T::encodable(value),
    ensures
        T::parse(T::wire(value)) == Ok::<(T::Model, nat), DecodeError>((value, T::wire(value).len())),
{
    T::lemma_round_trip(value, Seq::empty());
    assert(T::wire(value) + Seq::<u8>::empty() =~= T::wire(value));
}

/// A decoded value, encoded again, decodes to the same value, even where
/// the bytes differ from those it was first read from.
pub proof fn lemma_reencode<T: Packet>(bytes: Seq<u8>)
    ensures
        T::parse(bytes) matches Ok((value, _)) ==> T::parse(T::wire(value)) == Ok::<
            (T::Model, nat),
            DecodeError,
        >((value, T::wire(value).len())),
{
    T::lemma_parse_bounds(bytes);
    if let Ok((value, _)) = T::parse(bytes) {
        lemma_decode_encode::<T>(value);
    }
}

impl Packet for u8 {
    type Model = u8;

    open spec fn model(&self) -> u8 {
        *self
    }

    open spec fn encodable(value: u8) -> bool {
        true
    }

    open spec fn wire(value: u8) -> Seq<u8> {
        seq![value]
    }

    open spec fn parse(bytes: Seq<u8>) -> Result<(u8, nat), DecodeError> {
        if bytes.len() < 1 {
            Err(DecodeError::UnexpectedEndOfInput)
        } else {
            Ok((bytes[0], 1))
        }
    }

    fn encode(&self, buffer: &mut Vec<u8>) {
        buffer.push(*self);
        assert(buffer@ =~= old(buffer)@ + Self::wire(*self));
    }

    fn decode(bytes: &[u8]) -> (result: Result<(u8, usize), DecodeError>) {
        if bytes.len() < 1 {
            Err(DecodeError::UnexpectedEndOfInput)
        } else {
            Ok((bytes[0], 1))
        }
    }

    proof fn lemma_parse_bounds(bytes: Seq<u8>) {
    }

    proof fn lemma_round_trip(value: u8, rest: Seq<u8>) {
    }

    proof fn lemma_truncated(value: u8, cut: int) {
    }
}

impl Packet for u16 {
    type Model = u16;

    open spec fn model(&self) -> u16 {
        *self
    }

    open spec fn encodable(value: u16) -> bool {
        true
    }

    open spec fn wire(value: u16) -> Seq<u8> {
        seq![(value % 256) as u8, (value / 256) as u8]
    }

    open spec fn parse(bytes: Seq<u8>) -> Result<(u16, nat), DecodeError> {
        if bytes.len() < 2 {
            Err(DecodeError::UnexpectedEndOfInput)
        } else {
            Ok(((bytes[0] + bytes[1] * 256) as u16, 2))
        }
    }

    fn encode(&self, buffer: &mut Vec<u8>) {
        buffer.push((*self % 256) as u8);
        buffer.push((*self / 256) as u8);
        assert(buffer@ =~= old(buffer)@ + Self::wire(*self));
    }

    fn decode(bytes: &[u8]) -> (result: Result<(u16, usize), DecodeError>) {
        if bytes.len() < 2 {
            Err(DecodeError::UnexpectedEndOfInput)
        } else {
            Ok((bytes[0] as u16 + bytes[1] as u16 * 256, 2))
        }
    }

    proof fn lemma_parse_bounds(bytes: Seq<u8>) {
    }

    proof fn lemma_round_trip(value: u16, rest: Seq<u8>) {
    }

    proof fn lemma_truncated(value: u16, cut: int) {
    }
}

impl Packet for u32 {
    type Model = u32;

    open spec fn model(&self) -> u32 {
        *self
    }

    open spec fn encodable(value: u32) -> bool {
        true
    }

    open spec fn wire(value: u32) -> Seq<u8> {
        seq![
            (value % 256) as u8,
            (value / 256 % 256) as u8,
            (value / 65536 % 256) as u8,
            (value / 16777216) as u8,
        ]
    }

    open spec fn parse(bytes: Seq<u8>) -> Result<(u32, nat), DecodeError> {
        if bytes.len() < 4 {
            Err(DecodeError::UnexpectedEndOfInput)
        } else {
            Ok(
                ((bytes[0] + bytes[1] * 256 + bytes[2] * 65536 + bytes[3] * 16777216) as u32, 4),
            )
        }
    }

    fn encode(&self, buffer: &mut Vec<u8>) {
        buffer.push((*self % 256) as u8);
        buffer.push((*self / 256 % 256) as u8);
        buffer.push((*self / 65536 % 256) as u8);
        buffer.push((*self / 16777216) as u8);
        assert(buffer@ =~= old(buffer)@ + Self::wire(*self));
    }

    fn decode(bytes: &[u8]) -> (result: Result<(u32, usize), DecodeError>) {
        if bytes.len() < 4 {
            Err(DecodeError::UnexpectedEndOfInput)
        } else {
            Ok(
                (
                    bytes[0] as u32 + bytes[1] as u32 * 256 + bytes[2] as u32 * 65536
                        + bytes[3] as u32 * 16777216,
                    4,
                ),
            )
        }
    }

    proof fn lemma_parse_bounds(bytes: Seq<u8>) {
    }

    proof fn lemma_round_trip(value: u32, rest: Seq<u8>) {
    }

    proof fn lemma_truncated(value: u32, cut: int) {
    }
}

impl<A: Packet, B: Packet> Packet for (A, B) {
    type Model = (A::Model, B::Model);

    open spec fn model(&self) -> (A::Model, B::Model) {
        (self.0.model(), self.1.model())
    }

    open spec fn encodable(value: (A::Model, B::Model)) -> bool {
        A::encodable(value.0) && B::encodable(value.1)
    }

    open spec fn wire(value: (A::Model, B::Model)) -> Seq<u8> {
        A::wire(value.0) + B::wire(value.1)
    }

    open spec fn parse(bytes: Seq<u8>) -> Result<((A::Model, B::Model), nat), DecodeError> {
        match A::parse(bytes) {
            Ok((first, read)) => match B::parse(bytes.skip(read as int)) {
                Ok((second, more)) => Ok(((first, second), read + more)),
                Err(error) => Err(error),
            },
            Err(error) => Err(error),
        }
    }

    fn encode(&self, buffer: &mut Vec<u8>) {
        self.0.encode(buffer);
        self.1.encode(buffer);
        assert(buffer@ =~= old(buffer)@ + Self::wire(self.model()));
    }

    fn decode(bytes: &[u8]) -> (result: Result<((A, B), usize), DecodeError>) {
        match A::decode(bytes) {
            Ok((first, read)) => {
                let rest = slice_subrange(bytes, read, bytes.len());
                assert(rest@ =~= bytes@.skip(read as int));
                match B::decode(rest) {
                    Ok((second, more)) => Ok(((first, second), read + more)),
                    Err(error) => Err(error),
                }
            },
            Err(error) => Err(error),
        }
    }

    proof fn lemma_parse_bounds(bytes: Seq<u8>) {
        A::lemma_parse_bounds(bytes);
        if let Ok((_, read)) = A::parse(bytes) {
            B::lemma_parse_bounds(bytes.skip(read as int));
        }
    }

    proof fn lemma_round_trip(value: (A::Model, B::Model), rest: Seq<u8>) {
        let head = A::wire(value.0);
        let tail = B::wire(value.1);
        A::lemma_round_trip(value.0, tail + rest);
        B::lemma_round_trip(value.1, rest);
        assert(head + tail + rest =~= head + (tail + rest));
        assert((head + (tail + rest)).skip(head.len() as int) =~= tail + rest);
    }

    proof fn lemma_truncated(value: (A::Model, B::Model), cut: int) {
        let head = A::wire(value.0);
        let tail = B::wire(value.1);
        if cut < head.len() {
            A::lemma_truncated(value.0, cut);
            assert((head + tail).take(cut) =~= head.take(cut));
        } else {
            let kept = tail.take(cut - head.len());
            A::lemma_round_trip(value.0, kept);
            B::lemma_truncated(value.1, cut - head.len());
            assert((head + tail).take(cut) =~= head + kept);
            assert((head + kept).skip(head.len() as int) =~= kept);
        }
    }
}


impl Packet for u64 {
    type Model = u64;

    open spec fn model(&self) -> u64 {
        *self
    }

    open spec fn encodable(value: u64) -> bool {
        true
    }

    open spec fn wire(value: u64) -> Seq<u8> {
        <(u32, u32) as Packet>::wire(((value % 0x1_0000_0000) as u32, (value / 0x1_0000_0000) as u32))
    }

    open spec fn parse(bytes: Seq<u8>) -> Result<(u64, nat), DecodeError> {
        match <(u32, u32) as Packet>::parse(bytes) {
            Ok((halves, read)) => Ok(((halves.0 + halves.1 * 0x1_0000_0000) as u64, read)),
            Err(error) => Err(error),
        }
    }

    fn encode(&self, buffer: &mut Vec<u8>) {
        ((*self % 0x1_0000_0000) as u32, (*self / 0x1_0000_0000) as u32).encode(buffer);
    }

    fn decode(bytes: &[u8]) -> (result: Result<(u64, usize), DecodeError>) {
        match <(u32, u32) as Packet>::decode(bytes) {
            Ok(((low, high), read)) => Ok((low as u64 + high as u64 * 0x1_0000_0000, read)),
            Err(error) => Err(error),
        }
    }

    proof fn lemma_parse_bounds(bytes: Seq<u8>) {
        <(u32, u32) as Packet>::lemma_parse_bounds(bytes);
    }

    proof fn lemma_round_trip(value: u64, rest: Seq<u8>) {
        <(u32, u32) as Packet>::lemma_round_trip(
            ((value % 0x1_0000_0000) as u32, (value / 0x1_0000_0000) as u32),
            rest,
        );
    }

    proof fn lemma_truncated(value: u64, cut: int) {
        <(u32, u32) as Packet>::lemma_truncated(
            ((value % 0x1_0000_0000) as u32, (value / 0x1_0000_0000) as u32),
            cut,
        );
    }
}

/// An optional value: a marker byte, one for present and zero for absent,
/// and behind a one the value.
impl<T: Packet> Packet for Option<T> {
    type Model = Option<T::Model>;

    open spec fn model(&self) -> Option<T::Model> {
        match self {
            Some(inner) => Some(inner.model()),
            None => None,
        }
    }

    open spec fn encodable(value: Option<T::Model>) -> bool {
        match value {
            Some(inner) => T::encodable(inner),
            None => true,
        }
    }

    open spec fn wire(value: Option<T::Model>) -> Seq<u8> {
        match value {
            Some(inner) => seq![1u8] + T::wire(inner),
            None => seq![0u8],
        }
    }

    open spec fn parse(bytes: Seq<u8>) -> Result<(Option<T::Model>, nat), DecodeError> {
        if bytes.len() < 1 {
            Err(DecodeError::UnexpectedEndOfInput)
        } else if bytes[0] == 0 {
            Ok((None, 1))
        } else if bytes[0] == 1 {
            match T::parse(bytes.skip(1)) {
                Ok((inner, read)) => Ok((Some(inner), 1 + read)),
                Err(error) => Err(error),
            }
        } else {
            Err(DecodeError::UnknownDiscriminant(bytes[0] as u32))
        }
    }

    fn encode(&self, buffer: &mut Vec<u8>) {
        match self {
            Some(inner) => {
                buffer.push(1);
                inner.encode(buffer);
            },
            None => {
                buffer.push(0);
            },
        }
        assert(buffer@ =~= old(buffer)@ + Self::wire(self.model()));
    }

    fn decode(bytes: &[u8]) -> (result: Result<(Option<T>, usize), DecodeError>) {
        if bytes.len() < 1 {
            Err(DecodeError::UnexpectedEndOfInput)
        } else if bytes[0] == 0 {
            Ok((None, 1))
        } else if bytes[0] == 1 {
            let rest = slice_subrange(bytes, 1, bytes.len());
            assert(rest@ =~= bytes@.skip(1));
            match T::decode(rest) {
                Ok((inner, read)) => Ok((Some(inner), 1 + read)),
                Err(error) => Err(error),
            }
        } else {
            Err(DecodeError::UnknownDiscriminant(bytes[0] as u32))
        }
    }

    proof fn lemma_parse_bounds(bytes: Seq<u8>) {
        if bytes.len() >= 1 {
            T::lemma_parse_bounds(bytes.skip(1));
        }
    }

    proof fn lemma_round_trip(value: Option<T::Model>, rest: Seq<u8>) {
        if let Some(inner) = value {
            T::lemma_round_trip(inner, rest);
            assert((Self::wire(value) + rest).skip(1) =~= T::wire(inner) + rest);
        }
    }

    proof fn lemma_truncated(value: Option<T::Model>, cut: int) {
        if let Some(inner) = value {
            if cut >= 1 {
                T::lemma_truncated(inner, cut - 1);
                assert(Self::wire(value).take(cut).skip(1) =~= T::wire(inner).take(cut - 1));
            }
        }
    }
}

/// The bytes of some items, one behind the other.
pub open spec fn wire_items<T: Packet>(items: Seq<T::Model>) -> Seq<u8>
    decreases items.len(),
{
    if items.len() == 0 {
        Seq::empty()
    } else {
        wire_items::<T>(items.drop_last()) + T::wire(items.last())
    }
}

/// The `count` items at the start of `bytes` and the number of bytes they
/// take, or the reason why the first item that cannot be read cannot be
/// read.
pub open spec fn parse_items<T: Packet>(bytes: Seq<u8>, count: nat) -> Result<
    (Seq<T::Model>, nat),
    DecodeError,
>
    decreases count,
{
    if count == 0 {
        Ok((Seq::empty(), 0))
    } else {
        match parse_items::<T>(bytes, (count - 1) as nat) {
            Ok((items, read)) => match T::parse(bytes.skip(read as int)) {
                Ok((item, more)) => Ok((items.push(item), read + more)),
                Err(error) => Err(error),
            },
            Err(error) => Err(error),
        }
    }
}

/// Every item can be encoded.
pub open spec fn items_encodable<T: Packet>(items: Seq<T::Model>) -> bool {
    forall|i: int| 0 <= i < items.len() ==> T::encodable(#[trigger] items[i])
}

/// Items that are read stay within the input, are as many as were asked
/// for, and can be encoded again.
pub proof fn lemma_items_bounds<T: Packet>(bytes: Seq<u8>, count: nat)
    ensures
        parse_items::<T>(bytes, count) matches Ok((items, read)) ==> read <= bytes.len()
            && items.len() == count && items_encodable::<T>(items),
    decreases count,
{
    if count > 0 {
        lemma_items_bounds::<T>(bytes, (count - 1) as nat);
        if let Ok((_, read)) = parse_items::<T>(bytes, (count - 1) as nat) {
            T::lemma_parse_bounds(bytes.skip(read as int));
        }
    }
}

/// Once an item cannot be read, no larger number of items can.
pub proof fn lemma_items_fail<T: Packet>(bytes: Seq<u8>, fewer: nat, count: nat)
    requires
        fewer <= count,
        parse_items::<T>(bytes, fewer) is Err,
    ensures
        parse_items::<T>(bytes, count) == parse_items::<T>(bytes, fewer),
    decreases count,
{
    if fewer < count {
        lemma_items_fail::<T>(bytes, fewer, (count - 1) as nat);
    }
}

/// Decoding undoes the encoding of items, whatever follows them.
pub proof fn lemma_items_round_trip<T: Packet>(items: Seq<T::Model>, rest: Seq<u8>)
    requires
        items_encodable::<T>(items),
    ensures
        parse_items::<T>(wire_items::<T>(items) + rest, items.len()) == Ok::<
            (Seq<T::Model>, nat),
            DecodeError,
        >((items, wire_items::<T>(items).len())),
    decreases items.len(),
{
    if items.len() == 0 {
        assert(items =~= Seq::empty());
    } else {
        let init = items.drop_last();
        let last = items.last();
        let head = wire_items::<T>(init);
        let all = wire_items::<T>(items) + rest;
        assert(all =~= head + (T::wire(last) + rest));
        assert forall|i: int| 0 <= i < init.len() implies T::encodable(#[trigger] init[i]) by {
            assert(init[i] == items[i]);
        }
        assert(T::encodable(items[items.len() - 1]));
        lemma_items_round_trip::<T>(init, T::wire(last) + rest);
        T::lemma_round_trip(last, rest);
        assert(all.skip(head.len() as int) =~= T::wire(last) + rest);
        assert(init.push(last) =~= items);
        assert(parse_items::<T>(all, init.len()) == Ok::<(Seq<T::Model>, nat), DecodeError>(
            (init, head.len()),
        ));
    }
}

/// Items whose encoding was cut short decode to nothing but the report
/// that the input ended too early.
pub proof fn lemma_items_truncated<T: Packet>(items: Seq<T::Model>, cut: int)
    requires
        items_encodable::<T>(items),
        0 <= cut < wire_items::<T>(items).len(),
    ensures
        parse_items::<T>(wire_items::<T>(items).take(cut), items.len()) == Err::<
            (Seq<T::Model>, nat),
            DecodeError,
        >(DecodeError::UnexpectedEndOfInput),
    decreases items.len(),
{
    if items.len() > 0 {
        let init = items.drop_last();
        let last = items.last();
        let head = wire_items::<T>(init);
        let kept = wire_items::<T>(items).take(cut);
        assert forall|i: int| 0 <= i < init.len() implies T::encodable(#[trigger] init[i]) by {
            assert(init[i] == items[i]);
        }
        assert(T::encodable(items[items.len() - 1]));
        if cut < head.len() {
            assert(kept =~= head.take(cut));
            lemma_items_truncated::<T>(init, cut);
        } else {
            let tail = T::wire(last).take(cut - head.len());
            assert(kept =~= head + tail);
            lemma_items_round_trip::<T>(init, tail);
            T::lemma_truncated(last, cut - head.len());
            assert(kept.skip(head.len() as int) =~= tail);
        }
    }
}

/// A sequence: the number of its items in one byte, then the items.
impl<T: Packet> Packet for Vec<T> {
    type Model = Seq<T::Model>;

    open spec fn model(&self) -> Seq<T::Model> {
        self@.map_values(|item: T| item.model())
    }

    open spec fn encodable(value: Seq<T::Model>) -> bool {
        value.len() <= 255 && items_encodable::<T>(value)
    }

    open spec fn wire(value: Seq<T::Model>) -> Seq<u8> {
        seq![value.len() as u8] + wire_items::<T>(value)
    }

    open spec fn parse(bytes: Seq<u8>) -> Result<(Seq<T::Model>, nat), DecodeError> {
        if bytes.len() < 1 {
            Err(DecodeError::UnexpectedEndOfInput)
        } else {
            match parse_items::<T>(bytes.skip(1), bytes[0] as nat) {
                Ok((items, read)) => Ok((items, 1 + read)),
                Err(error) => Err(error),
            }
        }
    }

    fn encode(&self, buffer: &mut Vec<u8>) {
        let ghost start = buffer@;
        let ghost all = self.model();
        buffer.push(self.len() as u8);
        let mut i: usize = 0;
        assert(all.take(0) =~= Seq::empty());
        assert(buffer@ =~= start + seq![all.len() as u8] + wire_items::<T>(all.take(0)));
        while i < self.len()
            invariant
                i <= self.len(),
                all == self.model(),
                all.len() <= 255,
                items_encodable::<T>(all),
                buffer@ == start + seq![all.len() as u8] + wire_items::<T>(all.take(i as int)),
            decreases self.len() - i,
        {
            proof {
                assert(all.take(i + 1).drop_last() =~= all.take(i as int));
                assert(all.take(i + 1).last() == all[i as int]);
                assert(all[i as int] == self@[i as int].model());
            }
            self[i].encode(buffer);
            assert(buffer@ =~= start + seq![all.len() as u8] + wire_items::<T>(all.take(i + 1)));
            i += 1;
        }
        assert(all.take(i as int) =~= all);
        assert(buffer@ =~= start + Self::wire(all));
    }

    fn decode(bytes: &[u8]) -> (result: Result<(Vec<T>, usize), DecodeError>) {
        if bytes.len() < 1 {
            return Err(DecodeError::UnexpectedEndOfInput);
        }
        let count = bytes[0] as usize;
        let body = slice_subrange(bytes, 1, bytes.len());
        assert(body@ =~= bytes@.skip(1));
        let mut items: Vec<T> = Vec::new();
        let mut read: usize = 0;
        let mut i: usize = 0;
        assert(items.model() =~= Seq::empty());
        while i < count
            invariant
                i <= count,
                count == bytes@[0],
                bytes@.len() >= 1,
                body@ == bytes@.skip(1),
                read <= body@.len(),
                parse_items::<T>(body@, i as nat) == Ok::<(Seq<T::Model>, nat), DecodeError>(
                    (items.model(), read as nat),
                ),
            decreases count - i,
        {
            let rest = slice_subrange(body, read, body.len());
            assert(rest@ =~= body@.skip(read as int));
            let ghost before = items.model();
            match T::decode(rest) {
                Ok((item, more)) => {
                    items.push(item);
                    read = read + more;
                    assert(items.model() =~= before.push(item.model()));
                },
                Err(error) => {
                    proof {
                        lemma_items_fail::<T>(body@, (i + 1) as nat, count as nat);
                    }
                    return Err(error);
                },
            }
            i += 1;
        }
        Ok((items, 1 + read))
    }

    proof fn lemma_parse_bounds(bytes: Seq<u8>) {
        if bytes.len() >= 1 {
            lemma_items_bounds::<T>(bytes.skip(1), bytes[0] as nat);
        }
    }

    proof fn lemma_round_trip(value: Seq<T::Model>, rest: Seq<u8>) {
        lemma_items_round_trip::<T>(value, rest);
        assert((Self::wire(value) + rest).skip(1) =~= wire_items::<T>(value) + rest);
    }

    proof fn lemma_truncated(value: Seq<T::Model>, cut: int) {
        if cut >= 1 {
            lemma_items_truncated::<T>(value, cut - 1);
            assert(Self::wire(value).take(cut).skip(1) =~= wire_items::<T>(value).take(cut - 1));
        }
    }
}

} // verus!
