//! The declarative description of packets that the generator reads.

use crate::seqs::views;
use vstd::prelude::*;

verus! {

/// One field of a packet, a helper struct or an enum variant.
///
/// `data_type` names a primitive or another definition, or is one of
/// `Vec`, `Option`, `DateTime` and `raw`; for the first two `inner` names
/// what the container holds. A field with a `value` always carries that
/// literal and is no argument of the generated constructor.
#[derive(Clone, Debug, PartialEq, Eq)]
pub struct PacketAttribute {
    pub name: String,
    pub data_type: String,
    pub inner: Option<String>,
    pub value: Option<String>,
}

/// The mathematical content of a [`PacketAttribute`].
pub struct PacketAttributeView {
    pub name: Seq<char>,
    pub data_type: Seq<char>,
    pub inner: Option<Seq<char>>,
    pub value: Option<Seq<char>>,
}

impl View for PacketAttribute {
    type V = PacketAttributeView;

    open spec fn view(&self) -> PacketAttributeView {
        PacketAttributeView {
            name: self.name@,
            data_type: self.data_type@,
            inner: match self.inner {
                Some(inner) => Some(inner@),
                None => None,
            },
            value: match self.value {
                Some(value) => Some(value@),
                None => None,
            },
        }
    }
}

/// One variant of a tagged union.
#[derive(Clone, Debug, PartialEq, Eq)]
pub struct EnumValue {
    pub name: String,
    pub attributes: Vec<PacketAttribute>,
}

/// The mathematical content of an [`EnumValue`].
pub struct EnumValueView {
    pub name: Seq<char>,
    pub attributes: Seq<PacketAttributeView>,
}

impl View for EnumValue {
    type V = EnumValueView;

    open spec fn view(&self) -> EnumValueView {
        EnumValueView { name: self.name@, attributes: views(self.attributes@) }
    }
}

/// A tagged union.
#[derive(Clone, Debug, PartialEq, Eq)]
pub struct EnumDef {
    pub name: String,
    pub values: Vec<EnumValue>,
}

/// The mathematical content of an [`EnumDef`].
pub struct EnumDefView {
    pub name: Seq<char>,
    pub values: Seq<EnumValueView>,
}

impl View for EnumDef {
    type V = EnumDefView;

    open spec fn view(&self) -> EnumDefView {
        EnumDefView { name: self.name@, values: views(self.values@) }
    }
}

/// A struct that packets use as a field type.
#[derive(Clone, Debug, PartialEq, Eq)]
pub struct StructDef {
    pub name: String,
    pub attributes: Vec<PacketAttribute>,
}

/// The mathematical content of a [`StructDef`].
pub struct StructDefView {
    pub name: Seq<char>,
    pub attributes: Seq<PacketAttributeView>,
}

impl View for StructDef {
    type V = StructDefView;

    open spec fn view(&self) -> StructDefView {
        StructDefView { name: self.name@, attributes: views(self.attributes@) }
    }
}

/// Which side sends a packet.
#[derive(Clone, Copy, Debug, PartialEq, Eq, Structural)]
pub enum PacketSource {
    Client,
    Server,
    Both,
}

impl PacketSource {
    /// The server has to decode what a client can send.
    pub fn should_generate_from_client(&self) -> (yes: bool)
        ensures
            yes == (*self is Client || *self is Both),
    {
        match self {
            PacketSource::Client | PacketSource::Both => true,
            PacketSource::Server => false,
        }
    }

    /// The server has to encode what it can send.
    pub fn should_generate_from_server(&self) -> (yes: bool)
        ensures
            yes == (*self is Server || *self is Both),
    {
        match self {
            PacketSource::Server | PacketSource::Both => true,
            PacketSource::Client => false,
        }
    }
}

/// A packet.
#[derive(Clone, Debug, PartialEq, Eq)]
pub struct PacketDefinition {
    pub name: String,
    pub source: PacketSource,
    pub attributes: Vec<PacketAttribute>,
}

/// The mathematical content of a [`PacketDefinition`].
pub struct PacketDefinitionView {
    pub name: Seq<char>,
    pub source: PacketSource,
    pub attributes: Seq<PacketAttributeView>,
}

impl View for PacketDefinition {
    type V = PacketDefinitionView;

    open spec fn view(&self) -> PacketDefinitionView {
        PacketDefinitionView {
            name: self.name@,
            source: self.source,
            attributes: views(self.attributes@),
        }
    }
}

/// Names that the generated code uses for its own variables.
#[derive(Clone, Debug, PartialEq, Eq)]
pub struct Context {
    pub reader_name: String,
}

} // verus!
