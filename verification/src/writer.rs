//! The generator of encoding code: the body of the function that appends
//! a packet to a buffer, field by field in declared order.

use crate::definition::{PacketAttributeView, PacketDefinition};
use crate::scope::{function_line, function_model, FunctionModel};
use codegen::Function;
use vstd::prelude::*;
use vstd::string::StringExecFns;

verus! {

/// The name of the buffer variable in generated encoders.
pub const BUFFER_VAR_NAME: &'static str = "data_writer";

/// The expression that stands for an attribute in an encoder: its fixed
/// value where it has one, else the field of the value being encoded.
pub open spec fn written_of(owner: Seq<char>) -> spec_fn(PacketAttributeView) -> Seq<char> {
    |attr: PacketAttributeView|
        match attr.value {
            Some(value) => value,
            None => owner + attr.name,
        }
}

/// The statement that writes one attribute to the buffer.
pub open spec fn write_line_of(owner: Seq<char>) -> spec_fn(PacketAttributeView) -> Seq<char> {
    |attr: PacketAttributeView| BUFFER_VAR_NAME@ + ".write(&"@ + written_of(owner)(attr) + ");"@
}

/// What stands before a field's name: the variable that holds the value
/// being encoded and a dot, or nothing where the fields are variables
/// themselves.
pub open spec fn owner_prefix(owner: Option<Seq<char>>) -> Seq<char> {
    match owner {
        Some(name) => name + "."@,
        None => Seq::empty(),
    }
}

/// The lines that encode a packet: one write for each attribute, in
/// declared order.
pub open spec fn writer_lines(attrs: Seq<PacketAttributeView>, owner: Option<Seq<char>>) -> Seq<
    Seq<char>,
> {
    attrs.map_values(write_line_of(owner_prefix(owner)))
}

/// Appends to `convert_fn` the lines that encode `packet`, the fields of
/// which are read from the variable `owner`.
pub fn generate_writer_for_struct(
    packet: &PacketDefinition,
    convert_fn: &mut Function,
    owner: Option<&str>,
)
    ensures
        function_model(*final(convert_fn)) == (FunctionModel {
            lines: function_model(*old(convert_fn)).lines + writer_lines(
                packet@.attributes,
                match owner {
                    Some(name) => Some(name@),
                    None => None,
                },
            ),
            ..function_model(*old(convert_fn))
        }),
{
    let ghost attrs = packet@.attributes;
    let ghost start = function_model(*convert_fn);
    let mut prefix = String::new();
    match owner {
        Some(name) => {
            prefix.append(name);
            prefix.append(".");
        },
        None => {},
    }
    let ghost from = prefix@;
    assert(from =~= owner_prefix(
        match owner {
            Some(name) => Some(name@),
            None => None,
        },
    ));
    let mut i: usize = 0;
    proof {
        assert(attrs.take(0) =~= Seq::empty());
        assert(start.lines + attrs.take(0).map_values(write_line_of(from)) =~= start.lines);
    }
    while i < packet.attributes.len()
        invariant
            i <= packet.attributes.len(),
            attrs == packet@.attributes,
            from == prefix@,
            function_model(*convert_fn) == (FunctionModel {
                lines: start.lines + attrs.take(i as int).map_values(write_line_of(from)),
                ..start
            }),
        decreases packet.attributes.len() - i,
    {
        let attr = &packet.attributes[i];
        proof {
            assert(attrs[i as int] == attr@);
            attrs.lemma_map_take_succ(write_line_of(from), i as int);
        }
        let mut line = String::from_str(BUFFER_VAR_NAME);
        line.append(".write(&");
        match &attr.value {
            Some(value) => {
                line.append(value.as_str());
            },
            None => {
                let mut field = prefix.clone();
                field.append(attr.name.as_str());
                line.append(field.as_str());
            },
        }
        line.append(");");
        function_line(convert_fn, line.as_str());
        assert(function_model(*convert_fn).lines =~= start.lines + attrs.take(i + 1).map_values(
            write_line_of(from),
        ));
        i += 1;
    }
    assert(attrs.take(i as int) =~= attrs);
}

} // verus!
