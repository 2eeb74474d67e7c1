//! The generator of decoding code: the body of the function that reads a
//! packet from bytes, field by field in declared order.

use crate::definition::{Context, PacketAttributeView, PacketDefinition, PacketDefinitionView};
use crate::scope::{function_line, function_model, FunctionModel};
use crate::structure::{attributes_complete, full_type, get_full_attribute_type};
use codegen::Function;
use vstd::prelude::*;
use vstd::string::StringExecFns;

verus! {

/// The statement that reads one attribute from the reader variable.
pub open spec fn read_line_of(reader: Seq<char>) -> spec_fn(PacketAttributeView) -> Seq<char> {
    |attr: PacketAttributeView|
        "let "@ + attr.name + " = "@ + reader + ".read::<"@ + full_type(attr) + ">()?;"@
}

/// An attribute in a struct literal that takes every field from a
/// variable of the field's name.
pub open spec fn shorthand_of() -> spec_fn(PacketAttributeView) -> Seq<char> {
    |attr: PacketAttributeView| attr.name + ", "@
}

/// The struct literal that gathers what was read.
pub open spec fn gathered(packet: PacketDefinitionView) -> Seq<char> {
    packet.name + " { "@ + packet.attributes.flat_map(shorthand_of()) + " }"@
}

/// The lines that decode a packet: one read for each attribute, in
/// declared order, then the packet itself between `before` and `after`.
pub open spec fn reader_lines(
    packet: PacketDefinitionView,
    reader: Seq<char>,
    before: Seq<char>,
    after: Seq<char>,
) -> Seq<Seq<char>> {
    packet.attributes.map_values(read_line_of(reader)).push(before + gathered(packet) + after)
}

/// Appends to `convert_fn` the lines that decode `packet`.
pub fn generate_reader_for_struct(
    packet: &PacketDefinition,
    context: &Context,
    convert_fn: &mut Function,
    before: &str,
    after: &str,
)
    requires
        attributes_complete(packet@.attributes),
    ensures
        function_model(*final(convert_fn)) == (FunctionModel {
            lines: function_model(*old(convert_fn)).lines + reader_lines(
                packet@,
                context.reader_name@,
                before@,
                after@,
            ),
            ..function_model(*old(convert_fn))
        }),
{
    let ghost attrs = packet@.attributes;
    let ghost start = function_model(*convert_fn);
    let ghost reader = context.reader_name@;
    let mut fields = String::new();
    let mut i: usize = 0;
    proof {
        assert(attrs.take(0) =~= Seq::empty());
        assert(start.lines + attrs.take(0).map_values(read_line_of(reader)) =~= start.lines);
        assert(attrs.take(0).flat_map(shorthand_of()) =~= Seq::<char>::empty());
    }
    while i < packet.attributes.len()
        invariant
            i <= packet.attributes.len(),
            attrs == packet@.attributes,
            attributes_complete(attrs),
            reader == context.reader_name@,
            fields@ == attrs.take(i as int).flat_map(shorthand_of()),
            function_model(*convert_fn) == (FunctionModel {
                lines: start.lines + attrs.take(i as int).map_values(read_line_of(reader)),
                ..start
            }),
        decreases packet.attributes.len() - i,
    {
        let attr = &packet.attributes[i];
        proof {
            assert(attrs[i as int] == attr@);
            attrs.lemma_map_take_succ(read_line_of(reader), i as int);
            attrs.lemma_flat_map_take_append(shorthand_of(), i as int);
        }
        let ty = get_full_attribute_type(attr);
        let mut line = String::from_str("let ");
        line.append(attr.name.as_str());
        line.append(" = ");
        line.append(context.reader_name.as_str());
        line.append(".read::<");
        line.append(ty.as_str());
        line.append(">()?;");
        function_line(convert_fn, line.as_str());
        fields.append(attr.name.as_str());
        fields.append(", ");
        assert(function_model(*convert_fn).lines =~= start.lines + attrs.take(i + 1).map_values(
            read_line_of(reader),
        ));
        assert(fields@ =~= attrs.take(i + 1).flat_map(shorthand_of()));
        i += 1;
    }
    assert(attrs.take(i as int) =~= attrs);
    let mut last = String::from_str(before);
    last.append(packet.name.as_str());
    last.append(" { ");
    last.append(fields.as_str());
    last.append(" }");
    last.append(after);
    assert(last@ =~= before@ + gathered(packet@) + after@);
    function_line(convert_fn, last.as_str());
    assert(function_model(*convert_fn).lines =~= start.lines + reader_lines(
        packet@,
        reader,
        before@,
        after@,
    ));
}

} // verus!
