//! The generator of type definitions: what it adds to a scope for an
//! enum, a helper struct or a packet of the schema.

use crate::definition::{
    Context, EnumDef, EnumDefView, EnumValue, EnumValueView, PacketAttribute,
    PacketAttributeView, PacketDefinition, PacketDefinitionView, StructDef, StructDefView,
};
use crate::reader::{generate_reader_for_struct, reader_lines};
use crate::scope::{
    enum_derive, enum_model, enum_new, enum_push_variant, enum_vis, function_arg, function_line,
    function_model, function_new, function_ret, function_vis, impl_associate_type, impl_model,
    impl_new, impl_push_fn, impl_trait,
    scope_items, scope_push_enum, scope_push_impl, scope_push_struct, struct_derive, struct_field,
    struct_model, struct_new, struct_vis, variant_model, variant_named, variant_new, EnumModel,
    FunctionModel, ImplModel, ItemModel, StructModel, TypedName, VariantModel,
};
use crate::seqs::views;
use crate::text::{lowercase, str_eq, to_lowercase};
use crate::writer::{generate_writer_for_struct, writer_lines, BUFFER_VAR_NAME};
use codegen::{Function, Scope, Struct};
use vstd::prelude::*;
use vstd::string::StringExecFns;

verus! {

/// A container type says what it contains.
pub open spec fn attribute_complete(attr: PacketAttributeView) -> bool {
    attr.data_type == "Vec"@ || attr.data_type == "Option"@ ==> attr.inner is Some
}

/// Every attribute of a list is complete.
pub open spec fn attributes_complete(attrs: Seq<PacketAttributeView>) -> bool {
    forall|i: int| 0 <= i < attrs.len() ==> attribute_complete(#[trigger] attrs[i])
}

/// The type of an attribute as it is written in the generated source.
pub open spec fn full_type(attr: PacketAttributeView) -> Seq<char> {
    if attr.data_type == "Vec"@ || attr.data_type == "Option"@ {
        attr.data_type + "<"@ + attr.inner.unwrap() + ">"@
    } else if attr.data_type == "DateTime"@ {
        "DateTime<Utc>"@
    } else if attr.data_type == "raw"@ {
        "Bytes"@
    } else {
        attr.data_type
    }
}

/// What an attribute contributes to a struct literal: its own name where
/// the constructor takes it as an argument, else its name with its fixed
/// value.
pub open spec fn assignment_of(attr: PacketAttributeView) -> Seq<char> {
    match attr.value {
        Some(value) => attr.name + ": "@ + value + ", "@,
        None => attr.name + ", "@,
    }
}

/// [`assignment_of`] as a function value.
pub open spec fn assignment_fn() -> spec_fn(PacketAttributeView) -> Seq<char> {
    |attr: PacketAttributeView| assignment_of(attr)
}

/// The inside of the struct literal that a constructor returns.
pub open spec fn assignments(attrs: Seq<PacketAttributeView>) -> Seq<char> {
    attrs.flat_map(assignment_fn())
}

/// The test for attributes without a fixed value.
pub open spec fn takes_argument() -> spec_fn(PacketAttributeView) -> bool {
    |attr: PacketAttributeView| attr.value is None
}

/// An attribute as an argument or a field: its name with its full type.
pub open spec fn typed_name_of() -> spec_fn(PacketAttributeView) -> TypedName {
    |attr: PacketAttributeView| TypedName { name: attr.name, ty: full_type(attr) }
}

/// An attribute as a public field.
pub open spec fn public_field_of() -> spec_fn(PacketAttributeView) -> TypedName {
    |attr: PacketAttributeView| TypedName { name: "pub "@ + attr.name, ty: full_type(attr) }
}

/// The arguments of a constructor: the attributes without a fixed value,
/// in their order.
pub open spec fn constructor_args(attrs: Seq<PacketAttributeView>) -> Seq<TypedName> {
    attrs.filter(takes_argument()).map_values(typed_name_of())
}

/// The constructor `new` of the type `name`.
pub open spec fn new_function(name: Seq<char>, attrs: Seq<PacketAttributeView>) -> FunctionModel {
    FunctionModel {
        name: "new"@,
        vis: Some("pub"@),
        ret: Some("Self"@),
        args: constructor_args(attrs),
        lines: seq![name + " { "@ + assignments(attrs) + " }"@],
    }
}

/// The `impl` block that holds the constructor `new` of the type `name`.
pub open spec fn new_impl(name: Seq<char>, attrs: Seq<PacketAttributeView>) -> ImplModel {
    ImplModel {
        target: name,
        impl_trait: None,
        assoc_tys: Seq::empty(),
        fns: seq![new_function(name, attrs)],
    }
}

/// The definition of a struct with the given attributes as public fields.
pub open spec fn struct_of(name: Seq<char>, attrs: Seq<PacketAttributeView>) -> StructModel {
    StructModel {
        name,
        vis: Some("pub"@),
        derives: seq!["Clone"@],
        named: attrs.map_values(public_field_of()),
        tuple: Seq::empty(),
    }
}

/// What a helper struct adds to a scope: its definition and its
/// constructor.
pub open spec fn helper_struct_items(def: StructDefView) -> Seq<ItemModel> {
    seq![
        ItemModel::Struct(struct_of(def.name, def.attributes)),
        ItemModel::Impl(new_impl(def.name, def.attributes)),
    ]
}

/// The full type of an attribute.
pub fn get_full_attribute_type(attr: &PacketAttribute) -> (ty: String)
    requires
        attribute_complete(attr@),
    ensures
        ty@ == full_type(attr@),
{
    let data_type = attr.data_type.as_str();
    if str_eq(data_type, "Vec") || str_eq(data_type, "Option") {
        let inner = attr.inner.as_ref().expect("Missing inner type for vec in struct");
        let mut ty = String::from_str(data_type);
        ty.append("<");
        ty.append(inner.as_str());
        ty.append(">");
        ty
    } else if str_eq(data_type, "DateTime") {
        String::from_str("DateTime<Utc>")
    } else if str_eq(data_type, "raw") {
        String::from_str("Bytes")
    } else {
        String::from_str(data_type)
    }
}

/// Gives `create_fn` one argument for each attribute without a fixed
/// value, and returns the inside of the struct literal that the function
/// is to return.
fn generate_new_args(attributes: &Vec<PacketAttribute>, create_fn: &mut Function) -> (assignment:
    String)
    requires
        attributes_complete(views(attributes@)),
    ensures
        assignment@ == assignments(views(attributes@)),
        function_model(*final(create_fn)) == (FunctionModel {
            args: function_model(*old(create_fn)).args + constructor_args(views(attributes@)),
            ..function_model(*old(create_fn))
        }),
{
    let ghost attrs = views(attributes@);
    let ghost before = function_model(*create_fn);
    let mut assignment_string = String::new();
    let mut i: usize = 0;
    proof {
        assert(attrs.take(0) =~= Seq::empty());
        assert(assignments(attrs.take(0)) =~= Seq::<char>::empty());
        assert(before.args + constructor_args(attrs.take(0)) =~= before.args);
    }
    while i < attributes.len()
        invariant
            i <= attributes.len(),
            attrs == views(attributes@),
            attributes_complete(attrs),
            assignment_string@ == assignments(attrs.take(i as int)),
            function_model(*create_fn) == (FunctionModel {
                args: before.args + constructor_args(attrs.take(i as int)),
                ..before
            }),
        decreases attributes.len() - i,
    {
        let attr = &attributes[i];
        proof {
            assert(attrs[i as int] == attr@);
            attrs.lemma_flat_map_take_append(assignment_fn(), i as int);
            attrs.lemma_take_succ_push(i as int);
            attrs.take(i as int).lemma_filter_push(attr@, takes_argument());
            attrs.take(i as int).filter(takes_argument()).lemma_push_map_commute(
                typed_name_of(),
                attr@,
            );
        }
        match &attr.value {
            Some(value) => {
                assignment_string.append(attr.name.as_str());
                assignment_string.append(": ");
                assignment_string.append(value.as_str());
                assignment_string.append(", ");
            },
            None => {
                let ty = get_full_attribute_type(attr);
                function_arg(create_fn, attr.name.as_str(), ty.as_str());
                assignment_string.append(attr.name.as_str());
                assignment_string.append(", ");
            },
        }
        assert(assignment_string@ =~= assignments(attrs.take(i + 1)));
        assert(function_model(*create_fn).args =~= before.args + constructor_args(
            attrs.take(i + 1),
        ));
        i += 1;
    }
    assert(attrs.take(i as int) =~= attrs);
    assignment_string
}

/// Adds an attribute to a struct definition as a public field.
fn generate_attribute(attr: &PacketAttribute, struc: &mut Struct)
    requires
        attribute_complete(attr@),
        struct_model(*old(struc)).tuple.len() == 0,
    ensures
        struct_model(*final(struc)) == (StructModel {
            named: struct_model(*old(struc)).named.push(public_field_of()(attr@)),
            ..struct_model(*old(struc))
        }),
{
    let mut name = String::from_str("pub ");
    name.append(attr.name.as_str());
    let typ = get_full_attribute_type(attr);
    struct_field(struc, name.as_str(), typ.as_str());
}

/// Adds the `impl` block with the constructor `new` of the type `name`.
fn create_new_for(name: &str, attributes: &Vec<PacketAttribute>, scope: &mut Scope)
    requires
        attributes_complete(views(attributes@)),
    ensures
        scope_items(*final(scope)) == scope_items(*old(scope)).push(
            ItemModel::Impl(new_impl(name@, views(attributes@))),
        ),
{
    let mut block = impl_new(name);
    let mut new_fn = function_new("new");
    function_ret(&mut new_fn, "Self");
    function_vis(&mut new_fn, "pub");
    let assignment_string = generate_new_args(attributes, &mut new_fn);
    let mut line = String::from_str(name);
    line.append(" { ");
    line.append(assignment_string.as_str());
    line.append(" }");
    function_line(&mut new_fn, line.as_str());
    assert(function_model(new_fn).args =~= constructor_args(views(attributes@)));
    assert(function_model(new_fn).lines =~= new_function(name@, views(attributes@)).lines);
    impl_push_fn(&mut block, new_fn);
    assert(impl_model(block).fns =~= new_impl(name@, views(attributes@)).fns);
    scope_push_impl(scope, block);
}

/// Builds the definition of the struct `name` with the given attributes
/// as public fields.
fn struct_with_fields(name: &str, attributes: &Vec<PacketAttribute>) -> (definition: Struct)
    requires
        attributes_complete(views(attributes@)),
    ensures
        struct_model(definition) == struct_of(name@, views(attributes@)),
{
    let ghost attrs = views(attributes@);
    let mut definition = struct_new(name);
    struct_vis(&mut definition, "pub");
    struct_derive(&mut definition, "Clone");
    let mut i: usize = 0;
    proof {
        assert(attrs.take(0) =~= Seq::empty());
        assert(struct_model(definition).named =~= attrs.take(0).map_values(public_field_of()));
        assert(struct_model(definition).derives =~= seq!["Clone"@]);
    }
    while i < attributes.len()
        invariant
            i <= attributes.len(),
            attrs == views(attributes@),
            attributes_complete(attrs),
            struct_model(definition) == struct_of(name@, attrs.take(i as int)),
        decreases attributes.len() - i,
    {
        proof {
            assert(attrs[i as int] == attributes@[i as int]@);
            attrs.lemma_map_take_succ(public_field_of(), i as int);
        }
        generate_attribute(&attributes[i], &mut definition);
        i += 1;
    }
    assert(attrs.take(i as int) =~= attrs);
    definition
}

/// Adds a helper struct to the scope: its definition, with every
/// attribute as a public field, and its constructor.
pub fn generate_helper_struct(struct_def: &StructDef, scope: &mut Scope)
    requires
        attributes_complete(struct_def@.attributes),
    ensures
        scope_items(*final(scope)) == scope_items(*old(scope)) + helper_struct_items(struct_def@),
{
    let helper_struct = struct_with_fields(struct_def.name.as_str(), &struct_def.attributes);
    scope_push_struct(scope, helper_struct);
    create_new_for(struct_def.name.as_str(), &struct_def.attributes, scope);
    assert(scope_items(*scope) =~= scope_items(*old(scope)) + helper_struct_items(struct_def@));
}


/// No variant of the enum carries a field.
pub open spec fn plain(def: EnumDefView) -> bool {
    forall|i: int| 0 <= i < def.values.len() ==> (#[trigger] def.values[i]).attributes.len() == 0
}

/// Every attribute of every variant is complete.
pub open spec fn enum_complete(def: EnumDefView) -> bool {
    forall|i: int|
        0 <= i < def.values.len() ==> attributes_complete((#[trigger] def.values[i]).attributes)
}

/// The variant that an enum value becomes.
pub open spec fn variant_of() -> spec_fn(EnumValueView) -> VariantModel {
    |value: EnumValueView|
        VariantModel {
            name: value.name,
            named: value.attributes.map_values(typed_name_of()),
            tuple: Seq::empty(),
        }
}

/// What the enum derives: `Clone` always, comparison only where no
/// variant carries a field.
pub open spec fn enum_derives(def: EnumDefView) -> Seq<Seq<char>> {
    if plain(def) {
        seq!["Clone"@, "PartialEq"@, "PartialOrd"@]
    } else {
        seq!["Clone"@]
    }
}

/// The definition of the enum.
pub open spec fn enum_of(def: EnumDefView) -> EnumModel {
    EnumModel {
        name: def.name,
        vis: Some("pub"@),
        derives: enum_derives(def),
        variants: def.values.map_values(variant_of()),
    }
}

/// The test for variants that carry fields.
pub open spec fn has_fields() -> spec_fn(EnumValueView) -> bool {
    |value: EnumValueView| value.attributes.len() > 0
}

/// The constructor `name` of a variant: it takes the attributes without
/// a fixed value and returns the variant.
pub open spec fn constructor_named(
    enum_name: Seq<char>,
    name: Seq<char>,
    value: EnumValueView,
) -> FunctionModel {
    FunctionModel {
        name,
        vis: Some("pub"@),
        ret: Some("Self"@),
        args: constructor_args(value.attributes),
        lines: seq![
            enum_name + "::"@ + value.name + " { "@ + assignments(value.attributes) + " }"@,
        ],
    }
}

/// The constructor of a variant: the one that bears the variant's name
/// in lower case.
pub open spec fn constructor_of(enum_name: Seq<char>) -> spec_fn(EnumValueView) -> FunctionModel {
    |value: EnumValueView| constructor_named(enum_name, lowercase(value.name), value)
}

/// The `impl` block with one constructor for each variant that carries
/// fields.
pub open spec fn constructors_of(def: EnumDefView) -> ImplModel {
    ImplModel {
        target: def.name,
        impl_trait: None,
        assoc_tys: Seq::empty(),
        fns: def.values.filter(has_fields()).map_values(constructor_of(def.name)),
    }
}

/// What an enum adds to a scope: its definition and, where a variant
/// carries fields, the block of constructors.
pub open spec fn enum_items(def: EnumDefView) -> Seq<ItemModel> {
    if plain(def) {
        seq![ItemModel::Enum(enum_of(def))]
    } else {
        seq![ItemModel::Enum(enum_of(def)), ItemModel::Impl(constructors_of(def))]
    }
}

/// Whether no variant carries a field.
fn is_plain(enum_def: &EnumDef) -> (yes: bool)
    ensures
        yes == plain(enum_def@),
{
    let mut i: usize = 0;
    while i < enum_def.values.len()
        invariant
            i <= enum_def.values.len(),
            forall|k: int| 0 <= k < i ==> (#[trigger] enum_def@.values[k]).attributes.len() == 0,
        decreases enum_def.values.len() - i,
    {
        if enum_def.values[i].attributes.len() != 0 {
            assert(enum_def@.values[i as int].attributes.len() != 0);
            return false;
        }
        assert(enum_def@.values[i as int].attributes.len() == 0);
        i += 1;
    }
    true
}

/// Builds the variant of an enum value.
fn generate_variant(enum_value: &EnumValue) -> (variant: codegen::Variant)
    requires
        attributes_complete(enum_value@.attributes),
    ensures
        variant_model(variant) == variant_of()(enum_value@),
{
    let ghost attrs = enum_value@.attributes;
    let mut variant = variant_new(enum_value.name.as_str());
    let mut i: usize = 0;
    proof {
        assert(attrs.take(0) =~= Seq::empty());
        assert(variant_model(variant).named =~= attrs.take(0).map_values(typed_name_of()));
    }
    while i < enum_value.attributes.len()
        invariant
            i <= enum_value.attributes.len(),
            attrs == enum_value@.attributes,
            attributes_complete(attrs),
            variant_model(variant) == (VariantModel {
                name: enum_value.name@,
                named: attrs.take(i as int).map_values(typed_name_of()),
                tuple: Seq::empty(),
            }),
        decreases enum_value.attributes.len() - i,
    {
        let attr = &enum_value.attributes[i];
        proof {
            assert(attrs[i as int] == attr@);
            attrs.lemma_map_take_succ(typed_name_of(), i as int);
        }
        let typ = get_full_attribute_type(attr);
        variant_named(&mut variant, attr.name.as_str(), typ.as_str());
        i += 1;
    }
    assert(attrs.take(i as int) =~= attrs);
    variant
}

/// Builds the constructor `name` of a variant of the enum `enum_name`.
pub fn generate_constructor(enum_name: &str, name: &str, enum_value: &EnumValue) -> (create_fn:
    Function)
    requires
        attributes_complete(enum_value@.attributes),
    ensures
        function_model(create_fn) == constructor_named(enum_name@, name@, enum_value@),
{
    let mut create_fn = function_new(name);
    function_vis(&mut create_fn, "pub");
    function_ret(&mut create_fn, "Self");
    let assignment_string = generate_new_args(&enum_value.attributes, &mut create_fn);
    let mut line = String::from_str(enum_name);
    line.append("::");
    line.append(enum_value.name.as_str());
    line.append(" { ");
    line.append(assignment_string.as_str());
    line.append(" }");
    function_line(&mut create_fn, line.as_str());
    assert(function_model(create_fn).args =~= constructor_args(enum_value@.attributes));
    assert(function_model(create_fn).lines =~= constructor_named(
        enum_name@,
        name@,
        enum_value@,
    ).lines);
    create_fn
}

/// Adds an enum to the scope: its public definition with one variant for
/// each value, and one constructor for each variant that carries fields.
pub fn generate_enum_def(enum_def: &EnumDef, scope: &mut Scope)
    requires
        enum_complete(enum_def@),
    ensures
        scope_items(*final(scope)) == scope_items(*old(scope)) + enum_items(enum_def@),
{
    let ghost values = enum_def@.values;
    let name = enum_def.name.as_str();
    let mut enum_ = enum_new(name);
    enum_vis(&mut enum_, "pub");
    enum_derive(&mut enum_, "Clone");
    let no_struct_variants = is_plain(enum_def);
    if no_struct_variants {
        enum_derive(&mut enum_, "PartialEq");
        enum_derive(&mut enum_, "PartialOrd");
    }
    assert(enum_model(enum_).derives =~= enum_derives(enum_def@));
    let mut i: usize = 0;
    proof {
        assert(values.take(0) =~= Seq::empty());
        assert(enum_model(enum_).variants =~= values.take(0).map_values(variant_of()));
    }
    while i < enum_def.values.len()
        invariant
            i <= enum_def.values.len(),
            values == enum_def@.values,
            enum_complete(enum_def@),
            enum_model(enum_) == (EnumModel {
                variants: values.take(i as int).map_values(variant_of()),
                ..enum_of(enum_def@)
            }),
        decreases enum_def.values.len() - i,
    {
        proof {
            assert(values[i as int] == enum_def.values@[i as int]@);
            values.lemma_map_take_succ(variant_of(), i as int);
        }
        let variant = generate_variant(&enum_def.values[i]);
        enum_push_variant(&mut enum_, variant);
        i += 1;
    }
    assert(values.take(i as int) =~= values);
    scope_push_enum(scope, enum_);

    if !no_struct_variants {
        let mut enum_impl = impl_new(name);
        let mut j: usize = 0;
        proof {
            assert(values.take(0) =~= Seq::empty());
            assert(impl_model(enum_impl).fns =~= values.take(0).filter(has_fields()).map_values(
                constructor_of(name@),
            ));
        }
        while j < enum_def.values.len()
            invariant
                j <= enum_def.values.len(),
                values == enum_def@.values,
                name@ == enum_def@.name,
                enum_complete(enum_def@),
                impl_model(enum_impl) == (ImplModel {
                    fns: values.take(j as int).filter(has_fields()).map_values(
                        constructor_of(name@),
                    ),
                    ..constructors_of(enum_def@)
                }),
            decreases enum_def.values.len() - j,
        {
            let enum_value = &enum_def.values[j];
            proof {
                assert(values[j as int] == enum_value@);
                values.lemma_take_succ_push(j as int);
                values.take(j as int).lemma_filter_push(enum_value@, has_fields());
                values.take(j as int).filter(has_fields()).lemma_push_map_commute(
                    constructor_of(name@),
                    enum_value@,
                );
            }
            if enum_value.attributes.len() != 0 {
                let lower_name = to_lowercase(enum_value.name.as_str());
                let create_fn = generate_constructor(name, lower_name.as_str(), enum_value);
                impl_push_fn(&mut enum_impl, create_fn);
            }
            assert(impl_model(enum_impl).fns =~= values.take(j + 1).filter(
                has_fields(),
            ).map_values(constructor_of(name@)));
            j += 1;
        }
        assert(values.take(j as int) =~= values);
        scope_push_impl(scope, enum_impl);
    }
    assert(scope_items(*scope) =~= scope_items(*old(scope)) + enum_items(enum_def@));
}


/// The `impl` block that decodes a packet from bytes.
pub open spec fn try_from_impl(packet: PacketDefinitionView, reader: Seq<char>) -> ImplModel {
    ImplModel {
        target: packet.name,
        impl_trait: Some("TryFrom<Bytes>"@),
        assoc_tys: seq![TypedName { name: "Error"@, ty: "ProtocolError"@ }],
        fns: seq![
            FunctionModel {
                name: "try_from"@,
                vis: None,
                ret: Some("Result<Self, Self::Error>"@),
                args: seq![TypedName { name: "data"@, ty: "Bytes"@ }],
                lines: seq!["let mut "@ + reader + " = data.reader();"@] + reader_lines(
                    packet,
                    reader,
                    "Ok("@,
                    ")"@,
                ),
            },
        ],
    }
}

/// The `impl` block that wraps a packet into the union `family` of all
/// packets of its direction.
pub open spec fn family_impl(packet: PacketDefinitionView, family: Seq<char>) -> ImplModel {
    ImplModel {
        target: family,
        impl_trait: Some("From<"@ + packet.name + ">"@),
        assoc_tys: Seq::empty(),
        fns: seq![
            FunctionModel {
                name: "from"@,
                vis: None,
                ret: Some("Self"@),
                args: seq![TypedName { name: "other"@, ty: packet.name }],
                lines: seq![family + "::"@ + packet.name + "(other)"@],
            },
        ],
    }
}

/// The `impl` block that encodes a packet into bytes.
pub open spec fn into_bytes_impl(packet: PacketDefinitionView) -> ImplModel {
    ImplModel {
        target: "Bytes"@,
        impl_trait: Some("From<"@ + packet.name + ">"@),
        assoc_tys: Seq::empty(),
        fns: seq![
            FunctionModel {
                name: "from"@,
                vis: None,
                ret: Some("Bytes"@),
                args: seq![TypedName { name: "op"@, ty: packet.name }],
                lines: (seq!["let mut "@ + BUFFER_VAR_NAME@ + " = BytesMut::new();"@]
                    + writer_lines(packet.attributes, Some("op"@))).push(
                    BUFFER_VAR_NAME@ + ".freeze()"@,
                ),
            },
        ],
    }
}

/// What the server needs of a packet that clients send: the decoder and
/// the wrapping into the union of client packets.
pub open spec fn client_items(packet: PacketDefinitionView, reader: Seq<char>) -> Seq<ItemModel> {
    if packet.source is Client || packet.source is Both {
        seq![
            ItemModel::Impl(try_from_impl(packet, reader)),
            ItemModel::Impl(family_impl(packet, "ClientPacket"@)),
        ]
    } else {
        Seq::empty()
    }
}

/// What the server needs of a packet that it sends: the encoder, the
/// wrapping into the union of server packets and the constructor.
pub open spec fn server_items(packet: PacketDefinitionView) -> Seq<ItemModel> {
    if packet.source is Server || packet.source is Both {
        seq![
            ItemModel::Impl(into_bytes_impl(packet)),
            ItemModel::Impl(family_impl(packet, "ServerPacket"@)),
            ItemModel::Impl(new_impl(packet.name, packet.attributes)),
        ]
    } else {
        Seq::empty()
    }
}

/// What a packet adds to a scope: its definition, then what its direction
/// calls for.
pub open spec fn packet_items(packet: PacketDefinitionView, reader: Seq<char>) -> Seq<ItemModel> {
    seq![ItemModel::Struct(struct_of(packet.name, packet.attributes))] + client_items(
        packet,
        reader,
    ) + server_items(packet)
}

/// Adds the `impl` block that wraps the packet `name` into `family`.
fn generate_family_impl(name: &str, family: &str, scope: &mut Scope, Ghost(packet): Ghost<
    PacketDefinitionView,
>)
    requires
        packet.name == name@,
    ensures
        scope_items(*final(scope)) == scope_items(*old(scope)).push(
            ItemModel::Impl(family_impl(packet, family@)),
        ),
{
    let mut from_impl = impl_new(family);
    let mut wrapped = String::from_str("From<");
    wrapped.append(name);
    wrapped.append(">");
    impl_trait(&mut from_impl, wrapped.as_str());
    let mut from_fn = function_new("from");
    function_arg(&mut from_fn, "other", name);
    function_ret(&mut from_fn, "Self");
    let mut line = String::from_str(family);
    line.append("::");
    line.append(name);
    line.append("(other)");
    function_line(&mut from_fn, line.as_str());
    assert(function_model(from_fn).args =~= family_impl(packet, family@).fns[0].args);
    assert(function_model(from_fn).lines =~= family_impl(packet, family@).fns[0].lines);
    impl_push_fn(&mut from_impl, from_fn);
    assert(impl_model(from_impl).fns =~= family_impl(packet, family@).fns);
    scope_push_impl(scope, from_impl);
}

/// Adds a packet to the scope: its definition, with every attribute as a
/// public field; for a packet that clients send, the decoder and the
/// wrapping into `ClientPacket`; for a packet that the server sends, the
/// encoder, the wrapping into `ServerPacket` and the constructor.
pub fn generate_struct_for_packet(packet: &PacketDefinition, context: &Context, scope: &mut Scope)
    requires
        attributes_complete(packet@.attributes),
    ensures
        scope_items(*final(scope)) == scope_items(*old(scope)) + packet_items(
            packet@,
            context.reader_name@,
        ),
{
    let name = packet.name.as_str();
    let packet_struct = struct_with_fields(name, &packet.attributes);
    scope_push_struct(scope, packet_struct);

    if packet.source.should_generate_from_client() {
        let ghost expected = try_from_impl(packet@, context.reader_name@);
        let mut from_impl = impl_new(name);
        impl_trait(&mut from_impl, "TryFrom<Bytes>");
        impl_associate_type(&mut from_impl, "Error", "ProtocolError");
        let mut convert_fn = function_new("try_from");
        function_arg(&mut convert_fn, "data", "Bytes");
        function_ret(&mut convert_fn, "Result<Self, Self::Error>");
        let mut line = String::from_str("let mut ");
        line.append(context.reader_name.as_str());
        line.append(" = data.reader();");
        function_line(&mut convert_fn, line.as_str());
        generate_reader_for_struct(packet, context, &mut convert_fn, "Ok(", ")");
        assert(function_model(convert_fn).args =~= expected.fns[0].args);
        assert(function_model(convert_fn).lines =~= expected.fns[0].lines);
        impl_push_fn(&mut from_impl, convert_fn);
        assert(impl_model(from_impl).fns =~= expected.fns);
        assert(impl_model(from_impl).assoc_tys =~= expected.assoc_tys);
        scope_push_impl(scope, from_impl);
        generate_family_impl(name, "ClientPacket", scope, Ghost(packet@));
    }
    assert(scope_items(*scope) =~= scope_items(*old(scope)) + seq![
        ItemModel::Struct(struct_of(packet@.name, packet@.attributes)),
    ] + client_items(packet@, context.reader_name@));

    if packet.source.should_generate_from_server() {
        let ghost expected = into_bytes_impl(packet@);
        let mut to_impl = impl_new("Bytes");
        let mut wrapped = String::from_str("From<");
        wrapped.append(name);
        wrapped.append(">");
        impl_trait(&mut to_impl, wrapped.as_str());
        let mut convert_fn = function_new("from");
        function_arg(&mut convert_fn, "op", name);
        function_ret(&mut convert_fn, "Bytes");
        let mut first = String::from_str("let mut ");
        first.append(BUFFER_VAR_NAME);
        first.append(" = BytesMut::new();");
        function_line(&mut convert_fn, first.as_str());
        generate_writer_for_struct(packet, &mut convert_fn, Some("op"));
        let mut last = String::from_str(BUFFER_VAR_NAME);
        last.append(".freeze()");
        function_line(&mut convert_fn, last.as_str());
        assert(function_model(convert_fn).args =~= expected.fns[0].args);
        assert(function_model(convert_fn).lines =~= expected.fns[0].lines);
        impl_push_fn(&mut to_impl, convert_fn);
        assert(impl_model(to_impl).fns =~= expected.fns);
        scope_push_impl(scope, to_impl);
        generate_family_impl(name, "ServerPacket", scope, Ghost(packet@));
        create_new_for(name, &packet.attributes, scope);
    }
    assert(scope_items(*scope) =~= scope_items(*old(scope)) + packet_items(
        packet@,
        context.reader_name@,
    ));
}

} // verus!
