//! The generated source, item by item.
//!
//! The generator builds its output with the `codegen` crate. That crate's
//! builders are opaque to the verifier, so each of them gets a
//! mathematical model here: what the builder holds, as far as the
//! generator fills it in. Every function of this module is a thin call
//! into `codegen` whose contract is believed, not proved; it states what
//! the call does to the model.

use codegen::{Enum, Function, Impl, Scope, Struct, Variant};
use vstd::prelude::*;

verus! {

#[verifier::external_type_specification]
#[verifier::external_body]
pub struct ExScope(Scope);

#[verifier::external_type_specification]
#[verifier::external_body]
pub struct ExEnum(Enum);

#[verifier::external_type_specification]
#[verifier::external_body]
pub struct ExVariant(Variant);

#[verifier::external_type_specification]
#[verifier::external_body]
pub struct ExStruct(Struct);

#[verifier::external_type_specification]
#[verifier::external_body]
pub struct ExImpl(Impl);

#[verifier::external_type_specification]
#[verifier::external_body]
pub struct ExFunction(Function);

/// A name with the type that goes with it: a field, an argument, an
/// associated type.
pub struct TypedName {
    pub name: Seq<char>,
    pub ty: Seq<char>,
}

/// What a function definition holds.
pub struct FunctionModel {
    pub name: Seq<char>,
    pub vis: Option<Seq<char>>,
    pub ret: Option<Seq<char>>,
    pub args: Seq<TypedName>,
    pub lines: Seq<Seq<char>>,
}

/// What an enum variant holds.
pub struct VariantModel {
    pub name: Seq<char>,
    pub named: Seq<TypedName>,
    pub tuple: Seq<Seq<char>>,
}

/// What an enum definition holds.
pub struct EnumModel {
    pub name: Seq<char>,
    pub vis: Option<Seq<char>>,
    pub derives: Seq<Seq<char>>,
    pub variants: Seq<VariantModel>,
}

/// What a struct definition holds.
pub struct StructModel {
    pub name: Seq<char>,
    pub vis: Option<Seq<char>>,
    pub derives: Seq<Seq<char>>,
    pub named: Seq<TypedName>,
    pub tuple: Seq<Seq<char>>,
}

/// What an `impl` block holds.
pub struct ImplModel {
    pub target: Seq<char>,
    pub impl_trait: Option<Seq<char>>,
    pub assoc_tys: Seq<TypedName>,
    pub fns: Seq<FunctionModel>,
}

/// One item of a scope.
pub enum ItemModel {
    Struct(StructModel),
    Enum(EnumModel),
    Impl(ImplModel),
    /// An item of a kind that the generator does not produce.
    Other,
}

/// The items of a scope, in the order in which they will be printed.
pub uninterp spec fn scope_items(scope: Scope) -> Seq<ItemModel>;

/// The name, visibility, return type, arguments and body lines of a
/// function definition.
pub uninterp spec fn function_model(function: Function) -> FunctionModel;

/// The name and fields of a variant.
pub uninterp spec fn variant_model(variant: Variant) -> VariantModel;

/// The name, visibility, derives and variants of an enum definition.
pub uninterp spec fn enum_model(definition: Enum) -> EnumModel;

/// The name, visibility, derives and fields of a struct definition.
pub uninterp spec fn struct_model(definition: Struct) -> StructModel;

/// The target, trait, associated types and functions of an `impl` block.
pub uninterp spec fn impl_model(block: Impl) -> ImplModel;

/// `Function::new`: a function of the given name with no visibility, no
/// return type, no arguments and an empty body.
#[verifier::external_body]
pub(crate) fn function_new(name: &str) -> (function: Function)
    ensures
        function_model(function) == (FunctionModel {
            name: name@,
            vis: None,
            ret: None,
            args: Seq::empty(),
            lines: Seq::empty(),
        }),
{
    Function::new(name)
}

/// `Function::vis`: sets the visibility and leaves the rest.
#[verifier::external_body]
pub(crate) fn function_vis(function: &mut Function, vis: &str)
    ensures
        function_model(*final(function)) == (FunctionModel {
            vis: Some(vis@),
            ..function_model(*old(function))
        }),
{
    function.vis(vis);
}

/// `Function::ret`: sets the return type to the type of the given name
/// and leaves the rest.
#[verifier::external_body]
pub(crate) fn function_ret(function: &mut Function, ty: &str)
    ensures
        function_model(*final(function)) == (FunctionModel {
            ret: Some(ty@),
            ..function_model(*old(function))
        }),
{
    function.ret(ty);
}

/// `Function::arg`: appends one argument and leaves the rest.
#[verifier::external_body]
pub(crate) fn function_arg(function: &mut Function, name: &str, ty: &str)
    ensures
        function_model(*final(function)) == (FunctionModel {
            args: function_model(*old(function)).args.push(TypedName { name: name@, ty: ty@ }),
            ..function_model(*old(function))
        }),
{
    function.arg(name, ty);
}

/// `Function::line`: appends one line to the body and leaves the rest.
#[verifier::external_body]
pub(crate) fn function_line(function: &mut Function, line: &str)
    ensures
        function_model(*final(function)) == (FunctionModel {
            lines: function_model(*old(function)).lines.push(line@),
            ..function_model(*old(function))
        }),
{
    function.line(line);
}

/// `Variant::new`: a variant of the given name without fields.
#[verifier::external_body]
pub(crate) fn variant_new(name: &str) -> (variant: Variant)
    ensures
        variant_model(variant) == (VariantModel {
            name: name@,
            named: Seq::empty(),
            tuple: Seq::empty(),
        }),
{
    Variant::new(name)
}

/// `Variant::named`: appends one named field. The call panics on a
/// variant that has tuple fields, which the precondition rules out.
#[verifier::external_body]
pub(crate) fn variant_named(variant: &mut Variant, name: &str, ty: &str)
    requires
        variant_model(*old(variant)).tuple.len() == 0,
    ensures
        variant_model(*final(variant)) == (VariantModel {
            named: variant_model(*old(variant)).named.push(TypedName { name: name@, ty: ty@ }),
            ..variant_model(*old(variant))
        }),
{
    variant.named(name, ty);
}

/// `Enum::new`: an enum of the given name with no visibility, no derive
/// and no variant.
#[verifier::external_body]
pub(crate) fn enum_new(name: &str) -> (definition: Enum)
    ensures
        enum_model(definition) == (EnumModel {
            name: name@,
            vis: None,
            derives: Seq::empty(),
            variants: Seq::empty(),
        }),
{
    Enum::new(name)
}

/// `Enum::vis`: sets the visibility and leaves the rest.
#[verifier::external_body]
pub(crate) fn enum_vis(definition: &mut Enum, vis: &str)
    ensures
        enum_model(*final(definition)) == (EnumModel {
            vis: Some(vis@),
            ..enum_model(*old(definition))
        }),
{
    definition.vis(vis);
}

/// `Enum::derive`: appends one derive and leaves the rest.
#[verifier::external_body]
pub(crate) fn enum_derive(definition: &mut Enum, name: &str)
    ensures
        enum_model(*final(definition)) == (EnumModel {
            derives: enum_model(*old(definition)).derives.push(name@),
            ..enum_model(*old(definition))
        }),
{
    definition.derive(name);
}

/// `Enum::push_variant`: appends the variant and leaves the rest.
#[verifier::external_body]
pub(crate) fn enum_push_variant(definition: &mut Enum, variant: Variant)
    ensures
        enum_model(*final(definition)) == (EnumModel {
            variants: enum_model(*old(definition)).variants.push(variant_model(variant)),
            ..enum_model(*old(definition))
        }),
{
    definition.push_variant(variant);
}

/// `Struct::new`: a struct of the given name with no visibility, no
/// derive and no field.
#[verifier::external_body]
pub(crate) fn struct_new(name: &str) -> (definition: Struct)
    ensures
        struct_model(definition) == (StructModel {
            name: name@,
            vis: None,
            derives: Seq::empty(),
            named: Seq::empty(),
            tuple: Seq::empty(),
        }),
{
    Struct::new(name)
}

/// `Struct::vis`: sets the visibility and leaves the rest.
#[verifier::external_body]
pub(crate) fn struct_vis(definition: &mut Struct, vis: &str)
    ensures
        struct_model(*final(definition)) == (StructModel {
            vis: Some(vis@),
            ..struct_model(*old(definition))
        }),
{
    definition.vis(vis);
}

/// `Struct::derive`: appends one derive and leaves the rest.
#[verifier::external_body]
pub(crate) fn struct_derive(definition: &mut Struct, name: &str)
    ensures
        struct_model(*final(definition)) == (StructModel {
            derives: struct_model(*old(definition)).derives.push(name@),
            ..struct_model(*old(definition))
        }),
{
    definition.derive(name);
}

/// `Struct::field`: appends one named field. The call panics on a struct
/// that has tuple fields, which the precondition rules out.
#[verifier::external_body]
pub(crate) fn struct_field(definition: &mut Struct, name: &str, ty: &str)
    requires
        struct_model(*old(definition)).tuple.len() == 0,
    ensures
        struct_model(*final(definition)) == (StructModel {
            named: struct_model(*old(definition)).named.push(TypedName { name: name@, ty: ty@ }),
            ..struct_model(*old(definition))
        }),
{
    definition.field(name, ty);
}

/// `Impl::new`: an inherent `impl` block for the type of the given name,
/// with nothing in it.
#[verifier::external_body]
pub(crate) fn impl_new(target: &str) -> (block: Impl)
    ensures
        impl_model(block) == (ImplModel {
            target: target@,
            impl_trait: None,
            assoc_tys: Seq::empty(),
            fns: Seq::empty(),
        }),
{
    Impl::new(target)
}

/// `Impl::impl_trait`: makes the block an impl of the trait of the given
/// name and leaves the rest.
#[verifier::external_body]
pub(crate) fn impl_trait(block: &mut Impl, ty: &str)
    ensures
        impl_model(*final(block)) == (ImplModel {
            impl_trait: Some(ty@),
            ..impl_model(*old(block))
        }),
{
    block.impl_trait(ty);
}

/// `Impl::associate_type`: appends one associated type and leaves the
/// rest.
#[verifier::external_body]
pub(crate) fn impl_associate_type(block: &mut Impl, name: &str, ty: &str)
    ensures
        impl_model(*final(block)) == (ImplModel {
            assoc_tys: impl_model(*old(block)).assoc_tys.push(TypedName { name: name@, ty: ty@ }),
            ..impl_model(*old(block))
        }),
{
    block.associate_type(name, ty);
}

/// `Impl::push_fn`: appends the function and leaves the rest.
#[verifier::external_body]
pub(crate) fn impl_push_fn(block: &mut Impl, function: Function)
    ensures
        impl_model(*final(block)) == (ImplModel {
            fns: impl_model(*old(block)).fns.push(function_model(function)),
            ..impl_model(*old(block))
        }),
{
    block.push_fn(function);
}

/// `Scope::push_enum`: appends the enum behind the items of the scope.
#[verifier::external_body]
pub(crate) fn scope_push_enum(scope: &mut Scope, definition: Enum)
    ensures
        scope_items(*final(scope)) == scope_items(*old(scope)).push(
            ItemModel::Enum(enum_model(definition)),
        ),
{
    scope.push_enum(definition);
}

/// `Scope::push_struct`: appends the struct behind the items of the
/// scope.
#[verifier::external_body]
pub(crate) fn scope_push_struct(scope: &mut Scope, definition: Struct)
    ensures
        scope_items(*final(scope)) == scope_items(*old(scope)).push(
            ItemModel::Struct(struct_model(definition)),
        ),
{
    scope.push_struct(definition);
}

/// `Scope::push_impl`: appends the `impl` block behind the items of the
/// scope.
#[verifier::external_body]
pub(crate) fn scope_push_impl(scope: &mut Scope, block: Impl)
    ensures
        scope_items(*final(scope)) == scope_items(*old(scope)).push(
            ItemModel::Impl(impl_model(block)),
        ),
{
    scope.push_impl(block);
}

} // verus!
