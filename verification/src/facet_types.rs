//! The types of the facet crates that the library's errors carry.

use vstd::prelude::*;

verus! {

/// The reflected shape of a Rust type.
#[verifier::external_type_specification]
#[verifier::external_body]
pub struct ExShape(facet_core::Shape);

/// An error of facet's reflection.
#[verifier::external_type_specification]
#[verifier::external_body]
pub struct ExReflectError(facet_reflect::ReflectError);

/// An error of facet's allocation of a value under construction.
#[verifier::external_type_specification]
#[verifier::external_body]
pub struct ExAllocError(facet_reflect::AllocError);

/// An error of facet when a built value has another shape than asked for.
#[verifier::external_type_specification]
#[verifier::external_body]
pub struct ExShapeMismatchError(facet_reflect::ShapeMismatchError);

/// The text that a shape displays (`<Shape as Display>::fmt`): the name of
/// its type, with its generic parameters, as facet writes it.
pub uninterp spec fn shape_text(shape: facet_core::Shape) -> Seq<char>;

/// The text that a reflection error displays
/// (`<ReflectError as Display>::fmt`): what went wrong, then " at " and
/// where, as facet writes them.
pub uninterp spec fn reflect_error_text(e: facet_reflect::ReflectError) -> Seq<char>;

/// The text that an allocation error displays
/// (`<AllocError as Display>::fmt`), as facet writes it from the shape and
/// the operation it holds.
pub uninterp spec fn alloc_error_text(e: facet_reflect::AllocError) -> Seq<char>;

/// The text that a shape mismatch displays
/// (`<ShapeMismatchError as Display>::fmt`), as facet writes it from the
/// two shapes it holds.
pub uninterp spec fn shape_mismatch_text(e: facet_reflect::ShapeMismatchError) -> Seq<char>;

/// How a shape displays itself (`<Shape as Display>::fmt`): its text
/// ([`shape_text`]).
#[verifier::external_body]
pub(crate) fn display_shape(shape: &facet_core::Shape) -> (r: String)
    ensures
        r@ == shape_text(*shape),
{
    format!("{}", shape)
}

/// How a reflection error displays itself (`<ReflectError as Display>::fmt`):
/// its text ([`reflect_error_text`]).
#[verifier::external_body]
pub(crate) fn display_reflect_error(e: &facet_reflect::ReflectError) -> (r: String)
    ensures
        r@ == reflect_error_text(*e),
{
    format!("{}", e)
}

/// How an allocation error displays itself (`<AllocError as Display>::fmt`):
/// its text ([`alloc_error_text`]).
#[verifier::external_body]
pub(crate) fn display_alloc_error(e: &facet_reflect::AllocError) -> (r: String)
    ensures
        r@ == alloc_error_text(*e),
{
    format!("{}", e)
}

/// How a shape mismatch displays itself
/// (`<ShapeMismatchError as Display>::fmt`): its text
/// ([`shape_mismatch_text`]).
#[verifier::external_body]
pub(crate) fn display_shape_mismatch(e: &facet_reflect::ShapeMismatchError) -> (r: String)
    ensures
        r@ == shape_mismatch_text(*e),
{
    format!("{}", e)
}

} // verus!
