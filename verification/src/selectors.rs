//! The selector algebra: declarative descriptions of how to obtain a product
//! for a subject.

use vstd::prelude::*;
use crate::keys::{Field, Key, TypeConstraint, TypeId};

verus! {

/// Selects a product for the subject, possibly discriminated by a variant
/// key.
#[derive(Clone, Copy, Debug, PartialEq, Eq, Hash)]
pub struct Select {
    pub product: TypeConstraint,
    pub variant_key: Option<Field>,
}

/// Selects a product for a literal subject carried by the selector itself.
#[derive(Clone, Copy, Debug, PartialEq, Eq, Hash)]
pub struct SelectLiteral {
    pub subject: Key,
    pub product: TypeConstraint,
}

/// Selects a product for each member of a collection-valued field on another
/// product computed for the subject.
#[derive(Clone, Copy, Debug, PartialEq, Eq, Hash)]
pub struct SelectDependencies {
    pub product: TypeConstraint,
    pub dep_product: TypeConstraint,
    pub field: Field,
    pub transitive: bool,
}

/// Selects a product for a subject projected out of a field on another
/// product computed for the original subject.
#[derive(Clone, Copy, Debug, PartialEq, Eq, Hash)]
pub struct SelectProjection {
    pub product: TypeConstraint,
    pub projected_subject: TypeId,
    pub field: Field,
    pub input_product: TypeConstraint,
}

/// A declarative description of how to obtain a product.
#[derive(Clone, Copy, Debug, PartialEq, Eq, Hash)]
pub enum Selector {
    Select(Select),
    SelectLiteral(SelectLiteral),
    SelectDependencies(SelectDependencies),
    SelectProjection(SelectProjection),
}

impl Selector {
    /// A bare `Select` for the given product, with no variant key.
    pub fn select(product: TypeConstraint) -> (r: Selector)
        ensures
            r == Selector::Select(Select { product, variant_key: None }),
    {
        Selector::Select(Select { product, variant_key: None })
    }
}

/// Structural equality of two optional keys.
pub fn option_key_eq(a: &Option<Key>, b: &Option<Key>) -> (r: bool)
    ensures
        r == (*a == *b),
{
    match (a, b) {
        (Some(x), Some(y)) => x == y,
        (None, None) => true,
        _ => false,
    }
}

/// Structural equality of two selectors.
pub fn selector_eq(a: &Selector, b: &Selector) -> (r: bool)
    ensures
        r == (*a == *b),
{
    match (a, b) {
        (Selector::Select(x), Selector::Select(y)) => {
            x.product == y.product && option_key_eq(&x.variant_key, &y.variant_key)
        },
        (Selector::SelectLiteral(x), Selector::SelectLiteral(y)) => {
            x.subject == y.subject && x.product == y.product
        },
        (Selector::SelectDependencies(x), Selector::SelectDependencies(y)) => {
            x.product == y.product && x.dep_product == y.dep_product && x.field == y.field
                && x.transitive == y.transitive
        },
        (Selector::SelectProjection(x), Selector::SelectProjection(y)) => {
            x.product == y.product && x.projected_subject == y.projected_subject
                && x.field == y.field && x.input_product == y.input_product
        },
        _ => false,
    }
}

} // verus!
