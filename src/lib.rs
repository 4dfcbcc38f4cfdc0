//! Structural descriptions of data types, and a deduplicating registry that turns
//! a graph of them, cycles included, into a finite indexed table.
use vstd::prelude::*;

pub mod graph;
pub mod namespace;
pub mod registry;
pub mod type_def;
pub mod type_id;

pub use namespace::{Namespace, NamespaceError};
pub use graph::TypeGraph;
pub use registry::Registry;
pub use type_def::{
    assign_discriminants, ClikeEnumVariant, EnumVariant, Field, HasTypeDef, TypeDef, VariantKind,
};
pub use type_id::{
    assert_type_id, HasTypeId, TypeId, TypeIdArray, TypeIdCustom, TypeIdPrimitive, TypeIdSlice,
    TypeIdTuple,
};

verus! {

} // verus!
