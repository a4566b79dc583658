use vstd::prelude::*;

verus! {

/// A primitive type a registry can describe.
#[derive(Clone, Copy, PartialEq, Eq, Structural, Debug)]
pub enum Prim {
    Bool,
    U8,
    U16,
    U32,
    U64,
    U128,
}

/// Width in bytes of a primitive's fixed encoding (bool is one byte).
pub open spec fn prim_width(p: Prim) -> nat {
    match p {
        Prim::Bool => 1,
        Prim::U8 => 1,
        Prim::U16 => 2,
        Prim::U32 => 4,
        Prim::U64 => 8,
        Prim::U128 => 16,
    }
}

/// One variant of a variant type: its name, its discriminant byte, and the
/// type identifiers of its fields in declared order.
#[derive(Debug)]
pub struct VariantDef {
    pub name: String,
    pub index: u8,
    pub fields: Vec<u32>,
}

/// The structural definition of one registry type. Type identifiers are
/// indices into the registry's table.
#[derive(Debug)]
pub enum TypeDef {
    /// A tagged union: one discriminant byte selects a variant.
    Variant { variants: Vec<VariantDef> },
    /// A struct: its fields' encodings in declared order.
    Composite { fields: Vec<u32> },
    /// A fixed-width primitive.
    Primitive { prim: Prim },
    /// A compact-encoded unsigned integer.
    Compact,
    /// A length-prefixed sequence of one element type.
    Sequence { element: u32 },
    /// A fixed-length run of one element type.
    Array { len: u32, element: u32 },
    /// A tuple: like a struct with unnamed fields.
    Tuple { fields: Vec<u32> },
}

/// The self-describing type registry a runtime publishes: a table of type
/// definitions, indexed by type identifier.
pub struct Registry {
    pub types: Vec<TypeDef>,
}

} // verus!
