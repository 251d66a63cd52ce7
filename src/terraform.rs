//! The raw provider schema as the provider tooling describes it.
//!
//! Maps of the raw document are held as `(name, value)` entry sequences.

use vstd::prelude::*;
use vstd::string::StringExecFns;

verus! {

pub struct TFSchema {
    pub format_version: String,
    pub provider_schemas: Vec<(String, TFProviderSchema)>,
}

pub struct TFProviderSchema {
    pub provider: TFBlockSchema,
    pub resource_schemas: Vec<(String, TFBlockSchema)>,
    pub data_source_schemas: Vec<(String, TFBlockSchema)>,
}

pub struct TFBlockSchema {
    pub version: i64,
    pub block: TFBlock,
}

pub struct TFBlock {
    pub attributes: Vec<(String, TFBlockAttribute)>,
    pub block_types: Vec<(String, TFBlockType)>,
    pub description: Option<String>,
}

/// An attribute of a block: a declared type or a nested attribute set, and the
/// flags that say who supplies its value.
pub struct TFBlockAttribute {
    pub type_: Option<TFType>,
    pub nested_type: Option<TFNestedType>,
    pub description: Option<String>,
    pub required: bool,
    pub optional: bool,
    pub computed: bool,
    pub sensitive: bool,
}

pub struct TFBlockType {
    pub nesting_mode: TFBlockNestingMode,
    pub min_items: Option<u32>,
    pub max_items: Option<u32>,
    pub block: TFBlock,
}

#[derive(Debug, Clone, Copy, PartialEq, Eq, Structural)]
pub enum TFBlockNestingMode {
    Single,
    List,
    SetOf,
    MapOf,
}

pub struct TFNestedType {
    pub attributes: Vec<(String, TFBlockAttribute)>,
    pub nesting_mode: TFBlockNestingMode,
    pub min_items: Option<u32>,
    pub max_items: Option<u32>,
}

pub enum TFType {
    Dynamic,
    String,
    Number,
    Bool,
    List(Box<TFType>),
    MapOf(Box<TFType>),
    SetOf(Box<TFType>),
    Object(Vec<(String, TFType)>),
    Tuple(Vec<TFType>),
}

/// The collection constructors that a raw type written as a list can name.
#[derive(Debug, Clone, Copy, PartialEq, Eq, Structural)]
pub enum TFCollectionKind {
    List,
    MapOf,
    SetOf,
    Object,
    Tuple,
}

/// The primitive raw type a type name denotes; `dynamic` is read as a string.
pub open spec fn primitive_named(name: Seq<char>) -> Option<TFType> {
    if name == "dynamic"@ || name == "string"@ {
        Some(TFType::String)
    } else if name == "number"@ {
        Some(TFType::Number)
    } else if name == "bool"@ {
        Some(TFType::Bool)
    } else {
        None
    }
}

pub open spec fn collection_named(name: Seq<char>) -> Option<TFCollectionKind> {
    if name == "list"@ {
        Some(TFCollectionKind::List)
    } else if name == "map"@ {
        Some(TFCollectionKind::MapOf)
    } else if name == "set"@ {
        Some(TFCollectionKind::SetOf)
    } else if name == "object"@ {
        Some(TFCollectionKind::Object)
    } else if name == "tuple"@ {
        Some(TFCollectionKind::Tuple)
    } else {
        None
    }
}

impl TFType {
    /// Reads a raw type written as a bare name.
    pub fn primitive(name: &str) -> (r: Option<TFType>)
        ensures
            r == primitive_named(name@),
    {
        let n = String::from_str(name);
        if n == String::from_str("dynamic") || n == String::from_str("string") {
            Some(TFType::String)
        } else if n == String::from_str("number") {
            Some(TFType::Number)
        } else if n == String::from_str("bool") {
            Some(TFType::Bool)
        } else {
            None
        }
    }
}

impl TFCollectionKind {
    /// Reads the constructor name that opens a raw type written as a list.
    pub fn named(name: &str) -> (r: Option<TFCollectionKind>)
        ensures
            r == collection_named(name@),
    {
        let n = String::from_str(name);
        if n == String::from_str("list") {
            Some(TFCollectionKind::List)
        } else if n == String::from_str("map") {
            Some(TFCollectionKind::MapOf)
        } else if n == String::from_str("set") {
            Some(TFCollectionKind::SetOf)
        } else if n == String::from_str("object") {
            Some(TFCollectionKind::Object)
        } else if n == String::from_str("tuple") {
            Some(TFCollectionKind::Tuple)
        } else {
            None
        }
    }
}

} // verus!
