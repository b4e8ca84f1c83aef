use vstd::prelude::*;

verus! {

/// Bounds of an aggregation type, in the literal-or-`?` form the schema
/// language allows: `?` for the upper bound is kept as `None`.
#[derive(Debug, Clone, Copy, PartialEq, Eq, Structural)]
pub struct BoundSpec {
    pub start: i64,
    pub end: Option<i64>,
}

/// The closed set of data-type variants of the schema language.
///
/// A `TypeRef` carries only a name; resolution is deferred to analysis.
#[derive(Debug)]
pub enum DataType {
    Number,
    Integer,
    Real {
        precision: Option<u8>,
    },
    Boolean,
    Logical,
    String {
        width: Option<usize>,
        fixed: bool,
    },
    Binary {
        width: Option<usize>,
        fixed: bool,
    },
    TypeRef {
        name: std::string::String,
    },
    Array {
        bound: Option<BoundSpec>,
        optional: bool,
        unique: bool,
        base_type: Box<DataType>,
    },
    /// Ordered elements
    List {
        bound: Option<BoundSpec>,
        unique: bool,
        base_type: Box<DataType>,
    },
    /// Unordered elements
    Bag {
        bound: Option<BoundSpec>,
        base_type: Box<DataType>,
    },
    /// Unordered and unique elements
    SetOf {
        bound: Option<BoundSpec>,
        base_type: Box<DataType>,
    },
    /// Enumeration of named values
    Enum {
        values: Vec<std::string::String>,
    },
    /// Union of named types
    Select {
        types: Vec<std::string::String>,
    },
    Generic {
        type_label: Option<std::string::String>,
    },
    Aggregate {
        type_label: Option<std::string::String>,
        base_type: Box<DataType>,
    },
}

/// Mathematical image of a `DataType`: names become character sequences.
pub enum DataTypeV {
    Number,
    Integer,
    Real { precision: Option<u8> },
    Boolean,
    Logical,
    String { width: Option<usize>, fixed: bool },
    Binary { width: Option<usize>, fixed: bool },
    TypeRef { name: Seq<char> },
    Array { bound: Option<BoundSpec>, optional: bool, unique: bool, base_type: Box<DataTypeV> },
    List { bound: Option<BoundSpec>, unique: bool, base_type: Box<DataTypeV> },
    Bag { bound: Option<BoundSpec>, base_type: Box<DataTypeV> },
    SetOf { bound: Option<BoundSpec>, base_type: Box<DataTypeV> },
    Enum { values: Seq<Seq<char>> },
    Select { types: Seq<Seq<char>> },
    Generic { type_label: Option<Seq<char>> },
    Aggregate { type_label: Option<Seq<char>>, base_type: Box<DataTypeV> },
}

pub open spec fn data_type_view(d: DataType) -> DataTypeV
    decreases d,
{
    match d {
        DataType::Number => DataTypeV::Number,
        DataType::Integer => DataTypeV::Integer,
        DataType::Real { precision } => DataTypeV::Real { precision },
        DataType::Boolean => DataTypeV::Boolean,
        DataType::Logical => DataTypeV::Logical,
        DataType::String { width, fixed } => DataTypeV::String { width, fixed },
        DataType::Binary { width, fixed } => DataTypeV::Binary { width, fixed },
        DataType::TypeRef { name } => DataTypeV::TypeRef { name: name@ },
        DataType::Array { bound, optional, unique, base_type } => DataTypeV::Array {
            bound,
            optional,
            unique,
            base_type: Box::new(data_type_view(*base_type)),
        },
        DataType::List { bound, unique, base_type } => DataTypeV::List {
            bound,
            unique,
            base_type: Box::new(data_type_view(*base_type)),
        },
        DataType::Bag { bound, base_type } => DataTypeV::Bag {
            bound,
            base_type: Box::new(data_type_view(*base_type)),
        },
        DataType::SetOf { bound, base_type } => DataTypeV::SetOf {
            bound,
            base_type: Box::new(data_type_view(*base_type)),
        },
        DataType::Enum { values } => DataTypeV::Enum { values: values.deep_view() },
        DataType::Select { types } => DataTypeV::Select { types: types.deep_view() },
        DataType::Generic { type_label } => DataTypeV::Generic {
            type_label: match type_label {
                Option::Some(l) => Option::Some(l@),
                Option::None => Option::None,
            },
        },
        DataType::Aggregate { type_label, base_type } => DataTypeV::Aggregate {
            type_label: match type_label {
                Option::Some(l) => Option::Some(l@),
                Option::None => Option::None,
            },
            base_type: Box::new(data_type_view(*base_type)),
        },
    }
}

impl View for DataType {
    type V = DataTypeV;

    open spec fn view(&self) -> DataTypeV {
        data_type_view(*self)
    }
}

impl DataType {
    pub fn is_number(&self) -> (r: bool)
        ensures
            r == self@ is Number,
    {
        match *self {
            DataType::Number => true,
            _ => false,
        }
    }

    pub fn is_real(&self) -> (r: bool)
        ensures
            r == self@ is Real,
    {
        match *self {
            DataType::Real { .. } => true,
            _ => false,
        }
    }

    pub fn is_integer(&self) -> (r: bool)
        ensures
            r == self@ is Integer,
    {
        match *self {
            DataType::Integer => true,
            _ => false,
        }
    }

    pub fn type_ref(&self) -> (r: Option<&std::string::String>)
        ensures
            match r {
                Option::Some(name) => self@ matches DataTypeV::TypeRef { name: n } && n == name@,
                Option::None => !(self@ is TypeRef),
            },
    {
        match self {
            DataType::TypeRef { name } => Option::Some(name),
            _ => Option::None,
        }
    }
}

/// Structure-preserving copy whose image is the same as the source's.
pub fn clone_data_type(d: &DataType) -> (r: DataType)
    ensures
        r@ == d@,
    decreases *d,
{
    match d {
        DataType::Number => DataType::Number,
        DataType::Integer => DataType::Integer,
        DataType::Real { precision } => DataType::Real { precision: *precision },
        DataType::Boolean => DataType::Boolean,
        DataType::Logical => DataType::Logical,
        DataType::String { width, fixed } => DataType::String { width: *width, fixed: *fixed },
        DataType::Binary { width, fixed } => DataType::Binary { width: *width, fixed: *fixed },
        DataType::TypeRef { name } => DataType::TypeRef { name: clone_string(name) },
        DataType::Array { bound, optional, unique, base_type } => DataType::Array {
            bound: *bound,
            optional: *optional,
            unique: *unique,
            base_type: Box::new(clone_data_type(base_type)),
        },
        DataType::List { bound, unique, base_type } => DataType::List {
            bound: *bound,
            unique: *unique,
            base_type: Box::new(clone_data_type(base_type)),
        },
        DataType::Bag { bound, base_type } => DataType::Bag {
            bound: *bound,
            base_type: Box::new(clone_data_type(base_type)),
        },
        DataType::SetOf { bound, base_type } => DataType::SetOf {
            bound: *bound,
            base_type: Box::new(clone_data_type(base_type)),
        },
        DataType::Enum { values } => DataType::Enum { values: clone_string_vec(values) },
        DataType::Select { types } => DataType::Select { types: clone_string_vec(types) },
        DataType::Generic { type_label } => DataType::Generic {
            type_label: clone_string_opt(type_label),
        },
        DataType::Aggregate { type_label, base_type } => DataType::Aggregate {
            type_label: clone_string_opt(type_label),
            base_type: Box::new(clone_data_type(base_type)),
        },
    }
}

pub fn clone_string(s: &std::string::String) -> (r: std::string::String)
    ensures
        r@ == s@,
{
    s.clone()
}

pub fn clone_string_opt(s: &Option<std::string::String>) -> (r: Option<std::string::String>)
    ensures
        match s {
            Option::Some(x) => r matches Option::Some(y) && y@ == x@,
            Option::None => r is None,
        },
{
    match s {
        Option::Some(x) => Option::Some(x.clone()),
        Option::None => Option::None,
    }
}

pub fn clone_string_vec(v: &Vec<std::string::String>) -> (r: Vec<std::string::String>)
    ensures
        r.deep_view() == v.deep_view(),
{
    let mut out: Vec<std::string::String> = Vec::new();
    let mut i: usize = 0;
    while i < v.len()
        invariant
            i <= v.len(),
            out.len() == i,
            forall|k: int| 0 <= k < i ==> out[k]@ == v[k]@,
        decreases v.len() - i,
    {
        out.push(v[i].clone());
        i = i + 1;
    }
    proof {
        assert(out.deep_view() =~= v.deep_view());
    }
    out
}

} // verus!
