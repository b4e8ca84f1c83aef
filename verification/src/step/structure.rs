use vstd::prelude::*;

verus! {

/// A numeric identifier referencing another instance in the same exchange
/// file; the indirection that keeps entity representations acyclic.
#[derive(PartialEq, Eq, Structural, Clone, Copy, Debug, Hash, Default)]
pub struct EntityRef(pub i64);

impl EntityRef {
    pub fn id(&self) -> (r: i64)
        ensures
            r == self.0,
    {
        self.0
    }
}

/// One parameter of an exchange-file instance: the generic tree the file
/// parser hands to a generated reader.  It carries no type information
/// beyond what is syntactically present in the file.
#[derive(Debug)]
pub enum Parameter {
    TypedParameter(TypedParameter),
    UnTypedParameter(UnTypedParameter),
    OmittedParameter,
}

/// A constructor-form parameter: a type name applied to nested parameters.
#[derive(Debug)]
pub struct TypedParameter {
    pub name: String,
    pub parameters: Vec<Parameter>,
}

/// A bare parameter value.  A real keeps its source spelling, since rule
/// evaluation and numeric modelling are out of scope here; a binary value
/// is recognized but kept opaque.
#[derive(Debug)]
pub enum UnTypedParameter {
    List(Vec<Parameter>),
    EnumValue(String),
    EntityRef(i64),
    ConstantRef(String),
    Integer(i64),
    Real(String),
    String(String),
    Binary,
    Null,
}

/// One data-section record: an id and its typed parameters.  More than one
/// typed parameter marks a complex instance of several supertype branches.
#[derive(Debug)]
pub struct EntityInstance {
    pub id: i64,
    pub value: Vec<TypedParameter>,
}

/// A parsed exchange file: header parameters and data records in file
/// order.
#[derive(Debug)]
pub struct ExchangeFile {
    pub header: Vec<TypedParameter>,
    pub data: Vec<EntityInstance>,
}

impl Parameter {
    /// Whether this parameter provides no value: the explicit null mark or
    /// an omitted parameter.
    pub fn is_null(&self) -> (r: bool)
        ensures
            r == (self matches Parameter::UnTypedParameter(UnTypedParameter::Null)
                || self is OmittedParameter),
    {
        match self {
            Parameter::UnTypedParameter(parameter) => match parameter {
                UnTypedParameter::Null => true,
                _ => false,
            },
            Parameter::OmittedParameter => true,
            _ => false,
        }
    }

    /// The boolean a parameter carries: the enumeration value `T` or `F`,
    /// and nothing else.
    pub fn to_bool(&self) -> (r: Option<bool>)
        ensures
            match self {
                Parameter::UnTypedParameter(UnTypedParameter::EnumValue(v)) => if v@ == "T"@ {
                    r == Option::Some(true)
                } else if v@ == "F"@ {
                    r == Option::Some(false)
                } else {
                    r is None
                },
                _ => r is None,
            },
    {
        match self {
            Parameter::UnTypedParameter(UnTypedParameter::EnumValue(v)) => {
                if v.eq(&String::from_str("T")) {
                    Option::Some(true)
                } else if v.eq(&String::from_str("F")) {
                    Option::Some(false)
                } else {
                    Option::None
                }
            },
            _ => Option::None,
        }
    }

    /// The three-valued logical a parameter carries: `T`, `F`, or the
    /// unknown mark `U`; an omitted parameter is unknown too.
    pub fn to_logical(&self) -> (r: Option<Option<bool>>)
        ensures
            match self {
                Parameter::UnTypedParameter(UnTypedParameter::EnumValue(v)) => if v@ == "T"@ {
                    r == Option::Some(Option::Some(true))
                } else if v@ == "F"@ {
                    r == Option::Some(Option::Some(false))
                } else if v@ == "U"@ {
                    r == Option::Some(Option::<bool>::None)
                } else {
                    r is None
                },
                Parameter::OmittedParameter => r == Option::Some(Option::<bool>::None),
                _ => r is None,
            },
    {
        match self {
            Parameter::UnTypedParameter(UnTypedParameter::EnumValue(v)) => {
                if v.eq(&String::from_str("T")) {
                    Option::Some(Option::Some(true))
                } else if v.eq(&String::from_str("F")) {
                    Option::Some(Option::Some(false))
                } else if v.eq(&String::from_str("U")) {
                    Option::Some(Option::None)
                } else {
                    Option::None
                }
            },
            Parameter::OmittedParameter => Option::Some(Option::None),
            _ => Option::None,
        }
    }

    /// The integer a parameter carries.
    pub fn to_integer(&self) -> (r: Option<i64>)
        ensures
            match self {
                Parameter::UnTypedParameter(UnTypedParameter::Integer(n)) => r == Option::Some(*n),
                _ => r is None,
            },
    {
        match self {
            Parameter::UnTypedParameter(UnTypedParameter::Integer(n)) => Option::Some(*n),
            _ => Option::None,
        }
    }

    /// The source spelling of the real a parameter carries.
    pub fn to_real_text(&self) -> (r: Option<String>)
        ensures
            match self {
                Parameter::UnTypedParameter(UnTypedParameter::Real(s)) => r matches Option::Some(v)
                    && v@ == s@,
                _ => r is None,
            },
    {
        match self {
            Parameter::UnTypedParameter(UnTypedParameter::Real(s)) => Option::Some(s.clone()),
            _ => Option::None,
        }
    }

    /// The string a parameter carries; the null mark stands for the empty
    /// string.
    pub fn to_string_value(&self) -> (r: Option<String>)
        ensures
            match self {
                Parameter::UnTypedParameter(UnTypedParameter::String(s)) => r matches Option::Some(
                    v,
                ) && v@ == s@,
                Parameter::UnTypedParameter(UnTypedParameter::Null) => r matches Option::Some(v)
                    && v@ == Seq::<char>::empty(),
                _ => r is None,
            },
    {
        match self {
            Parameter::UnTypedParameter(UnTypedParameter::String(s)) => Option::Some(s.clone()),
            Parameter::UnTypedParameter(UnTypedParameter::Null) => Option::Some(String::new()),
            _ => Option::None,
        }
    }

    /// The instance reference a parameter carries; an omitted parameter
    /// falls back to the null id.
    pub fn to_entity_ref(&self) -> (r: Option<EntityRef>)
        ensures
            match self {
                Parameter::UnTypedParameter(UnTypedParameter::EntityRef(id)) => r == Option::Some(
                    EntityRef(*id),
                ),
                Parameter::OmittedParameter => r == Option::Some(EntityRef(0)),
                _ => r is None,
            },
    {
        match self {
            Parameter::UnTypedParameter(UnTypedParameter::EntityRef(id)) => Option::Some(
                EntityRef(*id),
            ),
            Parameter::OmittedParameter => Option::Some(EntityRef(0)),
            _ => Option::None,
        }
    }

    /// The element list a parameter carries; an omitted parameter stands
    /// for an empty list.
    pub fn into_list(self) -> (r: Option<Vec<Parameter>>)
        ensures
            match self {
                Parameter::UnTypedParameter(UnTypedParameter::List(items)) => r == Option::Some(
                    items,
                ),
                Parameter::OmittedParameter => r matches Option::Some(v) && v@.len() == 0,
                _ => r is None,
            },
    {
        match self {
            Parameter::UnTypedParameter(UnTypedParameter::List(items)) => Option::Some(items),
            Parameter::OmittedParameter => Option::Some(Vec::new()),
            _ => Option::None,
        }
    }
}

/// Mathematical image of a parameter tree.
pub enum ParameterV {
    Typed(TypedParameterV),
    Untyped(UnTypedParameterV),
    Omitted,
}

pub struct TypedParameterV {
    pub name: Seq<char>,
    pub parameters: Seq<ParameterV>,
}

pub enum UnTypedParameterV {
    List(Seq<ParameterV>),
    EnumValue(Seq<char>),
    EntityRef(int),
    ConstantRef(Seq<char>),
    Integer(int),
    Real(Seq<char>),
    String(Seq<char>),
    Binary,
    Null,
}

pub struct EntityInstanceV {
    pub id: int,
    pub value: Seq<TypedParameterV>,
}

pub struct ExchangeFileV {
    pub header: Seq<TypedParameterV>,
    pub data: Seq<EntityInstanceV>,
}

pub open spec fn parameter_view(p: Parameter) -> ParameterV
    decreases p,
{
    match p {
        Parameter::TypedParameter(tp) => ParameterV::Typed(typed_parameter_view(tp)),
        Parameter::UnTypedParameter(u) => ParameterV::Untyped(untyped_parameter_view(u)),
        Parameter::OmittedParameter => ParameterV::Omitted,
    }
}

pub open spec fn typed_parameter_view(tp: TypedParameter) -> TypedParameterV
    decreases tp,
{
    TypedParameterV { name: tp.name@, parameters: parameters_view(tp.parameters@) }
}

pub open spec fn parameters_view(s: Seq<Parameter>) -> Seq<ParameterV>
    decreases s,
{
    Seq::new(
        s.len(),
        |i: int|
            if 0 <= i < s.len() {
                parameter_view(s[i])
            } else {
                ParameterV::Omitted
            },
    )
}

pub open spec fn untyped_parameter_view(u: UnTypedParameter) -> UnTypedParameterV
    decreases u,
{
    match u {
        UnTypedParameter::List(items) => UnTypedParameterV::List(parameters_view(items@)),
        UnTypedParameter::EnumValue(v) => UnTypedParameterV::EnumValue(v@),
        UnTypedParameter::EntityRef(id) => UnTypedParameterV::EntityRef(id as int),
        UnTypedParameter::ConstantRef(n) => UnTypedParameterV::ConstantRef(n@),
        UnTypedParameter::Integer(n) => UnTypedParameterV::Integer(n as int),
        UnTypedParameter::Real(t) => UnTypedParameterV::Real(t@),
        UnTypedParameter::String(t) => UnTypedParameterV::String(t@),
        UnTypedParameter::Binary => UnTypedParameterV::Binary,
        UnTypedParameter::Null => UnTypedParameterV::Null,
    }
}

pub open spec fn typed_parameters_view(s: Seq<TypedParameter>) -> Seq<TypedParameterV> {
    Seq::new(
        s.len(),
        |i: int|
            if 0 <= i < s.len() {
                typed_parameter_view(s[i])
            } else {
                TypedParameterV { name: Seq::empty(), parameters: Seq::empty() }
            },
    )
}

impl View for Parameter {
    type V = ParameterV;

    open spec fn view(&self) -> ParameterV {
        parameter_view(*self)
    }
}

impl View for TypedParameter {
    type V = TypedParameterV;

    open spec fn view(&self) -> TypedParameterV {
        typed_parameter_view(*self)
    }
}

impl DeepView for TypedParameter {
    type V = TypedParameterV;

    open spec fn deep_view(&self) -> TypedParameterV {
        self@
    }
}

impl View for UnTypedParameter {
    type V = UnTypedParameterV;

    open spec fn view(&self) -> UnTypedParameterV {
        untyped_parameter_view(*self)
    }
}

impl View for EntityInstance {
    type V = EntityInstanceV;

    open spec fn view(&self) -> EntityInstanceV {
        EntityInstanceV { id: self.id as int, value: typed_parameters_view(self.value@) }
    }
}

impl DeepView for EntityInstance {
    type V = EntityInstanceV;

    open spec fn deep_view(&self) -> EntityInstanceV {
        self@
    }
}

impl View for ExchangeFile {
    type V = ExchangeFileV;

    open spec fn view(&self) -> ExchangeFileV {
        ExchangeFileV {
            header: typed_parameters_view(self.header@),
            data: Seq::new(
                self.data@.len(),
                |i: int|
                    if 0 <= i < self.data@.len() {
                        self.data@[i]@
                    } else {
                        EntityInstanceV { id: 0, value: Seq::empty() }
                    },
            ),
        }
    }
}

} // verus!
