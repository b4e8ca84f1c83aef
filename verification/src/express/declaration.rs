use vstd::prelude::*;
use super::datatype::{DataType, DataTypeV, clone_data_type, clone_string, clone_string_opt};
use super::expression::Expression;

verus! {

/// One declaration of a schema body.
#[derive(Debug)]
pub enum Declaration {
    TypeDef(TypeDef),
    Entity(Entity),
    Function(Function),
    Rule(Rule),
}

#[derive(Debug)]
pub struct TypeDef {
    pub name: String,
    pub underlying_type: DataType,
    pub domain_rules: Vec<DomainRule>,
}

#[derive(Debug)]
pub struct Entity {
    pub name: String,
    pub is_abstract: bool,
    pub supertypes: Vec<String>,
    pub attributes: Vec<Attribute>,
    pub derives: Vec<DerivedAttribute>,
    pub domain_rules: Vec<DomainRule>,
    pub unique_rules: Vec<UniqueRule>,
}

#[derive(Debug)]
pub struct Function {
    pub name: String,
    pub return_type: DataType,
    pub parameters: Vec<Parameter>,
    pub statements: Vec<Statement>,
}

#[derive(Debug)]
pub struct Rule {
    pub name: String,
    pub entities: Vec<String>,
    pub statements: Vec<Statement>,
}

#[derive(Debug)]
pub struct Attribute {
    pub name: String,
    pub supertype: Option<String>,
    pub data_type: DataType,
    pub optional: bool,
}

#[derive(Debug)]
pub struct DerivedAttribute {
    pub name: String,
    pub data_type: DataType,
    pub expr: Expression,
}

#[derive(Debug)]
pub struct AttributeReference {
    pub name: String,
    pub entity: Option<String>,
}

#[derive(Debug)]
pub struct DomainRule {
    pub label: Option<String>,
    pub expr: Expression,
}

#[derive(Debug)]
pub struct UniqueRule {
    pub label: Option<String>,
    pub attributes: Vec<AttributeReference>,
}

#[derive(Debug)]
pub struct Parameter {
    pub name: String,
    pub data_type: DataType,
}

#[derive(Debug)]
pub struct Constant {
    pub name: String,
    pub data_type: DataType,
    pub expr: Expression,
}

/// A statement of a function body, kept as unparsed text.
#[derive(Debug)]
pub struct Statement {
    pub text: String,
}

/// Mathematical image of an attribute.
pub struct AttributeV {
    pub name: Seq<char>,
    pub supertype: Option<Seq<char>>,
    pub data_type: DataTypeV,
    pub optional: bool,
}

impl View for Attribute {
    type V = AttributeV;

    open spec fn view(&self) -> AttributeV {
        AttributeV {
            name: self.name@,
            supertype: match self.supertype {
                Option::Some(s) => Option::Some(s@),
                Option::None => Option::None,
            },
            data_type: self.data_type@,
            optional: self.optional,
        }
    }
}

impl DeepView for Attribute {
    type V = AttributeV;

    open spec fn deep_view(&self) -> AttributeV {
        self@
    }
}

pub fn clone_attribute(a: &Attribute) -> (r: Attribute)
    ensures
        r@ == a@,
{
    Attribute {
        name: clone_string(&a.name),
        supertype: clone_string_opt(&a.supertype),
        data_type: clone_data_type(&a.data_type),
        optional: a.optional,
    }
}

pub fn clone_attribute_vec(v: &Vec<Attribute>) -> (r: Vec<Attribute>)
    ensures
        r.deep_view() == v.deep_view(),
{
    let mut out: Vec<Attribute> = Vec::new();
    let mut i: usize = 0;
    while i < v.len()
        invariant
            i <= v.len(),
            out.len() == i,
            forall|k: int| 0 <= k < i ==> out[k]@ == v[k]@,
        decreases v.len() - i,
    {
        out.push(clone_attribute(&v[i]));
        i = i + 1;
    }
    proof {
        assert(out.deep_view() =~= v.deep_view());
    }
    out
}

/// Generation-relevant image of an entity declaration: rule bodies and
/// derived attributes play no part in analysis or generation.
pub struct EntityV {
    pub name: Seq<char>,
    pub is_abstract: bool,
    pub supertypes: Seq<Seq<char>>,
    pub attributes: Seq<AttributeV>,
}

impl View for Entity {
    type V = EntityV;

    open spec fn view(&self) -> EntityV {
        EntityV {
            name: self.name@,
            is_abstract: self.is_abstract,
            supertypes: self.supertypes.deep_view(),
            attributes: self.attributes.deep_view(),
        }
    }
}

pub struct TypeDefV {
    pub name: Seq<char>,
    pub underlying_type: DataTypeV,
}

impl View for TypeDef {
    type V = TypeDefV;

    open spec fn view(&self) -> TypeDefV {
        TypeDefV { name: self.name@, underlying_type: self.underlying_type@ }
    }
}

/// Generation-relevant image of a declaration; function and rule bodies do
/// not take part in generation.
pub enum DeclarationV {
    TypeDef(TypeDefV),
    Entity(EntityV),
    Function,
    Rule,
}

impl View for Declaration {
    type V = DeclarationV;

    open spec fn view(&self) -> DeclarationV {
        match self {
            Declaration::TypeDef(t) => DeclarationV::TypeDef(t@),
            Declaration::Entity(e) => DeclarationV::Entity(e@),
            Declaration::Function(_) => DeclarationV::Function,
            Declaration::Rule(_) => DeclarationV::Rule,
        }
    }
}

impl DeepView for Declaration {
    type V = DeclarationV;

    open spec fn deep_view(&self) -> DeclarationV {
        self@
    }
}

} // verus!
