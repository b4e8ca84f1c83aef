mod datatype;
mod declaration;
mod expression;
pub mod parser;
mod schema;

pub use datatype::{
    BoundSpec, DataType, DataTypeV, clone_data_type, clone_string, clone_string_opt,
    clone_string_vec, data_type_view,
};
pub use declaration::{
    Attribute, AttributeReference, AttributeV, Constant, Declaration, DeclarationV,
    DerivedAttribute, DomainRule, Entity, EntityV, Function, Parameter, Rule, Statement, TypeDef,
    TypeDefV, UniqueRule, clone_attribute, clone_attribute_vec,
};
pub use expression::{
    Accessor, Expression, Factor, Literal, LiteralV, Primary, QualifiedAccess, SimpleExpression,
    SimpleFactor, Term,
};
pub use parser::schema;
pub use schema::{Schema, SchemaV};
