use vstd::prelude::*;
use super::declaration::{Constant, Declaration, DeclarationV};

verus! {

/// A parsed schema: its name and its declarations, in source order.
#[derive(Debug)]
pub struct Schema {
    pub name: String,
    pub constants: Vec<Constant>,
    pub declarations: Vec<Declaration>,
}

/// Generation-relevant image of a schema.
pub struct SchemaV {
    pub name: Seq<char>,
    pub declarations: Seq<DeclarationV>,
}

impl View for Schema {
    type V = SchemaV;

    open spec fn view(&self) -> SchemaV {
        SchemaV { name: self.name@, declarations: self.declarations.deep_view() }
    }
}

} // verus!
