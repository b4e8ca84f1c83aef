use vstd::prelude::*;
use crate::analysis::{
    EntityInfo, EntityInfoV, SchemaError, TypeInfo, TypeInfoV, flatten_attrs, supers_chain,
};
use crate::express::{Attribute, AttributeV, DataType, DataTypeV};
use crate::names::{camel_of, shouty_of, to_camel_case, to_shouty_snake_case, to_uppercase, upper_of};
use crate::table::NameTable;

verus! {

/// Whether an attribute of this declared type is represented by an
/// `EntityRef` id instead of an inline value: so for entity names and for
/// names of select types whose members are all entities.  This is the
/// indirection that keeps generated structs finite in the face of cyclic
/// entity references.
pub open spec fn is_ref_name(
    ents: Map<Seq<char>, EntityInfoV>,
    typs: Map<Seq<char>, TypeInfoV>,
    name: Seq<char>,
) -> bool {
    ents.contains_key(name) || (typs.contains_key(name) && typs[name].is_entity)
}

/// The generated source text of a field or accessor type, before the
/// optional wrap.
pub open spec fn base_type_text(
    ents: Map<Seq<char>, EntityInfoV>,
    typs: Map<Seq<char>, TypeInfoV>,
    dt: DataTypeV,
) -> Seq<char>
    decreases dt,
{
    match dt {
        DataTypeV::Number => "Real"@,
        DataTypeV::Integer => "i64"@,
        DataTypeV::Real { precision } => "Real"@,
        DataTypeV::Boolean => "bool"@,
        DataTypeV::Logical => "Option<bool>"@,
        DataTypeV::String { width, fixed } => "String"@,
        DataTypeV::TypeRef { name } => if is_ref_name(ents, typs, name) {
            "EntityRef"@
        } else {
            camel_of(name)
        },
        DataTypeV::SetOf { bound, base_type } => "HashSet<"@ + base_type_text(
            ents,
            typs,
            *base_type,
        ) + ">"@,
        DataTypeV::Bag { bound, base_type } => "Vec<"@ + base_type_text(ents, typs, *base_type)
            + ">"@,
        DataTypeV::Array { bound, optional, unique, base_type } => "Vec<"@ + base_type_text(
            ents,
            typs,
            *base_type,
        ) + ">"@,
        DataTypeV::List { bound, unique, base_type } => "Vec<"@ + base_type_text(
            ents,
            typs,
            *base_type,
        ) + ">"@,
        _ => "Unimplemented"@,
    }
}

/// The generated source text of an attribute's type: the base type,
/// wrapped in `Option` when the attribute is optional.
pub open spec fn opt_type_text(
    ents: Map<Seq<char>, EntityInfoV>,
    typs: Map<Seq<char>, TypeInfoV>,
    dt: DataTypeV,
    optional: bool,
) -> Seq<char> {
    if optional {
        "Option<"@ + base_type_text(ents, typs, dt) + ">"@
    } else {
        base_type_text(ents, typs, dt)
    }
}

/// Law: an attribute whose declared type names an entity, or a select that
/// stands for entities, is always generated as an `EntityRef` id
/// reference, never as an inline value; so an entity reachable from
/// itself through attribute types can never produce an infinitely-sized
/// generated struct, because every edge of such a chain is an id.
pub proof fn lemma_entity_reference_is_indirect(
    ents: Map<Seq<char>, EntityInfoV>,
    typs: Map<Seq<char>, TypeInfoV>,
    name: Seq<char>,
)
    requires
        is_ref_name(ents, typs, name),
    ensures
        base_type_text(ents, typs, DataTypeV::TypeRef { name }) == "EntityRef"@,
{
}

fn is_entity_or_entity_select(
    ents: &NameTable<EntityInfo>,
    typs: &NameTable<TypeInfo>,
    name: &String,
) -> (r: bool)
    requires
        ents.wf(),
        typs.wf(),
    ensures
        r == is_ref_name(ents.map_view(), typs.map_view(), name@),
{
    if ents.contains(name) {
        return true;
    }
    match typs.get(name) {
        Option::Some(info) => info.is_entity,
        Option::None => false,
    }
}

/// The generated type text of one data type, `Option`-wrapped when the
/// attribute it belongs to is optional.
pub fn type_text(
    ents: &NameTable<EntityInfo>,
    typs: &NameTable<TypeInfo>,
    dt: &DataType,
    optional: bool,
) -> (r: String)
    requires
        ents.wf(),
        typs.wf(),
    ensures
        r@ == opt_type_text(ents.map_view(), typs.map_view(), dt@, optional),
{
    let base = base_type_name(ents, typs, dt);
    if optional {
        let mut out = String::new();
        out.append("Option<");
        out.append(base.as_str());
        out.append(">");
        out
    } else {
        base
    }
}

fn base_type_name(ents: &NameTable<EntityInfo>, typs: &NameTable<TypeInfo>, dt: &DataType) -> (r:
    String)
    requires
        ents.wf(),
        typs.wf(),
    ensures
        r@ == base_type_text(ents.map_view(), typs.map_view(), dt@),
    decreases *dt,
{
    match dt {
        DataType::Number => String::from_str("Real"),
        DataType::Integer => String::from_str("i64"),
        DataType::Real { .. } => String::from_str("Real"),
        DataType::Boolean => String::from_str("bool"),
        DataType::Logical => String::from_str("Option<bool>"),
        DataType::String { .. } => String::from_str("String"),
        DataType::TypeRef { name } => {
            if is_entity_or_entity_select(ents, typs, name) {
                String::from_str("EntityRef")
            } else {
                to_camel_case(name.as_str())
            }
        },
        DataType::SetOf { bound, base_type } => {
            let inner = base_type_name(ents, typs, base_type);
            let mut out = String::new();
            out.append("HashSet<");
            out.append(inner.as_str());
            out.append(">");
            out
        },
        DataType::Bag { bound, base_type } => {
            let inner = base_type_name(ents, typs, base_type);
            let mut out = String::new();
            out.append("Vec<");
            out.append(inner.as_str());
            out.append(">");
            out
        },
        DataType::Array { bound, optional, unique, base_type } => {
            let inner = base_type_name(ents, typs, base_type);
            let mut out = String::new();
            out.append("Vec<");
            out.append(inner.as_str());
            out.append(">");
            out
        },
        DataType::List { bound, unique, base_type } => {
            let inner = base_type_name(ents, typs, base_type);
            let mut out = String::new();
            out.append("Vec<");
            out.append(inner.as_str());
            out.append(">");
            out
        },
        _ => String::from_str("Unimplemented"),
    }
}

/// The decimal spelling of a number.
pub open spec fn dec_text(n: nat) -> Seq<char>
    decreases n,
{
    if n < 10 {
        seq![dec_digit(n)]
    } else {
        dec_text(n / 10) + seq![dec_digit(n % 10)]
    }
}

pub open spec fn dec_digit(n: nat) -> char {
    if n == 0 {
        '0'
    } else if n == 1 {
        '1'
    } else if n == 2 {
        '2'
    } else if n == 3 {
        '3'
    } else if n == 4 {
        '4'
    } else if n == 5 {
        '5'
    } else if n == 6 {
        '6'
    } else if n == 7 {
        '7'
    } else if n == 8 {
        '8'
    } else {
        '9'
    }
}

fn dec_digit_str(n: usize) -> (r: &'static str)
    requires
        n < 10,
    ensures
        r@ == seq![dec_digit(n as nat)],
{
    proof {
        reveal_strlit("0");
        reveal_strlit("1");
        reveal_strlit("2");
        reveal_strlit("3");
        reveal_strlit("4");
        reveal_strlit("5");
        reveal_strlit("6");
        reveal_strlit("7");
        reveal_strlit("8");
        reveal_strlit("9");
    }
    if n == 0 {
        "0"
    } else if n == 1 {
        "1"
    } else if n == 2 {
        "2"
    } else if n == 3 {
        "3"
    } else if n == 4 {
        "4"
    } else if n == 5 {
        "5"
    } else if n == 6 {
        "6"
    } else if n == 7 {
        "7"
    } else if n == 8 {
        "8"
    } else {
        "9"
    }
}

/// The decimal spelling of a number, for the positional match arms.
pub fn dec_string(n: usize) -> (r: String)
    ensures
        r@ == dec_text(n as nat),
    decreases n,
{
    if n < 10 {
        String::from_str(dec_digit_str(n))
    } else {
        let mut out = dec_string(n / 10);
        out.append(dec_digit_str(n % 10));
        out
    }
}


/// The variant list lines of a generated enumeration.
pub open spec fn enum_variants_text(values: Seq<Seq<char>>) -> Seq<char>
    decreases values.len(),
{
    if values.len() == 0 {
        Seq::empty()
    } else {
        enum_variants_text(values.drop_last()) + "    "@ + camel_of(values.last()) + ",\n"@
    }
}

/// The match arms converting an enumeration value string to a variant.
pub open spec fn enum_arms_text(ename: Seq<char>, values: Seq<Seq<char>>) -> Seq<char>
    decreases values.len(),
{
    if values.len() == 0 {
        Seq::empty()
    } else {
        enum_arms_text(ename, values.drop_last()) + "            \""@ + shouty_of(values.last())
            + "\" => "@ + ename + "::"@ + camel_of(values.last()) + ",\n"@
    }
}

/// The generated text of an enumeration type definition: the enum itself,
/// a `Default` choosing the first declared value, and conversions from the
/// value string and from a generic parameter.
pub open spec fn enum_def_text(tname: Seq<char>, values: Seq<Seq<char>>) -> Seq<char> {
    let e = camel_of(tname);
    let head = "#[derive(Eq, PartialEq, Hash, Debug)]\npub enum "@ + e + " {\n"@
        + enum_variants_text(values) + "}\n"@;
    if values.len() == 0 {
        head
    } else {
        head + "impl Default for "@ + e + " {\n    fn default() -> Self {\n        "@ + e
            + "::"@ + camel_of(values[0]) + "\n    }\n}\nimpl From<String> for "@ + e
            + " {\n    fn from(value: String) -> Self {\n        match value.as_str() {\n"@
            + enum_arms_text(e, values)
            + "            _ => panic!(\"{} is not a valid value\", value),\n        }\n    }\n}\nimpl FromParameter for "@
            + e
            + " {\n    fn from_parameter(parameter: Parameter) -> Self {\n        match parameter {\n            Parameter::UnTypedParameter(untyped_parameter) => match untyped_parameter {\n                UnTypedParameter::EnumValue(value) => value.into(),\n                _ => panic!(\"parameter is not an enum value\"),\n            },\n            Parameter::OmittedParameter => "@
            + e
            + "::default(),\n            _ => panic!(\"parameter is not an enum value\"),\n        }\n    }\n}\n"@
    }
}

/// Emits an enumeration type definition.
#[verifier::loop_isolation(false)]
fn gen_enum_def(name: &String, values: &Vec<String>) -> (r: String)
    ensures
        r@ == enum_def_text(name@, values.deep_view()),
{
    let ghost vs = values.deep_view();
    let e = to_camel_case(name.as_str());
    let mut out = String::new();
    out.append("#[derive(Eq, PartialEq, Hash, Debug)]\npub enum ");
    out.append(e.as_str());
    out.append(" {\n");
    let ghost head0 = out@;
    let mut i: usize = 0;
    proof {
        assert(out@ =~= head0 + enum_variants_text(vs.take(0)));
    }
    while i < values.len()
        invariant
            i <= values.len(),
            out@ == head0 + enum_variants_text(vs.take(i as int)),
        decreases values.len() - i,
    {
        proof {
            assert(vs.take(i + 1).drop_last() =~= vs.take(i as int));
            assert(vs.take(i + 1).last() == vs[i as int]);
        }
        out.append("    ");
        let v = to_camel_case(values[i].as_str());
        out.append(v.as_str());
        out.append(",\n");
        proof {
            assert(out@ =~= head0 + enum_variants_text(vs.take(i + 1)));
        }
        i = i + 1;
    }
    proof {
        assert(vs.take(values.len() as int) =~= vs);
    }
    out.append("}\n");
    if values.len() == 0 {
        proof {
            assert(out@ =~= enum_def_text(name@, vs));
        }
        return out;
    }
    out.append("impl Default for ");
    out.append(e.as_str());
    out.append(" {\n    fn default() -> Self {\n        ");
    out.append(e.as_str());
    out.append("::");
    let v0 = to_camel_case(values[0].as_str());
    out.append(v0.as_str());
    out.append("\n    }\n}\nimpl From<String> for ");
    out.append(e.as_str());
    out.append(" {\n    fn from(value: String) -> Self {\n        match value.as_str() {\n");
    let ghost arms0 = out@;
    let mut j: usize = 0;
    proof {
        assert(out@ =~= arms0 + enum_arms_text(e@, vs.take(0)));
    }
    while j < values.len()
        invariant
            j <= values.len(),
            out@ == arms0 + enum_arms_text(e@, vs.take(j as int)),
        decreases values.len() - j,
    {
        proof {
            assert(vs.take(j + 1).drop_last() =~= vs.take(j as int));
            assert(vs.take(j + 1).last() == vs[j as int]);
        }
        out.append("            \"");
        let sv = to_shouty_snake_case(values[j].as_str());
        out.append(sv.as_str());
        out.append("\" => ");
        out.append(e.as_str());
        out.append("::");
        let cv = to_camel_case(values[j].as_str());
        out.append(cv.as_str());
        out.append(",\n");
        proof {
            assert(out@ =~= arms0 + enum_arms_text(e@, vs.take(j + 1)));
        }
        j = j + 1;
    }
    proof {
        assert(vs.take(values.len() as int) =~= vs);
    }
    out.append(
        "            _ => panic!(\"{} is not a valid value\", value),\n        }\n    }\n}\nimpl FromParameter for ",
    );
    out.append(e.as_str());
    out.append(
        " {\n    fn from_parameter(parameter: Parameter) -> Self {\n        match parameter {\n            Parameter::UnTypedParameter(untyped_parameter) => match untyped_parameter {\n                UnTypedParameter::EnumValue(value) => value.into(),\n                _ => panic!(\"parameter is not an enum value\"),\n            },\n            Parameter::OmittedParameter => ",
    );
    out.append(e.as_str());
    out.append(
        "::default(),\n            _ => panic!(\"parameter is not an enum value\"),\n        }\n    }\n}\n",
    );
    proof {
        assert(out@ =~= enum_def_text(name@, vs));
    }
    out
}


/// How many members of a select are entities.
pub open spec fn count_entities(ents: Map<Seq<char>, EntityInfoV>, types: Seq<Seq<char>>) -> nat
    decreases types.len(),
{
    if types.len() == 0 {
        0
    } else {
        count_entities(ents, types.drop_last()) + if ents.contains_key(types.last()) {
            1nat
        } else {
            0nat
        }
    }
}

/// The first member of a select that is an entity.
pub open spec fn first_entity_member(
    ents: Map<Seq<char>, EntityInfoV>,
    types: Seq<Seq<char>>,
) -> Seq<char>
    decreases types.len(),
{
    if types.len() == 0 {
        Seq::empty()
    } else if ents.contains_key(types[0]) {
        types[0]
    } else {
        first_entity_member(ents, types.drop_first())
    }
}

/// The variant lines of a generated select union: an entity member carries
/// an `EntityRef`, any other member carries its own generated type.
pub open spec fn select_variants_text(
    ents: Map<Seq<char>, EntityInfoV>,
    types: Seq<Seq<char>>,
) -> Seq<char>
    decreases types.len(),
{
    if types.len() == 0 {
        Seq::empty()
    } else {
        select_variants_text(ents, types.drop_last()) + "    "@ + camel_of(types.last()) + "("@
            + (if ents.contains_key(types.last()) {
            "EntityRef"@
        } else {
            camel_of(types.last())
        }) + "),\n"@
    }
}

/// The typed-constructor match arms of a select: one per non-entity member.
pub open spec fn select_typed_arms_text(
    e: Seq<char>,
    ents: Map<Seq<char>, EntityInfoV>,
    types: Seq<Seq<char>>,
) -> Seq<char>
    decreases types.len(),
{
    if types.len() == 0 {
        Seq::empty()
    } else {
        select_typed_arms_text(e, ents, types.drop_last()) + (if ents.contains_key(types.last()) {
            Seq::empty()
        } else {
            "                \""@ + shouty_of(types.last()) + "\" => "@ + e + "::"@ + camel_of(
                types.last(),
            ) + "(FromParameter::from_parameter(typed_parameter.parameters.into_iter().next().unwrap())),\n"@
        })
    }
}


/// Law: a select more than one of whose members is an entity is generated
/// with the `EntityRef` catch-all variant first, and its conversion
/// grounds a bare instance reference in that catch-all — a bare reference
/// cannot be grounded to one member without a second lookup.
pub proof fn lemma_select_all_entities_catch_all(
    tname: Seq<char>,
    types: Seq<Seq<char>>,
    ents: Map<Seq<char>, EntityInfoV>,
    hash: Set<Seq<char>>,
)
    requires
        count_entities(ents, types) > 1,
    ensures
        select_head_text(tname, types, ents, hash) == (if hash.contains(tname) {
            "#[derive(Eq, PartialEq, Hash, Debug)]\n"@
        } else {
            "#[derive(Debug)]\n"@
        }) + "pub enum "@ + camel_of(tname) + " {\n"@ + "    EntityRef(EntityRef),\n"@
            + select_variants_text(ents, types) + "}\n"@ + select_default_text(tname, types, ents),
        count_entities(ents, types) == types.len() ==> select_from_text(tname, types, ents)
            == "impl FromParameter for "@ + camel_of(tname)
            + " {\n    fn from_parameter(parameter: Parameter) -> Self {\n        match parameter {\n"@
            + "            Parameter::UnTypedParameter(untyped_parameter) => match untyped_parameter {\n                UnTypedParameter::EntityRef(id) => "@
            + camel_of(tname)
            + "::EntityRef(EntityRef(id)),\n                _ => panic!(\"parameter is not an instance\"),\n            },\n"@
            + "            _ => panic!(\"parameter is not recognized\"),\n        }\n    }\n}\n"@,
{
}

/// Law: a select exactly one of whose members is an entity has no
/// catch-all variant; its conversion grounds a bare instance reference
/// directly in the single entity member and dispatches typed parameters
/// to the value members.
pub proof fn lemma_select_single_entity_grounds_directly(
    tname: Seq<char>,
    types: Seq<Seq<char>>,
    ents: Map<Seq<char>, EntityInfoV>,
    hash: Set<Seq<char>>,
)
    requires
        count_entities(ents, types) == 1,
        types.len() > 1,
    ensures
        select_head_text(tname, types, ents, hash) == (if hash.contains(tname) {
            "#[derive(Eq, PartialEq, Hash, Debug)]\n"@
        } else {
            "#[derive(Debug)]\n"@
        }) + "pub enum "@ + camel_of(tname) + " {\n"@ + select_variants_text(ents, types)
            + "}\n"@ + select_default_text(tname, types, ents),
        select_from_text(tname, types, ents) == "impl FromParameter for "@ + camel_of(tname)
            + " {\n    fn from_parameter(parameter: Parameter) -> Self {\n        match parameter {\n"@
            + "            Parameter::TypedParameter(typed_parameter) => match typed_parameter.name.as_str() {\n"@
            + select_typed_arms_text(camel_of(tname), ents, types)
            + "                _ => panic!(\"parameter type is not recognized\"),\n            },\n"@
            + "            Parameter::UnTypedParameter(untyped_parameter) => match untyped_parameter {\n                UnTypedParameter::EntityRef(id) => "@
            + camel_of(tname) + "::"@ + camel_of(first_entity_member(ents, types))
            + "(EntityRef(id)),\n                _ => panic!(\"parameter is not an instance\"),\n            },\n"@
            + "            _ => panic!(\"parameter is not recognized\"),\n        }\n    }\n}\n"@,
{
}

/// Law: a select none of whose members is an entity is a plain union of
/// value variants; no `EntityRef` catch-all appears and its conversion
/// accepts typed parameters only.
pub proof fn lemma_select_plain_union(
    tname: Seq<char>,
    types: Seq<Seq<char>>,
    ents: Map<Seq<char>, EntityInfoV>,
    hash: Set<Seq<char>>,
)
    requires
        count_entities(ents, types) == 0,
        types.len() > 0,
    ensures
        select_head_text(tname, types, ents, hash) == (if hash.contains(tname) {
            "#[derive(Eq, PartialEq, Hash, Debug)]\n"@
        } else {
            "#[derive(Debug)]\n"@
        }) + "pub enum "@ + camel_of(tname) + " {\n"@ + select_variants_text(ents, types)
            + "}\n"@ + select_default_text(tname, types, ents),
        select_from_text(tname, types, ents) == "impl FromParameter for "@ + camel_of(tname)
            + " {\n    fn from_parameter(parameter: Parameter) -> Self {\n        match parameter {\n"@
            + "            Parameter::TypedParameter(typed_parameter) => match typed_parameter.name.as_str() {\n"@
            + select_typed_arms_text(camel_of(tname), ents, types)
            + "                _ => panic!(\"parameter type is not recognized\"),\n            },\n"@
            + "            _ => panic!(\"parameter is not recognized\"),\n        }\n    }\n}\n"@,
{
}

/// The default-value impl of a generated select.
pub open spec fn select_default_text(
    tname: Seq<char>,
    types: Seq<Seq<char>>,
    ents: Map<Seq<char>, EntityInfoV>,
) -> Seq<char> {
    let e = camel_of(tname);
    if types.len() == 0 {
        Seq::<char>::empty()
    } else {
        "impl Default for "@ + e + " {\n    fn default() -> Self {\n        "@ + e + "::"@
            + camel_of(types[0]) + "("@ + (if ents.contains_key(types[0]) {
            "EntityRef::default()"@
        } else {
            camel_of(types[0]) + "::default()"@
        }) + ")\n    }\n}\n"@
    }
}

/// Law: a concrete entity without attributes still gets a valid positional
/// constructor: it ignores its parameter list entirely and returns the
/// type's default value.
pub proof fn lemma_empty_entity_default_constructor(
    ents: Map<Seq<char>, EntityInfoV>,
    typs: Map<Seq<char>, TypeInfoV>,
    sname: Seq<char>,
    flat: Seq<AttributeV>,
    chain: Seq<EntityInfoV>,
)
    requires
        flat.len() == 0,
    ensures
        concrete_entity_text(ents, typs, sname, flat, chain)
            == "#[derive(Default, Debug)]\npub struct "@ + sname + " {\n"@ + struct_fields_text(
            ents,
            typs,
            flat,
        ) + "}\n"@ + impls_text(ents, typs, chain, sname, flat) + "impl "@ + sname
            + " {\n    pub fn from_parameters(_parameters: Vec<Parameter>) -> Self {\n        "@
            + sname + "::default()\n    }\n}\n"@,
{
}

/// The generated text of a select type definition: a tagged union with an
/// `EntityRef` catch-all variant exactly when more than one member is an
/// entity, a `Default` choosing the first member, and a conversion from a
/// generic parameter.
pub open spec fn select_head_text(
    tname: Seq<char>,
    types: Seq<Seq<char>>,
    ents: Map<Seq<char>, EntityInfoV>,
    hash: Set<Seq<char>>,
) -> Seq<char> {
    let e = camel_of(tname);
    let ecount = count_entities(ents, types);
    let derive_line = if hash.contains(tname) {
        "#[derive(Eq, PartialEq, Hash, Debug)]\n"@
    } else {
        "#[derive(Debug)]\n"@
    };
    let head = derive_line + "pub enum "@ + e + " {\n"@ + (if ecount > 1 {
        "    EntityRef(EntityRef),\n"@
    } else {
        Seq::empty()
    }) + select_variants_text(ents, types) + "}\n"@;
    head + select_default_text(tname, types, ents)
}

pub open spec fn select_from_text(
    tname: Seq<char>,
    types: Seq<Seq<char>>,
    ents: Map<Seq<char>, EntityInfoV>,
) -> Seq<char> {
    let e = camel_of(tname);
    let ecount = count_entities(ents, types);
    let typed_case = if ecount < types.len() {
        "            Parameter::TypedParameter(typed_parameter) => match typed_parameter.name.as_str() {\n"@
            + select_typed_arms_text(e, ents, types)
            + "                _ => panic!(\"parameter type is not recognized\"),\n            },\n"@
    } else {
        Seq::<char>::empty()
    };
    let untyped_case = if ecount == 1 {
        "            Parameter::UnTypedParameter(untyped_parameter) => match untyped_parameter {\n                UnTypedParameter::EntityRef(id) => "@
            + e + "::"@ + camel_of(first_entity_member(ents, types))
            + "(EntityRef(id)),\n                _ => panic!(\"parameter is not an instance\"),\n            },\n"@
    } else if ecount > 1 {
        "            Parameter::UnTypedParameter(untyped_parameter) => match untyped_parameter {\n                UnTypedParameter::EntityRef(id) => "@
            + e
            + "::EntityRef(EntityRef(id)),\n                _ => panic!(\"parameter is not an instance\"),\n            },\n"@
    } else {
        Seq::<char>::empty()
    };
    "impl FromParameter for "@ + e
        + " {\n    fn from_parameter(parameter: Parameter) -> Self {\n        match parameter {\n"@
        + typed_case + untyped_case
        + "            _ => panic!(\"parameter is not recognized\"),\n        }\n    }\n}\n"@
}

/// The generated text of a select type definition: a tagged union with an
/// `EntityRef` catch-all variant exactly when more than one member is an
/// entity, a `Default` choosing the first member, and a conversion from a
/// generic parameter.
pub open spec fn select_def_text(
    tname: Seq<char>,
    types: Seq<Seq<char>>,
    ents: Map<Seq<char>, EntityInfoV>,
    hash: Set<Seq<char>>,
) -> Seq<char> {
    select_head_text(tname, types, ents, hash) + select_from_text(tname, types, ents)
}

#[verifier::loop_isolation(false)]
fn count_entity_members(ents: &NameTable<EntityInfo>, types: &Vec<String>) -> (r: usize)
    requires
        ents.wf(),
    ensures
        r as nat == count_entities(ents.map_view(), types.deep_view()),
        r <= types.len(),
{
    let ghost tys = types.deep_view();
    let mut n: usize = 0;
    let mut i: usize = 0;
    proof {
        assert(tys.take(0) =~= Seq::<Seq<char>>::empty());
    }
    while i < types.len()
        invariant
            i <= types.len(),
            n <= i,
            n as nat == count_entities(ents.map_view(), tys.take(i as int)),
            ents.wf(),
        decreases types.len() - i,
    {
        proof {
            assert(tys.take(i + 1).drop_last() =~= tys.take(i as int));
            assert(tys.take(i + 1).last() == tys[i as int]);
        }
        if ents.contains(&types[i]) {
            n = n + 1;
        }
        i = i + 1;
    }
    proof {
        assert(tys.take(types.len() as int) =~= tys);
    }
    n
}

#[verifier::loop_isolation(false)]
fn find_first_entity_member(ents: &NameTable<EntityInfo>, types: &Vec<String>) -> (r: String)
    requires
        ents.wf(),
    ensures
        r@ == first_entity_member(ents.map_view(), types.deep_view()),
{
    let ghost tys = types.deep_view();
    let mut i: usize = 0;
    proof {
        assert(tys.skip(0) =~= tys);
    }
    while i < types.len()
        invariant
            i <= types.len(),
            ents.wf(),
            first_entity_member(ents.map_view(), tys) == first_entity_member(
                ents.map_view(),
                tys.skip(i as int),
            ),
        decreases types.len() - i,
    {
        proof {
            assert(tys.skip(i as int)[0] == tys[i as int]);
            assert(tys.skip(i as int).drop_first() =~= tys.skip(i + 1));
        }
        if ents.contains(&types[i]) {
            return crate::express::clone_string(&types[i]);
        }
        i = i + 1;
    }
    proof {
        assert(tys.skip(types.len() as int) =~= Seq::<Seq<char>>::empty());
    }
    String::new()
}

/// Emits a select type definition.
fn gen_select_def(
    ents: &NameTable<EntityInfo>,
    hashable: &Vec<String>,
    name: &String,
    types: &Vec<String>,
) -> (r: String)
    requires
        ents.wf(),
    ensures
        r@ == select_def_text(
            name@,
            types.deep_view(),
            ents.map_view(),
            Set::new(|n: Seq<char>| hashable.deep_view().contains(n)),
        ),
{
    let mut out = gen_select_head(ents, hashable, name, types);
    let tail = gen_select_from(ents, name, types);
    out.append(tail.as_str());
    out
}

/// Emits the variant lines of a select union.
#[verifier::loop_isolation(false)]
fn gen_select_variants(ents: &NameTable<EntityInfo>, types: &Vec<String>) -> (r: String)
    requires
        ents.wf(),
    ensures
        r@ == select_variants_text(ents.map_view(), types.deep_view()),
{
    let ghost tys = types.deep_view();
    let mut out = String::new();
    let mut i: usize = 0;
    proof {
        assert(out@ =~= select_variants_text(ents.map_view(), tys.take(0)));
    }
    while i < types.len()
        invariant
            i <= types.len(),
            out@ == select_variants_text(ents.map_view(), tys.take(i as int)),
        decreases types.len() - i,
    {
        proof {
            assert(tys.take(i + 1).drop_last() =~= tys.take(i as int));
            assert(tys.take(i + 1).last() == tys[i as int]);
        }
        out.append("    ");
        let cv = to_camel_case(types[i].as_str());
        out.append(cv.as_str());
        out.append("(");
        if ents.contains(&types[i]) {
            out.append("EntityRef");
        } else {
            out.append(cv.as_str());
        }
        out.append("),\n");
        proof {
            assert(out@ =~= select_variants_text(ents.map_view(), tys.take(i + 1)));
        }
        i = i + 1;
    }
    proof {
        assert(tys.take(types.len() as int) =~= tys);
    }
    out
}

/// Emits the typed-constructor arms of a select conversion.
#[verifier::loop_isolation(false)]
fn gen_select_typed_arms(
    ents: &NameTable<EntityInfo>,
    e: &String,
    types: &Vec<String>,
) -> (r: String)
    requires
        ents.wf(),
    ensures
        r@ == select_typed_arms_text(e@, ents.map_view(), types.deep_view()),
{
    let ghost tys = types.deep_view();
    let mut out = String::new();
    let mut j: usize = 0;
    proof {
        assert(out@ =~= select_typed_arms_text(e@, ents.map_view(), tys.take(0)));
    }
    while j < types.len()
        invariant
            j <= types.len(),
            out@ == select_typed_arms_text(e@, ents.map_view(), tys.take(j as int)),
        decreases types.len() - j,
    {
        proof {
            assert(tys.take(j + 1).drop_last() =~= tys.take(j as int));
            assert(tys.take(j + 1).last() == tys[j as int]);
        }
        if !ents.contains(&types[j]) {
            out.append("                \"");
            let sv = to_shouty_snake_case(types[j].as_str());
            out.append(sv.as_str());
            out.append("\" => ");
            out.append(e.as_str());
            out.append("::");
            let cv = to_camel_case(types[j].as_str());
            out.append(cv.as_str());
            out.append("(FromParameter::from_parameter(typed_parameter.parameters.into_iter().next().unwrap())),\n");
        }
        proof {
            assert(out@ =~= select_typed_arms_text(e@, ents.map_view(), tys.take(j + 1)));
        }
        j = j + 1;
    }
    proof {
        assert(tys.take(types.len() as int) =~= tys);
    }
    out
}

/// Emits the union, its variants, and its default value.
#[verifier::loop_isolation(false)]
#[verifier::rlimit(50)]
fn gen_select_head(
    ents: &NameTable<EntityInfo>,
    hashable: &Vec<String>,
    name: &String,
    types: &Vec<String>,
) -> (r: String)
    requires
        ents.wf(),
    ensures
        r@ == select_head_text(
            name@,
            types.deep_view(),
            ents.map_view(),
            Set::new(|n: Seq<char>| hashable.deep_view().contains(n)),
        ),
{
    let ghost tys = types.deep_view();
    let ghost hset = Set::new(|n: Seq<char>| hashable.deep_view().contains(n));
    let e = to_camel_case(name.as_str());
    let ecount = count_entity_members(ents, types);
    let mut out = String::new();
    if crate::analysis::vec_contains_string(hashable, name) {
        out.append("#[derive(Eq, PartialEq, Hash, Debug)]\n");
    } else {
        out.append("#[derive(Debug)]\n");
    }
    out.append("pub enum ");
    out.append(e.as_str());
    out.append(" {\n");
    if ecount > 1 {
        out.append("    EntityRef(EntityRef),\n");
    }
    let vars = gen_select_variants(ents, types);
    out.append(vars.as_str());
    out.append("}\n");
    if types.len() > 0 {
        out.append("impl Default for ");
        out.append(e.as_str());
        out.append(" {\n    fn default() -> Self {\n        ");
        out.append(e.as_str());
        out.append("::");
        let c0 = to_camel_case(types[0].as_str());
        out.append(c0.as_str());
        out.append("(");
        if ents.contains(&types[0]) {
            out.append("EntityRef::default()");
        } else {
            out.append(c0.as_str());
            out.append("::default()");
        }
        out.append(")\n    }\n}\n");
    }
    proof {
        assert(out@ =~= select_head_text(name@, tys, ents.map_view(), hset));
    }
    out
}

/// Emits the conversion of a generic parameter into the union.
#[verifier::loop_isolation(false)]
#[verifier::rlimit(50)]
fn gen_select_from(ents: &NameTable<EntityInfo>, name: &String, types: &Vec<String>) -> (r:
    String)
    requires
        ents.wf(),
    ensures
        r@ == select_from_text(name@, types.deep_view(), ents.map_view()),
{
    let ghost tys = types.deep_view();
    let e = to_camel_case(name.as_str());
    let ecount = count_entity_members(ents, types);
    let mut out = String::new();
    out.append("impl FromParameter for ");
    out.append(e.as_str());
    out.append(" {\n    fn from_parameter(parameter: Parameter) -> Self {\n        match parameter {\n");
    if ecount < types.len() {
        out.append(
            "            Parameter::TypedParameter(typed_parameter) => match typed_parameter.name.as_str() {\n",
        );
        let arms = gen_select_typed_arms(ents, &e, types);
        out.append(arms.as_str());
        out.append(
            "                _ => panic!(\"parameter type is not recognized\"),\n            },\n",
        );
    }
    if ecount == 1 {
        out.append(
            "            Parameter::UnTypedParameter(untyped_parameter) => match untyped_parameter {\n                UnTypedParameter::EntityRef(id) => ",
        );
        out.append(e.as_str());
        out.append("::");
        let fe = find_first_entity_member(ents, types);
        let fc = to_camel_case(fe.as_str());
        out.append(fc.as_str());
        out.append(
            "(EntityRef(id)),\n                _ => panic!(\"parameter is not an instance\"),\n            },\n",
        );
    } else if ecount > 1 {
        out.append(
            "            Parameter::UnTypedParameter(untyped_parameter) => match untyped_parameter {\n                UnTypedParameter::EntityRef(id) => ",
        );
        out.append(e.as_str());
        out.append(
            "::EntityRef(EntityRef(id)),\n                _ => panic!(\"parameter is not an instance\"),\n            },\n",
        );
    }
    out.append(
        "            _ => panic!(\"parameter is not recognized\"),\n        }\n    }\n}\n",
    );
    proof {
        assert(out@ =~= select_from_text(name@, tys, ents.map_view()));
    }
    out
}

/// Whether a generated field of this type is passed by value.
pub open spec fn is_copy_type(dt: DataTypeV) -> bool {
    dt is Number || dt is Integer || dt is Real || dt is Boolean || dt is Logical
}

fn is_copy(dt: &DataType) -> (r: bool)
    ensures
        r == is_copy_type(dt@),
{
    match dt {
        DataType::Number => true,
        DataType::Integer => true,
        DataType::Real { .. } => true,
        DataType::Boolean => true,
        DataType::Logical => true,
        _ => false,
    }
}

/// The first attribute of the list bearing the given name.
pub open spec fn find_attr(s: Seq<AttributeV>, n: Seq<char>) -> Option<AttributeV>
    decreases s.len(),
{
    if s.len() == 0 {
        Option::None
    } else if s[0].name == n {
        Option::Some(s[0])
    } else {
        find_attr(s.drop_first(), n)
    }
}

#[verifier::loop_isolation(false)]
fn find_attribute<'a>(v: &'a Vec<Attribute>, n: &String) -> (r: Option<&'a Attribute>)
    ensures
        match r {
            Option::Some(a) => find_attr(v.deep_view(), n@) == Option::Some(a@),
            Option::None => find_attr(v.deep_view(), n@) is None,
        },
{
    let ghost dv = v.deep_view();
    let mut i: usize = 0;
    proof {
        assert(dv.skip(0) =~= dv);
    }
    while i < v.len()
        invariant
            i <= v.len(),
            find_attr(dv, n@) == find_attr(dv.skip(i as int), n@),
        decreases v.len() - i,
    {
        proof {
            assert(dv.skip(i as int)[0] == dv[i as int]);
            assert(dv.skip(i as int).drop_first() =~= dv.skip(i + 1));
        }
        if v[i].name.eq(n) {
            return Option::Some(&v[i]);
        }
        i = i + 1;
    }
    proof {
        assert(dv.skip(v.len() as int) =~= Seq::<AttributeV>::empty());
    }
    Option::None
}

/// The supertype-bound list of a generated capability trait: one bound per
/// declared supertype the table knows.
pub open spec fn trait_bounds_text(
    ents: Map<Seq<char>, EntityInfoV>,
    sups: Seq<Seq<char>>,
) -> Seq<char>
    decreases sups.len(),
{
    if sups.len() == 0 {
        Seq::empty()
    } else {
        let front = trait_bounds_text(ents, sups.drop_last());
        if !ents.contains_key(sups.last()) {
            front
        } else {
            let t = "I"@ + ents[sups.last()].name;
            if front.len() == 0 {
                t
            } else {
                front + " + "@ + t
            }
        }
    }
}

#[verifier::loop_isolation(false)]
fn gen_trait_bounds(ents: &NameTable<EntityInfo>, sups: &Vec<String>) -> (r: String)
    requires
        ents.wf(),
    ensures
        r@ == trait_bounds_text(ents.map_view(), sups.deep_view()),
{
    let ghost sv = sups.deep_view();
    let mut out = String::new();
    let mut i: usize = 0;
    proof {
        assert(out@ =~= trait_bounds_text(ents.map_view(), sv.take(0)));
    }
    while i < sups.len()
        invariant
            i <= sups.len(),
            out@ == trait_bounds_text(ents.map_view(), sv.take(i as int)),
        decreases sups.len() - i,
    {
        proof {
            assert(sv.take(i + 1).drop_last() =~= sv.take(i as int));
            assert(sv.take(i + 1).last() == sv[i as int]);
        }
        match ents.get(&sups[i]) {
            Option::Some(info) => {
                if !out.as_str().is_empty() {
                    out.append(" + ");
                }
                out.append("I");
                out.append(info.name.as_str());
            },
            Option::None => {},
        }
        proof {
            assert(out@ =~= trait_bounds_text(ents.map_view(), sv.take(i + 1)));
        }
        i = i + 1;
    }
    proof {
        assert(sv.take(sups.len() as int) =~= sv);
    }
    out
}

/// The accessor declarations of a capability trait: one per attribute,
/// by value for copy types, by reference otherwise.
pub open spec fn trait_methods_text(
    ents: Map<Seq<char>, EntityInfoV>,
    typs: Map<Seq<char>, TypeInfoV>,
    attrs: Seq<AttributeV>,
) -> Seq<char>
    decreases attrs.len(),
{
    if attrs.len() == 0 {
        Seq::empty()
    } else {
        let a = attrs.last();
        trait_methods_text(ents, typs, attrs.drop_last()) + "    fn "@ + a.name + "(&self) -> "@
            + (if is_copy_type(a.data_type) {
            opt_type_text(ents, typs, a.data_type, a.optional)
        } else {
            "&"@ + opt_type_text(ents, typs, a.data_type, a.optional)
        }) + ";\n"@
    }
}

#[verifier::loop_isolation(false)]
fn gen_trait_methods(
    ents: &NameTable<EntityInfo>,
    typs: &NameTable<TypeInfo>,
    attrs: &Vec<Attribute>,
) -> (r: String)
    requires
        ents.wf(),
        typs.wf(),
    ensures
        r@ == trait_methods_text(ents.map_view(), typs.map_view(), attrs.deep_view()),
{
    let ghost av = attrs.deep_view();
    let mut out = String::new();
    let mut i: usize = 0;
    proof {
        assert(out@ =~= trait_methods_text(ents.map_view(), typs.map_view(), av.take(0)));
    }
    while i < attrs.len()
        invariant
            i <= attrs.len(),
            out@ == trait_methods_text(ents.map_view(), typs.map_view(), av.take(i as int)),
        decreases attrs.len() - i,
    {
        proof {
            assert(av.take(i + 1).drop_last() =~= av.take(i as int));
            assert(av.take(i + 1).last() == av[i as int]);
        }
        let a = &attrs[i];
        out.append("    fn ");
        out.append(a.name.as_str());
        out.append("(&self) -> ");
        if !is_copy(&a.data_type) {
            out.append("&");
        }
        let t = type_text(ents, typs, &a.data_type, a.optional);
        out.append(t.as_str());
        out.append(";\n");
        proof {
            assert(out@ =~= trait_methods_text(ents.map_view(), typs.map_view(), av.take(i + 1)));
        }
        i = i + 1;
    }
    proof {
        assert(av.take(attrs.len() as int) =~= av);
    }
    out
}

/// The field lines of a generated entity struct: one per flattened
/// attribute, in positional order.
pub open spec fn struct_fields_text(
    ents: Map<Seq<char>, EntityInfoV>,
    typs: Map<Seq<char>, TypeInfoV>,
    attrs: Seq<AttributeV>,
) -> Seq<char>
    decreases attrs.len(),
{
    if attrs.len() == 0 {
        Seq::empty()
    } else {
        let a = attrs.last();
        struct_fields_text(ents, typs, attrs.drop_last()) + "    "@ + a.name + ": "@
            + opt_type_text(ents, typs, a.data_type, a.optional) + ",\n"@
    }
}

#[verifier::loop_isolation(false)]
fn gen_struct_fields(
    ents: &NameTable<EntityInfo>,
    typs: &NameTable<TypeInfo>,
    attrs: &Vec<Attribute>,
) -> (r: String)
    requires
        ents.wf(),
        typs.wf(),
    ensures
        r@ == struct_fields_text(ents.map_view(), typs.map_view(), attrs.deep_view()),
{
    let ghost av = attrs.deep_view();
    let mut out = String::new();
    let mut i: usize = 0;
    proof {
        assert(out@ =~= struct_fields_text(ents.map_view(), typs.map_view(), av.take(0)));
    }
    while i < attrs.len()
        invariant
            i <= attrs.len(),
            out@ == struct_fields_text(ents.map_view(), typs.map_view(), av.take(i as int)),
        decreases attrs.len() - i,
    {
        proof {
            assert(av.take(i + 1).drop_last() =~= av.take(i as int));
            assert(av.take(i + 1).last() == av[i as int]);
        }
        let a = &attrs[i];
        out.append("    ");
        out.append(a.name.as_str());
        out.append(": ");
        let t = type_text(ents, typs, &a.data_type, a.optional);
        out.append(t.as_str());
        out.append(",\n");
        proof {
            assert(out@ =~= struct_fields_text(ents.map_view(), typs.map_view(), av.take(i + 1)));
        }
        i = i + 1;
    }
    proof {
        assert(av.take(attrs.len() as int) =~= av);
    }
    out
}

/// One accessor of a capability-trait impl: a direct read where the stored
/// field has the declared type, a numeric widening where an integer field
/// satisfies a number-typed accessor, and a failing accessor where the
/// stored representation differs otherwise.
pub open spec fn accessor_text(
    ents: Map<Seq<char>, EntityInfoV>,
    typs: Map<Seq<char>, TypeInfoV>,
    a: AttributeV,
    flat: Seq<AttributeV>,
) -> Seq<char> {
    let t = opt_type_text(ents, typs, a.data_type, a.optional);
    if is_copy_type(a.data_type) {
        let widen = a.data_type is Number && (match find_attr(flat, a.name) {
            Option::Some(c) => c.data_type is Integer,
            Option::None => false,
        });
        if widen {
            "    fn "@ + a.name + "(&self) -> "@ + t + " {\n        Real(self."@ + a.name
                + " as f64)\n    }\n"@
        } else {
            "    fn "@ + a.name + "(&self) -> "@ + t + " {\n        self."@ + a.name
                + "\n    }\n"@
        }
    } else {
        let same = match find_attr(flat, a.name) {
            Option::Some(c) => opt_type_text(ents, typs, c.data_type, c.optional) == t,
            Option::None => false,
        };
        if same {
            "    fn "@ + a.name + "(&self) -> &"@ + t + " {\n        &self."@ + a.name
                + "\n    }\n"@
        } else {
            "    fn "@ + a.name + "(&self) -> &"@ + t
                + " {\n        panic!(\"accessor type differs from stored representation\")\n    }\n"@
        }
    }
}

/// The accessors one inheritance level contributes to its impl block.
pub open spec fn accessors_text(
    ents: Map<Seq<char>, EntityInfoV>,
    typs: Map<Seq<char>, TypeInfoV>,
    attrs: Seq<AttributeV>,
    flat: Seq<AttributeV>,
) -> Seq<char>
    decreases attrs.len(),
{
    if attrs.len() == 0 {
        Seq::empty()
    } else {
        accessors_text(ents, typs, attrs.drop_last(), flat) + accessor_text(
            ents,
            typs,
            attrs.last(),
            flat,
        )
    }
}

#[verifier::loop_isolation(false)]
fn gen_accessors(
    ents: &NameTable<EntityInfo>,
    typs: &NameTable<TypeInfo>,
    attrs: &Vec<Attribute>,
    flat: &Vec<Attribute>,
) -> (r: String)
    requires
        ents.wf(),
        typs.wf(),
    ensures
        r@ == accessors_text(
            ents.map_view(),
            typs.map_view(),
            attrs.deep_view(),
            flat.deep_view(),
        ),
{
    let ghost av = attrs.deep_view();
    let ghost fv = flat.deep_view();
    let mut out = String::new();
    let mut i: usize = 0;
    proof {
        assert(out@ =~= accessors_text(ents.map_view(), typs.map_view(), av.take(0), fv));
    }
    while i < attrs.len()
        invariant
            i <= attrs.len(),
            out@ == accessors_text(ents.map_view(), typs.map_view(), av.take(i as int), fv),
        decreases attrs.len() - i,
    {
        proof {
            assert(av.take(i + 1).drop_last() =~= av.take(i as int));
            assert(av.take(i + 1).last() == av[i as int]);
        }
        let a = &attrs[i];
        let t = type_text(ents, typs, &a.data_type, a.optional);
        if is_copy(&a.data_type) {
            let mut widen = false;
            if a.data_type.is_number() {
                match find_attribute(flat, &a.name) {
                    Option::Some(c) => {
                        widen = c.data_type.is_integer();
                    },
                    Option::None => {},
                }
            }
            out.append("    fn ");
            out.append(a.name.as_str());
            out.append("(&self) -> ");
            out.append(t.as_str());
            if widen {
                out.append(" {\n        Real(self.");
                out.append(a.name.as_str());
                out.append(" as f64)\n    }\n");
            } else {
                out.append(" {\n        self.");
                out.append(a.name.as_str());
                out.append("\n    }\n");
            }
        } else {
            let mut same = false;
            match find_attribute(flat, &a.name) {
                Option::Some(c) => {
                    let ct = type_text(ents, typs, &c.data_type, c.optional);
                    same = ct.eq(&t);
                },
                Option::None => {},
            }
            out.append("    fn ");
            out.append(a.name.as_str());
            out.append("(&self) -> &");
            out.append(t.as_str());
            if same {
                out.append(" {\n        &self.");
                out.append(a.name.as_str());
                out.append("\n    }\n");
            } else {
                out.append(
                    " {\n        panic!(\"accessor type differs from stored representation\")\n    }\n",
                );
            }
        }
        proof {
            assert(out@ =~= accessors_text(ents.map_view(), typs.map_view(), av.take(i + 1), fv));
        }
        i = i + 1;
    }
    proof {
        assert(av.take(attrs.len() as int) =~= av);
    }
    out
}

/// The capability-trait impl blocks of a concrete entity: one per level of
/// its de-duplicated supertype chain, the entity's own level included.
pub open spec fn impls_text(
    ents: Map<Seq<char>, EntityInfoV>,
    typs: Map<Seq<char>, TypeInfoV>,
    chain: Seq<EntityInfoV>,
    sname: Seq<char>,
    flat: Seq<AttributeV>,
) -> Seq<char>
    decreases chain.len(),
{
    if chain.len() == 0 {
        Seq::empty()
    } else {
        let level = chain.last();
        impls_text(ents, typs, chain.drop_last(), sname, flat) + "impl I"@ + level.name + " for "@
            + sname + " {\n"@ + accessors_text(ents, typs, level.attributes, flat) + "}\n"@
    }
}

#[verifier::loop_isolation(false)]
fn gen_impls(
    ents: &NameTable<EntityInfo>,
    typs: &NameTable<TypeInfo>,
    chain: &Vec<EntityInfo>,
    sname: &String,
    flat: &Vec<Attribute>,
) -> (r: String)
    requires
        ents.wf(),
        typs.wf(),
    ensures
        r@ == impls_text(
            ents.map_view(),
            typs.map_view(),
            chain.deep_view(),
            sname@,
            flat.deep_view(),
        ),
{
    let ghost cv = chain.deep_view();
    let ghost fv = flat.deep_view();
    let mut out = String::new();
    let mut i: usize = 0;
    proof {
        assert(out@ =~= impls_text(ents.map_view(), typs.map_view(), cv.take(0), sname@, fv));
    }
    while i < chain.len()
        invariant
            i <= chain.len(),
            out@ == impls_text(ents.map_view(), typs.map_view(), cv.take(i as int), sname@, fv),
        decreases chain.len() - i,
    {
        proof {
            assert(cv.take(i + 1).drop_last() =~= cv.take(i as int));
            assert(cv.take(i + 1).last() == cv[i as int]);
        }
        let level = &chain[i];
        out.append("impl I");
        out.append(level.name.as_str());
        out.append(" for ");
        out.append(sname.as_str());
        out.append(" {\n");
        let acc = gen_accessors(ents, typs, &level.attributes, flat);
        out.append(acc.as_str());
        out.append("}\n");
        proof {
            assert(out@ =~= impls_text(
                ents.map_view(),
                typs.map_view(),
                cv.take(i + 1),
                sname@,
                fv,
            ));
        }
        i = i + 1;
    }
    proof {
        assert(cv.take(chain.len() as int) =~= cv);
    }
    out
}

/// The positional match arms of a generated constructor: parameter at
/// position `i` fills flattened attribute `i`; a null or omitted parameter
/// leaves an optional attribute `None`.
pub open spec fn ctor_arms_text(attrs: Seq<AttributeV>) -> Seq<char>
    decreases attrs.len(),
{
    if attrs.len() == 0 {
        Seq::empty()
    } else {
        let a = attrs.last();
        ctor_arms_text(attrs.drop_last()) + "                "@ + dec_text(
            (attrs.len() - 1) as nat,
        ) + " => entity."@ + a.name + (if a.optional {
            " = if parameter.is_null() { None } else { Some(FromParameter::from_parameter(parameter)) },\n"@
        } else {
            " = FromParameter::from_parameter(parameter),\n"@
        })
    }
}

#[verifier::loop_isolation(false)]
fn gen_ctor_arms(attrs: &Vec<Attribute>) -> (r: String)
    ensures
        r@ == ctor_arms_text(attrs.deep_view()),
{
    let ghost av = attrs.deep_view();
    let mut out = String::new();
    let mut i: usize = 0;
    proof {
        assert(out@ =~= ctor_arms_text(av.take(0)));
    }
    while i < attrs.len()
        invariant
            i <= attrs.len(),
            out@ == ctor_arms_text(av.take(i as int)),
        decreases attrs.len() - i,
    {
        proof {
            assert(av.take(i + 1).drop_last() =~= av.take(i as int));
            assert(av.take(i + 1).last() == av[i as int]);
        }
        let a = &attrs[i];
        out.append("                ");
        let d = dec_string(i);
        out.append(d.as_str());
        out.append(" => entity.");
        out.append(a.name.as_str());
        if a.optional {
            out.append(" = if parameter.is_null() { None } else { Some(FromParameter::from_parameter(parameter)) },\n");
        } else {
            out.append(" = FromParameter::from_parameter(parameter),\n");
        }
        proof {
            assert(out@ =~= ctor_arms_text(av.take(i + 1)));
        }
        i = i + 1;
    }
    proof {
        assert(av.take(attrs.len() as int) =~= av);
    }
    out
}

/// The generated text of one entity declaration: its capability trait,
/// and, for a concrete entity, its struct, one trait impl per inheritance
/// level, and its positional constructor.
pub open spec fn entity_def_text(
    ents: Map<Seq<char>, EntityInfoV>,
    typs: Map<Seq<char>, TypeInfoV>,
    e: crate::express::EntityV,
    fuel: nat,
) -> Seq<char> {
    if !ents.contains_key(e.name) {
        Seq::empty()
    } else {
        let info = ents[e.name];
        let bounds = trait_bounds_text(ents, info.supertypes);
        let trait_part = "pub trait I"@ + info.name + (if bounds.len() == 0 {
            Seq::<char>::empty()
        } else {
            ": "@ + bounds
        }) + " {\n"@ + trait_methods_text(ents, typs, info.attributes) + "}\n"@;
        if e.is_abstract {
            trait_part
        } else {
            match (flatten_attrs(ents, e.name, fuel), supers_chain(ents, e.name, fuel)) {
                (Option::Some(flat), Option::Some(chain)) => trait_part + concrete_entity_text(
                    ents,
                    typs,
                    info.name,
                    flat,
                    chain,
                ),
                _ => trait_part,
            }
        }
    }
}

/// The struct, impls, and constructor of a concrete entity.
pub open spec fn concrete_entity_text(
    ents: Map<Seq<char>, EntityInfoV>,
    typs: Map<Seq<char>, TypeInfoV>,
    sname: Seq<char>,
    flat: Seq<AttributeV>,
    chain: Seq<EntityInfoV>,
) -> Seq<char> {
    let struct_part = "#[derive(Default, Debug)]\npub struct "@ + sname + " {\n"@
        + struct_fields_text(ents, typs, flat) + "}\n"@;
    let ctor_part = if flat.len() > 0 {
        "impl "@ + sname
            + " {\n    pub fn from_parameters(parameters: Vec<Parameter>) -> Self {\n        let mut entity = "@
            + sname
            + "::default();\n        for (index, parameter) in parameters.into_iter().enumerate() {\n            match index {\n"@
            + ctor_arms_text(flat)
            + "                _ => {}\n            }\n        }\n        entity\n    }\n}\n"@
    } else {
        "impl "@ + sname
            + " {\n    pub fn from_parameters(_parameters: Vec<Parameter>) -> Self {\n        "@
            + sname + "::default()\n    }\n}\n"@
    };
    struct_part + impls_text(ents, typs, chain, sname, flat) + ctor_part
}

/// Emits the struct, impls, and constructor of a concrete entity.
#[verifier::rlimit(50)]
fn gen_concrete_entity(
    ents: &NameTable<EntityInfo>,
    typs: &NameTable<TypeInfo>,
    sname: &String,
    flat: &Vec<Attribute>,
    chain: &Vec<EntityInfo>,
) -> (r: String)
    requires
        ents.wf(),
        typs.wf(),
    ensures
        r@ == concrete_entity_text(
            ents.map_view(),
            typs.map_view(),
            sname@,
            flat.deep_view(),
            chain.deep_view(),
        ),
{
    let mut out = String::new();
    out.append("#[derive(Default, Debug)]\npub struct ");
    out.append(sname.as_str());
    out.append(" {\n");
    let fields = gen_struct_fields(ents, typs, flat);
    out.append(fields.as_str());
    out.append("}\n");
    let impls = gen_impls(ents, typs, chain, sname, flat);
    out.append(impls.as_str());
    if flat.len() > 0 {
        out.append("impl ");
        out.append(sname.as_str());
        out.append(
            " {\n    pub fn from_parameters(parameters: Vec<Parameter>) -> Self {\n        let mut entity = ",
        );
        out.append(sname.as_str());
        out.append(
            "::default();\n        for (index, parameter) in parameters.into_iter().enumerate() {\n            match index {\n",
        );
        let arms = gen_ctor_arms(flat);
        out.append(arms.as_str());
        out.append(
            "                _ => {}\n            }\n        }\n        entity\n    }\n}\n",
        );
    } else {
        out.append("impl ");
        out.append(sname.as_str());
        out.append(
            " {\n    pub fn from_parameters(_parameters: Vec<Parameter>) -> Self {\n        ",
        );
        out.append(sname.as_str());
        out.append("::default()\n    }\n}\n");
    }
    proof {
        assert(out@ =~= concrete_entity_text(
            ents.map_view(),
            typs.map_view(),
            sname@,
            flat.deep_view(),
            chain.deep_view(),
        ));
    }
    out
}

/// Emits one entity declaration.
#[verifier::rlimit(50)]
fn gen_entity_def(
    ents: &NameTable<EntityInfo>,
    typs: &NameTable<TypeInfo>,
    entity: &crate::express::Entity,
    fuel: usize,
) -> (r: String)
    requires
        ents.wf(),
        typs.wf(),
    ensures
        r@ == entity_def_text(ents.map_view(), typs.map_view(), entity@, fuel as nat),
{
    match ents.get(&entity.name) {
        Option::None => String::new(),
        Option::Some(info) => {
            let mut out = String::new();
            out.append("pub trait I");
            out.append(info.name.as_str());
            let bounds = gen_trait_bounds(ents, &info.supertypes);
            if !bounds.as_str().is_empty() {
                out.append(": ");
                out.append(bounds.as_str());
            }
            out.append(" {\n");
            let methods = gen_trait_methods(ents, typs, &info.attributes);
            out.append(methods.as_str());
            out.append("}\n");
            if entity.is_abstract {
                return out;
            }
            let flat_r = crate::analysis::get_entity_attributes(ents, &entity.name, fuel);
            let chain_r = crate::analysis::get_entity_supertypes(ents, &entity.name, fuel);
            match (flat_r, chain_r) {
                (Result::Ok(flat), Result::Ok(chain)) => {
                    let rest = gen_concrete_entity(ents, typs, &info.name, &flat, &chain);
                    out.append(rest.as_str());
                    out
                },
                _ => out,
            }
        },
    }
}

/// The generated text of one type definition: an enumeration, a select
/// union, or a plain type alias.
pub open spec fn typedef_text(
    ents: Map<Seq<char>, EntityInfoV>,
    typs: Map<Seq<char>, TypeInfoV>,
    hash: Set<Seq<char>>,
    t: crate::express::TypeDefV,
) -> Seq<char> {
    match t.underlying_type {
        DataTypeV::Enum { values } => enum_def_text(t.name, values),
        DataTypeV::Select { types } => select_def_text(t.name, types, ents, hash),
        _ => "type "@ + camel_of(t.name) + " = "@ + base_type_text(ents, typs, t.underlying_type)
            + ";\n"@,
    }
}

/// Emits one type definition.
fn gen_type_def(
    ents: &NameTable<EntityInfo>,
    typs: &NameTable<TypeInfo>,
    hashable: &Vec<String>,
    td: &crate::express::TypeDef,
) -> (r: String)
    requires
        ents.wf(),
        typs.wf(),
    ensures
        r@ == typedef_text(
            ents.map_view(),
            typs.map_view(),
            Set::new(|n: Seq<char>| hashable.deep_view().contains(n)),
            td@,
        ),
{
    match &td.underlying_type {
        DataType::Enum { values } => gen_enum_def(&td.name, values),
        DataType::Select { types } => gen_select_def(ents, hashable, &td.name, types),
        _ => {
            let mut out = String::new();
            out.append("type ");
            let c = to_camel_case(td.name.as_str());
            out.append(c.as_str());
            out.append(" = ");
            let t = base_type_name(ents, typs, &td.underlying_type);
            out.append(t.as_str());
            out.append(";\n");
            out
        },
    }
}

/// The dispatch arms of the generated reader: one per concrete entity,
/// keyed by the upper-cased name the exchange file uses.
pub open spec fn reader_arms_text(
    ents: Map<Seq<char>, EntityInfoV>,
    decls: Seq<crate::express::DeclarationV>,
) -> Seq<char>
    decreases decls.len(),
{
    if decls.len() == 0 {
        Seq::empty()
    } else {
        reader_arms_text(ents, decls.drop_last()) + (match decls.last() {
            crate::express::DeclarationV::Entity(e) => if !e.is_abstract && ents.contains_key(
                e.name,
            ) {
                "            \""@ + upper_of(e.name) + "\" => {\n                let entity = "@
                    + ents[e.name].name
                    + "::from_parameters(typed_parameter.parameters);\n                self.add_entity(id, \""@
                    + ents[e.name].name + "\", entity);\n            },\n"@
            } else {
                Seq::<char>::empty()
            },
            _ => Seq::<char>::empty(),
        })
    }
}


/// The complex-record arms of the generated reader: each recognized
/// branch is built by its own positional constructor and collected into
/// the stored bundle.
pub open spec fn reader_complex_arms_text(
    ents: Map<Seq<char>, EntityInfoV>,
    decls: Seq<crate::express::DeclarationV>,
) -> Seq<char>
    decreases decls.len(),
{
    if decls.len() == 0 {
        Seq::empty()
    } else {
        reader_complex_arms_text(ents, decls.drop_last()) + (match decls.last() {
            crate::express::DeclarationV::Entity(e) => if !e.is_abstract && ents.contains_key(
                e.name,
            ) {
                "                \""@ + upper_of(e.name) + "\" => values.push(Box::new("@
                    + ents[e.name].name
                    + "::from_parameters(typed_parameter.parameters))),\n"@
            } else {
                Seq::<char>::empty()
            },
            _ => Seq::<char>::empty(),
        })
    }
}

/// The generated reader type of a schema: a type-erased id-indexed store
/// with per-type id lists and display names, and the dispatch from a
/// file's type names to the positional constructors.
pub open spec fn reader_text(
    ents: Map<Seq<char>, EntityInfoV>,
    schema_name: Seq<char>,
    decls: Seq<crate::express::DeclarationV>,
) -> Seq<char> {
    let r = camel_of(schema_name) + "Reader"@;
    "use std::any::{Any, TypeId};\nuse std::collections::{BTreeMap, HashMap};\npub struct "@ + r
        + " {\n    pub entities: BTreeMap<i64, Box<dyn Any>>,\n    pub type_ids: HashMap<TypeId, Vec<i64>>,\n    pub display_names: HashMap<TypeId, &'static str>,\n}\nimpl "@
        + r + " {\n    pub fn new() -> Self {\n        "@ + r
        + " {\n            entities: BTreeMap::new(),\n            type_ids: HashMap::new(),\n            display_names: HashMap::new(),\n        }\n    }\n    pub fn add_entity<T: Any>(&mut self, id: i64, name: &'static str, entity: T) {\n        let type_id = entity.type_id();\n        self.entities.insert(id, Box::new(entity));\n        self.type_ids.entry(type_id).or_insert(vec![]).push(id);\n        self.display_names.entry(type_id).or_insert(name);\n    }\n    pub fn get_entity<T: Any>(&self, id: i64) -> Option<&T> {\n        self.entities.get(&id).map(|entity| entity.downcast_ref::<T>()).flatten()\n    }\n    pub fn get_entities<T: Any>(&self) -> impl Iterator<Item = &T> {\n        let type_id = TypeId::of::<T>();\n        self.type_ids.get(&type_id).into_iter().flatten().filter_map(move |id| self.entities[id].downcast_ref::<T>())\n    }\n    pub fn display_name_of(&self, id: i64) -> Option<&'static str> {\n        self.entities.get(&id).map(|entity| self.display_names[&(**entity).type_id()])\n    }\n    pub fn read_simple_entity(&mut self, id: i64, typed_parameter: TypedParameter) {\n        match typed_parameter.name.as_str() {\n"@
        + reader_arms_text(ents, decls)
        + "            _ => println!(\"{} is not implemented\", typed_parameter.name),\n        }\n    }\n    pub fn read_complex_entity(&mut self, id: i64, typed_parameters: Vec<TypedParameter>) {\n        let mut values: Vec<Box<dyn Any>> = Vec::new();\n        for typed_parameter in typed_parameters {\n            match typed_parameter.name.as_str() {\n"@
        + reader_complex_arms_text(ents, decls)
        + "                _ => println!(\"{} is not implemented\", typed_parameter.name),\n            }\n        }\n        self.add_entity(id, \"ComplexEntity\", values);\n    }\n    pub fn read_data(&mut self, file: ExchangeFile) {\n        for instance in file.data {\n            if instance.value.len() == 1 {\n                for typed_parameter in instance.value {\n                    self.read_simple_entity(instance.id, typed_parameter);\n                }\n            } else {\n                self.read_complex_entity(instance.id, instance.value);\n            }\n        }\n    }\n}\n"@
}

/// Emits the schema's reader type.
#[verifier::loop_isolation(false)]
#[verifier::rlimit(50)]
fn gen_reader(
    ents: &NameTable<EntityInfo>,
    schema_name: &String,
    decls: &Vec<crate::express::Declaration>,
) -> (r: String)
    requires
        ents.wf(),
    ensures
        r@ == reader_text(ents.map_view(), schema_name@, decls.deep_view()),
{
    let ghost dv = decls.deep_view();
    let rname0 = to_camel_case(schema_name.as_str());
    let mut rname = rname0;
    rname.append("Reader");
    let mut out = String::new();
    out.append(
        "use std::any::{Any, TypeId};\nuse std::collections::{BTreeMap, HashMap};\npub struct ",
    );
    out.append(rname.as_str());
    out.append(
        " {\n    pub entities: BTreeMap<i64, Box<dyn Any>>,\n    pub type_ids: HashMap<TypeId, Vec<i64>>,\n    pub display_names: HashMap<TypeId, &'static str>,\n}\nimpl ",
    );
    out.append(rname.as_str());
    out.append(" {\n    pub fn new() -> Self {\n        ");
    out.append(rname.as_str());
    out.append(
        " {\n            entities: BTreeMap::new(),\n            type_ids: HashMap::new(),\n            display_names: HashMap::new(),\n        }\n    }\n    pub fn add_entity<T: Any>(&mut self, id: i64, name: &'static str, entity: T) {\n        let type_id = entity.type_id();\n        self.entities.insert(id, Box::new(entity));\n        self.type_ids.entry(type_id).or_insert(vec![]).push(id);\n        self.display_names.entry(type_id).or_insert(name);\n    }\n    pub fn get_entity<T: Any>(&self, id: i64) -> Option<&T> {\n        self.entities.get(&id).map(|entity| entity.downcast_ref::<T>()).flatten()\n    }\n    pub fn get_entities<T: Any>(&self) -> impl Iterator<Item = &T> {\n        let type_id = TypeId::of::<T>();\n        self.type_ids.get(&type_id).into_iter().flatten().filter_map(move |id| self.entities[id].downcast_ref::<T>())\n    }\n    pub fn display_name_of(&self, id: i64) -> Option<&'static str> {\n        self.entities.get(&id).map(|entity| self.display_names[&(**entity).type_id()])\n    }\n    pub fn read_simple_entity(&mut self, id: i64, typed_parameter: TypedParameter) {\n        match typed_parameter.name.as_str() {\n",
    );
    let ghost head = out@;
    let mut i: usize = 0;
    proof {
        assert(out@ =~= head + reader_arms_text(ents.map_view(), dv.take(0)));
    }
    while i < decls.len()
        invariant
            i <= decls.len(),
            out@ == head + reader_arms_text(ents.map_view(), dv.take(i as int)),
        decreases decls.len() - i,
    {
        proof {
            assert(dv.take(i + 1).drop_last() =~= dv.take(i as int));
            assert(dv.take(i + 1).last() == dv[i as int]);
        }
        match &decls[i] {
            crate::express::Declaration::Entity(entity) => {
                if !entity.is_abstract {
                    match ents.get(&entity.name) {
                        Option::Some(info) => {
                            out.append("            \"");
                            let u = to_uppercase(entity.name.as_str());
                            out.append(u.as_str());
                            out.append("\" => {\n                let entity = ");
                            out.append(info.name.as_str());
                            out.append(
                                "::from_parameters(typed_parameter.parameters);\n                self.add_entity(id, \"",
                            );
                            out.append(info.name.as_str());
                            out.append("\", entity);\n            },\n");
                        },
                        Option::None => {},
                    }
                }
            },
            _ => {},
        }
        proof {
            assert(out@ =~= head + reader_arms_text(ents.map_view(), dv.take(i + 1)));
        }
        i = i + 1;
    }
    proof {
        assert(dv.take(decls.len() as int) =~= dv);
    }
    out.append(
        "            _ => println!(\"{} is not implemented\", typed_parameter.name),\n        }\n    }\n    pub fn read_complex_entity(&mut self, id: i64, typed_parameters: Vec<TypedParameter>) {\n        let mut values: Vec<Box<dyn Any>> = Vec::new();\n        for typed_parameter in typed_parameters {\n            match typed_parameter.name.as_str() {\n",
    );
    let ghost chead = out@;
    let mut j: usize = 0;
    proof {
        assert(out@ =~= chead + reader_complex_arms_text(ents.map_view(), dv.take(0)));
    }
    while j < decls.len()
        invariant
            j <= decls.len(),
            out@ == chead + reader_complex_arms_text(ents.map_view(), dv.take(j as int)),
        decreases decls.len() - j,
    {
        proof {
            assert(dv.take(j + 1).drop_last() =~= dv.take(j as int));
            assert(dv.take(j + 1).last() == dv[j as int]);
        }
        match &decls[j] {
            crate::express::Declaration::Entity(entity) => {
                if !entity.is_abstract {
                    match ents.get(&entity.name) {
                        Option::Some(info) => {
                            out.append("                \"");
                            let u = to_uppercase(entity.name.as_str());
                            out.append(u.as_str());
                            out.append("\" => values.push(Box::new(");
                            out.append(info.name.as_str());
                            out.append("::from_parameters(typed_parameter.parameters))),\n");
                        },
                        Option::None => {},
                    }
                }
            },
            _ => {},
        }
        proof {
            assert(out@ =~= chead + reader_complex_arms_text(ents.map_view(), dv.take(j + 1)));
        }
        j = j + 1;
    }
    proof {
        assert(dv.take(decls.len() as int) =~= dv);
    }
    out.append(
        "                _ => println!(\"{} is not implemented\", typed_parameter.name),\n            }\n        }\n        self.add_entity(id, \"ComplexEntity\", values);\n    }\n    pub fn read_data(&mut self, file: ExchangeFile) {\n        for instance in file.data {\n            if instance.value.len() == 1 {\n                for typed_parameter in instance.value {\n                    self.read_simple_entity(instance.id, typed_parameter);\n                }\n            } else {\n                self.read_complex_entity(instance.id, instance.value);\n            }\n        }\n    }\n}\n",
    );
    proof {
        assert(out@ =~= reader_text(ents.map_view(), schema_name@, dv));
    }
    out
}

/// The generated text of one declaration; functions and rules produce no
/// code.
pub open spec fn decl_text(
    ents: Map<Seq<char>, EntityInfoV>,
    typs: Map<Seq<char>, TypeInfoV>,
    hash: Set<Seq<char>>,
    d: crate::express::DeclarationV,
    fuel: nat,
) -> Seq<char> {
    match d {
        crate::express::DeclarationV::TypeDef(t) => typedef_text(ents, typs, hash, t),
        crate::express::DeclarationV::Entity(e) => entity_def_text(ents, typs, e, fuel),
        _ => Seq::empty(),
    }
}

pub open spec fn decls_text(
    ents: Map<Seq<char>, EntityInfoV>,
    typs: Map<Seq<char>, TypeInfoV>,
    hash: Set<Seq<char>>,
    decls: Seq<crate::express::DeclarationV>,
    fuel: nat,
) -> Seq<char>
    decreases decls.len(),
{
    if decls.len() == 0 {
        Seq::empty()
    } else {
        decls_text(ents, typs, hash, decls.drop_last(), fuel) + decl_text(
            ents,
            typs,
            hash,
            decls.last(),
            fuel,
        )
    }
}

/// The whole generated source of a schema, as a function of the schema's
/// generation-relevant image alone: a fixed preamble, the declarations in
/// source order, and the reader.  Analysis and generation are pure, so two
/// runs over the same image yield the same bytes.
pub open spec fn generated_code(schema: crate::express::SchemaV) -> Seq<char> {
    let decls = schema.declarations;
    let ents = crate::analysis::collect_entities(decls);
    let typs = crate::analysis::collect_types_spec(decls).0;
    let fuel = decls.len();
    let hash = Set::new(
        |n: Seq<char>| crate::analysis::hashable_types_spec(typs, decls, fuel).contains(n),
    );
    "#![allow(dead_code)]\nuse iso_10303::step::*;\nuse std::collections::HashSet;\nuse std::hash::Hash;\n#[derive(Default, Debug, Clone, Copy)]\npub struct Real(pub f64);\nimpl PartialEq for Real {\n    fn eq(&self, other: &Self) -> bool {\n        if self.0.is_nan() && other.0.is_nan() {\n            true\n        } else {\n            self.0 == other.0\n        }\n    }\n}\nimpl Eq for Real {}\nimpl PartialOrd for Real {\n    fn partial_cmp(&self, other: &Self) -> Option<std::cmp::Ordering> {\n        Some(self.cmp(other))\n    }\n}\nimpl Ord for Real {\n    fn cmp(&self, other: &Self) -> std::cmp::Ordering {\n        self.0.partial_cmp(&other.0).unwrap_or_else(|| {\n            if self.0.is_nan() && !other.0.is_nan() {\n                std::cmp::Ordering::Less\n            } else if !self.0.is_nan() && other.0.is_nan() {\n                std::cmp::Ordering::Greater\n            } else {\n                std::cmp::Ordering::Equal\n            }\n        })\n    }\n}\nimpl std::hash::Hash for Real {\n    fn hash<H: std::hash::Hasher>(&self, state: &mut H) {\n        state.write(&self.0.to_le_bytes());\n    }\n}\n#[derive(Default, Debug)]\npub struct Unimplemented {}\npub trait FromParameter {\n    fn from_parameter(parameter: Parameter) -> Self;\n}\nimpl FromParameter for Unimplemented {\n    fn from_parameter(_parameter: Parameter) -> Self {\n        Unimplemented {}\n    }\n}\nimpl FromParameter for i64 {\n    fn from_parameter(parameter: Parameter) -> Self {\n        parameter.to_integer().expect(\"parameter is not an integer\")\n    }\n}\nimpl FromParameter for bool {\n    fn from_parameter(parameter: Parameter) -> Self {\n        parameter.to_bool().expect(\"parameter is not a boolean\")\n    }\n}\nimpl FromParameter for Option<bool> {\n    fn from_parameter(parameter: Parameter) -> Self {\n        parameter.to_logical().expect(\"parameter is not a logical\")\n    }\n}\nimpl FromParameter for String {\n    fn from_parameter(parameter: Parameter) -> Self {\n        parameter.to_string_value().expect(\"parameter is not a string\")\n    }\n}\nimpl FromParameter for EntityRef {\n    fn from_parameter(parameter: Parameter) -> Self {\n        parameter.to_entity_ref().expect(\"parameter is not an instance\")\n    }\n}\nimpl FromParameter for Real {\n    fn from_parameter(parameter: Parameter) -> Self {\n        match parameter.to_real_text() {\n            Some(text) => Real(text.parse().unwrap_or(0.0)),\n            None => Real(parameter.to_integer().expect(\"parameter is not a number\") as f64),\n        }\n    }\n}\nimpl<T: FromParameter> FromParameter for Vec<T> {\n    fn from_parameter(parameter: Parameter) -> Self {\n        parameter.into_list().expect(\"parameter is not a list\").into_iter().map(T::from_parameter).collect()\n    }\n}\nimpl<T: FromParameter + Eq + Hash> FromParameter for HashSet<T> {\n    fn from_parameter(parameter: Parameter) -> Self {\n        parameter.into_list().expect(\"parameter is not a list\").into_iter().map(T::from_parameter).collect()\n    }\n}\n"@
        + decls_text(ents, typs, hash, decls, fuel) + reader_text(ents, schema.name, decls)
}

/// Law: generation is deterministic.  The generated source is a function
/// of the schema's image alone, so equal schema images give byte-identical
/// output, however often generation is re-run.
pub proof fn lemma_generation_deterministic(
    a: crate::express::SchemaV,
    b: crate::express::SchemaV,
)
    requires
        a == b,
    ensures
        generated_code(a) == generated_code(b),
{
}

/// The analyzer and synthesizer of one schema: built once by `new`, which
/// resolves the type tables and rejects unresolvable schemas, then asked
/// for the generated source with `gencode`.
pub struct Generator {
    schema: crate::express::Schema,
    type_infos: NameTable<TypeInfo>,
    entity_infos: NameTable<EntityInfo>,
    hashable_types: Vec<String>,
}

impl Generator {
    /// The tables agree with what analysis of the held schema yields.
    pub closed spec fn wf(&self) -> bool {
        &&& self.entity_infos.wf()
        &&& self.type_infos.wf()
        &&& self.entity_infos.map_view() == crate::analysis::collect_entities(
            self.schema@.declarations,
        )
        &&& self.type_infos.map_view() == crate::analysis::collect_types_spec(
            self.schema@.declarations,
        ).0
        &&& forall|n: Seq<char>|
            self.hashable_types.deep_view().contains(n)
                == crate::analysis::hashable_types_spec(
                self.type_infos.map_view(),
                self.schema@.declarations,
                self.schema@.declarations.len(),
            ).contains(n)
    }

    pub closed spec fn schema_view(&self) -> crate::express::SchemaV {
        self.schema@
    }

    /// Whether a declaration is an entity all of whose declared supertype
    /// names the table knows.
    pub open spec fn supertypes_known(
        d: crate::express::DeclarationV,
        ents: Map<Seq<char>, EntityInfoV>,
    ) -> bool {
        match d {
            crate::express::DeclarationV::Entity(e) => forall|k: int|
                0 <= k < e.supertypes.len() ==> ents.contains_key(#[trigger] e.supertypes[k]),
            _ => true,
        }
    }

    /// Whether a declaration is an entity whose attribute flattening or
    /// supertype chain cannot be computed: the mark of a supertype cycle.
    pub open spec fn entity_blocked(
        d: crate::express::DeclarationV,
        ents: Map<Seq<char>, EntityInfoV>,
        fuel: nat,
    ) -> bool {
        match d {
            crate::express::DeclarationV::Entity(e) => (flatten_attrs(ents, e.name, fuel)
                is None) || (supers_chain(ents, e.name, fuel) is None),
            _ => false,
        }
    }

    /// Analyzes the schema: builds the entity table, resolves the type
    /// definitions to a fixpoint, infers hashable types, and checks that
    /// attribute flattening terminates for every entity.  A schema whose
    /// type definitions cannot all be resolved, or whose supertype graph
    /// is cyclic, is rejected.
    #[verifier::loop_isolation(false)]
    pub fn new(schema: crate::express::Schema) -> (r: Result<Generator, SchemaError>)
        ensures
            match r {
                Result::Ok(g) => g.wf() && g.schema_view() == schema@ && crate::analysis::collect_types_spec(
                    schema@.declarations,
                ).1.len() == 0 && (forall|k: int|
                    0 <= k < schema@.declarations.len() ==> !Self::entity_blocked(
                        #[trigger] schema@.declarations[k],
                        crate::analysis::collect_entities(schema@.declarations),
                        schema@.declarations.len() as nat,
                    )) && (forall|k: int|
                    0 <= k < schema@.declarations.len() ==> Self::supertypes_known(
                        #[trigger] schema@.declarations[k],
                        crate::analysis::collect_entities(schema@.declarations),
                    )),
                Result::Err(e) => {
                    &&& (e is UnresolvedTypes) == (crate::analysis::collect_types_spec(
                        schema@.declarations,
                    ).1.len() > 0)
                    &&& e is SupertypeCycle ==> exists|k: int|
                        0 <= k < schema@.declarations.len() && Self::entity_blocked(
                            #[trigger] schema@.declarations[k],
                            crate::analysis::collect_entities(schema@.declarations),
                            schema@.declarations.len() as nat,
                        )
                    &&& e is UnknownSupertype ==> exists|k: int|
                        0 <= k < schema@.declarations.len() && !Self::supertypes_known(
                            #[trigger] schema@.declarations[k],
                            crate::analysis::collect_entities(schema@.declarations),
                        )
                },
            },
    {
        let ents = crate::analysis::collect_entity_infos(&schema);
        let r = crate::analysis::collect_type_infos(&schema, &ents);
        let typs = r.0;
        let leftover = r.1;
        if leftover.len() > 0 {
            let mut names: Vec<String> = Vec::new();
            let mut i: usize = 0;
            while i < leftover.len()
                invariant
                    i <= leftover.len(),
                decreases leftover.len() - i,
            {
                names.push(crate::express::clone_string(&leftover[i].name));
                i = i + 1;
            }
            return Result::Err(SchemaError::UnresolvedTypes { names });
        }
        let fuel = schema.declarations.len();
        let hashable = crate::analysis::collect_hashable_types(&typs, &schema, fuel);
        let ghost decls = schema@.declarations;
        let mut i: usize = 0;
        while i < schema.declarations.len()
            invariant
                i <= schema.declarations.len(),
                ents.wf(),
                fuel == decls.len(),
                decls == schema@.declarations,
                ents.map_view() == crate::analysis::collect_entities(schema@.declarations),
                forall|k: int|
                    0 <= k < i ==> !Self::entity_blocked(
                        #[trigger] decls[k],
                        crate::analysis::collect_entities(decls),
                        decls.len() as nat,
                    ),
                forall|k: int|
                    0 <= k < i ==> Self::supertypes_known(
                        #[trigger] decls[k],
                        crate::analysis::collect_entities(decls),
                    ),
            decreases schema.declarations.len() - i,
        {
            match &schema.declarations[i] {
                crate::express::Declaration::Entity(entity) => {
                    let mut j: usize = 0;
                    while j < entity.supertypes.len()
                        invariant
                            j <= entity.supertypes.len(),
                            ents.wf(),
                            ents.map_view() == crate::analysis::collect_entities(decls),
                            forall|m: int|
                                0 <= m < j ==> ents.map_view().contains_key(
                                    #[trigger] entity.supertypes.deep_view()[m],
                                ),
                        decreases entity.supertypes.len() - j,
                    {
                        if !ents.contains(&entity.supertypes[j]) {
                            proof {
                                let ghost sv = entity.supertypes.deep_view();
                                assert(decls[i as int] == crate::express::DeclarationV::Entity(
                                    entity@,
                                ));
                                assert(entity@.supertypes == sv);
                                assert(!ents.map_view().contains_key(sv[j as int]));
                                assert(!Self::supertypes_known(
                                    decls[i as int],
                                    crate::analysis::collect_entities(decls),
                                ));
                            }
                            return Result::Err(
                                SchemaError::UnknownSupertype {
                                    entity: crate::express::clone_string(&entity.name),
                                    supertype: crate::express::clone_string(
                                        &entity.supertypes[j],
                                    ),
                                },
                            );
                        }
                        j = j + 1;
                    }
                    proof {
                        assert(decls[i as int] == crate::express::DeclarationV::Entity(entity@));
                        assert(entity@.supertypes == entity.supertypes.deep_view());
                        assert(Self::supertypes_known(
                            decls[i as int],
                            crate::analysis::collect_entities(decls),
                        ));
                    }
                    match crate::analysis::get_entity_attributes(&ents, &entity.name, fuel) {
                        Result::Err(e) => {
                            proof {
                                assert(Self::entity_blocked(
                                    decls[i as int],
                                    crate::analysis::collect_entities(decls),
                                    decls.len() as nat,
                                ));
                            }
                            return Result::Err(e);
                        },
                        Result::Ok(_) => {},
                    }
                    match crate::analysis::get_entity_supertypes(&ents, &entity.name, fuel) {
                        Result::Err(e) => {
                            proof {
                                assert(Self::entity_blocked(
                                    decls[i as int],
                                    crate::analysis::collect_entities(decls),
                                    decls.len() as nat,
                                ));
                            }
                            return Result::Err(e);
                        },
                        Result::Ok(_) => {},
                    }
                },
                _ => {},
            }
            i = i + 1;
        }
        Result::Ok(
            Generator { schema, type_infos: typs, entity_infos: ents, hashable_types: hashable },
        )
    }

    /// The generated source of the analyzed schema: the preamble, one
    /// section per declaration in source order, and the reader type.
    #[verifier::loop_isolation(false)]
    #[verifier::rlimit(50)]
    pub fn gencode(&self) -> (r: String)
        requires
            self.wf(),
        ensures
            r@ == generated_code(self.schema_view()),
    {
        let ghost dv = self.schema@.declarations;
        let ghost ents = self.entity_infos.map_view();
        let ghost typs = self.type_infos.map_view();
        let ghost hash = Set::new(
            |n: Seq<char>|
                crate::analysis::hashable_types_spec(typs, dv, dv.len()).contains(n),
        );
        let fuel = self.schema.declarations.len();
        let mut out = String::new();
        out.append(
            "#![allow(dead_code)]\nuse iso_10303::step::*;\nuse std::collections::HashSet;\nuse std::hash::Hash;\n#[derive(Default, Debug, Clone, Copy)]\npub struct Real(pub f64);\nimpl PartialEq for Real {\n    fn eq(&self, other: &Self) -> bool {\n        if self.0.is_nan() && other.0.is_nan() {\n            true\n        } else {\n            self.0 == other.0\n        }\n    }\n}\nimpl Eq for Real {}\nimpl PartialOrd for Real {\n    fn partial_cmp(&self, other: &Self) -> Option<std::cmp::Ordering> {\n        Some(self.cmp(other))\n    }\n}\nimpl Ord for Real {\n    fn cmp(&self, other: &Self) -> std::cmp::Ordering {\n        self.0.partial_cmp(&other.0).unwrap_or_else(|| {\n            if self.0.is_nan() && !other.0.is_nan() {\n                std::cmp::Ordering::Less\n            } else if !self.0.is_nan() && other.0.is_nan() {\n                std::cmp::Ordering::Greater\n            } else {\n                std::cmp::Ordering::Equal\n            }\n        })\n    }\n}\nimpl std::hash::Hash for Real {\n    fn hash<H: std::hash::Hasher>(&self, state: &mut H) {\n        state.write(&self.0.to_le_bytes());\n    }\n}\n#[derive(Default, Debug)]\npub struct Unimplemented {}\npub trait FromParameter {\n    fn from_parameter(parameter: Parameter) -> Self;\n}\nimpl FromParameter for Unimplemented {\n    fn from_parameter(_parameter: Parameter) -> Self {\n        Unimplemented {}\n    }\n}\nimpl FromParameter for i64 {\n    fn from_parameter(parameter: Parameter) -> Self {\n        parameter.to_integer().expect(\"parameter is not an integer\")\n    }\n}\nimpl FromParameter for bool {\n    fn from_parameter(parameter: Parameter) -> Self {\n        parameter.to_bool().expect(\"parameter is not a boolean\")\n    }\n}\nimpl FromParameter for Option<bool> {\n    fn from_parameter(parameter: Parameter) -> Self {\n        parameter.to_logical().expect(\"parameter is not a logical\")\n    }\n}\nimpl FromParameter for String {\n    fn from_parameter(parameter: Parameter) -> Self {\n        parameter.to_string_value().expect(\"parameter is not a string\")\n    }\n}\nimpl FromParameter for EntityRef {\n    fn from_parameter(parameter: Parameter) -> Self {\n        parameter.to_entity_ref().expect(\"parameter is not an instance\")\n    }\n}\nimpl FromParameter for Real {\n    fn from_parameter(parameter: Parameter) -> Self {\n        match parameter.to_real_text() {\n            Some(text) => Real(text.parse().unwrap_or(0.0)),\n            None => Real(parameter.to_integer().expect(\"parameter is not a number\") as f64),\n        }\n    }\n}\nimpl<T: FromParameter> FromParameter for Vec<T> {\n    fn from_parameter(parameter: Parameter) -> Self {\n        parameter.into_list().expect(\"parameter is not a list\").into_iter().map(T::from_parameter).collect()\n    }\n}\nimpl<T: FromParameter + Eq + Hash> FromParameter for HashSet<T> {\n    fn from_parameter(parameter: Parameter) -> Self {\n        parameter.into_list().expect(\"parameter is not a list\").into_iter().map(T::from_parameter).collect()\n    }\n}\n",
        );
        let ghost head = out@;
        let mut i: usize = 0;
        proof {
            assert(out@ =~= head + decls_text(ents, typs, hash, dv.take(0), fuel as nat));
        }
        while i < self.schema.declarations.len()
            invariant
                i <= self.schema.declarations.len(),
                out@ == head + decls_text(ents, typs, hash, dv.take(i as int), fuel as nat),
            decreases self.schema.declarations.len() - i,
        {
            proof {
                assert(dv.take(i + 1).drop_last() =~= dv.take(i as int));
                assert(dv.take(i + 1).last() == dv[i as int]);
            }
            match &self.schema.declarations[i] {
                crate::express::Declaration::TypeDef(td) => {
                    let t = gen_type_def(
                        &self.entity_infos,
                        &self.type_infos,
                        &self.hashable_types,
                        td,
                    );
                    proof {
                        assert(Set::new(
                            |n: Seq<char>| self.hashable_types.deep_view().contains(n),
                        ) =~= hash);
                    }
                    out.append(t.as_str());
                },
                crate::express::Declaration::Entity(entity) => {
                    let t = gen_entity_def(&self.entity_infos, &self.type_infos, entity, fuel);
                    out.append(t.as_str());
                },
                _ => {},
            }
            proof {
                assert(out@ =~= head + decls_text(ents, typs, hash, dv.take(i + 1), fuel as nat));
            }
            i = i + 1;
        }
        proof {
            assert(dv.take(self.schema.declarations.len() as int) =~= dv);
        }
        let rdr = gen_reader(&self.entity_infos, &self.schema.name, &self.schema.declarations);
        out.append(rdr.as_str());
        proof {
            assert(out@ =~= generated_code(self.schema@));
        }
        out
    }
}

impl EntityInfo {
    /// The generated struct name of this entity.
    pub fn struct_name(&self) -> (r: String)
        ensures
            r@ == self@.name,
    {
        crate::express::clone_string(&self.name)
    }

    /// The generated capability-trait name of this entity.
    pub fn trait_name(&self) -> (r: String)
        ensures
            r@ == "I"@ + self@.name,
    {
        let mut out = String::new();
        out.append("I");
        out.append(self.name.as_str());
        out
    }
}

} // verus!
