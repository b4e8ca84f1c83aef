use iso_10303::codegen::Generator;
use iso_10303::express::parser::schema;

fn parse_schema(text: &str) -> iso_10303::express::Schema {
    match schema(text.as_bytes()) {
        Ok(s) => s,
        Err(e) => panic!("schema text did not parse at {}", e.position),
    }
}

const FAMILY_SCHEMA: &str = "SCHEMA family;\n\
ENTITY person;\n  first_name: STRING;\n  last_name: STRING;\nEND_ENTITY;\n\
ENTITY male SUBTYPE OF (person);\n  wife: OPTIONAL female;\nEND_ENTITY;\n\
ENTITY female SUBTYPE OF (person);\nEND_ENTITY;\n\
END_SCHEMA;\n";

#[test]
fn cyclic_entity_reference_generates_id_field() {
    // Mutually referencing entities are cyclic at the type level: the
    // wife attribute must become an id reference, never an inline value.
    let s = parse_schema(FAMILY_SCHEMA);
    let generator = Generator::new(s).expect("family schema analyzes");
    let code = generator.gencode();
    assert!(code.contains("    wife: Option<EntityRef>,\n"));
    assert!(!code.contains("wife: Option<Female>"));
    assert!(code.contains("pub struct Male {\n"));
    assert!(code.contains("pub trait IMale: IPerson {\n"));
    // The positional constructor assigns flattened attributes by index.
    assert!(code.contains("0 => entity.first_name = FromParameter::from_parameter(parameter),\n"));
    assert!(code.contains("1 => entity.last_name = FromParameter::from_parameter(parameter),\n"));
    assert!(code.contains(
        "2 => entity.wife = if parameter.is_null() { None } else { Some(FromParameter::from_parameter(parameter)) },\n"
    ));
}

#[test]
fn generation_is_deterministic() {
    let one = {
        let g = Generator::new(parse_schema(FAMILY_SCHEMA)).expect("analyzes");
        g.gencode()
    };
    let two = {
        let g = Generator::new(parse_schema(FAMILY_SCHEMA)).expect("analyzes");
        g.gencode()
    };
    assert_eq!(one, two);
}

#[test]
fn flattened_attributes_follow_supertype_order() {
    let s = parse_schema(FAMILY_SCHEMA);
    let ents = iso_10303::analysis::collect_entity_infos(&s);
    let male = String::from("male");
    let attrs = iso_10303::analysis::get_entity_attributes(&ents, &male, 10)
        .expect("no supertype cycle");
    let names: Vec<&str> = attrs.iter().map(|a| a.name.as_str()).collect();
    assert_eq!(names, vec!["first_name", "last_name", "wife"]);
}

#[test]
fn shadowed_attribute_keeps_single_position() {
    let text = "SCHEMA shadow;\n\
ENTITY base;\n  size: NUMBER;\n  tag_value: STRING;\nEND_ENTITY;\n\
ENTITY narrow SUBTYPE OF (base);\n  size: INTEGER;\nEND_ENTITY;\n\
END_SCHEMA;\n";
    let s = parse_schema(text);
    let ents = iso_10303::analysis::collect_entity_infos(&s);
    let narrow = String::from("narrow");
    let attrs = iso_10303::analysis::get_entity_attributes(&ents, &narrow, 10)
        .expect("no supertype cycle");
    let names: Vec<&str> = attrs.iter().map(|a| a.name.as_str()).collect();
    // The local narrowing shadows the inherited attribute of the same
    // name; only the inherited attribute of a different name survives in
    // front of the own attributes.
    assert_eq!(names, vec!["tag_value", "size"]);
}

#[test]
fn diamond_supertypes_collapse() {
    let text = "SCHEMA diamond;\n\
ENTITY root;\n  label: STRING;\nEND_ENTITY;\n\
ENTITY left SUBTYPE OF (root);\nEND_ENTITY;\n\
ENTITY right SUBTYPE OF (root);\nEND_ENTITY;\n\
ENTITY join SUBTYPE OF (left, right);\nEND_ENTITY;\n\
END_SCHEMA;\n";
    let s = parse_schema(text);
    let ents = iso_10303::analysis::collect_entity_infos(&s);
    let join = String::from("join");
    let attrs = iso_10303::analysis::get_entity_attributes(&ents, &join, 10)
        .expect("no supertype cycle");
    let names: Vec<&str> = attrs.iter().map(|a| a.name.as_str()).collect();
    // The shared ancestor's attribute appears once, not once per branch.
    assert_eq!(names, vec!["label"]);
    let chain = iso_10303::analysis::get_entity_supertypes(&ents, &join, 10)
        .expect("no supertype cycle");
    let chain_names: Vec<&str> = chain.iter().map(|i| i.name.as_str()).collect();
    assert_eq!(chain_names, vec!["Root", "Left", "Right", "Join"]);
}

#[test]
fn select_of_two_entities_gets_catch_all() {
    let text = "SCHEMA sel;\n\
ENTITY apple;\nEND_ENTITY;\n\
ENTITY berry;\nEND_ENTITY;\n\
TYPE fruit = SELECT (apple, berry);\nEND_TYPE;\n\
END_SCHEMA;\n";
    let g = Generator::new(parse_schema(text)).expect("analyzes");
    let code = g.gencode();
    assert!(code.contains("pub enum Fruit {\n    EntityRef(EntityRef),\n    Apple(EntityRef),\n    Berry(EntityRef),\n}\n"));
    // A bare instance reference cannot be grounded without a second
    // lookup, so it lands in the catch-all variant.
    assert!(code.contains("UnTypedParameter::EntityRef(id) => Fruit::EntityRef(EntityRef(id)),\n"));
}

#[test]
fn select_of_entity_and_value_has_no_catch_all() {
    let text = "SCHEMA sel2;\n\
ENTITY apple;\nEND_ENTITY;\n\
TYPE count_value = INTEGER;\nEND_TYPE;\n\
TYPE fruit_or_count = SELECT (apple, count_value);\nEND_TYPE;\n\
END_SCHEMA;\n";
    let g = Generator::new(parse_schema(text)).expect("analyzes");
    let code = g.gencode();
    assert!(code.contains("pub enum FruitOrCount {\n    Apple(EntityRef),\n    CountValue(CountValue),\n}\n"));
    assert!(!code.contains("FruitOrCount {\n    EntityRef(EntityRef)"));
    // The single entity member is grounded directly from a bare reference,
    // and the value member converts through its typed constructor.
    assert!(code.contains("UnTypedParameter::EntityRef(id) => FruitOrCount::Apple(EntityRef(id)),\n"));
    assert!(code.contains("\"COUNT_VALUE\" => FruitOrCount::CountValue(FromParameter::from_parameter(typed_parameter.parameters.into_iter().next().unwrap())),\n"));
}

#[test]
fn select_of_values_is_plain_union() {
    let text = "SCHEMA sel3;\n\
TYPE count_value = INTEGER;\nEND_TYPE;\n\
TYPE name_value = STRING;\nEND_TYPE;\n\
TYPE either_value = SELECT (count_value, name_value);\nEND_TYPE;\n\
END_SCHEMA;\n";
    let g = Generator::new(parse_schema(text)).expect("analyzes");
    let code = g.gencode();
    assert!(code.contains("pub enum EitherValue {\n    CountValue(CountValue),\n    NameValue(NameValue),\n}\n"));
    assert!(!code.contains("EitherValue {\n    EntityRef"));
}

#[test]
fn entity_without_attributes_gets_default_constructor() {
    let text = "SCHEMA empty;\n\
ENTITY marker_point;\nEND_ENTITY;\n\
END_SCHEMA;\n";
    let g = Generator::new(parse_schema(text)).expect("analyzes");
    let code = g.gencode();
    assert!(code.contains(
        "impl MarkerPoint {\n    pub fn from_parameters(_parameters: Vec<Parameter>) -> Self {\n        MarkerPoint::default()\n    }\n}\n"
    ));
}

#[test]
fn enum_type_generates_conversions() {
    let text = "SCHEMA hair;\n\
TYPE hair_type = ENUMERATION OF (blonde, brown);\nEND_TYPE;\n\
ENTITY person;\n  hair: hair_type;\nEND_ENTITY;\n\
END_SCHEMA;\n";
    let g = Generator::new(parse_schema(text)).expect("analyzes");
    let code = g.gencode();
    assert!(code.contains("pub enum HairType {\n    Blonde,\n    Brown,\n}\n"));
    assert!(code.contains("\"BLONDE\" => HairType::Blonde,\n"));
    assert!(code.contains("HairType::Blonde\n"));
}

#[test]
fn reader_dispatch_uses_upper_case_names() {
    let g = Generator::new(parse_schema(FAMILY_SCHEMA)).expect("analyzes");
    let code = g.gencode();
    assert!(code.contains("pub struct FamilyReader {\n"));
    // The emitted source is self-contained: it carries the conversion
    // trait its constructors dispatch through, and a real type whose
    // equality, order and hash treat every not-a-number alike, so set
    // attributes of reals stay hashable.
    assert!(code.contains("pub trait FromParameter {\n"));
    assert!(code.contains("impl Eq for Real {}\n"));
    assert!(code.contains("impl std::hash::Hash for Real {\n"));
    assert!(code.contains("impl Ord for Real {\n"));
    assert!(code.contains("\"MALE\" => {\n"));
    assert!(code.contains("\"FEMALE\" => {\n"));
    // The abstract-free schema dispatches every concrete entity, and the
    // reader drives itself over a parsed exchange file.
    assert!(code.contains("Male::from_parameters(typed_parameter.parameters)"));
    assert!(code.contains("pub fn read_data(&mut self, file: ExchangeFile) {\n"));
    // A complex record's recognized branches are built and stored as one
    // bundle under the record's id.
    assert!(code.contains("pub fn read_complex_entity(&mut self, id: i64, typed_parameters: Vec<TypedParameter>) {\n"));
    assert!(code.contains("\"MALE\" => values.push(Box::new(Male::from_parameters(typed_parameter.parameters))),\n"));
    assert!(code.contains("self.read_complex_entity(instance.id, instance.value);\n"));
}

#[test]
fn abstract_entity_generates_trait_only() {
    let text = "SCHEMA abst;\n\
ENTITY shape ABSTRACT SUPERTYPE OF (ONEOF (circle));\n  area: REAL;\nEND_ENTITY;\n\
ENTITY circle SUBTYPE OF (shape);\nEND_ENTITY;\n\
END_SCHEMA;\n";
    let g = Generator::new(parse_schema(text)).expect("analyzes");
    let code = g.gencode();
    assert!(code.contains("pub trait IShape {\n"));
    assert!(!code.contains("pub struct Shape {"));
    assert!(code.contains("pub struct Circle {\n"));
    assert!(!code.contains("\"SHAPE\" =>"));
}

#[test]
fn supertype_cycle_is_reported() {
    let text = "SCHEMA cyc;\n\
ENTITY a SUBTYPE OF (b);\nEND_ENTITY;\n\
ENTITY b SUBTYPE OF (a);\nEND_ENTITY;\n\
END_SCHEMA;\n";
    let r = Generator::new(parse_schema(text));
    assert!(matches!(
        r,
        Err(iso_10303::analysis::SchemaError::SupertypeCycle { .. })
    ));
}

#[test]
fn unknown_supertype_is_reported() {
    let text = "SCHEMA typo;\n\
ENTITY child SUBTYPE OF (parrent);\n  code: STRING;\nEND_ENTITY;\n\
END_SCHEMA;\n";
    let r = Generator::new(parse_schema(text));
    match r {
        Err(iso_10303::analysis::SchemaError::UnknownSupertype { entity, supertype }) => {
            assert_eq!(entity, "child");
            assert_eq!(supertype, "parrent");
        }
        _ => panic!("expected unknown supertype report"),
    }
}

#[test]
fn unresolved_select_is_reported() {
    let text = "SCHEMA unres;\n\
TYPE broken = SELECT (missing_name);\nEND_TYPE;\n\
END_SCHEMA;\n";
    let r = Generator::new(parse_schema(text));
    match r {
        Err(iso_10303::analysis::SchemaError::UnresolvedTypes { names }) => {
            assert_eq!(names.len(), 1);
            assert_eq!(names[0], "broken");
        }
        _ => panic!("expected unresolved type report"),
    }
}

#[test]
fn hashable_set_element_derives_hash() {
    let text = "SCHEMA hashy;\n\
TYPE label_value = SELECT (count_value);\nEND_TYPE;\n\
TYPE count_value = SELECT (width_value);\nEND_TYPE;\n\
TYPE width_value = SELECT (depth_value);\nEND_TYPE;\n\
TYPE depth_value = SELECT (name_value);\nEND_TYPE;\n\
TYPE name_value = STRING;\nEND_TYPE;\n\
ENTITY thing;\n  labels: SET OF label_value;\nEND_ENTITY;\n\
END_SCHEMA;\n";
    let g = Generator::new(parse_schema(text)).expect("fixpoint resolves forward references");
    let code = g.gencode();
    // The set element type and every select member reachable from it get
    // the hash-capable derive.
    assert!(code.contains("#[derive(Eq, PartialEq, Hash, Debug)]\npub enum LabelValue"));
    assert!(code.contains("#[derive(Eq, PartialEq, Hash, Debug)]\npub enum CountValue"));
    assert!(code.contains("#[derive(Eq, PartialEq, Hash, Debug)]\npub enum DepthValue"));
}

#[test]
fn numeric_widening_accessor_is_emitted() {
    let text = "SCHEMA widen;\n\
ENTITY measure;\n  amount: NUMBER;\nEND_ENTITY;\n\
ENTITY whole_measure SUBTYPE OF (measure);\n  amount: INTEGER;\nEND_ENTITY;\n\
END_SCHEMA;\n";
    let g = Generator::new(parse_schema(text)).expect("analyzes");
    let code = g.gencode();
    assert!(code.contains("Real(self.amount as f64)"));
}
