use iso_10303::express::parser::schema;
use iso_10303::express::{DataType, Declaration};
use iso_10303::step::{Parameter, UnTypedParameter, exchange_file};

#[test]
fn schema_header_and_declarations_parse() {
    let text = "SCHEMA design;\n\
TYPE length_measure = REAL;\nEND_TYPE;\n\
ENTITY point;\n  x: length_measure;\n  y: length_measure;\nEND_ENTITY;\n\
END_SCHEMA;\n";
    let s = schema(text.as_bytes()).expect("schema parses");
    assert_eq!(s.name, "design");
    assert_eq!(s.declarations.len(), 2);
    match &s.declarations[0] {
        Declaration::TypeDef(td) => {
            assert_eq!(td.name, "length_measure");
            assert!(matches!(td.underlying_type, DataType::Real { .. }));
        }
        other => panic!("first declaration is not a type: {:?}", other),
    }
    match &s.declarations[1] {
        Declaration::Entity(e) => {
            assert_eq!(e.name, "point");
            assert_eq!(e.attributes.len(), 2);
            assert_eq!(e.attributes[0].name, "x");
            assert!(!e.attributes[0].optional);
        }
        other => panic!("second declaration is not an entity: {:?}", other),
    }
}

#[test]
fn comments_and_case_are_tolerated() {
    let text = "-- a line remark\n(* a (* nested *) remark *) schema mixed;\n\
entity item;\n  tag_line: string; -- trailing remark\nend_entity;\n\
end_schema;\n";
    let s = schema(text.as_bytes()).expect("schema parses");
    assert_eq!(s.name, "mixed");
    assert_eq!(s.declarations.len(), 1);
}

#[test]
fn aggregation_types_parse() {
    let text = "SCHEMA aggr;\n\
ENTITY holder;\n  items: LIST [0:?] OF UNIQUE STRING;\n  coords: ARRAY [1:3] OF REAL;\n  tags: SET OF STRING;\n  loose: BAG [2:8] OF INTEGER;\nEND_ENTITY;\n\
END_SCHEMA;\n";
    let s = schema(text.as_bytes()).expect("schema parses");
    match &s.declarations[0] {
        Declaration::Entity(e) => {
            assert!(matches!(&e.attributes[0].data_type, DataType::List { unique: true, .. }));
            assert!(matches!(&e.attributes[1].data_type, DataType::Array { .. }));
            assert!(matches!(&e.attributes[2].data_type, DataType::SetOf { bound: None, .. }));
            assert!(matches!(&e.attributes[3].data_type, DataType::Bag { bound: Some(_), .. }));
        }
        other => panic!("not an entity: {:?}", other),
    }
}

#[test]
fn where_and_derive_clauses_are_consumed() {
    let text = "SCHEMA ruled;\n\
TYPE day_in_month = INTEGER;\nEND_TYPE;\n\
ENTITY date_value;\n  day_component: day_in_month;\n\
 DERIVE\n  doubled: INTEGER := day_component * 2;\n\
 WHERE\n  small: day_component <= 31;\nEND_ENTITY;\n\
END_SCHEMA;\n";
    let s = schema(text.as_bytes()).expect("schema parses");
    match &s.declarations[1] {
        Declaration::Entity(e) => {
            assert_eq!(e.attributes.len(), 1);
            assert_eq!(e.derives.len(), 1);
            assert_eq!(e.derives[0].name, "doubled");
            assert_eq!(e.domain_rules.len(), 1);
            assert_eq!(e.domain_rules[0].label.as_deref(), Some("small"));
        }
        other => panic!("not an entity: {:?}", other),
    }
}

#[test]
fn function_declarations_are_kept_structurally() {
    let text = "SCHEMA funcy;\n\
FUNCTION twice(n: INTEGER): INTEGER;\n  RETURN (n * 2);\nEND_FUNCTION;\n\
ENTITY anchor;\nEND_ENTITY;\n\
END_SCHEMA;\n";
    let s = schema(text.as_bytes()).expect("schema parses");
    match &s.declarations[0] {
        Declaration::Function(f) => {
            assert_eq!(f.name, "twice");
            assert_eq!(f.parameters.len(), 1);
            assert_eq!(f.statements.len(), 1);
        }
        other => panic!("not a function: {:?}", other),
    }
}

#[test]
fn unique_and_inverse_clauses_parse() {
    let text = "SCHEMA keys;\n\
ENTITY node;\n  code: STRING;\n  owner: STRING;\n\
 INVERSE\n  backrefs: SET OF node FOR owner;\n\
 UNIQUE\n  ur1: code, owner;\nEND_ENTITY;\n\
END_SCHEMA;\n";
    let s = schema(text.as_bytes()).expect("schema parses");
    match &s.declarations[0] {
        Declaration::Entity(e) => {
            assert_eq!(e.attributes.len(), 2);
            assert_eq!(e.unique_rules.len(), 1);
            assert_eq!(e.unique_rules[0].label.as_deref(), Some("ur1"));
            assert_eq!(e.unique_rules[0].attributes.len(), 2);
            assert_eq!(e.unique_rules[0].attributes[0].name, "code");
        }
        other => panic!("not an entity: {:?}", other),
    }
}

#[test]
fn constants_block_parses() {
    let text = "SCHEMA consts;\n\
CONSTANT\n  origin_offset: INTEGER := 0;\nEND_CONSTANT;\n\
ENTITY anchor;\nEND_ENTITY;\n\
END_SCHEMA;\n";
    let s = schema(text.as_bytes()).expect("schema parses");
    assert_eq!(s.constants.len(), 1);
    assert_eq!(s.constants[0].name, "origin_offset");
    assert_eq!(s.declarations.len(), 1);
}

#[test]
fn truncated_schema_reports_position() {
    let text = "SCHEMA broken;\nENTITY unfinished;\n";
    let err = schema(text.as_bytes()).expect_err("parse must fail");
    assert!(err.position <= text.len());
}

#[test]
fn unterminated_remark_fails_at_its_opener() {
    let text = "SCHEMA cut;\nENTITY item;\nEND_ENTITY;\n(* never closed\nEND_SCHEMA;\n";
    let err = schema(text.as_bytes()).expect_err("parse must fail");
    assert_eq!(err.position, text.find("(*").unwrap());
}

#[test]
fn unterminated_step_comment_fails_at_its_opener() {
    let text = "ISO-10303-21;\nHEADER;\nA();\nB();\nC();\nENDSEC;\nDATA;\n/* never closed\nENDSEC;\nEND-ISO-10303-21;\n";
    let err = exchange_file(text.as_bytes()).expect_err("parse must fail");
    assert_eq!(err.position, text.find("/*").unwrap());
}

#[test]
fn exchange_file_parses_values() {
    let text = "ISO-10303-21;\nHEADER;\nA();\nB();\nC();\nENDSEC;\nDATA;\n#1 = THING(12, -7, 2.5, 1.0E-3, .STEEL., #42, 'it''s', $, *, (1, 2));\nENDSEC;\nEND-ISO-10303-21;\n";
    let file = exchange_file(text.as_bytes()).expect("file parses");
    assert_eq!(file.data.len(), 1);
    let inst = &file.data[0];
    assert_eq!(inst.id, 1);
    assert_eq!(inst.value.len(), 1);
    let tp = &inst.value[0];
    assert_eq!(tp.name, "THING");
    assert_eq!(tp.parameters.len(), 10);
    assert_eq!(tp.parameters[0].to_integer(), Some(12));
    assert_eq!(tp.parameters[1].to_integer(), Some(-7));
    assert_eq!(tp.parameters[2].to_real_text().as_deref(), Some("2.5"));
    assert_eq!(tp.parameters[3].to_real_text().as_deref(), Some("1.0E-3"));
    match &tp.parameters[4] {
        Parameter::UnTypedParameter(UnTypedParameter::EnumValue(v)) => assert_eq!(v, "STEEL"),
        other => panic!("not an enum value: {:?}", other),
    }
    match &tp.parameters[5] {
        Parameter::UnTypedParameter(UnTypedParameter::EntityRef(id)) => assert_eq!(*id, 42),
        other => panic!("not an instance reference: {:?}", other),
    }
    assert_eq!(tp.parameters[6].to_string_value().as_deref(), Some("it's"));
    assert!(tp.parameters[7].is_null());
    assert!(tp.parameters[8].is_null());
    match &tp.parameters[9] {
        Parameter::UnTypedParameter(UnTypedParameter::List(items)) => assert_eq!(items.len(), 2),
        other => panic!("not a list: {:?}", other),
    }
}

#[test]
fn complex_instance_parses_all_branches() {
    let text = "ISO-10303-21;\nHEADER;\nA();\nB();\nC();\nENDSEC;\nDATA;\n#9 = (ALPHA('x') BETA(1));\nENDSEC;\nEND-ISO-10303-21;\n";
    let file = exchange_file(text.as_bytes()).expect("file parses");
    assert_eq!(file.data[0].value.len(), 2);
    assert_eq!(file.data[0].value[0].name, "ALPHA");
    assert_eq!(file.data[0].value[1].name, "BETA");
}

#[test]
fn missing_header_entity_is_an_error() {
    let text = "ISO-10303-21;\nHEADER;\nA();\nB();\nENDSEC;\nDATA;\nENDSEC;\nEND-ISO-10303-21;\n";
    let err = exchange_file(text.as_bytes()).expect_err("too few header entities");
    assert!(err.position <= text.len());
}

#[test]
fn string_escapes_decode() {
    let text = "ISO-10303-21;\nHEADER;\nA();\nB();\nC();\nENDSEC;\nDATA;\n#1 = S('tab\\there');\nENDSEC;\nEND-ISO-10303-21;\n";
    let file = exchange_file(text.as_bytes()).expect("file parses");
    let tp = &file.data[0].value[0];
    assert_eq!(tp.parameters[0].to_string_value().as_deref(), Some("tab\there"));
}

#[test]
fn parameter_conversions_reject_other_shapes() {
    let p = Parameter::UnTypedParameter(UnTypedParameter::String(String::from("x")));
    assert_eq!(p.to_integer(), None);
    assert_eq!(p.to_bool(), None);
    assert_eq!(p.to_entity_ref(), None);
    let t = Parameter::UnTypedParameter(UnTypedParameter::EnumValue(String::from("T")));
    assert_eq!(t.to_bool(), Some(true));
    assert_eq!(t.to_logical(), Some(Some(true)));
    let u = Parameter::UnTypedParameter(UnTypedParameter::EnumValue(String::from("U")));
    assert_eq!(u.to_bool(), None);
    assert_eq!(u.to_logical(), Some(None));
    let omitted = Parameter::OmittedParameter;
    assert_eq!(omitted.to_logical(), Some(None));
    assert_eq!(omitted.to_entity_ref(), Some(iso_10303::step::EntityRef(0)));
    let null = Parameter::UnTypedParameter(UnTypedParameter::Null);
    assert_eq!(null.to_string_value().as_deref(), Some(""));
    assert!(null.is_null());
}
