use iso_10303::step::{
    EntityRef, EntityStore, Parameter, StepReader, TypedParameter, UnTypedParameter,
    exchange_file, read_instances,
};

const MALE_TAG: u64 = 1;
const FEMALE_TAG: u64 = 2;

#[derive(Debug, Default, Clone, PartialEq)]
struct Male {
    first_name: String,
    last_name: String,
    wife: Option<EntityRef>,
}

#[derive(Debug, Default, Clone, PartialEq)]
struct Female {
    first_name: String,
    last_name: String,
}

#[derive(Debug, Clone, PartialEq)]
enum FamilyEntity {
    Male(Male),
    Female(Female),
}

/// The hand-written counterpart of a generated positional constructor:
/// parameter at position i fills flattened attribute i, a null or omitted
/// parameter leaving an optional attribute `None`.
fn male_from_parameters(parameters: Vec<Parameter>) -> Option<Male> {
    let mut entity = Male::default();
    for (index, parameter) in parameters.into_iter().enumerate() {
        match index {
            0 => entity.first_name = parameter.to_string_value()?,
            1 => entity.last_name = parameter.to_string_value()?,
            2 => {
                entity.wife = if parameter.is_null() {
                    None
                } else {
                    Some(parameter.to_entity_ref()?)
                }
            }
            _ => {}
        }
    }
    Some(entity)
}

fn female_from_parameters(parameters: Vec<Parameter>) -> Option<Female> {
    let mut entity = Female::default();
    for (index, parameter) in parameters.into_iter().enumerate() {
        match index {
            0 => entity.first_name = parameter.to_string_value()?,
            1 => entity.last_name = parameter.to_string_value()?,
            _ => {}
        }
    }
    Some(entity)
}

struct FamilyReader;

impl StepReader<FamilyEntity> for FamilyReader {
    fn create_simple_entity(
        &self,
        typed_parameter: &TypedParameter,
        _own_parameters_only: bool,
    ) -> Option<(u64, FamilyEntity)> {
        let cloned: Vec<Parameter> = clone_parameters(&typed_parameter.parameters);
        match typed_parameter.name.as_str() {
            "MALE" => Some((MALE_TAG, FamilyEntity::Male(male_from_parameters(cloned)?))),
            "FEMALE" => Some((
                FEMALE_TAG,
                FamilyEntity::Female(female_from_parameters(cloned)?),
            )),
            _ => None,
        }
    }

    fn create_complex_entity(
        &self,
        _typed_parameters: &Vec<TypedParameter>,
    ) -> Option<(u64, FamilyEntity)> {
        None
    }
}

fn clone_parameters(parameters: &[Parameter]) -> Vec<Parameter> {
    parameters.iter().map(clone_parameter).collect()
}

fn clone_parameter(p: &Parameter) -> Parameter {
    match p {
        Parameter::TypedParameter(tp) => Parameter::TypedParameter(TypedParameter {
            name: tp.name.clone(),
            parameters: clone_parameters(&tp.parameters),
        }),
        Parameter::UnTypedParameter(u) => Parameter::UnTypedParameter(match u {
            UnTypedParameter::List(items) => UnTypedParameter::List(clone_parameters(items)),
            UnTypedParameter::EnumValue(s) => UnTypedParameter::EnumValue(s.clone()),
            UnTypedParameter::EntityRef(id) => UnTypedParameter::EntityRef(*id),
            UnTypedParameter::ConstantRef(s) => UnTypedParameter::ConstantRef(s.clone()),
            UnTypedParameter::Integer(n) => UnTypedParameter::Integer(*n),
            UnTypedParameter::Real(s) => UnTypedParameter::Real(s.clone()),
            UnTypedParameter::String(s) => UnTypedParameter::String(s.clone()),
            UnTypedParameter::Binary => UnTypedParameter::Binary,
            UnTypedParameter::Null => UnTypedParameter::Null,
        }),
        Parameter::OmittedParameter => Parameter::OmittedParameter,
    }
}

const FAMILY_FILE: &str = "ISO-10303-21;\nHEADER;\nFILE_DESCRIPTION((''),'2;1');\nFILE_NAME('','',(''),(''),'','','');\nFILE_SCHEMA(('FAMILY'));\nENDSEC;\nDATA;\n#1 = MALE('A','B',$);\n#2 = FEMALE('C','D');\n#3 = MALE('E','F',#2);\nENDSEC;\nEND-ISO-10303-21;\n";

#[test]
fn male_instance_reads_back_by_position() {
    let file = exchange_file(FAMILY_FILE.as_bytes()).expect("file parses");
    assert_eq!(file.header.len(), 3);
    assert_eq!(file.data.len(), 3);
    let mut store: EntityStore<FamilyEntity> = EntityStore::new();
    let skipped = read_instances(&FamilyReader, &file, &mut store);
    assert!(skipped.is_empty());
    match store.get_entity(1, MALE_TAG) {
        Some(FamilyEntity::Male(male)) => {
            assert_eq!(male.first_name, "A");
            assert_eq!(male.last_name, "B");
            assert_eq!(male.wife, None);
        }
        other => panic!("male not stored as expected: {:?}", other),
    }
    match store.get_entity(3, MALE_TAG) {
        Some(FamilyEntity::Male(male)) => {
            assert_eq!(male.wife, Some(EntityRef(2)));
        }
        other => panic!("male not stored as expected: {:?}", other),
    }
}

#[test]
fn unknown_type_name_is_skipped_and_rest_is_read() {
    let text = "ISO-10303-21;\nHEADER;\nA();\nB();\nC();\nENDSEC;\nDATA;\n#1 = ALIEN('X');\n#2 = FEMALE('C','D');\nENDSEC;\nEND-ISO-10303-21;\n";
    let file = exchange_file(text.as_bytes()).expect("file parses");
    let mut store: EntityStore<FamilyEntity> = EntityStore::new();
    let skipped = read_instances(&FamilyReader, &file, &mut store);
    assert_eq!(skipped, vec![1]);
    assert_eq!(store.len(), 1);
    match store.get_entity(2, FEMALE_TAG) {
        Some(FamilyEntity::Female(female)) => {
            assert_eq!(female.first_name, "C");
        }
        other => panic!("female not stored as expected: {:?}", other),
    }
}

#[test]
fn wrong_tag_fails_safely() {
    let file = exchange_file(FAMILY_FILE.as_bytes()).expect("file parses");
    let mut store: EntityStore<FamilyEntity> = EntityStore::new();
    read_instances(&FamilyReader, &file, &mut store);
    assert!(store.get_entity(1, FEMALE_TAG).is_none());
    assert!(store.get_entity(99, MALE_TAG).is_none());
}

#[test]
fn entity_ids_by_tag() {
    let file = exchange_file(FAMILY_FILE.as_bytes()).expect("file parses");
    let mut store: EntityStore<FamilyEntity> = EntityStore::new();
    read_instances(&FamilyReader, &file, &mut store);
    assert_eq!(store.get_entity_ids(MALE_TAG), vec![1, 3]);
    assert_eq!(store.get_entity_ids(FEMALE_TAG), vec![2]);
    assert_eq!(store.get_entity_ids(77), Vec::<i64>::new());
}

const COUPLE_TAG: u64 = 3;

/// A reader that assembles a complex record's branches into one value,
/// the way a generated reader bundles multi-branch instances.
struct ComplexFamilyReader;

impl StepReader<Vec<FamilyEntity>> for ComplexFamilyReader {
    fn create_simple_entity(
        &self,
        typed_parameter: &TypedParameter,
        own_parameters_only: bool,
    ) -> Option<(u64, Vec<FamilyEntity>)> {
        let (tag, entity) = FamilyReader.create_simple_entity(typed_parameter, own_parameters_only)?;
        Some((tag, vec![entity]))
    }

    fn create_complex_entity(
        &self,
        typed_parameters: &Vec<TypedParameter>,
    ) -> Option<(u64, Vec<FamilyEntity>)> {
        let mut branches = Vec::new();
        for tp in typed_parameters {
            if let Some((_, entity)) = FamilyReader.create_simple_entity(tp, true) {
                branches.push(entity);
            }
        }
        if branches.is_empty() {
            None
        } else {
            Some((COUPLE_TAG, branches))
        }
    }
}

#[test]
fn complex_record_branches_are_bundled() {
    let text = "ISO-10303-21;\nHEADER;\nA();\nB();\nC();\nENDSEC;\nDATA;\n#7 = (MALE('A','B',$) FEMALE('C','D'));\nENDSEC;\nEND-ISO-10303-21;\n";
    let file = exchange_file(text.as_bytes()).expect("file parses");
    let mut store: EntityStore<Vec<FamilyEntity>> = EntityStore::new();
    let skipped = read_instances(&ComplexFamilyReader, &file, &mut store);
    assert!(skipped.is_empty());
    match store.get_entity(7, COUPLE_TAG) {
        Some(branches) => {
            assert_eq!(branches.len(), 2);
            assert!(matches!(&branches[0], FamilyEntity::Male(_)));
            assert!(matches!(&branches[1], FamilyEntity::Female(_)));
        }
        None => panic!("complex record not stored"),
    }
}

#[test]
fn store_overwrites_same_id() {
    let mut store: EntityStore<FamilyEntity> = EntityStore::new();
    store.add_entity(5, MALE_TAG, FamilyEntity::Male(Male::default()));
    let eve = Female {
        first_name: String::from("Eve"),
        last_name: String::from("Stone"),
    };
    store.add_entity(5, FEMALE_TAG, FamilyEntity::Female(eve.clone()));
    assert_eq!(store.len(), 1);
    assert!(store.get_entity(5, MALE_TAG).is_none());
    assert_eq!(
        store.get_entity(5, FEMALE_TAG),
        Some(&FamilyEntity::Female(eve))
    );
}
