use brillig_gen::abi::{Abi, AbiFEType, AbiType, Sign};

#[test]
fn num_elements_of_scalars_is_one() {
    assert_eq!(AbiType::Field(AbiFEType::Public).num_elements(), 1);
    assert_eq!(AbiType::Integer { sign: Sign::Unsigned, width: 32 }.num_elements(), 1);
}

#[test]
fn num_elements_of_array_is_its_length() {
    let array = AbiType::Array { length: 7, typ: Box::new(AbiType::Field(AbiFEType::Private)) };
    assert_eq!(array.num_elements(), 7);
}

#[test]
fn parameter_names_keep_their_order() {
    let abi = Abi {
        parameters: vec![
            ("x".to_string(), AbiType::Field(AbiFEType::Private)),
            ("y".to_string(), AbiType::Integer { sign: Sign::Signed, width: 8 }),
        ],
    };
    let names = abi.parameter_names();
    assert_eq!(names.len(), 2);
    assert_eq!(names[0], "x");
    assert_eq!(names[1], "y");
    assert_eq!(abi.num_parameters(), 2);
}
