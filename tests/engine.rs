use m31_dsl::dsl::{m31_limbs_add_native, m31_mult_native, DslError, Options, DSL};
use m31_dsl::functions::{
    AcceptableFunctionMetadata, Element, FunctionMetadata, FunctionRegistry,
    FunctionWithOptionsMetadata, Gadget,
};

#[test]
fn unknown_operation() {
    let mut dsl = DSL::new();
    let a = dsl.alloc_input("m31", Element::Num(3)).unwrap();
    assert_eq!(dsl.execute("no_such_op", &[a, a]), Err(DslError::UnknownOperation));
    assert_eq!(dsl.memory.len(), 1);
    assert!(dsl.program.is_empty());
}

#[test]
fn wrong_operand_count() {
    let mut dsl = DSL::new();
    let a = dsl.alloc_input("m31", Element::Num(3)).unwrap();
    assert_eq!(dsl.execute("m31_mult", &[a]), Err(DslError::ShapeMismatch));
    assert_eq!(dsl.execute("m31_mult", &[a, a, a]), Err(DslError::ShapeMismatch));
}

#[test]
fn wrong_operand_type() {
    let mut dsl = DSL::new();
    let a = dsl.alloc_input("m31", Element::Num(3)).unwrap();
    let l = dsl.alloc_input("m31_limbs", Element::ManyNum(vec![1, 2, 3, 4])).unwrap();
    assert_eq!(dsl.execute("m31_mult", &[a, l]), Err(DslError::ShapeMismatch));
    assert_eq!(dsl.execute("m31_mult", &[a, 99]), Err(DslError::ShapeMismatch));
}

#[test]
fn successive_calls_give_increasing_refs() {
    let mut dsl = DSL::new();
    let a = dsl.alloc_input("m31", Element::Num(5)).unwrap();
    let b = dsl.alloc_input("m31", Element::Num(7)).unwrap();
    let first = dsl.execute("m31_mult", &[a, b]).unwrap();
    let second = dsl.execute("m31_mult", &[first[0], b]).unwrap();
    assert_eq!(first.len(), 1);
    assert_eq!(second.len(), 1);
    assert!(first[0] > b);
    assert!(second[0] > first[0]);
    assert!(matches!(dsl.memory[first[0]].data, Element::Num(35)));
    assert!(matches!(dsl.memory[second[0]].data, Element::Num(245)));
    assert!(!dsl.program.is_empty());
}

#[test]
fn alloc_same_value_twice() {
    let mut dsl = DSL::new();
    let x = dsl.alloc_input("hash", Element::Str(vec![1, 2, 3])).unwrap();
    let y = dsl.alloc_input("hash", Element::Str(vec![1, 2, 3])).unwrap();
    assert_ne!(x, y);
    assert_eq!(dsl.memory[x].data, dsl.memory[y].data);
}

#[test]
fn alloc_unknown_type() {
    let mut dsl = DSL::new();
    assert_eq!(dsl.alloc_input("float", Element::Num(1)), Err(DslError::UnknownDataType));
    assert!(dsl.memory.is_empty());
}

#[test]
fn variant_mismatch() {
    let mut dsl = DSL::new();
    assert!(dsl.registry.register(
        "with_options".to_string(),
        AcceptableFunctionMetadata::FunctionWithOptions(FunctionWithOptionsMetadata {
            gadget: Gadget::M31Mult,
            input: vec!["m31".to_string()],
            output: vec!["m31".to_string()],
        }),
    ));
    let a = dsl.alloc_input("m31", Element::Num(1)).unwrap();
    assert_eq!(dsl.execute("with_options", &[a]), Err(DslError::VariantMismatch));
}

#[test]
fn registry_refuses_duplicate_name() {
    let mut registry = FunctionRegistry::new();
    let entry = || {
        AcceptableFunctionMetadata::FunctionWithOptions(FunctionWithOptionsMetadata {
            gadget: Gadget::M31Mult,
            input: vec![],
            output: vec![],
        })
    };
    assert!(registry.register("op".to_string(), entry()));
    assert!(!registry.register("op".to_string(), entry()));
    assert_eq!(registry.names.len(), 1);
    assert_eq!(registry.find(&"op".to_string()), Some(0));
    assert_eq!(registry.find(&"other".to_string()), None);
}

#[test]
fn limbs_add_through_engine() {
    let mut dsl = DSL::new();
    let a = dsl.alloc_input("m31_limbs", Element::ManyNum(vec![200, 255, 0, 1])).unwrap();
    let b = dsl.alloc_input("m31_limbs", Element::ManyNum(vec![100, 0, 255, 2])).unwrap();
    let r = dsl.execute("m31_limbs_add", &[a, b]).unwrap();
    assert_eq!(dsl.memory[r[0]].data, Element::ManyNum(vec![44, 0, 0, 4]));
}

#[test]
fn native_entry_points() {
    assert_eq!(m31_mult_native(2147483646, 2).map(|p| p.0), Ok(2147483645));
    assert_eq!(m31_mult_native(5, 7), Ok((35, 0)));
    assert_eq!(m31_mult_native(-1, 7), Err(DslError::ShapeMismatch));
    assert_eq!(m31_mult_native(2147483647, 7), Err(DslError::ShapeMismatch));
    assert_eq!(m31_limbs_add_native(&vec![1, 2, 3], &vec![1, 2, 3, 4]), Err(DslError::ShapeMismatch));
    assert_eq!(
        m31_limbs_add_native(&vec![i32::MAX, 0, 0, 0], &vec![i32::MAX, 0, 0, 0]),
        Err(DslError::ArithmeticOverflow)
    );
}

fn with_options_entry() -> AcceptableFunctionMetadata {
    FunctionWithOptionsMetadata {
        gadget: Gadget::M31Mult,
        input: vec!["m31".to_string(), "m31".to_string()],
        output: vec!["m31".to_string()],
    }
    .into()
}

#[test]
fn execute_with_options_runs_parameterized_operation() {
    let mut dsl = DSL::new();
    assert!(dsl.registry.register("mult_with_options".to_string(), with_options_entry()));
    let a = dsl.alloc_input("m31", Element::Num(2147483646)).unwrap();
    let b = dsl.alloc_input("m31", Element::Num(2)).unwrap();
    let options = Options::new()
        .with_multi_u32("left", vec![1, 2, 3, 4])
        .with_multi_binary("path", vec![vec![0xab], vec![]]);
    assert_eq!(options.multi_u32.len(), 1);
    assert_eq!(options.multi_binary[0].1, vec![vec![0xab], vec![]]);
    let r = dsl.execute_with_options("mult_with_options", &[a, b], &options).unwrap();
    assert_eq!(r, vec![2]);
    assert_eq!(dsl.memory[2].data, Element::Num(2147483645));
    assert_eq!(dsl.memory.len(), 4);
    assert_eq!(
        dsl.execute_with_options("m31_mult", &[a, b], &options),
        Err(DslError::VariantMismatch)
    );
    assert_eq!(
        dsl.execute_with_options("missing", &[a, b], &options),
        Err(DslError::UnknownOperation)
    );
    assert_eq!(
        dsl.execute_with_options("mult_with_options", &[a], &options),
        Err(DslError::ShapeMismatch)
    );
}

#[test]
fn metadata_converts_into_either_shape() {
    let plain: AcceptableFunctionMetadata = FunctionMetadata {
        gadget: Gadget::M31LimbsAdd,
        input: vec![],
        output: vec![],
    }
    .into();
    assert!(matches!(plain, AcceptableFunctionMetadata::FunctionWithoutOptions(_)));
    assert!(matches!(with_options_entry(), AcceptableFunctionMetadata::FunctionWithOptions(_)));
}

#[test]
fn mult_records_product_then_quotient_hint() {
    let mut dsl = DSL::new();
    let a = dsl.alloc_input("m31", Element::Num(2147483646)).unwrap();
    let b = dsl.alloc_input("m31", Element::Num(2)).unwrap();
    let r = dsl.execute("m31_mult", &[a, b]).unwrap();
    assert_eq!(r, vec![2]);
    assert_eq!(dsl.memory.len(), 4);
    assert_eq!(dsl.memory[2].data, Element::Num(2147483645));
    assert_eq!(dsl.memory[2].data_type, "m31");
    assert_eq!(dsl.memory[3].data, Element::Num(1));
    assert_eq!(dsl.memory[3].data_type, "m31");
}

#[test]
fn new_registers_standard_operations() {
    let dsl = DSL::new();
    assert_eq!(dsl.registry.names, vec!["m31_limbs_add".to_string(), "m31_mult".to_string()]);
    assert_eq!(dsl.data_types, vec!["m31".to_string(), "m31_limbs".to_string(), "hash".to_string()]);
}

#[test]
fn mult_rejects_non_canonical_operand() {
    let mut dsl = DSL::new();
    let a = dsl.alloc_input("m31", Element::Num(-5)).unwrap();
    let b = dsl.alloc_input("m31", Element::Num(2)).unwrap();
    assert_eq!(dsl.execute("m31_mult", &[a, b]), Err(DslError::ShapeMismatch));
    assert_eq!(dsl.memory.len(), 2);
}
