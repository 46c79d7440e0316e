use acir_compiler::ast::{
    Expression, FieldElement, FuncId, Function, Functions, Literal, LocalId, Location, Signedness,
    Type,
};

fn sample_function(id: u32, name: &str, body: Expression) -> Function {
    Function {
        id: FuncId(id),
        name: String::from(name),
        parameters: vec![(LocalId(0), Type::Field, String::from("x"))],
        body,
        return_type: Type::Unit,
    }
}

#[test]
fn functions_new_holds_main() {
    let main = sample_function(0, "main", Expression::Literal(Literal::Bool(true)));
    let program = Functions::new(main, ());
    assert_eq!(program.functions.len(), 1);
    assert_eq!(program.functions[0].name, "main");
}

#[test]
fn functions_push_appends() {
    let main = sample_function(0, "main", Expression::Literal(Literal::Bool(true)));
    let mut program = Functions::new(main, ());
    program.push(sample_function(1, "helper", Expression::Literal(Literal::Bool(false))));
    assert_eq!(program.functions.len(), 2);
    assert_eq!(program.index(FuncId(1)).name, "helper");
}

#[test]
fn take_main_body_replaces_with_false() {
    let main = sample_function(0, "main", Expression::Literal(Literal::Bool(true)));
    let mut program = Functions::new(main, ());
    let body = program.take_main_body();
    assert!(matches!(body, Expression::Literal(Literal::Bool(true))));
    assert!(matches!(program.functions[0].body, Expression::Literal(Literal::Bool(false))));
}

#[test]
fn take_function_body_leaves_others_alone() {
    let main = sample_function(0, "main", Expression::Literal(Literal::Bool(true)));
    let mut program = Functions::new(main, String::from("interface"));
    let one = sample_function(
        1,
        "one",
        Expression::Literal(Literal::Integer(FieldElement { value: 41 }, Type::Field)),
    );
    program.push(one);
    let body = program.take_function_body(FuncId(1));
    match body {
        Expression::Literal(Literal::Integer(field, Type::Field)) => {
            assert_eq!(field.value, 41);
        },
        _ => panic!("took the wrong body"),
    }
    assert!(matches!(program.functions[0].body, Expression::Literal(Literal::Bool(true))));
    assert!(matches!(program.functions[1].body, Expression::Literal(Literal::Bool(false))));
    assert_eq!(program.abi, "interface");
}

#[test]
fn locations_are_plain_data() {
    let a = Location { span_start: 3, span_end: 9, file: 1 };
    let b = Location { span_start: 3, span_end: 9, file: 1 };
    assert_eq!(a, b);
    let constrained = Expression::Constrain(
        Box::new(Expression::Literal(Literal::Bool(true))),
        a,
    );
    assert!(matches!(constrained, Expression::Constrain(_, loc) if loc == b));
}

#[test]
fn type_display_atoms() {
    assert_eq!(Type::Field.to_string(), "Field");
    assert_eq!(Type::Bool.to_string(), "bool");
    assert_eq!(Type::Unit.to_string(), "()");
}

#[test]
fn type_display_integers() {
    assert_eq!(Type::Integer(Signedness::Unsigned, 32).to_string(), "u32");
    assert_eq!(Type::Integer(Signedness::Signed, 8).to_string(), "i8");
    assert_eq!(Type::Integer(Signedness::Unsigned, 0).to_string(), "u0");
    assert_eq!(
        Type::Integer(Signedness::Unsigned, 4294967295).to_string(),
        "u4294967295"
    );
}

#[test]
fn type_display_arrays() {
    assert_eq!(Type::Array(4, Box::new(Type::Field)).to_string(), "[Field; 4]");
    assert_eq!(
        Type::Array(10, Box::new(Type::Array(2, Box::new(Type::Bool)))).to_string(),
        "[[bool; 2]; 10]"
    );
    assert_eq!(
        Type::Array(18446744073709551615, Box::new(Type::Field)).to_string(),
        "[Field; 18446744073709551615]"
    );
}

#[test]
fn type_display_tuples() {
    assert_eq!(Type::Tuple(vec![Type::Field]).to_string(), "(Field)");
    assert_eq!(
        Type::Tuple(vec![Type::Field, Type::Integer(Signedness::Unsigned, 64), Type::Bool])
            .to_string(),
        "(Field, u64, bool)"
    );
    assert_eq!(
        Type::Tuple(vec![Type::Tuple(vec![Type::Bool, Type::Unit]), Type::Field]).to_string(),
        "((bool, ()), Field)"
    );
}

#[test]
fn type_clone_is_deep() {
    let original = Type::Tuple(vec![
        Type::Array(3, Box::new(Type::Integer(Signedness::Signed, 16))),
        Type::Bool,
    ]);
    let copy = original.clone();
    assert_eq!(copy.to_string(), original.to_string());
    assert_eq!(copy.to_string(), "([i16; 3], bool)");
}
