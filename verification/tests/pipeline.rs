use acir_compiler::compiler::{
    compile, compose_position_maps, transform_assert_messages, AcirTransformationMap, Circuit,
    ExpressionWidth, OpcodeLocation,
};

fn map_of(positions: Vec<usize>) -> AcirTransformationMap {
    AcirTransformationMap::new(positions)
}

#[test]
fn new_locations_top_level() {
    let map = map_of(vec![0, 2, 2]);
    assert_eq!(map.new_locations(OpcodeLocation::Acir(0)), vec![OpcodeLocation::Acir(0)]);
    assert_eq!(map.new_locations(OpcodeLocation::Acir(1)), Vec::new());
    assert_eq!(
        map.new_locations(OpcodeLocation::Acir(2)),
        vec![OpcodeLocation::Acir(1), OpcodeLocation::Acir(2)]
    );
}

#[test]
fn new_locations_keeps_embedded_sub_index() {
    let map = map_of(vec![0, 0, 2]);
    let old = OpcodeLocation::Brillig { acir_index: 0, brillig_index: 7 };
    assert_eq!(
        map.new_locations(old),
        vec![
            OpcodeLocation::Brillig { acir_index: 0, brillig_index: 7 },
            OpcodeLocation::Brillig { acir_index: 1, brillig_index: 7 },
        ]
    );
}

#[test]
fn new_locations_restartable() {
    let map = map_of(vec![1, 1]);
    let first = map.new_locations(OpcodeLocation::Acir(1));
    let second = map.new_locations(OpcodeLocation::Acir(1));
    assert_eq!(first, second);
    assert_eq!(first, vec![OpcodeLocation::Acir(0), OpcodeLocation::Acir(1)]);
}

#[test]
fn new_locations_empty_map() {
    let map = map_of(Vec::new());
    assert_eq!(map.new_locations(OpcodeLocation::Acir(0)), Vec::new());
}

#[test]
fn compose_maps_scenario() {
    let map1: Vec<usize> = vec![0, 2, 2];
    let map2: Vec<usize> = vec![0, 1, 2];
    assert_eq!(compose_position_maps(&map1, &map2), vec![0, 2, 2]);
}

#[test]
fn compose_with_identity_is_unchanged() {
    let map1: Vec<usize> = vec![3, 0, 3, 1];
    let identity: Vec<usize> = vec![0, 1, 2, 3];
    assert_eq!(compose_position_maps(&map1, &identity), map1);
    let wide_identity: Vec<usize> = vec![0, 1, 2, 3];
    assert_eq!(compose_position_maps(&wide_identity, &map1), map1);
}

#[test]
fn compose_empty_maps() {
    let map1: Vec<usize> = Vec::new();
    let map2: Vec<usize> = Vec::new();
    assert_eq!(compose_position_maps(&map1, &map2), Vec::new());
}

#[test]
fn relocation_fans_out_and_drops() {
    let map = map_of(vec![0, 2, 2]);
    let messages = vec![
        (OpcodeLocation::Acir(1), String::from("b failed")),
        (OpcodeLocation::Acir(2), String::from("c failed")),
    ];
    let relocated = transform_assert_messages(messages, &map);
    assert_eq!(
        relocated,
        vec![
            (OpcodeLocation::Acir(1), String::from("c failed")),
            (OpcodeLocation::Acir(2), String::from("c failed")),
        ]
    );
}

#[test]
fn relocation_keeps_list_order() {
    let map = map_of(vec![1, 0, 1]);
    let messages = vec![
        (OpcodeLocation::Acir(0), String::from("first")),
        (OpcodeLocation::Acir(1), String::from("second")),
    ];
    let relocated = transform_assert_messages(messages, &map);
    assert_eq!(
        relocated,
        vec![
            (OpcodeLocation::Acir(1), String::from("first")),
            (OpcodeLocation::Acir(0), String::from("second")),
            (OpcodeLocation::Acir(2), String::from("second")),
        ]
    );
}

#[test]
fn relocation_of_empty_list() {
    let map = map_of(vec![0, 1]);
    assert_eq!(transform_assert_messages(Vec::new(), &map), Vec::new());
}

#[test]
fn compile_scenario_deleted_and_duplicated_opcodes() {
    let circuit = Circuit {
        opcodes: vec![String::from("A"), String::from("B"), String::from("C")],
        assert_messages: vec![
            (OpcodeLocation::Acir(1), String::from("b failed")),
            (OpcodeLocation::Acir(2), String::from("c failed")),
        ],
    };
    // The optimizer deletes B and duplicates C; the width transformer leaves
    // the circuit unchanged.
    let (compiled, map) = compile(
        circuit,
        ExpressionWidth::Bounded { width: 4 },
        |c: Circuit<String>| {
            let opcodes = vec![c.opcodes[0].clone(), c.opcodes[2].clone(), c.opcodes[2].clone()];
            (Circuit { opcodes, assert_messages: c.assert_messages }, vec![0, 2, 2])
        },
        |c: Circuit<String>, _width: ExpressionWidth| {
            let positions: Vec<usize> = (0..c.opcodes.len()).collect();
            (c, positions)
        },
    );
    assert_eq!(compiled.opcodes, vec![String::from("A"), String::from("C"), String::from("C")]);
    assert_eq!(
        compiled.assert_messages,
        vec![
            (OpcodeLocation::Acir(1), String::from("c failed")),
            (OpcodeLocation::Acir(2), String::from("c failed")),
        ]
    );
    assert_eq!(map.new_locations(OpcodeLocation::Acir(1)), Vec::new());
    assert_eq!(
        map.new_locations(OpcodeLocation::Acir(2)),
        vec![OpcodeLocation::Acir(1), OpcodeLocation::Acir(2)]
    );
}

#[test]
fn compile_composes_both_passes() {
    let circuit = Circuit {
        opcodes: vec![0u32, 1u32],
        assert_messages: vec![(OpcodeLocation::Acir(0), String::from("watch me"))],
    };
    // The optimizer swaps the two opcodes; the width transformer splits the
    // second output opcode in two.
    let (compiled, map) = compile(
        circuit,
        ExpressionWidth::Unbounded,
        |c: Circuit<u32>| {
            let opcodes = vec![c.opcodes[1], c.opcodes[0]];
            (Circuit { opcodes, assert_messages: c.assert_messages }, vec![1, 0])
        },
        |c: Circuit<u32>, _width: ExpressionWidth| {
            let opcodes = vec![c.opcodes[0], c.opcodes[1], c.opcodes[1]];
            (Circuit { opcodes, assert_messages: c.assert_messages }, vec![0, 1, 1])
        },
    );
    assert_eq!(compiled.opcodes, vec![1u32, 0u32, 0u32]);
    assert_eq!(
        compiled.assert_messages,
        vec![
            (OpcodeLocation::Acir(1), String::from("watch me")),
            (OpcodeLocation::Acir(2), String::from("watch me")),
        ]
    );
    assert_eq!(
        map.new_locations(OpcodeLocation::Acir(0)),
        vec![OpcodeLocation::Acir(1), OpcodeLocation::Acir(2)]
    );
    assert_eq!(map.new_locations(OpcodeLocation::Acir(1)), vec![OpcodeLocation::Acir(0)]);
}

#[test]
fn compile_empty_circuit() {
    let circuit = Circuit::<u32> { opcodes: Vec::new(), assert_messages: Vec::new() };
    let (compiled, map) = compile(
        circuit,
        ExpressionWidth::Unbounded,
        |c: Circuit<u32>| (c, Vec::new()),
        |c: Circuit<u32>, _width: ExpressionWidth| (c, Vec::new()),
    );
    assert!(compiled.opcodes.is_empty());
    assert!(compiled.assert_messages.is_empty());
    assert_eq!(map.new_locations(OpcodeLocation::Acir(0)), Vec::new());
}
