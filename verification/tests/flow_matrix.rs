use alloy::primitives::U256;
use redeemer::coordinates::pack_coordinates;
use redeemer::flow_matrix::build_flow_matrix;
use redeemer::flow_matrix::canonical_path_delivers;
use redeemer::flow_matrix::create_flow_matrix;
use redeemer::flow_matrix::lower_steps;
use redeemer::flow_matrix::path_delivers;
use redeemer::flow_matrix::sink_edge_indices;
use redeemer::flow_matrix::sum_sink_edges;
use redeemer::flow_matrix::FlowEdge;
use redeemer::flow_matrix::FlowError;
use redeemer::flow_matrix::FlowMatrix;
use redeemer::flow_matrix::Stream;
use redeemer::flow_matrix::TransferStep;
use redeemer::vertices::canonical_vertices;
use redeemer::vertices::transform_to_flow_vertices;
use redeemer::word::Total;
use redeemer::word::Word;

fn step(from: &str, to: &str, token_owner: &str, value: &str) -> TransferStep {
    TransferStep {
        from: from.to_string(),
        to: to.to_string(),
        token_owner: token_owner.to_string(),
        value: value.to_string(),
    }
}

fn three_hops(value: &str) -> Vec<TransferStep> {
    vec![
        step("0x52", "0xa5", "0x52", value),
        step("0xa5", "0x63", "0x7b", value),
        step("0x63", "0xcf", "0xf7", value),
    ]
}

fn unpack(packed: &str) -> Vec<u16> {
    let digits = packed.strip_prefix("0x").unwrap();
    let bytes = alloy::hex::decode(digits).unwrap();
    assert_eq!(bytes.len() % 2, 0);
    bytes
        .chunks(2)
        .map(|pair| u16::from(pair[0]) * 256 + u16::from(pair[1]))
        .collect()
}

fn number(address: &str) -> U256 {
    U256::from_str_radix(address.trim_start_matches("0x"), 16).unwrap()
}

#[test]
fn test_pack_coordinates() {
    let coords = vec![0x1234, 0x5678];
    let packed = pack_coordinates(&coords);
    assert_eq!(packed, "0x12345678");
}

#[test]
fn test_transform_to_flow_vertices() {
    let transfers = vec![TransferStep {
        from: "0x1234".to_string(),
        to: "0x5678".to_string(),
        token_owner: "0x9abc".to_string(),
        value: "1000".to_string(),
    }];
    let (sorted, idx) = transform_to_flow_vertices(&transfers, "0x1234", "0x5678").unwrap();
    assert_eq!(sorted.len(), 3);
    assert_eq!(idx.len(), 3);
}

#[test]
fn test_create_flow_matrix() {
    let sender = "0x52";
    let receiver = "0xcf";
    let value = U256::from_str_radix("1000000000000000000", 10)
        .unwrap()
        .to_string();

    let transfers = vec![
        TransferStep {
            from: sender.to_string(),
            to: "0xa5".to_string(),
            token_owner: sender.to_string(),
            value: value.clone(),
        },
        TransferStep {
            from: "0xa5".to_string(),
            to: "0x63".to_string(),
            token_owner: "0x7b".to_string(),
            value: value.clone(),
        },
        TransferStep {
            from: "0x63".to_string(),
            to: receiver.to_string(),
            token_owner: "0xf7".to_string(),
            value: value.clone(),
        },
    ];

    let result = create_flow_matrix(sender, receiver, &value, &transfers).unwrap();

    assert_eq!(
        result.flow_vertices,
        vec![
            sender.to_string(),
            "0x63".to_string(),
            "0x7b".to_string(),
            "0xa5".to_string(),
            receiver.to_string(),
            "0xf7".to_string(),
        ]
    );

    assert_eq!(
        result.flow_edges,
        vec![
            FlowEdge {
                stream_sink_id: 0,
                amount: value.clone()
            },
            FlowEdge {
                stream_sink_id: 0,
                amount: value.clone()
            },
            FlowEdge {
                stream_sink_id: 1,
                amount: value.clone()
            },
        ]
    );

    assert_eq!(
        result.streams,
        vec![Stream {
            source_coordinate: 0,
            flow_edge_ids: vec![2],
            data: Vec::new(),
        }]
    );

    assert_eq!(
        result.packed_coordinates,
        "0x000000000003000200030001000500010004"
    );
    assert_eq!(result.source_coordinate, 0);
}

#[test]
fn test_create_flow_matrix_terminal_sum_mismatch() {
    let sender = "0x52";
    let receiver = "0xcf";
    let value = U256::from_str_radix("1000000000000000000", 10)
        .unwrap()
        .to_string();
    let bad_value = U256::from_str_radix("100000000000000000", 10)
        .unwrap()
        .to_string(); // 0.1 ETH

    let bad_transfers = vec![TransferStep {
        from: sender.to_string(),
        to: receiver.to_string(),
        token_owner: sender.to_string(),
        value: bad_value,
    }];

    let result = create_flow_matrix(sender, receiver, &value, &bad_transfers);
    assert!(result.is_err());
    assert!(result.unwrap_err().message().contains("Terminal sum"));
}

#[test]
fn mismatch_carries_both_amounts() {
    let transfers = vec![step("0x52", "0xcf", "0x52", "100000000000000000")];
    let error = create_flow_matrix("0x52", "0xcf", "1000000000000000000", &transfers).unwrap_err();
    assert_eq!(
        error,
        FlowError::FlowMismatch {
            terminal_sum: Total { t4: 0, t3: 0, t2: 0, t1: 0, t0: 100000000000000000 },
            expected: Word { w3: 0, w2: 0, w1: 0, w0: 1000000000000000000 },
        }
    );
    assert_eq!(
        error.message(),
        "Terminal sum 100000000000000000 does not equal expected 1000000000000000000"
    );
}

#[test]
fn edges_follow_the_transfers() {
    let transfers = vec![
        step("0x01", "0x02", "0x01", "5"),
        step("0x02", "0x09", "0x02", "7"),
        step("0x01", "0x03", "0x01", "11"),
        step("0x03", "0x09", "0x03", "13"),
    ];
    let matrix = create_flow_matrix("0x01", "0x09", "20", &transfers).unwrap();
    assert_eq!(matrix.flow_edges.len(), transfers.len());
    let amounts: Vec<&str> = matrix.flow_edges.iter().map(|edge| edge.amount.as_str()).collect();
    assert_eq!(amounts, vec!["5", "7", "11", "13"]);
    let marks: Vec<u16> = matrix.flow_edges.iter().map(|edge| edge.stream_sink_id).collect();
    assert_eq!(marks, vec![0, 1, 0, 1]);
    assert_eq!(matrix.streams.len(), 1);
    assert_eq!(matrix.streams[0].flow_edge_ids, vec![1, 3]);
    assert!(matrix.streams[0].data.is_empty());
}

#[test]
fn vertices_ascend_by_number_not_by_text() {
    let transfers = vec![
        step("0x9", "0x10", "0x0a", "1"),
        step("0x10", "0x100", "0xff", "1"),
    ];
    let matrix = create_flow_matrix("0x9", "0x100", "1", &transfers).unwrap();
    assert_eq!(matrix.flow_vertices, vec!["0x9", "0x0a", "0x10", "0xff", "0x100"]);
    for pair in matrix.flow_vertices.windows(2) {
        assert!(number(&pair[0]) < number(&pair[1]));
    }
    assert_eq!(matrix.source_coordinate, 0);
    assert_eq!(matrix.packed_coordinates, "0x000100000002000300020004");
}

#[test]
fn source_and_sink_are_vertices_even_if_untouched() {
    let transfers = vec![step("0x20", "0x30", "0x20", "4")];
    let matrix = create_flow_matrix("0x40", "0x10", "4", &transfers).unwrap();
    assert_eq!(matrix.flow_vertices, vec!["0x10", "0x20", "0x30", "0x40"]);
    assert_eq!(matrix.source_coordinate, 3);
    assert_eq!(matrix.streams[0].source_coordinate, 3);
}

#[test]
fn terminal_edges_sum_to_the_target() {
    let transfers = vec![
        step("0x01", "0x09", "0x01", "340282366920938463463374607431768211455"),
        step("0x01", "0x02", "0x01", "999"),
        step("0x02", "0x09", "0x02", "1"),
    ];
    let target = "340282366920938463463374607431768211456";
    let matrix = create_flow_matrix("0x01", "0x09", target, &transfers).unwrap();
    let mut sum = U256::ZERO;
    for edge in matrix.flow_edges.iter().filter(|edge| edge.stream_sink_id == 1) {
        sum += U256::from_str_radix(&edge.amount, 10).unwrap();
    }
    assert_eq!(sum, U256::from_str_radix(target, 10).unwrap());
    assert_eq!(
        sum_sink_edges(&matrix.flow_edges),
        Some(Total { t4: 0, t3: 0, t2: 1, t1: 0, t0: 0 })
    );
}

#[test]
fn packed_coordinates_hold_six_bytes_per_transfer() {
    let transfers = three_hops("1000");
    let matrix = create_flow_matrix("0x52", "0xcf", "1000", &transfers).unwrap();
    assert_eq!(matrix.packed_coordinates.len(), 2 + 12 * transfers.len());
    let coordinates = unpack(&matrix.packed_coordinates);
    assert_eq!(coordinates.len(), 3 * transfers.len());
    for (i, transfer) in transfers.iter().enumerate() {
        let owner = usize::from(coordinates[3 * i]);
        let from = usize::from(coordinates[3 * i + 1]);
        let to = usize::from(coordinates[3 * i + 2]);
        assert_eq!(matrix.flow_vertices[owner], transfer.token_owner);
        assert_eq!(matrix.flow_vertices[from], transfer.from);
        assert_eq!(matrix.flow_vertices[to], transfer.to);
    }
}

#[test]
fn building_twice_gives_the_same_matrix() {
    let transfers = three_hops("77");
    let first: FlowMatrix = create_flow_matrix("0x52", "0xcf", "77", &transfers).unwrap();
    let second: FlowMatrix = create_flow_matrix("0x52", "0xcf", "77", &transfers).unwrap();
    assert_eq!(first, second);
    let failed = create_flow_matrix("0x52", "0xcf", "78", &transfers).unwrap_err();
    let again = create_flow_matrix("0x52", "0xcf", "78", &transfers).unwrap_err();
    assert_eq!(failed, again);
}

#[test]
fn three_hop_chain_has_one_terminal_edge() {
    let transfers = three_hops("1000000000000000000");
    let matrix = create_flow_matrix("0x52", "0xcf", "1000000000000000000", &transfers).unwrap();
    assert_eq!(matrix.flow_vertices.len(), 6);
    let marks: Vec<u16> = matrix.flow_edges.iter().map(|edge| edge.stream_sink_id).collect();
    assert_eq!(marks, vec![0, 0, 1]);
    assert_eq!(
        matrix.streams,
        vec![Stream { source_coordinate: 0, flow_edge_ids: vec![2], data: Vec::new() }]
    );
}

#[test]
fn less_than_the_target_is_a_mismatch() {
    let transfers = vec![
        step("0x01", "0x02", "0x01", "50"),
        step("0x02", "0x09", "0x02", "30"),
        step("0x01", "0x09", "0x01", "19"),
    ];
    let result = create_flow_matrix("0x01", "0x09", "50", &transfers);
    assert_eq!(
        result,
        Err(FlowError::FlowMismatch {
            terminal_sum: Total { t4: 0, t3: 0, t2: 0, t1: 0, t0: 49 },
            expected: Word { w3: 0, w2: 0, w1: 0, w0: 50 },
        })
    );
}

#[test]
fn more_vertices_than_coordinates_fail() {
    let mut transfers = Vec::new();
    for i in 0..21845u32 {
        let base = 0x1000 + 3 * i;
        transfers.push(step(
            &format!("0x{:x}", base),
            &format!("0x{:x}", base + 1),
            &format!("0x{:x}", base + 2),
            "1",
        ));
    }
    let result = create_flow_matrix("0x01", "0x02", "1", &transfers);
    assert_eq!(result, Err(FlowError::VertexOverflow { count: 65537 }));
    assert_eq!(result.unwrap_err().message(), "Vertex count 65537 exceeds 65536");
    assert_eq!(
        transform_to_flow_vertices(&transfers, "0x01", "0x02").err(),
        Some(FlowError::VertexOverflow { count: 65537 })
    );
}

#[test]
fn as_many_vertices_as_coordinates_build() {
    let mut transfers = Vec::new();
    for i in 0..32767u32 {
        transfers.push(step(
            "0x01",
            &format!("0x{:x}", 0x1000 + 2 * i),
            &format!("0x{:x}", 0x1001 + 2 * i),
            "3",
        ));
    }
    let matrix = create_flow_matrix("0x01", "0x02", "3", &transfers).unwrap();
    assert_eq!(matrix.flow_vertices.len(), 65536);
    assert_eq!(matrix.flow_vertices[65535], "0x10ffd");
    assert_eq!(matrix.streams[0].flow_edge_ids, vec![32766]);
    assert!(matrix.packed_coordinates.ends_with("ffff0000fffe"));
}

#[test]
fn last_edge_is_terminal_where_none_reaches_the_sink() {
    let transfers = vec![
        step("0x01", "0x02", "0x01", "8"),
        step("0x02", "0x03", "0x02", "6"),
    ];
    let matrix = create_flow_matrix("0x01", "0x09", "6", &transfers).unwrap();
    let marks: Vec<u16> = matrix.flow_edges.iter().map(|edge| edge.stream_sink_id).collect();
    assert_eq!(marks, vec![0, 1]);
    assert_eq!(matrix.streams[0].flow_edge_ids, vec![1]);
    let mismatch = create_flow_matrix("0x01", "0x09", "8", &transfers).unwrap_err();
    assert_eq!(mismatch.message(), "Terminal sum 6 does not equal expected 8");
    assert!(!path_delivers("0x09", &transfers));
    assert!(!canonical_path_delivers("0x09", &transfers));
    assert!(path_delivers("0X03", &transfers));
    assert!(canonical_path_delivers("0x02", &transfers));
    assert!(!canonical_path_delivers("0X03", &transfers));
    assert!(!path_delivers("0x09", &[]));
}

#[test]
fn addresses_are_canonical_in_lower_case() {
    let transfers = vec![step("0xAB", "0XCD", "0xaB", "2")];
    let matrix = create_flow_matrix("0xAb", "0xCD", "2", &transfers).unwrap();
    assert_eq!(matrix.flow_vertices, vec!["0xab", "0xcd"]);
    assert_eq!(matrix.flow_edges[0].stream_sink_id, 1);
    assert_eq!(matrix.packed_coordinates, "0x000000000001");
}

#[test]
fn one_number_in_two_spellings_fails() {
    let transfers = vec![step("0x052", "0xcf", "0x52", "2")];
    assert_eq!(
        create_flow_matrix("0x52", "0xcf", "2", &transfers),
        Err(FlowError::InvalidAddress)
    );
    let padded = vec![step("0x52", "0x00cf", "0x52", "2")];
    assert_eq!(
        create_flow_matrix("0x52", "0xcf", "2", &padded),
        Err(FlowError::InvalidAddress)
    );
    let alike = vec![step("0x052", "0x00cf", "0x052", "2")];
    let matrix = create_flow_matrix("0x052", "0x00CF", "2", &alike).unwrap();
    assert_eq!(matrix.flow_vertices, vec!["0x052", "0x00cf"]);
}

#[test]
fn invalid_address_fails() {
    let transfers = vec![step("0x52", "0xcf", "0xzz", "2")];
    let result = create_flow_matrix("0x52", "0xcf", "2", &transfers);
    assert_eq!(result, Err(FlowError::InvalidAddress));
    let full = format!("0x{}", "f".repeat(40));
    let too_long = format!("0x{}", "f".repeat(41));
    for bad in ["", "0x", "52", "x52", "0x0x52", "0x5_2", " 0x52", "0x52 ", "0x5g", too_long.as_str()] {
        assert_eq!(
            create_flow_matrix(bad, "0xcf", "2", &[]),
            Err(FlowError::InvalidAddress),
            "{:?}",
            bad
        );
        assert_eq!(
            create_flow_matrix("0x52", bad, "2", &[]),
            Err(FlowError::InvalidAddress),
            "{:?}",
            bad
        );
    }
    assert_eq!(create_flow_matrix(&full, "0xcf", "2", &[]), Err(FlowError::EmptyPath));
    assert_eq!(
        FlowError::InvalidAddress.message(),
        "Address is ill-formed or spelled in two ways"
    );
}

#[test]
fn empty_path_fails() {
    assert_eq!(create_flow_matrix("0x52", "0xcf", "0", &[]), Err(FlowError::EmptyPath));
    assert_eq!(FlowError::EmptyPath.message(), "Path has no transfers");
}

#[test]
fn invalid_amount_fails() {
    let transfers = vec![step("0x52", "0xcf", "0x52", "2")];
    let beyond = "115792089237316195423570985008687907853269984665640564039457584007913129639936";
    for bad in ["two", "-2", "abc", "1.5", "", "1_0", "+2", " 2", "2 ", "0x2", beyond] {
        assert_eq!(
            create_flow_matrix("0x52", "0xcf", bad, &transfers),
            Err(FlowError::InvalidAmount),
            "{:?}",
            bad
        );
        let carried = vec![step("0x52", "0xcf", "0x52", bad)];
        assert_eq!(
            create_flow_matrix("0x52", "0xcf", "2", &carried),
            Err(FlowError::InvalidAmount),
            "{:?}",
            bad
        );
    }
    assert_eq!(FlowError::InvalidAmount.message(), "Amount is not a decimal number");
}

#[test]
fn amount_of_an_edge_short_of_the_sink_is_read_too() {
    for bad in ["not a number", "-5", "1.5", "", "1_0"] {
        let transfers = vec![
            step("0x52", "0x60", "0x52", bad),
            step("0x60", "0xcf", "0x60", "2"),
        ];
        assert_eq!(
            create_flow_matrix("0x52", "0xcf", "2", &transfers),
            Err(FlowError::InvalidAmount),
            "{:?}",
            bad
        );
        assert_eq!(
            create_flow_matrix("0x52", "0xcf", "3", &transfers),
            Err(FlowError::InvalidAmount),
            "{:?}",
            bad
        );
    }
    let sound = vec![
        step("0x52", "0x60", "0x52", "007"),
        step("0x60", "0xcf", "0x60", "2"),
    ];
    assert!(create_flow_matrix("0x52", "0xcf", "2", &sound).is_ok());
}

#[test]
fn terminal_edge_beyond_sixteen_bits_fails() {
    let mut transfers = Vec::new();
    for _ in 0..65537 {
        transfers.push(step("0x52", "0xcf", "0x52", "0"));
    }
    let result = create_flow_matrix("0x52", "0xcf", "0", &transfers);
    assert_eq!(result, Err(FlowError::EdgeOverflow { count: 65537 }));
    assert_eq!(
        result.unwrap_err().message(),
        "Terminal edge beyond index 65535 among 65537 edges"
    );
    transfers.pop();
    let matrix = create_flow_matrix("0x52", "0xcf", "0", &transfers).unwrap();
    assert_eq!(matrix.streams[0].flow_edge_ids.len(), 65536);
    assert_eq!(matrix.streams[0].flow_edge_ids[65535], 65535);
}

#[test]
fn amounts_and_sums_come_before_the_edge_overflow() {
    let mut transfers = Vec::new();
    for _ in 0..65537 {
        transfers.push(step("0x52", "0xcf", "0x52", "0"));
    }
    for bad in ["abc", "-5", "1.5", ""] {
        assert_eq!(
            create_flow_matrix("0x52", "0xcf", bad, &transfers),
            Err(FlowError::InvalidAmount),
            "{:?}",
            bad
        );
    }
    assert_eq!(
        create_flow_matrix("0x52", "0xcf", "7", &transfers),
        Err(FlowError::FlowMismatch {
            terminal_sum: Total { t4: 0, t3: 0, t2: 0, t1: 0, t0: 0 },
            expected: Word { w3: 0, w2: 0, w1: 0, w0: 7 },
        })
    );
    transfers[65536].value = "abc".to_string();
    assert_eq!(
        create_flow_matrix("0x52", "0xcf", "0", &transfers),
        Err(FlowError::InvalidAmount)
    );
    transfers[65536].value = "0".to_string();
    transfers[65536].to = "0x60".to_string();
    assert!(create_flow_matrix("0x52", "0xcf", "0", &transfers).is_ok());
}

#[test]
fn indices_of_the_edges_marked_one() {
    let edge = |mark: u16| FlowEdge { stream_sink_id: mark, amount: "1".to_string() };
    assert_eq!(sink_edge_indices(&Vec::new()), Some(Vec::new()));
    assert_eq!(
        sink_edge_indices(&vec![edge(1), edge(0), edge(1), edge(1)]),
        Some(vec![0, 2, 3])
    );
    let mut many: Vec<FlowEdge> = (0..65536).map(|_| edge(0)).collect();
    many.push(edge(0));
    many[65535] = edge(1);
    assert_eq!(sink_edge_indices(&many), Some(vec![65535]));
    many[65536] = edge(1);
    assert_eq!(sink_edge_indices(&many), None);
}

#[test]
fn sum_beyond_a_word_is_exact() {
    let half = "57896044618658097711785492504343953926634992332820282019728792003956564819968";
    let transfers = vec![
        step("0x52", "0xcf", "0x52", half),
        step("0x52", "0xcf", "0x52", half),
    ];
    let error = create_flow_matrix("0x52", "0xcf", "0", &transfers).unwrap_err();
    assert_eq!(
        error,
        FlowError::FlowMismatch {
            terminal_sum: Total { t4: 1, t3: 0, t2: 0, t1: 0, t0: 0 },
            expected: Word { w3: 0, w2: 0, w1: 0, w0: 0 },
        }
    );
    assert_eq!(
        error.message(),
        "Terminal sum 115792089237316195423570985008687907853269984665640564039457584007913129639936 does not equal expected 0"
    );
}

#[test]
fn pack_coordinates_writes_high_byte_first() {
    assert_eq!(pack_coordinates(&[]), "0x");
    assert_eq!(pack_coordinates(&[0xabcd, 0x00ff, 0xff00, 0]), "0xabcd00ffff000000");
    assert_eq!(unpack(&pack_coordinates(&[65535, 1, 256])), vec![65535, 1, 256]);
}

#[test]
fn canonical_builder_takes_addresses_as_they_are() {
    let transfers = vec![step("0xab", "0xcd", "0xab", "2")];
    let matrix = build_flow_matrix("0xab", "0xcd", "2", &transfers).unwrap();
    assert_eq!(matrix.flow_vertices, vec!["0xab", "0xcd"]);
    assert_eq!(matrix.packed_coordinates, "0x000000000001");
    assert_eq!(
        create_flow_matrix("0xAB", "0XCD", "2", &transfers).unwrap(),
        matrix
    );
    for bad in ["0xAB", "0Xab", "0xaB"] {
        assert_eq!(
            build_flow_matrix(bad, "0xcd", "2", &transfers),
            Err(FlowError::InvalidAddress),
            "{:?}",
            bad
        );
        let mixed = vec![step(bad, "0xcd", "0xab", "2")];
        assert_eq!(
            build_flow_matrix("0xab", "0xcd", "2", &mixed),
            Err(FlowError::InvalidAddress),
            "{:?}",
            bad
        );
    }
}

#[test]
fn steps_are_lowered_in_their_addresses_only() {
    let lowered = lower_steps(&[step("0xAB", "0XCD", "0xEf", "1_0A")]);
    assert_eq!(lowered, vec![step("0xab", "0xcd", "0xef", "1_0A")]);
    assert!(lower_steps(&[]).is_empty());
}

#[test]
fn canonical_vertices_are_sorted_once_each() {
    let transfers = vec![
        step("0x30", "0x10", "0x20", "1"),
        step("0x10", "0x100", "0x30", "1"),
    ];
    let (vertices, index) = canonical_vertices(&transfers, "0x40", "0x10").unwrap();
    assert_eq!(vertices, vec!["0x10", "0x20", "0x30", "0x40", "0x100"]);
    assert_eq!(index.len(), 5);
    assert_eq!(
        canonical_vertices(&transfers, "0x4G", "0x10").err(),
        Some(FlowError::InvalidAddress)
    );
    assert_eq!(
        canonical_vertices(&transfers, "0x040", "0x40").err(),
        Some(FlowError::InvalidAddress)
    );
    assert_eq!(
        transform_to_flow_vertices(&transfers, "0X40", "0x1F").unwrap().0,
        vec!["0x10", "0x1f", "0x20", "0x30", "0x40", "0x100"]
    );
}

#[test]
fn sink_and_source_are_vertices_by_their_own_text() {
    let transfers = vec![step("0x0a", "0x0b", "0x0c", "1")];
    let (vertices, _) = transform_to_flow_vertices(&[], "0xFF", "0x0F").unwrap();
    assert_eq!(vertices, vec!["0x0f", "0xff"]);
    let matrix = create_flow_matrix("0xFF", "0x0F", "1", &transfers).unwrap();
    assert!(matrix.flow_vertices.contains(&"0xff".to_string()));
    assert!(matrix.flow_vertices.contains(&"0x0f".to_string()));
    let coordinates = unpack(&matrix.packed_coordinates);
    assert_eq!(matrix.flow_vertices[usize::from(coordinates[0])], "0x0c");
    assert_eq!(matrix.flow_vertices[usize::from(coordinates[1])], "0x0a");
    assert_eq!(matrix.flow_vertices[usize::from(coordinates[2])], "0x0b");
}

#[test]
fn vertex_overflow_comes_before_the_amounts() {
    let mut transfers = Vec::new();
    for i in 0..21845u32 {
        let base = 0x1000 + 3 * i;
        transfers.push(step(
            &format!("0x{:x}", base),
            &format!("0x{:x}", base + 1),
            &format!("0x{:x}", base + 2),
            "not a number",
        ));
    }
    assert_eq!(
        create_flow_matrix("0x01", "0x02", "neither", &transfers),
        Err(FlowError::VertexOverflow { count: 65537 })
    );
}
