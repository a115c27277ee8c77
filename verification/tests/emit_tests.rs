use map_parser::container::{MapEntry, MapFile};
use map_parser::decode::decode_map_file;
use map_parser::emit::emit_map_file;
use map_parser::gravity::GravityVector;
use map_parser::numfmt::format_double_digit;

fn entry(name: &str, gravity: Option<GravityVector>, data: Vec<Vec<u8>>) -> MapEntry {
    MapEntry {
        name: name.to_string(),
        description: "Standard Level".to_string(),
        width: 1,
        height: 2,
        area: 2,
        gravity,
        id: 7,
        data,
    }
}

#[test]
fn double_digit_pads_to_two_digits() {
    assert_eq!(format_double_digit(0), "00");
    assert_eq!(format_double_digit(3), "03");
    assert_eq!(format_double_digit(9), "09");
    assert_eq!(format_double_digit(10), "10");
    assert_eq!(format_double_digit(21), "21");
    assert_eq!(format_double_digit(57), "57");
    assert_eq!(format_double_digit(99), "99");
    assert_eq!(format_double_digit(100), "100");
    assert_eq!(format_double_digit(255), "255");
}

#[test]
fn two_element_rows_render_zero_padded() {
    let file = MapFile {
        magic: "PAD".to_string(),
        count: 1,
        maps: vec![entry("p", None, vec![vec![3, 21], vec![0, 99]])],
    };
    let text = emit_map_file(&file);
    assert!(text.contains("data: [[03, 21],\n                [00, 99]],"));
}

#[test]
fn gravity_renders_as_tuple_or_none() {
    let none_file = MapFile {
        magic: "GRV".to_string(),
        count: 1,
        maps: vec![entry("g", None, vec![vec![0]])],
    };
    assert!(emit_map_file(&none_file).contains("gravity: None,\n"));

    let cases: &[((i32, i32, i32), &str)] = &[
        ((0, 0, 0), "gravity: Some((0, 0, 0)),\n"),
        ((20, 0, 0), "gravity: Some((2, 0, 0)),\n"),
        ((100, 0, 0), "gravity: Some((10, 0, 0)),\n"),
        ((200, 0, 0), "gravity: Some((20, 0, 0)),\n"),
        ((-10, -5, 0), "gravity: Some((-1, -0.5, 0)),\n"),
    ];
    for &((x, y, z), expected) in cases {
        let file = MapFile {
            magic: "GRV".to_string(),
            count: 1,
            maps: vec![entry(
                "g",
                Some(GravityVector { x_tenths: x, y_tenths: y, z_tenths: z }),
                vec![vec![0]],
            )],
        };
        let text = emit_map_file(&file);
        assert!(text.contains(expected), "missing {:?} in {}", expected, text);
    }
}

#[test]
fn end_to_end_emitted_text() {
    let mut payload = [0u8; 400];
    payload[0] = 3;
    let mut bytes = Vec::new();
    bytes.extend_from_slice(b"TEST");
    bytes.extend_from_slice(&1u32.to_le_bytes());
    let mut block = vec![0u8; 432];
    block[16..20].copy_from_slice(&10u32.to_le_bytes());
    block[20..24].copy_from_slice(&10u32.to_le_bytes());
    block[24..28].copy_from_slice(&100u32.to_le_bytes());
    block[28..32].copy_from_slice(&1u32.to_le_bytes());
    block[32..432].copy_from_slice(&payload);
    bytes.extend_from_slice(&block);

    let file = decode_map_file(&bytes).unwrap();
    let text = emit_map_file(&file);
    assert!(text.contains("gravity: Some((0, 0, 0))"));

    let zero_row = vec!["00"; 20].join(", ");
    let mut expected = String::new();
    expected.push_str("(\n");
    expected.push_str("    magic: \"TEST\",\n");
    expected.push_str("    count: 1,\n");
    expected.push_str("    maps: [\n");
    expected.push_str("        (\n");
    expected.push_str("            name: \"\",\n");
    expected.push_str("            description: \"Zero Gravity\",\n");
    expected.push_str("            width: 10,\n");
    expected.push_str("            height: 10,\n");
    expected.push_str("            area: 100,\n");
    expected.push_str("            gravity: Some((0, 0, 0)),\n");
    expected.push_str("            id: 1,\n");
    expected.push_str(&format!("            data: [[{}],\n", zero_row));
    for _ in 1..19 {
        expected.push_str(&format!("                [{}],\n", zero_row));
    }
    expected.push_str(&format!("                [{}]],\n", zero_row));
    expected.push_str("        )\n");
    expected.push_str("    ],\n");
    expected.push_str(")\n");
    assert_eq!(text, expected);
}

#[test]
fn records_are_separated_but_last_is_not() {
    let file = MapFile {
        magic: "TWO".to_string(),
        count: 2,
        maps: vec![
            entry("a", None, vec![vec![1]]),
            entry("b", None, vec![vec![2]]),
        ],
    };
    let text = emit_map_file(&file);
    let full = String::from("(\n")
        + "    magic: \"TWO\",\n"
        + "    count: 2,\n"
        + "    maps: [\n"
        + "        (\n"
        + "            name: \"a\",\n"
        + "            description: \"Standard Level\",\n"
        + "            width: 1,\n"
        + "            height: 2,\n"
        + "            area: 2,\n"
        + "            gravity: None,\n"
        + "            id: 7,\n"
        + "            data: [[01]],\n"
        + "        ),\n"
        + "        (\n"
        + "            name: \"b\",\n"
        + "            description: \"Standard Level\",\n"
        + "            width: 1,\n"
        + "            height: 2,\n"
        + "            area: 2,\n"
        + "            gravity: None,\n"
        + "            id: 7,\n"
        + "            data: [[02]],\n"
        + "        )\n"
        + "    ],\n"
        + ")\n";
    assert_eq!(text, full);
}

#[test]
fn emitter_does_not_alter_values() {
    let file = MapFile {
        magic: "VAL".to_string(),
        count: 1,
        maps: vec![MapEntry {
            name: "keep".to_string(),
            description: "Standard Level".to_string(),
            width: 4294967295,
            height: 0,
            area: 123456789,
            gravity: None,
            id: 42,
            data: vec![vec![7, 62]],
        }],
    };
    let text = emit_map_file(&file);
    assert!(text.contains("width: 4294967295,\n"));
    assert!(text.contains("height: 0,\n"));
    assert!(text.contains("area: 123456789,\n"));
    assert!(text.contains("id: 42,\n"));
    assert!(text.contains("[07, 62]"));
}
