use pbr_lut_gen::connections::{build_registry, parse_connection, split_value, ConnectionRecord, LightInputType};
use pbr_lut_gen::selection::{Candidate, LightTag, Rank};
use pbr_lut_gen::wiring::{control_name, wire_surface, WIRED_SLOTS};

fn record(source: usize, output: &str, value: &str) -> ConnectionRecord {
    ConnectionRecord { source, output: output.to_string(), value: value.to_string() }
}

#[test]
fn splits_on_comma_and_escape() {
    let f = split_value("a,b\u{1b}c,,d");
    assert_eq!(f, vec!["a", "b", "c", "", "d"]);
    assert_eq!(split_value(""), vec![""]);
}

#[test]
fn parses_turn_off_connection() {
    let c = parse_connection(3, "OnOpen", " Door_Light ,TurnOff,,0.5,-1").unwrap();
    assert_eq!(c.source_entity_idx, 3);
    assert_eq!(c.output_name, "OnOpen");
    assert_eq!(c.target_key, "door_light");
    assert_eq!(c.input_type, LightInputType::TurnOff);
    assert_eq!(c.delay, "0.5");
}

#[test]
fn missing_delay_reads_as_zero() {
    let c = parse_connection(0, "OnTrigger", "lamp\u{1b}TURNON").unwrap();
    assert_eq!(c.input_type, LightInputType::TurnOn);
    assert_eq!(c.delay, "0");
}

#[test]
fn other_inputs_are_ignored() {
    assert!(parse_connection(0, "OnTrigger", "lamp,Toggle,,0,-1").is_none());
    assert!(parse_connection(0, "OnTrigger", "lamp").is_none());
}

#[test]
fn registry_keeps_light_connections_in_order() {
    let records = vec![
        record(0, "OnOpen", "door_light,TurnOff,,0.5,-1"),
        record(1, "OnPressed", "door,Open,,0,-1"),
        record(2, "OnClose", "DOOR_LIGHT,TurnOn,,1,-1"),
    ];
    let reg = build_registry(&records);
    assert_eq!(reg.len(), 2);
    assert_eq!(reg[0].source_entity_idx, 0);
    assert_eq!(reg[1].source_entity_idx, 2);
    assert_eq!(reg[1].target_key, "door_light");
}

#[test]
fn door_light_drives_first_lane() {
    let tags = vec![LightTag { named: true, id: "door_light".to_string(), initially_dark: false }];
    let accepted = vec![Candidate { light: 0, named: true, rank: Rank::Scored(1) }];
    let reg = build_registry(&vec![record(5, "OnOpen", "door_light,TurnOff,,0.5,-1")]);
    let w = wire_surface("glass_panel", "maps/test/glass_panel", &tags, &accepted, &reg);
    assert_eq!(w.controls.len(), 1);
    assert_eq!(w.controls[0].targetname, "glass_panel_ctrl_0");
    assert_eq!(w.controls[0].parentname, "glass_panel");
    assert_eq!(w.controls[0].material_name, "maps/test/glass_panel");
    assert_eq!(w.controls[0].material_var, "$c4_x");
    assert_eq!(w.connections.len(), 1);
    assert_eq!(w.connections[0].source_entity_idx, 5);
    assert_eq!(w.connections[0].output, "OnOpen");
    assert_eq!(w.connections[0].value, "glass_panel_ctrl_0,SetMaterialVar,0,0.5,-1");
    assert_eq!(w.c4_lit, vec![true; WIRED_SLOTS]);
}

#[test]
fn dark_lights_and_unwired_slots() {
    let tags = vec![
        LightTag { named: false, id: "7".to_string(), initially_dark: true },
        LightTag { named: true, id: "lamp".to_string(), initially_dark: false },
        LightTag { named: true, id: "spot".to_string(), initially_dark: true },
    ];
    let accepted: Vec<Candidate> = (0..3)
        .map(|i| Candidate { light: i, named: tags[i].named, rank: Rank::Scored(1) })
        .collect();
    let reg = build_registry(&vec![
        record(9, "OnTrigger", "SPOT,TurnOn,,0,-1"),
        record(4, "OnUser1", "spot,turnoff,,2,-1"),
    ]);
    let w = wire_surface("s", "maps/m/s", &tags, &accepted, &reg);
    assert_eq!(w.c4_lit, vec![false, true, false, true]);
    assert_eq!(w.controls.len(), 1);
    assert_eq!(w.controls[0].targetname, "s_ctrl_2");
    assert_eq!(w.controls[0].material_var, "$c4_z");
    let values: Vec<&str> = w.connections.iter().map(|c| c.value.as_str()).collect();
    assert_eq!(values, vec!["s_ctrl_2,SetMaterialVar,1,0,-1", "s_ctrl_2,SetMaterialVar,0,2,-1"]);
}

#[test]
fn only_four_slots_are_wired() {
    let tags: Vec<LightTag> = (0..5)
        .map(|i| LightTag { named: true, id: format!("l{}", i), initially_dark: false })
        .collect();
    let accepted: Vec<Candidate> =
        (0..5).map(|i| Candidate { light: i, named: true, rank: Rank::Scored(1) }).collect();
    let reg = build_registry(&vec![record(0, "OnTrigger", "l4,TurnOn,,0,-1")]);
    let w = wire_surface("s", "m", &tags, &accepted, &reg);
    assert!(w.controls.is_empty());
    assert!(w.connections.is_empty());
}

#[test]
fn control_names_are_deterministic() {
    assert_eq!(control_name("surface_1", 3), "surface_1_ctrl_3");
    assert_eq!(control_name("surface_1", 3), control_name("surface_1", 3));
}

#[test]
fn fields_are_trimmed_of_white_space() {
    let c = parse_connection(1, "OnOpen", "\tLamp\u{a0},\u{3000}TurnOn\n,, 1.5 ,-1").unwrap();
    assert_eq!(c.target_key, "lamp");
    assert_eq!(c.input_type, LightInputType::TurnOn);
    assert_eq!(c.delay, "1.5");
}
