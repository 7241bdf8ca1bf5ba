use pbr_lut_gen::debug_state::{DebugControlsState, LightSettings};
use pbr_lut_gen::lights::{
    blocker_flag, flag_set, initially_dark, is_collision_entity, light_debug_id, light_kind,
    overrides_color, parse_u32, script_light_key,
};
use pbr_lut_gen::lut::LightKind;
use pbr_lut_gen::rules::{
    eq_ignore_ascii_case, is_glass_material, is_pbr_class, is_target_material,
    is_untraceable_material, lut_name, material_path, retag_surfaces, strip_pbr_entities,
    surface_indices,
    surface_name,
};
use pbr_lut_gen::text::{contains_text, sanitize_name};

fn strings(v: &[&str]) -> Vec<String> {
    v.iter().map(|s| s.to_string()).collect()
}

#[test]
fn sanitize_drops_dots_dashes_spaces() {
    assert_eq!(sanitize_name("door.light - 2"), "doorlight2");
    assert_eq!(sanitize_name(""), "");
}

#[test]
fn substring_search() {
    assert!(contains_text("tools/toolsnodraw", "nodraw"));
    assert!(contains_text("abc", ""));
    assert!(!contains_text("ab", "abc"));
}

#[test]
fn material_rules() {
    assert!(is_glass_material("Glass/WINDOW01"));
    assert!(!is_glass_material("concrete/wall"));
    assert!(is_untraceable_material("TOOLS/toolsclip"));
    assert!(!is_untraceable_material("tools/toolsnodraw"));
    assert!(!is_untraceable_material("tools/pbr_block"));
    assert!(is_target_material("TOOLS/ToolsPBR"));
    assert!(!is_target_material("tools/toolspbr2"));
    assert!(eq_ignore_ascii_case("AbC", "aBc"));
}

#[test]
fn strip_removes_pbr_classes() {
    let classes = strings(&["worldspawn", "func_ggx_surface", "light", "FUNC_GGX_AREA", ""]);
    assert_eq!(strip_pbr_entities(&classes), vec![0, 2, 4]);
}

#[test]
fn pbr_class_check() {
    assert!(is_pbr_class("func_ggx_surface"));
    assert!(!is_pbr_class("func_illusionary"));
}

#[test]
fn surfaces_are_found_once() {
    let classes = strings(&["light", "func_ggx_surface", "func_detail", "func_ggx_surface"]);
    assert_eq!(surface_indices(&classes), vec![1, 3]);
    let after = strings(&["light", "func_illusionary", "func_detail", "func_illusionary", "material_modify_control"]);
    assert!(surface_indices(&after).is_empty());
}

#[test]
fn surface_names_and_paths() {
    assert_eq!(surface_name(None, 1), "surface_1");
    assert_eq!(surface_name(None, 120), "surface_120");
    assert_eq!(surface_name(Some("glass_panel"), 4), "glass_panel");
    assert_eq!(material_path("mymap", "surface_1"), "maps/mymap/surface_1");
    assert_eq!(material_path("sub\\map", "s"), "maps/sub/map/s");
    assert_eq!(lut_name("surface_1"), "surface_1_lut");
}

#[test]
fn light_classes() {
    assert_eq!(light_kind("func_ggx_area", None), Some(LightKind::Rect));
    assert_eq!(light_kind("light", Some("1")), Some(LightKind::Point));
    assert_eq!(light_kind("light_spot", Some("1")), Some(LightKind::Spot));
    assert_eq!(light_kind("light", Some("0")), None);
    assert_eq!(light_kind("light", None), None);
    assert_eq!(light_kind("info_target", Some("1")), None);
}

#[test]
fn spawnflags_and_numbers() {
    assert_eq!(parse_u32("+17"), Some(17));
    assert_eq!(parse_u32("4294967295"), Some(u32::MAX));
    assert_eq!(parse_u32("4294967296"), None);
    assert_eq!(parse_u32("1a"), None);
    assert_eq!(parse_u32(""), None);
    assert_eq!(parse_u32("+"), None);
    assert!(initially_dark(Some("1")));
    assert!(initially_dark(Some("3")));
    assert!(!initially_dark(Some("2")));
    assert!(!initially_dark(Some("x")));
    assert!(!initially_dark(None));
}

#[test]
fn ids_flags_and_keys() {
    assert_eq!(light_debug_id(Some("door.light"), 5), "doorlight");
    assert_eq!(light_debug_id(None, 1234), "1234");
    assert_eq!(blocker_flag(LightKind::Rect, true), 2);
    assert_eq!(blocker_flag(LightKind::Rect, false), 1);
    assert_eq!(blocker_flag(LightKind::Spot, true), 1);
    assert!(flag_set(Some("1")));
    assert!(!flag_set(Some("0")));
    assert!(overrides_color("255 0 0"));
    assert!(!overrides_color("-1 -1 -1"));
    assert_eq!(script_light_key("a.b"), "_a_b");
}

#[test]
fn collision_entities() {
    assert!(is_collision_entity("func_detail", &strings(&["concrete/floor", "tools/toolsnodraw"])));
    assert!(!is_collision_entity("func_detail", &strings(&["concrete/floor", "glass/window"])));
    assert!(!is_collision_entity("func_brush", &strings(&["concrete/floor"])));
}

#[test]
fn debug_overlay_defaults() {
    let d = DebugControlsState::default();
    assert!(d.enabled && d.draw_ggx_surfaces && d.draw_light_surface_links);
    assert!(!d.draw_rejected_light_sources && !d.draw_blockers && !d.inspect_surface);
    let s = LightSettings::new(7, Some("lamp"));
    assert_eq!(s.id(), 7);
    assert_eq!(s.target_name(), "lamp");
    assert_eq!(LightSettings::new(8, None).target_name(), "");
}

#[test]
fn processed_surfaces_are_not_found_again() {
    let classes = strings(&["light", "func_ggx_surface", "func_detail", "func_ggx_surface"]);
    let after = retag_surfaces(&classes);
    assert_eq!(after, strings(&["light", "func_illusionary", "func_detail", "func_illusionary"]));
    assert!(surface_indices(&after).is_empty());
    assert_eq!(retag_surfaces(&after), after);
}
