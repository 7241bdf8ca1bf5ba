use pbr_lut_gen::lut::{lut_pixels, BlockerCell, LightKind, LutLight, LUT_CELLS};
use pbr_lut_gen::manifest::{material_manifest, ManifestError};
use pbr_lut_gen::plane::plane_point_tokens;
use pbr_lut_gen::vtf::{encode_vtf, vtf_header_bytes, VtfError, VtfParams};

fn b(v: f32) -> u32 {
    v.to_bits()
}

fn point_light(pos: [f32; 3], color: [f32; 3], intensity: f32, range: f32, k: f32) -> LutLight {
    LutLight {
        kind: LightKind::Point,
        pos: pos.map(b),
        color: color.map(b),
        intensity: b(intensity),
        dir: [0; 3],
        param1: 0,
        param2: 0,
        extra: 0,
        range: b(range),
        attenuation_k: b(k),
        blocker0: None,
        blocker1: None,
    }
}

fn cell(px: &[u32], row: usize, col: usize) -> [f32; 4] {
    let i = (row * 8 + col) * 4;
    [f32::from_bits(px[i]), f32::from_bits(px[i + 1]), f32::from_bits(px[i + 2]), f32::from_bits(px[i + 3])]
}

#[test]
fn lut_column_of_a_point_light() {
    let px = lut_pixels(&vec![point_light([1.0, 2.0, 3.0], [0.1, 0.2, 0.3], 5.0, 100.0, 0.01)]);
    assert_eq!(px.len(), LUT_CELLS);
    assert_eq!(cell(&px, 0, 0), [1.0, 2.0, 3.0, 0.0]);
    assert_eq!(cell(&px, 1, 0), [0.1, 0.2, 0.3, 5.0]);
    assert_eq!(cell(&px, 2, 0), [0.0, 0.0, 0.0, 0.0]);
    assert_eq!(cell(&px, 3, 0), [100.0, 0.01, 0.0, 0.0]);
    for row in 4..8 {
        assert_eq!(cell(&px, row, 0), [0.0; 4]);
    }
    for col in 1..8 {
        for row in 0..8 {
            assert_eq!(cell(&px, row, col), [0.0, 0.0, 0.0, 1.0]);
        }
    }
}

#[test]
fn lut_of_the_minimal_map() {
    let px = lut_pixels(&vec![point_light([0.0; 3], [1.0; 3], 200.0 / 16.0, 64.0, 0.0)]);
    assert_eq!(cell(&px, 0, 0), [0.0, 0.0, 0.0, 0.0]);
    assert_eq!(cell(&px, 1, 0), [1.0, 1.0, 1.0, 12.5]);
}

#[test]
fn lut_blockers_and_kinds() {
    let mut l = point_light([0.0; 3], [1.0; 3], 1.0, 64.0, 0.0);
    l.kind = LightKind::Rect;
    l.blocker0 = Some(BlockerCell { size: [b(1.0), b(2.0), b(3.0)], offset: [b(4.0), b(5.0), b(6.0)], fizzler: true });
    l.blocker1 = Some(BlockerCell { size: [b(1.0), b(2.0), b(3.0)], offset: [b(7.0), b(8.0), b(9.0)], fizzler: false });
    let mut s = point_light([0.0; 3], [1.0; 3], 1.0, 64.0, 0.0);
    s.kind = LightKind::Spot;
    let px = lut_pixels(&vec![l, s]);
    assert_eq!(cell(&px, 0, 0)[3], 2.0);
    assert_eq!(cell(&px, 4, 0), [1.0, 3.0, 2.0, 2.0]);
    assert_eq!(cell(&px, 5, 0), [4.0, 5.0, 6.0, 0.0]);
    assert_eq!(cell(&px, 6, 0), [1.0, 2.0, 3.0, 1.0]);
    assert_eq!(cell(&px, 7, 0), [7.0, 8.0, 9.0, 0.0]);
    assert_eq!(cell(&px, 0, 1)[3], 1.0);
    assert_eq!(LightKind::Rect.name(), "Area");
    assert_eq!(LightKind::Spot.name(), "Spot");
    assert_eq!(LightKind::Point.name(), "Point");
}

#[test]
fn lights_past_the_width_are_dropped() {
    let lights: Vec<LutLight> = (0..9).map(|i| point_light([i as f32; 3], [1.0; 3], 1.0, 64.0, 0.0)).collect();
    let px = lut_pixels(&lights);
    assert_eq!(px.len(), LUT_CELLS);
    assert_eq!(cell(&px, 0, 7)[0], 7.0);
}

#[test]
fn vtf_header_layout() {
    let h = vtf_header_bytes(&VtfParams { width: 8, height: 8 }, [b(0.5), 0, 0]);
    assert_eq!(h.len(), 96);
    assert_eq!(&h[0..4], b"VTF\0");
    assert_eq!(&h[4..12], &[7, 0, 0, 0, 4, 0, 0, 0]);
    assert_eq!(&h[12..16], &[96, 0, 0, 0]);
    assert_eq!(&h[16..20], &[8, 0, 8, 0]);
    assert_eq!(&h[20..24], &[0x0d, 0x23, 0, 0]);
    assert_eq!(&h[24..28], &[1, 0, 0, 0]);
    assert_eq!(&h[32..36], &0.5f32.to_le_bytes());
    assert_eq!(&h[48..52], &1.0f32.to_le_bytes());
    assert_eq!(&h[52..56], &[29, 0, 0, 0]);
    assert_eq!(h[56], 1);
    assert_eq!(&h[57..61], &[13, 0, 0, 0]);
    assert_eq!(&h[61..65], &[16, 16, 1, 0]);
    assert_eq!(&h[68..72], &[2, 0, 0, 0]);
    assert_eq!(&h[80..88], &[1, 0, 0, 0, 96, 0, 0, 0]);
    assert_eq!(&h[88..96], &[0x30, 0, 0, 0, 224, 0, 0, 0]);
}

#[test]
fn vtf_file_holds_pixels_after_thumbnail() {
    let data: Vec<u32> = (0..256).map(|i| b(i as f32)).collect();
    let bytes = encode_vtf(&VtfParams { width: 8, height: 8 }, [0; 3], &data).unwrap();
    assert_eq!(bytes.len(), 96 + 128 + 1024);
    assert!(bytes[96..224].iter().all(|x| *x == 0));
    assert_eq!(&bytes[224 + 4 * 3..224 + 4 * 4], &3.0f32.to_le_bytes());
}

#[test]
fn vtf_rejects_wrong_length() {
    let r = encode_vtf(&VtfParams { width: 8, height: 8 }, [0; 3], &vec![0; 10]);
    assert_eq!(r, Err(VtfError::DataLength { expected: 256, got: 10 }));
}

#[test]
fn manifest_text() {
    let m = material_manifest(Some("pbr/base"), "maps\\m\\s_lut", &vec![true, false, true, true]).unwrap();
    assert_eq!(
        m,
        "patch\n{\n\tinclude \"materials/pbr/base.vmt\"\n\treplace\n\t{\n\t\t$texture1 \"maps/m/s_lut\"\n\t\t$c4_x 1.00\n\t\t$c4_y 0.00\n\t\t$c4_z 1.00\n\t\t$c4_w 1.00\n\t}\n}\n"
    );
}

#[test]
fn manifest_needs_template() {
    let r = material_manifest(None, "maps/m/s_lut", &vec![true; 4]);
    assert_eq!(r, Err(ManifestError::MissingTemplate));
}

#[test]
fn plane_tokens() {
    let t = plane_point_tokens("(-64 -64 4) (64 -64 4) (64 64 4.5)").unwrap();
    assert_eq!(t, vec!["-64", "-64", "4", "64", "-64", "4", "64", "64", "4.5"]);
    assert!(plane_point_tokens("(1 2 3) (4 5 6)").is_none());
    assert!(plane_point_tokens("(1 2 3) (4 5 6) (7 8 9) (1 1 1)").is_none());
}
