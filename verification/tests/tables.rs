use game_client::map::{container_albedo_ids, foot_kind_named, paint_red, surface_at, unknown_foot_kind_message, FootKind};
use game_client::mesh::kit::letter_index;
use game_client::mesh::primitives::{box_face_topology, corner_signs, face_normal, BoxFaceGroup};
use game_client::preferences::{mouse_sens_command, MouseSensCommand};
use game_client::glyphs::{glyph5x7, label_cells, label_glyphs};
use game_client::mesh::decode::{decode_rgba8, expand_frame, PngColor};

#[test]
fn kit_letters() {
    assert_eq!(letter_index(b'a'), Ok(0));
    assert_eq!(letter_index(b'r'), Ok(17));
    assert_eq!(letter_index(b's'), Err("kit letter out of range: s".to_string()));
    assert_eq!(letter_index(b'A'), Err("kit letter out of range: A".to_string()));
}

#[test]
fn foot_kinds_by_name() {
    assert_eq!(foot_kind_named("gravel"), Ok(FootKind::Gravel));
    assert_eq!(foot_kind_named("wet_cement"), Ok(FootKind::WetCement));
    assert_eq!(foot_kind_named("steel"), Ok(FootKind::Steel));
    assert_eq!(
        foot_kind_named("mud"),
        Err("map-a.def foot_patch kind: unknown \"mud\"".to_string())
    );
    assert_eq!(unknown_foot_kind_message("\"x\""), "map-a.def foot_patch kind: unknown \"x\"");
}

#[test]
fn container_paints() {
    assert_eq!(paint_red(), "red");
    assert_eq!(
        container_albedo_ids("green"),
        ("container-side-green.albedo", "container-door-green.albedo")
    );
    assert_eq!(
        container_albedo_ids("red"),
        ("container-side-red.albedo", "container-door-red.albedo")
    );
    assert_eq!(
        container_albedo_ids("blue"),
        ("container-side-red.albedo", "container-door-red.albedo")
    );
}

#[test]
fn box_face_group_emits_only_requested_faces() {
    let sides = box_face_topology(Some(BoxFaceGroup::Sides));
    assert_eq!(sides.corners.len(), 8);
    assert!(sides.faces.iter().all(|&f| face_normal(f).0 != 0));
    let front = box_face_topology(Some(BoxFaceGroup::Front));
    assert_eq!(front.corners.len(), 4);
    assert!(front.faces.iter().all(|&f| face_normal(f).2 < 0));
    let rear = box_face_topology(Some(BoxFaceGroup::Rear));
    assert_eq!(rear.corners.len(), 4);
    assert!(rear.faces.iter().all(|&f| face_normal(f).2 > 0));
    let lids = box_face_topology(Some(BoxFaceGroup::Lids));
    assert_eq!(lids.corners.len(), 8);
    assert!(lids.faces.iter().all(|&f| face_normal(f).1 != 0));
}

#[test]
fn full_box_topology() {
    let all = box_face_topology(None);
    assert_eq!(all.faces, vec![0, 1, 2, 3, 4, 5]);
    assert_eq!(all.corners.len(), 24);
    assert_eq!(all.indices.len(), 36);
    assert_eq!(&all.indices[0..6], &[0, 1, 2, 0, 2, 3]);
    assert_eq!(&all.indices[30..36], &[20, 21, 22, 20, 22, 23]);
    assert_eq!(&all.corners[4..8], &[4, 7, 6, 5]);
    assert!(all.indices.iter().all(|&i| (i as usize) < all.corners.len()));
    assert_eq!(corner_signs(0), (-1, -1, -1));
    assert_eq!(corner_signs(6), (1, 1, 1));
    assert_eq!(corner_signs(3), (-1, 1, -1));
    let rear = box_face_topology(Some(BoxFaceGroup::Rear));
    assert_eq!(rear.indices, vec![0, 1, 2, 0, 2, 3]);
}

#[test]
fn mouse_sens_lines() {
    assert!(matches!(mouse_sens_command("mousesens"), Some(MouseSensCommand::Show)));
    match mouse_sens_command("  mouse.sens 1.5 extra") {
        Some(MouseSensCommand::Assign(a)) => assert_eq!(a, "1.5"),
        other => panic!("unexpected {other:?}"),
    }
    assert!(mouse_sens_command("grid off").is_none());
    assert!(mouse_sens_command("").is_none());
}

#[test]
fn glyph_font_and_label_cells() {
    assert_eq!(glyph5x7('A'), Some([0b01110, 0b10001, 0b10001, 0b11111, 0b10001, 0b10001, 0b10001]));
    assert_eq!(glyph5x7(' '), Some([0; 7]));
    assert_eq!(glyph5x7('a'), None);
    assert_eq!(glyph5x7('Z'), None);
    assert_eq!(label_glyphs("wave!"), vec!['W', 'A', 'V', 'E']);
    let (chars, cells) = label_cells("a");
    assert_eq!(chars, vec!['A']);
    assert_eq!(cells.len(), 18);
    assert_eq!(cells[0], (0, 0, 1));
    assert_eq!(cells[3], (0, 1, 0));
    assert_eq!(cells[4], (0, 1, 4));
    let (chars, cells) = label_cells("no");
    assert_eq!(chars, vec!['N', 'O']);
    assert!(cells.windows(2).all(|w| w[0] < w[1]));
    assert!(cells.iter().any(|c| c.0 == 1));
    let (chars, cells) = label_cells("xyz?");
    assert_eq!(chars, vec!['Y']);
    assert_eq!(cells.len(), 2 + 2 + 2 + 1 + 1 + 1 + 1);
}

#[test]
fn png_expand_and_decode() {
    assert_eq!(expand_frame(PngColor::Rgb, vec![1, 2, 3, 4, 5, 6, 7]), Ok(vec![1, 2, 3, 255, 4, 5, 6, 255]));
    assert_eq!(expand_frame(PngColor::Grayscale, vec![9, 8]), Ok(vec![9, 9, 9, 255, 8, 8, 8, 255]));
    assert_eq!(expand_frame(PngColor::GrayscaleAlpha, vec![9, 1, 8]), Ok(vec![9, 9, 9, 1]));
    assert_eq!(expand_frame(PngColor::Rgba, vec![1, 2, 3, 4]), Ok(vec![1, 2, 3, 4]));
    assert_eq!(
        expand_frame(PngColor::Indexed, vec![0]),
        Err("unsupported png color type: Indexed".to_string())
    );
    let err = decode_rgba8(b"not a png").unwrap_err();
    assert!(err.starts_with("png header: "), "{err}");
    // A 1x1 grey 8-bit PNG.
    let png: [u8; 67] = [
        0x89, 0x50, 0x4E, 0x47, 0x0D, 0x0A, 0x1A, 0x0A, 0x00, 0x00, 0x00, 0x0D, 0x49, 0x48, 0x44, 0x52,
        0x00, 0x00, 0x00, 0x01, 0x00, 0x00, 0x00, 0x01, 0x08, 0x00, 0x00, 0x00, 0x00, 0x3A, 0x7E, 0x9B,
        0x55, 0x00, 0x00, 0x00, 0x0A, 0x49, 0x44, 0x41, 0x54, 0x78, 0x9C, 0x63, 0x70, 0x00, 0x00, 0x00,
        0x42, 0x00, 0x41, 0x29, 0x37, 0xF4, 0xEF, 0x00, 0x00, 0x00, 0x00, 0x49, 0x45, 0x4E, 0x44, 0xAE,
        0x42, 0x60, 0x82,
    ];
    assert_eq!(decode_rgba8(&png), Ok((1, 1, vec![0x40, 0x40, 0x40, 255])));
}

#[test]
fn default_outside_is_gravel() {
    // One cement patch centred at the origin, half extents 1 by 1: it holds
    // (0, 0) and not (3, 0).
    assert_eq!(surface_at(&[(FootKind::Cement, true)]), FootKind::Cement);
    assert_eq!(surface_at(&[(FootKind::Cement, false)]), FootKind::Gravel);
}

#[test]
fn later_patches_win() {
    assert_eq!(surface_at(&[]), FootKind::Gravel);
    assert_eq!(surface_at(&[(FootKind::Cement, false)]), FootKind::Gravel);
    assert_eq!(surface_at(&[(FootKind::Cement, true), (FootKind::Steel, true)]), FootKind::Steel);
    assert_eq!(surface_at(&[(FootKind::Cement, true), (FootKind::Steel, false)]), FootKind::Cement);
}

#[test]
fn box_face_counts_per_group() {
    let cases = [
        (None, vec![0u8, 1, 2, 3, 4, 5]),
        (Some(BoxFaceGroup::Sides), vec![2, 3]),
        (Some(BoxFaceGroup::Front), vec![0]),
        (Some(BoxFaceGroup::Rear), vec![1]),
        (Some(BoxFaceGroup::Lids), vec![4, 5]),
    ];
    for (group, faces) in cases {
        let t = box_face_topology(group);
        assert_eq!(t.faces, faces);
        assert_eq!(t.corners.len(), 4 * faces.len());
        assert_eq!(t.indices.len(), 6 * faces.len());
    }
}
