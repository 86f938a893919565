//! Bulk pixel-grid synthesis, id assignment, filtering and number decoding.

use mantid_idf::component_tree::ComponentTreeNode;
use mantid_idf::fixed::Fixed;
use mantid_idf::numbers::{parse_fixed, parse_u32};
use mantid_idf::utils::{add_suffix, bytes_eq, parse_attribute};
use mantid_idf::DetectorDefinition;

fn rect_definition(fill: &str, idstepbyrow: &str) -> String {
    format!(
        "<instrument>\
         <type name=\"bank\" is=\"RectangularDetector\" \
               xpixels=\"2\" xstart=\"0.5\" xstep=\"1\" \
               ypixels=\"3\" ystart=\"-1\" ystep=\"0.25\"></type>\
         <component type=\"bank\" idfillbyfirst=\"{}\" idstart=\"100\" idstepbyrow=\"{}\">\
         <location x=\"0\" y=\"0\" z=\"0\"/>\
         </component>\
         </instrument>",
        fill, idstepbyrow
    )
}

#[test]
fn rectangular_grid_cardinality() {
    let d = DetectorDefinition::from_str(&rect_definition("y", "7")).expect("definition parses");
    let bank = &d.component_tree.0.children[0];
    let (points, ids) = bank
        .recursive_transform_points(&Vec::new(), &Vec::new())
        .expect("geometry resolves");
    assert_eq!(points.len(), 2 * 3);
    assert_eq!(ids.len(), 2 * 3);
}

#[test]
fn rectangular_grid_coordinates() {
    let d = DetectorDefinition::from_str(&rect_definition("y", "7")).expect("definition parses");
    let bank = &d.component_tree.0.children[0];
    let (points, _ids) = bank
        .recursive_transform_points(&Vec::new(), &Vec::new())
        .expect("geometry resolves");
    // Outer loop walks x, inner y; pixel (x, y) sits at
    // (0.5 + x * 1, -1 + y * 0.25, 0).
    let expect = [
        (500_000, -1_000_000),
        (500_000, -750_000),
        (500_000, -500_000),
        (1_500_000, -1_000_000),
        (1_500_000, -750_000),
        (1_500_000, -500_000),
    ];
    for (p, (ex, ey)) in points.iter().zip(expect.iter()) {
        assert_eq!(p.base.x.micros, *ex);
        assert_eq!(p.base.y.micros, *ey);
        assert_eq!(p.base.z.micros, 0);
    }
}

#[test]
fn id_fill_by_y_steps_by_one_with_row_bonus() {
    let d = DetectorDefinition::from_str(&rect_definition("y", "7")).expect("definition parses");
    let bank = &d.component_tree.0.children[0];
    let (_points, ids) = bank
        .recursive_transform_points(&Vec::new(), &Vec::new())
        .expect("geometry resolves");
    // One increment per pixel plus one more after each completed inner loop:
    // the documented double increment at the row boundary.
    assert_eq!(ids, vec![100, 101, 102, 104, 105, 106]);
}

#[test]
fn id_fill_by_x_steps_by_idstepbyrow() {
    let d = DetectorDefinition::from_str(&rect_definition("x", "10")).expect("definition parses");
    let bank = &d.component_tree.0.children[0];
    let (_points, ids) = bank
        .recursive_transform_points(&Vec::new(), &Vec::new())
        .expect("geometry resolves");
    assert_eq!(ids, vec![100, 110, 120, 140, 150, 160]);
}

#[test]
fn missing_grid_parameter_is_fatal() {
    let text = "<instrument>\
                <type name=\"bank\" is=\"RectangularDetector\" xpixels=\"2\"></type>\
                <component type=\"bank\" idfillbyfirst=\"y\" idstart=\"0\" idstepbyrow=\"1\">\
                <location x=\"0\"/>\
                </component>\
                </instrument>";
    let d = DetectorDefinition::from_str(text).expect("parse succeeds");
    let bank = &d.component_tree.0.children[0];
    match bank.recursive_transform_points(&Vec::new(), &Vec::new()) {
        Err(mantid_idf::errors::IdfError::MissingAttribute { attribute, .. }) => {
            assert_eq!(attribute, b"xstart".to_vec());
        }
        other => panic!("expected a missing-attribute error, got {:?}", other.map(|_| ())),
    }
}

fn nested_definition() -> &'static str {
    "<instrument>\
     <type name=\"pixel\" is=\"detector\"></type>\
     <type name=\"bank\">\
       <component type=\"pixel\"><location x=\"1\"/></component>\
       <component type=\"pixel\"><location x=\"2\"/></component>\
     </type>\
     <component type=\"bank\"></component>\
     </instrument>"
}

fn same_shape(a: &ComponentTreeNode, b: &ComponentTreeNode) -> bool {
    a.component.type_ref == b.component.type_ref && a.children.len() == b.children.len()
        && a.children.iter().zip(b.children.iter()).all(|(x, y)| same_shape(x, y))
}

#[test]
fn filter_with_always_true_keeps_the_tree() {
    let d = DetectorDefinition::from_str(nested_definition()).expect("definition parses");
    let filtered = d
        .component_tree
        .0
        .filtered_component_tree(|_n: &ComponentTreeNode| true)
        .expect("everything kept");
    assert!(same_shape(&d.component_tree.0, &filtered));
}

#[test]
fn filter_with_always_false_drops_the_tree() {
    let d = DetectorDefinition::from_str(nested_definition()).expect("definition parses");
    let filtered = d
        .component_tree
        .0
        .filtered_component_tree(|_n: &ComponentTreeNode| false);
    assert!(filtered.is_none());
}

#[test]
fn filter_is_idempotent_for_component_predicates() {
    let d = DetectorDefinition::from_str(nested_definition()).expect("definition parses");
    let keep = |n: &ComponentTreeNode| n.component.type_ref != b"pixel".to_vec();
    let once = d
        .component_tree
        .0
        .filtered_component_tree(keep)
        .expect("root kept");
    let twice = once.filtered_component_tree(keep).expect("root kept again");
    assert!(same_shape(&once, &twice));
    assert_eq!(once.children.len(), 1);
    assert_eq!(once.children[0].children.len(), 0);
}

#[test]
fn decimal_decoding_is_exact() {
    assert_eq!(parse_attribute(b"1.5").map(|f| f.micros), Some(1_500_000));
    assert_eq!(parse_attribute(b"-0.25").map(|f| f.micros), Some(-250_000));
    assert_eq!(parse_attribute(b".5").map(|f| f.micros), Some(500_000));
    assert_eq!(parse_attribute(b"5.").map(|f| f.micros), Some(5_000_000));
    assert_eq!(parse_attribute(b"1e-3").map(|f| f.micros), Some(1_000));
    assert_eq!(parse_attribute(b"2.5E2").map(|f| f.micros), Some(250_000_000));
    assert_eq!(parse_attribute(b"0.0000019").map(|f| f.micros), Some(1));
    assert_eq!(parse_attribute(b"").map(|f| f.micros), None);
    assert_eq!(parse_attribute(b"1.2.3").map(|f| f.micros), None);
    assert_eq!(parse_attribute(b"abc").map(|f| f.micros), None);
    assert_eq!(parse_fixed(b"+2").map(|f| f.micros), Some(2_000_000));
}

#[test]
fn count_decoding_is_exact() {
    assert_eq!(parse_u32(b"0"), Some(0));
    assert_eq!(parse_u32(b"+3"), Some(3));
    assert_eq!(parse_u32(b"4294967295"), Some(u32::MAX));
    assert_eq!(parse_u32(b"+4294967295"), Some(u32::MAX));
    assert_eq!(parse_u32(b"4294967296"), None);
    assert_eq!(parse_u32(b"-1"), None);
    assert_eq!(parse_u32(b"+"), None);
    assert_eq!(parse_u32(b""), None);
}

#[test]
fn byte_helpers() {
    assert!(bytes_eq(b"rot", b"rot"));
    assert!(!bytes_eq(b"rot", b"rot-end"));
    assert_eq!(add_suffix(b"x", "-end"), b"x-end".to_vec());
    assert_eq!(add_suffix(b"axis-z", ""), b"axis-z".to_vec());
    assert_eq!(Fixed { micros: 0 }, Fixed { micros: 0 });
}

#[test]
fn id_lists_are_registered_by_name() {
    let text = "<instrument>\
                <idlist name=\"dets\"></idlist>\
                </instrument>";
    let d = DetectorDefinition::from_str(text).expect("definition parses");
    assert_eq!(d.id_lists.len(), 1);
    assert_eq!(d.id_lists.entries[0].0, b"dets".to_vec());
}

#[test]
fn hexahedron_corners_attach_to_the_type() {
    let text = "<instrument>\
                <type name=\"slab\">\
                <hexahedron id=\"7\">\
                <left-back-bottom-point x=\"0\" y=\"0\" z=\"0\"/>\
                <right-front-top-point x=\"1\" y=\"1\" z=\"1\"/>\
                </hexahedron>\
                </type>\
                </instrument>";
    let d = DetectorDefinition::from_str(text).expect("definition parses");
    let slab = d.types.get(b"slab").expect("type registered");
    let hex = slab.hexahedron.expect("hexahedron attached");
    assert_eq!(hex.id, 7);
    assert_eq!(hex.right_front_top_point.x.micros, 1_000_000);
    assert_eq!(hex.left_back_bottom_point.x.micros, 0);
}

#[test]
fn end_only_rotation_opens_a_default_start() {
    // Probing an `-end` rotation attribute opens a default start rotation
    // (angle zero about z) as a side effect, so the pair interpolates from
    // zero; the schema counts on this when only `rot-end` is written.
    let text = "<instrument>\
                <type name=\"pixel\" is=\"detector\"></type>\
                <component type=\"pixel\">\
                <locations n-elements=\"2\" rot-end=\"8\"/>\
                </component>\
                </instrument>";
    let d = DetectorDefinition::from_str(text).expect("definition parses");
    let pixel = &d.component_tree.0.children[0];
    let ls = &pixel.component.locations[0];
    let start = ls.start_rotation.expect("start rotation opened by the probe");
    assert_eq!(start.rot.micros, 0);
    assert_eq!(start.axis.z.micros, 1_000_000);
    assert_eq!(ls.end_rotation.expect("end rotation kept").rot.micros, 8_000_000);
}
