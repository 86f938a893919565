//! End-to-end parsing, resolution and geometry scenarios.

use mantid_idf::component_tree::ComponentTreeNode;
use mantid_idf::errors::IdfError;
use mantid_idf::geometry::{eval_cartesian, Step, TranslationStep};
use mantid_idf::structs::Translation;
use mantid_idf::types::SpecialTypes;
use mantid_idf::DetectorDefinition;

fn simple_definition() -> &'static str {
    "<instrument>\
     <type name=\"pixel\" is=\"detector\"></type>\
     <type name=\"VoxelsRoot\">\
       <component type=\"pixel\"><location x=\"0\" y=\"0\" z=\"1\"/></component>\
     </type>\
     <component type=\"VoxelsRoot\"></component>\
     </instrument>"
}

#[test]
fn end_to_end_single_point() {
    let d = DetectorDefinition::from_str(simple_definition()).expect("definition parses");
    assert!(d.component_tree.0.component.is_root());
    assert_eq!(d.component_tree.0.children.len(), 1);
    assert_eq!(
        d.component_tree.0.children[0].component.type_ref,
        b"VoxelsRoot".to_vec()
    );
    let points = d
        .component_tree
        .0
        .get_special_type_points()
        .expect("geometry resolves");
    assert_eq!(points.len(), 1);
    let v = eval_cartesian(&points[0]).expect("purely translational");
    assert_eq!(v.x.micros, 0);
    assert_eq!(v.y.micros, 0);
    assert_eq!(v.z.micros, 1_000_000);
}

#[test]
fn registry_holds_every_reachable_component_type() {
    let d = DetectorDefinition::from_str(simple_definition()).expect("definition parses");
    fn walk(n: &ComponentTreeNode, d: &DetectorDefinition) {
        assert!(d.types.get(n.component.type_ref.as_slice()).is_some());
        for c in n.children.iter() {
            walk(c, d);
        }
    }
    walk(&d.component_tree.0, &d);
}

#[test]
fn tree_shape_matches_types() {
    let d = DetectorDefinition::from_str(simple_definition()).expect("definition parses");
    fn walk(n: &ComponentTreeNode, d: &DetectorDefinition) {
        if !n.component.is_root() {
            let t = d
                .types
                .get(n.component.type_ref.as_slice())
                .expect("type resolves");
            assert_eq!(n.children.len(), t.components.len());
        }
        for c in n.children.iter() {
            walk(c, d);
        }
    }
    walk(&d.component_tree.0, &d);
}

#[test]
fn special_type_lookup() {
    let d = DetectorDefinition::from_str(simple_definition()).expect("definition parses");
    let voxels = &d.component_tree.0.children[0];
    assert_eq!(*voxels.get_special_type(), SpecialTypes::Plain);
    let pixel = voxels
        .get_child_by_name(b"pixel")
        .expect("child found by name");
    assert_eq!(*pixel.get_special_type(), SpecialTypes::Detector);
    assert_eq!(pixel.get_type().name, b"pixel".to_vec());
    assert!(voxels.get_child_by_name(b"absent").is_none());
}

#[test]
fn missing_type_attribute_is_fatal() {
    let text = "<instrument><component></component></instrument>";
    match DetectorDefinition::from_str(text) {
        Err(IdfError::MissingAttribute { tag, attribute }) => {
            assert_eq!(tag, b"component".to_vec());
            assert_eq!(attribute, b"type".to_vec());
        }
        other => panic!("expected a missing-attribute error, got {:?}", other.map(|_| ())),
    }
}

#[test]
fn undecodable_coordinate_is_fatal() {
    let text = "<instrument>\
                <type name=\"pixel\" is=\"detector\"></type>\
                <component type=\"pixel\"><location x=\"wide\"/></component>\
                </instrument>";
    match DetectorDefinition::from_str(text) {
        Err(IdfError::AttributeDecode { key, value }) => {
            assert_eq!(key, b"x".to_vec());
            assert_eq!(value, b"wide".to_vec());
        }
        other => panic!("expected a decode error, got {:?}", other.map(|_| ())),
    }
}

#[test]
fn unknown_type_reference_is_fatal() {
    let text = "<instrument><component type=\"ghost\"></component></instrument>";
    match DetectorDefinition::from_str(text) {
        Err(IdfError::UnknownType { type_ref }) => {
            assert_eq!(type_ref, b"ghost".to_vec());
        }
        other => panic!("expected an unknown-type error, got {:?}", other.map(|_| ())),
    }
}

#[test]
fn cyclic_type_reference_is_fatal() {
    let text = "<instrument>\
                <type name=\"loop\"><component type=\"loop\"></component></type>\
                <component type=\"loop\"></component>\
                </instrument>";
    match DetectorDefinition::from_str(text) {
        Err(IdfError::CyclicType { type_ref }) => {
            assert_eq!(type_ref, b"loop".to_vec());
        }
        other => panic!("expected a cyclic-type error, got {:?}", other.map(|_| ())),
    }
}

#[test]
fn bare_leaf_is_a_geometry_error() {
    let text = "<instrument>\
                <type name=\"box\"></type>\
                <component type=\"box\"></component>\
                </instrument>";
    let d = DetectorDefinition::from_str(text).expect("parse succeeds");
    match d.component_tree.0.get_special_type_points() {
        Err(IdfError::BareLeaf { type_ref }) => {
            assert_eq!(type_ref, b"box".to_vec());
        }
        other => panic!("expected a bare-leaf error, got {:?}", other.map(|_| ())),
    }
}

#[test]
fn malformed_markup_reports_position() {
    let text = "<instrument><type name=\"a\"></bad-mismatch></instrument>";
    match DetectorDefinition::from_str(text) {
        Err(IdfError::Stream { position, message }) => {
            assert!(position > 0);
            assert!(!message.is_empty());
        }
        other => panic!("expected a stream error, got {:?}", other.map(|_| ())),
    }
}

#[test]
fn interpolated_locations_boundaries() {
    let text = "<instrument>\
                <type name=\"pixel\" is=\"detector\"></type>\
                <component type=\"pixel\">\
                <locations n-elements=\"3\" x=\"0\" y=\"0\" z=\"0\" x-end=\"2\" y-end=\"0\" z-end=\"0\"/>\
                </component>\
                </instrument>";
    let d = DetectorDefinition::from_str(text).expect("definition parses");
    let points = d
        .component_tree
        .0
        .get_special_type_points()
        .expect("geometry resolves");
    assert_eq!(points.len(), 3);
    let xs: Vec<i64> = points
        .iter()
        .map(|p| eval_cartesian(p).expect("translational").x.micros)
        .collect();
    assert_eq!(xs, vec![0, 1_000_000, 2_000_000]);
}

#[test]
fn interpolated_rotation_takes_start_axis() {
    let text = "<instrument>\
                <type name=\"pixel\" is=\"detector\"></type>\
                <component type=\"pixel\">\
                <locations n-elements=\"2\" rot=\"0\" axis-x=\"1\" axis-y=\"0\" axis-z=\"0\" rot-end=\"90\"/>\
                </component>\
                </instrument>";
    let d = DetectorDefinition::from_str(text).expect("definition parses");
    let points = d
        .component_tree
        .0
        .get_special_type_points()
        .expect("geometry resolves");
    assert_eq!(points.len(), 2);
    let rot_of = |p: &mantid_idf::geometry::PlacedPoint| -> (i64, i64) {
        match p.steps.as_slice() {
            [Step::Rotate(r)] => (r.rot.micros, r.axis.x.micros),
            other => panic!("expected one rotation step, got {} steps", other.len()),
        }
    };
    let (a0, ax0) = rot_of(&points[0]);
    let (a1, ax1) = rot_of(&points[1]);
    assert_eq!(a0, 0);
    assert_eq!(ax0, 1_000_000);
    assert_eq!(a1, 90_000_000);
    assert_eq!(ax1, 1_000_000);
}

#[test]
fn spherical_translation_is_kept_symbolic() {
    let text = "<instrument>\
                <type name=\"pixel\" is=\"detector\"></type>\
                <component type=\"pixel\"><location r=\"2\" t=\"60\" p=\"30\"/></component>\
                </instrument>";
    let d = DetectorDefinition::from_str(text).expect("definition parses");
    let points = d
        .component_tree
        .0
        .get_special_type_points()
        .expect("geometry resolves");
    assert_eq!(points.len(), 1);
    match points[0].steps.as_slice() {
        [Step::Translate(TranslationStep::One(Translation::Spherical(v)))] => {
            assert_eq!(v.x.micros, 2_000_000);
            assert_eq!(v.y.micros, 60_000_000);
            assert_eq!(v.z.micros, 30_000_000);
        }
        _ => panic!("expected one spherical translation step"),
    }
    assert!(eval_cartesian(&points[0]).is_none());
}

#[test]
fn spherical_to_cartesian_round_trip() {
    // The physics convention the spherical payload carries: x = r sin t cos p,
    // y = r sin t sin p, z = r cos t, recovered here in floating point.
    let (r, t, p) = (2.0f64, 60f64.to_radians(), 30f64.to_radians());
    let x = r * t.sin() * p.cos();
    let y = r * t.sin() * p.sin();
    let z = r * t.cos();
    let r2 = (x * x + y * y + z * z).sqrt();
    let t2 = (z / r2).acos();
    let p2 = y.atan2(x);
    assert!((r2 - r).abs() < 1e-9);
    assert!((t2 - t).abs() < 1e-9);
    assert!((p2 - p).abs() < 1e-9);
}

#[test]
fn deferred_transform_skips_the_immediate_parent() {
    // A detector's own placement applies, its parent's local transform is
    // dropped with the pending argument, and the grandparent's local
    // transform reaches it through the parent's inherited pending.
    let text = "<instrument>\
                <type name=\"pixel\" is=\"detector\"></type>\
                <type name=\"inner\">\
                  <component type=\"pixel\"><location z=\"100\"/></component>\
                </type>\
                <type name=\"outer\">\
                  <component type=\"inner\"><location z=\"10\"/></component>\
                </type>\
                <component type=\"outer\"><location z=\"1\"/></component>\
                </instrument>";
    let d = DetectorDefinition::from_str(text).expect("definition parses");
    let points = d
        .component_tree
        .0
        .get_special_type_points()
        .expect("geometry resolves");
    assert_eq!(points.len(), 1);
    let v = eval_cartesian(&points[0]).expect("purely translational");
    // Own z=100 plus the grandparent's z=1; the parent's z=10 is skipped.
    assert_eq!(v.z.micros, 101_000_000);
}

#[test]
fn top_level_components_resolve_in_ascending_key_order() {
    // The registry iterates its keys in ascending byte order, so a component
    // written later in the document still comes first when its type name
    // sorts first.
    let text = "<instrument>\
                <type name=\"b\" is=\"detector\"></type>\
                <type name=\"a\" is=\"detector\"></type>\
                <component type=\"b\"><location x=\"2\"/></component>\
                <component type=\"a\"><location x=\"1\"/></component>\
                </instrument>";
    let d = DetectorDefinition::from_str(text).expect("definition parses");
    let names: Vec<&[u8]> = d
        .component_tree
        .0
        .children
        .iter()
        .map(|c| c.component.type_ref.as_slice())
        .collect();
    assert_eq!(names, vec![b"a".as_slice(), b"b".as_slice()]);
    let points = d
        .component_tree
        .0
        .get_special_type_points()
        .expect("geometry resolves");
    let xs: Vec<i64> = points
        .iter()
        .map(|p| eval_cartesian(p).expect("translational").x.micros)
        .collect();
    assert_eq!(xs, vec![1_000_000, 2_000_000]);
}
