//! The records that an instrument definition file is made of.

use vstd::prelude::*;

use crate::bytemap::ByteMap;
use crate::fixed::{Fixed, MICROS_PER_UNIT};
use crate::types::SpecialTypes;

verus! {

/// A triple of exact coordinates.
#[derive(Debug, Clone, Copy, PartialEq, Eq, Structural)]
pub struct Vec3 {
    pub x: Fixed,
    pub y: Fixed,
    pub z: Fixed,
}

impl Vec3 {
    pub fn zero() -> (r: Vec3)
        ensures
            r == (Vec3 { x: Fixed { micros: 0 }, y: Fixed { micros: 0 }, z: Fixed { micros: 0 } }),
    {
        Vec3 { x: Fixed { micros: 0 }, y: Fixed { micros: 0 }, z: Fixed { micros: 0 } }
    }

    /// The positive z axis.
    pub fn unit_z() -> (r: Vec3)
        ensures
            r == (Vec3 {
                x: Fixed { micros: 0 },
                y: Fixed { micros: 0 },
                z: Fixed { micros: MICROS_PER_UNIT },
            }),
    {
        Vec3 { x: Fixed { micros: 0 }, y: Fixed { micros: 0 }, z: Fixed { micros: MICROS_PER_UNIT } }
    }
}

/// A translation as the file states it: either cartesian components, or
/// spherical (radius, polar angle, azimuth), converted to cartesian by the
/// physics convention only when the geometry is evaluated numerically.
#[derive(Debug, Clone, Copy, PartialEq, Eq, Structural)]
pub enum Translation {
    Cartesian(Vec3),
    Spherical(Vec3),
}

/// An axis-angle rotation; the angle is in degrees and the default axis is
/// the positive z axis.
#[derive(Debug, Clone, Copy, PartialEq, Eq, Structural)]
pub struct Rotation {
    pub rot: Fixed,
    pub axis: Vec3,
}

impl Default for Rotation {
    fn default() -> (r: Rotation)
        ensures
            r.rot.micros == 0,
            r.axis == (Vec3 {
                x: Fixed { micros: 0 },
                y: Fixed { micros: 0 },
                z: Fixed { micros: MICROS_PER_UNIT },
            }),
    {
        Rotation { rot: Fixed { micros: 0 }, axis: Vec3::unit_z() }
    }
}

/// One placement of a component: translations first, then rotations, both in
/// list order.
#[derive(Debug, Clone)]
pub struct Location {
    pub name: Vec<u8>,
    pub translation: Vec<Translation>,
    pub rotation: Vec<Rotation>,
}

pub struct LocationV {
    pub name: Seq<u8>,
    pub translation: Seq<Translation>,
    pub rotation: Seq<Rotation>,
}

impl View for Location {
    type V = LocationV;

    open spec fn view(&self) -> LocationV {
        LocationV { name: self.name@, translation: self.translation@, rotation: self.rotation@ }
    }
}

impl Default for Location {
    fn default() -> (r: Location)
        ensures
            r@.name == Seq::<u8>::empty(),
            r@.translation == Seq::<Translation>::empty(),
            r@.rotation == Seq::<Rotation>::empty(),
    {
        Location { name: Vec::new(), translation: Vec::new(), rotation: Vec::new() }
    }
}

/// A run of `n_elements` placements interpolated between start and end.
#[derive(Debug, Clone)]
pub struct Locations {
    pub n_elements: u32,
    pub name: Vec<u8>,
    pub name_count_start: u32,
    pub start_translation: Option<Translation>,
    pub end_translation: Option<Translation>,
    pub start_rotation: Option<Rotation>,
    pub end_rotation: Option<Rotation>,
}

pub struct LocationsV {
    pub n_elements: u32,
    pub name: Seq<u8>,
    pub name_count_start: u32,
    pub start_translation: Option<Translation>,
    pub end_translation: Option<Translation>,
    pub start_rotation: Option<Rotation>,
    pub end_rotation: Option<Rotation>,
}

impl View for Locations {
    type V = LocationsV;

    open spec fn view(&self) -> LocationsV {
        LocationsV {
            n_elements: self.n_elements,
            name: self.name@,
            name_count_start: self.name_count_start,
            start_translation: self.start_translation,
            end_translation: self.end_translation,
            start_rotation: self.start_rotation,
            end_rotation: self.end_rotation,
        }
    }
}

impl Default for Locations {
    fn default() -> (r: Locations)
        ensures
            r@ == (LocationsV {
                n_elements: 0u32,
                name: Seq::<u8>::empty(),
                name_count_start: 0u32,
                start_translation: None::<Translation>,
                end_translation: None::<Translation>,
                start_rotation: None::<Rotation>,
                end_rotation: None::<Rotation>,
            }),
    {
        Locations {
            n_elements: 0,
            name: Vec::new(),
            name_count_start: 0,
            start_translation: None,
            end_translation: None,
            start_rotation: None,
            end_rotation: None,
        }
    }
}

/// Eight labelled corner points of a bulk shape.
#[derive(Debug, Clone, Copy, PartialEq, Eq, Structural)]
pub struct Hexahedron {
    pub id: u32,
    pub left_back_bottom_point: Vec3,
    pub left_front_bottom_point: Vec3,
    pub right_front_bottom_point: Vec3,
    pub right_back_bottom_point: Vec3,
    pub left_back_top_point: Vec3,
    pub left_front_top_point: Vec3,
    pub right_front_top_point: Vec3,
    pub right_back_top_point: Vec3,
}

impl Default for Hexahedron {
    fn default() -> (r: Hexahedron)
        ensures
            r == (Hexahedron {
                id: 0u32,
                left_back_bottom_point: Vec3 {
                    x: Fixed { micros: 0 },
                    y: Fixed { micros: 0 },
                    z: Fixed { micros: 0 },
                },
                left_front_bottom_point: Vec3 {
                    x: Fixed { micros: 0 },
                    y: Fixed { micros: 0 },
                    z: Fixed { micros: 0 },
                },
                right_front_bottom_point: Vec3 {
                    x: Fixed { micros: 0 },
                    y: Fixed { micros: 0 },
                    z: Fixed { micros: 0 },
                },
                right_back_bottom_point: Vec3 {
                    x: Fixed { micros: 0 },
                    y: Fixed { micros: 0 },
                    z: Fixed { micros: 0 },
                },
                left_back_top_point: Vec3 {
                    x: Fixed { micros: 0 },
                    y: Fixed { micros: 0 },
                    z: Fixed { micros: 0 },
                },
                left_front_top_point: Vec3 {
                    x: Fixed { micros: 0 },
                    y: Fixed { micros: 0 },
                    z: Fixed { micros: 0 },
                },
                right_front_top_point: Vec3 {
                    x: Fixed { micros: 0 },
                    y: Fixed { micros: 0 },
                    z: Fixed { micros: 0 },
                },
                right_back_top_point: Vec3 {
                    x: Fixed { micros: 0 },
                    y: Fixed { micros: 0 },
                    z: Fixed { micros: 0 },
                },
            }),
    {
        let z = Vec3::zero();
        Hexahedron {
            id: 0,
            left_back_bottom_point: z,
            left_front_bottom_point: z,
            right_front_bottom_point: z,
            right_back_bottom_point: z,
            left_back_top_point: z,
            left_front_top_point: z,
            right_front_top_point: z,
            right_back_top_point: z,
        }
    }
}

/// An instance of a type, placed by its locations.  The synthetic root is the
/// one component whose type name is empty.
#[derive(Debug, Clone)]
pub struct Component {
    pub type_ref: Vec<u8>,
    pub location: Vec<Location>,
    pub locations: Vec<Locations>,
    pub other_attributes: ByteMap<Vec<u8>>,
}

pub struct ComponentV {
    pub type_ref: Seq<u8>,
    pub location: Seq<LocationV>,
    pub locations: Seq<LocationsV>,
    pub other_attributes: Map<Seq<u8>, Seq<u8>>,
}

impl View for Component {
    type V = ComponentV;

    open spec fn view(&self) -> ComponentV {
        ComponentV {
            type_ref: self.type_ref@,
            location: self.location@.map_values(|l: Location| l@),
            locations: self.locations@.map_values(|l: Locations| l@),
            other_attributes: self.other_attributes.as_map().map_values(|v: Vec<u8>| v@),
        }
    }
}

impl Component {
    pub open spec fn wf(self) -> bool {
        self.other_attributes.wf()
    }

    pub open spec fn spec_is_root(self) -> bool {
        self.type_ref@ == Seq::<u8>::empty()
    }

    /// The synthetic root is recognised by its empty type name.
    pub fn is_root(&self) -> (r: bool)
        ensures
            r == self.spec_is_root(),
    {
        let empty = self.type_ref.is_empty();
        proof {
            if self.type_ref@.len() == 0 {
                assert(self.type_ref@ =~= Seq::<u8>::empty());
            }
        }
        empty
    }

    /// Attaches a rotation to the most recent location, creating one first
    /// when the component has none yet.
    pub fn push_rotation(&mut self, rotation: Rotation)
        ensures
            old(self)@.location.len() == 0 ==> final(self)@.location =~= seq![
                LocationV {
                    name: Seq::<u8>::empty(),
                    translation: Seq::<Translation>::empty(),
                    rotation: seq![rotation],
                },
            ],
            old(self)@.location.len() > 0 ==> {
                let last = old(self)@.location.last();
                final(self)@.location =~= old(self)@.location.update(
                    old(self)@.location.len() - 1,
                    LocationV {
                        name: last.name,
                        translation: last.translation,
                        rotation: last.rotation.push(rotation),
                    },
                )
            },
            final(self).type_ref == old(self).type_ref,
            final(self)@.locations == old(self)@.locations,
            final(self).other_attributes == old(self).other_attributes,
    {
        if self.location.is_empty() {
            let mut l = Location::default();
            l.rotation.push(rotation);
            self.location.push(l);
        } else {
            let i = self.location.len() - 1;
            let mut l = self.location.remove(i);
            l.rotation.push(rotation);
            self.location.insert(i, l);
        }
    }
}

impl Default for Component {
    fn default() -> (r: Component)
        ensures
            r@.type_ref == Seq::<u8>::empty(),
            r@.location =~= Seq::<LocationV>::empty(),
            r@.locations =~= Seq::<LocationsV>::empty(),
            r@.other_attributes =~= Map::<Seq<u8>, Seq<u8>>::empty(),
            r.wf(),
    {
        Component {
            type_ref: Vec::new(),
            location: Vec::new(),
            locations: Vec::new(),
            other_attributes: ByteMap::new(),
        }
    }
}

/// A reusable template: its classification, the components it contains, an
/// optional bulk shape, and a catch-all mapping of the attributes the schema
/// does not name (bulk-detector grid parameters arrive this way).
#[derive(Debug, Clone)]
pub struct Type {
    pub special_type: SpecialTypes,
    pub name: Vec<u8>,
    pub components: Vec<Component>,
    pub hexahedron: Option<Hexahedron>,
    pub other_attributes: ByteMap<Vec<u8>>,
}

pub struct TypeV {
    pub special_type: SpecialTypes,
    pub name: Seq<u8>,
    pub components: Seq<ComponentV>,
    pub hexahedron: Option<Hexahedron>,
    pub other_attributes: Map<Seq<u8>, Seq<u8>>,
}

impl View for Type {
    type V = TypeV;

    open spec fn view(&self) -> TypeV {
        TypeV {
            special_type: self.special_type,
            name: self.name@,
            components: self.components@.map_values(|c: Component| c@),
            hexahedron: self.hexahedron,
            other_attributes: self.other_attributes.as_map().map_values(|v: Vec<u8>| v@),
        }
    }
}

impl Type {
    pub open spec fn wf(self) -> bool {
        self.other_attributes.wf() && forall|i: int|
            0 <= i < self.components@.len() ==> (#[trigger] self.components@[i]).wf()
    }
}

impl Default for Type {
    fn default() -> (r: Type)
        ensures
            r@.special_type == SpecialTypes::Plain,
            r@.name == Seq::<u8>::empty(),
            r@.components =~= Seq::<ComponentV>::empty(),
            r@.hexahedron == None::<Hexahedron>,
            r@.other_attributes =~= Map::<Seq<u8>, Seq<u8>>::empty(),
            r.wf(),
    {
        Type {
            special_type: SpecialTypes::Plain,
            name: Vec::new(),
            components: Vec::new(),
            hexahedron: None,
            other_attributes: ByteMap::new(),
        }
    }
}

/// Whether a matcher recognised the tag it was probed with.
#[derive(Debug, Clone, Copy, PartialEq, Eq, Structural)]
pub struct Response {
    pub match_found: bool,
}

impl Response {
    pub fn match_found(&self) -> (r: bool)
        ensures
            r == self.match_found,
    {
        self.match_found
    }
}

impl Default for Response {
    fn default() -> (r: Response)
        ensures
            !r.match_found,
    {
        Response { match_found: false }
    }
}

pub open spec fn zero_vec3() -> Vec3 {
    Vec3 { x: Fixed { micros: 0 }, y: Fixed { micros: 0 }, z: Fixed { micros: 0 } }
}

pub open spec fn default_rotation() -> Rotation {
    Rotation {
        rot: Fixed { micros: 0 },
        axis: Vec3 {
            x: Fixed { micros: 0 },
            y: Fixed { micros: 0 },
            z: Fixed { micros: crate::fixed::MICROS_PER_UNIT },
        },
    }
}

pub open spec fn location_default_v() -> LocationV {
    LocationV {
        name: Seq::<u8>::empty(),
        translation: Seq::<Translation>::empty(),
        rotation: Seq::<Rotation>::empty(),
    }
}

pub open spec fn locations_default_v() -> LocationsV {
    LocationsV {
        n_elements: 0u32,
        name: Seq::<u8>::empty(),
        name_count_start: 0u32,
        start_translation: None,
        end_translation: None,
        start_rotation: None,
        end_rotation: None,
    }
}

pub open spec fn default_type_v() -> TypeV {
    TypeV {
        special_type: SpecialTypes::Plain,
        name: Seq::<u8>::empty(),
        components: Seq::<ComponentV>::empty(),
        hexahedron: None,
        other_attributes: Map::<Seq<u8>, Seq<u8>>::empty(),
    }
}

pub open spec fn default_hexahedron() -> Hexahedron {
    Hexahedron {
        id: 0u32,
        left_back_bottom_point: zero_vec3(),
        left_front_bottom_point: zero_vec3(),
        right_front_bottom_point: zero_vec3(),
        right_back_bottom_point: zero_vec3(),
        left_back_top_point: zero_vec3(),
        left_front_top_point: zero_vec3(),
        right_front_top_point: zero_vec3(),
        right_back_top_point: zero_vec3(),
    }
}

pub open spec fn component_default_v() -> ComponentV {
    ComponentV {
        type_ref: Seq::<u8>::empty(),
        location: Seq::<LocationV>::empty(),
        locations: Seq::<LocationsV>::empty(),
        other_attributes: Map::<Seq<u8>, Seq<u8>>::empty(),
    }
}

} // verus!
