//! Tag-level matching: probing one start/self-closing tag, with its raw
//! attribute pairs, against each record kind the schema knows.

use vstd::prelude::*;

use crate::errors::{IdfError, IdfErrorV};
use crate::numbers::{parse_u32, parse_u32_spec};
use crate::structs::{
    component_default_v, default_hexahedron, location_default_v, locations_default_v, zero_vec3,
    Component, ComponentV, Hexahedron, Location, LocationV, Locations, LocationsV, Response,
    Rotation, Translation, Type, TypeV, Vec3,
};
use crate::utils::{ascii_bytes, bytes_eq, str_bytes};
use crate::xml_parser::try_match_attribute::{
    opt_type_view, point_match_attr, rotation_match_attr, translation_match_attr, type_match_attr,
};

verus! {

/// The value of the first attribute with the given key, if any.
pub open spec fn find_attr(attrs: Seq<(Seq<u8>, Seq<u8>)>, key: Seq<u8>) -> Option<Seq<u8>>
    decreases attrs.len(),
{
    if attrs.len() == 0 {
        None
    } else if attrs.first().0 == key {
        Some(attrs.first().1)
    } else {
        find_attr(attrs.drop_first(), key)
    }
}

proof fn lemma_find_attr_at(attrs: Seq<(Seq<u8>, Seq<u8>)>, key: Seq<u8>, i: int)
    requires
        0 <= i <= attrs.len(),
        forall|j: int| 0 <= j < i ==> (#[trigger] attrs[j]).0 != key,
        i < attrs.len() ==> attrs[i].0 == key,
    ensures
        i < attrs.len() ==> find_attr(attrs, key) == Some(attrs[i].1),
        i == attrs.len() ==> find_attr(attrs, key) is None,
    decreases attrs.len(),
{
    if attrs.len() > 0 {
        if i > 0 {
            lemma_find_attr_at(attrs.drop_first(), key, i - 1);
        }
    }
}

/// Looks the first attribute with the given key up.
pub fn find_attr_exec(attrs: &Vec<(Vec<u8>, Vec<u8>)>, key: &[u8]) -> (r: Option<Vec<u8>>)
    ensures
        match r {
            Some(v) => find_attr(crate::xml_parser::reader::attr_pairs_view(attrs@), key@)
                == Some(v@),
            None => find_attr(crate::xml_parser::reader::attr_pairs_view(attrs@), key@) is None,
        },
{
    let ghost avs = crate::xml_parser::reader::attr_pairs_view(attrs@);
    let n = attrs.len();
    let mut i: usize = 0;
    while i < n
        invariant
            0 <= i <= n,
            n == attrs@.len(),
            avs == crate::xml_parser::reader::attr_pairs_view(attrs@),
            forall|j: int| 0 <= j < i ==> (#[trigger] avs[j]).0 != key@,
        decreases n - i,
    {
        if bytes_eq(attrs[i].0.as_slice(), key) {
            proof {
                lemma_find_attr_at(avs, key@, i as int);
            }
            return Some(vstd::slice::slice_to_vec(attrs[i].1.as_slice()));
        }
        i = i + 1;
    }
    proof {
        lemma_find_attr_at(avs, key@, n as int);
    }
    None
}

/// The corners of a hexahedron in a fixed order; -1 for any other tag name.
pub open spec fn corner_index(name: Seq<u8>) -> int {
    if name == ascii_bytes("left-back-bottom-point") {
        0
    } else if name == ascii_bytes("left-front-bottom-point") {
        1
    } else if name == ascii_bytes("right-front-bottom-point") {
        2
    } else if name == ascii_bytes("right-back-bottom-point") {
        3
    } else if name == ascii_bytes("left-back-top-point") {
        4
    } else if name == ascii_bytes("left-front-top-point") {
        5
    } else if name == ascii_bytes("right-front-top-point") {
        6
    } else if name == ascii_bytes("right-back-top-point") {
        7
    } else {
        -1
    }
}

pub open spec fn hex_with_corner(h: Hexahedron, ci: int, p: Vec3) -> Hexahedron {
    if ci == 0 {
        Hexahedron { left_back_bottom_point: p, ..h }
    } else if ci == 1 {
        Hexahedron { left_front_bottom_point: p, ..h }
    } else if ci == 2 {
        Hexahedron { right_front_bottom_point: p, ..h }
    } else if ci == 3 {
        Hexahedron { right_back_bottom_point: p, ..h }
    } else if ci == 4 {
        Hexahedron { left_back_top_point: p, ..h }
    } else if ci == 5 {
        Hexahedron { left_front_top_point: p, ..h }
    } else if ci == 6 {
        Hexahedron { right_front_top_point: p, ..h }
    } else {
        Hexahedron { right_back_top_point: p, ..h }
    }
}


/// Folds corner-point attribute probes over a tag's attributes.
pub open spec fn point_attrs_fold(
    cur: Option<Vec3>,
    attrs: Seq<(Seq<u8>, Seq<u8>)>,
) -> Result<Option<Vec3>, IdfErrorV>
    decreases attrs.len(),
{
    if attrs.len() == 0 {
        Ok(cur)
    } else {
        match point_match_attr(cur, attrs.first().0, attrs.first().1) {
            Err(e) => Err(e),
            Ok((cur1, _)) => point_attrs_fold(cur1, attrs.drop_first()),
        }
    }
}

/// What probing a tag against the hexahedron record does.  Probing opens a
/// default record whatever the tag is; a `hexahedron` tag reads its `id`, and
/// each named corner tag reads a point from its attributes (an absent or
/// never-matched point falls back to the origin).
pub open spec fn hexahedron_match_tag(
    cur: Option<Hexahedron>,
    name: Seq<u8>,
    attrs: Seq<(Seq<u8>, Seq<u8>)>,
) -> Result<(Option<Hexahedron>, bool), IdfErrorV> {
    let base = match cur {
        Some(h) => h,
        None => default_hexahedron(),
    };
    if name == ascii_bytes("hexahedron") {
        match find_attr(attrs, ascii_bytes("id")) {
            Some(v) => match parse_u32_spec(v) {
                Some(id) => Ok((Some(Hexahedron { id, ..base }), true)),
                None => Err(IdfErrorV::AttributeDecode { key: ascii_bytes("id"), value: v }),
            },
            None => Ok((Some(base), true)),
        }
    } else if corner_index(name) >= 0 {
        match point_attrs_fold(None, attrs) {
            Err(e) => Err(e),
            Ok(pt) => {
                let p = match pt {
                    Some(p) => p,
                    None => zero_vec3(),
                };
                Ok((Some(hex_with_corner(base, corner_index(name), p)), true))
            },
        }
    } else {
        Ok((Some(base), false))
    }
}

/// Folds rotation attribute probes over a tag's attributes.
pub open spec fn rotation_attrs_fold(
    cur: Option<Rotation>,
    attrs: Seq<(Seq<u8>, Seq<u8>)>,
) -> Result<Option<Rotation>, IdfErrorV>
    decreases attrs.len(),
{
    if attrs.len() == 0 {
        Ok(cur)
    } else {
        match rotation_match_attr(cur, attrs.first().0, attrs.first().1, Seq::<u8>::empty()) {
            Err(e) => Err(e),
            Ok((cur1, _)) => rotation_attrs_fold(cur1, attrs.drop_first()),
        }
    }
}

/// What probing a tag against the rotation record does: only a `rot` tag
/// matches, and its attributes are folded into the record.
pub open spec fn rotation_match_tag(
    cur: Option<Rotation>,
    name: Seq<u8>,
    attrs: Seq<(Seq<u8>, Seq<u8>)>,
) -> Result<(Option<Rotation>, bool), IdfErrorV> {
    if name == ascii_bytes("rot") {
        match rotation_attrs_fold(cur, attrs) {
            Err(e) => Err(e),
            Ok(cur1) => Ok((cur1, true)),
        }
    } else {
        Ok((cur, false))
    }
}

/// Folds one `location` tag's attributes: `name` names the placement, and
/// every attribute is probed as a translation and then, failing that, as a
/// rotation (whose probe opens a default rotation even on a miss).
pub open spec fn location_attrs_fold(
    loc: LocationV,
    tr: Option<Translation>,
    rot: Option<Rotation>,
    attrs: Seq<(Seq<u8>, Seq<u8>)>,
) -> Result<(LocationV, Option<Translation>, Option<Rotation>), IdfErrorV>
    decreases attrs.len(),
{
    if attrs.len() == 0 {
        Ok((loc, tr, rot))
    } else {
        let key = attrs.first().0;
        let value = attrs.first().1;
        let loc1 = if key == ascii_bytes("name") {
            LocationV { name: value, ..loc }
        } else {
            loc
        };
        match translation_match_attr(tr, key, value, Seq::<u8>::empty()) {
            Err(e) => Err(e),
            Ok((tr1, true)) => location_attrs_fold(loc1, tr1, rot, attrs.drop_first()),
            Ok((tr1, false)) => match rotation_match_attr(rot, key, value, Seq::<u8>::empty()) {
                Err(e) => Err(e),
                Ok((rot1, _)) => location_attrs_fold(loc1, tr1, rot1, attrs.drop_first()),
            },
        }
    }
}

/// What probing a tag against the location record does: a `location` tag
/// opens or extends the record, reads its attributes, and appends whatever
/// translation and rotation they formed.
pub open spec fn location_match_tag(
    cur: Option<LocationV>,
    name: Seq<u8>,
    attrs: Seq<(Seq<u8>, Seq<u8>)>,
) -> Result<(Option<LocationV>, bool), IdfErrorV> {
    if name == ascii_bytes("location") {
        let base = match cur {
            Some(l) => l,
            None => location_default_v(),
        };
        match location_attrs_fold(base, None, None, attrs) {
            Err(e) => Err(e),
            Ok((loc, tr, rot)) => {
                let loc1 = match tr {
                    Some(t) => LocationV { translation: loc.translation.push(t), ..loc },
                    None => loc,
                };
                let loc2 = match rot {
                    Some(r) => LocationV { rotation: loc1.rotation.push(r), ..loc1 },
                    None => loc1,
                };
                Ok((Some(loc2), true))
            },
        }
    } else {
        Ok((cur, false))
    }
}

/// Folds one `locations` tag's attributes: the bulk parameters
/// (`n-elements`, `name`, `name-count-start`) are read directly, and every
/// other attribute is probed as a start translation, an `-end` translation, a
/// start rotation, and an `-end` rotation, in that order.
pub open spec fn locations_attrs_fold(
    l: LocationsV,
    st: Option<Translation>,
    et: Option<Translation>,
    sr: Option<Rotation>,
    er: Option<Rotation>,
    attrs: Seq<(Seq<u8>, Seq<u8>)>,
) -> Result<(LocationsV, Option<Translation>, Option<Translation>, Option<Rotation>, Option<Rotation>), IdfErrorV>
    decreases attrs.len(),
{
    if attrs.len() == 0 {
        Ok((l, st, et, sr, er))
    } else {
        let key = attrs.first().0;
        let value = attrs.first().1;
        let rest = attrs.drop_first();
        if key == ascii_bytes("n-elements") {
            match parse_u32_spec(value) {
                Some(n) => locations_attrs_fold(
                    LocationsV { n_elements: n, ..l },
                    st,
                    et,
                    sr,
                    er,
                    rest,
                ),
                None => Err(IdfErrorV::AttributeDecode { key, value }),
            }
        } else if key == ascii_bytes("name") {
            locations_attrs_fold(LocationsV { name: value, ..l }, st, et, sr, er, rest)
        } else if key == ascii_bytes("name-count-start") {
            match parse_u32_spec(value) {
                Some(n) => locations_attrs_fold(
                    LocationsV { name_count_start: n, ..l },
                    st,
                    et,
                    sr,
                    er,
                    rest,
                ),
                None => Err(IdfErrorV::AttributeDecode { key, value }),
            }
        } else {
            match translation_match_attr(st, key, value, Seq::<u8>::empty()) {
                Err(e) => Err(e),
                Ok((st1, true)) => locations_attrs_fold(l, st1, et, sr, er, rest),
                Ok((st1, false)) => match translation_match_attr(et, key, value, ascii_bytes("-end")) {
                    Err(e) => Err(e),
                    Ok((et1, true)) => locations_attrs_fold(l, st1, et1, sr, er, rest),
                    Ok((et1, false)) => match rotation_match_attr(sr, key, value, Seq::<u8>::empty()) {
                        Err(e) => Err(e),
                        Ok((sr1, true)) => locations_attrs_fold(l, st1, et1, sr1, er, rest),
                        Ok((sr1, false)) => match rotation_match_attr(er, key, value, ascii_bytes("-end")) {
                            Err(e) => Err(e),
                            Ok((er1, _)) => locations_attrs_fold(l, st1, et1, sr1, er1, rest),
                        },
                    },
                },
            }
        }
    }
}

/// What probing a tag against the bulk `locations` record does.
pub open spec fn locations_match_tag(
    cur: Option<LocationsV>,
    name: Seq<u8>,
    attrs: Seq<(Seq<u8>, Seq<u8>)>,
) -> Result<(Option<LocationsV>, bool), IdfErrorV> {
    if name == ascii_bytes("locations") {
        let base = match cur {
            Some(l) => l,
            None => locations_default_v(),
        };
        match locations_attrs_fold(base, None, None, None, None, attrs) {
            Err(e) => Err(e),
            Ok((l, st, et, sr, er)) => Ok(
                (
                    Some(
                        LocationsV {
                            start_translation: st,
                            end_translation: et,
                            start_rotation: sr,
                            end_rotation: er,
                            ..l
                        },
                    ),
                    true,
                ),
            ),
        }
    } else {
        Ok((cur, false))
    }
}

/// Folds one `type` tag's attributes through the type attribute probe.
pub open spec fn type_attrs_fold(cur: Option<TypeV>, attrs: Seq<(Seq<u8>, Seq<u8>)>) -> Option<
    TypeV,
>
    decreases attrs.len(),
{
    if attrs.len() == 0 {
        cur
    } else {
        let (cur1, _) = type_match_attr(cur, attrs.first().0, attrs.first().1);
        type_attrs_fold(cur1, attrs.drop_first())
    }
}

/// What probing a tag against the type record does: only a `type` tag
/// matches; a `type` tag with no attributes leaves no record open.
pub open spec fn type_match_tag(
    cur: Option<TypeV>,
    name: Seq<u8>,
    attrs: Seq<(Seq<u8>, Seq<u8>)>,
) -> (Option<TypeV>, bool) {
    if name == ascii_bytes("type") {
        (type_attrs_fold(cur, attrs), true)
    } else {
        (cur, false)
    }
}

/// The catch-all attributes of a component: every attribute but `type`, in
/// document order, later values replacing earlier ones.
pub open spec fn component_attrs_fold(
    m: Map<Seq<u8>, Seq<u8>>,
    attrs: Seq<(Seq<u8>, Seq<u8>)>,
) -> Map<Seq<u8>, Seq<u8>>
    decreases attrs.len(),
{
    if attrs.len() == 0 {
        m
    } else if attrs.first().0 == ascii_bytes("type") {
        component_attrs_fold(m, attrs.drop_first())
    } else {
        component_attrs_fold(m.insert(attrs.first().0, attrs.first().1), attrs.drop_first())
    }
}

/// What probing a tag against the component record does: a `component` tag
/// must carry a `type` attribute naming the component's type; its other
/// attributes are preserved verbatim (the bulk-detector id parameters arrive
/// this way).
pub open spec fn component_match_tag(
    cur: Option<ComponentV>,
    name: Seq<u8>,
    attrs: Seq<(Seq<u8>, Seq<u8>)>,
) -> Result<(Option<ComponentV>, bool), IdfErrorV> {
    if name == ascii_bytes("component") {
        let base = match cur {
            Some(c) => c,
            None => component_default_v(),
        };
        match find_attr(attrs, ascii_bytes("type")) {
            None => Err(
                IdfErrorV::MissingAttribute {
                    tag: ascii_bytes("component"),
                    attribute: ascii_bytes("type"),
                },
            ),
            Some(v) => Ok(
                (
                    Some(
                        ComponentV {
                            type_ref: v,
                            other_attributes: component_attrs_fold(base.other_attributes, attrs),
                            ..base
                        },
                    ),
                    true,
                ),
            ),
        }
    } else {
        Ok((cur, false))
    }
}


pub open spec fn opt_location_view(o: Option<Location>) -> Option<LocationV> {
    match o {
        Some(l) => Some(l@),
        None => None,
    }
}

pub open spec fn opt_locations_view(o: Option<Locations>) -> Option<LocationsV> {
    match o {
        Some(l) => Some(l@),
        None => None,
    }
}

pub open spec fn opt_component_view(o: Option<Component>) -> Option<ComponentV> {
    match o {
        Some(c) => Some(c@),
        None => None,
    }
}

impl Hexahedron {
    /// Probes one tag against an in-progress hexahedron, exactly as
    /// [`hexahedron_match_tag`] says.
    pub fn try_match_bytes_start(
        self_option: &mut Option<Hexahedron>,
        name: &[u8],
        attrs: &Vec<(Vec<u8>, Vec<u8>)>,
    ) -> (r: Result<Response, IdfError>)
        ensures
            match hexahedron_match_tag(
                *old(self_option),
                name@,
                crate::xml_parser::reader::attr_pairs_view(attrs@),
            ) {
                Ok((newopt, found)) => r matches Ok(resp) && resp.match_found == found && *final(self_option) == newopt,
                Err(e) => r matches Err(err) && err@ == e,
            },
    {
        let ghost avs = crate::xml_parser::reader::attr_pairs_view(attrs@);
        proof {
            reveal_strlit("hexahedron");
            reveal_strlit("id");
            reveal_strlit("left-back-bottom-point");
            reveal_strlit("left-front-bottom-point");
            reveal_strlit("right-front-bottom-point");
            reveal_strlit("right-back-bottom-point");
            reveal_strlit("left-back-top-point");
            reveal_strlit("left-front-top-point");
            reveal_strlit("right-front-top-point");
            reveal_strlit("right-back-top-point");
        }
        let base = match self_option.take() {
            Some(h) => h,
            None => Hexahedron::default(),
        };
        if bytes_eq(name, str_bytes("hexahedron")) {
            match find_attr_exec(attrs, str_bytes("id")) {
                Some(v) => match parse_u32(v.as_slice()) {
                    Some(id) => {
                        *self_option = Some(Hexahedron { id, ..base });
                        Ok(Response { match_found: true })
                    },
                    None => Err(
                        IdfError::AttributeDecode {
                            key: vstd::slice::slice_to_vec(str_bytes("id")),
                            value: v,
                        },
                    ),
                },
                None => {
                    *self_option = Some(base);
                    Ok(Response { match_found: true })
                },
            }
        } else {
            let ci: i32 = if bytes_eq(name, str_bytes("left-back-bottom-point")) {
                0
            } else if bytes_eq(name, str_bytes("left-front-bottom-point")) {
                1
            } else if bytes_eq(name, str_bytes("right-front-bottom-point")) {
                2
            } else if bytes_eq(name, str_bytes("right-back-bottom-point")) {
                3
            } else if bytes_eq(name, str_bytes("left-back-top-point")) {
                4
            } else if bytes_eq(name, str_bytes("left-front-top-point")) {
                5
            } else if bytes_eq(name, str_bytes("right-front-top-point")) {
                6
            } else if bytes_eq(name, str_bytes("right-back-top-point")) {
                7
            } else {
                -1
            };
            assert(ci == corner_index(name@));
            if ci < 0 {
                *self_option = Some(base);
                return Ok(Response { match_found: false });
            }
            let mut point: Option<Vec3> = None;
            let n = attrs.len();
            let mut i: usize = 0;
            proof {
                assert(avs.skip(0) =~= avs);
            }
            while i < n
                invariant
                    0 <= i <= n,
                    n == attrs@.len(),
                    avs == crate::xml_parser::reader::attr_pairs_view(attrs@),
                    point_attrs_fold(None, avs) == point_attrs_fold(point, avs.skip(i as int)),
                decreases n - i,
            {
                proof {
                    assert(avs.skip(i as int).first() == avs[i as int]);
                    assert(avs.skip(i as int).drop_first() =~= avs.skip(i + 1 as int));
                }
                match Vec3::try_match_attribute(
                    &mut point,
                    attrs[i].0.as_slice(),
                    attrs[i].1.as_slice(),
                ) {
                    Ok(_) => {},
                    Err(e) => {
                        return Err(e);
                    },
                }
                i = i + 1;
            }
            proof {
                assert(avs.skip(n as int) =~= Seq::<(Seq<u8>, Seq<u8>)>::empty());
            }
            let p = match point {
                Some(p) => p,
                None => Vec3::zero(),
            };
            let updated = if ci == 0 {
                Hexahedron { left_back_bottom_point: p, ..base }
            } else if ci == 1 {
                Hexahedron { left_front_bottom_point: p, ..base }
            } else if ci == 2 {
                Hexahedron { right_front_bottom_point: p, ..base }
            } else if ci == 3 {
                Hexahedron { right_back_bottom_point: p, ..base }
            } else if ci == 4 {
                Hexahedron { left_back_top_point: p, ..base }
            } else if ci == 5 {
                Hexahedron { left_front_top_point: p, ..base }
            } else if ci == 6 {
                Hexahedron { right_front_top_point: p, ..base }
            } else {
                Hexahedron { right_back_top_point: p, ..base }
            };
            *self_option = Some(updated);
            Ok(Response { match_found: true })
        }
    }
}

impl Rotation {
    /// Probes one tag against an in-progress rotation, exactly as
    /// [`rotation_match_tag`] says.
    pub fn try_match_bytes_start(
        self_option: &mut Option<Rotation>,
        name: &[u8],
        attrs: &Vec<(Vec<u8>, Vec<u8>)>,
    ) -> (r: Result<Response, IdfError>)
        ensures
            match rotation_match_tag(
                *old(self_option),
                name@,
                crate::xml_parser::reader::attr_pairs_view(attrs@),
            ) {
                Ok((newopt, found)) => r matches Ok(resp) && resp.match_found == found && *final(self_option) == newopt,
                Err(e) => r matches Err(err) && err@ == e,
            },
    {
        let ghost avs = crate::xml_parser::reader::attr_pairs_view(attrs@);
        proof {
            reveal_strlit("rot");
        }
        if !bytes_eq(name, str_bytes("rot")) {
            return Ok(Response { match_found: false });
        }
        let n = attrs.len();
        let mut i: usize = 0;
        proof {
            assert(avs.skip(0) =~= avs);
        }
        while i < n
            invariant
                0 <= i <= n,
                n == attrs@.len(),
                avs == crate::xml_parser::reader::attr_pairs_view(attrs@),
                rotation_attrs_fold(*old(self_option), avs) == rotation_attrs_fold(
                    *self_option,
                    avs.skip(i as int),
                ),
            decreases n - i,
        {
            proof {
                assert(avs.skip(i as int).first() == avs[i as int]);
                assert(avs.skip(i as int).drop_first() =~= avs.skip(i + 1 as int));
            }
            match Rotation::try_match_attribute(
                self_option,
                attrs[i].0.as_slice(),
                attrs[i].1.as_slice(),
                None,
            ) {
                Ok(_) => {},
                Err(e) => {
                    return Err(e);
                },
            }
            i = i + 1;
        }
        proof {
            assert(avs.skip(n as int) =~= Seq::<(Seq<u8>, Seq<u8>)>::empty());
        }
        Ok(Response { match_found: true })
    }
}

impl Location {
    /// Probes one tag against an in-progress location, exactly as
    /// [`location_match_tag`] says.
    pub fn try_match_bytes_start(
        self_option: &mut Option<Location>,
        name: &[u8],
        attrs: &Vec<(Vec<u8>, Vec<u8>)>,
    ) -> (r: Result<Response, IdfError>)
        ensures
            match location_match_tag(
                opt_location_view(*old(self_option)),
                name@,
                crate::xml_parser::reader::attr_pairs_view(attrs@),
            ) {
                Ok((newopt, found)) => r matches Ok(resp) && resp.match_found == found && opt_location_view(*final(self_option)) == newopt,
                Err(e) => r matches Err(err) && err@ == e,
            },
    {
        let ghost avs = crate::xml_parser::reader::attr_pairs_view(attrs@);
        proof {
            reveal_strlit("location");
            reveal_strlit("name");
        }
        if !bytes_eq(name, str_bytes("location")) {
            return Ok(Response { match_found: false });
        }
        let mut loc = match self_option.take() {
            Some(l) => l,
            None => Location::default(),
        };
        let ghost loc0 = loc@;
        let mut tr: Option<Translation> = None;
        let mut rot: Option<Rotation> = None;
        let n = attrs.len();
        let mut i: usize = 0;
        proof {
            assert(avs.skip(0) =~= avs);
        }
        while i < n
            invariant
                0 <= i <= n,
                n == attrs@.len(),
                avs == crate::xml_parser::reader::attr_pairs_view(attrs@),
                location_attrs_fold(loc0, None, None, avs) == location_attrs_fold(
                    loc@,
                    tr,
                    rot,
                    avs.skip(i as int),
                ),
            decreases n - i,
        {
            proof {
                assert(avs.skip(i as int).first() == avs[i as int]);
                assert(avs.skip(i as int).drop_first() =~= avs.skip(i + 1 as int));
            }
            let key = attrs[i].0.as_slice();
            let value = attrs[i].1.as_slice();
            if bytes_eq(key, str_bytes("name")) {
                loc.name = vstd::slice::slice_to_vec(value);
            }
            let resp = match Translation::try_match_attribute(&mut tr, key, value, None) {
                Ok(resp) => resp,
                Err(e) => {
                    return Err(e);
                },
            };
            if !resp.match_found {
                match Rotation::try_match_attribute(&mut rot, key, value, None) {
                    Ok(_) => {},
                    Err(e) => {
                        return Err(e);
                    },
                }
            }
            i = i + 1;
        }
        proof {
            assert(avs.skip(n as int) =~= Seq::<(Seq<u8>, Seq<u8>)>::empty());
        }
        match tr {
            Some(t) => loc.translation.push(t),
            None => {},
        }
        match rot {
            Some(r2) => loc.rotation.push(r2),
            None => {},
        }
        *self_option = Some(loc);
        Ok(Response { match_found: true })
    }
}

impl Locations {
    /// Probes one tag against an in-progress bulk `locations` record, exactly
    /// as [`locations_match_tag`] says.
    pub fn try_match_bytes_start(
        self_option: &mut Option<Locations>,
        name: &[u8],
        attrs: &Vec<(Vec<u8>, Vec<u8>)>,
    ) -> (r: Result<Response, IdfError>)
        ensures
            match locations_match_tag(
                opt_locations_view(*old(self_option)),
                name@,
                crate::xml_parser::reader::attr_pairs_view(attrs@),
            ) {
                Ok((newopt, found)) => r matches Ok(resp) && resp.match_found == found && opt_locations_view(*final(self_option)) == newopt,
                Err(e) => r matches Err(err) && err@ == e,
            },
    {
        let ghost avs = crate::xml_parser::reader::attr_pairs_view(attrs@);
        proof {
            reveal_strlit("locations");
            reveal_strlit("n-elements");
            reveal_strlit("name");
            reveal_strlit("name-count-start");
            reveal_strlit("-end");
            assert(vstd::string::is_ascii("-end"));
        }
        if !bytes_eq(name, str_bytes("locations")) {
            return Ok(Response { match_found: false });
        }
        let mut l = match self_option.take() {
            Some(l) => l,
            None => Locations::default(),
        };
        let ghost l0 = l@;
        let mut st: Option<Translation> = None;
        let mut et: Option<Translation> = None;
        let mut sr: Option<Rotation> = None;
        let mut er: Option<Rotation> = None;
        let n = attrs.len();
        let mut i: usize = 0;
        proof {
            assert(avs.skip(0) =~= avs);
        }
        while i < n
            invariant
                0 <= i <= n,
                n == attrs@.len(),
                avs == crate::xml_parser::reader::attr_pairs_view(attrs@),
                locations_attrs_fold(l0, None, None, None, None, avs) == locations_attrs_fold(
                    l@,
                    st,
                    et,
                    sr,
                    er,
                    avs.skip(i as int),
                ),
            decreases n - i,
        {
            proof {
                assert(avs.skip(i as int).first() == avs[i as int]);
                assert(avs.skip(i as int).drop_first() =~= avs.skip(i + 1 as int));
            }
            let key = attrs[i].0.as_slice();
            let value = attrs[i].1.as_slice();
            if bytes_eq(key, str_bytes("n-elements")) {
                match parse_u32(value) {
                    Some(v) => {
                        l.n_elements = v;
                    },
                    None => {
                        return Err(
                            IdfError::AttributeDecode {
                                key: vstd::slice::slice_to_vec(key),
                                value: vstd::slice::slice_to_vec(value),
                            },
                        );
                    },
                }
            } else if bytes_eq(key, str_bytes("name")) {
                l.name = vstd::slice::slice_to_vec(value);
            } else if bytes_eq(key, str_bytes("name-count-start")) {
                match parse_u32(value) {
                    Some(v) => {
                        l.name_count_start = v;
                    },
                    None => {
                        return Err(
                            IdfError::AttributeDecode {
                                key: vstd::slice::slice_to_vec(key),
                                value: vstd::slice::slice_to_vec(value),
                            },
                        );
                    },
                }
            } else {
                let resp = match Translation::try_match_attribute(&mut st, key, value, None) {
                    Ok(resp) => resp,
                    Err(e) => {
                        return Err(e);
                    },
                };
                if !resp.match_found {
                    let resp2 = match Translation::try_match_attribute(
                        &mut et,
                        key,
                        value,
                        Some("-end"),
                    ) {
                        Ok(resp2) => resp2,
                        Err(e) => {
                            return Err(e);
                        },
                    };
                    if !resp2.match_found {
                        let resp3 = match Rotation::try_match_attribute(&mut sr, key, value, None) {
                            Ok(resp3) => resp3,
                            Err(e) => {
                                return Err(e);
                            },
                        };
                        if !resp3.match_found {
                            match Rotation::try_match_attribute(&mut er, key, value, Some("-end")) {
                                Ok(_) => {},
                                Err(e) => {
                                    return Err(e);
                                },
                            }
                        }
                    }
                }
            }
            i = i + 1;
        }
        proof {
            assert(avs.skip(n as int) =~= Seq::<(Seq<u8>, Seq<u8>)>::empty());
        }
        l.start_translation = st;
        l.end_translation = et;
        l.start_rotation = sr;
        l.end_rotation = er;
        *self_option = Some(l);
        Ok(Response { match_found: true })
    }
}

impl Type {
    /// Probes one tag against an in-progress type, exactly as
    /// [`type_match_tag`] says.
    pub fn try_match_bytes_start(
        self_option: &mut Option<Type>,
        name: &[u8],
        attrs: &Vec<(Vec<u8>, Vec<u8>)>,
    ) -> (r: Response)
        requires
            match *old(self_option) {
                Some(t) => t.wf(),
                None => true,
            },
        ensures
            ({
                let (newopt, found) = type_match_tag(
                    opt_type_view(*old(self_option)),
                    name@,
                    crate::xml_parser::reader::attr_pairs_view(attrs@),
                );
                opt_type_view(*final(self_option)) == newopt && r.match_found == found && match *final(self_option) {
                    Some(t) => t.wf(),
                    None => true,
                }
            }),
    {
        let ghost avs = crate::xml_parser::reader::attr_pairs_view(attrs@);
        proof {
            reveal_strlit("type");
        }
        if !bytes_eq(name, str_bytes("type")) {
            return Response { match_found: false };
        }
        let n = attrs.len();
        let mut i: usize = 0;
        proof {
            assert(avs.skip(0) =~= avs);
        }
        while i < n
            invariant
                0 <= i <= n,
                n == attrs@.len(),
                avs == crate::xml_parser::reader::attr_pairs_view(attrs@),
                type_attrs_fold(opt_type_view(*old(self_option)), avs) == type_attrs_fold(
                    opt_type_view(*self_option),
                    avs.skip(i as int),
                ),
                match *self_option {
                    Some(t) => t.wf(),
                    None => true,
                },
            decreases n - i,
        {
            proof {
                assert(avs.skip(i as int).first() == avs[i as int]);
                assert(avs.skip(i as int).drop_first() =~= avs.skip(i + 1 as int));
            }
            Type::try_match_attribute(self_option, attrs[i].0.as_slice(), attrs[i].1.as_slice());
            i = i + 1;
        }
        proof {
            assert(avs.skip(n as int) =~= Seq::<(Seq<u8>, Seq<u8>)>::empty());
        }
        Response { match_found: true }
    }
}

impl Component {
    /// Probes one tag against an in-progress component, exactly as
    /// [`component_match_tag`] says.
    pub fn try_match_bytes_start(
        self_option: &mut Option<Component>,
        name: &[u8],
        attrs: &Vec<(Vec<u8>, Vec<u8>)>,
    ) -> (r: Result<Response, IdfError>)
        requires
            match *old(self_option) {
                Some(c) => c.wf(),
                None => true,
            },
        ensures
            match component_match_tag(
                opt_component_view(*old(self_option)),
                name@,
                crate::xml_parser::reader::attr_pairs_view(attrs@),
            ) {
                Ok((newopt, found)) => r matches Ok(resp) && resp.match_found == found && opt_component_view(*final(self_option)) == newopt && match *final(self_option) {
                    Some(c) => c.wf(),
                    None => true,
                },
                Err(e) => r matches Err(err) && err@ == e,
            },
    {
        let ghost avs = crate::xml_parser::reader::attr_pairs_view(attrs@);
        proof {
            reveal_strlit("component");
            reveal_strlit("type");
        }
        if !bytes_eq(name, str_bytes("component")) {
            return Ok(Response { match_found: false });
        }
        let mut c = match self_option.take() {
            Some(c) => c,
            None => Component::default(),
        };
        let ghost c0 = c@;
        let tv = match find_attr_exec(attrs, str_bytes("type")) {
            Some(v) => v,
            None => {
                return Err(
                    IdfError::MissingAttribute {
                        tag: vstd::slice::slice_to_vec(str_bytes("component")),
                        attribute: vstd::slice::slice_to_vec(str_bytes("type")),
                    },
                );
            },
        };
        c.type_ref = tv;
        let n = attrs.len();
        let mut i: usize = 0;
        proof {
            assert(avs.skip(0) =~= avs);
        }
        while i < n
            invariant
                0 <= i <= n,
                n == attrs@.len(),
                avs == crate::xml_parser::reader::attr_pairs_view(attrs@),
                c.wf(),
                find_attr(avs, ascii_bytes("type")) == Some(c@.type_ref),
                c@.location == c0.location,
                c@.locations == c0.locations,
                component_attrs_fold(c0.other_attributes, avs) == component_attrs_fold(
                    c@.other_attributes,
                    avs.skip(i as int),
                ),
            decreases n - i,
        {
            proof {
                assert(avs.skip(i as int).first() == avs[i as int]);
                assert(avs.skip(i as int).drop_first() =~= avs.skip(i + 1 as int));
            }
            let key = attrs[i].0.as_slice();
            if !bytes_eq(key, str_bytes("type")) {
                let ghost prev = c@.other_attributes;
                c.other_attributes.insert(
                    vstd::slice::slice_to_vec(key),
                    vstd::slice::slice_to_vec(attrs[i].1.as_slice()),
                );
                proof {
                    assert(c@.other_attributes =~= prev.insert(avs[i as int].0, avs[i as int].1));
                }
            }
            i = i + 1;
        }
        proof {
            assert(avs.skip(n as int) =~= Seq::<(Seq<u8>, Seq<u8>)>::empty());
        }
        *self_option = Some(c);
        Ok(Response { match_found: true })
    }
}

} // verus!
