//! Attribute-level matching: decoding one key/value pair into an in-progress
//! record.  A `suffix` lets the same decoding serve the `-end` variants that
//! the bulk `locations` record uses.

use vstd::prelude::*;

use crate::errors::{IdfError, IdfErrorV};
use crate::fixed::Fixed;
use crate::numbers::parse_fixed_spec;
use crate::structs::{
    default_rotation, default_type_v, Response, Rotation, Translation, Type, TypeV, Vec3,
    zero_vec3,
};
use crate::types::{special_type_of, SpecialTypes};
use crate::utils::{add_suffix, ascii_bytes, bytes_eq, parse_attribute, str_bytes};

verus! {



/// A point with one of its components replaced: 0 is x, 1 is y, 2 is z.
pub open spec fn point_updated(p: Vec3, axis: int, m: i64) -> Vec3 {
    if axis == 0 {
        Vec3 { x: Fixed { micros: m }, ..p }
    } else if axis == 1 {
        Vec3 { y: Fixed { micros: m }, ..p }
    } else {
        Vec3 { z: Fixed { micros: m }, ..p }
    }
}

pub open spec fn translation_updated(t: Translation, axis: int, m: i64) -> Translation {
    match t {
        Translation::Cartesian(p) => Translation::Cartesian(point_updated(p, axis, m)),
        Translation::Spherical(p) => Translation::Spherical(point_updated(p, axis, m)),
    }
}

/// The bytes a suffix argument denotes: absent means empty.
pub open spec fn suffix_bytes(suffix: Option<&str>) -> Seq<u8> {
    match suffix {
        Some(s) => ascii_bytes(s),
        None => Seq::<u8>::empty(),
    }
}

pub open spec fn suffix_ok(suffix: Option<&str>) -> bool {
    match suffix {
        Some(s) => vstd::string::is_ascii(s),
        None => true,
    }
}

/// What probing a translation record with one attribute does: `x`/`y`/`z`
/// (with the suffix) update a cartesian record, `r`/`t`/`p` a spherical one,
/// each starting a fresh record when none is open yet; the component is
/// written into whichever variant is already open.  An undecodable value is a
/// fatal decode error; any other key leaves the record alone.
pub open spec fn translation_match_attr(
    cur: Option<Translation>,
    key: Seq<u8>,
    value: Seq<u8>,
    suffix: Seq<u8>,
) -> Result<(Option<Translation>, bool), IdfErrorV> {
    let cart = key == ascii_bytes("x") + suffix || key == ascii_bytes("y") + suffix || key
        == ascii_bytes("z") + suffix;
    let sph = key == ascii_bytes("r") + suffix || key == ascii_bytes("t") + suffix || key
        == ascii_bytes("p") + suffix;
    if cart || sph {
        let axis: int = if key == ascii_bytes("x") + suffix || key == ascii_bytes("r") + suffix {
            0
        } else if key == ascii_bytes("y") + suffix || key == ascii_bytes("t") + suffix {
            1
        } else {
            2
        };
        let base = match cur {
            Some(t) => t,
            None => if cart {
                Translation::Cartesian(zero_vec3())
            } else {
                Translation::Spherical(zero_vec3())
            },
        };
        match parse_fixed_spec(value) {
            Some(m) => Ok((Some(translation_updated(base, axis, m)), true)),
            None => Err(IdfErrorV::AttributeDecode { key, value }),
        }
    } else {
        Ok((cur, false))
    }
}

/// What probing a rotation record with one attribute does: the probe itself
/// opens a default record (angle zero about the z axis) even when the key
/// matches nothing — the schema counts on that when only an `-end` rotation
/// attribute is present; `val`/`rot` set the angle and `axis-x`/`-y`/`-z` the
/// axis, an undecodable value being fatal.
pub open spec fn rotation_match_attr(
    cur: Option<Rotation>,
    key: Seq<u8>,
    value: Seq<u8>,
    suffix: Seq<u8>,
) -> Result<(Option<Rotation>, bool), IdfErrorV> {
    let base = match cur {
        Some(r) => r,
        None => default_rotation(),
    };
    if key == ascii_bytes("val") + suffix || key == ascii_bytes("rot") + suffix {
        match parse_fixed_spec(value) {
            Some(m) => Ok((Some(Rotation { rot: Fixed { micros: m }, ..base }), true)),
            None => Err(IdfErrorV::AttributeDecode { key, value }),
        }
    } else if key == ascii_bytes("axis-x") + suffix || key == ascii_bytes("axis-y") + suffix || key
        == ascii_bytes("axis-z") + suffix {
        let axis: int = if key == ascii_bytes("axis-x") + suffix {
            0
        } else if key == ascii_bytes("axis-y") + suffix {
            1
        } else {
            2
        };
        match parse_fixed_spec(value) {
            Some(m) => Ok((Some(Rotation { axis: point_updated(base.axis, axis, m), ..base }), true)),
            None => Err(IdfErrorV::AttributeDecode { key, value }),
        }
    } else {
        Ok((Some(base), false))
    }
}

/// What probing a corner point with one attribute does: the probe opens a
/// zero point even on a miss; `x`/`y`/`z` set its components.
pub open spec fn point_match_attr(cur: Option<Vec3>, key: Seq<u8>, value: Seq<u8>) -> Result<
    (Option<Vec3>, bool),
    IdfErrorV,
> {
    let base = match cur {
        Some(p) => p,
        None => zero_vec3(),
    };
    if key == ascii_bytes("x") || key == ascii_bytes("y") || key == ascii_bytes("z") {
        let axis: int = if key == ascii_bytes("x") {
            0
        } else if key == ascii_bytes("y") {
            1
        } else {
            2
        };
        match parse_fixed_spec(value) {
            Some(m) => Ok((Some(point_updated(base, axis, m)), true)),
            None => Err(IdfErrorV::AttributeDecode { key, value }),
        }
    } else {
        Ok((Some(base), false))
    }
}

/// What probing a type with one attribute does: the probe opens a default
/// type even on a miss; `name` names it, `is` classifies it leniently, an
/// empty key matches nothing, and every other key is preserved verbatim in
/// the catch-all attribute mapping.
pub open spec fn type_match_attr(cur: Option<TypeV>, key: Seq<u8>, value: Seq<u8>) -> (Option<
    TypeV,
>, bool) {
    let base = match cur {
        Some(t) => t,
        None => default_type_v(),
    };
    if key == ascii_bytes("name") {
        ((Some(TypeV { name: value, ..base })), true)
    } else if key == ascii_bytes("is") {
        ((Some(TypeV { special_type: special_type_of(value), ..base })), true)
    } else if key == Seq::<u8>::empty() {
        ((Some(base)), false)
    } else {
        (
            (Some(
                TypeV { other_attributes: base.other_attributes.insert(key, value), ..base },
            )),
            true,
        )
    }
}




pub open spec fn opt_type_view(o: Option<Type>) -> Option<TypeV> {
    match o {
        Some(t) => Some(t@),
        None => None,
    }
}

impl Translation {
    /// Probes one attribute against an in-progress translation, exactly as
    /// [`translation_match_attr`] says.
    pub fn try_match_attribute(
        self_option: &mut Option<Translation>,
        key: &[u8],
        value: &[u8],
        suffix: Option<&str>,
    ) -> (r: Result<Response, IdfError>)
        requires
            suffix_ok(suffix),
        ensures
            match translation_match_attr(*old(self_option), key@, value@, suffix_bytes(suffix)) {
                Ok((newopt, found)) => r matches Ok(resp) && resp.match_found == found && *final(self_option) == newopt,
                Err(e) => r matches Err(err) && err@ == e && *final(self_option) == *old(self_option),
            },
    {
        let sfx: &str = match suffix {
            Some(s) => s,
            None => "",
        };
        proof {
            reveal_strlit("");
            assert(ascii_bytes("") =~= Seq::<u8>::empty());
            assert(suffix_bytes(suffix) == ascii_bytes(sfx));
            reveal_strlit("x");
            reveal_strlit("y");
            reveal_strlit("z");
            reveal_strlit("r");
            reveal_strlit("t");
            reveal_strlit("p");
        }
        let xk = add_suffix(str_bytes("x"), sfx);
        let yk = add_suffix(str_bytes("y"), sfx);
        let zk = add_suffix(str_bytes("z"), sfx);
        let rk = add_suffix(str_bytes("r"), sfx);
        let tk = add_suffix(str_bytes("t"), sfx);
        let pk = add_suffix(str_bytes("p"), sfx);
        let cart = bytes_eq(key, xk.as_slice()) || bytes_eq(key, yk.as_slice()) || bytes_eq(
            key,
            zk.as_slice(),
        );
        let sph = bytes_eq(key, rk.as_slice()) || bytes_eq(key, tk.as_slice()) || bytes_eq(
            key,
            pk.as_slice(),
        );
        if cart || sph {
            let base = match *self_option {
                Some(t) => t,
                None => if cart {
                    Translation::Cartesian(Vec3::zero())
                } else {
                    Translation::Spherical(Vec3::zero())
                },
            };
            let m = match parse_attribute(value) {
                Some(f) => f,
                None => {
                    return Err(
                        IdfError::AttributeDecode {
                            key: vstd::slice::slice_to_vec(key),
                            value: vstd::slice::slice_to_vec(value),
                        },
                    );
                },
            };
            let axis: u8 = if bytes_eq(key, xk.as_slice()) || bytes_eq(key, rk.as_slice()) {
                0
            } else if bytes_eq(key, yk.as_slice()) || bytes_eq(key, tk.as_slice()) {
                1
            } else {
                2
            };
            let updated = match base {
                Translation::Cartesian(p) => Translation::Cartesian(set_point(p, axis, m)),
                Translation::Spherical(p) => Translation::Spherical(set_point(p, axis, m)),
            };
            *self_option = Some(updated);
            Ok(Response { match_found: true })
        } else {
            Ok(Response { match_found: false })
        }
    }
}

/// One component of a point replaced: 0 is x, 1 is y, anything else z.
fn set_point(p: Vec3, axis: u8, m: Fixed) -> (r: Vec3)
    ensures
        r == point_updated(p, axis as int, m.micros),
{
    if axis == 0 {
        Vec3 { x: m, ..p }
    } else if axis == 1 {
        Vec3 { y: m, ..p }
    } else {
        Vec3 { z: m, ..p }
    }
}

impl Rotation {
    /// Probes one attribute against an in-progress rotation, exactly as
    /// [`rotation_match_attr`] says.
    pub fn try_match_attribute(
        self_option: &mut Option<Rotation>,
        key: &[u8],
        value: &[u8],
        suffix: Option<&str>,
    ) -> (r: Result<Response, IdfError>)
        requires
            suffix_ok(suffix),
        ensures
            match rotation_match_attr(*old(self_option), key@, value@, suffix_bytes(suffix)) {
                Ok((newopt, found)) => r matches Ok(resp) && resp.match_found == found && *final(self_option) == newopt,
                Err(e) => r matches Err(err) && err@ == e && *final(self_option) == *old(self_option),
            },
    {
        let sfx: &str = match suffix {
            Some(s) => s,
            None => "",
        };
        proof {
            reveal_strlit("");
            assert(ascii_bytes("") =~= Seq::<u8>::empty());
            assert(suffix_bytes(suffix) == ascii_bytes(sfx));
            reveal_strlit("val");
            reveal_strlit("rot");
            reveal_strlit("axis-x");
            reveal_strlit("axis-y");
            reveal_strlit("axis-z");
        }
        let base = match *self_option {
            Some(r) => r,
            None => Rotation::default(),
        };
        let valk = add_suffix(str_bytes("val"), sfx);
        let rotk = add_suffix(str_bytes("rot"), sfx);
        let axk = add_suffix(str_bytes("axis-x"), sfx);
        let ayk = add_suffix(str_bytes("axis-y"), sfx);
        let azk = add_suffix(str_bytes("axis-z"), sfx);
        if bytes_eq(key, valk.as_slice()) || bytes_eq(key, rotk.as_slice()) {
            let m = match parse_attribute(value) {
                Some(f) => f,
                None => {
                    return Err(
                        IdfError::AttributeDecode {
                            key: vstd::slice::slice_to_vec(key),
                            value: vstd::slice::slice_to_vec(value),
                        },
                    );
                },
            };
            *self_option = Some(Rotation { rot: m, ..base });
            Ok(Response { match_found: true })
        } else if bytes_eq(key, axk.as_slice()) || bytes_eq(key, ayk.as_slice()) || bytes_eq(
            key,
            azk.as_slice(),
        ) {
            let m = match parse_attribute(value) {
                Some(f) => f,
                None => {
                    return Err(
                        IdfError::AttributeDecode {
                            key: vstd::slice::slice_to_vec(key),
                            value: vstd::slice::slice_to_vec(value),
                        },
                    );
                },
            };
            let axis: u8 = if bytes_eq(key, axk.as_slice()) {
                0
            } else if bytes_eq(key, ayk.as_slice()) {
                1
            } else {
                2
            };
            *self_option = Some(Rotation { axis: set_point(base.axis, axis, m), ..base });
            Ok(Response { match_found: true })
        } else {
            *self_option = Some(base);
            Ok(Response { match_found: false })
        }
    }
}

impl Vec3 {
    /// Probes one attribute against an in-progress corner point, exactly as
    /// [`point_match_attr`] says.
    pub fn try_match_attribute(
        self_option: &mut Option<Vec3>,
        key: &[u8],
        value: &[u8],
    ) -> (r: Result<Response, IdfError>)
        ensures
            match point_match_attr(*old(self_option), key@, value@) {
                Ok((newopt, found)) => r matches Ok(resp) && resp.match_found == found && *final(self_option) == newopt,
                Err(e) => r matches Err(err) && err@ == e && *final(self_option) == *old(self_option),
            },
    {
        proof {
            reveal_strlit("x");
            reveal_strlit("y");
            reveal_strlit("z");
        }
        let base = match *self_option {
            Some(p) => p,
            None => Vec3::zero(),
        };
        if bytes_eq(key, str_bytes("x")) || bytes_eq(key, str_bytes("y")) || bytes_eq(
            key,
            str_bytes("z"),
        ) {
            let m = match parse_attribute(value) {
                Some(f) => f,
                None => {
                    return Err(
                        IdfError::AttributeDecode {
                            key: vstd::slice::slice_to_vec(key),
                            value: vstd::slice::slice_to_vec(value),
                        },
                    );
                },
            };
            let axis: u8 = if bytes_eq(key, str_bytes("x")) {
                0
            } else if bytes_eq(key, str_bytes("y")) {
                1
            } else {
                2
            };
            *self_option = Some(set_point(base, axis, m));
            Ok(Response { match_found: true })
        } else {
            *self_option = Some(base);
            Ok(Response { match_found: false })
        }
    }
}

impl Type {
    /// Probes one attribute against an in-progress type, exactly as
    /// [`type_match_attr`] says.
    pub fn try_match_attribute(self_option: &mut Option<Type>, key: &[u8], value: &[u8]) -> (r:
        Response)
        requires
            match *old(self_option) {
                Some(t) => t.wf(),
                None => true,
            },
        ensures
            ({
                let (newopt, found) = type_match_attr(opt_type_view(*old(self_option)), key@, value@);
                opt_type_view(*final(self_option)) == newopt && r.match_found == found && match *final(self_option) {
                    Some(t) => t.wf(),
                    None => true,
                }
            }),
    {
        proof {
            reveal_strlit("name");
            reveal_strlit("is");
        }
        let mut base = match self_option.take() {
            Some(t) => t,
            None => Type::default(),
        };
        proof {
            assert(base@ == match opt_type_view(*old(self_option)) {
                Some(t) => t,
                None => default_type_v(),
            });
        }
        if bytes_eq(key, str_bytes("name")) {
            base.name = vstd::slice::slice_to_vec(value);
            *self_option = Some(base);
            Response { match_found: true }
        } else if bytes_eq(key, str_bytes("is")) {
            base.special_type = SpecialTypes::parse(value);
            *self_option = Some(base);
            Response { match_found: true }
        } else if key.len() == 0 {
            proof {
                assert(key@ =~= Seq::<u8>::empty());
            }
            *self_option = Some(base);
            Response { match_found: false }
        } else {
            base.other_attributes.insert(
                vstd::slice::slice_to_vec(key),
                vstd::slice::slice_to_vec(value),
            );
            proof {
                assert(base@.other_attributes =~= match opt_type_view(*old(self_option)) {
                    Some(t) => t,
                    None => default_type_v(),
                }.other_attributes.insert(key@, value@));
            }
            *self_option = Some(base);
            Response { match_found: true }
        }
    }
}

} // verus!
