//! Geometry resolution: the transform steps that place every
//! detection-relevant point, and the bulk pixel-grid synthesis.
//!
//! Rotations and spherical translations involve trigonometry, so a resolved
//! point is an exact base point together with the ordered transform steps
//! that still apply to it; translations, grids and interpolation are exact
//! fixed-point arithmetic here, and a numeric evaluator turns the steps into
//! floating-point coordinates outside the verified core.

use vstd::prelude::*;

use crate::errors::{IdfError, IdfErrorV};
use crate::fixed::{lerp, lerp_micros, Fixed};
use crate::numbers::{parse_fixed_spec, parse_u32_spec};
use crate::structs::{
    default_rotation, zero_vec3, ComponentV, LocationV, LocationsV, Rotation, Translation, TypeV,
    Vec3,
};
use crate::utils::{ascii_bytes, str_bytes};

verus! {

/// One translation step: a single translation as written, or a cartesian
/// interpolation between two translations at fraction `num / den`.
#[derive(Debug, Clone, Copy, PartialEq, Eq, Structural)]
pub enum TranslationStep {
    One(Translation),
    Lerp { start: Translation, end: Translation, num: u32, den: u32 },
}

/// One transform step of a resolved point, applied in list order.
#[derive(Debug, Clone, Copy, PartialEq, Eq, Structural)]
pub enum Step {
    Translate(TranslationStep),
    Rotate(Rotation),
}

/// A resolved point: an exact base point and the transform steps that still
/// apply to it, earliest first.
#[derive(Debug, Clone)]
pub struct PlacedPoint {
    pub base: Vec3,
    pub steps: Vec<Step>,
}

pub struct PlacedPointV {
    pub base: Vec3,
    pub steps: Seq<Step>,
}

impl View for PlacedPoint {
    type V = PlacedPointV;

    open spec fn view(&self) -> PlacedPointV {
        PlacedPointV { base: self.base, steps: self.steps@ }
    }
}

/// The steps of one local transform: its translations first, then its
/// rotations, each list in order.
pub open spec fn steps_of(ts: Seq<TranslationStep>, rs: Seq<Rotation>) -> Seq<Step> {
    ts.map_values(|t: TranslationStep| Step::Translate(t)) + rs.map_values(
        |r: Rotation| Step::Rotate(r),
    )
}

/// A single placement's transforms: its translations and rotations as
/// written.
pub open spec fn location_transforms(l: LocationV) -> (Seq<TranslationStep>, Seq<Rotation>) {
    (l.translation.map_values(|t: Translation| TranslationStep::One(t)), l.rotation)
}

/// Componentwise interpolation of two exact points.
pub open spec fn lerp3_spec(a: Vec3, b: Vec3, num: u32, den: u32) -> Vec3 {
    Vec3 {
        x: Fixed { micros: lerp_micros(a.x.micros as int, b.x.micros as int, num as int, den as int) as i64 },
        y: Fixed { micros: lerp_micros(a.y.micros as int, b.y.micros as int, num as int, den as int) as i64 },
        z: Fixed { micros: lerp_micros(a.z.micros as int, b.z.micros as int, num as int, den as int) as i64 },
    }
}

/// The transforms of element `e` of a bulk record with `n_elements` placements:
/// the translation is interpolated between start and end (exactly at the two
/// boundary elements, with exact fixed-point interpolation when both ends are
/// cartesian, and as a deferred interpolation step otherwise); the rotation
/// interpolates the angle alone and always keeps the start rotation's axis.
pub open spec fn locations_transforms(l: LocationsV, e: u32) -> (Seq<TranslationStep>, Seq<
    Rotation,
>) {
    let den = if l.n_elements >= 1 {
        (l.n_elements - 1) as u32
    } else {
        0u32
    };
    let ts: Seq<TranslationStep> = match l.start_translation {
        None => Seq::empty(),
        Some(s) => match l.end_translation {
            None => seq![TranslationStep::One(s)],
            Some(end) => {
                if e == 0 || den == 0 {
                    seq![TranslationStep::One(s)]
                } else if e >= den {
                    seq![TranslationStep::One(end)]
                } else if (s is Cartesian) && (end is Cartesian) {
                    seq![TranslationStep::One(Translation::Cartesian(lerp3_spec(s->Cartesian_0, end->Cartesian_0, e, den)))]
                } else {
                    seq![TranslationStep::Lerp { start: s, end, num: e, den }]
                }
            },
        },
    };
    let rs: Seq<Rotation> = match l.start_rotation {
        None => Seq::empty(),
        Some(s) => match l.end_rotation {
            None => seq![s],
            Some(end) => {
                let angle: i64 = if e == 0 || den == 0 {
                    s.rot.micros
                } else if e >= den {
                    end.rot.micros
                } else {
                    lerp_micros(s.rot.micros as int, end.rot.micros as int, e as int, den as int) as i64
                };
                seq![Rotation { rot: Fixed { micros: angle }, axis: s.axis }]
            },
        },
    };
    (ts, rs)
}

/// Componentwise interpolation of two exact points.
pub fn lerp3(a: Vec3, b: Vec3, num: u32, den: u32) -> (r: Vec3)
    requires
        0 < den,
        num <= den,
    ensures
        r == lerp3_spec(a, b, num, den),
{
    Vec3 { x: lerp(a.x, b.x, num, den), y: lerp(a.y, b.y, num, den), z: lerp(a.z, b.z, num, den) }
}

impl crate::structs::Location {
    /// This placement's transforms, exactly as [`location_transforms`] says.
    pub fn to_new_translations_and_rotations(&self) -> (r: (Vec<TranslationStep>, Vec<Rotation>))
        ensures
            r.0@ == location_transforms(self@).0,
            r.1@ == location_transforms(self@).1,
    {
        let mut ts: Vec<TranslationStep> = Vec::new();
        let n = self.translation.len();
        let mut i: usize = 0;
        while i < n
            invariant
                0 <= i <= n,
                n == self.translation@.len(),
                ts@ =~= self.translation@.map_values(|t: Translation| TranslationStep::One(t)).take(
                    i as int,
                ),
            decreases n - i,
        {
            ts.push(TranslationStep::One(self.translation[i]));
            proof {
                assert(ts@ =~= self.translation@.map_values(
                    |t: Translation| TranslationStep::One(t),
                ).take(i + 1 as int));
            }
            i = i + 1;
        }
        let mut rs: Vec<Rotation> = Vec::new();
        let m = self.rotation.len();
        let mut j: usize = 0;
        while j < m
            invariant
                0 <= j <= m,
                m == self.rotation@.len(),
                rs@ =~= self.rotation@.take(j as int),
            decreases m - j,
        {
            rs.push(self.rotation[j]);
            proof {
                assert(rs@ =~= self.rotation@.take(j + 1 as int));
            }
            j = j + 1;
        }
        proof {
            assert(ts@ =~= location_transforms(self@).0);
            assert(rs@ =~= location_transforms(self@).1);
        }
        (ts, rs)
    }
}

impl crate::structs::Locations {
    /// The transforms of one interpolated element, exactly as
    /// [`locations_transforms`] says.
    pub fn to_new_translations_and_rotations(&self, element: u32) -> (r: (
        Vec<TranslationStep>,
        Vec<Rotation>,
    ))
        ensures
            r.0@ == locations_transforms(self@, element).0,
            r.1@ == locations_transforms(self@, element).1,
    {
        let den: u32 = if self.n_elements >= 1 {
            self.n_elements - 1
        } else {
            0
        };
        let mut ts: Vec<TranslationStep> = Vec::new();
        match self.start_translation {
            None => {},
            Some(s) => match self.end_translation {
                None => {
                    ts.push(TranslationStep::One(s));
                },
                Some(end) => {
                    if element == 0 || den == 0 {
                        ts.push(TranslationStep::One(s));
                    } else if element >= den {
                        ts.push(TranslationStep::One(end));
                    } else {
                        match (s, end) {
                            (Translation::Cartesian(a), Translation::Cartesian(b)) => {
                                ts.push(
                                    TranslationStep::One(
                                        Translation::Cartesian(lerp3(a, b, element, den)),
                                    ),
                                );
                            },
                            _ => {
                                ts.push(TranslationStep::Lerp { start: s, end, num: element, den });
                            },
                        }
                    }
                },
            },
        }
        let mut rs: Vec<Rotation> = Vec::new();
        match self.start_rotation {
            None => {},
            Some(s) => match self.end_rotation {
                None => {
                    rs.push(s);
                },
                Some(end) => {
                    let angle: Fixed = if element == 0 || den == 0 {
                        s.rot
                    } else if element >= den {
                        end.rot
                    } else {
                        lerp(s.rot, end.rot, element, den)
                    };
                    rs.push(Rotation { rot: angle, axis: s.axis });
                },
            },
        }
        proof {
            assert(ts@ =~= locations_transforms(self@, element).0);
            assert(rs@ =~= locations_transforms(self@, element).1);
        }
        (ts, rs)
    }
}

/// Element 0 of a bulk record reproduces the start translation and the start
/// rotation exactly; the last element reproduces the end translation exactly
/// and the end rotation's angle exactly, with the axis still taken from the
/// start rotation.
pub proof fn lemma_interpolation_boundary(l: LocationsV)
    requires
        l.n_elements >= 1,
    ensures
        locations_transforms(l, 0).0 == match l.start_translation {
            None => Seq::<TranslationStep>::empty(),
            Some(s) => seq![TranslationStep::One(s)],
        },
        locations_transforms(l, 0).1 == match l.start_rotation {
            None => Seq::<Rotation>::empty(),
            Some(s) => seq![s],
        },
        l.n_elements >= 2 && l.start_translation is Some && l.end_translation is Some
            ==> locations_transforms(l, (l.n_elements - 1) as u32).0 == seq![
            TranslationStep::One(l.end_translation->Some_0),
        ],
        l.n_elements >= 2 && l.start_rotation is Some && l.end_rotation is Some
            ==> locations_transforms(l, (l.n_elements - 1) as u32).1 == seq![
            Rotation {
                rot: l.end_rotation->Some_0.rot,
                axis: l.start_rotation->Some_0.axis,
            },
        ],
{
}

/// Which axis fills first when a bulk detector assigns ids.
#[derive(Debug, Clone, Copy, PartialEq, Eq, Structural)]
pub enum Axes {
    X,
    Y,
    Z,
}

/// The axis a textual attribute value denotes.
pub open spec fn axes_of(s: Seq<u8>) -> Option<Axes> {
    if s == ascii_bytes("x") || s == ascii_bytes("X") {
        Some(Axes::X)
    } else if s == ascii_bytes("y") || s == ascii_bytes("Y") {
        Some(Axes::Y)
    } else if s == ascii_bytes("z") || s == ascii_bytes("Z") {
        Some(Axes::Z)
    } else {
        None
    }
}

/// The grid and id parameters of a rectangular detector: the pixel counts and
/// spacings from the type's catch-all attributes, and the id assignment from
/// the component's own.
#[derive(Debug, Clone, Copy, PartialEq, Eq, Structural)]
pub struct RectParams {
    pub xpixels: u32,
    pub xstart: Fixed,
    pub xstep: Fixed,
    pub ypixels: u32,
    pub ystart: Fixed,
    pub ystep: Fixed,
    pub fill: Axes,
    pub idstart: u32,
    pub idstepbyrow: u32,
}

/// One coordinate of the synthesized grid.
pub open spec fn grid_coord(start: i64, step: i64, i: int) -> int {
    start + i * step
}

/// Whether every coordinate of an `n`-pixel axis fits the coordinate type;
/// the extreme pixel decides, the axis being linear.
pub open spec fn grid_fits(start: i64, step: i64, n: u32) -> bool {
    n == 0 || (i64::MIN <= grid_coord(start, step, n - 1) <= i64::MAX)
}

/// The untransformed grid: the outer loop walks x, the inner y, and each
/// pixel sits at (xstart + x·xstep, ystart + y·ystep, 0).
pub open spec fn grid_points(p: RectParams) -> Seq<Vec3> {
    Seq::new(
        (p.xpixels * p.ypixels) as nat,
        |k: int|
            Vec3 {
                x: Fixed {
                    micros: grid_coord(p.xstart.micros, p.xstep.micros, k / (p.ypixels as int)) as i64,
                },
                y: Fixed {
                    micros: grid_coord(p.ystart.micros, p.ystep.micros, k % (p.ypixels as int)) as i64,
                },
                z: Fixed { micros: 0 },
            },
    )
}

/// The number of id increments taken before pixel `k` is emitted: one per
/// pixel, plus one more after each completed inner loop — the documented
/// double increment at row boundaries.
pub open spec fn id_increments(p: RectParams, k: int) -> int {
    k + k / (p.ypixels as int)
}

/// The id increment per step: `idstepbyrow` when filling by x first, 1 when
/// filling by y first.
pub open spec fn id_increment(p: RectParams) -> int {
    match p.fill {
        Axes::X => p.idstepbyrow as int,
        _ => 1int,
    }
}

/// The ids of the grid, pixel by pixel, with 32-bit wraparound.
pub open spec fn grid_ids(p: RectParams) -> Seq<u32> {
    Seq::new(
        (p.xpixels * p.ypixels) as nat,
        |k: int| ((p.idstart + id_increments(p, k) * id_increment(p)) % 0x1_0000_0000) as u32,
    )
}

/// The grid has exactly `xpixels * ypixels` points, one id each.
pub proof fn lemma_grid_cardinality(p: RectParams)
    ensures
        grid_points(p).len() == p.xpixels * p.ypixels,
        grid_ids(p).len() == p.xpixels * p.ypixels,
{
}

/// Grid cardinality per placement: a rectangular detector emits exactly
/// `xpixels * ypixels` points for each of its placements, with as many ids,
/// so the total is that product times the placement count.
pub proof fn lemma_rect_cardinality(p: RectParams, locs: Seq<LocationV>, i: int)
    requires
        0 <= i <= locs.len(),
    ensures
        rect_placed(p, locs, i).len() == (locs.len() - i) * (p.xpixels * p.ypixels),
        rect_repeated_ids(p, locs.len() - i).len() == (locs.len() - i) * (p.xpixels * p.ypixels),
    decreases locs.len() - i,
{
    if i == locs.len() {
        assert((locs.len() - i) * (p.xpixels * p.ypixels) == 0) by (nonlinear_arith)
            requires
                locs.len() - i == 0,
        ;
    } else {
        lemma_rect_cardinality(p, locs, i + 1);
        lemma_grid_cardinality(p);
        assert((locs.len() - i) * (p.xpixels * p.ypixels) == p.xpixels * p.ypixels + (locs.len() - i
            - 1) * (p.xpixels * p.ypixels)) by (nonlinear_arith)
            requires
                i < locs.len(),
        ;
    }
}

/// Id monotonicity within and across rows, wherever the ids do not wrap:
/// within one x-row consecutive ids grow by the increment each pixel, and at
/// a row boundary they grow by it twice — 1 each for fill-by-y, `idstepbyrow`
/// each for fill-by-x.
pub proof fn lemma_id_monotonicity(p: RectParams, x: int, y: int)
    requires
        0 <= x < p.xpixels,
        0 <= y < p.ypixels,
        p.idstart + (p.xpixels * p.ypixels + p.xpixels) * id_increment(p) < 0x1_0000_0000,
    ensures
        y + 1 < p.ypixels ==> grid_ids(p)[x * p.ypixels + y + 1] == grid_ids(p)[x * p.ypixels + y]
            + id_increment(p),
        y + 1 == p.ypixels && x + 1 < p.xpixels ==> grid_ids(p)[(x + 1) * p.ypixels] == grid_ids(
            p,
        )[x * p.ypixels + y] + 2 * id_increment(p),
{
    let yp = p.ypixels as int;
    let inc = id_increment(p);
    let k = x * yp + y;
    lemma_grid_index(p, x, y);
    assert(0 <= k < p.xpixels * p.ypixels);
    lemma_id_value_small(p, k);
    if y + 1 < yp {
        lemma_grid_index(p, x, y + 1);
        lemma_id_value_small(p, k + 1);
        assert((k + 1) / yp == x);
        assert(id_increments(p, k + 1) == id_increments(p, k) + 1);
        assert((id_increments(p, k) + 1) * inc == id_increments(p, k) * inc + 1 * inc) by {
            vstd::arithmetic::mul::lemma_mul_is_distributive_add_other_way(
                inc,
                id_increments(p, k),
                1,
            );
        }
    } else if x + 1 < p.xpixels {
        lemma_grid_index(p, x + 1, 0);
        assert((x + 1) * yp == k + 1) by (nonlinear_arith)
            requires
                k == x * yp + y,
                y == yp - 1,
        ;
        lemma_id_value_small(p, k + 1);
        assert((k + 1) / yp == x + 1);
        assert(id_increments(p, k + 1) == id_increments(p, k) + 2);
        assert((id_increments(p, k) + 2) * inc == id_increments(p, k) * inc + 2 * inc) by {
            vstd::arithmetic::mul::lemma_mul_is_distributive_add_other_way(
                inc,
                id_increments(p, k),
                2,
            );
        }
    }
}

/// The pixel at column x, row y is the k-th emitted, k = x·ypixels + y.
proof fn lemma_grid_index(p: RectParams, x: int, y: int)
    requires
        0 <= x < p.xpixels,
        0 <= y < p.ypixels,
    ensures
        0 <= x * (p.ypixels as int) + y < p.xpixels * p.ypixels,
        (x * (p.ypixels as int) + y) / (p.ypixels as int) == x,
        (x * (p.ypixels as int) + y) % (p.ypixels as int) == y,
{
    let yp = p.ypixels as int;
    vstd::arithmetic::div_mod::lemma_fundamental_div_mod_converse(x * yp + y, yp, x, y);
    assert(x * yp + y < p.xpixels * p.ypixels) by (nonlinear_arith)
        requires
            0 <= x < p.xpixels,
            0 <= y < yp,
            yp == p.ypixels,
    ;
    assert(0 <= x * yp) by (nonlinear_arith)
        requires
            0 <= x,
            0 <= yp,
    ;
}

/// Below the wraparound bound, the id formula needs no reduction.
proof fn lemma_id_value_small(p: RectParams, k: int)
    requires
        0 <= k < p.xpixels * p.ypixels,
        p.idstart + (p.xpixels * p.ypixels + p.xpixels) * id_increment(p) < 0x1_0000_0000,
    ensures
        grid_ids(p)[k] == p.idstart + id_increments(p, k) * id_increment(p),
        p.idstart + id_increments(p, k) * id_increment(p) < 0x1_0000_0000,
{
    let yp = p.ypixels as int;
    let inc = id_increment(p);
    assert(yp > 0) by (nonlinear_arith)
        requires
            0 <= k < p.xpixels * p.ypixels,
            yp == p.ypixels,
    ;
    vstd::arithmetic::div_mod::lemma_div_pos_is_pos(k, yp);
    vstd::arithmetic::div_mod::lemma_div_nonincreasing(k, yp);
    assert(id_increments(p, k) <= 2 * k);
    assert(k / yp <= p.xpixels) by {
        assert(k < p.xpixels * yp) by (nonlinear_arith)
            requires
                k < p.xpixels * p.ypixels,
                yp == p.ypixels,
        ;
        vstd::arithmetic::div_mod::lemma_div_is_ordered(k, p.xpixels * yp, yp);
        vstd::arithmetic::div_mod::lemma_div_by_multiple(p.xpixels as int, yp);
    }
    assert(id_increments(p, k) * inc <= (p.xpixels * p.ypixels + p.xpixels) * inc) by {
        vstd::arithmetic::mul::lemma_mul_inequality(
            id_increments(p, k),
            p.xpixels * p.ypixels + p.xpixels,
            inc,
        );
        vstd::arithmetic::mul::lemma_mul_is_commutative(id_increments(p, k), inc);
        vstd::arithmetic::mul::lemma_mul_is_commutative(p.xpixels * p.ypixels + p.xpixels, inc);
    }
    assert(0 <= id_increments(p, k) * inc) by {
        vstd::arithmetic::mul::lemma_mul_nonnegative(id_increments(p, k), inc);
    }
    vstd::arithmetic::div_mod::lemma_small_mod(
        (p.idstart + id_increments(p, k) * inc) as nat,
        0x1_0000_0000nat,
    );
}

/// The abstract values of a list of resolved points.
pub open spec fn placed_views(s: Seq<PlacedPoint>) -> Seq<PlacedPointV> {
    s.map_values(|p: PlacedPoint| p@)
}

/// A resolved point with one more level of deferred transform appended.
pub open spec fn apply_pending(
    p: PlacedPointV,
    ts: Seq<TranslationStep>,
    rs: Seq<Rotation>,
) -> PlacedPointV {
    PlacedPointV { base: p.base, steps: p.steps + steps_of(ts, rs) }
}

/// Points and ids prepended to a later result, errors passing through.
pub open spec fn cat_result(
    p: Seq<PlacedPointV>,
    d: Seq<u32>,
    r: Result<(Seq<PlacedPointV>, Seq<u32>), IdfErrorV>,
) -> Result<(Seq<PlacedPointV>, Seq<u32>), IdfErrorV> {
    match r {
        Ok((a, b)) => Ok((p + a, d + b)),
        Err(e) => Err(e),
    }
}

proof fn lemma_cat_cat(
    p1: Seq<PlacedPointV>,
    d1: Seq<u32>,
    p2: Seq<PlacedPointV>,
    d2: Seq<u32>,
    r: Result<(Seq<PlacedPointV>, Seq<u32>), IdfErrorV>,
)
    ensures
        cat_result(p1, d1, cat_result(p2, d2, r)) == cat_result(p1 + p2, d1 + d2, r),
{
    match r {
        Ok((a, b)) => {
            assert(p1 + (p2 + a) =~= (p1 + p2) + a);
            assert(d1 + (d2 + b) =~= (d1 + d2) + b);
        },
        Err(_) => {},
    }
}

/// The grid and id parameters read from a rectangular detector's type and
/// component attributes; a missing parameter or an undecodable value is
/// fatal, as is an id fill direction outside x and y.
pub open spec fn rect_params_spec(t: TypeV, c: ComponentV) -> Result<RectParams, IdfErrorV> {
    if !t.other_attributes.contains_key(ascii_bytes("xpixels")) {
        Err(IdfErrorV::MissingAttribute { tag: t.name, attribute: ascii_bytes("xpixels") })
    } else if parse_u32_spec(t.other_attributes[ascii_bytes("xpixels")]) is None {
        Err(IdfErrorV::AttributeDecode {
            key: ascii_bytes("xpixels"),
            value: t.other_attributes[ascii_bytes("xpixels")],
        })
    } else if !t.other_attributes.contains_key(ascii_bytes("xstart")) {
        Err(IdfErrorV::MissingAttribute { tag: t.name, attribute: ascii_bytes("xstart") })
    } else if parse_fixed_spec(t.other_attributes[ascii_bytes("xstart")]) is None {
        Err(IdfErrorV::AttributeDecode {
            key: ascii_bytes("xstart"),
            value: t.other_attributes[ascii_bytes("xstart")],
        })
    } else if !t.other_attributes.contains_key(ascii_bytes("xstep")) {
        Err(IdfErrorV::MissingAttribute { tag: t.name, attribute: ascii_bytes("xstep") })
    } else if parse_fixed_spec(t.other_attributes[ascii_bytes("xstep")]) is None {
        Err(IdfErrorV::AttributeDecode {
            key: ascii_bytes("xstep"),
            value: t.other_attributes[ascii_bytes("xstep")],
        })
    } else if !t.other_attributes.contains_key(ascii_bytes("ypixels")) {
        Err(IdfErrorV::MissingAttribute { tag: t.name, attribute: ascii_bytes("ypixels") })
    } else if parse_u32_spec(t.other_attributes[ascii_bytes("ypixels")]) is None {
        Err(IdfErrorV::AttributeDecode {
            key: ascii_bytes("ypixels"),
            value: t.other_attributes[ascii_bytes("ypixels")],
        })
    } else if !t.other_attributes.contains_key(ascii_bytes("ystart")) {
        Err(IdfErrorV::MissingAttribute { tag: t.name, attribute: ascii_bytes("ystart") })
    } else if parse_fixed_spec(t.other_attributes[ascii_bytes("ystart")]) is None {
        Err(IdfErrorV::AttributeDecode {
            key: ascii_bytes("ystart"),
            value: t.other_attributes[ascii_bytes("ystart")],
        })
    } else if !t.other_attributes.contains_key(ascii_bytes("ystep")) {
        Err(IdfErrorV::MissingAttribute { tag: t.name, attribute: ascii_bytes("ystep") })
    } else if parse_fixed_spec(t.other_attributes[ascii_bytes("ystep")]) is None {
        Err(IdfErrorV::AttributeDecode {
            key: ascii_bytes("ystep"),
            value: t.other_attributes[ascii_bytes("ystep")],
        })
    } else if !c.other_attributes.contains_key(ascii_bytes("idfillbyfirst")) {
        Err(IdfErrorV::MissingAttribute { tag: t.name, attribute: ascii_bytes("idfillbyfirst") })
    } else if axes_of(c.other_attributes[ascii_bytes("idfillbyfirst")]) is None || axes_of(
        c.other_attributes[ascii_bytes("idfillbyfirst")],
    ) == Some(Axes::Z) {
        Err(IdfErrorV::AttributeDecode {
            key: ascii_bytes("idfillbyfirst"),
            value: c.other_attributes[ascii_bytes("idfillbyfirst")],
        })
    } else if !c.other_attributes.contains_key(ascii_bytes("idstart")) {
        Err(IdfErrorV::MissingAttribute { tag: t.name, attribute: ascii_bytes("idstart") })
    } else if parse_u32_spec(c.other_attributes[ascii_bytes("idstart")]) is None {
        Err(IdfErrorV::AttributeDecode {
            key: ascii_bytes("idstart"),
            value: c.other_attributes[ascii_bytes("idstart")],
        })
    } else if !c.other_attributes.contains_key(ascii_bytes("idstepbyrow")) {
        Err(IdfErrorV::MissingAttribute { tag: t.name, attribute: ascii_bytes("idstepbyrow") })
    } else if parse_u32_spec(c.other_attributes[ascii_bytes("idstepbyrow")]) is None {
        Err(IdfErrorV::AttributeDecode {
            key: ascii_bytes("idstepbyrow"),
            value: c.other_attributes[ascii_bytes("idstepbyrow")],
        })
    } else {
        Ok(RectParams {
            xpixels: parse_u32_spec(t.other_attributes[ascii_bytes("xpixels")])->Some_0,
            xstart: Fixed { micros: parse_fixed_spec(t.other_attributes[ascii_bytes("xstart")])->Some_0 },
            xstep: Fixed { micros: parse_fixed_spec(t.other_attributes[ascii_bytes("xstep")])->Some_0 },
            ypixels: parse_u32_spec(t.other_attributes[ascii_bytes("ypixels")])->Some_0,
            ystart: Fixed { micros: parse_fixed_spec(t.other_attributes[ascii_bytes("ystart")])->Some_0 },
            ystep: Fixed { micros: parse_fixed_spec(t.other_attributes[ascii_bytes("ystep")])->Some_0 },
            fill: axes_of(c.other_attributes[ascii_bytes("idfillbyfirst")])->Some_0,
            idstart: parse_u32_spec(c.other_attributes[ascii_bytes("idstart")])->Some_0,
            idstepbyrow: parse_u32_spec(c.other_attributes[ascii_bytes("idstepbyrow")])->Some_0,
        })
    }
}

/// The grid copied once per placement, each copy carrying that placement's
/// own transform steps.
pub open spec fn rect_placed(p: RectParams, locs: Seq<LocationV>, i: int) -> Seq<PlacedPointV>
    decreases locs.len() - i,
{
    if i < 0 || i >= locs.len() {
        Seq::empty()
    } else {
        let steps = steps_of(location_transforms(locs[i]).0, location_transforms(locs[i]).1);
        grid_points(p).map_values(|g: Vec3| PlacedPointV { base: g, steps }) + rect_placed(
            p,
            locs,
            i + 1,
        )
    }
}

/// The grid's ids, once per placement.
pub open spec fn rect_repeated_ids(p: RectParams, n: int) -> Seq<u32>
    decreases n,
{
    if n <= 0 {
        Seq::empty()
    } else {
        grid_ids(p) + rect_repeated_ids(p, n - 1)
    }
}

/// What a rectangular-detector node emits: parameters read from its type and
/// component, a grid whose extreme coordinates must fit the coordinate type,
/// and one transformed grid copy per placement.  The node's deferred ancestor
/// transform is not applied here.
pub open spec fn rect_node_points(t: TypeV, c: ComponentV) -> Result<
    (Seq<PlacedPointV>, Seq<u32>),
    IdfErrorV,
> {
    match rect_params_spec(t, c) {
        Err(e) => Err(e),
        Ok(p) => {
            if !grid_fits(p.xstart.micros, p.xstep.micros, p.xpixels) {
                Err(IdfErrorV::AttributeDecode {
                    key: ascii_bytes("xstep"),
                    value: t.other_attributes[ascii_bytes("xstep")],
                })
            } else if !grid_fits(p.ystart.micros, p.ystep.micros, p.ypixels) {
                Err(IdfErrorV::AttributeDecode {
                    key: ascii_bytes("ystep"),
                    value: t.other_attributes[ascii_bytes("ystep")],
                })
            } else {
                Ok((rect_placed(p, c.location, 0), rect_repeated_ids(p, c.location.len() as int)))
            }
        },
    }
}

/// What a plain detector node emits: one point at the origin per placement,
/// carrying that placement's transform steps, and one per interpolated
/// element of each bulk record; no ids.  The node's deferred ancestor
/// transform is not applied here.
pub open spec fn det_loc_points(locs: Seq<LocationV>, i: int) -> Seq<PlacedPointV>
    decreases locs.len() - i,
{
    if i < 0 || i >= locs.len() {
        Seq::empty()
    } else {
        seq![
            PlacedPointV {
                base: zero_vec3(),
                steps: steps_of(
                    location_transforms(locs[i]).0,
                    location_transforms(locs[i]).1,
                ),
            },
        ] + det_loc_points(locs, i + 1)
    }
}

pub open spec fn det_bulk_points(lss: Seq<LocationsV>, i: int, e: u32) -> Seq<PlacedPointV>
    decreases lss.len() - i, (if 0 <= i < lss.len() { lss[i].n_elements - e } else { 0int }),
{
    if i < 0 || i >= lss.len() {
        Seq::empty()
    } else if e >= lss[i].n_elements {
        det_bulk_points(lss, i + 1, 0)
    } else {
        seq![
            PlacedPointV {
                base: zero_vec3(),
                steps: steps_of(
                    locations_transforms(lss[i], e).0,
                    locations_transforms(lss[i], e).1,
                ),
            },
        ] + det_bulk_points(lss, i, (e + 1) as u32)
    }
}

/// What geometry resolution emits below one node, with `pts`/`prs` the
/// deferred ancestor transform that the children's aggregated results still
/// owe.  The synthetic root and empty-typed components recurse with an empty
/// deferred transform; detector-like leaves ignore the deferred transform
/// they were handed (only the transform two levels up ever reaches them);
/// ordinary containers recurse once per placement and apply their own
/// inherited transform to the children's results.
pub open spec fn transform_points(
    types: Seq<(Seq<u8>, TypeV)>,
    n: crate::component_tree::NodeV,
    pts: Seq<TranslationStep>,
    prs: Seq<Rotation>,
) -> Result<(Seq<PlacedPointV>, Seq<u32>), IdfErrorV>
    decreases n, 3int, 0int, 0int,
{
    if n.component.type_ref.len() == 0 {
        extend_children(types, n.children, 0, Seq::empty(), Seq::empty(), pts, prs)
    } else {
        match crate::component_tree::entries_lookup(types, n.component.type_ref) {
            None => Err(IdfErrorV::UnknownType { type_ref: n.component.type_ref }),
            Some(t) => match t.special_type {
                crate::types::SpecialTypes::RectangularDetector => rect_node_points(t, n.component),
                crate::types::SpecialTypes::Detector => Ok(
                    (
                        det_loc_points(n.component.location, 0) + det_bulk_points(
                            n.component.locations,
                            0,
                            0,
                        ),
                        Seq::empty(),
                    ),
                ),
                crate::types::SpecialTypes::Plain => {
                    if n.component.location.len() == 0 && n.component.locations.len() == 0 {
                        if n.children.len() == 0 {
                            Err(IdfErrorV::BareLeaf { type_ref: n.component.type_ref })
                        } else {
                            extend_children(
                                types,
                                n.children,
                                0,
                                seq![TranslationStep::One(Translation::Cartesian(zero_vec3()))],
                                seq![default_rotation()],
                                pts,
                                prs,
                            )
                        }
                    } else {
                        match container_locs(types, n.children, n.component.location, 0, pts, prs) {
                            Err(e) => Err(e),
                            Ok((p1, d1)) => cat_result(
                                p1,
                                d1,
                                container_bulk(types, n.children, n.component.locations, 0, 0, pts, prs),
                            ),
                        }
                    }
                },
                _ => Ok((Seq::empty(), Seq::empty())),
            },
        }
    }
}

/// The children's results from position `i` on, each child handed the new
/// local transform, and the inherited transform appended to every point that
/// comes back.
pub open spec fn extend_children(
    types: Seq<(Seq<u8>, TypeV)>,
    kids: Seq<crate::component_tree::NodeV>,
    i: int,
    new_t: Seq<TranslationStep>,
    new_r: Seq<Rotation>,
    inh_t: Seq<TranslationStep>,
    inh_r: Seq<Rotation>,
) -> Result<(Seq<PlacedPointV>, Seq<u32>), IdfErrorV>
    decreases kids, 0int, (if i < kids.len() { kids.len() - i } else { 0int }), 0int,
{
    if i < 0 || i >= kids.len() {
        Ok((Seq::empty(), Seq::empty()))
    } else {
        match transform_points(types, kids[i], new_t, new_r) {
            Err(e) => Err(e),
            Ok((cp, ci)) => cat_result(
                cp.map_values(|q: PlacedPointV| apply_pending(q, inh_t, inh_r)),
                ci,
                extend_children(types, kids, i + 1, new_t, new_r, inh_t, inh_r),
            ),
        }
    }
}

/// An ordinary container's placements: for each, the children are handed that
/// placement's local transform, and the container's own inherited transform
/// is applied to what comes back.
pub open spec fn container_locs(
    types: Seq<(Seq<u8>, TypeV)>,
    kids: Seq<crate::component_tree::NodeV>,
    locs: Seq<LocationV>,
    i: int,
    pts: Seq<TranslationStep>,
    prs: Seq<Rotation>,
) -> Result<(Seq<PlacedPointV>, Seq<u32>), IdfErrorV>
    decreases kids, 1int, (if i < locs.len() { locs.len() - i } else { 0int }), 0int,
{
    if i < 0 || i >= locs.len() {
        Ok((Seq::empty(), Seq::empty()))
    } else {
        let tr = location_transforms(locs[i]);
        match extend_children(types, kids, 0, tr.0, tr.1, pts, prs) {
            Err(e) => Err(e),
            Ok((p1, d1)) => cat_result(p1, d1, container_locs(types, kids, locs, i + 1, pts, prs)),
        }
    }
}

/// An ordinary container's bulk placements, element by element.
pub open spec fn container_bulk(
    types: Seq<(Seq<u8>, TypeV)>,
    kids: Seq<crate::component_tree::NodeV>,
    lss: Seq<LocationsV>,
    i: int,
    e: u32,
    pts: Seq<TranslationStep>,
    prs: Seq<Rotation>,
) -> Result<(Seq<PlacedPointV>, Seq<u32>), IdfErrorV>
    decreases
            kids,
            2int,
            (if i < lss.len() { lss.len() - i } else { 0int }),
            (if 0 <= i < lss.len() { lss[i].n_elements - e } else { 0int }),
{
    if i < 0 || i >= lss.len() {
        Ok((Seq::empty(), Seq::empty()))
    } else if e >= lss[i].n_elements {
        container_bulk(types, kids, lss, i + 1, 0, pts, prs)
    } else {
        let tr = locations_transforms(lss[i], e);
        match extend_children(types, kids, 0, tr.0, tr.1, pts, prs) {
            Err(e2) => Err(e2),
            Ok((p1, d1)) => cat_result(
                p1,
                d1,
                container_bulk(types, kids, lss, i, (e + 1) as u32, pts, prs),
            ),
        }
    }
}

/// Interior pixels of a linear axis stay between the end pixels.
proof fn lemma_grid_coord_bounded(start: int, step: int, n: int, i: int)
    requires
        0 <= i < n,
        i64::MIN <= start <= i64::MAX,
        i64::MIN <= start + (n - 1) * step <= i64::MAX,
    ensures
        i64::MIN <= start + i * step <= i64::MAX,
{
    if step >= 0 {
        vstd::arithmetic::mul::lemma_mul_inequality(i, n - 1, step);
        vstd::arithmetic::mul::lemma_mul_nonnegative(i, step);
    } else {
        assert(i * step <= 0) by (nonlinear_arith)
            requires
                0 <= i,
                step < 0,
        ;
        assert((n - 1) * step <= i * step) by (nonlinear_arith)
            requires
                i <= n - 1,
                step < 0,
        ;
    }
}

/// The transform steps a local transform contributes, in application order.
pub fn steps_vec(ts: &Vec<TranslationStep>, rs: &Vec<Rotation>) -> (r: Vec<Step>)
    ensures
        r@ == steps_of(ts@, rs@),
{
    let mut r: Vec<Step> = Vec::new();
    let n = ts.len();
    let mut i: usize = 0;
    while i < n
        invariant
            0 <= i <= n,
            n == ts@.len(),
            r@ =~= ts@.map_values(|t: TranslationStep| Step::Translate(t)).take(i as int),
        decreases n - i,
    {
        r.push(Step::Translate(ts[i]));
        proof {
            assert(r@ =~= ts@.map_values(|t: TranslationStep| Step::Translate(t)).take(i + 1 as int));
        }
        i = i + 1;
    }
    let m = rs.len();
    let mut j: usize = 0;
    while j < m
        invariant
            0 <= j <= m,
            m == rs@.len(),
            r@ =~= ts@.map_values(|t: TranslationStep| Step::Translate(t)) + rs@.map_values(
                |q: Rotation| Step::Rotate(q),
            ).take(j as int),
        decreases m - j,
    {
        r.push(Step::Rotate(rs[j]));
        proof {
            assert(r@ =~= ts@.map_values(|t: TranslationStep| Step::Translate(t)) + rs@.map_values(
                |q: Rotation| Step::Rotate(q),
            ).take(j + 1 as int));
        }
        j = j + 1;
    }
    proof {
        assert(r@ =~= steps_of(ts@, rs@));
    }
    r
}

/// A copy of a step list.
fn copy_steps(v: &Vec<Step>) -> (r: Vec<Step>)
    ensures
        r@ == v@,
{
    let mut r: Vec<Step> = Vec::new();
    let n = v.len();
    let mut i: usize = 0;
    while i < n
        invariant
            0 <= i <= n,
            n == v@.len(),
            r@ =~= v@.take(i as int),
        decreases n - i,
    {
        r.push(v[i]);
        proof {
            assert(r@ =~= v@.take(i + 1 as int));
        }
        i = i + 1;
    }
    proof {
        assert(r@ =~= v@);
    }
    r
}

/// One more level of deferred transform appended to a point.
fn apply_pending_point(
    p: PlacedPoint,
    inh_t: &Vec<TranslationStep>,
    inh_r: &Vec<Rotation>,
) -> (r: PlacedPoint)
    ensures
        r@ == apply_pending(p@, inh_t@, inh_r@),
{
    let mut p = p;
    let n = inh_t.len();
    let ghost p0 = p@;
    let mut i: usize = 0;
    while i < n
        invariant
            0 <= i <= n,
            n == inh_t@.len(),
            p.base == p0.base,
            p.steps@ =~= p0.steps + inh_t@.map_values(|t: TranslationStep| Step::Translate(t)).take(
                i as int,
            ),
        decreases n - i,
    {
        p.steps.push(Step::Translate(inh_t[i]));
        proof {
            assert(p.steps@ =~= p0.steps + inh_t@.map_values(
                |t: TranslationStep| Step::Translate(t),
            ).take(i + 1 as int));
        }
        i = i + 1;
    }
    let m = inh_r.len();
    let mut j: usize = 0;
    while j < m
        invariant
            0 <= j <= m,
            m == inh_r@.len(),
            p.base == p0.base,
            p.steps@ =~= p0.steps + inh_t@.map_values(|t: TranslationStep| Step::Translate(t))
                + inh_r@.map_values(|q: Rotation| Step::Rotate(q)).take(j as int),
        decreases m - j,
    {
        p.steps.push(Step::Rotate(inh_r[j]));
        proof {
            assert(p.steps@ =~= p0.steps + inh_t@.map_values(
                |t: TranslationStep| Step::Translate(t),
            ) + inh_r@.map_values(|q: Rotation| Step::Rotate(q)).take(j + 1 as int));
        }
        j = j + 1;
    }
    proof {
        assert(p.steps@ =~= p0.steps + steps_of(inh_t@, inh_r@));
    }
    p
}

/// Reads one named count from a catch-all attribute mapping.
fn attr_u32(
    m: &crate::bytemap::ByteMap<Vec<u8>>,
    mv: Ghost<Map<Seq<u8>, Seq<u8>>>,
    tag: &Vec<u8>,
    key: &str,
) -> (r: Result<u32, IdfError>)
    requires
        m.wf(),
        mv@ == m.as_map().map_values(|v: Vec<u8>| v@),
        vstd::string::is_ascii(key),
    ensures
        !mv@.contains_key(ascii_bytes(key)) ==> (r matches Err(e) && e@ == (IdfErrorV::MissingAttribute {
            tag: tag@,
            attribute: ascii_bytes(key),
        })),
        mv@.contains_key(ascii_bytes(key)) && parse_u32_spec(mv@[ascii_bytes(key)]) is None
            ==> (r matches Err(e) && e@ == (IdfErrorV::AttributeDecode {
            key: ascii_bytes(key),
            value: mv@[ascii_bytes(key)],
        })),
        mv@.contains_key(ascii_bytes(key)) && parse_u32_spec(mv@[ascii_bytes(key)]) is Some
            ==> (r matches Ok(v) && parse_u32_spec(mv@[ascii_bytes(key)]) == Some(v)),
{
    match m.get(str_bytes(key)) {
        None => Err(
            IdfError::MissingAttribute {
                tag: vstd::slice::slice_to_vec(tag.as_slice()),
                attribute: vstd::slice::slice_to_vec(str_bytes(key)),
            },
        ),
        Some(v) => {
            proof {
                assert(mv@[ascii_bytes(key)] == v@);
            }
            match crate::numbers::parse_u32(v.as_slice()) {
                Some(x) => Ok(x),
                None => Err(
                    IdfError::AttributeDecode {
                        key: vstd::slice::slice_to_vec(str_bytes(key)),
                        value: vstd::slice::slice_to_vec(v.as_slice()),
                    },
                ),
            }
        },
    }
}

/// Reads one named coordinate from a catch-all attribute mapping.
fn attr_fixed(
    m: &crate::bytemap::ByteMap<Vec<u8>>,
    mv: Ghost<Map<Seq<u8>, Seq<u8>>>,
    tag: &Vec<u8>,
    key: &str,
) -> (r: Result<Fixed, IdfError>)
    requires
        m.wf(),
        mv@ == m.as_map().map_values(|v: Vec<u8>| v@),
        vstd::string::is_ascii(key),
    ensures
        !mv@.contains_key(ascii_bytes(key)) ==> (r matches Err(e) && e@ == (IdfErrorV::MissingAttribute {
            tag: tag@,
            attribute: ascii_bytes(key),
        })),
        mv@.contains_key(ascii_bytes(key)) && parse_fixed_spec(mv@[ascii_bytes(key)]) is None
            ==> (r matches Err(e) && e@ == (IdfErrorV::AttributeDecode {
            key: ascii_bytes(key),
            value: mv@[ascii_bytes(key)],
        })),
        mv@.contains_key(ascii_bytes(key)) && parse_fixed_spec(mv@[ascii_bytes(key)]) is Some
            ==> (r matches Ok(v) && parse_fixed_spec(mv@[ascii_bytes(key)]) == Some(v.micros)),
{
    match m.get(str_bytes(key)) {
        None => Err(
            IdfError::MissingAttribute {
                tag: vstd::slice::slice_to_vec(tag.as_slice()),
                attribute: vstd::slice::slice_to_vec(str_bytes(key)),
            },
        ),
        Some(v) => {
            proof {
                assert(mv@[ascii_bytes(key)] == v@);
            }
            match crate::numbers::parse_fixed(v.as_slice()) {
                Some(x) => Ok(x),
                None => Err(
                    IdfError::AttributeDecode {
                        key: vstd::slice::slice_to_vec(str_bytes(key)),
                        value: vstd::slice::slice_to_vec(v.as_slice()),
                    },
                ),
            }
        },
    }
}

/// Reads a rectangular detector's parameters, exactly as [`rect_params_spec`]
/// says.
fn rect_params(t: &crate::structs::Type, c: &crate::structs::Component) -> (r: Result<
    RectParams,
    IdfError,
>)
    requires
        t.wf(),
        c.wf(),
    ensures
        match rect_params_spec(t@, c@) {
            Ok(p) => r matches Ok(q) && q == p,
            Err(e) => r matches Err(err) && err@ == e,
        },
{
    proof {
        reveal_strlit("xpixels");
        reveal_strlit("xstart");
        reveal_strlit("xstep");
        reveal_strlit("ypixels");
        reveal_strlit("ystart");
        reveal_strlit("ystep");
        reveal_strlit("idfillbyfirst");
        reveal_strlit("idstart");
        reveal_strlit("idstepbyrow");
        reveal_strlit("x");
        reveal_strlit("X");
        reveal_strlit("y");
        reveal_strlit("Y");
        reveal_strlit("z");
        reveal_strlit("Z");
    }
    let ghost tm = t@.other_attributes;
    let ghost cm = c@.other_attributes;
    let xpixels = match attr_u32(&t.other_attributes, Ghost(tm), &t.name, "xpixels") {
        Ok(v) => v,
        Err(e) => {
            return Err(e);
        },
    };
    let xstart = match attr_fixed(&t.other_attributes, Ghost(tm), &t.name, "xstart") {
        Ok(v) => v,
        Err(e) => {
            return Err(e);
        },
    };
    let xstep = match attr_fixed(&t.other_attributes, Ghost(tm), &t.name, "xstep") {
        Ok(v) => v,
        Err(e) => {
            return Err(e);
        },
    };
    let ypixels = match attr_u32(&t.other_attributes, Ghost(tm), &t.name, "ypixels") {
        Ok(v) => v,
        Err(e) => {
            return Err(e);
        },
    };
    let ystart = match attr_fixed(&t.other_attributes, Ghost(tm), &t.name, "ystart") {
        Ok(v) => v,
        Err(e) => {
            return Err(e);
        },
    };
    let ystep = match attr_fixed(&t.other_attributes, Ghost(tm), &t.name, "ystep") {
        Ok(v) => v,
        Err(e) => {
            return Err(e);
        },
    };
    let fill_raw = match c.other_attributes.get(str_bytes("idfillbyfirst")) {
        Some(v) => v,
        None => {
            return Err(
                IdfError::MissingAttribute {
                    tag: vstd::slice::slice_to_vec(t.name.as_slice()),
                    attribute: vstd::slice::slice_to_vec(str_bytes("idfillbyfirst")),
                },
            );
        },
    };
    proof {
        assert(cm[ascii_bytes("idfillbyfirst")] == fill_raw@);
    }
    let fill: Axes = if crate::utils::bytes_eq(fill_raw.as_slice(), str_bytes("x"))
        || crate::utils::bytes_eq(fill_raw.as_slice(), str_bytes("X")) {
        Axes::X
    } else if crate::utils::bytes_eq(fill_raw.as_slice(), str_bytes("y")) || crate::utils::bytes_eq(
        fill_raw.as_slice(),
        str_bytes("Y"),
    ) {
        Axes::Y
    } else {
        return Err(
            IdfError::AttributeDecode {
                key: vstd::slice::slice_to_vec(str_bytes("idfillbyfirst")),
                value: vstd::slice::slice_to_vec(fill_raw.as_slice()),
            },
        );
    };
    let idstart = match attr_u32(&c.other_attributes, Ghost(cm), &t.name, "idstart") {
        Ok(v) => v,
        Err(e) => {
            return Err(e);
        },
    };
    let idstepbyrow = match attr_u32(&c.other_attributes, Ghost(cm), &t.name, "idstepbyrow") {
        Ok(v) => v,
        Err(e) => {
            return Err(e);
        },
    };
    Ok(RectParams { xpixels, xstart, xstep, ypixels, ystart, ystep, fill, idstart, idstepbyrow })
}

/// Whether every pixel coordinate of an axis fits the coordinate type.
fn check_fits(start: Fixed, step: Fixed, n: u32) -> (r: bool)
    ensures
        r == grid_fits(start.micros, step.micros, n),
{
    if n == 0 {
        return true;
    }
    proof {
        assert({
            let prod = (n - 1) as int * step.micros as int;
            -0x1_0000_0000_0000_0000_0000_0000 < prod < 0x1_0000_0000_0000_0000_0000_0000
        }) by (nonlinear_arith)
            requires
                0 <= ((n - 1) as int) < 0x1_0000_0000,
                (-0x8000_0000_0000_0000) <= step.micros,
                step.micros <= 0x7fff_ffff_ffff_ffff,
        ;
    }
    let v: i128 = start.micros as i128 + (n - 1) as i128 * step.micros as i128;
    v >= i64::MIN as i128 && v <= i64::MAX as i128
}

/// Synthesizes the untransformed grid with its ids: the outer loop walks x,
/// the inner y, the id counter stepping once per pixel and once more after
/// each completed inner loop.
fn synth_grid(p: RectParams) -> (r: (Vec<Vec3>, Vec<u32>))
    requires
        grid_fits(p.xstart.micros, p.xstep.micros, p.xpixels),
        grid_fits(p.ystart.micros, p.ystep.micros, p.ypixels),
    ensures
        r.0@ == grid_points(p),
        r.1@ == grid_ids(p),
{
    let mut points: Vec<Vec3> = Vec::new();
    let mut ids: Vec<u32> = Vec::new();
    let inc: u32 = match p.fill {
        Axes::X => p.idstepbyrow,
        _ => 1,
    };
    proof {
        assert(inc as int == id_increment(p));
    }
    let mut id: u32 = p.idstart;
    let yp = p.ypixels;
    let mut x: u32 = 0;
    while x < p.xpixels
        invariant
            0 <= x <= p.xpixels,
            grid_fits(p.xstart.micros, p.xstep.micros, p.xpixels),
            grid_fits(p.ystart.micros, p.ystep.micros, p.ypixels),
            yp == p.ypixels,
            inc as int == id_increment(p),
            points@.len() == x * yp,
            points@ =~= grid_points(p).take((x * yp) as int),
            ids@ =~= grid_ids(p).take((x * yp) as int),
            id as int == (p.idstart + ((x * yp) as int + x as int) * inc) % 0x1_0000_0000,
        decreases p.xpixels - x,
    {
        let mut y: u32 = 0;
        proof {
            vstd::arithmetic::mul::lemma_mul_nonnegative(x as int, yp as int);
        }
        while y < yp
            invariant
                0 <= x < p.xpixels,
                0 <= y <= yp,
                grid_fits(p.xstart.micros, p.xstep.micros, p.xpixels),
                grid_fits(p.ystart.micros, p.ystep.micros, p.ypixels),
                yp == p.ypixels,
                inc as int == id_increment(p),
                points@.len() == x * yp + y,
                points@ =~= grid_points(p).take((x * yp + y) as int),
                ids@ =~= grid_ids(p).take((x * yp + y) as int),
                id as int == (p.idstart + ((x * yp + y) as int + x as int) * inc)
                    % 0x1_0000_0000,
            decreases yp - y,
        {
            let ghost k: int = x as int * yp as int + y as int;
            proof {
                lemma_grid_index(p, x as int, y as int);
                lemma_grid_coord_bounded(
                    p.xstart.micros as int,
                    p.xstep.micros as int,
                    p.xpixels as int,
                    x as int,
                );
                lemma_grid_coord_bounded(
                    p.ystart.micros as int,
                    p.ystep.micros as int,
                    p.ypixels as int,
                    y as int,
                );
                assert({
                    let prod = x as int * p.xstep.micros as int;
                    -0x1_0000_0000_0000_0000_0000_0000 < prod < 0x1_0000_0000_0000_0000_0000_0000
                }) by (nonlinear_arith)
                    requires
                        0 <= (x as int) < 0x1_0000_0000,
                        (-0x8000_0000_0000_0000) <= p.xstep.micros,
                        p.xstep.micros <= 0x7fff_ffff_ffff_ffff,
                ;
                assert({
                    let prod = y as int * p.ystep.micros as int;
                    -0x1_0000_0000_0000_0000_0000_0000 < prod < 0x1_0000_0000_0000_0000_0000_0000
                }) by (nonlinear_arith)
                    requires
                        0 <= (y as int) < 0x1_0000_0000,
                        (-0x8000_0000_0000_0000) <= p.ystep.micros,
                        p.ystep.micros <= 0x7fff_ffff_ffff_ffff,
                ;
            }
            let gx: i128 = p.xstart.micros as i128 + x as i128 * p.xstep.micros as i128;
            let gy: i128 = p.ystart.micros as i128 + y as i128 * p.ystep.micros as i128;
            let point = Vec3 {
                x: Fixed { micros: gx as i64 },
                y: Fixed { micros: gy as i64 },
                z: Fixed { micros: 0 },
            };
            points.push(point);
            ids.push(id);
            proof {
                assert(grid_points(p)[k] == point);
                assert(points@ =~= grid_points(p).take(k + 1));
                assert(grid_ids(p)[k] == ((p.idstart + id_increments(p, k) * id_increment(p))
                    % 0x1_0000_0000) as u32);
                assert(id_increments(p, k) == k + x as int);
                assert(ids@ =~= grid_ids(p).take(k + 1));
            }
            id = step_id(id, inc, Ghost(p.idstart as int), Ghost((k + x as int) * inc as int));
            proof {
                assert((k + x as int + 1) * inc == (k + x as int) * inc + inc) by {
                    vstd::arithmetic::mul::lemma_mul_is_distributive_add_other_way(
                        inc as int,
                        k + x as int,
                        1,
                    );
                }
            }
            y = y + 1;
        }
        id = step_id(
            id,
            inc,
            Ghost(p.idstart as int),
            Ghost(((x * yp) as int + yp as int + x as int) * inc as int),
        );
        proof {
            assert(((x * yp) as int + yp as int + x as int + 1) * inc == ((x * yp) as int
                + yp as int + x as int) * inc + inc) by {
                vstd::arithmetic::mul::lemma_mul_is_distributive_add_other_way(
                    inc as int,
                    (x * yp) as int + yp as int + x as int,
                    1,
                );
            }
            assert((x + 1) as int * yp as int == x as int * yp as int + yp as int) by {
                vstd::arithmetic::mul::lemma_mul_is_distributive_add_other_way(
                    yp as int,
                    x as int,
                    1,
                );
            }
        }
        x = x + 1;
    }
    proof {
        assert(points@ =~= grid_points(p));
        assert(ids@ =~= grid_ids(p));
    }
    (points, ids)
}

/// One id increment with 32-bit wraparound.
fn step_id(id: u32, inc: u32, base: Ghost<int>, count: Ghost<int>) -> (r: u32)
    requires
        0 <= base@,
        0 <= count@,
        id as int == (base@ + count@) % 0x1_0000_0000,
    ensures
        r as int == (base@ + count@ + inc) % 0x1_0000_0000,
{
    proof {
        vstd::arithmetic::div_mod::lemma_small_mod(inc as nat, 0x1_0000_0000nat);
        vstd::arithmetic::div_mod::lemma_add_mod_noop(base@ + count@, inc as int, 0x1_0000_0000);
    }
    id.wrapping_add(inc)
}


impl crate::component_tree::ComponentTreeNode {
    /// Recursively resolves the points of this subtree, exactly as
    /// [`transform_points`] says: `translations` and `rotations` are the
    /// deferred ancestor transform that the children's aggregated results
    /// still owe; a detector-like node never applies them to its own points.
    pub fn recursive_transform_points(
        &self,
        translations: &Vec<TranslationStep>,
        rotations: &Vec<Rotation>,
    ) -> (r: Result<(Vec<PlacedPoint>, Vec<u32>), IdfError>)
        requires
            self.wf(),
        ensures
            ({
                let tv = crate::bytemap::entries_view((*self.types).0.entries@);
                match transform_points(tv, crate::component_tree::node_view(*self), translations@, rotations@) {
                    Ok(pd) => r matches Ok(pair) && placed_views(pair.0@) == pd.0 && pair.1@ == pd.1,
                    Err(e) => r matches Err(err) && err@ == e,
                }
            }),
        decreases *self, 1int,
    {
        let ghost tv = crate::bytemap::entries_view((*self.types).0.entries@);
        let ghost nv = crate::component_tree::node_view(*self);
        proof {
            crate::component_tree::lemma_node_view(*self);
        }
        if self.component.is_root() {
            proof {
                assert(nv.component.type_ref.len() == 0);
            }
            let empty_t: Vec<TranslationStep> = Vec::new();
            let empty_r: Vec<Rotation> = Vec::new();
            let mut points: Vec<PlacedPoint> = Vec::new();
            let mut ids: Vec<u32> = Vec::new();
            match self.extend_points_with_children_points(
                &mut points,
                &mut ids,
                &empty_t,
                &empty_r,
                translations,
                rotations,
            ) {
                Ok(_) => {
                    proof {
                        match extend_children(tv, nv.children, 0, Seq::empty(), Seq::empty(), translations@, rotations@) {
                            Ok(pd) => {
                                assert(placed_views(points@) =~= pd.0);
                                assert(ids@ =~= pd.1);
                            },
                            Err(_) => {
                                assert(false);
                            },
                        }
                    }
                    return Ok((points, ids));
                },
                Err(e) => {
                    return Err(e);
                },
            }
        }
        proof {
            assert(self.component.type_ref@.len() != 0) by {
                if self.component.type_ref@.len() == 0 {
                    assert(self.component.type_ref@ =~= Seq::<u8>::empty());
                }
            }
            crate::component_tree::lemma_entries_lookup_map(
                (*self.types).0.entries@,
                self.component.type_ref@,
            );
        }
        let t = match self.types.get(self.component.type_ref.as_slice()) {
            Some(t) => t,
            None => {
                proof {
                    assert(false);
                }
                unreached()
            },
        };
        let ghost tspec = crate::component_tree::entries_lookup(tv, nv.component.type_ref)->Some_0;
        proof {
            assert(tspec == t@);
        }
        match t.special_type {
            crate::types::SpecialTypes::RectangularDetector => {
                self.rect_detector_points(t)
            },
            crate::types::SpecialTypes::Detector => {
                let mut points: Vec<PlacedPoint> = Vec::new();
                let ghost locs = nv.component.location;
                let ghost lss = nv.component.locations;
                let ln = self.component.location.len();
                let mut li: usize = 0;
                while li < ln
                    invariant
                        0 <= li <= ln,
                        ln == self.component.location@.len(),
                        locs == nv.component.location,
                        nv == crate::component_tree::node_view(*self),
                        locs.len() == ln,
                        forall|q: int|
                            0 <= q < ln ==> locs[q] == (#[trigger] self.component.location@[q])@,
                        placed_views(points@) + det_loc_points(locs, li as int) =~= det_loc_points(
                            locs,
                            0,
                        ),
                    decreases ln - li,
                {
                    let (ts, rs) = self.component.location[li].to_new_translations_and_rotations();
                    points.push(PlacedPoint { base: Vec3::zero(), steps: steps_vec(&ts, &rs) });
                    proof {
                        assert(det_loc_points(locs, li as int) =~= seq![
                            PlacedPointV {
                                base: zero_vec3(),
                                steps: steps_of(
                                    location_transforms(locs[li as int]).0,
                                    location_transforms(locs[li as int]).1,
                                ),
                            },
                        ] + det_loc_points(locs, li + 1 as int));
                        assert(placed_views(points@) + det_loc_points(locs, li + 1 as int)
                            =~= det_loc_points(locs, 0));
                    }
                    li = li + 1;
                }
                let bn = self.component.locations.len();
                let mut bi: usize = 0;
                while bi < bn
                    invariant
                        0 <= bi <= bn,
                        bn == self.component.locations@.len(),
                        lss == nv.component.locations,
                        nv == crate::component_tree::node_view(*self),
                        lss.len() == bn,
                        forall|q: int|
                            0 <= q < bn ==> lss[q] == (#[trigger] self.component.locations@[q])@,
                        placed_views(points@) + det_bulk_points(lss, bi as int, 0)
                            =~= det_loc_points(nv.component.location, 0) + det_bulk_points(
                            lss,
                            0,
                            0,
                        ),
                    decreases bn - bi,
                {
                    let ne = self.component.locations[bi].n_elements;
                    let mut e: u32 = 0;
                    while e < ne
                        invariant
                            0 <= e <= ne,
                            0 <= bi < bn,
                            bn == self.component.locations@.len(),
                            lss == nv.component.locations,
                            nv == crate::component_tree::node_view(*self),
                            lss.len() == bn,
                            ne == lss[bi as int].n_elements,
                            forall|q: int|
                                0 <= q < bn ==> lss[q] == (#[trigger] self.component.locations@[q])@,
                            placed_views(points@) + det_bulk_points(lss, bi as int, e)
                                =~= det_loc_points(nv.component.location, 0) + det_bulk_points(
                                lss,
                                0,
                                0,
                            ),
                        decreases ne - e,
                    {
                        let (ts, rs) = self.component.locations[bi].to_new_translations_and_rotations(e);
                        points.push(PlacedPoint { base: Vec3::zero(), steps: steps_vec(&ts, &rs) });
                        proof {
                            assert(det_bulk_points(lss, bi as int, e) =~= seq![
                                PlacedPointV {
                                    base: zero_vec3(),
                                    steps: steps_of(
                                        locations_transforms(lss[bi as int], e).0,
                                        locations_transforms(lss[bi as int], e).1,
                                    ),
                                },
                            ] + det_bulk_points(lss, bi as int, (e + 1) as u32));
                            assert(placed_views(points@) + det_bulk_points(lss, bi as int, (e + 1) as u32)
                                =~= det_loc_points(nv.component.location, 0) + det_bulk_points(lss, 0, 0));
                        }
                        e = e + 1;
                    }
                    bi = bi + 1;
                }
                let ids: Vec<u32> = Vec::new();
                proof {
                    assert(det_bulk_points(lss, bn as int, 0) =~= Seq::<PlacedPointV>::empty());
                    assert(placed_views(points@) =~= det_loc_points(nv.component.location, 0)
                        + det_bulk_points(nv.component.locations, 0, 0));
                    assert(ids@ =~= Seq::<u32>::empty());
                }
                Ok((points, ids))
            },
            crate::types::SpecialTypes::Plain => {
                if self.component.location.is_empty() && self.component.locations.is_empty() {
                    proof {
                        assert(nv.component.location.len() == 0);
                        assert(nv.component.locations.len() == 0);
                    }
                    if self.children.is_empty() {
                        proof {
                            assert(nv.children.len() == 0);
                        }
                        return Err(
                            IdfError::BareLeaf {
                                type_ref: vstd::slice::slice_to_vec(
                                    self.component.type_ref.as_slice(),
                                ),
                            },
                        );
                    }
                    let mut new_t: Vec<TranslationStep> = Vec::new();
                    new_t.push(TranslationStep::One(Translation::Cartesian(Vec3::zero())));
                    let mut new_r: Vec<Rotation> = Vec::new();
                    new_r.push(Rotation::default());
                    proof {
                        assert(new_t@ =~= seq![
                            TranslationStep::One(Translation::Cartesian(zero_vec3())),
                        ]);
                        assert(new_r@ =~= seq![default_rotation()]);
                    }
                    let mut points: Vec<PlacedPoint> = Vec::new();
                    let mut ids: Vec<u32> = Vec::new();
                    match self.extend_points_with_children_points(
                        &mut points,
                        &mut ids,
                        &new_t,
                        &new_r,
                        translations,
                        rotations,
                    ) {
                        Ok(_) => {
                            proof {
                                match extend_children(tv, nv.children, 0, new_t@, new_r@, translations@, rotations@) {
                                    Ok(pd) => {
                                        assert(placed_views(points@) =~= pd.0);
                                        assert(ids@ =~= pd.1);
                                    },
                                    Err(_) => {
                                        assert(false);
                                    },
                                }
                            }
                            Ok((points, ids))
                        },
                        Err(e) => Err(e),
                    }
                } else {
                    let mut points: Vec<PlacedPoint> = Vec::new();
                    let mut ids: Vec<u32> = Vec::new();
                    let ghost locs = nv.component.location;
                    let ghost lss = nv.component.locations;
                    let ln = self.component.location.len();
                    let mut li: usize = 0;
                    while li < ln
                        invariant
                            0 <= li <= ln,
                            ln == self.component.location@.len(),
                            locs == nv.component.location,
                            nv == crate::component_tree::node_view(*self),
                            tv == crate::bytemap::entries_view((*self.types).0.entries@),
                            self.wf(),
                            locs.len() == ln,
                            forall|q: int|
                                0 <= q < ln ==> locs[q] == (
                                #[trigger] self.component.location@[q])@,
                            cat_result(
                                placed_views(points@),
                                ids@,
                                container_locs(tv, nv.children, locs, li as int, translations@, rotations@),
                            ) == container_locs(tv, nv.children, locs, 0, translations@, rotations@),
                        decreases ln - li,
                    {
                        let (ts, rs) = self.component.location[li].to_new_translations_and_rotations();
                        let ghost pre_p = placed_views(points@);
                        let ghost pre_d = ids@;
                        match self.extend_points_with_children_points(
                            &mut points,
                            &mut ids,
                            &ts,
                            &rs,
                            translations,
                            rotations,
                        ) {
                            Ok(_) => {
                                proof {
                                    let tr = location_transforms(locs[li as int]);
                                    match extend_children(tv, nv.children, 0, tr.0, tr.1, translations@, rotations@) {
                                        Ok(pd) => {
                                            assert(placed_views(points@) =~= pre_p + pd.0);
                                            assert(ids@ =~= pre_d + pd.1);
                                            lemma_cat_cat(
                                                pre_p,
                                                pre_d,
                                                pd.0,
                                                pd.1,
                                                container_locs(tv, nv.children, locs, li + 1 as int, translations@, rotations@),
                                            );
                                        },
                                        Err(_) => {
                                            assert(false);
                                        },
                                    }
                                }
                            },
                            Err(e) => {
                                proof {
                                    assert(container_locs(tv, nv.children, locs, 0, translations@, rotations@)
                                        == Err::<(Seq<PlacedPointV>, Seq<u32>), IdfErrorV>(e@));
                                }
                                return Err(e);
                            },
                        }
                        li = li + 1;
                    }
                    let ghost locs_done = container_locs(tv, nv.children, locs, 0, translations@, rotations@);
                    proof {
                        assert(container_locs(tv, nv.children, locs, ln as int, translations@, rotations@)
                            == Ok::<(Seq<PlacedPointV>, Seq<u32>), IdfErrorV>((
                            Seq::<PlacedPointV>::empty(),
                            Seq::<u32>::empty(),
                        )));
                    }
                    let bn = self.component.locations.len();
                    let mut bi: usize = 0;
                    let mut e: u32 = 0;
                    while bi < bn
                        invariant
                            0 <= bi <= bn,
                            bn == self.component.locations@.len(),
                            lss == nv.component.locations,
                            nv == crate::component_tree::node_view(*self),
                            tv == crate::bytemap::entries_view((*self.types).0.entries@),
                            self.wf(),
                            lss.len() == bn,
                            forall|q: int|
                                0 <= q < bn ==> lss[q] == (
                                #[trigger] self.component.locations@[q])@,
                            bi < bn ==> 0 <= e <= lss[bi as int].n_elements,
                            bi == bn ==> e == 0,
                            cat_result(
                                placed_views(points@),
                                ids@,
                                container_bulk(tv, nv.children, lss, bi as int, e, translations@, rotations@),
                            ) == cat_result(
                                locs_done->Ok_0.0,
                                locs_done->Ok_0.1,
                                container_bulk(tv, nv.children, lss, 0, 0, translations@, rotations@),
                            ),
                            locs_done is Ok,
                        decreases bn - bi, (if bi < bn { self.component.locations@[bi as int].n_elements + 1 - e } else { 0int }),
                    {
                        let ne = self.component.locations[bi].n_elements;
                        proof {
                            assert(lss[bi as int].n_elements == ne);
                        }
                        if e >= ne {
                            bi = bi + 1;
                            e = 0;
                            continue;
                        }
                        let (ts, rs) = self.component.locations[bi].to_new_translations_and_rotations(e);
                        let ghost pre_p = placed_views(points@);
                        let ghost pre_d = ids@;
                        match self.extend_points_with_children_points(
                            &mut points,
                            &mut ids,
                            &ts,
                            &rs,
                            translations,
                            rotations,
                        ) {
                            Ok(_) => {
                                proof {
                                    let tr = locations_transforms(lss[bi as int], e);
                                    match extend_children(tv, nv.children, 0, tr.0, tr.1, translations@, rotations@) {
                                        Ok(pd) => {
                                            assert(placed_views(points@) =~= pre_p + pd.0);
                                            assert(ids@ =~= pre_d + pd.1);
                                            lemma_cat_cat(
                                                pre_p,
                                                pre_d,
                                                pd.0,
                                                pd.1,
                                                container_bulk(tv, nv.children, lss, bi as int, (e + 1) as u32, translations@, rotations@),
                                            );
                                        },
                                        Err(_) => {
                                            assert(false);
                                        },
                                    }
                                }
                            },
                            Err(err) => {
                                proof {
                                    assert(container_bulk(tv, nv.children, lss, 0, 0, translations@, rotations@)
                                        == Err::<(Seq<PlacedPointV>, Seq<u32>), IdfErrorV>(err@));
                                }
                                return Err(err);
                            },
                        }
                        e = e + 1;
                    }
                    proof {
                        assert(container_bulk(tv, nv.children, lss, bn as int, 0, translations@, rotations@)
                            == Ok::<(Seq<PlacedPointV>, Seq<u32>), IdfErrorV>((
                            Seq::<PlacedPointV>::empty(),
                            Seq::<u32>::empty(),
                        )));
                        let whole = cat_result(
                            locs_done->Ok_0.0,
                            locs_done->Ok_0.1,
                            container_bulk(tv, nv.children, lss, 0, 0, translations@, rotations@),
                        );
                        assert(whole is Ok);
                        assert(placed_views(points@) + Seq::<PlacedPointV>::empty() =~= placed_views(points@));
                        assert(ids@ + Seq::<u32>::empty() =~= ids@);
                        assert(whole == Ok::<(Seq<PlacedPointV>, Seq<u32>), IdfErrorV>((
                            placed_views(points@),
                            ids@,
                        )));
                    }
                    Ok((points, ids))
                }
            },
            _ => {
                let points: Vec<PlacedPoint> = Vec::new();
                let ids: Vec<u32> = Vec::new();
                proof {
                    assert(placed_views(points@) =~= Seq::<PlacedPointV>::empty());
                    assert(ids@ =~= Seq::<u32>::empty());
                }
                Ok((points, ids))
            },
        }
    }

    /// The grid of a rectangular detector: parameters from its type and
    /// component, one transformed grid copy per placement, exactly as
    /// [`rect_node_points`] says.
    fn rect_detector_points(&self, t: &crate::structs::Type) -> (r: Result<
        (Vec<PlacedPoint>, Vec<u32>),
        IdfError,
    >)
        requires
            self.wf(),
            t.wf(),
            t@ == crate::component_tree::entries_lookup(
                crate::bytemap::entries_view((*self.types).0.entries@),
                crate::component_tree::node_view(*self).component.type_ref,
            )->Some_0,
            crate::component_tree::entries_lookup(
                crate::bytemap::entries_view((*self.types).0.entries@),
                crate::component_tree::node_view(*self).component.type_ref,
            ) is Some,
        ensures
            match rect_node_points(t@, crate::component_tree::node_view(*self).component) {
                Ok(pd) => r matches Ok(pair) && placed_views(pair.0@) == pd.0 && pair.1@ == pd.1,
                Err(e) => r matches Err(err) && err@ == e,
            },
    {
        let ghost nv = crate::component_tree::node_view(*self);
        proof {
            crate::component_tree::lemma_node_view(*self);
            reveal_strlit("xstep");
            reveal_strlit("ystep");
        }
        let p = match rect_params(t, &self.component) {
            Ok(p) => p,
            Err(e) => {
                return Err(e);
            },
        };
        if !check_fits(p.xstart, p.xstep, p.xpixels) {
            let raw = match t.other_attributes.get(str_bytes("xstep")) {
                Some(v) => v,
                None => {
                    proof {
                        assert(false);
                    }
                    unreached()
                },
            };
            return Err(
                IdfError::AttributeDecode {
                    key: vstd::slice::slice_to_vec(str_bytes("xstep")),
                    value: vstd::slice::slice_to_vec(raw.as_slice()),
                },
            );
        }
        if !check_fits(p.ystart, p.ystep, p.ypixels) {
            let raw = match t.other_attributes.get(str_bytes("ystep")) {
                Some(v) => v,
                None => {
                    proof {
                        assert(false);
                    }
                    unreached()
                },
            };
            return Err(
                IdfError::AttributeDecode {
                    key: vstd::slice::slice_to_vec(str_bytes("ystep")),
                    value: vstd::slice::slice_to_vec(raw.as_slice()),
                },
            );
        }
        let (grid, gids) = synth_grid(p);
        let mut points: Vec<PlacedPoint> = Vec::new();
        let mut ids: Vec<u32> = Vec::new();
        let ghost locs = nv.component.location;
        let ln = self.component.location.len();
        let mut li: usize = 0;
        while li < ln
            invariant
                0 <= li <= ln,
                ln == self.component.location@.len(),
                locs == nv.component.location,
                nv == crate::component_tree::node_view(*self),
                locs.len() == ln,
                forall|q: int| 0 <= q < ln ==> locs[q] == (#[trigger] self.component.location@[q])@,
                grid@ == grid_points(p),
                gids@ == grid_ids(p),
                placed_views(points@) + rect_placed(p, locs, li as int) =~= rect_placed(p, locs, 0),
                ids@ + rect_repeated_ids(p, ln - li as int) =~= rect_repeated_ids(p, ln as int),
            decreases ln - li,
        {
            let (ts, rs) = self.component.location[li].to_new_translations_and_rotations();
            let steps = steps_vec(&ts, &rs);
            let ghost stepsv = steps_of(
                location_transforms(locs[li as int]).0,
                location_transforms(locs[li as int]).1,
            );
            proof {
                assert(steps@ == stepsv);
            }
            let ghost batch = grid_points(p).map_values(
                |g: Vec3| PlacedPointV { base: g, steps: stepsv },
            );
            let ghost pre_p = placed_views(points@);
            let ghost pre_d = ids@;
            let gn = grid.len();
            let mut gi: usize = 0;
            while gi < gn
                invariant
                    0 <= gi <= gn,
                    gn == grid@.len(),
                    grid@ == grid_points(p),
                    gids@ == grid_ids(p),
                    steps@ == stepsv,
                    batch == grid_points(p).map_values(
                        |g: Vec3| PlacedPointV { base: g, steps: stepsv },
                    ),
                    placed_views(points@) =~= pre_p + batch.take(gi as int),
                    ids@ =~= pre_d + grid_ids(p).take(gi as int),
                decreases gn - gi,
            {
                let ghost prev = points@;
                points.push(PlacedPoint { base: grid[gi], steps: copy_steps(&steps) });
                ids.push(gids[gi]);
                proof {
                    assert(batch[gi as int] == (PlacedPointV {
                        base: grid_points(p)[gi as int],
                        steps: stepsv,
                    }));
                    assert(points@.last()@ == batch[gi as int]);
                    assert(placed_views(points@) =~= placed_views(prev).push(batch[gi as int]));
                    assert(placed_views(points@) =~= pre_p + batch.take(gi + 1 as int));
                    assert(ids@ =~= pre_d + grid_ids(p).take(gi + 1 as int));
                }
                gi = gi + 1;
            }
            proof {
                assert(batch.take(gn as int) =~= batch);
                assert(grid_ids(p).take(gn as int) =~= grid_ids(p));
                assert(rect_placed(p, locs, li as int) =~= batch + rect_placed(p, locs, li + 1 as int));
                assert(placed_views(points@) + rect_placed(p, locs, li + 1 as int) =~= rect_placed(
                    p,
                    locs,
                    0,
                ));
                assert(rect_repeated_ids(p, ln - li as int) =~= grid_ids(p) + rect_repeated_ids(
                    p,
                    ln - li - 1 as int,
                ));
                assert(ids@ + rect_repeated_ids(p, ln - li - 1 as int) =~= rect_repeated_ids(
                    p,
                    ln as int,
                ));
            }
            li = li + 1;
        }
        proof {
            assert(rect_placed(p, locs, ln as int) =~= Seq::<PlacedPointV>::empty());
            assert(placed_views(points@) =~= rect_placed(p, locs, 0));
            assert(rect_repeated_ids(p, 0) =~= Seq::<u32>::empty());
            assert(ids@ =~= rect_repeated_ids(p, ln as int));
        }
        Ok((points, ids))
    }

    /// Recurses into every child with the new local transform, applies this
    /// node's own inherited transform to the children's aggregated results,
    /// and appends them, exactly as [`extend_children`] says.
    fn extend_points_with_children_points(
        &self,
        points: &mut Vec<PlacedPoint>,
        ids: &mut Vec<u32>,
        new_translations: &Vec<TranslationStep>,
        new_rotations: &Vec<Rotation>,
        translations: &Vec<TranslationStep>,
        rotations: &Vec<Rotation>,
    ) -> (r: Result<(), IdfError>)
        requires
            self.wf(),
        ensures
            ({
                let tv = crate::bytemap::entries_view((*self.types).0.entries@);
                let kids = crate::component_tree::node_view(*self).children;
                match extend_children(tv, kids, 0, new_translations@, new_rotations@, translations@, rotations@) {
                    Ok(pd) => r is Ok && placed_views(final(points)@) == placed_views(old(points)@)
                        + pd.0 && final(ids)@ == old(ids)@ + pd.1,
                    Err(e) => r matches Err(err) && err@ == e,
                }
            }),
        decreases *self, 0int,
    {
        let ghost tv = crate::bytemap::entries_view((*self.types).0.entries@);
        let ghost kids = crate::component_tree::node_view(*self).children;
        proof {
            crate::component_tree::lemma_node_view(*self);
        }
        let n = self.children.len();
        let mut i: usize = 0;
        while i < n
            invariant
                0 <= i <= n,
                n == self.children@.len(),
                self.wf(),
                tv == crate::bytemap::entries_view((*self.types).0.entries@),
                kids == crate::component_tree::node_view(*self).children,
                kids.len() == n,
                forall|q: int|
                    0 <= q < n ==> kids[q] == crate::component_tree::node_view(
                        *(#[trigger] self.children@[q]),
                    ),
                cat_result(
                    placed_views(points@),
                    ids@,
                    extend_children(tv, kids, i as int, new_translations@, new_rotations@, translations@, rotations@),
                ) == cat_result(
                    placed_views(old(points)@),
                    old(ids)@,
                    extend_children(tv, kids, 0, new_translations@, new_rotations@, translations@, rotations@),
                ),
            decreases n - i,
        {
            proof {
                assert(crate::component_tree::node_wf(*self.children@[i as int], *self.types));
                assert((*self.children@[i as int]).wf());
            }
            let child = &self.children[i];
            let (cp, ci) = match child.recursive_transform_points(
                new_translations,
                new_rotations,
            ) {
                Ok(pair) => pair,
                Err(e) => {
                    proof {
                        assert(extend_children(tv, kids, 0, new_translations@, new_rotations@, translations@, rotations@)
                            == Err::<(Seq<PlacedPointV>, Seq<u32>), IdfErrorV>(e@));
                    }
                    return Err(e);
                },
            };
            let ghost pre_p = placed_views(points@);
            let ghost pre_d = ids@;
            let ghost cpv = placed_views(cp@);
            let cn = cp.len();
            let mut j: usize = 0;
            while j < cn
                invariant
                    0 <= j <= cn,
                    cn == cp@.len(),
                    cpv == placed_views(cp@),
                    placed_views(points@) =~= pre_p + cpv.map_values(
                        |q: PlacedPointV| apply_pending(q, translations@, rotations@),
                    ).take(j as int),
                decreases cn - j,
            {
                let moved = PlacedPoint { base: cp[j].base, steps: copy_steps(&cp[j].steps) };
                let transformed = apply_pending_point(moved, translations, rotations);
                let ghost prev = points@;
                points.push(transformed);
                proof {
                    assert(cpv[j as int] == cp@[j as int]@);
                    assert(moved@ == cpv[j as int]);
                    assert(points@.last()@ == apply_pending(cpv[j as int], translations@, rotations@));
                    assert(placed_views(points@) =~= placed_views(prev).push(
                        apply_pending(cpv[j as int], translations@, rotations@),
                    ));
                    assert(cpv.map_values(
                        |q: PlacedPointV| apply_pending(q, translations@, rotations@),
                    )[j as int] == apply_pending(cpv[j as int], translations@, rotations@));
                    assert(placed_views(points@) =~= pre_p + cpv.map_values(
                        |q: PlacedPointV| apply_pending(q, translations@, rotations@),
                    ).take(j + 1 as int));
                }
                j = j + 1;
            }
            let dn = ci.len();
            let mut k: usize = 0;
            while k < dn
                invariant
                    0 <= k <= dn,
                    dn == ci@.len(),
                    ids@ =~= pre_d + ci@.take(k as int),
                decreases dn - k,
            {
                ids.push(ci[k]);
                proof {
                    assert(ids@ =~= pre_d + ci@.take(k + 1 as int));
                }
                k = k + 1;
            }
            proof {
                let mapped = cpv.map_values(
                    |q: PlacedPointV| apply_pending(q, translations@, rotations@),
                );
                assert(mapped.take(cn as int) =~= mapped);
                assert(ci@.take(dn as int) =~= ci@);
                assert(placed_views(points@) =~= pre_p + mapped);
                assert(ids@ =~= pre_d + ci@);
                match transform_points(tv, kids[i as int], new_translations@, new_rotations@) {
                    Ok(pd) => {
                        assert(pd.0 == cpv);
                        assert(pd.1 == ci@);
                        lemma_cat_cat(
                            pre_p,
                            pre_d,
                            mapped,
                            ci@,
                            extend_children(tv, kids, i + 1 as int, new_translations@, new_rotations@, translations@, rotations@),
                        );
                    },
                    Err(_) => {
                        assert(false);
                    },
                }
            }
            i = i + 1;
        }
        proof {
            assert(extend_children(tv, kids, n as int, new_translations@, new_rotations@, translations@, rotations@)
                == Ok::<(Seq<PlacedPointV>, Seq<u32>), IdfErrorV>((
                Seq::<PlacedPointV>::empty(),
                Seq::<u32>::empty(),
            )));
            assert(placed_views(points@) + Seq::<PlacedPointV>::empty() =~= placed_views(points@));
            assert(ids@ + Seq::<u32>::empty() =~= ids@);
        }
        Ok(())
    }

    /// The points of every detector-like node below this one, with no pending
    /// ancestor transform; the ids are dropped, as callers pairing them with
    /// an external id list use [`Self::recursive_transform_points`].
    pub fn get_special_type_points(&self) -> (r: Result<Vec<PlacedPoint>, IdfError>)
        requires
            self.wf(),
        ensures
            ({
                let tv = crate::bytemap::entries_view((*self.types).0.entries@);
                match transform_points(tv, crate::component_tree::node_view(*self), Seq::empty(), Seq::empty()) {
                    Ok(pd) => r matches Ok(ps) && placed_views(ps@) == pd.0,
                    Err(e) => r matches Err(err) && err@ == e,
                }
            }),
    {
        let translations: Vec<TranslationStep> = Vec::new();
        let rotations: Vec<Rotation> = Vec::new();
        proof {
            assert(translations@ =~= Seq::<TranslationStep>::empty());
            assert(rotations@ =~= Seq::<Rotation>::empty());
        }
        match self.recursive_transform_points(&translations, &rotations) {
            Ok((points, _ids)) => Ok(points),
            Err(e) => Err(e),
        }
    }
}

/// The exact cartesian value of a resolved point whose steps involve no
/// rotation and no spherical coordinates: every translation is added in
/// order, interpolated ones interpolating componentwise.  `None` when any
/// step needs trigonometry, or when a sum leaves the coordinate range.
pub open spec fn eval_cartesian_spec(p: PlacedPointV) -> Option<Vec3>
    decreases p.steps.len(),
{
    if p.steps.len() == 0 {
        Some(p.base)
    } else {
        match p.steps.first() {
            Step::Rotate(_) => None,
            Step::Translate(ts) => {
                let d = match ts {
                    TranslationStep::One(Translation::Cartesian(v)) => Some(v),
                    TranslationStep::One(Translation::Spherical(_)) => None,
                    TranslationStep::Lerp { start, end, num, den } => {
                        if (start is Cartesian) && (end is Cartesian) && 0 < den && num <= den {
                            Some(lerp3_spec(start->Cartesian_0, end->Cartesian_0, num, den))
                        } else {
                            None
                        }
                    },
                };
                match d {
                    None => None,
                    Some(v) => {
                        if i64::MIN <= p.base.x.micros + v.x.micros <= i64::MAX && i64::MIN
                            <= p.base.y.micros + v.y.micros <= i64::MAX && i64::MIN <= p.base.z.micros
                            + v.z.micros <= i64::MAX {
                            eval_cartesian_spec(
                                PlacedPointV {
                                    base: Vec3 {
                                        x: Fixed { micros: (p.base.x.micros + v.x.micros) as i64 },
                                        y: Fixed { micros: (p.base.y.micros + v.y.micros) as i64 },
                                        z: Fixed { micros: (p.base.z.micros + v.z.micros) as i64 },
                                    },
                                    steps: p.steps.drop_first(),
                                },
                            )
                        } else {
                            None
                        }
                    },
                }
            },
        }
    }
}

/// Evaluates a purely translational resolved point exactly, as
/// [`eval_cartesian_spec`] says; a point whose steps need trigonometry is
/// left to a numeric evaluator.
pub fn eval_cartesian(p: &PlacedPoint) -> (r: Option<Vec3>)
    ensures
        r == eval_cartesian_spec(p@),
    decreases p.steps@.len(),
{
    let mut base = p.base;
    let n = p.steps.len();
    let mut i: usize = 0;
    proof {
        assert(p.steps@.skip(0) =~= p.steps@);
        assert(p@ == (PlacedPointV { base, steps: p.steps@ }));
    }
    while i < n
        invariant
            0 <= i <= n,
            n == p.steps@.len(),
            eval_cartesian_spec(p@) == eval_cartesian_spec(
                PlacedPointV { base, steps: p.steps@.skip(i as int) },
            ),
        decreases n - i,
    {
        proof {
            assert(p.steps@.skip(i as int).first() == p.steps@[i as int]);
            assert(p.steps@.skip(i as int).drop_first() =~= p.steps@.skip(i + 1 as int));
        }
        let v: Vec3 = match p.steps[i] {
            Step::Rotate(_) => {
                return None;
            },
            Step::Translate(TranslationStep::One(Translation::Cartesian(v))) => v,
            Step::Translate(TranslationStep::One(Translation::Spherical(_))) => {
                return None;
            },
            Step::Translate(TranslationStep::Lerp { start, end, num, den }) => {
                match (start, end) {
                    (Translation::Cartesian(a), Translation::Cartesian(b)) => {
                        if 0 < den && num <= den {
                            lerp3(a, b, num, den)
                        } else {
                            return None;
                        }
                    },
                    _ => {
                        return None;
                    },
                }
            },
        };
        let bx = match base.x.micros.checked_add(v.x.micros) {
            Some(m) => m,
            None => {
                return None;
            },
        };
        let by = match base.y.micros.checked_add(v.y.micros) {
            Some(m) => m,
            None => {
                return None;
            },
        };
        let bz = match base.z.micros.checked_add(v.z.micros) {
            Some(m) => m,
            None => {
                return None;
            },
        };
        base = Vec3 { x: Fixed { micros: bx }, y: Fixed { micros: by }, z: Fixed { micros: bz } };
        i = i + 1;
    }
    proof {
        assert(p.steps@.skip(n as int) =~= Seq::<Step>::empty());
    }
    Some(base)
}

} // verus!
