//! Local illumination: ambient light plus, for every light that reaches the
//! shaded point, a diffuse and a specular term.
//!
//! All factors are fixed-point numbers in units of 1/65536. A product of three
//! of them is kept whole, at scale `UNIT`, and the sum over the lights is taken
//! of those whole products: the only rounding is the one that turns the total
//! into an 8-bit level.

use vstd::prelude::*;
use crate::colour::{level_of, quantise, Channel, Colour, Rgb, ONE, UNIT};
use crate::resolver::{intersect_nodes, nearest};
use crate::scene::{Intersection, LightSample, Material};

verus! {

/// A coefficient counts only where it is greater than this: one unit in the
/// last place, 1/65536.
pub const EPSILON: i32 = 1;

/// The absolute value.
pub open spec fn magnitude(v: int) -> int {
    if v < 0 {
        -v
    } else {
        v
    }
}

/// The light reaches the shaded point: nothing is hit along the shadow ray,
/// at whatever distance.
pub open spec fn reaches(light: LightSample) -> bool {
    nearest(light.shadow@) is None
}

/// What one light adds to the diffuse reflection in one channel, at scale
/// `UNIT`: material times coefficient times emission, where the light reaches
/// the point and the coefficient is above the threshold.
pub open spec fn diffuse_of(mat: Material, light: LightSample, ch: Channel) -> int {
    if reaches(light) && light.diffuse > EPSILON {
        mat.diffuse.get(ch) * light.diffuse * light.colour.get(ch)
    } else {
        0
    }
}

/// What one light adds to the highlight in one channel, at scale `UNIT`:
/// material times the magnitude of the coefficient times emission, where the
/// light reaches the point and that magnitude is above the threshold.
pub open spec fn specular_of(mat: Material, light: LightSample, ch: Channel) -> int {
    if reaches(light) && magnitude(light.highlight as int) > EPSILON {
        mat.specular.get(ch) * magnitude(light.highlight as int) * light.colour.get(ch)
    } else {
        0
    }
}

/// The diffuse terms of all lights, summed.
pub open spec fn diffuse_sum(mat: Material, lights: Seq<LightSample>, ch: Channel) -> int
    decreases lights.len(),
{
    if lights.len() == 0 {
        0
    } else {
        diffuse_sum(mat, lights.drop_last(), ch) + diffuse_of(mat, lights.last(), ch)
    }
}

/// The specular terms of all lights, summed.
pub open spec fn specular_sum(mat: Material, lights: Seq<LightSample>, ch: Channel) -> int
    decreases lights.len(),
{
    if lights.len() == 0 {
        0
    } else {
        specular_sum(mat, lights.drop_last(), ch) + specular_of(mat, lights.last(), ch)
    }
}

/// The ambient term in one channel, at scale `UNIT`: ambient light times the
/// material's diffuse reflectance.
pub open spec fn ambient_of(mat: Material, amb: Rgb, ch: Channel) -> int {
    amb.get(ch) * mat.diffuse.get(ch) * ONE
}

/// What the lights add in one channel, diffuse and specular together.
spec fn lit_sum(mat: Material, lights: Seq<LightSample>, ch: Channel) -> int {
    diffuse_sum(mat, lights, ch) + specular_sum(mat, lights, ch)
}

/// The radiance that leaves the shaded point in one channel, at scale `UNIT`:
/// the diffuse sum, the specular sum and the ambient term.
pub open spec fn radiance(mat: Material, amb: Rgb, lights: Seq<LightSample>, ch: Channel) -> int {
    diffuse_sum(mat, lights, ch) + specular_sum(mat, lights, ch) + ambient_of(mat, amb, ch)
}

/// The colour of a surface of material `mat` under the given lights.
pub open spec fn shaded(mat: Material, amb: Rgb, lights: Seq<LightSample>) -> Colour {
    Colour {
        r: level_of(radiance(mat, amb, lights, Channel::Red)) as u8,
        g: level_of(radiance(mat, amb, lights, Channel::Green)) as u8,
        b: level_of(radiance(mat, amb, lights, Channel::Blue)) as u8,
    }
}

/// The colour that a ray brings back: the background where it hits nothing,
/// else the shaded colour of the nearest primitive that it hits.
pub open spec fn traced(
    reports: Seq<Option<Intersection>>,
    amb: Rgb,
    lights: Seq<LightSample>,
) -> Colour {
    match nearest(reports) {
        None => Colour::background(),
        Some(hit) => shaded(hit.primitive.mat, amb, lights),
    }
}

/// A radiance held at `UNIT`: all that lies above is stored as the same level.
spec fn capped(v: int) -> int {
    if v >= UNIT {
        UNIT as int
    } else {
        v
    }
}

/// The absolute value of a coefficient, which always fits the unsigned type.
fn magnitude_of(v: i32) -> (m: u32)
    ensures
        m as int == magnitude(v as int),
{
    if v < 0 {
        let wide: i64 = -(v as i64);
        wide as u32
    } else {
        v as u32
    }
}

/// The product of three factors, whole.
fn product(m: u32, k: u32, l: u32) -> (p: u128)
    ensures
        p as int == (m as int) * (k as int) * (l as int),
        p <= 0xffff_ffff_ffff_ffff_ffff_ffff,
{
    assert(0 <= (m as int) * (k as int) <= 0xffff_ffff * 0xffff_ffff) by (nonlinear_arith)
        requires
            0 <= m <= 0xffff_ffff,
            0 <= k <= 0xffff_ffff,
    ;
    let mk: u64 = (m as u64) * (k as u64);
    assert(0 <= (mk as int) * (l as int) <= 0xffff_ffff * 0xffff_ffff * 0xffff_ffff)
        by (nonlinear_arith)
        requires
            0 <= mk <= 0xffff_ffff * 0xffff_ffff,
            0 <= l <= 0xffff_ffff,
    ;
    let p: u128 = (mk as u128) * (l as u128);
    p
}

/// What one light adds to one channel, diffuse and specular together.
fn contribution(mat: &Material, light: &LightSample, lit: bool, ch: Channel) -> (t: u128)
    requires
        lit == reaches(*light),
    ensures
        t as int == diffuse_of(*mat, *light, ch) + specular_of(*mat, *light, ch),
        t <= 2 * 0xffff_ffff_ffff_ffff_ffff_ffff,
{
    if !lit {
        return 0;
    }
    let emitted: u32 = light.colour.channel(ch);
    let diffuse: u128 = if light.diffuse > EPSILON {
        product(mat.diffuse.channel(ch), light.diffuse as u32, emitted)
    } else {
        0
    };
    let gloss: u32 = magnitude_of(light.highlight);
    let specular: u128 = if gloss > EPSILON as u32 {
        product(mat.specular.channel(ch), gloss, emitted)
    } else {
        0
    };
    diffuse + specular
}

/// Adds to a capped radiance, and caps again.
fn accumulate(acc: u128, term: u128) -> (sum: u128)
    requires
        acc <= UNIT,
        term <= 2 * 0xffff_ffff_ffff_ffff_ffff_ffff,
    ensures
        sum as int == capped(acc + term),
{
    let sum: u128 = acc + term;
    if sum >= UNIT {
        UNIT
    } else {
        sum
    }
}

/// The ambient term of one channel.
fn ambient(mat: &Material, amb: &Rgb, ch: Channel) -> (t: u128)
    ensures
        t as int == ambient_of(*mat, *amb, ch),
        t <= 0xffff_ffff_ffff_ffff_ffff_ffff,
{
    product(amb.channel(ch), mat.diffuse.channel(ch), ONE)
}

/// Evaluates the colour that a ray brings back.
///
/// `reports` holds what each primitive of the scene reports for the ray,
/// `amb` the ambient light, and `lights` each light as seen from the point
/// where the ray first hits. Where the ray hits nothing the lights are not
/// looked at, and the result is the background.
pub fn trace(reports: &Vec<Option<Intersection>>, amb: &Rgb, lights: &Vec<LightSample>) -> (c:
    Colour)
    ensures
        c == traced(reports@, *amb, lights@),
        nearest(reports@) is None ==> c == Colour::background(),
{
    match intersect_nodes(reports) {
        None => Colour::background(),
        Some(hit) => {
            let mat: Material = hit.primitive.mat;
            let mut red: u128 = 0;
            let mut green: u128 = 0;
            let mut blue: u128 = 0;
            let mut i: usize = 0;
            while i < lights.len()
                invariant
                    i <= lights.len(),
                    lit_sum(mat, lights@.take(i as int), Channel::Red) >= 0,
                    lit_sum(mat, lights@.take(i as int), Channel::Green) >= 0,
                    lit_sum(mat, lights@.take(i as int), Channel::Blue) >= 0,
                    red as int == capped(lit_sum(mat, lights@.take(i as int), Channel::Red)),
                    green as int == capped(lit_sum(mat, lights@.take(i as int), Channel::Green)),
                    blue as int == capped(lit_sum(mat, lights@.take(i as int), Channel::Blue)),
                decreases lights.len() - i,
            {
                let light: &LightSample = &lights[i];
                let lit: bool = intersect_nodes(&light.shadow).is_none();
                proof {
                    assert(lights@.take(i + 1).drop_last() =~= lights@.take(i as int));
                    assert(lights@.take(i + 1).last() == lights@[i as int]);
                }
                red = accumulate(red, contribution(&mat, light, lit, Channel::Red));
                green = accumulate(green, contribution(&mat, light, lit, Channel::Green));
                blue = accumulate(blue, contribution(&mat, light, lit, Channel::Blue));
                i = i + 1;
            }
            proof {
                assert(lights@.take(lights.len() as int) =~= lights@);
            }
            let r: u8 = quantise(accumulate(red, ambient(&mat, amb, Channel::Red)));
            let g: u8 = quantise(accumulate(green, ambient(&mat, amb, Channel::Green)));
            let b: u8 = quantise(accumulate(blue, ambient(&mat, amb, Channel::Blue)));
            Colour { r, g, b }
        },
    }
}

/// A light whose shadow ray hits a primitive adds nothing to the point,
/// neither to the diffuse reflection nor to the highlight.
pub proof fn lemma_occluded_light_adds_nothing(mat: Material, light: LightSample, ch: Channel)
    requires
        nearest(light.shadow@) is Some,
    ensures
        diffuse_of(mat, light, ch) == 0,
        specular_of(mat, light, ch) == 0,
{
}

/// The sums over all lights are the sums over all lights but one, plus the
/// terms of that one.
pub proof fn lemma_sums_without(mat: Material, lights: Seq<LightSample>, i: int, ch: Channel)
    requires
        0 <= i < lights.len(),
    ensures
        diffuse_sum(mat, lights, ch) == diffuse_sum(mat, lights.remove(i), ch) + diffuse_of(
            mat,
            lights[i],
            ch,
        ),
        specular_sum(mat, lights, ch) == specular_sum(mat, lights.remove(i), ch) + specular_of(
            mat,
            lights[i],
            ch,
        ),
    decreases lights.len(),
{
    if i == lights.len() - 1 {
        assert(lights.remove(i) =~= lights.drop_last());
    } else {
        lemma_sums_without(mat, lights.drop_last(), i, ch);
        assert(lights.remove(i).drop_last() =~= lights.drop_last().remove(i));
        assert(lights.remove(i).last() == lights.last());
    }
}

/// Taking a light that is blocked out of the scene changes no colour.
pub proof fn lemma_occluded_light_changes_nothing(
    reports: Seq<Option<Intersection>>,
    amb: Rgb,
    lights: Seq<LightSample>,
    i: int,
)
    requires
        0 <= i < lights.len(),
        nearest(lights[i].shadow@) is Some,
    ensures
        traced(reports, amb, lights) == traced(reports, amb, lights.remove(i)),
{
    if nearest(reports) is Some {
        let mat = nearest(reports)->0.primitive.mat;
        lemma_sums_without(mat, lights, i, Channel::Red);
        lemma_sums_without(mat, lights, i, Channel::Green);
        lemma_sums_without(mat, lights, i, Channel::Blue);
    }
}

/// Where every light is blocked, the lights add nothing.
pub proof fn lemma_all_occluded(mat: Material, lights: Seq<LightSample>, ch: Channel)
    requires
        forall|i: int| 0 <= i < lights.len() ==> nearest((#[trigger] lights[i]).shadow@) is Some,
    ensures
        diffuse_sum(mat, lights, ch) == 0,
        specular_sum(mat, lights, ch) == 0,
    decreases lights.len(),
{
    if lights.len() > 0 {
        let rest = lights.drop_last();
        assert forall|i: int| 0 <= i < rest.len() implies nearest((#[trigger] rest[i]).shadow@)
            is Some by {
            assert(rest[i] == lights[i]);
        }
        lemma_all_occluded(mat, rest, ch);
        assert(lights.last() == lights[lights.len() - 1]);
    }
}

/// The level of a surface that only ambient light reaches: 255 times ambient
/// intensity times diffuse reflectance, rounded down and held at 255. The two
/// factors `a` and `m` are in units of 1/65536.
pub open spec fn ambient_level(a: int, m: int) -> int {
    let scaled = (255 * (a * m)) / (ONE as int * ONE as int);
    if scaled > 255 {
        255
    } else {
        scaled
    }
}

/// In a scene without lights, or where every light is blocked, a ray that hits
/// a primitive brings back the ambient light times the primitive's diffuse
/// reflectance, channel by channel.
pub proof fn lemma_ambient_only(
    reports: Seq<Option<Intersection>>,
    amb: Rgb,
    lights: Seq<LightSample>,
)
    requires
        nearest(reports) is Some,
        forall|i: int| 0 <= i < lights.len() ==> nearest((#[trigger] lights[i]).shadow@) is Some,
    ensures
        traced(reports, amb, lights).r == ambient_level(
            amb.r as int,
            nearest(reports)->0.primitive.mat.diffuse.r as int,
        ),
        traced(reports, amb, lights).g == ambient_level(
            amb.g as int,
            nearest(reports)->0.primitive.mat.diffuse.g as int,
        ),
        traced(reports, amb, lights).b == ambient_level(
            amb.b as int,
            nearest(reports)->0.primitive.mat.diffuse.b as int,
        ),
{
    let mat = nearest(reports)->0.primitive.mat;
    lemma_all_occluded(mat, lights, Channel::Red);
    lemma_all_occluded(mat, lights, Channel::Green);
    lemma_all_occluded(mat, lights, Channel::Blue);
    lemma_ambient_level(amb.r as int, mat.diffuse.r as int);
    lemma_ambient_level(amb.g as int, mat.diffuse.g as int);
    lemma_ambient_level(amb.b as int, mat.diffuse.b as int);
}

/// The level of the ambient term alone, in its short form.
proof fn lemma_ambient_level(a: int, m: int)
    requires
        0 <= a,
        0 <= m,
    ensures
        level_of(a * m * ONE) == ambient_level(a, m),
{
    let x = a * m;
    assert(0 <= x) by (nonlinear_arith)
        requires
            0 <= a,
            0 <= m,
            x == a * m,
    ;
    assert((x * 65536 * 255) / 281474976710656 == (255 * x) / 4294967296);
}

} // verus!
