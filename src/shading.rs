use vstd::prelude::*;
use crate::color::{Color, Factor, color_scaled, color_sum};

verus! {

/// How many bounces a primary ray is followed for.
pub const MAX_DEPTH: u32 = 4;

/// How a surface responds to light. The coefficients are fixed-point factors; the
/// reflection and refraction coefficients are meant to lie in `[0, 1]` and the
/// refractive index to be at least one, though nothing here depends on that.
#[derive(Clone, Copy, Debug, PartialEq, Eq, Structural)]
pub struct Material {
    pub base_color: Color,
    pub diffuse_reflection: Factor,
    pub specular_reflection: Factor,
    pub specular_exp: Factor,
    pub reflectiveness: Factor,
    pub refractiveness: Factor,
    pub refractive_index: Factor,
}

impl Material {
    pub fn new(
        color: Color,
        diffuse_reflection: Factor,
        specular_reflection: Factor,
        specular_exp: Factor,
        reflectiveness: Factor,
        refractiveness: Factor,
        refractive_index: Factor,
    ) -> (m: Material)
        ensures
            m == (Material {
                base_color: color,
                diffuse_reflection,
                specular_reflection,
                specular_exp,
                reflectiveness,
                refractiveness,
                refractive_index,
            }),
    {
        Material {
            base_color: color,
            diffuse_reflection,
            specular_reflection,
            specular_exp,
            reflectiveness,
            refractiveness,
            refractive_index,
        }
    }
}

impl Default for Material {
    /// Black, purely diffuse, neither reflective nor refractive, refractive index one.
    fn default() -> (m: Material)
        ensures
            m == (Material {
                base_color: Color { r: 0, g: 0, b: 0, a: 255 },
                diffuse_reflection: Factor { milli: 1000 },
                specular_reflection: Factor { milli: 0 },
                specular_exp: Factor { milli: 0 },
                reflectiveness: Factor { milli: 0 },
                refractiveness: Factor { milli: 0 },
                refractive_index: Factor { milli: 1000 },
            }),
    {
        Material {
            base_color: Color { r: 0, g: 0, b: 0, a: 255 },
            diffuse_reflection: Factor { milli: 1000 },
            specular_reflection: Factor { milli: 0 },
            specular_exp: Factor { milli: 0 },
            reflectiveness: Factor { milli: 0 },
            refractiveness: Factor { milli: 0 },
            refractive_index: Factor { milli: 1000 },
        }
    }
}

/// The color of a ray that leaves the scene, or that is no longer followed.
pub open spec fn background() -> Color {
    Color { r: 155, g: 200, b: 100, a: 255 }
}

/// The fixed background color.
pub fn background_color() -> (c: Color)
    ensures
        c == background(),
{
    Color::RGB(155, 200, 100)
}

/// What one light gives a shaded point: its intensity weighted by the Lambert
/// term, and by the specular highlight term.
#[derive(Clone, Copy, Debug, PartialEq, Eq, Structural)]
pub struct LightTerm {
    pub diffuse: Factor,
    pub specular: Factor,
}

/// Sum of the diffuse terms of the lights that reach the point; `None` is a light
/// that something blocks.
pub open spec fn diffuse_total(s: Seq<Option<LightTerm>>) -> int
    decreases s.len(),
{
    if s.len() == 0 {
        0
    } else {
        diffuse_total(s.drop_last()) + match s.last() {
            Some(t) => t.diffuse.milli as int,
            None => 0,
        }
    }
}

/// Sum of the specular terms of the lights that reach the point.
pub open spec fn specular_total(s: Seq<Option<LightTerm>>) -> int
    decreases s.len(),
{
    if s.len() == 0 {
        0
    } else {
        specular_total(s.drop_last()) + match s.last() {
            Some(t) => t.specular.milli as int,
            None => 0,
        }
    }
}

/// A total as a factor, held at the largest factor when it is larger. Every factor
/// above 255 already scales a color as the largest one does
/// (`lemma_large_factors_scale_alike`).
pub open spec fn capped(v: int) -> u32 {
    if v > u32::MAX {
        u32::MAX
    } else {
        v as u32
    }
}

proof fn lemma_totals_nonnegative(s: Seq<Option<LightTerm>>)
    ensures
        diffuse_total(s) >= 0,
        specular_total(s) >= 0,
    decreases s.len(),
{
    if s.len() > 0 {
        lemma_totals_nonnegative(s.drop_last());
    }
}

/// Adds up what the unblocked lights give; blocked ones give nothing.
pub fn light_totals(samples: &Vec<Option<LightTerm>>) -> (t: LightTerm)
    ensures
        t.diffuse.milli == capped(diffuse_total(samples@)),
        t.specular.milli == capped(specular_total(samples@)),
{
    let cap: u64 = u32::MAX as u64;
    let mut diffuse: u64 = 0;
    let mut specular: u64 = 0;
    let mut i: usize = 0;
    while i < samples.len()
        invariant
            i <= samples@.len(),
            cap == u32::MAX,
            diffuse == capped(diffuse_total(samples@.take(i as int))),
            specular == capped(specular_total(samples@.take(i as int))),
        decreases samples@.len() - i,
    {
        proof {
            let p = samples@.take(i as int + 1);
            assert(p.drop_last() == samples@.take(i as int));
            assert(p.last() == samples@[i as int]);
            lemma_totals_nonnegative(samples@.take(i as int));
            assert(diffuse_total(p) == diffuse_total(samples@.take(i as int)) + match samples@[i as int] {
                Some(t) => t.diffuse.milli as int,
                None => 0,
            });
            assert(specular_total(p) == specular_total(samples@.take(i as int)) + match samples@[i as int] {
                Some(t) => t.specular.milli as int,
                None => 0,
            });
        }
        if let Some(term) = samples[i] {
            diffuse = diffuse + term.diffuse.milli as u64;
            if diffuse > cap {
                diffuse = cap;
            }
            specular = specular + term.specular.milli as u64;
            if specular > cap {
                specular = cap;
            }
        }
        i = i + 1;
    }
    assert(samples@.take(samples@.len() as int) == samples@);
    LightTerm { diffuse: Factor { milli: diffuse as u32 }, specular: Factor { milli: specular as u32 } }
}

/// The color of a lit point: the base color under the diffuse light, white under the
/// specular light, and the reflected and refracted colors, each weighted by the
/// material's coefficient and added channel by channel.
pub open spec fn surface_color(
    m: Material,
    lights: LightTerm,
    reflect_color: Color,
    refract_color: Color,
) -> Color {
    let white = Color { r: 255, g: 255, b: 255, a: 255 };
    let diffuse = color_scaled(color_scaled(m.base_color, lights.diffuse), m.diffuse_reflection);
    let specular = color_scaled(color_scaled(white, lights.specular), m.specular_reflection);
    let reflected = color_scaled(reflect_color, m.reflectiveness);
    let refracted = color_scaled(refract_color, m.refractiveness);
    color_sum(color_sum(color_sum(diffuse, specular), reflected), refracted)
}

/// Combines the four terms of a lit point.
pub fn shade_hit(material: &Material, lights: LightTerm, reflect_color: Color, refract_color: Color) -> (c:
    Color)
    ensures
        c == surface_color(*material, lights, reflect_color, refract_color),
{
    let diffuse = material.base_color * lights.diffuse * material.diffuse_reflection;
    let specular = Color::RGB(255, 255, 255) * lights.specular * material.specular_reflection;
    let reflected = reflect_color * material.reflectiveness;
    let refracted = refract_color * material.refractiveness;
    diffuse + specular + reflected + refracted
}

/// A light that something blocks adds nothing: the totals are those of the other
/// lights alone.
pub proof fn lemma_blocked_light_adds_nothing(s: Seq<Option<LightTerm>>, i: int)
    requires
        0 <= i < s.len(),
        s[i] is None,
    ensures
        diffuse_total(s) == diffuse_total(s.remove(i)),
        specular_total(s) == specular_total(s.remove(i)),
    decreases s.len(),
{
    if i == s.len() - 1 {
        assert(s.remove(i) == s.drop_last());
    } else {
        let r = s.remove(i);
        assert(r.drop_last() == s.drop_last().remove(i));
        assert(r.last() == s.last());
        lemma_blocked_light_adds_nothing(s.drop_last(), i);
    }
}

/// The geometry that shading runs on: what a ray hits first, the rays that leave a
/// hit point, and what each light gives there. Each query is a function of the
/// tracer and its arguments alone; the functions ending in `_of` name that function,
/// and each method returns its value. How the answers are combined, and how deep rays
/// are followed, is decided by `cast_ray`.
pub trait RayTracer {
    type Ray;

    type Hit;

    spec fn nearest_of(&self, ray: Self::Ray) -> Option<Self::Hit>;

    spec fn material_of(&self, hit: Self::Hit) -> Material;

    spec fn reflected_of(&self, ray: Self::Ray, hit: Self::Hit) -> Self::Ray;

    spec fn refracted_of(&self, ray: Self::Ray, hit: Self::Hit) -> Self::Ray;

    spec fn lights_of(&self) -> usize;

    spec fn term_of(&self, ray: Self::Ray, hit: Self::Hit, light: usize) -> Option<LightTerm>;

    spec fn primary_of(&self, x: usize, y: usize) -> Self::Ray;

    /// The nearest hit along `ray`, if there is one.
    fn nearest_hit(&self, ray: &Self::Ray) -> (r: Option<Self::Hit>)
        ensures
            r == self.nearest_of(*ray),
    ;

    /// The material of the surface at a hit.
    fn hit_material(&self, hit: &Self::Hit) -> (r: Material)
        ensures
            r == self.material_of(*hit),
    ;

    /// The mirror reflection of `ray` at `hit`.
    fn reflected_ray(&self, ray: &Self::Ray, hit: &Self::Hit) -> (r: Self::Ray)
        ensures
            r == self.reflected_of(*ray, *hit),
    ;

    /// The refraction of `ray` at `hit`.
    fn refracted_ray(&self, ray: &Self::Ray, hit: &Self::Hit) -> (r: Self::Ray)
        ensures
            r == self.refracted_of(*ray, *hit),
    ;

    /// How many lights the scene has.
    fn light_count(&self) -> (r: usize)
        ensures
            r == self.lights_of(),
    ;

    /// What light number `light` gives at `hit` as seen along `ray`; `None` when
    /// something lies between the hit point and the light.
    fn light_term(&self, ray: &Self::Ray, hit: &Self::Hit, light: usize) -> (r: Option<LightTerm>)
        ensures
            r == self.term_of(*ray, *hit, light),
    ;

    /// The ray through the center of pixel `(x, y)`.
    fn primary_ray(&self, x: usize, y: usize) -> (r: Self::Ray)
        ensures
            r == self.primary_of(x, y),
    ;
}

/// What each light of the scene gives at `hit`, in the order of the lights.
pub open spec fn samples_of<T: RayTracer>(t: &T, ray: T::Ray, hit: T::Hit) -> Seq<Option<LightTerm>> {
    Seq::new(t.lights_of() as nat, |i: int| t.term_of(ray, hit, i as usize))
}

/// The color seen along `ray` when reflections and refractions are followed `depth`
/// deep: the background once no depth is left or when nothing is hit; otherwise the
/// color of the nearest hit under the lights that reach it, with the colors of its
/// reflected and refracted rays one level less deep.
pub open spec fn shade_spec<T: RayTracer>(t: &T, ray: T::Ray, depth: nat) -> Color
    decreases depth,
{
    if depth == 0 {
        background()
    } else {
        match t.nearest_of(ray) {
            None => background(),
            Some(h) => hit_color(
                t.material_of(h),
                samples_of(t, ray, h),
                shade_spec(t, t.reflected_of(ray, h), (depth - 1) as nat),
                shade_spec(t, t.refracted_of(ray, h), (depth - 1) as nat),
            ),
        }
    }
}

/// In a scene where no ray hits anything, every ray has the background color.
pub proof fn lemma_empty_scene_is_background<T: RayTracer>(t: &T, ray: T::Ray, depth: nat)
    requires
        forall|r: T::Ray| #[trigger] t.nearest_of(r) is None,
    ensures
        shade_spec(t, ray, depth) == background(),
{
}

/// A light that something blocks at a hit leaves the color there as the other
/// lights alone make it.
pub proof fn lemma_blocked_light_keeps_shade<T: RayTracer>(t: &T, ray: T::Ray, depth: nat, i: int)
    requires
        depth > 0,
        t.nearest_of(ray) is Some,
        0 <= i < t.lights_of(),
        t.term_of(ray, t.nearest_of(ray)->0, i as usize) is None,
    ensures
        ({
            let h = t.nearest_of(ray)->0;
            shade_spec(t, ray, depth) == hit_color(
                t.material_of(h),
                samples_of(t, ray, h).remove(i),
                shade_spec(t, t.reflected_of(ray, h), (depth - 1) as nat),
                shade_spec(t, t.refracted_of(ray, h), (depth - 1) as nat),
            )
        }),
{
    let h = t.nearest_of(ray)->0;
    lemma_blocked_light_keeps_color(
        t.material_of(h),
        samples_of(t, ray, h),
        i,
        shade_spec(t, t.reflected_of(ray, h), (depth - 1) as nat),
        shade_spec(t, t.refracted_of(ray, h), (depth - 1) as nat),
    );
}

/// Every color a ray is given is opaque.
pub proof fn lemma_shade_opaque<T: RayTracer>(t: &T, ray: T::Ray, depth: nat)
    ensures
        shade_spec(t, ray, depth).a == 255,
{
}

/// The totals of a list of light samples, as `light_totals` gives them.
pub open spec fn totals_of(s: Seq<Option<LightTerm>>) -> LightTerm {
    LightTerm {
        diffuse: Factor { milli: capped(diffuse_total(s)) },
        specular: Factor { milli: capped(specular_total(s)) },
    }
}

/// The color of a hit: its material lit by the given light samples, with the colors
/// of its reflected and refracted rays.
pub open spec fn hit_color(
    m: Material,
    samples: Seq<Option<LightTerm>>,
    reflect_color: Color,
    refract_color: Color,
) -> Color {
    surface_color(m, totals_of(samples), reflect_color, refract_color)
}

/// Every color that shading gives is opaque.
pub proof fn lemma_hit_color_opaque(
    m: Material,
    samples: Seq<Option<LightTerm>>,
    reflect_color: Color,
    refract_color: Color,
)
    ensures
        hit_color(m, samples, reflect_color, refract_color).a == 255,
        background().a == 255,
{
}

/// A light that something blocks leaves the color of a hit as the other lights alone
/// make it.
pub proof fn lemma_blocked_light_keeps_color(
    m: Material,
    samples: Seq<Option<LightTerm>>,
    i: int,
    reflect_color: Color,
    refract_color: Color,
)
    requires
        0 <= i < samples.len(),
        samples[i] is None,
    ensures
        hit_color(m, samples, reflect_color, refract_color) == hit_color(
            m,
            samples.remove(i),
            reflect_color,
            refract_color,
        ),
{
    lemma_blocked_light_adds_nothing(samples, i);
}

/// The color of a hit with material `material`, given what each light gives there and
/// the colors seen along its reflected and refracted rays.
pub fn shade_lit(
    material: &Material,
    samples: &Vec<Option<LightTerm>>,
    reflect_color: Color,
    refract_color: Color,
) -> (c: Color)
    ensures
        c == hit_color(*material, samples@, reflect_color, refract_color),
{
    shade_hit(material, light_totals(samples), reflect_color, refract_color)
}

/// The color seen along `ray`, following reflections and refractions `depth` deep.
/// A ray that is no longer followed has the background color; otherwise its color is
/// the one `shade_nearest` gives for the nearest hit along it.
pub fn cast_ray<T: RayTracer>(tracer: &T, ray: &T::Ray, depth: u32) -> (c: Color)
    ensures
        c == shade_spec(tracer, *ray, depth as nat),
        depth == 0 ==> c == background(),
        c.a == 255,
    decreases depth, 1nat,
{
    if depth == 0 {
        return background_color();
    }
    let nearest = tracer.nearest_hit(ray);
    shade_nearest(tracer, ray, nearest, depth)
}

/// The color of `ray` given what it hits first. With no hit, or with no depth left,
/// it is the background color. A hit has the color `shade_lit` gives for its material,
/// what each light gives there, and the colors that `cast_ray` finds one level less
/// deep along its reflected and refracted rays.
pub fn shade_nearest<T: RayTracer>(tracer: &T, ray: &T::Ray, nearest: Option<T::Hit>, depth: u32) -> (c:
    Color)
    ensures
        depth == 0 ==> c == background(),
        nearest is None ==> c == background(),
        nearest == tracer.nearest_of(*ray) ==> c == shade_spec(tracer, *ray, depth as nat),
        c.a == 255,
    decreases depth, 0nat,
{
    match nearest {
        None => background_color(),
        Some(hit) => {
            if depth == 0 {
                return background_color();
            }
            let material = tracer.hit_material(&hit);
            let refract_ray = tracer.refracted_ray(ray, &hit);
            let refract_color = cast_ray(tracer, &refract_ray, depth - 1);
            let reflect_ray = tracer.reflected_ray(ray, &hit);
            let reflect_color = cast_ray(tracer, &reflect_ray, depth - 1);
            let n: usize = tracer.light_count();
            let mut samples: Vec<Option<LightTerm>> = Vec::new();
            let mut i: usize = 0;
            while i < n
                invariant
                    i <= n,
                    n == tracer.lights_of(),
                    samples@ =~= samples_of(tracer, *ray, hit).take(i as int),
                decreases n - i,
            {
                samples.push(tracer.light_term(ray, &hit, i));
                i = i + 1;
            }
            assert(samples@ =~= samples_of(tracer, *ray, hit));
            let c = shade_lit(&material, &samples, reflect_color, refract_color);
            proof {
                lemma_hit_color_opaque(material, samples@, reflect_color, refract_color);
            }
            c
        },
    }
}

/// The colors of row `y`, one for each of its `width` pixels, each followed
/// `MAX_DEPTH` deep from its primary ray.
pub fn render_row<T: RayTracer>(tracer: &T, y: usize, width: usize) -> (row: Vec<Color>)
    ensures
        row@.len() == width,
        forall|x: int|
            0 <= x < width ==> #[trigger] row@[x] == shade_spec(
                tracer,
                tracer.primary_of(x as usize, y),
                MAX_DEPTH as nat,
            ),
        forall|x: int| 0 <= x < width ==> (#[trigger] row@[x]).a == 255,
{
    let mut row: Vec<Color> = Vec::new();
    let mut x: usize = 0;
    while x < width
        invariant
            x <= width,
            row@.len() == x,
            forall|x2: int|
                0 <= x2 < x ==> #[trigger] row@[x2] == shade_spec(
                    tracer,
                    tracer.primary_of(x2 as usize, y),
                    MAX_DEPTH as nat,
                ),
        decreases width - x,
    {
        let ray = tracer.primary_ray(x, y);
        row.push(cast_ray(tracer, &ray, MAX_DEPTH));
        x = x + 1;
    }
    proof {
        assert forall|x2: int| 0 <= x2 < width implies (#[trigger] row@[x2]).a == 255 by {
            lemma_shade_opaque(tracer, tracer.primary_of(x2 as usize, y), MAX_DEPTH as nat);
        }
    }
    row
}

} // verus!
