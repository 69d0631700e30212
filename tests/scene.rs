use rustracer::color::{Color, Factor};
use rustracer::shading::{
    background_color, cast_ray, render_row, shade_nearest, LightTerm, Material, RayTracer,
};

type V = [f32; 3];

fn sub(a: V, b: V) -> V {
    [a[0] - b[0], a[1] - b[1], a[2] - b[2]]
}
fn add(a: V, b: V) -> V {
    [a[0] + b[0], a[1] + b[1], a[2] + b[2]]
}
fn scale(a: V, k: f32) -> V {
    [a[0] * k, a[1] * k, a[2] * k]
}
fn dot(a: V, b: V) -> f32 {
    a[0] * b[0] + a[1] * b[1] + a[2] * b[2]
}
fn normalize(a: V) -> V {
    scale(a, 1.0 / dot(a, a).sqrt())
}
fn factor(v: f32) -> Factor {
    Factor { milli: (v * 1000.0).max(0.0) as u32 }
}

struct Ray {
    origin: V,
    direction: V,
}

struct Hit {
    point: V,
    normal: V,
}

/// One sphere and one point light, seen through a camera at the origin.
struct SphereScene {
    center: V,
    radius: f32,
    material: Material,
    light: V,
    intensity: f32,
    width: usize,
    height: usize,
    fov: f32,
}

impl SphereScene {
    fn intersect(&self, ray: &Ray) -> Option<(f32, Hit)> {
        let oc = sub(self.center, ray.origin);
        let proj = dot(oc, ray.direction);
        let perp_sq = dot(oc, oc) - proj * proj;
        if perp_sq > self.radius * self.radius {
            return None;
        }
        let half = (self.radius * self.radius - perp_sq).sqrt();
        let mut t = proj - half;
        if t < 0.0 {
            t = proj + half;
            if t < 0.0 {
                return None;
            }
        }
        let point = add(ray.origin, scale(ray.direction, t));
        Some((t, Hit { point, normal: normalize(sub(point, self.center)) }))
    }

    fn biased(hit: &Hit, direction: V) -> V {
        let side = if dot(direction, hit.normal) < 0.0 { -1e-3 } else { 1e-3 };
        add(hit.point, scale(hit.normal, side))
    }

    fn test_scene(width: usize, height: usize) -> SphereScene {
        SphereScene {
            center: [0.0, 0.0, -5.0],
            radius: 1.0,
            material: Material::new(
                Color::RGB(255, 255, 255),
                factor(1.0),
                factor(0.0),
                factor(0.0),
                factor(0.0),
                factor(0.0),
                factor(1.0),
            ),
            light: [10.0, 10.0, -5.0],
            intensity: 1.0,
            width,
            height,
            fov: 90.0,
        }
    }
}

impl RayTracer for SphereScene {
    type Ray = Ray;
    type Hit = Hit;

    fn nearest_of(&self, ray: Ray) -> Option<Hit> {
        self.nearest_hit(&ray)
    }
    fn material_of(&self, hit: Hit) -> Material {
        self.hit_material(&hit)
    }
    fn reflected_of(&self, ray: Ray, hit: Hit) -> Ray {
        self.reflected_ray(&ray, &hit)
    }
    fn refracted_of(&self, ray: Ray, hit: Hit) -> Ray {
        self.refracted_ray(&ray, &hit)
    }
    fn lights_of(&self) -> usize {
        self.light_count()
    }
    fn term_of(&self, ray: Ray, hit: Hit, light: usize) -> Option<LightTerm> {
        self.light_term(&ray, &hit, light)
    }
    fn primary_of(&self, x: usize, y: usize) -> Ray {
        self.primary_ray(x, y)
    }

    fn nearest_hit(&self, ray: &Ray) -> Option<Hit> {
        self.intersect(ray).map(|(_, h)| h)
    }
    fn hit_material(&self, _hit: &Hit) -> Material {
        self.material
    }
    fn reflected_ray(&self, ray: &Ray, hit: &Hit) -> Ray {
        let d = sub(ray.direction, scale(hit.normal, 2.0 * dot(ray.direction, hit.normal)));
        Ray { origin: Self::biased(hit, d), direction: d }
    }
    fn refracted_ray(&self, ray: &Ray, hit: &Hit) -> Ray {
        Ray { origin: Self::biased(hit, ray.direction), direction: ray.direction }
    }
    fn light_count(&self) -> usize {
        1
    }
    fn light_term(&self, _ray: &Ray, hit: &Hit, _light: usize) -> Option<LightTerm> {
        let to_light = sub(self.light, hit.point);
        let distance = dot(to_light, to_light).sqrt();
        let dir = normalize(to_light);
        let shadow = Ray { origin: Self::biased(hit, dir), direction: dir };
        if let Some((t, _)) = self.intersect(&shadow) {
            if t < distance {
                return None;
            }
        }
        let diffuse = self.intensity * dot(dir, hit.normal).max(0.0);
        Some(LightTerm { diffuse: factor(diffuse), specular: factor(0.0) })
    }
    fn primary_ray(&self, x: usize, y: usize) -> Ray {
        let (w, h) = (self.width as f32, self.height as f32);
        let half = (self.fov.to_radians() / 2.0).tan();
        let d = [
            (2.0 * (x as f32 + 0.5) / w - 1.0) * half * w / h,
            -(2.0 * (y as f32 + 0.5) / h - 1.0) * half,
            -1.0,
        ];
        Ray { origin: [0.0, 0.0, 0.0], direction: normalize(d) }
    }
}

#[test]
fn single_sphere_frame_matches_lambert_and_background() {
    let scene = SphereScene::test_scene(9, 9);
    let center_ray = scene.primary_ray(4, 4);
    let (_, hit) = scene.intersect(&center_ray).unwrap();
    let lambert = dot(normalize(sub(scene.light, hit.point)), hit.normal).max(0.0);
    let expected = Color::RGB(255, 255, 255) * factor(lambert);
    for y in 0..9 {
        let row = render_row(&scene, y, 9);
        for x in 0..9 {
            if x == 4 && y == 4 {
                assert_eq!(row[x], expected);
            } else {
                assert_eq!(row[x], background_color());
            }
        }
    }
}

#[test]
fn lit_side_of_sphere_shows_lambert_term() {
    // the light stands in front of the sphere, so the nearest point faces it
    let mut scene = SphereScene::test_scene(9, 9);
    scene.light = [0.0, 3.0, 0.0];
    let ray = Ray { origin: [0.0, 0.0, 0.0], direction: [0.0, 0.0, -1.0] };
    let lambert = dot(normalize(sub(scene.light, [0.0, 0.0, -4.0])), [0.0, 0.0, 1.0]);
    let expected = Color::RGB(255, 255, 255) * factor(lambert);
    assert_eq!(cast_ray(&scene, &ray, 4), expected);
    let exact = (255.0 * lambert) as i32;
    assert!((expected.r as i32 - exact).abs() <= 1);
    assert_eq!(expected.r, 204);
}

#[test]
fn ray_missing_the_sphere_sees_background() {
    let scene = SphereScene::test_scene(9, 9);
    let ray = Ray { origin: [0.0, 0.0, 0.0], direction: [0.0, 1.0, 0.0] };
    assert_eq!(shade_nearest(&scene, &ray, None, 4), Color::RGB(155, 200, 100));
    assert_eq!(cast_ray(&scene, &ray, 4), Color::RGB(155, 200, 100));
}
