use pathtracer::hitable::HitRecord;
use pathtracer::material::{Material, MaterialType};
use pathtracer::objects::moving_sphere::MovingSphere;
use pathtracer::objects::sphere::{in_range, nearest_root, Sphere};
use pathtracer::objects::xyrect::XyRect;
use pathtracer::ray::Ray;
use pathtracer::scalar::Scalar;
use pathtracer::surface::Surface;
use pathtracer::texture::{CheckeredTexture, ImageTexture, SolidColor, Texture};
use pathtracer::vector::{Color, Vec3};
use std::sync::Arc;

fn s(x: f64) -> Scalar {
    Scalar::from_bits(x.to_bits())
}

fn f(x: Scalar) -> f64 {
    f64::from_bits(x.to_bits())
}

fn v(x: f64, y: f64, z: f64) -> Vec3 {
    Vec3::new(s(x), s(y), s(z))
}

fn xyz(v: &Vec3) -> (f64, f64, f64) {
    (f(v.x()), f(v.y()), f(v.z()))
}

fn solid(r: f64, g: f64, b: f64) -> Arc<Texture> {
    Arc::new(Texture::Solid(SolidColor::from_rgb(s(r), s(g), s(b))))
}

fn colour_of(t: &Texture) -> (f64, f64, f64) {
    match t {
        Texture::Solid(c) => xyz(&c.value(s(0.0), s(0.0), &v(0.0, 0.0, 0.0))),
        _ => panic!("not a plain colour"),
    }
}

fn record(material: Material) -> HitRecord {
    HitRecord::new(v(1.0, 2.0, 3.0), v(0.0, 1.0, 0.0), s(4.5), true, material, s(0.25), s(0.75))
}

#[test]
fn ray_keeps_its_parts() {
    let r = Ray::new(v(1.0, 2.0, 3.0), v(0.0, 0.0, -1.0), s(0.5));
    assert_eq!(xyz(r.origin()), (1.0, 2.0, 3.0));
    assert_eq!(xyz(r.direction()), (0.0, 0.0, -1.0));
    assert_eq!(f(r.time()), 0.5);
}

#[test]
fn hit_record_keeps_its_parts() {
    let rec = record(Material::new_metal(solid(0.1, 0.2, 0.3), s(0.4)));
    assert_eq!(xyz(rec.point()), (1.0, 2.0, 3.0));
    assert_eq!(xyz(rec.normal()), (0.0, 1.0, 0.0));
    assert_eq!(f(rec.t()), 4.5);
    assert!(rec.front_face());
    assert_eq!((f(rec.u()), f(rec.v())), (0.25, 0.75));
    let (u, w) = rec.uv();
    assert_eq!((f(u), f(w)), (0.25, 0.75));
    assert_eq!(rec.material().material_type(), MaterialType::Metal);
    assert_eq!(f(rec.material().fuzz()), 0.4);
}

#[test]
fn face_normal_turns_against_the_ray() {
    let (front, n) = HitRecord::face_normal(s(-0.5), v(0.0, 0.0, 1.0));
    assert!(front);
    assert_eq!(xyz(&n), (0.0, 0.0, 1.0));
    let (front, n) = HitRecord::face_normal(s(0.5), v(0.0, 0.0, 1.0));
    assert!(!front);
    assert_eq!(n.z().to_bits(), (-1.0f64).to_bits());
    assert_eq!(n.x().to_bits(), (-0.0f64).to_bits());
    let (front, n) = HitRecord::face_normal(s(0.0), v(1.0, -2.0, 3.0));
    assert!(!front);
    assert_eq!(xyz(&n), (-1.0, 2.0, -3.0));
    let (front, _) = HitRecord::face_normal(s(f64::NAN), v(1.0, -2.0, 3.0));
    assert!(!front);
}

#[test]
fn surface_record() {
    let sf = Surface::new(v(1.0, 2.0, 3.0), v(0.0, 1.0, 0.0), s(2.5));
    assert_eq!(xyz(&sf.point), (1.0, 2.0, 3.0));
    assert_eq!(xyz(&sf.normal), (0.0, 1.0, 0.0));
    assert_eq!(f(sf.t), 2.5);
    let d = Surface::default();
    assert_eq!(xyz(&d.point), (0.0, 0.0, 0.0));
    assert_eq!(xyz(&d.normal), (0.0, 0.0, 0.0));
    assert_eq!(d.t.to_bits(), 0);
}

#[test]
fn material_constructors() {
    let l = Material::new_lambertian(solid(0.1, 0.2, 0.3));
    assert_eq!(l.material_type(), MaterialType::Lambertian);
    assert_eq!(colour_of(l.albedo()), (0.1, 0.2, 0.3));
    assert_eq!((f(l.fuzz()), f(l.ir())), (0.0, 0.0));
    let d = Material::new_dielectric(s(1.5));
    assert_eq!(d.material_type(), MaterialType::DiElectric);
    assert_eq!(f(d.ir()), 1.5);
    assert_eq!(f(d.fuzz()), 0.0);
    assert_eq!(colour_of(d.albedo()), (0.0, 0.0, 0.0));
    let e = Material::new_diffuse_light(solid(4.0, 4.0, 4.0));
    assert_eq!(e.material_type(), MaterialType::DiffuseLight);
    assert_eq!(colour_of(e.albedo()), (4.0, 4.0, 4.0));
}

#[test]
fn metal_fuzz_is_held_at_one() {
    assert_eq!(f(Material::new_metal(solid(1.0, 1.0, 1.0), s(0.3)).fuzz()), 0.3);
    assert_eq!(f(Material::new_metal(solid(1.0, 1.0, 1.0), s(0.0)).fuzz()), 0.0);
    assert_eq!(f(Material::new_metal(solid(1.0, 1.0, 1.0), s(-2.0)).fuzz()), -2.0);
    assert_eq!(f(Material::new_metal(solid(1.0, 1.0, 1.0), s(1.0)).fuzz()), 1.0);
    assert_eq!(f(Material::new_metal(solid(1.0, 1.0, 1.0), s(7.0)).fuzz()), 1.0);
    assert_eq!(f(Material::new_metal(solid(1.0, 1.0, 1.0), s(f64::INFINITY)).fuzz()), 1.0);
    assert_eq!(f(Material::new_metal(solid(1.0, 1.0, 1.0), s(f64::NAN)).fuzz()), 1.0);
    assert_eq!(Material::new_metal(solid(1.0, 1.0, 1.0), s(0.5)).material_type(), MaterialType::Metal);
}

#[test]
fn only_lights_emit() {
    let glow: Color = v(4.0, 3.0, 2.0);
    assert_eq!(xyz(&Material::new_diffuse_light(solid(4.0, 3.0, 2.0)).emitted(glow)), (4.0, 3.0, 2.0));
    assert_eq!(xyz(&Material::new_lambertian(solid(4.0, 3.0, 2.0)).emitted(glow)), (0.0, 0.0, 0.0));
    assert_eq!(xyz(&Material::new_metal(solid(4.0, 3.0, 2.0), s(0.1)).emitted(glow)), (0.0, 0.0, 0.0));
    assert_eq!(xyz(&Material::new_dielectric(s(1.5)).emitted(glow)), (0.0, 0.0, 0.0));
}

#[test]
fn lambertian_scatters_along_the_candidate() {
    let rec = record(Material::new_lambertian(solid(0.5, 0.5, 0.5)));
    let (att, ray) = Material::scatter_lambertian(&rec, s(0.25), v(0.1, 0.9, -0.2), v(0.5, 0.6, 0.7)).unwrap();
    assert_eq!(xyz(&att), (0.5, 0.6, 0.7));
    assert_eq!(xyz(ray.origin()), (1.0, 2.0, 3.0));
    assert_eq!(xyz(ray.direction()), (0.1, 0.9, -0.2));
    assert_eq!(f(ray.time()), 0.25);
}

#[test]
fn lambertian_falls_back_to_the_normal() {
    let rec = record(Material::new_lambertian(solid(0.5, 0.5, 0.5)));
    let (_, ray) = Material::scatter_lambertian(&rec, s(0.0), v(1e-9, -1e-10, 0.0), v(1.0, 1.0, 1.0)).unwrap();
    assert_eq!(xyz(ray.direction()), (0.0, 1.0, 0.0));
    let (_, ray) = Material::scatter_lambertian(&rec, s(0.0), v(1e-9, 1e-7, 0.0), v(1.0, 1.0, 1.0)).unwrap();
    assert_eq!(xyz(ray.direction()), (1e-9, 1e-7, 0.0));
}

#[test]
fn metal_absorbs_what_points_into_the_surface() {
    let rec = record(Material::new_metal(solid(0.5, 0.5, 0.5), s(0.1)));
    let (att, ray) = Material::scatter_metal(&rec, s(0.5), v(0.3, 0.4, 0.5), s(0.4), v(0.8, 0.8, 0.8)).unwrap();
    assert_eq!(xyz(&att), (0.8, 0.8, 0.8));
    assert_eq!(xyz(ray.origin()), (1.0, 2.0, 3.0));
    assert_eq!(xyz(ray.direction()), (0.3, 0.4, 0.5));
    assert_eq!(f(ray.time()), 0.5);
    assert!(Material::scatter_metal(&rec, s(0.5), v(0.3, -0.4, 0.5), s(-0.4), v(0.8, 0.8, 0.8)).is_none());
    assert!(Material::scatter_metal(&rec, s(0.5), v(0.3, 0.0, 0.5), s(0.0), v(0.8, 0.8, 0.8)).is_none());
    assert!(Material::scatter_metal(&rec, s(0.5), v(0.3, 0.0, 0.5), s(-0.0), v(0.8, 0.8, 0.8)).is_none());
    assert!(Material::scatter_metal(&rec, s(0.5), v(0.3, 0.0, 0.5), s(f64::NAN), v(0.8, 0.8, 0.8)).is_none());
}

#[test]
fn dielectric_always_goes_on_in_white() {
    let rec = record(Material::new_dielectric(s(1.5)));
    let (att, ray) = Material::scatter_dielectric(&rec, s(0.75), v(0.0, -1.0, 0.0)).unwrap();
    assert_eq!(xyz(&att), (1.0, 1.0, 1.0));
    assert_eq!(xyz(ray.origin()), (1.0, 2.0, 3.0));
    assert_eq!(xyz(ray.direction()), (0.0, -1.0, 0.0));
    assert_eq!(f(ray.time()), 0.75);
}

#[test]
fn refraction_ratio_depends_on_the_side() {
    let m = Material::new_dielectric(s(1.5));
    assert_eq!(f(m.refraction_ratio(true, s(1.0 / 1.5))), 1.0 / 1.5);
    assert_eq!(f(m.refraction_ratio(false, s(1.0 / 1.5))), 1.5);
}

#[test]
fn solid_colour_is_the_same_everywhere() {
    let t = SolidColor::new(v(0.2, 0.3, 0.1));
    assert_eq!(xyz(&t.value(s(0.0), s(1.0), &v(5.0, 5.0, 5.0))), (0.2, 0.3, 0.1));
    assert_eq!(xyz(&t.value(s(0.7), s(0.1), &v(-5.0, 0.0, 9.0))), (0.2, 0.3, 0.1));
    assert_eq!(xyz(&SolidColor::default().value(s(0.0), s(0.0), &v(0.0, 0.0, 0.0))), (0.0, 0.0, 0.0));
}

#[test]
fn pattern_selects_by_the_sign_of_the_sines() {
    let t = CheckeredTexture::new_color(v(0.2, 0.3, 0.1), v(0.9, 0.9, 0.9));
    assert_eq!(colour_of(t.select(s(-0.5))), (0.2, 0.3, 0.1));
    assert_eq!(colour_of(t.select(s(0.5))), (0.9, 0.9, 0.9));
    assert_eq!(colour_of(t.select(s(0.0))), (0.9, 0.9, 0.9));
    assert_eq!(colour_of(t.select(s(-0.0))), (0.9, 0.9, 0.9));
    assert_eq!(colour_of(t.select(s(f64::NAN))), (0.9, 0.9, 0.9));
    let sines = (10.0f64 * 0.1).sin() * (10.0f64 * 0.2).sin() * (10.0f64 * 0.4).sin();
    assert!(sines < 0.0);
    assert_eq!(colour_of(t.select(s(sines))), (0.2, 0.3, 0.1));
    let nested = CheckeredTexture::new(solid(1.0, 0.0, 0.0), solid(0.0, 0.0, 1.0));
    assert_eq!(colour_of(nested.select(s(-1.0))), (1.0, 0.0, 0.0));
    assert_eq!(colour_of(nested.select(s(1.0))), (0.0, 0.0, 1.0));
}

#[test]
fn image_texel_lookup_is_clamped() {
    let data: Vec<Color> = (0..6).map(|i| v(i as f64, 10.0 + i as f64, 0.0)).collect();
    let t = ImageTexture::new(data, 3, 2, 3);
    assert!(t.is_well_formed());
    assert_eq!(xyz(&t.value(0, 0)), (0.0, 10.0, 0.0));
    assert_eq!(xyz(&t.value(2, 0)), (2.0, 12.0, 0.0));
    assert_eq!(xyz(&t.value(1, 1)), (4.0, 14.0, 0.0));
    assert_eq!(xyz(&t.value(3, 1)), (5.0, 15.0, 0.0));
    assert_eq!(xyz(&t.value(0, 2)), (3.0, 13.0, 0.0));
    assert_eq!(xyz(&t.value(usize::MAX, usize::MAX)), (5.0, 15.0, 0.0));
}

#[test]
fn image_sampling_flips_v() {
    let data: Vec<Color> = (0..6).map(|i| v(i as f64, 0.0, 0.0)).collect();
    let t = ImageTexture::new(data, 3, 2, 3);
    let sample = |u: f64, w: f64| {
        let u = f(pathtracer::scalar::clamp(s(u), s(0.0), s(1.0)));
        let w = 1.0 - f(pathtracer::scalar::clamp(s(w), s(0.0), s(1.0)));
        f(t.value((u * 3.0) as usize, (w * 2.0) as usize).x())
    };
    assert_eq!(sample(0.0, 1.0), 0.0);
    assert_eq!(sample(0.99, 1.0), 2.0);
    assert_eq!(sample(1.0, 1.0), 2.0);
    assert_eq!(sample(0.0, 0.0), 3.0);
    assert_eq!(sample(0.5, 0.25), 4.0);
    assert_eq!(sample(7.0, -3.0), 5.0);
}

#[test]
fn image_without_texels_is_cyan() {
    let t = ImageTexture::new(Vec::new(), 0, 0, 0);
    assert!(t.is_well_formed());
    assert_eq!(xyz(&t.value(0, 0)), (0.0, 1.0, 1.0));
    assert_eq!(xyz(&t.value(9, 9)), (0.0, 1.0, 1.0));
}

#[test]
fn image_with_too_few_texels_is_refused() {
    let data: Vec<Color> = (0..5).map(|i| v(i as f64, 0.0, 0.0)).collect();
    assert!(!ImageTexture::new(data.clone(), 3, 2, 3).is_well_formed());
    assert!(!ImageTexture::new(data.clone(), 0, 2, 3).is_well_formed());
    assert!(!ImageTexture::new(data.clone(), 3, 0, 3).is_well_formed());
    assert!(!ImageTexture::new(data.clone(), usize::MAX, 2, 3).is_well_formed());
    assert!(ImageTexture::new(data, 5, 1, 5).is_well_formed());
}

#[test]
fn root_selection() {
    let pick = |d: f64, near: f64, far: f64, lo: f64, hi: f64| nearest_root(s(d), s(near), s(far), s(lo), s(hi)).map(f);
    assert_eq!(pick(4.0, 1.0, 3.0, 0.001, 100.0), Some(1.0));
    assert_eq!(pick(4.0, -1.0, 3.0, 0.001, 100.0), Some(3.0));
    assert_eq!(pick(4.0, -3.0, -1.0, 0.001, 100.0), None);
    assert_eq!(pick(4.0, 1.0, 3.0, 0.001, 0.5), None);
    assert_eq!(pick(4.0, 1.0, 3.0, 2.0, 2.5), None);
    assert_eq!(pick(4.0, 1.0, 3.0, 1.0, 100.0), Some(1.0));
    assert_eq!(pick(4.0, 1.0, 3.0, 0.0, 1.0), Some(1.0));
    assert_eq!(pick(4.0, 1.0, 3.0, 1.5, 3.0), Some(3.0));
    assert_eq!(pick(0.0, 2.0, 2.0, 0.001, 100.0), Some(2.0));
    assert_eq!(pick(-0.0, 2.0, 2.0, 0.001, 100.0), Some(2.0));
    assert_eq!(pick(-1e-300, 2.0, 2.0, 0.001, 100.0), None);
    assert_eq!(pick(-4.0, 1.0, 3.0, 0.001, 100.0), None);
}

#[test]
fn chosen_root_lies_in_the_interval() {
    let values = [-5.0, -1.0, 0.0, 0.001, 0.5, 1.0, 2.0, 7.0, 1e9, f64::INFINITY];
    for &d in &[-1.0, 0.0, 3.0] {
        for &near in &values {
            for &far in &values {
                for &lo in &values {
                    for &hi in &values {
                        let got = nearest_root(s(d), s(near), s(far), s(lo), s(hi)).map(f);
                        let near_in = lo <= near && near <= hi;
                        let far_in = lo <= far && far <= hi;
                        assert_eq!(got.is_none(), d < 0.0 || (!near_in && !far_in));
                        if let Some(t) = got {
                            assert!(lo <= t && t <= hi);
                            assert_eq!(t, if near_in { near } else { far });
                        }
                    }
                }
            }
        }
    }
}

#[test]
fn range_test() {
    assert!(in_range(s(1.0), s(0.0), s(2.0)));
    assert!(in_range(s(0.0), s(0.0), s(2.0)));
    assert!(in_range(s(2.0), s(0.0), s(2.0)));
    assert!(!in_range(s(-0.1), s(0.0), s(2.0)));
    assert!(!in_range(s(2.1), s(0.0), s(2.0)));
    assert!(in_range(s(f64::NAN), s(0.0), s(2.0)));
}

#[test]
fn sphere_keeps_its_parts() {
    let mut sp = Sphere::new(v(1.0, 2.0, 3.0), s(0.5), Material::new_dielectric(s(1.5)));
    assert_eq!(xyz(sp.center()), (1.0, 2.0, 3.0));
    assert_eq!(f(sp.radius()), 0.5);
    assert_eq!(sp.material().material_type(), MaterialType::DiElectric);
    sp.set_center(v(4.0, 5.0, 6.0));
    assert_eq!(xyz(sp.center()), (4.0, 5.0, 6.0));
    assert_eq!(f(sp.radius()), 0.5);
    assert_eq!(f(sp.material().ir()), 1.5);
}

#[test]
fn moving_sphere_keeps_its_parts() {
    let m = MovingSphere::new(v(0.0, 0.0, 0.0), v(0.0, 1.0, 0.0), s(0.0), s(1.0), s(0.2), Material::new_dielectric(s(1.5)));
    assert_eq!(xyz(m.center0()), (0.0, 0.0, 0.0));
    assert_eq!(xyz(m.center1()), (0.0, 1.0, 0.0));
    assert_eq!((f(m.time0()), f(m.time1())), (0.0, 1.0));
    assert_eq!(f(m.radius()), 0.2);
    assert_eq!(m.material().material_type(), MaterialType::DiElectric);
}

#[test]
fn rectangle_contains_its_edges() {
    let mut r = XyRect::new(s(3.0), s(5.0), s(1.0), s(3.0), s(-2.0), Material::new_diffuse_light(solid(4.0, 4.0, 4.0)));
    assert_eq!((f(r.x0()), f(r.x1()), f(r.y0()), f(r.y1()), f(r.k())), (3.0, 5.0, 1.0, 3.0, -2.0));
    assert_eq!(r.material().material_type(), MaterialType::DiffuseLight);
    assert!(r.contains(s(4.0), s(2.0)));
    assert!(r.contains(s(3.0), s(1.0)));
    assert!(r.contains(s(5.0), s(3.0)));
    assert!(!r.contains(s(2.999), s(2.0)));
    assert!(!r.contains(s(5.001), s(2.0)));
    assert!(!r.contains(s(4.0), s(0.999)));
    assert!(!r.contains(s(4.0), s(3.001)));
    r.relocate(s(4.0), s(6.0), s(1.5), s(3.5), s(-1.0));
    assert_eq!((f(r.x0()), f(r.x1()), f(r.y0()), f(r.y1()), f(r.k())), (4.0, 6.0, 1.5, 3.5, -1.0));
    assert!(!r.contains(s(3.5), s(2.0)));
    assert!(r.contains(s(6.0), s(3.5)));
}
