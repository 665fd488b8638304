use pathtracer::bounding_box::AxisAlignedBoundingBox;
use pathtracer::hitable::{HitList, HitRecord};
use pathtracer::material::{Material, MaterialType, Scattering};
use pathtracer::objects::sphere::Sphere;
use pathtracer::picture::Grid;
use pathtracer::random::{choose_material, keeps_clear, rejected};
use pathtracer::scalar::Scalar;
use pathtracer::texture::{ImageTexture, SolidColor, Texture};
use pathtracer::threadpool::ThreadPool;
use pathtracer::vector::Vec3;
use std::sync::Arc;

fn s(x: f64) -> Scalar {
    Scalar::from_bits(x.to_bits())
}

fn f(x: Scalar) -> f64 {
    f64::from_bits(x.to_bits())
}

fn v(x: f64, y: f64, z: f64) -> Vec3 {
    Vec3::new(s(x), s(y), s(z))
}

fn xyz(v: &Vec3) -> (f64, f64, f64) {
    (f(v.x()), f(v.y()), f(v.z()))
}

fn solid(r: f64, g: f64, b: f64) -> Arc<Texture> {
    Arc::new(Texture::Solid(SolidColor::from_rgb(s(r), s(g), s(b))))
}

fn colour_of(t: &Texture) -> (f64, f64, f64) {
    match t {
        Texture::Solid(c) => xyz(&c.value(s(0.0), s(0.0), &v(0.0, 0.0, 0.0))),
        _ => panic!("not a plain colour"),
    }
}

#[test]
fn points_on_or_outside_the_unit_sphere_are_drawn_again() {
    assert!(!rejected(s(0.0)));
    assert!(!rejected(s(0.999_999)));
    assert!(rejected(s(1.0)));
    assert!(rejected(s(2.5)));
    assert!(rejected(s(f64::INFINITY)));
    assert!(!rejected(s(f64::NAN)));
}

#[test]
fn random_material_thresholds() {
    assert_eq!(choose_material(s(0.0)), MaterialType::Lambertian);
    assert_eq!(choose_material(s(0.799_999)), MaterialType::Lambertian);
    assert_eq!(choose_material(s(0.8)), MaterialType::Metal);
    assert_eq!(choose_material(s(0.9)), MaterialType::Metal);
    assert_eq!(choose_material(s(0.949_999)), MaterialType::Metal);
    assert_eq!(choose_material(s(0.95)), MaterialType::DiElectric);
    assert_eq!(choose_material(s(0.999)), MaterialType::DiElectric);
    assert_eq!(choose_material(s(f64::NAN)), MaterialType::DiElectric);
}

#[test]
fn random_spheres_keep_clear_of_the_large_one() {
    assert!(keeps_clear(s(0.91)));
    assert!(keeps_clear(s(5.0)));
    assert!(!keeps_clear(s(0.9)));
    assert!(!keeps_clear(s(0.0)));
    assert!(!keeps_clear(s(f64::NAN)));
}

#[test]
fn scatter_goes_by_the_kind_of_material() {
    let rec = |m: Material| HitRecord::new(v(1.0, 2.0, 3.0), v(0.0, 1.0, 0.0), s(4.5), true, m, s(0.0), s(0.0));
    let diffuse = Material::new_lambertian(solid(0.5, 0.5, 0.5));
    let computed = Scattering::Diffuse { candidate: v(0.0, 0.5, 0.5), attenuation: v(0.5, 0.5, 0.5) };
    let (att, ray) = diffuse.scatter(&rec(diffuse.clone()), s(0.25), computed).unwrap();
    assert_eq!(xyz(&att), (0.5, 0.5, 0.5));
    assert_eq!(xyz(ray.direction()), (0.0, 0.5, 0.5));
    assert_eq!(xyz(ray.origin()), (1.0, 2.0, 3.0));
    assert_eq!(f(ray.time()), 0.25);
    let tiny = Scattering::Diffuse { candidate: v(0.0, 1e-12, 0.0), attenuation: v(0.5, 0.5, 0.5) };
    let (_, ray) = diffuse.scatter(&rec(diffuse.clone()), s(0.25), tiny).unwrap();
    assert_eq!(xyz(ray.direction()), (0.0, 1.0, 0.0));

    let metal = Material::new_metal(solid(0.8, 0.8, 0.8), s(0.0));
    let towards = Scattering::Mirrored { direction: v(0.0, 1.0, 0.0), facing: s(1.0), attenuation: v(0.8, 0.8, 0.8) };
    let into = Scattering::Mirrored { direction: v(0.0, -1.0, 0.0), facing: s(-1.0), attenuation: v(0.8, 0.8, 0.8) };
    let (att, ray) = metal.scatter(&rec(metal.clone()), s(0.0), towards).unwrap();
    assert_eq!(xyz(&att), (0.8, 0.8, 0.8));
    assert_eq!(xyz(ray.direction()), (0.0, 1.0, 0.0));
    assert!(metal.scatter(&rec(metal.clone()), s(0.0), into).is_none());

    let glass = Material::new_dielectric(s(1.5));
    let bent = Scattering::Refracted { direction: v(0.0, -1.0, 0.0) };
    let (att, ray) = glass.scatter(&rec(glass.clone()), s(0.0), bent).unwrap();
    assert_eq!(xyz(&att), (1.0, 1.0, 1.0));
    assert_eq!(xyz(ray.direction()), (0.0, -1.0, 0.0));

    let light = Material::new_diffuse_light(solid(4.0, 4.0, 4.0));
    assert!(light.scatter(&rec(light.clone()), s(0.0), bent).is_none());
    assert!(light.scatter(&rec(light.clone()), s(0.0), towards).is_none());
    assert!(light.scatter(&rec(light.clone()), s(0.0), computed).is_none());
}

#[test]
fn default_hit_record() {
    let rec = HitRecord::default();
    assert_eq!(xyz(rec.point()), (0.0, 0.0, 0.0));
    assert_eq!(xyz(rec.normal()), (0.0, 0.0, 0.0));
    assert_eq!(rec.t().to_bits(), 0);
    assert!(!rec.front_face());
    assert_eq!((rec.u().to_bits(), rec.v().to_bits()), (0, 0));
    assert_eq!(rec.material().material_type(), MaterialType::Lambertian);
    assert_eq!(colour_of(rec.material().albedo()), (0.5, 0.25, 0.75));
}

#[test]
fn default_sphere_is_the_white_unit_sphere() {
    let sp = Sphere::default();
    assert_eq!(xyz(sp.center()), (0.0, 0.0, 0.0));
    assert_eq!(f(sp.radius()), 1.0);
    assert_eq!(sp.material().material_type(), MaterialType::Lambertian);
    assert_eq!(colour_of(sp.material().albedo()), (1.0, 1.0, 1.0));
}

#[test]
fn default_list_is_empty_and_lists_can_be_changed_in_place() {
    let mut list = HitList::default();
    assert!(list.is_empty());
    let b = AxisAlignedBoundingBox::new(v(0.0, 0.0, 0.0), v(1.0, 1.0, 1.0));
    list.add(Some(b));
    list.add(None);
    list.objects_mut().swap(0, 1);
    assert!(list.objects()[0].is_none());
    assert_eq!(f(list.objects()[1].unwrap().max().x()), 1.0);
    list.objects_mut().pop();
    assert_eq!(list.len(), 1);
    assert!(list.bounding_box().is_none());
}

#[test]
fn image_texture_keeps_its_parts() {
    let t = ImageTexture::new(vec![v(1.0, 2.0, 3.0), v(4.0, 5.0, 6.0)], 2, 1, 8);
    assert_eq!((t.width(), t.height(), t.bytes_per_scanline()), (2, 1, 8));
    assert_eq!(t.data().len(), 2);
    assert_eq!(xyz(&t.data()[1]), (4.0, 5.0, 6.0));
}

#[test]
fn pool_names_the_next_worker() {
    let mut pool = ThreadPool::new(2);
    assert_eq!(pool.next(), 0);
    pool.run_c(0, 0, 1, 1, 1, 1);
    assert_eq!(pool.next(), 1);
    pool.run_c(0, 0, 1, 1, 1, 1);
    assert_eq!(pool.next(), 0);
    pool.drain();
    assert_eq!(pool.next(), 0);
}

#[test]
fn grid_knows_its_pixels() {
    let mut g = Grid::new(2, 3);
    assert!(g.contains(0, 0));
    assert!(g.contains(1, 2));
    assert!(!g.contains(2, 0));
    assert!(!g.contains(0, 3));
    g.resize(4, 4);
    assert!(!g.contains(3, 0));
    assert!(g.contains(3, 3));
    assert!(Grid::new(0, 5).contains(0, 0) == false);
}
