use pathtracer::bounding_box::AxisAlignedBoundingBox;
use pathtracer::scalar::Scalar;
use pathtracer::vector::Vec3;

fn s(x: f64) -> Scalar {
    Scalar::from_bits(x.to_bits())
}

fn f(x: Scalar) -> f64 {
    f64::from_bits(x.to_bits())
}

fn v(x: f64, y: f64, z: f64) -> Vec3 {
    Vec3::new(s(x), s(y), s(z))
}

fn xyz(v: &Vec3) -> (f64, f64, f64) {
    (f(v.x()), f(v.y()), f(v.z()))
}

fn slab(lo: f64, hi: f64, origin: f64, direction: f64) -> (Scalar, Scalar) {
    (s((lo - origin) / direction), s((hi - origin) / direction))
}

fn crosses(b: &AxisAlignedBoundingBox, origin: (f64, f64, f64), direction: (f64, f64, f64), t_min: f64, t_max: f64) -> bool {
    let lo = xyz(b.min());
    let hi = xyz(b.max());
    AxisAlignedBoundingBox::hit(
        slab(lo.0, hi.0, origin.0, direction.0),
        slab(lo.1, hi.1, origin.1, direction.1),
        slab(lo.2, hi.2, origin.2, direction.2),
        s(t_min),
        s(t_max),
    )
}

#[test]
fn vector_components() {
    let a = v(1.0, -2.0, 3.5);
    assert_eq!(xyz(&a), (1.0, -2.0, 3.5));
    assert_eq!((f(a.r()), f(a.g()), f(a.b())), (1.0, -2.0, 3.5));
    assert_eq!(f(a.get(0)), 1.0);
    assert_eq!(f(a.get(1)), -2.0);
    assert_eq!(f(a.get(2)), 3.5);
}

#[test]
fn vector_set_replaces_one_component() {
    let mut a = v(1.0, 2.0, 3.0);
    a.set(1, s(9.0));
    assert_eq!(xyz(&a), (1.0, 9.0, 3.0));
    a.set(0, s(-1.0));
    a.set(2, s(0.5));
    assert_eq!(xyz(&a), (-1.0, 9.0, 0.5));
}

#[test]
fn vector_default_is_zero() {
    let a = Vec3::default();
    assert_eq!(a.x().to_bits(), 0);
    assert_eq!(a.y().to_bits(), 0);
    assert_eq!(a.z().to_bits(), 0);
}

#[test]
fn vector_neg_flips_every_sign() {
    let a = v(1.0, -2.0, 0.0).neg();
    assert_eq!(a.x().to_bits(), (-1.0f64).to_bits());
    assert_eq!(a.y().to_bits(), 2.0f64.to_bits());
    assert_eq!(a.z().to_bits(), (-0.0f64).to_bits());
}

#[test]
fn near_zero_threshold() {
    assert!(v(0.0, 0.0, 0.0).near_zero());
    assert!(v(9e-9, -9e-9, 1e-300).near_zero());
    assert!(!v(1e-8, 0.0, 0.0).near_zero());
    assert!(!v(0.0, -1e-8, 0.0).near_zero());
    assert!(!v(0.0, 0.0, 1.0).near_zero());
    assert!(!v(f64::NAN, 0.0, 0.0).near_zero());
}

#[test]
fn box_keeps_its_corners() {
    let b = AxisAlignedBoundingBox::new(v(-1.0, -2.0, -3.0), v(1.0, 2.0, 3.0));
    assert_eq!(xyz(b.min()), (-1.0, -2.0, -3.0));
    assert_eq!(xyz(b.max()), (1.0, 2.0, 3.0));
}

#[test]
fn surrounding_box_takes_least_and_greatest() {
    let a = AxisAlignedBoundingBox::new(v(-1.0, 0.0, 2.0), v(1.0, 5.0, 3.0));
    let b = AxisAlignedBoundingBox::new(v(0.0, -4.0, 2.5), v(0.5, 6.0, 9.0));
    let u = a.surrounding_box(&b);
    assert_eq!(xyz(u.min()), (-1.0, -4.0, 2.0));
    assert_eq!(xyz(u.max()), (1.0, 6.0, 9.0));
    let w = b.surrounding_box(&a);
    assert_eq!(xyz(w.min()), (-1.0, -4.0, 2.0));
    assert_eq!(xyz(w.max()), (1.0, 6.0, 9.0));
}

#[test]
fn surrounding_box_contains_every_corner_of_both() {
    let boxes = vec![
        AxisAlignedBoundingBox::new(v(-1.0, 0.0, 2.0), v(1.0, 5.0, 3.0)),
        AxisAlignedBoundingBox::new(v(0.0, -4.0, 2.5), v(0.5, 6.0, 9.0)),
        AxisAlignedBoundingBox::new(v(-1000.0, -2000.0, -1000.0), v(1000.0, 0.0, 1000.0)),
        AxisAlignedBoundingBox::new(v(3.0, 1.0, -2.0001), v(5.0, 3.0, -1.9999)),
        AxisAlignedBoundingBox::new(v(0.0, 0.0, 0.0), v(0.0, 0.0, 0.0)),
        AxisAlignedBoundingBox::new(v(f64::NEG_INFINITY, -1.0, -1.0), v(f64::INFINITY, 1.0, 1.0)),
    ];
    for a in &boxes {
        for b in &boxes {
            let u = a.surrounding_box(b);
            for inner in [a, b] {
                for axis in 0..3 {
                    for corner in [inner.min().get(axis), inner.max().get(axis)] {
                        assert!(u.min().get(axis).le(&corner));
                        assert!(corner.le(&u.max().get(axis)));
                    }
                }
            }
        }
    }
}

#[test]
fn surrounding_box_is_associative() {
    let a = AxisAlignedBoundingBox::new(v(-1.0, 0.0, 2.0), v(1.0, 5.0, 3.0));
    let b = AxisAlignedBoundingBox::new(v(0.0, -4.0, 2.5), v(0.5, 6.0, 9.0));
    let c = AxisAlignedBoundingBox::new(v(-7.0, 1.0, 2.0), v(0.0, 2.0, 4.0));
    let left = a.surrounding_box(&b).surrounding_box(&c);
    let right = a.surrounding_box(&b.surrounding_box(&c));
    assert_eq!(xyz(left.min()), xyz(right.min()));
    assert_eq!(xyz(left.max()), xyz(right.max()));
}

#[test]
fn slab_test_hits_and_misses() {
    let b = AxisAlignedBoundingBox::new(v(-1.0, -1.0, -1.0), v(1.0, 1.0, 1.0));
    assert!(crosses(&b, (0.0, 0.0, 5.0), (0.0, 0.0, -1.0), 0.001, f64::INFINITY));
    assert!(!crosses(&b, (0.0, 0.0, 5.0), (0.0, 0.0, 1.0), 0.001, f64::INFINITY));
    assert!(!crosses(&b, (3.0, 0.0, 5.0), (0.0, 0.0, -1.0), 0.001, f64::INFINITY));
    assert!(crosses(&b, (-5.0, -5.0, -5.0), (1.0, 1.0, 1.0), 0.001, f64::INFINITY));
    assert!(!crosses(&b, (-5.0, -5.0, -5.0), (1.0, 1.0, 1.0), 0.001, 3.9));
    assert!(crosses(&b, (-5.0, -5.0, -5.0), (1.0, 1.0, 1.0), 0.001, 4.1));
    assert!(!crosses(&b, (-5.0, -5.0, -5.0), (1.0, 1.0, 1.0), 6.1, 100.0));
}

#[test]
fn slab_test_narrows_the_given_interval() {
    let t = |a: f64, b: f64| (s(a), s(b));
    assert!(AxisAlignedBoundingBox::hit(t(1.0, 3.0), t(2.0, 4.0), t(0.0, 10.0), s(0.0), s(100.0)));
    assert!(!AxisAlignedBoundingBox::hit(t(1.0, 2.0), t(3.0, 4.0), t(0.0, 10.0), s(0.0), s(100.0)));
    assert!(!AxisAlignedBoundingBox::hit(t(1.0, 3.0), t(3.0, 4.0), t(0.0, 10.0), s(0.0), s(100.0)));
    assert!(AxisAlignedBoundingBox::hit(t(3.0, 1.0), t(4.0, 2.0), t(10.0, 0.0), s(0.0), s(100.0)));
    assert!(!AxisAlignedBoundingBox::hit(t(1.0, 3.0), t(2.0, 4.0), t(0.0, 10.0), s(3.0), s(100.0)));
    assert!(!AxisAlignedBoundingBox::hit(t(1.0, 3.0), t(2.0, 4.0), t(0.0, 10.0), s(0.0), s(2.0)));
    assert!(AxisAlignedBoundingBox::hit(
        t(f64::NEG_INFINITY, f64::INFINITY),
        t(2.0, 4.0),
        t(f64::NEG_INFINITY, f64::INFINITY),
        s(0.0),
        s(100.0)
    ));
}

fn slab_test_in_doubles(lo: (f64, f64, f64), hi: (f64, f64, f64), o: [f64; 3], d: [f64; 3], t_min: f64, t_max: f64) -> bool {
    let lo = [lo.0, lo.1, lo.2];
    let hi = [hi.0, hi.1, hi.2];
    let mut near = t_min;
    let mut far = t_max;
    for a in 0..3 {
        let mino = (lo[a] - o[a]) / d[a];
        let maxo = (hi[a] - o[a]) / d[a];
        near = mino.min(maxo).max(near);
        far = mino.max(maxo).min(far);
    }
    far > near
}

#[test]
fn slab_test_agrees_with_doubles() {
    let b = AxisAlignedBoundingBox::new(v(-1.0, -1.0, -1.0), v(1.0, 1.0, 1.0));
    let steps: [f64; 7] = [-2.0, -1.0, -0.5, 0.0, 0.5, 1.0, 2.0];
    let mut crossed = 0;
    let mut nans = 0;
    for &ox in &steps {
        for &oy in &steps {
            for &dx in &steps {
                for &dy in &steps {
                    for &(t_min, t_max) in &[(0.001, f64::INFINITY), (0.0, 1.5), (2.0, 10.0)] {
                        let o = [ox, oy, -3.0];
                        let d = [dx, dy, 1.0];
                        if ((-1.0f64 - ox) / dx).is_nan() || ((-1.0f64 - oy) / dy).is_nan() {
                            nans += 1;
                        }
                        let want = slab_test_in_doubles(xyz(b.min()), xyz(b.max()), o, d, t_min, t_max);
                        let got = crosses(&b, (o[0], o[1], o[2]), (d[0], d[1], d[2]), t_min, t_max);
                        assert_eq!(got, want, "origin {:?} direction {:?}", o, d);
                        if got {
                            crossed += 1;
                        }
                    }
                }
            }
        }
    }
    assert!(crossed > 0);
    assert!(nans > 0);
}

#[test]
fn ray_along_a_face_of_the_box() {
    let b = AxisAlignedBoundingBox::new(v(-1.0, -1.0, -1.0), v(1.0, 1.0, 1.0));
    assert!(crosses(&b, (0.0, 0.0, -3.0), (0.0, 0.0, 1.0), 0.001, f64::INFINITY));
    assert!(!crosses(&b, (1.5, 0.0, -3.0), (0.0, 0.0, 1.0), 0.001, f64::INFINITY));
    assert!(!crosses(&b, (-1.0, 0.0, -3.0), (0.0, 0.0, 1.0), 0.001, f64::INFINITY));
}
