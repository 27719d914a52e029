use ray_tracer::{point, vector, Color, Light, Material, Ray, Scalar, Tuple};

fn st(v: f32) -> Scalar {
    Scalar::from_bits(v.to_bits())
}

fn tuple_of(x: f32, y: f32, z: f32, w: f32) -> Tuple {
    Tuple::new(st(x), st(y), st(z), st(w))
}

#[test]
fn point_validity() {
    let a = tuple_of(4.3, -4.2, 3.1, 1.0);
    assert_eq!(f32::from_bits(a.x.bits), 4.3);
    assert_eq!(f32::from_bits(a.y.bits), -4.2);
    assert_eq!(f32::from_bits(a.z.bits), 3.1);
    assert_eq!(f32::from_bits(a.w.bits), 1.0);
    assert!(a.is_point());
    assert!(!a.is_vector());
}

#[test]
fn vector_validity() {
    let a = tuple_of(4.3, -4.2, 3.1, 0.0);
    assert_eq!(f32::from_bits(a.x.bits), 4.3);
    assert_eq!(f32::from_bits(a.y.bits), -4.2);
    assert_eq!(f32::from_bits(a.z.bits), 3.1);
    assert_eq!(f32::from_bits(a.w.bits), 0.0);
    assert!(!a.is_point());
    assert!(a.is_vector());
}

#[test]
fn point_factory() {
    let p = point(st(4.0), st(-4.0), st(3.0));
    let _p = tuple_of(4.0, -4.0, 3.0, 1.0);
    assert_eq!(p, _p);
}

#[test]
fn vector_factory() {
    let p = vector(st(4.0), st(-4.0), st(3.0));
    let _p = tuple_of(4.0, -4.0, 3.0, 0.0);
    assert_eq!(p, _p);
}

#[test]
fn negation() {
    let a = tuple_of(1.0, -2.0, 3.0, -4.0);
    let _a = tuple_of(-1.0, 2.0, -3.0, 4.0);
    assert_eq!(a.neg(), _a);
}

#[test]
fn negative_zero_still_marks_a_vector() {
    let a = tuple_of(1.0, 2.0, 3.0, -0.0);
    assert!(a.is_vector());
    assert!(!a.is_point());
    let v = vector(st(1.0), st(-2.0), st(3.0));
    assert!(v.neg().is_vector());
    let p = point(st(1.0), st(-2.0), st(3.0));
    assert!(!p.neg().is_point());
}

#[test]
fn as_vector_clears_w() {
    let a = tuple_of(1.0, -2.0, 3.0, 7.5);
    assert_eq!(a.as_vector(), tuple_of(1.0, -2.0, 3.0, 0.0));
}

#[test]
fn color_validity() {
    let c = Color::new(st(-0.5), st(0.4), st(1.7));
    assert_eq!(f32::from_bits(c.red.bits), -0.5);
    assert_eq!(f32::from_bits(c.green.bits), 0.4);
    assert_eq!(f32::from_bits(c.blue.bits), 1.7);
}

#[test]
fn named_colors() {
    assert_eq!(Color::black(), Color::new(st(0.0), st(0.0), st(0.0)));
    assert_eq!(Color::white(), Color::new(st(1.0), st(1.0), st(1.0)));
    assert_eq!(Color::red(), Color::new(st(1.0), st(0.0), st(0.0)));
    assert_eq!(Color::green(), Color::new(st(0.0), st(1.0), st(0.0)));
    assert_eq!(Color::blue(), Color::new(st(0.0), st(0.0), st(1.0)));
}

#[test]
fn point_light_has_position_and_intensity() {
    let intensity = Color::new(st(1.0), st(1.0), st(1.0));
    let position = point(st(0.0), st(0.0), st(0.0));
    let light = Light::new(position, intensity);
    assert_eq!(light.position, position);
    assert_eq!(light.intensity, intensity);
}

#[test]
fn material_default() {
    let m = Material::default();
    assert_eq!(m.color, Color::new(st(1.0), st(1.0), st(1.0)));
    assert_eq!(f32::from_bits(m.ambient.bits), 0.1);
    assert_eq!(f32::from_bits(m.diffuse.bits), 0.9);
    assert_eq!(f32::from_bits(m.specular.bits), 0.9);
    assert_eq!(f32::from_bits(m.shininess.bits), 200.0);
}

#[test]
fn material_new_keeps_its_arguments() {
    let m = Material::new(Color::red(), st(0.3), st(0.4), st(0.5), st(10.0));
    assert_eq!(m.color, Color::red());
    assert_eq!(m.ambient, st(0.3));
    assert_eq!(m.diffuse, st(0.4));
    assert_eq!(m.specular, st(0.5));
    assert_eq!(m.shininess, st(10.0));
}

#[test]
fn lighting_terms_follow_the_two_cosines() {
    let lit = Material::lighting_terms(st(1.0), st(1.0), false);
    assert!(lit.diffuse && lit.specular);
    let grazing = Material::lighting_terms(st(0.0), st(0.5), false);
    assert!(grazing.diffuse && grazing.specular);
    let away = Material::lighting_terms(st(0.7), st(-0.7), false);
    assert!(away.diffuse && !away.specular);
    let edge = Material::lighting_terms(st(0.7), st(0.0), false);
    assert!(edge.diffuse && !edge.specular);
    let behind = Material::lighting_terms(st(-1.0), st(1.0), false);
    assert!(!behind.diffuse && !behind.specular);
    let shadowed = Material::lighting_terms(st(1.0), st(1.0), true);
    assert!(!shadowed.diffuse && !shadowed.specular);
}

#[test]
fn ray_creation() {
    let origin = point(st(1.0), st(2.0), st(3.0));
    let direction = vector(st(4.0), st(5.0), st(6.0));
    let r = Ray::new(origin, direction);
    assert_eq!(r.origin, origin);
    assert_eq!(r.direction, direction);
}

#[test]
fn eye_vector_is_the_direction_negated() {
    let r = Ray::new(point(st(0.0), st(0.0), st(-5.0)), vector(st(0.0), st(0.0), st(1.0)));
    assert_eq!(r.eye_vector(), tuple_of(-0.0, -0.0, -1.0, -0.0));
    assert_eq!(r.eye_vector().z, st(-1.0));
    assert!(r.eye_vector().is_vector());
}
