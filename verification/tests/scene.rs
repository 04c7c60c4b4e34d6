use raytracer::intersect::{MIN_CROSS, MIN_EDGE};
use raytracer::{Cast, Error, Object, Scene, SceneError, Shape, Surface};

fn sphere(material_id: Option<usize>) -> Object {
    Object { shape: Shape::Sphere, material_id }
}

fn triangle(material_id: Option<usize>) -> Object {
    Object {
        shape: Shape::Triangle {
            edge1: 1.0f32.to_bits(),
            edge2: 2.0f32.to_bits(),
            cross: 0.5f32.to_bits(),
        },
        material_id,
    }
}

fn needle(material_id: Option<usize>) -> Object {
    Object {
        shape: Shape::Triangle {
            edge1: 1.0f32.to_bits(),
            edge2: 4.0f32.to_bits(),
            cross: 0.0f32.to_bits(),
        },
        material_id,
    }
}

fn refused(objects: Vec<Object>, emits_light: Vec<bool>) -> SceneError {
    match Scene::new(objects, emits_light) {
        Ok(_) => panic!("the scene was accepted"),
        Err(refusal) => refusal,
    }
}

#[test]
fn empty_scene_is_accepted() {
    let scene = Scene::new(Vec::new(), Vec::new()).expect("nothing is wrong");
    assert_eq!(scene.object_count(), 0);
    assert_eq!(scene.material_count(), 0);
    assert_eq!(scene.surface(0), None);
}

#[test]
fn references_resolve_against_the_table() {
    let objects = vec![sphere(Some(1)), triangle(None), triangle(Some(0)), sphere(Some(2))];
    let scene = Scene::new(objects, vec![false, true, false]).expect("nothing is wrong");
    assert_eq!(scene.object_count(), 4);
    assert_eq!(scene.material_count(), 3);
    assert_eq!(scene.surface(0), Some(Surface { material: Some(1), emits_light: true }));
    assert_eq!(scene.surface(1), Some(Surface { material: None, emits_light: false }));
    assert_eq!(scene.surface(2), Some(Surface { material: Some(0), emits_light: false }));
    assert_eq!(scene.surface(3), Some(Surface { material: Some(2), emits_light: false }));
    assert_eq!(scene.surface(4), None);
}

#[test]
fn missing_material_is_the_default_and_emits_nothing() {
    let scene = Scene::new(vec![sphere(None)], vec![true]).expect("nothing is wrong");
    assert_eq!(scene.surface(0), Some(Surface { material: None, emits_light: false }));
}

#[test]
fn material_index_outside_the_table_is_refused() {
    let objects = vec![sphere(Some(0)), sphere(Some(2)), sphere(Some(7))];
    assert_eq!(
        refused(objects, vec![false, false]),
        SceneError { object: 1, error: Error::PreconditionViolation }
    );
    assert_eq!(
        refused(vec![triangle(Some(0))], Vec::new()),
        SceneError { object: 0, error: Error::PreconditionViolation }
    );
}

#[test]
fn degenerate_triangle_is_refused() {
    let objects = vec![triangle(None), sphere(None), needle(None), needle(Some(9))];
    assert_eq!(
        refused(objects, Vec::new()),
        SceneError { object: 2, error: Error::DegenerateGeometry }
    );
}

#[test]
fn first_fault_in_the_list_is_reported() {
    let objects = vec![sphere(None), sphere(Some(5)), needle(None)];
    assert_eq!(
        refused(objects, vec![false]),
        SceneError { object: 1, error: Error::PreconditionViolation }
    );
    let objects = vec![sphere(None), needle(Some(5)), sphere(Some(5))];
    assert_eq!(
        refused(objects, vec![false]),
        SceneError { object: 1, error: Error::DegenerateGeometry }
    );
}

#[test]
fn check_looks_at_the_shape_first() {
    assert_eq!(Scene::check(&sphere(None), 0), Ok(()));
    assert_eq!(Scene::check(&sphere(Some(0)), 1), Ok(()));
    assert_eq!(Scene::check(&sphere(Some(1)), 1), Err(Error::PreconditionViolation));
    assert_eq!(Scene::check(&triangle(Some(3)), 4), Ok(()));
    assert_eq!(Scene::check(&needle(Some(3)), 4), Err(Error::DegenerateGeometry));
    assert_eq!(Scene::check(&needle(Some(4)), 4), Err(Error::DegenerateGeometry));
}

#[test]
fn triangle_at_the_thresholds_is_refused() {
    let with = |edge1: u32, edge2: u32, cross: u32| Object {
        shape: Shape::Triangle { edge1, edge2, cross },
        material_id: None,
    };
    assert_eq!(Scene::check(&with(MIN_EDGE + 1, MIN_EDGE + 1, MIN_CROSS + 1), 0), Ok(()));
    assert_eq!(
        Scene::check(&with(MIN_EDGE, MIN_EDGE + 1, MIN_CROSS + 1), 0),
        Err(Error::DegenerateGeometry)
    );
    assert_eq!(
        Scene::check(&with(MIN_EDGE + 1, MIN_EDGE, MIN_CROSS + 1), 0),
        Err(Error::DegenerateGeometry)
    );
    assert_eq!(
        Scene::check(&with(MIN_EDGE + 1, MIN_EDGE + 1, MIN_CROSS), 0),
        Err(Error::DegenerateGeometry)
    );
}

#[test]
fn cast_is_the_surface_that_was_hit_or_the_sky() {
    let objects = vec![sphere(Some(1)), triangle(None)];
    let scene = Scene::new(objects, vec![false, true]).expect("nothing is wrong");
    let sun = 0.5f32.to_bits();
    assert_eq!(
        scene.cast(Some(0), sun),
        Cast::Hit { surface: Surface { material: Some(1), emits_light: true } }
    );
    assert_eq!(
        scene.cast(Some(1), sun),
        Cast::Hit { surface: Surface { material: None, emits_light: false } }
    );
    assert_eq!(scene.cast(None, sun), Cast::Miss { sun });
    assert_eq!(scene.cast(Some(2), sun), Cast::Miss { sun });
}
