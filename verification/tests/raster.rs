use raytracer::{PixelRay, Raster};

fn raster(width: u32, height: u32) -> Raster {
    Raster::new(width, height).expect("the raster fits")
}

#[test]
fn raster_needs_a_pixel() {
    assert!(Raster::new(0, 0).is_none());
    assert!(Raster::new(0, 5).is_none());
    assert!(Raster::new(5, 0).is_none());
    assert!(Raster::new(1, 1).is_some());
    assert!(Raster::new(128, 96).is_some());
}

#[test]
fn raster_whose_frame_has_no_length_is_refused() {
    assert!(Raster::new(u32::MAX, u32::MAX).is_none());
    assert!(Raster::new(1 << 31, 1 << 31).is_none());
}

#[test]
fn raster_knows_its_size() {
    let raster = raster(128, 96);
    assert_eq!(raster.width(), 128);
    assert_eq!(raster.height(), 96);
    assert_eq!(raster.pixel_count(), 12288);
    assert_eq!(raster.frame_len(), 49152);
}

#[test]
fn pixels_are_numbered_row_by_row() {
    let raster = raster(128, 96);
    assert_eq!(raster.coords(0), Some((0, 0)));
    assert_eq!(raster.coords(1), Some((1, 0)));
    assert_eq!(raster.coords(127), Some((127, 0)));
    assert_eq!(raster.coords(128), Some((0, 1)));
    assert_eq!(raster.coords(300), Some((44, 2)));
    assert_eq!(raster.coords(12287), Some((127, 95)));
    assert_eq!(raster.coords(12288), None);
    assert_eq!(raster.index_of(44, 2), Some(300));
    assert_eq!(raster.index_of(127, 95), Some(12287));
    assert_eq!(raster.index_of(128, 0), None);
    assert_eq!(raster.index_of(0, 96), None);
}

#[test]
fn coords_and_index_undo_each_other() {
    let raster = raster(7, 5);
    for index in 0..raster.pixel_count() {
        let (x, y) = raster.coords(index).expect("the pixel exists");
        assert_eq!(raster.index_of(x, y), Some(index));
    }
    for y in 0..5 {
        for x in 0..7 {
            let index = raster.index_of(x, y).expect("the pixel exists");
            assert_eq!(raster.coords(index), Some((x, y)));
        }
    }
}

#[test]
fn pixel_looks_forward_and_off_the_centre() {
    let raster = raster(128, 96);
    assert_eq!(raster.ray(64, 48), Some(PixelRay { x: 192, y: 0, z: 0 }));
    assert_eq!(raster.ray(0, 0), Some(PixelRay { x: 192, y: 96, z: 128 }));
    assert_eq!(raster.ray(127, 95), Some(PixelRay { x: 192, y: -94, z: -126 }));
    assert_eq!(raster.ray(10, 90), Some(PixelRay { x: 192, y: -84, z: 108 }));
    assert_eq!(raster.ray(128, 0), None);
    assert_eq!(raster.ray(0, 96), None);
}

#[test]
fn pixel_ray_is_the_screen_vector_scaled() {
    let (width, height) = (128u32, 96u32);
    let raster = raster(width, height);
    let aspect_ratio = width as f32 / height as f32;
    for (x, y) in [(0u32, 0u32), (64, 48), (127, 95), (17, 80), (100, 3)] {
        let ray = raster.ray(x, y).expect("the pixel exists");
        let scale = 2.0 * height as f32;
        let z = (0.5 * width as f32 - x as f32) / width as f32 * aspect_ratio;
        let y_on_screen = (0.5 * height as f32 - y as f32) / height as f32;
        assert!((ray.x as f32 / scale - 1.0).abs() < 1.0e-6);
        assert!((ray.y as f32 / scale - y_on_screen).abs() < 1.0e-6);
        assert!((ray.z as f32 / scale - z).abs() < 1.0e-6);
    }
}

#[test]
fn pixel_steps_turn_the_ray_alike_along_both_axes() {
    let raster = raster(640, 480);
    let here = raster.ray(100, 100).expect("the pixel exists");
    let right = raster.ray(101, 100).expect("the pixel exists");
    let below = raster.ray(100, 101).expect("the pixel exists");
    assert_eq!((right.x, right.y, right.z), (here.x, here.y, here.z - 2));
    assert_eq!((below.x, below.y, below.z), (here.x, here.y - 2, here.z));
}

#[test]
fn largest_raster_does_not_overflow_the_ray() {
    let raster = raster(u32::MAX, 1);
    assert_eq!(
        raster.ray(u32::MAX - 1, 0),
        Some(PixelRay { x: 2, y: 1, z: u32::MAX as i64 - 2 * (u32::MAX as i64 - 1) })
    );
}

#[test]
fn frame_holds_the_pixels_in_order() {
    let raster = raster(2, 2);
    let pixels = vec![[1, 2, 3, 255], [4, 5, 6, 255], [7, 8, 9, 255], [10, 11, 12, 255]];
    assert_eq!(
        raster.frame(&pixels),
        Some(vec![1, 2, 3, 255, 4, 5, 6, 255, 7, 8, 9, 255, 10, 11, 12, 255])
    );
}

#[test]
fn frame_needs_one_entry_for_each_pixel() {
    let raster = raster(2, 2);
    assert_eq!(raster.frame(&vec![[0, 0, 0, 255]; 3]), None);
    assert_eq!(raster.frame(&vec![[0, 0, 0, 255]; 5]), None);
    assert_eq!(raster.frame(&Vec::new()), None);
    assert_eq!(raster.frame(&vec![[9, 8, 7, 255]; 4]).map(|frame| frame.len()), Some(16));
}

#[test]
fn frame_does_not_depend_on_the_order_of_computation() {
    let raster = raster(16, 8);
    let pixel = |index: usize| [index as u8, (index * 3) as u8, (index * 7) as u8, 255];
    let forward: Vec<[u8; 4]> = (0..raster.pixel_count()).map(pixel).collect();
    let mut backward = vec![[0u8; 4]; raster.pixel_count()];
    for index in (0..raster.pixel_count()).rev() {
        backward[index] = pixel(index);
    }
    assert_eq!(raster.frame(&forward), raster.frame(&backward));
    let frame = raster.frame(&forward).expect("one entry for each pixel");
    for index in 0..raster.pixel_count() {
        assert_eq!(frame[4 * index..4 * index + 4], pixel(index));
    }
}

#[test]
fn render_shows_each_colour_at_its_pixel() {
    let raster = raster(2, 2);
    let bits = |r: f32, g: f32, b: f32| [r.to_bits(), g.to_bits(), b.to_bits()];
    let colors = vec![
        bits(1.0, 0.5, 0.0),
        bits(0.2, 0.4, 0.6),
        bits(9.0, -1.0, f32::NAN),
        bits(0.0, 0.0, 1.0),
    ];
    assert_eq!(
        raster.render(&colors),
        Some(vec![255, 127, 0, 255, 51, 102, 153, 255, 255, 0, 0, 255, 0, 0, 255, 255])
    );
    assert_eq!(raster.render(&colors[..3].to_vec()), None);
    assert_eq!(raster.render(&Vec::new()), None);
}

#[test]
fn render_does_not_depend_on_the_order_of_computation() {
    let raster = raster(16, 8);
    let color = |index: usize| {
        let level = index as f32 / 128.0;
        [level.to_bits(), (1.0 - level).to_bits(), (level * level).to_bits()]
    };
    let forward: Vec<[u32; 3]> = (0..raster.pixel_count()).map(color).collect();
    let mut backward = vec![[0u32; 3]; raster.pixel_count()];
    for index in (0..raster.pixel_count()).rev() {
        backward[index] = color(index);
    }
    let frame = raster.render(&forward).expect("one colour for each pixel");
    assert_eq!(raster.render(&backward), Some(frame.clone()));
    for index in 0..raster.pixel_count() {
        assert_eq!(
            frame[4 * index..4 * index + 4],
            raytracer::color::to_pixel_color(color(index))
        );
    }
}
