use image::GenericImageView;
use sprite_batch::frac::Frac;
use sprite_batch::texture::{TextureCollection, TextureCollectionCreationError};

fn fr(num: i64, den: i64) -> Frac {
    Frac::new(num, den)
}

fn images_of_widths(widths: &[u32], height: u32) -> Vec<(String, image::DynamicImage)> {
    widths
        .iter()
        .enumerate()
        .map(|(i, w)| (format!("img{}", i), image::DynamicImage::new_rgba8(*w, height)))
        .collect()
}

#[test]
fn atlas_packs_left_to_right() {
    // widths [4, 6, 2] at a common height: min_u values 0, 4/12, 10/12,
    // and every max_v is 1
    let collection = TextureCollection::new(images_of_widths(&[4, 6, 2], 7)).unwrap();
    let expected_min_u = [fr(0, 12), fr(4, 12), fr(10, 12)];
    let expected_max_u = [fr(4, 12), fr(10, 12), fr(12, 12)];
    for i in 0..3 {
        let tex = collection.get(&format!("img{}", i)).unwrap();
        assert!(tex.area.min_x().eqv(expected_min_u[i]));
        assert!(tex.area.max_x().eqv(expected_max_u[i]));
        assert!(tex.area.max_y().eqv(fr(1, 1)));
        // common height: regions span the full vertical range
        assert!(tex.area.min_y().eqv(fr(0, 1)));
    }
}

#[test]
fn atlas_top_aligns_short_images() {
    // heights [4, 6, 2]: the atlas is 6 tall and shorter images leave
    // transparent padding below, so min_v is 1 - h/6
    let images = vec![
        (String::from("a"), image::DynamicImage::new_rgba8(3, 4)),
        (String::from("b"), image::DynamicImage::new_rgba8(3, 6)),
        (String::from("c"), image::DynamicImage::new_rgba8(3, 2)),
    ];
    let collection = TextureCollection::new(images).unwrap();
    assert!(collection.get(&String::from("a")).unwrap().area.min_y().eqv(fr(2, 6)));
    assert!(collection.get(&String::from("b")).unwrap().area.min_y().eqv(fr(0, 6)));
    assert!(collection.get(&String::from("c")).unwrap().area.min_y().eqv(fr(4, 6)));
}

#[test]
fn atlas_bitmap_has_summed_width_and_max_height() {
    let collection = TextureCollection::new(images_of_widths(&[4, 6, 2], 7)).unwrap();
    assert_eq!(collection.texture.dimensions(), (12, 7));
}

#[test]
fn atlas_lookup_miss_is_recoverable() {
    let collection = TextureCollection::new(images_of_widths(&[4, 6, 2], 7)).unwrap();
    assert!(collection.get(&String::from("missing")).is_none());
    assert!(collection.get(&String::from("img0")).is_some());
}

#[test]
fn atlas_rejects_empty_images() {
    let images = vec![(String::from("empty"), image::DynamicImage::new_rgba8(0, 5))];
    match TextureCollection::new(images) {
        Err(TextureCollectionCreationError::Image) => {}
        _ => panic!("an empty source image must be rejected"),
    }
}

#[test]
fn atlas_of_nothing_is_empty() {
    let collection = TextureCollection::new(Vec::new()).unwrap();
    assert_eq!(collection.texture.dimensions(), (0, 0));
    assert!(collection.get(&String::from("anything")).is_none());
}

#[test]
fn atlas_duplicate_names_keep_the_last_image() {
    let images = vec![
        (String::from("x"), image::DynamicImage::new_rgba8(4, 4)),
        (String::from("x"), image::DynamicImage::new_rgba8(4, 4)),
    ];
    let collection = TextureCollection::new(images).unwrap();
    // the later image starts at offset 4 of 8
    assert!(collection.get(&String::from("x")).unwrap().area.min_x().eqv(fr(4, 8)));
}
