use egui_rasterizer::error::{font_atlas_id, RenderError, TextureId};
use egui_rasterizer::image::{data_to_pixmap, fits, Color, Image, ImageData, MAX_ROW};
use egui_rasterizer::texture::{TextureCache, TextureSet};

const RED: Color = Color { r: 255, g: 0, b: 0, a: 255 };
const GREEN: Color = Color { r: 0, g: 255, b: 0, a: 255 };
const BLUE: Color = Color { r: 0, g: 0, b: 255, a: 255 };
const WHITE: Color = Color { r: 255, g: 255, b: 255, a: 255 };
const CLEAR: Color = Color { r: 0, g: 0, b: 0, a: 0 };

fn solid(width: u32, height: u32, color: Color) -> ImageData {
    ImageData { width, height, pixels: vec![color; (width * height) as usize] }
}

fn whole(id: TextureId, image: ImageData) -> TextureSet {
    TextureSet { id, pos: None, image }
}

fn patch(id: TextureId, pos: (u32, u32), image: ImageData) -> TextureSet {
    TextureSet { id, pos: Some(pos), image }
}

fn pixel(image: &Image, x: u32, y: u32) -> [u8; 4] {
    let at = 4 * (y * image.width + x) as usize;
    [image.data[at], image.data[at + 1], image.data[at + 2], image.data[at + 3]]
}

#[test]
fn font_atlas_is_managed_texture_zero() {
    assert_eq!(font_atlas_id(), TextureId::Managed(0));
}

#[test]
fn upload_copies_colours_byte_for_byte() {
    let data = ImageData {
        width: 2,
        height: 1,
        pixels: vec![Color { r: 1, g: 2, b: 3, a: 4 }, Color { r: 5, g: 6, b: 7, a: 8 }],
    };
    let image = data_to_pixmap(&data).unwrap();
    assert_eq!(image.width, 2);
    assert_eq!(image.height, 1);
    assert_eq!(image.data, vec![1, 2, 3, 4, 5, 6, 7, 8]);
    assert!(image.is_wf());
}

#[test]
fn upload_without_pixels_cannot_be_sized() {
    let data = ImageData { width: 0, height: 3, pixels: vec![] };
    assert_eq!(data_to_pixmap(&data), Err(RenderError::Allocation { width: 0, height: 3 }));
    let data = ImageData { width: 3, height: 0, pixels: vec![] };
    assert_eq!(data_to_pixmap(&data), Err(RenderError::Allocation { width: 3, height: 0 }));
}

#[test]
fn upload_with_the_wrong_pixel_count_cannot_be_sized() {
    let data = ImageData { width: 2, height: 2, pixels: vec![RED; 3] };
    assert_eq!(data_to_pixmap(&data), Err(RenderError::Allocation { width: 2, height: 2 }));
    let data = ImageData { width: 2, height: 2, pixels: vec![RED; 5] };
    assert_eq!(data_to_pixmap(&data), Err(RenderError::Allocation { width: 2, height: 2 }));
}

#[test]
fn upload_of_any_width_that_fits_a_row_is_decoded() {
    let data = ImageData { width: 8192, height: 1, pixels: vec![RED; 8192] };
    let image = data_to_pixmap(&data).unwrap();
    assert_eq!((image.width, image.height), (8192, 1));
    assert_eq!(image.data.len(), 4 * 8192);
    assert_eq!(&image.data[4 * 8191..], &[255, 0, 0, 255]);
    let data = ImageData { width: 1, height: 70_000, pixels: vec![GREEN; 70_000] };
    let image = data_to_pixmap(&data).unwrap();
    assert_eq!((image.width, image.height), (1, 70_000));
    assert!(image.is_wf());
}

#[test]
fn upload_wider_than_a_row_cannot_be_sized() {
    let data = ImageData { width: MAX_ROW + 1, height: 1, pixels: vec![] };
    assert_eq!(
        data_to_pixmap(&data),
        Err(RenderError::Allocation { width: MAX_ROW + 1, height: 1 })
    );
}

#[test]
fn size_fits_where_sides_are_positive_and_a_row_fits_in_31_bits() {
    assert!(fits(1, 1));
    assert!(fits(8192, 8192));
    assert!(fits(MAX_ROW, 1));
    assert!(!fits(MAX_ROW + 1, 1));
    assert!(!fits(0, 1));
    assert!(!fits(1, 0));
}

#[test]
fn buffer_from_bytes_checks_the_size() {
    assert!(Image::from_rgba(1, 1, vec![0; 4]).is_ok());
    assert_eq!(
        Image::from_rgba(1, 1, vec![0; 3]),
        Err(RenderError::Allocation { width: 1, height: 1 })
    );
    assert_eq!(
        Image::from_rgba(0, 1, vec![]),
        Err(RenderError::Allocation { width: 0, height: 1 })
    );
    let broken = Image { width: 2, height: 2, data: vec![0; 4] };
    assert!(!broken.is_wf());
}

#[test]
fn crop_copies_the_rows_of_the_rectangle() {
    let data: Vec<u8> = (0..24).collect();
    let image = Image::from_rgba(3, 2, data).unwrap();
    let part = image.crop(1, 0, 3, 2).unwrap();
    assert_eq!(part.width, 2);
    assert_eq!(part.height, 2);
    assert_eq!(part.data, vec![4, 5, 6, 7, 8, 9, 10, 11, 16, 17, 18, 19, 20, 21, 22, 23]);
    let one = image.crop(0, 1, 1, 2).unwrap();
    assert_eq!(one.data, vec![12, 13, 14, 15]);
}

#[test]
fn crop_of_an_empty_or_outside_rectangle_is_none() {
    let image = Image::from_rgba(3, 2, vec![0; 24]).unwrap();
    assert_eq!(image.crop(1, 0, 1, 2), None);
    assert_eq!(image.crop(2, 0, 1, 2), None);
    assert_eq!(image.crop(0, 1, 3, 1), None);
    assert_eq!(image.crop(0, 0, 4, 2), None);
    assert_eq!(image.crop(0, 0, 3, 3), None);
    assert!(image.crop(0, 0, 3, 2).is_some());
}

#[test]
fn tint_colours_only_covered_texels() {
    let data = ImageData { width: 2, height: 1, pixels: vec![WHITE, CLEAR] };
    let mut image = data_to_pixmap(&data).unwrap();
    image.tint(RED);
    assert_eq!(image.width, 2);
    assert_eq!(image.height, 1);
    assert_eq!(image.data, vec![255, 0, 0, 255, 0, 0, 0, 0]);
}

#[test]
fn draw_over_writes_the_patch_and_leaves_the_rest() {
    let mut image = data_to_pixmap(&solid(3, 3, WHITE)).unwrap();
    let red = data_to_pixmap(&solid(2, 1, RED)).unwrap();
    image.draw_over(&red, 1, 2);
    for y in 0..3 {
        for x in 0..3 {
            let expected = if y == 2 && x >= 1 { [255, 0, 0, 255] } else { [255, 255, 255, 255] };
            assert_eq!(pixel(&image, x, y), expected);
        }
    }
}

#[test]
fn draw_over_copies_a_translucent_patch_as_it_is() {
    let mut image = data_to_pixmap(&solid(2, 1, WHITE)).unwrap();
    let faint = Color { r: 10, g: 20, b: 30, a: 40 };
    let patch = data_to_pixmap(&ImageData { width: 2, height: 1, pixels: vec![faint, CLEAR] }).unwrap();
    image.draw_over(&patch, 0, 0);
    assert_eq!(image.data, vec![10, 20, 30, 40, 0, 0, 0, 0]);
}

#[test]
fn draw_over_copies_each_row_of_the_patch() {
    let mut image = data_to_pixmap(&solid(4, 3, WHITE)).unwrap();
    let patch = Image::from_rgba(2, 2, (1..=16).collect()).unwrap();
    image.draw_over(&patch, 1, 1);
    assert_eq!(pixel(&image, 1, 1), [1, 2, 3, 4]);
    assert_eq!(pixel(&image, 2, 1), [5, 6, 7, 8]);
    assert_eq!(pixel(&image, 1, 2), [9, 10, 11, 12]);
    assert_eq!(pixel(&image, 2, 2), [13, 14, 15, 16]);
    for (x, y) in [(0, 0), (1, 0), (2, 0), (3, 0), (0, 1), (3, 1), (0, 2), (3, 2)] {
        assert_eq!(pixel(&image, x, y), [255, 255, 255, 255]);
    }
}

#[test]
fn draw_over_clips_a_patch_that_reaches_outside() {
    let mut image = data_to_pixmap(&solid(2, 2, WHITE)).unwrap();
    let blue = data_to_pixmap(&solid(5, 5, BLUE)).unwrap();
    image.draw_over(&blue, 1, 1);
    assert_eq!(pixel(&image, 0, 0), [255, 255, 255, 255]);
    assert_eq!(pixel(&image, 1, 0), [255, 255, 255, 255]);
    assert_eq!(pixel(&image, 0, 1), [255, 255, 255, 255]);
    assert_eq!(pixel(&image, 1, 1), [0, 0, 255, 255]);
    assert_eq!(image.data.len(), 16);
}

#[test]
fn draw_over_at_a_corner_outside_changes_nothing() {
    let mut image = data_to_pixmap(&solid(2, 2, WHITE)).unwrap();
    let before = image.clone();
    let blue = data_to_pixmap(&solid(1, 1, BLUE)).unwrap();
    image.draw_over(&blue, 2, 0);
    assert_eq!(image, before);
    image.draw_over(&blue, 0, 2);
    assert_eq!(image, before);
    image.draw_over(&blue, u32::MAX, u32::MAX);
    assert_eq!(image, before);
}

#[test]
fn new_cache_is_empty() {
    let cache = TextureCache::new();
    assert!(!cache.contains(TextureId::Managed(0)));
    assert!(cache.get(TextureId::User(0)).is_none());
}

#[test]
fn set_then_free_leaves_no_entry() {
    let mut cache = TextureCache::new();
    let id = TextureId::User(42);
    assert_eq!(cache.set(&whole(id, solid(2, 2, RED))), Ok(()));
    assert!(cache.contains(id));
    cache.free(id);
    assert!(!cache.contains(id));
    assert!(cache.get(id).is_none());
}

#[test]
fn set_replaces_what_was_there() {
    let mut cache = TextureCache::new();
    let id = TextureId::Managed(3);
    assert_eq!(cache.set(&whole(id, solid(2, 2, RED))), Ok(()));
    assert_eq!(cache.set(&whole(id, solid(1, 1, GREEN))), Ok(()));
    let image = cache.get(id).unwrap();
    assert_eq!((image.width, image.height), (1, 1));
    assert_eq!(image.data, vec![0, 255, 0, 255]);
}

#[test]
fn managed_and_user_textures_are_numbered_apart() {
    let mut cache = TextureCache::new();
    assert_eq!(cache.set(&whole(TextureId::Managed(1), solid(1, 1, RED))), Ok(()));
    assert_eq!(cache.set(&whole(TextureId::User(1), solid(1, 1, GREEN))), Ok(()));
    assert_eq!(cache.get(TextureId::Managed(1)).unwrap().data, vec![255, 0, 0, 255]);
    assert_eq!(cache.get(TextureId::User(1)).unwrap().data, vec![0, 255, 0, 255]);
    cache.free(TextureId::Managed(1));
    assert!(!cache.contains(TextureId::Managed(1)));
    assert!(cache.contains(TextureId::User(1)));
}

#[test]
fn patch_of_a_missing_texture_is_an_error_and_changes_nothing() {
    let mut cache = TextureCache::new();
    assert_eq!(cache.set(&whole(TextureId::User(1), solid(1, 1, RED))), Ok(()));
    let missing = TextureId::User(2);
    assert_eq!(
        cache.set(&patch(missing, (0, 0), solid(1, 1, GREEN))),
        Err(RenderError::MissingTexture(missing))
    );
    assert!(!cache.contains(missing));
    assert_eq!(cache.get(TextureId::User(1)).unwrap().data, vec![255, 0, 0, 255]);
}

#[test]
fn patch_of_a_missing_texture_is_reported_before_its_size() {
    let mut cache = TextureCache::new();
    let missing = TextureId::Managed(9);
    let unsized_image = ImageData { width: 0, height: 0, pixels: vec![] };
    assert_eq!(
        cache.set(&patch(missing, (0, 0), unsized_image)),
        Err(RenderError::MissingTexture(missing))
    );
}

#[test]
fn patch_is_drawn_in_place() {
    let mut cache = TextureCache::new();
    let id = font_atlas_id();
    assert_eq!(cache.set(&whole(id, solid(4, 2, CLEAR))), Ok(()));
    assert_eq!(cache.set(&patch(id, (2, 1), solid(2, 1, WHITE))), Ok(()));
    let image = cache.get(id).unwrap();
    assert_eq!((image.width, image.height), (4, 2));
    let mut expected = vec![0u8; 32];
    for byte in expected.iter_mut().skip(24) {
        *byte = 255;
    }
    assert_eq!(image.data, expected);
}

#[test]
fn upload_that_cannot_be_sized_changes_nothing() {
    let mut cache = TextureCache::new();
    let id = TextureId::User(5);
    assert_eq!(cache.set(&whole(id, solid(1, 1, RED))), Ok(()));
    let bad = ImageData { width: 2, height: 2, pixels: vec![GREEN] };
    assert_eq!(cache.set(&whole(id, bad)), Err(RenderError::Allocation { width: 2, height: 2 }));
    assert_eq!(cache.get(id).unwrap().data, vec![255, 0, 0, 255]);
    let bad = ImageData { width: 2, height: 2, pixels: vec![GREEN] };
    assert_eq!(
        cache.set(&patch(id, (0, 0), bad)),
        Err(RenderError::Allocation { width: 2, height: 2 })
    );
    assert_eq!(cache.get(id).unwrap().data, vec![255, 0, 0, 255]);
}

#[test]
fn free_of_a_missing_texture_does_nothing() {
    let mut cache = TextureCache::new();
    assert_eq!(cache.set(&whole(TextureId::User(1), solid(1, 1, RED))), Ok(()));
    cache.free(TextureId::User(2));
    cache.free(TextureId::Managed(1));
    assert!(cache.contains(TextureId::User(1)));
}

#[test]
fn uploads_stop_at_the_first_error() {
    let mut cache = TextureCache::new();
    let sets = vec![
        whole(TextureId::User(1), solid(1, 1, RED)),
        patch(TextureId::User(2), (0, 0), solid(1, 1, GREEN)),
        whole(TextureId::User(3), solid(1, 1, BLUE)),
    ];
    assert_eq!(cache.apply_sets(&sets), Err(RenderError::MissingTexture(TextureId::User(2))));
    assert!(cache.contains(TextureId::User(1)));
    assert!(!cache.contains(TextureId::User(2)));
    assert!(!cache.contains(TextureId::User(3)));
}

#[test]
fn uploads_are_applied_in_order() {
    let mut cache = TextureCache::new();
    let id = TextureId::User(1);
    let sets = vec![
        whole(id, solid(2, 1, WHITE)),
        patch(id, (1, 0), solid(1, 1, RED)),
        patch(id, (0, 0), solid(1, 1, BLUE)),
    ];
    assert_eq!(cache.apply_sets(&sets), Ok(()));
    assert_eq!(cache.get(id).unwrap().data, vec![0, 0, 255, 255, 255, 0, 0, 255]);
}

#[test]
fn frees_are_applied_to_each_identifier() {
    let mut cache = TextureCache::new();
    let sets = vec![
        whole(TextureId::User(1), solid(1, 1, RED)),
        whole(TextureId::User(2), solid(1, 1, GREEN)),
        whole(TextureId::Managed(1), solid(1, 1, BLUE)),
    ];
    assert_eq!(cache.apply_sets(&sets), Ok(()));
    cache.apply_frees(&vec![TextureId::User(1), TextureId::Managed(1), TextureId::User(9)]);
    assert!(!cache.contains(TextureId::User(1)));
    assert!(cache.contains(TextureId::User(2)));
    assert!(!cache.contains(TextureId::Managed(1)));
}
