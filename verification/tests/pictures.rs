use yt_dlp_clipper::image::{downscale_thumb, to_image, Color32, ColorImage};

const WHITE: Color32 = Color32 { r: 255, g: 255, b: 255, a: 255 };
const BLACK: Color32 = Color32 { r: 0, g: 0, b: 0, a: 255 };

#[test]
fn downscale_preserves_aspect_and_is_in_bounds() {
    let src = ColorImage { size: [640, 480], pixels: vec![WHITE; 640 * 480] };
    let out = downscale_thumb(&src, 320);
    assert_eq!(out.size, [320, 240]);
    assert_eq!(out.pixels.len(), 320 * 240);
}

#[test]
fn downscale_skips_when_already_small() {
    let src = ColorImage { size: [100, 50], pixels: vec![BLACK; 100 * 50] };
    assert_eq!(downscale_thumb(&src, 320).size, [100, 50]);
}

#[test]
fn downscale_picks_the_nearest_pixels() {
    let pixel = |i: usize| Color32 { r: i as u8, g: 0, b: 0, a: 255 };
    let src = ColorImage { size: [4, 3], pixels: (0..12).map(pixel).collect() };
    let out = downscale_thumb(&src, 2);
    assert_eq!(out.size, [2, 1]);
    assert_eq!(out.pixels, [pixel(0), pixel(2)]);
    let flat = ColorImage { size: [8, 1], pixels: (0..8).map(pixel).collect() };
    assert_eq!(downscale_thumb(&flat, 4).size, [4, 1]);
    let empty = ColorImage { size: [8, 0], pixels: vec![] };
    assert_eq!(downscale_thumb(&empty, 4).size, [8, 0]);
}

#[test]
fn rows_are_packed_by_their_stride() {
    // Two rows of one pixel, six bytes apart.
    let data = [1, 2, 3, 255, 9, 9, 4, 5, 6, 255];
    let image = to_image(1, 2, 6, &data);
    assert_eq!(image.size, [1, 2]);
    assert_eq!(
        image.pixels,
        [Color32 { r: 1, g: 2, b: 3, a: 255 }, Color32 { r: 4, g: 5, b: 6, a: 255 }]
    );
}

#[test]
fn transparent_pixels_lose_their_colour() {
    let image = to_image(2, 1, 8, &[200, 100, 50, 0, 200, 100, 50, 128]);
    assert_eq!(image.pixels[0], Color32 { r: 0, g: 0, b: 0, a: 0 });
    let [r, g, b, a] = egui::Color32::from_rgba_unmultiplied(200, 100, 50, 128).to_array();
    assert_eq!(image.pixels[1], Color32 { r, g, b, a });
    assert!(image.pixels[1].r < 200);
}
