use image::{DynamicImage, GrayImage, Luma, Rgb, RgbImage};
use image2ascii::palette::palette_chars;
use image2ascii::picture::{luma2ascii, open_failure, picture_height};
use image2ascii::{ascii2density, image2ascii, Glyph, GlyphBitmap};

// A palette for the default character set from stand-in glyphs: '@' has the
// most ink, a space has none, every other character lies between.
fn stand_in_palette() -> Vec<(u32, char)> {
    let mut rendered = Vec::new();
    for ch in palette_chars(None).chars() {
        let ink = match ch {
            '@' => 25,
            ' ' => 0,
            other => 1 + (other as usize) % 20,
        };
        let glyph = if ink == 0 {
            Glyph { advance_end: 10, bitmap: None }
        } else {
            let mut coverage = vec![1.0f32.to_bits(); ink];
            coverage.resize(25, 0.0f32.to_bits());
            Glyph {
                advance_end: 10,
                bitmap: Some(GlyphBitmap { left: 0, top: 0, width: 5, height: 5, coverage }),
            }
        };
        rendered.push((ch, vec![glyph]));
    }
    ascii2density(&rendered)
}

fn ramp() -> Vec<(u32, char)> {
    (0..256u32).map(|i| (255 - i, char::from_u32(0x100 + i).unwrap())).collect()
}

#[test]
fn image2ascii_draws_a_black_picture_with_the_densest_character() {
    let palette = stand_in_palette();
    assert_eq!(palette.len(), 256);
    assert_eq!(palette[0], (25, '@'));
    let black = DynamicImage::ImageLuma8(GrayImage::from_pixel(12, 8, Luma([0u8])));
    let grid = image2ascii(&black.adjust_contrast(30.0), 6, &palette).unwrap();
    assert_eq!(grid.width(), 6);
    assert_eq!(grid.height(), 2);
    assert_eq!(grid.to_lines(), vec!["@@@@@@", "@@@@@@"]);

    let black = DynamicImage::ImageRgb8(RgbImage::from_pixel(5, 9, Rgb([0u8, 0, 0])));
    let grid = image2ascii(&black, 10, &palette).unwrap();
    assert_eq!(grid.width(), 10);
    assert_eq!(grid.height(), 9);
    assert_eq!(grid.to_lines(), vec!["@@@@@@@@@@"; 9]);
}

#[test]
fn image2ascii_draws_a_near_white_picture_with_spaces() {
    let palette = stand_in_palette();
    for entry in palette[246..].iter() {
        assert_eq!(*entry, (0, ' '));
    }
    for luminance in [255u8, 250, 246] {
        let white = DynamicImage::ImageLuma8(GrayImage::from_pixel(12, 8, Luma([luminance])));
        let grid = image2ascii(&white, 6, &palette).unwrap();
        assert_eq!(grid.to_lines(), vec!["      ", "      "]);
    }
    let white = DynamicImage::ImageLuma8(GrayImage::from_pixel(12, 8, Luma([250u8])));
    let grid = image2ascii(&white.adjust_contrast(30.0), 6, &palette).unwrap();
    assert_eq!(grid.to_lines(), vec!["      ", "      "]);
}

#[test]
fn image2ascii_scales_the_picture_to_the_target_size() {
    let palette = ramp();
    // The left half is black, the right half white.
    let halves = DynamicImage::ImageLuma8(GrayImage::from_fn(8, 4, |x, _| {
        if x < 4 {
            Luma([0u8])
        } else {
            Luma([255u8])
        }
    }));
    let grid = image2ascii(&halves, 8, &palette).unwrap();
    assert_eq!(grid.width(), 8);
    assert_eq!(grid.height(), 2);
    for line in grid.buffer.iter() {
        assert_eq!(line[0], palette[0].1);
        assert_eq!(line[1], palette[0].1);
        assert_eq!(line[6], palette[255].1);
        assert_eq!(line[7], palette[255].1);
    }

    let grid = image2ascii(&halves, 2, &palette).unwrap();
    assert_eq!(grid.width(), 2);
    assert_eq!(grid.height(), 1);
    let dark = palette.iter().position(|entry| entry.1 == grid.buffer[0][0]).unwrap();
    let light = palette.iter().position(|entry| entry.1 == grid.buffer[0][1]).unwrap();
    assert!(dark < 64);
    assert!(light > 191);
}

#[test]
fn image2ascii_maps_each_luminance_to_its_palette_entry() {
    let palette = ramp();
    let steps = DynamicImage::ImageLuma8(GrayImage::from_fn(4, 2, |x, y| {
        Luma([(y * 4 + x) as u8 * 30])
    }));
    // At the picture's own width and twice its height nothing is resampled
    // but the rows, which are doubled.
    let tall = steps.resize_exact(4, 4, image::imageops::FilterType::Nearest);
    let grid = image2ascii(&tall, 4, &palette).unwrap();
    assert_eq!(grid.width(), 4);
    assert_eq!(grid.height(), 2);
    let expected = luma2ascii(
        &tall.resize_exact(4, 2, image::imageops::FilterType::Lanczos3).to_luma8().into_raw(),
        4,
        2,
        &palette,
    );
    assert_eq!(grid.buffer, expected.buffer);
}

#[test]
fn image2ascii_with_target_width_zero_is_empty() {
    let palette = ramp();
    let picture = DynamicImage::new_luma8(3, 3);
    let grid = image2ascii(&picture, 0, &palette).unwrap();
    assert_eq!(grid.width(), 0);
    assert_eq!(grid.height(), 0);
}

#[test]
fn image2ascii_with_a_flat_result_has_no_rows() {
    let palette = ramp();
    // 1 * 2 / 16 / 2 is a sixteenth, which rounds to no row at all.
    let picture = DynamicImage::new_luma8(16, 1);
    let grid = image2ascii(&picture, 2, &palette).unwrap();
    assert_eq!(grid.width(), 2);
    assert_eq!(grid.height(), 0);
    assert_eq!(grid.to_lines().len(), 0);
}

#[test]
fn image2ascii_refuses_a_picture_without_pixels() {
    let palette = ramp();
    for (width, height) in [(0, 0), (0, 4), (4, 0)] {
        let picture = DynamicImage::new_luma8(width, height);
        match image2ascii(&picture, 10, &palette) {
            Err(message) => assert_eq!(message, "the picture has no pixels"),
            Ok(_) => panic!("a picture without pixels was drawn"),
        }
    }
}

#[test]
fn image2ascii_refuses_a_picture_that_would_be_too_large() {
    let palette = ramp();
    let picture = DynamicImage::new_luma8(1, 1);
    match image2ascii(&picture, u32::MAX, &palette) {
        Err(message) => assert_eq!(message, "the picture is too large"),
        Ok(_) => panic!("a picture of 2^63 cells was drawn"),
    }
    let picture = DynamicImage::new_luma8(1, 3);
    match image2ascii(&picture, u32::MAX, &palette) {
        Err(message) => assert_eq!(message, "the picture is too large"),
        Ok(_) => panic!("a picture higher than 32 bits count was drawn"),
    }
}

#[test]
fn picture_height_is_half_the_proportional_height_rounded() {
    assert_eq!(picture_height(8, 8, 4), Some(2));
    assert_eq!(picture_height(100, 100, 30), Some(15));
    assert_eq!(picture_height(640, 480, 80), Some(30));
    // 75 * 80 / 101 / 2 is 29.7.
    assert_eq!(picture_height(101, 75, 80), Some(30));
    // 10 * 3 / 7 / 2 is 2.14.
    assert_eq!(picture_height(7, 10, 3), Some(2));
    // One half rounds up, a quarter down.
    assert_eq!(picture_height(2, 1, 2), Some(1));
    assert_eq!(picture_height(4, 1, 2), Some(0));
    assert_eq!(picture_height(4, 3, 2), Some(1));
    assert_eq!(picture_height(5, 0, 9), Some(0));
    assert_eq!(picture_height(5, 9, 0), Some(0));
    assert_eq!(picture_height(2, u32::MAX, 2), Some(2147483648));
    assert_eq!(picture_height(1, u32::MAX, 2), Some(u32::MAX));
    assert_eq!(picture_height(1, u32::MAX, 3), None);
    assert_eq!(picture_height(1, u32::MAX, u32::MAX), None);
    assert_eq!(picture_height(u32::MAX, u32::MAX, u32::MAX), Some(2147483648));
}

#[test]
fn luma2ascii_indexes_the_palette_by_luminance() {
    let palette = ramp();
    let luma = vec![0u8, 1, 2, 253, 254, 255];
    let grid = luma2ascii(&luma, 3, 2, &palette);
    assert_eq!(grid.width(), 3);
    assert_eq!(grid.height(), 2);
    assert_eq!(grid.buffer[0], [palette[0].1, palette[1].1, palette[2].1]);
    assert_eq!(grid.buffer[1], [palette[253].1, palette[254].1, palette[255].1]);

    let short = vec![(9u32, 'a'), (5, 'b'), (1, 'c')];
    let grid = luma2ascii(&vec![2u8, 0, 1, 1], 1, 4, &short);
    assert_eq!(grid.to_lines(), vec!["c", "a", "b", "b"]);

    let grid = luma2ascii(&Vec::new(), 0, 5, &short);
    assert_eq!(grid.width(), 0);
    assert_eq!(grid.height(), 5);
}

#[test]
fn open_failure_names_the_file() {
    assert_eq!(open_failure("cat.png"), "can not open file cat.png");
    assert_eq!(open_failure(""), "can not open file ");
}

#[test]
fn image2ascii_enlarges_a_single_pixel() {
    let palette = ramp();
    let pixel = DynamicImage::ImageLuma8(GrayImage::from_pixel(1, 1, Luma([255u8])));
    let grid = image2ascii(&pixel, 6, &palette).unwrap();
    assert_eq!(grid.width(), 6);
    assert_eq!(grid.height(), 3);
    for line in grid.buffer.iter() {
        for ch in line.iter() {
            assert_eq!(*ch, palette[255].1);
        }
    }
}

#[test]
fn image2ascii_reduces_a_wide_picture_to_one_column() {
    let palette = ramp();
    let wide = DynamicImage::ImageRgb8(RgbImage::from_pixel(300, 7, Rgb([0u8, 0, 0])));
    let grid = image2ascii(&wide, 1, &palette).unwrap();
    assert_eq!(grid.width(), 1);
    assert_eq!(grid.height(), 0);

    let high = DynamicImage::ImageRgb8(RgbImage::from_pixel(3, 700, Rgb([0u8, 0, 0])));
    let grid = image2ascii(&high, 1, &palette).unwrap();
    assert_eq!(grid.width(), 1);
    assert_eq!(grid.height(), 117);
    for line in grid.buffer.iter() {
        assert_eq!(line[0], palette[0].1);
    }
}

#[test]
fn image2ascii_draws_small_pictures_of_every_size() {
    let palette = ramp();
    for width in 1..=9u32 {
        for height in 1..=9u32 {
            let black = DynamicImage::ImageLuma8(GrayImage::from_pixel(width, height, Luma([0u8])));
            for target_width in 0..=11u32 {
                let rows = picture_height(width, height, target_width).unwrap();
                let grid = image2ascii(&black, target_width, &palette).unwrap();
                assert_eq!(grid.width(), target_width as usize);
                assert_eq!(grid.height(), rows as usize);
                assert_eq!(grid.buffer.len(), rows as usize);
                for line in grid.buffer.iter() {
                    assert_eq!(line.len(), target_width as usize);
                    for ch in line.iter() {
                        assert_eq!(*ch, palette[0].1);
                    }
                }
            }
        }
    }
}
