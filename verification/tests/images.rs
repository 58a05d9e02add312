use copi::codec::{
    compress, decode_image, decode_png_file, encode_image, encode_png_image, CodecError,
    CodecLimits, RasterImage,
};
use copi::content::ClipboardContent;
use copi::monitor::{CapturedImage, ClipboardBackend, ClipboardMonitor, ClipboardWrite};
use copi::sizing::Size;

const PNG_SIGNATURE: [u8; 8] = [0x89, b'P', b'N', b'G', 0x0d, 0x0a, 0x1a, 0x0a];

fn size(width: u32, height: u32) -> Size {
    Size { width, height }
}

fn flat(width: u32, height: u32, pixel: [u8; 4]) -> RasterImage {
    let mut pixels = Vec::new();
    for _ in 0..(width as usize * height as usize) {
        pixels.extend_from_slice(&pixel);
    }
    RasterImage::new(size(width, height), pixels).unwrap()
}

fn noise(width: u32, height: u32) -> RasterImage {
    let mut state: u64 = 0x2545_f491_4f6c_dd1d;
    let mut pixels = Vec::new();
    for _ in 0..(width as usize * height as usize * 4) {
        state ^= state << 13;
        state ^= state >> 7;
        state ^= state << 17;
        pixels.push((state >> 24) as u8);
    }
    RasterImage::new(size(width, height), pixels).unwrap()
}

fn parts(content: &ClipboardContent) -> (String, u32, u32) {
    match content {
        ClipboardContent::Image { data, width, height } => (data.clone(), *width, *height),
        other => panic!("not an image: {:?}", other),
    }
}

#[test]
fn raster_needs_all_its_pixels() {
    assert!(RasterImage::new(size(2, 2), vec![0; 15]).is_none());
    let exact = RasterImage::new(size(2, 2), vec![9; 16]).unwrap();
    assert_eq!(exact.as_bytes(), &[9u8; 16][..]);
    assert_eq!(exact.dimensions(), size(2, 2));
    let longer = RasterImage::new(size(2, 2), (0..20).collect()).unwrap();
    assert_eq!(longer.as_bytes(), &(0..16).collect::<Vec<u8>>()[..]);
    assert!(RasterImage::new(size(u32::MAX, u32::MAX), vec![0; 16]).is_none());
}

#[test]
fn declared_size_must_match_the_pixels() {
    assert!(RasterImage::declared(size(2, 2), vec![0; 16]).is_ok());
    assert_eq!(RasterImage::declared(size(2, 2), vec![0; 20]).unwrap_err(), CodecError::Corrupt);
    assert_eq!(RasterImage::declared(size(2, 2), vec![0; 12]).unwrap_err(), CodecError::Corrupt);
}

#[test]
fn small_image_is_encoded_as_png_at_its_own_size() {
    let image = flat(3, 2, [10, 20, 30, 255]);
    let encoded = compress(&image, &CodecLimits::standard()).unwrap();
    assert_eq!(encoded.size, size(3, 2));
    assert_eq!(&encoded.png[..8], &PNG_SIGNATURE);
    assert!(encoded.png.len() <= 5_242_880);
}

#[test]
fn image_round_trips_through_the_codec() {
    let pixels: Vec<u8> = vec![
        255, 0, 0, 255, 0, 255, 0, 255, 0, 0, 255, 255, 1, 2, 3, 4, 5, 6, 7, 8, 9, 10, 11, 12,
    ];
    let image = RasterImage::new(size(3, 2), pixels.clone()).unwrap();
    let content = encode_image(&image, &CodecLimits::standard()).unwrap();
    let (data, width, height) = parts(&content);
    assert_eq!((width, height), (3, 2));
    assert_eq!(data.len() % 4, 0);
    assert!(data.starts_with("iVBORw0KGgo"));
    let file = decode_png_file(&data).unwrap();
    assert_eq!(&file[..8], &PNG_SIGNATURE);
    assert_eq!(data.len(), 4 * ((file.len() + 2) / 3));
    let decoded = decode_image(&data, width, height).unwrap();
    assert_eq!(decoded.dimensions(), size(3, 2));
    assert_eq!(decoded.as_bytes(), &pixels[..]);
}

#[test]
fn image_above_the_edge_ceiling_is_scaled_down() {
    let image = flat(5000, 10, [200, 100, 50, 255]);
    let content = encode_image(&image, &CodecLimits::standard()).unwrap();
    let (data, width, height) = parts(&content);
    assert_eq!((width, height), (4096, 8));
    let decoded = decode_image(&data, width, height).unwrap();
    assert_eq!(decoded.dimensions(), size(4096, 8));
    assert_eq!(decoded.as_bytes().len(), 4096 * 8 * 4);
}

#[test]
fn image_above_the_budget_is_scaled_down_before_encoding() {
    let limits = CodecLimits::new(20_000, 4096).unwrap();
    let encoded = compress(&flat(128, 128, [1, 2, 3, 255]), &limits).unwrap();
    assert_eq!(encoded.size, size(100, 100));
    assert!(encoded.png.len() <= 20_000);
}

#[test]
fn three_oversized_encodings_are_too_large() {
    // No PNG file has fewer than 57 bytes, so none of the attempts at
    // 5 x 5, 3 x 3 and 2 x 2 can keep a ceiling of 50.
    let limits = CodecLimits::new(50, 25).unwrap();
    assert_eq!(compress(&noise(128, 128), &limits).unwrap_err(), CodecError::TooLarge);
    assert_eq!(encode_image(&noise(128, 128), &limits).unwrap_err(), CodecError::TooLarge);
    assert_eq!(compress(&flat(1, 1, [0, 0, 0, 0]), &limits).unwrap_err(), CodecError::TooLarge);
}

#[test]
fn shrinking_keeps_the_aspect_ratio() {
    // Noise of 1000 x 120 takes about 480 kB as PNG, of 700 x 84 about half.
    let limits = CodecLimits::new(300_000, 4096).unwrap();
    let encoded = compress(&noise(1000, 120), &limits).unwrap();
    assert!(encoded.png.len() <= 300_000);
    assert!(encoded.size == size(700, 84) || encoded.size == size(490, 58));
}

#[test]
fn output_is_never_above_the_byte_ceiling() {
    let limits = CodecLimits::new(100_000, 4096).unwrap();
    let attempts = [size(223, 223), size(156, 156), size(109, 109)];
    match compress(&noise(400, 400), &limits) {
        Ok(encoded) => {
            assert!(encoded.png.len() <= 100_000);
            assert!(attempts.contains(&encoded.size));
        }
        Err(error) => assert_eq!(error, CodecError::TooLarge),
    }
    for (width, height) in [(1, 1), (64, 64), (300, 200), (1000, 30)] {
        match encode_image(&noise(width, height), &limits) {
            Ok(content) => {
                let (data, _, _) = parts(&content);
                assert!(decode_png_file(&data).unwrap().len() <= 100_000);
                assert!(data.len() <= 4 * ((100_000 + 2) / 3));
            }
            Err(error) => assert_eq!(error, CodecError::TooLarge),
        }
    }
}

#[test]
fn shrinking_brings_an_image_under_the_ceiling() {
    // Noise of 300 x 300 takes about 360 kB as PNG, of 210 x 210 about half.
    let limits = CodecLimits::new(250_000, 4096).unwrap();
    let encoded = compress(&noise(300, 300), &limits).unwrap();
    assert!(encoded.png.len() <= 250_000);
    assert!(encoded.size == size(210, 210) || encoded.size == size(147, 147));
}

#[test]
fn empty_image_is_unencodable() {
    let limits = CodecLimits::standard();
    let empty = RasterImage::new(size(0, 0), Vec::new()).unwrap();
    assert_eq!(compress(&empty, &limits).unwrap_err(), CodecError::Unencodable);
    let flat_line = RasterImage::new(size(10, 0), Vec::new()).unwrap();
    assert_eq!(encode_image(&flat_line, &limits).unwrap_err(), CodecError::Unencodable);
}

#[test]
fn image_above_the_pixel_ceiling_is_too_large() {
    // 50_000_001 pixels would take 200 MB; the check is on the size alone.
    let limits = CodecLimits::standard();
    let within = flat(10_000, 5, [0, 0, 0, 255]);
    assert!(compress(&within, &limits).is_ok());
    let image = RasterImage::new(size(7072, 7071), vec![0; 7072 * 7071 * 4]).unwrap();
    assert_eq!(compress(&image, &limits).unwrap_err(), CodecError::TooLarge);
}

#[test]
fn payload_that_is_not_base64_is_corrupt() {
    assert_eq!(decode_image("not base64!", 1, 1).unwrap_err(), CodecError::Corrupt);
    assert_eq!(decode_png_file("%%%").unwrap_err(), CodecError::Corrupt);
}

#[test]
fn payload_that_is_no_image_is_corrupt() {
    // "hello world" in base64.
    assert_eq!(decode_png_file("aGVsbG8gd29ybGQ=").unwrap(), b"hello world".to_vec());
    assert_eq!(decode_image("aGVsbG8gd29ybGQ=", 1, 1).unwrap_err(), CodecError::Corrupt);
}

#[test]
fn pixel_count_must_match_the_declared_dimensions() {
    let content = encode_image(&flat(3, 2, [1, 1, 1, 255]), &CodecLimits::standard()).unwrap();
    let (data, _, _) = parts(&content);
    assert!(decode_image(&data, 3, 2).is_ok());
    assert_eq!(decode_image(&data, 3, 3).unwrap_err(), CodecError::Corrupt);
    assert_eq!(decode_image(&data, 0, 0).unwrap_err(), CodecError::Corrupt);
    // Same pixel count, other shape: accepted with the declared shape.
    assert_eq!(decode_image(&data, 2, 3).unwrap().dimensions(), size(2, 3));
}

#[test]
fn png_within_the_ceiling_travels_as_it_is() {
    let limits = CodecLimits::standard();
    let file = compress(&flat(4, 5, [9, 8, 7, 255]), &limits).unwrap().png;
    let content = encode_png_image(&file, &limits).unwrap();
    let (data, width, height) = parts(&content);
    assert_eq!((width, height), (4, 5));
    assert_eq!(decode_png_file(&data).unwrap(), file);
}

#[test]
fn png_above_the_ceiling_is_encoded_anew() {
    let file = compress(&noise(300, 300), &CodecLimits::standard()).unwrap().png;
    assert!(file.len() > 250_000);
    let limits = CodecLimits::new(250_000, 4096).unwrap();
    let content = encode_png_image(&file, &limits).unwrap();
    let (data, width, height) = parts(&content);
    assert!(decode_png_file(&data).unwrap().len() <= 250_000);
    assert!((width, height) == (210, 210) || (width, height) == (147, 147));
    assert!(decode_image(&data, width, height).is_ok());
}

#[test]
fn png_above_the_edge_ceiling_is_encoded_anew() {
    let file = compress(&flat(200, 100, [9, 8, 7, 255]), &CodecLimits::standard()).unwrap().png;
    let limits = CodecLimits::new(1_000_000, 100).unwrap();
    assert!(file.len() <= 1_000_000);
    let content = encode_png_image(&file, &limits).unwrap();
    let (data, width, height) = parts(&content);
    assert_eq!((width, height), (100, 50));
    let decoded = decode_image(&data, width, height).unwrap();
    assert_eq!(decoded.as_bytes().len(), 100 * 50 * 4);
    assert_eq!(&decoded.as_bytes()[..4], &[9, 8, 7, 255]);
}

#[test]
fn file_that_is_no_png_is_corrupt() {
    let limits = CodecLimits::standard();
    assert_eq!(encode_png_image(b"not a png", &limits).unwrap_err(), CodecError::Corrupt);
}

#[test]
fn backend_follows_the_session() {
    assert_eq!(ClipboardMonitor::new(true, true).backend_kind(), ClipboardBackend::WlClipboard);
    assert_eq!(ClipboardMonitor::new(true, false).backend_kind(), ClipboardBackend::Arboard);
    assert_eq!(ClipboardMonitor::new(false, true).backend_kind(), ClipboardBackend::Arboard);
    assert_eq!(ClipboardMonitor::new(false, false).backend_kind(), ClipboardBackend::Arboard);
}

#[test]
fn capture_gives_up_where_the_codec_does() {
    let limits = CodecLimits::new(50, 25).unwrap();
    let monitor = ClipboardMonitor::with_limits(ClipboardBackend::Arboard, limits);
    assert_eq!(
        monitor.capture_image(&CapturedImage::Pixels(noise(128, 128))),
        Err(CodecError::TooLarge)
    );
    assert_eq!(
        monitor.capture_image(&CapturedImage::Png(b"junk".to_vec())),
        Err(CodecError::Corrupt)
    );
    let roomy = ClipboardMonitor::new(false, false);
    let captured = roomy.capture_image(&CapturedImage::Pixels(flat(2, 2, [0, 0, 0, 0])));
    assert_eq!(parts(&captured.unwrap()).1, 2);
}

#[test]
fn text_is_written_as_text() {
    for monitor in [ClipboardMonitor::new(false, false), ClipboardMonitor::new(true, true)] {
        match monitor.prepare_write(&ClipboardContent::Text("hello".to_string())) {
            Ok(ClipboardWrite::Text(text)) => assert_eq!(text, "hello"),
            other => panic!("unexpected: {:?}", other),
        }
    }
}

#[test]
fn html_falls_back_to_text_where_the_backend_has_no_html() {
    let html = ClipboardContent::Html { html: "<b>hi</b>".to_string(), text: "hi".to_string() };
    match ClipboardMonitor::new(false, false).prepare_write(&html) {
        Ok(ClipboardWrite::Text(text)) => assert_eq!(text, "hi"),
        other => panic!("unexpected: {:?}", other),
    }
    match ClipboardMonitor::new(true, true).prepare_write(&html) {
        Ok(ClipboardWrite::Html(markup)) => assert_eq!(markup, "<b>hi</b>"),
        other => panic!("unexpected: {:?}", other),
    }
}

#[test]
fn image_is_written_as_the_backend_takes_it() {
    let pixels: Vec<u8> = (0..24).collect();
    let image = RasterImage::new(size(2, 3), pixels.clone()).unwrap();
    let content = encode_image(&image, &CodecLimits::standard()).unwrap();
    match ClipboardMonitor::new(false, false).prepare_write(&content) {
        Ok(ClipboardWrite::Image(raster)) => {
            assert_eq!(raster.dimensions(), size(2, 3));
            assert_eq!(raster.as_bytes(), &pixels[..]);
        }
        other => panic!("unexpected: {:?}", other),
    }
    match ClipboardMonitor::new(true, true).prepare_write(&content) {
        Ok(ClipboardWrite::Png(file)) => assert_eq!(&file[..8], &PNG_SIGNATURE),
        other => panic!("unexpected: {:?}", other),
    }
}

#[test]
fn corrupt_image_is_not_written() {
    let broken = ClipboardContent::Image { data: "@@@@".to_string(), width: 1, height: 1 };
    for monitor in [ClipboardMonitor::new(false, false), ClipboardMonitor::new(true, true)] {
        match monitor.prepare_write(&broken) {
            Err(error) => assert_eq!(error, CodecError::Corrupt),
            other => panic!("unexpected: {:?}", other),
        }
    }
}

#[test]
fn scaling_resamples_the_pixels() {
    // Left half black, right half white, 200 x 100, into an edge ceiling of 100.
    let mut pixels = Vec::new();
    for _ in 0..100 {
        for x in 0..200 {
            let shade = if x < 100 { 0 } else { 255 };
            pixels.extend_from_slice(&[shade, shade, shade, 255]);
        }
    }
    let image = RasterImage::new(size(200, 100), pixels).unwrap();
    let limits = CodecLimits::new(1_000_000, 100).unwrap();
    let content = encode_image(&image, &limits).unwrap();
    let (data, width, height) = parts(&content);
    assert_eq!((width, height), (100, 50));
    let decoded = decode_image(&data, width, height).unwrap();
    let bytes = decoded.as_bytes();
    assert_eq!(bytes.len(), 100 * 50 * 4);
    let at = |x: usize, y: usize| bytes[(y * 100 + x) * 4];
    for y in [0, 1, 25, 49] {
        assert!(at(10, y) < 16);
        assert!(at(90, y) > 239);
    }
}

#[test]
fn grey_png_comes_back_as_rgba_pixels() {
    let grey = image::GrayImage::from_raw(2, 2, vec![0, 85, 170, 255]).unwrap();
    let mut file = Vec::new();
    grey.write_to(&mut std::io::Cursor::new(&mut file), image::ImageFormat::Png).unwrap();
    let content = encode_png_image(&file, &CodecLimits::standard()).unwrap();
    let (data, width, height) = parts(&content);
    assert_eq!((width, height), (2, 2));
    assert_eq!(decode_png_file(&data).unwrap(), file);
    let decoded = decode_image(&data, 2, 2).unwrap();
    assert_eq!(
        decoded.as_bytes(),
        &[0, 0, 0, 255, 85, 85, 85, 255, 170, 170, 170, 255, 255, 255, 255, 255]
    );
}

#[test]
fn output_of_the_encoder_always_decodes() {
    let limits = CodecLimits::new(250_000, 64).unwrap();
    for (width, height) in [(1, 1), (64, 64), (65, 3), (300, 300), (1000, 30)] {
        let content = encode_image(&noise(width, height), &limits).unwrap();
        let (data, declared_width, declared_height) = parts(&content);
        let decoded = decode_image(&data, declared_width, declared_height).unwrap();
        assert_eq!(decoded.dimensions(), size(declared_width, declared_height));
        assert!(declared_width <= 64 && declared_height <= 64);
    }
}
