use cycles_numerologie_du_tarot::document::{Document, Layer, Pixel};
use cycles_numerologie_du_tarot::generate;
use cycles_numerologie_du_tarot::png::{encode_png, EncodeError};

fn alpha_over(source: Pixel, below: Pixel) -> Pixel {
    let sa = source.alpha as f32 / 255.0;
    let da = below.alpha as f32 / 255.0;
    let out_a = sa + da * (1.0 - sa);
    let channel = |s: u8, d: u8| -> u8 {
        if out_a > 0.0 {
            ((s as f32 * sa + d as f32 * da * (1.0 - sa)) / out_a).clamp(0.0, 255.0) as u8
        } else {
            0
        }
    };
    Pixel {
        red: channel(source.red, below.red),
        green: channel(source.green, below.green),
        blue: channel(source.blue, below.blue),
        alpha: (out_a * 255.0).clamp(0.0, 255.0) as u8,
    }
}

fn decode(file: &[u8]) -> (u32, u32, Vec<u8>) {
    let picture = image::load_from_memory(file).unwrap().to_rgba8();
    (picture.width(), picture.height(), picture.into_raw())
}

fn black(count: usize) -> Vec<u8> {
    let mut canvas = Vec::with_capacity(4 * count);
    for _ in 0..count {
        canvas.extend_from_slice(&[0, 0, 0, 255]);
    }
    canvas
}

/// A layer of 100 by 100: half red in the upper left quarter, clear elsewhere.
fn quarter() -> Vec<u8> {
    let mut pixels = vec![0u8; 100 * 100 * 4];
    for y in 0..50 {
        for x in 0..50 {
            let at = (y * 100 + x) * 4;
            pixels[at..at + 4].copy_from_slice(&[255, 0, 0, 128]);
        }
    }
    pixels
}

#[test]
fn the_picture_is_a_png_file_of_the_canvas() {
    let pixels: Vec<u8> = (0..24u8).map(|i| i.wrapping_mul(11)).collect();
    let file = encode_png(3, 2, &pixels).unwrap();
    assert_eq!(&file[..8], &[0x89, b'P', b'N', b'G', 0x0d, 0x0a, 0x1a, 0x0a]);
    assert_ne!(file, pixels);
    assert_eq!(decode(&file), (3, 2, pixels.clone()));
    assert_eq!(encode_png(3, 2, &pixels).unwrap(), file);
    let turned = encode_png(2, 3, &pixels).unwrap();
    assert_eq!(decode(&turned), (2, 3, pixels));
}

#[test]
fn an_image_without_pixels_is_not_encoded() {
    assert_eq!(encode_png(0, 0, &Vec::new()), Err(EncodeError));
    assert_eq!(encode_png(0, 5, &Vec::new()), Err(EncodeError));
    assert_eq!(encode_png(5, 0, &Vec::new()), Err(EncodeError));
    let empty = Document::new(0, 0, Vec::new(), Vec::new()).unwrap();
    assert_eq!(generate(14, 6, 1946, 79, &empty, &alpha_over), Err(EncodeError));
}

#[test]
fn the_deep_personality_of_june_1946_is_drawn() {
    let layers = vec![
        Layer { name: "PPRPA04".to_string(), pixels: quarter() },
        Layer { name: "PPRPA09".to_string(), pixels: vec![255; 100 * 100 * 4] },
        Layer { name: "PPRPA4".to_string(), pixels: vec![255; 100 * 100 * 4] },
        Layer { name: "PPRPB07".to_string(), pixels: vec![255; 100 * 100 * 4] },
    ];
    let document = Document::new(100, 100, black(100 * 100), layers).unwrap();
    let file = generate(14, 6, 1946, 79, &document, &alpha_over).unwrap();
    let (width, height, pixels) = decode(&file);
    assert_eq!((width, height), (100, 100));
    for y in 0..100 {
        for x in 0..100 {
            let at = (y * 100 + x) * 4;
            let expected = if x < 50 && y < 50 { [128, 0, 0, 255] } else { [0, 0, 0, 255] };
            assert_eq!(&pixels[at..at + 4], &expected);
        }
    }
    assert_eq!(document.canvas(), &black(100 * 100));
}

#[test]
fn a_frame_lies_under_its_code() {
    let frame = vec![0, 0, 255, 255];
    let code = vec![255, 0, 0, 128];
    let layers = vec![
        Layer { name: "PPRPA04".to_string(), pixels: code },
        Layer { name: "PPRPA-R".to_string(), pixels: frame },
    ];
    let document = Document::new(1, 1, black(1), layers).unwrap();
    let file = generate(14, 6, 1946, 79, &document, &alpha_over).unwrap();
    assert_eq!(decode(&file), (1, 1, vec![128, 0, 126, 255]));
}

#[test]
fn the_a_group_lies_over_the_b_group() {
    let layers = vec![
        Layer { name: "PPRPA04".to_string(), pixels: vec![1, 1, 1, 255, 0, 0, 0, 0] },
        Layer { name: "PPRPB05".to_string(), pixels: vec![2, 2, 2, 255, 2, 2, 2, 255] },
    ];
    let document = Document::new(2, 1, black(2), layers).unwrap();
    let after = generate(23, 6, 1946, 79, &document, &alpha_over).unwrap();
    assert_eq!(decode(&after), (2, 1, vec![1, 1, 1, 255, 2, 2, 2, 255]));
    let before = generate(22, 6, 1946, 79, &document, &alpha_over).unwrap();
    assert_eq!(decode(&before), (2, 1, black(2)));
}

#[test]
fn a_document_without_matching_layers_gives_its_canvas() {
    let canvas: Vec<u8> = (0..16u8).collect();
    let layers = vec![Layer { name: "Calque 1".to_string(), pixels: vec![255; 16] }];
    let document = Document::new(2, 2, canvas.clone(), layers).unwrap();
    let file = generate(1, 1, 1, 1, &document, &alpha_over).unwrap();
    assert_eq!(decode(&file), (2, 2, canvas));
}
