use cycles_numerologie_du_tarot::document::{Document, Layer};

#[test]
fn a_canvas_of_four_bytes_a_pixel_makes_a_document() {
    let layers = vec![Layer { name: "only".to_string(), pixels: vec![1, 2, 3] }];
    let document = Document::new(3, 2, vec![7; 24], layers.clone()).unwrap();
    assert_eq!(document.width(), 3);
    assert_eq!(document.height(), 2);
    assert_eq!(document.canvas(), &vec![7; 24]);
    assert_eq!(document.layers(), &layers);
}

#[test]
fn any_other_canvas_makes_none() {
    assert!(Document::new(3, 2, vec![7; 23], Vec::new()).is_none());
    assert!(Document::new(3, 2, vec![7; 25], Vec::new()).is_none());
    assert!(Document::new(3, 2, Vec::new(), Vec::new()).is_none());
    assert!(Document::new(0, 2, vec![0; 4], Vec::new()).is_none());
    assert!(Document::new(u32::MAX, u32::MAX, vec![0; 4], Vec::new()).is_none());
}

#[test]
fn an_empty_canvas_has_no_pixels() {
    assert!(Document::new(0, 0, Vec::new(), Vec::new()).is_some());
    assert!(Document::new(0, 9, Vec::new(), Vec::new()).is_some());
    assert!(Document::new(u32::MAX, 0, Vec::new(), Vec::new()).is_some());
}
