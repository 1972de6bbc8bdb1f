use findbt::icon::downsample_rgba_box;

#[test]
fn factor_one_keeps_the_image() {
    let rgba: Vec<u8> = (0..16).collect();
    let (out, w, h) = downsample_rgba_box(&rgba, 2, 2, 1);
    assert_eq!((out, w, h), (rgba.clone(), 2, 2));
    let (out0, w0, h0) = downsample_rgba_box(&rgba, 2, 2, 0);
    assert_eq!((out0, w0, h0), (rgba, 2, 2));
}

#[test]
fn two_by_two_blocks_average() {
    // 4x2 image: left block pixels 10, 20, 30, 41 (red), right block all 200.
    let px = |r: u8| [r, 0, 255, 255];
    let mut rgba = Vec::new();
    for r in [10u8, 20, 200, 200, 30, 41, 200, 200] {
        rgba.extend_from_slice(&px(r));
    }
    let (out, w, h) = downsample_rgba_box(&rgba, 4, 2, 2);
    assert_eq!((w, h), (2, 1));
    assert_eq!(out, vec![25, 0, 255, 255, 200, 0, 255, 255]);
}

#[test]
fn partial_blocks_average_only_inside_pixels() {
    // 3x1 image, factor 2: one output pixel over columns 0 and 1.
    let rgba = vec![100, 100, 100, 100, 51, 51, 51, 51, 7, 7, 7, 7];
    let (out, w, h) = downsample_rgba_box(&rgba, 3, 1, 2);
    assert_eq!((w, h), (1, 1));
    assert_eq!(out, vec![75, 75, 75, 75]);
    // Smaller than the factor: a single pixel averaging everything.
    let (out, w, h) = downsample_rgba_box(&rgba, 3, 1, 8);
    assert_eq!((w, h), (1, 1));
    assert_eq!(out, vec![52, 52, 52, 52]);
}
