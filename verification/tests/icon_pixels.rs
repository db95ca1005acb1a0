use codex_helper::icon::{downscale_box, supersampling};

fn solid(size: u32, rgba: [u8; 4]) -> Vec<u8> {
    let mut v = Vec::new();
    for _ in 0..size * size {
        v.extend_from_slice(&rgba);
    }
    v
}

#[test]
fn small_icons_are_drawn_larger_first() {
    assert_eq!(supersampling(16), 4);
    assert_eq!(supersampling(17), 2);
    assert_eq!(supersampling(32), 2);
    assert_eq!(supersampling(48), 2);
    assert_eq!(supersampling(49), 1);
    assert_eq!(supersampling(256), 1);
}

#[test]
fn downscaling_a_solid_image_keeps_its_color() {
    let big = solid(8, [59, 130, 246, 255]);
    let small = downscale_box(&big, 8, 2);
    assert_eq!(small, solid(2, [59, 130, 246, 255]));
}

#[test]
fn downscaling_takes_the_mean_of_each_block_rounded_down() {
    // 2x2 image to 1x1: red channels 0, 1, 2, 4 -> mean 7/4 = 1.
    let img: Vec<u8> = vec![
        0, 10, 200, 255, //
        1, 20, 201, 255, //
        2, 30, 202, 0, //
        4, 40, 203, 0, //
    ];
    let out = downscale_box(&img, 2, 1);
    assert_eq!(out, vec![1, 25, 201, 127]);
}

#[test]
fn downscaling_keeps_blocks_apart() {
    // 4x4 image whose left half is black and right half white, to 2x2.
    let mut img = Vec::new();
    for _y in 0..4 {
        for x in 0..4 {
            let v = if x < 2 { 0 } else { 255 };
            img.extend_from_slice(&[v, v, v, 255]);
        }
    }
    let out = downscale_box(&img, 4, 2);
    assert_eq!(
        out,
        vec![0, 0, 0, 255, 255, 255, 255, 255, 0, 0, 0, 255, 255, 255, 255, 255]
    );
}

#[test]
fn same_size_downscale_is_a_copy() {
    let img: Vec<u8> = (0..36).map(|i| (i * 7) as u8).collect();
    assert_eq!(downscale_box(&img, 3, 3), img);
}
