use rtiow::raster::{scan_order, PixelCoord};

fn c(i: u32, j: u32) -> PixelCoord {
    PixelCoord { i, j }
}

#[test]
fn scan_order_goes_from_top_row_down() {
    let order = scan_order(3, 2);
    assert_eq!(
        order,
        vec![c(0, 1), c(1, 1), c(2, 1), c(0, 0), c(1, 0), c(2, 0)]
    );
}

#[test]
fn scan_order_single_column() {
    assert_eq!(scan_order(1, 3), vec![c(0, 2), c(0, 1), c(0, 0)]);
}

#[test]
fn scan_order_of_empty_image() {
    assert!(scan_order(0, 5).is_empty());
    assert!(scan_order(5, 0).is_empty());
}

#[test]
fn scan_order_visits_each_pixel_once() {
    let (w, h) = (4u32, 3u32);
    let order = scan_order(w, h);
    assert_eq!(order.len(), 12);
    for j in 0..h {
        for i in 0..w {
            let seen = order.iter().filter(|p| **p == c(i, j)).count();
            assert_eq!(seen, 1);
            let k = ((h - 1 - j) * w + i) as usize;
            assert_eq!(order[k], c(i, j));
        }
    }
}
