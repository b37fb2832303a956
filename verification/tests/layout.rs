use lumitray::layout::{
    dpi_margin, flyout_origin, resize_for_client, row_count, slide_in, slide_out, slider_count, Rect,
};

#[test]
fn margin_scales_with_dpi() {
    assert_eq!(dpi_margin(96), 12);
    assert_eq!(dpi_margin(144), 18);
    assert_eq!(dpi_margin(120), 15);
    assert_eq!(dpi_margin(100), 12);
}

#[test]
fn flyout_sits_in_the_bottom_right_corner() {
    let work = Rect { left: 0, top: 0, right: 1920, bottom: 1040 };
    let window = Rect { left: 100, top: 100, right: 440, bottom: 240 };
    assert_eq!(flyout_origin(work, window, 12), (1920 - 340 - 12, 1040 - 140 - 12));
}

#[test]
fn slides_mirror_each_other() {
    let window = Rect { left: 1568, top: 888, right: 1908, bottom: 1028 };
    let shown = slide_in(window, 12);
    assert_eq!((shown.x, shown.from_y, shown.to_y), (1568, 1040, 888));
    let hidden = slide_out(window, 12);
    assert_eq!((hidden.x, hidden.from_y, hidden.to_y), (1568, 888, 1040));
}

#[test]
fn window_is_resized_only_when_needed() {
    let outer = Rect { left: 0, top: 0, right: 342, bottom: 142 };
    let client = Rect { left: 0, top: 0, right: 340, bottom: 140 };
    assert_eq!(resize_for_client(340, 140, outer, client), None);
    assert_eq!(resize_for_client(340, 200, outer, client), Some((342, 202)));
}

#[test]
fn row_counts() {
    assert_eq!(row_count(0), 1);
    assert_eq!(row_count(3), 3);
    assert_eq!(slider_count(2), 2);
    assert_eq!(slider_count(6), 4);
}
