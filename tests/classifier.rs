use title_card::error::ScanError;
use title_card::frame::{classify, count_marker_pixels, is_blue_dominant, RgbFrame};

const BLUE: [u8; 3] = [10, 20, 250];
const RED: [u8; 3] = [250, 10, 10];

fn pixels(blue: usize, other: usize) -> Vec<u8> {
    let mut v = Vec::new();
    for _ in 0..blue {
        v.extend_from_slice(&BLUE);
    }
    for _ in 0..other {
        v.extend_from_slice(&RED);
    }
    v
}

#[test]
fn exactly_eighty_percent_is_no_match() {
    let r = is_blue_dominant(1000, 1, pixels(800, 200)).unwrap();
    assert!(r.is_none());
}

#[test]
fn just_over_eighty_percent_is_a_match() {
    let data = pixels(801, 199);
    let r = is_blue_dominant(1000, 1, data.clone()).unwrap().unwrap();
    assert_eq!(r.width(), 1000);
    assert_eq!(r.height(), 1);
    assert_eq!(r.as_raw(), &data);
}

#[test]
fn wrong_buffer_length_is_rejected() {
    assert!(matches!(is_blue_dominant(2, 2, vec![0; 11]), Err(ScanError::FrameBuffer)));
    assert!(matches!(is_blue_dominant(2, 2, vec![0; 13]), Err(ScanError::FrameBuffer)));
    assert!(RgbFrame::from_raw(2, 2, vec![0; 12]).is_some());
}

#[test]
fn empty_frame_is_no_match() {
    assert!(is_blue_dominant(0, 0, Vec::new()).unwrap().is_none());
}

#[test]
fn thresholds_are_strict() {
    // each pixel sits on a bound of the colour test
    let cases: [([u8; 3], bool); 6] = [
        ([179, 234, 231], true),
        ([180, 0, 255], false),
        ([0, 235, 255], false),
        ([0, 0, 230], false),
        ([0, 0, 231], true),
        ([0, 0, 0], false),
    ];
    for (px, expect) in cases {
        let f = RgbFrame::from_raw(1, 1, px.to_vec()).unwrap();
        assert_eq!(count_marker_pixels(&f), if expect { 1 } else { 0 });
        assert_eq!(classify(f).is_some(), expect);
    }
}

#[test]
fn classify_is_deterministic() {
    let data = pixels(9, 1);
    let a = classify(RgbFrame::from_raw(10, 1, data.clone()).unwrap());
    let b = classify(RgbFrame::from_raw(10, 1, data.clone()).unwrap());
    assert_eq!(a.map(|f| f.into_raw()), b.map(|f| f.into_raw()));
    let c = classify(RgbFrame::from_raw(5, 2, pixels(8, 2)).unwrap());
    let d = classify(RgbFrame::from_raw(5, 2, pixels(8, 2)).unwrap());
    assert!(c.is_none() && d.is_none());
}

#[test]
fn matched_frame_round_trips_through_png() {
    let data = pixels(8, 1);
    let f = is_blue_dominant(3, 3, data.clone()).unwrap().unwrap();
    let img = image::RgbImage::from_raw(f.width(), f.height(), f.into_raw()).unwrap();
    let mut buf = std::io::Cursor::new(Vec::new());
    img.write_to(&mut buf, image::ImageFormat::Png).unwrap();
    let back = image::load_from_memory(buf.get_ref()).unwrap().into_rgb8();
    assert_eq!(back.dimensions(), (3, 3));
    assert_eq!(back.into_raw(), data);
}
