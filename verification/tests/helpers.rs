use osd_text::fixed::FixedStr;
use osd_text::grid::Dimensions;
use osd_text::duration::split_duration;

#[test]
fn it_works() {
    let d = Dimensions::from_wh(3, 2);
    assert_eq!(d.width(), 3);
    assert_eq!(d.height(), 2);
    assert_eq!(d.cols, 3);
    assert_eq!(d.rows, 2);
}

#[test]
fn dimensions_max_is_componentwise() {
    let a = Dimensions::from_wh(3, 2);
    let b = Dimensions::from_wh(1, 5);
    let m = a.max(b);
    assert_eq!(m.cols, 3);
    assert_eq!(m.rows, 5);
}

#[test]
fn fixed_str_reads_back_as_text() {
    let f = FixedStr([b'h', b'i', b'!']);
    assert_eq!(f.as_str(), "hi!");
    assert_eq!(f.try_as_str().unwrap(), "hi!");
}

#[test]
fn fixed_str_rejects_invalid_utf8() {
    let f = FixedStr([0xff, 0xfe, 0x41]);
    assert!(f.try_as_str().is_err());
}

#[test]
fn split_duration_splits_exactly() {
    assert_eq!(split_duration(0), (0, 0, 0));
    assert_eq!(split_duration(59), (0, 0, 59));
    assert_eq!(split_duration(60), (0, 1, 0));
    assert_eq!(split_duration(3600), (1, 0, 0));
    assert_eq!(split_duration(3661), (1, 1, 1));
    assert_eq!(split_duration(86399), (23, 59, 59));
}
