use mandelbrot::bounds::Rect;
use mandelbrot::escape::CalcResult;

#[test]
fn proper_rect_is_valid() {
    let r = Rect::<f64> { left: 1.0, right: 2.0, top: 4.0, bottom: 2.0 };
    assert!(r.is_valid());
    let start = Rect::<f64> { top: 1.25, bottom: -1.25, left: -2.0, right: 0.5 };
    assert!(start.is_valid());
}

#[test]
fn degenerate_or_inverted_rect_is_invalid() {
    let flat = Rect::<f64> { left: 1.0, right: 1.0, top: 4.0, bottom: 2.0 };
    assert!(!flat.is_valid());
    let inverted = Rect::<f64> { left: 1.0, right: 2.0, top: 2.0, bottom: 4.0 };
    assert!(!inverted.is_valid());
    let nan = Rect::<f64> { left: f64::NAN, right: 2.0, top: 4.0, bottom: 2.0 };
    assert!(!nan.is_valid());
    let ints = Rect::<i32> { left: 3, right: 2, top: 4, bottom: 2 };
    assert!(!ints.is_valid());
}

#[test]
fn classifications_compare_by_value() {
    assert_eq!(CalcResult::BailedOut(3), CalcResult::BailedOut(3));
    assert_ne!(CalcResult::BailedOut(3), CalcResult::BailedOut(4));
    assert_ne!(CalcResult::Bounded, CalcResult::BailedOut(0));
}
