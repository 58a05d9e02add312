use copi::codec::{judge, plan, CodecError, CodecLimits, Verdict};
use copi::sizing::{fit_budget, fit_within, isqrt, shrink, Size};

fn size(width: u32, height: u32) -> Size {
    Size { width, height }
}

#[test]
fn isqrt_rounds_down() {
    assert_eq!(isqrt(0), 0);
    assert_eq!(isqrt(1), 1);
    assert_eq!(isqrt(3), 1);
    assert_eq!(isqrt(4), 2);
    assert_eq!(isqrt(15), 3);
    assert_eq!(isqrt(16), 4);
    assert_eq!(isqrt(17), 4);
    assert_eq!(isqrt(1_000_000_000_000), 1_000_000);
    assert_eq!(isqrt(u64::MAX), 4_294_967_295);
}

#[test]
fn image_within_the_edge_ceiling_keeps_its_size() {
    assert_eq!(fit_within(size(4096, 4096), 4096), size(4096, 4096));
    assert_eq!(fit_within(size(1, 1), 4096), size(1, 1));
    assert_eq!(fit_within(size(0, 9000), 4096), size(0, 9000));
}

#[test]
fn image_above_the_edge_ceiling_is_scaled_by_its_longer_edge() {
    assert_eq!(fit_within(size(8192, 4096), 4096), size(4096, 2048));
    assert_eq!(fit_within(size(4096, 8192), 4096), size(2048, 4096));
    assert_eq!(fit_within(size(5000, 10), 4096), size(4096, 8));
    assert_eq!(fit_within(size(6000, 4000), 4096), size(4096, 2730));
    // A sliver keeps one pixel.
    assert_eq!(fit_within(size(100_000, 3), 4096), size(4096, 1));
}

#[test]
fn image_within_the_budget_keeps_its_size() {
    assert_eq!(fit_budget(size(100, 100), 40_000), size(100, 100));
    assert_eq!(fit_budget(size(1024, 1024), 10_485_760), size(1024, 1024));
}

#[test]
fn image_above_the_budget_is_scaled_by_the_square_root() {
    // 4096 x 4096 x 4 = 64 MiB against 10 MiB: sqrt(4096 * 10 MiB / 16384) = 1619.
    assert_eq!(fit_budget(size(4096, 4096), 10_485_760), size(1619, 1619));
    assert_eq!(fit_budget(size(128, 128), 40_000), size(100, 100));
    // sqrt(400 * 200000 / 800) = 316, sqrt(200 * 200000 / 1600) = 158.
    assert_eq!(fit_budget(size(400, 200), 200_000), size(316, 158));
    assert!(4 * 316 * 158 <= 200_000);
}

#[test]
fn plan_applies_both_ceilings() {
    let limits = CodecLimits::standard();
    assert_eq!(plan(size(1920, 1080), &limits), size(1920, 1080));
    assert_eq!(plan(size(8192, 8192), &limits), size(1619, 1619));
    assert_eq!(plan(size(8192, 1024), &limits), size(4096, 512));
}

#[test]
fn shrinking_takes_seven_tenths_of_both_edges() {
    assert_eq!(shrink(size(1000, 500)), size(700, 350));
    assert_eq!(shrink(size(1000, 120)), size(700, 84));
    assert_eq!(shrink(size(143, 142)), size(100, 99));
    assert_eq!(shrink(size(120, 90)), size(84, 63));
    assert_eq!(shrink(size(4_294_967_295, 10)), size(3_006_477_106, 7));
}

#[test]
fn shrinking_never_loses_the_last_pixel() {
    assert_eq!(shrink(size(100, 1)), size(70, 1));
    assert_eq!(shrink(size(1, 1)), size(1, 1));
    assert_eq!(shrink(size(0, 5)), size(0, 3));
}

#[test]
fn limits_are_validated() {
    assert!(CodecLimits::new(5 * 1024 * 1024, 4096).is_some());
    assert!(CodecLimits::new(8192, 4096).is_some());
    assert!(CodecLimits::new(8191, 4096).is_none());
    assert!(CodecLimits::new(1000, 0).is_none());
    assert!(CodecLimits::new(1 << 30, 4096).is_some());
    assert!(CodecLimits::new((1 << 30) + 1, 4096).is_none());
    let limits = CodecLimits::standard();
    assert_eq!(limits.byte_ceiling(), 5_242_880);
    assert_eq!(limits.edge_ceiling(), 4096);
}

#[test]
fn verdict_on_each_attempt() {
    let limits = CodecLimits::new(1000, 100).unwrap();
    let at = size(400, 300);
    assert_eq!(judge(Some(1000), 1, at, &limits), Verdict::Accept);
    assert_eq!(judge(Some(1000), 3, at, &limits), Verdict::Accept);
    assert_eq!(judge(Some(1001), 1, at, &limits), Verdict::Retry(size(280, 210)));
    assert_eq!(judge(Some(1001), 2, at, &limits), Verdict::Retry(size(280, 210)));
    assert_eq!(judge(Some(1001), 3, at, &limits), Verdict::Fail(CodecError::TooLarge));
    assert_eq!(judge(None, 1, at, &limits), Verdict::Fail(CodecError::Unencodable));
    assert_eq!(judge(None, 3, at, &limits), Verdict::Fail(CodecError::Unencodable));
}
