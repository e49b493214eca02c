use std::time::Duration;

use hugepagedemo::faultlatency::FaultLatency;
use hugepagedemo::region::{plan_aligned_trim, MmapOwner};
use hugepagedemo::words::{sysconf_page_size, touch_pages, touch_pages_with_stride, zeroed_words};

#[test]
fn test_region_owner_releases_once() {
    // The owner is consumed by `release`, so a range can only be given up
    // once; a second release does not compile.
    let owner = MmapOwner::new(0x1000, 4096);
    assert_eq!(0x1000, owner.get_mut());
    assert_eq!(4096, owner.size());
    let (addr, len) = owner.release();
    assert_eq!(0x1000, addr);
    assert_eq!(4096, len);
}

#[test]
fn test_plan_aligned_trim_exact() {
    const ONE_GIB: usize = 1 << 30;
    const ONE_MIB: usize = 1 << 20;
    let raw_base = 3 * ONE_GIB + 5;
    let layout = plan_aligned_trim(ONE_GIB, ONE_MIB, raw_base);
    // The highest 1 GiB boundary whose 1 MiB window fits is 4 GiB.
    assert_eq!(4 * ONE_GIB, layout.aligned_base);
    assert_eq!(ONE_GIB - 5, layout.prefix_len);
    assert_eq!(5, layout.suffix_len);
    assert_eq!(0, layout.aligned_base % ONE_GIB);
    assert_eq!(ONE_MIB + ONE_GIB, layout.prefix_len + layout.suffix_len + ONE_MIB);
    assert!(raw_base <= layout.aligned_base);
    assert!(layout.aligned_base + ONE_MIB <= raw_base + ONE_MIB + ONE_GIB);
}

#[test]
fn test_plan_aligned_trim_already_aligned() {
    // An aligned raw base still prefers the top of the oversized mapping:
    // the whole extra alignment becomes the prefix.
    const TWO_MIB: usize = 2 << 20;
    let layout = plan_aligned_trim(TWO_MIB, TWO_MIB, 8 * TWO_MIB);
    assert_eq!(9 * TWO_MIB, layout.aligned_base);
    assert_eq!(TWO_MIB, layout.prefix_len);
    assert_eq!(0, layout.suffix_len);
}

#[test]
fn test_zeroed_window_write_read_round_trip() {
    // A 1 MiB window of words: writes to the first and last word read back
    // exactly, and the untouched neighbours still read as zero.
    const ONE_MIB: usize = 1 << 20;
    let words = ONE_MIB / 8;
    let mut v = zeroed_words(words);
    assert_eq!(words, v.len());
    v[0] = 0x42;
    v[words - 1] = 0x42;
    assert_eq!(0x42, v[0]);
    assert_eq!(0, v[1]);
    assert_eq!(0, v[words - 2]);
    assert_eq!(0x42, v[words - 1]);
}

#[test]
fn test_touch_pages() {
    // Just tests that it does not crash.
    const SIZE: usize = 1024 * 1024;
    let mut v: Vec<u64> = vec![0; SIZE];
    touch_pages(&mut v);
}

#[test]
fn test_touch_pages_writes_first_word() {
    let mut v: Vec<u64> = vec![7; 4096];
    touch_pages(&mut v);
    assert_eq!(0, v[0]);
    assert_eq!(4096, v.len());
    for &w in &v {
        assert!(w == 0 || w == 7);
    }
}

#[test]
fn test_touch_pages_with_stride_exact() {
    let mut v: Vec<u64> = vec![9; 8];
    touch_pages_with_stride(&mut v, 3);
    assert_eq!(vec![0, 9, 9, 0, 9, 9, 0, 9], v);
}

#[test]
fn test_sysconf_page_size_positive() {
    assert!(sysconf_page_size() > 0);
}

#[test]
fn test_fault_latency_new() {
    let r = FaultLatency::new(
        Duration::from_micros(5),
        Duration::from_micros(7),
        Duration::from_nanos(300),
    );
    assert_eq!(Duration::from_micros(5), r.mmap);
    assert_eq!(Duration::from_micros(7), r.fault);
    assert_eq!(Duration::from_nanos(300), r.second_write);
}
