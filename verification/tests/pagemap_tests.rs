use hugepagedemo::pagemap::{
    classify_pagemap_entry, kpageflags_is_transparent_huge, kpageflags_offset, pagemap_offset,
    PagemapEntry, PagemapVerdict,
};

#[test]
fn test_pagemap_entry_from_bytes() {
    // Little-endian record: low bytes first, present bit in the top byte.
    let entry = PagemapEntry::from_bytes([0x39, 0x30, 0, 0, 0, 0, 0, 0x80]);
    assert!(entry.present());
    assert_eq!(0x3039, entry.page_frame_number());
}

#[test]
fn test_pagemap_entry_present_bit() {
    assert!(PagemapEntry::new(1u64 << 63).present());
    assert!(!PagemapEntry::new(!(1u64 << 63)).present());
    assert!(!PagemapEntry::new(0).present());
}

#[test]
fn test_pagemap_entry_frame_number_masks_high_bits() {
    // Bits 55 and up (soft-dirty, exclusive, file, swapped, present) do not
    // leak into the frame number.
    let entry = PagemapEntry::new((1u64 << 63) | (1u64 << 55) | 7);
    assert_eq!(7, entry.page_frame_number());
}

#[test]
fn test_classify_not_present_fails() {
    // A pagemap record with the present bit clear must be reported as an
    // error, never silently resolved to a size.
    let entry = PagemapEntry::new(0x3039);
    assert_eq!(PagemapVerdict::NotPresent, classify_pagemap_entry(&entry));
}

#[test]
fn test_classify_hidden_frame_number() {
    let entry = PagemapEntry::new(1u64 << 63);
    assert_eq!(PagemapVerdict::NominalOnly, classify_pagemap_entry(&entry));
}

#[test]
fn test_classify_visible_frame_number() {
    let entry = PagemapEntry::new((1u64 << 63) | 0x3039);
    assert_eq!(
        PagemapVerdict::CheckFlags {
            page_frame_number: 0x3039
        },
        classify_pagemap_entry(&entry)
    );
}

#[test]
fn test_kpageflags_thp_bit() {
    assert!(kpageflags_is_transparent_huge(1u64 << 22));
    assert!(!kpageflags_is_transparent_huge(!(1u64 << 22)));
    assert!(!kpageflags_is_transparent_huge(0));
}

#[test]
fn test_metadata_offsets() {
    // One eight-byte record per 4 KiB page: the third page starts at 8192.
    assert_eq!(16, pagemap_offset(8192, 4096));
    assert_eq!(16, pagemap_offset(8192 + 4095, 4096));
    assert_eq!(0, pagemap_offset(0, 4096));
    assert_eq!(24, kpageflags_offset(3));
    assert_eq!(0, kpageflags_offset(0));
}
