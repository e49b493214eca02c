//! Decoding of the kernel's per-page metadata records.
//!
//! The kernel reports one 64-bit little-endian record per virtual page
//! (present bit and page-frame number), one 64-bit record per physical
//! frame (with a transparent-huge-page bit), and the huge-page size as a
//! newline-terminated decimal string. The file reads happen outside this
//! crate; everything here decodes the fetched bytes and words.

use vstd::prelude::*;

verus! {

use vstd::arithmetic::div_mod::{
    lemma_div_is_ordered_by_denominator,
    lemma_fundamental_div_mod,
    lemma_mod_bound,
};
use vstd::slice::{slice_index_get, slice_subrange};

/// The page-frame number occupies bits 0 to 54 of a pagemap record.
pub const PAGE_FRAME_NUMBER_MASK: u64 = 0x007f_ffff_ffff_ffff;

/// The 64-bit word encoded by eight little-endian bytes.
pub open spec fn word_from_le_bytes(s: Seq<u8>) -> u64
    recommends
        s.len() == 8,
{
    (s[0] as u64) | ((s[1] as u64) << 8) | ((s[2] as u64) << 16) | ((s[3] as u64) << 24) | ((
    s[4] as u64) << 32) | ((s[5] as u64) << 40) | ((s[6] as u64) << 48) | ((s[7] as u64) << 56)
}

/// Bit 63 of a pagemap record: the page has been faulted in.
pub open spec fn spec_present(v: u64) -> bool {
    v & (1u64 << 63) != 0
}

/// Bits 0 to 54 of a pagemap record: the physical page-frame number.
pub open spec fn spec_page_frame_number(v: u64) -> u64 {
    v & PAGE_FRAME_NUMBER_MASK
}

/// Bit 22 of a kpageflags record: the frame belongs to a transparent huge
/// page.
pub open spec fn spec_transparent_huge(flags: u64) -> bool {
    flags & (1u64 << 22) != 0
}

/// One record of the kernel's per-process page-table metadata file: a 64-bit
/// word whose bit 63 says whether the page is present and whose bits 0 to 54
/// hold the page-frame number.
#[derive(Clone, Copy, Debug)]
pub struct PagemapEntry {
    v: u64,
}

impl PagemapEntry {
    /// The raw 64-bit record.
    pub closed spec fn value(&self) -> u64 {
        self.v
    }

    /// Wraps a raw 64-bit record.
    pub fn new(v: u64) -> (r: Self)
        ensures
            r.value() == v,
    {
        Self { v }
    }

    /// Decodes the eight little-endian bytes read from the metadata file.
    pub fn from_bytes(b: [u8; 8]) -> (r: Self)
        ensures
            r.value() == word_from_le_bytes(b@),
    {
        let v = (b[0] as u64) | ((b[1] as u64) << 8) | ((b[2] as u64) << 16) | ((b[3] as u64)
            << 24) | ((b[4] as u64) << 32) | ((b[5] as u64) << 40) | ((b[6] as u64) << 48) | ((
        b[7] as u64) << 56);
        Self { v }
    }

    /// Whether the page has been faulted in (bit 63).
    pub fn present(&self) -> (r: bool)
        ensures
            r == spec_present(self.value()),
    {
        self.v & (1u64 << 63) != 0
    }

    /// The physical page-frame number (bits 0 to 54).
    pub fn page_frame_number(&self) -> (r: u64)
        ensures
            r == spec_page_frame_number(self.value()),
            r <= PAGE_FRAME_NUMBER_MASK,
    {
        proof {
            let v = self.v;
            assert(v & 0x007f_ffff_ffff_ffffu64 <= 0x007f_ffff_ffff_ffffu64) by (bit_vector);
        }
        self.v & PAGE_FRAME_NUMBER_MASK
    }
}

/// What one pagemap record says about how to find the page's size.
#[derive(Clone, Copy, Debug, PartialEq, Eq, Structural)]
pub enum PagemapVerdict {
    /// The page was never faulted in: the caller asked about an address it
    /// has not touched, which is an error, never a size.
    NotPresent,
    /// The page is present but the frame number reads as zero: the process
    /// lacks the privilege to see frame numbers, so the nominal page size is
    /// the best available answer.
    NominalOnly,
    /// The page is present and its frame is visible: the frame's kpageflags
    /// record decides the page size.
    CheckFlags { page_frame_number: u64 },
}

/// Decides, from one pagemap record, whether the page size question is
/// unanswerable (never faulted in), answered by the nominal page size
/// (frame hidden), or deferred to the frame's kpageflags record.
pub fn classify_pagemap_entry(entry: &PagemapEntry) -> (r: PagemapVerdict)
    ensures
        r == (if !spec_present(entry.value()) {
            PagemapVerdict::NotPresent
        } else if spec_page_frame_number(entry.value()) == 0 {
            PagemapVerdict::NominalOnly
        } else {
            PagemapVerdict::CheckFlags {
                page_frame_number: spec_page_frame_number(entry.value()),
            }
        }),
{
    if !entry.present() {
        PagemapVerdict::NotPresent
    } else {
        let page_frame_number = entry.page_frame_number();
        if page_frame_number == 0 {
            PagemapVerdict::NominalOnly
        } else {
            PagemapVerdict::CheckFlags { page_frame_number }
        }
    }
}

/// Whether a kpageflags record marks its frame as part of a transparent
/// huge page (bit 22).
pub fn kpageflags_is_transparent_huge(flags: u64) -> (r: bool)
    ensures
        r == spec_transparent_huge(flags),
{
    flags & (1u64 << 22) != 0
}

/// The byte offset of the pagemap record for `address`: records are eight
/// bytes, one per virtual page.
pub fn pagemap_offset(address: usize, page_size: usize) -> (r: u64)
    requires
        page_size >= 8,
    ensures
        r == 8 * ((address as int) / (page_size as int)),
{
    let index = (address as u64) / (page_size as u64);
    proof {
        lemma_div_is_ordered_by_denominator(address as int, 8, page_size as int);
        lemma_fundamental_div_mod(address as int, 8);
        lemma_mod_bound(address as int, 8);
    }
    index * 8
}

/// The byte offset of the kpageflags record for a page-frame number:
/// records are eight bytes, one per frame.
pub fn kpageflags_offset(page_frame_number: u64) -> (r: u64)
    requires
        page_frame_number <= PAGE_FRAME_NUMBER_MASK,
    ensures
        r == 8 * page_frame_number,
{
    page_frame_number * 8
}

/// An ASCII decimal digit.
pub open spec fn is_ascii_digit(b: u8) -> bool {
    48 <= b && b <= 57
}

/// Every byte of `s` is an ASCII decimal digit.
pub open spec fn all_ascii_digits(s: Seq<u8>) -> bool {
    forall|i: int| 0 <= i < s.len() ==> is_ascii_digit(#[trigger] s[i])
}

/// The number that the digit string `s` denotes in decimal.
pub open spec fn decimal_value(s: Seq<u8>) -> int
    decreases s.len(),
{
    if s.len() == 0 {
        0
    } else {
        decimal_value(s.drop_last()) * 10 + (s.last() - 48)
    }
}

/// A digit string denotes a nonnegative number.
proof fn lemma_decimal_value_nonneg(s: Seq<u8>)
    requires
        all_ascii_digits(s),
    ensures
        decimal_value(s) >= 0,
    decreases s.len(),
{
    if s.len() > 0 {
        assert(all_ascii_digits(s.drop_last())) by {
            assert(forall|i: int|
                0 <= i < s.len() - 1 ==> is_ascii_digit(#[trigger] s.drop_last()[i]));
        }
        lemma_decimal_value_nonneg(s.drop_last());
    }
}

/// Extending a digit string never shrinks the number it denotes.
proof fn lemma_decimal_prefix_le(s: Seq<u8>, m: int)
    requires
        all_ascii_digits(s),
        0 <= m <= s.len(),
    ensures
        decimal_value(s.subrange(0, m)) <= decimal_value(s),
    decreases s.len() - m,
{
    if m == s.len() {
        assert(s.subrange(0, m) =~= s);
    } else {
        let t = s.subrange(0, m + 1);
        assert(t.drop_last() =~= s.subrange(0, m));
        assert(all_ascii_digits(t)) by {
            assert(forall|i: int| 0 <= i < t.len() ==> is_ascii_digit(#[trigger] t[i]));
        }
        lemma_decimal_value_nonneg(t.drop_last());
        assert(decimal_value(s.subrange(0, m)) <= decimal_value(t));
        lemma_decimal_prefix_le(s, m + 1);
    }
}

/// Why parsing the kernel's size text failed.
#[derive(Clone, Copy, Debug, PartialEq, Eq, Structural)]
pub enum SizeParseError {
    /// There were no digits at all.
    Empty,
    /// Some byte is not an ASCII decimal digit.
    NonDigit,
    /// The digits denote a number that does not fit in a machine word.
    TooLarge,
}

/// Parses an unsigned decimal number from `s`: every byte must be a digit,
/// there must be at least one, and the value must fit in a machine word.
pub fn parse_decimal_usize(s: &[u8]) -> (r: Result<usize, SizeParseError>)
    ensures
        match r {
            Ok(n) => s@.len() > 0 && all_ascii_digits(s@) && decimal_value(s@) == n,
            Err(SizeParseError::Empty) => s@.len() == 0,
            Err(SizeParseError::NonDigit) => s@.len() > 0 && !all_ascii_digits(s@),
            Err(SizeParseError::TooLarge) => s@.len() > 0 && all_ascii_digits(s@)
                && decimal_value(s@) > usize::MAX,
        },
{
    let n = s.len();
    if n == 0 {
        return Err(SizeParseError::Empty);
    }
    let mut i: usize = 0;
    while i < n
        invariant
            n == s@.len(),
            0 <= i <= n,
            forall|j: int| 0 <= j < i ==> is_ascii_digit(#[trigger] s@[j]),
        decreases n - i,
    {
        let b = *slice_index_get(s, i);
        if b < 48 || b > 57 {
            return Err(SizeParseError::NonDigit);
        }
        i += 1;
    }
    let mut acc: usize = 0;
    let mut k: usize = 0;
    while k < n
        invariant
            n == s@.len(),
            all_ascii_digits(s@),
            0 <= k <= n,
            acc == decimal_value(s@.subrange(0, k as int)),
        decreases n - k,
    {
        let d = (*slice_index_get(s, k) - 48) as usize;
        proof {
            let t = s@.subrange(0, k + 1);
            assert(t.drop_last() =~= s@.subrange(0, k as int));
            assert(decimal_value(t) == acc * 10 + d);
            lemma_fundamental_div_mod(usize::MAX - d, 10);
            lemma_mod_bound(usize::MAX - d, 10);
        }
        if acc > (usize::MAX - d) / 10 {
            proof {
                lemma_decimal_prefix_le(s@, k + 1);
            }
            return Err(SizeParseError::TooLarge);
        }
        acc = acc * 10 + d;
        k += 1;
    }
    proof {
        assert(s@.subrange(0, n as int) =~= s@);
    }
    Ok(acc)
}

/// The kernel's size text with one trailing newline removed, if present.
pub open spec fn stripped_line(s: Seq<u8>) -> Seq<u8> {
    if s.len() > 0 && s.last() == 10 {
        s.drop_last()
    } else {
        s
    }
}

/// Parses the kernel's huge-page size file: a decimal number of bytes,
/// usually terminated by one newline, which is stripped before parsing.
pub fn parse_hugepage_size(text: &[u8]) -> (r: Result<usize, SizeParseError>)
    ensures
        match r {
            Ok(n) => stripped_line(text@).len() > 0 && all_ascii_digits(stripped_line(text@))
                && decimal_value(stripped_line(text@)) == n,
            Err(SizeParseError::Empty) => stripped_line(text@).len() == 0,
            Err(SizeParseError::NonDigit) => stripped_line(text@).len() > 0 && !all_ascii_digits(
                stripped_line(text@),
            ),
            Err(SizeParseError::TooLarge) => stripped_line(text@).len() > 0 && all_ascii_digits(
                stripped_line(text@),
            ) && decimal_value(stripped_line(text@)) > usize::MAX,
        },
{
    let n = text.len();
    if n > 0 && *slice_index_get(text, n - 1) == 10 {
        let body = slice_subrange(text, 0, n - 1);
        proof {
            assert(body@ =~= stripped_line(text@));
        }
        parse_decimal_usize(body)
    } else {
        parse_decimal_usize(text)
    }
}

} // verus!
