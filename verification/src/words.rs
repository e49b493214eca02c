//! The word-level view of a mapped region.
//!
//! A fresh anonymous mapping reads as zeros; the caller sees it as a
//! contiguous run of 64-bit words. This module builds such a window zeroed,
//! and touches one word per page of a word slice to force the kernel's
//! fault path to populate every page.

use vstd::prelude::*;

verus! {

use vstd::arithmetic::div_mod::{lemma_fundamental_div_mod, lemma_small_mod};

/// Relies on `nix::unistd::sysconf` with `SysconfVar::PAGE_SIZE`: reports
/// the system's base page size in bytes, which is positive.
#[verifier::external_body]
pub fn sysconf_page_size() -> (r: usize)
    ensures
        r > 0,
{
    let page_size = nix::unistd::sysconf(nix::unistd::SysconfVar::PAGE_SIZE)
        .expect("sysconf(_SC_PAGESIZE) must work")
        .expect("page size must not be None");
    let converted = usize::try_from(page_size).expect("page size must fit in usize");
    core::num::NonZeroUsize::new(converted).expect("page size must be positive").get()
}

/// A window of `items` words, all zero — what a fresh anonymous mapping
/// reads as.
pub fn zeroed_words(items: usize) -> (v: Vec<u64>)
    ensures
        v@.len() == items,
        forall|i: int| 0 <= i < items ==> v@[i] == 0,
{
    let mut v: Vec<u64> = Vec::new();
    let mut i: usize = 0;
    while i < items
        invariant
            v@.len() == i,
            0 <= i <= items,
            forall|j: int| 0 <= j < i ==> v@[j] == 0,
        decreases items - i,
    {
        v.push(0);
        i += 1;
    }
    v
}

/// Two distinct multiples of `stride` lie at least `stride` apart.
proof fn lemma_multiples_apart(stride: int, lo: int, hi: int)
    requires
        stride > 0,
        lo % stride == 0,
        hi % stride == 0,
        lo < hi,
    ensures
        lo + stride <= hi,
{
    lemma_fundamental_div_mod(lo, stride);
    lemma_fundamental_div_mod(hi, stride);
    let ql = lo / stride;
    let qh = hi / stride;
    assert(lo == stride * ql && hi == stride * qh);
    assert(stride * ql < stride * qh ==> ql < qh) by (nonlinear_arith)
        requires
            stride > 0,
    ;
    assert(ql + 1 <= qh);
    assert(stride * ql + stride <= stride * qh) by (nonlinear_arith)
        requires
            stride > 0,
            ql + 1 <= qh,
    ;
}

/// `after` is `before` with exactly every `stride`-th word zeroed.
pub open spec fn touched_with_stride(before: Seq<u64>, after: Seq<u64>, stride: int) -> bool {
    &&& stride > 0
    &&& after.len() == before.len()
    &&& forall|i: int|
        0 <= i < after.len() ==> after[i] == (if i % stride == 0 {
            0u64
        } else {
            before[i]
        })
}

/// Writes a zero to every `stride`-th word and leaves every other word
/// unchanged.
pub fn touch_pages_with_stride(s: &mut [u64], stride: usize)
    requires
        stride > 0,
    ensures
        touched_with_stride(old(s)@, final(s)@, stride as int),
{
    let n = s.len();
    let mut index: usize = 0;
    while index < n
        invariant
            stride > 0,
            n == old(s)@.len(),
            s@.len() == n,
            0 <= index <= n,
            index < n ==> index % stride == 0,
            forall|i: int|
                0 <= i < n ==> s@[i] == (if i % (stride as int) == 0 && i < index {
                    0u64
                } else {
                    old(s)@[i]
                }),
        decreases n - index,
    {
        s[index] = 0;
        proof {
            lemma_small_mod(0, stride as nat);
            assert forall|i: int|
                index < i && #[trigger] (i % (stride as int)) == 0 implies index + stride
                <= i by {
                lemma_multiples_apart(stride as int, index as int, i);
            }
        }
        if n - index <= stride {
            index = n;
        } else {
            proof {
                vstd::arithmetic::div_mod::lemma_mod_add_multiples_vanish(
                    index as int,
                    stride as int,
                );
            }
            index = index + stride;
        }
    }
}

/// Touches one word per page: writes a zero at every page-sized stride, so
/// the kernel's page-fault path runs for every page of the window without
/// filling it. The words follow one stride pattern — every `stride`-th word
/// zeroed, the rest unchanged — for some positive stride; which stride is
/// the system's answer, so every word is either its old value or zero, and
/// a non-empty window always has its first word touched.
pub fn touch_pages(s: &mut [u64])
    ensures
        final(s)@.len() == old(s)@.len(),
        exists|stride: int| #[trigger] touched_with_stride(old(s)@, final(s)@, stride),
        forall|i: int|
            0 <= i < final(s)@.len() ==> final(s)@[i] == 0 || final(s)@[i] == old(s)@[i],
        final(s)@.len() > 0 ==> final(s)@[0] == 0,
{
    let page_size = sysconf_page_size();
    let stride = if page_size >= 8 {
        page_size / 8
    } else {
        1
    };
    proof {
        if page_size >= 8 {
            lemma_fundamental_div_mod(page_size as int, 8);
        }
        lemma_small_mod(0, stride as nat);
    }
    touch_pages_with_stride(s, stride);
}

/// Writing to the first and last word of a fresh zeroed window and reading
/// them back yields exactly the written values, and every interior word
/// still reads as zero.
pub proof fn lemma_first_last_write_round_trip(s: Seq<u64>, first: u64, last: u64)
    requires
        s.len() >= 2,
        forall|i: int| 0 <= i < s.len() ==> s[i] == 0,
    ensures
        ({
            let t = s.update(0, first).update(s.len() - 1, last);
            &&& t[0] == first
            &&& t[s.len() - 1] == last
            &&& forall|i: int| 0 < i < s.len() - 1 ==> t[i] == 0
        }),
{
}

} // verus!
