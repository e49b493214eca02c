//! Parsing of the kernel's transparent-huge-page policy line.
//!
//! The kernel reports its policy as a line like `always [madvise] never`:
//! three known tokens, with the active one in square brackets. The parser
//! extracts the first bracketed token — a bracketed token is a `[`, at
//! least one byte that is not `]`, and a `]` — and maps it to the policy it
//! names.

use vstd::prelude::*;

verus! {

use vstd::slice::{slice_index_get, slice_subrange, slice_to_vec};

/// The kernel's global transparent-huge-page policy.
#[derive(Clone, Copy, Debug, PartialEq, Eq, Structural)]
pub enum HugepageSetting {
    Always,
    MAdvise,
    Never,
}

/// The bytes of the token `always`.
pub open spec fn always_token() -> Seq<u8> {
    seq![97u8, 108u8, 119u8, 97u8, 121u8, 115u8]
}

/// The bytes of the token `madvise`.
pub open spec fn madvise_token() -> Seq<u8> {
    seq![109u8, 97u8, 100u8, 118u8, 105u8, 115u8, 101u8]
}

/// The bytes of the token `never`.
pub open spec fn never_token() -> Seq<u8> {
    seq![110u8, 101u8, 118u8, 101u8, 114u8]
}

/// The policy a token names, if it names one.
pub open spec fn setting_for_token(t: Seq<u8>) -> Option<HugepageSetting> {
    if t == always_token() {
        Some(HugepageSetting::Always)
    } else if t == madvise_token() {
        Some(HugepageSetting::MAdvise)
    } else if t == never_token() {
        Some(HugepageSetting::Never)
    } else {
        None
    }
}

/// Why a policy line could not be parsed; every variant names the raw input
/// it could not make sense of.
#[derive(Debug, PartialEq, Eq)]
pub enum PolicyParseError {
    /// The line holds no bracketed token at all.
    NoBracketedToken { raw: Vec<u8> },
    /// The bracketed token is not one of the three known policies; `token`
    /// holds that token besides the raw input.
    UnknownSetting { raw: Vec<u8>, token: Vec<u8> },
}

/// Whether `a` and `b` hold the same bytes.
fn bytes_eq(a: &[u8], b: &[u8]) -> (r: bool)
    ensures
        r <==> a@ == b@,
{
    let n = a.len();
    if n != b.len() {
        return false;
    }
    let mut i: usize = 0;
    while i < n
        invariant
            n == a@.len(),
            n == b@.len(),
            0 <= i <= n,
            forall|j: int| 0 <= j < i ==> a@[j] == b@[j],
        decreases n - i,
    {
        if *slice_index_get(a, i) != *slice_index_get(b, i) {
            return false;
        }
        i += 1;
    }
    proof {
        assert(a@ =~= b@);
    }
    true
}

/// The token `always` as a byte vector.
fn always_token_vec() -> (v: Vec<u8>)
    ensures
        v@ == always_token(),
{
    let mut v: Vec<u8> = Vec::new();
    v.push(97);
    v.push(108);
    v.push(119);
    v.push(97);
    v.push(121);
    v.push(115);
    proof {
        assert(v@ =~= always_token());
    }
    v
}

/// The token `madvise` as a byte vector.
fn madvise_token_vec() -> (v: Vec<u8>)
    ensures
        v@ == madvise_token(),
{
    let mut v: Vec<u8> = Vec::new();
    v.push(109);
    v.push(97);
    v.push(100);
    v.push(118);
    v.push(105);
    v.push(115);
    v.push(101);
    proof {
        assert(v@ =~= madvise_token());
    }
    v
}

/// The token `never` as a byte vector.
fn never_token_vec() -> (v: Vec<u8>)
    ensures
        v@ == never_token(),
{
    let mut v: Vec<u8> = Vec::new();
    v.push(110);
    v.push(101);
    v.push(118);
    v.push(101);
    v.push(114);
    proof {
        assert(v@ =~= never_token());
    }
    v
}

impl HugepageSetting {
    /// The name of the policy, as the kernel writes it.
    pub fn as_str(&self) -> (r: &'static str)
        ensures
            r@ == match self {
                HugepageSetting::Always => "always"@,
                HugepageSetting::MAdvise => "madvise"@,
                HugepageSetting::Never => "never"@,
            },
    {
        match self {
            HugepageSetting::Always => "always",
            HugepageSetting::MAdvise => "madvise",
            HugepageSetting::Never => "never",
        }
    }

    /// Maps a token to the policy it names; any other token is an error
    /// naming the input it was given.
    pub fn from_bytes(input: &[u8]) -> (r: Result<Self, PolicyParseError>)
        ensures
            match r {
                Ok(s) => setting_for_token(input@) == Some(s),
                Err(PolicyParseError::UnknownSetting { raw, token }) => setting_for_token(input@)
                    == None::<HugepageSetting> && raw@ == input@ && token@ == input@,
                Err(PolicyParseError::NoBracketedToken { raw }) => false,
            },
    {
        let always = always_token_vec();
        if bytes_eq(input, always.as_slice()) {
            return Ok(HugepageSetting::Always);
        }
        let madvise = madvise_token_vec();
        if bytes_eq(input, madvise.as_slice()) {
            return Ok(HugepageSetting::MAdvise);
        }
        let never = never_token_vec();
        if bytes_eq(input, never.as_slice()) {
            return Ok(HugepageSetting::Never);
        }
        Err(PolicyParseError::UnknownSetting {
            raw: slice_to_vec(input),
            token: slice_to_vec(input),
        })
    }
}

/// A bracketed token at positions `i` (the `[`) and `j` (the `]`): at least
/// one byte lies between them and none of those bytes is a `]`.
pub open spec fn is_bracket_match(s: Seq<u8>, i: int, j: int) -> bool {
    &&& 0 <= i
    &&& i + 1 < j
    &&& j < s.len()
    &&& s[i] == 91
    &&& s[j] == 93
    &&& forall|k: int| i < k < j ==> s[k] != 93
}

/// The line holds at least one bracketed token.
pub open spec fn has_bracket_match(s: Seq<u8>) -> bool {
    exists|i: int, j: int| is_bracket_match(s, i, j)
}

/// No bracketed token starts before position `i`.
pub open spec fn is_leftmost_match(s: Seq<u8>, i: int) -> bool {
    forall|i2: int, j2: int| is_bracket_match(s, i2, j2) ==> i <= i2
}

/// Finds the first bracketed token: the bracket positions of the leftmost
/// match, or nothing if the line holds no bracketed token.
pub fn find_bracketed_token(input: &[u8]) -> (r: Option<(usize, usize)>)
    ensures
        match r {
            Some(pair) => is_bracket_match(input@, pair.0 as int, pair.1 as int)
                && is_leftmost_match(input@, pair.0 as int),
            None => !has_bracket_match(input@),
        },
{
    let n = input.len();
    let mut i: usize = 0;
    while i < n
        invariant
            n == input@.len(),
            0 <= i <= n,
            forall|i2: int, j2: int| is_bracket_match(input@, i2, j2) ==> i <= i2,
        decreases n - i,
    {
        if *slice_index_get(input, i) == 91 {
            let mut j: usize = i + 1;
            let mut found = false;
            while !found && j < n
                invariant
                    n == input@.len(),
                    i < n,
                    i + 1 <= j <= n,
                    forall|k: int| i < k < j ==> input@[k] != 93,
                    found ==> j < n && input@[j as int] == 93,
                decreases n - j, (if found { 0int } else { 1int }),
            {
                if *slice_index_get(input, j) == 93 {
                    found = true;
                } else {
                    j += 1;
                }
            }
            if !found {
                proof {
                    assert forall|i2: int, j2: int| !is_bracket_match(input@, i2, j2) by {
                        if is_bracket_match(input@, i2, j2) {
                            assert(i <= i2);
                            assert(i < j2 < n && input@[j2] == 93);
                        }
                    }
                }
                return None;
            }
            if j > i + 1 {
                return Some((i, j));
            }
            proof {
                assert forall|i2: int, j2: int|
                    is_bracket_match(input@, i2, j2) implies i + 1 <= i2 by {
                    if i2 == i {
                        assert(input@[i + 1] == 93);
                        assert(i < i + 1 && i + 1 < j2);
                    }
                }
            }
        }
        i += 1;
    }
    proof {
        assert forall|i2: int, j2: int| !is_bracket_match(input@, i2, j2) by {
            if is_bracket_match(input@, i2, j2) {
                assert(i2 + 1 < j2 < n);
            }
        }
    }
    None
}

/// Parses the kernel's policy line: extracts the first bracketed token and
/// maps it to the policy it names. A line with no bracketed token, or with
/// an unknown token, is an error naming the raw input.
pub fn parse_hugepage_enabled(input: &[u8]) -> (r: Result<HugepageSetting, PolicyParseError>)
    ensures
        match r {
            Ok(s) => exists|i: int, j: int|
                #![trigger is_bracket_match(input@, i, j)]
                is_bracket_match(input@, i, j) && is_leftmost_match(input@, i)
                    && setting_for_token(input@.subrange(i + 1, j)) == Some(s),
            Err(PolicyParseError::NoBracketedToken { raw }) => !has_bracket_match(input@)
                && raw@ == input@,
            Err(PolicyParseError::UnknownSetting { raw, token }) => raw@ == input@
                && exists|i: int, j: int|
                #![trigger is_bracket_match(input@, i, j)]
                is_bracket_match(input@, i, j) && is_leftmost_match(input@, i)
                    && token@ == input@.subrange(i + 1, j)
                    && setting_for_token(token@) == None::<HugepageSetting>,
        },
{
    match find_bracketed_token(input) {
        None => Err(PolicyParseError::NoBracketedToken { raw: slice_to_vec(input) }),
        Some((i, j)) => {
            let token = slice_subrange(input, i + 1, j);
            match HugepageSetting::from_bytes(token) {
                Ok(s) => Ok(s),
                Err(_) => Err(PolicyParseError::UnknownSetting {
                    raw: slice_to_vec(input),
                    token: slice_to_vec(token),
                }),
            }
        },
    }
}

} // verus!
