use hugepagedemo::hugepage_setting::{parse_hugepage_enabled, HugepageSetting, PolicyParseError};
use hugepagedemo::pagemap::{parse_decimal_usize, parse_hugepage_size, SizeParseError};

#[test]
fn test_parse_hugepage() {
    assert_eq!(
        HugepageSetting::MAdvise,
        parse_hugepage_enabled(b"always [madvise] never\n").unwrap()
    );
    assert_eq!(
        HugepageSetting::Never,
        parse_hugepage_enabled(b"always madvise [never]\n").unwrap()
    );
}

#[test]
fn test_parse_hugepage_always() {
    assert_eq!(
        HugepageSetting::Always,
        parse_hugepage_enabled(b"[always] madvise never\n").unwrap()
    );
}

#[test]
fn test_parse_hugepage_no_brackets() {
    let result = parse_hugepage_enabled(b"nonsense");
    assert_eq!(
        Err(PolicyParseError::NoBracketedToken {
            raw: b"nonsense".to_vec()
        }),
        result
    );
}

#[test]
fn test_parse_hugepage_unknown_token() {
    let result = parse_hugepage_enabled(b"always [frobnicate] never\n");
    assert_eq!(
        Err(PolicyParseError::UnknownSetting {
            raw: b"always [frobnicate] never\n".to_vec(),
            token: b"frobnicate".to_vec()
        }),
        result
    );
}

#[test]
fn test_parse_hugepage_skips_empty_brackets() {
    // `[]` cannot hold a token; the parser moves on to the next bracket.
    assert_eq!(
        HugepageSetting::Never,
        parse_hugepage_enabled(b"[] [never]\n").unwrap()
    );
}

#[test]
fn test_from_bytes_tokens() {
    assert_eq!(
        HugepageSetting::Always,
        HugepageSetting::from_bytes(b"always").unwrap()
    );
    assert_eq!(
        HugepageSetting::MAdvise,
        HugepageSetting::from_bytes(b"madvise").unwrap()
    );
    assert_eq!(
        HugepageSetting::Never,
        HugepageSetting::from_bytes(b"never").unwrap()
    );
    assert!(HugepageSetting::from_bytes(b"sometimes").is_err());
}

#[test]
fn test_setting_names() {
    assert_eq!("always", HugepageSetting::Always.as_str());
    assert_eq!("madvise", HugepageSetting::MAdvise.as_str());
    assert_eq!("never", HugepageSetting::Never.as_str());
}

#[test]
fn test_parse_hugepage_size_newline() {
    assert_eq!(2097152, parse_hugepage_size(b"2097152\n").unwrap());
}

#[test]
fn test_parse_hugepage_size_no_newline() {
    assert_eq!(4096, parse_hugepage_size(b"4096").unwrap());
}

#[test]
fn test_parse_hugepage_size_empty() {
    assert_eq!(Err(SizeParseError::Empty), parse_hugepage_size(b"\n"));
    assert_eq!(Err(SizeParseError::Empty), parse_decimal_usize(b""));
}

#[test]
fn test_parse_hugepage_size_non_digit() {
    assert_eq!(Err(SizeParseError::NonDigit), parse_hugepage_size(b"20x48\n"));
    assert_eq!(Err(SizeParseError::NonDigit), parse_decimal_usize(b"-1"));
}

#[test]
fn test_parse_hugepage_size_too_large() {
    assert_eq!(
        Err(SizeParseError::TooLarge),
        parse_decimal_usize(b"99999999999999999999999999")
    );
}

#[test]
fn test_parse_decimal_exact() {
    assert_eq!(0, parse_decimal_usize(b"0").unwrap());
    assert_eq!(1048576, parse_decimal_usize(b"1048576").unwrap());
    assert_eq!(42, parse_decimal_usize(b"042").unwrap());
}
