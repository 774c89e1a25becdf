use cksum::{algo_from_lowercase, parse_algo, Algo, AlgoError};

#[test]
fn test_parse_algo_md5_lowercase() {
    // Lowercase input (base case)
    let result = parse_algo("md5");
    assert!(result.is_ok(), "Expected Ok, received Err");
    assert!(matches!(result.unwrap(), Algo::Md5));
}

#[test]
fn test_parse_algo_sha256_uppercase() {
    // Upper-case input (checks case-insensitivity)
    let result = parse_algo("SHA256");
    assert!(result.is_ok(), "Expected Ok, received Err");
    assert!(matches!(result.unwrap(), Algo::Sha256));
}

#[test]
fn test_parse_algo_blake3_mixed_case() {
    // Mixed-case input
    let result = parse_algo("BlaKe3");
    assert!(result.is_ok(), "Expected Ok, received Err");
    assert!(matches!(result.unwrap(), Algo::Blake3));
}

#[test]
fn test_parse_algo_invalid() {
    // Invalid input (checks error handling)
    let result = parse_algo("invalid");
    assert!(result.is_err(), "Expected Err, received Ok");

    let err_msg = result.unwrap_err().to_string();
    assert!(err_msg.contains("Invalid Algorythm"));
}

#[test]
fn parse_algo_refuses_empty_and_padded_names() {
    assert_eq!(parse_algo(""), Err(AlgoError::InvalidAlgorithm));
    assert_eq!(parse_algo("md5 "), Err(AlgoError::InvalidAlgorithm));
    assert_eq!(parse_algo(" sha256"), Err(AlgoError::InvalidAlgorithm));
    assert_eq!(parse_algo("sha25"), Err(AlgoError::InvalidAlgorithm));
    assert_eq!(parse_algo("blake33"), Err(AlgoError::InvalidAlgorithm));
}

#[test]
fn parse_algo_every_case_of_every_name() {
    for (name, algo) in [("md5", Algo::Md5), ("sha256", Algo::Sha256), ("blake3", Algo::Blake3)] {
        assert_eq!(parse_algo(name), Ok(algo));
        assert_eq!(parse_algo(&name.to_uppercase()), Ok(algo));
    }
    assert_eq!(parse_algo("Md5"), Ok(Algo::Md5));
    assert_eq!(parse_algo("Sha256"), Ok(Algo::Sha256));
}

#[test]
fn parse_algo_uses_unicode_lowercase() {
    // U+212A KELVIN SIGN lower-cases to an ASCII 'k'.
    assert_eq!(parse_algo("BLA\u{212A}E3"), Ok(Algo::Blake3));
}

#[test]
fn name_parses_back() {
    for algo in [Algo::Md5, Algo::Sha256, Algo::Blake3] {
        assert_eq!(parse_algo(algo.name()), Ok(algo));
    }
    assert_eq!(Algo::Md5.name(), "md5");
    assert_eq!(Algo::Sha256.name(), "sha256");
    assert_eq!(Algo::Blake3.name(), "blake3");
}

#[test]
fn algo_from_lowercase_is_exact() {
    assert_eq!(algo_from_lowercase("md5"), Ok(Algo::Md5));
    assert_eq!(algo_from_lowercase("sha256"), Ok(Algo::Sha256));
    assert_eq!(algo_from_lowercase("blake3"), Ok(Algo::Blake3));
    assert_eq!(algo_from_lowercase("MD5"), Err(AlgoError::InvalidAlgorithm));
    assert_eq!(algo_from_lowercase(""), Err(AlgoError::InvalidAlgorithm));
}

#[test]
fn invalid_algorithm_message() {
    assert_eq!(
        AlgoError::InvalidAlgorithm.to_string(),
        "Invalid Algorythm. Use: md5, sha256 or blake3"
    );
}
