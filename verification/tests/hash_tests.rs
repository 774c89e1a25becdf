use std::io::{Cursor, Read};

use cksum::{checksum_line, to_hex_lower, Algo, ChecksumHasher, BUFFER_SIZE};

/// Reads `content` through a buffer of `buffer_size` bytes, as a file is read,
/// and returns the checksum line for `rel_path`.
fn line_through_buffer(content: &[u8], algo: Algo, buffer_size: usize, rel_path: &str) -> String {
    let mut reader = Cursor::new(content);
    let mut buffer = vec![0u8; buffer_size];
    let mut hasher = ChecksumHasher::new(algo);
    loop {
        let read = reader.read(&mut buffer).expect("read failed");
        if !hasher.absorb_read(&buffer, read) {
            break;
        }
    }
    hasher.finish_line(rel_path)
}

fn run_process(content: &[u8], algo: Algo) -> String {
    line_through_buffer(content, algo, BUFFER_SIZE, "test_file.txt").trim().to_string()
}

#[test]
fn test_md5_empty_string() {
    let res = run_process(b"", Algo::Md5);
    assert_eq!(res, "md5 d41d8cd98f00b204e9800998ecf8427e test_file.txt");
}

#[test]
fn test_md5_known_string() {
    let res = run_process(b"hello", Algo::Md5);
    assert_eq!(res, "md5 5d41402abc4b2a76b9719d911017c592 test_file.txt");
}

#[test]
fn test_sha256_known_string() {
    let res = run_process(b"testing", Algo::Sha256);
    assert_eq!(res, "sha256 cf80cd8aed482d5d1527d7dc72fceff84e6326592848447d2dc0b0e87dfc9a90 test_file.txt");
}

#[test]
fn test_sha256_empty_string() {
    let res = run_process(b"", Algo::Sha256);
    assert_eq!(res, "sha256 e3b0c44298fc1c149afbf4c8996fb92427ae41e4649b934ca495991b7852b855 test_file.txt");
}

#[test]
fn test_blake3_known_string() {
    let res = run_process(b"hola", Algo::Blake3);
    assert!(res.starts_with("blake3 "));
    let parts: Vec<&str> = res.split_whitespace().collect();
    assert_eq!(parts.len(), 3);
    assert_eq!(parts[0], "blake3");
    assert_eq!(parts[2], "test_file.txt");
    assert_eq!(parts[1].len(), 64);
    assert!(parts[1].chars().all(|c| c.is_ascii_hexdigit()));
}

#[test]
fn test_blake3_empty_string() {
    let res = run_process(b"", Algo::Blake3);
    let parts: Vec<&str> = res.split_whitespace().collect();
    assert_eq!(parts.len(), 3);
    assert_eq!(parts[0], "blake3");
    assert_eq!(parts[2], "test_file.txt");
    assert_eq!(parts[1].len(), 64);
    assert!(parts[1].chars().all(|c| c.is_ascii_hexdigit()));
}

#[test]
fn test_large_content() {
    let large_content = vec![b'A'; 2048];
    let res = run_process(&large_content, Algo::Sha256);
    assert!(res.contains("sha256"));
    assert!(res.contains("test_file.txt"));
    let parts: Vec<&str> = res.split_whitespace().collect();
    assert_eq!(parts[1].len(), 64);
}

#[test]
fn test_small_buffer() {
    let result = line_through_buffer(b"test content", Algo::Md5, 4, "test.txt");

    assert!(result.contains("md5"));
    assert!(result.contains("test.txt"));
    assert!(result.contains("9473fdd0d880a43c21b7778d34872157"));
}

#[test]
fn test_output_format() {
    let res = run_process(b"sample", Algo::Sha256);
    assert!(res.matches(' ').count() == 2, "Should have exactly 2 spaces");
    let first_space = res.find(' ').unwrap();
    let second_space = res[first_space + 1..].find(' ').unwrap() + first_space + 1;

    let algo_part = &res[..first_space];
    let hash_part = &res[first_space + 1..second_space];
    let file_part = &res[second_space + 1..];

    assert!(algo_part == "sha256" || algo_part == "md5" || algo_part == "blake3");
    assert!(!hash_part.is_empty());
    assert_eq!(file_part, "test_file.txt");
}

#[test]
fn blake3_known_digests() {
    assert_eq!(
        run_process(b"", Algo::Blake3),
        "blake3 af1349b9f5f9a1a6a0404dea36dcc9499bcb25c9adc112b7cc9a93cae41f3262 test_file.txt"
    );
    assert_eq!(
        run_process(b"abc", Algo::Blake3),
        "blake3 6437b3ac38465133ffb63b75273a8db548c558465d79db03fd359c6cd5bd9d85 test_file.txt"
    );
}

#[test]
fn buffer_size_does_not_change_the_line() {
    let content: Vec<u8> = (0..10_000u32).map(|i| (i * 7 % 251) as u8).collect();
    for algo in [Algo::Md5, Algo::Sha256, Algo::Blake3] {
        let expected = line_through_buffer(&content, algo, BUFFER_SIZE, "f");
        for size in [1usize, 3, 64, 65, 1000, 20_000] {
            assert_eq!(line_through_buffer(&content, algo, size, "f"), expected);
        }
    }
}

#[test]
fn update_accumulates_chunks() {
    let mut a = ChecksumHasher::new(Algo::Sha256);
    a.update(b"hello ");
    a.update(b"");
    a.update(b"world");
    let mut b = ChecksumHasher::new(Algo::Sha256);
    b.update(b"hello world");
    assert_eq!(a.finalize(), b.finalize());
}

#[test]
fn absorb_read_stops_on_zero() {
    let mut h = ChecksumHasher::new(Algo::Md5);
    assert!(h.absorb_read(b"hello world", 5));
    assert!(!h.absorb_read(b"ignored", 0));
    assert_eq!(h.finish_line("x"), "md5 5d41402abc4b2a76b9719d911017c592 x");
}

#[test]
fn digest_lengths() {
    assert_eq!(ChecksumHasher::new(Algo::Md5).finalize().len(), 16);
    assert_eq!(ChecksumHasher::new(Algo::Sha256).finalize().len(), 32);
    assert_eq!(ChecksumHasher::new(Algo::Blake3).finalize().len(), 32);
}

#[test]
fn hex_encoding() {
    assert_eq!(to_hex_lower(&[]), "");
    assert_eq!(to_hex_lower(&[0x00, 0xff, 0x1a, 0x09, 0xa0]), "00ff1a09a0");
}

#[test]
fn line_from_digest() {
    assert_eq!(checksum_line(Algo::Md5, &[0xab, 0x01], "dir/x.txt"), "md5 ab01 dir/x.txt");
    assert_eq!(checksum_line(Algo::Blake3, &[], ""), "blake3  ");
    assert_eq!(
        checksum_line(Algo::Sha256, &[0xde, 0xad], "folder1/subfolder2/level2.txt"),
        "sha256 dead folder1/subfolder2/level2.txt"
    );
}
