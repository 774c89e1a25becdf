use vstd::prelude::*;

use crate::cli::{Algo, AlgoError, spec_algo_from_lowercase, lemma_name_parses_back};

verus! {

// ---------------------------------------------------------------------------
// The hash functions of the outside crates.
// ---------------------------------------------------------------------------

#[verifier::external_type_specification]
#[verifier::external_body]
pub struct ExMd5Context(md5::Context);

#[verifier::external_type_specification]
#[verifier::external_body]
pub struct ExSha256(sha2::Sha256);

#[verifier::external_type_specification]
#[verifier::external_body]
pub struct ExBlake3Hasher(blake3::Hasher);

/// The bytes that an MD5 context has consumed since it was created.
pub uninterp spec fn md5_input(ctx: md5::Context) -> Seq<u8>;

/// The bytes that a SHA-256 hasher has been updated with since it was created.
pub uninterp spec fn sha256_input(hasher: sha2::Sha256) -> Seq<u8>;

/// The bytes that a BLAKE3 hasher has been updated with since it was created.
pub uninterp spec fn blake3_input(hasher: blake3::Hasher) -> Seq<u8>;

/// The MD5 digest of a byte sequence (RFC 1321).
pub uninterp spec fn md5_digest(data: Seq<u8>) -> Seq<u8>;

/// The SHA-256 digest of a byte sequence (FIPS 180-4).
pub uninterp spec fn sha256_digest(data: Seq<u8>) -> Seq<u8>;

/// The BLAKE3 hash (default 32-byte output) of a byte sequence.
pub uninterp spec fn blake3_digest(data: Seq<u8>) -> Seq<u8>;

/// `md5::Context::new`: a fresh context has consumed nothing.
#[verifier::external_body]
fn md5_new() -> (ctx: md5::Context)
    ensures
        md5_input(ctx) == Seq::<u8>::empty(),
{
    md5::Context::new()
}

/// `md5::Context::consume`: the data is appended to what the context has
/// consumed.
#[verifier::external_body]
fn md5_consume(ctx: &mut md5::Context, data: &[u8])
    ensures
        md5_input(*final(ctx)) == md5_input(*old(ctx)) + data@,
{
    ctx.consume(data)
}

/// `md5::Context::finalize`: the 16-byte digest of everything consumed.
#[verifier::external_body]
fn md5_finalize(ctx: md5::Context) -> (digest: Vec<u8>)
    ensures
        digest@ == md5_digest(md5_input(ctx)),
        digest@.len() == 16,
{
    ctx.finalize().0.to_vec()
}

/// `<sha2::Sha256 as Digest>::new`: a fresh hasher has seen no input.
#[verifier::external_body]
fn sha256_new() -> (hasher: sha2::Sha256)
    ensures
        sha256_input(hasher) == Seq::<u8>::empty(),
{
    <sha2::Sha256 as sha2::Digest>::new()
}

/// `<sha2::Sha256 as Digest>::update`: the data is appended to the input.
#[verifier::external_body]
fn sha256_update(hasher: &mut sha2::Sha256, data: &[u8])
    ensures
        sha256_input(*final(hasher)) == sha256_input(*old(hasher)) + data@,
{
    sha2::Digest::update(hasher, data)
}

/// `<sha2::Sha256 as Digest>::finalize`: the 32-byte digest of the input.
#[verifier::external_body]
fn sha256_finalize(hasher: sha2::Sha256) -> (digest: Vec<u8>)
    ensures
        digest@ == sha256_digest(sha256_input(hasher)),
        digest@.len() == 32,
{
    sha2::Digest::finalize(hasher).as_slice().to_vec()
}

/// `blake3::Hasher::new`: a fresh hasher has seen no input.
#[verifier::external_body]
fn blake3_new() -> (hasher: blake3::Hasher)
    ensures
        blake3_input(hasher) == Seq::<u8>::empty(),
{
    blake3::Hasher::new()
}

/// `blake3::Hasher::update`: the data is appended to the input.
#[verifier::external_body]
fn blake3_update(hasher: &mut blake3::Hasher, data: &[u8])
    ensures
        blake3_input(*final(hasher)) == blake3_input(*old(hasher)) + data@,
{
    hasher.update(data);
}

/// `blake3::Hasher::finalize` followed by `Hash::as_bytes`: the 32-byte hash
/// of the input.
#[verifier::external_body]
fn blake3_finalize(hasher: blake3::Hasher) -> (digest: Vec<u8>)
    ensures
        digest@ == blake3_digest(blake3_input(hasher)),
        digest@.len() == 32,
{
    hasher.finalize().as_bytes().to_vec()
}

// ---------------------------------------------------------------------------
// The digest of each algorithm, and its length.
// ---------------------------------------------------------------------------

/// The digest that `algo` gives for `data`.
pub open spec fn spec_digest(algo: Algo, data: Seq<u8>) -> Seq<u8> {
    match algo {
        Algo::Md5 => md5_digest(data),
        Algo::Sha256 => sha256_digest(data),
        Algo::Blake3 => blake3_digest(data),
    }
}

/// Each algorithm's digest is the standard one, unchanged: MD5 is
/// `md5_digest`, SHA-256 is `sha256_digest` and BLAKE3 is `blake3_digest`,
/// byte for byte.
pub proof fn lemma_digest_is_standard(data: Seq<u8>)
    ensures
        spec_digest(Algo::Md5, data) == md5_digest(data),
        spec_digest(Algo::Sha256, data) == sha256_digest(data),
        spec_digest(Algo::Blake3, data) == blake3_digest(data),
{
}

/// The length in bytes of a digest of `algo`.
pub open spec fn digest_len(algo: Algo) -> nat {
    match algo {
        Algo::Md5 => 16,
        Algo::Sha256 => 32,
        Algo::Blake3 => 32,
    }
}

// ---------------------------------------------------------------------------
// Lower-case hexadecimal text.
// ---------------------------------------------------------------------------

/// The lower-case hexadecimal digit for a value below 16.
pub open spec fn hex_digit(n: u8) -> char {
    if n < 10 {
        (('0' as u8) + n) as char
    } else {
        (('a' as u8) + (n - 10)) as char
    }
}

/// Whether `c` is one of `0`-`9`, `a`-`f`.
pub open spec fn is_lower_hex_char(c: char) -> bool {
    ('0' <= c && c <= '9') || ('a' <= c && c <= 'f')
}

/// Two lower-case hex digits per byte, high nibble first.
pub open spec fn hex_lower(bytes: Seq<u8>) -> Seq<char>
    decreases bytes.len(),
{
    if bytes.len() == 0 {
        Seq::<char>::empty()
    } else {
        hex_lower(bytes.drop_last()) + seq![
            hex_digit(bytes.last() / 16),
            hex_digit(bytes.last() % 16),
        ]
    }
}

/// The one-character string of the hex digit for `n`.
fn hex_digit_str(n: u8) -> (s: &'static str)
    requires
        n < 16,
    ensures
        s@ == seq![hex_digit(n)],
{
    match n {
        0 => { proof { reveal_strlit("0"); } "0" },
        1 => { proof { reveal_strlit("1"); } "1" },
        2 => { proof { reveal_strlit("2"); } "2" },
        3 => { proof { reveal_strlit("3"); } "3" },
        4 => { proof { reveal_strlit("4"); } "4" },
        5 => { proof { reveal_strlit("5"); } "5" },
        6 => { proof { reveal_strlit("6"); } "6" },
        7 => { proof { reveal_strlit("7"); } "7" },
        8 => { proof { reveal_strlit("8"); } "8" },
        9 => { proof { reveal_strlit("9"); } "9" },
        10 => { proof { reveal_strlit("a"); } "a" },
        11 => { proof { reveal_strlit("b"); } "b" },
        12 => { proof { reveal_strlit("c"); } "c" },
        13 => { proof { reveal_strlit("d"); } "d" },
        14 => { proof { reveal_strlit("e"); } "e" },
        _ => { proof { reveal_strlit("f"); } "f" },
    }
}

/// Encodes bytes as lower-case hexadecimal, two digits per byte.
pub fn to_hex_lower(bytes: &[u8]) -> (s: String)
    ensures
        s@ == hex_lower(bytes@),
        s@.len() == 2 * bytes@.len(),
        forall|i: int| 0 <= i < bytes@.len() ==> {
            &&& #[trigger] s@[2 * i] == hex_digit(bytes@[i] / 16)
            &&& s@[2 * i + 1] == hex_digit(bytes@[i] % 16)
            &&& hex_value(s@[2 * i]) * 16 + hex_value(s@[2 * i + 1]) == bytes@[i]
        },
        forall|j: int| 0 <= j < s@.len() ==> is_lower_hex_char(#[trigger] s@[j]),
{
    proof {
        lemma_hex_lower_decodes(bytes@);
        lemma_hex_lower_chars(bytes@);
    }
    let mut s = String::new();
    let mut i: usize = 0;
    while i < bytes.len()
        invariant
            i <= bytes@.len(),
            s@ == hex_lower(bytes@.take(i as int)),
        decreases bytes@.len() - i,
    {
        let b = bytes[i];
        s.append(hex_digit_str(b / 16));
        s.append(hex_digit_str(b % 16));
        proof {
            assert(bytes@.take(i + 1).drop_last() == bytes@.take(i as int));
            assert(bytes@.take(i + 1).last() == b);
        }
        i = i + 1;
    }
    proof {
        assert(bytes@.take(bytes@.len() as int) == bytes@);
    }
    s
}


/// Hex text has two characters per byte.
pub proof fn lemma_hex_lower_len(bytes: Seq<u8>)
    ensures
        hex_lower(bytes).len() == 2 * bytes.len(),
    decreases bytes.len(),
{
    if bytes.len() > 0 {
        lemma_hex_lower_len(bytes.drop_last());
    }
}

/// Every character of hex text is a lower-case hex digit.
pub proof fn lemma_hex_lower_chars(bytes: Seq<u8>)
    ensures
        forall|i: int| 0 <= i < hex_lower(bytes).len() ==> is_lower_hex_char(#[trigger] hex_lower(bytes)[i]),
    decreases bytes.len(),
{
    if bytes.len() > 0 {
        lemma_hex_lower_chars(bytes.drop_last());
        lemma_hex_lower_len(bytes.drop_last());
        let hi = bytes.last() / 16;
        let lo = bytes.last() % 16;
        assert(is_lower_hex_char(hex_digit(hi)));
        assert(is_lower_hex_char(hex_digit(lo)));
    }
}

/// The value of a lower-case hex digit.
pub open spec fn hex_value(c: char) -> int {
    if '0' <= c && c <= '9' {
        c as int - '0' as int
    } else {
        c as int - 'a' as int + 10
    }
}

/// The hex digits are `0123456789abcdef` in that order: the digit for `n`
/// is the `n`-th of them, and reading it back gives `n`.
pub proof fn lemma_hex_digit_table(n: u8)
    requires
        n < 16,
    ensures
        hex_digit(n) == seq!['0', '1', '2', '3', '4', '5', '6', '7', '8', '9', 'a', 'b', 'c', 'd', 'e', 'f'][n as int],
        is_lower_hex_char(hex_digit(n)),
        hex_value(hex_digit(n)) == n,
{
}

/// Each byte is written where it stands and in full: characters `2i` and
/// `2i + 1` of the text are the digits of the high and low nibble of byte
/// `i`, and reading those two digits back gives the byte.
pub proof fn lemma_hex_lower_decodes(bytes: Seq<u8>)
    ensures
        hex_lower(bytes).len() == 2 * bytes.len(),
        forall|i: int| 0 <= i < bytes.len() ==> {
            &&& #[trigger] hex_lower(bytes)[2 * i] == hex_digit(bytes[i] / 16)
            &&& hex_lower(bytes)[2 * i + 1] == hex_digit(bytes[i] % 16)
            &&& hex_value(hex_lower(bytes)[2 * i]) * 16 + hex_value(hex_lower(bytes)[2 * i + 1]) == bytes[i]
        },
    decreases bytes.len(),
{
    lemma_hex_lower_len(bytes);
    if bytes.len() > 0 {
        let prev = bytes.drop_last();
        lemma_hex_lower_decodes(prev);
        lemma_hex_lower_len(prev);
        let h = hex_lower(bytes);
        assert forall|i: int| 0 <= i < bytes.len() implies {
            &&& #[trigger] h[2 * i] == hex_digit(bytes[i] / 16)
            &&& h[2 * i + 1] == hex_digit(bytes[i] % 16)
            &&& hex_value(h[2 * i]) * 16 + hex_value(h[2 * i + 1]) == bytes[i]
        } by {
            let b = bytes[i];
            lemma_hex_digit_table(b / 16);
            lemma_hex_digit_table(b % 16);
            if i < bytes.len() - 1 {
                assert(prev[i] == b);
                assert(h[2 * i] == hex_lower(prev)[2 * i]);
                assert(h[2 * i + 1] == hex_lower(prev)[2 * i + 1]);
            } else {
                assert(bytes.last() == b);
                assert(h[2 * i] == hex_digit(b / 16));
                assert(h[2 * i + 1] == hex_digit(b % 16));
            }
            assert((b / 16) as int * 16 + (b % 16) as int == b as int);
        }
    }
}

// ---------------------------------------------------------------------------
// Streaming digest state.
// ---------------------------------------------------------------------------

enum DigestState {
    Md5(md5::Context),
    Sha256(sha2::Sha256),
    Blake3(blake3::Hasher),
}

/// The running digest of one file's contents, fed chunk by chunk.
pub struct ChecksumHasher {
    state: DigestState,
}

impl ChecksumHasher {
    /// The algorithm this hasher computes.
    pub closed spec fn algo(&self) -> Algo {
        match self.state {
            DigestState::Md5(_) => Algo::Md5,
            DigestState::Sha256(_) => Algo::Sha256,
            DigestState::Blake3(_) => Algo::Blake3,
        }
    }

    /// All bytes fed to this hasher so far, in order.
    pub closed spec fn input(&self) -> Seq<u8> {
        match self.state {
            DigestState::Md5(ctx) => md5_input(ctx),
            DigestState::Sha256(h) => sha256_input(h),
            DigestState::Blake3(h) => blake3_input(h),
        }
    }

    /// A hasher for `algo` that has seen no input.
    pub fn new(algo: Algo) -> (h: Self)
        ensures
            h.algo() == algo,
            h.input() == Seq::<u8>::empty(),
    {
        match algo {
            Algo::Md5 => ChecksumHasher { state: DigestState::Md5(md5_new()) },
            Algo::Sha256 => ChecksumHasher { state: DigestState::Sha256(sha256_new()) },
            Algo::Blake3 => ChecksumHasher { state: DigestState::Blake3(blake3_new()) },
        }
    }

    /// Feeds `chunk` to the hasher.
    pub fn update(&mut self, chunk: &[u8])
        ensures
            final(self).algo() == old(self).algo(),
            final(self).input() == old(self).input() + chunk@,
    {
        match &mut self.state {
            DigestState::Md5(ctx) => md5_consume(ctx, chunk),
            DigestState::Sha256(h) => sha256_update(h, chunk),
            DigestState::Blake3(h) => blake3_update(h, chunk),
        }
    }

    /// One step of reading a file through `buffer`: `read` is how many bytes
    /// the last read put at the front of the buffer. A read of zero bytes
    /// marks the end of the file and leaves the hasher as it is; otherwise
    /// those bytes are fed to the hasher. Returns whether reading goes on.
    pub fn absorb_read(&mut self, buffer: &[u8], read: usize) -> (more: bool)
        requires
            read <= buffer@.len(),
        ensures
            more == (read != 0),
            final(self).algo() == old(self).algo(),
            final(self).input() == old(self).input() + buffer@.take(read as int),
    {
        if read == 0 {
            assert(buffer@.take(0) == Seq::<u8>::empty());
            assert(self.input() + buffer@.take(0) == self.input());
            false
        } else {
            let chunk = vstd::slice::slice_subrange(buffer, 0, read);
            self.update(chunk);
            true
        }
    }

    /// The digest of everything fed to the hasher.
    pub fn finalize(self) -> (digest: Vec<u8>)
        ensures
            digest@ == spec_digest(self.algo(), self.input()),
            digest@.len() == digest_len(self.algo()),
            self.algo() == Algo::Md5 ==> digest@ == md5_digest(self.input()),
            self.algo() == Algo::Sha256 ==> digest@ == sha256_digest(self.input()),
            self.algo() == Algo::Blake3 ==> digest@ == blake3_digest(self.input()),
    {
        match self.state {
            DigestState::Md5(ctx) => md5_finalize(ctx),
            DigestState::Sha256(h) => sha256_finalize(h),
            DigestState::Blake3(h) => blake3_finalize(h),
        }
    }

    /// The checksum line for the file at `rel_path` whose contents are
    /// everything fed to the hasher.
    pub fn finish_line(self, rel_path: &str) -> (line: String)
        ensures
            line@ == spec_checksum_line(self.algo(), spec_digest(self.algo(), self.input()), rel_path@),
            spec_digest(self.algo(), self.input()).len() == digest_len(self.algo()),
            self.algo() == Algo::Md5 ==> line@ == spec_checksum_line(Algo::Md5, md5_digest(self.input()), rel_path@),
            self.algo() == Algo::Sha256 ==> line@ == spec_checksum_line(Algo::Sha256, sha256_digest(self.input()), rel_path@),
            self.algo() == Algo::Blake3 ==> line@ == spec_checksum_line(Algo::Blake3, blake3_digest(self.input()), rel_path@),
    {
        let algo = match &self.state {
            DigestState::Md5(_) => Algo::Md5,
            DigestState::Sha256(_) => Algo::Sha256,
            DigestState::Blake3(_) => Algo::Blake3,
        };
        let digest = self.finalize();
        checksum_line(algo, digest.as_slice(), rel_path)
    }
}

// ---------------------------------------------------------------------------
// Checksum lines.
// ---------------------------------------------------------------------------

/// `<algorithm> <hex digest> <relative path>`, without a line break.
pub open spec fn spec_checksum_line(algo: Algo, digest: Seq<u8>, rel_path: Seq<char>) -> Seq<char> {
    algo.spec_name() + seq![' '] + hex_lower(digest) + seq![' '] + rel_path
}

/// Builds the checksum line of a file from its digest and its path relative
/// to the directory that is being checksummed.
pub fn checksum_line(algo: Algo, digest: &[u8], rel_path: &str) -> (line: String)
    ensures
        line@ == spec_checksum_line(algo, digest@, rel_path@),
{
    let mut line = String::from_str(algo.name());
    proof {
        reveal_strlit(" ");
    }
    line.append(" ");
    let hex = to_hex_lower(digest);
    line.append(hex.as_str());
    line.append(" ");
    line.append(rel_path);
    line
}

/// The layout of a checksum line: the algorithm's name, a space, the
/// digest as `2 * digest.len()` lower-case hex digits, a space, then the
/// relative path. The spaces in the line are exactly the two separators and
/// those of the path, and the first field parses back to the algorithm.
pub proof fn lemma_checksum_line_fields(algo: Algo, digest: Seq<u8>, rel_path: Seq<char>)
    ensures
        ({
            let line = spec_checksum_line(algo, digest, rel_path);
            let name = algo.spec_name();
            let p1 = name.len() as int;
            let p2 = p1 + 1 + 2 * digest.len();
            &&& line.len() == p2 + 1 + rel_path.len()
            &&& line.subrange(0, p1) == name
            &&& spec_algo_from_lowercase(line.subrange(0, p1)) == Ok::<Algo, AlgoError>(algo)
            &&& line.subrange(p1 + 1, p2) == hex_lower(digest)
            &&& forall|i: int| p1 < i < p2 ==> is_lower_hex_char(#[trigger] line[i])
            &&& line.subrange(p2 + 1, line.len() as int) == rel_path
            &&& forall|i: int| 0 <= i < line.len() ==>
                (#[trigger] line[i] == ' ' <==> (i == p1 || i == p2 || (i > p2 && rel_path[i - p2 - 1] == ' ')))
        }),
{
    let line = spec_checksum_line(algo, digest, rel_path);
    let name = algo.spec_name();
    let hex = hex_lower(digest);
    let p1 = name.len() as int;
    lemma_hex_lower_len(digest);
    lemma_hex_lower_chars(digest);
    lemma_name_parses_back(algo);
    let p2 = p1 + 1 + 2 * digest.len();
    assert(line.subrange(0, p1) =~= name);
    assert(line.subrange(p1 + 1, p2) =~= hex);
    assert(line.subrange(p2 + 1, line.len() as int) =~= rel_path);
    assert forall|i: int| p1 < i < p2 implies is_lower_hex_char(#[trigger] line[i]) by {
        assert(line[i] == hex[i - p1 - 1]);
    }
    assert forall|i: int| 0 <= i < line.len() implies
        (#[trigger] line[i] == ' ' <==> (i == p1 || i == p2 || (i > p2 && rel_path[i - p2 - 1] == ' '))) by {
        if i < p1 {
            assert(line[i] == name[i]);
        } else if p1 < i < p2 {
            assert(line[i] == hex[i - p1 - 1]);
            assert(is_lower_hex_char(hex[i - p1 - 1]));
        } else if i > p2 {
            assert(line[i] == rel_path[i - p2 - 1]);
        }
    }
}

// ---------------------------------------------------------------------------
// Reading a file through a buffer.
// ---------------------------------------------------------------------------

/// The bytes that a sequence of reads delivers, in order.
pub open spec fn concat_reads(reads: Seq<Seq<u8>>) -> Seq<u8>
    decreases reads.len(),
{
    if reads.len() == 0 {
        Seq::<u8>::empty()
    } else {
        concat_reads(reads.drop_last()) + reads.last()
    }
}

/// The reads that deliver `content` through a buffer of `size` bytes when
/// every read but the last fills the buffer.
pub open spec fn buffered_reads(content: Seq<u8>, size: nat) -> Seq<Seq<u8>>
    decreases content.len(),
{
    if size == 0 || content.len() == 0 {
        Seq::<Seq<u8>>::empty()
    } else if content.len() <= size {
        seq![content]
    } else {
        seq![content.take(size as int)] + buffered_reads(content.skip(size as int), size)
    }
}

/// The checksum line of a file whose contents arrive as `reads`.
pub open spec fn line_after_reads(algo: Algo, reads: Seq<Seq<u8>>, rel_path: Seq<char>) -> Seq<char> {
    spec_checksum_line(algo, spec_digest(algo, concat_reads(reads)), rel_path)
}

/// One more read appends its bytes: a hasher that has absorbed `reads` (each
/// through `absorb_read`) and then absorbs `next` holds `concat_reads` of
/// the longer sequence.
pub proof fn lemma_concat_reads_push(reads: Seq<Seq<u8>>, next: Seq<u8>)
    ensures
        concat_reads(reads.push(next)) == concat_reads(reads) + next,
{
    assert(reads.push(next).drop_last() =~= reads);
}

/// Reading a prefix as one read in front of further reads.
proof fn lemma_concat_reads_prepend(first: Seq<u8>, rest: Seq<Seq<u8>>)
    ensures
        concat_reads(seq![first] + rest) == first + concat_reads(rest),
    decreases rest.len(),
{
    let all = seq![first] + rest;
    if rest.len() == 0 {
        assert(all =~= seq![first]);
        assert(all.drop_last() =~= Seq::<Seq<u8>>::empty());
        assert(concat_reads(all) == concat_reads(all.drop_last()) + all.last());
        assert(concat_reads(all) =~= first);
        assert(first + concat_reads(rest) =~= first);
    } else {
        assert(all.drop_last() =~= seq![first] + rest.drop_last());
        assert(all.last() == rest.last());
        lemma_concat_reads_prepend(first, rest.drop_last());
        assert(concat_reads(all) == concat_reads(all.drop_last()) + all.last());
        assert(concat_reads(rest) == concat_reads(rest.drop_last()) + rest.last());
        assert(concat_reads(all) =~= first + concat_reads(rest));
    }
}

/// Reading through a buffer of any non-zero size delivers exactly the
/// file's contents.
pub proof fn lemma_buffered_reads_deliver_content(content: Seq<u8>, size: nat)
    requires
        size > 0,
    ensures
        concat_reads(buffered_reads(content, size)) == content,
    decreases content.len(),
{
    if content.len() == 0 {
        assert(buffered_reads(content, size) =~= Seq::<Seq<u8>>::empty());
        assert(concat_reads(buffered_reads(content, size)) =~= content);
    } else if content.len() <= size {
        let reads = buffered_reads(content, size);
        assert(reads =~= seq![content]);
        assert(reads.drop_last() =~= Seq::<Seq<u8>>::empty());
        assert(concat_reads(reads) == concat_reads(reads.drop_last()) + reads.last());
        assert(concat_reads(reads) =~= content);
    } else {
        let head = content.take(size as int);
        let tail = content.skip(size as int);
        assert(buffered_reads(content, size) == seq![head] + buffered_reads(tail, size));
        lemma_buffered_reads_deliver_content(tail, size);
        lemma_concat_reads_prepend(head, buffered_reads(tail, size));
        assert(head + tail =~= content);
    }
}

/// The checksum line does not depend on how the file was read: any reads
/// that deliver the contents give the contents' line, so a buffer of 4 bytes
/// gives the same line as one of 8192.
pub proof fn lemma_line_independent_of_reads(
    algo: Algo,
    content: Seq<u8>,
    reads: Seq<Seq<u8>>,
    size1: nat,
    size2: nat,
    rel_path: Seq<char>,
)
    requires
        size1 > 0,
        size2 > 0,
        concat_reads(reads) == content,
    ensures
        line_after_reads(algo, reads, rel_path) == spec_checksum_line(algo, spec_digest(algo, content), rel_path),
        line_after_reads(algo, buffered_reads(content, size1), rel_path)
            == line_after_reads(algo, buffered_reads(content, size2), rel_path),
        line_after_reads(algo, buffered_reads(content, size1), rel_path)
            == spec_checksum_line(algo, spec_digest(algo, content), rel_path),
{
    lemma_buffered_reads_deliver_content(content, size1);
    lemma_buffered_reads_deliver_content(content, size2);
}

} // verus!
