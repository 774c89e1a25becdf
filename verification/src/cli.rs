use vstd::prelude::*;

use crate::text::text_eq;

verus! {

/// What the command line carries: the directory (or file) to checksum and
/// the name of the hash algorithm.
pub struct Args {
    pub path: String,
    pub algorithm: String,
}

/// The supported hash algorithms.
#[derive(Debug, Clone, Copy, PartialEq, Eq, Structural)]
pub enum Algo {
    Md5,
    Sha256,
    Blake3,
}

impl Algo {
    /// The lower-case name of the algorithm, as it is written on the command
    /// line and at the start of each checksum line.
    pub open spec fn spec_name(self) -> Seq<char> {
        match self {
            Algo::Md5 => seq!['m', 'd', '5'],
            Algo::Sha256 => seq!['s', 'h', 'a', '2', '5', '6'],
            Algo::Blake3 => seq!['b', 'l', 'a', 'k', 'e', '3'],
        }
    }

    /// Returns the lower-case name of the algorithm.
    pub fn name(&self) -> (s: &'static str)
        ensures
            s@ == self.spec_name(),
    {
        match self {
            Algo::Md5 => {
                proof {
                    reveal_strlit("md5");
                }
                "md5"
            },
            Algo::Sha256 => {
                proof {
                    reveal_strlit("sha256");
                }
                "sha256"
            },
            Algo::Blake3 => {
                proof {
                    reveal_strlit("blake3");
                }
                "blake3"
            },
        }
    }
}

/// Why an algorithm name was refused.
#[derive(Debug, Clone, Copy, PartialEq, Eq, Structural)]
pub enum AlgoError {
    /// The name is none of `md5`, `sha256`, `blake3` in any letter case.
    InvalidAlgorithm,
}

impl AlgoError {
    /// The message shown to the user.
    pub fn to_string(&self) -> (s: String)
        ensures
            s@ == "Invalid Algorythm. Use: md5, sha256 or blake3"@,
    {
        String::from_str("Invalid Algorythm. Use: md5, sha256 or blake3")
    }
}

// ---------------------------------------------------------------------------
// Letter case.
// ---------------------------------------------------------------------------

/// `str::to_lowercase` on the characters of a string: the lower-case form
/// that Unicode's `Lowercase` mapping gives.
pub uninterp spec fn unicode_lowercase(s: Seq<char>) -> Seq<char>;

/// An ASCII upper-case letter turned to lower case; any other character is kept.
pub open spec fn ascii_lower_char(c: char) -> char {
    if 'A' <= c && c <= 'Z' {
        ((c as int) + 32) as char
    } else {
        c
    }
}

/// An ASCII lower-case letter turned to upper case; any other character is kept.
pub open spec fn ascii_upper_char(c: char) -> char {
    if 'a' <= c && c <= 'z' {
        ((c as int) - 32) as char
    } else {
        c
    }
}

/// Every ASCII letter of `s` in lower case.
pub open spec fn ascii_lowercase(s: Seq<char>) -> Seq<char> {
    s.map_values(|c: char| ascii_lower_char(c))
}

/// Every ASCII letter of `s` in upper case.
pub open spec fn ascii_uppercase(s: Seq<char>) -> Seq<char> {
    s.map_values(|c: char| ascii_upper_char(c))
}

/// `str::to_lowercase`. Its result is named by `unicode_lowercase`; for text
/// made only of ASCII characters, Unicode's lower-case mapping turns `A`-`Z`
/// into `a`-`z` and keeps every other character, and the clause says so.
/// Nothing is stated of what it does to other characters.
#[verifier::external_body]
fn to_lowercase(s: &str) -> (lower: String)
    ensures
        lower@ == unicode_lowercase(s@),
        vstd::utf8::is_ascii_chars(s@) ==> lower@ == ascii_lowercase(s@),
{
    s.to_lowercase()
}

// ---------------------------------------------------------------------------
// Parsing the algorithm name.
// ---------------------------------------------------------------------------

/// The algorithm whose lower-case name is exactly `lower`.
pub open spec fn spec_algo_from_lowercase(lower: Seq<char>) -> Result<Algo, AlgoError> {
    if lower == Algo::Md5.spec_name() {
        Ok(Algo::Md5)
    } else if lower == Algo::Sha256.spec_name() {
        Ok(Algo::Sha256)
    } else if lower == Algo::Blake3.spec_name() {
        Ok(Algo::Blake3)
    } else {
        Err(AlgoError::InvalidAlgorithm)
    }
}

/// What `parse_algo` gives for a name: the algorithm whose name is the
/// name's lower-case form.
pub open spec fn spec_parse_algo(algo: Seq<char>) -> Result<Algo, AlgoError> {
    spec_algo_from_lowercase(unicode_lowercase(algo))
}

/// Picks the algorithm from a name that is already in lower case.
pub fn algo_from_lowercase(lower: &str) -> (r: Result<Algo, AlgoError>)
    ensures
        r == spec_algo_from_lowercase(lower@),
        r matches Ok(a) ==> lower@ == a.spec_name(),
        lower@ == seq!['m', 'd', '5'] ==> r == Ok::<Algo, AlgoError>(Algo::Md5),
        lower@ == seq!['s', 'h', 'a', '2', '5', '6'] ==> r == Ok::<Algo, AlgoError>(Algo::Sha256),
        lower@ == seq!['b', 'l', 'a', 'k', 'e', '3'] ==> r == Ok::<Algo, AlgoError>(Algo::Blake3),
        (lower@ != seq!['m', 'd', '5'] && lower@ != seq!['s', 'h', 'a', '2', '5', '6']
            && lower@ != seq!['b', 'l', 'a', 'k', 'e', '3']) ==> r == Err::<Algo, AlgoError>(AlgoError::InvalidAlgorithm),
{
    proof {
        lemma_accepts_exactly_the_names(lower@);
    }
    if text_eq(lower, Algo::Md5.name()) {
        Ok(Algo::Md5)
    } else if text_eq(lower, Algo::Sha256.name()) {
        Ok(Algo::Sha256)
    } else if text_eq(lower, Algo::Blake3.name()) {
        Ok(Algo::Blake3)
    } else {
        Err(AlgoError::InvalidAlgorithm)
    }
}

/// Parses an algorithm name in any letter case: `md5`, `sha256` or `blake3`.
/// Any other name is refused with `AlgoError::InvalidAlgorithm`.
pub fn parse_algo(algo: &str) -> (r: Result<Algo, AlgoError>)
    ensures
        r == spec_parse_algo(algo@),
        vstd::utf8::is_ascii_chars(algo@) ==> r == spec_algo_from_lowercase(ascii_lowercase(algo@)),
        r matches Ok(a) ==> unicode_lowercase(algo@) == a.spec_name(),
        (r is Err) <==> (forall|a: Algo| unicode_lowercase(algo@) != #[trigger] a.spec_name()),
{
    let lower = to_lowercase(algo);
    proof {
        lemma_accepts_exactly_the_names(unicode_lowercase(algo@));
    }
    algo_from_lowercase(lower.as_str())
}

// ---------------------------------------------------------------------------
// Laws.
// ---------------------------------------------------------------------------

/// Each algorithm's own name parses back to it: the name is ASCII, already
/// in lower case, and picks that algorithm.
pub proof fn lemma_name_parses_back(a: Algo)
    ensures
        vstd::utf8::is_ascii_chars(a.spec_name()),
        ascii_lowercase(a.spec_name()) == a.spec_name(),
        spec_algo_from_lowercase(ascii_lowercase(a.spec_name())) == Ok::<Algo, AlgoError>(a),
{
    assert(ascii_lowercase(a.spec_name()) =~= a.spec_name());
}

/// Parsing ignores letter case: an ASCII name and the same name with its
/// letters in upper case parse to the same result.
pub proof fn lemma_parse_ignores_case(s: Seq<char>)
    requires
        vstd::utf8::is_ascii_chars(s),
    ensures
        vstd::utf8::is_ascii_chars(ascii_uppercase(s)),
        spec_algo_from_lowercase(ascii_lowercase(ascii_uppercase(s)))
            == spec_algo_from_lowercase(ascii_lowercase(s)),
{
    assert(ascii_lowercase(ascii_uppercase(s)) =~= ascii_lowercase(s));
}

/// The three names, character by character.
pub proof fn lemma_algo_names()
    ensures
        Algo::Md5.spec_name() == seq!['m', 'd', '5'],
        Algo::Sha256.spec_name() == seq!['s', 'h', 'a', '2', '5', '6'],
        Algo::Blake3.spec_name() == seq!['b', 'l', 'a', 'k', 'e', '3'],
        Algo::Md5.spec_name() != Algo::Sha256.spec_name(),
        Algo::Md5.spec_name() != Algo::Blake3.spec_name(),
        Algo::Sha256.spec_name() != Algo::Blake3.spec_name(),
{
    assert(Algo::Md5.spec_name().len() != Algo::Sha256.spec_name().len());
    assert(Algo::Md5.spec_name().len() != Algo::Blake3.spec_name().len());
    assert(Algo::Sha256.spec_name()[0] != Algo::Blake3.spec_name()[0]);
}

/// A lower-case name is accepted exactly when it is one algorithm's name,
/// and then it picks that algorithm; every other string is refused with
/// `InvalidAlgorithm`.
pub proof fn lemma_accepts_exactly_the_names(lower: Seq<char>)
    ensures
        forall|a: Algo| spec_algo_from_lowercase(lower) == Ok::<Algo, AlgoError>(a) <==> lower == #[trigger] a.spec_name(),
        (forall|a: Algo| lower != #[trigger] a.spec_name())
            <==> spec_algo_from_lowercase(lower) == Err::<Algo, AlgoError>(AlgoError::InvalidAlgorithm),
        (lower != seq!['m', 'd', '5'] && lower != seq!['s', 'h', 'a', '2', '5', '6']
            && lower != seq!['b', 'l', 'a', 'k', 'e', '3'])
            ==> spec_algo_from_lowercase(lower) == Err::<Algo, AlgoError>(AlgoError::InvalidAlgorithm),
{
    lemma_algo_names();
    assert forall|a: Algo| spec_algo_from_lowercase(lower) == Ok::<Algo, AlgoError>(a) <==> lower == #[trigger] a.spec_name() by {
        match a {
            Algo::Md5 => {},
            Algo::Sha256 => {},
            Algo::Blake3 => {},
        }
    }
    if forall|a: Algo| lower != #[trigger] a.spec_name() {
        assert(lower != Algo::Md5.spec_name());
        assert(lower != Algo::Sha256.spec_name());
        assert(lower != Algo::Blake3.spec_name());
    }
    if spec_algo_from_lowercase(lower) == Err::<Algo, AlgoError>(AlgoError::InvalidAlgorithm) {
        assert forall|a: Algo| lower != #[trigger] a.spec_name() by {
            match a {
                Algo::Md5 => {},
                Algo::Sha256 => {},
                Algo::Blake3 => {},
            }
        }
    }
}

/// ASCII case mapping: lower-casing turns `A`-`Z` into the letter 32 code
/// points later (`a`-`z`) and keeps every other character; upper-casing is
/// the reverse on `a`-`z`; a lower-cased character is never an upper-case
/// letter.
pub proof fn lemma_ascii_case(c: char)
    ensures
        'A' <= c && c <= 'Z' ==> ascii_lower_char(c) as int == c as int + 32 && 'a' <= ascii_lower_char(c)
            && ascii_lower_char(c) <= 'z',
        !('A' <= c && c <= 'Z') ==> ascii_lower_char(c) == c,
        'a' <= c && c <= 'z' ==> ascii_upper_char(c) as int == c as int - 32 && 'A' <= ascii_upper_char(c)
            && ascii_upper_char(c) <= 'Z',
        !('a' <= c && c <= 'z') ==> ascii_upper_char(c) == c,
        !('A' <= ascii_lower_char(c) && ascii_lower_char(c) <= 'Z'),
        ascii_lower_char(ascii_upper_char(c)) == ascii_lower_char(c),
{
}

} // verus!
