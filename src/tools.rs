use vstd::prelude::*;

verus! {

/// The `--version` banner of clang-format, with its three numeric groups.
pub const CLANG_FORMAT_VERSION_PATTERN: &'static str =
    "clang-format version (?<major>\\d+)\\.(?<minor>\\d+)\\.(?<patch>\\d+)";

/// Why a path cannot be probed as a crate.
#[derive(Clone, Copy, PartialEq, Eq, Structural, Debug)]
pub enum CrateProbeError {
    NotADirectory,
}

/// Whether a crate directory is a binary crate, given what the file system
/// reports: the path must be a directory, and it is a binary crate exactly
/// when `src/main.rs` inside it is a file.
pub fn is_binary_crate(is_dir: bool, main_rs_is_file: bool) -> (r: Result<bool, CrateProbeError>)
    ensures
        r == if is_dir {
            Ok::<bool, CrateProbeError>(main_rs_is_file)
        } else {
            Err(CrateProbeError::NotADirectory)
        },
{
    if !is_dir {
        return Err(CrateProbeError::NotADirectory);
    }
    Ok(main_rs_is_file)
}

/// `line` stands as a whole line of `text` starting at `i`: it begins the text
/// or follows a newline, and ends the text or is followed by `\n` or `\r\n`.
pub open spec fn line_at(text: Seq<char>, i: int, line: Seq<char>) -> bool {
    let e = i + line.len();
    &&& 0 <= i
    &&& e <= text.len()
    &&& (i == 0 || text[i - 1] == '\n')
    &&& text.subrange(i, e) == line
    &&& (e == text.len() || text[e] == '\n' || (text[e] == '\r' && e + 1 < text.len() && text[e
        + 1] == '\n'))
}

pub open spec fn has_line(text: Seq<char>, line: Seq<char>) -> bool {
    exists|i: int| 0 <= i <= text.len() && #[trigger] line_at(text, i, line)
}

/// Relies on str::chars: the characters of `s`, in order.
#[verifier::external_body]
fn chars_of(s: &str) -> (r: Vec<char>)
    ensures
        r@ == s@,
{
    s.chars().collect()
}

/// Whether `line` stands as a whole line of `text` at position `i`.
fn line_matches_at(text: &Vec<char>, i: usize, line: &Vec<char>) -> (r: bool)
    requires
        i <= text@.len(),
    ensures
        r == line_at(text@, i as int, line@),
{
    let n = text.len();
    if line.len() > n - i {
        return false;
    }
    if i > 0 && text[i - 1] != '\n' {
        return false;
    }
    let mut k: usize = 0;
    while k < line.len()
        invariant
            i + line@.len() <= n,
            n == text@.len(),
            k <= line@.len(),
            forall|m: int| 0 <= m < k ==> text@[i + m] == line@[m],
        decreases line@.len() - k,
    {
        if text[i + k] != line[k] {
            assert(text@.subrange(i as int, i + line@.len())[k as int] != line@[k as int]);
            return false;
        }
        k = k + 1;
    }
    assert(text@.subrange(i as int, i + line@.len()) =~= line@);
    let e = i + line.len();
    e == n || text[e] == '\n' || (text[e] == '\r' && e + 1 < n && text[e + 1] == '\n')
}

/// Whether `line` is one of the lines of `text`.
pub fn contains_line(text: &Vec<char>, line: &Vec<char>) -> (r: bool)
    ensures
        r == has_line(text@, line@),
{
    let n = text.len();
    let mut i: usize = 0;
    while i < n
        invariant
            i <= n,
            n == text@.len(),
            forall|m: int| 0 <= m < i ==> !#[trigger] line_at(text@, m, line@),
        decreases n - i,
    {
        if line_matches_at(text, i, line) {
            return true;
        }
        i = i + 1;
    }
    line_matches_at(text, n, line)
}

/// Whether a manifest's contents declare a workspace: one of its lines is
/// exactly `[workspace]`.
pub fn is_workspace_toml(contents: &str) -> (r: bool)
    ensures
        r == has_line(contents@, seq!['[', 'w', 'o', 'r', 'k', 's', 'p', 'a', 'c', 'e', ']']),
{
    let text = chars_of(contents);
    let line = vec!['[', 'w', 'o', 'r', 'k', 's', 'p', 'a', 'c', 'e', ']'];
    assert(line@ =~= seq!['[', 'w', 'o', 'r', 'k', 's', 'p', 'a', 'c', 'e', ']']);
    contains_line(&text, &line)
}

pub open spec fn is_digit(c: char) -> bool {
    '0' <= c <= '9'
}

pub open spec fn all_digits(s: Seq<char>) -> bool {
    forall|i: int| 0 <= i < s.len() ==> is_digit(#[trigger] s[i])
}

/// The number a string of decimal digits denotes.
pub open spec fn decimal_value(s: Seq<char>) -> int
    decreases s.len(),
{
    if s.len() == 0 {
        0
    } else {
        10 * decimal_value(s.drop_last()) + (s.last() as int - '0' as int)
    }
}

/// The `u32` a string of decimal digits denotes, if it is one and fits.
pub open spec fn u32_of(s: Seq<char>) -> Option<u32> {
    if s.len() > 0 && all_digits(s) && decimal_value(s) <= u32::MAX {
        Some(decimal_value(s) as u32)
    } else {
        None
    }
}

/// The version whose three fields are `major`, `minor` and `patch`, if each is
/// a decimal number that fits in `u32`.
pub open spec fn version_of(major: Seq<char>, minor: Seq<char>, patch: Seq<char>) -> Option<
    (u32, u32, u32),
> {
    match (u32_of(major), u32_of(minor), u32_of(patch)) {
        (Some(a), Some(b), Some(c)) => Some((a, b, c)),
        _ => None,
    }
}

proof fn lemma_prefix_value_grows(s: Seq<char>, i: int, j: int)
    requires
        all_digits(s),
        0 <= i <= j <= s.len(),
    ensures
        decimal_value(s.subrange(0, i)) <= decimal_value(s.subrange(0, j)),
        decimal_value(s.subrange(0, j)) >= 0,
    decreases j,
{
    if j > 0 {
        assert(s.subrange(0, j).drop_last() =~= s.subrange(0, j - 1));
        assert(is_digit(s[j - 1]));
        if i < j {
            lemma_prefix_value_grows(s, i, j - 1);
        } else {
            lemma_prefix_value_grows(s, j - 1, j - 1);
        }
    } else {
        assert(s.subrange(0, 0).len() == 0);
    }
}

/// Parses a decimal number that fits in `u32`.
pub fn parse_u32(s: &Vec<char>) -> (r: Option<u32>)
    ensures
        r == u32_of(s@),
{
    if s.len() == 0 {
        return None;
    }
    let mut acc: u64 = 0;
    let mut i: usize = 0;
    while i < s.len()
        invariant
            i <= s@.len(),
            forall|m: int| 0 <= m < i ==> is_digit(#[trigger] s@[m]),
            acc == decimal_value(s@.subrange(0, i as int)),
            acc <= u32::MAX,
        decreases s@.len() - i,
    {
        let c = s[i];
        if !('0' <= c && c <= '9') {
            assert(!all_digits(s@));
            return None;
        }
        let d = (c as u32 - '0' as u32) as u64;
        assert(s@.subrange(0, i + 1).drop_last() =~= s@.subrange(0, i as int));
        let next = acc * 10 + d;
        if next > 4294967295 {
            proof {
                if all_digits(s@) {
                    lemma_prefix_value_grows(s@, i + 1, s@.len() as int);
                    assert(s@.subrange(0, s@.len() as int) =~= s@);
                }
            }
            return None;
        }
        acc = next;
        i = i + 1;
    }
    assert(s@.subrange(0, s@.len() as int) =~= s@);
    Some(acc as u32)
}

/// Reads a version from its three captured fields.
pub fn parse_version_fields(major: &Vec<char>, minor: &Vec<char>, patch: &Vec<char>) -> (r: Option<
    (u32, u32, u32),
>)
    ensures
        r == version_of(major@, minor@, patch@),
{
    match (parse_u32(major), parse_u32(minor), parse_u32(patch)) {
        (Some(a), Some(b), Some(c)) => Some((a, b, c)),
        _ => None,
    }
}

/// The three groups of the first match of the clang-format version banner in
/// a text, or `None` when the text holds no such banner.
pub uninterp spec fn clang_format_version_fields(s: Seq<char>) -> Option<
    (Seq<char>, Seq<char>, Seq<char>),
>;

/// Relies on regex::Regex::new and Regex::captures: the named groups of the
/// first match of the version banner; each group matched one or more digits.
#[verifier::external_body]
fn version_fields(s: &str) -> (r: Option<(Vec<char>, Vec<char>, Vec<char>)>)
    ensures
        match r {
            None => clang_format_version_fields(s@) is None,
            Some((a, b, c)) => clang_format_version_fields(s@) == Some((a@, b@, c@)) && a@.len()
                > 0 && b@.len() > 0 && c@.len() > 0,
        },
{
    let re = regex::Regex::new(CLANG_FORMAT_VERSION_PATTERN).unwrap();
    let caps = re.captures(s)?;
    Some((
        caps["major"].chars().collect(),
        caps["minor"].chars().collect(),
        caps["patch"].chars().collect(),
    ))
}

/// Extracts `(major, minor, patch)` from the output of `clang-format --version`.
/// `None` when the banner is absent or a field does not fit in `u32`.
pub fn parse_llvm_fmt_version(fmt_str: &str) -> (r: Option<(u32, u32, u32)>)
    ensures
        r == match clang_format_version_fields(fmt_str@) {
            None => None,
            Some((a, b, c)) => version_of(a, b, c),
        },
{
    match version_fields(fmt_str) {
        None => None,
        Some((a, b, c)) => parse_version_fields(&a, &b, &c),
    }
}

} // verus!
