//! Character and string helpers shared by the command router, the path
//! resolver and the upload subsystem: ASCII character classes, case folding,
//! whitespace tokenizing, decimal spelling of numbers, and the fixed names of
//! the upload marker files.

use vstd::prelude::*;

verus! {

/// A character allowed in an uploaded file's name.
pub open spec fn spec_is_fname_char(c: char) -> bool {
    ('A' <= c && c <= 'Z') || ('a' <= c && c <= 'z') || ('0' <= c && c <= '9') || c == '_' || c
        == '.' || c == '@' || c == '-'
}

/// A character allowed in a configured volume name.
pub open spec fn spec_is_dev_char(c: char) -> bool {
    ('A' <= c && c <= 'Z') || ('a' <= c && c <= 'z') || ('0' <= c && c <= '9') || c == '_' || c
        == '-'
}

/// A file name is valid when it is non-empty and every character is drawn
/// from the allowed set.
pub open spec fn spec_filename_ok(s: Seq<char>) -> bool {
    s.len() > 0 && forall|i: int| 0 <= i < s.len() ==> spec_is_fname_char(#[trigger] s[i])
}

/// A volume name is valid when it is non-empty and every character is drawn
/// from its allowed set.
pub open spec fn spec_dev_name_ok(s: Seq<char>) -> bool {
    s.len() > 0 && forall|i: int| 0 <= i < s.len() ==> spec_is_dev_char(#[trigger] s[i])
}

/// Whether `c` may appear in an uploaded file's name.
pub fn is_fname_char(c: char) -> (r: bool)
    ensures
        r == spec_is_fname_char(c),
{
    ('A' <= c && c <= 'Z') || ('a' <= c && c <= 'z') || ('0' <= c && c <= '9') || c == '_' || c
        == '.' || c == '@' || c == '-'
}

/// Whether `c` may appear in a configured volume name.
pub fn is_dev_char(c: char) -> (r: bool)
    ensures
        r == spec_is_dev_char(c),
{
    ('A' <= c && c <= 'Z') || ('a' <= c && c <= 'z') || ('0' <= c && c <= '9') || c == '_' || c
        == '-'
}

/// Checks a file name against the allowed character set.
pub fn filename_ok(s: &str) -> (r: bool)
    ensures
        r == spec_filename_ok(s@),
{
    let n = s.unicode_len();
    if n == 0 {
        return false;
    }
    let mut i: usize = 0;
    while i < n
        invariant
            n == s@.len(),
            i <= n,
            forall|j: int| 0 <= j < i ==> spec_is_fname_char(#[trigger] s@[j]),
        decreases n - i,
    {
        if !is_fname_char(s.get_char(i)) {
            return false;
        }
        i = i + 1;
    }
    true
}

/// Checks a volume name against its allowed character set.
pub fn dev_name_ok(s: &str) -> (r: bool)
    ensures
        r == spec_dev_name_ok(s@),
{
    let n = s.unicode_len();
    if n == 0 {
        return false;
    }
    let mut i: usize = 0;
    while i < n
        invariant
            n == s@.len(),
            i <= n,
            forall|j: int| 0 <= j < i ==> spec_is_dev_char(#[trigger] s@[j]),
        decreases n - i,
    {
        if !is_dev_char(s.get_char(i)) {
            return false;
        }
        i = i + 1;
    }
    true
}

/// ASCII lowercase of one character; everything else is untouched.
pub open spec fn spec_lower_char(c: char) -> char {
    if 'A' <= c && c <= 'Z' {
        ((c as u8) + 32) as char
    } else {
        c
    }
}

/// ASCII lowercase of a character sequence.
pub open spec fn spec_lower(s: Seq<char>) -> Seq<char> {
    s.map_values(|c: char| spec_lower_char(c))
}

/// Lowercases one character, ASCII only.
pub fn lower_char(c: char) -> (r: char)
    ensures
        r == spec_lower_char(c),
{
    if 'A' <= c && c <= 'Z' {
        ((c as u8) + 32) as char
    } else {
        c
    }
}

/// Compares two strings, folding ASCII case on both sides.
pub fn eq_ignore_ascii_case(a: &str, b: &str) -> (r: bool)
    ensures
        r == (spec_lower(a@) == spec_lower(b@)),
{
    let na = a.unicode_len();
    let nb = b.unicode_len();
    if na != nb {
        proof {
            assert(spec_lower(a@).len() != spec_lower(b@).len());
        }
        return false;
    }
    let mut i: usize = 0;
    while i < na
        invariant
            na == a@.len(),
            na == b@.len(),
            i <= na,
            forall|j: int| 0 <= j < i ==> spec_lower_char(#[trigger] a@[j]) == spec_lower_char(b@[j]),
        decreases na - i,
    {
        if lower_char(a.get_char(i)) != lower_char(b.get_char(i)) {
            proof {
                assert(spec_lower(a@)[i as int] != spec_lower(b@)[i as int]);
            }
            return false;
        }
        i = i + 1;
    }
    proof {
        assert(spec_lower(a@) =~= spec_lower(b@));
    }
    true
}

/// ASCII whitespace, the separators the command line is split on.
pub open spec fn spec_is_space(c: char) -> bool {
    c == ' ' || c == '\t' || c == '\r' || c == '\n'
}

/// Whether `c` separates command-line tokens.
pub fn is_space(c: char) -> (r: bool)
    ensures
        r == spec_is_space(c),
{
    c == ' ' || c == '\t' || c == '\r' || c == '\n'
}

/// Length of the leading run of non-space characters.
pub open spec fn first_token_len(s: Seq<char>) -> nat
    decreases s.len(),
{
    if s.len() == 0 || spec_is_space(s[0]) {
        0
    } else {
        1 + first_token_len(s.drop_first())
    }
}

pub proof fn lemma_first_token_len_le(s: Seq<char>)
    ensures
        first_token_len(s) <= s.len(),
    decreases s.len(),
{
    if s.len() > 0 && !spec_is_space(s[0]) {
        lemma_first_token_len_le(s.drop_first());
    }
}

/// The whitespace-separated tokens of a character sequence, in order.
pub open spec fn spec_tokens(s: Seq<char>) -> Seq<Seq<char>>
    decreases s.len(),
    via spec_tokens_decreases
{
    if s.len() == 0 {
        seq![]
    } else if spec_is_space(s[0]) {
        spec_tokens(s.drop_first())
    } else {
        seq![s.take(first_token_len(s) as int)] + spec_tokens(s.skip(first_token_len(s) as int))
    }
}

#[via_fn]
proof fn spec_tokens_decreases(s: Seq<char>) {
    lemma_first_token_len_le(s);
}

/// The views of a vector of strings.
pub open spec fn views_of(ts: Seq<String>) -> Seq<Seq<char>> {
    ts.map_values(|t: String| t@)
}

proof fn lemma_first_token_len_eq(t: Seq<char>, m: int)
    requires
        0 <= m <= t.len(),
        forall|k: int| 0 <= k < m ==> !spec_is_space(#[trigger] t[k]),
        m == t.len() || spec_is_space(t[m]),
    ensures
        first_token_len(t) == m,
    decreases m,
{
    if m == 0 {
    } else {
        assert(!spec_is_space(t[0]));
        lemma_first_token_len_eq(t.drop_first(), m - 1);
    }
}

/// Splits a command line into its whitespace-separated tokens.
pub fn split_tokens(s: &str) -> (tokens: Vec<String>)
    ensures
        views_of(tokens@) == spec_tokens(s@),
{
    let n = s.unicode_len();
    let mut tokens: Vec<String> = Vec::new();
    let mut i: usize = 0;
    proof {
        assert(s@.skip(0) =~= s@);
        assert(views_of(tokens@) =~= Seq::<Seq<char>>::empty());
    }
    while i < n
        invariant
            n == s@.len(),
            i <= n,
            views_of(tokens@) + spec_tokens(s@.skip(i as int)) =~= spec_tokens(s@),
        decreases n - i,
    {
        if is_space(s.get_char(i)) {
            proof {
                assert(s@.skip(i as int).drop_first() =~= s@.skip(i + 1));
            }
            i = i + 1;
        } else {
            let start = i;
            let mut j: usize = i + 1;
            while j < n && !is_space(s.get_char(j))
                invariant
                    n == s@.len(),
                    start < j <= n,
                    forall|k: int| start <= k < j ==> !spec_is_space(#[trigger] s@[k]),
                decreases n - j,
            {
                j = j + 1;
            }
            proof {
                assert(j == n || spec_is_space(s@[j as int]));
            }
            let tok_slice = s.substring_char(start, j);
            let tok = tok_slice.to_owned();
            let ghost prev = tokens@;
            tokens.push(tok);
            proof {
                let t = s@.skip(start as int);
                let m = j - start;
                assert forall|k: int| 0 <= k < m implies !spec_is_space(#[trigger] t[k]) by {
                    assert(t[k] == s@[start + k]);
                }
                if m < t.len() {
                    assert(t[m as int] == s@[j as int]);
                }
                lemma_first_token_len_eq(t, m as int);
                assert(t.take(m as int) =~= s@.subrange(start as int, j as int));
                assert(t.skip(m as int) =~= s@.skip(j as int));
                assert(spec_tokens(s@.skip(start as int)) == seq![tok@] + spec_tokens(
                    s@.skip(j as int),
                ));
                assert(views_of(tokens@) =~= views_of(prev).push(tok@));
                assert(views_of(tokens@) + spec_tokens(s@.skip(j as int)) =~= views_of(prev) + (
                seq![tok@] + spec_tokens(s@.skip(j as int))));
            }
            i = j;
        }
    }
    proof {
        assert(s@.skip(n as int) =~= Seq::<char>::empty());
        assert(views_of(tokens@) + spec_tokens(s@.skip(n as int)) =~= views_of(tokens@));
    }
    tokens
}

/// Length of the leading run of whitespace.
pub open spec fn leading_ws(s: Seq<char>) -> nat
    decreases s.len(),
{
    if s.len() == 0 || !spec_is_space(s[0]) {
        0
    } else {
        1 + leading_ws(s.drop_first())
    }
}

/// Length of the trailing run of whitespace.
pub open spec fn trailing_ws(s: Seq<char>) -> nat
    decreases s.len(),
{
    if s.len() == 0 || !spec_is_space(s.last()) {
        0
    } else {
        1 + trailing_ws(s.drop_last())
    }
}

/// A character sequence with its leading and trailing whitespace removed.
pub open spec fn spec_trim(s: Seq<char>) -> Seq<char> {
    if leading_ws(s) == s.len() {
        Seq::empty()
    } else {
        s.subrange(leading_ws(s) as int, s.len() - trailing_ws(s))
    }
}

proof fn lemma_leading_ws_eq(s: Seq<char>, a: int)
    requires
        0 <= a <= s.len(),
        forall|k: int| 0 <= k < a ==> spec_is_space(#[trigger] s[k]),
        a == s.len() || !spec_is_space(s[a]),
    ensures
        leading_ws(s) == a,
    decreases a,
{
    if a == 0 {
    } else {
        assert(spec_is_space(s[0]));
        lemma_leading_ws_eq(s.drop_first(), a - 1);
    }
}

proof fn lemma_trailing_ws_eq(s: Seq<char>, b: int)
    requires
        0 <= b <= s.len(),
        forall|k: int| b <= k < s.len() ==> spec_is_space(#[trigger] s[k]),
        b == 0 || !spec_is_space(s[b - 1]),
    ensures
        trailing_ws(s) == s.len() - b,
    decreases s.len() - b,
{
    if b == s.len() {
    } else {
        assert(spec_is_space(s.last()));
        if b > 0 {
            assert(s.drop_last()[b - 1] == s[b - 1]);
        }
        lemma_trailing_ws_eq(s.drop_last(), b);
    }
}

/// Strips leading and trailing whitespace.
pub fn trim(s: &str) -> (r: &str)
    ensures
        r@ == spec_trim(s@),
{
    let n = s.unicode_len();
    let mut a: usize = 0;
    while a < n && is_space(s.get_char(a))
        invariant
            n == s@.len(),
            a <= n,
            forall|k: int| 0 <= k < a ==> spec_is_space(#[trigger] s@[k]),
        decreases n - a,
    {
        a = a + 1;
    }
    proof {
        lemma_leading_ws_eq(s@, a as int);
    }
    if a == n {
        let r = s.substring_char(0, 0);
        proof {
            assert(r@ =~= spec_trim(s@));
        }
        return r;
    }
    let mut b: usize = n;
    while b > a && is_space(s.get_char(b - 1))
        invariant
            n == s@.len(),
            a <= b <= n,
            a < n,
            !spec_is_space(s@[a as int]),
            forall|k: int| b <= k < n ==> spec_is_space(#[trigger] s@[k]),
        decreases b,
    {
        b = b - 1;
    }
    proof {
        if b == a {
            assert(spec_is_space(s@[a as int]));
        }
        assert(b > a);
        lemma_trailing_ws_eq(s@, b as int);
    }
    let r = s.substring_char(a, b);
    proof {
        assert(r@ =~= spec_trim(s@));
    }
    r
}

/// The decimal character of one digit.
pub open spec fn spec_digit_char(d: u8) -> char {
    if d == 0 {
        '0'
    } else if d == 1 {
        '1'
    } else if d == 2 {
        '2'
    } else if d == 3 {
        '3'
    } else if d == 4 {
        '4'
    } else if d == 5 {
        '5'
    } else if d == 6 {
        '6'
    } else if d == 7 {
        '7'
    } else if d == 8 {
        '8'
    } else {
        '9'
    }
}

/// The decimal spelling of a number, most significant digit first, no
/// leading zeros (a lone zero for 0).
pub open spec fn spec_u64_dec(n: u64) -> Seq<char>
    decreases n,
{
    if n < 10 {
        seq![spec_digit_char(n as u8)]
    } else {
        spec_u64_dec((n / 10) as u64) + seq![spec_digit_char((n % 10) as u8)]
    }
}

/// One decimal digit as a string slice.
pub fn digit_str(d: u8) -> (r: &'static str)
    requires
        d < 10,
    ensures
        r@ == seq![spec_digit_char(d)],
{
    proof {
        reveal_strlit("0");
        reveal_strlit("1");
        reveal_strlit("2");
        reveal_strlit("3");
        reveal_strlit("4");
        reveal_strlit("5");
        reveal_strlit("6");
        reveal_strlit("7");
        reveal_strlit("8");
        reveal_strlit("9");
    }
    if d == 0 {
        "0"
    } else if d == 1 {
        "1"
    } else if d == 2 {
        "2"
    } else if d == 3 {
        "3"
    } else if d == 4 {
        "4"
    } else if d == 5 {
        "5"
    } else if d == 6 {
        "6"
    } else if d == 7 {
        "7"
    } else if d == 8 {
        "8"
    } else {
        "9"
    }
}

/// Spells a number in decimal.
pub fn u64_dec_string(n: u64) -> (r: String)
    ensures
        r@ == spec_u64_dec(n),
    decreases n,
{
    if n < 10 {
        digit_str(n as u8).to_owned()
    } else {
        let mut s = u64_dec_string(n / 10);
        s.append(digit_str((n % 10) as u8));
        s
    }
}

/// The name of the in-progress marker beside an upload: `<file>.lock`.
pub fn lock_name(file: &str) -> (r: String)
    ensures
        r@ == file@ + ".lock"@,
{
    let mut s = file.to_owned();
    s.append(".lock");
    s
}

/// The name of the stored-hash marker beside an upload: `<file>.hash`.
pub fn hash_name(file: &str) -> (r: String)
    ensures
        r@ == file@ + ".hash"@,
{
    let mut s = file.to_owned();
    s.append(".hash");
    s
}

/// The name of the chunk directory beside an upload: `<file>.tmp`.
pub fn tmp_dir_name(file: &str) -> (r: String)
    ensures
        r@ == file@ + ".tmp"@,
{
    let mut s = file.to_owned();
    s.append(".tmp");
    s
}

/// The file name of one stored chunk: `chunk_<decimal index>`.
pub fn chunk_file_name(chunk_id: u64) -> (r: String)
    ensures
        r@ == "chunk_"@ + spec_u64_dec(chunk_id),
{
    let mut s = String::from_str("chunk_");
    let digits = u64_dec_string(chunk_id);
    s.append(digits.as_str());
    s
}

} // verus!
