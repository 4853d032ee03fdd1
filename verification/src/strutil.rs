use vstd::prelude::*;
use vstd::string::StrSliceExecFns;

verus! {

/// True for the characters that Unicode classes as white space; the trimming
/// of marker fragments removes exactly these.
pub open spec fn is_space(c: char) -> bool {
    let u = c as u32;
    u == 9 || u == 10 || u == 11 || u == 12 || u == 13 || u == 32 || u == 0x85 || u == 0xA0 || u
        == 0x1680 || (0x2000 <= u && u <= 0x200A) || u == 0x2028 || u == 0x2029 || u == 0x202F || u
        == 0x205F || u == 0x3000
}

/// Runtime test for `is_space`.
pub fn char_is_space(c: char) -> (b: bool)
    ensures
        b == is_space(c),
{
    let u = c as u32;
    u == 9 || u == 10 || u == 11 || u == 12 || u == 13 || u == 32 || u == 0x85 || u == 0xA0 || u
        == 0x1680 || (0x2000 <= u && u <= 0x200A) || u == 0x2028 || u == 0x2029 || u == 0x202F || u
        == 0x205F || u == 0x3000
}

/// True for an ASCII decimal digit.
pub open spec fn is_digit(c: char) -> bool {
    48 <= c as u32 <= 57
}

/// Runtime test for `is_digit`.
pub fn char_is_digit(c: char) -> (b: bool)
    ensures
        b == is_digit(c),
{
    let u = c as u32;
    48 <= u && u <= 57
}

/// The numeric value of an ASCII decimal digit.
pub open spec fn digit_val(c: char) -> int
    recommends
        is_digit(c),
{
    c as u32 - 48
}

/// True when every character of `s` in `[from, to)` is a decimal digit.
pub open spec fn all_digits(s: Seq<char>, from: int, to: int) -> bool {
    forall|j: int| from <= j < to ==> is_digit(#[trigger] s[j])
}

/// The numeric value of the decimal digit run `s[from..to]`.
pub open spec fn digits_val(s: Seq<char>, from: int, to: int) -> int
    decreases to - from,
{
    if to <= from {
        0
    } else {
        digits_val(s, from, to - 1) * 10 + digit_val(s[to - 1])
    }
}

/// The end of the decimal digit run of `s` that starts at `i`.
pub open spec fn digits_end(s: Seq<char>, i: int) -> int
    decreases s.len() - i,
{
    if 0 <= i < s.len() && is_digit(s[i]) {
        digits_end(s, i + 1)
    } else {
        i
    }
}

/// A longer digit run can only denote a larger or equal value.
pub proof fn lemma_digits_val_monotonic(s: Seq<char>, from: int, mid: int, to: int)
    requires
        from <= mid <= to <= s.len(),
        all_digits(s, from, to),
    ensures
        digits_val(s, from, mid) <= digits_val(s, from, to),
    decreases to - mid,
{
    if mid < to {
        lemma_digits_val_monotonic(s, from, mid, to - 1);
        assert(digits_val(s, from, to - 1) * 10 >= digits_val(s, from, to - 1)) by {
            lemma_digits_val_nonneg(s, from, to - 1);
        }
    }
}

/// A digit run never denotes a negative value.
pub proof fn lemma_digits_val_nonneg(s: Seq<char>, from: int, to: int)
    requires
        all_digits(s, from, to),
    ensures
        digits_val(s, from, to) >= 0,
    decreases to - from,
{
    if from < to {
        lemma_digits_val_nonneg(s, from, to - 1);
    }
}

/// Decodes the decimal digit run of `s` in `[from, to)` as a `u32`: the run
/// must be non-empty, all digits, and denote a value that fits.
pub fn parse_u32_range(s: &str, from: usize, to: usize) -> (r: Option<u32>)
    requires
        from <= to <= s@.len(),
    ensures
        r is Some <==> (from < to && all_digits(s@, from as int, to as int) && digits_val(
            s@,
            from as int,
            to as int,
        ) <= u32::MAX),
        r matches Some(v) ==> v == digits_val(s@, from as int, to as int),
{
    if from == to {
        return None;
    }
    let mut acc: u32 = 0;
    let mut i: usize = from;
    while i < to
        invariant
            from <= i <= to <= s@.len(),
            all_digits(s@, from as int, i as int),
            acc == digits_val(s@, from as int, i as int),
        decreases to - i,
    {
        let c = s.get_char(i);
        if !char_is_digit(c) {
            return None;
        }
        let d: u32 = (c as u32) - 48;
        let wide: u64 = (acc as u64) * 10 + (d as u64);
        if wide > u32::MAX as u64 {
            proof {
                if all_digits(s@, from as int, to as int) {
                    lemma_digits_val_monotonic(s@, from as int, i + 1, to as int);
                }
            }
            return None;
        }
        acc = wide as u32;
        i = i + 1;
    }
    Some(acc)
}

/// The value that Rust's `u32` parsing gives the character sequence `s`: an
/// optional leading `+`, then at least one decimal digit, in range.
pub open spec fn spec_parse_u32(s: Seq<char>) -> Option<u32> {
    let st: int = if s.len() > 0 && s[0] == '+' {
        1
    } else {
        0
    };
    if s.len() > st && all_digits(s, st, s.len() as int) && digits_val(s, st, s.len() as int)
        <= u32::MAX {
        Some(digits_val(s, st, s.len() as int) as u32)
    } else {
        None
    }
}

/// Decodes `s` as a `u32`, accepting an optional leading `+`.
pub fn parse_u32_str(s: &str) -> (r: Option<u32>)
    ensures
        r == spec_parse_u32(s@),
{
    let len = s.unicode_len();
    let start: usize = if len > 0 && s.get_char(0) == '+' {
        1
    } else {
        0
    };
    parse_u32_range(s, start, len)
}

/// The views of a sequence of strings.
pub open spec fn str_views(v: Seq<String>) -> Seq<Seq<char>> {
    v.map_values(|s: String| s@)
}

/// Character-wise equality of two string slices.
pub fn str_eq_chars(a: &str, b: &str) -> (r: bool)
    ensures
        r == (a@ == b@),
{
    let la = a.unicode_len();
    let lb = b.unicode_len();
    if la != lb {
        return false;
    }
    let mut i: usize = 0;
    while i < la
        invariant
            0 <= i <= la,
            la == a@.len() == b@.len(),
            forall|j: int| 0 <= j < i ==> a@[j] == b@[j],
        decreases la - i,
    {
        if a.get_char(i) != b.get_char(i) {
            return false;
        }
        i = i + 1;
    }
    proof {
        assert(a@ =~= b@);
    }
    true
}

/// The end of the white-space run of `s` that starts at `i`.
pub open spec fn ws_prefix_end(s: Seq<char>, i: int) -> int
    decreases s.len() - i,
{
    if 0 <= i < s.len() && is_space(s[i]) {
        ws_prefix_end(s, i + 1)
    } else {
        i
    }
}

/// The start of the white-space run of `s` that ends at `j`.
pub open spec fn ws_suffix_start(s: Seq<char>, j: int) -> int
    decreases j,
{
    if 0 < j <= s.len() && is_space(s[j - 1]) {
        ws_suffix_start(s, j - 1)
    } else {
        j
    }
}

/// Trimming from the right never moves forward.
pub proof fn lemma_ws_suffix_le(s: Seq<char>, j: int)
    ensures
        ws_suffix_start(s, j) <= j,
    decreases j,
{
    if 0 < j <= s.len() && is_space(s[j - 1]) {
        lemma_ws_suffix_le(s, j - 1);
    }
}

/// `s` with leading and trailing white space removed.
pub open spec fn spec_trim(s: Seq<char>) -> Seq<char> {
    let a = ws_prefix_end(s, 0);
    let b = ws_suffix_start(s, s.len() as int);
    if a <= b {
        s.subrange(a, b)
    } else {
        Seq::empty()
    }
}

/// The bounds of `s` with surrounding white space removed: the trimmed text
/// is the character range `[r.0, r.1)`.
pub fn trim_bounds(s: &str) -> (r: (usize, usize))
    ensures
        r.0 <= r.1 <= s@.len(),
        spec_trim(s@) == s@.subrange(r.0 as int, r.1 as int),
{
    let len = s.unicode_len();
    let mut a: usize = 0;
    while a < len && char_is_space(s.get_char(a))
        invariant
            0 <= a <= len,
            len == s@.len(),
            ws_prefix_end(s@, 0) == ws_prefix_end(s@, a as int),
        decreases len - a,
    {
        a = a + 1;
    }
    let mut b: usize = len;
    while b > a && char_is_space(s.get_char(b - 1))
        invariant
            a <= b <= len,
            len == s@.len(),
            ws_prefix_end(s@, 0) == a,
            ws_suffix_start(s@, len as int) == ws_suffix_start(s@, b as int),
        decreases b,
    {
        b = b - 1;
    }
    proof {
        lemma_ws_suffix_le(s@, b as int);
        assert(spec_trim(s@) =~= s@.subrange(a as int, b as int));
    }
    (a, b)
}

/// The first index at or after `i` where the characters `c0, c1` stand side
/// by side in `s`, or `-1` when there is none.
pub open spec fn find2_from(s: Seq<char>, i: int, c0: char, c1: char) -> int
    decreases s.len() - i,
{
    if 0 <= i && i + 2 <= s.len() {
        if s[i] == c0 && s[i + 1] == c1 {
            i
        } else {
            find2_from(s, i + 1, c0, c1)
        }
    } else {
        -1
    }
}

/// Finds the first occurrence of the two-character pattern `c0, c1` in `s`.
pub fn find2(s: &str, c0: char, c1: char) -> (r: Option<usize>)
    ensures
        r matches Some(p) ==> p == find2_from(s@, 0, c0, c1) && p + 2 <= s@.len(),
        r is None ==> find2_from(s@, 0, c0, c1) == -1,
{
    let len = s.unicode_len();
    if len < 2 {
        return None;
    }
    let mut i: usize = 0;
    while i <= len - 2
        invariant
            0 <= i <= len - 1,
            2 <= len == s@.len(),
            find2_from(s@, 0, c0, c1) == find2_from(s@, i as int, c0, c1),
        decreases len - i,
    {
        if s.get_char(i) == c0 && s.get_char(i + 1) == c1 {
            return Some(i);
        }
        i = i + 1;
    }
    None
}

/// The first index at or after `i` where `c` occurs in `s`, or `-1`.
pub open spec fn find_char_from(s: Seq<char>, i: int, c: char) -> int
    decreases s.len() - i,
{
    if 0 <= i < s.len() {
        if s[i] == c {
            i
        } else {
            find_char_from(s, i + 1, c)
        }
    } else {
        -1
    }
}

/// Finds the first occurrence of `c` in `s` at or after `from`.
pub fn find_char(s: &str, from: usize, c: char) -> (r: Option<usize>)
    requires
        from <= s@.len(),
    ensures
        r matches Some(p) ==> p == find_char_from(s@, from as int, c) && from <= p < s@.len(),
        r is None ==> find_char_from(s@, from as int, c) == -1,
{
    let len = s.unicode_len();
    let mut i: usize = from;
    while i < len
        invariant
            from <= i <= len,
            len == s@.len(),
            find_char_from(s@, from as int, c) == find_char_from(s@, i as int, c),
        decreases len - i,
    {
        if s.get_char(i) == c {
            return Some(i);
        }
        i = i + 1;
    }
    None
}

/// The last index before `i` where `c` occurs in `s`, or `-1`.
pub open spec fn find_char_back(s: Seq<char>, i: int, c: char) -> int
    decreases i,
{
    if 0 < i <= s.len() {
        if s[i - 1] == c {
            i - 1
        } else {
            find_char_back(s, i - 1, c)
        }
    } else {
        -1
    }
}

/// Finds the last occurrence of `c` in `s`.
pub fn rfind_char(s: &str, c: char) -> (r: Option<usize>)
    ensures
        r matches Some(p) ==> p == find_char_back(s@, s@.len() as int, c) && p < s@.len(),
        r is None ==> find_char_back(s@, s@.len() as int, c) == -1,
{
    let len = s.unicode_len();
    let mut i: usize = len;
    while i > 0
        invariant
            0 <= i <= len,
            len == s@.len(),
            find_char_back(s@, len as int, c) == find_char_back(s@, i as int, c),
        decreases i,
    {
        if s.get_char(i - 1) == c {
            return Some(i - 1);
        }
        i = i - 1;
    }
    None
}

} // verus!
