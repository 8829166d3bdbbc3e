//! Character-level text utilities: substring search (exact and
//! case-insensitive), whitespace trimming, decimal digit runs, and rendering
//! of an unsigned integer in decimal.

use vstd::prelude::*;

verus! {

/// An ASCII upper-case letter folded to lower case; every other character is
/// left as it is. The result is the character's scalar value.
pub open spec fn lower_code(c: char) -> u32 {
    if 65 <= c as u32 <= 90 {
        (c as u32 + 32) as u32
    } else {
        c as u32
    }
}

/// `pat` occurs in `s` at position `i`, character for character.
pub open spec fn match_at(s: Seq<char>, pat: Seq<char>, i: int) -> bool {
    &&& 0 <= i
    &&& i + pat.len() <= s.len()
    &&& forall|j: int| 0 <= j < pat.len() ==> s[i + j] == pat[j]
}

/// `pat` occurs somewhere in `s`, character for character.
pub open spec fn contains_seq(s: Seq<char>, pat: Seq<char>) -> bool {
    exists|i: int| match_at(s, pat, i)
}

/// `pat` occurs in `s` at position `i` up to ASCII case.
pub open spec fn match_ci_at(s: Seq<char>, pat: Seq<char>, i: int) -> bool {
    &&& 0 <= i
    &&& i + pat.len() <= s.len()
    &&& forall|j: int| 0 <= j < pat.len() ==> lower_code(s[i + j]) == lower_code(pat[j])
}

/// `pat` occurs somewhere in `s` up to ASCII case.
pub open spec fn contains_ci(s: Seq<char>, pat: Seq<char>) -> bool {
    exists|i: int| match_ci_at(s, pat, i)
}

/// Whether `pat` occurs in `s` at position `from`, exactly.
fn match_at_exec(s: &str, pat: &str, from: usize) -> (b: bool)
    requires
        from + pat@.len() <= s@.len(),
        s@.len() <= usize::MAX,
    ensures
        b == match_at(s@, pat@, from as int),
{
    let n = pat.unicode_len();
    let mut j: usize = 0;
    while j < n
        invariant
            n == pat@.len(),
            from + n <= s@.len() <= usize::MAX,
            0 <= j <= n,
            forall|k: int| 0 <= k < j ==> s@[from + k] == pat@[k],
        decreases n - j,
    {
        if s.get_char(from + j) != pat.get_char(j) {
            return false;
        }
        j = j + 1;
    }
    true
}

/// Whether `pat` occurs in `s` at position `from` up to ASCII case.
fn match_ci_at_exec(s: &str, pat: &str, from: usize) -> (b: bool)
    requires
        from + pat@.len() <= s@.len(),
        s@.len() <= usize::MAX,
    ensures
        b == match_ci_at(s@, pat@, from as int),
{
    let n = pat.unicode_len();
    let mut j: usize = 0;
    while j < n
        invariant
            n == pat@.len(),
            from + n <= s@.len() <= usize::MAX,
            0 <= j <= n,
            forall|k: int| 0 <= k < j ==> lower_code(s@[from + k]) == lower_code(pat@[k]),
        decreases n - j,
    {
        let sc = s.get_char(from + j);
        let pc = pat.get_char(j);
        if lower_code_exec(sc) != lower_code_exec(pc) {
            return false;
        }
        j = j + 1;
    }
    true
}

/// ASCII lower-case folding of a single character, as a scalar value.
fn lower_code_exec(c: char) -> (r: u32)
    ensures
        r == lower_code(c),
{
    let u = c as u32;
    if 65 <= u && u <= 90 {
        u + 32
    } else {
        u
    }
}

/// Position of the first occurrence of `pat` in `s`, if any.
pub fn find_substr(s: &str, pat: &str) -> (r: Option<usize>)
    ensures
        s@.len() <= usize::MAX,
        match r {
            Some(i) => match_at(s@, pat@, i as int) && forall|j: int|
                0 <= j < i ==> !match_at(s@, pat@, j),
            None => !contains_seq(s@, pat@),
        },
{
    let n = s.unicode_len();
    let m = pat.unicode_len();
    if m > n {
        return None;
    }
    let mut i: usize = 0;
    while i <= n - m
        invariant
            n == s@.len(),
            m == pat@.len(),
            m <= n,
            0 <= i <= n - m + 1,
            forall|j: int| 0 <= j < i ==> !match_at(s@, pat@, j),
        decreases n - m + 1 - i,
    {
        if match_at_exec(s, pat, i) {
            return Some(i);
        }
        i = i + 1;
    }
    None
}

/// Whether `pat` occurs anywhere in `s`, exactly.
pub fn contains_substr(s: &str, pat: &str) -> (b: bool)
    ensures
        b == contains_seq(s@, pat@),
{
    match find_substr(s, pat) {
        Some(_) => true,
        None => false,
    }
}

/// Whether `pat` occurs anywhere in `s` up to ASCII case.
pub fn contains_substr_ci(s: &str, pat: &str) -> (b: bool)
    ensures
        b == contains_ci(s@, pat@),
{
    let n = s.unicode_len();
    let m = pat.unicode_len();
    if m > n {
        return false;
    }
    let mut i: usize = 0;
    while i <= n - m
        invariant
            n == s@.len(),
            m == pat@.len(),
            m <= n,
            0 <= i <= n - m + 1,
            forall|j: int| 0 <= j < i ==> !match_ci_at(s@, pat@, j),
        decreases n - m + 1 - i,
    {
        if match_ci_at_exec(s, pat, i) {
            return true;
        }
        i = i + 1;
    }
    false
}

/// A white-space character, as trimmed from the ends of extracted cell
/// text: the Unicode white-space set, which HTML cell text commonly carries
/// (a no-break space between a label and an icon, for one).
pub open spec fn is_space(c: char) -> bool {
    ||| 0x9 <= c as u32 <= 0xd
    ||| c as u32 == 0x20
    ||| c as u32 == 0x85
    ||| c as u32 == 0xa0
    ||| c as u32 == 0x1680
    ||| 0x2000 <= c as u32 <= 0x200a
    ||| c as u32 == 0x2028
    ||| c as u32 == 0x2029
    ||| c as u32 == 0x202f
    ||| c as u32 == 0x205f
    ||| c as u32 == 0x3000
}

/// `s` with all leading and trailing white space removed.
pub open spec fn trim_spec(s: Seq<char>) -> Seq<char>
    decreases s.len(),
{
    if s.len() == 0 {
        s
    } else if is_space(s[0]) {
        trim_spec(s.subrange(1, s.len() as int))
    } else if is_space(s[s.len() - 1]) {
        trim_spec(s.subrange(0, s.len() - 1))
    } else {
        s
    }
}

/// `s` with all leading and trailing white space removed.
pub fn trim_text(s: &str) -> (r: String)
    ensures
        r@ == trim_spec(s@),
{
    let n = s.unicode_len();
    let mut lo: usize = 0;
    let mut hi: usize = n;
    proof {
        assert(s@.subrange(0, n as int) =~= s@);
    }
    while lo < hi && is_space_exec(s.get_char(lo))
        invariant
            n == s@.len(),
            0 <= lo <= hi <= n,
            trim_spec(s@) == trim_spec(s@.subrange(lo as int, hi as int)),
        decreases hi - lo,
    {
        proof {
            let t = s@.subrange(lo as int, hi as int);
            assert(t.subrange(1, t.len() as int) =~= s@.subrange(lo + 1, hi as int));
        }
        lo = lo + 1;
    }
    while lo < hi && is_space_exec(s.get_char(hi - 1))
        invariant
            n == s@.len(),
            0 <= lo <= hi <= n,
            trim_spec(s@) == trim_spec(s@.subrange(lo as int, hi as int)),
            lo < hi ==> !is_space(s@[lo as int]),
        decreases hi - lo,
    {
        proof {
            let t = s@.subrange(lo as int, hi as int);
            assert(t.subrange(0, t.len() - 1) =~= s@.subrange(lo as int, hi - 1));
        }
        hi = hi - 1;
    }
    proof {
        let t = s@.subrange(lo as int, hi as int);
        assert(trim_spec(t) == t);
    }
    let r = s.substring_char(lo, hi).to_owned();
    r
}

/// White-space test for a single character.
fn is_space_exec(c: char) -> (b: bool)
    ensures
        b == is_space(c),
{
    let u = c as u32;
    (0x9 <= u && u <= 0xd) || u == 0x20 || u == 0x85 || u == 0xa0 || u == 0x1680 || (0x2000 <= u
        && u <= 0x200a) || u == 0x2028 || u == 0x2029 || u == 0x202f || u == 0x205f || u == 0x3000
}

/// An ASCII decimal digit.
pub open spec fn is_digit(c: char) -> bool {
    48 <= c as u32 <= 57
}

/// Numeric value of an ASCII decimal digit.
pub open spec fn digit_val(c: char) -> nat {
    (c as u32 - 48) as nat
}

/// Length of the run of ASCII digits in `s` starting at position `i`.
pub open spec fn digit_run_len(s: Seq<char>, i: int) -> int
    decreases s.len() - i,
{
    if 0 <= i < s.len() && is_digit(s[i]) {
        1 + digit_run_len(s, i + 1)
    } else {
        0
    }
}

/// Value of a sequence of ASCII digits read as a decimal number.
pub open spec fn digits_val(ds: Seq<char>) -> nat
    decreases ds.len(),
{
    if ds.len() == 0 {
        0
    } else {
        digits_val(ds.drop_last()) * 10 + digit_val(ds.last())
    }
}

/// A longer digit sequence never has a smaller value: appending digits can
/// only grow the decimal reading.
proof fn lemma_digits_val_prefix(ds: Seq<char>, k: int)
    requires
        0 <= k <= ds.len(),
    ensures
        digits_val(ds.subrange(0, k)) <= digits_val(ds),
    decreases ds.len() - k,
{
    if k < ds.len() {
        let next = ds.subrange(0, k + 1);
        assert(next.drop_last() =~= ds.subrange(0, k));
        assert(digits_val(ds.subrange(0, k)) <= digits_val(next));
        lemma_digits_val_prefix(ds, k + 1);
        assert(ds.subrange(0, ds.len() as int) =~= ds);
    } else {
        assert(ds.subrange(0, k) =~= ds);
    }
}

/// Reads the run of ASCII digits in `s` starting at `from` and returns its
/// decimal value; `None` if the run is empty or its value exceeds `u32::MAX`.
pub fn parse_digit_run(s: &str, from: usize) -> (r: Option<u32>)
    requires
        from <= s@.len(),
    ensures
        ({
            let run = s@.subrange(from as int, from + digit_run_len(s@, from as int));
            match r {
                Some(v) => digit_run_len(s@, from as int) > 0 && digits_val(run) <= u32::MAX
                    && v == digits_val(run),
                None => digit_run_len(s@, from as int) == 0 || digits_val(run) > u32::MAX,
            }
        }),
{
    let n = s.unicode_len();
    let ghost run_end = from + digit_run_len(s@, from as int);
    let mut j: usize = from;
    let mut val: u64 = 0;
    proof {
        assert(s@.subrange(from as int, from as int) =~= Seq::<char>::empty());
        lemma_digit_run_nonneg(s@, from as int);
        lemma_digit_run_bounded(s@, from as int);
    }
    while j < n && is_digit_exec(s.get_char(j))
        invariant
            n == s@.len() <= usize::MAX,
            from <= j <= n,
            run_end == from + digit_run_len(s@, from as int),
            from <= run_end <= n,
            forall|k: int| from <= k < j ==> is_digit(s@[k]),
            j <= run_end,
            val == digits_val(s@.subrange(from as int, j as int)),
            val <= u32::MAX,
        decreases n - j,
    {
        proof {
            lemma_digit_run_extends(s@, from as int, j as int);
        }
        let d = s.get_char(j) as u32 - 48;
        let next: u64 = val * 10 + d as u64;
        proof {
            assert(s@.subrange(from as int, j + 1).drop_last() =~= s@.subrange(
                from as int,
                j as int,
            ));
        }
        if next > u32::MAX as u64 {
            proof {
                let run = s@.subrange(from as int, run_end);
                assert(s@.subrange(from as int, j + 1) =~= run.subrange(0, j + 1 - from));
                lemma_digits_val_prefix(run, j + 1 - from);
            }
            return None;
        }
        val = next;
        j = j + 1;
    }
    proof {
        lemma_digit_run_stops(s@, from as int, j as int);
    }
    if j == from {
        None
    } else {
        Some(val as u32)
    }
}

/// A digit run never has negative length.
proof fn lemma_digit_run_nonneg(s: Seq<char>, i: int)
    ensures
        digit_run_len(s, i) >= 0,
    decreases s.len() - i,
{
    if 0 <= i < s.len() && is_digit(s[i]) {
        lemma_digit_run_nonneg(s, i + 1);
    }
}

/// A digit run stays within the sequence.
proof fn lemma_digit_run_bounded(s: Seq<char>, i: int)
    requires
        0 <= i <= s.len(),
    ensures
        i + digit_run_len(s, i) <= s.len(),
    decreases s.len() - i,
{
    if i < s.len() && is_digit(s[i]) {
        lemma_digit_run_bounded(s, i + 1);
    }
}

/// Within a digit run, the run extends past every digit position.
proof fn lemma_digit_run_extends(s: Seq<char>, from: int, j: int)
    requires
        0 <= from <= j < s.len(),
        forall|k: int| from <= k < j ==> is_digit(s[k]),
        is_digit(s[j]),
    ensures
        from + digit_run_len(s, from) >= j + 1,
    decreases j - from,
{
    if from < j {
        lemma_digit_run_extends(s, from + 1, j);
    } else {
        lemma_digit_run_nonneg(s, j + 1);
    }
}

/// A digit run ends exactly at the first non-digit position.
proof fn lemma_digit_run_stops(s: Seq<char>, from: int, j: int)
    requires
        0 <= from <= j <= s.len(),
        forall|k: int| from <= k < j ==> is_digit(s[k]),
        j == s.len() || !is_digit(s[j]),
    ensures
        from + digit_run_len(s, from) == j,
    decreases j - from,
{
    if from < j {
        lemma_digit_run_stops(s, from + 1, j);
    }
}

/// ASCII decimal digit test for a single character.
fn is_digit_exec(c: char) -> (b: bool)
    ensures
        b == is_digit(c),
{
    let u = c as u32;
    48 <= u && u <= 57
}

/// Decimal digit character for a value below ten.
pub open spec fn digit_char(d: nat) -> char {
    if d == 0 {
        '0'
    } else if d == 1 {
        '1'
    } else if d == 2 {
        '2'
    } else if d == 3 {
        '3'
    } else if d == 4 {
        '4'
    } else if d == 5 {
        '5'
    } else if d == 6 {
        '6'
    } else if d == 7 {
        '7'
    } else if d == 8 {
        '8'
    } else {
        '9'
    }
}

/// Decimal rendering of `n`, most significant digit first, no leading zeros
/// (a single `'0'` for zero).
pub open spec fn dec_rep(n: nat) -> Seq<char>
    decreases n,
{
    if n < 10 {
        seq![digit_char(n)]
    } else {
        dec_rep(n / 10).push(digit_char(n % 10))
    }
}

/// The one-character string for a decimal digit value.
fn digit_str(d: u32) -> (r: &'static str)
    requires
        d < 10,
    ensures
        r@ =~= seq![digit_char(d as nat)],
{
    proof {
        reveal_strlit("0");
        reveal_strlit("1");
        reveal_strlit("2");
        reveal_strlit("3");
        reveal_strlit("4");
        reveal_strlit("5");
        reveal_strlit("6");
        reveal_strlit("7");
        reveal_strlit("8");
        reveal_strlit("9");
    }
    if d == 0 {
        "0"
    } else if d == 1 {
        "1"
    } else if d == 2 {
        "2"
    } else if d == 3 {
        "3"
    } else if d == 4 {
        "4"
    } else if d == 5 {
        "5"
    } else if d == 6 {
        "6"
    } else if d == 7 {
        "7"
    } else if d == 8 {
        "8"
    } else {
        "9"
    }
}

/// Renders `n` in decimal.
pub fn u32_to_dec(n: u32) -> (r: String)
    ensures
        r@ == dec_rep(n as nat),
    decreases n,
{
    if n < 10 {
        String::from_str(digit_str(n))
    } else {
        let mut r = u32_to_dec(n / 10);
        r.append(digit_str(n % 10));
        proof {
            assert(r@ =~= dec_rep(n as nat));
        }
        r
    }
}

} // verus!
