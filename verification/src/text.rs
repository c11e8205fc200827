//! Verified helpers over `&str` / `String`, used by the path, URL and
//! identifier logic of the rest of the crate.

use vstd::prelude::*;

verus! {

/// Whether `c` counts as alphanumeric under Unicode rules.
pub uninterp spec fn unicode_alphanumeric(c: char) -> bool;

/// Whether `c` has the Unicode `White_Space` property.
pub uninterp spec fn unicode_whitespace(c: char) -> bool;

/// Relies on char::is_alphanumeric: a pure classification of the character.
pub assume_specification[ char::is_alphanumeric ](c: char) -> (r: bool)
    ensures
        r == unicode_alphanumeric(c),
;

/// Relies on char::is_whitespace: a pure classification of the character.
pub assume_specification[ char::is_whitespace ](c: char) -> (r: bool)
    ensures
        r == unicode_whitespace(c),
;

/// Relies on String::push: appends exactly the one character.
pub assume_specification[ String::push ](s: &mut String, c: char)
    ensures
        final(s)@ == old(s)@.push(c),
;

/// `pat` occurs in `s` starting at character position `i`.
pub open spec fn occurs_at(s: Seq<char>, pat: Seq<char>, i: int) -> bool {
    0 <= i && i + pat.len() <= s.len() && s.subrange(i, i + pat.len() as int) == pat
}

/// Whether `pat` matches `s` at character position `at`.
pub fn matches_at(s: &str, pat: &str, at: usize) -> (b: bool)
    requires
        at <= s@.len(),
    ensures
        b == occurs_at(s@, pat@, at as int),
{
    let n = s.unicode_len();
    let m = pat.unicode_len();
    if m > n - at {
        assert(!occurs_at(s@, pat@, at as int));
        return false;
    }
    let mut i: usize = 0;
    while i < m
        invariant
            at + m <= n,
            n == s@.len(),
            m == pat@.len(),
            i <= m,
            forall|j: int| 0 <= j < i ==> s@[at + j] == pat@[j],
        decreases m - i,
    {
        if s.get_char(at + i) != pat.get_char(i) {
            assert(s@.subrange(at as int, at + m) != pat@) by {
                assert(s@.subrange(at as int, at + m)[i as int] == s@[at + i]);
            }
            return false;
        }
        i += 1;
    }
    assert(s@.subrange(at as int, at + m) =~= pat@);
    true
}

/// Whether `p` is a prefix of `s`.
pub fn starts_with(s: &str, p: &str) -> (b: bool)
    ensures
        b == p@.is_prefix_of(s@),
{
    let r = matches_at(s, p, 0);
    assert(occurs_at(s@, p@, 0) == p@.is_prefix_of(s@)) by {
        if p@.len() <= s@.len() {
            assert(s@.subrange(0, p@.len() as int) == s@.take(p@.len() as int));
        }
    }
    r
}

/// Whether `p` is a suffix of `s`.
pub fn ends_with(s: &str, p: &str) -> (b: bool)
    ensures
        b == p@.is_suffix_of(s@),
{
    let n = s.unicode_len();
    let m = p.unicode_len();
    if m > n {
        return false;
    }
    let r = matches_at(s, p, n - m);
    assert(occurs_at(s@, p@, n - m) == p@.is_suffix_of(s@)) by {
        assert(s@.subrange(n - m, n as int) == s@.skip(n - m));
    }
    r
}

/// Position of the first occurrence of `pat` in `s`, if any.
pub fn find_str(s: &str, pat: &str) -> (r: Option<usize>)
    ensures
        match r {
            Some(i) => occurs_at(s@, pat@, i as int) && forall|j: int|
                0 <= j < i ==> !occurs_at(s@, pat@, j),
            None => forall|j: int| !occurs_at(s@, pat@, j),
        },
{
    let n = s.unicode_len();
    let m = pat.unicode_len();
    if m > n {
        return None;
    }
    if m == 0 {
        assert(occurs_at(s@, pat@, 0)) by {
            assert(s@.subrange(0, 0) =~= pat@);
        }
        return Some(0);
    }
    let mut i: usize = 0;
    while i <= n - m
        invariant
            0 < m <= n,
            n == s@.len(),
            m == pat@.len(),
            i <= n - m + 1,
            forall|j: int| 0 <= j < i ==> !occurs_at(s@, pat@, j),
        decreases n - i,
    {
        if matches_at(s, pat, i) {
            return Some(i);
        }
        i += 1;
    }
    None
}

/// A character that may appear in a share code: alphanumeric, `_` or `-`.
pub open spec fn spec_token_char(c: char) -> bool {
    unicode_alphanumeric(c) || c == '_' || c == '-'
}

/// Whether `c` may appear in a share code.
pub fn is_token_char(c: char) -> (b: bool)
    ensures
        b == spec_token_char(c),
{
    c.is_alphanumeric() || c == '_' || c == '-'
}

/// Length of the run of characters satisfying `pred` at the start of `s`
/// (from position `from` on), counted one position at a time.
pub open spec fn run_len(s: Seq<char>, from: int, pred: spec_fn(char) -> bool) -> int
    decreases s.len() - from,
{
    if 0 <= from < s.len() && pred(s[from]) {
        1 + run_len(s, from + 1, pred)
    } else {
        0
    }
}

proof fn lemma_run_len_value(s: Seq<char>, from: int, upto: int, pred: spec_fn(char) -> bool)
    requires
        0 <= from <= upto <= s.len(),
        forall|j: int| from <= j < upto ==> pred(s[j]),
        upto == s.len() || !pred(s[upto]),
    ensures
        run_len(s, from, pred) == upto - from,
    decreases upto - from,
{
    if from < upto {
        lemma_run_len_value(s, from + 1, upto, pred);
    }
}

/// First position at or after `from` whose character is not a share-code
/// character, or the end of the string.
pub fn token_run_end(s: &str, from: usize) -> (end: usize)
    requires
        from <= s@.len(),
    ensures
        end == from + run_len(s@, from as int, |c: char| spec_token_char(c)),
        from <= end <= s@.len(),
{
    let n = s.unicode_len();
    let mut i: usize = from;
    while i < n
        invariant
            from <= i <= n,
            n == s@.len(),
            forall|j: int| from <= j < i ==> spec_token_char(s@[j]),
        decreases n - i,
    {
        if !is_token_char(s.get_char(i)) {
            proof {
                lemma_run_len_value(s@, from as int, i as int, |c: char| spec_token_char(c));
            }
            return i;
        }
        i += 1;
    }
    proof {
        lemma_run_len_value(s@, from as int, n as int, |c: char| spec_token_char(c));
    }
    n
}

/// `s` with leading and trailing Unicode whitespace removed.
pub open spec fn spec_trim(s: Seq<char>) -> Seq<char> {
    let l = run_len(s, 0, |c: char| unicode_whitespace(c));
    if l == s.len() {
        Seq::<char>::empty()
    } else {
        let r = back_run_len(s, s.len() as int, |c: char| unicode_whitespace(c));
        s.subrange(l, s.len() - r)
    }
}

/// Length of the run of characters satisfying `pred` at the end of `s`,
/// looking backwards from position `upto`.
pub open spec fn back_run_len(s: Seq<char>, upto: int, pred: spec_fn(char) -> bool) -> int
    decreases upto,
{
    if 0 < upto <= s.len() && pred(s[upto - 1]) {
        1 + back_run_len(s, upto - 1, pred)
    } else {
        0
    }
}

proof fn lemma_back_run_len_value(s: Seq<char>, downto: int, upto: int, pred: spec_fn(char) -> bool)
    requires
        0 <= downto <= upto <= s.len(),
        forall|j: int| downto <= j < upto ==> pred(s[j]),
        downto == 0 || !pred(s[downto - 1]),
    ensures
        back_run_len(s, upto, pred) == upto - downto,
    decreases upto - downto,
{
    if downto < upto {
        lemma_back_run_len_value(s, downto, upto - 1, pred);
    }
}

/// `s` with leading and trailing whitespace removed, as `str::trim` does.
pub fn trim_str(s: &str) -> (r: String)
    ensures
        r@ == spec_trim(s@),
{
    let n = s.unicode_len();
    let mut i: usize = 0;
    while i < n && s.get_char(i).is_whitespace()
        invariant
            i <= n,
            n == s@.len(),
            forall|j: int| 0 <= j < i ==> unicode_whitespace(s@[j]),
        decreases n - i,
    {
        i += 1;
    }
    proof {
        lemma_run_len_value(s@, 0, i as int, |c: char| unicode_whitespace(c));
    }
    if i == n {
        return String::new();
    }
    let mut j: usize = n;
    while j > i && s.get_char(j - 1).is_whitespace()
        invariant
            i <= j <= n,
            n == s@.len(),
            i < n,
            !unicode_whitespace(s@[i as int]),
            forall|k: int| j <= k < n ==> unicode_whitespace(s@[k]),
        decreases j,
    {
        j -= 1;
    }
    proof {
        lemma_back_run_len_value(s@, j as int, n as int, |c: char| unicode_whitespace(c));
    }
    s.substring_char(i, j).to_owned()
}

/// The run of `/` characters at the start removed.
pub open spec fn spec_trim_start_slashes(s: Seq<char>) -> Seq<char> {
    s.subrange(run_len(s, 0, |c: char| c == '/'), s.len() as int)
}

/// The run of `/` characters at the end removed.
pub open spec fn spec_trim_end_slashes(s: Seq<char>) -> Seq<char> {
    s.subrange(0, s.len() - back_run_len(s, s.len() as int, |c: char| c == '/'))
}

/// `s` with leading `/` characters removed, as `str::trim_start_matches('/')`.
pub fn trim_start_slashes(s: &str) -> (r: String)
    ensures
        r@ == spec_trim_start_slashes(s@),
{
    let n = s.unicode_len();
    let mut i: usize = 0;
    while i < n && s.get_char(i) == '/'
        invariant
            i <= n,
            n == s@.len(),
            forall|j: int| 0 <= j < i ==> s@[j] == '/',
        decreases n - i,
    {
        i += 1;
    }
    proof {
        lemma_run_len_value(s@, 0, i as int, |c: char| c == '/');
    }
    s.substring_char(i, n).to_owned()
}

/// `s` with trailing `/` characters removed, as `str::trim_end_matches('/')`.
pub fn trim_end_slashes(s: &str) -> (r: String)
    ensures
        r@ == spec_trim_end_slashes(s@),
{
    let n = s.unicode_len();
    let mut j: usize = n;
    while j > 0 && s.get_char(j - 1) == '/'
        invariant
            j <= n,
            n == s@.len(),
            forall|k: int| j <= k < n ==> s@[k] == '/',
        decreases j,
    {
        j -= 1;
    }
    proof {
        lemma_back_run_len_value(s@, j as int, n as int, |c: char| c == '/');
    }
    s.substring_char(0, j).to_owned()
}

/// The characters of `s` after the prefix `p`, when `p` is a prefix of `s`.
pub fn strip_prefix_str(s: &str, p: &str) -> (r: Option<String>)
    ensures
        match r {
            Some(t) => p@.is_prefix_of(s@) && t@ == s@.skip(p@.len() as int),
            None => !p@.is_prefix_of(s@),
        },
{
    if starts_with(s, p) {
        let t = s.substring_char(p.unicode_len(), s.unicode_len()).to_owned();
        assert(t@ =~= s@.skip(p@.len() as int));
        Some(t)
    } else {
        None
    }
}

/// The concatenation of two string slices.
pub fn concat2(a: &str, b: &str) -> (r: String)
    ensures
        r@ == a@ + b@,
{
    let mut r = a.to_owned();
    r.append(b);
    r
}

/// The concatenation of three string slices.
pub fn concat3(a: &str, b: &str, c: &str) -> (r: String)
    ensures
        r@ == a@ + b@ + c@,
{
    let mut r = a.to_owned();
    r.append(b);
    r.append(c);
    r
}

/// Position of the first occurrence of `pat` in `s` at or after `from`,
/// if any.
pub open spec fn find_from(s: Seq<char>, pat: Seq<char>, from: int) -> Option<int>
    decreases s.len() - from,
{
    if from < 0 || from + pat.len() > s.len() {
        Option::<int>::None
    } else if pat.len() == 0 || occurs_at(s, pat, from) {
        Option::Some(from)
    } else {
        find_from(s, pat, from + 1)
    }
}

/// Position of the first occurrence of `pat` in `s`, if any.
pub open spec fn spec_find(s: Seq<char>, pat: Seq<char>) -> Option<int> {
    find_from(s, pat, 0)
}

proof fn lemma_find_from_some(s: Seq<char>, pat: Seq<char>, from: int, i: int)
    requires
        0 <= from <= i,
        occurs_at(s, pat, i),
        forall|j: int| from <= j < i ==> !occurs_at(s, pat, j),
    ensures
        find_from(s, pat, from) == Option::Some(i),
    decreases i - from,
{
    if from < i {
        if pat.len() == 0 {
            assert(occurs_at(s, pat, from)) by {
                assert(s.subrange(from, from) =~= pat);
            }
        } else {
            lemma_find_from_some(s, pat, from + 1, i);
        }
    }
}

proof fn lemma_find_from_none(s: Seq<char>, pat: Seq<char>, from: int)
    requires
        from >= 0,
        forall|j: int| j >= from ==> !occurs_at(s, pat, j),
    ensures
        find_from(s, pat, from) == Option::<int>::None,
    decreases s.len() - from,
{
    if from + pat.len() <= s.len() {
        if pat.len() == 0 {
            assert(occurs_at(s, pat, from)) by {
                assert(s.subrange(from, from) =~= pat);
            }
        } else {
            lemma_find_from_none(s, pat, from + 1);
        }
    }
}

/// Position of the first occurrence of `pat` in `s`, as `spec_find` names
/// it.
pub fn find_first(s: &str, pat: &str) -> (r: Option<usize>)
    ensures
        match r {
            Some(i) => spec_find(s@, pat@) == Option::Some(i as int) && occurs_at(
                s@,
                pat@,
                i as int,
            ),
            None => spec_find(s@, pat@) is None,
        },
{
    match find_str(s, pat) {
        Some(i) => {
            proof {
                lemma_find_from_some(s@, pat@, 0, i as int);
            }
            Some(i)
        },
        None => {
            proof {
                lemma_find_from_none(s@, pat@, 0);
            }
            None
        },
    }
}

/// `pat` occurs somewhere in `s`.
pub open spec fn spec_contains(s: Seq<char>, pat: Seq<char>) -> bool {
    exists|i: int| occurs_at(s, pat, i)
}

/// Whether `pat` occurs anywhere in `s`.
pub fn contains_str(s: &str, pat: &str) -> (b: bool)
    ensures
        b == spec_contains(s@, pat@),
{
    match find_str(s, pat) {
        Some(i) => {
            assert(occurs_at(s@, pat@, i as int));
            true
        },
        None => false,
    }
}

/// The character for the decimal digit `d`.
pub open spec fn dec_digit(d: nat) -> char {
    if d == 0 {
        '0'
    } else if d == 1 {
        '1'
    } else if d == 2 {
        '2'
    } else if d == 3 {
        '3'
    } else if d == 4 {
        '4'
    } else if d == 5 {
        '5'
    } else if d == 6 {
        '6'
    } else if d == 7 {
        '7'
    } else if d == 8 {
        '8'
    } else {
        '9'
    }
}

/// The decimal representation of `n`, most significant digit first.
pub open spec fn dec_of(n: nat) -> Seq<char>
    decreases n,
{
    if n < 10 {
        seq![dec_digit(n)]
    } else {
        dec_of(n / 10).push(dec_digit(n % 10))
    }
}

fn dec_digit_char(d: u64) -> (c: char)
    requires
        d < 10,
    ensures
        c == dec_digit(d as nat),
{
    if d == 0 {
        '0'
    } else if d == 1 {
        '1'
    } else if d == 2 {
        '2'
    } else if d == 3 {
        '3'
    } else if d == 4 {
        '4'
    } else if d == 5 {
        '5'
    } else if d == 6 {
        '6'
    } else if d == 7 {
        '7'
    } else if d == 8 {
        '8'
    } else {
        '9'
    }
}

fn push_dec(out: &mut String, n: u64)
    ensures
        final(out)@ == old(out)@ + dec_of(n as nat),
    decreases n,
{
    if n < 10 {
        out.push(dec_digit_char(n));
        assert(final(out)@ =~= old(out)@ + dec_of(n as nat));
    } else {
        push_dec(out, n / 10);
        out.push(dec_digit_char(n % 10));
        assert(final(out)@ =~= old(out)@ + dec_of(n as nat));
    }
}

/// The decimal representation of `n` as a string.
pub fn u64_to_dec(n: u64) -> (r: String)
    ensures
        r@ == dec_of(n as nat),
{
    let mut r = String::new();
    push_dec(&mut r, n);
    assert(r@ =~= dec_of(n as nat));
    r
}

/// Whether `c` is an ASCII decimal digit.
pub open spec fn is_dec_digit(c: char) -> bool {
    c == '0' || c == '1' || c == '2' || c == '3' || c == '4' || c == '5' || c == '6' || c == '7'
        || c == '8' || c == '9'
}

/// The value of the digit character `c`.
pub open spec fn digit_val(c: char) -> nat {
    if c == '1' {
        1
    } else if c == '2' {
        2
    } else if c == '3' {
        3
    } else if c == '4' {
        4
    } else if c == '5' {
        5
    } else if c == '6' {
        6
    } else if c == '7' {
        7
    } else if c == '8' {
        8
    } else if c == '9' {
        9
    } else {
        0
    }
}

/// The value of a sequence of decimal digit characters.
pub open spec fn dec_seq_val(s: Seq<char>) -> nat
    decreases s.len(),
{
    if s.len() == 0 {
        0
    } else {
        dec_seq_val(s.drop_last()) * 10 + digit_val(s.last())
    }
}

/// The value of a non-empty all-digit sequence that fits in 64 bits.
pub open spec fn spec_parse_digits(t: Seq<char>) -> Option<u64> {
    if t.len() > 0 && (forall|i: int| 0 <= i < t.len() ==> is_dec_digit(t[i])) && dec_seq_val(t)
        <= u64::MAX {
        Some(dec_seq_val(t) as u64)
    } else {
        None
    }
}

/// What `str::parse::<u64>` returns on `s`: an optional leading `+`, then at
/// least one digit, all digits, and a value that fits in 64 bits.
pub open spec fn spec_parse_u64(s: Seq<char>) -> Option<u64> {
    if s.len() > 0 && s[0] == '+' {
        spec_parse_digits(s.skip(1))
    } else {
        spec_parse_digits(s)
    }
}

proof fn lemma_dec_seq_val_take_le(s: Seq<char>, k: int)
    requires
        0 <= k <= s.len(),
    ensures
        dec_seq_val(s.take(k)) <= dec_seq_val(s),
    decreases s.len(),
{
    if k < s.len() {
        assert(s.drop_last().take(k) =~= s.take(k));
        lemma_dec_seq_val_take_le(s.drop_last(), k);
    } else {
        assert(s.take(k) =~= s);
    }
}

fn digit_of_char(c: char) -> (r: Option<u64>)
    ensures
        match r {
            Some(d) => is_dec_digit(c) && d == digit_val(c),
            None => !is_dec_digit(c),
        },
{
    match c {
        '0' => Some(0),
        '1' => Some(1),
        '2' => Some(2),
        '3' => Some(3),
        '4' => Some(4),
        '5' => Some(5),
        '6' => Some(6),
        '7' => Some(7),
        '8' => Some(8),
        '9' => Some(9),
        _ => None,
    }
}

fn parse_digits(s: &str, from: usize) -> (r: Option<u64>)
    requires
        from <= s@.len(),
    ensures
        r == spec_parse_digits(s@.skip(from as int)),
{
    let ghost t = s@.skip(from as int);
    let n = s.unicode_len();
    if from == n {
        return None;
    }
    let mut val: u64 = 0;
    let mut i: usize = from;
    while i < n
        invariant
            from <= i <= n,
            from < n,
            n == s@.len(),
            t == s@.skip(from as int),
            forall|j: int| from <= j < i ==> is_dec_digit(s@[j]),
            val == dec_seq_val(t.take(i - from)),
        decreases n - i,
    {
        let d = match digit_of_char(s.get_char(i)) {
            Some(d) => d,
            None => {
                assert(!is_dec_digit(t[i - from]));
                return None;
            },
        };
        let shifted = match val.checked_mul(10) {
            Some(v) => v,
            None => {
                proof {
                    assert(t.take(i + 1 - from).drop_last() =~= t.take(i - from));
                    assert(dec_seq_val(t.take(i + 1 - from)) > u64::MAX);
                    lemma_dec_seq_val_take_le(t, i + 1 - from);
                }
                return None;
            },
        };
        let next = match shifted.checked_add(d) {
            Some(v) => v,
            None => {
                proof {
                    assert(t.take(i + 1 - from).drop_last() =~= t.take(i - from));
                    assert(dec_seq_val(t.take(i + 1 - from)) > u64::MAX);
                    lemma_dec_seq_val_take_le(t, i + 1 - from);
                }
                return None;
            },
        };
        proof {
            assert(t.take(i + 1 - from).drop_last() =~= t.take(i - from));
            assert(t.take(i + 1 - from).last() == s@[i as int]);
        }
        val = next;
        i += 1;
    }
    assert(t.take(n - from) =~= t);
    Some(val)
}

/// What `str::parse::<u64>` returns on `s`.
pub fn parse_u64_dec(s: &str) -> (r: Option<u64>)
    ensures
        r == spec_parse_u64(s@),
{
    let n = s.unicode_len();
    if n > 0 && s.get_char(0) == '+' {
        parse_digits(s, 1)
    } else {
        assert(s@.skip(0) =~= s@);
        parse_digits(s, 0)
    }
}

/// Each `\` replaced by `/`, as archive entry paths are normalized.
pub open spec fn spec_normalize_separators(s: Seq<char>) -> Seq<char> {
    s.map_values(
        |c: char|
            if c == '\\' {
                '/'
            } else {
                c
            },
    )
}

/// `s` with every backslash replaced by a forward slash.
pub fn normalize_separators(s: &str) -> (r: String)
    ensures
        r@ == spec_normalize_separators(s@),
{
    let n = s.unicode_len();
    let mut r = String::new();
    let mut i: usize = 0;
    while i < n
        invariant
            i <= n,
            n == s@.len(),
            r@ == spec_normalize_separators(s@.take(i as int)),
        decreases n - i,
    {
        let c = s.get_char(i);
        if c == '\\' {
            r.push('/');
        } else {
            r.push(c);
        }
        assert(r@ =~= spec_normalize_separators(s@.take(i + 1)));
        i += 1;
    }
    assert(s@.take(n as int) =~= s@);
    r
}

} // verus!
