//! Plain-text helpers for the control protocol: word splitting, decimal
//! rendering and parsing, and string comparison, each against an exact
//! sequence-level specification.

use vstd::prelude::*;

verus! {

/// Characters that separate words in the line-oriented control protocol.
pub open spec fn is_space_char(c: char) -> bool {
    c == ' ' || c == '\t' || c == '\r' || c == '\n'
}

/// Executable mirror of `is_space_char`.
pub fn is_space(c: char) -> (r: bool)
    ensures
        r == is_space_char(c),
{
    c == ' ' || c == '\t' || c == '\r' || c == '\n'
}

/// Character-wise string equality.
pub fn str_eq(a: &str, b: &str) -> (r: bool)
    ensures
        r == (a@ == b@),
{
    let n = a.unicode_len();
    if n != b.unicode_len() {
        return false;
    }
    let mut i: usize = 0;
    while i < n
        invariant
            n == a@.len(),
            n == b@.len(),
            i <= n,
            forall|j: int| 0 <= j < i ==> a@[j] == b@[j],
        decreases n - i,
    {
        if a.get_char(i) != b.get_char(i) {
            return false;
        }
        i = i + 1;
    }
    proof {
        assert(a@ =~= b@);
    }
    true
}

/// The decimal digit character for `d` (meaningful for `d < 10`).
pub open spec fn dec_digit(d: nat) -> char {
    if d == 0 {
        '0'
    } else if d == 1 {
        '1'
    } else if d == 2 {
        '2'
    } else if d == 3 {
        '3'
    } else if d == 4 {
        '4'
    } else if d == 5 {
        '5'
    } else if d == 6 {
        '6'
    } else if d == 7 {
        '7'
    } else if d == 8 {
        '8'
    } else {
        '9'
    }
}

/// The decimal rendering of `n`, without sign or padding.
pub open spec fn dec_str(n: nat) -> Seq<char>
    decreases n,
{
    if n < 10 {
        seq![dec_digit(n)]
    } else {
        dec_str(n / 10).push(dec_digit(n % 10))
    }
}

fn digit_str(d: u64) -> (r: &'static str)
    requires
        d < 10,
    ensures
        r@ == seq![dec_digit(d as nat)],
{
    let r: &'static str = if d == 0 {
        "0"
    } else if d == 1 {
        "1"
    } else if d == 2 {
        "2"
    } else if d == 3 {
        "3"
    } else if d == 4 {
        "4"
    } else if d == 5 {
        "5"
    } else if d == 6 {
        "6"
    } else if d == 7 {
        "7"
    } else if d == 8 {
        "8"
    } else {
        "9"
    };
    proof {
        reveal_strlit("0");
        reveal_strlit("1");
        reveal_strlit("2");
        reveal_strlit("3");
        reveal_strlit("4");
        reveal_strlit("5");
        reveal_strlit("6");
        reveal_strlit("7");
        reveal_strlit("8");
        reveal_strlit("9");
        assert(r@ =~= seq![dec_digit(d as nat)]);
    }
    r
}

/// Appends the decimal rendering of `n` to `s`.
pub fn push_u64(s: &mut String, n: u64)
    ensures
        final(s)@ == old(s)@ + dec_str(n as nat),
    decreases n,
{
    if n >= 10 {
        push_u64(s, n / 10);
    }
    s.append(digit_str(n % 10));
    proof {
        assert(s@ =~= old(s)@ + dec_str(n as nat));
    }
}

/// The decimal rendering of `n`, as an owned string.
pub fn u64_to_string(n: u64) -> (r: String)
    ensures
        r@ == dec_str(n as nat),
{
    let mut s = String::new();
    push_u64(&mut s, n);
    proof {
        assert(s@ =~= dec_str(n as nat));
    }
    s
}

/// The two-character, zero-padded decimal rendering of `n` (for `n < 100`).
pub open spec fn dec2_str(n: nat) -> Seq<char> {
    seq![dec_digit(n / 10), dec_digit(n % 10)]
}

/// Appends the zero-padded two-digit rendering of `n` to `s`.
pub fn push_2digits(s: &mut String, n: u64)
    requires
        n < 100,
    ensures
        final(s)@ == old(s)@ + dec2_str(n as nat),
{
    s.append(digit_str(n / 10));
    s.append(digit_str(n % 10));
    proof {
        assert(s@ =~= old(s)@ + dec2_str(n as nat));
    }
}

/// The decimal rendering of a possibly negative number.
pub open spec fn dec_str_signed(n: int) -> Seq<char> {
    if n < 0 {
        seq!['-'] + dec_str((-n) as nat)
    } else {
        dec_str(n as nat)
    }
}

/// Appends the decimal rendering of `n`, with a leading minus sign when
/// `n` is negative.
pub fn push_i64(s: &mut String, n: i64)
    ensures
        final(s)@ == old(s)@ + dec_str_signed(n as int),
{
    if n < 0 {
        let m: i128 = -(n as i128);
        assert(0 < m <= u64::MAX);
        s.append("-");
        push_u64(s, m as u64);
        proof {
            reveal_strlit("-");
            assert(s@ =~= old(s)@ + dec_str_signed(n as int));
        }
    } else {
        push_u64(s, n as u64);
    }
}

/// The numeric value of a decimal digit character; ten for any other
/// character.
pub open spec fn digit_val(c: char) -> nat {
    if c == '0' {
        0
    } else if c == '1' {
        1
    } else if c == '2' {
        2
    } else if c == '3' {
        3
    } else if c == '4' {
        4
    } else if c == '5' {
        5
    } else if c == '6' {
        6
    } else if c == '7' {
        7
    } else if c == '8' {
        8
    } else if c == '9' {
        9
    } else {
        10
    }
}

pub open spec fn is_dec_digit(c: char) -> bool {
    digit_val(c) < 10
}

pub open spec fn all_digits(s: Seq<char>) -> bool {
    forall|i: int| 0 <= i < s.len() ==> is_dec_digit(s[i])
}

/// The numeric value of a string of decimal digits, most significant
/// digit first.
pub open spec fn dec_val(s: Seq<char>) -> nat
    decreases s.len(),
{
    if s.len() == 0 {
        0
    } else {
        dec_val(s.drop_last()) * 10 + digit_val(s.last())
    }
}

fn digit_of(c: char) -> (r: u64)
    ensures
        r == digit_val(c),
{
    if c == '0' {
        0
    } else if c == '1' {
        1
    } else if c == '2' {
        2
    } else if c == '3' {
        3
    } else if c == '4' {
        4
    } else if c == '5' {
        5
    } else if c == '6' {
        6
    } else if c == '7' {
        7
    } else if c == '8' {
        8
    } else if c == '9' {
        9
    } else {
        10
    }
}

proof fn lemma_dec_val_take_step(s: Seq<char>, j: int)
    requires
        0 <= j < s.len(),
    ensures
        dec_val(s.take(j + 1)) == dec_val(s.take(j)) * 10 + digit_val(s[j]),
        dec_val(s.take(j)) <= dec_val(s.take(j + 1)),
{
    assert(s.take(j + 1).drop_last() =~= s.take(j));
    assert(s.take(j + 1).last() == s[j]);
}

proof fn lemma_dec_val_take_le(s: Seq<char>, j: int)
    requires
        0 <= j <= s.len(),
    ensures
        dec_val(s.take(j)) <= dec_val(s),
    decreases s.len() - j,
{
    if j < s.len() {
        lemma_dec_val_take_step(s, j);
        lemma_dec_val_take_le(s, j + 1);
    } else {
        assert(s.take(j) =~= s);
    }
}

/// The value of a decimal-digit string: defined exactly when the string
/// is nonempty, wholly made of digits, and fits in a `u64`.
pub open spec fn parsed_u64(s: Seq<char>) -> Option<u64> {
    if s.len() > 0 && all_digits(s) && dec_val(s) <= u64::MAX {
        Some(dec_val(s) as u64)
    } else {
        None
    }
}

/// Parses a string of decimal digits.  Returns the value exactly when
/// the string is nonempty, wholly made of digits, and fits in a `u64`.
pub fn parse_u64(s: &str) -> (r: Option<u64>)
    ensures
        r is Some <==> (s@.len() > 0 && all_digits(s@) && dec_val(s@) <= u64::MAX),
        r is Some ==> r->0 as nat == dec_val(s@),
        r == parsed_u64(s@),
{
    let n = s.unicode_len();
    if n == 0 {
        return None;
    }
    let mut v: u64 = 0;
    let mut i: usize = 0;
    while i < n
        invariant
            n == s@.len(),
            i <= n,
            all_digits(s@.take(i as int)),
            v as nat == dec_val(s@.take(i as int)),
        decreases n - i,
    {
        let c = s.get_char(i);
        let d = digit_of(c);
        if d >= 10 {
            assert(!is_dec_digit(s@[i as int]));
            return None;
        }
        proof {
            lemma_dec_val_take_step(s@, i as int);
        }
        let next = match v.checked_mul(10) {
            Some(v10) => v10.checked_add(d),
            None => None,
        };
        match next {
            Some(v2) => {
                v = v2;
            },
            None => {
                proof {
                    assert(dec_val(s@.take(i as int + 1)) > u64::MAX);
                    lemma_dec_val_take_le(s@, i as int + 1);
                }
                return None;
            },
        }
        i = i + 1;
    }
    proof {
        assert(s@.take(n as int) =~= s@);
    }
    Some(v)
}

/// The words of `s`: the maximal runs of non-separator characters, in
/// order.
pub open spec fn words_of(s: Seq<char>) -> Seq<Seq<char>>
    decreases s.len(),
{
    if s.len() == 0 {
        Seq::empty()
    } else {
        let prefix = s.drop_last();
        let c = s.last();
        let w = words_of(prefix);
        if is_space_char(c) {
            w
        } else if prefix.len() > 0 && !is_space_char(prefix.last()) {
            w.update(w.len() - 1, w.last().push(c))
        } else {
            w.push(seq![c])
        }
    }
}

proof fn lemma_words_space_step(s: Seq<char>, i: int)
    requires
        0 <= i < s.len(),
        is_space_char(s[i]),
    ensures
        words_of(s.take(i + 1)) == words_of(s.take(i)),
{
    assert(s.take(i + 1).drop_last() =~= s.take(i));
}

/// Extending a word under construction: if `s[j..m]` is a nonempty run of
/// non-separator characters beginning at a word boundary, the words of
/// `s[..m]` are the words of `s[..j]` plus that run.
proof fn lemma_words_word_run(s: Seq<char>, j: int, m: int)
    requires
        0 <= j < m <= s.len(),
        j == 0 || is_space_char(s[j - 1]),
        forall|t: int| j <= t < m ==> !is_space_char(s[t]),
    ensures
        words_of(s.take(m)) == words_of(s.take(j)).push(s.subrange(j, m)),
    decreases m - j,
{
    assert(s.take(m).drop_last() =~= s.take(m - 1));
    assert(s.take(m).last() == s[m - 1]);
    if m == j + 1 {
        if j > 0 {
            assert(s.take(m).drop_last().last() == s[j - 1]);
        }
        assert(s.subrange(j, m) =~= seq![s[j]]);
        assert(words_of(s.take(m)) == words_of(s.take(j)).push(s.subrange(j, m)));
    } else {
        lemma_words_word_run(s, j, m - 1);
        assert(s.take(m).drop_last().last() == s[m - 2]);
        assert(!is_space_char(s[m - 2]));
        let w = words_of(s.take(m - 1));
        assert(w == words_of(s.take(j)).push(s.subrange(j, m - 1)));
        assert(w.len() == words_of(s.take(j)).len() + 1);
        assert(w.last() == s.subrange(j, m - 1));
        assert(s.subrange(j, m - 1).push(s[m - 1]) =~= s.subrange(j, m));
        assert(words_of(s.take(m)) =~= words_of(s.take(j)).push(s.subrange(j, m)));
    }
}

/// Splits `s` into its words.
pub fn tokenize(s: &str) -> (r: Vec<String>)
    ensures
        r.deep_view() == words_of(s@),
{
    let n = s.unicode_len();
    let mut r: Vec<String> = Vec::new();
    let mut i: usize = 0;
    while i < n
        invariant
            n == s@.len(),
            i <= n,
            r.deep_view() == words_of(s@.take(i as int)),
            i == 0 || i == n || is_space_char(s@[i as int - 1]) || is_space_char(s@[i as int]),
        decreases n - i,
    {
        let c = s.get_char(i);
        if is_space(c) {
            proof {
                lemma_words_space_step(s@, i as int);
            }
            i = i + 1;
        } else {
            // scan to the end of the word starting at i
            let start = i;
            let mut j = i + 1;
            while j < n
                invariant
                    n == s@.len(),
                    start < j <= n,
                    forall|t: int| start <= t < j ==> !is_space_char(s@[t]),
                ensures
                    start < j <= n,
                    forall|t: int| start <= t < j ==> !is_space_char(s@[t]),
                    j == n || is_space_char(s@[j as int]),
                decreases n - j,
            {
                if is_space(s.get_char(j)) {
                    break;
                }
                j = j + 1;
            }
            let word = s.substring_char(start, j);
            r.push(String::from_str(word));
            proof {
                lemma_words_word_run(s@, start as int, j as int);
                assert(r.deep_view() =~= words_of(s@.take(j as int)));
            }
            i = j;
        }
    }
    proof {
        assert(s@.take(n as int) =~= s@);
    }
    r
}

/// The characters before the first `.`, or all of `s` if it has none.
pub open spec fn before_dot(s: Seq<char>) -> Seq<char>
    decreases s.len(),
{
    if s.len() == 0 {
        s
    } else if s[0] == '.' {
        Seq::empty()
    } else {
        seq![s[0]] + before_dot(s.drop_first())
    }
}

proof fn lemma_before_dot_at(s: Seq<char>, k: int)
    requires
        0 <= k <= s.len(),
        forall|t: int| 0 <= t < k ==> s[t] != '.',
        k == s.len() || s[k] == '.',
    ensures
        before_dot(s) == s.take(k),
    decreases k,
{
    if k == 0 {
        assert(s.take(0) =~= Seq::<char>::empty());
        if s.len() > 0 {
            assert(s[0] == '.');
        } else {
            assert(before_dot(s) =~= s.take(0));
        }
    } else {
        let rest = s.drop_first();
        assert(forall|t: int| 0 <= t < k - 1 ==> rest[t] != '.');
        lemma_before_dot_at(rest, k - 1);
        assert(seq![s[0]] + rest.take(k - 1) =~= s.take(k));
    }
}

/// The slice of `w` before its first `.`.
pub fn integer_prefix<'a>(w: &'a str) -> (r: &'a str)
    ensures
        r@ == before_dot(w@),
{
    let n = w.unicode_len();
    let mut k: usize = 0;
    while k < n
        invariant
            n == w@.len(),
            k <= n,
            forall|t: int| 0 <= t < k ==> w@[t] != '.',
        decreases n - k,
    {
        if w.get_char(k) == '.' {
            proof {
                lemma_before_dot_at(w@, k as int);
            }
            return w.substring_char(0, k);
        }
        k = k + 1;
    }
    proof {
        lemma_before_dot_at(w@, n as int);
        assert(w@.take(n as int) =~= w@);
    }
    w
}

/// The parts joined by single spaces, in order.
pub open spec fn join_spaces(parts: Seq<Seq<char>>) -> Seq<char>
    decreases parts.len(),
{
    if parts.len() == 0 {
        Seq::empty()
    } else if parts.len() == 1 {
        parts[0]
    } else {
        join_spaces(parts.drop_last()) + seq![' '] + parts.last()
    }
}

/// Joins the parts with single spaces.
pub fn join_with_spaces(parts: &Vec<String>) -> (r: String)
    ensures
        r@ == join_spaces(parts.deep_view()),
{
    let mut r = String::new();
    let mut i: usize = 0;
    while i < parts.len()
        invariant
            i <= parts.len(),
            r@ == join_spaces(parts.deep_view().take(i as int)),
        decreases parts.len() - i,
    {
        if i > 0 {
            r.append(" ");
        }
        r.append(parts[i].as_str());
        proof {
            reveal_strlit(" ");
            let dv = parts.deep_view();
            assert(dv.take(i as int + 1).drop_last() =~= dv.take(i as int));
            assert(dv.take(i as int + 1).last() == dv[i as int]);
            if i == 0 {
                assert(dv.take(1)[0] == dv[0]);
                assert(r@ =~= join_spaces(dv.take(i as int + 1)));
            } else {
                assert(r@ =~= join_spaces(dv.take(i as int + 1)));
            }
        }
        i = i + 1;
    }
    proof {
        assert(parts.deep_view().take(parts.len() as int) =~= parts.deep_view());
    }
    r
}

} // verus!
