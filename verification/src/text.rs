//! Character-level helpers shared by the hotkey parser and printer:
//! ASCII upper-casing, whitespace trimming, splitting on a separator
//! character and the inverse join, with the lemmas that relate them.

use vstd::prelude::*;
use vstd::string::StrSliceExecFns;

verus! {

/// ASCII whitespace, the only whitespace the tokenizer strips.
pub open spec fn is_ws_char(c: char) -> bool {
    c == ' ' || c == '\t' || c == '\n' || c == '\r'
}

pub open spec fn is_digit_char(c: char) -> bool {
    '0' <= c && c <= '9'
}

/// Characters that canonical token names are made of.
pub open spec fn is_plain_char(c: char) -> bool {
    ('A' <= c && c <= 'Z') || is_digit_char(c) || c == '_'
}

/// ASCII upper-casing of a single character; anything outside `a..z` is kept.
pub open spec fn upper_char(c: char) -> char {
    if 'a' <= c && c <= 'z' {
        (((c as u8) - 32) as char)
    } else {
        c
    }
}

/// Every character of `s` is a plain name character.
pub open spec fn plain_seq(s: Seq<char>) -> bool
    decreases s.len(),
{
    s.len() == 0 || (is_plain_char(s[0]) && plain_seq(s.drop_first()))
}

pub proof fn lemma_plain_seq_index(s: Seq<char>, i: int)
    requires
        plain_seq(s),
        0 <= i < s.len(),
    ensures
        is_plain_char(s[i]),
    decreases i,
{
    if i > 0 {
        lemma_plain_seq_index(s.drop_first(), i - 1);
    }
}

/// Character-wise ASCII upper-casing of a sequence.
pub open spec fn upper_seq(s: Seq<char>) -> Seq<char> {
    Seq::new(s.len(), |i: int| upper_char(s[i]))
}

pub proof fn lemma_upper_seq_plain(s: Seq<char>)
    requires
        plain_seq(s),
    ensures
        upper_seq(s) == s,
{
    assert forall|i: int| 0 <= i < s.len() implies upper_seq(s)[i] == s[i] by {
        lemma_plain_seq_index(s, i);
    }
    assert(upper_seq(s) =~= s);
}

pub open spec fn trim_start_spec(s: Seq<char>) -> Seq<char>
    decreases s.len(),
{
    if s.len() > 0 && is_ws_char(s[0]) {
        trim_start_spec(s.drop_first())
    } else {
        s
    }
}

pub open spec fn trim_end_spec(s: Seq<char>) -> Seq<char>
    decreases s.len(),
{
    if s.len() > 0 && is_ws_char(s.last()) {
        trim_end_spec(s.drop_last())
    } else {
        s
    }
}

/// What `str::trim` does to an ASCII-whitespace-padded token.
pub open spec fn trim_spec(s: Seq<char>) -> Seq<char> {
    trim_end_spec(trim_start_spec(s))
}

/// A raw token as the parser sees it: upper-cased, then trimmed.
pub open spec fn clean_token(s: Seq<char>) -> Seq<char> {
    trim_spec(upper_seq(s))
}

pub proof fn lemma_trim_plain(s: Seq<char>)
    requires
        plain_seq(s),
    ensures
        trim_spec(s) == s,
{
    if s.len() > 0 {
        lemma_plain_seq_index(s, 0);
        lemma_plain_seq_index(s, s.len() - 1);
    }
}

pub proof fn lemma_clean_token_plain(s: Seq<char>)
    requires
        plain_seq(s),
    ensures
        clean_token(s) == s,
{
    lemma_upper_seq_plain(s);
    lemma_trim_plain(s);
}

/// Every character of `s` is a decimal digit.
pub open spec fn all_digits(s: Seq<char>) -> bool
    decreases s.len(),
{
    s.len() == 0 || (is_digit_char(s[0]) && all_digits(s.drop_first()))
}

pub proof fn lemma_all_digits_forall(s: Seq<char>)
    ensures
        all_digits(s) <==> (forall|j: int| 0 <= j < s.len() ==> is_digit_char(s[j])),
    decreases s.len(),
{
    if s.len() > 0 {
        lemma_all_digits_forall(s.drop_first());
        if all_digits(s) {
            assert forall|j: int| 0 <= j < s.len() implies is_digit_char(s[j]) by {
                if j > 0 {
                    assert(is_digit_char(s.drop_first()[j - 1]));
                }
            }
        }
        if forall|j: int| 0 <= j < s.len() ==> is_digit_char(s[j]) {
            assert forall|j: int| 0 <= j < s.drop_first().len()
                implies is_digit_char(s.drop_first()[j]) by {
                assert(s.drop_first()[j] == s[j + 1]);
            }
            assert(all_digits(s.drop_first()));
            assert(is_digit_char(s[0]));
        }
    }
}

/// The number spelled by a digit sequence, most significant digit first.
pub open spec fn digits_val(s: Seq<char>) -> nat
    decreases s.len(),
{
    if s.len() == 0 {
        0
    } else {
        (digits_val(s.drop_last()) * 10 + (s.last() as int - 48)) as nat
    }
}

/// A token that the number reader accepts: nonempty, all digits, and small
/// enough for a 64-bit machine word.
pub open spec fn is_numeric_token(s: Seq<char>) -> bool {
    s.len() > 0 && all_digits(s) && digits_val(s) <= u64::MAX
}

/// Index of the first occurrence of `c` in `s`, or `s.len()` if absent.
pub open spec fn find_char(s: Seq<char>, c: char) -> int
    decreases s.len(),
{
    if s.len() == 0 {
        0
    } else if s[0] == c {
        0
    } else {
        1 + find_char(s.drop_first(), c)
    }
}

pub proof fn lemma_find_char_first(s: Seq<char>, c: char)
    ensures
        0 <= find_char(s, c) <= s.len(),
        forall|j: int| 0 <= j < find_char(s, c) ==> s[j] != c,
        find_char(s, c) < s.len() ==> s[find_char(s, c)] == c,
    decreases s.len(),
{
    if s.len() > 0 && s[0] != c {
        lemma_find_char_first(s.drop_first(), c);
        assert forall|j: int| 0 <= j < find_char(s, c) implies s[j] != c by {
            if j > 0 {
                assert(s.drop_first()[j - 1] != c);
            }
        }
    }
}

pub proof fn lemma_find_char_at(s: Seq<char>, c: char, i: int)
    requires
        0 <= i < s.len(),
        s[i] == c,
        forall|j: int| 0 <= j < i ==> s[j] != c,
    ensures
        find_char(s, c) == i,
{
    lemma_find_char_first(s, c);
    if find_char(s, c) < i {
        assert(s[find_char(s, c)] == c);
    }
    if find_char(s, c) > i {
        assert(s[i] != c);
    }
}

pub proof fn lemma_find_char_absent(s: Seq<char>, c: char)
    requires
        forall|j: int| 0 <= j < s.len() ==> s[j] != c,
    ensures
        find_char(s, c) == s.len(),
{
    lemma_find_char_first(s, c);
    if find_char(s, c) < s.len() {
        assert(s[find_char(s, c)] == c);
    }
}

/// Split `s` at every occurrence of `c`; an empty `s` gives one empty part.
pub open spec fn split_char(s: Seq<char>, c: char) -> Seq<Seq<char>>
    decreases s.len(),
{
    let i = find_char(s, c);
    if 0 <= i && i < s.len() {
        seq![s.take(i)] + split_char(s.skip(i + 1), c)
    } else {
        seq![s]
    }
}

/// Join `parts` with `c` between consecutive parts.
pub open spec fn join_char(parts: Seq<Seq<char>>, c: char) -> Seq<char>
    decreases parts.len(),
{
    if parts.len() == 0 {
        Seq::empty()
    } else if parts.len() == 1 {
        parts[0]
    } else {
        parts[0] + seq![c] + join_char(parts.drop_first(), c)
    }
}

/// Joining one more part appends a separator and that part.
pub proof fn lemma_join_push(parts: Seq<Seq<char>>, p: Seq<char>, c: char)
    ensures
        join_char(parts.push(p), c) == if parts.len() == 0 {
            p
        } else {
            join_char(parts, c) + seq![c] + p
        },
    decreases parts.len(),
{
    if parts.len() == 0 {
        assert(parts.push(p)[0] == p);
    } else if parts.len() == 1 {
        assert(parts.push(p)[0] == parts[0]);
        assert(parts.push(p).drop_first() =~= seq![p]);
        assert(join_char(seq![p], c) == p);
    } else {
        assert(parts.push(p).drop_first() =~= parts.drop_first().push(p));
        lemma_join_push(parts.drop_first(), p, c);
        assert(parts.push(p)[0] == parts[0]);
        assert(join_char(parts.push(p), c)
            == parts[0] + seq![c] + (join_char(parts.drop_first(), c) + seq![c] + p));
        assert(parts[0] + seq![c] + (join_char(parts.drop_first(), c) + seq![c] + p)
            =~= (parts[0] + seq![c] + join_char(parts.drop_first(), c)) + seq![c] + p);
    }
}

/// Splitting undoes joining, for nonempty part lists whose parts are free of
/// the separator.
pub proof fn lemma_split_join(parts: Seq<Seq<char>>, c: char)
    requires
        parts.len() > 0,
        forall|p: int, j: int|
            0 <= p < parts.len() && 0 <= j < parts[p].len() ==> parts[p][j] != c,
    ensures
        split_char(join_char(parts, c), c) == parts,
    decreases parts.len(),
{
    let s = join_char(parts, c);
    if parts.len() == 1 {
        assert(forall|j: int| 0 <= j < s.len() ==> s[j] != c);
        lemma_find_char_absent(s, c);
        assert(split_char(s, c) =~= seq![parts[0]]);
        assert(seq![parts[0]] =~= parts);
    } else {
        let p0 = parts[0];
        let rest = join_char(parts.drop_first(), c);
        assert(s == p0 + seq![c] + rest);
        assert(s[p0.len() as int] == c);
        assert(forall|j: int| 0 <= j < p0.len() ==> s[j] == p0[j] && p0[j] != c);
        lemma_find_char_at(s, c, p0.len() as int);
        assert(s.take(p0.len() as int) =~= p0);
        assert(s.skip(p0.len() as int + 1) =~= rest);
        assert forall|p: int, j: int|
            0 <= p < parts.drop_first().len() && 0 <= j < parts.drop_first()[p].len()
            implies parts.drop_first()[p][j] != c by {
            assert(parts.drop_first()[p] == parts[p + 1]);
        }
        lemma_split_join(parts.drop_first(), c);
        assert(split_char(s, c) =~= seq![p0] + parts.drop_first());
        assert(seq![p0] + parts.drop_first() =~= parts);
    }
}

/// The characters of `s`, in order, as a vector.
pub fn str_chars(s: &str) -> (r: Vec<char>)
    ensures
        r@ == s@,
{
    let n: usize = s.unicode_len();
    let mut out: Vec<char> = Vec::new();
    let mut i: usize = 0;
    while i < n
        invariant
            n == s@.len(),
            i <= n,
            out@ == s@.take(i as int),
        decreases n - i,
    {
        let c = s.get_char(i);
        out.push(c);
        i = i + 1;
        assert(out@ =~= s@.take(i as int));
    }
    assert(out@ =~= s@);
    out
}

/// Whether the characters of `t` spell exactly `s`.
pub fn token_eq(t: &[char], s: &str) -> (r: bool)
    ensures
        r == (t@ == s@),
{
    let n: usize = s.unicode_len();
    if t.len() != n {
        return false;
    }
    let mut i: usize = 0;
    while i < n
        invariant
            n == s@.len(),
            t@.len() == n,
            i <= n,
            forall|j: int| 0 <= j < i ==> t@[j] == s@[j],
        decreases n - i,
    {
        if t[i] != s.get_char(i) {
            return false;
        }
        i = i + 1;
    }
    proof {
        assert(t@ =~= s@);
    }
    true
}

/// Relies on `String::push`: appends one character at the end.
#[verifier::external_body]
pub fn push_char(s: &mut String, c: char)
    ensures
        final(s)@ == old(s)@.push(c),
{
    s.push(c);
}

} // verus!
