//! The hotkey grammar: split a specification on `+`, trim and upper-case
//! each token, resolve modifier aliases, rewrite bare numbers, map shifted
//! symbols and punctuation, and look the rest up by exact key name.
//!
//! Case folding is ASCII only: `a..z` are lifted to `A..Z` and every other
//! character is kept as it is. A token written with a non-ASCII letter is
//! never a canonical name and is rejected as unknown.

use vstd::prelude::*;
use vstd::string::StringExecFns;
use crate::keys::{
    Key, Modifier, modifier_token, modifier_token_spec, shifted_symbol, shifted_symbol_spec,
    plain_alias, plain_alias_spec, key_from_name, key_from_name_spec,
};
use crate::text::{
    all_digits, clean_token, digits_val, find_char, is_digit_char, is_numeric_token, is_ws_char,
    lemma_all_digits_forall, lemma_find_char_at, lemma_find_char_absent, push_char, split_char,
    str_chars, trim_end_spec, trim_start_spec, trim_spec, upper_char, upper_seq,
};
use crate::hotkey::{Hotkey, contains_modifier};
use crate::Error;

verus! {

/// What running the grammar over a whole specification yields: a parsed
/// hotkey, or the first hard error in token order.
pub enum ParseOutcome {
    Parsed { modifiers: Seq<Modifier>, keys: Seq<Key> },
    DupKey { raw: Seq<char> },
    UnknownKey { token: Seq<char> },
    NoKey,
}

/// Bare numbers that fit a machine word are retried as `KEY_`-prefixed names.
pub open spec fn numeric_rewrite(t: Seq<char>) -> Seq<char> {
    if is_numeric_token(t) {
        "KEY_"@ + t
    } else {
        t
    }
}

/// The SHIFT modifier is appended at the end when a shifted symbol occurred
/// and SHIFT was not spelled out; then at least one key must remain.
pub open spec fn finish_tokens(ms: Seq<Modifier>, ks: Seq<Key>, shifted: bool) -> ParseOutcome {
    let ms2 = if shifted && !ms.contains(Modifier::SHIFT) {
        ms.push(Modifier::SHIFT)
    } else {
        ms
    };
    if ks.len() == 0 {
        ParseOutcome::NoKey
    } else {
        ParseOutcome::Parsed { modifiers: ms2, keys: ks }
    }
}

/// One token at a time: skip empties, collect modifiers, resolve keys in
/// table order, and stop on a duplicate or unknown key.
pub open spec fn process_tokens(
    raws: Seq<Seq<char>>,
    ms: Seq<Modifier>,
    ks: Seq<Key>,
    shifted: bool,
) -> ParseOutcome
    decreases raws.len(),
{
    if raws.len() == 0 {
        finish_tokens(ms, ks, shifted)
    } else {
        let raw = raws[0];
        let tok = clean_token(raw);
        if tok.len() == 0 {
            process_tokens(raws.drop_first(), ms, ks, shifted)
        } else {
            match modifier_token_spec(tok) {
                Some(m) => process_tokens(raws.drop_first(), ms.push(m), ks, shifted),
                None => {
                    let tok2 = numeric_rewrite(tok);
                    match shifted_symbol_spec(tok2) {
                        Some(k) => if ks.contains(k) {
                            ParseOutcome::DupKey { raw: upper_seq(raw) }
                        } else {
                            process_tokens(raws.drop_first(), ms, ks.push(k), true)
                        },
                        None => match plain_alias_spec(tok2) {
                            Some(k) => if ks.contains(k) {
                                ParseOutcome::DupKey { raw: upper_seq(raw) }
                            } else {
                                process_tokens(raws.drop_first(), ms, ks.push(k), shifted)
                            },
                            None => match key_from_name_spec(tok2) {
                                Some(k) => if ks.contains(k) {
                                    ParseOutcome::DupKey { raw: upper_seq(raw) }
                                } else {
                                    process_tokens(raws.drop_first(), ms, ks.push(k), shifted)
                                },
                                None => ParseOutcome::UnknownKey { token: tok2 },
                            },
                        },
                    }
                },
            }
        }
    }
}

/// What parsing a whole specification string yields.
pub open spec fn parse_spec(s: Seq<char>) -> ParseOutcome {
    process_tokens(split_char(s, '+'), Seq::empty(), Seq::empty(), false)
}

pub open spec fn dup_key_message(raw: Seq<char>) -> Seq<char> {
    "duplicated key "@ + raw
}

pub open spec fn unknown_key_message(token: Seq<char>) -> Seq<char> {
    "unknown key "@ + token
}

pub open spec fn no_key_message() -> Seq<char> {
    "hotkey has no key specified"@
}

fn is_ws(c: char) -> (r: bool)
    ensures
        r == is_ws_char(c),
{
    c == ' ' || c == '\t' || c == '\n' || c == '\r'
}

/// The token list of a specification: its text split at every `+`.
fn split_plus(chars: &Vec<char>) -> (r: Vec<Vec<char>>)
    ensures
        r@.map_values(|v: Vec<char>| v@) == split_char(chars@, '+'),
{
    let mut out: Vec<Vec<char>> = Vec::new();
    let mut cur: Vec<char> = Vec::new();
    let mut i: usize = 0;
    proof {
        assert(chars@.skip(0) =~= chars@);
        assert(out@.map_values(|v: Vec<char>| v@) + split_char(chars@, '+')
            =~= split_char(chars@, '+'));
        assert(cur@ =~= chars@.subrange(0, 0));
    }
    while i < chars.len()
        invariant
            i <= chars@.len(),
            cur@.len() <= i,
            cur@ == chars@.subrange(i - cur@.len(), i as int),
            forall|j: int| 0 <= j < cur@.len() ==> cur@[j] != '+',
            split_char(chars@, '+') == out@.map_values(|v: Vec<char>| v@)
                + split_char(chars@.skip(i - cur@.len()), '+'),
        decreases chars@.len() - i,
    {
        let c = chars[i];
        if c == '+' {
            let ghost prev = out@;
            let ghost cv = cur@;
            proof {
                let rest = chars@.skip(i - cv.len());
                assert(rest[cv.len() as int] == '+');
                assert(forall|j: int| 0 <= j < cv.len() ==> rest[j] == cv[j]);
                lemma_find_char_at(rest, '+', cv.len() as int);
                assert(rest.take(cv.len() as int) =~= cv);
                assert(rest.skip(cv.len() as int + 1) =~= chars@.skip(i + 1));
            }
            out.push(cur);
            cur = Vec::new();
            proof {
                assert(out@.map_values(|v: Vec<char>| v@)
                    =~= prev.map_values(|v: Vec<char>| v@).push(cv));
                assert(prev.map_values(|v: Vec<char>| v@).push(cv)
                    + split_char(chars@.skip(i + 1), '+')
                    =~= prev.map_values(|v: Vec<char>| v@)
                        + (seq![cv] + split_char(chars@.skip(i + 1), '+')));
                assert(cur@ =~= chars@.subrange(i + 1, i + 1));
            }
        } else {
            cur.push(c);
            proof {
                assert(cur@ =~= chars@.subrange(i + 1 - cur@.len(), i + 1));
            }
        }
        i = i + 1;
    }
    let ghost prev = out@;
    let ghost cv = cur@;
    proof {
        let rest = chars@.skip(i - cv.len());
        assert(forall|j: int| 0 <= j < rest.len() ==> rest[j] == cv[j]);
        lemma_find_char_absent(rest, '+');
        assert(rest =~= cv);
    }
    out.push(cur);
    proof {
        assert(out@.map_values(|v: Vec<char>| v@)
            =~= prev.map_values(|v: Vec<char>| v@).push(cv));
        assert(prev.map_values(|v: Vec<char>| v@).push(cv)
            =~= prev.map_values(|v: Vec<char>| v@) + seq![cv]);
    }
    out
}

/// ASCII upper-casing of a token.
fn to_upper(t: &[char]) -> (r: Vec<char>)
    ensures
        r@ == upper_seq(t@),
{
    let mut out: Vec<char> = Vec::new();
    let mut i: usize = 0;
    while i < t.len()
        invariant
            i <= t@.len(),
            out@.len() == i,
            forall|j: int| 0 <= j < i ==> out@[j] == upper_char(t@[j]),
        decreases t@.len() - i,
    {
        let c = t[i];
        if 'a' <= c && c <= 'z' {
            proof {
                assert(c as u8 >= 97 && c as u8 <= 122);
            }
            out.push(((c as u8) - 32) as char);
        } else {
            out.push(c);
        }
        i = i + 1;
    }
    proof {
        assert(out@ =~= upper_seq(t@));
    }
    out
}

/// Both ends of a token stripped of ASCII whitespace.
fn trim_chars(t: &[char]) -> (r: Vec<char>)
    ensures
        r@ == trim_spec(t@),
{
    let mut start: usize = 0;
    proof {
        assert(t@.skip(0) =~= t@);
    }
    while start < t.len() && is_ws(t[start])
        invariant
            start <= t@.len(),
            trim_start_spec(t@) == trim_start_spec(t@.skip(start as int)),
        decreases t@.len() - start,
    {
        proof {
            assert(t@.skip(start as int).drop_first() =~= t@.skip(start as int + 1));
        }
        start = start + 1;
    }
    proof {
        if start < t@.len() {
            assert(trim_start_spec(t@.skip(start as int)) == t@.skip(start as int));
        } else {
            assert(t@.skip(start as int) =~= Seq::<char>::empty());
        }
    }
    let mut end: usize = t.len();
    while end > start && is_ws(t[end - 1])
        invariant
            start <= end <= t@.len(),
            trim_start_spec(t@) == t@.skip(start as int),
            trim_end_spec(t@.skip(start as int)) == trim_end_spec(t@.subrange(start as int, end as int)),
        decreases end,
    {
        proof {
            let sub = t@.subrange(start as int, end as int);
            assert(sub.last() == t@[end - 1]);
            assert(sub.drop_last() =~= t@.subrange(start as int, end - 1));
        }
        end = end - 1;
    }
    proof {
        let sub = t@.subrange(start as int, end as int);
        if end > start {
            assert(sub.last() == t@[end - 1]);
            assert(trim_end_spec(sub) == sub);
        } else {
            assert(sub =~= Seq::<char>::empty());
        }
    }
    let mut out: Vec<char> = Vec::new();
    let mut i: usize = start;
    while i < end
        invariant
            start <= i <= end <= t@.len(),
            out@ == t@.subrange(start as int, i as int),
        decreases end - i,
    {
        out.push(t[i]);
        proof {
            assert(out@ =~= t@.subrange(start as int, i + 1));
        }
        i = i + 1;
    }
    proof {
        assert(out@ == t@.subrange(start as int, end as int));
    }
    out
}

/// Whether the token is a bare number small enough for a machine word, as
/// `str::parse` to an unsigned word would accept it.
fn is_numeric(t: &[char]) -> (r: bool)
    ensures
        r == is_numeric_token(t@),
{
    if t.len() == 0 {
        return false;
    }
    let mut val: u64 = 0;
    let mut big = false;
    let mut i: usize = 0;
    while i < t.len()
        invariant
            i <= t@.len(),
            forall|j: int| 0 <= j < i ==> is_digit_char(t@[j]),
            !big ==> val == digits_val(t@.take(i as int)),
            big ==> digits_val(t@.take(i as int)) > u64::MAX,
        decreases t@.len() - i,
    {
        let c = t[i];
        if !('0' <= c && c <= '9') {
            proof {
                lemma_all_digits_forall(t@);
            }
            return false;
        }
        let d: u64 = ((c as u8) - 48) as u64;
        proof {
            let p = t@.take(i as int + 1);
            assert(p.drop_last() =~= t@.take(i as int));
            assert(p.last() == t@[i as int]);
            assert(c as int >= 48 && c as int <= 57);
            assert(d as int == c as int - 48);
            assert(digits_val(p) == digits_val(t@.take(i as int)) * 10 + (d as int));
        }
        if big {
            proof {
                assert(digits_val(t@.take(i as int)) * 10 > 10 * (u64::MAX as int));
            }
        } else if val > (u64::MAX - d) / 10 {
            proof {
                let q: int = (u64::MAX as int - d as int) / 10;
                assert(10 * q + 9 >= u64::MAX as int - d as int);
                assert(val as int >= q + 1);
                assert(digits_val(t@.take(i as int)) * 10 + d as int > u64::MAX as int);
            }
            big = true;
        } else {
            proof {
                let q: int = (u64::MAX as int - d as int) / 10;
                assert(10 * q <= u64::MAX as int - d as int);
                assert(val as int <= q);
                assert(val as int * 10 + d as int <= u64::MAX as int);
            }
            val = val * 10 + d;
        }
        i = i + 1;
    }
    proof {
        assert(t@.take(t@.len() as int) =~= t@);
        lemma_all_digits_forall(t@);
    }
    !big
}

/// The token after the bare-number rewrite, untouched when not numeric.
fn rewrite_numeric(t: Vec<char>) -> (r: Vec<char>)
    ensures
        r@ == numeric_rewrite(t@),
{
    if !is_numeric(t.as_slice()) {
        return t;
    }
    let mut out: Vec<char> = Vec::new();
    out.push('K');
    out.push('E');
    out.push('Y');
    out.push('_');
    proof {
        reveal_strlit("KEY_");
        assert(("KEY_"@).len() == 4);
        assert(("KEY_"@)[0] == 'K' && ("KEY_"@)[1] == 'E' && ("KEY_"@)[2] == 'Y'
            && ("KEY_"@)[3] == '_');
        assert(out@ =~= "KEY_"@);
    }
    let mut i: usize = 0;
    while i < t.len()
        invariant
            i <= t@.len(),
            out@ == "KEY_"@ + t@.take(i as int),
        decreases t@.len() - i,
    {
        out.push(t[i]);
        proof {
            assert(out@ =~= "KEY_"@ + t@.take(i + 1));
        }
        i = i + 1;
    }
    proof {
        assert(out@ =~= "KEY_"@ + t@);
    }
    out
}

fn contains_key(ks: &Vec<Key>, k: Key) -> (r: bool)
    ensures
        r == ks@.contains(k),
{
    let mut i: usize = 0;
    while i < ks.len()
        invariant
            i <= ks@.len(),
            forall|j: int| 0 <= j < i ==> ks@[j] != k,
        decreases ks@.len() - i,
    {
        if ks[i] == k {
            return true;
        }
        i = i + 1;
    }
    false
}

/// A parse-error payload: the fixed prefix followed by the token text.
fn build_message(prefix: &str, part: &[char]) -> (r: String)
    ensures
        r@ == prefix@ + part@,
{
    let mut out = String::from_str(prefix);
    let mut i: usize = 0;
    while i < part.len()
        invariant
            i <= part@.len(),
            out@ == prefix@ + part@.take(i as int),
        decreases part@.len() - i,
    {
        push_char(&mut out, part[i]);
        proof {
            assert(out@ =~= prefix@ + part@.take(i + 1));
        }
        i = i + 1;
    }
    proof {
        assert(out@ =~= prefix@ + part@);
    }
    out
}

/// Turns a human-written hotkey specification into its canonical `Hotkey`
/// value, or reports the first duplicate key, the first unknown token, or
/// the absence of any key, exactly as the grammar prescribes. Tokens are
/// upper-cased ASCII-wise: mixed-case ASCII spellings all parse alike,
/// while non-ASCII letters are left alone and end as unknown tokens.
pub fn parse_hotkey(hotkey_string: &str) -> (r: Result<Hotkey, Error>)
    ensures
        match parse_spec(hotkey_string@) {
            ParseOutcome::Parsed { modifiers, keys } => r matches Ok(h) && h@.modifiers
                == modifiers && h@.keys == keys,
            ParseOutcome::DupKey { raw } => r matches Err(Error::InvalidHotkey(m)) && m@
                == dup_key_message(raw),
            ParseOutcome::UnknownKey { token } => r matches Err(Error::InvalidHotkey(m)) && m@
                == unknown_key_message(token),
            ParseOutcome::NoKey => r matches Err(Error::InvalidHotkey(m)) && m@
                == no_key_message(),
        },
{
    let chars = str_chars(hotkey_string);
    let raws = split_plus(&chars);
    let ghost raw_seq = raws@.map_values(|v: Vec<char>| v@);
    let mut ms: Vec<Modifier> = Vec::new();
    let mut ks: Vec<Key> = Vec::new();
    let mut shifted = false;
    let mut idx: usize = 0;
    proof {
        assert(raw_seq.skip(0) =~= raw_seq);
    }
    while idx < raws.len()
        invariant
            idx <= raws@.len(),
            raw_seq == raws@.map_values(|v: Vec<char>| v@),
            parse_spec(hotkey_string@) == process_tokens(
                raw_seq.skip(idx as int),
                ms@,
                ks@,
                shifted,
            ),
        decreases raws@.len() - idx,
    {
        let ghost rest = raw_seq.skip(idx as int);
        proof {
            assert(rest[0] == raws@[idx as int]@);
            assert(rest.drop_first() =~= raw_seq.skip(idx as int + 1));
        }
        let up = to_upper(raws[idx].as_slice());
        let tok = trim_chars(up.as_slice());
        proof {
            assert(tok@ == clean_token(rest[0]));
        }
        if tok.len() == 0 {
            idx = idx + 1;
            continue;
        }
        match modifier_token(tok.as_slice()) {
            Some(m) => {
                ms.push(m);
                idx = idx + 1;
                continue;
            },
            None => {},
        }
        let tok2 = rewrite_numeric(tok);
        let resolved: Option<Key>;
        let mut symbol_hit = false;
        match shifted_symbol(tok2.as_slice()) {
            Some(k) => {
                resolved = Some(k);
                symbol_hit = true;
            },
            None => {
                match plain_alias(tok2.as_slice()) {
                    Some(k) => {
                        resolved = Some(k);
                    },
                    None => {
                        resolved = key_from_name(tok2.as_slice());
                    },
                }
            },
        }
        match resolved {
            Some(k) => {
                if contains_key(&ks, k) {
                    let msg = build_message("duplicated key ", up.as_slice());
                    return Err(Error::InvalidHotkey(msg));
                }
                ks.push(k);
                if symbol_hit {
                    shifted = true;
                }
            },
            None => {
                let msg = build_message("unknown key ", tok2.as_slice());
                return Err(Error::InvalidHotkey(msg));
            },
        }
        idx = idx + 1;
    }
    proof {
        assert(raw_seq.skip(raws@.len() as int) =~= Seq::<Seq<char>>::empty());
    }
    if shifted && !contains_modifier(&ms, Modifier::SHIFT) {
        ms.push(Modifier::SHIFT);
    }
    if ks.len() == 0 {
        let msg = String::from_str("hotkey has no key specified");
        return Err(Error::InvalidHotkey(msg));
    }
    Ok(Hotkey { modifiers: ms, keys: ks })
}

} // verus!
