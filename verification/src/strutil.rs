//! Verified utilities on character sequences: conversion between
//! `&str`/`String` and `Vec<char>`, splitting on a separator,
//! substring search, whitespace trimming and decimal parsing.

use vstd::prelude::*;

verus! {

use vstd::std_specs::iter::IteratorSpec;

/// The view of a sequence of character vectors: each vector replaced
/// by the sequence of its characters.
pub open spec fn views_of(v: Seq<Vec<char>>) -> Seq<Seq<char>> {
    v.map_values(|p: Vec<char>| p@)
}

/// The view of a sequence of strings: each string replaced by the
/// sequence of its characters.
pub open spec fn str_views(v: Seq<String>) -> Seq<Seq<char>> {
    v.map_values(|s: String| s@)
}

/// Relies on `String::push`: appends exactly the given character.
#[verifier::external_body]
pub fn push_char(s: &mut String, c: char)
    ensures
        final(s)@ == old(s)@ + seq![c],
{
    s.push(c);
}

/// The characters of a string slice, in order, as a vector.
pub fn str_chars(s: &str) -> (r: Vec<char>)
    ensures
        r@ == s@,
{
    broadcast use vstd::string::axiom_spec_iter, vstd::string::next_postcondition;

    let mut it = s.chars();
    let mut out: Vec<char> = Vec::new();
    loop
        invariant
            it.obeys_prophetic_iter_laws(),
            it.decrease() is Some,
            out@ + it.remaining() == s@,
        ensures
            out@ == s@,
        decreases it.decrease()->0,
    {
        match it.next() {
            Some(c) => {
                out.push(c);
            },
            None => {
                proof {
                    assert(out@ =~= s@);
                }
                break ;
            },
        }
    }
    out
}

/// The characters of the vector joined back into an owned string.
pub fn chars_to_string(v: &Vec<char>) -> (r: String)
    ensures
        r@ == v@,
{
    let mut r = String::new();
    let mut i: usize = 0;
    while i < v.len()
        invariant
            i <= v@.len(),
            r@ == v@.take(i as int),
        decreases v@.len() - i,
    {
        push_char(&mut r, v[i]);
        i += 1;
        proof {
            assert(r@ =~= v@.take(i as int));
        }
    }
    proof {
        assert(v@.take(v@.len() as int) =~= v@);
    }
    r
}

/// The characters of a string slice copied into an owned string.
pub fn str_to_owned(s: &str) -> (r: String)
    ensures
        r@ == s@,
{
    let v = str_chars(s);
    chars_to_string(&v)
}

/// Whether the characters of `a` and `b` are equal.
pub fn chars_eq(a: &Vec<char>, b: &Vec<char>) -> (r: bool)
    ensures
        r == (a@ == b@),
{
    if a.len() != b.len() {
        return false;
    }
    let mut i: usize = 0;
    while i < a.len()
        invariant
            a@.len() == b@.len(),
            i <= a@.len(),
            forall|k: int| 0 <= k < i ==> a@[k] == b@[k],
        decreases a@.len() - i,
    {
        if a[i] != b[i] {
            return false;
        }
        i += 1;
    }
    proof {
        assert(a@ =~= b@);
    }
    true
}

/// Whether the characters of `pat` occur in `s` starting at index `i`.
pub fn match_at(s: &Vec<char>, pat: &Vec<char>, i: usize) -> (r: bool)
    requires
        i <= s@.len(),
    ensures
        r == (i + pat@.len() <= s@.len() && s@.subrange(i as int, i + pat@.len()) == pat@),
{
    if s.len() - i < pat.len() {
        return false;
    }
    let n = s.len();
    let m = pat.len();
    let mut j: usize = 0;
    while j < m
        invariant
            n == s@.len(),
            m == pat@.len(),
            i + m <= n,
            j <= m,
            forall|k: int| 0 <= k < j ==> s@[i + k] == pat@[k],
        decreases m - j,
    {
        if s[i + j] != pat[j] {
            proof {
                assert(s@.subrange(i as int, i + pat@.len())[j as int] == s@[i + j]);
            }
            return false;
        }
        j += 1;
    }
    proof {
        assert(s@.subrange(i as int, i + pat@.len()) =~= pat@);
    }
    true
}

/// Whether `pat` occurs contiguously somewhere in `s`.
pub open spec fn spec_contains(s: Seq<char>, pat: Seq<char>) -> bool {
    exists|i: int|
        0 <= i && i + pat.len() <= s.len() && #[trigger] s.subrange(i, i + pat.len()) == pat
}

/// Whether the characters of `pat` occur contiguously in `s`.
pub fn contains_chars(s: &Vec<char>, pat: &Vec<char>) -> (r: bool)
    ensures
        r == spec_contains(s@, pat@),
{
    if pat.len() > s.len() {
        return false;
    }
    if pat.len() == 0 {
        proof {
            let w: int = 0;
            assert(s@.subrange(w, w + pat@.len()) =~= pat@);
            assert(0 <= w && w + pat@.len() <= s@.len() && s@.subrange(w, w + pat@.len())
                == pat@);
        }
        return true;
    }
    let bound = s.len() - pat.len();
    let mut i: usize = 0;
    while i <= bound
        invariant
            1 <= pat@.len() <= s@.len(),
            s@.len() <= usize::MAX,
            bound == s@.len() - pat@.len(),
            i <= bound + 1,
            forall|k: int|
                0 <= k < i ==> #[trigger] s@.subrange(k, k + pat@.len()) != pat@,
        decreases bound + 1 - i,
    {
        if match_at(s, pat, i) {
            proof {
                let w: int = i as int;
                assert(0 <= w && w + pat@.len() <= s@.len() && s@.subrange(w, w + pat@.len())
                    == pat@);
            }
            return true;
        }
        i += 1;
    }
    false
}

/// The pieces of `s` between occurrences of the separator `sep`, in
/// order, exactly as `str::split` yields them: an empty input gives one
/// empty piece, and adjacent separators give empty pieces.
pub open spec fn spec_split(s: Seq<char>, sep: Seq<char>) -> Seq<Seq<char>>
    decreases s.len(),
{
    if sep.len() == 0 || s.len() < sep.len() {
        seq![s]
    } else if s.subrange(0, sep.len() as int) == sep {
        seq![Seq::<char>::empty()] + spec_split(s.skip(sep.len() as int), sep)
    } else {
        let rest = spec_split(s.skip(1), sep);
        seq![seq![s[0]] + rest[0]] + rest.skip(1)
    }
}

/// A split never yields an empty list of pieces.
pub proof fn lemma_split_len(s: Seq<char>, sep: Seq<char>)
    ensures
        spec_split(s, sep).len() >= 1,
    decreases s.len(),
{
    if sep.len() == 0 || s.len() < sep.len() {
    } else if s.subrange(0, sep.len() as int) == sep {
        lemma_split_len(s.skip(sep.len() as int), sep);
    } else {
        lemma_split_len(s.skip(1), sep);
    }
}

/// The first piece of a split, prolonged to the left by `p`.
pub open spec fn cons_first(p: Seq<char>, ss: Seq<Seq<char>>) -> Seq<Seq<char>> {
    seq![p + ss[0]] + ss.skip(1)
}

/// The pieces of `s` between occurrences of `sep`, as vectors.
pub fn split_chars(s: &Vec<char>, sep: &Vec<char>) -> (r: Vec<Vec<char>>)
    requires
        sep@.len() >= 1,
    ensures
        views_of(r@) == spec_split(s@, sep@),
{
    let mut done: Vec<Vec<char>> = Vec::new();
    let mut cur: Vec<char> = Vec::new();
    let mut i: usize = 0;
    proof {
        lemma_split_len(s@, sep@);
        assert(s@.skip(0) =~= s@);
        assert(Seq::<char>::empty() + spec_split(s@, sep@)[0] =~= spec_split(s@, sep@)[0]);
        assert(views_of(done@) + cons_first(cur@, spec_split(s@.skip(0), sep@)) =~= spec_split(
            s@,
            sep@,
        ));
    }
    while i < s.len()
        invariant
            sep@.len() >= 1,
            i <= s@.len(),
            spec_split(s@, sep@) == views_of(done@) + cons_first(
                cur@,
                spec_split(s@.skip(i as int), sep@),
            ),
        decreases s@.len() - i,
    {
        let ghost suffix = s@.skip(i as int);
        let ghost done0 = done@;
        let ghost cur0 = cur@;
        if match_at(s, sep, i) {
            proof {
                assert(suffix.subrange(0, sep@.len() as int) =~= s@.subrange(
                    i as int,
                    i + sep@.len(),
                ));
                assert(suffix.skip(sep@.len() as int) =~= s@.skip(i + sep@.len()));
                lemma_split_len(s@.skip(i + sep@.len()), sep@);
            }
            done.push(cur);
            cur = Vec::new();
            i += sep.len();
            proof {
                let ss = spec_split(s@.skip(i as int), sep@);
                assert(spec_split(suffix, sep@) == seq![Seq::<char>::empty()] + ss);
                // the old first piece is complete: it equals cur0
                assert(cur0 + (seq![Seq::<char>::empty()] + ss)[0] =~= cur0);
                assert(cons_first(cur0, spec_split(suffix, sep@)) =~= seq![cur0] + ss);
                assert(views_of(done@) =~= views_of(done0) + seq![cur0]);
                assert(Seq::<char>::empty() + ss[0] =~= ss[0]);
                assert(cons_first(cur@, ss) =~= ss);
                assert(views_of(done@) + cons_first(cur@, ss) =~= views_of(done0) + (seq![cur0]
                    + ss));
                assert(views_of(done0) + (seq![cur0] + ss) =~= views_of(done0) + cons_first(
                    cur0,
                    spec_split(suffix, sep@),
                ));
            }
        } else {
            let c = s[i];
            proof {
                assert(suffix[0] == s@[i as int]);
                if suffix.len() >= sep@.len() {
                    assert(suffix.subrange(0, sep@.len() as int) =~= s@.subrange(
                        i as int,
                        i + sep@.len(),
                    ));
                    assert(suffix.skip(1) =~= s@.skip(i + 1));
                    let rest = spec_split(s@.skip(i + 1), sep@);
                    lemma_split_len(s@.skip(i + 1), sep@);
                    assert(spec_split(suffix, sep@) == seq![seq![suffix[0]] + rest[0]]
                        + rest.skip(1));
                    assert(cur0 + (seq![suffix[0]] + rest[0]) =~= (cur0 + seq![c]) + rest[0]);
                    assert(cons_first(cur0, spec_split(suffix, sep@)) =~= cons_first(
                        cur0 + seq![c],
                        rest,
                    ));
                } else {
                    assert(spec_split(suffix, sep@) == seq![suffix]);
                    assert(s@.skip(i + 1).len() < sep@.len());
                    assert(spec_split(s@.skip(i + 1), sep@) == seq![s@.skip(i + 1)]);
                    assert(cur0 + suffix =~= (cur0 + seq![c]) + s@.skip(i + 1));
                    assert(cons_first(cur0, spec_split(suffix, sep@)) =~= cons_first(
                        cur0 + seq![c],
                        spec_split(s@.skip(i + 1), sep@),
                    ));
                }
            }
            cur.push(c);
            i += 1;
            proof {
                assert(cur@ =~= cur0 + seq![c]);
                assert(views_of(done@) + cons_first(cur@, spec_split(s@.skip(i as int), sep@))
                    =~= views_of(done0) + cons_first(cur0, spec_split(suffix, sep@)));
            }
        }
    }
    proof {
        assert(s@.skip(s@.len() as int) =~= Seq::<char>::empty());
        assert(spec_split(Seq::<char>::empty(), sep@) == seq![Seq::<char>::empty()]);
        assert(cur@ + Seq::<char>::empty() =~= cur@);
        assert(cons_first(cur@, spec_split(s@.skip(i as int), sep@)) =~= seq![cur@]);
    }
    done.push(cur);
    proof {
        assert(views_of(done@) =~= views_of(done@.drop_last()) + seq![done@.last()@]);
        assert(views_of(done@) =~= spec_split(s@, sep@));
    }
    done
}

/// The characters of `v` from index `from` (inclusive) to `to`
/// (exclusive), as a new vector.
pub fn subvec(v: &Vec<char>, from: usize, to: usize) -> (r: Vec<char>)
    requires
        from <= to <= v@.len(),
    ensures
        r@ == v@.subrange(from as int, to as int),
{
    let mut r: Vec<char> = Vec::new();
    let mut i: usize = from;
    while i < to
        invariant
            from <= i <= to <= v@.len(),
            r@ == v@.subrange(from as int, i as int),
        decreases to - i,
    {
        r.push(v[i]);
        proof {
            assert(v@.subrange(from as int, i + 1) =~= v@.subrange(from as int, i as int) + seq![
                v@[i as int],
            ]);
        }
        i += 1;
    }
    r
}

/// The characters of `v` from index `from` on, as a new vector.
pub fn tail_from(v: &Vec<char>, from: usize) -> (r: Vec<char>)
    requires
        from <= v@.len(),
    ensures
        r@ == v@.skip(from as int),
{
    let r = subvec(v, from, v.len());
    proof {
        assert(v@.subrange(from as int, v@.len() as int) =~= v@.skip(from as int));
    }
    r
}

/// Relies on `str::to_lowercase`: the lowercase form of a string is a
/// function of its characters alone.
pub uninterp spec fn lower_of(s: Seq<char>) -> Seq<char>;

/// Relies on `str::to_lowercase`: returns the lowercase form of `s`.
#[verifier::external_body]
pub fn to_lowercase(s: &str) -> (r: String)
    ensures
        r@ == lower_of(s@),
{
    s.to_lowercase()
}

/// A copy of a string vector whose views are unchanged.
pub fn clone_strings(v: &Vec<String>) -> (r: Vec<String>)
    ensures
        str_views(r@) == str_views(v@),
{
    let mut r: Vec<String> = Vec::new();
    let mut i: usize = 0;
    while i < v.len()
        invariant
            i <= v@.len(),
            str_views(r@) == str_views(v@).take(i as int),
        decreases v@.len() - i,
    {
        let ghost r0 = r@;
        r.push(str_to_owned(v[i].as_str()));
        proof {
            assert(str_views(r@) =~= str_views(r0) + seq![v@[i as int]@]);
            assert(str_views(v@).take(i + 1) =~= str_views(v@).take(i as int) + seq![
                str_views(v@)[i as int],
            ]);
        }
        i += 1;
    }
    proof {
        assert(str_views(v@).take(v@.len() as int) =~= str_views(v@));
    }
    r
}

/// Whether `c` is an ASCII decimal digit.
pub open spec fn is_digit(c: char) -> bool {
    '0' <= c && c <= '9'
}

/// The numeric value of a digit character.
pub open spec fn digit_val(c: char) -> int {
    c as int - '0' as int
}

/// The value of a string of decimal digits, most significant first.
pub open spec fn dec_value(s: Seq<char>) -> int
    decreases s.len(),
{
    if s.len() == 0 {
        0
    } else {
        dec_value(s.drop_last()) * 10 + digit_val(s.last())
    }
}

/// Every prefix of a digit string has a value no larger than the whole.
pub proof fn lemma_dec_value_take_le(s: Seq<char>, i: int)
    requires
        0 <= i <= s.len(),
        forall|k: int| 0 <= k < s.len() ==> is_digit(#[trigger] s[k]),
    ensures
        dec_value(s.take(i)) <= dec_value(s),
        dec_value(s) >= 0,
    decreases s.len() - i,
{
    if i == s.len() {
        assert(s.take(i) =~= s);
        lemma_dec_value_nonneg(s);
    } else {
        lemma_dec_value_take_le(s, i + 1);
        assert(s.take(i + 1).drop_last() =~= s.take(i));
        assert(dec_value(s.take(i + 1)) == dec_value(s.take(i)) * 10 + digit_val(s.take(i + 1).last()));
        lemma_dec_value_nonneg(s.take(i));
        assert(dec_value(s.take(i)) * 10 >= dec_value(s.take(i))) by (nonlinear_arith)
            requires dec_value(s.take(i)) >= 0;
    }
}

/// A digit string has a non-negative value.
pub proof fn lemma_dec_value_nonneg(s: Seq<char>)
    requires
        forall|k: int| 0 <= k < s.len() ==> is_digit(#[trigger] s[k]),
    ensures
        dec_value(s) >= 0,
    decreases s.len(),
{
    if s.len() > 0 {
        assert(forall|k: int|
            0 <= k < s.drop_last().len() ==> is_digit(#[trigger] s.drop_last()[k]));
        lemma_dec_value_nonneg(s.drop_last());
        assert(dec_value(s.drop_last()) * 10 >= 0) by (nonlinear_arith)
            requires dec_value(s.drop_last()) >= 0;
    }
}

/// Parses a non-empty string of decimal digits as a `usize`.
///
/// Returns the value exactly when the input consists of one or more
/// digits and the value fits the machine word; otherwise nothing.
pub fn parse_usize(v: &Vec<char>) -> (r: Option<usize>)
    ensures
        r is Some <==> (v@.len() >= 1 && (forall|k: int|
            0 <= k < v@.len() ==> is_digit(#[trigger] v@[k])) && dec_value(v@) <= usize::MAX),
        r matches Some(n) ==> n == dec_value(v@),
{
    if v.len() == 0 {
        return None;
    }
    let mut acc: usize = 0;
    let mut i: usize = 0;
    while i < v.len()
        invariant
            i <= v@.len(),
            forall|k: int| 0 <= k < i ==> is_digit(#[trigger] v@[k]),
            acc == dec_value(v@.take(i as int)),
        decreases v@.len() - i,
    {
        let c = v[i];
        if c < '0' || c > '9' {
            return None;
        }
        let d: usize = (c as usize) - ('0' as usize);
        proof {
            assert(v@.take(i + 1).drop_last() =~= v@.take(i as int));
            assert(v@.take(i + 1).last() == v@[i as int]);
        }
        if acc > (usize::MAX - d) / 10 {
            proof {
                let next = v@.take(i + 1);
                assert(dec_value(next) == acc * 10 + d);
                assert(acc * 10 + d > usize::MAX) by (nonlinear_arith)
                    requires
                        acc > (usize::MAX - d) / 10,
                        0 <= d <= 9,
                        acc >= 0,
                ;
                if forall|k: int| 0 <= k < v@.len() ==> is_digit(#[trigger] v@[k]) {
                    lemma_dec_value_take_le(v@, i + 1);
                }
            }
            return None;
        }
        proof {
            assert(acc * 10 + d <= usize::MAX) by (nonlinear_arith)
                requires
                    acc <= (usize::MAX - d) / 10,
                    0 <= d <= 9,
                    acc >= 0,
            ;
        }
        acc = acc * 10 + d;
        i += 1;
    }
    proof {
        assert(v@.take(v@.len() as int) =~= v@);
    }
    Some(acc)
}

/// Whether `c` is one of the ASCII whitespace characters trimmed from
/// the end of process output.
pub open spec fn spec_is_ws(c: char) -> bool {
    c == ' ' || c == '\n' || c == '\t' || c == '\r'
}

/// `s` without its trailing whitespace characters.
pub open spec fn spec_trim_end(s: Seq<char>) -> Seq<char>
    decreases s.len(),
{
    if s.len() > 0 && spec_is_ws(s.last()) {
        spec_trim_end(s.drop_last())
    } else {
        s
    }
}

/// The characters of `v` without trailing whitespace.
pub fn trim_end(v: &Vec<char>) -> (r: Vec<char>)
    ensures
        r@ == spec_trim_end(v@),
{
    let mut n: usize = v.len();
    proof {
        assert(v@.take(n as int) =~= v@);
    }
    while n > 0 && (v[n - 1] == ' ' || v[n - 1] == '\n' || v[n - 1] == '\t' || v[n - 1] == '\r')
        invariant
            n <= v@.len(),
            spec_trim_end(v@) == spec_trim_end(v@.take(n as int)),
        decreases n,
    {
        proof {
            assert(v@.take(n as int).last() == v@[n - 1]);
            assert(v@.take(n as int).drop_last() =~= v@.take(n - 1));
        }
        n -= 1;
    }
    let mut r: Vec<char> = Vec::new();
    let mut i: usize = 0;
    while i < n
        invariant
            n <= v@.len(),
            i <= n,
            r@ == v@.take(n as int).take(i as int),
        decreases n - i,
    {
        r.push(v[i]);
        proof {
            assert(v@.take(n as int).take(i + 1) =~= v@.take(n as int).take(i as int) + seq![
                v@[i as int],
            ]);
        }
        i += 1;
    }
    proof {
        assert(v@.take(n as int).take(n as int) =~= v@.take(n as int));
        if n > 0 {
            assert(v@.take(n as int).last() == v@[n - 1]);
            assert(!spec_is_ws(v@.take(n as int).last()));
        }
        assert(spec_trim_end(v@.take(n as int)) == v@.take(n as int));
    }
    r
}

/// The decimal digit character of a value below ten.
pub open spec fn digit_char(d: int) -> char {
    if d == 0 {
        '0'
    } else if d == 1 {
        '1'
    } else if d == 2 {
        '2'
    } else if d == 3 {
        '3'
    } else if d == 4 {
        '4'
    } else if d == 5 {
        '5'
    } else if d == 6 {
        '6'
    } else if d == 7 {
        '7'
    } else if d == 8 {
        '8'
    } else {
        '9'
    }
}

/// The decimal digits of a non-negative value, most significant
/// first, without leading zeros.
pub open spec fn spec_digits(n: int) -> Seq<char>
    decreases n,
{
    if n <= 9 {
        seq![digit_char(if n < 0 { 0 } else { n })]
    } else {
        spec_digits(n / 10) + seq![digit_char(n % 10)]
    }
}

/// Appends the decimal digits of `n` to `s`: exactly the digits of
/// `n`, most significant first, without leading zeros. Used to
/// assemble the skip and maximum-count arguments of log queries.
pub fn push_usize_decimal(s: &mut String, n: usize)
    ensures
        final(s)@ == old(s)@ + spec_digits(n as int),
    decreases n,
{
    let ghost s0 = s@;
    if n <= 9 {
        let c: char = (('0' as u8) + (n as u8)) as char;
        push_char(s, c);
        proof {
            assert(c == digit_char(n as int));
        }
        return ;
    }
    proof {
        assert(n / 10 < n) by (nonlinear_arith)
            requires n >= 10;
    }
    push_usize_decimal(s, n / 10);
    let d: usize = n % 10;
    let c: char = (('0' as u8) + (d as u8)) as char;
    push_char(s, c);
    proof {
        assert(c == digit_char(n as int % 10));
        assert(spec_digits(n as int) == spec_digits(n as int / 10) + seq![
            digit_char(n as int % 10),
        ]);
        assert(s@ =~= s0 + spec_digits(n as int));
    }
}

} // verus!
