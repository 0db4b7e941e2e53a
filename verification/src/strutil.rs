//! Verified text utilities the parsers are built on: trimming, splitting on a
//! separator character, and reading and writing decimal integers.
//!
//! Each executable function is specified against a spec function over
//! `Seq<char>`; the parser modules state their own contracts in terms of those
//! spec functions.

use vstd::prelude::*;

verus! {

/// An ASCII whitespace character, the kind `trim` removes.
pub open spec fn is_space(c: char) -> bool {
    c == ' ' || c == '\t' || c == '\n' || c == '\r' || c == '\u{b}' || c == '\u{c}'
}

/// An ASCII decimal digit.
pub open spec fn is_digit(c: char) -> bool {
    48 <= (c as u32) <= 57
}

/// The numeric value of an ASCII decimal digit.
pub open spec fn digit_val(c: char) -> nat
    recommends
        is_digit(c),
{
    ((c as u32) - 48) as nat
}

/// An ASCII alphabetic character.
pub open spec fn is_alpha(c: char) -> bool {
    (65 <= (c as u32) <= 90) || (97 <= (c as u32) <= 122)
}

/// Every character of `s` is ASCII alphabetic.
pub open spec fn all_alpha(s: Seq<char>) -> bool {
    forall|i: int| 0 <= i < s.len() ==> is_alpha(#[trigger] s[i])
}

/// Every character of `s` is an ASCII decimal digit.
pub open spec fn all_digits(s: Seq<char>) -> bool {
    forall|i: int| 0 <= i < s.len() ==> is_digit(#[trigger] s[i])
}

/// `s` with its leading whitespace removed.
pub open spec fn spec_trim_start(s: Seq<char>) -> Seq<char>
    decreases s.len(),
{
    if s.len() == 0 {
        s
    } else if is_space(s[0]) {
        spec_trim_start(s.drop_first())
    } else {
        s
    }
}

/// `s` with its trailing whitespace removed.
pub open spec fn spec_trim_end(s: Seq<char>) -> Seq<char>
    decreases s.len(),
{
    if s.len() == 0 {
        s
    } else if is_space(s.last()) {
        spec_trim_end(s.drop_last())
    } else {
        s
    }
}

/// `s` with leading and trailing whitespace removed.
pub open spec fn spec_trim(s: Seq<char>) -> Seq<char> {
    spec_trim_end(spec_trim_start(s))
}

proof fn lemma_trim_start_at(s: Seq<char>, i: int)
    requires
        0 <= i <= s.len(),
        forall|k: int| 0 <= k < i ==> is_space(#[trigger] s[k]),
        i == s.len() || !is_space(s[i]),
    ensures
        spec_trim_start(s) == s.skip(i),
    decreases i,
{
    if i == 0 {
        assert(s.skip(0) =~= s);
    } else {
        let t = s.drop_first();
        assert(forall|k: int| 0 <= k < i - 1 ==> is_space(#[trigger] t[k]));
        lemma_trim_start_at(t, i - 1);
        assert(t.skip(i - 1) =~= s.skip(i));
    }
}

proof fn lemma_trim_end_at(s: Seq<char>, j: int)
    requires
        0 <= j <= s.len(),
        forall|k: int| j <= k < s.len() ==> is_space(#[trigger] s[k]),
        j == 0 || !is_space(s[j - 1]),
    ensures
        spec_trim_end(s) == s.take(j),
    decreases s.len() - j,
{
    if j == s.len() {
        assert(s.take(j) =~= s);
    } else {
        let t = s.drop_last();
        assert(forall|k: int| j <= k < t.len() ==> is_space(#[trigger] t[k]));
        lemma_trim_end_at(t, j);
        assert(t.take(j) =~= s.take(j));
    }
}

/// The fields of `s` between occurrences of the separator `sep`, in order.
/// An empty input has one empty field; `n` separators delimit `n + 1` fields,
/// empty fields included, as `str::split` produces them.
pub open spec fn spec_split(s: Seq<char>, sep: char) -> Seq<Seq<char>>
    decreases s.len(),
{
    if s.len() == 0 {
        seq![Seq::empty()]
    } else if s[0] == sep {
        seq![Seq::<char>::empty()] + spec_split(s.drop_first(), sep)
    } else {
        let r = spec_split(s.drop_first(), sep);
        seq![seq![s[0]] + r[0]] + r.drop_first()
    }
}

/// The field before the first `sep` and everything after it, or `None` when
/// `s` holds no `sep`, as `str::split_once` produces them.
pub open spec fn spec_split_once(s: Seq<char>, sep: char) -> Option<(Seq<char>, Seq<char>)>
    decreases s.len(),
{
    if s.len() == 0 {
        None
    } else if s[0] == sep {
        Some((Seq::empty(), s.drop_first()))
    } else {
        match spec_split_once(s.drop_first(), sep) {
            None => None,
            Some((a, b)) => Some((seq![s[0]] + a, b)),
        }
    }
}

/// A split has at least one field.
pub proof fn lemma_split_len_pos(s: Seq<char>, sep: char)
    ensures
        spec_split(s, sep).len() >= 1,
    decreases s.len(),
{
    if s.len() > 0 {
        lemma_split_len_pos(s.drop_first(), sep);
    }
}

/// No field of a split contains the separator.
pub proof fn lemma_split_fields_free_of_sep(s: Seq<char>, sep: char)
    ensures
        forall|k: int|
            0 <= k < spec_split(s, sep).len() ==> !(#[trigger] spec_split(s, sep)[k]).contains(sep),
    decreases s.len(),
{
    lemma_split_len_pos(s, sep);
    if s.len() == 0 {
        assert(!spec_split(s, sep)[0].contains(sep));
    } else {
        lemma_split_fields_free_of_sep(s.drop_first(), sep);
        let r = spec_split(s.drop_first(), sep);
        if s[0] == sep {
            assert(!spec_split(s, sep)[0].contains(sep));
            assert(forall|k: int|
                1 <= k < spec_split(s, sep).len() ==> !(#[trigger] spec_split(s, sep)[k]).contains(
                    sep,
                ));
        } else {
            lemma_split_len_pos(s.drop_first(), sep);
            assert(!r[0].contains(sep));
            let f = seq![s[0]] + r[0];
            assert forall|i: int| 0 <= i < f.len() implies f[i] != sep by {
                if i > 0 {
                    assert(f[i] == r[0][i - 1]);
                }
            }
            assert(!f.contains(sep));
            assert(forall|k: int|
                1 <= k < spec_split(s, sep).len() ==> spec_split(s, sep)[k] == r[k]);
        }
    }
}

/// A string without the separator is one field.
pub proof fn lemma_split_no_sep(s: Seq<char>, sep: char)
    requires
        !s.contains(sep),
    ensures
        spec_split(s, sep) =~~= seq![s],
    decreases s.len(),
{
    if s.len() > 0 {
        assert(s[0] != sep);
        assert(!s.drop_first().contains(sep)) by {
            assert(forall|i: int|
                0 <= i < s.drop_first().len() ==> #[trigger] s.drop_first()[i] == s[i + 1]);
        }
        lemma_split_no_sep(s.drop_first(), sep);
        assert(seq![s[0]] + s.drop_first() =~= s);
    }
}

/// Splitting at a separator that follows a separator-free prefix `a` yields
/// `a` as the first field and the split of the remainder as the rest.
pub proof fn lemma_split_concat(a: Seq<char>, b: Seq<char>, sep: char)
    requires
        !a.contains(sep),
    ensures
        spec_split(a + seq![sep] + b, sep) =~~= seq![a] + spec_split(b, sep),
    decreases a.len(),
{
    let s = a + seq![sep] + b;
    if a.len() == 0 {
        assert(s[0] == sep);
        assert(s.drop_first() =~= b);
        assert(spec_split(s, sep) =~~= seq![a] + spec_split(b, sep));
    } else {
        assert(s[0] == a[0]);
        assert(a[0] != sep);
        assert(!a.drop_first().contains(sep)) by {
            assert(forall|i: int|
                0 <= i < a.drop_first().len() ==> #[trigger] a.drop_first()[i] == a[i + 1]);
        }
        lemma_split_concat(a.drop_first(), b, sep);
        assert(s.drop_first() =~= a.drop_first() + seq![sep] + b);
        let r = spec_split(s.drop_first(), sep);
        lemma_split_len_pos(b, sep);
        assert(r =~~= seq![a.drop_first()] + spec_split(b, sep));
        assert(seq![s[0]] + r[0] =~= a);
        assert(r.drop_first() =~~= spec_split(b, sep));
    }
}

proof fn lemma_split_once_at(s: Seq<char>, sep: char, i: int)
    requires
        0 <= i < s.len(),
        s[i] == sep,
        forall|k: int| 0 <= k < i ==> s[k] != sep,
    ensures
        spec_split_once(s, sep) == Some((s.take(i), s.skip(i + 1))),
    decreases i,
{
    if i == 0 {
        assert(s.take(0) =~= Seq::<char>::empty());
        assert(s.skip(1) =~= s.drop_first());
    } else {
        let t = s.drop_first();
        assert(forall|k: int| 0 <= k < i - 1 ==> t[k] != sep);
        assert(t[i - 1] == sep);
        lemma_split_once_at(t, sep, i - 1);
        assert(seq![s[0]] + t.take(i - 1) =~= s.take(i));
        assert(t.skip(i) =~= s.skip(i + 1));
    }
}

proof fn lemma_split_once_none(s: Seq<char>, sep: char)
    requires
        !s.contains(sep),
    ensures
        spec_split_once(s, sep) is None,
    decreases s.len(),
{
    if s.len() > 0 {
        assert(s[0] != sep);
        assert(!s.drop_first().contains(sep)) by {
            assert(forall|i: int|
                0 <= i < s.drop_first().len() ==> #[trigger] s.drop_first()[i] == s[i + 1]);
        }
        lemma_split_once_none(s.drop_first(), sep);
    }
}

/// Splits `s` into its fields between occurrences of `sep`, as `str::split`
/// does: `n` separators yield `n + 1` fields, empty fields included.
pub fn split_char(s: &str, sep: char) -> (parts: Vec<String>)
    ensures
        parts.deep_view() == spec_split(s@, sep),
{
    let n = s.unicode_len();
    let mut parts: Vec<String> = Vec::new();
    let mut start: usize = 0;
    let mut i: usize = 0;
    proof {
        lemma_split_len_pos(s@, sep);
        assert(s@.skip(0) =~= s@);
        assert(s@.subrange(0, 0) + spec_split(s@, sep)[0] =~= spec_split(s@, sep)[0]);
        assert(parts.deep_view() + seq![spec_split(s@, sep)[0]] + spec_split(s@, sep).drop_first()
            =~= spec_split(s@, sep));
    }
    while i < n
        invariant
            n == s@.len(),
            start <= i <= n,
            spec_split(s@, sep) == parts.deep_view() + seq![
                s@.subrange(start as int, i as int) + spec_split(s@.skip(i as int), sep)[0],
            ] + spec_split(s@.skip(i as int), sep).drop_first(),
        decreases n - i,
    {
        let ghost prev = spec_split(s@.skip(i as int), sep);
        let ghost next = spec_split(s@.skip(i as int + 1), sep);
        let ghost cur = s@.subrange(start as int, i as int);
        let c = s.get_char(i);
        proof {
            lemma_split_len_pos(s@.skip(i as int), sep);
            lemma_split_len_pos(s@.skip(i as int + 1), sep);
            assert(s@.skip(i as int).drop_first() =~= s@.skip(i as int + 1));
            assert(s@.skip(i as int)[0] == c);
        }
        if c == sep {
            proof {
                assert(prev == seq![Seq::<char>::empty()] + next);
                assert(prev[0] =~= Seq::<char>::empty());
                assert(prev.drop_first() =~= next);
            }
            let field = s.substring_char(start, i).to_owned();
            let ghost old_dv = parts.deep_view();
            parts.push(field);
            proof {
                assert(parts.deep_view() =~= old_dv.push(cur));
                assert(cur + prev[0] =~= cur);
                assert(old_dv.push(cur) + seq![
                    s@.subrange(i as int + 1, i as int + 1) + next[0],
                ] + next.drop_first() =~= old_dv + seq![cur + prev[0]] + prev.drop_first());
            }
            start = i + 1;
        } else {
            proof {
                assert(prev == seq![seq![c] + next[0]] + next.drop_first());
                assert(prev[0] == seq![c] + next[0]);
                assert(prev.drop_first() =~= next.drop_first());
                assert(s@.subrange(start as int, i as int + 1) =~= cur + seq![c]);
                assert((cur + seq![c]) + next[0] =~= cur + (seq![c] + next[0]));
            }
        }
        i += 1;
    }
    proof {
        assert(s@.skip(n as int) =~= Seq::<char>::empty());
        let last = spec_split(s@.skip(n as int), sep);
        assert(last == seq![Seq::<char>::empty()]);
        assert(s@.subrange(start as int, n as int) + last[0] =~= s@.subrange(
            start as int,
            n as int,
        ));
        assert(last.drop_first() =~= Seq::<Seq<char>>::empty());
    }
    let field = s.substring_char(start, n).to_owned();
    let ghost old_dv = parts.deep_view();
    parts.push(field);
    proof {
        assert(parts.deep_view() =~= old_dv.push(field@));
        assert(old_dv.push(field@) =~= old_dv + seq![s@.subrange(start as int, n as int)] + Seq::<
            Seq<char>,
        >::empty());
    }
    parts
}

/// Splits `s` at its first occurrence of `sep`, as `str::split_once` does:
/// the part before the separator and the part after it, or `None` when `s`
/// holds no separator.
pub fn split_once_char<'a>(s: &'a str, sep: char) -> (r: Option<(&'a str, &'a str)>)
    ensures
        match r {
            Some(p) => spec_split_once(s@, sep) == Some((p.0@, p.1@)),
            None => spec_split_once(s@, sep) is None,
        },
{
    let n = s.unicode_len();
    let mut i: usize = 0;
    while i < n
        invariant
            n == s@.len(),
            i <= n,
            forall|k: int| 0 <= k < i ==> s@[k] != sep,
        decreases n - i,
    {
        if s.get_char(i) == sep {
            let before = s.substring_char(0, i);
            let after = s.substring_char(i + 1, n);
            proof {
                lemma_split_once_at(s@, sep, i as int);
                assert(before@ =~= s@.take(i as int));
                assert(after@ =~= s@.skip(i as int + 1));
            }
            return Some((before, after));
        }
        i += 1;
    }
    proof {
        assert(!s@.contains(sep));
        lemma_split_once_none(s@, sep);
    }
    None
}

/// The value of a sequence of ASCII decimal digits, most significant first.
pub open spec fn digits_val(s: Seq<char>) -> nat
    recommends
        all_digits(s),
    decreases s.len(),
{
    if s.len() == 0 {
        0
    } else {
        digits_val(s.drop_last()) * 10 + digit_val(s.last())
    }
}

/// The digit sequence `str::parse` reads for an unsigned type: the input
/// after an optional leading `+` sign.
pub open spec fn spec_digits_part(s: Seq<char>) -> Seq<char> {
    if s.len() > 0 && s[0] == '+' {
        s.drop_first()
    } else {
        s
    }
}

/// What `str::parse` returns for an unsigned integer type whose largest value
/// is `max`: the value of the digits after an optional `+` sign, provided
/// there is at least one digit, nothing else, and the value fits.
pub open spec fn spec_parse_uint(s: Seq<char>, max: nat) -> Option<nat> {
    let d = spec_digits_part(s);
    if d.len() > 0 && all_digits(d) && digits_val(d) <= max {
        Some(digits_val(d))
    } else {
        None
    }
}

/// A `u32` read from decimal text, as `str::parse::<u32>` reads it.
pub open spec fn spec_parse_u32(s: Seq<char>) -> Option<u32> {
    match spec_parse_uint(s, u32::MAX as nat) {
        Some(v) => Some(v as u32),
        None => None,
    }
}

/// A `usize` read from decimal text, as `str::parse::<usize>` reads it.
pub open spec fn spec_parse_usize(s: Seq<char>) -> Option<usize> {
    match spec_parse_uint(s, usize::MAX as nat) {
        Some(v) => Some(v as usize),
        None => None,
    }
}

/// A longer digit sequence never has a smaller value: dropping trailing
/// digits cannot increase `digits_val`.
proof fn lemma_digits_val_prefix(s: Seq<char>, i: int)
    requires
        0 <= i <= s.len(),
    ensures
        digits_val(s.take(i)) <= digits_val(s),
    decreases s.len() - i,
{
    if i == s.len() {
        assert(s.take(i) =~= s);
    } else {
        lemma_digits_val_prefix(s, i + 1);
        let t = s.take(i + 1);
        assert(t.drop_last() =~= s.take(i));
        assert(digits_val(s.take(i)) <= digits_val(t));
    }
}

/// Reads the digits of `s` from position `start` on as a decimal number no
/// larger than `max`, or `None` where a character is not a digit, there are
/// no digits, or the value would not fit.
fn parse_digits(s: &str, start: usize, max: u64) -> (r: Option<u64>)
    requires
        start <= s@.len(),
    ensures
        ({
            let d = s@.skip(start as int);
            match r {
                Some(v) => d.len() > 0 && all_digits(d) && digits_val(d) == v && v <= max,
                None => !(d.len() > 0 && all_digits(d) && digits_val(d) <= max),
            }
        }),
{
    let ghost d = s@.skip(start as int);
    let n = s.unicode_len();
    if start == n {
        proof {
            assert(d.len() == 0);
        }
        return None;
    }
    let mut acc: u128 = 0;
    let mut i: usize = start;
    while i < n
        invariant
            n == s@.len(),
            start <= i <= n,
            d == s@.skip(start as int),
            all_digits(d.take(i - start)),
            acc == digits_val(d.take(i - start)),
            acc <= max,
            max <= u64::MAX,
        decreases n - i,
    {
        let c = s.get_char(i);
        let cv = c as u32;
        proof {
            assert(d[i - start] == c);
        }
        if cv < 48 || cv > 57 {
            proof {
                assert(!is_digit(d[i - start]));
            }
            return None;
        }
        let dv: u128 = (cv - 48) as u128;
        let ghost t = d.take(i - start + 1);
        proof {
            assert(t.drop_last() =~= d.take(i - start));
            assert(t.last() == c);
            assert(digits_val(t) == acc * 10 + dv);
        }
        acc = acc * 10 + dv;
        if acc > max as u128 {
            proof {
                lemma_digits_val_prefix(d, i - start + 1);
                assert(digits_val(d) >= digits_val(t));
            }
            return None;
        }
        i += 1;
    }
    proof {
        assert(d.take(n - start) =~= d);
    }
    Some(acc as u64)
}

/// Reads `s` as `str::parse::<u32>` would: an optional `+` sign, then one or
/// more decimal digits whose value fits in a `u32`.
pub fn parse_u32(s: &str) -> (r: Option<u32>)
    ensures
        r == spec_parse_u32(s@),
{
    let n = s.unicode_len();
    let start: usize = if n > 0 && s.get_char(0) == '+' {
        1
    } else {
        0
    };
    proof {
        if start == 1 {
            assert(spec_digits_part(s@) =~= s@.skip(1));
        } else {
            assert(spec_digits_part(s@) =~= s@.skip(0));
        }
    }
    match parse_digits(s, start, 0xffff_ffff) {
        Some(v) => Some(v as u32),
        None => None,
    }
}

/// Reads `s` as `str::parse::<usize>` would: an optional `+` sign, then one
/// or more decimal digits whose value fits in a `usize`.
pub fn parse_usize(s: &str) -> (r: Option<usize>)
    ensures
        r == spec_parse_usize(s@),
{
    let n = s.unicode_len();
    let start: usize = if n > 0 && s.get_char(0) == '+' {
        1
    } else {
        0
    };
    proof {
        if start == 1 {
            assert(spec_digits_part(s@) =~= s@.skip(1));
        } else {
            assert(spec_digits_part(s@) =~= s@.skip(0));
        }
    }
    match parse_digits(s, start, usize::MAX as u64) {
        Some(v) => Some(v as usize),
        None => None,
    }
}

/// The ASCII character for a decimal digit value.
pub open spec fn digit_char(d: nat) -> char
    recommends
        d < 10,
{
    if d == 0 {
        '0'
    } else if d == 1 {
        '1'
    } else if d == 2 {
        '2'
    } else if d == 3 {
        '3'
    } else if d == 4 {
        '4'
    } else if d == 5 {
        '5'
    } else if d == 6 {
        '6'
    } else if d == 7 {
        '7'
    } else if d == 8 {
        '8'
    } else {
        '9'
    }
}

/// The decimal text of a non-negative integer, without sign or padding.
pub open spec fn spec_uint_string(n: nat) -> Seq<char>
    decreases n,
{
    if n < 10 {
        seq![digit_char(n)]
    } else {
        spec_uint_string(n / 10) + seq![digit_char(n % 10)]
    }
}

/// The decimal text of `n` is digits only, at least one of them, and reads
/// back as the value it was written from.
pub proof fn lemma_uint_string_val(n: nat)
    ensures
        spec_uint_string(n).len() >= 1,
        all_digits(spec_uint_string(n)),
        digits_val(spec_uint_string(n)) == n,
    decreases n,
{
    if n < 10 {
        assert(digit_val(digit_char(n)) == n);
        assert(spec_uint_string(n).drop_last() =~= Seq::<char>::empty());
        assert(digits_val(Seq::<char>::empty()) == 0);
        assert(digits_val(spec_uint_string(n)) == digits_val(Seq::<char>::empty()) * 10
            + digit_val(digit_char(n)));
    } else {
        lemma_uint_string_val(n / 10);
        let w = spec_uint_string(n);
        assert(w.drop_last() =~= spec_uint_string(n / 10));
        assert(w.last() == digit_char(n % 10));
        assert(digit_val(digit_char(n % 10)) == n % 10);
        assert(digits_val(w) == digits_val(w.drop_last()) * 10 + digit_val(w.last()));
        assert(digits_val(w) == (n / 10) * 10 + n % 10);
        assert((n / 10) * 10 + n % 10 == n) by (nonlinear_arith);
    }
}

/// Appends the single ASCII digit for `d` to `out`.
fn push_digit(out: &mut String, d: u32)
    requires
        d < 10,
    ensures
        final(out)@ == old(out)@ + seq![digit_char(d as nat)],
{
    let t: &str = match d {
        0 => "0",
        1 => "1",
        2 => "2",
        3 => "3",
        4 => "4",
        5 => "5",
        6 => "6",
        7 => "7",
        8 => "8",
        _ => "9",
    };
    proof {
        reveal_strlit("0");
        reveal_strlit("1");
        reveal_strlit("2");
        reveal_strlit("3");
        reveal_strlit("4");
        reveal_strlit("5");
        reveal_strlit("6");
        reveal_strlit("7");
        reveal_strlit("8");
        reveal_strlit("9");
        assert(t@ =~= seq![digit_char(d as nat)]);
    }
    out.append(t);
}

/// Appends the decimal text of `n` to `out`.
fn push_uint(out: &mut String, n: u32)
    ensures
        final(out)@ == old(out)@ + spec_uint_string(n as nat),
    decreases n,
{
    if n < 10 {
        push_digit(out, n);
    } else {
        push_uint(out, n / 10);
        let ghost mid = out@;
        push_digit(out, n % 10);
        proof {
            assert(old(out)@ + spec_uint_string(n as nat / 10) + seq![
                digit_char((n as nat) % 10),
            ] =~= old(out)@ + spec_uint_string(n as nat));
        }
    }
}

/// Writes `n` in decimal, as `u32`'s `Display` implementation does.
pub fn u32_to_string(n: u32) -> (r: String)
    ensures
        r@ == spec_uint_string(n as nat),
{
    let mut out = String::new();
    push_uint(&mut out, n);
    proof {
        assert(Seq::<char>::empty() + spec_uint_string(n as nat) =~= spec_uint_string(n as nat));
    }
    out
}

/// Compares two strings character by character.
pub fn str_eq(a: &str, b: &str) -> (r: bool)
    ensures
        r == (a@ == b@),
{
    let n = a.unicode_len();
    if n != b.unicode_len() {
        return false;
    }
    let mut i: usize = 0;
    while i < n
        invariant
            n == a@.len(),
            n == b@.len(),
            i <= n,
            forall|k: int| 0 <= k < i ==> a@[k] == b@[k],
        decreases n - i,
    {
        if a.get_char(i) != b.get_char(i) {
            return false;
        }
        i += 1;
    }
    proof {
        assert(a@ =~= b@);
    }
    true
}

/// Tests whether every character of `s` is ASCII alphabetic.
pub fn all_alpha_str(s: &str) -> (r: bool)
    ensures
        r == all_alpha(s@),
{
    let n = s.unicode_len();
    let mut i: usize = 0;
    while i < n
        invariant
            n == s@.len(),
            i <= n,
            forall|k: int| 0 <= k < i ==> is_alpha(#[trigger] s@[k]),
        decreases n - i,
    {
        let cv = s.get_char(i) as u32;
        if !((65 <= cv && cv <= 90) || (97 <= cv && cv <= 122)) {
            return false;
        }
        i += 1;
    }
    true
}

/// Tests whether `c` is ASCII whitespace.
pub fn is_space_char(c: char) -> (r: bool)
    ensures
        r == is_space(c),
{
    c == ' ' || c == '\t' || c == '\n' || c == '\r' || c == '\u{b}' || c == '\u{c}'
}

/// Removes leading and trailing ASCII whitespace from `s`.
pub fn trim(s: &str) -> (r: &str)
    ensures
        r@ == spec_trim(s@),
{
    let n = s.unicode_len();
    let mut i: usize = 0;
    while i < n && is_space_char(s.get_char(i))
        invariant
            n == s@.len(),
            0 <= i <= n,
            forall|k: int| 0 <= k < i ==> is_space(#[trigger] s@[k]),
        decreases n - i,
    {
        i += 1;
    }
    let mut j: usize = n;
    while j > i && is_space_char(s.get_char(j - 1))
        invariant
            n == s@.len(),
            i <= j <= n,
            forall|k: int| j <= k < n ==> is_space(#[trigger] s@[k]),
        decreases j,
    {
        j -= 1;
    }
    proof {
        lemma_trim_start_at(s@, i as int);
        let t = s@.skip(i as int);
        assert(forall|k: int| j - i <= k < t.len() ==> is_space(#[trigger] t[k]));
        lemma_trim_end_at(t, j - i);
        assert(t.take(j - i) =~= s@.subrange(i as int, j as int));
    }
    s.substring_char(i, j)
}

} // verus!
