//! Character classes, scanning and decimal text over `char` sequences.
use vstd::prelude::*;

verus! {

/// The characters that `char::is_whitespace` accepts: the Unicode `White_Space` property.
pub open spec fn is_unicode_whitespace(c: char) -> bool {
    ||| ('\u{9}' <= c && c <= '\u{d}')
    ||| c == ' '
    ||| c == '\u{85}'
    ||| c == '\u{a0}'
    ||| c == '\u{1680}'
    ||| ('\u{2000}' <= c && c <= '\u{200a}')
    ||| c == '\u{2028}'
    ||| c == '\u{2029}'
    ||| c == '\u{202f}'
    ||| c == '\u{205f}'
    ||| c == '\u{3000}'
}

pub open spec fn is_ascii_digit(c: char) -> bool {
    '0' <= c && c <= '9'
}

pub open spec fn is_ascii_alphanumeric(c: char) -> bool {
    ||| is_ascii_digit(c)
    ||| ('a' <= c && c <= 'z')
    ||| ('A' <= c && c <= 'Z')
}

pub open spec fn is_ascii_upper(c: char) -> bool {
    'A' <= c && c <= 'Z'
}

/// `char::to_ascii_lowercase`.
pub open spec fn ascii_lower(c: char) -> char {
    if is_ascii_upper(c) {
        ((c as u32) + 32) as char
    } else {
        c
    }
}

pub open spec fn ascii_lower_seq(s: Seq<char>) -> Seq<char> {
    s.map_values(|c: char| ascii_lower(c))
}

/// The predicates that the scanners of this crate walk a text with.
#[derive(Clone, Copy, PartialEq, Eq)]
pub enum CharClass {
    Whitespace,
    NotAsciiDigit,
    AsciiDigit,
    DigitOrDot,
    /// What a value after an anchor may be preceded by: whitespace, `:`, `=`, quotes and `>`.
    ValueLead,
    /// What a value after an anchor is made of: anything but whitespace, `<`, quotes, `,` and `;`.
    ValueBody,
    Dash,
}

pub open spec fn in_class(k: CharClass, c: char) -> bool {
    match k {
        CharClass::Whitespace => is_unicode_whitespace(c),
        CharClass::NotAsciiDigit => !is_ascii_digit(c),
        CharClass::AsciiDigit => is_ascii_digit(c),
        CharClass::DigitOrDot => is_ascii_digit(c) || c == '.',
        CharClass::ValueLead => is_unicode_whitespace(c) || c == ':' || c == '=' || c == '"'
            || c == '\'' || c == '>',
        CharClass::ValueBody => !is_unicode_whitespace(c) && c != '<' && c != '"' && c != '\''
            && c != ',' && c != ';',
        CharClass::Dash => c == '-',
    }
}

pub fn is_whitespace_char(c: char) -> (r: bool)
    ensures
        r == is_unicode_whitespace(c),
{
    ('\u{9}' <= c && c <= '\u{d}') || c == ' ' || c == '\u{85}' || c == '\u{a0}' || c
        == '\u{1680}' || ('\u{2000}' <= c && c <= '\u{200a}') || c == '\u{2028}' || c
        == '\u{2029}' || c == '\u{202f}' || c == '\u{205f}' || c == '\u{3000}'
}

pub fn char_in_class(k: CharClass, c: char) -> (r: bool)
    ensures
        r == in_class(k, c),
{
    match k {
        CharClass::Whitespace => is_whitespace_char(c),
        CharClass::NotAsciiDigit => !('0' <= c && c <= '9'),
        CharClass::AsciiDigit => '0' <= c && c <= '9',
        CharClass::DigitOrDot => ('0' <= c && c <= '9') || c == '.',
        CharClass::ValueLead => is_whitespace_char(c) || c == ':' || c == '=' || c == '"' || c
            == '\'' || c == '>',
        CharClass::ValueBody => !is_whitespace_char(c) && c != '<' && c != '"' && c != '\''
            && c != ',' && c != ';',
        CharClass::Dash => c == '-',
    }
}

pub fn to_ascii_lower_char(c: char) -> (r: char)
    ensures
        r == ascii_lower(c),
{
    if 'A' <= c && c <= 'Z' {
        let v: u32 = (c as u32) + 32;
        let b: u8 = v as u8;
        b as char
    } else {
        c
    }
}

/// `Iterator::skip_while` on a sequence of chars.
pub open spec fn skip_while(s: Seq<char>, k: CharClass) -> Seq<char>
    decreases s.len(),
{
    if s.len() > 0 && in_class(k, s[0]) {
        skip_while(s.drop_first(), k)
    } else {
        s
    }
}

/// `Iterator::take_while` on a sequence of chars.
pub open spec fn take_while(s: Seq<char>, k: CharClass) -> Seq<char>
    decreases s.len(),
{
    if s.len() > 0 && in_class(k, s[0]) {
        seq![s[0]] + take_while(s.drop_first(), k)
    } else {
        seq![]
    }
}

/// Drops the longest suffix whose chars are all in the class.
pub open spec fn trim_end_while(s: Seq<char>, k: CharClass) -> Seq<char>
    decreases s.len(),
{
    if s.len() > 0 && in_class(k, s.last()) {
        trim_end_while(s.drop_last(), k)
    } else {
        s
    }
}

/// `str::trim_matches` with the class as the pattern.
pub open spec fn trim_class(s: Seq<char>, k: CharClass) -> Seq<char> {
    trim_end_while(skip_while(s, k), k)
}

/// `str::trim`.
pub open spec fn trim_ws(s: Seq<char>) -> Seq<char> {
    trim_class(s, CharClass::Whitespace)
}

/// A leading run of `n` chars of the class is what `skip_while` skips and `take_while` takes.
pub proof fn lemma_prefix_run(s: Seq<char>, k: CharClass, n: int)
    requires
        0 <= n <= s.len(),
        forall|j: int| 0 <= j < n ==> in_class(k, #[trigger] s[j]),
        n < s.len() ==> !in_class(k, s[n]),
    ensures
        skip_while(s, k) == s.skip(n),
        take_while(s, k) == s.take(n),
    decreases n,
{
    if n == 0 {
        assert(s.skip(0) =~= s);
        assert(s.take(0) =~= Seq::<char>::empty());
    } else {
        let t = s.drop_first();
        assert forall|j: int| 0 <= j < n - 1 implies in_class(k, #[trigger] t[j]) by {
            assert(t[j] == s[j + 1]);
        }
        if n - 1 < t.len() {
            assert(t[n - 1] == s[n]);
        }
        lemma_prefix_run(t, k, n - 1);
        assert(t.skip(n - 1) =~= s.skip(n));
        assert(seq![s[0]] + t.take(n - 1) =~= s.take(n));
    }
}

/// A trailing run of the class from `n` on is what `trim_end_while` trims.
pub proof fn lemma_suffix_run(s: Seq<char>, k: CharClass, n: int)
    requires
        0 <= n <= s.len(),
        forall|j: int| n <= j < s.len() ==> in_class(k, #[trigger] s[j]),
        n > 0 ==> !in_class(k, s[n - 1]),
    ensures
        trim_end_while(s, k) == s.take(n),
    decreases s.len() - n,
{
    if n == s.len() {
        assert(s.take(n) =~= s);
    } else {
        let t = s.drop_last();
        assert forall|j: int| n <= j < t.len() implies in_class(k, #[trigger] t[j]) by {
            assert(t[j] == s[j]);
        }
        if n > 0 {
            assert(t[n - 1] == s[n - 1]);
        }
        lemma_suffix_run(t, k, n);
        assert(t.take(n) =~= s.take(n));
    }
}

/// The length of the longest prefix of `s[from..]` whose chars are all in the class.
pub fn run_len(s: &Vec<char>, from: usize, k: CharClass) -> (n: usize)
    requires
        from <= s@.len(),
    ensures
        from + n <= s@.len(),
        forall|j: int| from <= j < from + n ==> in_class(k, #[trigger] s@[j]),
        from + n < s@.len() ==> !in_class(k, s@[from + n]),
        skip_while(s@.skip(from as int), k) == s@.skip(from + n),
        take_while(s@.skip(from as int), k) == s@.subrange(from as int, from + n),
{
    let mut i = from;
    while i < s.len() && char_in_class(k, s[i])
        invariant
            from <= i <= s@.len(),
            forall|j: int| from <= j < i ==> in_class(k, #[trigger] s@[j]),
        decreases s@.len() - i,
    {
        i = i + 1;
    }
    proof {
        let t = s@.skip(from as int);
        let n = i - from;
        assert forall|j: int| 0 <= j < n implies in_class(k, #[trigger] t[j]) by {
            assert(t[j] == s@[from + j]);
        }
        if n < t.len() {
            assert(t[n] == s@[i as int]);
        }
        lemma_prefix_run(t, k, n);
        assert(t.skip(n) =~= s@.skip(i as int));
        assert(t.take(n) =~= s@.subrange(from as int, i as int));
    }
    i - from
}

/// The index at which the longest suffix of `s[..to]` whose chars are all in the class begins.
pub fn run_back(s: &Vec<char>, to: usize, k: CharClass) -> (n: usize)
    requires
        to <= s@.len(),
    ensures
        n <= to,
        trim_end_while(s@.take(to as int), k) == s@.take(n as int),
{
    let mut i = to;
    while i > 0 && char_in_class(k, s[i - 1])
        invariant
            i <= to <= s@.len(),
            forall|j: int| i <= j < to ==> in_class(k, #[trigger] s@[j]),
        decreases i,
    {
        i = i - 1;
    }
    proof {
        let t = s@.take(to as int);
        assert forall|j: int| i <= j < t.len() implies in_class(k, #[trigger] t[j]) by {
            assert(t[j] == s@[j]);
        }
        if i > 0 {
            assert(t[i - 1] == s@[i - 1]);
        }
        lemma_suffix_run(t, k, i as int);
        assert(t.take(i as int) =~= s@.take(i as int));
    }
    i
}

/// The bounds of what `str::trim_matches` with the class as the pattern keeps.
pub fn trim_range(s: &Vec<char>, k: CharClass) -> (r: (usize, usize))
    ensures
        r.0 <= r.1 <= s@.len(),
        trim_class(s@, k) == s@.subrange(r.0 as int, r.1 as int),
{
    let a = run_len(s, 0, k);
    assert(s@.skip(0) =~= s@);
    let mut i = s.len();
    while i > a && char_in_class(k, s[i - 1])
        invariant
            a <= i <= s@.len(),
            forall|j: int| i <= j < s@.len() ==> in_class(k, #[trigger] s@[j]),
        decreases i,
    {
        i = i - 1;
    }
    proof {
        let t = s@.skip(a as int);
        let n = i - a;
        assert forall|j: int| n <= j < t.len() implies in_class(k, #[trigger] t[j]) by {
            assert(t[j] == s@[a + j]);
        }
        if n > 0 {
            assert(t[n - 1] == s@[i - 1]);
        }
        lemma_suffix_run(t, k, n);
        assert(t.take(n) =~= s@.subrange(a as int, i as int));
    }
    (a, i)
}

/// `String::push`.
#[verifier::external_body]
pub(crate) fn push_char(s: &mut String, c: char)
    ensures
        final(s)@ == old(s)@.push(c),
{
    s.push(c);
}

/// The chars of a text, in order.
pub fn chars_of(s: &str) -> (v: Vec<char>)
    ensures
        v@ == s@,
{
    let mut v: Vec<char> = Vec::new();
    for c in it: s.chars()
        invariant
            v@ == it.seq().take(it.index() as int),
            it.seq() == s@,
    {
        v.push(c);
    }
    v
}

/// The text made of `s[from..to]`.
pub fn string_of_range(s: &Vec<char>, from: usize, to: usize) -> (r: String)
    requires
        from <= to <= s@.len(),
    ensures
        r@ == s@.subrange(from as int, to as int),
{
    let mut r = String::new();
    let mut i = from;
    while i < to
        invariant
            from <= i <= to <= s@.len(),
            r@ == s@.subrange(from as int, i as int),
        decreases to - i,
    {
        push_char(&mut r, s[i]);
        assert(s@.subrange(from as int, i + 1) =~= s@.subrange(from as int, i as int).push(
            s@[i as int],
        ));
        i = i + 1;
    }
    r
}

/// `a` followed by `b`.
pub fn concat2(a: &str, b: &str) -> (r: String)
    ensures
        r@ == a@ + b@,
{
    let mut r = String::from_str(a);
    r.append(b);
    r
}

/// The texts of `parts`, one after the other.
pub fn join_all(parts: &Vec<&str>) -> (r: String)
    ensures
        r@ == concat_seq(parts@.map_values(|p: &str| p@)),
{
    let mut r = String::new();
    let ghost views = parts@.map_values(|p: &str| p@);
    let mut i: usize = 0;
    while i < parts.len()
        invariant
            i <= parts@.len(),
            views == parts@.map_values(|p: &str| p@),
            r@ == concat_seq(views.take(i as int)),
        decreases parts@.len() - i,
    {
        r.append(parts[i]);
        assert(views.take(i + 1).drop_last() =~= views.take(i as int));
        i = i + 1;
    }
    assert(views.take(parts@.len() as int) =~= views);
    r
}

pub open spec fn concat_seq(parts: Seq<Seq<char>>) -> Seq<char>
    decreases parts.len(),
{
    if parts.len() == 0 {
        seq![]
    } else {
        concat_seq(parts.drop_last()) + parts.last()
    }
}

/// The value of a sequence of ASCII digits.
pub open spec fn digits_value(ds: Seq<char>) -> nat
    decreases ds.len(),
{
    if ds.len() == 0 {
        0
    } else {
        digits_value(ds.drop_last()) * 10 + ((ds.last() as u32) - ('0' as u32)) as nat
    }
}

pub open spec fn all_digits(ds: Seq<char>) -> bool {
    forall|i: int| 0 <= i < ds.len() ==> is_ascii_digit(#[trigger] ds[i])
}

/// The value of a prefix of a run of digits is at most the value of the run.
pub proof fn lemma_digits_value_grows(ds: Seq<char>, n: int)
    requires
        0 <= n <= ds.len(),
        all_digits(ds),
    ensures
        digits_value(ds.take(n)) <= digits_value(ds),
    decreases ds.len() - n,
{
    if n == ds.len() {
        assert(ds.take(n) =~= ds);
    } else {
        let t = ds.drop_last();
        assert(all_digits(t)) by {
            assert forall|i: int| 0 <= i < t.len() implies is_ascii_digit(#[trigger] t[i]) by {
                assert(t[i] == ds[i]);
            }
        }
        lemma_digits_value_grows(t, n);
        assert(t.take(n) =~= ds.take(n));
        assert(digits_value(ds) == digits_value(t) * 10 + ((ds.last() as u32) - ('0' as u32)) as nat);
        assert(digits_value(t) <= digits_value(t) * 10) by (nonlinear_arith);
    }
}

/// `str::parse::<u64>` with a bound: the value of `ds` when it is a nonempty run of ASCII
/// digits whose value is at most `max`.
pub open spec fn bounded_digits(ds: Seq<char>, max: nat) -> Option<nat> {
    if ds.len() > 0 && all_digits(ds) && digits_value(ds) <= max {
        Some(digits_value(ds))
    } else {
        None
    }
}

/// Reads `s[from..to]` as a decimal number no larger than `max`.
pub fn parse_digits(s: &Vec<char>, from: usize, to: usize, max: u64) -> (r: Option<u64>)
    requires
        from <= to <= s@.len(),
    ensures
        r matches Some(v) ==> bounded_digits(s@.subrange(from as int, to as int), max as nat)
            == Some(v as nat),
        r is None ==> bounded_digits(s@.subrange(from as int, to as int), max as nat) is None,
{
    let ghost ds = s@.subrange(from as int, to as int);
    if from == to {
        return None;
    }
    let mut acc: u64 = 0;
    let mut i = from;
    while i < to
        invariant
            from <= i <= to <= s@.len(),
            ds == s@.subrange(from as int, to as int),
            acc as nat == digits_value(ds.take(i - from)),
            acc <= max,
            all_digits(ds.take(i - from)),
        decreases to - i,
    {
        let c = s[i];
        assert(ds.take(i + 1 - from).drop_last() =~= ds.take(i - from));
        assert(ds[i - from] == c);
        if !('0' <= c && c <= '9') {
            assert(!all_digits(ds)) by {
                assert(!is_ascii_digit(ds[i - from]));
            }
            return None;
        }
        let d: u64 = ((c as u32) - ('0' as u32)) as u64;
        if d > max || acc > (max - d) / 10 {
            proof {
                assert(acc * 10 + d > max) by (nonlinear_arith)
                    requires
                        d > max || acc > (max - d) / 10,
                        d <= 9,
                ;
                let t = ds.take(i + 1 - from);
                assert(digits_value(t) == acc * 10 + d);
                if all_digits(ds) {
                    lemma_digits_value_grows(ds, i + 1 - from);
                }
            }
            return None;
        }
        proof {
            assert(acc * 10 + d <= max) by (nonlinear_arith)
                requires
                    acc <= (max - d) / 10,
                    d <= max,
            ;
        }
        acc = acc * 10 + d;
        i = i + 1;
        assert(all_digits(ds.take(i - from))) by {
            let t = ds.take(i - from);
            assert forall|j: int| 0 <= j < t.len() implies is_ascii_digit(#[trigger] t[j]) by {
                if j < t.len() - 1 {
                    assert(t[j] == ds.take(i - 1 - from)[j]);
                }
            }
        }
    }
    assert(ds.take(to - from) =~= ds);
    Some(acc)
}

/// The decimal digits of `n`, most significant first.
pub open spec fn nat_text(n: nat) -> Seq<char>
    decreases n,
{
    if n < 10 {
        seq![(('0' as u32) + n) as char]
    } else {
        nat_text(n / 10) + seq![(('0' as u32) + n % 10) as char]
    }
}

/// The text that `format!("{}", v)` gives for an integer.
pub open spec fn int_text(v: int) -> Seq<char> {
    if v < 0 {
        seq!['-'] + nat_text((-v) as nat)
    } else {
        nat_text(v as nat)
    }
}

/// Appends the decimal digits of `n` to `out`.
pub fn push_nat_text(out: &mut String, n: u64)
    ensures
        final(out)@ == old(out)@ + nat_text(n as nat),
    decreases n,
{
    if n < 10 {
        let c = ((('0' as u32) + (n as u32)) as u8) as char;
        push_char(out, c);
        assert(seq![c] =~= nat_text(n as nat));
    } else {
        push_nat_text(out, n / 10);
        let d: u64 = n % 10;
        let c = ((('0' as u32) + (d as u32)) as u8) as char;
        push_char(out, c);
        assert(nat_text(n as nat) =~= nat_text((n / 10) as nat) + seq![c]);
    }
}

/// `format!("{}", v)` for an `i64`.
pub fn i64_to_text(v: i64) -> (r: String)
    ensures
        r@ == int_text(v as int),
{
    let mut r = String::new();
    if v < 0 {
        push_char(&mut r, '-');
        let m: u64 = if v == i64::MIN {
            9223372036854775808u64
        } else {
            (-v) as u64
        };
        push_nat_text(&mut r, m);
    } else {
        push_nat_text(&mut r, v as u64);
    }
    r
}

/// `format!("{}", v)` for a `u64`.
pub fn u64_to_text(v: u64) -> (r: String)
    ensures
        r@ == nat_text(v as nat),
{
    let mut r = String::new();
    push_nat_text(&mut r, v);
    r
}

} // verus!
