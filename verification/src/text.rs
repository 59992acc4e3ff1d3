//! Character and string functions shared by the validation rules, the store and
//! the command builders.
//!
//! Strings are modelled by their sequence of characters (`s@`).

use vstd::prelude::*;
use vstd::std_specs::iter::IteratorSpec;
use vstd::string::StringExecFns;

verus! {

/// Whether `c` carries the Unicode `White_Space` property.
pub open spec fn is_whitespace_char(c: char) -> bool {
    ||| '\u{09}' <= c <= '\u{0D}'
    ||| c == ' '
    ||| c == '\u{85}'
    ||| c == '\u{A0}'
    ||| c == '\u{1680}'
    ||| '\u{2000}' <= c <= '\u{200A}'
    ||| c == '\u{2028}'
    ||| c == '\u{2029}'
    ||| c == '\u{202F}'
    ||| c == '\u{205F}'
    ||| c == '\u{3000}'
}

/// Whether `s` is empty once leading and trailing white space is removed,
/// which is the case exactly when every character of `s` is white space.
pub open spec fn is_blank(s: Seq<char>) -> bool {
    forall|i: int| 0 <= i < s.len() ==> is_whitespace_char(#[trigger] s[i])
}

/// The characters that may not occur in a layout name: the path separators
/// and `: * ? " < > |`.
pub open spec fn is_forbidden_name_char(c: char) -> bool {
    ||| c == '/'
    ||| c == '\\'
    ||| c == ':'
    ||| c == '*'
    ||| c == '?'
    ||| c == '"'
    ||| c == '<'
    ||| c == '>'
    ||| c == '|'
}

/// Whether some character of `s` is forbidden in a layout name.
pub open spec fn has_forbidden_name_char(s: Seq<char>) -> bool {
    exists|i: int| 0 <= i < s.len() && is_forbidden_name_char(#[trigger] s[i])
}

/// `a` and `b` agree on their first `k` characters.
pub open spec fn common_prefix(a: Seq<char>, b: Seq<char>, k: int) -> bool {
    &&& 0 <= k <= a.len()
    &&& k <= b.len()
    &&& forall|j: int| 0 <= j < k ==> a[j] == b[j]
}

/// `a` and `b` agree up to position `k`, where `a` ends or holds the smaller
/// code point.
pub open spec fn lex_lt_at(a: Seq<char>, b: Seq<char>, k: int) -> bool {
    &&& common_prefix(a, b, k)
    &&& k < b.len()
    &&& (k == a.len() || a[k] < b[k])
}

/// How one string stands to another in lexicographic order.
#[derive(Debug, Clone, Copy, PartialEq, Eq, Structural)]
pub enum LexOrder {
    Before,
    Same,
    After,
}

/// The strict lexicographic order on strings, by code point.
pub open spec fn lex_lt(a: Seq<char>, b: Seq<char>) -> bool {
    exists|k: int| lex_lt_at(a, b, k)
}

/// No string is below itself.
pub proof fn lemma_lex_lt_irreflexive(a: Seq<char>)
    ensures
        !lex_lt(a, a),
{
}

/// The lexicographic order is transitive.
pub proof fn lemma_lex_lt_transitive(a: Seq<char>, b: Seq<char>, c: Seq<char>)
    requires
        lex_lt(a, b),
        lex_lt(b, c),
    ensures
        lex_lt(a, c),
{
    let k1 = choose|k: int| lex_lt_at(a, b, k);
    let k2 = choose|k: int| lex_lt_at(b, c, k);
    let k = if k1 <= k2 {
        k1
    } else {
        k2
    };
    assert(lex_lt_at(a, c, k));
}

proof fn lemma_lex_total_from(a: Seq<char>, b: Seq<char>, k: int)
    requires
        common_prefix(a, b, k),
    ensures
        a == b || lex_lt(a, b) || lex_lt(b, a),
    decreases a.len() - k,
{
    if k == a.len() && k == b.len() {
        assert(a =~= b);
    } else if k == a.len() {
        assert(lex_lt_at(a, b, k));
    } else if k == b.len() {
        assert(lex_lt_at(b, a, k));
    } else if a[k] == b[k] {
        lemma_lex_total_from(a, b, k + 1);
    } else if a[k] < b[k] {
        assert(lex_lt_at(a, b, k));
    } else {
        assert(lex_lt_at(b, a, k));
    }
}

/// Two strings are equal, or one is below the other.
pub proof fn lemma_lex_lt_total(a: Seq<char>, b: Seq<char>)
    ensures
        a == b || lex_lt(a, b) || lex_lt(b, a),
{
    lemma_lex_total_from(a, b, 0);
}

/// The decimal digit for `d`, which is below ten.
pub open spec fn digit_char(d: nat) -> char {
    if d == 0 {
        '0'
    } else if d == 1 {
        '1'
    } else if d == 2 {
        '2'
    } else if d == 3 {
        '3'
    } else if d == 4 {
        '4'
    } else if d == 5 {
        '5'
    } else if d == 6 {
        '6'
    } else if d == 7 {
        '7'
    } else if d == 8 {
        '8'
    } else {
        '9'
    }
}

/// The decimal digits of `n`, most significant first, without leading zeros.
pub open spec fn decimal_digits(n: nat) -> Seq<char>
    decreases n,
{
    if n < 10 {
        seq![digit_char(n)]
    } else {
        decimal_digits(n / 10).push(digit_char(n % 10))
    }
}

/// The decimal notation of `n`, with a leading `-` below zero.
pub open spec fn decimal(n: int) -> Seq<char> {
    if n < 0 {
        seq!['-'] + decimal_digits((-n) as nat)
    } else {
        decimal_digits(n as nat)
    }
}

/// `s` with a backslash put before each double quote.
pub open spec fn escape_quotes(s: Seq<char>) -> Seq<char>
    decreases s.len(),
{
    if s.len() == 0 {
        Seq::empty()
    } else if s.last() == '"' {
        escape_quotes(s.drop_last()).push('\\').push('"')
    } else {
        escape_quotes(s.drop_last()).push(s.last())
    }
}

/// The index of the first character at or after `from` that is not white
/// space, or the length of `s` where there is none.
pub open spec fn trim_start(s: Seq<char>, from: int) -> int
    decreases s.len() - from,
{
    if from < 0 || from >= s.len() {
        s.len() as int
    } else if !is_whitespace_char(s[from]) {
        from
    } else {
        trim_start(s, from + 1)
    }
}

/// The length of the first `upto` characters of `s` once the white space at
/// their end is removed.
pub open spec fn trim_end(s: Seq<char>, upto: int) -> int
    decreases upto,
{
    if upto <= 0 || upto > s.len() {
        0
    } else if !is_whitespace_char(s[upto - 1]) {
        upto
    } else {
        trim_end(s, upto - 1)
    }
}

/// `s` without the white space at its start and at its end.
pub open spec fn trimmed(s: Seq<char>) -> Seq<char> {
    let start = trim_start(s, 0);
    let end = trim_end(s, s.len() as int);
    if start < end {
        s.subrange(start, end)
    } else {
        Seq::empty()
    }
}

/// What `trim_start` finds.
pub proof fn lemma_trim_start(s: Seq<char>, from: int)
    requires
        0 <= from <= s.len(),
    ensures
        from <= trim_start(s, from) <= s.len(),
        trim_start(s, from) < s.len() ==> !is_whitespace_char(s[trim_start(s, from)]),
        forall|j: int| from <= j < trim_start(s, from) ==> is_whitespace_char(#[trigger] s[j]),
    decreases s.len() - from,
{
    if from < s.len() && is_whitespace_char(s[from]) {
        lemma_trim_start(s, from + 1);
    }
}

/// What `trim_end` finds.
pub proof fn lemma_trim_end(s: Seq<char>, upto: int)
    requires
        0 <= upto <= s.len(),
    ensures
        0 <= trim_end(s, upto) <= upto,
        trim_end(s, upto) > 0 ==> !is_whitespace_char(s[trim_end(s, upto) - 1]),
        forall|j: int| trim_end(s, upto) <= j < upto ==> is_whitespace_char(#[trigger] s[j]),
    decreases upto,
{
    if upto > 0 && is_whitespace_char(s[upto - 1]) {
        lemma_trim_end(s, upto - 1);
    }
}

/// A string is blank exactly when nothing is left of it once it is trimmed.
pub proof fn lemma_trimmed_blank(s: Seq<char>)
    ensures
        is_blank(s) <==> trimmed(s).len() == 0,
{
    lemma_trim_start(s, 0);
    lemma_trim_end(s, s.len() as int);
    let start = trim_start(s, 0);
    let end = trim_end(s, s.len() as int);
    if is_blank(s) {
        if start < s.len() {
            assert(is_whitespace_char(s[start]));
        }
    } else {
        let i = choose|i: int| 0 <= i < s.len() && !is_whitespace_char(#[trigger] s[i]);
        assert(start <= i);
        assert(i < end);
    }
}

/// `String::push`: appends one character to the string.
#[verifier::external_body]
pub(crate) fn push_char(s: &mut String, c: char)
    ensures
        final(s)@ == old(s)@.push(c),
{
    s.push(c)
}

/// Whether `c` is white space.
pub fn is_whitespace(c: char) -> (b: bool)
    ensures
        b == is_whitespace_char(c),
{
    ('\u{09}' <= c && c <= '\u{0D}') || c == ' ' || c == '\u{85}' || c == '\u{A0}' || c
        == '\u{1680}' || ('\u{2000}' <= c && c <= '\u{200A}') || c == '\u{2028}' || c == '\u{2029}'
        || c == '\u{202F}' || c == '\u{205F}' || c == '\u{3000}'
}

/// Whether a layout name may not hold `c`.
pub fn is_forbidden_in_name(c: char) -> (b: bool)
    ensures
        b == is_forbidden_name_char(c),
{
    c == '/' || c == '\\' || c == ':' || c == '*' || c == '?' || c == '"' || c == '<' || c == '>'
        || c == '|'
}

/// Whether `s` consists of white space only (the empty string does).
pub fn is_blank_str(s: &str) -> (b: bool)
    ensures
        b == is_blank(s@),
{
    broadcast use vstd::string::group_string_axioms;

    let mut ok: bool = true;
    for c in it: s.chars()
        invariant
            it.seq() == s@,
            ok == (forall|j: int| 0 <= j < it.index() ==> is_whitespace_char(#[trigger] s@[j])),
    {
        if !is_whitespace(c) {
            ok = false;
        }
    }
    ok
}

/// Whether `s` holds a character that a layout name may not hold.
pub fn contains_forbidden_name_char(s: &str) -> (b: bool)
    ensures
        b == has_forbidden_name_char(s@),
{
    broadcast use vstd::string::group_string_axioms;

    let mut found: bool = false;
    for c in it: s.chars()
        invariant
            it.seq() == s@,
            found == (exists|j: int| 0 <= j < it.index() && is_forbidden_name_char(#[trigger] s@[j])),
    {
        if is_forbidden_in_name(c) {
            found = true;
        }
    }
    found
}

/// How `a` stands to `b` in lexicographic order.
pub fn lex_order(a: &str, b: &str) -> (r: LexOrder)
    ensures
        r == LexOrder::Before <==> lex_lt(a@, b@),
        r == LexOrder::Same <==> a@ == b@,
        r == LexOrder::After <==> lex_lt(b@, a@),
{
    broadcast use vstd::string::group_string_axioms;

    let mut rest_a = a.chars();
    let mut rest_b = b.chars();
    let ghost mut k: int = 0;
    loop
        invariant
            common_prefix(a@, b@, k),
            rest_a.remaining() == a@.skip(k),
            rest_b.remaining() == b@.skip(k),
        decreases a@.len() - k,
    {
        let next_a = rest_a.next();
        let next_b = rest_b.next();
        proof {
            lemma_lex_lt_irreflexive(a@);
            if lex_lt(a@, b@) && lex_lt(b@, a@) {
                lemma_lex_lt_transitive(a@, b@, a@);
            }
        }
        match (next_a, next_b) {
            (None, None) => {
                assert(a@ =~= b@);
                return LexOrder::Same;
            },
            (None, Some(_)) => {
                assert(lex_lt_at(a@, b@, k));
                return LexOrder::Before;
            },
            (Some(_), None) => {
                assert(lex_lt_at(b@, a@, k));
                return LexOrder::After;
            },
            (Some(x), Some(y)) => {
                assert(x == a@[k] && y == b@[k]);
                if x < y {
                    assert(lex_lt_at(a@, b@, k));
                    return LexOrder::Before;
                } else if y < x {
                    assert(lex_lt_at(b@, a@, k));
                    return LexOrder::After;
                }
            },
        }
        proof {
            assert(a@.skip(k).drop_first() == a@.skip(k + 1));
            assert(b@.skip(k).drop_first() == b@.skip(k + 1));
            k = k + 1;
        }
    }
}

/// Whether `a` and `b` hold the same characters.
pub fn same_text(a: &str, b: &str) -> (r: bool)
    ensures
        r == (a@ == b@),
{
    match lex_order(a, b) {
        LexOrder::Same => true,
        _ => false,
    }
}

/// The characters of `s`, in order.
pub fn chars_of(s: &str) -> (v: Vec<char>)
    ensures
        v@ == s@,
{
    broadcast use vstd::string::group_string_axioms;

    let mut v: Vec<char> = Vec::new();
    for c in it: s.chars()
        invariant
            it.seq() == s@,
            v@ == s@.take(it.index()),
    {
        v.push(c);
        assert(s@.take(it.index() + 1) == s@.take(it.index()).push(c));
    }
    assert(s@.take(s@.len() as int) == s@);
    v
}

/// The string of the characters of `chars` from `from` up to `upto`.
pub fn string_of(chars: &Vec<char>, from: usize, upto: usize) -> (r: String)
    requires
        from <= upto <= chars.len(),
    ensures
        r@ == chars@.subrange(from as int, upto as int),
{
    let mut out = String::new();
    let mut i: usize = from;
    while i < upto
        invariant
            from <= i <= upto <= chars.len(),
            out@ == chars@.subrange(from as int, i as int),
        decreases upto - i,
    {
        push_char(&mut out, chars[i]);
        assert(chars@.subrange(from as int, i + 1) == chars@.subrange(from as int, i as int).push(
            chars[i as int],
        ));
        i = i + 1;
    }
    out
}

/// Where what is left of the characters from `from` up to `upto` begins and
/// ends once the white space on both sides is removed.
pub fn trim_bounds(chars: &Vec<char>, from: usize, upto: usize) -> (r: (usize, usize))
    requires
        from <= upto <= chars.len(),
    ensures
        from <= r.0 <= r.1 <= upto,
        chars@.subrange(r.0 as int, r.1 as int) == trimmed(chars@.subrange(from as int, upto as int)),
{
    let ghost part = chars@.subrange(from as int, upto as int);
    let mut start: usize = from;
    while start < upto && is_whitespace(chars[start])
        invariant
            from <= start <= upto <= chars.len(),
            part == chars@.subrange(from as int, upto as int),
            trim_start(part, 0) == trim_start(part, start - from),
        decreases upto - start,
    {
        assert(part[start - from] == chars[start as int]);
        start = start + 1;
    }
    proof {
        lemma_trim_end(part, part.len() as int);
        if start < upto {
            assert(part[start - from] == chars[start as int]);
            if trim_end(part, part.len() as int) <= start - from {
                assert(is_whitespace_char(part[start - from]));
            }
        }
    }
    let mut end: usize = upto;
    while end > start && is_whitespace(chars[end - 1])
        invariant
            from <= start <= end <= upto <= chars.len(),
            part == chars@.subrange(from as int, upto as int),
            trim_end(part, part.len() as int) == trim_end(part, end - from),
            end > start ==> trim_end(part, part.len() as int) > start - from,
            start < upto ==> !is_whitespace_char(chars[start as int]),
        decreases end,
    {
        assert(part[end - 1 - from] == chars[end - 1]);
        end = end - 1;
    }
    proof {
        lemma_trim_start(part, 0);
        lemma_trim_end(part, part.len() as int);
        if end > start {
            assert(part[end - 1 - from] == chars[end - 1]);
            assert(trim_end(part, end - from) == end - from);
            assert(trim_start(part, 0) == start - from);
            assert(part.subrange(start - from, end - from) == chars@.subrange(
                start as int,
                end as int,
            ));
        } else {
            assert(chars@.subrange(start as int, end as int) =~= Seq::<char>::empty());
            if start < upto {
                // every character from `start` on is white space
                assert(part[start - from] == chars[start as int]);
                assert(trim_start(part, 0) == start - from);
                lemma_trim_end(part, end - from);
                assert(trim_end(part, part.len() as int) <= start - from);
            } else {
                assert(trim_start(part, 0) == part.len());
            }
        }
    }
    (start, end)
}

/// `s` without the white space at its start and at its end.
pub fn trim_str(s: &str) -> (r: String)
    ensures
        r@ == trimmed(s@),
{
    let chars = chars_of(s);
    assert(chars@.subrange(0, chars.len() as int) == chars@);
    let (start, end) = trim_bounds(&chars, 0, chars.len());
    string_of(&chars, start, end)
}

/// A copy of `s` in which each double quote is preceded by a backslash.
pub fn escape_double_quotes(s: &str) -> (r: String)
    ensures
        r@ == escape_quotes(s@),
{
    broadcast use vstd::string::group_string_axioms;

    let mut out = String::new();
    for c in it: s.chars()
        invariant
            it.seq() == s@,
            out@ == escape_quotes(s@.take(it.index())),
    {
        proof {
            let t = s@.take(it.index() + 1);
            assert(t.drop_last() == s@.take(it.index()));
            assert(t.last() == c);
        }
        if c == '"' {
            push_char(&mut out, '\\');
        }
        push_char(&mut out, c);
    }
    assert(s@.take(s@.len() as int) == s@);
    out
}

fn digit(d: u64) -> (c: char)
    requires
        d < 10,
    ensures
        c == digit_char(d as nat),
{
    if d == 0 {
        '0'
    } else if d == 1 {
        '1'
    } else if d == 2 {
        '2'
    } else if d == 3 {
        '3'
    } else if d == 4 {
        '4'
    } else if d == 5 {
        '5'
    } else if d == 6 {
        '6'
    } else if d == 7 {
        '7'
    } else if d == 8 {
        '8'
    } else {
        '9'
    }
}

/// Appends the decimal digits of `n` to `out`.
fn push_decimal_digits(out: &mut String, n: u64)
    ensures
        final(out)@ == old(out)@ + decimal_digits(n as nat),
    decreases n,
{
    if n >= 10 {
        push_decimal_digits(out, n / 10);
    }
    push_char(out, digit(n % 10));
    assert(final(out)@ == old(out)@ + decimal_digits(n as nat)) by {
        reveal_with_fuel(decimal_digits, 2);
        if n >= 10 {
            assert((old(out)@ + decimal_digits((n / 10) as nat)).push(digit_char((n % 10) as nat))
                == old(out)@ + decimal_digits(n as nat));
        } else {
            assert(old(out)@.push(digit_char(n as nat)) == old(out)@ + seq![digit_char(n as nat)]);
        }
    }
}

/// The decimal notation of `n`, which is not below zero.
pub fn unsigned_decimal_string(n: u64) -> (r: String)
    ensures
        r@ == decimal(n as int),
{
    let mut out = String::new();
    push_decimal_digits(&mut out, n);
    assert(out@ == decimal_digits(n as nat));
    out
}

/// The decimal notation of `n`.
pub fn decimal_string(n: i64) -> (r: String)
    ensures
        r@ == decimal(n as int),
{
    let mut out = String::new();
    if n < 0 {
        push_char(&mut out, '-');
        let magnitude: u64 = ((-(n + 1)) as u64) + 1;
        push_decimal_digits(&mut out, magnitude);
        assert(out@ == seq!['-'] + decimal_digits((-n) as nat));
    } else {
        push_decimal_digits(&mut out, n as u64);
        assert(out@ == decimal_digits(n as nat));
    }
    out
}

} // verus!
