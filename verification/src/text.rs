//! Text helpers. Strings are reasoned about as sequences of characters; the
//! order on them is the lexicographic order by code point, which is the order
//! in which `str` values compare.

use vstd::prelude::*;
use vstd::string::StringExecFns;

verus! {

/// `String::push` appends one character.
pub assume_specification[ String::push ](s: &mut String, c: char)
    ensures
        final(s)@ == old(s)@.push(c),
;

/// Outcome of a three-way comparison.
#[derive(Clone, Copy, Debug, PartialEq, Eq, Structural)]
pub enum Order {
    Less,
    Equal,
    Greater,
}

/// Strict lexicographic order on character sequences, by code point.
pub open spec fn lex_lt(a: Seq<char>, b: Seq<char>) -> bool
    decreases a.len(),
{
    if b.len() == 0 {
        false
    } else if a.len() == 0 {
        true
    } else if a[0] != b[0] {
        (a[0] as u32) < (b[0] as u32)
    } else {
        lex_lt(a.drop_first(), b.drop_first())
    }
}

/// What a three-way comparison of `a` with `b` yields.
pub open spec fn spec_compare(a: Seq<char>, b: Seq<char>) -> Order {
    if a == b {
        Order::Equal
    } else if lex_lt(a, b) {
        Order::Less
    } else {
        Order::Greater
    }
}

/// No sequence sorts before itself.
pub proof fn lemma_lex_lt_irreflexive(a: Seq<char>)
    ensures
        !lex_lt(a, a),
    decreases a.len(),
{
    if a.len() > 0 {
        lemma_lex_lt_irreflexive(a.drop_first());
    }
}

/// Of two different sequences exactly one sorts before the other.
pub proof fn lemma_lex_lt_total(a: Seq<char>, b: Seq<char>)
    ensures
        a != b ==> (lex_lt(a, b) <==> !lex_lt(b, a)),
        a == b ==> !lex_lt(a, b) && !lex_lt(b, a),
    decreases a.len(),
{
    if a == b {
        lemma_lex_lt_irreflexive(a);
    } else if a.len() > 0 && b.len() > 0 {
        assert(a[0] == b[0] <==> a[0] as u32 == b[0] as u32) by {
            vstd::utf8::char_u32_cast(a[0], a[0] as u32);
            vstd::utf8::char_u32_cast(b[0], b[0] as u32);
        }
        if a[0] == b[0] {
            let ta = a.drop_first();
            let tb = b.drop_first();
            if ta == tb {
                assert(a =~= seq![a[0]] + ta);
                assert(b =~= seq![b[0]] + tb);
            }
            lemma_lex_lt_total(ta, tb);
        }
    } else if a.len() == 0 && b.len() == 0 {
        assert(a =~= b);
    }
}

/// The order is transitive.
pub proof fn lemma_lex_lt_transitive(a: Seq<char>, b: Seq<char>, c: Seq<char>)
    requires
        lex_lt(a, b),
        lex_lt(b, c),
    ensures
        lex_lt(a, c),
    decreases a.len(),
{
    if a.len() > 0 {
        if a[0] == b[0] && b[0] == c[0] {
            lemma_lex_lt_transitive(a.drop_first(), b.drop_first(), c.drop_first());
        }
    }
}

/// Sequences that agree on their first `k` characters compare as their
/// remainders do.
pub proof fn lemma_lex_lt_skip(a: Seq<char>, b: Seq<char>, k: int)
    requires
        0 <= k <= a.len(),
        k <= b.len(),
        a.take(k) == b.take(k),
    ensures
        lex_lt(a, b) == lex_lt(a.skip(k), b.skip(k)),
    decreases k,
{
    if k == 0 {
        assert(a.skip(0) =~= a);
        assert(b.skip(0) =~= b);
    } else {
        assert(a[0] == a.take(k)[0]);
        assert(b[0] == b.take(k)[0]);
        let ta = a.drop_first();
        let tb = b.drop_first();
        assert(ta.take(k - 1) =~= a.take(k).drop_first());
        assert(tb.take(k - 1) =~= b.take(k).drop_first());
        lemma_lex_lt_skip(ta, tb, k - 1);
        assert(ta.skip(k - 1) =~= a.skip(k));
        assert(tb.skip(k - 1) =~= b.skip(k));
    }
}

/// The characters of `s`, in order.
pub fn chars_of(s: &str) -> (v: Vec<char>)
    ensures
        v@ == s@,
{
    let mut v: Vec<char> = Vec::new();
    for c in it: s.chars()
        invariant
            v@ == it.seq().take(it.index() as int),
    {
        v.push(c);
    }
    v
}

/// The string made of the characters of `v`.
pub fn string_of(v: &Vec<char>) -> (s: String)
    ensures
        s@ == v@,
{
    let mut s = String::new();
    let mut i: usize = 0;
    while i < v.len()
        invariant
            i <= v.len(),
            s@ == v@.take(i as int),
        decreases v.len() - i,
    {
        s.push(v[i]);
        i += 1;
    }
    assert(v@.take(v.len() as int) =~= v@);
    s
}

/// Three-way comparison of two character vectors.
pub fn compare_chars(a: &Vec<char>, b: &Vec<char>) -> (r: Order)
    ensures
        r == spec_compare(a@, b@),
{
    let mut i: usize = 0;
    while i < a.len() && i < b.len()
        invariant
            i <= a.len(),
            i <= b.len(),
            a@.take(i as int) == b@.take(i as int),
        decreases a.len() - i,
    {
        if a[i] != b[i] {
            proof {
                lemma_lex_lt_skip(a@, b@, i as int);
                assert(a@ != b@);
            }
            if (a[i] as u32) < (b[i] as u32) {
                return Order::Less;
            } else {
                proof {
                    lemma_lex_lt_total(a@, b@);
                }
                return Order::Greater;
            }
        }
        assert(a@.take(i + 1) =~= a@.take(i as int).push(a@[i as int]));
        assert(b@.take(i + 1) =~= b@.take(i as int).push(b@[i as int]));
        i += 1;
    }
    proof {
        lemma_lex_lt_skip(a@, b@, i as int);
        lemma_lex_lt_total(a@, b@);
    }
    if a.len() == b.len() {
        assert(a@ =~= a@.take(i as int));
        assert(b@ =~= b@.take(i as int));
        Order::Equal
    } else if i == a.len() {
        assert(a@.skip(i as int).len() == 0);
        Order::Less
    } else {
        assert(b@.skip(i as int).len() == 0);
        Order::Greater
    }
}

/// Three-way comparison of two strings.
pub fn compare_text(a: &str, b: &str) -> (r: Order)
    ensures
        r == spec_compare(a@, b@),
{
    let x = chars_of(a);
    let y = chars_of(b);
    compare_chars(&x, &y)
}

/// Whether two strings hold the same characters.
pub fn text_eq(a: &str, b: &str) -> (r: bool)
    ensures
        r == (a@ == b@),
{
    match compare_text(a, b) {
        Order::Equal => true,
        _ => false,
    }
}

/// The decimal digit for `d`, where `d < 10`.
pub open spec fn spec_digit(d: nat) -> char {
    if d == 0 {
        '0'
    } else if d == 1 {
        '1'
    } else if d == 2 {
        '2'
    } else if d == 3 {
        '3'
    } else if d == 4 {
        '4'
    } else if d == 5 {
        '5'
    } else if d == 6 {
        '6'
    } else if d == 7 {
        '7'
    } else if d == 8 {
        '8'
    } else {
        '9'
    }
}

/// `n` written in decimal, without leading zeros.
pub open spec fn spec_decimal(n: nat) -> Seq<char>
    decreases n,
{
    if n < 10 {
        seq![spec_digit(n)]
    } else {
        spec_decimal(n / 10).push(spec_digit(n % 10))
    }
}

fn digit(d: usize) -> (c: char)
    requires
        d < 10,
    ensures
        c == spec_digit(d as nat),
{
    if d == 0 {
        '0'
    } else if d == 1 {
        '1'
    } else if d == 2 {
        '2'
    } else if d == 3 {
        '3'
    } else if d == 4 {
        '4'
    } else if d == 5 {
        '5'
    } else if d == 6 {
        '6'
    } else if d == 7 {
        '7'
    } else if d == 8 {
        '8'
    } else {
        '9'
    }
}

/// `n` written in decimal.
pub fn decimal(n: usize) -> (s: String)
    ensures
        s@ == spec_decimal(n as nat),
{
    let mut low: Vec<char> = Vec::new();
    let mut m: usize = n;
    while m >= 10
        invariant
            spec_decimal(n as nat) == spec_decimal(m as nat) + low@.reverse(),
        decreases m,
    {
        let d = digit(m % 10);
        proof {
            let next = low@.push(d);
            assert(next.reverse() =~= seq![d] + low@.reverse());
            assert(spec_decimal(m as nat) == spec_decimal((m / 10) as nat).push(d));
            assert(spec_decimal((m / 10) as nat).push(d) + low@.reverse() =~= spec_decimal(
                (m / 10) as nat,
            ) + next.reverse());
        }
        low.push(d);
        m = m / 10;
    }
    let mut s = String::new();
    s.push(digit(m));
    let mut i: usize = low.len();
    while i > 0
        invariant
            i <= low.len(),
            s@ == spec_decimal(m as nat) + low@.reverse().take(low.len() - i),
        decreases i,
    {
        i -= 1;
        proof {
            let r = low@.reverse();
            let k = low.len() - i - 1;
            assert(r[k] == low@[i as int]);
            assert(r.take(k + 1) =~= r.take(k).push(r[k]));
        }
        s.push(low[i]);
    }
    assert(low@.reverse().take(low.len() as int) =~= low@.reverse());
    s
}

/// The number that a decimal digit stands for.
pub open spec fn spec_digit_value(c: char) -> Option<nat> {
    if '0' <= c <= '9' {
        Some((c as u32 - '0' as u32) as nat)
    } else {
        None
    }
}

/// The number that `s` is the decimal writing of: `s` holds digits only, one
/// at least, and starts with `0` only where it is `0`.
pub open spec fn spec_number(s: Seq<char>) -> Option<nat>
    decreases s.len(),
{
    if s.len() == 0 {
        None
    } else if s.len() == 1 {
        spec_digit_value(s[0])
    } else {
        match (spec_number(s.drop_last()), spec_digit_value(s.last())) {
            (Some(v), Some(d)) => if v > 0 {
                Some(v * 10 + d)
            } else {
                None
            },
            _ => None,
        }
    }
}

/// A number is the number that its decimal writing stands for.
pub proof fn lemma_number_of_decimal(n: nat)
    ensures
        spec_number(spec_decimal(n)) == Some(n),
    decreases n,
{
    if n >= 10 {
        lemma_number_of_decimal(n / 10);
        let s = spec_decimal(n);
        assert(s.drop_last() =~= spec_decimal(n / 10));
        assert(s.last() == spec_digit(n % 10));
        lemma_decimal_length(n / 10);
    }
}

/// A decimal writing has a digit at least.
pub proof fn lemma_decimal_length(n: nat)
    ensures
        spec_decimal(n).len() >= 1,
    decreases n,
{
    if n >= 10 {
        lemma_decimal_length(n / 10);
    }
}

/// A text that stands for a number is the decimal writing of that number.
pub proof fn lemma_decimal_of_number(s: Seq<char>)
    requires
        spec_number(s) is Some,
    ensures
        spec_decimal(spec_number(s)->0) == s,
    decreases s.len(),
{
    if s.len() == 1 {
        let d = spec_digit_value(s[0])->0;
        assert(spec_digit(d) == s[0]);
        assert(spec_decimal(d) =~= s);
    } else {
        let v = spec_number(s.drop_last())->0;
        let d = spec_digit_value(s.last())->0;
        lemma_decimal_of_number(s.drop_last());
        let n = v * 10 + d;
        assert(n / 10 == v && n % 10 == d);
        assert(spec_digit(d) == s.last());
        assert(spec_decimal(n) =~= s);
    }
}

/// Where a text stands for a number, each start of it does, and for no
/// larger one.
pub proof fn lemma_number_grows(s: Seq<char>, i: int)
    requires
        spec_number(s) is Some,
        1 <= i <= s.len(),
    ensures
        spec_number(s.take(i)) is Some,
        spec_number(s.take(i))->0 <= spec_number(s)->0,
    decreases s.len(),
{
    if i == s.len() {
        assert(s.take(i) =~= s);
    } else {
        assert(s.drop_last().take(i) =~= s.take(i));
        lemma_number_grows(s.drop_last(), i);
    }
}

/// The number that `s` is the decimal writing of, where that is a number
/// that can be counted.
pub fn number_of(s: &Vec<char>) -> (n: Option<usize>)
    ensures
        n matches Some(v) ==> spec_number(s@) == Some(v as nat),
        n is None ==> (spec_number(s@) matches Some(v) ==> v > usize::MAX),
{
    if s.len() == 0 {
        return None;
    }
    let mut value: usize = 0;
    let mut i: usize = 0;
    while i < s.len()
        invariant
            i <= s.len(),
            i == 0 ==> value == 0,
            i >= 1 ==> spec_number(s@.take(i as int)) == Some(value as nat),
        decreases s.len() - i,
    {
        let c = s[i];
        proof {
            let next = s@.take(i + 1);
            assert(next.drop_last() =~= s@.take(i as int));
            assert(next.last() == c);
            if spec_number(s@) is Some {
                lemma_number_grows(s@, i + 1);
            }
        }
        if !('0' <= c && c <= '9') || (i >= 1 && value == 0) {
            return None;
        }
        let d: usize = (c as u32 - '0' as u32) as usize;
        if value > (usize::MAX - d) / 10 {
            proof {
                assert(value * 10 + d > usize::MAX) by (nonlinear_arith)
                    requires
                        value > (usize::MAX - d) / 10,
                        d < 10,
                ;
            }
            return None;
        }
        assert(value * 10 + d <= usize::MAX) by (nonlinear_arith)
            requires
                value <= (usize::MAX - d) / 10,
                d < 10,
        ;
        value = value * 10 + d;
        i += 1;
    }
    assert(s@.take(s.len() as int) =~= s@);
    Some(value)
}

/// The concatenation of `parts`, with `sep` between neighbours.
pub open spec fn spec_join(parts: Seq<Seq<char>>, sep: Seq<char>) -> Seq<char>
    decreases parts.len(),
{
    if parts.len() == 0 {
        Seq::empty()
    } else if parts.len() == 1 {
        parts[0]
    } else {
        spec_join(parts.drop_last(), sep) + sep + parts.last()
    }
}

/// The texts of a sequence of strings.
pub open spec fn texts(v: Seq<String>) -> Seq<Seq<char>> {
    Seq::new(v.len(), |i: int| v[i]@)
}

/// The texts of a sequence of lists of strings.
pub open spec fn text_lists(v: Seq<Vec<String>>) -> Seq<Seq<Seq<char>>> {
    Seq::new(v.len(), |i: int| texts(v[i]@))
}

/// Joins `parts` with `sep` between neighbours.
pub fn join(parts: &Vec<String>, sep: &str) -> (s: String)
    ensures
        s@ == spec_join(texts(parts@), sep@),
{
    let mut s = String::new();
    let mut i: usize = 0;
    while i < parts.len()
        invariant
            i <= parts.len(),
            s@ == spec_join(texts(parts@).take(i as int), sep@),
        decreases parts.len() - i,
    {
        proof {
            let all = texts(parts@);
            let next = all.take(i + 1);
            assert(next.drop_last() =~= all.take(i as int));
            assert(next.last() == parts@[i as int]@);
            if i == 0 {
                assert(s@ + parts@[i as int]@ =~= parts@[i as int]@);
            }
        }
        if i > 0 {
            s.append(sep);
        }
        s.append(parts[i].as_str());
        i += 1;
    }
    assert(texts(parts@).take(parts.len() as int) =~= texts(parts@));
    s
}

/// A copy of a list of strings.
pub fn clone_strings(v: &Vec<String>) -> (r: Vec<String>)
    ensures
        r@ == v@,
{
    let mut r: Vec<String> = Vec::new();
    let mut i: usize = 0;
    while i < v.len()
        invariant
            i <= v.len(),
            r@ == v@.take(i as int),
        decreases v.len() - i,
    {
        r.push(v[i].clone());
        assert(v@.take(i + 1) =~= v@.take(i as int).push(v@[i as int]));
        i += 1;
    }
    assert(v@.take(v.len() as int) =~= v@);
    r
}

/// Whether `c` is white space: a character with the Unicode property
/// `White_Space`.
pub open spec fn spec_is_space(c: char) -> bool {
    let u = c as u32;
    ||| 0x09 <= u <= 0x0D
    ||| u == 0x20
    ||| u == 0x85
    ||| u == 0xA0
    ||| u == 0x1680
    ||| 0x2000 <= u <= 0x200A
    ||| u == 0x2028
    ||| u == 0x2029
    ||| u == 0x202F
    ||| u == 0x205F
    ||| u == 0x3000
}

/// Whether `c` is white space.
pub fn is_space(c: char) -> (b: bool)
    ensures
        b == spec_is_space(c),
{
    let u: u32 = c as u32;
    (0x09 <= u && u <= 0x0D) || u == 0x20 || u == 0x85 || u == 0xA0 || u == 0x1680 || (0x2000 <= u
        && u <= 0x200A) || u == 0x2028 || u == 0x2029 || u == 0x202F || u == 0x205F || u == 0x3000
}

/// `s` with each character replaced by what `f` gives for it.
pub open spec fn spec_expand(s: Seq<char>, f: spec_fn(char) -> Seq<char>) -> Seq<char>
    decreases s.len(),
{
    if s.len() == 0 {
        Seq::empty()
    } else {
        spec_expand(s.drop_last(), f) + f(s.last())
    }
}

/// What stands for a character in XML text: a named entity for `&`, `<`,
/// `>`, `"` and `'`, the character itself for any other.
pub open spec fn spec_xml_entity(c: char) -> Seq<char> {
    if c == '&' {
        "&amp;"@
    } else if c == '<' {
        "&lt;"@
    } else if c == '>' {
        "&gt;"@
    } else if c == '"' {
        "&quot;"@
    } else if c == '\'' {
        "&apos;"@
    } else {
        seq![c]
    }
}

/// `s` as XML text.
pub open spec fn spec_escape_xml(s: Seq<char>) -> Seq<char> {
    spec_expand(s, |c: char| spec_xml_entity(c))
}

/// `s` as XML text.
pub fn escape_xml(s: &str) -> (escaped: String)
    ensures
        escaped@ == spec_escape_xml(s@),
{
    let chars = chars_of(s);
    let mut escaped = String::new();
    let mut i: usize = 0;
    assert(escaped@ =~= spec_escape_xml(chars@.take(0)));
    while i < chars.len()
        invariant
            i <= chars.len(),
            escaped@ == spec_escape_xml(chars@.take(i as int)),
        decreases chars.len() - i,
    {
        let c = chars[i];
        proof {
            let next = chars@.take(i + 1);
            assert(next.drop_last() =~= chars@.take(i as int));
            assert(next.last() == c);
            assert(escaped@.push(c) =~= escaped@ + seq![c]);
        }
        if c == '&' {
            escaped.append("&amp;");
        } else if c == '<' {
            escaped.append("&lt;");
        } else if c == '>' {
            escaped.append("&gt;");
        } else if c == '"' {
            escaped.append("&quot;");
        } else if c == '\'' {
            escaped.append("&apos;");
        } else {
            escaped.push(c);
        }
        i += 1;
    }
    assert(chars@.take(chars.len() as int) =~= chars@);
    escaped
}

/// What stands for a character when tags are set apart: a space before `<`,
/// a space behind `>`.
pub open spec fn spec_apart(c: char) -> Seq<char> {
    if c == '<' {
        seq![' ', '<']
    } else if c == '>' {
        seq!['>', ' ']
    } else {
        seq![c]
    }
}

/// `s` with a space before each `<` and behind each `>`, so that the words
/// on both sides of a tag stay apart when the tag is taken out.
pub open spec fn spec_space_tags(s: Seq<char>) -> Seq<char> {
    spec_expand(s, |c: char| spec_apart(c))
}

/// `s` with a space before each `<` and behind each `>`.
pub fn space_tags(s: &str) -> (spaced: String)
    ensures
        spaced@ == spec_space_tags(s@),
{
    let chars = chars_of(s);
    let mut spaced = String::new();
    let mut i: usize = 0;
    assert(spaced@ =~= spec_space_tags(chars@.take(0)));
    while i < chars.len()
        invariant
            i <= chars.len(),
            spaced@ == spec_space_tags(chars@.take(i as int)),
        decreases chars.len() - i,
    {
        let c = chars[i];
        proof {
            let next = chars@.take(i + 1);
            assert(next.drop_last() =~= chars@.take(i as int));
            assert(next.last() == c);
            assert(spaced@.push(c) =~= spaced@ + seq![c]);
            assert(spaced@.push(' ').push('<') =~= spaced@ + seq![' ', '<']);
            assert(spaced@.push('>').push(' ') =~= spaced@ + seq!['>', ' ']);
        }
        if c == '<' {
            spaced.push(' ');
            spaced.push('<');
        } else if c == '>' {
            spaced.push('>');
            spaced.push(' ');
        } else {
            spaced.push(c);
        }
        i += 1;
    }
    assert(chars@.take(chars.len() as int) =~= chars@);
    spaced
}

/// The first `n` characters of `s`, and `s` itself where it has fewer.
pub open spec fn spec_first(s: Seq<char>, n: nat) -> Seq<char> {
    if s.len() <= n {
        s
    } else {
        s.take(n as int)
    }
}

/// The first `n` characters of `s`.
pub fn first_chars(s: &str, n: usize) -> (first: String)
    ensures
        first@ == spec_first(s@, n as nat),
{
    let chars = chars_of(s);
    let mut first = String::new();
    let mut i: usize = 0;
    while i < chars.len() && i < n
        invariant
            i <= chars.len(),
            i <= n,
            first@ == chars@.take(i as int),
        decreases chars.len() - i,
    {
        first.push(chars[i]);
        assert(chars@.take(i + 1) =~= chars@.take(i as int).push(chars@[i as int]));
        i += 1;
    }
    assert(chars@.take(chars.len() as int) =~= chars@);
    first
}

/// `s` without the white space at its end.
pub open spec fn spec_trim_end(s: Seq<char>) -> Seq<char>
    decreases s.len(),
{
    if s.len() > 0 && spec_is_space(s.last()) {
        spec_trim_end(s.drop_last())
    } else {
        s
    }
}

/// `s` without the white space at its start.
pub open spec fn spec_trim_start(s: Seq<char>) -> Seq<char>
    decreases s.len(),
{
    if s.len() > 0 && spec_is_space(s[0]) {
        spec_trim_start(s.drop_first())
    } else {
        s
    }
}

/// `s` without the white space at its start and at its end.
pub open spec fn spec_trim(s: Seq<char>) -> Seq<char> {
    spec_trim_end(spec_trim_start(s))
}

/// `s` without the slashes at its end.
pub open spec fn spec_trim_end_slashes(s: Seq<char>) -> Seq<char>
    decreases s.len(),
{
    if s.len() > 0 && s.last() == '/' {
        spec_trim_end_slashes(s.drop_last())
    } else {
        s
    }
}

/// The characters of `chars` from place `from` up to, not including, place
/// `to`, as a string.
pub fn piece(chars: &Vec<char>, from: usize, to: usize) -> (s: String)
    requires
        from <= to <= chars.len(),
    ensures
        s@ == chars@.subrange(from as int, to as int),
{
    let mut s = String::new();
    let mut i: usize = from;
    while i < to
        invariant
            from <= i <= to <= chars.len(),
            s@ == chars@.subrange(from as int, i as int),
        decreases to - i,
    {
        s.push(chars[i]);
        assert(chars@.subrange(from as int, i + 1) =~= chars@.subrange(from as int, i as int).push(
            chars@[i as int],
        ));
        i += 1;
    }
    s
}

/// `s` without the white space at its start and at its end.
pub fn trim(s: &str) -> (trimmed: String)
    ensures
        trimmed@ == spec_trim(s@),
{
    let chars = chars_of(s);
    let mut from: usize = 0;
    assert(chars@.skip(0) =~= chars@);
    while from < chars.len() && is_space(chars[from])
        invariant
            from <= chars.len(),
            spec_trim_start(chars@) == spec_trim_start(chars@.skip(from as int)),
        decreases chars.len() - from,
    {
        proof {
            let rest = chars@.skip(from as int);
            assert(rest[0] == chars@[from as int]);
            assert(rest.drop_first() =~= chars@.skip(from + 1));
        }
        from += 1;
    }
    proof {
        let rest = chars@.skip(from as int);
        if from < chars.len() {
            assert(rest[0] == chars@[from as int]);
        }
        assert(spec_trim_start(chars@) == rest);
    }
    let mut to: usize = chars.len();
    while to > from && is_space(chars[to - 1])
        invariant
            from <= to <= chars.len(),
            spec_trim_end(chars@.skip(from as int)) == spec_trim_end(
                chars@.subrange(from as int, to as int),
            ),
        decreases to,
    {
        proof {
            let part = chars@.subrange(from as int, to as int);
            assert(part.last() == chars@[to - 1]);
            assert(part.drop_last() =~= chars@.subrange(from as int, to - 1));
        }
        to -= 1;
    }
    proof {
        assert(chars@.skip(from as int) =~= chars@.subrange(from as int, chars.len() as int));
        let part = chars@.subrange(from as int, to as int);
        if to > from {
            assert(part.last() == chars@[to - 1]);
        }
        assert(spec_trim_end(part) == part);
    }
    piece(&chars, from, to)
}

/// `s` without the slashes at its end.
pub fn trim_end_slashes(s: &str) -> (trimmed: String)
    ensures
        trimmed@ == spec_trim_end_slashes(s@),
{
    let chars = chars_of(s);
    let mut to: usize = chars.len();
    assert(chars@ =~= chars@.take(to as int));
    while to > 0 && chars[to - 1] == '/'
        invariant
            to <= chars.len(),
            spec_trim_end_slashes(chars@) == spec_trim_end_slashes(chars@.take(to as int)),
        decreases to,
    {
        proof {
            let part = chars@.take(to as int);
            assert(part.last() == chars@[to - 1]);
            assert(part.drop_last() =~= chars@.take(to - 1));
        }
        to -= 1;
    }
    proof {
        let part = chars@.take(to as int);
        if to > 0 {
            assert(part.last() == chars@[to - 1]);
        }
        assert(part =~= chars@.subrange(0, to as int));
    }
    piece(&chars, 0, to)
}

} // verus!
