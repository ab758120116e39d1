//! Character-sequence helpers shared by the rest of the library.
use vstd::prelude::*;
use vstd::string::StrSliceExecFns;

verus! {

/// `s` begins with `prefix`.
pub open spec fn has_prefix(s: Seq<char>, prefix: Seq<char>) -> bool {
    prefix.len() <= s.len() && s.subrange(0, prefix.len() as int) =~= prefix
}

/// `s` ends with `suffix`.
pub open spec fn has_suffix(s: Seq<char>, suffix: Seq<char>) -> bool {
    suffix.len() <= s.len() && s.subrange(s.len() - suffix.len(), s.len() as int) =~= suffix
}

/// `needle` occurs in `s` starting at position `i`.
pub open spec fn occurs_at(s: Seq<char>, needle: Seq<char>, i: int) -> bool {
    0 <= i && i + needle.len() <= s.len() && s.subrange(i, i + needle.len()) =~= needle
}

/// `needle` occurs somewhere in `s` (the empty needle occurs in every sequence).
pub open spec fn has_infix(s: Seq<char>, needle: Seq<char>) -> bool {
    exists|i: int| occurs_at(s, needle, i)
}

/// The decimal digit for `d < 10`.
pub open spec fn digit_char(d: nat) -> char {
    if d == 0 { '0' } else if d == 1 { '1' } else if d == 2 { '2' } else if d == 3 { '3' }
    else if d == 4 { '4' } else if d == 5 { '5' } else if d == 6 { '6' } else if d == 7 { '7' }
    else if d == 8 { '8' } else { '9' }
}

/// Decimal rendering of a natural number, without leading zeros.
pub open spec fn decimal(n: nat) -> Seq<char>
    decreases n,
{
    if n < 10 {
        seq![digit_char(n)]
    } else {
        decimal(n / 10).push(digit_char(n % 10))
    }
}

/// Decimal rendering of an integer, with a leading `-` when it is negative.
pub open spec fn signed_decimal(n: int) -> Seq<char> {
    if n < 0 { seq!['-'] + decimal((-n) as nat) } else { decimal(n as nat) }
}

/// Decimal rendering padded with zeros on the left to at least two digits.
pub open spec fn two_digits(n: nat) -> Seq<char> {
    if n < 10 { seq!['0', digit_char(n)] } else { decimal(n) }
}

/// Appends one character to a string with `String::push`, which leaves the
/// characters already there and adds `c` after them.
#[verifier::external_body]
pub(crate) fn push_char(s: &mut String, c: char)
    ensures
        final(s)@ == old(s)@.push(c),
{
    s.push(c);
}

/// The characters of `s`, in order.
pub fn chars_of(s: &str) -> (v: Vec<char>)
    ensures
        v@ == s@,
{
    let n = s.unicode_len();
    let mut v: Vec<char> = Vec::new();
    let mut i: usize = 0;
    while i < n
        invariant
            n == s@.len(),
            i <= n,
            v@ == s@.subrange(0, i as int),
        decreases n - i,
    {
        let c = s.get_char(i);
        v.push(c);
        i = i + 1;
    }
    v
}

/// The string made of the characters of `v`.
pub fn string_of(v: &[char]) -> (s: String)
    ensures
        s@ == v@,
{
    let mut s = String::new();
    let mut i: usize = 0;
    while i < v.len()
        invariant
            i <= v@.len(),
            s@ == v@.subrange(0, i as int),
        decreases v@.len() - i,
    {
        push_char(&mut s, v[i]);
        i = i + 1;
    }
    s
}

/// Appends every character of `v` to `s`.
pub fn push_chars(s: &mut String, v: &[char])
    ensures
        final(s)@ == old(s)@ + v@,
{
    let mut i: usize = 0;
    while i < v.len()
        invariant
            i <= v@.len(),
            s@ == old(s)@ + v@.subrange(0, i as int),
        decreases v@.len() - i,
    {
        push_char(s, v[i]);
        i = i + 1;
    }
}

/// Appends `t` to `s`.
pub fn push_str(s: &mut String, t: &str)
    ensures
        final(s)@ == old(s)@ + t@,
{
    let v = chars_of(t);
    push_chars(s, v.as_slice());
}

/// The string holding exactly the characters of `t`.
pub fn owned(t: &str) -> (s: String)
    ensures
        s@ == t@,
{
    let mut s = String::new();
    push_str(&mut s, t);
    s
}

/// Whether two character sequences are equal.
pub fn chars_equal(a: &[char], b: &[char]) -> (r: bool)
    ensures
        r == (a@ == b@),
{
    if a.len() != b.len() {
        return false;
    }
    let mut i: usize = 0;
    while i < a.len()
        invariant
            a@.len() == b@.len(),
            i <= a@.len(),
            forall|j: int| 0 <= j < i ==> a@[j] == b@[j],
        decreases a@.len() - i,
    {
        if a[i] != b[i] {
            return false;
        }
        i = i + 1;
    }
    assert(a@ =~= b@);
    true
}

/// Whether two strings hold the same characters.
pub fn str_equal(a: &str, b: &str) -> (r: bool)
    ensures
        r == (a@ == b@),
{
    let va = chars_of(a);
    let vb = chars_of(b);
    chars_equal(va.as_slice(), vb.as_slice())
}

/// Whether `needle` occurs in `s` at position `i`.
pub fn occurs_at_exec(s: &[char], needle: &[char], i: usize) -> (r: bool)
    ensures
        r == occurs_at(s@, needle@, i as int),
{
    if i > s.len() || needle.len() > s.len() - i {
        return false;
    }
    let mut k: usize = 0;
    while k < needle.len()
        invariant
            i + needle@.len() <= s@.len(),
            s@.len() == s.len(),
            k <= needle@.len(),
            forall|j: int| 0 <= j < k ==> s@[i + j] == needle@[j],
        decreases needle@.len() - k,
    {
        if s[i + k] != needle[k] {
            assert(s@.subrange(i as int, i + needle@.len())[k as int] != needle@[k as int]);
            return false;
        }
        k = k + 1;
    }
    assert(s@.subrange(i as int, i + needle@.len()) =~= needle@);
    true
}

/// Whether `s` begins with `prefix`.
pub fn starts_with_chars(s: &[char], prefix: &[char]) -> (r: bool)
    ensures
        r == has_prefix(s@, prefix@),
{
    occurs_at_exec(s, prefix, 0)
}

/// Whether `s` ends with `suffix`.
pub fn ends_with_chars(s: &[char], suffix: &[char]) -> (r: bool)
    ensures
        r == has_suffix(s@, suffix@),
{
    if suffix.len() > s.len() {
        return false;
    }
    occurs_at_exec(s, suffix, s.len() - suffix.len())
}

/// Whether `needle` occurs anywhere in `s`.
pub fn contains_chars(s: &[char], needle: &[char]) -> (r: bool)
    ensures
        r == has_infix(s@, needle@),
{
    if needle.len() > s.len() {
        assert forall|i: int| !occurs_at(s@, needle@, i) by {}
        return false;
    }
    let last = s.len() - needle.len();
    let mut i: usize = 0;
    loop
        invariant
            last + needle@.len() == s@.len(),
            i <= last,
            forall|j: int| 0 <= j < i ==> !occurs_at(s@, needle@, j),
        decreases last - i,
    {
        if occurs_at_exec(s, needle, i) {
            return true;
        }
        if i == last {
            assert forall|j: int| !occurs_at(s@, needle@, j) by {
                if 0 <= j < i {
                }
            }
            return false;
        }
        i = i + 1;
    }
}

/// Whether the text `word` occurs anywhere in `s`.
pub fn contains_word(s: &[char], word: &str) -> (r: bool)
    ensures
        r == has_infix(s@, word@),
{
    let w = chars_of(word);
    contains_chars(s, w.as_slice())
}

/// Whether the string `s` begins with `prefix`.
pub fn str_starts_with(s: &str, prefix: &str) -> (r: bool)
    ensures
        r == has_prefix(s@, prefix@),
{
    let vs = chars_of(s);
    let vp = chars_of(prefix);
    starts_with_chars(vs.as_slice(), vp.as_slice())
}

/// Appends the decimal rendering of `n` to `s`.
pub fn push_decimal(s: &mut String, n: u64)
    ensures
        final(s)@ == old(s)@ + decimal(n as nat),
    decreases n,
{
    if n >= 10 {
        push_decimal(s, n / 10);
    }
    let d = n % 10;
    let c = if d == 0 { '0' } else if d == 1 { '1' } else if d == 2 { '2' } else if d == 3 { '3' }
        else if d == 4 { '4' } else if d == 5 { '5' } else if d == 6 { '6' } else if d == 7 { '7' }
        else if d == 8 { '8' } else { '9' };
    push_char(s, c);
    proof {
        if n >= 10 {
            assert(decimal(n as nat) == decimal((n / 10) as nat).push(digit_char((n % 10) as nat)));
        }
    }
    assert(s@ =~= old(s)@ + decimal(n as nat));
}

/// Appends the decimal rendering of `n`, with a `-` when negative.
pub fn push_signed_decimal(s: &mut String, n: i64)
    ensures
        final(s)@ == old(s)@ + signed_decimal(n as int),
{
    if n < 0 {
        push_char(s, '-');
        let m: u64 = if n == i64::MIN { 9_223_372_036_854_775_808u64 } else { (-n) as u64 };
        push_decimal(s, m);
        assert(s@ =~= old(s)@ + signed_decimal(n as int));
    } else {
        push_decimal(s, n as u64);
    }
}

/// Appends `n` padded with zeros to at least two digits.
pub fn push_two_digits(s: &mut String, n: u64)
    ensures
        final(s)@ == old(s)@ + two_digits(n as nat),
{
    if n < 10 {
        push_char(s, '0');
        push_decimal(s, n);
        assert(s@ =~= old(s)@ + two_digits(n as nat));
    } else {
        push_decimal(s, n);
    }
}

} // verus!

verus! {

/// `c` is an ASCII decimal digit.
pub open spec fn is_digit(c: char) -> bool {
    '0' <= c <= '9'
}

/// The value of an ASCII decimal digit.
pub open spec fn digit_value(c: char) -> nat {
    (c as int - '0' as int) as nat
}

/// The value of a run of decimal digits (the empty run is zero).
pub open spec fn digits_value(s: Seq<char>) -> nat
    decreases s.len(),
{
    if s.len() == 0 {
        0
    } else {
        digits_value(s.drop_last()) * 10 + digit_value(s.last())
    }
}

/// The digits after an optional leading `+`.
pub open spec fn unsigned_body(s: Seq<char>) -> Seq<char> {
    if s.len() > 0 && s[0] == '+' { s.drop_first() } else { s }
}

/// What Rust's `str::parse` gives for an unsigned integer type whose largest
/// value is `max`: an optional `+`, then one or more ASCII digits, with a
/// value no larger than `max`.
pub open spec fn parse_unsigned(s: Seq<char>, max: nat) -> Option<nat> {
    let body = unsigned_body(s);
    if body.len() > 0 && (forall|i: int| 0 <= i < body.len() ==> is_digit(#[trigger] body[i]))
        && digits_value(body) <= max {
        Some(digits_value(body))
    } else {
        None
    }
}

proof fn lemma_digits_value_prefix_bound(s: Seq<char>, k: int)
    requires
        0 <= k <= s.len(),
        forall|i: int| 0 <= i < s.len() ==> is_digit(#[trigger] s[i]),
    ensures
        digits_value(s.subrange(0, k)) <= digits_value(s),
    decreases s.len() - k,
{
    if k < s.len() {
        lemma_digits_value_prefix_bound(s, k + 1);
        let p = s.subrange(0, k + 1);
        assert(p.drop_last() =~= s.subrange(0, k));
        assert(digits_value(p) == digits_value(s.subrange(0, k)) * 10 + digit_value(p.last()));
    } else {
        assert(s.subrange(0, k) =~= s);
    }
}

/// Parses an unsigned decimal number no larger than `max`, as Rust's
/// `str::parse` does for unsigned integer types.
pub fn parse_unsigned_chars(s: &[char], max: u64) -> (r: Option<u64>)
    ensures
        r matches Some(v) ==> parse_unsigned(s@, max as nat) == Some(v as nat),
        r is None ==> parse_unsigned(s@, max as nat) is None,
{
    let start: usize = if s.len() > 0 && s[0] == '+' { 1 } else { 0 };
    let ghost body = unsigned_body(s@);
    assert(body =~= s@.subrange(start as int, s@.len() as int));
    if start >= s.len() {
        return None;
    }
    let mut value: u64 = 0;
    let mut i: usize = start;
    while i < s.len()
        invariant
            start <= i <= s@.len(),
            s@.len() == s.len(),
            body =~= s@.subrange(start as int, s@.len() as int),
            body == unsigned_body(s@),
            forall|j: int| 0 <= j < i - start ==> is_digit(#[trigger] body[j]),
            value == digits_value(body.subrange(0, i - start)),
            value <= max,
        decreases s@.len() - i,
    {
        let c = s[i];
        if !('0' <= c && c <= '9') {
            assert(!is_digit(body[i - start]));
            assert(!(forall|j: int| 0 <= j < body.len() ==> is_digit(#[trigger] body[j])));
            assert(parse_unsigned(s@, max as nat) is None);
            return None;
        }
        let d: u64 = ((c as u32) - ('0' as u32)) as u64;
        let ghost prefix = body.subrange(0, i - start + 1);
        assert(prefix.drop_last() =~= body.subrange(0, i - start));
        assert(prefix.last() == c);
        assert(digit_value(c) == d);
        assert(digits_value(prefix) == value * 10 + d);
        if value > max / 10 || (value == max / 10 && d > max % 10) {
            proof {
                assert(value * 10 + d > max) by (nonlinear_arith)
                    requires
                        value > max / 10 || (value == max / 10 && d > max % 10),
                        max == (max / 10) * 10 + max % 10,
                ;
                // the full run is at least as large as this prefix
                if forall|j: int| 0 <= j < body.len() ==> is_digit(#[trigger] body[j]) {
                    lemma_digits_value_prefix_bound(body, i - start + 1);
                    assert(digits_value(body) > max);
                }
                assert(parse_unsigned(s@, max as nat) is None);
            }
            return None;
        }
        assert(value * 10 + d <= max) by (nonlinear_arith)
            requires
                !(value > max / 10 || (value == max / 10 && d > max % 10)),
                max == (max / 10) * 10 + max % 10,
                d < 10,
        ;
        value = value * 10 + d;
        i = i + 1;
    }
    assert(body.subrange(0, body.len() as int) =~= body);
    Some(value)
}

/// Parses a `u64` as Rust's `str::parse::<u64>` does.
pub fn parse_u64(s: &str) -> (r: Option<u64>)
    ensures
        r matches Some(v) ==> parse_unsigned(s@, u64::MAX as nat) == Some(v as nat),
        r is None ==> parse_unsigned(s@, u64::MAX as nat) is None,
{
    let v = chars_of(s);
    parse_unsigned_chars(v.as_slice(), u64::MAX)
}

/// Parses a `u16` as Rust's `str::parse::<u16>` does.
pub fn parse_u16(s: &str) -> (r: Option<u16>)
    ensures
        r matches Some(v) ==> parse_unsigned(s@, u16::MAX as nat) == Some(v as nat),
        r is None ==> parse_unsigned(s@, u16::MAX as nat) is None,
{
    let v = chars_of(s);
    match parse_unsigned_chars(v.as_slice(), u16::MAX as u64) {
        Some(x) => Some(x as u16),
        None => None,
    }
}

} // verus!

verus! {

/// `s` with every trailing `c` removed.
pub open spec fn trim_end_char(s: Seq<char>, c: char) -> Seq<char>
    decreases s.len(),
{
    if s.len() > 0 && s.last() == c {
        trim_end_char(s.drop_last(), c)
    } else {
        s
    }
}

/// Removes every trailing `c`, as `str::trim_end_matches(c)` does.
pub fn trim_end_chars(s: &[char], c: char) -> (r: Vec<char>)
    ensures
        r@ == trim_end_char(s@, c),
{
    let mut end: usize = s.len();
    assert(s@.subrange(0, end as int) =~= s@);
    while end > 0 && s[end - 1] == c
        invariant
            end <= s@.len(),
            trim_end_char(s@.subrange(0, end as int), c) == trim_end_char(s@, c),
        decreases end,
    {
        assert(s@.subrange(0, end as int).drop_last() =~= s@.subrange(0, end - 1));
        end = end - 1;
    }
    let mut r: Vec<char> = Vec::new();
    let mut i: usize = 0;
    while i < end
        invariant
            i <= end <= s@.len(),
            r@ == s@.subrange(0, i as int),
        decreases end - i,
    {
        r.push(s[i]);
        i = i + 1;
    }
    proof {
        assert(s@.subrange(0, s@.len() as int) =~= s@);
    }
    r
}

/// Number of occurrences of `c` in `s`.
pub open spec fn count_char(s: Seq<char>, c: char) -> nat
    decreases s.len(),
{
    if s.len() == 0 {
        0
    } else {
        count_char(s.drop_last(), c) + if s.last() == c { 1nat } else { 0nat }
    }
}

/// Index of the first `c` in `s`, or `s.len()` when there is none.
pub open spec fn first_index_of(s: Seq<char>, c: char) -> int
    decreases s.len(),
{
    if s.len() == 0 {
        0
    } else if s[0] == c {
        0
    } else {
        1 + first_index_of(s.drop_first(), c)
    }
}

/// The two pieces of `s` around its only `sep`, when `s` holds exactly one
/// `sep` (what `split(sep)` gives when it yields exactly two parts).
pub open spec fn split_in_two(s: Seq<char>, sep: char) -> Option<(Seq<char>, Seq<char>)> {
    if count_char(s, sep) == 1 {
        let i = first_index_of(s, sep);
        Some((s.subrange(0, i), s.subrange(i + 1, s.len() as int)))
    } else {
        None
    }
}

proof fn lemma_count_push(s: Seq<char>, x: char, c: char)
    ensures
        count_char(s.push(x), c) == count_char(s, c) + if x == c { 1nat } else { 0nat },
{
    assert(s.push(x).drop_last() =~= s);
}

proof fn lemma_first_index_prefix(s: Seq<char>, c: char, k: int)
    requires
        0 <= k <= s.len(),
        forall|j: int| 0 <= j < k ==> s[j] != c,
    ensures
        first_index_of(s, c) == k + first_index_of(s.subrange(k, s.len() as int), c),
    decreases k,
{
    if k > 0 {
        assert(s[0] != c);
        lemma_first_index_prefix(s.drop_first(), c, k - 1);
        assert(s.drop_first().subrange(k - 1, s.drop_first().len() as int) =~= s.subrange(k, s.len() as int));
    } else {
        assert(s.subrange(0, s.len() as int) =~= s);
    }
}

/// Splits `s` around `sep` when it holds exactly one `sep`.
pub fn split_in_two_chars(s: &[char], sep: char) -> (r: Option<(Vec<char>, Vec<char>)>)
    ensures
        match r {
            Some((a, b)) => split_in_two(s@, sep) == Some((a@, b@)),
            None => split_in_two(s@, sep) is None,
        },
{
    let mut count: usize = 0;
    let mut first: usize = s.len();
    let mut i: usize = 0;
    while i < s.len()
        invariant
            i <= s@.len(),
            count <= i,
            count == count_char(s@.subrange(0, i as int), sep),
            count == 0 ==> first == s@.len() && forall|j: int| 0 <= j < i ==> s@[j] != sep,
            count > 0 ==> first < i && s@[first as int] == sep && forall|j: int|
                0 <= j < first ==> s@[j] != sep,
        decreases s@.len() - i,
    {
        proof {
            lemma_count_push(s@.subrange(0, i as int), s@[i as int], sep);
            assert(s@.subrange(0, i as int).push(s@[i as int]) =~= s@.subrange(0, i + 1));
        }
        if s[i] == sep {
            if count == 0 {
                first = i;
            }
            count = count + 1;
        }
        i = i + 1;
    }
    assert(s@.subrange(0, s@.len() as int) =~= s@);
    if count != 1 {
        return None;
    }
    proof {
        lemma_first_index_prefix(s@, sep, first as int);
        assert(s@.subrange(first as int, s@.len() as int)[0] == sep);
    }
    let mut a: Vec<char> = Vec::new();
    let mut k: usize = 0;
    while k < first
        invariant
            k <= first < s@.len(),
            a@ == s@.subrange(0, k as int),
        decreases first - k,
    {
        a.push(s[k]);
        k = k + 1;
    }
    let mut b: Vec<char> = Vec::new();
    let mut m: usize = first + 1;
    while m < s.len()
        invariant
            first + 1 <= m <= s@.len(),
            b@ == s@.subrange(first + 1, m as int),
        decreases s@.len() - m,
    {
        b.push(s[m]);
        m = m + 1;
    }
    Some((a, b))
}

/// The pieces of `s` before and after its first `sep`, when it holds one
/// (what `str::split_once` gives).
pub open spec fn split_at_first(s: Seq<char>, sep: char) -> Option<(Seq<char>, Seq<char>)> {
    let i = first_index_of(s, sep);
    if i < s.len() {
        Some((s.subrange(0, i), s.subrange(i + 1, s.len() as int)))
    } else {
        None
    }
}

proof fn lemma_first_index_found(s: Seq<char>, c: char)
    ensures
        0 <= first_index_of(s, c) <= s.len(),
        first_index_of(s, c) < s.len() ==> s[first_index_of(s, c)] == c,
        forall|j: int| 0 <= j < first_index_of(s, c) ==> s[j] != c,
    decreases s.len(),
{
    if s.len() > 0 && s[0] != c {
        lemma_first_index_found(s.drop_first(), c);
        assert forall|j: int| 0 <= j < first_index_of(s, c) implies s[j] != c by {
            if j > 0 {
                assert(s[j] == s.drop_first()[j - 1]);
            }
        }
    }
}

/// Splitting `a`, `sep`, `b` at the first `sep` gives back `a` and `b`
/// when `a` holds no `sep`.
pub proof fn lemma_split_joined(a: Seq<char>, sep: char, b: Seq<char>)
    requires
        !a.contains(sep),
    ensures
        split_at_first(a + seq![sep] + b, sep) == Some((a, b)),
{
    let s = a + seq![sep] + b;
    assert forall|j: int| 0 <= j < a.len() implies s[j] != sep by {
        assert(s[j] == a[j]);
    }
    lemma_first_index_prefix(s, sep, a.len() as int);
    assert(s.subrange(a.len() as int, s.len() as int)[0] == sep);
    assert(s.subrange(0, a.len() as int) =~= a);
    assert(s.subrange(a.len() + 1int, s.len() as int) =~= b);
}

/// Splits `s` at its first `sep`.
pub fn split_once_chars(s: &[char], sep: char) -> (r: Option<(Vec<char>, Vec<char>)>)
    ensures
        match r {
            Some((a, b)) => split_at_first(s@, sep) == Some((a@, b@)),
            None => split_at_first(s@, sep) is None,
        },
{
    proof {
        lemma_first_index_found(s@, sep);
    }
    let mut i: usize = 0;
    while i < s.len() && s[i] != sep
        invariant
            i <= s@.len(),
            forall|j: int| 0 <= j < i ==> s@[j] != sep,
        decreases s@.len() - i,
    {
        i = i + 1;
    }
    proof {
        lemma_first_index_prefix(s@, sep, i as int);
        if i < s@.len() {
            assert(s@.subrange(i as int, s@.len() as int)[0] == sep);
        } else {
            assert(s@.subrange(i as int, s@.len() as int) =~= Seq::<char>::empty());
        }
    }
    if i == s.len() {
        return None;
    }
    let mut a: Vec<char> = Vec::new();
    let mut k: usize = 0;
    while k < i
        invariant
            k <= i < s@.len(),
            a@ == s@.subrange(0, k as int),
        decreases i - k,
    {
        a.push(s[k]);
        k = k + 1;
    }
    let mut b: Vec<char> = Vec::new();
    let mut m: usize = i + 1;
    while m < s.len()
        invariant
            i + 1 <= m <= s@.len(),
            b@ == s@.subrange(i + 1, m as int),
        decreases s@.len() - m,
    {
        b.push(s[m]);
        m = m + 1;
    }
    Some((a, b))
}

/// Splits text at its first `sep`.
pub fn split_once_str(s: &str, sep: char) -> (r: Option<(String, String)>)
    ensures
        match r {
            Some((a, b)) => split_at_first(s@, sep) == Some((a@, b@)),
            None => split_at_first(s@, sep) is None,
        },
{
    let v = chars_of(s);
    match split_once_chars(v.as_slice(), sep) {
        Some((a, b)) => Some((string_of(a.as_slice()), string_of(b.as_slice()))),
        None => None,
    }
}

} // verus!

verus! {

/// What `str::to_lowercase` gives for `s` (Unicode lowercase mapping).
pub uninterp spec fn lowercase(s: Seq<char>) -> Seq<char>;

/// The ASCII lowercase form of `c`: capital letters `A` to `Z` become
/// `a` to `z`; every other character stays.
pub open spec fn ascii_lower(c: char) -> char {
    if 'A' <= c && c <= 'Z' {
        ((c as u32) + 32) as char
    } else {
        c
    }
}

/// Lowercases `s` with `str::to_lowercase`.  Beyond the naming of the
/// result, it is claimed that ASCII text is lowercased character by
/// character, capital letters becoming small ones and the rest unchanged.
#[verifier::external_body]
pub(crate) fn to_lowercase(s: &str) -> (r: String)
    ensures
        r@ == lowercase(s@),
        vstd::utf8::is_ascii_chars(s@) ==> r@ == s@.map_values(|c: char| ascii_lower(c)),
        (forall|i: int| 0 <= i < s@.len() ==> 'a' <= #[trigger] s@[i] <= 'z') ==> r@ == s@,
{
    s.to_lowercase()
}

} // verus!

verus! {

/// The number of bytes of the UTF-8 encoding of `s` (what `str::len`
/// reports).
pub open spec fn utf8_len(s: Seq<char>) -> nat {
    vstd::utf8::encode_utf8(s).len()
}

/// The number of bytes UTF-8 takes for `c`.
pub open spec fn char_width(c: char) -> nat {
    if (c as u32) <= 0x7F {
        1
    } else if (c as u32) <= 0x7FF {
        2
    } else if (c as u32) <= 0xFFFF {
        3
    } else {
        4
    }
}

proof fn lemma_scalar_width(c: char)
    ensures
        vstd::utf8::encode_scalar(c as u32).len() == char_width(c),
{
    let v = c as u32;
    assert(v <= 0xD7FF || (0xE000 <= v && v <= 0x10FFFF));
    if v <= 0x7F {
        assert(vstd::utf8::has_width_1_encoding(v));
    } else if v <= 0x7FF {
        assert(vstd::utf8::has_width_2_encoding(v));
    } else if v <= 0xFFFF {
        assert(vstd::utf8::has_width_3_encoding(v));
    } else {
        assert(vstd::utf8::has_width_4_encoding(v));
    }
}

/// Appending a character adds its width to the encoded length.
pub proof fn lemma_utf8_len_push(s: Seq<char>, c: char)
    ensures
        utf8_len(s.push(c)) == utf8_len(s) + char_width(c),
    decreases s.len(),
{
    let t = s.push(c);
    if s.len() == 0 {
        lemma_scalar_width(c);
        assert(t.drop_first() =~= Seq::<char>::empty());
        assert(vstd::utf8::encode_utf8(Seq::<char>::empty()) == Seq::<u8>::empty());
        assert(vstd::utf8::encode_utf8(t) == vstd::utf8::encode_scalar(c as u32) + vstd::utf8::encode_utf8(
            t.drop_first(),
        ));
        assert(vstd::utf8::encode_utf8(s) == Seq::<u8>::empty());
    } else {
        lemma_utf8_len_push(s.drop_first(), c);
        assert(t.drop_first() =~= s.drop_first().push(c));
        assert(t[0] == s[0]);
        assert(vstd::utf8::encode_utf8(t) == vstd::utf8::encode_scalar(s[0] as u32) + vstd::utf8::encode_utf8(
            t.drop_first(),
        ));
        assert(vstd::utf8::encode_utf8(s) == vstd::utf8::encode_scalar(s[0] as u32) + vstd::utf8::encode_utf8(
            s.drop_first(),
        ));
    }
}

/// A longer prefix takes at least as many bytes.
pub proof fn lemma_take_monotone(s: Seq<char>, a: int, b: int)
    requires
        0 <= a <= b <= s.len(),
    ensures
        utf8_len(s.take(a)) <= utf8_len(s.take(b)),
    decreases b - a,
{
    if a < b {
        lemma_take_monotone(s, a, b - 1);
        lemma_utf8_len_push(s.take(b - 1), s[b - 1]);
        assert(s.take(b) =~= s.take(b - 1).push(s[b - 1]));
    }
}

/// The UTF-8 width of a character.
pub fn width_of_char(c: char) -> (r: usize)
    ensures
        r == char_width(c),
{
    let v = c as u32;
    if v <= 0x7F {
        1
    } else if v <= 0x7FF {
        2
    } else if v <= 0xFFFF {
        3
    } else {
        4
    }
}

/// Byte `n` of the UTF-8 encoding of `s` starts a character (or is its
/// end): some prefix of `s` encodes to exactly `n` bytes.
pub open spec fn is_char_boundary(s: Seq<char>, n: int) -> bool {
    exists|k: int| 0 <= k <= s.len() && #[trigger] utf8_len(s.take(k)) == n
}

/// Text longer than `limit` bytes cut to its first `keep` bytes followed by
/// `...`; shorter text unchanged.
pub fn shorten(text: &str, limit: usize, keep: usize) -> (r: String)
    requires
        utf8_len(text@) <= usize::MAX,
        utf8_len(text@) > limit ==> is_char_boundary(text@, keep as int),
    ensures
        utf8_len(text@) <= limit ==> r@ == text@,
        utf8_len(text@) > limit ==> exists|k: int|
            0 <= k <= text@.len() && #[trigger] utf8_len(text@.take(k)) == keep && r@ == text@.take(k) + "..."@,
{
    if text.len() <= limit {
        return owned(text);
    }
    let v = chars_of(text);
    let mut bytes: usize = 0;
    let mut k: usize = 0;
    let ghost s = text@;
    assert(s.take(0) =~= Seq::<char>::empty());
    while bytes < keep
        invariant
            v@ == s,
            k <= s.len(),
            bytes == utf8_len(s.take(k as int)),
            bytes <= keep,
            utf8_len(s) > limit,
            is_char_boundary(s, keep as int),
            utf8_len(s) <= usize::MAX,
            forall|j: int| 0 <= j <= k ==> utf8_len(#[trigger] s.take(j)) <= bytes,
        decreases keep - bytes,
    {
        if k == v.len() {
            proof {
                let j = choose|j: int| 0 <= j <= s.len() && #[trigger] utf8_len(s.take(j)) == keep;
                assert(s.take(s.len() as int) =~= s);
                assert(utf8_len(s.take(j)) <= bytes);
            }
            assert(false);
        }
        proof {
            lemma_utf8_len_push(s.take(k as int), s[k as int]);
            assert(s.take(k + 1) =~= s.take(k as int).push(s[k as int]));
            lemma_take_monotone(s, k + 1, s.len() as int);
            assert(s.take(s.len() as int) =~= s);
        }
        bytes = bytes + width_of_char(v[k]);
        k = k + 1;
        if bytes > keep {
            proof {
                let j = choose|j: int| 0 <= j <= s.len() && #[trigger] utf8_len(s.take(j)) == keep;
                if j >= k {
                    lemma_take_monotone(s, k as int, j);
                }
            }
            assert(false);
        }
    }
    let mut out = String::new();
    let mut i: usize = 0;
    while i < k
        invariant
            v@ == s,
            i <= k <= s.len(),
            out@ == s.take(i as int),
        decreases k - i,
    {
        push_char(&mut out, v[i]);
        i = i + 1;
        assert(out@ =~= s.take(i as int));
    }
    push_str(&mut out, "...");
    out
}

} // verus!
