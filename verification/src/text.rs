//! Small verified text utilities: decimal rendering, comparison and
//! searching of character sequences.
use vstd::prelude::*;

verus! {

/// The decimal digit `d` (0..=9) as text.
pub open spec fn digit_text(d: int) -> Seq<char> {
    if d == 0 {
        "0"@
    } else if d == 1 {
        "1"@
    } else if d == 2 {
        "2"@
    } else if d == 3 {
        "3"@
    } else if d == 4 {
        "4"@
    } else if d == 5 {
        "5"@
    } else if d == 6 {
        "6"@
    } else if d == 7 {
        "7"@
    } else if d == 8 {
        "8"@
    } else {
        "9"@
    }
}

/// Decimal notation of a natural number, most significant digit first,
/// without leading zeros.
pub open spec fn nat_decimal(n: nat) -> Seq<char>
    decreases n,
{
    if n < 10 {
        digit_text(n as int)
    } else {
        nat_decimal(n / 10) + digit_text((n % 10) as int)
    }
}

/// Decimal notation of an integer: a leading `-` for negative numbers.
pub open spec fn int_decimal(n: int) -> Seq<char> {
    if n < 0 {
        "-"@ + nat_decimal((-n) as nat)
    } else {
        nat_decimal(n as nat)
    }
}

fn digit_str(d: u64) -> (s: &'static str)
    requires
        d < 10,
    ensures
        s@ == digit_text(d as int),
{
    if d == 0 {
        "0"
    } else if d == 1 {
        "1"
    } else if d == 2 {
        "2"
    } else if d == 3 {
        "3"
    } else if d == 4 {
        "4"
    } else if d == 5 {
        "5"
    } else if d == 6 {
        "6"
    } else if d == 7 {
        "7"
    } else if d == 8 {
        "8"
    } else {
        "9"
    }
}

/// Appends the decimal notation of `n` to `out`.
pub fn push_decimal(out: &mut String, n: u64)
    ensures
        final(out)@ == old(out)@ + nat_decimal(n as nat),
    decreases n,
{
    if n >= 10 {
        push_decimal(out, n / 10);
    }
    out.append(digit_str(n % 10));
}

/// The decimal notation of a machine integer.
pub fn i64_to_text(n: i64) -> (s: String)
    ensures
        s@ == int_decimal(n as int),
{
    let mut s = String::new();
    if n < 0 {
        s.append("-");
        let m: i128 = -(n as i128);
        push_decimal(&mut s, m as u64);
    } else {
        push_decimal(&mut s, n as u64);
    }
    s
}

/// The decimal notation of an index or count.
pub fn usize_to_text(n: usize) -> (s: String)
    ensures
        s@ == nat_decimal(n as nat),
{
    let mut s = String::new();
    push_decimal(&mut s, n as u64);
    s
}

/// Whether two pieces of text are equal.
pub fn str_eq(a: &str, b: &str) -> (r: bool)
    ensures
        r == (a@ == b@),
{
    let n = a.unicode_len();
    if n != b.unicode_len() {
        return false;
    }
    let mut i: usize = 0;
    while i < n
        invariant
            n == a@.len(),
            n == b@.len(),
            0 <= i <= n,
            forall|j: int| 0 <= j < i ==> a@[j] == b@[j],
        decreases n - i,
    {
        if a.get_char(i) != b.get_char(i) {
            return false;
        }
        i = i + 1;
    }
    assert(a@ =~= b@);
    true
}

/// `needle` occurs in `hay` starting at position `i`.
pub open spec fn occurs_at(hay: Seq<char>, needle: Seq<char>, i: int) -> bool {
    0 <= i && i + needle.len() <= hay.len() && hay.subrange(i, i + needle.len()) == needle
}

/// `needle` occurs somewhere in `hay`.
pub open spec fn contains_text(hay: Seq<char>, needle: Seq<char>) -> bool {
    exists|i: int| occurs_at(hay, needle, i)
}

/// Whether `needle` occurs somewhere in `hay`.
pub fn text_contains(hay: &str, needle: &str) -> (r: bool)
    ensures
        r == contains_text(hay@, needle@),
{
    let n = hay.unicode_len();
    let m = needle.unicode_len();
    if m > n {
        assert forall|i: int| !occurs_at(hay@, needle@, i) by {}
        return false;
    }
    let mut i: usize = 0;
    while i <= n - m
        invariant
            n == hay@.len(),
            m == needle@.len(),
            m <= n,
            0 <= i <= n - m + 1,
            forall|k: int| 0 <= k < i ==> !occurs_at(hay@, needle@, k),
        decreases n - m + 1 - i,
    {
        let mut j: usize = 0;
        let mut same = true;
        while j < m
            invariant
                n == hay@.len(),
                m == needle@.len(),
                i + m <= n,
                0 <= j <= m,
                same == (forall|k: int| 0 <= k < j ==> hay@[i + k] == needle@[k]),
            decreases m - j,
        {
            if hay.get_char(i + j) != needle.get_char(j) {
                same = false;
            }
            j = j + 1;
        }
        if same {
            assert(hay@.subrange(i as int, i + m) =~= needle@);
            assert(occurs_at(hay@, needle@, i as int));
            return true;
        }
        assert(!occurs_at(hay@, needle@, i as int)) by {
            if hay@.subrange(i as int, i + m) == needle@ {
                assert forall|k: int| 0 <= k < m implies hay@[i + k] == needle@[k] by {
                    assert(hay@.subrange(i as int, i + m)[k] == hay@[i + k]);
                }
            }
        }
        i = i + 1;
    }
    assert forall|k: int| !occurs_at(hay@, needle@, k) by {
        if 0 <= k && k + m <= n {
            assert(k < i);
        }
    }
    false
}

/// The ASCII lower-case form of a character; other characters are kept.
pub open spec fn ascii_lower(c: char) -> char {
    if 'A' <= c && c <= 'Z' {
        ((c as u32) + 32) as char
    } else {
        c
    }
}

pub open spec fn ascii_lower_text(s: Seq<char>) -> Seq<char> {
    s.map_values(|c: char| ascii_lower(c))
}

fn ascii_lower_char(c: char) -> (r: char)
    ensures
        r == ascii_lower(c),
{
    if 'A' <= c && c <= 'Z' {
        let b: u8 = (c as u8) + 32;
        b as char
    } else {
        c
    }
}

/// Whether the ASCII lower-case form of `s` is `lower`.
pub fn lower_eq(s: &str, lower: &str) -> (r: bool)
    ensures
        r == (ascii_lower_text(s@) == lower@),
{
    let n = s.unicode_len();
    if n != lower.unicode_len() {
        assert(ascii_lower_text(s@).len() == s@.len());
        return false;
    }
    let mut i: usize = 0;
    while i < n
        invariant
            n == s@.len(),
            n == lower@.len(),
            0 <= i <= n,
            forall|j: int| 0 <= j < i ==> ascii_lower(s@[j]) == lower@[j],
        decreases n - i,
    {
        if ascii_lower_char(s.get_char(i)) != lower.get_char(i) {
            assert(ascii_lower_text(s@)[i as int] != lower@[i as int]);
            return false;
        }
        i = i + 1;
    }
    assert(ascii_lower_text(s@) =~= lower@);
    true
}

/// `s` begins with `prefix`.
pub open spec fn starts_with_text(s: Seq<char>, prefix: Seq<char>) -> bool {
    occurs_at(s, prefix, 0)
}

/// Whether `s` begins with `prefix`.
pub fn text_starts_with(s: &str, prefix: &str) -> (r: bool)
    ensures
        r == starts_with_text(s@, prefix@),
{
    let n = s.unicode_len();
    let m = prefix.unicode_len();
    if m > n {
        return false;
    }
    let mut j: usize = 0;
    while j < m
        invariant
            n == s@.len(),
            m == prefix@.len(),
            m <= n,
            0 <= j <= m,
            forall|k: int| 0 <= k < j ==> s@[k] == prefix@[k],
        decreases m - j,
    {
        if s.get_char(j) != prefix.get_char(j) {
            assert(s@.subrange(0, m as int)[j as int] != prefix@[j as int]);
            return false;
        }
        j = j + 1;
    }
    assert(s@.subrange(0, m as int) =~= prefix@);
    true
}

} // verus!

verus! {

/// Unicode `White_Space`, the characters `str::trim` removes.
pub open spec fn is_white_space(c: char) -> bool {
    ||| ('\u{9}' <= c && c <= '\u{d}')
    ||| c == ' '
    ||| c == '\u{85}'
    ||| c == '\u{a0}'
    ||| c == '\u{1680}'
    ||| ('\u{2000}' <= c && c <= '\u{200a}')
    ||| c == '\u{2028}'
    ||| c == '\u{2029}'
    ||| c == '\u{202f}'
    ||| c == '\u{205f}'
    ||| c == '\u{3000}'
}

pub open spec fn trim_start_ws(s: Seq<char>) -> Seq<char>
    decreases s.len(),
{
    if s.len() > 0 && is_white_space(s[0]) {
        trim_start_ws(s.drop_first())
    } else {
        s
    }
}

pub open spec fn trim_end_ws(s: Seq<char>) -> Seq<char>
    decreases s.len(),
{
    if s.len() > 0 && is_white_space(s.last()) {
        trim_end_ws(s.drop_last())
    } else {
        s
    }
}

/// `s` without leading and trailing white space.
pub open spec fn trim_ws(s: Seq<char>) -> Seq<char> {
    trim_end_ws(trim_start_ws(s))
}

/// `s` with every line break replaced by a space.
pub open spec fn newlines_to_spaces(s: Seq<char>) -> Seq<char> {
    s.map_values(|c: char| if c == '\n' { ' ' } else { c })
}

fn is_white_space_char(c: char) -> (r: bool)
    ensures
        r == is_white_space(c),
{
    ('\u{9}' <= c && c <= '\u{d}') || c == ' ' || c == '\u{85}' || c == '\u{a0}' || c
        == '\u{1680}' || ('\u{2000}' <= c && c <= '\u{200a}') || c == '\u{2028}' || c
        == '\u{2029}' || c == '\u{202f}' || c == '\u{205f}' || c == '\u{3000}'
}

proof fn lemma_trim_start(s: Seq<char>, i: int)
    requires
        0 <= i <= s.len(),
        forall|j: int| 0 <= j < i ==> is_white_space(s[j]),
        i == s.len() || !is_white_space(s[i]),
    ensures
        trim_start_ws(s) == s.subrange(i, s.len() as int),
    decreases i,
{
    if i > 0 {
        lemma_trim_start(s.drop_first(), i - 1);
        assert(s.drop_first().subrange(i - 1, s.len() - 1) =~= s.subrange(i, s.len() as int));
    } else {
        assert(s.subrange(0, s.len() as int) =~= s);
    }
}

proof fn lemma_trim_end(s: Seq<char>, k: int)
    requires
        0 <= k <= s.len(),
        forall|j: int| k <= j < s.len() ==> is_white_space(s[j]),
        k == 0 || !is_white_space(s[k - 1]),
    ensures
        trim_end_ws(s) == s.subrange(0, k),
    decreases s.len() - k,
{
    if k < s.len() {
        lemma_trim_end(s.drop_last(), k);
        assert(s.drop_last().subrange(0, k) =~= s.subrange(0, k));
    } else {
        assert(s.subrange(0, s.len() as int) =~= s);
    }
}

/// `s` without leading and trailing white space, with every line break
/// replaced by a space.
pub fn trim_to_one_line(s: &str) -> (r: String)
    ensures
        r@ == newlines_to_spaces(trim_ws(s@)),
{
    let n = s.unicode_len();
    let mut a: usize = 0;
    while a < n && is_white_space_char(s.get_char(a))
        invariant
            n == s@.len(),
            0 <= a <= n,
            forall|j: int| 0 <= j < a ==> is_white_space(s@[j]),
        decreases n - a,
    {
        a = a + 1;
    }
    proof {
        lemma_trim_start(s@, a as int);
    }
    let ghost t = s@.subrange(a as int, n as int);
    let mut b: usize = n;
    while b > a && is_white_space_char(s.get_char(b - 1))
        invariant
            n == s@.len(),
            a <= b <= n,
            t == s@.subrange(a as int, n as int),
            forall|j: int| b <= j < n ==> is_white_space(s@[j]),
        decreases b,
    {
        b = b - 1;
    }
    proof {
        lemma_trim_end(t, b - a);
        assert(t.subrange(0, b - a) =~= s@.subrange(a as int, b as int));
    }
    let ghost trimmed = s@.subrange(a as int, b as int);
    let mut out = String::new();
    let mut last: usize = a;
    let mut i: usize = a;
    while i < b
        invariant
            n == s@.len(),
            a <= last <= i <= b <= n,
            trimmed == s@.subrange(a as int, b as int),
            out@ + s@.subrange(last as int, i as int) == newlines_to_spaces(
                trimmed.subrange(0, i - a),
            ),
            forall|j: int| last <= j < i ==> s@[j] != '\n',
        decreases b - i,
    {
        if s.get_char(i) == '\n' {
            let piece = s.substring_char(last, i);
            out.append(piece);
            proof {
                reveal_strlit(" ");
            }
            out.append(" ");
            proof {
                assert(s@.subrange(last as int, i as int) =~= newlines_to_spaces(
                    s@.subrange(last as int, i as int),
                ));
                assert(newlines_to_spaces(trimmed.subrange(0, i + 1 - a)) =~= newlines_to_spaces(
                    trimmed.subrange(0, i - a),
                ) + seq![' ']);
                assert(s@.subrange(i + 1, i + 1) =~= Seq::<char>::empty());
                assert(out@ + s@.subrange(i + 1, i + 1) =~= out@);
            }
            last = i + 1;
        } else {
            proof {
                assert(s@.subrange(last as int, i + 1) =~= s@.subrange(last as int, i as int).push(
                    s@[i as int],
                ));
                assert(newlines_to_spaces(trimmed.subrange(0, i + 1 - a)) =~= newlines_to_spaces(
                    trimmed.subrange(0, i - a),
                ).push(s@[i as int]));
            }
        }
        i = i + 1;
    }
    let piece = s.substring_char(last, b);
    out.append(piece);
    assert(trimmed.subrange(0, b - a) =~= trimmed);
    out
}

} // verus!

verus! {

/// Whether `needle` occurs in the ASCII lower-case form of `hay`.
pub fn lower_contains(hay: &str, needle: &str) -> (r: bool)
    ensures
        r == contains_text(ascii_lower_text(hay@), needle@),
{
    let ghost low = ascii_lower_text(hay@);
    let n = hay.unicode_len();
    let m = needle.unicode_len();
    if m > n {
        assert forall|i: int| !occurs_at(low, needle@, i) by {}
        return false;
    }
    let mut i: usize = 0;
    while i <= n - m
        invariant
            n == hay@.len(),
            low == ascii_lower_text(hay@),
            low.len() == n,
            m == needle@.len(),
            m <= n,
            0 <= i <= n - m + 1,
            forall|k: int| 0 <= k < i ==> !occurs_at(low, needle@, k),
        decreases n - m + 1 - i,
    {
        let mut j: usize = 0;
        let mut same = true;
        while j < m
            invariant
                n == hay@.len(),
                low == ascii_lower_text(hay@),
                m == needle@.len(),
                i + m <= n,
                0 <= j <= m,
                same == (forall|k: int| 0 <= k < j ==> low[i + k] == needle@[k]),
            decreases m - j,
        {
            if ascii_lower_char(hay.get_char(i + j)) != needle.get_char(j) {
                same = false;
            }
            j = j + 1;
        }
        if same {
            assert(low.subrange(i as int, i + m) =~= needle@);
            assert(occurs_at(low, needle@, i as int));
            return true;
        }
        assert(!occurs_at(low, needle@, i as int)) by {
            if low.subrange(i as int, i + m) == needle@ {
                assert forall|k: int| 0 <= k < m implies low[i + k] == needle@[k] by {
                    assert(low.subrange(i as int, i + m)[k] == low[i + k]);
                }
            }
        }
        i = i + 1;
    }
    assert forall|k: int| !occurs_at(low, needle@, k) by {
        if 0 <= k && k + m <= n {
            assert(k < i);
        }
    }
    false
}

} // verus!

verus! {

pub open spec fn is_ascii_digit(c: char) -> bool {
    '0' <= c && c <= '9'
}

pub open spec fn all_digits(s: Seq<char>) -> bool {
    forall|i: int| 0 <= i < s.len() ==> is_ascii_digit(#[trigger] s[i])
}

/// The value of a string of decimal digits.
pub open spec fn digits_value(s: Seq<char>) -> nat
    decreases s.len(),
{
    if s.len() == 0 {
        0
    } else {
        digits_value(s.drop_last()) * 10 + ((s.last() as u32) - ('0' as u32)) as nat
    }
}

/// What `str::parse::<i64>` gives: an optional `+` or `-`, then at least one
/// ASCII digit and nothing else, with a value in range.
pub open spec fn parse_i64_spec(s: Seq<char>) -> Option<i64> {
    let neg = s.len() > 0 && s[0] == '-';
    let body = if s.len() > 0 && (s[0] == '-' || s[0] == '+') {
        s.drop_first()
    } else {
        s
    };
    if body.len() == 0 || !all_digits(body) {
        None
    } else {
        let v: int = if neg {
            -(digits_value(body) as int)
        } else {
            digits_value(body) as int
        };
        if i64::MIN <= v && v <= i64::MAX {
            Some(v as i64)
        } else {
            None
        }
    }
}

proof fn lemma_digits_value_monotone(s: Seq<char>, k: int)
    requires
        0 <= k <= s.len(),
        all_digits(s),
    ensures
        digits_value(s.take(k)) <= digits_value(s),
    decreases s.len() - k,
{
    if k < s.len() {
        lemma_digits_value_monotone(s.drop_last(), k);
        assert(s.drop_last().take(k) =~= s.take(k));
        assert(s.take(s.len() as int) =~= s);
    } else {
        assert(s.take(k) =~= s);
    }
}

/// Parses a decimal machine integer the way `str::parse::<i64>` does.
pub fn parse_i64(s: &str) -> (r: Option<i64>)
    ensures
        r == parse_i64_spec(s@),
{
    let n = s.unicode_len();
    let mut start: usize = 0;
    let mut neg = false;
    if n > 0 {
        let c = s.get_char(0);
        if c == '-' {
            neg = true;
            start = 1;
        } else if c == '+' {
            start = 1;
        }
    }
    let ghost body = if s@.len() > 0 && (s@[0] == '-' || s@[0] == '+') {
        s@.drop_first()
    } else {
        s@
    };
    assert(body =~= s@.subrange(start as int, n as int));
    if start == n {
        return None;
    }
    // limit is the largest magnitude allowed: 2^63 for negatives, 2^63 - 1 otherwise
    let limit: u64 = if neg {
        9223372036854775808u64
    } else {
        9223372036854775807u64
    };
    let mut v: u64 = 0;
    let mut i: usize = start;
    while i < n
        invariant
            n == s@.len(),
            start <= i <= n,
            start < n,
            body == s@.subrange(start as int, n as int),
            body == (if s@.len() > 0 && (s@[0] == '-' || s@[0] == '+') {
                s@.drop_first()
            } else {
                s@
            }),
            neg == (s@.len() > 0 && s@[0] == '-'),
            all_digits(body.take(i - start)),
            v == digits_value(body.take(i - start)),
            v <= limit,
            limit == if neg {
                9223372036854775808u64
            } else {
                9223372036854775807u64
            },
        decreases n - i,
    {
        let c = s.get_char(i);
        if !('0' <= c && c <= '9') {
            proof {
                assert(!is_ascii_digit(body[i - start]));
                assert(!all_digits(body));
            }
            return None;
        }
        let d: u64 = ((c as u32) - ('0' as u32)) as u64;
        proof {
            assert(body.take(i - start + 1).drop_last() =~= body.take(i - start));
            assert(body.take(i - start + 1).last() == c);
        }
        if v > (limit - d) / 10 {
            proof {
                assert(v * 10 + d > limit) by (nonlinear_arith)
                    requires
                        v > (limit - d) / 10,
                        d <= 9,
                        d <= limit,
                ;
                // the full value is at least the value of this prefix
                let t = body.take(i - start + 1);
                assert(digits_value(t) == digits_value(t.drop_last()) * 10 + ((t.last() as u32) - ('0' as u32)) as nat);
                assert(digits_value(t) == v * 10 + d);
                if all_digits(body) {
                    lemma_digits_value_monotone(body, i - start + 1);
                    assert(digits_value(body) > limit);
                }
            }
            return None;
        }
        assert(v * 10 + d <= limit) by (nonlinear_arith)
            requires
                v <= (limit - d) / 10,
                d <= 9,
        ;
        v = v * 10 + d;
        i = i + 1;
    }
    assert(body.take(n - start) =~= body);
    if neg {
        if v == 9223372036854775808u64 {
            Some(i64::MIN)
        } else {
            Some(-(v as i64))
        }
    } else {
        Some(v as i64)
    }
}

pub open spec fn is_one_of(c: char, a: char, b: char) -> bool {
    c == a || c == b
}

pub open spec fn trim_start_pair(s: Seq<char>, a: char, b: char) -> Seq<char>
    decreases s.len(),
{
    if s.len() > 0 && is_one_of(s[0], a, b) {
        trim_start_pair(s.drop_first(), a, b)
    } else {
        s
    }
}

pub open spec fn trim_end_pair(s: Seq<char>, a: char, b: char) -> Seq<char>
    decreases s.len(),
{
    if s.len() > 0 && is_one_of(s.last(), a, b) {
        trim_end_pair(s.drop_last(), a, b)
    } else {
        s
    }
}

/// `s` without the characters `a` and `b` at either end, as
/// `str::trim_matches([a, b])` gives it.
pub open spec fn trim_pair(s: Seq<char>, a: char, b: char) -> Seq<char> {
    trim_end_pair(trim_start_pair(s, a, b), a, b)
}

proof fn lemma_trim_start_pair(s: Seq<char>, a: char, b: char, i: int)
    requires
        0 <= i <= s.len(),
        forall|j: int| 0 <= j < i ==> is_one_of(s[j], a, b),
        i == s.len() || !is_one_of(s[i], a, b),
    ensures
        trim_start_pair(s, a, b) == s.subrange(i, s.len() as int),
    decreases i,
{
    if i > 0 {
        lemma_trim_start_pair(s.drop_first(), a, b, i - 1);
        assert(s.drop_first().subrange(i - 1, s.len() - 1) =~= s.subrange(i, s.len() as int));
    } else {
        assert(s.subrange(0, s.len() as int) =~= s);
    }
}

proof fn lemma_trim_end_pair(s: Seq<char>, a: char, b: char, k: int)
    requires
        0 <= k <= s.len(),
        forall|j: int| k <= j < s.len() ==> is_one_of(s[j], a, b),
        k == 0 || !is_one_of(s[k - 1], a, b),
    ensures
        trim_end_pair(s, a, b) == s.subrange(0, k),
    decreases s.len() - k,
{
    if k < s.len() {
        lemma_trim_end_pair(s.drop_last(), a, b, k);
        assert(s.drop_last().subrange(0, k) =~= s.subrange(0, k));
    } else {
        assert(s.subrange(0, s.len() as int) =~= s);
    }
}

/// `s` without the characters `a` and `b` at either end.
pub fn trim_matching(s: &str, a: char, b: char) -> (r: String)
    ensures
        r@ == trim_pair(s@, a, b),
{
    let n = s.unicode_len();
    let mut i: usize = 0;
    while i < n && (s.get_char(i) == a || s.get_char(i) == b)
        invariant
            n == s@.len(),
            0 <= i <= n,
            forall|j: int| 0 <= j < i ==> is_one_of(s@[j], a, b),
        decreases n - i,
    {
        i = i + 1;
    }
    proof {
        lemma_trim_start_pair(s@, a, b, i as int);
    }
    let ghost t = s@.subrange(i as int, n as int);
    let mut k: usize = n;
    while k > i && (s.get_char(k - 1) == a || s.get_char(k - 1) == b)
        invariant
            n == s@.len(),
            i <= k <= n,
            t == s@.subrange(i as int, n as int),
            forall|j: int| k <= j < n ==> is_one_of(s@[j], a, b),
        decreases k,
    {
        k = k - 1;
    }
    proof {
        lemma_trim_end_pair(t, a, b, k - i);
        assert(t.subrange(0, k - i) =~= s@.subrange(i as int, k as int));
    }
    String::from_str(s.substring_char(i, k))
}

/// `a`, `b` and `c` occur in `h` in this order, without overlapping.
pub open spec fn occur_in_order(h: Seq<char>, a: Seq<char>, b: Seq<char>, c: Seq<char>) -> bool {
    exists|i: int, j: int, k: int|
        #![trigger occurs_at(h, a, i), occurs_at(h, b, j), occurs_at(h, c, k)]
        occurs_at(h, a, i) && occurs_at(h, b, j) && occurs_at(h, c, k) && i + a.len() <= j && j
            + b.len() <= k
}

/// The pieces `x`, `y` and `z` of `p0 + x + p1 + y + p2 + z + p3` occur in it
/// in this order.
pub proof fn lemma_pieces_in_order(
    p0: Seq<char>,
    x: Seq<char>,
    p1: Seq<char>,
    y: Seq<char>,
    p2: Seq<char>,
    z: Seq<char>,
    p3: Seq<char>,
)
    ensures
        occur_in_order(p0 + x + p1 + y + p2 + z + p3, x, y, z),
{
    let h = p0 + x + p1 + y + p2 + z + p3;
    let i = p0.len() as int;
    let j = i + x.len() + p1.len();
    let k = j + y.len() + p2.len();
    assert(h.subrange(i, i + x.len()) =~= x);
    assert(h.subrange(j, j + y.len()) =~= y);
    assert(h.subrange(k, k + z.len()) =~= z);
    assert(occurs_at(h, x, i) && occurs_at(h, y, j) && occurs_at(h, z, k));
}

} // verus!
