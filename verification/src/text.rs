//! Small verified string helpers shared by the lexer, the builtins and the
//! formatting code: equality, joining, trimming, and decimal conversion.

use vstd::prelude::*;
use vstd::string::*;

verus! {

/// Relies on `String::push`: appends one character at the end.
#[verifier::external_body]
pub(crate) fn push_char(s: &mut String, c: char)
    ensures
        final(s)@ == old(s)@.push(c),
{
    s.push(c);
}

/// Character-by-character string equality; avoids any reliance on derived
/// comparison code.
pub fn str_eq(a: &str, b: &str) -> (r: bool)
    ensures
        r == (a@ == b@),
{
    let alen = a.unicode_len();
    let blen = b.unicode_len();
    if alen != blen {
        assert(a@ != b@);
        return false;
    }
    let mut i: usize = 0;
    while i < alen
        invariant
            alen == a@.len(),
            alen == b@.len(),
            i <= alen,
            forall|j: int| 0 <= j < i ==> a@[j] == b@[j],
        decreases alen - i,
    {
        if a.get_char(i) != b.get_char(i) {
            return false;
        }
        i = i + 1;
    }
    assert(a@ =~= b@);
    true
}

/// Whitespace for the purposes of word splitting: space or tab.
pub open spec fn is_blank(c: char) -> bool {
    c == ' ' || c == '\t'
}

/// `s` with leading and trailing blanks removed.
pub open spec fn spec_trim(s: Seq<char>) -> Seq<char>
    decreases s.len(),
{
    if s.len() == 0 {
        s
    } else if is_blank(s[0]) {
        spec_trim(s.skip(1))
    } else if is_blank(s[s.len() - 1]) {
        spec_trim(s.take(s.len() - 1))
    } else {
        s
    }
}

/// Trims leading and trailing blanks from `s`.
pub fn trim(s: &str) -> (r: String)
    ensures
        r@ == spec_trim(s@),
{
    let len = s.unicode_len();
    let mut start: usize = 0;
    proof {
        assert(s@.skip(0) =~= s@);
    }
    while start < len && (s.get_char(start) == ' ' || s.get_char(start) == '\t')
        invariant
            len == s@.len(),
            start <= len,
            spec_trim(s@) == spec_trim(s@.skip(start as int)),
        decreases len - start,
    {
        proof {
            assert(s@.skip(start as int)[0] == s@[start as int]);
            assert(s@.skip(start as int).skip(1) =~= s@.skip(start + 1));
        }
        start = start + 1;
    }
    let mut end: usize = len;
    proof {
        assert(s@.skip(start as int).take(len - start) =~= s@.skip(start as int));
    }
    while end > start && (s.get_char(end - 1) == ' ' || s.get_char(end - 1) == '\t')
        invariant
            len == s@.len(),
            start <= end <= len,
            start < len ==> !is_blank(s@[start as int]),
            spec_trim(s@) == spec_trim(s@.skip(start as int).take(end - start)),
        decreases end,
    {
        proof {
            let cur = s@.skip(start as int).take(end - start);
            assert(cur[0] == s@[start as int]);
            assert(cur[cur.len() - 1] == s@[end - 1]);
            assert(cur.take(cur.len() - 1) =~= s@.skip(start as int).take(end - 1 - start));
        }
        end = end - 1;
    }
    let piece = s.substring_char(start, end);
    proof {
        let cur = s@.skip(start as int).take(end - start);
        assert(piece@ =~= cur);
        if start < end {
            assert(cur[0] == s@[start as int]);
            assert(cur[cur.len() - 1] == s@[end - 1]);
        }
        assert(spec_trim(cur) == cur);
    }
    piece.to_owned()
}

/// The parts of `parts` glued together with `sep` between neighbours.
pub open spec fn spec_join(parts: Seq<Seq<char>>, sep: char) -> Seq<char>
    decreases parts.len(),
{
    if parts.len() == 0 {
        Seq::empty()
    } else if parts.len() == 1 {
        parts[0]
    } else {
        spec_join(parts.drop_last(), sep).push(sep) + parts.last()
    }
}

/// Joins `parts[from..]` with `sep` between neighbours.
pub fn join_from(parts: &Vec<String>, from: usize, sep: char) -> (r: String)
    requires
        from <= parts@.len(),
    ensures
        r@ == spec_join(parts@.skip(from as int).map_values(|p: String| p@), sep),
{
    let ghost tail = parts@.skip(from as int).map_values(|p: String| p@);
    let mut out = String::new();
    if from == parts.len() {
        proof {
            assert(tail.len() == 0);
        }
        return out;
    }
    out.append(parts[from].as_str());
    proof {
        assert(tail.take(1) =~= seq![parts@[from as int]@]);
        assert(out@ =~= parts@[from as int]@);
    }
    let mut k: usize = from + 1;
    while k < parts.len()
        invariant
            from < k <= parts@.len(),
            tail == parts@.skip(from as int).map_values(|p: String| p@),
            out@ == spec_join(tail.take(k - from), sep),
        decreases parts@.len() - k,
    {
        push_char(&mut out, sep);
        out.append(parts[k].as_str());
        proof {
            let upto = tail.take(k + 1 - from);
            assert(upto.drop_last() =~= tail.take(k - from));
            assert(upto.last() == tail[k - from]);
            assert(tail[k - from] == parts@[k as int]@);
            assert(out@ =~= spec_join(upto.drop_last(), sep).push(sep) + upto.last());
        }
        k = k + 1;
    }
    proof {
        assert(tail.take(parts@.len() - from) =~= tail);
    }
    out
}

/// True when `s` has at least one occurrence of `c`.
pub open spec fn spec_contains_char(s: Seq<char>, c: char) -> bool {
    exists|i: int| 0 <= i < s.len() && s[i] == c
}

/// Scans `s` for the character `c`.
pub fn contains_char(s: &str, c: char) -> (r: bool)
    ensures
        r == spec_contains_char(s@, c),
{
    let len = s.unicode_len();
    let mut i: usize = 0;
    while i < len
        invariant
            len == s@.len(),
            i <= len,
            forall|j: int| 0 <= j < i ==> s@[j] != c,
        decreases len - i,
    {
        if s.get_char(i) == c {
            return true;
        }
        i = i + 1;
    }
    false
}

/// The numeric value of a decimal digit character, or none.
pub open spec fn spec_digit(c: char) -> Option<u32> {
    if c == '0' { Some(0u32) }
    else if c == '1' { Some(1u32) }
    else if c == '2' { Some(2u32) }
    else if c == '3' { Some(3u32) }
    else if c == '4' { Some(4u32) }
    else if c == '5' { Some(5u32) }
    else if c == '6' { Some(6u32) }
    else if c == '7' { Some(7u32) }
    else if c == '8' { Some(8u32) }
    else if c == '9' { Some(9u32) }
    else { None }
}

/// Reads one decimal digit.
pub fn digit_of(c: char) -> (r: Option<u32>)
    ensures
        r == spec_digit(c),
{
    match c {
        '0' => Some(0u32),
        '1' => Some(1u32),
        '2' => Some(2u32),
        '3' => Some(3u32),
        '4' => Some(4u32),
        '5' => Some(5u32),
        '6' => Some(6u32),
        '7' => Some(7u32),
        '8' => Some(8u32),
        '9' => Some(9u32),
        _ => None,
    }
}

/// The character for a decimal digit value below ten.
pub open spec fn spec_digit_char(d: u32) -> char {
    if d == 0 { '0' }
    else if d == 1 { '1' }
    else if d == 2 { '2' }
    else if d == 3 { '3' }
    else if d == 4 { '4' }
    else if d == 5 { '5' }
    else if d == 6 { '6' }
    else if d == 7 { '7' }
    else if d == 8 { '8' }
    else { '9' }
}

/// Writes one decimal digit.
pub fn digit_char(d: u32) -> (r: char)
    requires
        d < 10,
    ensures
        r == spec_digit_char(d),
{
    match d {
        0u32 => '0',
        1u32 => '1',
        2u32 => '2',
        3u32 => '3',
        4u32 => '4',
        5u32 => '5',
        6u32 => '6',
        7u32 => '7',
        8u32 => '8',
        _ => '9',
    }
}

/// The decimal numeral of `n`, most significant digit first.
pub open spec fn spec_decimal(n: nat) -> Seq<char>
    decreases n,
{
    if n < 10 {
        seq![spec_digit_char(n as u32)]
    } else {
        spec_decimal(n / 10).push(spec_digit_char((n % 10) as u32))
    }
}

/// The decimal numeral of `n`, least significant digit first.
spec fn rev_decimal(n: nat) -> Seq<char>
    decreases n,
{
    if n < 10 {
        seq![spec_digit_char(n as u32)]
    } else {
        seq![spec_digit_char((n % 10) as u32)] + rev_decimal(n / 10)
    }
}

proof fn lemma_decimal_reverse(n: nat)
    ensures
        spec_decimal(n).len() == rev_decimal(n).len(),
        forall|i: int|
            0 <= i < spec_decimal(n).len() ==> spec_decimal(n)[i] == rev_decimal(n)[spec_decimal(
                n,
            ).len() - 1 - i],
    decreases n,
{
    if n >= 10 {
        lemma_decimal_reverse(n / 10);
    }
}

/// Renders `n` in decimal.
pub fn decimal_string(n: u64) -> (r: String)
    ensures
        r@ == spec_decimal(n as nat),
{
    let mut digits: Vec<char> = Vec::new();
    let mut m: u64 = n;
    loop
        invariant_except_break
            digits@.len() == 0 ==> m == n,
            digits@.len() > 0 ==> m > 0,
            digits@.len() > 0 ==> rev_decimal(n as nat) == digits@ + rev_decimal(m as nat),
        ensures
            digits@ == rev_decimal(n as nat),
        decreases m,
    {
        let ghost prev = digits@;
        let ghost m0 = m;
        let d = m % 10;
        digits.push(digit_char(d as u32));
        m = m / 10;
        proof {
            if prev.len() == 0 {
                if m0 < 10 {
                    assert(digits@ =~= rev_decimal(n as nat));
                } else {
                    assert(digits@ =~= seq![spec_digit_char((m0 % 10) as u32)]);
                    assert(rev_decimal(n as nat) =~= digits@ + rev_decimal(m as nat));
                }
            } else {
                assert(rev_decimal(n as nat) == prev + rev_decimal(m0 as nat));
                if m0 < 10 {
                    assert(rev_decimal(m0 as nat) =~= seq![spec_digit_char(m0 as u32)]);
                    assert(rev_decimal(n as nat) =~= digits@);
                } else {
                    assert(rev_decimal(m0 as nat) =~= seq![spec_digit_char((m0 % 10) as u32)]
                        + rev_decimal(m as nat));
                    assert(prev + rev_decimal(m0 as nat) =~= digits@ + rev_decimal(m as nat));
                }
            }
        }
        if m == 0 {
            break;
        }
    }
    let total = digits.len();
    let mut out = String::new();
    let mut i: usize = total;
    while i > 0
        invariant
            total == digits@.len(),
            i <= total,
            out@.len() == total - i,
            forall|k: int| 0 <= k < out@.len() ==> out@[k] == digits@[total - 1 - k],
        decreases i,
    {
        i = i - 1;
        push_char(&mut out, digits[i]);
    }
    proof {
        lemma_decimal_reverse(n as nat);
        assert(out@ =~= spec_decimal(n as nat));
    }
    out
}

/// A run of `n` spaces.
pub open spec fn pad_chunk(n: nat) -> Seq<char>
    decreases n,
{
    if n == 0 {
        Seq::empty()
    } else {
        seq![' '] + pad_chunk((n - 1) as nat)
    }
}

proof fn lemma_pad_chunk(n: nat)
    ensures
        pad_chunk(n).len() == n,
        forall|i: int| 0 <= i < n ==> pad_chunk(n)[i] == ' ',
    decreases n,
{
    if n > 0 {
        lemma_pad_chunk((n - 1) as nat);
    }
}

/// `s` left-padded with spaces to at least `width` characters.
pub open spec fn spec_pad_left(s: Seq<char>, width: nat) -> Seq<char>
    decreases width,
{
    if s.len() >= width {
        s
    } else {
        seq![' '] + spec_pad_left(s, (width - 1) as nat)
    }
}

proof fn lemma_pad_left_chunk(s: Seq<char>, width: nat)
    requires
        s.len() <= width,
    ensures
        spec_pad_left(s, width) == pad_chunk((width - s.len()) as nat) + s,
    decreases width,
{
    if s.len() == width {
        assert(spec_pad_left(s, width) =~= pad_chunk(0) + s);
    } else {
        lemma_pad_left_chunk(s, (width - 1) as nat);
        assert(seq![' '] + (pad_chunk((width - 1 - s.len()) as nat) + s) =~= pad_chunk(
            (width - s.len()) as nat,
        ) + s);
    }
}

/// Left-pads `s` with spaces to at least `width` characters.
pub fn pad_left(s: &str, width: usize) -> (r: String)
    ensures
        r@ == spec_pad_left(s@, width as nat),
{
    let len = s.unicode_len();
    let mut out = String::new();
    if len >= width {
        out.append(s);
        proof {
            assert(out@ =~= s@);
        }
        return out;
    }
    let gap = width - len;
    let mut j: usize = 0;
    while j < gap
        invariant
            out@.len() == j,
            j <= gap,
            forall|k: int| 0 <= k < j ==> out@[k] == ' ',
        decreases gap - j,
    {
        push_char(&mut out, ' ');
        j = j + 1;
    }
    out.append(s);
    proof {
        lemma_pad_chunk(gap as nat);
        lemma_pad_left_chunk(s@, width as nat);
        assert(out@ =~= pad_chunk(gap as nat) + s@);
    }
    out
}

/// The value of a pure digit string, most significant digit first.
pub open spec fn digits_value(digits: Seq<char>) -> int
    decreases digits.len(),
{
    if digits.len() == 0 {
        0
    } else {
        digits_value(digits.drop_last()) * 10 + (match spec_digit(digits.last()) {
            Some(d) => d as int,
            None => 0,
        })
    }
}

/// Every character of `s` is a decimal digit.
pub open spec fn all_digits(s: Seq<char>) -> bool {
    forall|i: int| 0 <= i < s.len() ==> spec_digit(#[trigger] s[i]) is Some
}

proof fn lemma_all_digits(s: Seq<char>)
    requires
        forall|j: int| 0 <= j < s.len() ==> spec_digit(#[trigger] s[j]) is Some,
    ensures
        all_digits(s),
{
}

proof fn lemma_not_all_digits(s: Seq<char>, j: int)
    requires
        0 <= j < s.len(),
        spec_digit(s[j]) is None,
    ensures
        !all_digits(s),
{
}

/// The value that `str::parse::<i32>` would give: an optional sign, then one
/// or more decimal digits, the whole of it in range.
pub open spec fn spec_parse_i32(s: Seq<char>) -> Option<i32> {
    let digits = if s.len() > 0 && (s[0] == '+' || s[0] == '-') {
        s.skip(1)
    } else {
        s
    };
    let negative = s.len() > 0 && s[0] == '-';
    if digits.len() == 0 || !all_digits(digits) {
        None
    } else {
        let v = digits_value(digits);
        if negative {
            if -v >= i32::MIN as int {
                Some((-v) as i32)
            } else {
                None
            }
        } else {
            if v <= i32::MAX as int {
                Some(v as i32)
            } else {
                None
            }
        }
    }
}

proof fn lemma_digits_value_nonneg(digits: Seq<char>)
    ensures
        digits_value(digits) >= 0,
    decreases digits.len(),
{
    if digits.len() > 0 {
        lemma_digits_value_nonneg(digits.drop_last());
        let p = digits_value(digits.drop_last());
        assert(p * 10 >= 0) by (nonlinear_arith)
            requires
                p >= 0,
        ;
    }
}

/// Once a prefix of a digit string is worth more than a bound, the whole
/// string is too.
proof fn lemma_digits_value_grows(digits: Seq<char>, k: int)
    requires
        0 < k <= digits.len(),
    ensures
        digits_value(digits) >= digits_value(digits.take(k)),
    decreases digits.len() - k,
{
    if k == digits.len() {
        assert(digits.take(k) =~= digits);
    } else {
        assert(digits.take(k + 1).drop_last() =~= digits.take(k));
        let p = digits_value(digits.take(k));
        lemma_digits_value_nonneg(digits.take(k));
        assert(p * 10 >= p) by (nonlinear_arith)
            requires
                p >= 0,
        ;
        lemma_digits_value_grows(digits, k + 1);
    }
}

/// Parses a signed 32-bit integer exactly as `str::parse::<i32>` does.
pub fn parse_i32(s: &str) -> (r: Option<i32>)
    ensures
        r == spec_parse_i32(s@),
{
    let len = s.unicode_len();
    let mut start: usize = 0;
    let mut negative = false;
    if len > 0 {
        let c0 = s.get_char(0);
        if c0 == '+' || c0 == '-' {
            start = 1;
            negative = c0 == '-';
        }
    }
    let ghost digits = if s@.len() > 0 && (s@[0] == '+' || s@[0] == '-') {
        s@.skip(1)
    } else {
        s@
    };
    proof {
        if start == 0 {
            assert(s@.skip(0) =~= s@);
        }
    }
    if start == len {
        return None;
    }
    let mut acc: i64 = 0;
    let mut i: usize = start;
    while i < len
        invariant
            len == s@.len(),
            start <= i <= len,
            start < len,
            start == 1 ==> s@.len() > 0 && (s@[0] == '+' || s@[0] == '-'),
            start == 0 ==> !(s@.len() > 0 && (s@[0] == '+' || s@[0] == '-')),
            negative == (s@.len() > 0 && s@[0] == '-'),
            digits == (if s@.len() > 0 && (s@[0] == '+' || s@[0] == '-') {
                s@.skip(1)
            } else {
                s@
            }),
            digits.len() == len - start,
            forall|j: int| 0 <= j < i - start ==> spec_digit(#[trigger] digits[j]) is Some,
            0 <= acc <= 0x80000000i64,
            acc == digits_value(digits.take(i - start)),
        decreases len - i,
    {
        let c = s.get_char(i);
        proof {
            assert(digits[i - start] == s@[i as int]);
        }
        match digit_of(c) {
            None => {
                proof {
                    lemma_not_all_digits(digits, i - start);
                }
                return None;
            },
            Some(d) => {
                acc = acc * 10 + d as i64;
                proof {
                    assert(digits.take(i + 1 - start).drop_last() =~= digits.take(i - start));
                    assert(digits.take(i + 1 - start).last() == digits[i - start]);
                }
                if acc > 0x80000000i64 {
                    // Any further digits only push the value further out of
                    // the 32-bit range.
                    proof {
                        assert(acc == digits_value(digits.take(i + 1 - start)));
                        if all_digits(digits) {
                            lemma_digits_value_grows(digits, i + 1 - start);
                            assert(digits_value(digits) > 0x80000000);
                        }
                    }
                    return None;
                }
            },
        }
        i = i + 1;
    }
    proof {
        assert(digits.take(len - start) =~= digits);
        lemma_all_digits(digits);
    }
    if negative {
        if acc <= 0x7fffffffi64 {
            Some(0i32 - (acc as i32))
        } else {
            Some(i32::MIN)
        }
    } else {
        if acc <= 0x7fffffffi64 {
            Some(acc as i32)
        } else {
            None
        }
    }
}

} // verus!
