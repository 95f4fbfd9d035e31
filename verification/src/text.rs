//! Character-level utilities: converting between `str` and character
//! vectors, searching and trimming, and reading and writing decimal digit
//! runs.

use vstd::prelude::*;
use vstd::string::StrSliceExecFns;

verus! {

/// Relies on `String::push`: appends the given character to the string.
pub assume_specification[ String::push ](s: &mut String, ch: char)
    ensures
        final(s)@ == old(s)@.push(ch),
;

/// Copies the characters of a string slice into a vector.
pub fn str_to_chars(s: &str) -> (r: Vec<char>)
    ensures
        r@ == s@,
{
    let n = s.unicode_len();
    let mut r: Vec<char> = Vec::new();
    let mut i: usize = 0;
    while i < n
        invariant
            i <= n,
            n == s@.len(),
            r@ == s@.subrange(0, i as int),
        decreases n - i,
    {
        r.push(s.get_char(i));
        proof {
            assert(r@ =~= s@.subrange(0, i + 1));
        }
        i = i + 1;
    }
    proof {
        assert(s@.subrange(0, n as int) =~= s@);
    }
    r
}

/// Appends the characters `v[from..to]` to `out`.
pub fn push_chars(out: &mut String, v: &[char], from: usize, to: usize)
    requires
        from <= to <= v@.len(),
    ensures
        final(out)@ == old(out)@ + v@.subrange(from as int, to as int),
{
    let mut i: usize = from;
    while i < to
        invariant
            from <= i <= to <= v@.len(),
            out@ == old(out)@ + v@.subrange(from as int, i as int),
        decreases to - i,
    {
        out.push(v[i]);
        proof {
            assert(old(out)@ + v@.subrange(from as int, i + 1) =~= (old(out)@ + v@.subrange(
                from as int,
                i as int,
            )).push(v@[i as int]));
        }
        i = i + 1;
    }
    proof {
        if from == to {
            assert(out@ =~= old(out)@ + v@.subrange(from as int, to as int));
        }
    }
}

/// Builds a string from the characters `v[from..to]`.
pub fn chars_to_string(v: &[char], from: usize, to: usize) -> (r: String)
    requires
        from <= to <= v@.len(),
    ensures
        r@ == v@.subrange(from as int, to as int),
{
    let mut r = String::new();
    push_chars(&mut r, v, from, to);
    proof {
        assert(Seq::<char>::empty() + v@.subrange(from as int, to as int) =~= v@.subrange(
            from as int,
            to as int,
        ));
    }
    r
}

/// True when `v[from..to]` spells exactly the characters of `s`.
pub fn range_eq_str(v: &[char], from: usize, to: usize, s: &str) -> (r: bool)
    requires
        from <= to <= v@.len(),
    ensures
        r == (v@.subrange(from as int, to as int) == s@),
{
    let n = s.unicode_len();
    if to - from != n {
        proof {
            assert(v@.subrange(from as int, to as int).len() != s@.len());
        }
        return false;
    }
    let mut i: usize = 0;
    while i < n
        invariant
            i <= n,
            n == s@.len(),
            from <= to <= v@.len(),
            to - from == n,
            forall|j: int| 0 <= j < i ==> v@[from + j] == s@[j],
        decreases n - i,
    {
        if v[from + i] != s.get_char(i) {
            proof {
                assert(v@.subrange(from as int, to as int)[i as int] != s@[i as int]);
            }
            return false;
        }
        i = i + 1;
    }
    proof {
        assert(v@.subrange(from as int, to as int) =~= s@);
    }
    true
}

/// True when the characters of `s` are a prefix of `v[from..]`.
pub fn range_starts_with(v: &[char], from: usize, s: &str) -> (r: bool)
    requires
        from <= v@.len(),
    ensures
        r == (v@.len() - from >= s@.len() && v@.subrange(from as int, from + s@.len()) == s@),
{
    let n = s.unicode_len();
    if v.len() - from < n {
        return false;
    }
    range_eq_str(v, from, from + n, s)
}

/// First position `i` in `from <= i < to` where `v[i]` is `c1` or `c2`.
pub open spec fn spec_find2(s: Seq<char>, from: int, to: int, c1: char, c2: char) -> Option<int>
    decreases to - from,
{
    if from >= to || from < 0 {
        None
    } else if s[from] == c1 || s[from] == c2 {
        Some(from)
    } else {
        spec_find2(s, from + 1, to, c1, c2)
    }
}

/// Finds the first of two characters in `v[from..to]`.
pub fn find2(v: &[char], from: usize, to: usize, c1: char, c2: char) -> (r: Option<usize>)
    requires
        from <= to <= v@.len(),
    ensures
        match r {
            Some(i) => Some(i as int) == spec_find2(v@, from as int, to as int, c1, c2) && from
                <= i < to && (v@[i as int] == c1 || v@[i as int] == c2) && (forall|j: int|
                from <= j < i ==> v@[j] != c1 && v@[j] != c2),
            None => spec_find2(v@, from as int, to as int, c1, c2) is None && (forall|j: int|
                from <= j < to ==> v@[j] != c1 && v@[j] != c2),
        },
{
    let mut i: usize = from;
    while i < to
        invariant
            from <= i <= to <= v@.len(),
            spec_find2(v@, from as int, to as int, c1, c2) == spec_find2(
                v@,
                i as int,
                to as int,
                c1,
                c2,
            ),
            forall|j: int| from <= j < i ==> v@[j] != c1 && v@[j] != c2,
        decreases to - i,
    {
        if v[i] == c1 || v[i] == c2 {
            return Some(i);
        }
        i = i + 1;
    }
    None
}

/// True for the characters this library trims from the edges of a data
/// cell: the ASCII whitespace characters.
pub open spec fn spec_is_ws(c: char) -> bool {
    c == ' ' || c == '\t' || c == '\r' || c == '\n' || c == '\u{b}' || c == '\u{c}'
}

/// Whitespace test matching [`spec_is_ws`].
pub fn is_ws(c: char) -> (r: bool)
    ensures
        r == spec_is_ws(c),
{
    c == ' ' || c == '\t' || c == '\r' || c == '\n' || c == '\u{b}' || c == '\u{c}'
}

/// First position at or after `from` in `s[..to]` holding a character
/// other than `c`; `to` when there is none.
pub open spec fn spec_skip(s: Seq<char>, from: int, to: int, c: char) -> int
    decreases to - from,
{
    if from >= to || from < 0 {
        to
    } else if s[from] == c {
        spec_skip(s, from + 1, to, c)
    } else {
        from
    }
}

/// Position after the last character of `s[from..to]` other than `c`;
/// `from` when there is none.
pub open spec fn spec_rskip(s: Seq<char>, from: int, to: int, c: char) -> int
    decreases to - from,
{
    if from >= to || to < 0 {
        from
    } else if s[to - 1] == c {
        spec_rskip(s, from, to - 1, c)
    } else {
        to
    }
}

/// Skips copies of `c` forward; returns the first index of another
/// character, or `to`.
pub fn skip_char(v: &[char], from: usize, to: usize, c: char) -> (r: usize)
    requires
        from <= to <= v@.len(),
    ensures
        r == spec_skip(v@, from as int, to as int, c),
        from <= r <= to,
        r < to ==> v@[r as int] != c,
        forall|j: int| from <= j < r ==> v@[j] == c,
    decreases to - from,
{
    let mut i: usize = from;
    while i < to
        invariant
            from <= i <= to <= v@.len(),
            spec_skip(v@, from as int, to as int, c) == spec_skip(v@, i as int, to as int, c),
            forall|j: int| from <= j < i ==> v@[j] == c,
        decreases to - i,
    {
        if v[i] != c {
            return i;
        }
        i = i + 1;
    }
    to
}

/// Skips copies of `c` backward; returns one past the last other
/// character, or `from`.
pub fn rskip_char(v: &[char], from: usize, to: usize, c: char) -> (r: usize)
    requires
        from <= to <= v@.len(),
    ensures
        r == spec_rskip(v@, from as int, to as int, c),
        from <= r <= to,
        r > from ==> v@[r - 1] != c,
        forall|j: int| r <= j < to ==> v@[j] == c,
    decreases to - from,
{
    let mut i: usize = to;
    while i > from
        invariant
            from <= i <= to <= v@.len(),
            spec_rskip(v@, from as int, to as int, c) == spec_rskip(v@, from as int, i as int, c),
            forall|j: int| i <= j < to ==> v@[j] == c,
        decreases i,
    {
        if v[i - 1] != c {
            return i;
        }
        i = i - 1;
    }
    from
}

/// The decimal digit value of a character, for characters `'0'`–`'9'`.
pub open spec fn spec_digit_val(c: char) -> nat {
    ((c as u32) - 48) as nat
}

/// True for the characters `'0'`–`'9'`.
pub open spec fn spec_is_digit(c: char) -> bool {
    48 <= (c as u32) <= 57
}

/// Digit test matching [`spec_is_digit`].
pub fn is_digit(c: char) -> (r: bool)
    ensures
        r == spec_is_digit(c),
{
    let u = c as u32;
    48 <= u && u <= 57
}

/// The digit character for a value below ten.
pub open spec fn spec_digit_char(d: nat) -> char {
    if d == 0 {
        '0'
    } else if d == 1 {
        '1'
    } else if d == 2 {
        '2'
    } else if d == 3 {
        '3'
    } else if d == 4 {
        '4'
    } else if d == 5 {
        '5'
    } else if d == 6 {
        '6'
    } else if d == 7 {
        '7'
    } else if d == 8 {
        '8'
    } else {
        '9'
    }
}

/// Digit rendering matching [`spec_digit_char`].
pub fn digit_char(d: u8) -> (r: char)
    requires
        d < 10,
    ensures
        r == spec_digit_char(d as nat),
{
    if d == 0 {
        '0'
    } else if d == 1 {
        '1'
    } else if d == 2 {
        '2'
    } else if d == 3 {
        '3'
    } else if d == 4 {
        '4'
    } else if d == 5 {
        '5'
    } else if d == 6 {
        '6'
    } else if d == 7 {
        '7'
    } else if d == 8 {
        '8'
    } else {
        '9'
    }
}

/// True when every character of `s` is a decimal digit.
pub open spec fn spec_all_digits(s: Seq<char>) -> bool {
    forall|i: int| 0 <= i < s.len() ==> spec_is_digit(#[trigger] s[i])
}

/// The number a run of digit characters denotes.
pub open spec fn spec_digits_val(s: Seq<char>) -> nat
    decreases s.len(),
{
    if s.len() == 0 {
        0
    } else {
        spec_digits_val(s.drop_last()) * 10 + spec_digit_val(s.last())
    }
}

/// A digit run is worth at least as much as any of its prefixes.
pub proof fn lemma_digits_val_prefix_le(s: Seq<char>, i: int)
    requires
        0 <= i <= s.len(),
    ensures
        spec_digits_val(s.subrange(0, i)) <= spec_digits_val(s),
    decreases s.len(),
{
    if i < s.len() {
        lemma_digits_val_prefix_le(s.drop_last(), i);
        assert(s.drop_last().subrange(0, i) =~= s.subrange(0, i));
        assert(spec_digits_val(s.drop_last()) * 10 >= spec_digits_val(s.drop_last()) * 1);
    } else {
        assert(s.subrange(0, i) =~= s);
    }
}

/// Reads `v[from..to]` as an unsigned decimal numeral. `None` when the
/// range is empty, holds a non-digit, or denotes a number above `u128::MAX`.
pub fn parse_digits(v: &[char], from: usize, to: usize) -> (r: Option<u128>)
    requires
        from <= to <= v@.len(),
    ensures
        ({
            let s = v@.subrange(from as int, to as int);
            match r {
                Some(x) => s.len() > 0 && spec_all_digits(s) && x == spec_digits_val(s),
                None => s.len() == 0 || !spec_all_digits(s) || spec_digits_val(s) > u128::MAX,
            }
        }),
{
    let ghost s = v@.subrange(from as int, to as int);
    if from == to {
        return None;
    }
    let mut acc: u128 = 0;
    let mut i: usize = from;
    while i < to
        invariant
            from <= i <= to <= v@.len(),
            s == v@.subrange(from as int, to as int),
            spec_all_digits(s.subrange(0, i - from)),
            acc == spec_digits_val(s.subrange(0, i - from)),
        decreases to - i,
    {
        let c = v[i];
        proof {
            assert(s[i - from] == v@[i as int]);
        }
        if !is_digit(c) {
            proof {
                assert(!spec_is_digit(s[i - from]));
            }
            return None;
        }
        let d = ((c as u32) - 48) as u128;
        let ghost prefix = s.subrange(0, i - from);
        let ghost next = s.subrange(0, i + 1 - from);
        proof {
            assert(next.drop_last() =~= prefix);
            assert(next.last() == s[i - from]);
        }
        if acc > (u128::MAX - d) / 10 {
            proof {
                assert(spec_digits_val(next) == acc * 10 + d);
                assert(acc * 10 + d > u128::MAX) by (nonlinear_arith)
                    requires
                        acc > (u128::MAX - d) / 10,
                        (u128::MAX - d) / 10 * 10 + (u128::MAX - d) % 10 == u128::MAX - d,
                        0 <= (u128::MAX - d) % 10 < 10,
                        d <= 9,
                ;
                lemma_digits_val_prefix_le(s, i + 1 - from);
            }
            return None;
        }
        proof {
            assert(acc * 10 + d <= u128::MAX) by (nonlinear_arith)
                requires
                    acc <= (u128::MAX - d) / 10,
                    (u128::MAX - d) / 10 * 10 + (u128::MAX - d) % 10 == u128::MAX - d,
                    0 <= (u128::MAX - d) % 10 < 10,
                    d <= 9,
            ;
        }
        acc = acc * 10 + d;
        i = i + 1;
    }
    proof {
        assert(s.subrange(0, to - from) =~= s);
    }
    Some(acc)
}

/// The decimal numeral of a number, most significant digit first.
pub open spec fn spec_udigits(n: nat) -> Seq<char>
    decreases n,
{
    if n < 10 {
        seq![spec_digit_char(n)]
    } else {
        spec_udigits(n / 10).push(spec_digit_char(n % 10))
    }
}

/// Every numeral below 10^39 has at most 39 digits; in particular any
/// `u128` numeral does.
pub proof fn lemma_udigits_len(n: nat, e: nat)
    requires
        n < crate::dec::pow10(e),
        e >= 1,
    ensures
        spec_udigits(n).len() <= e,
    decreases e,
{
    if n >= 10 {
        assert(crate::dec::pow10(e) == 10 * crate::dec::pow10((e - 1) as nat));
        assert(n / 10 < crate::dec::pow10((e - 1) as nat)) by (nonlinear_arith)
            requires
                n < 10 * crate::dec::pow10((e - 1) as nat),
                n >= 10,
        ;
        lemma_udigits_len(n / 10, (e - 1) as nat);
    }
}

proof fn lemma_u128_digits_bound(n: u128)
    ensures
        spec_udigits(n as nat).len() <= 39,
{
    assert(crate::dec::pow10(39) == 1000000000000000000000000000000000000000) by {
        reveal_with_fuel(crate::dec::pow10, 40);
    }
    lemma_udigits_len(n as nat, 39);
}

/// Appends the decimal numeral of `n` to `out`.
pub fn push_u128(out: &mut String, n: u128)
    ensures
        final(out)@ == old(out)@ + spec_udigits(n as nat),
    decreases n,
{
    if n < 10 {
        out.push(digit_char(n as u8));
        proof {
            assert(old(out)@.push(spec_digit_char(n as nat)) =~= old(out)@ + spec_udigits(
                n as nat,
            ));
        }
    } else {
        push_u128(out, n / 10);
        out.push(digit_char((n % 10) as u8));
        proof {
            assert((old(out)@ + spec_udigits((n / 10) as nat)).push(
                spec_digit_char((n % 10) as nat),
            ) =~= old(out)@ + spec_udigits(n as nat));
        }
    }
}

/// The number of digits in the decimal numeral of `n`.
pub fn count_digits(n: u128) -> (c: u32)
    ensures
        c == spec_udigits(n as nat).len(),
        1 <= c <= 39,
    decreases n,
{
    proof {
        lemma_u128_digits_bound(n);
    }
    if n < 10 {
        1
    } else {
        1 + count_digits(n / 10)
    }
}

/// A run of one repeated character.
pub open spec fn spec_repeat(c: char, k: nat) -> Seq<char> {
    Seq::new(k, |i: int| c)
}

/// Appends `k` copies of `c` to `out`.
pub fn push_repeat(out: &mut String, c: char, k: usize)
    ensures
        final(out)@ == old(out)@ + spec_repeat(c, k as nat),
{
    let mut i: usize = 0;
    while i < k
        invariant
            i <= k,
            out@ == old(out)@ + spec_repeat(c, i as nat),
        decreases k - i,
    {
        out.push(c);
        proof {
            assert((old(out)@ + spec_repeat(c, i as nat)).push(c) =~= old(out)@ + spec_repeat(
                c,
                (i + 1) as nat,
            ));
        }
        i = i + 1;
    }
    proof {
        if k == 0 {
            assert(out@ =~= old(out)@ + spec_repeat(c, 0));
        }
    }
}

/// Searching within a subrange agrees with searching the enclosing
/// sequence, up to the offset of the subrange.
pub proof fn lemma_find2_shift(s: Seq<char>, a: int, b: int, i: int, c1: char, c2: char)
    requires
        0 <= a,
        a <= a + i,
        a + i <= b <= s.len(),
    ensures
        ({
            let t = s.subrange(a, b);
            spec_find2(t, i, b - a, c1, c2) == match spec_find2(s, a + i, b, c1, c2) {
                Some(j) => Some(j - a),
                None => None::<int>,
            }
        }),
    decreases b - a - i,
{
    let t = s.subrange(a, b);
    if a + i < b {
        assert(t[i] == s[a + i]);
        if !(s[a + i] == c1 || s[a + i] == c2) {
            lemma_find2_shift(s, a, b, i + 1, c1, c2);
        }
    }
}

/// Backward skipping within a subrange agrees with backward skipping in
/// the enclosing sequence, up to the offset of the subrange.
pub proof fn lemma_rskip_shift(s: Seq<char>, a: int, b: int, k: int, c: char)
    requires
        0 <= a,
        a <= a + k,
        a + k <= b <= s.len(),
    ensures
        ({
            let t = s.subrange(a, b);
            spec_rskip(t, 0, k, c) == spec_rskip(s, a, a + k, c) - a
        }),
    decreases k,
{
    let t = s.subrange(a, b);
    if k > 0 {
        assert(t[k - 1] == s[a + k - 1]);
        if t[k - 1] == c {
            lemma_rskip_shift(s, a, b, k - 1, c);
        }
    }
}

/// True when the whole slice spells exactly the characters of `s`.
pub fn chars_eq(v: &[char], s: &str) -> (r: bool)
    ensures
        r == (v@ == s@),
{
    let r = range_eq_str(v, 0, v.len(), s);
    proof {
        assert(v@.subrange(0, v@.len() as int) =~= v@);
    }
    r
}

/// First position at or after `from` in `s[..to]` holding a
/// non-whitespace character; `to` when all are whitespace.
pub open spec fn spec_skip_ws(s: Seq<char>, from: int, to: int) -> int
    decreases to - from,
{
    if from >= to || from < 0 {
        to
    } else if spec_is_ws(s[from]) {
        spec_skip_ws(s, from + 1, to)
    } else {
        from
    }
}

/// Position after the last non-whitespace character of `s[from..to]`;
/// `from` when all are whitespace.
pub open spec fn spec_rskip_ws(s: Seq<char>, from: int, to: int) -> int
    decreases to - from,
{
    if from >= to || to < 0 {
        from
    } else if spec_is_ws(s[to - 1]) {
        spec_rskip_ws(s, from, to - 1)
    } else {
        to
    }
}

/// Skips whitespace forward.
pub fn skip_ws(v: &[char], from: usize, to: usize) -> (r: usize)
    requires
        from <= to <= v@.len(),
    ensures
        r == spec_skip_ws(v@, from as int, to as int),
        from <= r <= to,
    decreases to - from,
{
    let mut i: usize = from;
    while i < to
        invariant
            from <= i <= to <= v@.len(),
            spec_skip_ws(v@, from as int, to as int) == spec_skip_ws(v@, i as int, to as int),
        decreases to - i,
    {
        if !is_ws(v[i]) {
            return i;
        }
        i = i + 1;
    }
    to
}

/// Skips whitespace backward.
pub fn rskip_ws(v: &[char], from: usize, to: usize) -> (r: usize)
    requires
        from <= to <= v@.len(),
    ensures
        r == spec_rskip_ws(v@, from as int, to as int),
        from <= r <= to,
    decreases to - from,
{
    let mut i: usize = to;
    while i > from
        invariant
            from <= i <= to <= v@.len(),
            spec_rskip_ws(v@, from as int, to as int) == spec_rskip_ws(v@, from as int, i as int),
        decreases i,
    {
        if !is_ws(v[i - 1]) {
            return i;
        }
        i = i - 1;
    }
    from
}

/// The characters of `s[from..to]`, trimmed of whitespace at both ends.
pub open spec fn spec_trim_ws(s: Seq<char>, from: int, to: int) -> Seq<char> {
    let st = spec_skip_ws(s, from, to);
    let en = spec_rskip_ws(s, st, to);
    s.subrange(st, en)
}

/// Copies `v[from..to]` into a fresh vector.
pub fn chars_range_to_vec(v: &[char], from: usize, to: usize) -> (r: Vec<char>)
    requires
        from <= to <= v@.len(),
    ensures
        r@ == v@.subrange(from as int, to as int),
{
    let mut r: Vec<char> = Vec::new();
    let mut i: usize = from;
    while i < to
        invariant
            from <= i <= to <= v@.len(),
            r@ == v@.subrange(from as int, i as int),
        decreases to - i,
    {
        r.push(v[i]);
        proof {
            assert(r@ =~= v@.subrange(from as int, i + 1));
        }
        i = i + 1;
    }
    proof {
        if from == to {
            assert(r@ =~= v@.subrange(from as int, to as int));
        }
    }
    r
}

/// The UTF-8 length of one character.
pub open spec fn spec_char_len(c: char) -> nat {
    if (c as u32) < 0x80 {
        1
    } else if (c as u32) < 0x800 {
        2
    } else if (c as u32) < 0x10000 {
        3
    } else {
        4
    }
}

/// The UTF-8 length of a text.
pub open spec fn spec_utf8_len(s: Seq<char>) -> nat
    decreases s.len(),
{
    if s.len() == 0 {
        0
    } else {
        spec_utf8_len(s.drop_last()) + spec_char_len(s.last())
    }
}

/// The byte offset of character position `i` within `s`, capped at the
/// largest machine value; only a line whose byte count exhausts the
/// machine could reach the cap.
pub open spec fn spec_byte_off(s: Seq<char>, i: int) -> int {
    let n = spec_utf8_len(s.subrange(0, i));
    if n <= usize::MAX {
        n as int
    } else {
        usize::MAX as int
    }
}

/// Computes the byte offset of character position `to`.
pub fn byte_off(v: &[char], to: usize) -> (r: usize)
    requires
        to <= v@.len(),
    ensures
        r as int == spec_byte_off(v@, to as int),
{
    let mut acc: usize = 0;
    let mut i: usize = 0;
    proof {
        assert(v@.subrange(0, 0) =~= Seq::<char>::empty());
    }
    while i < to
        invariant
            i <= to <= v@.len(),
            acc as int == spec_byte_off(v@, i as int),
        decreases to - i,
    {
        let u = v[i] as u32;
        let l: usize = if u < 0x80 {
            1
        } else if u < 0x800 {
            2
        } else if u < 0x10000 {
            3
        } else {
            4
        };
        proof {
            assert(v@.subrange(0, i + 1).drop_last() =~= v@.subrange(0, i as int));
            assert(v@.subrange(0, i + 1).last() == v@[i as int]);
            assert(l == spec_char_len(v@[i as int]));
        }
        if acc > usize::MAX - l {
            acc = usize::MAX;
        } else {
            acc = acc + l;
        }
        i = i + 1;
    }
    acc
}

} // verus!
