//! Text helpers: trimming, number formatting and number reading.
//!
//! Strings are modelled by their characters, `Seq<char>`. Every function here
//! is proved against a statement over that model.

use vstd::prelude::*;

verus! {

/// The characters of the Unicode property `White_Space`.
pub open spec fn white_space(c: char) -> bool {
    let n = c as int;
    ||| 0x09 <= n <= 0x0D
    ||| n == 0x20
    ||| n == 0x85
    ||| n == 0xA0
    ||| n == 0x1680
    ||| 0x2000 <= n <= 0x200A
    ||| n == 0x2028
    ||| n == 0x2029
    ||| n == 0x202F
    ||| n == 0x205F
    ||| n == 0x3000
}

/// `s` without its leading white space.
pub open spec fn trimmed_start(s: Seq<char>) -> Seq<char>
    decreases s.len(),
{
    if s.len() > 0 && white_space(s[0]) {
        trimmed_start(s.skip(1))
    } else {
        s
    }
}

/// `s` without its trailing white space.
pub open spec fn trimmed_end(s: Seq<char>) -> Seq<char>
    decreases s.len(),
{
    if s.len() > 0 && white_space(s.last()) {
        trimmed_end(s.drop_last())
    } else {
        s
    }
}

/// `s` without white space at either end.
pub open spec fn trimmed(s: Seq<char>) -> Seq<char> {
    trimmed_end(trimmed_start(s))
}

/// Is `c` white space?
pub fn is_white_space(c: char) -> (r: bool)
    ensures
        r == white_space(c),
{
    let n: u32 = c as u32;
    (0x09 <= n && n <= 0x0D) || n == 0x20 || n == 0x85 || n == 0xA0 || n == 0x1680 || (0x2000 <= n
        && n <= 0x200A) || n == 0x2028 || n == 0x2029 || n == 0x202F || n == 0x205F || n == 0x3000
}

/// The characters of `s`, in order.
pub fn chars_of(s: &str) -> (r: Vec<char>)
    ensures
        r@ == s@,
{
    let mut r: Vec<char> = Vec::new();
    for c in it: s.chars()
        invariant
            r@ == s@.take(it.index()),
            it.seq() == s@,
    {
        r.push(c);
        assert(r@ == s@.take(it.index() + 1));
    }
    assert(s@.take(s@.len() as int) == s@);
    r
}

/// Dropping `i` leading white-space characters does not change what is left
/// after trimming the start.
proof fn lemma_trimmed_start_skip(s: Seq<char>, i: int)
    requires
        0 <= i <= s.len(),
        forall|k: int| 0 <= k < i ==> white_space(s[k]),
    ensures
        trimmed_start(s) == trimmed_start(s.skip(i)),
    decreases i,
{
    if i > 0 {
        assert(s.skip(1).skip(i - 1) =~= s.skip(i));
        assert forall|k: int| 0 <= k < i - 1 implies white_space(s.skip(1)[k]) by {
            assert(s.skip(1)[k] == s[k + 1]);
        }
        lemma_trimmed_start_skip(s.skip(1), i - 1);
    } else {
        assert(s.skip(0) =~= s);
    }
}

/// Dropping trailing white space down to length `j` does not change what is
/// left after trimming the end.
proof fn lemma_trimmed_end_take(s: Seq<char>, j: int)
    requires
        0 <= j <= s.len(),
        forall|k: int| j <= k < s.len() ==> white_space(s[k]),
    ensures
        trimmed_end(s) == trimmed_end(s.take(j)),
    decreases s.len() - j,
{
    if j < s.len() {
        assert(s.drop_last().take(j) =~= s.take(j));
        lemma_trimmed_end_take(s.drop_last(), j);
    } else {
        assert(s.take(j) =~= s);
    }
}

/// `s` without white space at either end.
pub fn trim<'a>(s: &'a str) -> (r: &'a str)
    ensures
        r@ == trimmed(s@),
{
    let v: Vec<char> = chars_of(s);
    let mut i: usize = 0;
    while i < v.len() && is_white_space(v[i])
        invariant
            0 <= i <= v.len(),
            forall|k: int| 0 <= k < i ==> white_space(v@[k]),
        decreases v.len() - i,
    {
        i = i + 1;
    }
    let mut j: usize = v.len();
    while j > i && is_white_space(v[j - 1])
        invariant
            0 <= i <= j <= v.len(),
            forall|k: int| j <= k < v.len() ==> white_space(v@[k]),
        decreases j,
    {
        j = j - 1;
    }
    proof {
        let t = s@.skip(i as int);
        lemma_trimmed_start_skip(s@, i as int);
        assert(trimmed_start(s@) == t);
        assert forall|k: int| j - i <= k < t.len() implies white_space(t[k]) by {
            assert(t[k] == s@[k + i]);
        }
        lemma_trimmed_end_take(t, j - i);
        assert(t.take(j - i) =~= s@.subrange(i as int, j as int));
    }
    s.substring_char(i, j)
}

/// Is there nothing in `s` but white space?
pub open spec fn blank(s: Seq<char>) -> bool {
    forall|i: int| 0 <= i < s.len() ==> white_space(#[trigger] s[i])
}

/// A string is blank exactly when trimming leaves nothing of it.
pub proof fn lemma_blank_trimmed(s: Seq<char>)
    ensures
        blank(s) <==> trimmed(s).len() == 0,
{
    if blank(s) {
        lemma_trimmed_start_skip(s, s.len() as int);
        assert(s.skip(s.len() as int) =~= Seq::<char>::empty());
    } else {
        let w = choose|i: int| 0 <= i < s.len() && !white_space(#[trigger] s[i]);
        lemma_trimmed_start_keeps(s, w);
        let t = trimmed_start(s);
        let u = choose|i: int| 0 <= i < t.len() && !white_space(#[trigger] t[i]);
        lemma_trimmed_end_keeps(t, u);
    }
}

proof fn lemma_trimmed_start_keeps(s: Seq<char>, w: int)
    requires
        0 <= w < s.len(),
        !white_space(s[w]),
    ensures
        exists|i: int| 0 <= i < trimmed_start(s).len() && !white_space(#[trigger] trimmed_start(s)[i]),
    decreases s.len(),
{
    if white_space(s[0]) {
        assert(s.skip(1)[w - 1] == s[w]);
        lemma_trimmed_start_keeps(s.skip(1), w - 1);
        assert(trimmed_start(s) == trimmed_start(s.skip(1)));
    } else {
        assert(!white_space(trimmed_start(s)[w]));
    }
}

proof fn lemma_trimmed_end_keeps(s: Seq<char>, w: int)
    requires
        0 <= w < s.len(),
        !white_space(s[w]),
    ensures
        trimmed_end(s).len() > 0,
    decreases s.len(),
{
    if white_space(s.last()) {
        lemma_trimmed_end_keeps(s.drop_last(), w);
    }
}

/// The decimal digit of value `d`.
pub open spec fn digit(d: int) -> char
    recommends
        0 <= d < 10,
{
    (48 + d) as char
}

/// `n` in decimal, without leading zeros.
pub open spec fn decimal(n: nat) -> Seq<char>
    decreases n,
{
    if n < 10 {
        seq![digit(n as int)]
    } else {
        decimal(n / 10).push(digit((n % 10) as int))
    }
}

/// `n` in decimal, with a minus sign in front when it is negative.
pub open spec fn signed_decimal(n: int) -> Seq<char> {
    if n < 0 {
        seq!['-'] + decimal((-n) as nat)
    } else {
        decimal(n as nat)
    }
}

/// The one-character text of a decimal digit.
fn digit_text(d: u64) -> (r: &'static str)
    requires
        d < 10,
    ensures
        r@ == seq![digit(d as int)],
{
    proof {
        reveal_strlit("0");
        reveal_strlit("1");
        reveal_strlit("2");
        reveal_strlit("3");
        reveal_strlit("4");
        reveal_strlit("5");
        reveal_strlit("6");
        reveal_strlit("7");
        reveal_strlit("8");
        reveal_strlit("9");
    }
    let r: &'static str = match d {
        0 => "0",
        1 => "1",
        2 => "2",
        3 => "3",
        4 => "4",
        5 => "5",
        6 => "6",
        7 => "7",
        8 => "8",
        _ => "9",
    };
    assert(r@ =~= seq![digit(d as int)]);
    r
}

/// `n` in decimal.
pub fn u64_text(n: u64) -> (r: String)
    ensures
        r@ == decimal(n as nat),
    decreases n,
{
    if n < 10 {
        digit_text(n).to_owned()
    } else {
        let mut r: String = u64_text(n / 10);
        r.append(digit_text(n % 10));
        assert(r@ =~= decimal(n as nat));
        r
    }
}

/// `n` in decimal, with its sign when negative.
pub fn i64_text(n: i64) -> (r: String)
    ensures
        r@ == signed_decimal(n as int),
{
    if n < 0 {
        let magnitude: u64 = if n == i64::MIN {
            0x8000_0000_0000_0000
        } else {
            (-n) as u64
        };
        let mut r: String = "-".to_owned();
        r.append(u64_text(magnitude).as_str());
        proof {
            reveal_strlit("-");
            assert("-"@ =~= seq!['-']);
        }
        r
    } else {
        u64_text(n as u64)
    }
}

/// `s` with spaces in front up to the given width.
pub open spec fn right_aligned(s: Seq<char>, width: nat) -> Seq<char>
    decreases width - s.len(),
{
    if s.len() >= width {
        s
    } else {
        right_aligned(seq![' '] + s, width)
    }
}

/// `s` with spaces in front until it is `width` characters long.
pub fn align_right(s: &str, width: usize) -> (r: String)
    ensures
        r@ == right_aligned(s@, width as nat),
{
    let mut r: String = s.to_owned();
    let mut n: usize = s.unicode_len();
    while n < width
        invariant
            n == r@.len(),
            right_aligned(r@, width as nat) == right_aligned(s@, width as nat),
        decreases width - n,
    {
        let mut padded: String = " ".to_owned();
        padded.append(r.as_str());
        proof {
            reveal_strlit(" ");
            assert(" "@ =~= seq![' ']);
        }
        r = padded;
        n = n + 1;
    }
    r
}

/// `n` in decimal with at least two digits.
pub open spec fn two_digits(n: nat) -> Seq<char> {
    if n < 10 {
        seq!['0'] + decimal(n)
    } else {
        decimal(n)
    }
}

/// `n` in decimal with at least two digits.
pub fn two_digit_text(n: u64) -> (r: String)
    ensures
        r@ == two_digits(n as nat),
{
    if n < 10 {
        let mut r: String = "0".to_owned();
        r.append(u64_text(n).as_str());
        proof {
            reveal_strlit("0");
            assert("0"@ =~= seq!['0']);
        }
        r
    } else {
        u64_text(n)
    }
}

/// The upper-case hexadecimal digit of value `d`.
pub open spec fn hex_digit(d: int) -> char
    recommends
        0 <= d < 16,
{
    if d < 10 {
        (48 + d) as char
    } else {
        (55 + d) as char
    }
}

/// A byte as two upper-case hexadecimal digits.
pub open spec fn hex_byte(b: u8) -> Seq<char> {
    seq![hex_digit(b as int / 16), hex_digit(b as int % 16)]
}

/// The value of a hexadecimal digit of either case.
pub open spec fn hex_value(c: char) -> Option<int> {
    let n = c as int;
    if 48 <= n <= 57 {
        Some(n - 48)
    } else if 65 <= n <= 70 {
        Some(n - 55)
    } else if 97 <= n <= 102 {
        Some(n - 87)
    } else {
        None
    }
}

/// The one-character text of an upper-case hexadecimal digit.
fn hex_digit_text(d: u8) -> (r: &'static str)
    requires
        d < 16,
    ensures
        r@ == seq![hex_digit(d as int)],
{
    if d < 10 {
        digit_text(d as u64)
    } else {
        proof {
            reveal_strlit("A");
            reveal_strlit("B");
            reveal_strlit("C");
            reveal_strlit("D");
            reveal_strlit("E");
            reveal_strlit("F");
        }
        let r: &'static str = match d {
            10 => "A",
            11 => "B",
            12 => "C",
            13 => "D",
            14 => "E",
            _ => "F",
        };
        assert(r@ =~= seq![hex_digit(d as int)]);
        r
    }
}

/// A byte as two upper-case hexadecimal digits.
pub fn hex_byte_text(b: u8) -> (r: String)
    ensures
        r@ == hex_byte(b),
{
    let mut r: String = hex_digit_text(b / 16).to_owned();
    r.append(hex_digit_text(b % 16));
    assert(r@ =~= hex_byte(b));
    r
}

/// The value of a hexadecimal digit of either case.
pub fn hex_digit_value(c: char) -> (r: Option<u32>)
    ensures
        match r {
            Some(v) => hex_value(c) == Some(v as int) && v < 16,
            None => hex_value(c) is None,
        },
{
    let n: u32 = c as u32;
    if 48 <= n && n <= 57 {
        Some(n - 48)
    } else if 65 <= n && n <= 70 {
        Some(n - 55)
    } else if 97 <= n && n <= 102 {
        Some(n - 87)
    } else {
        None
    }
}

/// Is `c` one of the ten decimal digits?
pub open spec fn decimal_digit(c: char) -> bool {
    48 <= c as int <= 57
}

/// The number that a run of decimal digits spells.
pub open spec fn digits_value(s: Seq<char>) -> nat
    decreases s.len(),
{
    if s.len() == 0 {
        0
    } else {
        (digits_value(s.drop_last()) * 10 + (s.last() as int - 48)) as nat
    }
}

/// `s` without one leading plus sign, when it has one.
pub open spec fn unsigned_part(s: Seq<char>) -> Seq<char> {
    if s.len() > 0 && s[0] == '+' {
        s.skip(1)
    } else {
        s
    }
}

/// Does `s` spell a number that fits in 32 bits: an optional plus sign, then
/// at least one decimal digit and nothing else?
pub open spec fn spells_u32(s: Seq<char>) -> bool {
    let d = unsigned_part(s);
    &&& d.len() > 0
    &&& forall|i: int| 0 <= i < d.len() ==> decimal_digit(#[trigger] d[i])
    &&& digits_value(d) <= u32::MAX
}

/// A longer run of digits spells a number at least as large.
proof fn lemma_digits_value_prefix(s: Seq<char>, k: int)
    requires
        0 <= k <= s.len(),
        forall|i: int| 0 <= i < s.len() ==> decimal_digit(#[trigger] s[i]),
    ensures
        digits_value(s.take(k)) <= digits_value(s),
    decreases s.len(),
{
    if k < s.len() {
        let t = s.drop_last();
        assert forall|i: int| 0 <= i < t.len() implies decimal_digit(#[trigger] t[i]) by {
            assert(t[i] == s[i]);
        }
        lemma_digits_value_prefix(t, k);
        assert(t.take(k) =~= s.take(k));
        assert(decimal_digit(s[s.len() - 1]));
    } else {
        assert(s.take(k) =~= s);
    }
}

/// The value of a decimal digit.
fn decimal_digit_value(c: char) -> (r: Option<u64>)
    ensures
        match r {
            Some(d) => decimal_digit(c) && d == c as int - 48 && d < 10,
            None => !decimal_digit(c),
        },
{
    let n: u32 = c as u32;
    if 48 <= n && n <= 57 {
        Some((n - 48) as u64)
    } else {
        None
    }
}

/// Read a 32-bit number: an optional plus sign, then decimal digits.
pub fn parse_u32(s: &str) -> (r: Option<u32>)
    ensures
        match r {
            Some(n) => spells_u32(s@) && n == digits_value(unsigned_part(s@)),
            None => !spells_u32(s@),
        },
{
    let v: Vec<char> = chars_of(s);
    let start: usize = if v.len() > 0 && v[0] == '+' {
        1
    } else {
        0
    };
    let ghost d = unsigned_part(s@);
    if start == v.len() {
        return None;
    }
    let mut i: usize = start;
    let mut n: u64 = 0;
    assert(d == v@.skip(start as int)) by {
        assert(v@.skip(0) =~= v@);
    }
    assert(d.take(0) =~= Seq::<char>::empty());
    while i < v.len()
        invariant
            start <= i <= v.len(),
            start < v.len(),
            v@ == s@,
            d == unsigned_part(s@),
            d == v@.skip(start as int),
            forall|k: int| 0 <= k < i - start ==> decimal_digit(#[trigger] d[k]),
            n == digits_value(d.take(i - start)),
            n <= u32::MAX,
        decreases v.len() - i,
    {
        assert(v@[i as int] == d[i - start]);
        let value: u64 = match decimal_digit_value(v[i]) {
            Some(value) => value,
            None => {
                assert(!decimal_digit(d[i - start]));
                return None;
            },
        };
        n = n * 10 + value;
        assert(d.take(i - start + 1).drop_last() =~= d.take(i - start));
        assert(n == digits_value(d.take(i - start + 1)));
        if n > u32::MAX as u64 {
            proof {
                if forall|k: int| 0 <= k < d.len() ==> decimal_digit(#[trigger] d[k]) {
                    lemma_digits_value_prefix(d, i - start + 1);
                }
            }
            return None;
        }
        i = i + 1;
    }
    assert(d.take(i - start) =~= d);
    Some(n as u32)
}

/// The index of the first `c` in `s`, or the length of `s` if there is none.
pub open spec fn find(s: Seq<char>, c: char) -> int
    decreases s.len(),
{
    if s.len() == 0 || s[0] == c {
        0
    } else {
        1 + find(s.skip(1), c)
    }
}

proof fn lemma_find(s: Seq<char>, c: char, i: int)
    requires
        0 <= i <= s.len(),
        forall|k: int| 0 <= k < i ==> s[k] != c,
        i < s.len() ==> s[i] == c,
    ensures
        find(s, c) == i,
    decreases s.len(),
{
    if i > 0 {
        assert forall|k: int| 0 <= k < i - 1 implies s.skip(1)[k] != c by {
            assert(s.skip(1)[k] == s[k + 1]);
        }
        lemma_find(s.skip(1), c, i - 1);
    }
}

/// `s` split at the first `c`: what stands before it and what stands behind
/// it; `None` when `c` does not occur.
pub fn split_once<'a>(s: &'a str, c: char) -> (r: Option<(&'a str, &'a str)>)
    ensures
        match r {
            Some((a, b)) => {
                &&& find(s@, c) < s@.len()
                &&& a@ == s@.take(find(s@, c))
                &&& b@ == s@.skip(find(s@, c) + 1)
            },
            None => find(s@, c) == s@.len(),
        },
{
    let v: Vec<char> = chars_of(s);
    let mut i: usize = 0;
    while i < v.len() && v[i] != c
        invariant
            0 <= i <= v.len(),
            forall|k: int| 0 <= k < i ==> v@[k] != c,
        decreases v.len() - i,
    {
        i = i + 1;
    }
    proof {
        lemma_find(s@, c, i as int);
    }
    if i == v.len() {
        None
    } else {
        let a: &str = s.substring_char(0, i);
        let b: &str = s.substring_char(i + 1, v.len());
        assert(a@ =~= s@.take(i as int));
        assert(b@ =~= s@.skip(i + 1));
        Some((a, b))
    }
}

/// Do the two texts hold the same characters?
pub fn same_text(a: &str, b: &str) -> (r: bool)
    ensures
        r == (a@ == b@),
{
    a.to_owned() == b.to_owned()
}

/// Is `s` one of the texts of `v`?
pub fn contains_text(v: &Vec<String>, s: &str) -> (r: bool)
    ensures
        r == v.deep_view().contains(s@),
{
    let mut i: usize = 0;
    while i < v.len()
        invariant
            0 <= i <= v.len(),
            forall|k: int| 0 <= k < i ==> v.deep_view()[k] != s@,
        decreases v.len() - i,
    {
        if same_text(v[i].as_str(), s) {
            assert(v.deep_view()[i as int] == s@);
            return true;
        }
        i = i + 1;
    }
    false
}

/// A copy of a list of texts.
pub fn copy_texts(v: &Vec<String>) -> (r: Vec<String>)
    ensures
        r.deep_view() == v.deep_view(),
{
    let mut r: Vec<String> = Vec::new();
    let mut i: usize = 0;
    while i < v.len()
        invariant
            0 <= i <= v.len(),
            r@.len() == i,
            forall|k: int| 0 <= k < i ==> r@[k] == v@[k],
        decreases v.len() - i,
    {
        r.push(v[i].clone());
        i = i + 1;
    }
    assert(r.deep_view() =~= v.deep_view());
    r
}

/// A copy of an optional text.
pub fn copy_option(o: &Option<String>) -> (r: Option<String>)
    ensures
        r == *o,
        r.deep_view() == o.deep_view(),
{
    match o {
        Some(s) => Some(s.clone()),
        None => None,
    }
}

/// White space is what Unicode calls so: tab, line feed, vertical tab, form feed,
/// carriage return, space, next line and the wider spaces and separators.
pub proof fn law_white_space(c: char)
    ensures
        white_space(c) <==> {
            ||| c == '\t' || c == '\n' || c == '\u{b}' || c == '\u{c}' || c == '\r' || c == ' '
            ||| c == '\u{85}' || c == '\u{a0}' || c == '\u{1680}'
            ||| '\u{2000}' <= c <= '\u{200a}'
            ||| c == '\u{2028}' || c == '\u{2029}' || c == '\u{202f}' || c == '\u{205f}'
            ||| c == '\u{3000}'
        },
{
}

proof fn lemma_trimmed_start_at(s: Seq<char>) -> (i: int)
    ensures
        0 <= i <= s.len(),
        forall|k: int| 0 <= k < i ==> white_space(#[trigger] s[k]),
        i < s.len() ==> !white_space(s[i]),
        trimmed_start(s) == s.skip(i),
    decreases s.len(),
{
    if s.len() > 0 && white_space(s[0]) {
        let rest = s.skip(1);
        let i = lemma_trimmed_start_at(rest);
        assert(rest.skip(i) =~= s.skip(i + 1));
        assert forall|k: int| 0 <= k < i + 1 implies white_space(#[trigger] s[k]) by {
            if k > 0 {
                assert(rest[k - 1] == s[k]);
            }
        }
        i + 1
    } else {
        assert(s.skip(0) =~= s);
        0
    }
}

proof fn lemma_trimmed_end_at(s: Seq<char>) -> (j: int)
    ensures
        0 <= j <= s.len(),
        forall|k: int| j <= k < s.len() ==> white_space(#[trigger] s[k]),
        j > 0 ==> !white_space(s[j - 1]),
        trimmed_end(s) == s.take(j),
    decreases s.len(),
{
    if s.len() > 0 && white_space(s.last()) {
        let rest = s.drop_last();
        let j = lemma_trimmed_end_at(rest);
        assert(rest.take(j) =~= s.take(j));
        assert forall|k: int| j <= k < s.len() implies white_space(#[trigger] s[k]) by {
            if k < rest.len() {
                assert(rest[k] == s[k]);
            }
        }
        j
    } else {
        assert(s.take(s.len() as int) =~= s);
        s.len() as int
    }
}

/// Trimming takes away white space at the two ends and nothing else: what is left
/// is the part of the text between two places, all that lies outside is white
/// space, and what is left neither starts nor ends with any.
pub proof fn law_trimmed_part(s: Seq<char>) -> (part: (int, int))
    ensures
        0 <= part.0 <= part.1 <= s.len(),
        trimmed(s) == s.subrange(part.0, part.1),
        forall|k: int| 0 <= k < part.0 ==> white_space(#[trigger] s[k]),
        forall|k: int| part.1 <= k < s.len() ==> white_space(#[trigger] s[k]),
        part.0 < part.1 ==> !white_space(s[part.0]) && !white_space(s[part.1 - 1]),
{
    let i = lemma_trimmed_start_at(s);
    let t = s.skip(i);
    let j = lemma_trimmed_end_at(t);
    assert(t.take(j) =~= s.subrange(i, i + j));
    assert forall|k: int| i + j <= k < s.len() implies white_space(#[trigger] s[k]) by {
        assert(t[k - i] == s[k]);
    }
    if j > 0 {
        assert(t[j - 1] == s[i + j - 1]);
        assert(t[0] == s[i]);
    }
    (i, i + j)
}

/// A text with white space put at its ends trims to what the text itself trims
/// to, and one that neither starts nor ends with white space to itself.
pub proof fn law_trimmed_core(left: Seq<char>, core: Seq<char>, right: Seq<char>)
    requires
        forall|k: int| 0 <= k < left.len() ==> white_space(#[trigger] left[k]),
        forall|k: int| 0 <= k < right.len() ==> white_space(#[trigger] right[k]),
        core.len() > 0 ==> !white_space(core[0]) && !white_space(core[core.len() - 1]),
    ensures
        trimmed(left + core + right) == core,
{
    let s = left + core + right;
    if core.len() > 0 {
        assert forall|k: int| 0 <= k < left.len() implies white_space(s[k]) by {
            assert(s[k] == left[k]);
        }
        lemma_trimmed_start_skip(s, left.len() as int);
        let t = s.skip(left.len() as int);
        assert(t =~= core + right);
        assert(trimmed_start(t) == t);
        assert forall|k: int| core.len() <= k < t.len() implies white_space(t[k]) by {
            assert(t[k] == right[k - core.len()]);
        }
        lemma_trimmed_end_take(t, core.len() as int);
        assert(t.take(core.len() as int) =~= core);
        assert(trimmed_end(core) == core);
    } else {
        assert forall|k: int| 0 <= k < s.len() implies white_space(#[trigger] s[k]) by {
            if k < left.len() {
                assert(s[k] == left[k]);
            } else {
                assert(s[k] == right[k - left.len()]);
            }
        }
        assert(blank(s));
        lemma_blank_trimmed(s);
        assert(trimmed(s) =~= core);
    }
}

/// The decimal digits, in order.
proof fn lemma_digit_chars(d: int)
    requires
        0 <= d < 10,
    ensures
        "0123456789"@.len() == 10,
        digit(d) == "0123456789"@[d],
        digit(d) as int == 48 + d,
{
    reveal_strlit("0123456789");
}

/// A number below ten is written as its digit, and a larger one as the number of
/// its tens followed by the digit of its ones.
pub proof fn law_decimal_by_digits(tens: nat, ones: nat)
    requires
        ones < 10,
    ensures
        decimal(ones) == seq!["0123456789"@[ones as int]],
        tens > 0 ==> decimal(tens * 10 + ones) == decimal(tens) + decimal(ones),
{
    lemma_digit_chars(ones as int);
    if tens > 0 {
        let n = tens * 10 + ones;
        assert(n / 10 == tens && n % 10 == ones);
        assert(decimal(tens).push(digit(ones as int)) =~= decimal(tens) + decimal(ones));
    }
}

/// Reading the decimal digits of a number gives the number back; a number is
/// written with digits alone, and starts with a zero only if it is zero.
pub proof fn law_decimal_reads_back(n: nat)
    ensures
        digits_value(decimal(n)) == n,
        decimal(n).len() > 0,
        forall|i: int| 0 <= i < decimal(n).len() ==> '0' <= #[trigger] decimal(n)[i] <= '9',
        decimal(n)[0] == '0' ==> n == 0,
    decreases n,
{
    if n < 10 {
        lemma_digit_chars(n as int);
        assert(decimal(n).drop_last() =~= Seq::<char>::empty());
        assert(digits_value(Seq::<char>::empty()) == 0);
    } else {
        law_decimal_reads_back(n / 10);
        lemma_digit_chars((n % 10) as int);
        assert(decimal(n).drop_last() =~= decimal(n / 10));
        assert forall|i: int| 0 <= i < decimal(n).len() implies '0' <= #[trigger] decimal(n)[i]
            <= '9' by {
            if i < decimal(n / 10).len() {
                assert(decimal(n)[i] == decimal(n / 10)[i]);
            }
        }
        assert(decimal(n)[0] == decimal(n / 10)[0]);
    }
}

/// One more digit makes a run of digits worth ten times as much, and the digit's
/// own value more.
pub proof fn law_digits_count_in_tens(s: Seq<char>, d: int)
    requires
        0 <= d < 10,
    ensures
        digits_value(s.push("0123456789"@[d])) == digits_value(s) * 10 + d,
        digits_value(Seq::empty()) == 0,
{
    lemma_digit_chars(d);
    assert(s.push("0123456789"@[d]).drop_last() =~= s);
}

/// A number below zero is written as a minus sign and its magnitude, any other as
/// it is.
pub proof fn law_signed_decimal(n: nat)
    ensures
        signed_decimal(n as int) == decimal(n),
        n > 0 ==> signed_decimal(-(n as int)) == seq!['-'] + decimal(n),
{
}

/// A text spells a 32-bit number exactly when it is one or more digits, behind a
/// plus sign or not, of a value that fits; every such number is spelled by its
/// digits.
pub proof fn law_what_spells_a_number(s: Seq<char>, n: u32)
    ensures
        s.len() > 0 && s[0] != '+' ==> (spells_u32(s) <==> (forall|i: int|
            0 <= i < s.len() ==> '0' <= #[trigger] s[i] <= '9') && digits_value(s) <= u32::MAX),
        s.len() == 0 ==> !spells_u32(s),
        spells_u32(seq!['+'] + s) <==> s.len() > 0 && s[0] != '+' && spells_u32(s),
        spells_u32(decimal(n as nat)),
        unsigned_part(decimal(n as nat)) == decimal(n as nat),
        unsigned_part(seq!['+'] + s) == s,
{
    let d = decimal(n as nat);
    law_decimal_reads_back(n as nat);
    assert(d[0] != '+');
    let p = seq!['+'] + s;
    assert(p.skip(1) =~= s);
    if s.len() > 0 && s[0] != '+' {
        assert(unsigned_part(s) == s);
    }
    if s.len() > 0 && s[0] == '+' {
        assert(!decimal_digit(s[0]));
    }
}

/// A text is moved to the right by spaces in front, up to the width, and is cut
/// nowhere.
pub proof fn law_right_aligned(s: Seq<char>, width: nat)
    ensures
        ({
            let r = right_aligned(s, width);
            &&& r.len() == if s.len() > width {
                s.len()
            } else {
                width
            }
            &&& r.skip(r.len() - s.len()) == s
            &&& forall|i: int| 0 <= i < r.len() - s.len() ==> #[trigger] r[i] == ' '
        }),
    decreases width - s.len(),
{
    let r = right_aligned(s, width);
    if s.len() < width {
        let t = seq![' '] + s;
        law_right_aligned(t, width);
        assert(r.skip(r.len() - s.len()) =~= r.skip(r.len() - t.len()).skip(1));
        assert(t.skip(1) =~= s);
        assert(r.skip(r.len() - t.len())[0] == ' ');
        assert forall|i: int| 0 <= i < r.len() - s.len() implies #[trigger] r[i] == ' ' by {
            if i == r.len() - t.len() {
                assert(r.skip(r.len() - t.len())[0] == r[i]);
            }
        }
    } else {
        assert(r.skip(0) =~= s);
    }
}

/// A number below a hundred takes two digits, with a zero in front where it needs
/// one.
pub proof fn law_two_digits(n: nat)
    requires
        n < 100,
    ensures
        two_digits(n).len() == 2,
        two_digits(n)[0] == "0123456789"@[n as int / 10],
        two_digits(n)[1] == "0123456789"@[n as int % 10],
{
    lemma_digit_chars(n as int / 10);
    lemma_digit_chars(n as int % 10);
    lemma_digit_chars(0);
    if n >= 10 {
        assert(decimal(n / 10) == seq![digit(n as int / 10)]);
    }
}

/// The sixteen hexadecimal digits are written with capital letters, and read in
/// either case; nothing else is one.
pub proof fn law_hex_digits(d: int, c: char)
    requires
        0 <= d < 16,
    ensures
        hex_digit(d) == "0123456789ABCDEF"@[d],
        hex_value("0123456789ABCDEF"@[d]) == Some(d),
        hex_value("0123456789abcdef"@[d]) == Some(d),
        hex_value(c) is Some <==> '0' <= c <= '9' || 'A' <= c <= 'F' || 'a' <= c <= 'f',
{
    reveal_strlit("0123456789ABCDEF");
    reveal_strlit("0123456789abcdef");
}

/// A byte takes two hexadecimal digits: of its sixteens, then of its ones.
pub proof fn law_hex_byte(high: u8, low: u8)
    requires
        high < 16,
        low < 16,
    ensures
        hex_byte((high * 16 + low) as u8) == seq![
            "0123456789ABCDEF"@[high as int],
            "0123456789ABCDEF"@[low as int],
        ],
{
    law_hex_digits(high as int, '0');
    law_hex_digits(low as int, '0');
    let b = (high * 16 + low) as u8;
    assert(b as int / 16 == high && b as int % 16 == low);
}

/// A character is found where it first occurs, and past the end where it does not
/// occur.
pub proof fn law_find_first(s: Seq<char>, c: char)
    ensures
        0 <= find(s, c) <= s.len(),
        find(s, c) < s.len() ==> s[find(s, c)] == c,
        forall|k: int| 0 <= k < find(s, c) ==> #[trigger] s[k] != c,
    decreases s.len(),
{
    if s.len() > 0 && s[0] != c {
        let rest = s.skip(1);
        law_find_first(rest, c);
        assert forall|k: int| 0 <= k < find(s, c) implies #[trigger] s[k] != c by {
            if k > 0 {
                assert(rest[k - 1] == s[k]);
            }
        }
    }
}

} // verus!
