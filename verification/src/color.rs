//! Colours as `#RRGGBB` text.

use vstd::prelude::*;

use crate::text;
use crate::text::{chars_of, hex_byte_text, hex_digit_value, trim};

verus! {

/// `s` without the number signs at its start.
pub open spec fn without_hashes(s: Seq<char>) -> Seq<char>
    decreases s.len(),
{
    if s.len() > 0 && s[0] == '#' {
        without_hashes(s.skip(1))
    } else {
        s
    }
}

/// Are all characters hexadecimal digits?
pub open spec fn all_hex(s: Seq<char>) -> bool {
    forall|i: int| 0 <= i < s.len() ==> text::hex_value(#[trigger] s[i]) is Some
}

/// The number that a run of hexadecimal digits spells.
pub open spec fn hex_number(s: Seq<char>) -> int
    decreases s.len(),
{
    if s.len() == 0 {
        0
    } else {
        hex_number(s.drop_last()) * 16 + text::hex_value(s.last())->0
    }
}

/// The part of a colour text that holds its digits: white space at either
/// end and leading number signs do not count.
pub open spec fn color_digits(s: Seq<char>) -> Seq<char> {
    without_hashes(text::trimmed(s))
}

/// The number that a colour text spells: six hexadecimal digits.
pub open spec fn color_number(s: Seq<char>) -> Option<int> {
    let h = color_digits(s);
    if h.len() == 6 && all_hex(h) {
        Some(hex_number(h))
    } else {
        None
    }
}

/// The red, green and blue of a colour text; black if it is malformed.
pub open spec fn color_of(s: Seq<char>) -> Seq<u8> {
    match color_number(s) {
        Some(v) => seq![(v / 0x10000) as u8, (v / 0x100 % 0x100) as u8, (v % 0x100) as u8],
        None => seq![0u8, 0u8, 0u8],
    }
}

/// A colour as text.
pub open spec fn color_text(red: u8, green: u8, blue: u8) -> Seq<char> {
    seq!['#'] + text::hex_byte(red) + text::hex_byte(green) + text::hex_byte(blue)
}

proof fn lemma_without_hashes_skip(s: Seq<char>, i: int)
    requires
        0 <= i <= s.len(),
        forall|k: int| 0 <= k < i ==> s[k] == '#',
        i < s.len() ==> s[i] != '#',
    ensures
        without_hashes(s) == s.skip(i),
    decreases i,
{
    if i > 0 {
        assert(s.skip(1).skip(i - 1) =~= s.skip(i));
        assert forall|k: int| 0 <= k < i - 1 implies s.skip(1)[k] == '#' by {
            assert(s.skip(1)[k] == s[k + 1]);
        }
        lemma_without_hashes_skip(s.skip(1), i - 1);
    } else {
        assert(s.skip(0) =~= s);
    }
}

/// Parse a `#RRGGBB` string into an `[r, g, b]` triple. Returns black on any
/// malformed input so a bad colour never breaks playback.
pub fn parse_hex_color(s: &str) -> (r: [u8; 3])
    ensures
        r@ == color_of(s@),
{
    let v: Vec<char> = chars_of(trim(s));
    let mut start: usize = 0;
    while start < v.len() && v[start] == '#'
        invariant
            0 <= start <= v.len(),
            forall|k: int| 0 <= k < start ==> v@[k] == '#',
        decreases v.len() - start,
    {
        start = start + 1;
    }
    let ghost h = color_digits(s@);
    proof {
        lemma_without_hashes_skip(v@, start as int);
        assert(h == v@.skip(start as int));
    }
    if v.len() - start != 6 {
        let black: [u8; 3] = [0, 0, 0];
        assert(black@ =~= seq![0u8, 0u8, 0u8]);
        return black;
    }
    assert(h.take(0) =~= Seq::<char>::empty());
    let mut i: usize = start;
    let mut n: u32 = 0;
    while i < v.len()
        invariant
            start <= i <= v.len(),
            v.len() - start == 6,
            h == color_digits(s@),
            h == v@.skip(start as int),
            forall|k: int| 0 <= k < i - start ==> text::hex_value(#[trigger] h[k]) is Some,
            n == hex_number(h.take(i - start)),
            i - start == 0 ==> n == 0,
            i - start == 1 ==> n < 0x10,
            i - start == 2 ==> n < 0x100,
            i - start == 3 ==> n < 0x1000,
            i - start == 4 ==> n < 0x10000,
            i - start == 5 ==> n < 0x100000,
            n < 0x1000000,
        decreases v.len() - i,
    {
        assert(v@[i as int] == h[i - start]);
        match hex_digit_value(v[i]) {
            Some(value) => {
                n = n * 16 + value;
                assert(h.take(i - start + 1).drop_last() =~= h.take(i - start));
            },
            None => {
                assert(text::hex_value(h[i - start]) is None);
                let black: [u8; 3] = [0, 0, 0];
                assert(black@ =~= seq![0u8, 0u8, 0u8]);
                return black;
            },
        }
        i = i + 1;
    }
    assert(h.take(i - start) =~= h);
    let rgb: [u8; 3] = [(n / 0x10000) as u8, (n / 0x100 % 0x100) as u8, (n % 0x100) as u8];
    assert(rgb@ =~= color_of(s@));
    rgb
}

/// Format an `[r, g, b]` triple as `#RRGGBB`.
pub fn format_hex_color(rgb: [u8; 3]) -> (r: String)
    ensures
        r@ == color_text(rgb@[0], rgb@[1], rgb@[2]),
{
    proof {
        reveal_strlit("#");
        assert("#"@ =~= seq!['#']);
    }
    let mut r: String = "#".to_owned();
    r.append(hex_byte_text(rgb[0]).as_str());
    r.append(hex_byte_text(rgb[1]).as_str());
    r.append(hex_byte_text(rgb[2]).as_str());
    r
}

proof fn lemma_hex_digit_value(d: int)
    requires
        0 <= d < 16,
    ensures
        text::hex_value(text::hex_digit(d)) == Some(d),
        text::hex_digit(d) != '#',
        text::hex_digit(d) != '+',
        !text::white_space(text::hex_digit(d)),
{
}

proof fn lemma_hex_push(s: Seq<char>, d: int)
    requires
        0 <= d < 16,
    ensures
        hex_number(s.push(text::hex_digit(d))) == hex_number(s) * 16 + d,
        all_hex(s) ==> all_hex(s.push(text::hex_digit(d))),
{
    lemma_hex_digit_value(d);
    assert(s.push(text::hex_digit(d)).drop_last() =~= s);
}

/// The digits of three bytes spell the number that the bytes make up.
proof fn lemma_hex_bytes(red: u8, green: u8, blue: u8)
    ensures
        ({
            let h = text::hex_byte(red) + text::hex_byte(green) + text::hex_byte(blue);
            &&& all_hex(h)
            &&& hex_number(h) == red * 0x10000 + green * 0x100 + blue
        }),
{
    let r = red as int;
    let g = green as int;
    let b = blue as int;
    let h1 = Seq::<char>::empty().push(text::hex_digit(r / 16));
    let h2 = h1.push(text::hex_digit(r % 16));
    let h3 = h2.push(text::hex_digit(g / 16));
    let h4 = h3.push(text::hex_digit(g % 16));
    let h5 = h4.push(text::hex_digit(b / 16));
    let h6 = h5.push(text::hex_digit(b % 16));
    lemma_hex_push(Seq::empty(), r / 16);
    lemma_hex_push(h1, r % 16);
    lemma_hex_push(h2, g / 16);
    lemma_hex_push(h3, g % 16);
    lemma_hex_push(h4, b / 16);
    lemma_hex_push(h5, b % 16);
    assert(text::hex_byte(red) + text::hex_byte(green) + text::hex_byte(blue) =~= h6);
}

/// The digits of a written colour are those of its bytes.
proof fn lemma_written_digits(red: u8, green: u8, blue: u8)
    ensures
        color_digits(color_text(red, green, blue)) == text::hex_byte(red) + text::hex_byte(green)
            + text::hex_byte(blue),
{
    let s = color_text(red, green, blue);
    lemma_hex_digit_value(red as int / 16);
    lemma_hex_digit_value(blue as int % 16);
    assert(s[0] == '#');
    assert(s.last() == text::hex_digit(blue as int % 16));
    assert(text::trimmed_start(s) == s);
    assert(text::trimmed_end(s) == s);
    let h = s.skip(1);
    assert(h =~= text::hex_byte(red) + text::hex_byte(green) + text::hex_byte(blue));
    assert(h[0] == text::hex_digit(red as int / 16));
    lemma_without_hashes_skip(s, 1);
}

proof fn lemma_bytes_of_number(red: u8, green: u8, blue: u8, v: int)
    requires
        v == red * 0x10000 + green * 0x100 + blue,
    ensures
        v / 0x10000 == red,
        v / 0x100 % 0x100 == green,
        v % 0x100 == blue,
{
    let high = red * 0x100 + green;
    vstd::arithmetic::div_mod::lemma_fundamental_div_mod_converse(
        v,
        0x10000,
        red as int,
        green * 0x100 + blue,
    );
    vstd::arithmetic::div_mod::lemma_fundamental_div_mod_converse(v, 0x100, high, blue as int);
    vstd::arithmetic::div_mod::lemma_fundamental_div_mod_converse(
        high,
        0x100,
        red as int,
        green as int,
    );
}

/// Reading a colour that was written gives the same colour back.
pub proof fn law_color_roundtrip(red: u8, green: u8, blue: u8)
    ensures
        color_of(color_text(red, green, blue)) == seq![red, green, blue],
{
    let s = color_text(red, green, blue);
    let h = text::hex_byte(red) + text::hex_byte(green) + text::hex_byte(blue);
    lemma_written_digits(red, green, blue);
    lemma_hex_bytes(red, green, blue);
    lemma_hex_digit_value(red as int / 16);
    assert(h[0] == text::hex_digit(red as int / 16));
    let v = hex_number(h);
    assert(color_number(s) == Some(v));
    lemma_bytes_of_number(red, green, blue, v);
    assert(color_of(s) =~= seq![red, green, blue]);
}

/// Six hexadecimal digits, in either case, behind any number of number signs and
/// with white space around it all or not, are read as a colour: two digits each
/// for red, green and blue, of the sixteens and of the ones.
pub proof fn law_color_reads_its_digits(
    left: Seq<char>,
    hashes: Seq<char>,
    h: Seq<char>,
    right: Seq<char>,
)
    requires
        forall|k: int| 0 <= k < left.len() ==> text::white_space(#[trigger] left[k]),
        forall|k: int| 0 <= k < hashes.len() ==> #[trigger] hashes[k] == '#',
        forall|k: int| 0 <= k < right.len() ==> text::white_space(#[trigger] right[k]),
        h.len() == 6,
        forall|k: int| 0 <= k < 6 ==> text::hex_value(#[trigger] h[k]) is Some,
    ensures
        ({
            let rgb = color_of(left + (hashes + h) + right);
            let v = |k: int| text::hex_value(h[k])->0;
            &&& rgb.len() == 3
            &&& rgb[0] == v(0) * 16 + v(1)
            &&& rgb[1] == v(2) * 16 + v(3)
            &&& rgb[2] == v(4) * 16 + v(5)
        }),
{
    let core = hashes + h;
    let s = left + core + right;
    assert(text::hex_value(h[0]) is Some && text::hex_value(h[5]) is Some);
    assert(core[core.len() - 1] == h[5]);
    assert(core[hashes.len() as int] == h[0]);
    if hashes.len() > 0 {
        assert(core[0] == hashes[0]);
    }
    assert(!text::white_space(core[0]) && !text::white_space(core[core.len() - 1]));
    text::law_trimmed_core(left, core, right);
    assert forall|k: int| 0 <= k < hashes.len() implies core[k] == '#' by {
        assert(core[k] == hashes[k]);
    }
    lemma_without_hashes_skip(core, hashes.len() as int);
    assert(core.skip(hashes.len() as int) =~= h);
    assert(color_digits(s) == h);
    let v = |k: int| text::hex_value(h[k])->0;
    lemma_hex_six(h);
    assert(text::hex_value(h[1]) is Some && text::hex_value(h[2]) is Some && text::hex_value(
        h[3],
    ) is Some && text::hex_value(h[4]) is Some);
    let red = (v(0) * 16 + v(1)) as u8;
    let green = (v(2) * 16 + v(3)) as u8;
    let blue = (v(4) * 16 + v(5)) as u8;
    lemma_bytes_of_number(red, green, blue, hex_number(h));
}

proof fn lemma_hex_six(h: Seq<char>)
    requires
        h.len() == 6,
    ensures
        ({
            let v = |k: int| text::hex_value(h[k])->0;
            hex_number(h) == (v(0) * 16 + v(1)) * 0x10000 + (v(2) * 16 + v(3)) * 0x100 + (v(4) * 16
                + v(5))
        }),
{
    let h5 = h.drop_last();
    let h4 = h5.drop_last();
    let h3 = h4.drop_last();
    let h2 = h3.drop_last();
    let h1 = h2.drop_last();
    assert(h1.drop_last() =~= Seq::<char>::empty());
    assert(hex_number(Seq::<char>::empty()) == 0);
    assert(h5.last() == h[4]);
    assert(h4.last() == h[3]);
    assert(h3.last() == h[2]);
    assert(h2.last() == h[1]);
    assert(h1.last() == h[0]);
    assert(hex_number(h1) == text::hex_value(h[0])->0);
    assert(hex_number(h2) == hex_number(h1) * 16 + text::hex_value(h[1])->0);
    assert(hex_number(h3) == hex_number(h2) * 16 + text::hex_value(h[2])->0);
    assert(hex_number(h4) == hex_number(h3) * 16 + text::hex_value(h[3])->0);
    assert(hex_number(h5) == hex_number(h4) * 16 + text::hex_value(h[4])->0);
    assert(hex_number(h) == hex_number(h5) * 16 + text::hex_value(h[5])->0);
}

/// Any other text is read as black: one whose part behind the number signs, white
/// space aside, is not six characters long or has one that is no hexadecimal
/// digit.
pub proof fn law_malformed_color_is_black(hashes: Seq<char>, rest: Seq<char>, s: Seq<char>)
    requires
        text::trimmed(s) == hashes + rest,
        forall|k: int| 0 <= k < hashes.len() ==> #[trigger] hashes[k] == '#',
        rest.len() > 0 ==> rest[0] != '#',
        rest.len() != 6 || exists|k: int|
            0 <= k < rest.len() && text::hex_value(#[trigger] rest[k]) is None,
    ensures
        color_of(s) == seq![0u8, 0u8, 0u8],
{
    let core = hashes + rest;
    assert forall|k: int| 0 <= k < hashes.len() implies core[k] == '#' by {
        assert(core[k] == hashes[k]);
    }
    if rest.len() > 0 {
        assert(core[hashes.len() as int] == rest[0]);
    }
    lemma_without_hashes_skip(core, hashes.len() as int);
    assert(core.skip(hashes.len() as int) =~= rest);
}

/// A colour is written as a number sign and two capital hexadecimal digits each
/// for red, green and blue.
pub proof fn law_color_text_is_six_digits(red: u8, green: u8, blue: u8)
    ensures
        ({
            let s = color_text(red, green, blue);
            let digit = |n: int| "0123456789ABCDEF"@[n];
            &&& s.len() == 7
            &&& s[0] == '#'
            &&& s[1] == digit(red as int / 16)
            &&& s[2] == digit(red as int % 16)
            &&& s[3] == digit(green as int / 16)
            &&& s[4] == digit(green as int % 16)
            &&& s[5] == digit(blue as int / 16)
            &&& s[6] == digit(blue as int % 16)
        }),
{
    text::law_hex_digits(red as int / 16, '0');
    text::law_hex_digits(red as int % 16, '0');
    text::law_hex_digits(green as int / 16, '0');
    text::law_hex_digits(green as int % 16, '0');
    text::law_hex_digits(blue as int / 16, '0');
    text::law_hex_digits(blue as int % 16, '0');
}

} // verus!
