use vstd::prelude::*;

use crate::error::FuryControllerError;

verus! {

/// A colour as three 8-bit channels. The default is black.
#[derive(Debug, Clone, Copy, PartialEq, Eq, Structural)]
pub struct Colour {
    pub red: u8,
    pub green: u8,
    pub blue: u8,
}

impl Default for Colour {
    fn default() -> (r: Colour)
        ensures
            r == (Colour { red: 0, green: 0, blue: 0 }),
    {
        Colour { red: 0, green: 0, blue: 0 }
    }
}

/// Whether a value is a valid percentage (at most 100).
pub fn is_percent(number: &u8) -> (r: bool)
    ensures
        r == (*number <= 100),
{
    *number <= 100
}


/// The value of a hexadecimal digit, or -1 for any other character.
pub open spec fn hex_digit_value(c: char) -> int {
    let v = c as u32 as int;
    if '0' as u32 <= c as u32 <= '9' as u32 {
        v - '0' as u32 as int
    } else if 'a' as u32 <= c as u32 <= 'f' as u32 {
        v - 'a' as u32 as int + 10
    } else if 'A' as u32 <= c as u32 <= 'F' as u32 {
        v - 'A' as u32 as int + 10
    } else {
        -1
    }
}

pub open spec fn is_hex_digit(c: char) -> bool {
    hex_digit_value(c) >= 0
}

/// The byte that two hexadecimal digits spell, high digit first.
pub open spec fn hex_byte(hi: char, lo: char) -> u8 {
    (16 * hex_digit_value(hi) + hex_digit_value(lo)) as u8
}

pub open spec fn is_decimal_digit(c: char) -> bool {
    '0' as u32 <= c as u32 <= '9' as u32
}

/// The number that a run of decimal digits spells.
pub open spec fn decimal_value(s: Seq<char>) -> int
    decreases s.len(),
{
    if s.len() == 0 {
        0
    } else {
        10 * decimal_value(s.drop_last()) + (s.last() as u32 - '0' as u32)
    }
}

/// A decimal number without its optional leading `+`.
pub open spec fn unsigned_part(s: Seq<char>) -> Seq<char> {
    if s.len() > 0 && s[0] == '+' {
        s.drop_first()
    } else {
        s
    }
}

/// Whether `s` is a decimal byte: an optional `+`, then one or more digits
/// whose value is at most 255.
pub open spec fn is_byte_text(s: Seq<char>) -> bool {
    let d = unsigned_part(s);
    &&& d.len() > 0
    &&& forall|k: int| 0 <= k < d.len() ==> is_decimal_digit(#[trigger] d[k])
    &&& decimal_value(d) <= 255
}

/// Where the first comma of `s` stands, or the length of `s` if it has none.
pub open spec fn comma_index(s: Seq<char>) -> int
    decreases s.len(),
{
    if s.len() == 0 {
        0
    } else if s[0] == ',' {
        0
    } else {
        1 + comma_index(s.drop_first())
    }
}

/// `#RRGGBB`: six hexadecimal digits.
pub open spec fn long_hex_colour(s: Seq<char>) -> Option<Colour> {
    if forall|k: int| 1 <= k < 7 ==> is_hex_digit(#[trigger] s[k]) {
        Some(
            Colour {
                red: hex_byte(s[1], s[2]),
                green: hex_byte(s[3], s[4]),
                blue: hex_byte(s[5], s[6]),
            },
        )
    } else {
        None
    }
}

/// `#RGB`: three hexadecimal digits, each standing for itself twice.
pub open spec fn short_hex_colour(s: Seq<char>) -> Option<Colour> {
    if forall|k: int| 1 <= k < 4 ==> is_hex_digit(#[trigger] s[k]) {
        Some(
            Colour {
                red: hex_byte(s[1], s[1]),
                green: hex_byte(s[2], s[2]),
                blue: hex_byte(s[3], s[3]),
            },
        )
    } else {
        None
    }
}

/// `R,G,B`: exactly three decimal bytes between two commas.
pub open spec fn decimal_colour(s: Seq<char>) -> Option<Colour> {
    let i = comma_index(s);
    let rest = s.subrange(i + 1, s.len() as int);
    let j = comma_index(rest);
    let red = s.subrange(0, i);
    let green = rest.subrange(0, j);
    let blue = rest.subrange(j + 1, rest.len() as int);
    if i < s.len() && j < rest.len() && comma_index(blue) == blue.len() && is_byte_text(red)
        && is_byte_text(green) && is_byte_text(blue) {
        Some(
            Colour {
                red: decimal_value(unsigned_part(red)) as u8,
                green: decimal_value(unsigned_part(green)) as u8,
                blue: decimal_value(unsigned_part(blue)) as u8,
            },
        )
    } else {
        None
    }
}

/// The colour that a text spells, if any: `#RRGGBB`, `#RGB`, or `R,G,B`.
pub open spec fn colour_of_text(s: Seq<char>) -> Option<Colour> {
    if s.len() == 7 && s[0] == '#' {
        long_hex_colour(s)
    } else if s.len() == 4 && s[0] == '#' {
        short_hex_colour(s)
    } else {
        decimal_colour(s)
    }
}

/// The characters of a text.
fn chars_of(s: &str) -> (r: Vec<char>)
    ensures
        r@ == s@,
{
    let n = s.unicode_len();
    let mut out: Vec<char> = Vec::new();
    let mut i: usize = 0;
    while i < n
        invariant
            i <= n,
            n == s@.len(),
            out@ == s@.subrange(0, i as int),
        decreases n - i,
    {
        out.push(s.get_char(i));
        i = i + 1;
        assert(out@ =~= s@.subrange(0, i as int));
    }
    assert(out@ =~= s@);
    out
}

/// The value of a hexadecimal digit.
fn hex_digit(c: char) -> (r: Option<u8>)
    ensures
        r is Some <==> is_hex_digit(c),
        r matches Some(v) ==> v as int == hex_digit_value(c),
{
    let v = c as u32;
    if '0' as u32 <= v && v <= '9' as u32 {
        Some((v - '0' as u32) as u8)
    } else if 'a' as u32 <= v && v <= 'f' as u32 {
        Some((v - 'a' as u32 + 10) as u8)
    } else if 'A' as u32 <= v && v <= 'F' as u32 {
        Some((v - 'A' as u32 + 10) as u8)
    } else {
        None
    }
}

/// The byte that two hexadecimal digits spell.
fn hex_pair(hi: char, lo: char) -> (r: Option<u8>)
    ensures
        r is Some <==> is_hex_digit(hi) && is_hex_digit(lo),
        r matches Some(v) ==> v == hex_byte(hi, lo),
{
    match (hex_digit(hi), hex_digit(lo)) {
        (Some(h), Some(l)) => Some(16 * h + l),
        _ => None,
    }
}

/// Where the first comma at or after `from` stands, or the length.
fn find_comma(cs: &Vec<char>, from: usize) -> (r: usize)
    requires
        from <= cs@.len(),
    ensures
        r == from + comma_index(cs@.subrange(from as int, cs@.len() as int)),
        from <= r <= cs@.len(),
{
    let mut k: usize = from;
    while k < cs.len() && cs[k] != ','
        invariant
            from <= k <= cs@.len(),
            forall|m: int| from <= m < k ==> cs@[m] != ',',
        decreases cs@.len() - k,
    {
        k = k + 1;
    }
    proof {
        lemma_comma_index(cs@.subrange(from as int, cs@.len() as int), k - from);
    }
    k
}

proof fn lemma_comma_index(s: Seq<char>, i: int)
    requires
        0 <= i <= s.len(),
        forall|m: int| 0 <= m < i ==> s[m] != ',',
        i == s.len() || s[i] == ',',
    ensures
        comma_index(s) == i,
    decreases i,
{
    if i > 0 {
        assert forall|m: int| 0 <= m < i - 1 implies s.drop_first()[m] != ',' by {
            assert(s.drop_first()[m] == s[m + 1]);
        }
        lemma_comma_index(s.drop_first(), i - 1);
    }
}

/// The decimal byte spelled by `cs[from..to]`, if it is one.
fn byte_field(cs: &Vec<char>, from: usize, to: usize) -> (r: Option<u8>)
    requires
        from <= to <= cs@.len(),
    ensures
        r is Some <==> is_byte_text(cs@.subrange(from as int, to as int)),
        r matches Some(v) ==> v as int == decimal_value(
            unsigned_part(cs@.subrange(from as int, to as int)),
        ),
{
    let ghost field = cs@.subrange(from as int, to as int);
    let mut start: usize = from;
    if start < to && cs[start] == '+' {
        start = start + 1;
    }
    let ghost digits = cs@.subrange(start as int, to as int);
    assert(unsigned_part(field) =~= digits);
    if start == to {
        return None;
    }
    let mut k: usize = start;
    let mut acc: u32 = 0;
    let mut too_big = false;
    while k < to
        invariant
            start <= k <= to <= cs@.len(),
            digits == cs@.subrange(start as int, to as int),
            unsigned_part(field) == digits,
            field == cs@.subrange(from as int, to as int),
            forall|m: int| start <= m < k ==> is_decimal_digit(#[trigger] cs@[m]),
            decimal_value(cs@.subrange(start as int, k as int)) >= 0,
            !too_big ==> acc as int == decimal_value(cs@.subrange(start as int, k as int)),
            !too_big ==> acc <= 255,
            too_big ==> decimal_value(cs@.subrange(start as int, k as int)) > 255,
        decreases to - k,
    {
        let c = cs[k];
        if !('0' as u32 <= c as u32 && c as u32 <= '9' as u32) {
            assert(digits[k - start] == c);
            assert(!is_decimal_digit(unsigned_part(field)[k - start]));
            return None;
        }
        let d = c as u32 - '0' as u32;
        proof {
            assert(cs@.subrange(start as int, k + 1).drop_last() =~= cs@.subrange(
                start as int,
                k as int,
            ));
        }
        if !too_big {
            let v = acc * 10 + d;
            if v > 255 {
                too_big = true;
            } else {
                acc = v;
            }
        }
        k = k + 1;
    }
    assert(cs@.subrange(start as int, k as int) =~= digits);
    if too_big {
        None
    } else {
        assert forall|m: int| 0 <= m < digits.len() implies is_decimal_digit(
            #[trigger] digits[m],
        ) by {
            assert(digits[m] == cs@[start + m]);
        }
        Some(acc as u8)
    }
}

impl Colour {
    /// The colour that `s` spells: `#RRGGBB`, `#RGB` (each digit doubled), or
    /// decimal `R,G,B`. Any other text is refused, and the error carries it.
    pub fn parse(s: &str) -> (r: Result<Colour, FuryControllerError>)
        ensures
            colour_of_text(s@) matches Some(c) ==> r == Ok::<Colour, FuryControllerError>(c),
            colour_of_text(s@) is None ==> (r matches Err(FuryControllerError::InvalidColour(t))
                && t@ == s@),
    {
        let cs = chars_of(s);
        let n = cs.len();
        let parsed = if n == 7 && cs[0] == '#' {
            match (hex_pair(cs[1], cs[2]), hex_pair(cs[3], cs[4]), hex_pair(cs[5], cs[6])) {
                (Some(red), Some(green), Some(blue)) => Some(Colour { red, green, blue }),
                _ => None,
            }
        } else if n == 4 && cs[0] == '#' {
            match (hex_pair(cs[1], cs[1]), hex_pair(cs[2], cs[2]), hex_pair(cs[3], cs[3])) {
                (Some(red), Some(green), Some(blue)) => Some(Colour { red, green, blue }),
                _ => None,
            }
        } else {
            decimal_triple(&cs)
        };
        match parsed {
            Some(c) => Ok(c),
            None => Err(FuryControllerError::InvalidColour(s.to_owned())),
        }
    }
}

/// `R,G,B` read from `cs`.
fn decimal_triple(cs: &Vec<char>) -> (r: Option<Colour>)
    ensures
        r == decimal_colour(cs@),
{
    let n = cs.len();
    let ghost s = cs@;
    proof {
        assert(s.subrange(0, n as int) =~= s);
    }
    let i = find_comma(cs, 0);
    if i == n {
        return None;
    }
    let ghost rest = s.subrange(i + 1, n as int);
    let j = find_comma(cs, i + 1);
    if j == n {
        return None;
    }
    let extra = find_comma(cs, j + 1);
    proof {
        assert(rest.subrange(0, j - i - 1) =~= s.subrange(i + 1, j as int));
        assert(rest.subrange(j - i, rest.len() as int) =~= s.subrange(j + 1, n as int));
    }
    if extra != n {
        return None;
    }
    match (byte_field(cs, 0, i), byte_field(cs, i + 1, j), byte_field(cs, j + 1, n)) {
        (Some(red), Some(green), Some(blue)) => Some(Colour { red, green, blue }),
        _ => None,
    }
}

impl std::str::FromStr for Colour {
    type Err = FuryControllerError;

    fn from_str(s: &str) -> Result<Self, Self::Err> {
        Colour::parse(s)
    }
}

} // verus!
