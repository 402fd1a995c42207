use vstd::prelude::*;
use crate::error::ThemeError;
use crate::palette::{Palette, SLOT_COUNT};

verus! {

/// The red, green and blue components that `hex_color::HexColor::parse`
/// reads from a color string, or `None` when it rejects the string.
pub uninterp spec fn hex_rgb(s: Seq<char>) -> Option<(u8, u8, u8)>;

/// The value of a hexadecimal digit of either case, or -1.
pub open spec fn hex_digit(c: char) -> int {
    let u = c as u32 as int;
    if 48 <= u <= 57 {
        u - 48
    } else if 97 <= u <= 102 {
        u - 87
    } else if 65 <= u <= 70 {
        u - 55
    } else {
        -1
    }
}

/// `#` followed by `n` hexadecimal digits.
pub open spec fn is_hex_code(s: Seq<char>, n: int) -> bool {
    &&& s.len() == n + 1
    &&& s[0] == '#'
    &&& forall|i: int| 1 <= i <= n ==> hex_digit(#[trigger] s[i]) >= 0
}

/// The byte written by the two digits at `i` and `i + 1`.
pub open spec fn hex_pair(s: Seq<char>, i: int) -> u8 {
    (hex_digit(s[i]) * 16 + hex_digit(s[i + 1])) as u8
}

/// The byte written by the one digit at `i`, repeated.
pub open spec fn hex_single(s: Seq<char>, i: int) -> u8 {
    (hex_digit(s[i]) * 17) as u8
}

/// Relies on `hex_color::HexColor::parse` (formats `#RGB`, `#RGBA`, `#RRGGBB`,
/// `#RRGGBBAA`): its red, green and blue components. It rejects an empty
/// string and one that does not start with `#`; `#RRGGBB` gives the three
/// bytes its digit pairs write, `#RGB` each digit repeated.
#[verifier::external_body]
fn parse_hex(s: &str) -> (r: Option<(u8, u8, u8)>)
    ensures
        r == hex_rgb(s@),
        s@.len() == 0 ==> r is None,
        s@.len() > 0 && s@[0] != '#' ==> r is None,
        is_hex_code(s@, 6) ==> r == Some((hex_pair(s@, 1), hex_pair(s@, 3), hex_pair(s@, 5))),
        is_hex_code(s@, 3) ==> r == Some((hex_single(s@, 1), hex_single(s@, 2), hex_single(s@, 3))),
{
    match hex_color::HexColor::parse(s) {
        Ok(c) => Some((c.r, c.g, c.b)),
        Err(_) => None,
    }
}

/// The color of one slot value.
pub fn slot_color(s: &str) -> (r: Result<(u8, u8, u8), ThemeError>)
    ensures
        match hex_rgb(s@) {
            Some(c) => r == Ok::<(u8, u8, u8), ThemeError>(c),
            None => r == Err::<(u8, u8, u8), ThemeError>(ThemeError::Parse),
        },
        is_hex_code(s@, 6) ==> r == Ok::<(u8, u8, u8), ThemeError>((hex_pair(s@, 1), hex_pair(s@, 3), hex_pair(s@, 5))),
        is_hex_code(s@, 3) ==> r == Ok::<(u8, u8, u8), ThemeError>((hex_single(s@, 1), hex_single(s@, 2), hex_single(s@, 3))),
        s@.len() == 0 || s@[0] != '#' ==> r == Err::<(u8, u8, u8), ThemeError>(ThemeError::Parse),
{
    match parse_hex(s) {
        Some(c) => Ok(c),
        None => Err(ThemeError::Parse),
    }
}

/// The sixteen slot colors of a palette in display order; fails when a slot
/// does not parse as a hex color.
pub fn palette_colors(p: &Palette) -> (r: Result<Vec<(u8, u8, u8)>, ThemeError>)
    ensures
        match r {
            Ok(v) => v@.len() == SLOT_COUNT
                && forall|i: int| 0 <= i < SLOT_COUNT ==> hex_rgb(#[trigger] p@[i]) == Some(v@[i]),
            Err(e) => e == ThemeError::Parse
                && exists|i: int| 0 <= i < SLOT_COUNT && hex_rgb(#[trigger] p@[i]) is None,
        },
{
    let mut colors: Vec<(u8, u8, u8)> = Vec::new();
    let mut i: usize = 0;
    while i < SLOT_COUNT
        invariant
            i <= SLOT_COUNT,
            colors@.len() == i,
            forall|j: int| 0 <= j < i ==> hex_rgb(#[trigger] p@[j]) == Some(colors@[j]),
        decreases SLOT_COUNT - i,
    {
        match slot_color(p.slot(i).as_str()) {
            Ok(c) => colors.push(c),
            Err(e) => {
                assert(hex_rgb(p@[i as int]) is None);
                return Err(e);
            },
        }
        i = i + 1;
    }
    Ok(colors)
}

} // verus!
