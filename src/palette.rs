use vstd::prelude::*;

verus! {

/// Number of color slots in a palette.
pub const SLOT_COUNT: usize = 16;

/// The hexadecimal digit that ends the key of slot `i`.
pub open spec fn slot_digit(i: int) -> char {
    if i == 0 { '0' } else if i == 1 { '1' } else if i == 2 { '2' } else if i == 3 { '3' }
    else if i == 4 { '4' } else if i == 5 { '5' } else if i == 6 { '6' } else if i == 7 { '7' }
    else if i == 8 { '8' } else if i == 9 { '9' } else if i == 10 { 'A' } else if i == 11 { 'B' }
    else if i == 12 { 'C' } else if i == 13 { 'D' } else if i == 14 { 'E' } else { 'F' }
}

/// The key under which slot `i` is stored, `base00` to `base0F`.
pub open spec fn slot_key(i: int) -> Seq<char> {
    seq!['b', 'a', 's', 'e', '0', slot_digit(i)]
}

/// Distinct slots have distinct keys.
pub proof fn lemma_slot_keys_distinct(i: int, j: int)
    requires
        0 <= i < SLOT_COUNT,
        0 <= j < SLOT_COUNT,
        i != j,
    ensures
        slot_key(i) != slot_key(j),
{
    assert(slot_key(i)[5] == slot_digit(i));
    assert(slot_key(j)[5] == slot_digit(j));
}

/// The sixteen named color slots of a base16 theme, each a hex color string.
#[allow(non_snake_case)]
pub struct Palette {
    pub base00: String,
    pub base01: String,
    pub base02: String,
    pub base03: String,
    pub base04: String,
    pub base05: String,
    pub base06: String,
    pub base07: String,
    pub base08: String,
    pub base09: String,
    pub base0A: String,
    pub base0B: String,
    pub base0C: String,
    pub base0D: String,
    pub base0E: String,
    pub base0F: String,
}

/// A theme document: its palette.
pub struct Theme {
    pub palette: Palette,
}

impl View for Palette {
    type V = Seq<Seq<char>>;

    /// The slot values in display order.
    open spec fn view(&self) -> Seq<Seq<char>> {
        seq![
            self.base00@, self.base01@, self.base02@, self.base03@,
            self.base04@, self.base05@, self.base06@, self.base07@,
            self.base08@, self.base09@, self.base0A@, self.base0B@,
            self.base0C@, self.base0D@, self.base0E@, self.base0F@,
        ]
    }
}

/// The key of slot `i`.
pub fn slot_name(i: usize) -> (r: &'static str)
    requires
        i < SLOT_COUNT,
    ensures
        r@ == slot_key(i as int),
{
    proof {
        reveal_strlit("base00");
        reveal_strlit("base01");
        reveal_strlit("base02");
        reveal_strlit("base03");
        reveal_strlit("base04");
        reveal_strlit("base05");
        reveal_strlit("base06");
        reveal_strlit("base07");
        reveal_strlit("base08");
        reveal_strlit("base09");
        reveal_strlit("base0A");
        reveal_strlit("base0B");
        reveal_strlit("base0C");
        reveal_strlit("base0D");
        reveal_strlit("base0E");
        reveal_strlit("base0F");
    }
    let r = match i {
        0 => "base00",
        1 => "base01",
        2 => "base02",
        3 => "base03",
        4 => "base04",
        5 => "base05",
        6 => "base06",
        7 => "base07",
        8 => "base08",
        9 => "base09",
        10 => "base0A",
        11 => "base0B",
        12 => "base0C",
        13 => "base0D",
        14 => "base0E",
        _ => "base0F",
    };
    assert(r@ =~= slot_key(i as int));
    r
}

impl Palette {
    /// The value of slot `i`.
    pub fn slot(&self, i: usize) -> (r: &String)
        requires
            i < SLOT_COUNT,
        ensures
            r@ == self@[i as int],
    {
        match i {
            0 => &self.base00,
            1 => &self.base01,
            2 => &self.base02,
            3 => &self.base03,
            4 => &self.base04,
            5 => &self.base05,
            6 => &self.base06,
            7 => &self.base07,
            8 => &self.base08,
            9 => &self.base09,
            10 => &self.base0A,
            11 => &self.base0B,
            12 => &self.base0C,
            13 => &self.base0D,
            14 => &self.base0E,
            _ => &self.base0F,
        }
    }

    /// Builds a palette from its sixteen slot values in display order.
    pub fn from_slots(slots: Vec<String>) -> (r: Option<Palette>)
        ensures
            r is Some <==> slots@.len() == SLOT_COUNT,
            r matches Some(p) ==> p@ == slots@.map_values(|s: String| s@),
    {
        if slots.len() != SLOT_COUNT {
            return None;
        }
        let ghost old_slots = slots@;
        let mut slots = slots;
        let base0F = slots.pop().unwrap();
        let base0E = slots.pop().unwrap();
        let base0D = slots.pop().unwrap();
        let base0C = slots.pop().unwrap();
        let base0B = slots.pop().unwrap();
        let base0A = slots.pop().unwrap();
        let base09 = slots.pop().unwrap();
        let base08 = slots.pop().unwrap();
        let base07 = slots.pop().unwrap();
        let base06 = slots.pop().unwrap();
        let base05 = slots.pop().unwrap();
        let base04 = slots.pop().unwrap();
        let base03 = slots.pop().unwrap();
        let base02 = slots.pop().unwrap();
        let base01 = slots.pop().unwrap();
        let base00 = slots.pop().unwrap();
        let p = Palette {
            base00, base01, base02, base03, base04, base05, base06, base07,
            base08, base09, base0A, base0B, base0C, base0D, base0E, base0F,
        };
        assert(p@ =~= old_slots.map_values(|s: String| s@));
        Some(p)
    }
}

} // verus!
