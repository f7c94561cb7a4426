//! Colours as premultiplied RGBA bytes and the named colours that the
//! markup understands.
use vstd::prelude::*;

verus! {

/// A colour in premultiplied RGBA form, one byte per channel.
#[derive(Clone, Copy, PartialEq, Eq, Structural, Debug)]
pub struct Color {
    pub r: u8,
    pub g: u8,
    pub b: u8,
    pub a: u8,
}

/// The opaque colour with the given red, green and blue channels.
pub open spec fn opaque(r: u8, g: u8, b: u8) -> Color {
    Color { r, g, b, a: 255 }
}

/// The fully transparent colour, which is also the default colour.
pub open spec fn transparent() -> Color {
    Color { r: 0, g: 0, b: 0, a: 0 }
}

impl Color {
    /// An opaque colour from its three channels.
    pub fn from_rgb(r: u8, g: u8, b: u8) -> (c: Color)
        ensures
            c == opaque(r, g, b),
    {
        Color { r, g, b, a: 255 }
    }

    /// The fully transparent colour.
    pub fn transparent() -> (c: Color)
        ensures
            c == transparent(),
    {
        Color { r: 0, g: 0, b: 0, a: 0 }
    }
}

/// The colour a name stands for, among the names the markup knows; names
/// are compared exactly, so callers upper-case them first.
pub open spec fn known_color(name: Seq<char>) -> Option<Color> {
    if name == "TRANSPARENT"@ {
        Some(transparent())
    } else if name == "BLACK"@ {
        Some(opaque(0, 0, 0))
    } else if name == "DARK_GRAY"@ {
        Some(opaque(96, 96, 96))
    } else if name == "GRAY"@ {
        Some(opaque(160, 160, 160))
    } else if name == "LIGHT_GRAY"@ {
        Some(opaque(220, 220, 220))
    } else if name == "WHITE"@ {
        Some(opaque(255, 255, 255))
    } else if name == "BROWN"@ {
        Some(opaque(165, 42, 42))
    } else if name == "DARK_RED"@ {
        Some(opaque(0x8B, 0, 0))
    } else if name == "RED"@ {
        Some(opaque(255, 0, 0))
    } else if name == "LIGHT_RED"@ {
        Some(opaque(255, 128, 128))
    } else if name == "YELLOW"@ {
        Some(opaque(255, 255, 0))
    } else if name == "LIGHT_YELLOW"@ {
        Some(opaque(255, 255, 0xE0))
    } else if name == "KHAKI"@ {
        Some(opaque(240, 230, 140))
    } else if name == "DARK_GREEN"@ {
        Some(opaque(0, 0x64, 0))
    } else if name == "GREEN"@ {
        Some(opaque(0, 255, 0))
    } else if name == "LIGHT_GREEN"@ {
        Some(opaque(0x90, 0xEE, 0x90))
    } else if name == "DARK_BLUE"@ {
        Some(opaque(0, 0, 0x8B))
    } else if name == "BLUE"@ {
        Some(opaque(0, 0, 255))
    } else if name == "LIGHT_BLUE"@ {
        Some(opaque(0xAD, 0xD8, 0xE6))
    } else if name == "GOLD"@ {
        Some(opaque(255, 215, 0))
    } else {
        None
    }
}

/// Whether the characters `s[lo..hi]` spell out `lit` exactly.
pub fn chars_match_literal(s: &Vec<char>, lo: usize, hi: usize, lit: &str) -> (m: bool)
    requires
        lo <= hi <= s@.len(),
    ensures
        m == (s@.subrange(lo as int, hi as int) == lit@),
{
    let n = lit.unicode_len();
    if hi - lo != n {
        return false;
    }
    let mut i: usize = 0;
    while i < n
        invariant
            n == lit@.len(),
            hi - lo == n,
            lo <= hi <= s@.len(),
            i <= n,
            forall|j: int| 0 <= j < i ==> s@[lo + j] == lit@[j],
        decreases n - i,
    {
        if s[lo + i] != lit.get_char(i) {
            assert(s@.subrange(lo as int, hi as int)[i as int] != lit@[i as int]);
            return false;
        }
        i = i + 1;
    }
    assert(s@.subrange(lo as int, hi as int) =~= lit@);
    true
}

/// Looks up a colour name among the known ones.
pub fn lookup_known_color(name: &Vec<char>) -> (c: Option<Color>)
    ensures
        c == known_color(name@),
{
    let n = name.len();
    assert(name@.subrange(0, n as int) =~= name@);
    if chars_match_literal(name, 0, n, "TRANSPARENT") {
        Some(Color::transparent())
    } else if chars_match_literal(name, 0, n, "BLACK") {
        Some(Color::from_rgb(0, 0, 0))
    } else if chars_match_literal(name, 0, n, "DARK_GRAY") {
        Some(Color::from_rgb(96, 96, 96))
    } else if chars_match_literal(name, 0, n, "GRAY") {
        Some(Color::from_rgb(160, 160, 160))
    } else if chars_match_literal(name, 0, n, "LIGHT_GRAY") {
        Some(Color::from_rgb(220, 220, 220))
    } else if chars_match_literal(name, 0, n, "WHITE") {
        Some(Color::from_rgb(255, 255, 255))
    } else if chars_match_literal(name, 0, n, "BROWN") {
        Some(Color::from_rgb(165, 42, 42))
    } else if chars_match_literal(name, 0, n, "DARK_RED") {
        Some(Color::from_rgb(0x8B, 0, 0))
    } else if chars_match_literal(name, 0, n, "RED") {
        Some(Color::from_rgb(255, 0, 0))
    } else if chars_match_literal(name, 0, n, "LIGHT_RED") {
        Some(Color::from_rgb(255, 128, 128))
    } else if chars_match_literal(name, 0, n, "YELLOW") {
        Some(Color::from_rgb(255, 255, 0))
    } else if chars_match_literal(name, 0, n, "LIGHT_YELLOW") {
        Some(Color::from_rgb(255, 255, 0xE0))
    } else if chars_match_literal(name, 0, n, "KHAKI") {
        Some(Color::from_rgb(240, 230, 140))
    } else if chars_match_literal(name, 0, n, "DARK_GREEN") {
        Some(Color::from_rgb(0, 0x64, 0))
    } else if chars_match_literal(name, 0, n, "GREEN") {
        Some(Color::from_rgb(0, 255, 0))
    } else if chars_match_literal(name, 0, n, "LIGHT_GREEN") {
        Some(Color::from_rgb(0x90, 0xEE, 0x90))
    } else if chars_match_literal(name, 0, n, "DARK_BLUE") {
        Some(Color::from_rgb(0, 0, 0x8B))
    } else if chars_match_literal(name, 0, n, "BLUE") {
        Some(Color::from_rgb(0, 0, 255))
    } else if chars_match_literal(name, 0, n, "LIGHT_BLUE") {
        Some(Color::from_rgb(0xAD, 0xD8, 0xE6))
    } else if chars_match_literal(name, 0, n, "GOLD") {
        Some(Color::from_rgb(255, 215, 0))
    } else {
        None
    }
}

/// The twenty colour names of egui's palette, each read as egui's colour
/// of that name (all opaque but the transparent one), and no other name.
pub proof fn lemma_known_colors_table(name: Seq<char>)
    ensures
        known_color("BLACK"@) == Some(opaque(0, 0, 0)),
        known_color("BLUE"@) == Some(opaque(0, 0, 255)),
        known_color("BROWN"@) == Some(opaque(165, 42, 42)),
        known_color("DARK_BLUE"@) == Some(opaque(0, 0, 139)),
        known_color("DARK_GRAY"@) == Some(opaque(96, 96, 96)),
        known_color("DARK_GREEN"@) == Some(opaque(0, 100, 0)),
        known_color("DARK_RED"@) == Some(opaque(139, 0, 0)),
        known_color("GOLD"@) == Some(opaque(255, 215, 0)),
        known_color("GRAY"@) == Some(opaque(160, 160, 160)),
        known_color("GREEN"@) == Some(opaque(0, 255, 0)),
        known_color("KHAKI"@) == Some(opaque(240, 230, 140)),
        known_color("LIGHT_BLUE"@) == Some(opaque(173, 216, 230)),
        known_color("LIGHT_GRAY"@) == Some(opaque(220, 220, 220)),
        known_color("LIGHT_GREEN"@) == Some(opaque(144, 238, 144)),
        known_color("LIGHT_RED"@) == Some(opaque(255, 128, 128)),
        known_color("LIGHT_YELLOW"@) == Some(opaque(255, 255, 224)),
        known_color("RED"@) == Some(opaque(255, 0, 0)),
        known_color("TRANSPARENT"@) == Some(transparent()),
        known_color("WHITE"@) == Some(opaque(255, 255, 255)),
        known_color("YELLOW"@) == Some(opaque(255, 255, 0)),
        known_color(name) is Some ==> (name == "BLACK"@ || name == "BLUE"@ || name == "BROWN"@ || name == "DARK_BLUE"@ || name == "DARK_GRAY"@ || name == "DARK_GREEN"@ || name == "DARK_RED"@ || name == "GOLD"@ || name == "GRAY"@ || name == "GREEN"@ || name == "KHAKI"@ || name == "LIGHT_BLUE"@ || name == "LIGHT_GRAY"@ || name == "LIGHT_GREEN"@ || name == "LIGHT_RED"@ || name == "LIGHT_YELLOW"@ || name == "RED"@ || name == "TRANSPARENT"@ || name == "WHITE"@ || name == "YELLOW"@),
{
    reveal_strlit("BLACK");
    reveal_strlit("BLUE");
    reveal_strlit("BROWN");
    reveal_strlit("DARK_BLUE");
    reveal_strlit("DARK_GRAY");
    reveal_strlit("DARK_GREEN");
    reveal_strlit("DARK_RED");
    reveal_strlit("GOLD");
    reveal_strlit("GRAY");
    reveal_strlit("GREEN");
    reveal_strlit("KHAKI");
    reveal_strlit("LIGHT_BLUE");
    reveal_strlit("LIGHT_GRAY");
    reveal_strlit("LIGHT_GREEN");
    reveal_strlit("LIGHT_RED");
    reveal_strlit("LIGHT_YELLOW");
    reveal_strlit("RED");
    reveal_strlit("TRANSPARENT");
    reveal_strlit("WHITE");
    reveal_strlit("YELLOW");
    assert("BLACK"@.len() == 5);
    assert("BLUE"@.len() == 4);
    assert("BROWN"@.len() == 5);
    assert("DARK_BLUE"@.len() == 9);
    assert("DARK_GRAY"@.len() == 9);
    assert("DARK_GREEN"@.len() == 10);
    assert("DARK_RED"@.len() == 8);
    assert("GOLD"@.len() == 4);
    assert("GRAY"@.len() == 4);
    assert("GREEN"@.len() == 5);
    assert("KHAKI"@.len() == 5);
    assert("LIGHT_BLUE"@.len() == 10);
    assert("LIGHT_GRAY"@.len() == 10);
    assert("LIGHT_GREEN"@.len() == 11);
    assert("LIGHT_RED"@.len() == 9);
    assert("LIGHT_YELLOW"@.len() == 12);
    assert("RED"@.len() == 3);
    assert("TRANSPARENT"@.len() == 11);
    assert("WHITE"@.len() == 5);
    assert("YELLOW"@.len() == 6);
    assert("BLUE"@[0] != "GRAY"@[0]);
    assert("BROWN"@[1] != "BLACK"@[1]);
    assert("BROWN"@[0] != "WHITE"@[0]);
    assert("DARK_BLUE"@[5] != "DARK_GRAY"@[5]);
    assert("DARK_BLUE"@[0] != "LIGHT_RED"@[0]);
    assert("DARK_GREEN"@[0] != "LIGHT_GRAY"@[0]);
    assert("GOLD"@[1] != "GRAY"@[1]);
    assert("GOLD"@[0] != "BLUE"@[0]);
    assert("GREEN"@[0] != "BLACK"@[0]);
    assert("GREEN"@[0] != "WHITE"@[0]);
    assert("GREEN"@[0] != "BROWN"@[0]);
    assert("GREEN"@[0] != "KHAKI"@[0]);
    assert("KHAKI"@[0] != "BLACK"@[0]);
    assert("KHAKI"@[0] != "WHITE"@[0]);
    assert("KHAKI"@[0] != "BROWN"@[0]);
    assert("LIGHT_BLUE"@[6] != "LIGHT_GRAY"@[6]);
    assert("LIGHT_BLUE"@[0] != "DARK_GREEN"@[0]);
    assert("LIGHT_GREEN"@[0] != "TRANSPARENT"@[0]);
    assert("LIGHT_RED"@[0] != "DARK_GRAY"@[0]);
    assert("WHITE"@[0] != "BLACK"@[0]);
}

} // verus!
