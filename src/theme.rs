//! Terminal color themes.
use vstd::prelude::*;

verus! {

/// Relies on std's `String::push`: it appends the character to the end.
#[verifier::external_body]
fn push_char(s: &mut String, c: char)
    ensures
        final(s)@ == old(s)@.push(c),
{
    s.push(c)
}

/// The upper-case hexadecimal digit for `d`, which is below 16.
pub open spec fn hex_digit(d: int) -> char {
    if d < 10 {
        ((48 + d) as u8) as char
    } else {
        ((55 + d) as u8) as char
    }
}

/// 16 to the power `i`.
pub open spec fn pow16(i: nat) -> int
    decreases i,
{
    if i == 0 {
        1
    } else {
        16 * pow16((i - 1) as nat)
    }
}

/// Character `k` (from the left) of `v` written in upper-case hexadecimal,
/// right-aligned in six places and padded with spaces.
pub open spec fn padded_hex_char(v: int, k: int) -> char {
    let i = (5 - k) as nat;
    if i == 0 || v >= pow16(i) {
        hex_digit((v / pow16(i)) % 16)
    } else {
        ' '
    }
}

proof fn lemma_pow16_pos(i: nat)
    ensures
        pow16(i) >= 1,
    decreases i,
{
    if i > 0 {
        lemma_pow16_pos((i - 1) as nat);
    }
}

/// A color as `#` followed by the padded hexadecimal form of `v`.
pub open spec fn color_text(v: int) -> Seq<char> {
    seq!['#'] + Seq::new(6, |k: int| padded_hex_char(v, k))
}

/// Writes the 24-bit color `v` as `#` and six upper-case hexadecimal places.
fn color(v: u32) -> (r: String)
    requires
        v < 0x1000000,
    ensures
        r@ == color_text(v as int),
{
    let mut s = String::new();
    push_char(&mut s, '#');
    let mut p: u32 = 0x100000;
    let mut k: u32 = 0;
    assert(pow16(0) == 1);
    assert(pow16(1) == 16);
    assert(pow16(2) == 0x100);
    assert(pow16(3) == 0x1000);
    assert(pow16(4) == 0x10000);
    assert(pow16(5) == 0x100000);
    while k < 6
        invariant
            0 <= k <= 6,
            v < 0x1000000,
            k < 6 ==> p as int == pow16((5 - k) as nat),
            p >= 1,
            s@ == seq!['#'] + Seq::new(k as nat, |j: int| padded_hex_char(v as int, j)),
        decreases 6 - k,
    {
        let d: u32 = (v / p) % 16;
        let c = if k == 5 || v >= p {
            if d < 10 {
                ((48 + d) as u8) as char
            } else {
                ((55 + d) as u8) as char
            }
        } else {
            ' '
        };
        assert(c == padded_hex_char(v as int, k as int));
        push_char(&mut s, c);
        assert(s@ =~= seq!['#'] + Seq::new(k as nat + 1, |j: int| padded_hex_char(v as int, j)));
        if k < 5 {
            proof {
                assert(pow16((5 - k) as nat) == 16 * pow16((5 - k - 1) as nat));
                lemma_pow16_pos((5 - k - 1) as nat);
            }
            p = p / 16;
        }
        k = k + 1;
    }
    s
}

/// A color theme: each entry, when set, is a CSS color.
#[derive(Debug, Clone)]
pub struct Theme {
    pub background: Option<String>,
    pub black: Option<String>,
    pub blue: Option<String>,
    pub bright_black: Option<String>,
    pub bright_blue: Option<String>,
    pub bright_cyan: Option<String>,
    pub bright_green: Option<String>,
    pub bright_magenta: Option<String>,
    pub bright_red: Option<String>,
    pub bright_white: Option<String>,
    pub bright_yellow: Option<String>,
    pub cursor: Option<String>,
    pub cursor_accent: Option<String>,
    pub cyan: Option<String>,
    pub foreground: Option<String>,
    pub green: Option<String>,
    pub magenta: Option<String>,
    pub red: Option<String>,
    pub selection: Option<String>,
    pub white: Option<String>,
    pub yellow: Option<String>,
}

/// The entry holds the color `v`.
pub open spec fn is_color(e: Option<String>, v: int) -> bool {
    e is Some && e->0@ == color_text(v)
}

impl Theme {
    /// A theme based on the Nord color palette: the sixteen ANSI colors,
    /// background and foreground are set; cursor, cursor accent and
    /// selection are left unset.
    pub fn nord() -> (r: Theme)
        ensures
            is_color(r.black, 0x343434),
            is_color(r.bright_black, 0x434c5e),
            is_color(r.red, 0xbf616a),
            is_color(r.bright_red, 0xbf616a),
            is_color(r.green, 0xa3be8c),
            is_color(r.bright_green, 0xa3be8c),
            is_color(r.yellow, 0xebcb8b),
            is_color(r.bright_yellow, 0xebcb8b),
            is_color(r.blue, 0x81a1c1),
            is_color(r.bright_blue, 0x81a1c1),
            is_color(r.magenta, 0xb48ead),
            is_color(r.bright_magenta, 0xb48ead),
            is_color(r.cyan, 0x88c0d0),
            is_color(r.bright_cyan, 0x8fbcbb),
            is_color(r.white, 0xe5e9f0),
            is_color(r.bright_white, 0xeceff4),
            is_color(r.background, 0x2e3440),
            is_color(r.foreground, 0xd8dee9),
            r.cursor is None,
            r.cursor_accent is None,
            r.selection is None,
    {
        Theme {
            background: Some(color(0x2e3440)),
            black: Some(color(0x343434)),
            blue: Some(color(0x81a1c1)),
            bright_black: Some(color(0x434c5e)),
            bright_blue: Some(color(0x81a1c1)),
            bright_cyan: Some(color(0x8fbcbb)),
            bright_green: Some(color(0xa3be8c)),
            bright_magenta: Some(color(0xb48ead)),
            bright_red: Some(color(0xbf616a)),
            bright_white: Some(color(0xeceff4)),
            bright_yellow: Some(color(0xebcb8b)),
            cursor: None,
            cursor_accent: None,
            cyan: Some(color(0x88c0d0)),
            foreground: Some(color(0xd8dee9)),
            green: Some(color(0xa3be8c)),
            magenta: Some(color(0xb48ead)),
            red: Some(color(0xbf616a)),
            selection: None,
            white: Some(color(0xe5e9f0)),
            yellow: Some(color(0xebcb8b)),
        }
    }
}

} // verus!
