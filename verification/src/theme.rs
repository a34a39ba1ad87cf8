//! The status bar's colours: parsing `#RRGGBB` / `#RRGGBBAA` colour
//! strings, and the built-in palettes chosen by name.
use vstd::prelude::*;

use crate::text::{chars_of, char_is_whitespace, eq_ignore_ascii_case, eq_ignore_ascii_case_spec, str_eq, trim_chars, trim_spec};
use crate::config::ColorOverrides;
use crate::toml_doc::{pairs_view, parse_toml, table_string_entries, toml_document, toml_string_entries};

verus! {

/// A colour as red, green, blue and alpha bytes.
#[derive(Debug, Clone, Copy, PartialEq, Eq, Structural)]
pub struct Rgba {
    pub r: u8,
    pub g: u8,
    pub b: u8,
    pub a: u8,
}

/// Opaque white, the colour a malformed constant stands for.
pub open spec fn white() -> Rgba {
    Rgba { r: 255, g: 255, b: 255, a: 255 }
}

/// `s` without its leading `#` characters.
pub open spec fn strip_hashes(s: Seq<char>) -> Seq<char>
    decreases s.len(),
{
    if s.len() > 0 && s[0] == '#' {
        strip_hashes(s.drop_first())
    } else {
        s
    }
}

/// The value of a hexadecimal digit, either case.
pub open spec fn hex_digit_value(c: char) -> Option<nat> {
    if '0' <= c <= '9' {
        Some((c as u32 - '0' as u32) as nat)
    } else if 'a' <= c <= 'f' {
        Some((c as u32 - 'a' as u32 + 10) as nat)
    } else if 'A' <= c <= 'F' {
        Some((c as u32 - 'A' as u32 + 10) as nat)
    } else {
        None
    }
}

/// The value of a run of hexadecimal digits (`None` when one is not a
/// digit); the empty run is worth zero.
pub open spec fn hex_digits_value(s: Seq<char>) -> Option<nat>
    decreases s.len(),
{
    if s.len() == 0 {
        Some(0)
    } else {
        match (hex_digits_value(s.drop_last()), hex_digit_value(s.last())) {
            (Some(v), Some(d)) => Some(v * 16 + d),
            _ => None,
        }
    }
}

/// The colour with the low three bytes of `v` as red, green and blue.
pub open spec fn rgb_of(v: nat, a: u8) -> Rgba {
    Rgba { r: ((v / 0x10000) % 0x100) as u8, g: ((v / 0x100) % 0x100) as u8, b: (v % 0x100) as u8, a }
}

/// The text of a colour once trimmed and stripped of its leading `#`s.
pub open spec fn color_body(s: Seq<char>) -> Seq<char> {
    strip_hashes(trim_spec(s))
}

/// Six hexadecimal digits `RRGGBB` give an opaque colour and eight
/// digits `RRGGBBAA` add the alpha; anything else (a sign, another
/// character, another length) is not a colour.
pub open spec fn color_spec(s: Seq<char>) -> Option<Rgba> {
    let t = color_body(s);
    if t.len() == 6 {
        match hex_digits_value(t) {
            Some(v) => Some(rgb_of(v, 255)),
            None => None,
        }
    } else if t.len() == 8 {
        match (hex_digits_value(t.take(6)), hex_digits_value(t.skip(6))) {
            (Some(v), Some(a)) => Some(rgb_of(v, a as u8)),
            _ => None,
        }
    } else {
        None
    }
}

proof fn lemma_hex_fits(s: Seq<char>)
    requires
        hex_digits_value(s) is Some,
    ensures
        hex_digits_value(s)->0 < pow16(s.len()),
    decreases s.len(),
{
    if s.len() > 0 {
        lemma_hex_fits(s.drop_last());
        let v = hex_digits_value(s.drop_last())->0;
        let d = hex_digit_value(s.last())->0;
        assert(v * 16 + d < pow16(s.len())) by (nonlinear_arith)
            requires
                v < pow16((s.len() - 1) as nat),
                d < 16,
                pow16(s.len()) == pow16((s.len() - 1) as nat) * 16,
        ;
    }
}

/// 16 to the power `n`.
pub open spec fn pow16(n: nat) -> nat
    decreases n,
{
    if n == 0 {
        1
    } else {
        pow16((n - 1) as nat) * 16
    }
}

/// The value of the hexadecimal digits of `cs` from index `from` up to
/// `to` (at most six of them); `None` when one is not a digit.
fn read_hex(cs: &Vec<char>, from: usize, to: usize) -> (r: Option<u32>)
    requires
        from <= to <= cs@.len(),
        to - from <= 6,
    ensures
        match hex_digits_value(cs@.subrange(from as int, to as int)) {
            Some(v) => r == Some(v as u32) && v < 0x100_0000,
            None => r is None,
        },
{
    let ghost body = cs@.subrange(from as int, to as int);
    let start = from;
    let mut i = from;
    let mut acc: u32 = 0;
    assert(cs@.subrange(start as int, start as int) =~= Seq::<char>::empty());
    while i < to
        invariant
            start <= i <= to <= cs@.len(),
            to - start <= 6,
            start == from,
            body == cs@.subrange(start as int, to as int),
            hex_digits_value(cs@.subrange(start as int, i as int)) == Some(acc as nat),
            (acc as nat) < pow16((i - start) as nat),
        decreases to - i,
    {
        let c = cs[i];
        let d: u32 = if '0' <= c && c <= '9' {
            c as u32 - '0' as u32
        } else if 'a' <= c && c <= 'f' {
            c as u32 - 'a' as u32 + 10
        } else if 'A' <= c && c <= 'F' {
            c as u32 - 'A' as u32 + 10
        } else {
            proof {
                let p = cs@.subrange(start as int, i + 1);
                assert(p.drop_last() =~= cs@.subrange(start as int, i as int));
                assert(hex_digits_value(p) is None);
                assert(body.take((i + 1 - start) as int) =~= p);
                lemma_prefix_none(body, (i + 1 - start) as int);
            }
            return None;
        };
        proof {
            assert(pow16((i + 1 - start) as nat) == pow16((i - start) as nat) * 16);
            lemma_pow16_small();
            lemma_pow16_mono((i + 1 - start) as nat, 6);
            let p = cs@.subrange(start as int, i + 1);
            assert(p.drop_last() =~= cs@.subrange(start as int, i as int));
            assert(acc * 16 + d < pow16((i + 1 - start) as nat)) by (nonlinear_arith)
                requires
                    (acc as nat) < pow16((i - start) as nat),
                    d < 16,
                    pow16((i + 1 - start) as nat) == pow16((i - start) as nat) * 16,
            ;
        }
        acc = acc * 16 + d;
        i = i + 1;
    }
    proof {
        assert(cs@.subrange(start as int, i as int) =~= body);
        lemma_pow16_small();
        lemma_pow16_mono((i - start) as nat, 6);
    }
    Some(acc)
}

proof fn lemma_pow16_small()
    ensures
        pow16(2) == 256,
        pow16(6) == 0x100_0000,
{
    reveal_with_fuel(pow16, 7);
}

proof fn lemma_pow16_mono(a: nat, b: nat)
    requires
        a <= b,
    ensures
        pow16(a) <= pow16(b),
    decreases b,
{
    if a < b {
        lemma_pow16_mono(a, (b - 1) as nat);
    }
}

/// A run whose prefix holds a non-digit has no value.
proof fn lemma_prefix_none(s: Seq<char>, k: int)
    requires
        0 <= k <= s.len(),
        hex_digits_value(s.take(k)) is None,
    ensures
        hex_digits_value(s) is None,
    decreases s.len() - k,
{
    if k < s.len() {
        let p = s.take(k + 1);
        assert(p.drop_last() =~= s.take(k));
        lemma_prefix_none(s, k + 1);
    } else {
        assert(s.take(k) =~= s);
    }
}

/// Parse `#RRGGBB` or `#RRGGBBAA`, around whitespace; the `#`s are optional.
pub fn parse_color(s: &str) -> (r: Option<Rgba>)
    ensures
        r == color_spec(s@),
{
    let cs = chars_of(s);
    let trimmed = trim_chars(&cs);
    let mut k: usize = 0;
    assert(trimmed@.skip(0) =~= trimmed@);
    while k < trimmed.len() && trimmed[k] == '#'
        invariant
            k <= trimmed@.len(),
            strip_hashes(trimmed@.skip(k as int)) == strip_hashes(trimmed@),
        decreases trimmed@.len() - k,
    {
        assert(trimmed@.skip(k as int).drop_first() =~= trimmed@.skip(k + 1));
        k = k + 1;
    }
    let mut t: Vec<char> = Vec::new();
    let mut j = k;
    while j < trimmed.len()
        invariant
            k <= j <= trimmed@.len(),
            t@ == trimmed@.subrange(k as int, j as int),
        decreases trimmed@.len() - j,
    {
        t.push(trimmed[j]);
        j = j + 1;
    }
    proof {
        assert(t@ =~= trimmed@.skip(k as int));
        if trimmed@.skip(k as int).len() > 0 {
            assert(trimmed@.skip(k as int)[0] == trimmed@[k as int]);
        }
        assert(strip_hashes(t@) == t@);
        assert(t@ == color_body(s@));
    }
    if t.len() == 6 {
        assert(t@.subrange(0, 6) =~= t@);
        match read_hex(&t, 0, 6) {
            Some(v) => {
                let c = Rgba { r: ((v / 0x10000) % 0x100) as u8, g: ((v / 0x100) % 0x100) as u8, b: (v % 0x100) as u8, a: 255 };
                Some(c)
            },
            None => None,
        }
    } else if t.len() == 8 {
        assert(t@.subrange(0, 6) =~= t@.take(6));
        assert(t@.subrange(6, 8) =~= t@.skip(6));
        let alpha = match read_hex(&t, 6, 8) {
            Some(a) => a,
            None => return None,
        };
        proof {
            lemma_hex_fits(t@.skip(6));
            lemma_pow16_small();
        }
        match read_hex(&t, 0, 6) {
            Some(v) => {
                let c = Rgba { r: ((v / 0x10000) % 0x100) as u8, g: ((v / 0x100) % 0x100) as u8, b: (v % 0x100) as u8, a: alpha as u8 };
                Some(c)
            },
            None => None,
        }
    } else {
        None
    }
}

/// The colour of a constant: as `parse_color`, or white when malformed.
pub open spec fn hex_spec(s: Seq<char>) -> Rgba {
    match color_spec(s) {
        Some(c) => c,
        None => white(),
    }
}

/// The colour of a constant string, white when malformed.
pub fn hex(s: &str) -> (r: Rgba)
    ensures
        r == hex_spec(s@),
{
    match parse_color(s) {
        Some(c) => c,
        None => Rgba { r: 255, g: 255, b: 255, a: 255 },
    }
}


/// The five colours of a bar theme.
#[derive(Debug, Clone, Copy, PartialEq, Eq, Structural)]
pub struct Palette {
    pub background: Rgba,
    pub foreground: Rgba,
    pub accent: Rgba,
    pub inactive: Rgba,
    pub border: Rgba,
}
/// The `tokyo-night` palette.
pub open spec fn tokyo_night_spec() -> Palette {
    Palette {
        background: Rgba { r: 0x1a, g: 0x1b, b: 0x26, a: 0xff },
        foreground: Rgba { r: 0xc0, g: 0xca, b: 0xf5, a: 0xff },
        accent: Rgba { r: 0x7a, g: 0xa2, b: 0xf7, a: 0xff },
        inactive: Rgba { r: 0x3b, g: 0x42, b: 0x61, a: 0xff },
        border: Rgba { r: 0x56, g: 0x5f, b: 0x89, a: 0xff },
    }
}

/// The `catppuccin-mocha` palette.
pub open spec fn catppuccin_mocha_spec() -> Palette {
    Palette {
        background: Rgba { r: 0x1e, g: 0x1e, b: 0x2e, a: 0xff },
        foreground: Rgba { r: 0xcd, g: 0xd6, b: 0xf4, a: 0xff },
        accent: Rgba { r: 0x89, g: 0xb4, b: 0xfa, a: 0xff },
        inactive: Rgba { r: 0x45, g: 0x47, b: 0x5a, a: 0xff },
        border: Rgba { r: 0x6c, g: 0x70, b: 0x86, a: 0xff },
    }
}

/// The `catppuccin-latte` palette.
pub open spec fn catppuccin_latte_spec() -> Palette {
    Palette {
        background: Rgba { r: 0xef, g: 0xf1, b: 0xf5, a: 0xff },
        foreground: Rgba { r: 0x4c, g: 0x4f, b: 0x69, a: 0xff },
        accent: Rgba { r: 0x1e, g: 0x66, b: 0xf5, a: 0xff },
        inactive: Rgba { r: 0xcc, g: 0xd0, b: 0xda, a: 0xff },
        border: Rgba { r: 0x9c, g: 0xa0, b: 0xb0, a: 0xff },
    }
}

/// The `nord` palette.
pub open spec fn nord_spec() -> Palette {
    Palette {
        background: Rgba { r: 0x2e, g: 0x34, b: 0x40, a: 0xff },
        foreground: Rgba { r: 0xd8, g: 0xde, b: 0xe9, a: 0xff },
        accent: Rgba { r: 0x88, g: 0xc0, b: 0xd0, a: 0xff },
        inactive: Rgba { r: 0x43, g: 0x4c, b: 0x5e, a: 0xff },
        border: Rgba { r: 0x4c, g: 0x56, b: 0x6a, a: 0xff },
    }
}

/// The `dracula` palette.
pub open spec fn dracula_spec() -> Palette {
    Palette {
        background: Rgba { r: 0x28, g: 0x2a, b: 0x36, a: 0xff },
        foreground: Rgba { r: 0xf8, g: 0xf8, b: 0xf2, a: 0xff },
        accent: Rgba { r: 0xbd, g: 0x93, b: 0xf9, a: 0xff },
        inactive: Rgba { r: 0x44, g: 0x47, b: 0x5a, a: 0xff },
        border: Rgba { r: 0x62, g: 0x72, b: 0xa4, a: 0xff },
    }
}

/// The `one-dark` palette.
pub open spec fn one_dark_spec() -> Palette {
    Palette {
        background: Rgba { r: 0x28, g: 0x2c, b: 0x34, a: 0xff },
        foreground: Rgba { r: 0xab, g: 0xb2, b: 0xbf, a: 0xff },
        accent: Rgba { r: 0x61, g: 0xaf, b: 0xef, a: 0xff },
        inactive: Rgba { r: 0x3e, g: 0x44, b: 0x51, a: 0xff },
        border: Rgba { r: 0x4b, g: 0x52, b: 0x63, a: 0xff },
    }
}

/// The `solarized-dark` palette.
pub open spec fn solarized_dark_spec() -> Palette {
    Palette {
        background: Rgba { r: 0x00, g: 0x2b, b: 0x36, a: 0xff },
        foreground: Rgba { r: 0x83, g: 0x94, b: 0x96, a: 0xff },
        accent: Rgba { r: 0x26, g: 0x8b, b: 0xd2, a: 0xff },
        inactive: Rgba { r: 0x07, g: 0x36, b: 0x42, a: 0xff },
        border: Rgba { r: 0x58, g: 0x6e, b: 0x75, a: 0xff },
    }
}

/// The `solarized-light` palette.
pub open spec fn solarized_light_spec() -> Palette {
    Palette {
        background: Rgba { r: 0xfd, g: 0xf6, b: 0xe3, a: 0xff },
        foreground: Rgba { r: 0x65, g: 0x7b, b: 0x83, a: 0xff },
        accent: Rgba { r: 0x26, g: 0x8b, b: 0xd2, a: 0xff },
        inactive: Rgba { r: 0xee, g: 0xe8, b: 0xd5, a: 0xff },
        border: Rgba { r: 0x93, g: 0xa1, b: 0xa1, a: 0xff },
    }
}

/// The `gruvbox-dark` palette.
pub open spec fn gruvbox_dark_spec() -> Palette {
    Palette {
        background: Rgba { r: 0x28, g: 0x28, b: 0x28, a: 0xff },
        foreground: Rgba { r: 0xeb, g: 0xdb, b: 0xb2, a: 0xff },
        accent: Rgba { r: 0x83, g: 0xa5, b: 0x98, a: 0xff },
        inactive: Rgba { r: 0x50, g: 0x49, b: 0x45, a: 0xff },
        border: Rgba { r: 0x7c, g: 0x6f, b: 0x64, a: 0xff },
    }
}

/// The `gruvbox-light` palette.
pub open spec fn gruvbox_light_spec() -> Palette {
    Palette {
        background: Rgba { r: 0xfb, g: 0xf1, b: 0xc7, a: 0xff },
        foreground: Rgba { r: 0x3c, g: 0x38, b: 0x36, a: 0xff },
        accent: Rgba { r: 0x45, g: 0x85, b: 0x88, a: 0xff },
        inactive: Rgba { r: 0xd5, g: 0xc4, b: 0xa1, a: 0xff },
        border: Rgba { r: 0xbd, g: 0xae, b: 0x93, a: 0xff },
    }
}

/// The `rose-pine` palette.
pub open spec fn rose_pine_spec() -> Palette {
    Palette {
        background: Rgba { r: 0x19, g: 0x17, b: 0x24, a: 0xff },
        foreground: Rgba { r: 0xe0, g: 0xde, b: 0xf4, a: 0xff },
        accent: Rgba { r: 0xeb, g: 0xbc, b: 0xba, a: 0xff },
        inactive: Rgba { r: 0x40, g: 0x3d, b: 0x52, a: 0xff },
        border: Rgba { r: 0x6e, g: 0x6a, b: 0x86, a: 0xff },
    }
}

/// The `kanagawa` palette.
pub open spec fn kanagawa_spec() -> Palette {
    Palette {
        background: Rgba { r: 0x1f, g: 0x1f, b: 0x28, a: 0xff },
        foreground: Rgba { r: 0xdc, g: 0xd7, b: 0xba, a: 0xff },
        accent: Rgba { r: 0x7e, g: 0x9c, b: 0xd8, a: 0xff },
        inactive: Rgba { r: 0x36, g: 0x36, b: 0x46, a: 0xff },
        border: Rgba { r: 0x54, g: 0x54, b: 0x6d, a: 0xff },
    }
}

/// The built-in palette named `name` (ASCII case ignored).
pub open spec fn builtin_spec(name: Seq<char>) -> Option<Palette> {
    if eq_ignore_ascii_case_spec(name, "tokyo-night"@) {
        Some(tokyo_night_spec())
    } else if eq_ignore_ascii_case_spec(name, "catppuccin-mocha"@) {
        Some(catppuccin_mocha_spec())
    } else if eq_ignore_ascii_case_spec(name, "catppuccin-latte"@) {
        Some(catppuccin_latte_spec())
    } else if eq_ignore_ascii_case_spec(name, "nord"@) {
        Some(nord_spec())
    } else if eq_ignore_ascii_case_spec(name, "dracula"@) {
        Some(dracula_spec())
    } else if eq_ignore_ascii_case_spec(name, "one-dark"@) {
        Some(one_dark_spec())
    } else if eq_ignore_ascii_case_spec(name, "solarized-dark"@) {
        Some(solarized_dark_spec())
    } else if eq_ignore_ascii_case_spec(name, "solarized-light"@) {
        Some(solarized_light_spec())
    } else if eq_ignore_ascii_case_spec(name, "gruvbox-dark"@) {
        Some(gruvbox_dark_spec())
    } else if eq_ignore_ascii_case_spec(name, "gruvbox-light"@) {
        Some(gruvbox_light_spec())
    } else if eq_ignore_ascii_case_spec(name, "rose-pine"@) {
        Some(rose_pine_spec())
    } else if eq_ignore_ascii_case_spec(name, "kanagawa"@) {
        Some(kanagawa_spec())
    } else {
        None
    }
}

/// The default palette.
pub fn tokyo_night() -> (r: Palette)
    ensures
        r == tokyo_night_spec(),
{
    Palette {
        background: Rgba { r: 0x1a, g: 0x1b, b: 0x26, a: 0xff },
        foreground: Rgba { r: 0xc0, g: 0xca, b: 0xf5, a: 0xff },
        accent: Rgba { r: 0x7a, g: 0xa2, b: 0xf7, a: 0xff },
        inactive: Rgba { r: 0x3b, g: 0x42, b: 0x61, a: 0xff },
        border: Rgba { r: 0x56, g: 0x5f, b: 0x89, a: 0xff },
    }
}

/// The built-in palette named `name`, matched ignoring ASCII case.
pub fn builtin(name: &str) -> (r: Option<Palette>)
    ensures
        r == builtin_spec(name@),
{
    if eq_ignore_ascii_case(name, "tokyo-night") {
        proof {
            reveal_strlit("tokyo-night");
        }
        return Some(tokyo_night());
    }
    if eq_ignore_ascii_case(name, "catppuccin-mocha") {
        proof {
            reveal_strlit("catppuccin-mocha");
        }
        return Some(Palette {
            background: Rgba { r: 0x1e, g: 0x1e, b: 0x2e, a: 0xff },
            foreground: Rgba { r: 0xcd, g: 0xd6, b: 0xf4, a: 0xff },
            accent: Rgba { r: 0x89, g: 0xb4, b: 0xfa, a: 0xff },
            inactive: Rgba { r: 0x45, g: 0x47, b: 0x5a, a: 0xff },
            border: Rgba { r: 0x6c, g: 0x70, b: 0x86, a: 0xff },
        });
    }
    if eq_ignore_ascii_case(name, "catppuccin-latte") {
        proof {
            reveal_strlit("catppuccin-latte");
        }
        return Some(Palette {
            background: Rgba { r: 0xef, g: 0xf1, b: 0xf5, a: 0xff },
            foreground: Rgba { r: 0x4c, g: 0x4f, b: 0x69, a: 0xff },
            accent: Rgba { r: 0x1e, g: 0x66, b: 0xf5, a: 0xff },
            inactive: Rgba { r: 0xcc, g: 0xd0, b: 0xda, a: 0xff },
            border: Rgba { r: 0x9c, g: 0xa0, b: 0xb0, a: 0xff },
        });
    }
    if eq_ignore_ascii_case(name, "nord") {
        proof {
            reveal_strlit("nord");
        }
        return Some(Palette {
            background: Rgba { r: 0x2e, g: 0x34, b: 0x40, a: 0xff },
            foreground: Rgba { r: 0xd8, g: 0xde, b: 0xe9, a: 0xff },
            accent: Rgba { r: 0x88, g: 0xc0, b: 0xd0, a: 0xff },
            inactive: Rgba { r: 0x43, g: 0x4c, b: 0x5e, a: 0xff },
            border: Rgba { r: 0x4c, g: 0x56, b: 0x6a, a: 0xff },
        });
    }
    if eq_ignore_ascii_case(name, "dracula") {
        proof {
            reveal_strlit("dracula");
        }
        return Some(Palette {
            background: Rgba { r: 0x28, g: 0x2a, b: 0x36, a: 0xff },
            foreground: Rgba { r: 0xf8, g: 0xf8, b: 0xf2, a: 0xff },
            accent: Rgba { r: 0xbd, g: 0x93, b: 0xf9, a: 0xff },
            inactive: Rgba { r: 0x44, g: 0x47, b: 0x5a, a: 0xff },
            border: Rgba { r: 0x62, g: 0x72, b: 0xa4, a: 0xff },
        });
    }
    if eq_ignore_ascii_case(name, "one-dark") {
        proof {
            reveal_strlit("one-dark");
        }
        return Some(Palette {
            background: Rgba { r: 0x28, g: 0x2c, b: 0x34, a: 0xff },
            foreground: Rgba { r: 0xab, g: 0xb2, b: 0xbf, a: 0xff },
            accent: Rgba { r: 0x61, g: 0xaf, b: 0xef, a: 0xff },
            inactive: Rgba { r: 0x3e, g: 0x44, b: 0x51, a: 0xff },
            border: Rgba { r: 0x4b, g: 0x52, b: 0x63, a: 0xff },
        });
    }
    if eq_ignore_ascii_case(name, "solarized-dark") {
        proof {
            reveal_strlit("solarized-dark");
        }
        return Some(Palette {
            background: Rgba { r: 0x00, g: 0x2b, b: 0x36, a: 0xff },
            foreground: Rgba { r: 0x83, g: 0x94, b: 0x96, a: 0xff },
            accent: Rgba { r: 0x26, g: 0x8b, b: 0xd2, a: 0xff },
            inactive: Rgba { r: 0x07, g: 0x36, b: 0x42, a: 0xff },
            border: Rgba { r: 0x58, g: 0x6e, b: 0x75, a: 0xff },
        });
    }
    if eq_ignore_ascii_case(name, "solarized-light") {
        proof {
            reveal_strlit("solarized-light");
        }
        return Some(Palette {
            background: Rgba { r: 0xfd, g: 0xf6, b: 0xe3, a: 0xff },
            foreground: Rgba { r: 0x65, g: 0x7b, b: 0x83, a: 0xff },
            accent: Rgba { r: 0x26, g: 0x8b, b: 0xd2, a: 0xff },
            inactive: Rgba { r: 0xee, g: 0xe8, b: 0xd5, a: 0xff },
            border: Rgba { r: 0x93, g: 0xa1, b: 0xa1, a: 0xff },
        });
    }
    if eq_ignore_ascii_case(name, "gruvbox-dark") {
        proof {
            reveal_strlit("gruvbox-dark");
        }
        return Some(Palette {
            background: Rgba { r: 0x28, g: 0x28, b: 0x28, a: 0xff },
            foreground: Rgba { r: 0xeb, g: 0xdb, b: 0xb2, a: 0xff },
            accent: Rgba { r: 0x83, g: 0xa5, b: 0x98, a: 0xff },
            inactive: Rgba { r: 0x50, g: 0x49, b: 0x45, a: 0xff },
            border: Rgba { r: 0x7c, g: 0x6f, b: 0x64, a: 0xff },
        });
    }
    if eq_ignore_ascii_case(name, "gruvbox-light") {
        proof {
            reveal_strlit("gruvbox-light");
        }
        return Some(Palette {
            background: Rgba { r: 0xfb, g: 0xf1, b: 0xc7, a: 0xff },
            foreground: Rgba { r: 0x3c, g: 0x38, b: 0x36, a: 0xff },
            accent: Rgba { r: 0x45, g: 0x85, b: 0x88, a: 0xff },
            inactive: Rgba { r: 0xd5, g: 0xc4, b: 0xa1, a: 0xff },
            border: Rgba { r: 0xbd, g: 0xae, b: 0x93, a: 0xff },
        });
    }
    if eq_ignore_ascii_case(name, "rose-pine") {
        proof {
            reveal_strlit("rose-pine");
        }
        return Some(Palette {
            background: Rgba { r: 0x19, g: 0x17, b: 0x24, a: 0xff },
            foreground: Rgba { r: 0xe0, g: 0xde, b: 0xf4, a: 0xff },
            accent: Rgba { r: 0xeb, g: 0xbc, b: 0xba, a: 0xff },
            inactive: Rgba { r: 0x40, g: 0x3d, b: 0x52, a: 0xff },
            border: Rgba { r: 0x6e, g: 0x6a, b: 0x86, a: 0xff },
        });
    }
    if eq_ignore_ascii_case(name, "kanagawa") {
        proof {
            reveal_strlit("kanagawa");
        }
        return Some(Palette {
            background: Rgba { r: 0x1f, g: 0x1f, b: 0x28, a: 0xff },
            foreground: Rgba { r: 0xdc, g: 0xd7, b: 0xba, a: 0xff },
            accent: Rgba { r: 0x7e, g: 0x9c, b: 0xd8, a: 0xff },
            inactive: Rgba { r: 0x36, g: 0x36, b: 0x46, a: 0xff },
            border: Rgba { r: 0x54, g: 0x54, b: 0x6d, a: 0xff },
        });
    }
    None
}


/// The text under `key` among the `(key, string value)` entries of a
/// table: the value of the first entry with that key, `None` when there is
/// none or its value is not a string.
pub open spec fn entry_text(es: Seq<(Seq<char>, Option<Seq<char>>)>, key: Seq<char>) -> Option<Seq<char>>
    decreases es.len(),
{
    if es.len() == 0 {
        None
    } else if es[0].0 == key {
        es[0].1
    } else {
        entry_text(es.drop_first(), key)
    }
}

/// The colour under `key` when it is a valid colour string, else `current`.
pub open spec fn colour_entry(current: Rgba, es: Seq<(Seq<char>, Option<Seq<char>>)>, key: Seq<char>) -> Rgba {
    match entry_text(es, key) {
        Some(t) => match color_spec(t) {
            Some(c) => c,
            None => current,
        },
        None => current,
    }
}

/// `base` with each of its five colours replaced by the valid colour string
/// of a theme table under the colour's name.
pub open spec fn palette_entries_spec(base: Palette, es: Seq<(Seq<char>, Option<Seq<char>>)>) -> Palette {
    Palette {
        background: colour_entry(base.background, es, "background"@),
        foreground: colour_entry(base.foreground, es, "foreground"@),
        accent: colour_entry(base.accent, es, "accent"@),
        inactive: colour_entry(base.inactive, es, "inactive"@),
        border: colour_entry(base.border, es, "border"@),
    }
}

/// The palette of a theme file's text: `None` when the text is not a TOML
/// table, else `base` with the colours the table sets.
pub open spec fn palette_text_spec(contents: Seq<char>, base: Palette) -> Option<Palette> {
    match toml_document(contents) {
        None => None,
        Some(v) => match toml_string_entries(v) {
            None => None,
            Some(es) => Some(palette_entries_spec(base, es)),
        },
    }
}

/// The colour under `key` in `entries` when it is a valid colour string,
/// else `current`.
fn entry_colour(entries: &Vec<(String, Option<String>)>, key: &str, current: Rgba) -> (r: Rgba)
    ensures
        r == colour_entry(current, pairs_view(entries@), key@),
{
    let ghost es = pairs_view(entries@);
    let mut i: usize = 0;
    assert(es.skip(0) =~= es);
    while i < entries.len()
        invariant
            i <= entries@.len(),
            es == pairs_view(entries@),
            entry_text(es, key@) == entry_text(es.skip(i as int), key@),
        decreases entries@.len() - i,
    {
        assert(es.skip(i as int)[0] == es[i as int]);
        assert(es.skip(i as int).drop_first() =~= es.skip(i + 1));
        if str_eq(entries[i].0.as_str(), key) {
            match &entries[i].1 {
                Some(v) => {
                    return match parse_color(v.as_str()) {
                        Some(c) => c,
                        None => current,
                    };
                },
                None => return current,
            }
        }
        i = i + 1;
    }
    assert(es.skip(i as int).len() == 0);
    current
}

/// `base` with each of its five colours replaced by the valid colour string
/// that `entries` (a theme table's keys with their string values) holds
/// under the colour's name.
pub fn palette_from_entries(base: Palette, entries: &Vec<(String, Option<String>)>) -> (r: Palette)
    ensures
        r == palette_entries_spec(base, pairs_view(entries@)),
{
    Palette {
        background: entry_colour(entries, "background", base.background),
        foreground: entry_colour(entries, "foreground", base.foreground),
        accent: entry_colour(entries, "accent", base.accent),
        inactive: entry_colour(entries, "inactive", base.inactive),
        border: entry_colour(entries, "border", base.border),
    }
}

/// The colours of a theme file: `None` when `contents` is not valid TOML
/// or not a table; otherwise `base` with the colours the file sets (a key
/// whose value is not a valid colour string keeps the colour of `base`).
pub fn palette_from_text(contents: &str, base: Palette) -> (r: Option<Palette>)
    ensures
        r == palette_text_spec(contents@, base),
{
    match parse_toml(contents) {
        Err(_) => None,
        Ok(v) => match table_string_entries(&v) {
            None => None,
            Some(es) => Some(palette_from_entries(base, &es)),
        },
    }
}


/// The colour an override string gives: the colour it parses to, else
/// `current`; `current` without an override.
pub open spec fn overridden(current: Rgba, o: Option<String>) -> Rgba {
    match o {
        Some(t) => match color_spec(t@) {
            Some(c) => c,
            None => current,
        },
        None => current,
    }
}

fn override_colour(current: Rgba, o: &Option<String>) -> (r: Rgba)
    ensures
        r == overridden(current, *o),
{
    match o {
        Some(t) => match parse_color(t.as_str()) {
            Some(c) => c,
            None => current,
        },
        None => current,
    }
}

/// `base` with the colours of `[bar.colors]` applied: each override that is
/// a valid colour string replaces that colour.
pub fn apply_color_overrides(base: Palette, overrides: &ColorOverrides) -> (r: Palette)
    ensures
        r == (Palette {
            background: overridden(base.background, overrides.background),
            foreground: overridden(base.foreground, overrides.foreground),
            accent: overridden(base.accent, overrides.accent),
            inactive: overridden(base.inactive, overrides.inactive),
            border: overridden(base.border, overrides.border),
        }),
{
    Palette {
        background: override_colour(base.background, &overrides.background),
        foreground: override_colour(base.foreground, &overrides.foreground),
        accent: override_colour(base.accent, &overrides.accent),
        inactive: override_colour(base.inactive, &overrides.inactive),
        border: override_colour(base.border, &overrides.border),
    }
}


proof fn lemma_hex_concat(a: Seq<char>, b: Seq<char>)
    ensures
        hex_digits_value(a + b) == match (hex_digits_value(a), hex_digits_value(b)) {
            (Some(x), Some(y)) => Some(x * pow16(b.len()) + y),
            _ => None,
        },
    decreases b.len(),
{
    if b.len() == 0 {
        assert(a + b =~= a);
        assert(hex_digits_value(b) == Some(0nat));
        assert(pow16(0) == 1);
        match hex_digits_value(a) {
            Some(x) => {
                assert(x * 1 + 0 == x);
            },
            None => {},
        }
    } else {
        let b1 = b.drop_last();
        lemma_hex_concat(a, b1);
        assert((a + b).drop_last() =~= a + b1);
        assert((a + b).last() == b.last());
        assert(hex_digits_value(b) == match (hex_digits_value(b1), hex_digit_value(b.last())) {
            (Some(v), Some(d)) => Some(v * 16 + d),
            _ => None,
        });
        assert(hex_digits_value(a + b) == match (hex_digits_value(a + b1), hex_digit_value(b.last())) {
            (Some(v), Some(d)) => Some(v * 16 + d),
            _ => None,
        });
        match (hex_digits_value(a), hex_digits_value(b1), hex_digit_value(b.last())) {
            (Some(x), Some(y1), Some(d)) => {
                let p1 = pow16(b1.len());
                assert(pow16(b.len()) == p1 * 16);
                assert((x * p1 + y1) * 16 + d == x * (p1 * 16) + (y1 * 16 + d)) by (nonlinear_arith);
            },
            _ => {},
        }
    }
}

/// The value of the two hexadecimal digits of `t` from `i` on.
pub open spec fn hex_pair(t: Seq<char>, i: int) -> nat {
    hex_digits_value(t.subrange(i, i + 2))->0
}

proof fn lemma_three_pairs(t: Seq<char>)
    requires
        t.len() >= 6,
        hex_digits_value(t.take(6)) is Some,
    ensures
        hex_digits_value(t.subrange(0, 2)) is Some,
        hex_digits_value(t.subrange(2, 4)) is Some,
        hex_digits_value(t.subrange(4, 6)) is Some,
        rgb_of(hex_digits_value(t.take(6))->0, 0) == (Rgba { r: hex_pair(t, 0) as u8, g: hex_pair(t, 2) as u8, b: hex_pair(t, 4) as u8, a: 0 }),
        hex_pair(t, 0) < 256,
        hex_pair(t, 2) < 256,
        hex_pair(t, 4) < 256,
{
    let p0 = t.subrange(0, 2);
    let p1 = t.subrange(2, 4);
    let p2 = t.subrange(4, 6);
    assert(t.take(6) =~= (p0 + p1) + p2);
    lemma_hex_concat(p0 + p1, p2);
    lemma_hex_concat(p0, p1);
    lemma_pow16_small();
    assert(pow16(2) == 256);
    if hex_digits_value(p0) is None || hex_digits_value(p1) is None {
        assert(hex_digits_value(p0 + p1) is None);
    }
    lemma_hex_fits(p0);
    lemma_hex_fits(p1);
    lemma_hex_fits(p2);
    let x = hex_digits_value(p0)->0;
    let y = hex_digits_value(p1)->0;
    let z = hex_digits_value(p2)->0;
    let v = hex_digits_value(t.take(6))->0;
    assert(v == (x * 256 + y) * 256 + z);
    assert(v / 0x10000 % 0x100 == x && v / 0x100 % 0x100 == y && v % 0x100 == z) by (nonlinear_arith)
        requires
            v == (x * 256 + y) * 256 + z,
            x < 256,
            y < 256,
            z < 256,
    ;
}

/// A colour reads its bytes in pairs of hexadecimal digits: `RR`, `GG`,
/// `BB` and, with eight digits, `AA` (else the colour is opaque).
pub proof fn law_color_pairs(s: Seq<char>)
    requires
        color_spec(s) is Some,
    ensures
        ({
            let t = color_body(s);
            let c = color_spec(s)->0;
            &&& t.len() == 6 || t.len() == 8
            &&& c.r == hex_pair(t, 0)
            &&& c.g == hex_pair(t, 2)
            &&& c.b == hex_pair(t, 4)
            &&& c.a == if t.len() == 8 {
                hex_pair(t, 6)
            } else {
                255
            }
        }),
{
    let t = color_body(s);
    lemma_pow16_small();
    if t.len() == 6 {
        assert(t.take(6) =~= t);
        lemma_three_pairs(t);
    } else {
        lemma_three_pairs(t);
        assert(t.skip(6) =~= t.subrange(6, 8));
        lemma_hex_fits(t.skip(6));
        assert(hex_pair(t, 6) < 256);
    }
}

} // verus!
