//! Color model: hex parsing and perceptual-luminance classification.
//!
//! A [`Color`] carries three 8-bit channels and an alpha channel that is
//! always the fixed opaque marker [`OPAQUE_MARKER`].  Luminance
//! classification works on a fixed-point model: [`LINEAR_LUT`] maps an
//! 8-bit sRGB channel to its linearized value scaled by 10^7 (nearest
//! integer), and a color is classified `Light` exactly when its CIE
//! lightness reaches the legibility threshold, i.e. when its relative
//! luminance is at least (24/29)^3.

use vstd::prelude::*;

verus! {

/// Why a hex string failed to parse as a color.
#[derive(Debug, PartialEq, Eq, Structural, Clone, Copy)]
pub enum ColorError {
    /// Only hex strings of length 3 or 6 are supported.
    InvalidLength,
    /// Every character of the triplet must be a hex digit.
    InvalidHex,
}

/// Two-valued perceptual classification of a color.
#[derive(Debug, PartialEq, Eq, Structural, Clone, Copy)]
pub enum PerceivedLuminance {
    Light,
    Dark,
}

/// The fixed alpha value of every parsed color.  The source format has no
/// alpha component, and this marker is deliberately distinct from the
/// conventional maximum-opacity value 255; rendering uses RGB only.
pub const OPAQUE_MARKER: u8 = 1;

/// An RGB color with the fixed opaque-marker alpha.
#[derive(Debug, PartialEq, Eq, Structural, Clone, Copy)]
pub struct Color {
    pub r: u8,
    pub g: u8,
    pub b: u8,
    pub a: u8,
}

/// Linearized sRGB per 8-bit channel value, scaled by 10^7 and rounded to
/// the nearest integer: for x = c/255, the sRGB transfer function is
/// x/12.92 when x <= 0.04045 and ((x + 0.055)/1.055)^2.4 otherwise.
pub const LINEAR_LUT: [u32; 256] = [
    0, 3035, 6071, 9106, 12141, 15176, 18212, 21247,
    24282, 27317, 30353, 33465, 36765, 40247, 43914, 47770,
    51815, 56054, 60488, 65121, 69954, 74990, 80232, 85681,
    91341, 97212, 103298, 109601, 116122, 122865, 129830, 137021,
    144438, 152085, 159963, 168074, 176420, 185002, 193824, 202886,
    212190, 221739, 231534, 241576, 251869, 262412, 273209, 284260,
    295568, 307134, 318960, 331048, 343398, 356013, 368895, 382044,
    395462, 409152, 423114, 437350, 451862, 466651, 481718, 497066,
    512695, 528606, 544803, 561285, 578054, 595112, 612461, 630100,
    648033, 666259, 684782, 703601, 722719, 742136, 761854, 781874,
    802198, 822827, 843762, 865005, 886556, 908417, 930590, 953075,
    975873, 998987, 1022417, 1046165, 1070231, 1094617, 1119324, 1144354,
    1169707, 1195384, 1221388, 1247718, 1274377, 1301365, 1328683, 1356333,
    1384316, 1412633, 1441285, 1470273, 1499598, 1529262, 1559265, 1589608,
    1620294, 1651322, 1682694, 1714411, 1746474, 1778884, 1811642, 1844750,
    1878208, 1912017, 1946178, 1980693, 2015563, 2050787, 2086369, 2122308,
    2158605, 2195262, 2232280, 2269659, 2307400, 2345506, 2383976, 2422811,
    2462013, 2501583, 2541521, 2581829, 2622507, 2663556, 2704978, 2746773,
    2788943, 2831487, 2874408, 2917706, 2961383, 3005438, 3049873, 3094689,
    3139887, 3185468, 3231432, 3277781, 3324515, 3371636, 3419144, 3467041,
    3515326, 3564001, 3613068, 3662526, 3712377, 3762621, 3813260, 3864294,
    3915725, 3967552, 4019778, 4072402, 4125426, 4178851, 4232677, 4286905,
    4341536, 4396572, 4452012, 4507858, 4564110, 4620770, 4677838, 4735315,
    4793202, 4851499, 4910208, 4969330, 5028865, 5088813, 5149177, 5209956,
    5271151, 5332764, 5394795, 5457245, 5520114, 5583404, 5647115, 5711248,
    5775804, 5840784, 5906188, 5972018, 6038273, 6104956, 6172066, 6239604,
    6307571, 6375969, 6444797, 6514056, 6583748, 6653873, 6724432, 6795425,
    6866853, 6938718, 7011019, 7083758, 7156935, 7230551, 7304607, 7379104,
    7454042, 7529422, 7605245, 7681511, 7758222, 7835378, 7912979, 7991027,
    8069523, 8148466, 8227858, 8307699, 8387990, 8468732, 8549926, 8631572,
    8713671, 8796224, 8879231, 8962694, 9046612, 9130987, 9215819, 9301109,
    9386857, 9473065, 9559734, 9646862, 9734453, 9822506, 9911021, 10000000,
];

/// Whether `c` is a hexadecimal digit, upper or lower case.
pub open spec fn is_hex_digit(c: char) -> bool {
    (48 <= c as int && c as int <= 57)  // '0'..='9'
    || (97 <= c as int && c as int <= 102)  // 'a'..='f'
    || (65 <= c as int && c as int <= 70)  // 'A'..='F'
}

/// The numeric value of a hexadecimal digit; case-insensitive.
pub open spec fn hex_digit_value(c: char) -> int {
    if 48 <= c as int && c as int <= 57 {
        c as int - 48
    } else if 97 <= c as int && c as int <= 102 {
        c as int - 87
    } else {
        c as int - 55
    }
}

/// Every character of `s` is a hexadecimal digit.
pub open spec fn all_hex(s: Seq<char>) -> bool {
    forall|i: int| 0 <= i < s.len() ==> is_hex_digit(s[i])
}

/// Shorthand expansion: each character of a 3-character triplet is doubled.
pub open spec fn expand_shorthand(s: Seq<char>) -> Seq<char>
    recommends
        s.len() == 3,
{
    seq![s[0], s[0], s[1], s[1], s[2], s[2]]
}

/// The byte denoted by a pair of hexadecimal digits.
pub open spec fn hex_byte(hi: char, lo: char) -> u8
    recommends
        is_hex_digit(hi),
        is_hex_digit(lo),
{
    (hex_digit_value(hi) * 16 + hex_digit_value(lo)) as u8
}

/// The color denoted by six hexadecimal digits, with the opaque-marker alpha.
pub open spec fn color_of_hex6(s: Seq<char>) -> Color
    recommends
        s.len() == 6,
        all_hex(s),
{
    Color {
        r: hex_byte(s[0], s[1]),
        g: hex_byte(s[2], s[3]),
        b: hex_byte(s[4], s[5]),
        a: OPAQUE_MARKER,
    }
}

/// What [`Color::from_hex`] returns for a given character sequence: only
/// lengths 3 and 6 are accepted, shorthand is expanded by doubling each
/// digit, and any non-hex character fails the parse.
pub open spec fn spec_from_hex(s: Seq<char>) -> Result<Color, ColorError> {
    if s.len() != 3 && s.len() != 6 {
        Err(ColorError::InvalidLength)
    } else {
        let six = if s.len() == 3 {
            expand_shorthand(s)
        } else {
            s
        };
        if all_hex(six) {
            Ok(color_of_hex6(six))
        } else {
            Err(ColorError::InvalidHex)
        }
    }
}

/// The numeric value of `c` as a hexadecimal digit, or `None` when `c` is
/// not one.
pub open spec fn spec_hex_digit(c: char) -> Option<u8> {
    if is_hex_digit(c) {
        Some(hex_digit_value(c) as u8)
    } else {
        None
    }
}

fn hex_digit(c: char) -> (r: Option<u8>)
    ensures
        r == spec_hex_digit(c),
        r matches Some(d) ==> d <= 15,
{
    let u = c as u32;
    if 48 <= u && u <= 57 {
        Some((u - 48) as u8)
    } else if 97 <= u && u <= 102 {
        Some((u - 87) as u8)
    } else if 65 <= u && u <= 70 {
        Some((u - 55) as u8)
    } else {
        None
    }
}

impl Color {
    /// A color is well formed when its alpha is the fixed opaque marker.
    pub open spec fn wf(self) -> bool {
        self.a == OPAQUE_MARKER
    }

    /// Parses a 3- or 6-character hexadecimal color string.  Any other
    /// length fails with `InvalidLength`; a non-hex character fails with
    /// `InvalidHex`; a 3-character string is expanded by doubling each
    /// digit.  The alpha channel is always the opaque marker.
    pub fn from_hex(hex: &str) -> (r: Result<Self, ColorError>)
        ensures
            r == spec_from_hex(hex@),
            r matches Ok(c) ==> c.wf(),
    {
        let n = hex.unicode_len();
        if n != 3 && n != 6 {
            return Err(ColorError::InvalidLength);
        }
        if n == 3 {
            let d0 = hex_digit(hex.get_char(0));
            let d1 = hex_digit(hex.get_char(1));
            let d2 = hex_digit(hex.get_char(2));
            match (d0, d1, d2) {
                (Some(h0), Some(h1), Some(h2)) => {
                    let c = Color {
                        r: h0 * 16 + h0,
                        g: h1 * 16 + h1,
                        b: h2 * 16 + h2,
                        a: OPAQUE_MARKER,
                    };
                    proof {
                        let six = expand_shorthand(hex@);
                        assert(all_hex(six));
                        assert(c == color_of_hex6(six));
                    }
                    Ok(c)
                },
                _ => {
                    proof {
                        let six = expand_shorthand(hex@);
                        assert(!all_hex(six));
                    }
                    Err(ColorError::InvalidHex)
                },
            }
        } else {
            let d0 = hex_digit(hex.get_char(0));
            let d1 = hex_digit(hex.get_char(1));
            let d2 = hex_digit(hex.get_char(2));
            let d3 = hex_digit(hex.get_char(3));
            let d4 = hex_digit(hex.get_char(4));
            let d5 = hex_digit(hex.get_char(5));
            match (d0, d1, d2, d3, d4, d5) {
                (Some(h0), Some(h1), Some(h2), Some(h3), Some(h4), Some(h5)) => {
                    let c = Color {
                        r: h0 * 16 + h1,
                        g: h2 * 16 + h3,
                        b: h4 * 16 + h5,
                        a: OPAQUE_MARKER,
                    };
                    proof {
                        assert(all_hex(hex@));
                        assert(c == color_of_hex6(hex@));
                    }
                    Ok(c)
                },
                _ => {
                    proof {
                        assert(!all_hex(hex@));
                    }
                    Err(ColorError::InvalidHex)
                },
            }
        }
    }
}

/// Law: hex parsing is case-insensitive.  Two strings of the same accepted
/// length whose characters are hex digits denoting the same values parse to
/// the same color; since `hex_digit_value` maps an upper-case digit and its
/// lower-case form to the same value, changing the case of any digit never
/// changes the parsed color.
pub proof fn lemma_from_hex_case_insensitive(s: Seq<char>, t: Seq<char>)
    requires
        s.len() == t.len(),
        s.len() == 3 || s.len() == 6,
        forall|i: int|
            0 <= i < s.len() ==> is_hex_digit(s[i]) && is_hex_digit(t[i]) && hex_digit_value(s[i])
                == hex_digit_value(t[i]),
    ensures
        spec_from_hex(s) == spec_from_hex(t),
{
    if s.len() == 3 {
        let es = expand_shorthand(s);
        let et = expand_shorthand(t);
        assert(all_hex(es));
        assert(all_hex(et));
        assert(color_of_hex6(es) == color_of_hex6(et));
    } else {
        assert(all_hex(s));
        assert(all_hex(t));
        assert(color_of_hex6(s) == color_of_hex6(t));
    }
}

/// Law: shorthand expansion preserves value.  A 3-character string parses
/// to exactly the color its doubled 6-character form parses to, and the two
/// fail alike when a character is not a hex digit.
pub proof fn lemma_from_hex_shorthand(s: Seq<char>)
    requires
        s.len() == 3,
    ensures
        spec_from_hex(s) == spec_from_hex(expand_shorthand(s)),
{
    let six = expand_shorthand(s);
    if all_hex(six) {
        assert(spec_from_hex(s) == Ok::<Color, ColorError>(color_of_hex6(six)));
    } else {
        assert(spec_from_hex(s) == Err::<Color, ColorError>(ColorError::InvalidHex));
    }
}

/// The linearized value of an 8-bit channel, scaled by 10^7.
pub open spec fn linear_value(c: u8) -> int {
    LINEAR_LUT[c as int] as int
}

/// Relative luminance scaled by 10^11: the CIE weights 0.2126, 0.7152 and
/// 0.0722 (here times 10^4) applied to the linearized channels.
pub open spec fn luminance_numerator(c: Color) -> int {
    2126 * linear_value(c.r) + 7152 * linear_value(c.g) + 722 * linear_value(c.b)
}

/// Classification threshold: lightness L* reaches 80 exactly when relative
/// luminance Y satisfies Y >= (96/116)^3 = 13824/24389 (the low branch of
/// the L* curve tops out at 216/27 = 8, far below 80, so only this cube
/// matters).  With Y scaled by 10^11 the comparison clears denominators.
pub open spec fn spec_perceived_luminance(c: Color) -> PerceivedLuminance {
    if luminance_numerator(c) * 24389 >= 13824 * 100000000000 {
        PerceivedLuminance::Light
    } else {
        PerceivedLuminance::Dark
    }
}

impl Color {
    /// Classifies this color as `Light` or `Dark` by perceptual lightness:
    /// channels are linearized through [`LINEAR_LUT`], combined into a
    /// relative luminance, and compared against the lightness-80 threshold.
    pub fn perceived_luminance(&self) -> (r: PerceivedLuminance)
        ensures
            r == spec_perceived_luminance(*self),
    {
        let lr = LINEAR_LUT[self.r as usize] as u64;
        let lg = LINEAR_LUT[self.g as usize] as u64;
        let lb = LINEAR_LUT[self.b as usize] as u64;
        let num: u64 = 2126 * lr + 7152 * lg + 722 * lb;
        if num * 24389 >= 1382400000000000 {
            PerceivedLuminance::Light
        } else {
            PerceivedLuminance::Dark
        }
    }
}

} // verus!
