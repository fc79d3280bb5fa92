//! Japanese character tables: half-width katakana and the voicing marks.
use vstd::prelude::*;

verus! {

/// The half-width voicing mark `ﾞ`.
pub const DAKUTEN_HALF: char = '\u{FF9E}';
/// The full-width voicing mark `゛`.
pub const DAKUTEN_FULL: char = '\u{309B}';
/// The combining voicing mark.
pub const DAKUTEN_COMB: char = '\u{3099}';
/// The half-width semi-voicing mark `ﾟ`.
pub const HANDAKUTEN_HALF: char = '\u{FF9F}';
/// The full-width semi-voicing mark `゜`.
pub const HANDAKUTEN_FULL: char = '\u{309C}';
/// The combining semi-voicing mark.
pub const HANDAKUTEN_COMB: char = '\u{309A}';

/// Whether `c` is a half-width katakana character or half-width Japanese
/// punctuation (`U+FF61` to `U+FF9F`).
pub open spec fn spec_is_halfwidth(c: char) -> bool {
    '\u{FF61}' <= c && c <= '\u{FF9F}'
}

/// Whether `c` is a half-width katakana character or half-width Japanese
/// punctuation.
pub fn is_halfwidth(c: char) -> (r: bool)
    ensures
        r == spec_is_halfwidth(c),
{
    '\u{FF61}' <= c && c <= '\u{FF9F}'
}

/// Whether `c` is a voicing or semi-voicing mark, in any of its forms.
pub open spec fn spec_is_dakuten(c: char) -> bool {
    c == DAKUTEN_HALF || c == DAKUTEN_FULL || c == DAKUTEN_COMB || c == HANDAKUTEN_HALF
        || c == HANDAKUTEN_FULL || c == HANDAKUTEN_COMB
}

/// Whether `c` is a voicing or semi-voicing mark, in any of its forms.
pub fn is_dakuten(c: char) -> (r: bool)
    ensures
        r == spec_is_dakuten(c),
{
    c == DAKUTEN_HALF || c == DAKUTEN_FULL || c == DAKUTEN_COMB || c == HANDAKUTEN_HALF
        || c == HANDAKUTEN_FULL || c == HANDAKUTEN_COMB
}

/// The full-width form of a half-width character.
pub open spec fn spec_half_width(c: char) -> Option<char> {
    if c == '\u{FF61}' {
        Some('\u{3002}')
    } else if c == '\u{FF62}' {
        Some('\u{300C}')
    } else if c == '\u{FF63}' {
        Some('\u{300D}')
    } else if c == '\u{FF64}' {
        Some('\u{3001}')
    } else if c == '\u{FF65}' {
        Some('\u{30FB}')
    } else if c == '\u{FF66}' {
        Some('\u{30F2}')
    } else if c == '\u{FF67}' {
        Some('\u{30A1}')
    } else if c == '\u{FF68}' {
        Some('\u{30A3}')
    } else if c == '\u{FF69}' {
        Some('\u{30A5}')
    } else if c == '\u{FF6A}' {
        Some('\u{30A7}')
    } else if c == '\u{FF6B}' {
        Some('\u{30A9}')
    } else if c == '\u{FF6C}' {
        Some('\u{30E3}')
    } else if c == '\u{FF6D}' {
        Some('\u{30E5}')
    } else if c == '\u{FF6E}' {
        Some('\u{30E7}')
    } else if c == '\u{FF6F}' {
        Some('\u{30C3}')
    } else if c == '\u{FF70}' {
        Some('\u{30FC}')
    } else if c == '\u{FF71}' {
        Some('\u{30A2}')
    } else if c == '\u{FF72}' {
        Some('\u{30A4}')
    } else if c == '\u{FF73}' {
        Some('\u{30A6}')
    } else if c == '\u{FF74}' {
        Some('\u{30A8}')
    } else if c == '\u{FF75}' {
        Some('\u{30AA}')
    } else if c == '\u{FF76}' {
        Some('\u{30AB}')
    } else if c == '\u{FF77}' {
        Some('\u{30AD}')
    } else if c == '\u{FF78}' {
        Some('\u{30AF}')
    } else if c == '\u{FF79}' {
        Some('\u{30B1}')
    } else if c == '\u{FF7A}' {
        Some('\u{30B3}')
    } else if c == '\u{FF7B}' {
        Some('\u{30B5}')
    } else if c == '\u{FF7C}' {
        Some('\u{30B7}')
    } else if c == '\u{FF7D}' {
        Some('\u{30B9}')
    } else if c == '\u{FF7E}' {
        Some('\u{30BB}')
    } else if c == '\u{FF7F}' {
        Some('\u{30BD}')
    } else if c == '\u{FF80}' {
        Some('\u{30BF}')
    } else if c == '\u{FF81}' {
        Some('\u{30C1}')
    } else if c == '\u{FF82}' {
        Some('\u{30C4}')
    } else if c == '\u{FF83}' {
        Some('\u{30C6}')
    } else if c == '\u{FF84}' {
        Some('\u{30C8}')
    } else if c == '\u{FF85}' {
        Some('\u{30CA}')
    } else if c == '\u{FF86}' {
        Some('\u{30CB}')
    } else if c == '\u{FF87}' {
        Some('\u{30CC}')
    } else if c == '\u{FF88}' {
        Some('\u{30CD}')
    } else if c == '\u{FF89}' {
        Some('\u{30CE}')
    } else if c == '\u{FF8A}' {
        Some('\u{30CF}')
    } else if c == '\u{FF8B}' {
        Some('\u{30D2}')
    } else if c == '\u{FF8C}' {
        Some('\u{30D5}')
    } else if c == '\u{FF8D}' {
        Some('\u{30D8}')
    } else if c == '\u{FF8E}' {
        Some('\u{30DB}')
    } else if c == '\u{FF8F}' {
        Some('\u{30DE}')
    } else if c == '\u{FF90}' {
        Some('\u{30DF}')
    } else if c == '\u{FF91}' {
        Some('\u{30E0}')
    } else if c == '\u{FF92}' {
        Some('\u{30E1}')
    } else if c == '\u{FF93}' {
        Some('\u{30E2}')
    } else if c == '\u{FF94}' {
        Some('\u{30E4}')
    } else if c == '\u{FF95}' {
        Some('\u{30E6}')
    } else if c == '\u{FF96}' {
        Some('\u{30E8}')
    } else if c == '\u{FF97}' {
        Some('\u{30E9}')
    } else if c == '\u{FF98}' {
        Some('\u{30EA}')
    } else if c == '\u{FF99}' {
        Some('\u{30EB}')
    } else if c == '\u{FF9A}' {
        Some('\u{30EC}')
    } else if c == '\u{FF9B}' {
        Some('\u{30ED}')
    } else if c == '\u{FF9C}' {
        Some('\u{30EF}')
    } else if c == '\u{FF9D}' {
        Some('\u{30F3}')
    } else if c == '\u{FF9E}' {
        Some('\u{3099}')
    } else if c == '\u{FF9F}' {
        Some('\u{309A}')
    } else {
        None
    }
}

/// The full-width form of a half-width character.
pub fn half_width(c: char) -> (r: Option<char>)
    ensures
        r == spec_half_width(c),
{
    if c == '\u{FF61}' {
        Some('\u{3002}')
    } else if c == '\u{FF62}' {
        Some('\u{300C}')
    } else if c == '\u{FF63}' {
        Some('\u{300D}')
    } else if c == '\u{FF64}' {
        Some('\u{3001}')
    } else if c == '\u{FF65}' {
        Some('\u{30FB}')
    } else if c == '\u{FF66}' {
        Some('\u{30F2}')
    } else if c == '\u{FF67}' {
        Some('\u{30A1}')
    } else if c == '\u{FF68}' {
        Some('\u{30A3}')
    } else if c == '\u{FF69}' {
        Some('\u{30A5}')
    } else if c == '\u{FF6A}' {
        Some('\u{30A7}')
    } else if c == '\u{FF6B}' {
        Some('\u{30A9}')
    } else if c == '\u{FF6C}' {
        Some('\u{30E3}')
    } else if c == '\u{FF6D}' {
        Some('\u{30E5}')
    } else if c == '\u{FF6E}' {
        Some('\u{30E7}')
    } else if c == '\u{FF6F}' {
        Some('\u{30C3}')
    } else if c == '\u{FF70}' {
        Some('\u{30FC}')
    } else if c == '\u{FF71}' {
        Some('\u{30A2}')
    } else if c == '\u{FF72}' {
        Some('\u{30A4}')
    } else if c == '\u{FF73}' {
        Some('\u{30A6}')
    } else if c == '\u{FF74}' {
        Some('\u{30A8}')
    } else if c == '\u{FF75}' {
        Some('\u{30AA}')
    } else if c == '\u{FF76}' {
        Some('\u{30AB}')
    } else if c == '\u{FF77}' {
        Some('\u{30AD}')
    } else if c == '\u{FF78}' {
        Some('\u{30AF}')
    } else if c == '\u{FF79}' {
        Some('\u{30B1}')
    } else if c == '\u{FF7A}' {
        Some('\u{30B3}')
    } else if c == '\u{FF7B}' {
        Some('\u{30B5}')
    } else if c == '\u{FF7C}' {
        Some('\u{30B7}')
    } else if c == '\u{FF7D}' {
        Some('\u{30B9}')
    } else if c == '\u{FF7E}' {
        Some('\u{30BB}')
    } else if c == '\u{FF7F}' {
        Some('\u{30BD}')
    } else if c == '\u{FF80}' {
        Some('\u{30BF}')
    } else if c == '\u{FF81}' {
        Some('\u{30C1}')
    } else if c == '\u{FF82}' {
        Some('\u{30C4}')
    } else if c == '\u{FF83}' {
        Some('\u{30C6}')
    } else if c == '\u{FF84}' {
        Some('\u{30C8}')
    } else if c == '\u{FF85}' {
        Some('\u{30CA}')
    } else if c == '\u{FF86}' {
        Some('\u{30CB}')
    } else if c == '\u{FF87}' {
        Some('\u{30CC}')
    } else if c == '\u{FF88}' {
        Some('\u{30CD}')
    } else if c == '\u{FF89}' {
        Some('\u{30CE}')
    } else if c == '\u{FF8A}' {
        Some('\u{30CF}')
    } else if c == '\u{FF8B}' {
        Some('\u{30D2}')
    } else if c == '\u{FF8C}' {
        Some('\u{30D5}')
    } else if c == '\u{FF8D}' {
        Some('\u{30D8}')
    } else if c == '\u{FF8E}' {
        Some('\u{30DB}')
    } else if c == '\u{FF8F}' {
        Some('\u{30DE}')
    } else if c == '\u{FF90}' {
        Some('\u{30DF}')
    } else if c == '\u{FF91}' {
        Some('\u{30E0}')
    } else if c == '\u{FF92}' {
        Some('\u{30E1}')
    } else if c == '\u{FF93}' {
        Some('\u{30E2}')
    } else if c == '\u{FF94}' {
        Some('\u{30E4}')
    } else if c == '\u{FF95}' {
        Some('\u{30E6}')
    } else if c == '\u{FF96}' {
        Some('\u{30E8}')
    } else if c == '\u{FF97}' {
        Some('\u{30E9}')
    } else if c == '\u{FF98}' {
        Some('\u{30EA}')
    } else if c == '\u{FF99}' {
        Some('\u{30EB}')
    } else if c == '\u{FF9A}' {
        Some('\u{30EC}')
    } else if c == '\u{FF9B}' {
        Some('\u{30ED}')
    } else if c == '\u{FF9C}' {
        Some('\u{30EF}')
    } else if c == '\u{FF9D}' {
        Some('\u{30F3}')
    } else if c == '\u{FF9E}' {
        Some('\u{3099}')
    } else if c == '\u{FF9F}' {
        Some('\u{309A}')
    } else {
        None
    }
}

/// The voiced full-width form of a half-width katakana followed by `ﾞ`.
pub open spec fn spec_half_width_dakuten(c: char) -> Option<char> {
    if c == '\u{FF66}' {
        Some('\u{30FA}')
    } else if c == '\u{FF73}' {
        Some('\u{30F4}')
    } else if c == '\u{FF76}' {
        Some('\u{30AC}')
    } else if c == '\u{FF77}' {
        Some('\u{30AE}')
    } else if c == '\u{FF78}' {
        Some('\u{30B0}')
    } else if c == '\u{FF79}' {
        Some('\u{30B2}')
    } else if c == '\u{FF7A}' {
        Some('\u{30B4}')
    } else if c == '\u{FF7B}' {
        Some('\u{30B6}')
    } else if c == '\u{FF7C}' {
        Some('\u{30B8}')
    } else if c == '\u{FF7D}' {
        Some('\u{30BA}')
    } else if c == '\u{FF7E}' {
        Some('\u{30BC}')
    } else if c == '\u{FF7F}' {
        Some('\u{30BE}')
    } else if c == '\u{FF80}' {
        Some('\u{30C0}')
    } else if c == '\u{FF81}' {
        Some('\u{30C2}')
    } else if c == '\u{FF82}' {
        Some('\u{30C5}')
    } else if c == '\u{FF83}' {
        Some('\u{30C7}')
    } else if c == '\u{FF84}' {
        Some('\u{30C9}')
    } else if c == '\u{FF8A}' {
        Some('\u{30D0}')
    } else if c == '\u{FF8B}' {
        Some('\u{30D3}')
    } else if c == '\u{FF8C}' {
        Some('\u{30D6}')
    } else if c == '\u{FF8D}' {
        Some('\u{30D9}')
    } else if c == '\u{FF8E}' {
        Some('\u{30DC}')
    } else if c == '\u{FF9C}' {
        Some('\u{30F7}')
    } else {
        None
    }
}

/// The voiced full-width form of a half-width katakana followed by `ﾞ`.
pub fn half_width_dakuten(c: char) -> (r: Option<char>)
    ensures
        r == spec_half_width_dakuten(c),
{
    if c == '\u{FF66}' {
        Some('\u{30FA}')
    } else if c == '\u{FF73}' {
        Some('\u{30F4}')
    } else if c == '\u{FF76}' {
        Some('\u{30AC}')
    } else if c == '\u{FF77}' {
        Some('\u{30AE}')
    } else if c == '\u{FF78}' {
        Some('\u{30B0}')
    } else if c == '\u{FF79}' {
        Some('\u{30B2}')
    } else if c == '\u{FF7A}' {
        Some('\u{30B4}')
    } else if c == '\u{FF7B}' {
        Some('\u{30B6}')
    } else if c == '\u{FF7C}' {
        Some('\u{30B8}')
    } else if c == '\u{FF7D}' {
        Some('\u{30BA}')
    } else if c == '\u{FF7E}' {
        Some('\u{30BC}')
    } else if c == '\u{FF7F}' {
        Some('\u{30BE}')
    } else if c == '\u{FF80}' {
        Some('\u{30C0}')
    } else if c == '\u{FF81}' {
        Some('\u{30C2}')
    } else if c == '\u{FF82}' {
        Some('\u{30C5}')
    } else if c == '\u{FF83}' {
        Some('\u{30C7}')
    } else if c == '\u{FF84}' {
        Some('\u{30C9}')
    } else if c == '\u{FF8A}' {
        Some('\u{30D0}')
    } else if c == '\u{FF8B}' {
        Some('\u{30D3}')
    } else if c == '\u{FF8C}' {
        Some('\u{30D6}')
    } else if c == '\u{FF8D}' {
        Some('\u{30D9}')
    } else if c == '\u{FF8E}' {
        Some('\u{30DC}')
    } else if c == '\u{FF9C}' {
        Some('\u{30F7}')
    } else {
        None
    }
}

/// The semi-voiced full-width form of a half-width katakana followed by `ﾟ`.
pub open spec fn spec_half_width_handakuten(c: char) -> Option<char> {
    if c == '\u{FF8A}' {
        Some('\u{30D1}')
    } else if c == '\u{FF8B}' {
        Some('\u{30D4}')
    } else if c == '\u{FF8C}' {
        Some('\u{30D7}')
    } else if c == '\u{FF8D}' {
        Some('\u{30DA}')
    } else if c == '\u{FF8E}' {
        Some('\u{30DD}')
    } else {
        None
    }
}

/// The semi-voiced full-width form of a half-width katakana followed by `ﾟ`.
pub fn half_width_handakuten(c: char) -> (r: Option<char>)
    ensures
        r == spec_half_width_handakuten(c),
{
    if c == '\u{FF8A}' {
        Some('\u{30D1}')
    } else if c == '\u{FF8B}' {
        Some('\u{30D4}')
    } else if c == '\u{FF8C}' {
        Some('\u{30D7}')
    } else if c == '\u{FF8D}' {
        Some('\u{30DA}')
    } else if c == '\u{FF8E}' {
        Some('\u{30DD}')
    } else {
        None
    }
}

/// The voiced form of a kana followed by a voicing mark.
pub open spec fn spec_dakuten(c: char) -> Option<char> {
    if c == '\u{3046}' {
        Some('\u{3094}')
    } else if c == '\u{304B}' {
        Some('\u{304C}')
    } else if c == '\u{304D}' {
        Some('\u{304E}')
    } else if c == '\u{304F}' {
        Some('\u{3050}')
    } else if c == '\u{3051}' {
        Some('\u{3052}')
    } else if c == '\u{3053}' {
        Some('\u{3054}')
    } else if c == '\u{3055}' {
        Some('\u{3056}')
    } else if c == '\u{3057}' {
        Some('\u{3058}')
    } else if c == '\u{3059}' {
        Some('\u{305A}')
    } else if c == '\u{305B}' {
        Some('\u{305C}')
    } else if c == '\u{305D}' {
        Some('\u{305E}')
    } else if c == '\u{305F}' {
        Some('\u{3060}')
    } else if c == '\u{3061}' {
        Some('\u{3062}')
    } else if c == '\u{3064}' {
        Some('\u{3065}')
    } else if c == '\u{3066}' {
        Some('\u{3067}')
    } else if c == '\u{3068}' {
        Some('\u{3069}')
    } else if c == '\u{306F}' {
        Some('\u{3070}')
    } else if c == '\u{3072}' {
        Some('\u{3073}')
    } else if c == '\u{3075}' {
        Some('\u{3076}')
    } else if c == '\u{3078}' {
        Some('\u{3079}')
    } else if c == '\u{307B}' {
        Some('\u{307C}')
    } else if c == '\u{309D}' {
        Some('\u{309E}')
    } else if c == '\u{30A6}' {
        Some('\u{30F4}')
    } else if c == '\u{30AB}' {
        Some('\u{30AC}')
    } else if c == '\u{30AD}' {
        Some('\u{30AE}')
    } else if c == '\u{30AF}' {
        Some('\u{30B0}')
    } else if c == '\u{30B1}' {
        Some('\u{30B2}')
    } else if c == '\u{30B3}' {
        Some('\u{30B4}')
    } else if c == '\u{30B5}' {
        Some('\u{30B6}')
    } else if c == '\u{30B7}' {
        Some('\u{30B8}')
    } else if c == '\u{30B9}' {
        Some('\u{30BA}')
    } else if c == '\u{30BB}' {
        Some('\u{30BC}')
    } else if c == '\u{30BD}' {
        Some('\u{30BE}')
    } else if c == '\u{30BF}' {
        Some('\u{30C0}')
    } else if c == '\u{30C1}' {
        Some('\u{30C2}')
    } else if c == '\u{30C4}' {
        Some('\u{30C5}')
    } else if c == '\u{30C6}' {
        Some('\u{30C7}')
    } else if c == '\u{30C8}' {
        Some('\u{30C9}')
    } else if c == '\u{30CF}' {
        Some('\u{30D0}')
    } else if c == '\u{30D2}' {
        Some('\u{30D3}')
    } else if c == '\u{30D5}' {
        Some('\u{30D6}')
    } else if c == '\u{30D8}' {
        Some('\u{30D9}')
    } else if c == '\u{30DB}' {
        Some('\u{30DC}')
    } else if c == '\u{30EF}' {
        Some('\u{30F7}')
    } else if c == '\u{30F0}' {
        Some('\u{30F8}')
    } else if c == '\u{30F1}' {
        Some('\u{30F9}')
    } else if c == '\u{30F2}' {
        Some('\u{30FA}')
    } else if c == '\u{30FD}' {
        Some('\u{30FE}')
    } else {
        None
    }
}

/// The voiced form of a kana followed by a voicing mark.
pub fn dakuten(c: char) -> (r: Option<char>)
    ensures
        r == spec_dakuten(c),
{
    if c == '\u{3046}' {
        Some('\u{3094}')
    } else if c == '\u{304B}' {
        Some('\u{304C}')
    } else if c == '\u{304D}' {
        Some('\u{304E}')
    } else if c == '\u{304F}' {
        Some('\u{3050}')
    } else if c == '\u{3051}' {
        Some('\u{3052}')
    } else if c == '\u{3053}' {
        Some('\u{3054}')
    } else if c == '\u{3055}' {
        Some('\u{3056}')
    } else if c == '\u{3057}' {
        Some('\u{3058}')
    } else if c == '\u{3059}' {
        Some('\u{305A}')
    } else if c == '\u{305B}' {
        Some('\u{305C}')
    } else if c == '\u{305D}' {
        Some('\u{305E}')
    } else if c == '\u{305F}' {
        Some('\u{3060}')
    } else if c == '\u{3061}' {
        Some('\u{3062}')
    } else if c == '\u{3064}' {
        Some('\u{3065}')
    } else if c == '\u{3066}' {
        Some('\u{3067}')
    } else if c == '\u{3068}' {
        Some('\u{3069}')
    } else if c == '\u{306F}' {
        Some('\u{3070}')
    } else if c == '\u{3072}' {
        Some('\u{3073}')
    } else if c == '\u{3075}' {
        Some('\u{3076}')
    } else if c == '\u{3078}' {
        Some('\u{3079}')
    } else if c == '\u{307B}' {
        Some('\u{307C}')
    } else if c == '\u{309D}' {
        Some('\u{309E}')
    } else if c == '\u{30A6}' {
        Some('\u{30F4}')
    } else if c == '\u{30AB}' {
        Some('\u{30AC}')
    } else if c == '\u{30AD}' {
        Some('\u{30AE}')
    } else if c == '\u{30AF}' {
        Some('\u{30B0}')
    } else if c == '\u{30B1}' {
        Some('\u{30B2}')
    } else if c == '\u{30B3}' {
        Some('\u{30B4}')
    } else if c == '\u{30B5}' {
        Some('\u{30B6}')
    } else if c == '\u{30B7}' {
        Some('\u{30B8}')
    } else if c == '\u{30B9}' {
        Some('\u{30BA}')
    } else if c == '\u{30BB}' {
        Some('\u{30BC}')
    } else if c == '\u{30BD}' {
        Some('\u{30BE}')
    } else if c == '\u{30BF}' {
        Some('\u{30C0}')
    } else if c == '\u{30C1}' {
        Some('\u{30C2}')
    } else if c == '\u{30C4}' {
        Some('\u{30C5}')
    } else if c == '\u{30C6}' {
        Some('\u{30C7}')
    } else if c == '\u{30C8}' {
        Some('\u{30C9}')
    } else if c == '\u{30CF}' {
        Some('\u{30D0}')
    } else if c == '\u{30D2}' {
        Some('\u{30D3}')
    } else if c == '\u{30D5}' {
        Some('\u{30D6}')
    } else if c == '\u{30D8}' {
        Some('\u{30D9}')
    } else if c == '\u{30DB}' {
        Some('\u{30DC}')
    } else if c == '\u{30EF}' {
        Some('\u{30F7}')
    } else if c == '\u{30F0}' {
        Some('\u{30F8}')
    } else if c == '\u{30F1}' {
        Some('\u{30F9}')
    } else if c == '\u{30F2}' {
        Some('\u{30FA}')
    } else if c == '\u{30FD}' {
        Some('\u{30FE}')
    } else {
        None
    }
}

/// The semi-voiced form of a kana followed by a semi-voicing mark.
pub open spec fn spec_handakuten(c: char) -> Option<char> {
    if c == '\u{306F}' {
        Some('\u{3071}')
    } else if c == '\u{3072}' {
        Some('\u{3074}')
    } else if c == '\u{3075}' {
        Some('\u{3077}')
    } else if c == '\u{3078}' {
        Some('\u{307A}')
    } else if c == '\u{307B}' {
        Some('\u{307D}')
    } else if c == '\u{30CF}' {
        Some('\u{30D1}')
    } else if c == '\u{30D2}' {
        Some('\u{30D4}')
    } else if c == '\u{30D5}' {
        Some('\u{30D7}')
    } else if c == '\u{30D8}' {
        Some('\u{30DA}')
    } else if c == '\u{30DB}' {
        Some('\u{30DD}')
    } else {
        None
    }
}

/// The semi-voiced form of a kana followed by a semi-voicing mark.
pub fn handakuten(c: char) -> (r: Option<char>)
    ensures
        r == spec_handakuten(c),
{
    if c == '\u{306F}' {
        Some('\u{3071}')
    } else if c == '\u{3072}' {
        Some('\u{3074}')
    } else if c == '\u{3075}' {
        Some('\u{3077}')
    } else if c == '\u{3078}' {
        Some('\u{307A}')
    } else if c == '\u{307B}' {
        Some('\u{307D}')
    } else if c == '\u{30CF}' {
        Some('\u{30D1}')
    } else if c == '\u{30D2}' {
        Some('\u{30D4}')
    } else if c == '\u{30D5}' {
        Some('\u{30D7}')
    } else if c == '\u{30D8}' {
        Some('\u{30DA}')
    } else if c == '\u{30DB}' {
        Some('\u{30DD}')
    } else {
        None
    }
}

} // verus!
