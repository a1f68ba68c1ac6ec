//! Hex color handling for the heatmap: parsing `#RRGGBB` strings with a
//! per-channel mid-gray default, the empty-cell palette, and the fallback
//! colors for failed mood inference.

use vstd::prelude::*;

verus! {

/// Mid-gray, the value a malformed color channel falls back to.
pub const GRAY_CHANNEL: u8 = 128;

/// Whether `c` is a hexadecimal digit.
pub open spec fn spec_is_hex_digit(c: char) -> bool {
    (48 <= c as int <= 57)  // '0'..'9'
    || (97 <= c as int <= 102)  // 'a'..'f'
    || (65 <= c as int <= 70)  // 'A'..'F'
}

/// Value of a hexadecimal digit (meaningful when `spec_is_hex_digit`).
pub open spec fn spec_hex_val(c: char) -> int {
    if 48 <= c as int <= 57 {
        c as int - 48
    } else if 97 <= c as int <= 102 {
        c as int - 87
    } else {
        c as int - 55
    }
}

/// A hex string with every leading `#` removed.
pub open spec fn spec_strip_hash(s: Seq<char>) -> Seq<char>
    decreases s.len(),
{
    if s.len() > 0 && s[0] == '#' {
        spec_strip_hash(s.drop_first())
    } else {
        s
    }
}

/// Channel `k` (0 = red, 1 = green, 2 = blue) of a stripped hex string:
/// its two digits' value, or mid-gray when either character is missing or
/// not hexadecimal.
pub open spec fn spec_channel(h: Seq<char>, k: int) -> int {
    let i = 2 * k;
    if i + 1 < h.len() && spec_is_hex_digit(h[i]) && spec_is_hex_digit(h[i + 1]) {
        16 * spec_hex_val(h[i]) + spec_hex_val(h[i + 1])
    } else {
        GRAY_CHANNEL as int
    }
}

/// The RGB triple a color string denotes, each channel defaulting
/// independently to mid-gray on malformed input.
pub open spec fn spec_hex_to_rgb(s: Seq<char>) -> (int, int, int) {
    let h = spec_strip_hash(s);
    (spec_channel(h, 0), spec_channel(h, 1), spec_channel(h, 2))
}

fn hex_digit(c: char) -> (r: Option<u8>)
    ensures
        r is Some <==> spec_is_hex_digit(c),
        r matches Some(v) ==> v as int == spec_hex_val(c) && v < 16,
{
    let v = c as u32;
    if 48 <= v && v <= 57 {
        Some((v - 48) as u8)
    } else if 97 <= v && v <= 102 {
        Some((v - 87) as u8)
    } else if 65 <= v && v <= 70 {
        Some((v - 55) as u8)
    } else {
        None
    }
}

/// Leading `#` characters run through index `j`, and no further, so the
/// stripped string is the tail from `j`.
proof fn lemma_strip_hash_skip(s: Seq<char>, j: int)
    requires
        0 <= j <= s.len(),
        forall|k: int| 0 <= k < j ==> s[k] == '#',
        j == s.len() || s[j] != '#',
    ensures
        spec_strip_hash(s) =~= s.subrange(j, s.len() as int),
    decreases j,
{
    if j == 0 {
        assert(spec_strip_hash(s) =~= s.subrange(0, s.len() as int));
    } else {
        lemma_strip_hash_skip(s.drop_first(), j - 1);
        assert(s.drop_first().subrange(j - 1, s.drop_first().len() as int) =~= s.subrange(
            j,
            s.len() as int,
        ));
    }
}

fn channel(s: &str, st: usize, n: usize, k: usize) -> (v: u8)
    requires
        st <= n,
        n == s@.len(),
        k <= 2,
    ensures
        v as int == spec_channel(s@.subrange(st as int, n as int), k as int),
{
    let ghost h = s@.subrange(st as int, n as int);
    if n - st >= 2 * k + 2 {
        let hi = hex_digit(s.get_char(st + 2 * k));
        let lo = hex_digit(s.get_char(st + 2 * k + 1));
        proof {
            assert(h[2 * k] == s@[st + 2 * k]);
            assert(h[2 * k + 1] == s@[st + 2 * k + 1]);
        }
        match (hi, lo) {
            (Some(a), Some(b)) => 16 * a + b,
            _ => GRAY_CHANNEL,
        }
    } else {
        GRAY_CHANNEL
    }
}

/// Parses a color string as `#RRGGBB`. Any leading `#` characters are
/// stripped; each channel independently falls back to mid-gray when its
/// two characters are missing or not hexadecimal, so a malformed string
/// yields (128, 128, 128) rather than a failure.
pub fn hex_to_rgb(s: &str) -> (rgb: (u8, u8, u8))
    ensures
        (rgb.0 as int, rgb.1 as int, rgb.2 as int) == spec_hex_to_rgb(s@),
{
    let n = s.unicode_len();
    let mut st: usize = 0;
    while st < n && s.get_char(st) == '#'
        invariant
            st <= n,
            n == s@.len(),
            forall|k: int| 0 <= k < st ==> s@[k] == '#',
        decreases n - st,
    {
        st = st + 1;
    }
    proof {
        lemma_strip_hash_skip(s@, st as int);
    }
    let r = channel(s, st, n, 0);
    let g = channel(s, st, n, 1);
    let b = channel(s, st, n, 2);
    (r, g, b)
}

/// A color string never fails to render, and malformation is confined:
/// every channel that cannot supply two hexadecimal digits — because the
/// string (after its leading hashes) is too short or a character is not
/// hexadecimal — renders as mid-gray. A string malformed in all three
/// channels, such as one with the wrong length or stray characters
/// throughout, therefore renders as (128, 128, 128).
pub proof fn lemma_malformed_channel_is_gray(s: Seq<char>, k: int)
    requires
        0 <= k <= 2,
        ({
            let h = spec_strip_hash(s);
            2 * k + 1 >= h.len() || !spec_is_hex_digit(h[2 * k]) || !spec_is_hex_digit(
                h[2 * k + 1],
            )
        }),
    ensures
        k == 0 ==> spec_hex_to_rgb(s).0 == GRAY_CHANNEL as int,
        k == 1 ==> spec_hex_to_rgb(s).1 == GRAY_CHANNEL as int,
        k == 2 ==> spec_hex_to_rgb(s).2 == GRAY_CHANNEL as int,
{
}

/// Whether `c` carries the Unicode `White_Space` property: the set
/// `str::trim` removes. Beyond the ASCII whitespace controls and the
/// space, that is next-line, the no-break and ogham spaces, the en/em
/// quad to hair-space range, the line and paragraph separators, and the
/// narrow no-break, mathematical and ideographic spaces.
pub open spec fn spec_is_space(c: char) -> bool {
    (9 <= c as int <= 13)  // tab, LF, vertical tab, form feed, CR
    || c as int == 32  // space
    || c as int == 0x85  // next line
    || c as int == 0xA0  // no-break space
    || c as int == 0x1680  // ogham space mark
    || (0x2000 <= c as int <= 0x200A)  // en quad .. hair space
    || c as int == 0x2028  // line separator
    || c as int == 0x2029  // paragraph separator
    || c as int == 0x202F  // narrow no-break space
    || c as int == 0x205F  // medium mathematical space
    || c as int == 0x3000  // ideographic space
}

/// `s` without its leading whitespace.
pub open spec fn spec_trim_front(s: Seq<char>) -> Seq<char>
    decreases s.len(),
{
    if s.len() > 0 && spec_is_space(s[0]) {
        spec_trim_front(s.drop_first())
    } else {
        s
    }
}

/// `s` without its trailing whitespace.
pub open spec fn spec_trim_back(s: Seq<char>) -> Seq<char>
    decreases s.len(),
{
    if s.len() > 0 && spec_is_space(s.last()) {
        spec_trim_back(s.drop_last())
    } else {
        s
    }
}

/// `s` without leading and trailing whitespace.
pub open spec fn spec_trim(s: Seq<char>) -> Seq<char> {
    spec_trim_back(spec_trim_front(s))
}

/// Whitespace runs through index `i` and no further, so trimming the
/// front keeps exactly the tail from `i`.
proof fn lemma_trim_front_skip(s: Seq<char>, i: int)
    requires
        0 <= i <= s.len(),
        forall|k: int| 0 <= k < i ==> spec_is_space(s[k]),
        i == s.len() || !spec_is_space(s[i]),
    ensures
        spec_trim_front(s) =~= s.subrange(i, s.len() as int),
    decreases i,
{
    if i == 0 {
        assert(spec_trim_front(s) =~= s.subrange(0, s.len() as int));
    } else {
        lemma_trim_front_skip(s.drop_first(), i - 1);
        assert(s.drop_first().subrange(i - 1, s.drop_first().len() as int) =~= s.subrange(
            i,
            s.len() as int,
        ));
    }
}

/// Trailing whitespace starts at index `j` and no earlier, so trimming
/// the back keeps exactly the prefix up to `j`.
proof fn lemma_trim_back_skip(s: Seq<char>, j: int)
    requires
        0 <= j <= s.len(),
        forall|k: int| j <= k < s.len() ==> spec_is_space(s[k]),
        j == 0 || !spec_is_space(s[j - 1]),
    ensures
        spec_trim_back(s) =~= s.subrange(0, j),
    decreases s.len() - j,
{
    if j < s.len() {
        lemma_trim_back_skip(s.drop_last(), j);
        assert(s.drop_last().subrange(0, j) =~= s.subrange(0, j));
    } else if s.len() > 0 {
        assert(!spec_is_space(s.last()));
        assert(spec_trim_back(s) =~= s.subrange(0, j));
    }
}

fn is_space(c: char) -> (r: bool)
    ensures
        r == spec_is_space(c),
{
    let v = c as u32;
    (9 <= v && v <= 13) || v == 32 || v == 0x85 || v == 0xA0 || v == 0x1680 || (0x2000 <= v && v
        <= 0x200A) || v == 0x2028 || v == 0x2029 || v == 0x202F || v == 0x205F || v == 0x3000
}

/// Copies `s` without its leading and trailing whitespace.
pub fn trim_str(s: &str) -> (r: String)
    ensures
        r@ == spec_trim(s@),
{
    let n = s.unicode_len();
    let mut i: usize = 0;
    while i < n && is_space(s.get_char(i))
        invariant
            i <= n,
            n == s@.len(),
            forall|k: int| 0 <= k < i ==> spec_is_space(s@[k]),
        decreases n - i,
    {
        i = i + 1;
    }
    proof {
        lemma_trim_front_skip(s@, i as int);
    }
    let mut j: usize = n;
    while j > i && is_space(s.get_char(j - 1))
        invariant
            i <= j <= n,
            n == s@.len(),
            i < n ==> !spec_is_space(s@[i as int]),
            forall|k: int| j <= k < n ==> spec_is_space(s@[k]),
        decreases j,
    {
        j = j - 1;
    }
    let r = s.substring_char(i, j).to_owned();
    proof {
        let front = s@.subrange(i as int, n as int);
        lemma_trim_back_skip(front, j - i);
        assert(front.subrange(0, j - i) =~= s@.subrange(i as int, j as int));
    }
    r
}

/// The color text taken from a chat reply: its trimmed content, or the
/// default light-green `#9BE9A8` when the reply carries no usable text.
pub fn normalize_color_reply(reply: Option<String>) -> (r: String)
    ensures
        match reply {
            Some(t) => r@ == spec_trim(t@),
            None => r@ == "#9BE9A8"@,
        },
{
    match reply {
        Some(t) => trim_str(t.as_str()),
        None => "#9BE9A8".to_owned(),
    }
}

/// Tone `i` of the five-tone empty-to-dark palette, light to dark. The
/// renderer itself uses only tone 0, for cells without activity.
pub open spec fn spec_palette_tone(i: int) -> (int, int, int) {
    if i == 0 {
        (235, 237, 240)
    } else if i == 1 {
        (155, 233, 168)
    } else if i == 2 {
        (64, 196, 99)
    } else if i == 3 {
        (48, 161, 78)
    } else {
        (33, 110, 57)
    }
}

pub fn palette_tone(i: usize) -> (rgb: (u8, u8, u8))
    requires
        i < 5,
    ensures
        (rgb.0 as int, rgb.1 as int, rgb.2 as int) == spec_palette_tone(i as int),
{
    if i == 0 {
        (235, 237, 240)
    } else if i == 1 {
        (155, 233, 168)
    } else if i == 2 {
        (64, 196, 99)
    } else if i == 3 {
        (48, 161, 78)
    } else {
        (33, 110, 57)
    }
}

} // verus!
