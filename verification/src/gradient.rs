//! An ordered palette of glyphs, indexed by quantized intensity.

use vstd::prelude::*;
use vstd::string::StrSliceExecFns;
use crate::fixed::{lemma_round_div_bounds, lemma_round_div_exact, lemma_round_div_monotonic, round_div};

verus! {

/// The palette position of a normalized value among `levels` glyphs: the
/// value times the last position, rounded to the nearest integer.
pub open spec fn level_index(value: u16, levels: nat) -> int
    recommends
        levels >= 1,
{
    round_div(value as int * (levels - 1), 65535)
}

/// The palette position that an index selects among `levels` glyphs: the
/// index itself, or the last position where the index lies beyond it.
pub open spec fn glyph_position(index: int, levels: nat) -> int
    recommends
        levels >= 1,
{
    if index < levels - 1 {
        index
    } else {
        levels - 1
    }
}

/// The normalized value that stands for a palette position among `levels`
/// glyphs: the position over the last position, rounded to the nearest step
/// of the scale.
pub open spec fn level_value(index: int, levels: nat) -> int
    recommends
        levels >= 2,
{
    round_div(index * 65535, levels - 1)
}

/// An ordered palette of at least two glyphs.
#[derive(Debug, PartialEq, Eq)]
pub struct Gradient {
    chars: Vec<char>,
}

impl Clone for Gradient {
    fn clone(&self) -> (out: Self)
        ensures
            out@ == self@,
    {
        let mut chars: Vec<char> = Vec::new();
        let mut i: usize = 0;
        while i < self.chars.len()
            invariant
                i <= self.chars@.len(),
                chars@ == self.chars@.subrange(0, i as int),
            decreases self.chars@.len() - i,
        {
            chars.push(self.chars[i]);
            assert(chars@ =~= self.chars@.subrange(0, i + 1));
            i += 1;
        }
        assert(chars@ =~= self.chars@);
        Gradient { chars }
    }
}

impl View for Gradient {
    type V = Seq<char>;

    closed spec fn view(&self) -> Seq<char> {
        self.chars@
    }
}

impl Gradient {
    /// The palette holds at least two glyphs.
    pub open spec fn wf(&self) -> bool {
        self@.len() >= 2
    }

    /// A palette of the characters of `chars`, in their order.
    pub fn new(chars: &str) -> (out: Self)
        requires
            chars@.len() >= 2,
        ensures
            out@ == chars@,
            out.wf(),
    {
        let count = chars.unicode_len();
        let mut collected: Vec<char> = Vec::new();
        let mut i: usize = 0;
        while i < count
            invariant
                count == chars@.len(),
                i <= count,
                collected@ == chars@.subrange(0, i as int),
            decreases count - i,
        {
            collected.push(chars.get_char(i));
            assert(collected@ =~= chars@.subrange(0, i + 1));
            i += 1;
        }
        assert(collected@ =~= chars@);
        Gradient { chars: collected }
    }

    /// Seventy glyphs from the densest to the blank.
    pub fn detailed() -> (out: Self)
        ensures
            out@ == "$@B%8&WM#*oahkbdpqwmZO0QLCJUYXzcvunxrjft/\\|()1{}[]?-_+~<>i!lI;:,\"^`'. "@,
            out@.len() == 70,
            out.wf(),
    {
        proof {
            reveal_strlit("$@B%8&WM#*oahkbdpqwmZO0QLCJUYXzcvunxrjft/\\|()1{}[]?-_+~<>i!lI;:,\"^`'. ");
        }
        Self::new("$@B%8&WM#*oahkbdpqwmZO0QLCJUYXzcvunxrjft/\\|()1{}[]?-_+~<>i!lI;:,\"^`'. ")
    }

    /// Ten glyphs from the densest to the blank.
    pub fn standard() -> (out: Self)
        ensures
            out@ == "@%#*+=-:. "@,
            out@.len() == 10,
            out.wf(),
    {
        proof {
            reveal_strlit("@%#*+=-:. ");
        }
        Self::new("@%#*+=-:. ")
    }

    /// The glyphs of [`Gradient::blocks`].
    pub open spec fn blocks_spec() -> Seq<char> {
        seq!['\u{2588}', '\u{2593}', '\u{2592}', '\u{2591}', ' ']
    }

    /// Four block glyphs of falling density, then the blank.
    pub fn blocks() -> (out: Self)
        ensures
            out@ == Self::blocks_spec(),
            out.wf(),
    {
        proof {
            reveal_strlit("\u{2588}\u{2593}\u{2592}\u{2591} ");
            assert("\u{2588}\u{2593}\u{2592}\u{2591} "@ =~= Self::blocks_spec());
        }
        Self::new("\u{2588}\u{2593}\u{2592}\u{2591} ")
    }

    /// The two glyphs `0` and `1`.
    pub fn binary() -> (out: Self)
        ensures
            out@ == "01"@,
            out@ == seq!['0', '1'],
            out.wf(),
    {
        proof {
            reveal_strlit("01");
            assert("01"@ =~= seq!['0', '1']);
        }
        Self::new("01")
    }

    /// The number of glyphs.
    pub fn len(&self) -> (out: usize)
        ensures
            out == self@.len(),
    {
        self.chars.len()
    }

    /// The glyphs in palette order.
    pub fn chars(&self) -> (out: &[char])
        ensures
            out@ == self@,
    {
        self.chars.as_slice()
    }

    /// The palette position of a normalized value.
    pub fn clamp_index(&self, value: u16) -> (out: usize)
        requires
            self.wf(),
        ensures
            out == level_index(value, self@.len()),
            out < self@.len(),
    {
        let last: u128 = (self.chars.len() - 1) as u128;
        proof {
            lemma_level_index_in_range(value, self@.len());
            assert(value as int * last <= 65535 * 0xffff_ffff_ffff_ffff) by (nonlinear_arith)
                requires
                    0 <= value as int <= 65535,
                    0 <= last <= 0xffff_ffff_ffff_ffff,
            ;
        }
        let scaled: u128 = value as u128 * last;
        let rounded: u128 = (2 * scaled + 65535) / 131070;
        rounded as usize
    }

    /// The glyph at `index`, or the last glyph where `index` lies beyond it.
    pub fn char_at(&self, index: usize) -> (out: char)
        requires
            self.wf(),
        ensures
            out == self@[glyph_position(index as int, self@.len())],
    {
        let last = self.chars.len() - 1;
        let position = if index < last { index } else { last };
        self.chars[position]
    }
}

/// The position of a normalized value lies inside the palette.
pub proof fn lemma_level_index_in_range(value: u16, levels: nat)
    requires
        levels >= 1,
    ensures
        0 <= level_index(value, levels) <= levels - 1,
{
    let last = levels - 1;
    assert(0 <= value as int * last <= last * 65535) by (nonlinear_arith)
        requires
            0 <= value as int <= 65535,
            last >= 0,
    ;
    lemma_round_div_bounds(value as int * last, 65535, 0, last);
}

/// The value zero selects the first glyph and the full-scale value the last.
pub proof fn lemma_level_index_ends(levels: nat)
    requires
        levels >= 1,
    ensures
        level_index(0, levels) == 0,
        level_index(65535, levels) == levels - 1,
{
    let last = levels - 1;
    assert(0 * last == 0);
    lemma_round_div_exact(0, 65535);
    assert(65535 * last == last * 65535) by (nonlinear_arith);
    lemma_round_div_exact(last, 65535);
}

/// A larger value never selects an earlier glyph.
pub proof fn lemma_level_index_monotonic(low: u16, high: u16, levels: nat)
    requires
        levels >= 1,
        low <= high,
    ensures
        level_index(low, levels) <= level_index(high, levels),
{
    let last = levels - 1;
    assert(low as int * last <= high as int * last) by (nonlinear_arith)
        requires
            low <= high,
            last >= 0,
    ;
    lemma_round_div_monotonic(low as int * last, high as int * last, 65535);
}

/// A larger index never selects an earlier glyph, every index selects a
/// position inside the palette, and selecting twice changes nothing.
pub proof fn lemma_glyph_position_monotonic(low: int, high: int, levels: nat)
    requires
        levels >= 1,
        0 <= low <= high,
    ensures
        glyph_position(low, levels) <= glyph_position(high, levels),
        0 <= glyph_position(low, levels) < levels,
        glyph_position(glyph_position(low, levels), levels) == glyph_position(low, levels),
{
}

/// Quantizing is idempotent: the value that stands for a palette position
/// lies on the scale and selects that position again, and so does the value
/// that stands for the position of any value. This holds for the palettes
/// whose positions the scale can tell apart.
pub proof fn lemma_level_round_trip(index: int, levels: nat)
    requires
        2 <= levels <= 65536,
        0 <= index <= levels - 1,
    ensures
        0 <= level_value(index, levels) <= 65535,
        level_index(level_value(index, levels) as u16, levels) == index,
{
    let last = levels - 1;
    let value = level_value(index, levels);
    assert(0 <= index * 65535 <= 65535 * last) by (nonlinear_arith)
        requires
            0 <= index <= last,
    ;
    lemma_round_div_bounds(index * 65535, last, 0, 65535);
    vstd::arithmetic::div_mod::lemma_fundamental_div_mod(2 * (index * 65535) + last, 2 * last);
    vstd::arithmetic::div_mod::lemma_mod_bound(2 * (index * 65535) + last, 2 * last);
    // 2 last value <= 2 index 65535 + last < 2 last value + 2 last
    assert(2 * last * value <= 2 * (index * 65535) + last < 2 * last * value + 2 * last);
    assert(2 * (value * last) + 65535 >= index * 131070) by (nonlinear_arith)
        requires
            2 * (index * 65535) + last < 2 * last * value + 2 * last,
            1 <= last <= 65535,
    ;
    if last == 65535 {
        lemma_round_div_exact(index, 65535);
    }
    assert(2 * (value * last) + 65535 < index * 131070 + 131070) by (nonlinear_arith)
        requires
            2 * last * value <= 2 * (index * 65535) + last,
            1 <= last <= 65535,
            0 <= value,
            0 <= index,
            last == 65535 ==> value <= index,
    ;
    vstd::arithmetic::div_mod::lemma_fundamental_div_mod_converse(
        2 * (value * last) + 65535,
        131070,
        index,
        2 * (value * last) + 65535 - index * 131070,
    );
}

/// The position of a normalized value is one that selection leaves alone.
pub proof fn lemma_level_index_is_fixed_point(value: u16, levels: nat)
    requires
        levels >= 1,
    ensures
        glyph_position(level_index(value, levels), levels) == level_index(value, levels),
{
    lemma_level_index_in_range(value, levels);
}

} // verus!
