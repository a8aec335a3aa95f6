//! Fixed-size RGB colors and the append-only palette that maps colors
//! to indices and back.

use vstd::prelude::*;

verus! {

use std::collections::HashMap;
use crate::error::Error;

broadcast use vstd::std_specs::hash::group_hash_axioms;

/// An 8-bit-per-channel RGB color.
#[derive(Clone, Copy, Debug, Hash, PartialEq, Eq, Structural)]
pub struct Color {
    pub red: u8,
    pub green: u8,
    pub blue: u8,
}

impl Color {
    /// Builds a color from its three channels.
    pub fn new(red: u8, green: u8, blue: u8) -> (c: Color)
        ensures
            c == (Color { red, green, blue }),
    {
        Color { red, green, blue }
    }
}

/// Packs a color into a single integer, one channel per byte.  The
/// packing is injective, so it can serve as a lookup key.
pub open spec fn spec_color_key(c: Color) -> u32 {
    (c.red * 0x1_0000 + c.green * 0x100 + c.blue) as u32
}

/// Two distinct colors never pack to the same key.
pub proof fn lemma_color_key_injective(c1: Color, c2: Color)
    requires
        spec_color_key(c1) == spec_color_key(c2),
    ensures
        c1 == c2,
{
}

fn color_key(c: &Color) -> (k: u32)
    ensures
        k == spec_color_key(*c),
{
    (c.red as u32) * 0x1_0000 + (c.green as u32) * 0x100 + (c.blue as u32)
}

/// Whether the sequence of palette entries contains the given color.
pub open spec fn spec_contains_color(s: Seq<Color>, c: Color) -> bool {
    exists|j: int| 0 <= j < s.len() && s[j] == c
}

/// The color stored at an index of the palette model, or `None` past
/// its end.
pub open spec fn spec_color_at(s: Seq<Color>, i: int) -> Option<Color> {
    if 0 <= i < s.len() {
        Some(s[i])
    } else {
        None
    }
}

/// An ordered palette of colors.  Entries keep their insertion order,
/// and a reverse index maps each contained color back to an entry
/// that holds it.
#[derive(Debug)]
pub struct Palette {
    colors: Vec<Color>,
    colors_index: HashMap<u32, usize>,
}

impl View for Palette {
    type V = Seq<Color>;

    closed spec fn view(&self) -> Seq<Color> {
        self.colors@
    }
}

impl Palette {
    /// The reverse index agrees with the entry list in both
    /// directions.
    pub closed spec fn wf(self) -> bool {
        &&& forall|k: u32|
            #[trigger] self.colors_index@.contains_key(k) ==> 0 <= self.colors_index@[k]
                < self.colors@.len() && spec_color_key(
                self.colors@[self.colors_index@[k] as int],
            ) == k
        &&& forall|i: int|
            0 <= i < self.colors@.len() ==> self.colors_index@.contains_key(
                #[trigger] spec_color_key(self.colors@[i]),
            )
    }

    /// The index the reverse map assigns to a color, if the color is
    /// present.
    pub closed spec fn spec_color_index(self, c: Color) -> Option<usize> {
        if self.colors_index@.contains_key(spec_color_key(c)) {
            Some(self.colors_index@[spec_color_key(c)])
        } else {
            None
        }
    }

    /// Builds an empty palette.
    pub fn new() -> (p: Palette)
        ensures
            p.wf(),
            p@ =~= Seq::<Color>::empty(),
    {
        Palette { colors: Vec::new(), colors_index: HashMap::new() }
    }

    /// The number of entries.
    pub fn len(&self) -> (n: usize)
        ensures
            n == self@.len(),
    {
        self.colors.len()
    }

    /// Appends a color unconditionally and returns its new index.  A
    /// color pushed twice keeps both entries; the reverse lookup then
    /// finds the newer one.
    pub fn push(&mut self, color: &Color) -> (index: usize)
        requires
            old(self).wf(),
            old(self)@.len() < usize::MAX,
        ensures
            final(self).wf(),
            final(self)@ =~= old(self)@.push(*color),
            index == old(self)@.len(),
            final(self).spec_color_index(*color) == Some(index),
    {
        let index = self.colors.len();
        self.colors_index.insert(color_key(color), index);
        self.colors.push(*color);
        proof {
            assert forall|k: u32| #[trigger] self.colors_index@.contains_key(k) implies 0
                <= self.colors_index@[k] < self.colors@.len() && spec_color_key(
                self.colors@[self.colors_index@[k] as int],
            ) == k by {
                if k != spec_color_key(*color) {
                    assert(old(self).colors_index@.contains_key(k));
                }
            }
        }
        index
    }

    /// Appends a color unless an equal color is already present: a
    /// present color leaves the palette unchanged and returns its
    /// existing index, a fresh color is appended at the end.  Adding
    /// the same color twice therefore returns the same index both
    /// times.
    pub fn add(&mut self, color: &Color) -> (index: usize)
        requires
            old(self).wf(),
            old(self)@.len() < usize::MAX,
        ensures
            final(self).wf(),
            match old(self).spec_color_index(*color) {
                Some(i) => index == i && final(self)@ =~= old(self)@,
                None => index == old(self)@.len() && final(self)@ =~= old(self)@.push(*color),
            },
            final(self).spec_color_index(*color) == Some(index),
            index < final(self)@.len() && final(self)@[index as int] == *color,
    {
        let existing = self.color_index(color);
        match existing {
            Some(index) => index,
            None => self.push(color),
        }
    }

    /// Looks up the index of a color.  The result is `Some` exactly
    /// when the color is contained in the palette, and the returned
    /// index then holds the color.
    pub fn color_index(&self, color: &Color) -> (res: Option<usize>)
        requires
            self.wf(),
        ensures
            res == self.spec_color_index(*color),
            match res {
                Some(i) => i < self@.len() && self@[i as int] == *color,
                None => !spec_contains_color(self@, *color),
            },
    {
        let key = color_key(color);
        let res = match self.colors_index.get(&key) {
            Some(i) => Some(*i),
            None => None,
        };
        proof {
            match res {
                Some(i) => {
                    lemma_color_key_injective(self.colors@[i as int], *color);
                },
                None => {
                    if spec_contains_color(self@, *color) {
                        let j = choose|j: int| 0 <= j < self@.len() && self@[j] == *color;
                        assert(self.colors_index@.contains_key(spec_color_key(self.colors@[j])));
                    }
                },
            }
        }
        res
    }

    /// The color stored at an index, or `None` past the end.
    pub fn color_at(&self, index: usize) -> (res: Option<Color>)
        ensures
            res == spec_color_at(self@, index as int),
    {
        if index < self.colors.len() {
            Some(self.colors[index])
        } else {
            None
        }
    }

    /// The entries in insertion order.
    pub fn iter(&self) -> (v: Vec<Color>)
        ensures
            v@ =~= self@,
    {
        let mut v: Vec<Color> = Vec::new();
        let mut i: usize = 0;
        while i < self.colors.len()
            invariant
                i <= self.colors@.len(),
                v@ =~= self.colors@.subrange(0, i as int),
            decreases self.colors@.len() - i,
        {
            v.push(self.colors[i]);
            i = i + 1;
        }
        v
    }
}

/// A color contained in a palette can be looked up and read back
/// unchanged: whenever the reverse lookup yields an index, the entry
/// at that index is the color itself.
pub proof fn lemma_palette_round_trip(p: Palette, c: Color)
    requires
        p.wf(),
        spec_contains_color(p@, c),
    ensures
        p.spec_color_index(c) matches Some(i) && spec_color_at(p@, i as int) == Some(c),
{
    let j = choose|j: int| 0 <= j < p@.len() && p@[j] == c;
    assert(p.colors_index@.contains_key(spec_color_key(p@[j])));
    let i = p.colors_index@[spec_color_key(c)];
    lemma_color_key_injective(p@[i as int], c);
}

/// Widens a six-bit channel to eight bits by multiplying it by four.
/// The two high bits of the byte are ignored.
pub open spec fn spec_expand_channel(b: u8) -> u8 {
    ((b & 0x3f) * 4) as u8
}

fn expand_channel(b: u8) -> (r: u8)
    ensures
        r == spec_expand_channel(b),
{
    proof {
        assert((b & 0x3f) < 64) by (bit_vector);
    }
    (b & 0x3f) * 4
}

/// Expands a raw palette file into a palette.  The file is a flat
/// sequence of three-byte entries at six bits per channel; each
/// channel is multiplied by four to widen it to eight bits.  The two
/// high bits of each byte are ignored.
pub fn read_palette_from_bytes(bytes: &[u8]) -> (res: Result<Palette, Error>)
    ensures
        match res {
            Ok(p) => {
                &&& bytes@.len() % 3 == 0
                &&& p.wf()
                &&& p@.len() == bytes@.len() / 3
                &&& forall|i: int|
                    0 <= i < p@.len() ==> p@[i] == (Color {
                        red: spec_expand_channel(bytes@[3 * i]),
                        green: spec_expand_channel(bytes@[3 * i + 1]),
                        blue: spec_expand_channel(bytes@[3 * i + 2]),
                    })
            },
            Err(e) => e == Error::BadPaletteData && bytes@.len() % 3 != 0,
        },
{
    if bytes.len() % 3 != 0 {
        return Err(Error::BadPaletteData);
    }
    let count = bytes.len() / 3;
    proof {
        vstd::arithmetic::div_mod::lemma_fundamental_div_mod(bytes@.len() as int, 3);
    }
    let mut palette = Palette::new();
    let mut i: usize = 0;
    while i < count
        invariant
            count == bytes@.len() / 3,
            3 * count == bytes@.len(),
            bytes@.len() <= usize::MAX,
            i <= count,
            palette.wf(),
            palette@.len() == i,
            forall|j: int|
                0 <= j < i ==> palette@[j] == (Color {
                    red: spec_expand_channel(bytes@[3 * j]),
                    green: spec_expand_channel(bytes@[3 * j + 1]),
                    blue: spec_expand_channel(bytes@[3 * j + 2]),
                }),
        decreases count - i,
    {
        let red = expand_channel(bytes[3 * i]);
        let green = expand_channel(bytes[3 * i + 1]);
        let blue = expand_channel(bytes[3 * i + 2]);
        palette.push(&Color { red, green, blue });
        i = i + 1;
    }
    Ok(palette)
}

} // verus!
