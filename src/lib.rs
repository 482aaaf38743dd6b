//! Vector-graphics captcha: random answers, fragmented glyph strokes and noise
//! lines, serialized as an SVG document.

mod draw;
pub mod model;
pub mod select;
pub mod svg;

use vstd::prelude::*;
use crate::draw::choose_color;
pub use crate::model::PathError;
use crate::select::{partition_of, random_answer, random_partition};

verus! {

/// Builder of a vector captcha with a random answer.
#[derive(Debug, Clone)]
pub struct BiosvgBuilder {
    /// Number of answer characters.
    pub length: usize,
    /// One more than the number of noise lines.
    pub difficulty: u16,
    /// Palette shared by glyphs and noise lines.
    pub colors: Vec<String>,
}

/// The random decisions of one captcha that involve no geometry.
#[derive(Debug, Clone)]
pub struct CaptchaPlan {
    /// The answer, one character per glyph slot.
    pub answer: String,
    /// Colors kept for glyphs.
    pub char_colors: Vec<String>,
    /// Colors kept for noise lines.
    pub line_colors: Vec<String>,
    /// The color of each answer character's glyph.
    pub glyph_colors: Vec<String>,
    /// The color of each noise line.
    pub noise_colors: Vec<String>,
}

/// The number of noise lines drawn for a difficulty.
pub open spec fn noise_lines(difficulty: u16) -> nat {
    if difficulty == 0 {
        0
    } else {
        (difficulty - 1) as nat
    }
}

/// Number of noise lines drawn for `difficulty`: one fewer, and none for zero.
pub fn noise_count(difficulty: u16) -> (r: usize)
    ensures
        r == noise_lines(difficulty),
{
    if difficulty == 0 {
        0
    } else {
        (difficulty - 1) as usize
    }
}

/// Every element of `picked` is one of `from`.
pub open spec fn all_from(picked: Seq<String>, from: Seq<String>) -> bool {
    forall|i: int| 0 <= i < picked.len() ==> from.contains(#[trigger] picked[i])
}

fn pick_colors(from: &Vec<String>, count: usize) -> (r: Vec<String>)
    requires
        from@.len() > 0,
    ensures
        r@.len() == count,
        all_from(r@, from@),
{
    let mut picked: Vec<String> = Vec::new();
    while picked.len() < count
        invariant
            from@.len() > 0,
            picked@.len() <= count,
            all_from(picked@, from@),
        decreases count - picked@.len(),
    {
        let c = choose_color(from);
        picked.push(c.unwrap());
    }
    picked
}

impl Default for BiosvgBuilder {
    fn default() -> (r: BiosvgBuilder)
        ensures
            r.length == 0,
            r.difficulty == 0,
            r.colors@.len() == 0,
    {
        BiosvgBuilder::new()
    }
}

impl BiosvgBuilder {
    /// A builder with no answer characters, no noise and no colors.
    pub fn new() -> (r: BiosvgBuilder)
        ensures
            r.length == 0,
            r.difficulty == 0,
            r.colors@.len() == 0,
    {
        BiosvgBuilder { length: 0, difficulty: 0, colors: Vec::new() }
    }

    /// Sets the number of answer characters.
    pub fn length(self, length: usize) -> (r: BiosvgBuilder)
        ensures
            r.length == length,
            r.difficulty == self.difficulty,
            r.colors == self.colors,
    {
        BiosvgBuilder { length, ..self }
    }

    /// Sets the difficulty: `difficulty - 1` noise lines are drawn.
    pub fn difficulty(self, difficulty: u16) -> (r: BiosvgBuilder)
        ensures
            r.length == self.length,
            r.difficulty == difficulty,
            r.colors == self.colors,
    {
        BiosvgBuilder { difficulty, ..self }
    }

    /// Sets the palette, split at random between glyphs and noise lines; at
    /// least two colors are needed, four or more look better.
    pub fn colors(self, colors: Vec<String>) -> (r: BiosvgBuilder)
        ensures
            r.length == self.length,
            r.difficulty == self.difficulty,
            r.colors == colors,
    {
        BiosvgBuilder { colors, ..self }
    }

    /// A configuration that a captcha can be built from.
    pub open spec fn is_buildable(&self) -> bool {
        self.length >= 1 && self.colors@.len() >= 2
    }

    /// Makes the random decisions of one captcha: the answer drawn from
    /// `alphabet`, the palette partition, a glyph color per answer character
    /// and a color per noise line. Fails with `ConfigError` exactly when the
    /// configuration is not buildable.
    pub fn plan(&self, alphabet: &Vec<char>) -> (r: Result<CaptchaPlan, PathError>)
        requires
            alphabet@.len() > 0,
        ensures
            r is Err <==> !self.is_buildable(),
            r matches Err(e) ==> e is ConfigError,
            r matches Ok(p) ==> {
                &&& p.answer@.len() == self.length
                &&& forall|i: int|
                    0 <= i < p.answer@.len() ==> alphabet@.contains(#[trigger] p.answer@[i])
                &&& exists|flips: Seq<bool>|
                    flips.len() + 1 == self.colors@.len() && (p.char_colors@, p.line_colors@)
                        == #[trigger] partition_of(self.colors@, flips)
                &&& p.char_colors@.len() >= 1
                &&& p.line_colors@.len() >= 1
                &&& p.glyph_colors@.len() == self.length
                &&& all_from(p.glyph_colors@, p.char_colors@)
                &&& p.noise_colors@.len() == noise_lines(self.difficulty)
                &&& all_from(p.noise_colors@, p.line_colors@)
            },
    {
        if self.length == 0 || self.colors.len() < 2 {
            return Err(PathError::ConfigError);
        }
        let answer = random_answer(alphabet, self.length);
        let (char_colors, line_colors) = random_partition(&self.colors);
        proof {
            let flips = choose|flips: Seq<bool>|
                flips.len() + 1 == self.colors@.len() && (char_colors@, line_colors@)
                    == #[trigger] partition_of(self.colors@, flips);
            crate::select::lemma_partition_nonempty(self.colors@, flips);
        }
        let glyph_colors = pick_colors(&char_colors, self.length);
        let noise_colors = pick_colors(&line_colors, noise_count(self.difficulty));
        Ok(CaptchaPlan { answer, char_colors, line_colors, glyph_colors, noise_colors })
    }
}

} // verus!
