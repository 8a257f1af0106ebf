//! Font records: named font files grouped into weighted families.

use vstd::prelude::*;

verus! {

/// Local path of a font file, associated to a name.
#[derive(Debug, Clone, PartialEq, Eq)]
pub struct Font {
    /// Name identifying the font.
    pub name: String,
    /// Local path of the font file.
    pub path: String,
}

/// Font weight associated to a font inside a family, from the heaviest
/// to the lightest.
#[derive(Debug, Copy, Clone, PartialEq, Eq, Structural)]
pub enum FontWeight {
    /// The heaviest weight.
    Black,
    /// Heavier than bold.
    ExtraBold,
    /// Bold text.
    Bold,
    /// Between regular and bold.
    SemiBold,
    /// Slightly heavier than regular.
    Medium,
    /// The default weight.
    Regular,
    /// Slightly lighter than regular.
    Light,
    /// Lighter than light.
    ExtraLight,
    /// The lightest weight.
    Thin,
}

impl Default for FontWeight {
    /// The default font weight is `Regular`.
    fn default() -> (r: Self)
        ensures
            r == FontWeight::Regular,
    {
        FontWeight::Regular
    }
}

/// Named collection of fonts, one for each available weight.
///
/// The weights are kept unique: a well-formed family pairs each weight
/// with at most one font.
#[derive(Debug, Clone, PartialEq, Eq)]
pub struct FontFamily {
    /// Name identifying the family.
    pub name: String,
    /// The font paired with each available weight.
    pub fonts: Vec<(FontWeight, Font)>,
}

impl FontFamily {
    /// A family is well formed when no weight appears twice.
    pub open spec fn wf(self) -> bool {
        forall|i: int, j: int|
            0 <= i < j < self.fonts@.len() ==> self.fonts@[i].0 != self.fonts@[j].0
    }

    /// Returns the font of the given weight, if the family has one.
    pub fn font(&self, weight: FontWeight) -> (r: Option<&Font>)
        ensures
            match r {
                Some(f) => exists|i: int|
                    0 <= i < self.fonts@.len() && self.fonts@[i].0 == weight
                        && *f == self.fonts@[i].1,
                None => forall|i: int|
                    0 <= i < self.fonts@.len() ==> self.fonts@[i].0 != weight,
            },
    {
        let n = self.fonts.len();
        for k in 0..n
            invariant
                n == self.fonts@.len(),
                forall|i: int| 0 <= i < k ==> self.fonts@[i].0 != weight,
        {
            if self.fonts[k].0 == weight {
                return Some(&self.fonts[k].1);
            }
        }
        None
    }
}

} // verus!
