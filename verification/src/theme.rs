use vstd::prelude::*;

verus! {

/// Built-in colour palettes.
#[derive(Clone, Copy, PartialEq, Eq, Debug, Default, Structural)]
pub enum ThemeId {
    #[default]
    Dark,
    Light,
    Amoled,
}

impl ThemeId {
    pub open spec fn spec_label(self) -> Seq<char> {
        match self {
            ThemeId::Dark => seq!['d', 'a', 'r', 'k'],
            ThemeId::Light => seq!['l', 'i', 'g', 'h', 't'],
            ThemeId::Amoled => seq!['a', 'm', 'o', 'l', 'e', 'd'],
        }
    }

    pub fn label(self) -> (r: &'static str)
        ensures r@ == self.spec_label(),
    {
        match self {
            ThemeId::Dark => {
                proof { reveal_strlit("dark"); }
                "dark"
            },
            ThemeId::Light => {
                proof { reveal_strlit("light"); }
                "light"
            },
            ThemeId::Amoled => {
                proof { reveal_strlit("amoled"); }
                "amoled"
            },
        }
    }

    pub open spec fn spec_cycle(self) -> ThemeId {
        match self {
            ThemeId::Dark => ThemeId::Light,
            ThemeId::Light => ThemeId::Amoled,
            ThemeId::Amoled => ThemeId::Dark,
        }
    }

    /// Dark → Light → Amoled → Dark.
    pub fn cycle(self) -> (r: ThemeId)
        ensures r == self.spec_cycle(),
    {
        match self {
            ThemeId::Dark => ThemeId::Light,
            ThemeId::Light => ThemeId::Amoled,
            ThemeId::Amoled => ThemeId::Dark,
        }
    }
}

/// Cycling through the palettes three times comes back to the start, and no
/// palette is its own successor.
pub proof fn lemma_theme_cycle_period(t: ThemeId)
    ensures
        t.spec_cycle().spec_cycle().spec_cycle() == t,
        t.spec_cycle() != t,
{
}

} // verus!
