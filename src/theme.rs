use vstd::prelude::*;
use crossterm::style::Color;

verus! {

/// crossterm's `Color`, a plain enum whose variants Verus reads as declared.
#[verifier::external_type_specification]
pub struct ExColor(crossterm::style::Color);

/// The colour with red, green and blue taken from the bytes of `rgb`, high to low.
pub open spec fn rgb_color(rgb: u32) -> Color {
    Color::Rgb { r: (rgb / 0x10000 % 0x100) as u8, g: (rgb / 0x100 % 0x100) as u8, b: (rgb % 0x100) as u8 }
}

pub fn from_rgb(rgb: u32) -> (r: Color)
    ensures
        r == rgb_color(rgb),
{
    let red = ((rgb >> 16u32) & 0xFFu32) as u8;
    let green = ((rgb >> 8u32) & 0xFFu32) as u8;
    let blue = (rgb & 0xFFu32) as u8;
    assert(((rgb >> 16u32) & 0xFFu32) == rgb / 0x10000 % 0x100) by (bit_vector);
    assert(((rgb >> 8u32) & 0xFFu32) == rgb / 0x100 % 0x100) by (bit_vector);
    assert((rgb & 0xFFu32) == rgb % 0x100) by (bit_vector);
    Color::Rgb { r: red, g: green, b: blue }
}

#[derive(Clone, Copy, PartialEq, Eq, Structural, Debug)]
pub enum Mode {
    Light,
    Dark,
}

/// A named colour scheme.
#[derive(Clone, Copy, Debug, PartialEq)]
pub struct Theme<'a> {
    pub name: &'a str,
    pub mode: Mode,
    pub background: Color,
    pub foreground: Color,
    pub accent: Option<Color>,
}

/// Number of themes in the palette.
pub const THEME_COUNT: usize = 5;

/// Name of the theme a fresh selector starts on.
pub const DEFAULT_NAME: &'static str = "Catppuccin Macchiato";

/// The palette, in order.
pub open spec fn palette() -> Seq<Theme<'static>> {
    seq![
        Theme {
            name: "Gruvbox (Dark)",
            mode: Mode::Dark,
            background: rgb_color(0x282828),
            foreground: rgb_color(0xEBDBB2),
            accent: Some(rgb_color(0xFE8019)),
        },
        Theme {
            name: "Gruvbox (Light)",
            mode: Mode::Light,
            background: rgb_color(0xFBF1C7),
            foreground: rgb_color(0x3C3836),
            accent: Some(rgb_color(0xAF3A03)),
        },
        Theme {
            name: "Catppuccin Frappé",
            mode: Mode::Dark,
            background: rgb_color(0x303446),
            foreground: rgb_color(0xC6D0F5),
            accent: Some(rgb_color(0xCA9EE6)),
        },
        Theme {
            name: "Catppuccin Macchiato",
            mode: Mode::Dark,
            background: rgb_color(0x24273A),
            foreground: rgb_color(0xCAD3F5),
            accent: Some(rgb_color(0xC6A0F6)),
        },
        Theme {
            name: "Catppuccin Mocha",
            mode: Mode::Dark,
            background: rgb_color(0x1E1E2E),
            foreground: rgb_color(0xCDD6F4),
            accent: Some(rgb_color(0xCBA6F7)),
        },
    ]
}

/// The theme at `index` in the palette.
pub fn theme_at(index: usize) -> (t: Theme<'static>)
    requires
        index < THEME_COUNT,
    ensures
        t == palette()[index as int],
{
    if index == 0 {
        Theme {
            name: "Gruvbox (Dark)",
            mode: Mode::Dark,
            background: from_rgb(0x282828),
            foreground: from_rgb(0xEBDBB2),
            accent: Some(from_rgb(0xFE8019)),
        }
    } else if index == 1 {
        Theme {
            name: "Gruvbox (Light)",
            mode: Mode::Light,
            background: from_rgb(0xFBF1C7),
            foreground: from_rgb(0x3C3836),
            accent: Some(from_rgb(0xAF3A03)),
        }
    } else if index == 2 {
        Theme {
            name: "Catppuccin Frappé",
            mode: Mode::Dark,
            background: from_rgb(0x303446),
            foreground: from_rgb(0xC6D0F5),
            accent: Some(from_rgb(0xCA9EE6)),
        }
    } else if index == 3 {
        Theme {
            name: "Catppuccin Macchiato",
            mode: Mode::Dark,
            background: from_rgb(0x24273A),
            foreground: from_rgb(0xCAD3F5),
            accent: Some(from_rgb(0xC6A0F6)),
        }
    } else {
        Theme {
            name: "Catppuccin Mocha",
            mode: Mode::Dark,
            background: from_rgb(0x1E1E2E),
            foreground: from_rgb(0xCDD6F4),
            accent: Some(from_rgb(0xCBA6F7)),
        }
    }
}

/// No two themes of the palette share a name, a background, a foreground
/// or an accent (two missing accents would count as shared).
pub proof fn lemma_palette_unique()
    ensures
        palette().len() == THEME_COUNT,
        forall|i: int, j: int|
            0 <= i < THEME_COUNT && 0 <= j < THEME_COUNT && i != j ==> {
                &&& palette()[i].name@ != palette()[j].name@
                &&& palette()[i].background != palette()[j].background
                &&& palette()[i].foreground != palette()[j].foreground
                &&& palette()[i].accent != palette()[j].accent
            },
{
    reveal_strlit("Gruvbox (Dark)");
    reveal_strlit("Gruvbox (Light)");
    reveal_strlit("Catppuccin Frappé");
    reveal_strlit("Catppuccin Macchiato");
    reveal_strlit("Catppuccin Mocha");
    let p = palette();
    assert(p.len() == 5);
    assert(p[0].name@.len() == 14 && p[1].name@.len() == 15 && p[2].name@.len() == 17
        && p[3].name@.len() == 20 && p[4].name@.len() == 16);
    assert forall|i: int, j: int|
        0 <= i < THEME_COUNT && 0 <= j < THEME_COUNT && i != j implies {
            &&& p[i].name@ != p[j].name@
            &&& p[i].background != p[j].background
            &&& p[i].foreground != p[j].foreground
            &&& p[i].accent != p[j].accent
        } by {
        assert(i == 0 || i == 1 || i == 2 || i == 3 || i == 4);
        assert(j == 0 || j == 1 || j == 2 || j == 3 || j == 4);
        if p[i].name@ == p[j].name@ {
            assert(p[i].name@.len() == p[j].name@.len());
        }
    }
}

/// Index that a fresh selector starts on: the first theme named
/// `DEFAULT_NAME`, or 0 where none is.
pub open spec fn default_index() -> nat {
    if exists|i: int| 0 <= i < THEME_COUNT && palette()[i].name@ == DEFAULT_NAME@ {
        choose|i: nat|
            i < THEME_COUNT && palette()[i as int].name@ == DEFAULT_NAME@ && forall|j: int|
                0 <= j < i ==> palette()[j].name@ != DEFAULT_NAME@
    } else {
        0
    }
}

/// The selector's index after `k` further steps from `i`.
pub open spec fn advance(i: nat, k: nat) -> nat
    decreases k,
{
    if k == 0 {
        i
    } else {
        ((advance(i, (k - 1) as nat) + 1) % (THEME_COUNT as nat)) as nat
    }
}

/// Picks the current theme out of the palette.
pub struct ThemeManager {
    index: usize,
}

impl View for ThemeManager {
    type V = nat;

    closed spec fn view(&self) -> nat {
        self.index as nat
    }
}

impl ThemeManager {
    pub closed spec fn wf(&self) -> bool {
        self.index < THEME_COUNT
    }

    /// A selector on the default theme.
    pub fn new() -> (r: ThemeManager)
        ensures
            r.wf(),
            r@ < THEME_COUNT,
            r@ == default_index(),
    {
        let target = DEFAULT_NAME.to_owned();
        let mut i: usize = 0;
        while i < THEME_COUNT
            invariant
                i <= THEME_COUNT,
                target@ == DEFAULT_NAME@,
                forall|j: int| 0 <= j < i ==> palette()[j].name@ != DEFAULT_NAME@,
            decreases THEME_COUNT - i,
        {
            let name = theme_at(i).name.to_owned();
            if name == target {
                let ghost k = i as nat;
                assert(k < THEME_COUNT && palette()[k as int].name@ == DEFAULT_NAME@ && forall|j: int|
                    0 <= j < k ==> palette()[j].name@ != DEFAULT_NAME@);
                proof {
                    lemma_first_match_unique(k);
                }
                return ThemeManager { index: i };
            }
            i = i + 1;
        }
        ThemeManager { index: 0 }
    }

    /// The theme currently selected.
    pub fn current_theme(&self) -> (r: Theme<'static>)
        requires
            self.wf(),
        ensures
            r == palette()[self@ as int],
    {
        theme_at(self.index)
    }

    /// Steps to the next theme, back to the first after the last.
    pub fn next_theme(&mut self)
        requires
            old(self).wf(),
        ensures
            final(self).wf(),
            final(self)@ < THEME_COUNT,
            final(self)@ == (old(self)@ + 1) % (THEME_COUNT as nat),
    {
        self.index = (self.index + 1) % THEME_COUNT;
    }
}

/// A selector's index always points into the palette.
pub proof fn lemma_index_in_palette(m: &ThemeManager)
    requires
        m.wf(),
    ensures
        m@ < THEME_COUNT,
{
}

/// From any selector, as many steps as the palette holds bring back the
/// theme it started on.
pub proof fn lemma_full_cycle_theme(m: &ThemeManager)
    requires
        m.wf(),
    ensures
        palette()[advance(m@, THEME_COUNT as nat) as int] == palette()[m@ as int],
{
    lemma_full_cycle(m@);
}

proof fn lemma_first_match_unique(k: nat)
    requires
        k < THEME_COUNT && palette()[k as int].name@ == DEFAULT_NAME@,
        forall|j: int| 0 <= j < k ==> palette()[j].name@ != DEFAULT_NAME@,
    ensures
        default_index() == k,
{
    let c = default_index();
    assert(c < THEME_COUNT && palette()[c as int].name@ == DEFAULT_NAME@ && forall|j: int|
        0 <= j < c ==> palette()[j].name@ != DEFAULT_NAME@);
    if c < k {
        assert(palette()[c as int].name@ != DEFAULT_NAME@);
    }
    if k < c {
        assert(palette()[k as int].name@ != DEFAULT_NAME@);
    }
}

/// Stepping through as many themes as the palette holds comes back to the
/// theme one started on.
pub proof fn lemma_full_cycle(i: nat)
    requires
        i < THEME_COUNT,
    ensures
        advance(i, THEME_COUNT as nat) == i,
{
    lemma_advance(i, THEME_COUNT as nat);
}

proof fn lemma_advance(i: nat, k: nat)
    requires
        i < THEME_COUNT,
    ensures
        advance(i, k) == (i + k) % (THEME_COUNT as nat),
    decreases k,
{
    if k > 0 {
        lemma_advance(i, (k - 1) as nat);
    }
}

} // verus!
