use vstd::prelude::*;
use vstd::arithmetic::div_mod::lemma_mod_add_multiples_vanish;

verus! {

/// Colours of the figure, each a `0xRRGGBB` value: a width and colour for every
/// outline, and a palette that the squares' fills cycle through.
#[derive(Clone, Debug)]
pub struct Style {
    pub line_width: u32,
    pub line_color: u32,
    pub main_colors: Vec<u32>,
}

/// Fill colour of square `index` for the palette `colors`.
pub open spec fn color_at(colors: Seq<u32>, index: int) -> u32 {
    colors[index % colors.len() as int]
}

impl Style {
    /// A style can be used when its palette is not empty.
    pub open spec fn wf(&self) -> bool {
        self.main_colors.len() > 0
    }

    /// A style with the given outline and palette, or `None` when the palette is empty.
    pub fn new(line_width: u32, line_color: u32, main_colors: Vec<u32>) -> (r: Option<Style>)
        ensures
            main_colors.len() == 0 <==> r is None,
            r matches Some(st) ==> st.wf() && st.line_width == line_width && st.line_color
                == line_color && st.main_colors@ == main_colors@,
    {
        if main_colors.len() == 0 {
            None
        } else {
            Some(Style { line_width, line_color, main_colors })
        }
    }

    /// Fill colour of square `index`: the palette entry at `index` modulo its length.
    pub fn get_color(&self, index: usize) -> (r: u32)
        requires
            self.wf(),
        ensures
            r == color_at(self.main_colors@, index as int),
    {
        self.main_colors[index % self.main_colors.len()]
    }
}

/// The fill colours repeat with the length of the palette.
pub proof fn lemma_color_period(colors: Seq<u32>, index: int)
    requires
        colors.len() > 0,
        index >= 0,
    ensures
        color_at(colors, index) == color_at(colors, index + colors.len()),
{
    let m = colors.len() as int;
    lemma_mod_add_multiples_vanish(index, m);
    assert(m + index == index + m);
}

impl Default for Style {
    fn default() -> (r: Style)
        ensures
            r.wf(),
            r.line_width == 5,
            r.line_color == 0x555555,
            r.main_colors@ == seq![0xB00B69u32, 0x042069u32, 0xB4DA55u32, 0x069420u32],
    {
        Style {
            line_width: 5,
            line_color: 0x555555,
            main_colors: vec![0xB00B69, 0x042069, 0xB4DA55, 0x069420],
        }
    }
}

} // verus!
