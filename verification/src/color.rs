//! Chart colours and the theme palette rules.
use vstd::prelude::*;

verus! {

/// An RGBA colour as stored in a chart; every channel is a byte.
#[derive(Clone, Copy, Debug, PartialEq, Eq, Structural)]
pub struct Color {
    pub r: u8,
    pub g: u8,
    pub b: u8,
    pub a: u8,
}

/// A theme: its palette, indexed by slot (0 background, 1 notes, 2 hit effects).
#[derive(Clone, Debug)]
pub struct Theme {
    pub colors_list: Vec<Color>,
}

/// The palette slot that colours the background.
pub const BACKGROUND_SLOT: usize = 0;

/// The palette slot that colours notes.
pub const NOTE_SLOT: usize = 1;

/// The palette slot that colours hit effects.
pub const EFFECT_SLOT: usize = 2;

pub open spec fn rgba(r: u8, g: u8, b: u8, a: u8) -> Color {
    Color { r, g, b, a }
}

pub open spec fn white() -> Color {
    rgba(255, 255, 255, 255)
}

pub open spec fn black() -> Color {
    rgba(0, 0, 0, 255)
}

/// The colour in `slot` of a palette, or `fallback` where the palette is too short.
pub open spec fn palette_color(palette: Seq<Color>, slot: int, fallback: Color) -> Color {
    if 0 <= slot < palette.len() {
        palette[slot]
    } else {
        fallback
    }
}

/// The theme in force for `theme_idx`: the selected theme when it exists, else the first one.
pub open spec fn selected_palette(themes: Seq<Theme>, theme_idx: Option<usize>) -> Seq<Color>
    recommends
        themes.len() > 0,
{
    match theme_idx {
        Some(i) if i < themes.len() => themes[i as int].colors_list@,
        _ => themes[0].colors_list@,
    }
}

/// The colour of `slot` under `theme_idx`: taken from the selected theme, then
/// from the first theme, then `fallback`; `fallback` alone when there is no theme.
pub open spec fn themed_slot(themes: Seq<Theme>, theme_idx: Option<usize>, slot: int, fallback: Color) -> Color {
    if themes.len() == 0 {
        fallback
    } else {
        palette_color(
            selected_palette(themes, theme_idx),
            slot,
            palette_color(themes[0].colors_list@, slot, fallback),
        )
    }
}

/// The alpha a colour channel defaults to when a chart omits it.
pub fn opaque() -> (a: u8)
    ensures
        a == 255,
{
    255
}

/// The colour in `color_index` of a theme's palette, or `fallback`.
pub fn theme_color(theme: &Theme, color_index: usize, fallback: Color) -> (c: Color)
    ensures
        c == palette_color(theme.colors_list@, color_index as int, fallback),
{
    if color_index < theme.colors_list.len() {
        theme.colors_list[color_index]
    } else {
        fallback
    }
}

/// The colour notes take when no theme gives one: opaque white.
pub fn default_note_color() -> (c: Color)
    ensures
        c == white(),
{
    Color { r: 255, g: 255, b: 255, a: 255 }
}

fn themed_color(themes: &Vec<Theme>, theme_idx: Option<usize>, slot: usize, fallback: Color) -> (c: Color)
    ensures
        c == themed_slot(themes@, theme_idx, slot as int, fallback),
{
    if themes.len() == 0 {
        return fallback;
    }
    let default_theme = &themes[0];
    let theme = match theme_idx {
        Some(i) => {
            if i < themes.len() {
                &themes[i]
            } else {
                default_theme
            }
        },
        None => default_theme,
    };
    theme_color(theme, slot, theme_color(default_theme, slot, fallback))
}

/// The colour of notes while theme `theme_idx` is in force.
pub fn note_color_for_theme(themes: &Vec<Theme>, theme_idx: Option<usize>) -> (c: Color)
    ensures
        c == themed_slot(themes@, theme_idx, NOTE_SLOT as int, white()),
{
    themed_color(themes, theme_idx, NOTE_SLOT, default_note_color())
}

/// The colour of hit effects while theme `theme_idx` is in force.
pub fn effect_color_for_theme(themes: &Vec<Theme>, theme_idx: Option<usize>) -> (c: Color)
    ensures
        c == themed_slot(themes@, theme_idx, EFFECT_SLOT as int, white()),
{
    themed_color(themes, theme_idx, EFFECT_SLOT, Color { r: 255, g: 255, b: 255, a: 255 })
}

/// The background colour while theme `theme_idx` is in force: slot 0 of that
/// theme (of the first theme when there is no index), black when the theme does
/// not exist or its palette is empty; always drawn fully opaque.
pub fn background_color(themes: &Vec<Theme>, theme_idx: Option<usize>) -> (c: Color)
    ensures
        ({
            let i: int = match theme_idx {
                Some(i) => i as int,
                None => 0,
            };
            let bg = if i < themes@.len() {
                palette_color(themes@[i].colors_list@, BACKGROUND_SLOT as int, black())
            } else {
                black()
            };
            c == rgba(bg.r, bg.g, bg.b, 255)
        }),
{
    let black = Color { r: 0, g: 0, b: 0, a: 255 };
    let i = match theme_idx {
        Some(i) => i,
        None => 0,
    };
    let bg = if i < themes.len() {
        theme_color(&themes[i], BACKGROUND_SLOT, black)
    } else {
        black
    };
    Color { r: bg.r, g: bg.g, b: bg.b, a: 255 }
}


/// Without a selected theme, or with one that does not exist, the notes and
/// effects take the first (default) theme's colour of their slot when it has
/// one; a selected theme that exists gives its own colour of the slot when it
/// has one; with no theme at all the fallback is used.
pub proof fn lemma_themed_slot_sources(themes: Seq<Theme>, theme_idx: Option<usize>, slot: int, fallback: Color)
    requires
        0 <= slot,
    ensures
        themes.len() == 0 ==> themed_slot(themes, theme_idx, slot, fallback) == fallback,
        themes.len() > 0 && (theme_idx is None || theme_idx->0 >= themes.len()) && slot
            < themes[0].colors_list@.len() ==> themed_slot(themes, theme_idx, slot, fallback)
            == themes[0].colors_list@[slot],
        theme_idx is Some && theme_idx->0 < themes.len() && slot < themes[theme_idx->0 as int].colors_list@.len()
            ==> themed_slot(themes, theme_idx, slot, fallback) == themes[theme_idx->0 as int].colors_list@[slot],
        themes.len() > 0 && (theme_idx is None || theme_idx->0 >= themes.len()) && slot
            >= themes[0].colors_list@.len() ==> themed_slot(themes, theme_idx, slot, fallback)
            == fallback,
{
}

/// The palette slots: 0 colours the background, 1 the notes, 2 the hit
/// effects; without a selected theme the notes and effects take the first
/// theme's colours in slots 1 and 2, white where it has none.
pub proof fn lemma_note_and_effect_slots(themes: Seq<Theme>)
    requires
        themes.len() > 0,
    ensures
        BACKGROUND_SLOT == 0,
        NOTE_SLOT == 1,
        EFFECT_SLOT == 2,
        themed_slot(themes, None, NOTE_SLOT as int, white()) == palette_color(
            themes[0].colors_list@,
            1,
            rgba(255, 255, 255, 255),
        ),
        themed_slot(themes, None, EFFECT_SLOT as int, white()) == palette_color(
            themes[0].colors_list@,
            2,
            rgba(255, 255, 255, 255),
        ),
{
}

} // verus!
