//! How the island's background is chosen from the settings.
use vstd::prelude::*;
use crate::config::WindowEffect;

verus! {

/// The shader that draws a glass background.
#[derive(Clone, Copy, Debug, PartialEq, Eq, Structural)]
pub enum GlassShader {
    /// Flowing colours of the first two theme colours.
    Liquid,
    /// Dark grain at 65% opacity.
    Acrylic,
    /// Dark grain at 85% opacity.
    Mica,
}

/// What fills the background when no shader draws it.
#[derive(Clone, Copy, Debug, PartialEq, Eq, Structural)]
pub enum BackgroundFill {
    /// The first theme colour.
    ThemeSolid,
    /// A dark translucent tint.
    GlassTint,
    /// A linear gradient through the theme colours.
    ThemeGradient,
    Black,
}

pub open spec fn spec_background_shader(effect: WindowEffect, theme_color_count: nat) -> Option<
    GlassShader,
> {
    match effect {
        WindowEffect::LiquidGlass => if theme_color_count >= 2 {
            Some(GlassShader::Liquid)
        } else {
            None
        },
        WindowEffect::Acrylic => Some(GlassShader::Acrylic),
        WindowEffect::Mica => Some(GlassShader::Mica),
        WindowEffect::NoEffect => None,
    }
}

/// The window effect that a glass shader draws.
pub open spec fn shader_effect(s: GlassShader) -> WindowEffect {
    match s {
        GlassShader::Liquid => WindowEffect::LiquidGlass,
        GlassShader::Acrylic => WindowEffect::Acrylic,
        GlassShader::Mica => WindowEffect::Mica,
    }
}

/// Law: every effect gets a shader, and the one of that effect, except no
/// effect at all and liquid glass with fewer than two theme colours.
pub proof fn lemma_shader_matches_effect(effect: WindowEffect, theme_color_count: nat)
    ensures
        spec_background_shader(effect, theme_color_count) is None <==> (effect
            == WindowEffect::NoEffect || (effect == WindowEffect::LiquidGlass
            && theme_color_count < 2)),
        spec_background_shader(effect, theme_color_count) matches Some(s) ==> shader_effect(s)
            == effect,
{
}

/// The shader to try for the background: liquid glass needs two theme
/// colours; without an effect there is none.
pub fn background_shader(effect: WindowEffect, theme_color_count: usize) -> (r: Option<
    GlassShader,
>)
    ensures
        r == spec_background_shader(effect, theme_color_count as nat),
{
    match effect {
        WindowEffect::LiquidGlass => if theme_color_count >= 2 {
            Some(GlassShader::Liquid)
        } else {
            None
        },
        WindowEffect::Acrylic => Some(GlassShader::Acrylic),
        WindowEffect::Mica => Some(GlassShader::Mica),
        WindowEffect::NoEffect => None,
    }
}

/// The fill used when no shader drew the background: a solid theme
/// colour if asked for and there is one; else the glass tint for any
/// effect; else the gradient when there are two colours; else black.
pub fn background_fill(effect: WindowEffect, is_solid_theme: bool, theme_color_count: usize) -> (r:
    BackgroundFill)
    ensures
        r == (if is_solid_theme && theme_color_count >= 1 {
            BackgroundFill::ThemeSolid
        } else if effect != WindowEffect::NoEffect {
            BackgroundFill::GlassTint
        } else if theme_color_count >= 2 {
            BackgroundFill::ThemeGradient
        } else {
            BackgroundFill::Black
        }),
{
    if is_solid_theme && theme_color_count >= 1 {
        BackgroundFill::ThemeSolid
    } else if effect != WindowEffect::NoEffect {
        BackgroundFill::GlassTint
    } else if theme_color_count >= 2 {
        BackgroundFill::ThemeGradient
    } else {
        BackgroundFill::Black
    }
}

/// Whether the glass layers (outer glow, light, rim and border) are drawn:
/// for every effect.
pub fn has_glass_layers(effect: WindowEffect) -> (r: bool)
    ensures
        r == (effect != WindowEffect::NoEffect),
{
    effect != WindowEffect::NoEffect
}

/// `runs` splits `0..ids.len()` into maximal stretches of equal ids, in
/// order: each stretch is non-empty, holds one id, and differs in id from
/// the next.
pub open spec fn maximal_runs(ids: Seq<u32>, runs: Seq<(usize, usize)>) -> bool {
    &&& (ids.len() == 0 <==> runs.len() == 0)
    &&& runs.len() > 0 ==> runs[0].0 == 0 && runs.last().1 == ids.len()
    &&& forall|i: int| 0 <= i < runs.len() ==> (#[trigger] runs[i]).0 < runs[i].1
    &&& forall|i: int| 0 <= i < runs.len() - 1 ==> (#[trigger] runs[i]).1 == runs[i + 1].0
    &&& forall|i: int, j: int|
        0 <= i < runs.len() && runs[i].0 <= j < runs[i].1 ==> #[trigger] ids[j] == ids[(
        #[trigger] runs[i]).0 as int]
    &&& forall|i: int|
        0 <= i < runs.len() - 1 ==> ids[(#[trigger] runs[i]).0 as int] != ids[runs[i + 1].0 as int]
}

/// Splits a text, given the typeface id chosen for each of its characters,
/// into the stretches drawn with one typeface.
pub fn font_runs(ids: &Vec<u32>) -> (runs: Vec<(usize, usize)>)
    ensures
        maximal_runs(ids@, runs@),
{
    let mut runs: Vec<(usize, usize)> = Vec::new();
    let n = ids.len();
    if n == 0 {
        return runs;
    }
    let mut start: usize = 0;
    let mut i: usize = 1;
    while i < n
        invariant
            n == ids@.len(),
            0 <= start < i <= n,
            forall|j: int| start <= j < i ==> #[trigger] ids@[j] == ids@[start as int],
            runs@.len() == 0 <==> start == 0,
            runs@.len() > 0 ==> runs@[0].0 == 0 && runs@.last().1 == start,
            runs@.len() > 0 ==> ids@[runs@.last().0 as int] != ids@[start as int],
            forall|k: int| 0 <= k < runs@.len() ==> (#[trigger] runs@[k]).0 < runs@[k].1,
            forall|k: int| 0 <= k < runs@.len() - 1 ==> (#[trigger] runs@[k]).1 == runs@[k + 1].0,
            forall|k: int, j: int|
                0 <= k < runs@.len() && runs@[k].0 <= j < runs@[k].1 ==> #[trigger] ids@[j]
                    == ids@[(#[trigger] runs@[k]).0 as int],
            forall|k: int|
                0 <= k < runs@.len() - 1 ==> ids@[(#[trigger] runs@[k]).0 as int]
                    != ids@[runs@[k + 1].0 as int],
        decreases n - i,
    {
        if ids[i] != ids[start] {
            runs.push((start, i));
            start = i;
        }
        i += 1;
    }
    runs.push((start, n));
    runs
}

/// Cache key of a font style: weight, width and slant packed as
/// `weight << 16 | width << 8 | slant` (bits shifted past 32 are lost).
pub fn font_style_key(weight: u32, width: u32, slant: u32) -> (k: u32)
    ensures
        k == (weight << 16u32) | (width << 8u32) | slant,
        weight < 0x1_0000 && width < 0x100 && slant < 0x100 ==> k == weight * 0x1_0000 + width
            * 0x100 + slant,
{
    assert(weight < 0x1_0000 && width < 0x100 && slant < 0x100 ==> (weight << 16u32) | (width
        << 8u32) | slant == weight * 0x1_0000 + width * 0x100 + slant) by (bit_vector);
    (weight << 16u32) | (width << 8u32) | slant
}

} // verus!
