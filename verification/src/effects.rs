//! Celebration effects drawn over slides, and the deterministic hash that drives their particles.
use vstd::prelude::*;

verus! {

/// Celebration and presentation-style screen effects.
#[derive(Clone, Copy, Debug, PartialEq, Eq, Structural)]
pub enum SlideEffectKind {
    /// Colorful explosive fireworks with sparkling light trails
    Fireworks,
    /// Festive tumbling confetti paper raining downward
    Confetti,
    /// Colorful party balloons floating upward with string sways
    Balloons,
    /// Graceful flock of birds soaring across the sky
    Birds,
    /// Cheerful pulsing clapping hands with celebration bursts
    Clapping,
    /// Luminous shooting stars streaking diagonally across the screen
    ShootingStar,
}

impl SlideEffectKind {
    /// Every effect, in menu order.
    pub fn all() -> (r: &'static [SlideEffectKind])
        ensures
            r@ == seq![SlideEffectKind::Fireworks, SlideEffectKind::Confetti, SlideEffectKind::Balloons, SlideEffectKind::Birds, SlideEffectKind::Clapping, SlideEffectKind::ShootingStar],
    {
        &[
            SlideEffectKind::Fireworks,
            SlideEffectKind::Confetti,
            SlideEffectKind::Balloons,
            SlideEffectKind::Birds,
            SlideEffectKind::Clapping,
            SlideEffectKind::ShootingStar,
        ]
    }

    /// Menu label of the effect.
    pub fn label(&self) -> (r: &'static str)
        ensures
            r == match *self {
                SlideEffectKind::Fireworks => "Fireworks",
                SlideEffectKind::Confetti => "Confetti",
                SlideEffectKind::Balloons => "Floating Balloons",
                SlideEffectKind::Birds => "Flying Birds",
                SlideEffectKind::Clapping => "Clapping Applause",
                SlideEffectKind::ShootingStar => "Shooting Star",
            },
    {
        match self {
            SlideEffectKind::Fireworks => "Fireworks",
            SlideEffectKind::Confetti => "Confetti",
            SlideEffectKind::Balloons => "Floating Balloons",
            SlideEffectKind::Birds => "Flying Birds",
            SlideEffectKind::Clapping => "Clapping Applause",
            SlideEffectKind::ShootingStar => "Shooting Star",
        }
    }

    /// Icon of the effect.
    pub fn icon(&self) -> (r: &'static str)
        ensures
            r == match *self {
                SlideEffectKind::Fireworks => "🎆",
                SlideEffectKind::Confetti => "🎊",
                SlideEffectKind::Balloons => "🎈",
                SlideEffectKind::Birds => "🕊️",
                SlideEffectKind::Clapping => "👏",
                SlideEffectKind::ShootingStar => "🌠",
            },
    {
        match self {
            SlideEffectKind::Fireworks => "🎆",
            SlideEffectKind::Confetti => "🎊",
            SlideEffectKind::Balloons => "🎈",
            SlideEffectKind::Birds => "🕊️",
            SlideEffectKind::Clapping => "👏",
            SlideEffectKind::ShootingStar => "🌠",
        }
    }

    /// One-line description of the effect.
    pub fn description(&self) -> (r: &'static str)
        ensures
            r == match *self {
                SlideEffectKind::Fireworks => "Vibrant colorful bursts with sparkling light trails",
                SlideEffectKind::Confetti => "Celebratory confetti ribbons raining down",
                SlideEffectKind::Balloons => "Party balloons gently floating up the screen",
                SlideEffectKind::Birds => "Flock of birds gracefully soaring across",
                SlideEffectKind::Clapping => "Rhythmic cheering applause with sparkle pops",
                SlideEffectKind::ShootingStar => "Magical glowing stars streaking across the sky",
            },
    {
        match self {
            SlideEffectKind::Fireworks => "Vibrant colorful bursts with sparkling light trails",
            SlideEffectKind::Confetti => "Celebratory confetti ribbons raining down",
            SlideEffectKind::Balloons => "Party balloons gently floating up the screen",
            SlideEffectKind::Birds => "Flock of birds gracefully soaring across",
            SlideEffectKind::Clapping => "Rhythmic cheering applause with sparkle pops",
            SlideEffectKind::ShootingStar => "Magical glowing stars streaking across the sky",
        }
    }
}


/// Unsigned 32-bit product, wrapped modulo 2^32.
pub open spec fn wrap_mul_u32(x: u32, y: u32) -> u32 {
    ((x as nat * y as nat) % 0x1_0000_0000nat) as u32
}

/// The integer mixing hash that seeds every particle: xor-shift, multiply, xor-shift,
/// multiply, xor-shift, all wrapping at 32 bits.
pub open spec fn particle_hash(x: u32) -> u32 {
    let a = x ^ (x >> 16u32);
    let b = wrap_mul_u32(a, 0x45d9f3bu32);
    let c = b ^ (b >> 16u32);
    let d = wrap_mul_u32(c, 0x45d9f3bu32);
    d ^ (d >> 16u32)
}

/// Deterministic, stateless particle animation: every position is computed from time, so
/// scrubbing needs no stored state.
pub struct EffectParticleSimulator;

impl EffectParticleSimulator {
    /// Integer hash used to derive per-particle pseudo-random values.
    pub fn hash(x: u32) -> (h: u32)
        ensures
            h == particle_hash(x),
    {
        let mut x = x;
        x ^= x >> 16;
        x = x.wrapping_mul(0x45d9f3b);
        x ^= x >> 16;
        x = x.wrapping_mul(0x45d9f3b);
        x ^= x >> 16;
        x
    }
}

} // verus!
