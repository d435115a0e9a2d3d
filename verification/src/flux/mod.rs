//! Flux transitions and the kinds of revolution a flux track holds.
use vstd::prelude::*;

pub mod pll;

verus! {

/// A flux transition classified by its length: two, three or four bit cells, or other.
#[derive(Clone, Copy, Debug, PartialEq, Eq, Structural)]
pub enum FluxTransition {
    Short,
    Medium,
    Long,
    Other,
}

/// The bit cells a transition stands for: a one followed by one, two or three zeros, or
/// none for a transition of no class.
pub open spec fn transition_bits(t: FluxTransition) -> Seq<bool> {
    match t {
        FluxTransition::Short => seq![true, false],
        FluxTransition::Medium => seq![true, false, false],
        FluxTransition::Long => seq![true, false, false, false],
        FluxTransition::Other => Seq::empty(),
    }
}

impl FluxTransition {
    /// The bit cells the transition stands for.
    pub fn to_bits(&self) -> (r: Vec<bool>)
        ensures
            r@ == transition_bits(*self),
    {
        let r = match self {
            FluxTransition::Short => vec![true, false],
            FluxTransition::Medium => vec![true, false, false],
            FluxTransition::Long => vec![true, false, false, false],
            FluxTransition::Other => Vec::new(),
        };
        assert(r@ =~= transition_bits(*self));
        r
    }

    /// The letter that shows the transition: `S`, `M`, `L`, or `X` for other.
    pub fn to_string(&self) -> (r: &'static str)
        ensures
            r@ == match *self {
                FluxTransition::Short => "S"@,
                FluxTransition::Medium => "M"@,
                FluxTransition::Long => "L"@,
                FluxTransition::Other => "X"@,
            },
    {
        match self {
            FluxTransition::Short => "S",
            FluxTransition::Medium => "M",
            FluxTransition::Long => "L",
            FluxTransition::Other => "X",
        }
    }
}

/// Whether a revolution was read from the image or made from others.
#[derive(Clone, Copy, Debug, PartialEq, Eq, Structural)]
pub enum FluxRevolutionType {
    Source,
    Synthetic,
}

/// The tuning of the phase locked loop that decodes flux.
#[derive(Clone, Copy, Debug, PartialEq, Eq, Structural)]
pub enum PllPreset {
    Aggressive,
    Conservative,
}

} // verus!
