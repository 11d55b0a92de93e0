use vstd::prelude::*;

verus! {

/// The three stacked tile map layers, front to back.
#[derive(Clone, Copy, Debug, PartialEq, Eq, Structural)]
pub enum Layer {
    World,
    Near,
    Far,
}

/// Every layer, front to back.
pub const ALL_LAYERS: [Layer; 3] = [Layer::World, Layer::Near, Layer::Far];

impl Default for Layer {
    fn default() -> (r: Layer)
        ensures
            r == Layer::World,
    {
        Layer::World
    }
}

/// The layer behind `l`; the back layer stays where it is.
pub open spec fn next_layer(l: Layer) -> Layer {
    match l {
        Layer::World => Layer::Near,
        Layer::Near => Layer::Far,
        Layer::Far => Layer::Far,
    }
}

/// The layer behind `l`, going round from the back to the front.
pub open spec fn wrapping_next_layer(l: Layer) -> Layer {
    match l {
        Layer::World => Layer::Near,
        Layer::Near => Layer::Far,
        Layer::Far => Layer::World,
    }
}

/// Position of a layer from the front (0) to the back (2).
pub open spec fn layer_depth(l: Layer) -> nat {
    match l {
        Layer::World => 0,
        Layer::Near => 1,
        Layer::Far => 2,
    }
}

impl Layer {
    pub fn next(&self) -> (r: Self)
        ensures
            r == next_layer(*self),
    {
        match self {
            Layer::World => Layer::Near,
            Layer::Near => Layer::Far,
            Layer::Far => Layer::Far,
        }
    }

    pub fn wrapping_next(&self) -> (r: Self)
        ensures
            r == wrapping_next_layer(*self),
    {
        match self {
            Layer::World => Layer::Near,
            Layer::Near => Layer::Far,
            Layer::Far => Layer::World,
        }
    }

    /// The layer's drawing depth: 0 for the front layer, 2 for the back one.
    pub fn z_order(&self) -> (r: u8)
        ensures
            r == layer_depth(*self),
    {
        match self {
            Layer::World => 0,
            Layer::Near => 1,
            Layer::Far => 2,
        }
    }

    pub fn name(&self) -> (r: &'static str)
        ensures
            *self == Layer::World ==> r@ == "World"@,
            *self == Layer::Near ==> r@ == "Near"@,
            *self == Layer::Far ==> r@ == "Far"@,
    {
        match self {
            Layer::World => "World",
            Layer::Near => "Near",
            Layer::Far => "Far",
        }
    }
}

/// Cycling through the layers comes back to the start after three steps,
/// and visits every layer on the way.
pub proof fn law_wrapping_next_cycles(l: Layer)
    ensures
        wrapping_next_layer(wrapping_next_layer(wrapping_next_layer(l))) == l,
        wrapping_next_layer(l) != l,
        wrapping_next_layer(wrapping_next_layer(l)) != l,
{
}

/// `next` moves one layer back and stops at the back layer; it agrees with
/// the wrapping step everywhere else.
pub proof fn law_next_stops_at_back(l: Layer)
    ensures
        l != Layer::Far ==> layer_depth(next_layer(l)) == layer_depth(l) + 1,
        l != Layer::Far ==> next_layer(l) == wrapping_next_layer(l),
        next_layer(Layer::Far) == Layer::Far,
        layer_depth(next_layer(l)) >= layer_depth(l),
{
}

} // verus!
