//! Deficiency modes and their channel-mix matrices.
//!
//! Weights are fixed-point: `MIX_SCALE` stands for a weight of one, so a
//! weight of `56667` means 0.56667 of the source channel.

use vstd::prelude::*;

verus! {

/// The fixed-point unit of a channel weight: a weight of exactly one.
pub const MIX_SCALE: u32 = 100000;

/// The different modes of color blindness simulation supported.
#[derive(Clone, Copy, Debug, PartialEq, Eq, Structural, Hash)]
pub enum ColorBlindnessMode {
    /// Normal full color vision.
    Normal,
    /// Inability to differentiate between green and red.
    Protanopia,
    /// Condition where red looks more green.
    Protanomaly,
    /// Inability to differentiate between green and red.
    Deuteranopia,
    /// Condition where green looks more red.
    Deuteranomaly,
    /// Inability to differentiate between blue and green, purple and red, and yellow and pink.
    Tritanopia,
    /// Difficulty differentiating between blue and green, and between yellow and red.
    Tritanomaly,
    /// Absence of color discrimination.
    Achromatopsia,
    /// All color cones have some form of deficiency.
    Achromatomaly,
}

/// How much of each source channel goes into one output channel,
/// in units of `1 / MIX_SCALE`.
#[derive(Clone, Copy, Debug, PartialEq, Eq, Structural)]
pub struct ChannelWeights {
    pub red: u32,
    pub green: u32,
    pub blue: u32,
}

/// Indicates how to mix the RGB channels to obtain output colors:
/// one row of weights per output channel.
#[derive(Clone, Copy, Debug, PartialEq, Eq, Structural)]
pub struct ColorBlindnessPercentages {
    /// Weights of red, green and blue mixed into the red channel.
    pub red: ChannelWeights,
    /// Weights of red, green and blue mixed into the green channel.
    pub green: ChannelWeights,
    /// Weights of red, green and blue mixed into the blue channel.
    pub blue: ChannelWeights,
}

pub open spec fn weights(red: u32, green: u32, blue: u32) -> ChannelWeights {
    ChannelWeights { red, green, blue }
}

pub open spec fn matrix(
    red: ChannelWeights,
    green: ChannelWeights,
    blue: ChannelWeights,
) -> ColorBlindnessPercentages {
    ColorBlindnessPercentages { red, green, blue }
}

/// The identity mix: every output channel is its own source channel.
pub open spec fn identity_matrix() -> ColorBlindnessPercentages {
    matrix(weights(100000, 0, 0), weights(0, 100000, 0), weights(0, 0, 100000))
}

/// The published simulation table, one matrix per mode.
pub open spec fn mix_table(m: ColorBlindnessMode) -> ColorBlindnessPercentages {
    match m {
        ColorBlindnessMode::Normal => identity_matrix(),
        ColorBlindnessMode::Protanopia => matrix(
            weights(56667, 43333, 0),
            weights(55833, 44167, 0),
            weights(0, 24167, 75833),
        ),
        ColorBlindnessMode::Protanomaly => matrix(
            weights(81667, 18333, 0),
            weights(33333, 66667, 0),
            weights(0, 12500, 87500),
        ),
        ColorBlindnessMode::Deuteranopia => matrix(
            weights(62500, 37500, 0),
            weights(70000, 30000, 0),
            weights(0, 30000, 70000),
        ),
        ColorBlindnessMode::Deuteranomaly => matrix(
            weights(80000, 20000, 0),
            weights(25833, 74167, 0),
            weights(0, 14167, 85833),
        ),
        ColorBlindnessMode::Tritanopia => matrix(
            weights(95000, 5000, 0),
            weights(0, 43333, 56667),
            weights(0, 47500, 52500),
        ),
        ColorBlindnessMode::Tritanomaly => matrix(
            weights(96667, 3333, 0),
            weights(0, 73333, 26667),
            weights(0, 18333, 81667),
        ),
        ColorBlindnessMode::Achromatopsia => matrix(
            weights(29900, 58700, 11400),
            weights(29900, 58700, 11400),
            weights(29900, 58700, 11400),
        ),
        ColorBlindnessMode::Achromatomaly => matrix(
            weights(61800, 32000, 6200),
            weights(16300, 77500, 6200),
            weights(16300, 32000, 51600),
        ),
    }
}

/// Position of a mode in the cycling order, from 0 (`Normal`) to 8.
pub open spec fn mode_index(m: ColorBlindnessMode) -> int {
    match m {
        ColorBlindnessMode::Normal => 0,
        ColorBlindnessMode::Protanopia => 1,
        ColorBlindnessMode::Protanomaly => 2,
        ColorBlindnessMode::Deuteranopia => 3,
        ColorBlindnessMode::Deuteranomaly => 4,
        ColorBlindnessMode::Tritanopia => 5,
        ColorBlindnessMode::Tritanomaly => 6,
        ColorBlindnessMode::Achromatopsia => 7,
        ColorBlindnessMode::Achromatomaly => 8,
    }
}

/// The mode at a position of the cycling order (taken modulo nine).
pub open spec fn mode_at(i: int) -> ColorBlindnessMode {
    let k = i % 9;
    if k == 0 {
        ColorBlindnessMode::Normal
    } else if k == 1 {
        ColorBlindnessMode::Protanopia
    } else if k == 2 {
        ColorBlindnessMode::Protanomaly
    } else if k == 3 {
        ColorBlindnessMode::Deuteranopia
    } else if k == 4 {
        ColorBlindnessMode::Deuteranomaly
    } else if k == 5 {
        ColorBlindnessMode::Tritanopia
    } else if k == 6 {
        ColorBlindnessMode::Tritanomaly
    } else if k == 7 {
        ColorBlindnessMode::Achromatopsia
    } else {
        ColorBlindnessMode::Achromatomaly
    }
}

/// The successor of a mode: the next one in declaration order, wrapping
/// from `Achromatomaly` back to `Normal`.
pub open spec fn next_mode(m: ColorBlindnessMode) -> ColorBlindnessMode {
    mode_at(mode_index(m) + 1)
}

/// The mode reached from `m` after `k` successive cycles.
pub open spec fn cycled(m: ColorBlindnessMode, k: nat) -> ColorBlindnessMode
    decreases k,
{
    if k == 0 {
        m
    } else {
        next_mode(cycled(m, (k - 1) as nat))
    }
}

/// Sum of the weights of one row, in units of `1 / MIX_SCALE`.
pub open spec fn row_total(w: ChannelWeights) -> int {
    w.red + w.green + w.blue
}

/// Row `i` of a matrix: 0 for red, 1 for green, 2 for blue.
pub open spec fn matrix_row(p: ColorBlindnessPercentages, i: int) -> ChannelWeights {
    if i == 0 {
        p.red
    } else if i == 1 {
        p.green
    } else {
        p.blue
    }
}

impl ChannelWeights {
    pub fn new(red: u32, green: u32, blue: u32) -> (r: ChannelWeights)
        ensures
            r == weights(red, green, blue),
    {
        ChannelWeights { red, green, blue }
    }
}

impl ColorBlindnessPercentages {
    /// Creates a new `ColorBlindnessPercentages` from its three rows.
    pub fn new(
        red: ChannelWeights,
        green: ChannelWeights,
        blue: ChannelWeights,
    ) -> (r: ColorBlindnessPercentages)
        ensures
            r == matrix(red, green, blue),
    {
        ColorBlindnessPercentages { red, green, blue }
    }
}

impl Default for ColorBlindnessMode {
    fn default() -> (r: ColorBlindnessMode)
        ensures
            r == ColorBlindnessMode::Normal,
    {
        ColorBlindnessMode::Normal
    }
}

impl ColorBlindnessMode {
    /// Returns the channel-mix matrix of this mode, from the published
    /// simulation table.
    pub fn percentages(&self) -> (r: ColorBlindnessPercentages)
        ensures
            r == mix_table(*self),
    {
        let w = |red: u32, green: u32, blue: u32| -> (r: ChannelWeights)
            ensures
                r == weights(red, green, blue),
            { ChannelWeights::new(red, green, blue) };
        match self {
            ColorBlindnessMode::Normal => ColorBlindnessPercentages::new(
                w(100000, 0, 0),
                w(0, 100000, 0),
                w(0, 0, 100000),
            ),
            ColorBlindnessMode::Protanopia => ColorBlindnessPercentages::new(
                w(56667, 43333, 0),
                w(55833, 44167, 0),
                w(0, 24167, 75833),
            ),
            ColorBlindnessMode::Protanomaly => ColorBlindnessPercentages::new(
                w(81667, 18333, 0),
                w(33333, 66667, 0),
                w(0, 12500, 87500),
            ),
            ColorBlindnessMode::Deuteranopia => ColorBlindnessPercentages::new(
                w(62500, 37500, 0),
                w(70000, 30000, 0),
                w(0, 30000, 70000),
            ),
            ColorBlindnessMode::Deuteranomaly => ColorBlindnessPercentages::new(
                w(80000, 20000, 0),
                w(25833, 74167, 0),
                w(0, 14167, 85833),
            ),
            ColorBlindnessMode::Tritanopia => ColorBlindnessPercentages::new(
                w(95000, 5000, 0),
                w(0, 43333, 56667),
                w(0, 47500, 52500),
            ),
            ColorBlindnessMode::Tritanomaly => ColorBlindnessPercentages::new(
                w(96667, 3333, 0),
                w(0, 73333, 26667),
                w(0, 18333, 81667),
            ),
            ColorBlindnessMode::Achromatopsia => ColorBlindnessPercentages::new(
                w(29900, 58700, 11400),
                w(29900, 58700, 11400),
                w(29900, 58700, 11400),
            ),
            ColorBlindnessMode::Achromatomaly => ColorBlindnessPercentages::new(
                w(61800, 32000, 6200),
                w(16300, 77500, 6200),
                w(16300, 32000, 51600),
            ),
        }
    }

    /// Changes `self` to the next mode, wrapping from the last back to `Normal`.
    pub fn cycle(&mut self)
        ensures
            *final(self) == next_mode(*old(self)),
    {
        *self = match *self {
            ColorBlindnessMode::Normal => ColorBlindnessMode::Protanopia,
            ColorBlindnessMode::Protanopia => ColorBlindnessMode::Protanomaly,
            ColorBlindnessMode::Protanomaly => ColorBlindnessMode::Deuteranopia,
            ColorBlindnessMode::Deuteranopia => ColorBlindnessMode::Deuteranomaly,
            ColorBlindnessMode::Deuteranomaly => ColorBlindnessMode::Tritanopia,
            ColorBlindnessMode::Tritanopia => ColorBlindnessMode::Tritanomaly,
            ColorBlindnessMode::Tritanomaly => ColorBlindnessMode::Achromatopsia,
            ColorBlindnessMode::Achromatopsia => ColorBlindnessMode::Achromatomaly,
            ColorBlindnessMode::Achromatomaly => ColorBlindnessMode::Normal,
        };
    }
}

/// The matrix of `Normal` is exactly the identity.
pub proof fn lemma_normal_is_identity()
    ensures
        mix_table(ColorBlindnessMode::Normal) == identity_matrix(),
        identity_matrix().red == weights(MIX_SCALE, 0, 0),
        identity_matrix().green == weights(0, MIX_SCALE, 0),
        identity_matrix().blue == weights(0, 0, MIX_SCALE),
{
}

/// Every weight of every matrix of the table lies between zero and one.
pub proof fn lemma_weights_within_unit(m: ColorBlindnessMode, i: int)
    requires
        0 <= i < 3,
    ensures
        matrix_row(mix_table(m), i).red <= MIX_SCALE,
        matrix_row(mix_table(m), i).green <= MIX_SCALE,
        matrix_row(mix_table(m), i).blue <= MIX_SCALE,
{
}

/// No row of the table mixes more than one whole channel's worth of input.
pub proof fn lemma_row_total_within_unit(m: ColorBlindnessMode, i: int)
    requires
        0 <= i < 3,
    ensures
        row_total(matrix_row(mix_table(m), i)) <= MIX_SCALE,
{
}

proof fn lemma_index_round_trip(m: ColorBlindnessMode)
    ensures
        0 <= mode_index(m) < 9,
        mode_at(mode_index(m)) == m,
{
}

proof fn lemma_cycled_index(m: ColorBlindnessMode, k: nat)
    ensures
        mode_index(cycled(m, k)) == (mode_index(m) + k) % 9,
    decreases k,
{
    if k > 0 {
        lemma_cycled_index(m, (k - 1) as nat);
        let prev = cycled(m, (k - 1) as nat);
        lemma_index_round_trip(prev);
        assert(mode_index(next_mode(prev)) == (mode_index(prev) + 1) % 9);
    } else {
        lemma_index_round_trip(m);
    }
}

/// Cycling nine times from any mode comes back to it, and no shorter
/// number of cycles does: the modes form one ring of nine.
pub proof fn lemma_cycle_period_nine(m: ColorBlindnessMode, k: nat)
    ensures
        cycled(m, 9) == m,
        0 < k < 9 ==> cycled(m, k) != m,
{
    lemma_cycled_index(m, 9);
    lemma_cycled_index(m, k);
    lemma_index_round_trip(m);
    lemma_index_round_trip(cycled(m, 9));
}

/// Cycling is a bijection on the modes: distinct modes have distinct
/// successors, and every mode is the successor of some mode.
pub proof fn lemma_cycle_bijective(a: ColorBlindnessMode, b: ColorBlindnessMode)
    ensures
        next_mode(a) == next_mode(b) ==> a == b,
        exists|p: ColorBlindnessMode| next_mode(p) == b,
        next_mode(a) != a,
{
    lemma_index_round_trip(a);
    lemma_index_round_trip(b);
    let p = mode_at(mode_index(b) + 8);
    assert(next_mode(p) == b);
}

} // verus!
