//! Voices and their saturating mix-down into stereo samples.

use vstd::prelude::*;

verus! {

/// 16 bit integer sample.
pub type Sample = i16;

/// A stereo pair of samples: left, then right.
pub type StereoSample = [Sample; 2];

/// What one sounding key contributes to one frame, before its gains.
///
/// The amplitude is the fraction `numer / denom`. The contribution to the
/// left channel is the amplitude times ten to the power of
/// `(mix + left) / 2000`, cut to the range of a [`Sample`]; to the right
/// channel likewise with `right`. A voice without a mix exponent has gain
/// zero and contributes silence.
#[derive(Clone, Copy, PartialEq, Eq, Structural, Debug)]
pub struct Voice {
    /// Numerator of the amplitude.
    pub numer: i64,
    /// Denominator of the amplitude; not zero.
    pub denom: u32,
    /// Exponent of the mix gain, or `None` where that gain is zero.
    pub mix: Option<i32>,
    /// Exponent of the left gain.
    pub left: i16,
    /// Exponent of the right gain.
    pub right: i16,
}

/// `value` cut to the range of a [`Sample`].
pub open spec fn saturate(value: int) -> Sample {
    if value > i16::MAX {
        i16::MAX
    } else if value < i16::MIN {
        i16::MIN
    } else {
        value as i16
    }
}

/// Channel `channel` of the first `n` contributions added up in order, each
/// addition saturating.
pub open spec fn mixed(contributions: Seq<StereoSample>, channel: int, n: int) -> Sample
    decreases n,
{
    if n <= 0 {
        0
    } else {
        saturate(mixed(contributions, channel, n - 1) + contributions[n - 1]@[channel])
    }
}

/// Channel `channel` of the first `n` contributions added up without bounds.
pub open spec fn summed(contributions: Seq<StereoSample>, channel: int, n: int) -> int
    decreases n,
{
    if n <= 0 {
        0
    } else {
        summed(contributions, channel, n - 1) + contributions[n - 1]@[channel]
    }
}

/// Adds `contribution` to `frame`, each channel saturating.
pub fn mix(frame: &mut StereoSample, contribution: StereoSample)
    ensures
        final(frame)@[0] == saturate(old(frame)@[0] + contribution@[0]),
        final(frame)@[1] == saturate(old(frame)@[1] + contribution@[1]),
{
    let left: Sample = saturating_sum(frame[0], contribution[0]);
    let right: Sample = saturating_sum(frame[1], contribution[1]);
    frame[0] = left;
    frame[1] = right;
}

/// The sum of two samples, cut to the range of a [`Sample`].
pub fn saturating_sum(a: Sample, b: Sample) -> (sum: Sample)
    ensures
        sum == saturate(a + b),
{
    let wide: i32 = a as i32 + b as i32;
    if wide > 32_767 {
        32_767
    } else if wide < -32_768 {
        -32_768
    } else {
        wide as i16
    }
}

/// The stereo sample of one frame: all contributions added up in order, each
/// addition saturating. No contribution gives silence.
pub fn mix_frame(contributions: &Vec<StereoSample>) -> (frame: StereoSample)
    ensures
        frame@[0] == mixed(contributions@, 0, contributions@.len() as int),
        frame@[1] == mixed(contributions@, 1, contributions@.len() as int),
{
    let mut frame: StereoSample = [0i16;2];
    let mut i: usize = 0;
    while i < contributions.len()
        invariant
            i <= contributions@.len(),
            frame@[0] == mixed(contributions@, 0, i as int),
            frame@[1] == mixed(contributions@, 1, i as int),
        decreases contributions@.len() - i,
    {
        mix(&mut frame, contributions[i]);
        i = i + 1;
    }
    frame
}

/// Whether `contributions` holds one result of `sound` for each of `voices`,
/// in order, and `left` and `right` are their mix.
pub open spec fn mixes<F: Fn(Voice) -> StereoSample>(
    sound: F,
    voices: Seq<Voice>,
    contributions: Seq<StereoSample>,
    left: Sample,
    right: Sample,
) -> bool {
    &&& contributions.len() == voices.len()
    &&& forall|j: int|
        0 <= j < voices.len() ==> call_ensures(sound, (voices[j],), #[trigger] contributions[j])
    &&& left == mixed(contributions, 0, voices.len() as int)
    &&& right == mixed(contributions, 1, voices.len() as int)
}

/// Whether `left` and `right` are what `voices` sound like under `sound`:
/// the saturating sum, in order, of what `sound` makes of each voice.
pub open spec fn sounds_like<F: Fn(Voice) -> StereoSample>(
    sound: F,
    voices: Seq<Voice>,
    left: Sample,
    right: Sample,
) -> bool {
    exists|contributions: Seq<StereoSample>| mixes(sound, voices, contributions, left, right)
}

/// Whether `sound` makes one thing only of each voice.
pub open spec fn single_valued<F: Fn(Voice) -> StereoSample>(sound: F) -> bool {
    forall|voice: Voice, first: StereoSample, second: StereoSample|
        call_ensures(sound, (voice,), first) && call_ensures(sound, (voice,), second) ==> first
            == second
}

/// The stereo sample of one frame: what `sound` makes of each voice, added up
/// in order, each addition saturating. No voice gives silence.
pub fn mix_voices<F: Fn(Voice) -> StereoSample>(voices: &Vec<Voice>, sound: &F) -> (frame:
    StereoSample)
    requires
        forall|voice: Voice| call_requires(*sound, (voice,)),
    ensures
        sounds_like(*sound, voices@, frame@[0], frame@[1]),
{
    let mut frame: StereoSample = [0i16;2];
    let ghost mut contributions: Seq<StereoSample> = Seq::empty();
    let mut i: usize = 0;
    while i < voices.len()
        invariant
            i <= voices@.len(),
            forall|voice: Voice| call_requires(*sound, (voice,)),
            contributions.len() == i,
            forall|j: int|
                0 <= j < i ==> call_ensures(*sound, (voices@[j],), #[trigger] contributions[j]),
            frame@[0] == mixed(contributions, 0, i as int),
            frame@[1] == mixed(contributions, 1, i as int),
        decreases voices@.len() - i,
    {
        let contribution: StereoSample = sound(voices[i]);
        mix(&mut frame, contribution);
        proof {
            let longer: Seq<StereoSample> = contributions.push(contribution);
            lemma_mix_of_prefix(contributions, longer, 0, i as int);
            lemma_mix_of_prefix(contributions, longer, 1, i as int);
            contributions = longer;
        }
        i = i + 1;
    }
    assert(mixes(*sound, voices@, contributions, frame@[0], frame@[1]));
    frame
}

/// A mix of the first `n` contributions looks at no other.
pub proof fn lemma_mix_of_prefix(
    first: Seq<StereoSample>,
    second: Seq<StereoSample>,
    channel: int,
    n: int,
)
    requires
        forall|i: int| 0 <= i < n ==> first[i] == second[i],
    ensures
        mixed(first, channel, n) == mixed(second, channel, n),
    decreases n,
{
    if n > 0 {
        lemma_mix_of_prefix(first, second, channel, n - 1);
    }
}

/// No voice sounds like silence, whatever `sound` is.
pub proof fn lemma_no_voice_is_silence<F: Fn(Voice) -> StereoSample>(
    sound: F,
    left: Sample,
    right: Sample,
)
    requires
        sounds_like(sound, Seq::<Voice>::empty(), left, right),
    ensures
        left == 0,
        right == 0,
{
    let contributions: Seq<StereoSample> = choose|contributions: Seq<StereoSample>|
        mixes(sound, Seq::<Voice>::empty(), contributions, left, right);
    assert(mixes(sound, Seq::<Voice>::empty(), contributions, left, right));
}

/// Where `sound` makes one thing only of each voice, voices sound like one
/// thing only.
pub proof fn lemma_one_sound<F: Fn(Voice) -> StereoSample>(
    sound: F,
    voices: Seq<Voice>,
    left: Sample,
    right: Sample,
    other_left: Sample,
    other_right: Sample,
)
    requires
        single_valued(sound),
        sounds_like(sound, voices, left, right),
        sounds_like(sound, voices, other_left, other_right),
    ensures
        left == other_left,
        right == other_right,
{
    let first: Seq<StereoSample> = choose|contributions: Seq<StereoSample>|
        mixes(sound, voices, contributions, left, right);
    let second: Seq<StereoSample> = choose|contributions: Seq<StereoSample>|
        mixes(sound, voices, contributions, other_left, other_right);
    assert(mixes(sound, voices, first, left, right));
    assert(mixes(sound, voices, second, other_left, other_right));
    assert forall|j: int| 0 <= j < voices.len() implies first[j] == second[j] by {
        assert(call_ensures(sound, (voices[j],), first[j]));
        assert(call_ensures(sound, (voices[j],), second[j]));
    }
    lemma_mix_of_prefix(first, second, 0, voices.len() as int);
    lemma_mix_of_prefix(first, second, 1, voices.len() as int);
}

/// Mixing nothing gives silence.
pub proof fn lemma_mix_of_nothing(contributions: Seq<StereoSample>, channel: int)
    ensures
        mixed(contributions, channel, 0) == 0,
{
}

/// Mixing silence gives silence.
pub proof fn lemma_mix_of_silence(contributions: Seq<StereoSample>, channel: int, n: int)
    requires
        0 <= n <= contributions.len(),
        forall|i: int| 0 <= i < n ==> (#[trigger] contributions[i])@[channel] == 0,
    ensures
        mixed(contributions, channel, n) == 0,
    decreases n,
{
    if n > 0 {
        lemma_mix_of_silence(contributions, channel, n - 1);
    }
}

/// A mix never wraps around. Where no contribution is negative, the mix is
/// the true sum as long as that fits, and the largest sample from then on;
/// where none is positive, it is the true sum or the smallest sample.
pub proof fn lemma_mix_saturates(contributions: Seq<StereoSample>, channel: int, n: int)
    requires
        0 <= n <= contributions.len(),
    ensures
        (forall|i: int| 0 <= i < n ==> (#[trigger] contributions[i])@[channel] >= 0) ==> mixed(
            contributions,
            channel,
            n,
        ) == saturate(summed(contributions, channel, n)) && summed(contributions, channel, n) >= 0,
        (forall|i: int| 0 <= i < n ==> (#[trigger] contributions[i])@[channel] <= 0) ==> mixed(
            contributions,
            channel,
            n,
        ) == saturate(summed(contributions, channel, n)) && summed(contributions, channel, n) <= 0,
    decreases n,
{
    if n > 0 {
        lemma_mix_saturates(contributions, channel, n - 1);
    }
}

} // verus!
