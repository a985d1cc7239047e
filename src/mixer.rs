//! Mixing the per-speaker sample arrays of one tick into a single frame.
use vstd::prelude::*;

verus! {

/// Sample rate in samples per millisecond (48 kHz).
pub const SAMPLE_RATE_KHZ: usize = 48;

/// Duration of one tick in milliseconds.
pub const TICK_MS: usize = 20;

/// Interleaved channels (stereo).
pub const CHANNELS: usize = 2;

/// Interleaved samples in one tick's frame.
pub const FRAME_LEN: usize = SAMPLE_RATE_KHZ * TICK_MS * CHANNELS;

/// Largest magnitude a mixed sample may reach without attenuation.
pub const SAMPLE_MAX: i128 = 32767;

/// Contribution of one speaker at position `i`: its sample there, or zero when
/// its array is absent or too short.
pub open spec fn voice_sample(voice: Option<Vec<i16>>, i: int) -> int {
    match voice {
        Some(v) => if 0 <= i < v@.len() {
            v@[i] as int
        } else {
            0
        },
        None => 0,
    }
}

/// Sum of all speakers' contributions at position `i`.
pub open spec fn voice_sum(voices: Seq<Option<Vec<i16>>>, i: int) -> int
    decreases voices.len(),
{
    if voices.len() == 0 {
        0
    } else {
        voice_sum(voices.drop_last(), i) + voice_sample(voices.last(), i)
    }
}

/// The adaptive divisor for a summed magnitude `m`: 1 while the magnitude fits
/// a 16-bit sample, otherwise just large enough to bring it back into range.
pub open spec fn divisor(m: int) -> int {
    if m <= 32767 {
        1
    } else {
        m / 32767 + 1
    }
}

/// A summed sample scaled into 16-bit range: divided by the adaptive divisor,
/// truncated toward zero.
pub open spec fn scale(sum: int) -> int {
    let m = if sum < 0 {
        -sum
    } else {
        sum
    };
    if sum < 0 {
        -(m / divisor(m))
    } else {
        m / divisor(m)
    }
}

/// The mixed frame of one tick.
pub open spec fn mixed_frame(voices: Seq<Option<Vec<i16>>>) -> Seq<i16> {
    Seq::new(FRAME_LEN as nat, |i: int| scale(voice_sum(voices, i)) as i16)
}

/// A non-negative magnitude divided by its divisor stays within `0..=32767`.
pub proof fn lemma_scaled_magnitude(m: int)
    requires
        m >= 0,
    ensures
        0 <= m / divisor(m) <= 32767,
{
    if m <= 32767 {
        assert(m / divisor(m) == m);
    } else {
        let d = divisor(m);
        vstd::arithmetic::div_mod::lemma_fundamental_div_mod(m, 32767);
        vstd::arithmetic::div_mod::lemma_fundamental_div_mod(m, d);
        let q = m / d;
        assert(m < 32767 * d);
        assert(0 <= m % d);
        assert(q >= 0) by {
            vstd::arithmetic::div_mod::lemma_div_pos_is_pos(m, d);
        }
        assert(q <= 32767) by (nonlinear_arith)
            requires
                m == d * q + m % d,
                m % d >= 0,
                m < 32767 * d,
                d >= 1,
        ;
    }
}

/// A scaled sample always fits a signed 16-bit sample, and keeps any value
/// already inside `-32767..=32767`.
pub proof fn lemma_scale_range(sum: int)
    ensures
        -32767 <= scale(sum) <= 32767,
        -32767 <= sum <= 32767 ==> scale(sum) == sum,
{
    let m = if sum < 0 {
        -sum
    } else {
        sum
    };
    lemma_scaled_magnitude(m);
}

/// The sum over `n` speakers is bounded by `n` full-scale samples.
pub proof fn lemma_voice_sum_bound(voices: Seq<Option<Vec<i16>>>, i: int)
    ensures
        -32768 * voices.len() <= voice_sum(voices, i) <= 32767 * voices.len(),
    decreases voices.len(),
{
    if voices.len() > 0 {
        lemma_voice_sum_bound(voices.drop_last(), i);
    }
}

/// Adding the next speaker of a prefix adds its contribution.
pub proof fn lemma_voice_sum_step(voices: Seq<Option<Vec<i16>>>, k: int, i: int)
    requires
        0 <= k < voices.len(),
    ensures
        voice_sum(voices.take(k + 1), i) == voice_sum(voices.take(k), i) + voice_sample(
            voices[k],
            i,
        ),
{
    assert(voices.take(k + 1).drop_last() =~= voices.take(k));
    assert(voices.take(k + 1).last() == voices[k]);
}

/// A tick with no speakers mixes to silence of the full frame length.
pub proof fn lemma_silence()
    ensures
        mixed_frame(Seq::empty()).len() == FRAME_LEN,
        forall|i: int| 0 <= i < FRAME_LEN ==> #[trigger] mixed_frame(Seq::empty())[i] == 0,
{
    assert forall|i: int| 0 <= i < FRAME_LEN implies #[trigger] mixed_frame(Seq::empty())[i]
        == 0 by {
        assert(voice_sum(Seq::empty(), i) == 0);
        lemma_scale_range(0);
    }
}

/// A single full-length speaker whose samples all lie strictly inside
/// `-32767..=32767` passes through the mixer unchanged.
pub proof fn lemma_single_voice_unchanged(voice: Vec<i16>)
    requires
        voice@.len() == FRAME_LEN,
        forall|j: int| 0 <= j < voice@.len() ==> -32767 <= #[trigger] voice@[j] <= 32767,
    ensures
        mixed_frame(seq![Some(voice)]) == voice@,
{
    let voices = seq![Some(voice)];
    assert forall|i: int| 0 <= i < FRAME_LEN implies #[trigger] mixed_frame(voices)[i]
        == voice@[i] by {
        assert(voices.drop_last() =~= Seq::empty());
        assert(voice_sum(voices.drop_last(), i) == 0);
        assert(voices.last() == Some(voice));
        assert(voice_sum(voices, i) == voice@[i] as int);
        lemma_scale_range(voice@[i] as int);
    }
    assert(mixed_frame(voices) =~= voice@);
}

/// Mixes one tick: sums every speaker's samples position by position (absent
/// arrays and missing positions count as zero), then scales each sum by the
/// adaptive divisor.
pub fn mix_tick(voices: &Vec<Option<Vec<i16>>>) -> (r: Vec<i16>)
    ensures
        r@ == mixed_frame(voices@),
        r@.len() == FRAME_LEN,
        forall|i: int| 0 <= i < FRAME_LEN ==> #[trigger] r@[i] as int == scale(voice_sum(voices@, i)),
{
    let mut acc: Vec<i128> = Vec::new();
    while acc.len() < FRAME_LEN
        invariant
            acc@.len() <= FRAME_LEN,
            forall|i: int| 0 <= i < acc@.len() ==> acc@[i] == 0,
        decreases FRAME_LEN - acc@.len(),
    {
        acc.push(0);
    }
    let n: usize = voices.len();
    let mut k: usize = 0;
    while k < n
        invariant
            n == voices@.len(),
            k <= voices@.len(),
            acc@.len() == FRAME_LEN,
            forall|i: int|
                0 <= i < FRAME_LEN ==> acc@[i] == #[trigger] voice_sum(voices@.take(k as int), i),
        decreases voices@.len() - k,
    {
        match &voices[k] {
            Some(v) => {
                let mut i: usize = 0;
                while i < FRAME_LEN && i < v.len()
                    invariant
                        voices@[k as int] == Some(*v),
                        k < voices@.len(),
                        i <= FRAME_LEN,
                        acc@.len() == FRAME_LEN,
                        forall|j: int|
                            0 <= j < i ==> acc@[j] == #[trigger] voice_sum(
                                voices@.take(k as int + 1),
                                j,
                            ),
                        forall|j: int|
                            i <= j < FRAME_LEN ==> acc@[j] == #[trigger] voice_sum(
                                voices@.take(k as int),
                                j,
                            ),
                    decreases FRAME_LEN - i,
                {
                    proof {
                        lemma_voice_sum_bound(voices@.take(k as int), i as int);
                        lemma_voice_sum_step(voices@, k as int, i as int);
                        assert(32768 * k <= 32768 * 0x1_0000_0000_0000_0000int) by (nonlinear_arith)
                            requires
                                k <= 0x1_0000_0000_0000_0000int,
                        ;
                    }
                    let s: i128 = acc[i] + v[i] as i128;
                    acc.set(i, s);
                    i = i + 1;
                }
                proof {
                    assert forall|j: int| 0 <= j < FRAME_LEN implies acc@[j] == #[trigger] voice_sum(
                        voices@.take(k as int + 1),
                        j,
                    ) by {
                        lemma_voice_sum_step(voices@, k as int, j);
                        if j >= i {
                            assert(voice_sample(Some(*v), j) == 0);
                        }
                    }
                }
            },
            None => {
                proof {
                    assert forall|j: int| 0 <= j < FRAME_LEN implies acc@[j] == #[trigger] voice_sum(
                        voices@.take(k as int + 1),
                        j,
                    ) by {
                        lemma_voice_sum_step(voices@, k as int, j);
                    }
                }
            },
        }
        k = k + 1;
    }
    assert(voices@.take(voices@.len() as int) =~= voices@);
    let mut out: Vec<i16> = Vec::new();
    let mut i: usize = 0;
    while i < FRAME_LEN
        invariant
            n == voices@.len(),
            i <= FRAME_LEN,
            acc@.len() == FRAME_LEN,
            out@.len() == i,
            forall|j: int| 0 <= j < FRAME_LEN ==> acc@[j] == #[trigger] voice_sum(voices@, j),
            forall|j: int|
                0 <= j < i ==> #[trigger] out@[j] as int == scale(voice_sum(voices@, j)),
        decreases FRAME_LEN - i,
    {
        let s: i128 = acc[i];
        proof {
            lemma_voice_sum_bound(voices@, i as int);
            assert(32768 * voices@.len() <= 32768 * 0x1_0000_0000_0000_0000int) by (nonlinear_arith)
                requires
                    voices@.len() <= 0x1_0000_0000_0000_0000int,
            ;
            let m = if s < 0 {
                -s
            } else {
                s as int
            };
            lemma_scaled_magnitude(m);
        }
        let m: i128 = if s < 0 {
            -s
        } else {
            s
        };
        let d: i128 = if m <= SAMPLE_MAX {
            1
        } else {
            m / SAMPLE_MAX + 1
        };
        let q: i128 = m / d;
        let x: i16 = if s < 0 {
            (-q) as i16
        } else {
            q as i16
        };
        out.push(x);
        i = i + 1;
    }
    assert(out@ =~= mixed_frame(voices@));
    out
}

} // verus!
