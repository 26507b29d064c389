use vstd::prelude::*;
use std::collections::HashMap;
use vstd::std_specs::hash::spec_hash_map_iter;
use vstd::std_specs::iter::IteratorSpec;

verus! {

broadcast use vstd::std_specs::hash::group_hash_axioms;

/// One counted thumbnail pixel: its quantized colour and its weight.
pub type WeightedSample = (u8, u8, u8, u32);

/// The colour used when no pixel was counted: sky blue.
pub open spec fn fallback_color() -> (u8, u8, u8) {
    (56, 189, 248)
}

/// The centre of the 16-wide bucket that holds `c`.
pub open spec fn quantized(c: u8) -> u8 {
    ((c as int / 16) * 16 + 8) as u8
}

/// The colour of a sample.
pub open spec fn sample_color(s: WeightedSample) -> (u8, u8, u8) {
    (s.0, s.1, s.2)
}

/// The total weight of the samples of colour `c`.
pub open spec fn color_weight(samples: Seq<WeightedSample>, c: (u8, u8, u8)) -> nat
    decreases samples.len(),
{
    if samples.len() == 0 {
        0
    } else {
        color_weight(samples.drop_last(), c) + if sample_color(samples.last()) == c {
            samples.last().3 as nat
        } else {
            0
        }
    }
}

/// `c` has the greatest total weight among the sampled colours.
pub open spec fn is_dominant(samples: Seq<WeightedSample>, c: (u8, u8, u8)) -> bool {
    &&& exists|i: int| 0 <= i < samples.len() && sample_color(#[trigger] samples[i]) == c
    &&& forall|d: (u8, u8, u8)| color_weight(samples, d) <= #[trigger] color_weight(samples, c)
}

/// The histogram key of a colour: its 24-bit RGB value.
pub open spec fn color_key(c: (u8, u8, u8)) -> u32 {
    (c.0 as int * 65536 + c.1 as int * 256 + c.2 as int) as u32
}

/// Quantize a channel to the centre of its 16-wide bucket, clustering nearby tones.
pub fn quantize_channel(c: u8) -> (q: u8)
    ensures
        q == quantized(c),
        q as int % 16 == 8,
        c as int - 8 < q <= c as int + 8,
{
    (c / 16) * 16 + 8
}

proof fn lemma_key_unpacks(c: (u8, u8, u8))
    ensures
        color_key(c) as int / 65536 == c.0,
        (color_key(c) as int / 256) % 256 == c.1,
        color_key(c) as int % 256 == c.2,
{
    let k = c.0 as int * 65536 + c.1 as int * 256 + c.2 as int;
    assert(0 <= k < 16777216) by (nonlinear_arith)
        requires
            k == c.0 as int * 65536 + c.1 as int * 256 + c.2 as int,
            0 <= c.0 < 256,
            0 <= c.1 < 256,
            0 <= c.2 < 256,
    ;
    assert(k / 65536 == c.0 && (k / 256) % 256 == c.1 && k % 256 == c.2) by (nonlinear_arith)
        requires
            k == c.0 as int * 65536 + c.1 as int * 256 + c.2 as int,
            0 <= c.0 < 256,
            0 <= c.1 < 256,
            0 <= c.2 < 256,
    ;
}

proof fn lemma_key_packs(k: u32)
    requires
        k < 16777216,
    ensures
        color_key(((k / 65536) as u8, ((k / 256) % 256) as u8, (k % 256) as u8)) == k,
{
    let a = k as int / 65536;
    let b = (k as int / 256) % 256;
    let c = k as int % 256;
    assert(0 <= a < 256 && a * 65536 + b * 256 + c == k) by (nonlinear_arith)
        requires
            0 <= k < 16777216,
            a == k / 65536,
            b == (k / 256) % 256,
            c == k % 256,
    ;
}

proof fn lemma_key_injective(c: (u8, u8, u8), d: (u8, u8, u8))
    requires
        color_key(c) == color_key(d),
    ensures
        c == d,
{
    lemma_key_unpacks(c);
    lemma_key_unpacks(d);
}

proof fn lemma_weight_prefix(samples: Seq<WeightedSample>, i: int, c: (u8, u8, u8))
    requires
        0 <= i <= samples.len(),
    ensures
        color_weight(samples.take(i), c) <= color_weight(samples, c),
    decreases samples.len(),
{
    if i < samples.len() {
        assert(samples.drop_last().take(i) =~= samples.take(i));
        lemma_weight_prefix(samples.drop_last(), i, c);
    } else {
        assert(samples.take(i) =~= samples);
    }
}

/// Every colour's total weight fits in a `u32`.
pub open spec fn weights_fit(samples: Seq<WeightedSample>) -> bool {
    forall|c: (u8, u8, u8)| #[trigger] color_weight(samples, c) <= u32::MAX
}

proof fn lemma_absent_color_weighs_nothing(samples: Seq<WeightedSample>, c: (u8, u8, u8))
    requires
        forall|i: int| 0 <= i < samples.len() ==> sample_color(#[trigger] samples[i]) != c,
    ensures
        color_weight(samples, c) == 0,
    decreases samples.len(),
{
    if samples.len() > 0 {
        let t = samples.drop_last();
        assert forall|i: int| 0 <= i < t.len() implies sample_color(#[trigger] t[i]) != c by {
            assert(t[i] == samples[i]);
        }
        lemma_absent_color_weighs_nothing(t, c);
        assert(samples.last() == samples[samples.len() - 1]);
    }
}

/// Whether every colour's total weight fits in a `u32`, the condition `dominant_color` needs.
pub fn colour_weights_fit(samples: &Vec<WeightedSample>) -> (res: bool)
    ensures
        res == weights_fit(samples@),
{
    let n = samples.len();
    let mut hist: HashMap<u32, u64> = HashMap::new();
    for i in 0..n
        invariant
            n == samples@.len(),
            forall|k: u32| #[trigger] hist@.contains_key(k) ==> k < 16777216,
            forall|c: (u8, u8, u8)|
                #[trigger] hist@.contains_key(color_key(c)) <==> exists|j: int|
                    0 <= j < i && sample_color(#[trigger] samples@[j]) == c,
            forall|c: (u8, u8, u8)|
                #[trigger] hist@.contains_key(color_key(c)) ==> hist@[color_key(c)]
                    == color_weight(samples@.take(i as int), c),
            forall|k: u32| #[trigger] hist@.contains_key(k) ==> hist@[k] <= u32::MAX,
    {
        let s = samples[i];
        let ghost c = sample_color(s);
        proof {
            lemma_key_unpacks(c);
        }
        let key: u32 = (s.0 as u32) * 65536 + (s.1 as u32) * 256 + (s.2 as u32);
        assert(key == color_key(c));
        let ghost prefix = samples@.take(i as int);
        let ghost next = samples@.take(i + 1);
        assert(next.drop_last() =~= prefix);
        assert(next.last() == s);
        let cur: u64 = match hist.get(&key) {
            Some(w) => *w,
            None => 0,
        };
        proof {
            if !hist@.contains_key(key) {
                assert forall|j: int| 0 <= j < prefix.len() implies sample_color(
                    #[trigger] prefix[j],
                ) != c by {
                    assert(prefix[j] == samples@[j]);
                }
                lemma_absent_color_weighs_nothing(prefix, c);
            }
            assert(cur == color_weight(prefix, c));
        }
        let total = cur + s.3 as u64;
        if total > 4294967295 {
            proof {
                lemma_weight_prefix(samples@, i + 1, c);
                assert(color_weight(samples@, c) > u32::MAX);
            }
            return false;
        }
        hist.insert(key, total);
        proof {
            assert forall|d: (u8, u8, u8)| #[trigger] hist@.contains_key(color_key(d)) implies hist@[color_key(d)]
                == color_weight(next, d) by {
                if color_key(d) == key {
                    lemma_key_injective(d, c);
                } else {
                    assert(d != c);
                }
            }
            assert forall|d: (u8, u8, u8)|
                #[trigger] hist@.contains_key(color_key(d)) <==> exists|j: int|
                    0 <= j < i + 1 && sample_color(#[trigger] samples@[j]) == d by {
                if color_key(d) == key {
                    lemma_key_injective(d, c);
                    assert(sample_color(samples@[i as int]) == d);
                }
            }
        }
    }
    assert(samples@.take(n as int) =~= samples@);
    assert forall|c: (u8, u8, u8)| #[trigger] color_weight(samples@, c) <= u32::MAX by {
        if hist@.contains_key(color_key(c)) {
            assert(hist@[color_key(c)] <= u32::MAX);
        } else {
            assert forall|j: int| 0 <= j < samples@.len() implies sample_color(#[trigger] samples@[j]) != c by {}
            lemma_absent_color_weighs_nothing(samples@, c);
        }
    }
    true
}

/// The colour of greatest total weight among the samples; on a tie, one of the tied
/// colours; with no samples, the sky-blue fallback.
pub fn dominant_color(samples: &Vec<WeightedSample>) -> (res: (u8, u8, u8))
    requires
        weights_fit(samples@),
    ensures
        samples@.len() == 0 ==> res == fallback_color(),
        samples@.len() > 0 ==> is_dominant(samples@, res),
{
    let n = samples.len();
    let mut hist: HashMap<u32, u32> = HashMap::new();
    for i in 0..n
        invariant
            n == samples@.len(),
            weights_fit(samples@),
            forall|k: u32| #[trigger] hist@.contains_key(k) ==> k < 16777216,
            forall|c: (u8, u8, u8)|
                #[trigger] hist@.contains_key(color_key(c)) <==> exists|j: int|
                    0 <= j < i && sample_color(#[trigger] samples@[j]) == c,
            forall|c: (u8, u8, u8)|
                #[trigger] hist@.contains_key(color_key(c)) ==> hist@[color_key(c)]
                    == color_weight(samples@.take(i as int), c),
    {
        let s = samples[i];
        let ghost c = sample_color(s);
        proof {
            lemma_key_unpacks(c);
        }
        let key: u32 = (s.0 as u32) * 65536 + (s.1 as u32) * 256 + (s.2 as u32);
        assert(key == color_key(c));
        let ghost prefix = samples@.take(i as int);
        let ghost next = samples@.take(i + 1);
        assert(next.drop_last() =~= prefix);
        assert(next.last() == s);
        let cur: u32 = match hist.get(&key) {
            Some(w) => *w,
            None => 0,
        };
        proof {
            if !hist@.contains_key(key) {
                assert forall|j: int| 0 <= j < prefix.len() implies sample_color(
                    #[trigger] prefix[j],
                ) != c by {
                    assert(prefix[j] == samples@[j]);
                }
                lemma_absent_color_weighs_nothing(prefix, c);
            }
            lemma_weight_prefix(samples@, i + 1, c);
            assert(color_weight(samples@, c) <= u32::MAX);
        }
        hist.insert(key, cur + s.3);
        proof {
            assert forall|d: (u8, u8, u8)| #[trigger] hist@.contains_key(color_key(d)) implies hist@[color_key(d)]
                == color_weight(next, d) by {
                if color_key(d) == key {
                    lemma_key_injective(d, c);
                } else {
                    assert(d != c);
                }
            }
            assert forall|d: (u8, u8, u8)|
                #[trigger] hist@.contains_key(color_key(d)) <==> exists|j: int|
                    0 <= j < i + 1 && sample_color(#[trigger] samples@[j]) == d by {
                if color_key(d) == key {
                    lemma_key_injective(d, c);
                    assert(sample_color(samples@[i as int]) == d);
                }
            }
        }
    }
    assert(samples@.take(n as int) =~= samples@);
    let mut best_key: u32 = 0;
    let mut best_weight: u32 = 0;
    let mut found = false;
    let ghost entries = spec_hash_map_iter(&hist).remaining();
    let ghost mut seen: int = 0;
    for entry in it: hist.iter()
        invariant
            it.seq() == entries,
            seen == it.index(),
            found <==> seen > 0,
            found ==> hist@.contains_key(best_key) && hist@[best_key] == best_weight,
            forall|j: int| 0 <= j < seen ==> *(#[trigger] entries[j]).1 <= best_weight,
    {
        proof {
            seen = seen + 1;
        }
        let (k, w) = entry;
        if !found || *w >= best_weight {
            best_key = *k;
            best_weight = *w;
            found = true;
        }
    }
    assert(seen == entries.len());
    if !found {
        proof {
            if n > 0 {
                let c0 = sample_color(samples@[0]);
                assert(hist@.contains_key(color_key(c0)));
                assert(entries.contains((&color_key(c0), &hist@[color_key(c0)])));
            }
        }
        return (56, 189, 248);
    }
    let r = (best_key / 65536) as u8;
    let g = ((best_key / 256) % 256) as u8;
    let b = (best_key % 256) as u8;
    proof {
        lemma_key_packs(best_key);
        let res = (r, g, b);
        assert(color_key(res) == best_key);
        assert(hist@.contains_key(color_key(res)));
        assert forall|d: (u8, u8, u8)| color_weight(samples@, d) <= #[trigger] color_weight(samples@, res) by {
            if hist@.contains_key(color_key(d)) {
                let e = (&color_key(d), &hist@[color_key(d)]);
                assert(entries.contains(e));
                let j = choose|j: int| 0 <= j < entries.len() && entries[j] == e;
                assert(*entries[j].1 <= best_weight);
            } else {
                assert forall|j: int| 0 <= j < samples@.len() implies sample_color(#[trigger] samples@[j]) != d by {}
                lemma_absent_color_weighs_nothing(samples@, d);
            }
        }
    }
    (r, g, b)
}

} // verus!
