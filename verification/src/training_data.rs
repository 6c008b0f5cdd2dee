//! Turning raw labelled colors into the two dataset subsets.
//!
//! Every raw entry is encoded (truncated to the configured length first,
//! counting truncations) and its color text parsed; the entries are then
//! assigned to the training or checking subset by a deterministic seeded
//! generator, so the same data and configuration always split the same way.

use vstd::prelude::*;
use crate::color::color_from_text;
use crate::color::is_plain_color_text;
use crate::color::parse_color_rgb;
use crate::color::spec_plain_color_text;
use crate::color::Color;
use crate::input::Config;
use crate::layer::Scalar;
use crate::string::spec_string_to_data;
use crate::string::string_to_data;

verus! {

/// The seed byte the split generator is seeded with, repeated over the whole
/// seed. A fixed seed keeps the split reproducible across runs.
pub const SPLIT_SEED_BYTE: u8 = 4;

/// The denominator of the training fraction: the fraction is given in
/// ten-thousandths.
pub const MYRIAD: u32 = 10000;

/// One example as the engine trains on it: the encoded features and the
/// target color in the engine's encoding.
pub struct Example {
    pub features: Vec<Scalar>,
    pub target: Color,
}

pub type DataSet = Vec<Example>;

/// One example as parsed from the raw data: the encoded features and the
/// parsed 8-bit color channels. The conversion of the channels into the
/// engine's perceptual encoding is the runner's floating-point work.
pub struct ParsedExample {
    pub features: Vec<Scalar>,
    pub rgb: (u8, u8, u8),
}

/// The two subsets of the dataset.
pub struct TrainingData {
    pub training: Vec<ParsedExample>,
    pub checking: Vec<ParsedExample>,
}

/// Why the raw data was rejected.
#[derive(Debug, PartialEq, Eq, Structural, Clone, Copy)]
pub enum DataError {
    /// Some entry's color text parses to no color.
    BadColor,
    /// Some entry's color text uses css-function syntax (it holds a
    /// parenthesis), which the engine does not accept: it expects standard
    /// hex or named color syntax.
    UnsupportedColorSyntax,
}

/// Color text the engine accepts: free of css-function syntax, and naming a
/// color.
pub open spec fn spec_color_ok(s: Seq<char>) -> bool {
    spec_plain_color_text(s) && color_from_text(s) is Some
}

/// The successive draws of the split generator for one ratio: a pure
/// function of the seed byte and the ratio, portable across machines.
pub uninterp spec fn ratio_draws(seed_byte: u8, numerator: u32, denominator: u32, n: nat) -> Seq<
    bool,
>;

/// Relies on rand_chacha's `ChaCha20Rng::from_seed` and rand's
/// `Rng::gen_ratio`: the generator is seeded from the bytes alone and is
/// documented as reproducible across platforms, so the draw sequence is a
/// function of the seed and the ratio; `gen_ratio` panics unless
/// `0 < denominator` and `numerator <= denominator`. At a ratio of one every
/// draw is true and at a ratio of zero every draw is false, as `from_ratio`
/// and `sample` show plainly.
#[verifier::external_body]
fn chacha_ratio_draws(seed_byte: u8, numerator: u32, denominator: u32, n: usize) -> (r: Vec<bool>)
    requires
        0 < denominator,
        numerator <= denominator,
    ensures
        r@ == ratio_draws(seed_byte, numerator, denominator, n as nat),
        r@.len() == n,
        numerator == denominator ==> (forall|i: int| 0 <= i < n ==> r@[i] == true),
        numerator == 0 ==> (forall|i: int| 0 <= i < n ==> r@[i] == false),
{
    let mut rng = <rand_chacha::ChaCha20Rng as rand::SeedableRng>::from_seed([seed_byte; 32]);
    let mut out: Vec<bool> = Vec::with_capacity(n);
    for _ in 0..n {
        out.push(rand::Rng::gen_ratio(&mut rng, numerator, denominator));
    }
    out
}

/// A label cut to the configured maximum character count.
pub open spec fn spec_truncated(s: Seq<char>, max_chars: int) -> Seq<char> {
    if s.len() > max_chars {
        s.subrange(0, max_chars)
    } else {
        s
    }
}

/// The features one raw label encodes to, after truncation.
pub open spec fn spec_features(name: Seq<char>, max_chars: int) -> Seq<Scalar> {
    spec_string_to_data(spec_truncated(name, max_chars), max_chars)
}

/// How many raw labels are longer than the configured maximum.
pub open spec fn spec_trunc_count(raw: Seq<(String, String)>, max_chars: int) -> int
    decreases raw.len(),
{
    if raw.len() == 0 {
        0
    } else {
        spec_trunc_count(raw.drop_last(), max_chars) + (if raw.last().0@.len() > max_chars {
            1int
        } else {
            0int
        })
    }
}

/// The view of one parsed example.
pub open spec fn parsed_view(e: ParsedExample) -> (Seq<Scalar>, (u8, u8, u8)) {
    (e.features@, e.rgb)
}

/// The views of the examples that every raw entry parses to, in order.
pub open spec fn spec_processed(raw: Seq<(String, String)>, max_chars: int) -> Seq<
    (Seq<Scalar>, (u8, u8, u8)),
> {
    Seq::new(
        raw.len(),
        |i: int|
            (
                spec_features(raw[i].0@, max_chars),
                color_from_text(raw[i].1@).unwrap(),
            ),
    )
}

/// The items whose flag equals `keep`, in order.
pub open spec fn spec_filter_flags<T>(items: Seq<T>, flags: Seq<bool>, keep: bool) -> Seq<T>
    decreases items.len(),
{
    if items.len() == 0 {
        Seq::empty()
    } else {
        let rest = spec_filter_flags(items.drop_first(), flags.drop_first(), keep);
        if flags[0] == keep {
            seq![items[0]] + rest
        } else {
            rest
        }
    }
}

/// Filtering one more item appends it exactly when its flag matches.
proof fn lemma_filter_flags_push<T>(items: Seq<T>, flags: Seq<bool>, x: T, b: bool, keep: bool)
    requires
        items.len() == flags.len(),
    ensures
        spec_filter_flags(items.push(x), flags.push(b), keep) == spec_filter_flags(
            items,
            flags,
            keep,
        ) + (if b == keep {
            seq![x]
        } else {
            Seq::<T>::empty()
        }),
    decreases items.len(),
{
    if items.len() == 0 {
        assert(items.push(x).drop_first() =~= Seq::<T>::empty());
        assert(flags.push(b).drop_first() =~= Seq::<bool>::empty());
        assert(flags.push(b)[0] == b);
        assert(spec_filter_flags(Seq::<T>::empty(), Seq::<bool>::empty(), keep)
            =~= Seq::<T>::empty());
        assert(spec_filter_flags(items.push(x), flags.push(b), keep) =~= (if b == keep {
            seq![x]
        } else {
            Seq::<T>::empty()
        }));
        assert(spec_filter_flags(items, flags, keep) =~= Seq::<T>::empty());
    } else {
        lemma_filter_flags_push(items.drop_first(), flags.drop_first(), x, b, keep);
        assert(items.push(x).drop_first() =~= items.drop_first().push(x));
        assert(flags.push(b).drop_first() =~= flags.drop_first().push(b));
        assert(items.push(x)[0] == items[0]);
        assert(flags.push(b)[0] == flags[0]);
        if flags[0] == keep {
            assert(spec_filter_flags(items.push(x), flags.push(b), keep) =~= spec_filter_flags(
                items,
                flags,
                keep,
            ) + (if b == keep {
                seq![x]
            } else {
                Seq::<T>::empty()
            }));
        }
    }
}

/// A filter over uniform flags keeps everything or nothing.
proof fn lemma_filter_flags_uniform<T>(items: Seq<T>, flags: Seq<bool>, keep: bool)
    requires
        items.len() == flags.len(),
    ensures
        (forall|i: int| 0 <= i < flags.len() ==> flags[i] == keep) ==> spec_filter_flags(
            items,
            flags,
            keep,
        ) == items,
        (forall|i: int| 0 <= i < flags.len() ==> flags[i] != keep) ==> spec_filter_flags(
            items,
            flags,
            keep,
        ) == Seq::<T>::empty(),
    decreases items.len(),
{
    if items.len() == 0 {
        assert(spec_filter_flags(items, flags, keep) =~= Seq::<T>::empty());
        assert(items =~= Seq::<T>::empty());
    } else {
        lemma_filter_flags_uniform(items.drop_first(), flags.drop_first(), keep);
        if forall|i: int| 0 <= i < flags.len() ==> flags[i] == keep {
            assert forall|i: int| 0 <= i < flags.drop_first().len() implies flags.drop_first()[i]
                == keep by {
                assert(flags[i + 1] == keep);
            }
            assert(flags[0] == keep);
            assert(seq![items[0]] + items.drop_first() =~= items);
        }
        if forall|i: int| 0 <= i < flags.len() ==> flags[i] != keep {
            assert forall|i: int| 0 <= i < flags.drop_first().len() implies flags.drop_first()[i]
                != keep by {
                assert(flags[i + 1] != keep);
            }
            assert(flags[0] != keep);
        }
    }
}

/// The training subset of the processed entries: those whose draw came up
/// true, in order.
pub open spec fn spec_training_split(
    raw: Seq<(String, String)>,
    max_chars: int,
    numerator: u32,
) -> Seq<(Seq<Scalar>, (u8, u8, u8))> {
    spec_filter_flags(
        spec_processed(raw, max_chars),
        ratio_draws(SPLIT_SEED_BYTE, numerator, MYRIAD, raw.len()),
        true,
    )
}

/// The checking subset of the processed entries: those whose draw came up
/// false, in order.
pub open spec fn spec_checking_split(
    raw: Seq<(String, String)>,
    max_chars: int,
    numerator: u32,
) -> Seq<(Seq<Scalar>, (u8, u8, u8))> {
    spec_filter_flags(
        spec_processed(raw, max_chars),
        ratio_draws(SPLIT_SEED_BYTE, numerator, MYRIAD, raw.len()),
        false,
    )
}

/// Encodes and parses every raw entry, counts the labels that had to be cut
/// to the configured length, and assigns each entry to the training or
/// checking subset by the seeded generator. Proceeds exactly when every
/// entry's color text is accepted syntax and names a color; otherwise the
/// whole dataset is rejected, css-function syntax apart from unparsable text.
pub fn process_data(raw: Vec<(String, String)>, config: &Config) -> (r: Result<
    (TrainingData, u32),
    DataError,
>)
    requires
        config.wf(),
        config.spec_input_length() <= usize::MAX,
        raw@.len() <= u32::MAX,
    ensures
        r is Ok <==> (forall|i: int| 0 <= i < raw@.len() ==> #[trigger] spec_color_ok(raw@[i].1@)),
        r matches Err(e) ==> {
            &&& (e == DataError::UnsupportedColorSyntax <==> exists|i: int|
                0 <= i < raw@.len() && !(#[trigger] spec_plain_color_text(raw@[i].1@)))
            &&& (e == DataError::BadColor <==> ((forall|i: int|
                0 <= i < raw@.len() ==> #[trigger] spec_plain_color_text(raw@[i].1@)) && exists|i: int|
                0 <= i < raw@.len() && #[trigger] color_from_text(raw@[i].1@) is None))
        },
        r matches Ok((td, truncated)) ==> {
            &&& td.training@.map_values(|e: ParsedExample| parsed_view(e))
                == spec_training_split(
                raw@,
                config.spec_max_chars() as int,
                config.spec_training_per_myriad(),
            )
            &&& td.checking@.map_values(|e: ParsedExample| parsed_view(e))
                == spec_checking_split(
                raw@,
                config.spec_max_chars() as int,
                config.spec_training_per_myriad(),
            )
            &&& truncated == spec_trunc_count(raw@, config.spec_max_chars() as int)
            &&& (config.spec_training_per_myriad() == MYRIAD ==> td.checking@.len() == 0)
            &&& (config.spec_training_per_myriad() == 0 ==> td.training@.len() == 0)
        },
{
    // Screen every color text first: the parser must not be reached on
    // css-function syntax, and the whole dataset is rejected if any entry is
    // unusable.
    let mut has_unsupported = false;
    let mut has_bad = false;
    let mut v: usize = 0;
    while v < raw.len()
        invariant
            0 <= v <= raw@.len(),
            has_unsupported <==> exists|j: int|
                0 <= j < v && !(#[trigger] spec_plain_color_text(raw@[j].1@)),
            has_bad <==> exists|j: int|
                0 <= j < v && (#[trigger] spec_plain_color_text(raw@[j].1@)) && color_from_text(
                    raw@[j].1@,
                ) is None,
        decreases raw@.len() - v,
    {
        let ctext = raw[v].1.as_str();
        if !is_plain_color_text(ctext) {
            has_unsupported = true;
        } else if parse_color_rgb(ctext).is_none() {
            has_bad = true;
        }
        v = v + 1;
    }
    if has_unsupported {
        proof {
            let j = choose|j: int| 0 <= j < raw@.len() && !(#[trigger] spec_plain_color_text(
                raw@[j].1@,
            ));
            assert(!spec_color_ok(raw@[j].1@));
        }
        return Err(DataError::UnsupportedColorSyntax);
    }
    if has_bad {
        proof {
            let j = choose|j: int|
                0 <= j < raw@.len() && (#[trigger] spec_plain_color_text(raw@[j].1@))
                    && color_from_text(raw@[j].1@) is None;
            assert(!spec_color_ok(raw@[j].1@));
        }
        return Err(DataError::BadColor);
    }
    proof {
        assert forall|j: int| 0 <= j < raw@.len() implies #[trigger] spec_color_ok(
            raw@[j].1@,
        ) by {
            assert(spec_plain_color_text(raw@[j].1@));
            assert(!(spec_plain_color_text(raw@[j].1@) && color_from_text(raw@[j].1@) is None));
        }
    }

    let ghost max = config.spec_max_chars() as int;
    let max_chars = config.input_length_max_chars();
    let mut parsed: Vec<ParsedExample> = Vec::new();
    let mut truncated: u32 = 0;
    let mut i: usize = 0;
    while i < raw.len()
        invariant
            0 <= i <= raw@.len(),
            raw@.len() <= u32::MAX,
            config.wf(),
            config.spec_input_length() <= usize::MAX,
            max == config.spec_max_chars() as int,
            max_chars == config.spec_max_chars(),
            truncated == spec_trunc_count(raw@.subrange(0, i as int), max),
            truncated <= i,
            parsed@.len() == i,
            forall|j: int|
                0 <= j < i ==> #[trigger] parsed_view(parsed@[j]) == spec_processed(raw@, max)[j],
            forall|j: int| 0 <= j < raw@.len() ==> #[trigger] spec_color_ok(raw@[j].1@),
        decreases raw@.len() - i,
    {
        let entry = &raw[i];
        let name: &str = entry.0.as_str();
        let name_len = name.unicode_len();
        let (encoded, was_cut): (Vec<Scalar>, bool) = if name_len as u64 > max_chars {
            proof {
                assert(spec_truncated(name@, max) == name@.subrange(0, max));
            }
            let cut = name.substring_char(0, max_chars as usize);
            (string_to_data(cut, config), true)
        } else {
            proof {
                assert(spec_truncated(name@, max) == name@);
            }
            (string_to_data(name, config), false)
        };
        proof {
            assert(spec_color_ok(raw@[i as int].1@));
        }
        let rgb = match parse_color_rgb(entry.1.as_str()) {
            Some(rgb) => rgb,
            // every color text was screened above; the parse cannot miss
            None => unreached(),
        };
        parsed.push(ParsedExample { features: encoded, rgb });
        if was_cut {
            truncated = truncated + 1;
        }
        proof {
            assert(raw@.subrange(0, i + 1).drop_last() =~= raw@.subrange(0, i as int));
            assert(raw@.subrange(0, i + 1).last() == raw@[i as int]);
            assert(parsed_view(parsed@[i as int]) == spec_processed(raw@, max)[i as int]);
        }
        i = i + 1;
    }
    proof {
        assert(raw@.subrange(0, raw@.len() as int) =~= raw@);
    }
    let n = parsed.len();
    let draws = chacha_ratio_draws(SPLIT_SEED_BYTE, config.training_per_myriad(), MYRIAD, n);
    let mut training: Vec<ParsedExample> = Vec::new();
    let mut checking: Vec<ParsedExample> = Vec::new();
    let ghost processed_views = parsed@.map_values(|e: ParsedExample| parsed_view(e));
    let ghost all_draws = draws@;
    let mut k: usize = 0;
    while k < n
        invariant
            0 <= k <= n,
            n == parsed@.len(),
            draws@ == all_draws,
            all_draws.len() == n,
            processed_views == parsed@.map_values(|e: ParsedExample| parsed_view(e)),
            processed_views.len() == n,
            training@.map_values(|e: ParsedExample| parsed_view(e)) == spec_filter_flags(
                processed_views.subrange(0, k as int),
                all_draws.subrange(0, k as int),
                true,
            ),
            checking@.map_values(|e: ParsedExample| parsed_view(e)) == spec_filter_flags(
                processed_views.subrange(0, k as int),
                all_draws.subrange(0, k as int),
                false,
            ),
        decreases n - k,
    {
        let take = draws[k];
        let e = ParsedExample {
            features: crate::misc::copy_vec(&parsed[k].features),
            rgb: parsed[k].rgb,
        };
        proof {
            assert(parsed_view(e) == processed_views[k as int]);
            lemma_filter_flags_push(
                processed_views.subrange(0, k as int),
                all_draws.subrange(0, k as int),
                processed_views[k as int],
                all_draws[k as int],
                true,
            );
            lemma_filter_flags_push(
                processed_views.subrange(0, k as int),
                all_draws.subrange(0, k as int),
                processed_views[k as int],
                all_draws[k as int],
                false,
            );
            assert(processed_views.subrange(0, k as int).push(processed_views[k as int])
                =~= processed_views.subrange(0, k + 1));
            assert(all_draws.subrange(0, k as int).push(all_draws[k as int]) =~= all_draws.subrange(
                0,
                k + 1,
            ));
        }
        if take {
            training.push(e);
            proof {
                assert(training@.map_values(|x: ParsedExample| parsed_view(x)) =~= spec_filter_flags(
                    processed_views.subrange(0, k + 1),
                    all_draws.subrange(0, k + 1),
                    true,
                ));
                assert(checking@.map_values(|x: ParsedExample| parsed_view(x)) =~= spec_filter_flags(
                    processed_views.subrange(0, k + 1),
                    all_draws.subrange(0, k + 1),
                    false,
                ));
            }
        } else {
            checking.push(e);
            proof {
                assert(training@.map_values(|x: ParsedExample| parsed_view(x)) =~= spec_filter_flags(
                    processed_views.subrange(0, k + 1),
                    all_draws.subrange(0, k + 1),
                    true,
                ));
                assert(checking@.map_values(|x: ParsedExample| parsed_view(x)) =~= spec_filter_flags(
                    processed_views.subrange(0, k + 1),
                    all_draws.subrange(0, k + 1),
                    false,
                ));
            }
        }
        k = k + 1;
    }
    proof {
        assert(processed_views.subrange(0, n as int) =~= processed_views);
        assert(all_draws.subrange(0, n as int) =~= all_draws);
        assert(processed_views =~= spec_processed(raw@, max));
        lemma_filter_flags_uniform(processed_views, all_draws, true);
        lemma_filter_flags_uniform(processed_views, all_draws, false);
    }
    Ok((TrainingData { training, checking }, truncated))
}

/// Law: the dataset split is deterministic. Two results that both came from
/// `process_data` over the same raw data and the same configuration carry
/// identical training and checking partitions.
pub proof fn lemma_split_deterministic(
    raw: Seq<(String, String)>,
    c: Config,
    td1: TrainingData,
    td2: TrainingData,
)
    requires
        td1.training@.map_values(|e: ParsedExample| parsed_view(e)) == spec_training_split(
            raw,
            c.spec_max_chars() as int,
            c.spec_training_per_myriad(),
        ),
        td1.checking@.map_values(|e: ParsedExample| parsed_view(e)) == spec_checking_split(
            raw,
            c.spec_max_chars() as int,
            c.spec_training_per_myriad(),
        ),
        td2.training@.map_values(|e: ParsedExample| parsed_view(e)) == spec_training_split(
            raw,
            c.spec_max_chars() as int,
            c.spec_training_per_myriad(),
        ),
        td2.checking@.map_values(|e: ParsedExample| parsed_view(e)) == spec_checking_split(
            raw,
            c.spec_max_chars() as int,
            c.spec_training_per_myriad(),
        ),
    ensures
        td1.training@.map_values(|e: ParsedExample| parsed_view(e)) == td2.training@.map_values(
            |e: ParsedExample| parsed_view(e),
        ),
        td1.checking@.map_values(|e: ParsedExample| parsed_view(e)) == td2.checking@.map_values(
            |e: ParsedExample| parsed_view(e),
        ),
{
}

} // verus!
