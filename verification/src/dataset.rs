//! Building training and test datasets from a fetched rate history.
//! Rates arrive as fixed-point integers; windows are cut every five
//! samples, windows without enough movement are dropped, and each
//! window is labelled with the rate a configured number of samples
//! ahead of its end.

use vstd::prelude::*;
use crate::config::Config;
use crate::error::{MyError, MyResult};
use crate::math::FP_ONE;
use crate::rng::gen_range_u64;

verus! {

/// Largest rate history the dataset builder accepts; keeps every index
/// computation inside `usize`.
pub const RATES_LEN_MAX: usize = 100_000_000;

/// How many samples of the window starting at `offset` repeat their
/// predecessor, over the first `len` samples; the sample before the
/// window counts as zero.
pub open spec fn stagnant_count(rates: Seq<u64>, offset: int, len: int) -> int
    decreases len,
{
    if len <= 0 {
        0
    } else {
        let prev: u64 = if len == 1 {
            0u64
        } else {
            rates[offset + len - 2]
        };
        stagnant_count(rates, offset, len - 1) + (if rates[offset + len - 1] == prev {
            1int
        } else {
            0int
        })
    }
}

/// The labelled windows cut from `rates` at and after `offset`: one
/// window every five samples, skipping windows where more than half the
/// samples repeat their predecessor, stopping at the first window whose
/// label lies beyond the history.
pub open spec fn spec_build_dataset(rates: Seq<u64>, fis: int, fom: int, offset: int) -> Seq<(Seq<u64>, u64)>
    decreases rates.len() + 5 - offset,
{
    if offset < 0 || fis < 1 || fom < 0 || offset + fis - 1 + fom >= rates.len() {
        Seq::empty()
    } else {
        let rest = spec_build_dataset(rates, fis, fom, offset + 5);
        if stagnant_count(rates, offset, fis) > fis / 2 {
            rest
        } else {
            seq![(rates.subrange(offset, offset + fis), rates[offset + fis - 1 + fom])] + rest
        }
    }
}

/// The labelled windows a configuration cuts from a whole history.
pub open spec fn dataset_of(rates: Seq<u64>, config: Config) -> Seq<(Seq<u64>, u64)> {
    spec_build_dataset(
        rates,
        config.forecast_input_size as int,
        config.forecast_offset_minutes as int,
        0,
    )
}

/// The windows `x` and labels `y` are exactly the dataset a
/// configuration cuts from `rates`.
pub open spec fn built_dataset_matches(
    rates: Seq<u64>,
    config: Config,
    x: Seq<Vec<u64>>,
    y: Seq<u64>,
) -> bool {
    &&& x.len() == dataset_of(rates, config).len()
    &&& y.len() == dataset_of(rates, config).len()
    &&& forall|i: int| 0 <= i < dataset_of(rates, config).len()
        ==> (#[trigger] x[i])@ == dataset_of(rates, config)[i].0
            && y[i] == dataset_of(rates, config)[i].1
}

/// Cut the labelled windows out of a rate history.
pub fn build_input_data(rates: &Vec<u64>, config: &Config) -> (r: (Vec<Vec<u64>>, Vec<u64>))
    requires
        config.valid(),
        rates@.len() <= RATES_LEN_MAX,
    ensures
        built_dataset_matches(rates@, *config, r.0@, r.1@),
{
    let fis = config.forecast_input_size;
    let fom = config.forecast_offset_minutes;
    let ghost full = spec_build_dataset(rates@, fis as int, fom as int, 0);

    let mut x: Vec<Vec<u64>> = Vec::new();
    let mut y: Vec<u64> = Vec::new();
    let mut offset: usize = 0;
    while offset + fis - 1 + fom < rates.len()
        invariant
            config.valid(),
            fis == config.forecast_input_size,
            fom == config.forecast_offset_minutes,
            rates@.len() <= RATES_LEN_MAX,
            2 <= fis <= 3_000_002,
            fom <= 1_000_000,
            offset % 5 == 0,
            offset <= rates@.len() + 4,
            full == spec_build_dataset(rates@, fis as int, fom as int, 0),
            x@.len() + spec_build_dataset(rates@, fis as int, fom as int, offset as int).len()
                == full.len(),
            y@.len() == x@.len(),
            forall|i: int| 0 <= i < x@.len()
                ==> (#[trigger] x@[i])@ == full[i].0 && y@[i] == full[i].1,
            forall|i: int| x@.len() <= i < full.len()
                ==> #[trigger] full[i]
                    == spec_build_dataset(rates@, fis as int, fom as int, offset as int)[
                        i - x@.len()],
        decreases rates@.len() - offset,
    {
        let mut data: Vec<u64> = Vec::new();
        let mut same_count: usize = 0;
        let mut before: u64 = 0;
        let mut j: usize = 0;
        while j < fis
            invariant
                offset + fis - 1 + fom < rates@.len(),
                rates@.len() <= RATES_LEN_MAX,
                2 <= fis <= 3_000_002,
                fom <= 1_000_000,
                j <= fis,
                data@ == rates@.subrange(offset as int, offset as int + j as int),
                same_count == stagnant_count(rates@, offset as int, j as int),
                same_count <= j,
                before == (if j == 0 {
                    0u64
                } else {
                    rates@[offset as int + j - 1]
                }),
            decreases fis - j,
        {
            let rate = rates[offset + j];
            data.push(rate);
            if rate == before {
                same_count = same_count + 1;
            }
            before = rate;
            proof {
                assert(data@ =~= rates@.subrange(offset as int, offset as int + j as int + 1));
            }
            j = j + 1;
        }

        proof {
            assert(data@ =~= rates@.subrange(offset as int, offset as int + fis as int));
        }
        let ghost prev_len = x@.len();
        if same_count <= fis / 2 {
            x.push(data);
            y.push(rates[offset + fis - 1 + fom]);
        }
        proof {
            let o = offset as int;
            let tail = spec_build_dataset(rates@, fis as int, fom as int, o);
            let rest = spec_build_dataset(rates@, fis as int, fom as int, o + 5);
            if same_count > fis / 2 {
                assert(tail == rest);
            } else {
                assert(tail == seq![
                    (rates@.subrange(o, o + fis as int), rates@[o + fis as int - 1 + fom as int]),
                ] + rest);
                assert(full[prev_len as int] == tail[0]);
                assert(x@[prev_len as int]@ == tail[0].0);
                assert(y@[prev_len as int] == tail[0].1);
                assert(forall|i: int| 0 <= i < rest.len() ==> rest[i] == #[trigger] tail[i + 1]);
            }
            assert(forall|i: int| 0 <= i < x@.len()
                ==> (#[trigger] x@[i])@ == full[i].0 && y@[i] == full[i].1);
            assert(forall|i: int| x@.len() <= i < full.len()
                ==> #[trigger] full[i] == rest[i - x@.len()]);
        }
        offset = offset + 5;
    }
    proof {
        assert(spec_build_dataset(rates@, fis as int, fom as int, offset as int) =~= Seq::empty());
        assert(x@.len() == full.len());
        assert(forall|i: int| 0 <= i < full.len()
            ==> (#[trigger] x@[i])@ == full[i].0 && y@[i] == full[i].1);
        assert(full == dataset_of(rates@, *config));
        assert(built_dataset_matches(rates@, *config, x@, y@));
    }
    (x, y)
}

/// Assembles datasets from an already fetched rate history and refuses
/// histories that yield fewer samples than the configuration demands.
pub struct InputDataLoader {
    pub config: Config,
}

impl InputDataLoader {
    /// The labelled windows the loader's configuration cuts from a
    /// history.
    pub open spec fn spec_dataset(&self, rates: Seq<u64>) -> Seq<(Seq<u64>, u64)> {
        dataset_of(rates, self.config)
    }

    /// The training dataset, refused when it is too small.
    pub fn load_training_data(&self, rates: &Vec<u64>) -> (r: MyResult<(Vec<Vec<u64>>, Vec<u64>)>)
        requires
            self.config.valid(),
            rates@.len() <= RATES_LEN_MAX,
        ensures
            self.load_ensures(rates@, self.config.training_data_required_count, r),
    {
        self.load_data(rates, self.config.training_data_required_count)
    }

    /// The test dataset, refused when it is too small.
    pub fn load_test_data(&self, rates: &Vec<u64>) -> (r: MyResult<(Vec<Vec<u64>>, Vec<u64>)>)
        requires
            self.config.valid(),
            rates@.len() <= RATES_LEN_MAX,
        ensures
            self.load_ensures(rates@, self.config.test_data_required_count, r),
    {
        self.load_data(rates, self.config.test_data_required_count)
    }

    /// What loading promises: exactly the cut windows when there are
    /// enough of them, a typed refusal otherwise.
    pub open spec fn load_ensures(
        &self,
        rates: Seq<u64>,
        required: usize,
        r: MyResult<(Vec<Vec<u64>>, Vec<u64>)>,
    ) -> bool {
        let ds = self.spec_dataset(rates);
        &&& ds.len() >= required ==> (r matches Ok(pair)
            && built_dataset_matches(rates, self.config, pair.0@, pair.1@))
        &&& ds.len() < required ==> r == Err::<(Vec<Vec<u64>>, Vec<u64>), MyError>(
            MyError::InputDataIsTooLittle { count: ds.len() as usize, require: required },
        )
    }

    fn load_data(&self, rates: &Vec<u64>, required_count: usize) -> (r: MyResult<(Vec<Vec<u64>>, Vec<u64>)>)
        requires
            self.config.valid(),
            rates@.len() <= RATES_LEN_MAX,
        ensures
            self.load_ensures(rates@, required_count, r),
    {
        let (x, y) = build_input_data(rates, &self.config);
        let count = x.len();
        if count < required_count {
            return Err(MyError::InputDataIsTooLittle { count, require: required_count });
        }
        Ok((x, y))
    }
}

/// The deep view of a list of windows.
pub open spec fn deep(s: Seq<Vec<u64>>) -> Seq<Seq<u64>> {
    s.map_values(|v: Vec<u64>| v@)
}

/// The elements of `s` whose flag equals `keep`, in order.
pub open spec fn filter_by_flags<T>(s: Seq<T>, flags: Seq<bool>, keep: bool) -> Seq<T>
    decreases s.len(),
{
    if s.len() == 0 || flags.len() == 0 {
        Seq::empty()
    } else {
        filter_by_flags(s.drop_last(), flags.drop_last(), keep) + (if flags.last() == keep {
            seq![s.last()]
        } else {
            Seq::empty()
        })
    }
}

/// Split a dataset into training and test parts: each row is assigned
/// to the test side when its own uniform draw falls at or below
/// `test_ratio` (a fraction of `FP_ONE`), and both sides keep their
/// rows in order, features and labels staying aligned.  A ratio at or
/// above every possible draw sends every row to the test side.
pub fn train_test_split(
    x: &Vec<Vec<u64>>,
    y: &Vec<u64>,
    test_ratio: u64,
    rng: &mut rand::rngs::StdRng,
) -> (r: MyResult<(Vec<Vec<u64>>, Vec<Vec<u64>>, Vec<u64>, Vec<u64>)>)
    requires
        x@.len() == y@.len(),
    ensures
        r matches Ok(q) && {
            &&& (exists|flags: Seq<bool>| #![auto] {
                &&& flags.len() == x@.len()
                &&& deep(q.0@) == filter_by_flags(deep(x@), flags, false)
                &&& deep(q.1@) == filter_by_flags(deep(x@), flags, true)
                &&& q.2@ == filter_by_flags(y@, flags, false)
                &&& q.3@ == filter_by_flags(y@, flags, true)
            })
            &&& test_ratio >= FP_ONE - 1 ==> {
                &&& q.0@.len() == 0
                &&& deep(q.1@) == deep(x@)
                &&& q.2@.len() == 0
                &&& q.3@ == y@
            }
        },
{
    let n = x.len();
    let mut train_x: Vec<Vec<u64>> = Vec::new();
    let mut test_x: Vec<Vec<u64>> = Vec::new();
    let mut train_y: Vec<u64> = Vec::new();
    let mut test_y: Vec<u64> = Vec::new();
    let ghost mut flags: Seq<bool> = Seq::empty();
    let mut i: usize = 0;
    while i < n
        invariant
            n == x@.len(),
            x@.len() == y@.len(),
            i <= n,
            flags.len() == i as int,
            deep(train_x@) == filter_by_flags(deep(x@.take(i as int)), flags, false),
            deep(test_x@) == filter_by_flags(deep(x@.take(i as int)), flags, true),
            train_y@ == filter_by_flags(y@.take(i as int), flags, false),
            test_y@ == filter_by_flags(y@.take(i as int), flags, true),
            test_ratio >= FP_ONE - 1 ==> {
                &&& train_x@.len() == 0
                &&& train_y@.len() == 0
                &&& deep(test_x@) == deep(x@.take(i as int))
                &&& test_y@ == y@.take(i as int)
            },
        decreases n - i,
    {
        let v = gen_range_u64(rng, 0, FP_ONE);
        let is_test = v <= test_ratio;
        let row = clone_window(&x[i]);
        proof {
            let xs = deep(x@.take(i as int));
            let xs1 = deep(x@.take(i as int + 1));
            assert(xs1.drop_last() =~= xs);
            assert(xs1.last() == x@[i as int]@);
            assert(y@.take(i as int + 1).drop_last() =~= y@.take(i as int));
            let nf = flags.push(is_test);
            assert(nf.drop_last() =~= flags);
        }
        if is_test {
            test_x.push(row);
            test_y.push(y[i]);
        } else {
            train_x.push(row);
            train_y.push(y[i]);
        }
        proof {
            flags = flags.push(is_test);
            assert(deep(train_x@) =~= filter_by_flags(deep(x@.take(i as int + 1)), flags, false));
            assert(deep(test_x@) =~= filter_by_flags(deep(x@.take(i as int + 1)), flags, true));
            assert(train_y@ =~= filter_by_flags(y@.take(i as int + 1), flags, false));
            assert(test_y@ =~= filter_by_flags(y@.take(i as int + 1), flags, true));
            if test_ratio >= FP_ONE - 1 {
                assert(deep(test_x@) =~= deep(x@.take(i as int + 1)));
                assert(test_y@ =~= y@.take(i as int + 1));
            }
        }
        i = i + 1;
    }
    proof {
        assert(x@.take(n as int) =~= x@);
        assert(y@.take(n as int) =~= y@);
        if test_ratio >= FP_ONE - 1 {
            assert(deep(test_x@) =~= deep(x@));
        }
    }
    Ok((train_x, test_x, train_y, test_y))
}

/// An exact copy of one window.
fn clone_window(v: &Vec<u64>) -> (r: Vec<u64>)
    ensures
        r@ == v@,
{
    let r = v.clone();
    proof {
        assert(r@ =~= v@);
    }
    r
}

} // verus!
