//! Domain types: feature-extraction parameters, trained model
//! candidates, and the error record written when a forecast is refused.

use vstd::prelude::*;
use crate::digest::{params_digest, params_hex_digest};
use crate::error::{MyError, MyResult};
use crate::math::{sqrt_floor, isqrt_u64, FP_ONE};

verus! {

/// Decoded feature sizes never leave `[FEATURE_SIZE_MIN, FEATURE_SIZE_MAX)`.
pub const FEATURE_SIZE_MIN: usize = 1;
pub const FEATURE_SIZE_MAX: usize = 10;

/// Largest fixed-point mean squared error a model may carry; keeps the
/// root-mean-square derivation free of overflow.
pub const MSE_SCALED_MAX: u64 = 1_000_000_000_000;

/// The feature-extraction hyperparameters a genome decodes to.
#[derive(Debug, Clone, Copy, PartialEq, Eq, Structural)]
pub struct FeatureParams {
    pub feature_size: usize,
    pub fast_period: usize,
    pub slow_period: usize,
    pub signal_period: usize,
    pub bb_period: usize,
}

impl FeatureParams {
    pub fn new_default() -> (r: FeatureParams)
        ensures
            r == (FeatureParams {
                feature_size: 10,
                fast_period: 3,
                slow_period: 6,
                signal_period: 4,
                bb_period: 3,
            }),
    {
        FeatureParams {
            feature_size: 10,
            fast_period: 3,
            slow_period: 6,
            signal_period: 4,
            bb_period: 3,
        }
    }

    /// Digest of the parameters, stored beside every persisted model row
    /// and checked again on every read.
    pub fn to_hash(&self) -> (r: MyResult<String>)
        ensures
            r matches Ok(h) && h@ == params_digest(
                self.feature_size as int,
                self.fast_period as int,
                self.slow_period as int,
                self.signal_period as int,
                self.bb_period as int,
            ),
    {
        Ok(params_hex_digest(self))
    }
}

/// Digest of a parameter set, as a spec-level abbreviation.
pub open spec fn spec_params_digest(p: FeatureParams) -> Seq<char> {
    params_digest(
        p.feature_size as int,
        p.fast_period as int,
        p.slow_period as int,
        p.signal_period as int,
        p.bb_period as int,
    )
}

/// The regression families a candidate can belong to.  The logistic
/// family exists but is never trained: it failed to converge on this
/// data in practice.
#[derive(Debug, Clone, Copy, PartialEq, Eq, Structural)]
pub enum ModelFamily {
    RandomForest,
    Knn,
    Linear,
    Ridge,
    Lasso,
    ElasticNet,
    Logistic,
    Svr,
}

/// One trained candidate: the fitted model itself is opaque serialized
/// bytes, produced and consumed by the numeric library outside this
/// crate; everything the search logic reads is a plain value.
#[derive(Debug, Clone, PartialEq)]
pub struct ForecastModel {
    pub pair: String,
    pub no: i32,
    pub family: ModelFamily,
    pub model_data: Vec<u8>,
    pub input_data_size: usize,
    pub feature_params: FeatureParams,
    pub performance_mse: u64,
    pub performance_rmse: u64,
    pub memo: String,
}

impl ForecastModel {
    pub fn get_pair(&self) -> (r: MyResult<String>)
        ensures
            r matches Ok(p) && p == self.pair,
    {
        Ok(self.pair.clone())
    }

    pub fn get_no(&self) -> (r: MyResult<i32>)
        ensures
            r matches Ok(n) && n == self.no,
    {
        Ok(self.no)
    }

    pub fn get_input_data_size(&self) -> (r: MyResult<usize>)
        ensures
            r matches Ok(s) && s == self.input_data_size,
    {
        Ok(self.input_data_size)
    }

    pub fn get_feature_params(&self) -> (r: MyResult<FeatureParams>)
        ensures
            r matches Ok(p) && p == self.feature_params,
    {
        Ok(self.feature_params)
    }

    pub fn get_performance_mse(&self) -> (r: u64)
        ensures
            r == self.performance_mse,
    {
        self.performance_mse
    }

    pub fn get_performance_rmse(&self) -> (r: u64)
        ensures
            r == self.performance_rmse,
    {
        self.performance_rmse
    }

    /// Store a measured mean squared error and derive the matching
    /// root-mean-square error in the same fixed-point scale.
    pub fn set_performance_mse(&mut self, v: u64)
        requires
            v <= MSE_SCALED_MAX,
        ensures
            final(self).performance_mse == v,
            final(self).performance_rmse == sqrt_floor((v * FP_ONE) as nat),
            *final(self) == (ForecastModel {
                performance_mse: v,
                performance_rmse: final(self).performance_rmse,
                ..*old(self)
            }),
    {
        self.performance_mse = v;
        self.performance_rmse = isqrt_u64(v * FP_ONE);
    }
}

/// A refused forecast, kept so the same rate and model are not retried.
#[derive(Debug, Clone, PartialEq)]
pub struct ForecastError {
    pub id: String,
    pub rate_id: String,
    pub model_no: i32,
    pub summary: String,
    pub detail: String,
}

impl ForecastError {
    pub fn new(rate_id: String, model_no: i32, summary: String, detail: String) -> (r: MyResult<Self>)
        ensures
            r matches Ok(e) && {
                &&& e.id@ == Seq::<char>::empty()
                &&& e.rate_id == rate_id
                &&& e.model_no == model_no
                &&& e.summary == summary
                &&& e.detail == detail
            },
    {
        Ok(ForecastError {
            id: String::new(),
            rate_id,
            model_no,
            summary,
            detail,
        })
    }
}

} // verus!
