//! The persisted form of a trained model: one row per `(pair, slot)`,
//! carrying the serialized model, its parameters, and a digest of those
//! parameters that is checked again on every read.

use vstd::prelude::*;
use crate::error::{MyError, MyResult};
use crate::model::{FeatureParams, ForecastModel, ModelFamily, spec_params_digest};
use crate::digest::params_hex_digest;

verus! {

pub const MODEL_TYPE_RANDOM_FOREST: u8 = 0;
pub const MODEL_TYPE_KNN: u8 = 1;
pub const MODEL_TYPE_LINEAR: u8 = 2;
pub const MODEL_TYPE_RIDGE: u8 = 3;
pub const MODEL_TYPE_LASSO: u8 = 4;
pub const MODEL_TYPE_ELASTIC_NET: u8 = 5;
pub const MODEL_TYPE_LOGISTIC: u8 = 6;
pub const MODEL_TYPE_SVR: u8 = 7;

/// The family a persisted type tag stands for, if any.
pub open spec fn spec_family_of_type(t: u8) -> Option<ModelFamily> {
    if t == MODEL_TYPE_RANDOM_FOREST {
        Some(ModelFamily::RandomForest)
    } else if t == MODEL_TYPE_KNN {
        Some(ModelFamily::Knn)
    } else if t == MODEL_TYPE_LINEAR {
        Some(ModelFamily::Linear)
    } else if t == MODEL_TYPE_RIDGE {
        Some(ModelFamily::Ridge)
    } else if t == MODEL_TYPE_LASSO {
        Some(ModelFamily::Lasso)
    } else if t == MODEL_TYPE_ELASTIC_NET {
        Some(ModelFamily::ElasticNet)
    } else if t == MODEL_TYPE_LOGISTIC {
        Some(ModelFamily::Logistic)
    } else if t == MODEL_TYPE_SVR {
        Some(ModelFamily::Svr)
    } else {
        None
    }
}

/// The type tag a family is persisted under.
pub open spec fn spec_type_of_family(f: ModelFamily) -> u8 {
    match f {
        ModelFamily::RandomForest => MODEL_TYPE_RANDOM_FOREST,
        ModelFamily::Knn => MODEL_TYPE_KNN,
        ModelFamily::Linear => MODEL_TYPE_LINEAR,
        ModelFamily::Ridge => MODEL_TYPE_RIDGE,
        ModelFamily::Lasso => MODEL_TYPE_LASSO,
        ModelFamily::ElasticNet => MODEL_TYPE_ELASTIC_NET,
        ModelFamily::Logistic => MODEL_TYPE_LOGISTIC,
        ModelFamily::Svr => MODEL_TYPE_SVR,
    }
}

/// One persisted model row.  Timestamps are Unix seconds, assigned by
/// the caller that writes the row.
#[derive(Debug, Clone, PartialEq)]
pub struct ForecastModelRecord {
    pub pair: String,
    pub model_no: i32,
    pub model_type: u8,
    pub model_data: Vec<u8>,
    pub input_data_size: usize,
    pub feature_params: FeatureParams,
    pub feature_params_hash: String,
    pub performance_mse: u64,
    pub performance_rmse: u64,
    pub memo: String,
    pub created_at: i64,
    pub updated_at: i64,
}

impl ForecastModelRecord {
    /// A stored row may be used only when its stored digest matches a
    /// fresh digest of its stored parameters; on mismatch the row is
    /// refused, never repaired.
    pub fn validate_feature_params(&self) -> (r: MyResult<()>)
        ensures
            r matches Ok(()) <==> self.feature_params_hash@ == spec_params_digest(self.feature_params),
            r matches Err(e) ==> e == (MyError::UnmatchFeatureParamsHash {
                pair: self.pair,
                model_no: self.model_no,
            }),
    {
        let fresh = params_hex_digest(&self.feature_params);
        if fresh == self.feature_params_hash {
            Ok(())
        } else {
            Err(MyError::UnmatchFeatureParamsHash {
                pair: self.pair.clone(),
                model_no: self.model_no,
            })
        }
    }

    /// Turn a row back into a model candidate.  Only the family tag
    /// needs interpreting; a tag outside the known set is refused.
    pub fn to_domain(&self) -> (r: MyResult<ForecastModel>)
        ensures
            spec_family_of_type(self.model_type) matches Some(f) ==> (r matches Ok(m) && {
                &&& m.pair == self.pair
                &&& m.no == self.model_no
                &&& m.family == f
                &&& m.model_data@ == self.model_data@
                &&& m.input_data_size == self.input_data_size
                &&& m.feature_params == self.feature_params
                &&& m.performance_mse == self.performance_mse
                &&& m.performance_rmse == self.performance_rmse
                &&& m.memo == self.memo
            }),
            spec_family_of_type(self.model_type) is None ==> (r matches Err(e)
                && e == (MyError::UnknownModelType { value: self.model_type })),
    {
        let family = if self.model_type == MODEL_TYPE_RANDOM_FOREST {
            ModelFamily::RandomForest
        } else if self.model_type == MODEL_TYPE_KNN {
            ModelFamily::Knn
        } else if self.model_type == MODEL_TYPE_LINEAR {
            ModelFamily::Linear
        } else if self.model_type == MODEL_TYPE_RIDGE {
            ModelFamily::Ridge
        } else if self.model_type == MODEL_TYPE_LASSO {
            ModelFamily::Lasso
        } else if self.model_type == MODEL_TYPE_ELASTIC_NET {
            ModelFamily::ElasticNet
        } else if self.model_type == MODEL_TYPE_LOGISTIC {
            ModelFamily::Logistic
        } else if self.model_type == MODEL_TYPE_SVR {
            ModelFamily::Svr
        } else {
            return Err(MyError::UnknownModelType { value: self.model_type });
        };
        let model_data = self.model_data.clone();
        proof {
            assert(model_data@ =~= self.model_data@);
        }
        Ok(ForecastModel {
            pair: self.pair.clone(),
            no: self.model_no,
            family,
            model_data,
            input_data_size: self.input_data_size,
            feature_params: self.feature_params,
            performance_mse: self.performance_mse,
            performance_rmse: self.performance_rmse,
            memo: self.memo.clone(),
        })
    }
}

impl ForecastModel {
    /// The row this candidate is persisted as, with a fresh digest of
    /// its parameters.
    pub fn to_record(&self, created_at: i64, updated_at: i64) -> (r: ForecastModelRecord)
        ensures
            r.pair == self.pair,
            r.model_no == self.no,
            r.model_type == spec_type_of_family(self.family),
            r.model_data@ == self.model_data@,
            r.input_data_size == self.input_data_size,
            r.feature_params == self.feature_params,
            r.feature_params_hash@ == spec_params_digest(self.feature_params),
            r.performance_mse == self.performance_mse,
            r.performance_rmse == self.performance_rmse,
            r.memo == self.memo,
            r.created_at == created_at,
            r.updated_at == updated_at,
    {
        let model_type = match self.family {
            ModelFamily::RandomForest => MODEL_TYPE_RANDOM_FOREST,
            ModelFamily::Knn => MODEL_TYPE_KNN,
            ModelFamily::Linear => MODEL_TYPE_LINEAR,
            ModelFamily::Ridge => MODEL_TYPE_RIDGE,
            ModelFamily::Lasso => MODEL_TYPE_LASSO,
            ModelFamily::ElasticNet => MODEL_TYPE_ELASTIC_NET,
            ModelFamily::Logistic => MODEL_TYPE_LOGISTIC,
            ModelFamily::Svr => MODEL_TYPE_SVR,
        };
        let model_data = self.model_data.clone();
        proof {
            assert(model_data@ =~= self.model_data@);
        }
        ForecastModelRecord {
            pair: self.pair.clone(),
            model_no: self.no,
            model_type,
            model_data,
            input_data_size: self.input_data_size,
            feature_params: self.feature_params,
            feature_params_hash: params_hex_digest(&self.feature_params),
            performance_mse: self.performance_mse,
            performance_rmse: self.performance_rmse,
            memo: self.memo.clone(),
            created_at,
            updated_at,
        }
    }
}

/// A parameter set read from persistence where any field may be absent;
/// absent fields fall back to the defaults.
#[derive(Debug, Clone, PartialEq)]
pub struct FeatureParamsValue {
    pub feature_size: Option<usize>,
    pub fast_period: Option<usize>,
    pub slow_period: Option<usize>,
    pub signal_period: Option<usize>,
    pub bb_period: Option<usize>,
}

impl FeatureParamsValue {
    /// Merge the stored values over the default parameter set.
    pub fn to_domain(&self) -> (r: MyResult<FeatureParams>)
        ensures
            r matches Ok(p) && {
                &&& p.feature_size == (match self.feature_size { Some(v) => v, None => 10usize })
                &&& p.fast_period == (match self.fast_period { Some(v) => v, None => 3usize })
                &&& p.slow_period == (match self.slow_period { Some(v) => v, None => 6usize })
                &&& p.signal_period == (match self.signal_period { Some(v) => v, None => 4usize })
                &&& p.bb_period == (match self.bb_period { Some(v) => v, None => 3usize })
            },
    {
        let mut m = FeatureParams::new_default();
        if let Some(v) = self.feature_size {
            m.feature_size = v;
        }
        if let Some(v) = self.fast_period {
            m.fast_period = v;
        }
        if let Some(v) = self.slow_period {
            m.slow_period = v;
        }
        if let Some(v) = self.signal_period {
            m.signal_period = v;
        }
        if let Some(v) = self.bb_period {
            m.bb_period = v;
        }
        Ok(m)
    }
}

} // verus!
