//! The request kinds that this broker understands.
use vstd::prelude::*;

verus! {

/// API key of version negotiation.
pub const API_VERSIONS_KEY: i16 = 18;

/// API key of the topic-partitions lookup.
pub const DTP_KEY: i16 = 75;

/// The kind of request that an API key names.
#[derive(Debug, Clone, Copy, PartialEq, Eq, Structural)]
pub enum ApiType {
    ApiVersions,
    DTP,
}

/// The request kind of an API key, if it is one of the two supported.
pub open spec fn api_type_of(v: i16) -> Option<ApiType> {
    if v == API_VERSIONS_KEY {
        Some(ApiType::ApiVersions)
    } else if v == DTP_KEY {
        Some(ApiType::DTP)
    } else {
        None
    }
}

impl ApiType {
    /// The request kind of an API key; `None` for a key outside the supported set.
    pub fn from_key(v: i16) -> (r: Option<ApiType>)
        ensures
            r == api_type_of(v),
    {
        if v == API_VERSIONS_KEY {
            Some(ApiType::ApiVersions)
        } else if v == DTP_KEY {
            Some(ApiType::DTP)
        } else {
            None
        }
    }

    /// The API key of this request kind.
    pub fn key(&self) -> (r: i16)
        ensures
            api_type_of(r) == Some(*self),
    {
        match self {
            ApiType::ApiVersions => API_VERSIONS_KEY,
            ApiType::DTP => DTP_KEY,
        }
    }
}

} // verus!
