//! Typed response models for Kite Connect API.
use vstd::prelude::*;

verus! {

/// The user's profile.
#[derive(Debug, Clone)]
pub struct Profile {
    pub user_id: Option<String>,
    pub user_name: Option<String>,
    pub email: Option<String>,
    pub broker: Option<String>,
    pub exchanges: Option<Vec<String>>,
    pub products: Option<Vec<String>>,
    pub order_types: Option<Vec<String>>,
}

/// Token exchange response
#[derive(Debug, Clone)]
pub struct SessionToken {
    pub access_token: Option<String>,
    pub refresh_token: Option<String>,
    pub user_id: Option<String>,
    pub api_key: Option<String>,
}

} // verus!
