//! A fan of an organization as shown to the organization.

use vstd::prelude::*;

verus! {

#[derive(Clone, Debug)]
pub struct DisplayFan {
    pub user_id: u128,
    pub first_name: Option<String>,
    pub last_name: Option<String>,
    pub email: Option<String>,
    pub phone: Option<String>,
    pub thumb_profile_pic_url: Option<String>,
    pub organization_id: u128,
    pub order_count: Option<u32>,
    pub created_at: i64,
    pub first_order_time: Option<i64>,
    pub last_order_time: Option<i64>,
    pub revenue_in_cents: Option<i64>,
}

} // verus!
