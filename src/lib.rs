//! Search, lookup-table and image-routing logic for the NetTruyen catalog adapter.
use vstd::prelude::*;

pub mod filters;
pub mod image;
pub mod query;
pub mod search_url;
pub mod selectors;
pub mod tables;
pub mod text;
pub mod time;

verus! {

} // verus!
