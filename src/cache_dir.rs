//! Layout of the application's cache directory.
use vstd::prelude::*;
use crate::error::AppError;
use crate::text::{join_path, joined};

verus! {

/// The application's cache directory under the system cache directory,
/// when the system has one.
pub fn get_cache_dir(system_cache_dir: &Option<String>) -> (r: Result<String, AppError>)
    ensures
        match system_cache_dir {
            Some(d) => r matches Ok(p) && p@ == joined(d@, "viztra"@),
            None => r matches Err(e) && e.message@ == "Failed to determine cache directory for this OS"@,
        },
{
    match system_cache_dir {
        Some(d) => Ok(join_path(d.as_str(), "viztra")),
        None => Err(AppError::new("Failed to determine cache directory for this OS")),
    }
}

/// The directory of the asset repository.
pub fn get_asset_cache_dir(system_cache_dir: &Option<String>) -> (r: Result<String, AppError>)
    ensures
        match system_cache_dir {
            Some(d) => r matches Ok(p) && p@ == joined(joined(d@, "viztra"@), "assets"@),
            None => r is Err,
        },
{
    match get_cache_dir(system_cache_dir) {
        Ok(c) => Ok(join_path(c.as_str(), "assets")),
        Err(e) => Err(e),
    }
}

/// The directory of one symbol in the asset repository.
pub fn get_symbol_cache_dir(system_cache_dir: &Option<String>, symbol: &str) -> (r: Result<
    String,
    AppError,
>)
    ensures
        match system_cache_dir {
            Some(d) => r matches Ok(p) && p@ == joined(joined(joined(d@, "viztra"@), "assets"@), symbol@),
            None => r is Err,
        },
{
    match get_asset_cache_dir(system_cache_dir) {
        Ok(a) => Ok(join_path(a.as_str(), symbol)),
        Err(e) => Err(e),
    }
}

/// The directory of the stored deal datasets.
pub fn get_deals_cache_dir(system_cache_dir: &Option<String>) -> (r: Result<String, AppError>)
    ensures
        match system_cache_dir {
            Some(d) => r matches Ok(p) && p@ == joined(joined(d@, "viztra"@), "deals"@),
            None => r is Err,
        },
{
    match get_cache_dir(system_cache_dir) {
        Ok(c) => Ok(join_path(c.as_str(), "deals")),
        Err(e) => Err(e),
    }
}

} // verus!
