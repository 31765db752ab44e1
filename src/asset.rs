//! Configuration of the historical asset-price repository and the result of
//! an asset operation.
use vstd::prelude::*;

verus! {

/// Outcome of an asset operation.
#[derive(Debug, Clone)]
pub struct AssetOperationResult {
    pub success: bool,
    pub message: String,
}

impl AssetOperationResult {
    pub fn success(message: String) -> (r: AssetOperationResult)
        ensures
            r.success,
            r.message == message,
    {
        AssetOperationResult { success: true, message }
    }

    pub fn error(message: String) -> (r: AssetOperationResult)
        ensures
            !r.success,
            r.message == message,
    {
        AssetOperationResult { success: false, message }
    }
}

/// Where the asset repository is hosted.
#[derive(Debug, Clone)]
pub struct AssetRepoConfig {
    pub owner: String,
    pub repo: String,
    pub branch: String,
}

impl Default for AssetRepoConfig {
    fn default() -> (r: Self)
        ensures
            r.owner@ == "savisor"@,
            r.repo@ == "historical-asset-prices"@,
            r.branch@ == "main"@,
    {
        AssetRepoConfig {
            owner: String::from_str("savisor"),
            repo: String::from_str("historical-asset-prices"),
            branch: String::from_str("main"),
        }
    }
}

impl AssetRepoConfig {
    /// Address of the archive of the configured branch.
    pub fn zip_url(&self) -> (r: String)
        ensures
            r@ == "https://github.com/"@ + self.owner@ + "/"@ + self.repo@ + "/archive/refs/heads/"@
                + self.branch@ + ".zip"@,
    {
        let mut u = String::from_str("https://github.com/");
        u.append(self.owner.as_str());
        u.append("/");
        u.append(self.repo.as_str());
        u.append("/archive/refs/heads/");
        u.append(self.branch.as_str());
        u.append(".zip");
        u
    }

    /// Base address of the repository in the hosting API.
    pub fn api_base_url(&self) -> (r: String)
        ensures
            r@ == "https://api.github.com/repos/"@ + self.owner@ + "/"@ + self.repo@,
    {
        let mut u = String::from_str("https://api.github.com/repos/");
        u.append(self.owner.as_str());
        u.append("/");
        u.append(self.repo.as_str());
        u
    }
}

} // verus!
