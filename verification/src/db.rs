//! The records kept of installed applications and of cleanups.
use vstd::prelude::*;

verus! {

/// An application installed through this tool.
#[derive(Clone, Debug)]
pub struct AppEntry {
    pub id: String,
    pub name: String,
    /// `deb`, `appimage`, `zip` or `flatpak`.
    pub install_type: String,
    pub install_path: String,
    pub icon_path: Option<String>,
    pub desktop_file: Option<String>,
    pub version: Option<String>,
    pub installed_at: String,
    pub size_bytes: i64,
}

/// A cleanup that was carried out.
#[derive(Clone, Debug)]
pub struct CacheEntry {
    pub id: String,
    pub path: String,
    pub description: String,
    pub size_bytes: i64,
    pub cleaned_at: Option<String>,
}

} // verus!
