//! The caches that can be cleaned, and where they are.
use vstd::prelude::*;
use crate::locations::{cache_dir, opt_seq, or_tmp};
use crate::paths::{join, join_exec};
use crate::text::{chars_of, owned, string_of};

verus! {

/// Measuring caches.  Adding up file sizes happens outside this library.
pub struct CacheAnalyzer;

/// The caches listed for cleaning, by label and path, in order, given the
/// user's cache directory.
pub open spec fn spec_cache_locations(cache: Option<Seq<char>>) -> Seq<(Seq<char>, Seq<char>)> {
    let base = or_tmp(cache);
    seq![
        ("User Cache"@, base),
        ("APT Cache"@, "/var/cache/apt/archives"@),
        ("Thumbnails"@, join(base, "thumbnails"@)),
        ("App Pro Cache"@, join(base, "app-pro-last-update-check"@)),
    ]
}

impl CacheAnalyzer {
    /// The caches listed for cleaning, by label and path, given the user's
    /// cache directory.
    pub fn cache_locations_in(cache: Option<String>) -> (r: Vec<(String, String)>)
        ensures
            r@.map_values(|p: (String, String)| (p.0@, p.1@)) == spec_cache_locations(opt_seq(cache)),
    {
        let base = match cache {
            Some(c) => chars_of(c.as_str()),
            None => chars_of("/tmp"),
        };
        let mut r: Vec<(String, String)> = Vec::new();
        r.push((owned("User Cache"), string_of(&base)));
        r.push((owned("APT Cache"), owned("/var/cache/apt/archives")));
        r.push((owned("Thumbnails"), string_of(&join_exec(&base, &chars_of("thumbnails")))));
        r.push((owned("App Pro Cache"), string_of(&join_exec(&base, &chars_of("app-pro-last-update-check")))));
        assert(r@.map_values(|p: (String, String)| (p.0@, p.1@)) =~= spec_cache_locations(opt_seq(cache)));
        r
    }

    /// The caches listed for cleaning, by label and path.
    pub fn cache_locations() -> (r: Vec<(String, String)>)
        ensures
            exists|c: Option<Seq<char>>| r@.map_values(|p: (String, String)| (p.0@, p.1@)) == spec_cache_locations(c),
            forall|i: int| 0 <= i < r@.len() ==> (#[trigger] r@[i]).1@.len() > 0,
    {
        let c = cache_dir();
        let r = Self::cache_locations_in(c);
        let ghost v = r@.map_values(|p: (String, String)| (p.0@, p.1@));
        assert(v == spec_cache_locations(opt_seq(c)));
        proof {
            reveal_strlit("/tmp");
            reveal_strlit("/var/cache/apt/archives");
            reveal_strlit("thumbnails");
            reveal_strlit("app-pro-last-update-check");
            let base = or_tmp(opt_seq(c));
            assert(base.len() > 0);
            assert(join(base, "thumbnails"@).len() > 0);
            assert(join(base, "app-pro-last-update-check"@).len() > 0);
            assert(v.len() == 4);
            assert(v[0].1.len() > 0 && v[1].1.len() > 0 && v[2].1.len() > 0 && v[3].1.len() > 0);
            assert forall|i: int| 0 <= i < r@.len() implies (#[trigger] r@[i]).1@.len() > 0 by {
                assert(v[i].1 == r@[i].1@);
            }
        }
        r
    }

    /// The size of the package cache, as `size_of` measures the directory
    /// it is asked about: the APT archive directory.
    pub fn get_apt_cache_size<F: Fn(&str) -> u64>(size_of: F) -> (r: u64)
        requires
            size_of.requires(("/var/cache/apt/archives",)),
        ensures
            size_of.ensures(("/var/cache/apt/archives",), r),
    {
        size_of("/var/cache/apt/archives")
    }
}

} // verus!
