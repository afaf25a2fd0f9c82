//! What the installer starts with: whether it may write, and which catalog
//! it shows.

use vstd::prelude::*;
use vstd::string::*;

use crate::installer::RunMode;
use crate::manifest::{Catalog, CatalogView, fallback_catalog, is_remote_source, spec_is_remote};
use crate::text::{owned, push_str};

verus! {

/// Whether writes are allowed: never with `--no-allow-write`; else with
/// `--allow-write`, and by default in live mode.
pub open spec fn spec_write_allowed(mode: RunMode, allow_write: bool, no_allow_write: bool) -> bool {
    !no_allow_write && (allow_write || mode == RunMode::Live)
}

/// Whether writes are allowed (see `spec_write_allowed`).
pub fn write_allowed(mode: RunMode, allow_write: bool, no_allow_write: bool) -> (r: bool)
    ensures
        r == spec_write_allowed(mode, allow_write, no_allow_write),
{
    !no_allow_write && (allow_write || mode == RunMode::Live)
}

/// The warning of the proxy setup test.
pub open spec fn proxy_test_text() -> Seq<char> {
    "Connectivity test mode: DHCP and local IP are present, but the online catalog is treated as unreachable. Set UTC time, enter a proxy URL, and submit to retry the configured catalog."@
}

/// The warning of the proxy setup test.
pub fn proxy_setup_test_warning() -> (r: String)
    ensures
        r@ == proxy_test_text(),
{
    owned(
        "Connectivity test mode: DHCP and local IP are present, but the online catalog is treated as unreachable. Set UTC time, enter a proxy URL, and submit to retry the configured catalog.",
    )
}

/// The warning shown when the online catalog could not be fetched.
pub open spec fn offline_warning(error: Seq<char>) -> Seq<char> {
    "Could not fetch the online OS catalog. You can still flash a custom local image from attached media. Press P to set UTC time, configure a proxy, and retry, or Enter to continue.\n\n"@
        + error
}

/// The catalog the installer starts with: the built-in board list in the
/// proxy setup test; else the loaded catalog; when an online catalog
/// failed, the built-in board list and a warning; a local catalog that
/// failed stops the installer.
pub open spec fn startup_catalog_of(
    test_proxy_setup: bool,
    source: Seq<char>,
    loaded: Option<Result<CatalogView, Seq<char>>>,
) -> Result<(CatalogView, Option<Seq<char>>), Seq<char>> {
    if test_proxy_setup {
        Ok((fallback_catalog_view(), None))
    } else {
        match loaded {
            Some(Ok(c)) => Ok((c, None)),
            Some(Err(e)) => if spec_is_remote(source) {
                Ok((fallback_catalog_view(), Some(offline_warning(e))))
            } else {
                Err("failed to load manifest "@ + source + ": "@ + e)
            },
            None => Err("failed to load manifest "@ + source),
        }
    }
}

/// The built-in catalog, as values.
pub open spec fn fallback_catalog_view() -> CatalogView {
    CatalogView {
        schema_version: 1,
        generated_at: None,
        devices: crate::manifest::supported_device_views(),
        images: Seq::empty(),
    }
}

/// The catalog the installer starts with (see `startup_catalog_of`);
/// `loaded` is the outcome of loading `source`, which the caller skips in
/// the proxy setup test.
pub fn load_startup_catalog(test_proxy_setup: bool, source: &str, loaded: Option<Result<Catalog, String>>) -> (r:
    Result<(Catalog, Option<String>), String>)
    ensures
        match r {
            Ok((c, w)) => startup_catalog_of(
                test_proxy_setup,
                source@,
                match loaded {
                    Some(Ok(c)) => Some(Ok(c@)),
                    Some(Err(e)) => Some(Err(e@)),
                    None => None,
                },
            ) == Ok::<(CatalogView, Option<Seq<char>>), Seq<char>>((c@, crate::manifest::opt_str(w))),
            Err(e) => startup_catalog_of(
                test_proxy_setup,
                source@,
                match loaded {
                    Some(Ok(c)) => Some(Ok(c@)),
                    Some(Err(e)) => Some(Err(e@)),
                    None => None,
                },
            ) == Err::<(CatalogView, Option<Seq<char>>), Seq<char>>(e@),
        },
{
    if test_proxy_setup {
        let c = fallback_catalog();
        assert(c@ =~~= fallback_catalog_view());
        return Ok((c, None));
    }
    match loaded {
        Some(Ok(c)) => Ok((c, None)),
        Some(Err(e)) => {
            if is_remote_source(source) {
                let mut w = owned(
                    "Could not fetch the online OS catalog. You can still flash a custom local image from attached media. Press P to set UTC time, configure a proxy, and retry, or Enter to continue.\n\n",
                );
                push_str(&mut w, e.as_str());
                let c = fallback_catalog();
                assert(c@ =~~= fallback_catalog_view());
                Ok((c, Some(w)))
            } else {
                let mut m = owned("failed to load manifest ");
                push_str(&mut m, source);
                push_str(&mut m, ": ");
                push_str(&mut m, e.as_str());
                Err(m)
            }
        },
        None => {
            let mut m = owned("failed to load manifest ");
            push_str(&mut m, source);
            Err(m)
        },
    }
}

/// Running with no arguments allows writes (live mode), `--no-allow-write`
/// always forbids them, and mock mode allows them only when asked with
/// `--allow-write`.
pub proof fn lemma_write_permission(mode: RunMode, allow_write: bool)
    ensures
        !spec_write_allowed(mode, allow_write, true),
        spec_write_allowed(RunMode::Live, false, false),
        spec_write_allowed(RunMode::Mock, allow_write, false) == allow_write,
{
}

} // verus!
