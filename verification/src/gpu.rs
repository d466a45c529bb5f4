//! GPU hint resolver: decides the discrete-GPU offload environment
//! overrides from the hardware-listing text.  The caller runs the
//! listing command and hands its output in; on platforms without this
//! mechanism the caller simply skips the call.

use vstd::prelude::*;
use crate::text::{contains_seq, contains_substr, count_matches, match_count};

verus! {

/// The device-descriptor marker that names a display controller.
pub open spec fn controller_marker() -> Seq<char> {
    "VGA compatible controller"@
}

/// The discrete-vendor markers.
pub open spec fn nvidia_marker() -> Seq<char> {
    "NVIDIA"@
}

/// The long and the short spelling of the AMD vendor marker.
pub open spec fn amd_marker() -> Seq<char> {
    "Advanced Micro Devices"@
}

pub open spec fn amd_short_marker() -> Seq<char> {
    "AMD"@
}

/// The views of a sequence of string pairs.
pub open spec fn pair_views(v: Seq<(String, String)>) -> Seq<(Seq<char>, Seq<char>)> {
    v.map_values(|p: (String, String)| (p.0@, p.1@))
}

/// The overrides owed for a hardware listing: none under two display
/// controllers; the two render-offload overrides for an NVIDIA
/// discrete card; the one direct-rendering override for an AMD card;
/// none otherwise.
pub open spec fn gpu_overrides_spec(listing: Seq<char>) -> Seq<(Seq<char>, Seq<char>)> {
    if match_count(listing, controller_marker()) < 2 {
        Seq::empty()
    } else if contains_seq(listing, nvidia_marker()) {
        seq![
            ("__NV_PRIME_RENDER_OFFLOAD"@, "1"@),
            ("__GLX_VENDOR_LIBRARY_NAME"@, "nvidia"@),
        ]
    } else if contains_seq(listing, amd_marker()) || contains_seq(listing, amd_short_marker()) {
        seq![("DRI_PRIME"@, "1"@)]
    } else {
        Seq::empty()
    }
}

/// Decides the environment overrides for the given hardware listing.
pub fn get_gpu_env_vars(listing: &str) -> (r: Vec<(String, String)>)
    ensures
        pair_views(r@) == gpu_overrides_spec(listing@),
{
    let count = count_matches(listing, "VGA compatible controller");
    let mut out: Vec<(String, String)> = Vec::new();
    if count < 2 {
        proof {
            assert(pair_views(out@) =~= gpu_overrides_spec(listing@));
        }
        return out;
    }
    if contains_substr(listing, "NVIDIA") {
        out.push(("__NV_PRIME_RENDER_OFFLOAD".to_owned(), "1".to_owned()));
        out.push(("__GLX_VENDOR_LIBRARY_NAME".to_owned(), "nvidia".to_owned()));
        proof {
            assert(pair_views(out@) =~= gpu_overrides_spec(listing@));
        }
        return out;
    }
    if contains_substr(listing, "Advanced Micro Devices") || contains_substr(listing, "AMD") {
        out.push(("DRI_PRIME".to_owned(), "1".to_owned()));
    }
    proof {
        assert(pair_views(out@) =~= gpu_overrides_spec(listing@));
    }
    out
}

} // verus!
