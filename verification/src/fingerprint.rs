//! Fingerprint generation: the window geometry that goes with a screen
//! resolution, and randomly chosen but plausible hardware.

use vstd::prelude::*;
use crate::text::owned;
use crate::tls::random_range;

verus! {

/// Screen and window dimensions that are consistent with each other.
#[derive(Debug, Clone, Copy, PartialEq, Eq, Structural)]
pub struct ScreenLayout {
    pub screen_width: i32,
    pub screen_height: i32,
    pub avail_width: i32,
    pub avail_height: i32,
    pub inner_width: i32,
    pub inner_height: i32,
    pub outer_width: i32,
    pub outer_height: i32,
}

/// Height taken by the browser's own interface on a screen of height `h`.
pub open spec fn chrome_height(h: i32) -> int {
    if h > 1000 {
        85
    } else {
        75
    }
}

/// The layout for a `width` x `height` screen: the window fills the
/// screen, less the browser interface inside and a 40-pixel taskbar in
/// the available area.
pub fn screen_layout(width: i32, height: i32) -> (l: ScreenLayout)
    requires
        height >= i32::MIN + 85,
    ensures
        l.screen_width == width,
        l.screen_height == height,
        l.avail_width == width,
        l.avail_height == height - 40,
        l.inner_width == width,
        l.inner_height == height - chrome_height(height),
        l.outer_width == width,
        l.outer_height == height,
{
    let chrome: i32 = if height > 1000 { 85 } else { 75 };
    ScreenLayout {
        screen_width: width,
        screen_height: height,
        avail_width: width,
        avail_height: height - 40,
        inner_width: width,
        inner_height: height - chrome,
        outer_width: width,
        outer_height: height,
    }
}

/// Randomly chosen hardware traits of a fingerprint.
#[derive(Debug, Clone)]
pub struct HardwareProfile {
    /// `navigator.hardwareConcurrency`.
    pub cores: u32,
    /// `navigator.deviceMemory`, in GiB.
    pub memory_gb: u32,
    pub webgl_vendor: String,
    pub webgl_renderer: String,
    /// Seed of the canvas noise; never 0 (which would disable it).
    pub canvas_seed: u32,
    /// Time-zone offset in minutes from UTC.
    pub timezone_offset: i32,
}

/// Core counts to pick from (8 twice as likely).
pub open spec fn core_choices() -> Seq<u32> {
    seq![4u32, 8, 8, 12, 16]
}

/// Memory sizes to pick from (8 twice as likely).
pub open spec fn memory_choices() -> Seq<u32> {
    seq![4u32, 8, 8, 16, 32]
}

/// Time-zone offsets to pick from: EST, CST, MST, PST, UTC, CET.
pub open spec fn timezone_choices() -> Seq<i32> {
    seq![300i32, 360, 420, 480, 0, 60]
}

/// Common WebGL vendor and renderer pairs.
pub open spec fn gpu_choices() -> Seq<(Seq<char>, Seq<char>)> {
    seq![
        ("Google Inc. (NVIDIA)"@, "ANGLE (NVIDIA, NVIDIA GeForce GTX 1060 Direct3D11 vs_5_0 ps_5_0, D3D11)"@),
        ("Google Inc. (NVIDIA)"@, "ANGLE (NVIDIA, NVIDIA GeForce RTX 3060 Direct3D11 vs_5_0 ps_5_0, D3D11)"@),
        ("Google Inc. (Intel)"@, "ANGLE (Intel, Intel(R) UHD Graphics 630 Direct3D11 vs_5_0 ps_5_0, D3D11)"@),
        ("Google Inc. (AMD)"@, "ANGLE (AMD, AMD Radeon RX 580 Direct3D11 vs_5_0 ps_5_0, D3D11)"@),
    ]
}

/// The hardware given by the draws: the `ci`-th core count, the `mi`-th
/// memory size, the `gi`-th GPU pair, the seed, the `ti`-th time zone.
pub fn hardware_from_draws(ci: usize, mi: usize, gi: usize, canvas_seed: u32, ti: usize) -> (h: HardwareProfile)
    requires
        ci < 5,
        mi < 5,
        gi < 4,
        ti < 6,
    ensures
        h.cores == core_choices()[ci as int],
        h.memory_gb == memory_choices()[mi as int],
        (h.webgl_vendor@, h.webgl_renderer@) == gpu_choices()[gi as int],
        h.canvas_seed == canvas_seed,
        h.timezone_offset == timezone_choices()[ti as int],
{
    let cores_list: Vec<u32> = vec![4, 8, 8, 12, 16];
    assert(cores_list@ =~= core_choices());
    let memory_list: Vec<u32> = vec![4, 8, 8, 16, 32];
    assert(memory_list@ =~= memory_choices());
    let tz_list: Vec<i32> = vec![300, 360, 420, 480, 0, 60];
    assert(tz_list@ =~= timezone_choices());
    let cores = cores_list[ci];
    let memory_gb = memory_list[mi];
    let (webgl_vendor, webgl_renderer) = if gi == 0 {
        (
            owned("Google Inc. (NVIDIA)"),
            owned("ANGLE (NVIDIA, NVIDIA GeForce GTX 1060 Direct3D11 vs_5_0 ps_5_0, D3D11)"),
        )
    } else if gi == 1 {
        (
            owned("Google Inc. (NVIDIA)"),
            owned("ANGLE (NVIDIA, NVIDIA GeForce RTX 3060 Direct3D11 vs_5_0 ps_5_0, D3D11)"),
        )
    } else if gi == 2 {
        (
            owned("Google Inc. (Intel)"),
            owned("ANGLE (Intel, Intel(R) UHD Graphics 630 Direct3D11 vs_5_0 ps_5_0, D3D11)"),
        )
    } else {
        (
            owned("Google Inc. (AMD)"),
            owned("ANGLE (AMD, AMD Radeon RX 580 Direct3D11 vs_5_0 ps_5_0, D3D11)"),
        )
    };
    let timezone_offset = tz_list[ti];
    HardwareProfile { cores, memory_gb, webgl_vendor, webgl_renderer, canvas_seed, timezone_offset }
}

/// Pick plausible hardware at random: each trait is one of its choices,
/// and the canvas seed lies in `1 .. u32::MAX`. Which ones are drawn is
/// left open; the rest is `hardware_from_draws`.
pub fn random_hardware() -> (h: HardwareProfile)
    ensures
        core_choices().contains(h.cores),
        memory_choices().contains(h.memory_gb),
        gpu_choices().contains((h.webgl_vendor@, h.webgl_renderer@)),
        1 <= h.canvas_seed < u32::MAX,
        timezone_choices().contains(h.timezone_offset),
{
    let ci = random_range(0, 5) as usize;
    let mi = random_range(0, 5) as usize;
    let gi = random_range(0, 4) as usize;
    let canvas_seed = random_range(1, 0xffff_ffff) as u32;
    let ti = random_range(0, 6) as usize;
    let h = hardware_from_draws(ci, mi, gi, canvas_seed, ti);
    assert(core_choices()[ci as int] == h.cores);
    assert(memory_choices()[mi as int] == h.memory_gb);
    assert(gpu_choices()[gi as int] == (h.webgl_vendor@, h.webgl_renderer@));
    assert(timezone_choices()[ti as int] == h.timezone_offset);
    h
}

} // verus!
