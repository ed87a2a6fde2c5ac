//! Start-up settings read from environment values and the display
//! environment: boolean flags, reduced motion and nested Wayland sessions.

use vstd::prelude::*;
use crate::text::{
    chars_contain, chars_eq_ignore_case_str, chars_eq_str, contains_seq, eq_ignore_case, lower, lower_chars,
    push_str, str_chars, string_from_str, string_views, trim, trim_chars,
};

verus! {

/// The environment variable that asks for reduced motion.
pub const REDUCED_MOTION_ENV: &'static str = "ECOS_REDUCED_MOTION";

/// The environment variable that asks for the render statistics overlay.
pub const RENDER_STATS_ENV: &'static str = "ECOS_RENDER_STATS";

/// The environment variable that switches the GPU canvas.
pub const GPU_CANVAS_ENV: &'static str = "ECOS_GPU_CANVAS";

/// The environment variable that switches GPU canvas debugging.
pub const GPU_CANVAS_DEBUG_ENV: &'static str = "ECOS_GPU_CANVAS_DEBUG";

/// A flag value is on when, trimmed, it is `1`, `true`, `yes` or `on` in
/// any ASCII case.
pub open spec fn flag_on(value: Option<Seq<char>>) -> bool {
    match value {
        Some(v) => eq_ignore_case(trim(v), "1"@) || eq_ignore_case(trim(v), "true"@)
            || eq_ignore_case(trim(v), "yes"@) || eq_ignore_case(trim(v), "on"@),
        None => false,
    }
}

pub open spec fn opt_str(value: Option<&str>) -> Option<Seq<char>> {
    match value {
        Some(v) => Some(v@),
        None => None,
    }
}

/// Whether an environment flag value asks for the feature (see `flag_on`).
pub fn env_flag_requested(value: Option<&str>) -> (r: bool)
    ensures
        r == flag_on(opt_str(value)),
{
    match value {
        Some(v) => {
            let t = trim_chars(&str_chars(v));
            chars_eq_ignore_case_str(&t, "1") || chars_eq_ignore_case_str(&t, "true")
                || chars_eq_ignore_case_str(&t, "yes") || chars_eq_ignore_case_str(&t, "on")
        },
        None => false,
    }
}

/// Whether the reduced-motion setting turns focus animations off.
pub fn reduced_motion_requested(value: Option<&str>) -> (r: bool)
    ensures
        r == flag_on(opt_str(value)),
{
    env_flag_requested(value)
}

/// A Wayland display is nested (run by a compositor such as cage inside the
/// system one) when it is set, not blank, and not `wayland-0` in any ASCII
/// case.
pub open spec fn nested_wayland(display: Option<Seq<char>>) -> bool {
    match display {
        Some(s) => trim(s).len() > 0 && !eq_ignore_case(trim(s), "wayland-0"@),
        None => false,
    }
}

/// Whether the `WAYLAND_DISPLAY` value names a nested compositor.
pub fn is_nested_wayland_display(wayland_display: Option<&str>) -> (r: bool)
    ensures
        r == nested_wayland(opt_str(wayland_display)),
{
    match wayland_display {
        Some(socket) => {
            let t = trim_chars(&str_chars(socket));
            t.len() > 0 && !chars_eq_ignore_case_str(&t, "wayland-0")
        },
        None => false,
    }
}

/// How the viewer renders.
#[derive(Clone, Copy, Debug, PartialEq, Eq, Structural)]
pub enum RenderMode {
    Gpu,
    Software,
    EguiOnly,
}

impl RenderMode {
    /// How the start-up diagnostics name the rendering mode.
    pub fn diagnostic_label(self) -> (r: &'static str)
        ensures
            r@ == match self {
                RenderMode::Gpu => "GPU Accelerated (wgpu)"@,
                RenderMode::Software => "Software (egui)"@,
                RenderMode::EguiOnly => "Software (egui Safe Mode)"@,
            },
    {
        match self {
            RenderMode::Gpu => "GPU Accelerated (wgpu)",
            RenderMode::Software => "Software (egui)",
            RenderMode::EguiOnly => "Software (egui Safe Mode)",
        }
    }

    /// How the start-up diagnostics describe the 3D canvas: only the GPU
    /// mode has one.
    pub fn three_d_label(self) -> (r: &'static str)
        ensures
            r@ == match self {
                RenderMode::Gpu => "Available (GPU Instanced)"@,
                _ => "Unavailable (Requires Hardware GPU)"@,
            },
    {
        match self {
            RenderMode::Gpu => "Available (GPU Instanced)",
            RenderMode::Software | RenderMode::EguiOnly => "Unavailable (Requires Hardware GPU)",
        }
    }
}


/// Wayland is safe to use outside WSL, under the cage compositor, or on a
/// nested Wayland display.
pub open spec fn safe_wayland(
    is_wsl: bool,
    under_cage: bool,
    has_cage_socket: bool,
    wayland_display: Option<Seq<char>>,
) -> bool {
    !is_wsl || under_cage || has_cage_socket || nested_wayland(wayland_display)
}

/// Whether the viewer may use the Wayland backend (see `safe_wayland`);
/// `under_cage` and `has_cage_socket` are what the process tree and the
/// environment say of the cage compositor.
pub fn is_safe_wayland_environment(
    is_wsl: bool,
    under_cage: bool,
    has_cage_socket: bool,
    wayland_display: Option<&str>,
) -> (r: bool)
    ensures
        r == safe_wayland(is_wsl, under_cage, has_cage_socket, opt_str(wayland_display)),
{
    if !is_wsl {
        return true;
    }
    if under_cage || has_cage_socket {
        return true;
    }
    is_nested_wayland_display(wayland_display)
}

/// Whether `ECOS_WINDOW_BACKEND` names the given backend, in any ASCII
/// case.
pub fn backend_requested(value: Option<&str>, backend: &str) -> (r: bool)
    ensures
        r == match value {
            Some(v) => eq_ignore_case(v@, backend@),
            None => false,
        },
{
    match value {
        Some(v) => {
            let c = str_chars(v);
            chars_eq_ignore_case_str(&c, backend)
        },
        None => false,
    }
}

/// The X11 backend is forced when asked for explicitly, or under WSL with
/// an X display when Wayland is not safe and was not asked for.
pub fn x11_backend_forced(
    is_wsl: bool,
    has_x_display: bool,
    safe_wayland: bool,
    explicit_wayland: bool,
    explicit_x11: bool,
) -> (r: bool)
    ensures
        r == (explicit_x11 || (is_wsl && has_x_display && !safe_wayland && !explicit_wayland)),
{
    explicit_x11 || (is_wsl && has_x_display && !safe_wayland && !explicit_wayland)
}

/// The mode `ECOS_RENDER_MODE` asks for, in any ASCII case: `gpu`;
/// `software` or `glow`; `egui-only`, `egui`, `safe` or `cpu`; none for
/// any other value.
pub open spec fn env_render_mode(value: Option<Seq<char>>) -> Option<RenderMode> {
    match value {
        Some(v) => {
            let l = lower(v);
            if l == "gpu"@ {
                Some(RenderMode::Gpu)
            } else if l == "software"@ || l == "glow"@ {
                Some(RenderMode::Software)
            } else if l == "egui-only"@ || l == "egui"@ || l == "safe"@ || l == "cpu"@ {
                Some(RenderMode::EguiOnly)
            } else {
                None
            }
        },
        None => None,
    }
}

/// The render mode an `ECOS_RENDER_MODE` value asks for (see
/// `env_render_mode`).
pub fn render_mode_from_env(value: Option<&str>) -> (r: Option<RenderMode>)
    ensures
        r == env_render_mode(opt_str(value)),
{
    match value {
        Some(v) => {
            let l = lower_chars(&str_chars(v));
            if chars_eq_str(&l, "gpu") {
                Some(RenderMode::Gpu)
            } else if chars_eq_str(&l, "software") || chars_eq_str(&l, "glow") {
                Some(RenderMode::Software)
            } else if chars_eq_str(&l, "egui-only") || chars_eq_str(&l, "egui") || chars_eq_str(
                &l,
                "safe",
            ) || chars_eq_str(&l, "cpu") {
                Some(RenderMode::EguiOnly)
            } else {
                None
            }
        },
        None => None,
    }
}

fn is_mode(mode: Option<RenderMode>, wanted: RenderMode) -> (r: bool)
    ensures
        r == (mode == Some(wanted)),
{
    match mode {
        Some(m) => m == wanted,
        None => false,
    }
}

/// The egui-only mode is forced by its flag, by forcing the CPU (flag or
/// environment), or by asking for it on the command line or in the
/// environment.
pub fn egui_only_forced(
    egui_only: bool,
    force_cpu: bool,
    force_cpu_env: bool,
    arg_mode: Option<RenderMode>,
    env_mode: Option<RenderMode>,
) -> (r: bool)
    ensures
        r == (egui_only || force_cpu || force_cpu_env || arg_mode == Some(RenderMode::EguiOnly)
            || env_mode == Some(RenderMode::EguiOnly)),
{
    egui_only || force_cpu || force_cpu_env || is_mode(arg_mode, RenderMode::EguiOnly) || is_mode(
        env_mode,
        RenderMode::EguiOnly,
    )
}

/// The mode the viewer starts in: egui-only when forced; else software,
/// then GPU, when the command line or the environment asks for it; else
/// GPU when a hardware adapter was found and egui-only otherwise.
pub open spec fn start_mode(
    forced_egui_only: bool,
    arg_mode: Option<RenderMode>,
    env_mode: Option<RenderMode>,
    hardware_found: bool,
) -> RenderMode {
    if forced_egui_only {
        RenderMode::EguiOnly
    } else if arg_mode == Some(RenderMode::Software) || env_mode == Some(RenderMode::Software) {
        RenderMode::Software
    } else if arg_mode == Some(RenderMode::Gpu) || env_mode == Some(RenderMode::Gpu) {
        RenderMode::Gpu
    } else if hardware_found {
        RenderMode::Gpu
    } else {
        RenderMode::EguiOnly
    }
}

/// The start-up render mode (see `start_mode`); `hardware_found` is
/// whether probing found a hardware adapter (adapters are probed only when
/// egui-only is not forced).
pub fn startup_render_mode(
    forced_egui_only: bool,
    arg_mode: Option<RenderMode>,
    env_mode: Option<RenderMode>,
    hardware_found: bool,
) -> (r: RenderMode)
    ensures
        r == start_mode(forced_egui_only, arg_mode, env_mode, hardware_found),
{
    if forced_egui_only {
        RenderMode::EguiOnly
    } else if is_mode(arg_mode, RenderMode::Software) || is_mode(env_mode, RenderMode::Software) {
        RenderMode::Software
    } else if is_mode(arg_mode, RenderMode::Gpu) || is_mode(env_mode, RenderMode::Gpu) {
        RenderMode::Gpu
    } else if hardware_found {
        RenderMode::Gpu
    } else {
        RenderMode::EguiOnly
    }
}

/// The mode used once the window exists: the GPU mode only with a wgpu
/// device on a hardware adapter that has storage buffers, else egui-only;
/// the other modes unchanged.
pub fn effective_render_mode(mode: RenderMode, wgpu_hardware_ready: bool) -> (r: RenderMode)
    ensures
        r == match mode {
            RenderMode::Gpu => if wgpu_hardware_ready {
                RenderMode::Gpu
            } else {
                RenderMode::EguiOnly
            },
            other => other,
        },
{
    match mode {
        RenderMode::Gpu => if wgpu_hardware_ready {
            RenderMode::Gpu
        } else {
            RenderMode::EguiOnly
        },
        other => other,
    }
}

/// What a graphics adapter reports itself as.
#[derive(Clone, Copy, Debug, PartialEq, Eq, Structural)]
pub enum AdapterKind {
    Other,
    IntegratedGpu,
    DiscreteGpu,
    VirtualGpu,
    Cpu,
}

/// A software rasterizer: a CPU device, or `llvmpipe` or `softpipe` in its
/// name, or `llvmpipe` or `swrast` in its driver, in any ASCII case.
pub open spec fn software_adapter(kind: AdapterKind, name: Seq<char>, driver: Seq<char>) -> bool {
    kind == AdapterKind::Cpu || contains_seq(lower(name), "llvmpipe"@) || contains_seq(
        lower(name),
        "softpipe"@,
    ) || contains_seq(lower(driver), "llvmpipe"@) || contains_seq(lower(driver), "swrast"@)
}

/// A hardware adapter: an integrated, discrete or virtual GPU that is not
/// a software rasterizer.
pub open spec fn hardware_adapter(kind: AdapterKind, name: Seq<char>, driver: Seq<char>) -> bool {
    (kind == AdapterKind::IntegratedGpu || kind == AdapterKind::DiscreteGpu || kind
        == AdapterKind::VirtualGpu) && !software_adapter(kind, name, driver)
}

/// Whether an adapter is a software rasterizer (see `software_adapter`).
pub fn is_software_adapter(kind: AdapterKind, name: &str, driver: &str) -> (r: bool)
    ensures
        r == software_adapter(kind, name@, driver@),
{
    let n = lower_chars(&str_chars(name));
    let d = lower_chars(&str_chars(driver));
    let llvmpipe = str_chars("llvmpipe");
    let softpipe = str_chars("softpipe");
    let swrast = str_chars("swrast");
    kind == AdapterKind::Cpu || chars_contain(&n, &llvmpipe) || chars_contain(&n, &softpipe)
        || chars_contain(&d, &llvmpipe) || chars_contain(&d, &swrast)
}

/// Whether an adapter is a hardware GPU (see `hardware_adapter`).
pub fn is_hardware_adapter(kind: AdapterKind, name: &str, driver: &str) -> (r: bool)
    ensures
        r == hardware_adapter(kind, name@, driver@),
{
    (kind == AdapterKind::IntegratedGpu || kind == AdapterKind::DiscreteGpu || kind
        == AdapterKind::VirtualGpu) && !is_software_adapter(kind, name, driver)
}

/// What the window system offers of one adapter: its kind, name and
/// driver, and whether it can present to the window's surface.
pub struct AdapterCandidate {
    pub kind: AdapterKind,
    pub name: String,
    pub driver: String,
    pub surface_supported: bool,
}

/// The candidate can be chosen: it presents to the surface and is a
/// hardware adapter.
pub open spec fn usable_adapter(c: AdapterCandidate) -> bool {
    c.surface_supported && hardware_adapter(c.kind, c.name@, c.driver@)
}

/// The first usable candidate (see `usable_adapter`), by its index; an
/// error when there is none.
pub fn select_adapter_from_candidates(candidates: &Vec<AdapterCandidate>) -> (r: Result<usize, String>)
    ensures
        match r {
            Ok(i) => i < candidates@.len() && usable_adapter(candidates@[i as int]) && forall|j: int|
                0 <= j < i ==> !usable_adapter(#[trigger] candidates@[j]),
            Err(e) => e@ == "No surface-compatible hardware graphics adapter found"@ && forall|j: int|
                0 <= j < candidates@.len() ==> !usable_adapter(#[trigger] candidates@[j]),
        },
{
    let n = candidates.len();
    for i in 0..n
        invariant
            n == candidates@.len(),
            forall|j: int| 0 <= j < i ==> !usable_adapter(#[trigger] candidates@[j]),
    {
        let c = &candidates[i];
        if c.surface_supported && is_hardware_adapter(c.kind, c.name.as_str(), c.driver.as_str()) {
            return Ok(i);
        }
    }
    Err(crate::text::string_from_str("No surface-compatible hardware graphics adapter found"))
}

// ---------------------------------------------------------------------
// Start-up diagnostics
// ---------------------------------------------------------------------
/// What the start-up diagnostics show of a graphics adapter: its kind,
/// name, backend (as the graphics API names it) and driver.
pub struct AdapterSummary {
    pub kind: AdapterKind,
    pub name: String,
    pub backend: String,
    pub driver: String,
}

/// The platform line's text: WSL first, else by operating system name.
pub open spec fn platform_label(is_wsl: bool, os: Seq<char>) -> Seq<char> {
    if is_wsl {
        "WSL2 / WSLg"@
    } else if os == "linux"@ {
        "Native Linux"@
    } else if os == "windows"@ {
        "Windows"@
    } else if os == "macos"@ {
        "macOS"@
    } else {
        "Other"@
    }
}

/// `name (backend)` of an adapter, or `none` without one.
pub open spec fn adapter_text(a: Option<AdapterSummary>, none: Seq<char>) -> Seq<char> {
    match a {
        Some(a) => a.name@ + " ("@ + a.backend@ + ")"@,
        None => none,
    }
}

/// The driver of an adapter, or `None` without one.
pub open spec fn driver_text(a: Option<AdapterSummary>) -> Seq<char> {
    match a {
        Some(a) => a.driver@,
        None => "None"@,
    }
}

/// What kind of rasterizer an adapter is.
pub open spec fn driver_type_text(a: Option<AdapterSummary>) -> Seq<char> {
    match a {
        Some(a) => if software_adapter(a.kind, a.name@, a.driver@) {
            "Software / CPU rasterizer"@
        } else {
            "Hardware Accelerated GPU"@
        },
        None => "Unavailable"@,
    }
}

/// `yes` when the flag is set, else `no`.
pub open spec fn flag_text(flag: bool, yes: Seq<char>, no: Seq<char>) -> Seq<char> {
    if flag {
        yes
    } else {
        no
    }
}

/// The lines of the start-up graphics diagnostics: platform, the WSL
/// graphics pieces (under WSL only), the hardware and fallback adapters,
/// the driver and kind of the adapter in use (the hardware one, else the
/// fallback), the rendering mode and the 3D canvas, framed by rules.
pub open spec fn diagnostic_lines(
    is_wsl: bool,
    has_dxg: bool,
    has_d3d12_mesa: bool,
    has_dzn: bool,
    os: Seq<char>,
    hardware: Option<AdapterSummary>,
    fallback: Option<AdapterSummary>,
    mode: RenderMode,
) -> Seq<Seq<char>> {
    let active = if hardware is Some {
        hardware
    } else {
        fallback
    };
    seq![
        "============================================================"@,
        "ECOS Chip Viewer Graphics Diagnostic"@,
        "------------------------------------------------------------"@,
        "Platform:         "@ + platform_label(is_wsl, os),
    ] + (if is_wsl {
        seq![
            "WSL /dev/dxg:     "@ + flag_text(has_dxg, "Available"@, "Not found"@),
            "Mesa D3D12:       "@ + flag_text(has_d3d12_mesa, "Available"@, "Not found"@),
            "Vulkan Dozen:     "@ + flag_text(has_dzn, "Available"@, "Not detected"@),
        ]
    } else {
        Seq::empty()
    }) + seq![
        "Hardware GPU:     "@ + adapter_text(hardware, "Not detected / Unavailable"@),
        "Fallback Adapter: "@ + adapter_text(fallback, "None"@),
        "Driver:           "@ + driver_text(active),
        "Driver Type:      "@ + driver_type_text(active),
        "------------------------------------------------------------"@,
        "Rendering Mode:   "@ + match mode {
            RenderMode::Gpu => "GPU Accelerated (wgpu)"@,
            RenderMode::Software => "Software (egui)"@,
            RenderMode::EguiOnly => "Software (egui Safe Mode)"@,
        },
        "3D Canvas:        "@ + match mode {
            RenderMode::Gpu => "Available (GPU Instanced)"@,
            _ => "Unavailable (Requires Hardware GPU)"@,
        },
        "============================================================"@,
    ]
}

fn line_of(prefix: &str, text: &str) -> (r: String)
    ensures
        r@ == prefix@ + text@,
{
    let mut r = string_from_str(prefix);
    push_str(&mut r, text);
    r
}

fn adapter_line(prefix: &str, a: &Option<AdapterSummary>, none: &str) -> (r: String)
    ensures
        r@ == prefix@ + adapter_text(*a, none@),
{
    let mut r = string_from_str(prefix);
    match a {
        Some(a) => {
            push_str(&mut r, a.name.as_str());
            push_str(&mut r, " (");
            push_str(&mut r, a.backend.as_str());
            push_str(&mut r, ")");
        },
        None => push_str(&mut r, none),
    }
    r
}

fn platform_name(is_wsl: bool, os: &str) -> (r: &'static str)
    ensures
        r@ == platform_label(is_wsl, os@),
{
    let chars = str_chars(os);
    if is_wsl {
        "WSL2 / WSLg"
    } else if chars_eq_str(&chars, "linux") {
        "Native Linux"
    } else if chars_eq_str(&chars, "windows") {
        "Windows"
    } else if chars_eq_str(&chars, "macos") {
        "macOS"
    } else {
        "Other"
    }
}

fn flag_name(flag: bool, yes: &'static str, no: &'static str) -> (r: &'static str)
    ensures
        r@ == flag_text(flag, yes@, no@),
{
    if flag {
        yes
    } else {
        no
    }
}

/// The start-up graphics diagnostics (see `diagnostic_lines`); `os` is the
/// operating system's name (`linux`, `windows`, `macos`, ...).
pub fn startup_diagnostic_lines(
    is_wsl: bool,
    has_dxg: bool,
    has_d3d12_mesa: bool,
    has_dzn: bool,
    os: &str,
    hardware: Option<AdapterSummary>,
    fallback: Option<AdapterSummary>,
    mode: RenderMode,
) -> (lines: Vec<String>)
    ensures
        string_views(lines@) == diagnostic_lines(
            is_wsl,
            has_dxg,
            has_d3d12_mesa,
            has_dzn,
            os@,
            hardware,
            fallback,
            mode,
        ),
{
    let mut lines: Vec<String> = Vec::new();
    lines.push(string_from_str("============================================================"));
    lines.push(string_from_str("ECOS Chip Viewer Graphics Diagnostic"));
    lines.push(string_from_str("------------------------------------------------------------"));
    lines.push(line_of("Platform:         ", platform_name(is_wsl, os)));
    if is_wsl {
        lines.push(line_of("WSL /dev/dxg:     ", flag_name(has_dxg, "Available", "Not found")));
        lines.push(line_of("Mesa D3D12:       ", flag_name(has_d3d12_mesa, "Available", "Not found")));
        lines.push(line_of("Vulkan Dozen:     ", flag_name(has_dzn, "Available", "Not detected")));
    }
    lines.push(adapter_line("Hardware GPU:     ", &hardware, "Not detected / Unavailable"));
    lines.push(adapter_line("Fallback Adapter: ", &fallback, "None"));
    let active = if hardware.is_some() {
        &hardware
    } else {
        &fallback
    };
    let (driver, kind): (String, &'static str) = match active {
        Some(a) => (
            string_from_str(a.driver.as_str()),
            if is_software_adapter(a.kind, a.name.as_str(), a.driver.as_str()) {
                "Software / CPU rasterizer"
            } else {
                "Hardware Accelerated GPU"
            },
        ),
        None => (string_from_str("None"), "Unavailable"),
    };
    lines.push(line_of("Driver:           ", driver.as_str()));
    lines.push(line_of("Driver Type:      ", kind));
    lines.push(string_from_str("------------------------------------------------------------"));
    lines.push(line_of("Rendering Mode:   ", mode.diagnostic_label()));
    lines.push(line_of("3D Canvas:        ", mode.three_d_label()));
    lines.push(string_from_str("============================================================"));
    assert(string_views(lines@) =~= diagnostic_lines(
        is_wsl,
        has_dxg,
        has_d3d12_mesa,
        has_dzn,
        os@,
        hardware,
        fallback,
        mode,
    ));
    lines
}

// ---------------------------------------------------------------------
// Windowing failures
// ---------------------------------------------------------------------
/// What to do when the window cannot be opened.
#[derive(Clone, Copy, Debug, PartialEq, Eq, Structural)]
pub enum WindowingRecovery {
    /// Start again in the safe software mode.
    RestartInSafeMode,
    /// Start again on the X11 window backend.
    RestartWithX11,
    /// X11 would be tried, but its keyboard library is missing: explain
    /// how to install it and stop.
    X11LibraryMissing,
    /// Ask the user to check the display server and stop.
    GiveUp,
}

/// The recovery from a windowing failure: a GPU start that has not been
/// retried in safe mode is; otherwise, on Linux with both a Wayland and an
/// X11 display and no X11 retry yet, X11 is tried when its keyboard library
/// is there; otherwise the viewer gives up.
pub open spec fn windowing_recovery(
    mode: RenderMode,
    safe_mode_retried: bool,
    is_linux: bool,
    wayland_display_set: bool,
    x11_display_set: bool,
    x11_retried: bool,
    xkbcommon_x11_available: bool,
) -> WindowingRecovery {
    if mode == RenderMode::Gpu && !safe_mode_retried {
        WindowingRecovery::RestartInSafeMode
    } else if is_linux && wayland_display_set && x11_display_set && !x11_retried {
        if xkbcommon_x11_available {
            WindowingRecovery::RestartWithX11
        } else {
            WindowingRecovery::X11LibraryMissing
        }
    } else {
        WindowingRecovery::GiveUp
    }
}

/// Decides the recovery from a windowing failure (see
/// `windowing_recovery`).
pub fn windowing_failure_recovery(
    mode: RenderMode,
    safe_mode_retried: bool,
    is_linux: bool,
    wayland_display_set: bool,
    x11_display_set: bool,
    x11_retried: bool,
    xkbcommon_x11_available: bool,
) -> (r: WindowingRecovery)
    ensures
        r == windowing_recovery(
            mode,
            safe_mode_retried,
            is_linux,
            wayland_display_set,
            x11_display_set,
            x11_retried,
            xkbcommon_x11_available,
        ),
{
    if mode == RenderMode::Gpu && !safe_mode_retried {
        WindowingRecovery::RestartInSafeMode
    } else if is_linux && wayland_display_set && x11_display_set && !x11_retried {
        if xkbcommon_x11_available {
            WindowingRecovery::RestartWithX11
        } else {
            WindowingRecovery::X11LibraryMissing
        }
    } else {
        WindowingRecovery::GiveUp
    }
}

} // verus!
