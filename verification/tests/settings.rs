use chip_viewer_native::settings::{
    backend_requested, effective_render_mode, egui_only_forced, env_flag_requested,
    is_hardware_adapter, is_nested_wayland_display, is_safe_wayland_environment,
    is_software_adapter, reduced_motion_requested, render_mode_from_env,
    select_adapter_from_candidates, startup_diagnostic_lines, startup_render_mode,
    windowing_failure_recovery, x11_backend_forced, AdapterCandidate, AdapterSummary,
    WindowingRecovery,
    AdapterKind, RenderMode, GPU_CANVAS_ENV, REDUCED_MOTION_ENV, RENDER_STATS_ENV,
};

#[test]
fn reduced_motion_environment_values_disable_focus_animation() {
    for value in ["1", "true", "TRUE", "yes", "on"] {
        assert!(reduced_motion_requested(Some(value)));
    }
    for value in ["0", "false", "off", ""] {
        assert!(!reduced_motion_requested(Some(value)));
    }
    assert!(!reduced_motion_requested(None));
}

#[test]
fn render_stats_environment_values_enable_stats_overlay() {
    for value in ["1", "true", "TRUE", "yes", "on"] {
        assert!(env_flag_requested(Some(value)));
    }
    for value in ["0", "false", "off", ""] {
        assert!(!env_flag_requested(Some(value)));
    }
    assert!(!env_flag_requested(None));
    assert_eq!(RENDER_STATS_ENV, "ECOS_RENDER_STATS");
}

#[test]
fn gpu_canvas_env_flag_parsing() {
    for value in ["1", "true", "TRUE", "yes", "on"] {
        assert!(env_flag_requested(Some(value)));
    }
    for value in ["0", "false", "off", ""] {
        assert!(!env_flag_requested(Some(value)));
    }
    assert!(!env_flag_requested(None));
}

#[test]
fn flag_values_are_trimmed_and_case_blind() {
    assert!(env_flag_requested(Some("  On ")));
    assert!(env_flag_requested(Some("Yes")));
    assert!(!env_flag_requested(Some("2")));
    assert!(!env_flag_requested(Some("enabled")));
    assert_eq!(REDUCED_MOTION_ENV, "ECOS_REDUCED_MOTION");
    assert_eq!(GPU_CANVAS_ENV, "ECOS_GPU_CANVAS");
}

#[test]
fn test_is_nested_wayland_display() {
    assert!(!is_nested_wayland_display(None));
    assert!(!is_nested_wayland_display(Some("")));
    assert!(!is_nested_wayland_display(Some("wayland-0")));
    assert!(!is_nested_wayland_display(Some("WAYLAND-0")));
    assert!(is_nested_wayland_display(Some("wayland-1")));
    assert!(is_nested_wayland_display(Some("wayland-2")));
    assert!(is_nested_wayland_display(Some("cage-wayland-0")));
}

#[test]
fn test_safe_wayland_on_non_wsl() {
    assert!(is_safe_wayland_environment(false, false, false, None));
}

#[test]
fn wsl_needs_cage_or_a_nested_display_for_wayland() {
    assert!(!is_safe_wayland_environment(true, false, false, None));
    assert!(!is_safe_wayland_environment(true, false, false, Some("wayland-0")));
    assert!(is_safe_wayland_environment(true, true, false, None));
    assert!(is_safe_wayland_environment(true, false, true, Some("wayland-0")));
    assert!(is_safe_wayland_environment(true, false, false, Some("wayland-1")));
}

#[test]
fn backend_choice_follows_explicit_requests_and_wsl() {
    assert!(backend_requested(Some("X11"), "x11"));
    assert!(!backend_requested(Some("wayland"), "x11"));
    assert!(!backend_requested(None, "x11"));
    assert!(x11_backend_forced(false, false, true, false, true));
    assert!(x11_backend_forced(true, true, false, false, false));
    assert!(!x11_backend_forced(true, true, false, true, false));
    assert!(!x11_backend_forced(true, true, true, false, false));
    assert!(!x11_backend_forced(false, true, false, false, false));
}

#[test]
fn render_mode_environment_values_name_the_modes() {
    assert_eq!(render_mode_from_env(Some("GPU")), Some(RenderMode::Gpu));
    assert_eq!(render_mode_from_env(Some("glow")), Some(RenderMode::Software));
    assert_eq!(render_mode_from_env(Some("Software")), Some(RenderMode::Software));
    assert_eq!(render_mode_from_env(Some("safe")), Some(RenderMode::EguiOnly));
    assert_eq!(render_mode_from_env(Some("egui-only")), Some(RenderMode::EguiOnly));
    assert_eq!(render_mode_from_env(Some(" gpu")), None);
    assert_eq!(render_mode_from_env(None), None);
}

#[test]
fn startup_mode_prefers_forced_then_requested_then_hardware() {
    assert!(egui_only_forced(false, false, false, None, Some(RenderMode::EguiOnly)));
    assert!(egui_only_forced(false, true, false, None, None));
    assert!(!egui_only_forced(false, false, false, Some(RenderMode::Gpu), None));
    assert_eq!(startup_render_mode(true, Some(RenderMode::Gpu), None, true), RenderMode::EguiOnly);
    assert_eq!(
        startup_render_mode(false, Some(RenderMode::Gpu), Some(RenderMode::Software), true),
        RenderMode::Software
    );
    assert_eq!(startup_render_mode(false, None, Some(RenderMode::Gpu), false), RenderMode::Gpu);
    assert_eq!(startup_render_mode(false, None, None, true), RenderMode::Gpu);
    assert_eq!(startup_render_mode(false, None, None, false), RenderMode::EguiOnly);
    assert_eq!(effective_render_mode(RenderMode::Gpu, false), RenderMode::EguiOnly);
    assert_eq!(effective_render_mode(RenderMode::Gpu, true), RenderMode::Gpu);
    assert_eq!(effective_render_mode(RenderMode::Software, false), RenderMode::Software);
}

#[test]
fn software_rasterizers_are_not_hardware_adapters() {
    assert!(is_software_adapter(AdapterKind::Cpu, "Any", "x"));
    assert!(is_software_adapter(AdapterKind::DiscreteGpu, "LLVMpipe (LLVM 15)", "x"));
    assert!(is_software_adapter(AdapterKind::Other, "gpu", "Mesa SWRast"));
    assert!(!is_software_adapter(AdapterKind::DiscreteGpu, "NVIDIA RTX", "nvidia"));
    assert!(is_hardware_adapter(AdapterKind::IntegratedGpu, "Intel Iris", "mesa"));
    assert!(!is_hardware_adapter(AdapterKind::VirtualGpu, "softpipe", "mesa"));
    assert!(!is_hardware_adapter(AdapterKind::Other, "Intel Iris", "mesa"));
}

fn candidate(kind: AdapterKind, name: &str, surface_supported: bool) -> AdapterCandidate {
    AdapterCandidate { kind, name: name.to_string(), driver: "driver".to_string(), surface_supported }
}

#[test]
fn test_select_adapter_from_candidates_empty_returns_err() {
    let result = select_adapter_from_candidates(&Vec::new());
    assert!(result.is_err());
    assert_eq!(result.unwrap_err(), "No surface-compatible hardware graphics adapter found");
}

#[test]
fn adapter_selection_takes_the_first_hardware_adapter_on_the_surface() {
    let candidates = vec![
        candidate(AdapterKind::Cpu, "llvmpipe", true),
        candidate(AdapterKind::DiscreteGpu, "GPU A", false),
        candidate(AdapterKind::DiscreteGpu, "GPU B", true),
        candidate(AdapterKind::IntegratedGpu, "GPU C", true),
    ];
    assert_eq!(select_adapter_from_candidates(&candidates), Ok(2));
}

#[test]
fn diagnostics_name_the_render_mode_and_3d_canvas() {
    assert_eq!(RenderMode::Gpu.diagnostic_label(), "GPU Accelerated (wgpu)");
    assert_eq!(RenderMode::Software.diagnostic_label(), "Software (egui)");
    assert_eq!(RenderMode::EguiOnly.diagnostic_label(), "Software (egui Safe Mode)");
    assert_eq!(RenderMode::Gpu.three_d_label(), "Available (GPU Instanced)");
    assert_eq!(RenderMode::Software.three_d_label(), "Unavailable (Requires Hardware GPU)");
    assert_eq!(RenderMode::EguiOnly.three_d_label(), "Unavailable (Requires Hardware GPU)");
}

#[test]
fn startup_diagnostics_describe_platform_adapters_and_mode() {
    let rule = "=".repeat(60);
    let dash = "-".repeat(60);
    let hardware = AdapterSummary {
        kind: AdapterKind::DiscreteGpu,
        name: "RTX".to_string(),
        backend: "Vulkan".to_string(),
        driver: "nvidia".to_string(),
    };
    let lines = startup_diagnostic_lines(false, false, false, false, "linux", Some(hardware), None, RenderMode::Gpu);
    assert_eq!(
        lines,
        vec![
            rule.clone(),
            "ECOS Chip Viewer Graphics Diagnostic".to_string(),
            dash.clone(),
            "Platform:         Native Linux".to_string(),
            "Hardware GPU:     RTX (Vulkan)".to_string(),
            "Fallback Adapter: None".to_string(),
            "Driver:           nvidia".to_string(),
            "Driver Type:      Hardware Accelerated GPU".to_string(),
            dash.clone(),
            "Rendering Mode:   GPU Accelerated (wgpu)".to_string(),
            "3D Canvas:        Available (GPU Instanced)".to_string(),
            rule.clone(),
        ]
    );

    let fallback = AdapterSummary {
        kind: AdapterKind::Cpu,
        name: "llvmpipe".to_string(),
        backend: "Gl".to_string(),
        driver: "mesa".to_string(),
    };
    let wsl = startup_diagnostic_lines(true, true, false, true, "linux", None, Some(fallback), RenderMode::Software);
    assert_eq!(wsl[3], "Platform:         WSL2 / WSLg");
    assert_eq!(wsl[4], "WSL /dev/dxg:     Available");
    assert_eq!(wsl[5], "Mesa D3D12:       Not found");
    assert_eq!(wsl[6], "Vulkan Dozen:     Available");
    assert_eq!(wsl[7], "Hardware GPU:     Not detected / Unavailable");
    assert_eq!(wsl[8], "Fallback Adapter: llvmpipe (Gl)");
    assert_eq!(wsl[9], "Driver:           mesa");
    assert_eq!(wsl[10], "Driver Type:      Software / CPU rasterizer");
    assert_eq!(wsl[12], "Rendering Mode:   Software (egui)");
    assert_eq!(wsl[13], "3D Canvas:        Unavailable (Requires Hardware GPU)");

    let none = startup_diagnostic_lines(false, false, false, false, "plan9", None, None, RenderMode::EguiOnly);
    assert_eq!(none[3], "Platform:         Other");
    assert_eq!(none[6], "Driver:           None");
    assert_eq!(none[7], "Driver Type:      Unavailable");
    assert_eq!(none[9], "Rendering Mode:   Software (egui Safe Mode)");
    assert_eq!(none.len(), 12);
}

#[test]
fn windowing_failures_retry_safe_mode_then_x11() {
    assert_eq!(
        windowing_failure_recovery(RenderMode::Gpu, false, true, true, true, false, true),
        WindowingRecovery::RestartInSafeMode
    );
    assert_eq!(
        windowing_failure_recovery(RenderMode::Gpu, true, true, true, true, false, true),
        WindowingRecovery::RestartWithX11
    );
    assert_eq!(
        windowing_failure_recovery(RenderMode::EguiOnly, false, true, true, true, false, false),
        WindowingRecovery::X11LibraryMissing
    );
    assert_eq!(
        windowing_failure_recovery(RenderMode::Software, false, true, true, true, true, true),
        WindowingRecovery::GiveUp
    );
    assert_eq!(
        windowing_failure_recovery(RenderMode::Software, false, false, true, true, false, true),
        WindowingRecovery::GiveUp
    );
    assert_eq!(
        windowing_failure_recovery(RenderMode::Software, false, true, false, true, false, true),
        WindowingRecovery::GiveUp
    );
}
