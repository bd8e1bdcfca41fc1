use envscan::aggregate::aggregate;
use envscan::check::{
    GpuProbeKind, check_dotnet_registry_report, check_dotnet_runtime_list, check_gpu_report,
    check_vcruntime_report,
};
use envscan::parse::{
    Arch, cpu_summary, parse_base_paths, parse_column_tool_gpus, parse_pci_gpus,
    parse_profiler_gpus, split_lines, vc_fs_candidates, vc_fs_checks,
};
use envscan::record::{Category, RawCandidate, RuntimeRecord};
use envscan::report::{
    dotnet_missing_banner, render_base_paths, render_cli_status, render_gpu_report,
    render_sdk_report, render_vc_report,
};
use envscan::text::{contains_str, dec_str, find_index, starts_with_str, str_le, trim_str};

fn rec(name: &str, version: &str) -> RuntimeRecord {
    RuntimeRecord {
        display_name: name.to_string(),
        version: version.to_string(),
        install_location: None,
        publisher: None,
        category: Category::Unclassified,
    }
}

#[test]
fn decimal_rendering_is_exact() {
    assert_eq!(dec_str(0), "0");
    assert_eq!(dec_str(7), "7");
    assert_eq!(dec_str(10), "10");
    assert_eq!(dec_str(305), "305");
    assert_eq!(dec_str(1000), "1000");
}

#[test]
fn text_primitives_behave() {
    assert_eq!(trim_str("  a b\r\n"), "a b");
    assert_eq!(trim_str(""), "");
    assert_eq!(trim_str(" \t "), "");
    assert!(str_le("A Redistributable", "B Redistributable"));
    assert!(!str_le("C Redistributable", "B Redistributable"));
    assert!(str_le("abc", "abc"));
    assert!(str_le("ab", "abc"));
    assert!(starts_with_str("Microsoft.NETCore.App 8.0.1", "Microsoft.NETCore.App"));
    assert!(!starts_with_str("Microsoft.AspNetCore.App 8.0.1", "Microsoft.NETCore.App"));
    assert!(contains_str("a VGA compatible controller here", "VGA compatible controller"));
    assert_eq!(find_index("ab: cd: ef", ": "), Some(2));
    assert_eq!(find_index("abcdef", ": "), None);
}

#[test]
fn split_lines_splits_on_newlines() {
    assert_eq!(split_lines("a\nb\n"), vec!["a", "b"]);
    assert_eq!(split_lines("a\n\nb"), vec!["a", "", "b"]);
    assert_eq!(split_lines(""), Vec::<String>::new());
    assert_eq!(split_lines("one line"), vec!["one line"]);
}

#[test]
fn empty_report_is_the_fixed_banner() {
    let out = render_vc_report(&Vec::new());
    assert_eq!(
        out,
        "No Visual C++ runtime installations detected\n\nSuggestion:\n  - Download the latest VC++ Redistributable from Microsoft\n  - https://learn.microsoft.com/en-us/cpp/windows/latest-supported-vc-redist\n"
    );
}

#[test]
fn full_record_block_renders_exactly() {
    let mut r = rec("Visual C++ 2015-2022 Redistributable (x64)", "14.36");
    r.publisher = Some("Microsoft Corporation".to_string());
    r.install_location = Some("C\\VC".to_string());
    let out = render_vc_report(&vec![r]);
    let expected = String::new()
        + "Detected 1 Visual C++ runtime installation(s):\n\n"
        + "1. Visual C++ 2015-2022 Redistributable (x64)\n"
        + "   Version: 14.36\n"
        + "   Publisher: Microsoft Corporation\n"
        + "   Install location: C\\VC\n\n"
        + "--- Statistics ---\n"
        + "64-bit (x64): 1\n";
    assert_eq!(out, expected);
}

#[test]
fn missing_publisher_renders_no_publisher_line() {
    let r = rec("Visual C++ 2015-2022 Redistributable (x64)", "14.36");
    let out = render_vc_report(&vec![r]);
    assert!(!out.contains("Publisher:"));
    let mut r2 = rec("Visual C++ 2015-2022 Redistributable (x64)", "14.36");
    r2.publisher = Some("Microsoft Corporation".to_string());
    let out2 = render_vc_report(&vec![r2]);
    assert!(out2.contains("   Publisher: Microsoft Corporation\n"));
}

#[test]
fn sorted_records_render_in_name_order() {
    let records = aggregate(vec![
        rec("B Redistributable", "1"),
        rec("A Redistributable", "2"),
        rec("C Redistributable", "3"),
    ]);
    let out = render_vc_report(&records);
    assert!(out.contains("1. A Redistributable\n"));
    assert!(out.contains("2. B Redistributable\n"));
    assert!(out.contains("3. C Redistributable\n"));
}

#[test]
fn vc_stats_count_architecture_tags() {
    let records = aggregate(vec![
        rec("Microsoft Visual C++ 2013 Redistributable (x86)", "12.0"),
        rec("Microsoft Visual C++ 2013 Redistributable (x64)", "12.0"),
        rec("Microsoft Visual C++ 2015 Redistributable (x64)", "14.0"),
    ]);
    let out = render_vc_report(&records);
    assert!(out.contains("--- Statistics ---\n"));
    assert!(out.contains("32-bit (x86): 1\n"));
    assert!(out.contains("64-bit (x64): 2\n"));
}

#[test]
fn filesystem_probe_yields_vc_record() {
    // a hit for the runtime library under the 64-bit system directory
    let checks = vc_fs_checks();
    assert_eq!(checks.len(), 2);
    assert_eq!(checks[0].0, "System32");
    assert_eq!(checks[0].1, "vcruntime140.dll");
    assert_eq!(checks[0].2, Arch::X64);
    let candidates = vc_fs_candidates(&vec![Arch::X64]);
    let records = aggregate(candidates);
    assert_eq!(records.len(), 1);
    assert_eq!(records[0].display_name, "Visual C++ 2015-2022 Redistributable (x64)");
    assert_eq!(records[0].version, "14.x");
    assert_eq!(records[0].category, Category::VCRuntimeX64);
    let out = render_vc_report(&records);
    assert!(out.contains("1. Visual C++ 2015-2022 Redistributable (x64)\n"));
    assert!(out.contains("   Version: 14.x\n"));
}

#[test]
fn registry_row_pipeline_builds_report() {
    let rows = vec![
        RawCandidate {
            display_name: "Some Unrelated App".to_string(),
            version: Some("1.0".to_string()),
            install_location: None,
            publisher: None,
        },
        RawCandidate {
            display_name: "Microsoft Visual C++ 2015-2022 Redistributable (x64) - 14.36.32532"
                .to_string(),
            version: Some("14.36.32532".to_string()),
            install_location: None,
            publisher: Some("Microsoft Corporation".to_string()),
        },
    ];
    let (records, text) = check_vcruntime_report(rows);
    assert_eq!(records.len(), 1);
    assert_eq!(records[0].category, Category::VCRuntimeX64);
    assert!(text.starts_with("Detected 1 Visual C++ runtime installation(s):\n"));
    assert!(text.contains("   Version: 14.36.32532\n"));
}

#[test]
fn dotnet_registry_pipeline_filters_and_reports() {
    let rows = vec![
        RawCandidate {
            display_name: "Microsoft .NET Runtime - 8.0.1 (x64)".to_string(),
            version: Some("8.0.1".to_string()),
            install_location: None,
            publisher: None,
        },
        RawCandidate {
            display_name: "Some Unrelated App".to_string(),
            version: None,
            install_location: None,
            publisher: None,
        },
    ];
    let (records, text) = check_dotnet_registry_report(rows);
    assert_eq!(records.len(), 1);
    assert!(text.starts_with("Found 1 .NET-related installation(s) in the registry:\n"));
    let (none_records, none_text) = check_dotnet_registry_report(Vec::new());
    assert!(none_records.is_empty());
    assert_eq!(none_text, "No .NET installation information found in the registry\n");
}

#[test]
fn runtime_list_groups_into_labeled_buckets() {
    let text = "Microsoft.NETCore.App 8.0.1 [/usr/share/dotnet/shared/Microsoft.NETCore.App]\n\
                Microsoft.WindowsDesktop.App 8.0.1 [C:\\shared\\Microsoft.WindowsDesktop.App]\n";
    let out = check_dotnet_runtime_list(text);
    assert!(out.starts_with("Installed .NET Runtime(s) (2):\n"));
    let core_header = out.find("   .NET Runtime (Core):\n").expect("core header");
    let desktop_header = out.find("   Windows Desktop Runtime:\n").expect("desktop header");
    assert!(core_header < desktop_header);
    assert!(out.contains(
        "      1. Microsoft.NETCore.App 8.0.1 [/usr/share/dotnet/shared/Microsoft.NETCore.App]\n"
    ));
    assert!(out.contains(
        "      1. Microsoft.WindowsDesktop.App 8.0.1 [C:\\shared\\Microsoft.WindowsDesktop.App]\n"
    ));
    assert!(!out.contains("ASP.NET Core Runtime:"));
}

#[test]
fn column_tool_output_parses_gpu_names() {
    let lines = vec![
        "Name".to_string(),
        "NVIDIA GeForce RTX 3060   ".to_string(),
        "".to_string(),
        "Intel(R) UHD Graphics 630".to_string(),
    ];
    let gpus = parse_column_tool_gpus(&lines);
    assert_eq!(gpus, vec!["NVIDIA GeForce RTX 3060", "Intel(R) UHD Graphics 630"]);
}

#[test]
fn pci_listing_output_parses_gpu_names() {
    let lines = vec![
        "00:1f.3 Audio device: Intel Corporation Device".to_string(),
        "00:02.0 VGA compatible controller: Intel Corporation UHD Graphics 620 (rev 07)"
            .to_string(),
        "01:00.0 3D controller: NVIDIA Corporation GP108M".to_string(),
    ];
    let gpus = parse_pci_gpus(&lines);
    assert_eq!(
        gpus,
        vec!["Intel Corporation UHD Graphics 620 (rev 07)", "NVIDIA Corporation GP108M"]
    );
}

#[test]
fn profiler_output_parses_gpu_names() {
    let lines = vec![
        "Graphics/Displays:".to_string(),
        "      Chipset Model: Apple M1".to_string(),
        "      Type: GPU".to_string(),
    ];
    let gpus = parse_profiler_gpus(&lines);
    assert_eq!(gpus, vec!["Apple M1"]);
}

#[test]
fn gpu_report_counts_multiple_gpus() {
    let out = render_gpu_report(&vec!["A".to_string(), "B".to_string()]);
    assert_eq!(out, "Total 2 GPUs\n1. A\n2. B\n");
    let single = render_gpu_report(&vec!["A".to_string()]);
    assert_eq!(single, "1. A\n");
    let none = render_gpu_report(&Vec::new());
    assert_eq!(none, "Unable to detect GPU information\n");
}

#[test]
fn gpu_check_end_to_end_by_probe_kind() {
    let text = "Name\nNVIDIA GeForce RTX 3060\n\n";
    let out = check_gpu_report(text, GpuProbeKind::ColumnTool);
    assert_eq!(out, "1. NVIDIA GeForce RTX 3060\n");
    let out2 = check_gpu_report("garbage with no device lines\n", GpuProbeKind::PciListing);
    assert_eq!(out2, "Unable to detect GPU information\n");
}

#[test]
fn base_paths_extract_from_labeled_lines() {
    let lines = vec![
        " Base Path:   /usr/share/dotnet/sdk/8.0.100/".to_string(),
        "Host Version: 8.0.1".to_string(),
    ];
    let paths = parse_base_paths(&lines);
    assert_eq!(paths, vec!["/usr/share/dotnet/sdk/8.0.100/"]);
    assert_eq!(
        render_base_paths(&paths),
        "SDK base path: /usr/share/dotnet/sdk/8.0.100/\n"
    );
}

#[test]
fn base_path_keeps_colons_inside_the_path() {
    let lines = vec![" Base Path:   C:\\Program Files\\dotnet\\sdk\\8.0.100\\".to_string()];
    assert_eq!(
        parse_base_paths(&lines),
        vec!["C:\\Program Files\\dotnet\\sdk\\8.0.100\\"]
    );
    let odd = vec!["Base Path: C:ProgramFiles".to_string()];
    assert_eq!(parse_base_paths(&odd), vec!["C:ProgramFiles"]);
}

#[test]
fn base_path_accepts_localized_label() {
    let lines = vec![" 基路径:   C:\\Program Files\\dotnet\\sdk\\8.0.100\\".to_string()];
    assert_eq!(
        parse_base_paths(&lines),
        vec!["C:\\Program Files\\dotnet\\sdk\\8.0.100\\"]
    );
}

#[test]
fn sdk_report_lists_numbered_sdks() {
    let out = render_sdk_report(&vec!["8.0.100 [/usr/share/dotnet/sdk]".to_string()]);
    assert_eq!(out, "Installed .NET SDK(s) (1):\n   1. 8.0.100 [/usr/share/dotnet/sdk]\n");
    assert_eq!(render_sdk_report(&Vec::new()), "");
}

#[test]
fn empty_probe_output_renders_nothing_or_not_found() {
    assert_eq!(check_dotnet_runtime_list(""), "");
    assert_eq!(
        check_gpu_report("Name\n", GpuProbeKind::ColumnTool),
        "Unable to detect GPU information\n"
    );
    assert_eq!(
        check_gpu_report("", GpuProbeKind::Profiler),
        "Unable to detect GPU information\n"
    );
}

#[test]
fn unknown_version_sentinel_renders() {
    let rows = vec![RawCandidate {
        display_name: "Microsoft Visual C++ 2010 x64 Runtime".to_string(),
        version: None,
        install_location: None,
        publisher: None,
    }];
    let (records, text) = check_vcruntime_report(rows);
    assert_eq!(records[0].version, "unknown");
    assert!(text.contains("   Version: unknown\n"));
}

#[test]
fn non_ascii_names_pass_through_unharmed() {
    let rows = vec![
        RawCandidate {
            display_name: "测试应用程序".to_string(),
            version: Some("1.0".to_string()),
            install_location: None,
            publisher: None,
        },
        RawCandidate {
            display_name: "Visual C++ 2015-2022 Redistributable (x64) 运行库".to_string(),
            version: Some("14.36".to_string()),
            install_location: None,
            publisher: None,
        },
    ];
    let (records, text) = check_vcruntime_report(rows);
    assert_eq!(records.len(), 1);
    assert!(text.contains("1. Visual C++ 2015-2022 Redistributable (x64) 运行库\n"));
    assert_eq!(trim_str("  你好  "), "你好");
}

#[test]
fn missing_banner_only_when_nothing_found() {
    assert_eq!(
        dotnet_missing_banner(false, 0).as_deref(),
        Some(
            "No .NET installations detected\n\nSuggestion:\n  - Download the .NET SDK or Runtime from Microsoft\n  - https://dotnet.microsoft.com/download\n"
        )
    );
    assert_eq!(dotnet_missing_banner(true, 0), None);
    assert_eq!(dotnet_missing_banner(false, 2), None);
}

#[test]
fn cli_status_and_cpu_fallbacks() {
    assert_eq!(
        render_cli_status(&Some("8.0.100".to_string())),
        "dotnet CLI detected (default version: 8.0.100)\n"
    );
    assert_eq!(render_cli_status(&None), "dotnet CLI not found or not installed\n");
    assert_eq!(cpu_summary(Some("Genuine CPU 3000".to_string())), "Genuine CPU 3000");
    assert_eq!(cpu_summary(None), "Unable to detect CPU information");
}
