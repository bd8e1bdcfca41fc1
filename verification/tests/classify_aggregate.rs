use envscan::aggregate::aggregate;
use envscan::classify::{classify, is_dotnet, is_vcruntime};
use envscan::record::{Category, RawCandidate, RuntimeRecord, record_from_candidate};

fn rec(name: &str, version: &str) -> RuntimeRecord {
    RuntimeRecord {
        display_name: name.to_string(),
        version: version.to_string(),
        install_location: None,
        publisher: None,
        category: Category::Unclassified,
    }
}

#[test]
fn vc_redist_name_is_vc_runtime() {
    assert!(is_vcruntime("Microsoft Visual C++ 2015-2022 Redistributable (x64) - 14.36.32532"));
    assert!(is_vcruntime("Visual C++ 2015-2022 Redistributable (x64)"));
    assert_eq!(
        classify("Visual C++ 2015-2022 Redistributable (x64)"),
        Category::VCRuntimeX64
    );
    assert_eq!(
        classify("Microsoft Visual C++ 2013 Redistributable (x86) - 12.0.30501"),
        Category::VCRuntimeX86
    );
}

#[test]
fn unrelated_name_is_unclassified() {
    assert!(!is_vcruntime("Some Unrelated App"));
    assert!(!is_dotnet("Some Unrelated App"));
    assert_eq!(classify("Some Unrelated App"), Category::Unclassified);
}

#[test]
fn dotnet_names_classify_by_keyword() {
    assert!(is_dotnet("Microsoft .NET Runtime - 8.0.1 (x64)"));
    assert!(is_dotnet("Microsoft .NET SDK 8.0.100 (x64)"));
    assert_eq!(
        classify("Microsoft .NET SDK 8.0.100 (x64)"),
        Category::DotNetSDK
    );
    assert_eq!(
        classify("Microsoft .NET Runtime - 8.0.1 (x64)"),
        Category::DotNetRuntime
    );
    assert_eq!(
        classify("Microsoft Windows Desktop Runtime - .NET 8.0.1"),
        Category::DotNetDesktop
    );
    assert_eq!(
        classify("Microsoft ASP.NET Core 8.0.1 Shared Framework"),
        Category::DotNetAspNetCore
    );
}

#[test]
fn classifier_is_case_insensitive() {
    assert!(is_vcruntime("VISUAL C++ 2010 RUNTIME"));
    assert!(is_dotnet("DOTNET CORE thing"));
    assert!(!is_vcruntime("visual c++ compiler toolchain"));
}

#[test]
fn duplicate_names_merge_to_one_record() {
    let a = rec("Visual C++ 2015-2022 Redistributable (x64)", "14.30");
    let b = rec("Visual C++ 2015-2022 Redistributable (x64)", "14.36");
    let merged = aggregate(vec![a, b]);
    assert_eq!(merged.len(), 1);
    // the record processed last wins
    assert_eq!(merged[0].version, "14.36");
}

#[test]
fn later_source_overwrites_earlier_fields() {
    let mut a = rec("Visual C++ 2015-2022 Redistributable (x64)", "14.x");
    a.publisher = None;
    let mut b = rec("Visual C++ 2015-2022 Redistributable (x64)", "14.36.32532");
    b.publisher = Some("Microsoft Corporation".to_string());
    let merged = aggregate(vec![a, b]);
    assert_eq!(merged.len(), 1);
    assert_eq!(merged[0].version, "14.36.32532");
    assert_eq!(merged[0].publisher.as_deref(), Some("Microsoft Corporation"));
}

#[test]
fn aggregate_sorts_by_display_name() {
    let records = vec![
        rec("B Redistributable", "1"),
        rec("A Redistributable", "2"),
        rec("C Redistributable", "3"),
    ];
    let sorted = aggregate(records);
    assert_eq!(sorted.len(), 3);
    assert_eq!(sorted[0].display_name, "A Redistributable");
    assert_eq!(sorted[1].display_name, "B Redistributable");
    assert_eq!(sorted[2].display_name, "C Redistributable");
}

#[test]
fn aggregate_of_empty_input_is_empty() {
    let merged = aggregate(Vec::new());
    assert!(merged.is_empty());
}

#[test]
fn missing_version_falls_back_to_unknown() {
    let c = RawCandidate {
        display_name: "Microsoft Visual C++ 2012 Redistributable (x86)".to_string(),
        version: None,
        install_location: None,
        publisher: None,
    };
    let r = record_from_candidate(c, Category::VCRuntimeX86);
    assert_eq!(r.version, "unknown");
    let c2 = RawCandidate {
        display_name: "Microsoft Visual C++ 2012 Redistributable (x86)".to_string(),
        version: Some("11.0.61030".to_string()),
        install_location: None,
        publisher: None,
    };
    let r2 = record_from_candidate(c2, Category::VCRuntimeX86);
    assert_eq!(r2.version, "11.0.61030");
}
