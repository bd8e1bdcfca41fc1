//! Keyword classifier: decides, from a product's display name alone, whether
//! it is a Visual C++ runtime, a .NET component, or neither. Matching is
//! case-insensitive and conservative: an unrecognized name is `Unclassified`
//! and simply dropped, never an error.

use vstd::prelude::*;
use crate::record::Category;
use crate::text::{contains_ci, contains_seq, lower_seq, lemma_contains_lower, lemma_contains_trans,
    matches_at};

verus! {

/// A display name is Visual-C++-runtime-like: it mentions Visual C++ and one
/// of the runtime/redistributable keywords, case-insensitively.
pub open spec fn is_vcruntime_spec(name: Seq<char>) -> bool {
    let l = lower_seq(name);
    (contains_seq(l, "visual c++"@) || contains_seq(l, "microsoft visual c++"@)) && (contains_seq(
        l,
        "runtime"@,
    ) || contains_seq(l, "redistributable"@) || contains_seq(l, "redist"@) || contains_seq(
        l,
        "minimum runtime"@,
    ) || contains_seq(l, "additional runtime"@))
}

/// Whether `display_name` names a Visual C++ runtime package.
pub fn is_vcruntime(display_name: &str) -> (b: bool)
    ensures
        b == is_vcruntime_spec(display_name@),
{
    (contains_ci(display_name, "visual c++") || contains_ci(display_name, "microsoft visual c++"))
        && (contains_ci(display_name, "runtime") || contains_ci(display_name, "redistributable")
        || contains_ci(display_name, "redist") || contains_ci(display_name, "minimum runtime")
        || contains_ci(display_name, "additional runtime"))
}

/// A display name is .NET-like: it mentions .NET and one of the component
/// keywords, case-insensitively.
pub open spec fn is_dotnet_spec(name: Seq<char>) -> bool {
    let l = lower_seq(name);
    (contains_seq(l, ".net"@) || contains_seq(l, "dotnet"@)) && (contains_seq(l, "runtime"@)
        || contains_seq(l, "sdk"@) || contains_seq(l, "core"@) || contains_seq(l, "framework"@)
        || contains_seq(l, "desktop"@) || contains_seq(l, "aspnetcore"@) || contains_seq(
        l,
        "asp.net"@,
    ))
}

/// Whether `display_name` names a .NET runtime, SDK or related component.
pub fn is_dotnet(display_name: &str) -> (b: bool)
    ensures
        b == is_dotnet_spec(display_name@),
{
    (contains_ci(display_name, ".net") || contains_ci(display_name, "dotnet")) && (contains_ci(
        display_name,
        "runtime",
    ) || contains_ci(display_name, "sdk") || contains_ci(display_name, "core") || contains_ci(
        display_name,
        "framework",
    ) || contains_ci(display_name, "desktop") || contains_ci(display_name, "aspnetcore")
        || contains_ci(display_name, "asp.net"))
}

/// The category assigned to a display name. Visual C++ entries are split by
/// the architecture tag in the name, with x64 taken as the default when no
/// "(x86)" tag is present; .NET entries are split by component keyword, the
/// more specific keywords taking precedence.
pub open spec fn classify_spec(name: Seq<char>) -> Category {
    let l = lower_seq(name);
    if is_vcruntime_spec(name) {
        if contains_seq(l, "(x86)"@) {
            Category::VCRuntimeX86
        } else {
            Category::VCRuntimeX64
        }
    } else if is_dotnet_spec(name) {
        if contains_seq(l, "sdk"@) {
            Category::DotNetSDK
        } else if contains_seq(l, "desktop"@) {
            Category::DotNetDesktop
        } else if contains_seq(l, "aspnetcore"@) || contains_seq(l, "asp.net"@) {
            Category::DotNetAspNetCore
        } else {
            Category::DotNetRuntime
        }
    } else {
        Category::Unclassified
    }
}

/// Classifies a display name by case-insensitive keyword matching.
pub fn classify(display_name: &str) -> (c: Category)
    ensures
        c == classify_spec(display_name@),
{
    if is_vcruntime(display_name) {
        if contains_ci(display_name, "(x86)") {
            Category::VCRuntimeX86
        } else {
            Category::VCRuntimeX64
        }
    } else if is_dotnet(display_name) {
        if contains_ci(display_name, "sdk") {
            Category::DotNetSDK
        } else if contains_ci(display_name, "desktop") {
            Category::DotNetDesktop
        } else if contains_ci(display_name, "aspnetcore") || contains_ci(display_name, "asp.net") {
            Category::DotNetAspNetCore
        } else {
            Category::DotNetRuntime
        }
    } else {
        Category::Unclassified
    }
}

/// Any display name that contains "Visual C++ 2015-2022 Redistributable (x64)"
/// is recognized as a Visual C++ runtime and classified into one of the two
/// Visual C++ runtime categories.
pub proof fn lemma_vc_redist_name_classifies(name: Seq<char>)
    requires
        contains_seq(name, "Visual C++ 2015-2022 Redistributable (x64)"@),
    ensures
        is_vcruntime_spec(name),
        classify_spec(name) == Category::VCRuntimeX86 || classify_spec(name)
            == Category::VCRuntimeX64,
{
    let lit = "Visual C++ 2015-2022 Redistributable (x64)"@;
    let llit = "visual c++ 2015-2022 redistributable (x64)"@;
    reveal_strlit("Visual C++ 2015-2022 Redistributable (x64)");
    reveal_strlit("visual c++ 2015-2022 redistributable (x64)");
    reveal_strlit("visual c++");
    reveal_strlit("redistributable");
    lemma_contains_lower(name, lit);
    assert(lower_seq(lit) =~= llit) by {
        assert(forall|k: int|
            0 <= k < lit.len() ==> lower_seq(lit)[k] == crate::text::lower_char(lit[k]));
    }
    assert(contains_seq(lower_seq(name), llit));
    assert(matches_at(llit, "visual c++"@, 0)) by {
        assert(llit.subrange(0, 10) =~= "visual c++"@);
    }
    assert(contains_seq(llit, "visual c++"@));
    lemma_contains_trans(lower_seq(name), llit, "visual c++"@);
    assert(matches_at(llit, "redistributable"@, 21)) by {
        assert(llit.subrange(21, 36) =~= "redistributable"@);
    }
    assert(contains_seq(llit, "redistributable"@));
    lemma_contains_trans(lower_seq(name), llit, "redistributable"@);
}

} // verus!
