//! Reporter: renders classified, deduplicated records into a numbered,
//! human-readable summary. Optional fields produce no line at all when
//! absent, an empty result produces a fixed banner with a remediation
//! suggestion, and sub-category statistics close the Visual C++ report.

use vstd::prelude::*;
use crate::record::{RuntimeRecord, RecordView};
use crate::aggregate::{views, count_with_tag};
use crate::text::{dec_spec, push_dec};

verus! {

/// The views of a sequence of strings.
pub open spec fn str_views(s: Seq<String>) -> Seq<Seq<char>> {
    s.map_values(|x: String| x@)
}

/// A labeled line for an optional field: absent fields produce no line, not
/// an empty placeholder.
pub open spec fn opt_line(label: Seq<char>, v: Option<Seq<char>>) -> Seq<char> {
    match v {
        Option::Some(s) => label + s + "\n"@,
        Option::None => Seq::<char>::empty(),
    }
}

/// The lines of one record below its numbered name line.
pub open spec fn record_body(r: RecordView) -> Seq<char> {
    "   Version: "@ + r.version + "\n"@ + opt_line("   Publisher: "@, r.publisher) + opt_line(
        "   Install location: "@,
        r.install_location,
    ) + "\n"@
}

/// One record's block: a 1-based number, the name, then the body.
pub open spec fn record_block(idx: nat, r: RecordView) -> Seq<char> {
    dec_spec(idx) + ". "@ + r.display_name + "\n"@ + record_body(r)
}

/// The blocks of the first `i` records, numbered from 1.
pub open spec fn blocks_upto(records: Seq<RecordView>, i: int) -> Seq<char>
    decreases i,
{
    if i <= 0 {
        Seq::<char>::empty()
    } else {
        blocks_upto(records, i - 1) + record_block(i as nat, records[i - 1])
    }
}

/// A record with no publisher renders without any publisher line: its body is
/// exactly the version line, the optional location line, and the closing
/// blank line.
pub proof fn lemma_no_publisher_no_publisher_line(r: RecordView)
    requires
        r.publisher is None,
    ensures
        record_body(r) == "   Version: "@ + r.version + "\n"@ + opt_line(
            "   Install location: "@,
            r.install_location,
        ) + "\n"@,
{
    assert(opt_line("   Publisher: "@, r.publisher) =~= Seq::<char>::empty());
    assert(record_body(r) =~= "   Version: "@ + r.version + "\n"@ + opt_line(
        "   Install location: "@,
        r.install_location,
    ) + "\n"@);
}

/// Appends one record's block to `out`.
#[verifier::rlimit(50)]
fn push_block(out: &mut String, idx: usize, r: &RuntimeRecord)
    ensures
        final(out)@ == old(out)@ + record_block(idx as nat, r@),
{
    push_dec(out, idx);
    out.append(". ");
    out.append(r.display_name.as_str());
    out.append("\n");
    out.append("   Version: ");
    out.append(r.version.as_str());
    out.append("\n");
    match &r.publisher {
        Option::Some(p) => {
            out.append("   Publisher: ");
            out.append(p.as_str());
            out.append("\n");
        },
        Option::None => {},
    }
    match &r.install_location {
        Option::Some(l) => {
            out.append("   Install location: ");
            out.append(l.as_str());
            out.append("\n");
        },
        Option::None => {},
    }
    out.append("\n");
    proof {
        assert(final(out)@ =~= old(out)@ + record_block(idx as nat, r@));
    }
}

/// Appends the blocks of all records, numbered from 1.
fn push_blocks(out: &mut String, records: &Vec<RuntimeRecord>)
    ensures
        final(out)@ == old(out)@ + blocks_upto(views(records@), records@.len() as int),
{
    let ghost vs = views(records@);
    let mut i: usize = 0;
    proof {
        assert(old(out)@ + blocks_upto(vs, 0) =~= old(out)@);
    }
    while i < records.len()
        invariant
            0 <= i <= records@.len(),
            vs == views(records@),
            vs.len() == records@.len(),
            out@ == old(out)@ + blocks_upto(vs, i as int),
        decreases records@.len() - i,
    {
        push_block(out, i + 1, &records[i]);
        proof {
            assert(out@ =~= old(out)@ + blocks_upto(vs, i + 1));
        }
        i += 1;
    }
}

/// The fixed banner emitted when no Visual C++ runtime was found.
pub open spec fn vc_empty_banner() -> Seq<char> {
    "No Visual C++ runtime installations detected\n\nSuggestion:\n  - Download the latest VC++ Redistributable from Microsoft\n  - https://learn.microsoft.com/en-us/cpp/windows/latest-supported-vc-redist\n"@
}

/// The statistics block closing the Visual C++ report: one count per
/// architecture tag, and only for tags that occur.
pub open spec fn vc_stats(records: Seq<RecordView>) -> Seq<char> {
    let x86 = count_with_tag(records, "(x86)"@);
    let x64 = count_with_tag(records, "(x64)"@);
    "--- Statistics ---\n"@ + (if x86 > 0 {
        "32-bit (x86): "@ + dec_spec(x86) + "\n"@
    } else {
        Seq::<char>::empty()
    }) + (if x64 > 0 {
        "64-bit (x64): "@ + dec_spec(x64) + "\n"@
    } else {
        Seq::<char>::empty()
    })
}

/// The full Visual C++ report for an already aggregated record list.
pub open spec fn vc_report(records: Seq<RecordView>) -> Seq<char> {
    if records.len() == 0 {
        vc_empty_banner()
    } else {
        "Detected "@ + dec_spec(records.len()) + " Visual C++ runtime installation(s):\n\n"@
            + blocks_upto(records, records.len() as int) + vc_stats(records)
    }
}

/// Renders the Visual C++ report: the fixed remediation banner when nothing
/// was found, else the numbered record blocks followed by the statistics.
pub fn render_vc_report(records: &Vec<RuntimeRecord>) -> (out: String)
    ensures
        out@ == vc_report(views(records@)),
{
    let ghost vs = views(records@);
    if records.len() == 0 {
        let out = String::from_str(
            "No Visual C++ runtime installations detected\n\nSuggestion:\n  - Download the latest VC++ Redistributable from Microsoft\n  - https://learn.microsoft.com/en-us/cpp/windows/latest-supported-vc-redist\n",
        );
        out
    } else {
        let mut out = String::new();
        out.append("Detected ");
        push_dec(&mut out, records.len());
        out.append(" Visual C++ runtime installation(s):\n\n");
        push_blocks(&mut out, records);
        let x86 = crate::aggregate::count_tagged(records, "(x86)");
        let x64 = crate::aggregate::count_tagged(records, "(x64)");
        out.append("--- Statistics ---\n");
        if x86 > 0 {
            out.append("32-bit (x86): ");
            push_dec(&mut out, x86);
            out.append("\n");
        }
        if x64 > 0 {
            out.append("64-bit (x64): ");
            push_dec(&mut out, x64);
            out.append("\n");
        }
        proof {
            assert(out@ =~= vc_report(vs));
        }
        out
    }
}

/// The full registry-sourced .NET report for an aggregated record list.
pub open spec fn dotnet_registry_report(records: Seq<RecordView>) -> Seq<char> {
    if records.len() == 0 {
        "No .NET installation information found in the registry\n"@
    } else {
        "Found "@ + dec_spec(records.len()) + " .NET-related installation(s) in the registry:\n\n"@
            + blocks_upto(records, records.len() as int)
    }
}

/// Renders the registry-sourced .NET report.
pub fn render_dotnet_registry_report(records: &Vec<RuntimeRecord>) -> (out: String)
    ensures
        out@ == dotnet_registry_report(views(records@)),
{
    let ghost vs = views(records@);
    if records.len() == 0 {
        String::from_str("No .NET installation information found in the registry\n")
    } else {
        let mut out = String::new();
        out.append("Found ");
        push_dec(&mut out, records.len());
        out.append(" .NET-related installation(s) in the registry:\n\n");
        push_blocks(&mut out, records);
        proof {
            assert(out@ =~= dotnet_registry_report(vs));
        }
        out
    }
}

/// The first `i` lines numbered from 1, each indented and terminated.
pub open spec fn numbered_upto(lines: Seq<Seq<char>>, indent: Seq<char>, i: int) -> Seq<char>
    decreases i,
{
    if i <= 0 {
        Seq::<char>::empty()
    } else {
        numbered_upto(lines, indent, i - 1) + indent + dec_spec(i as nat) + ". "@ + lines[i - 1]
            + "\n"@
    }
}

/// Appends `lines` as a numbered list, each line indented by `indent`.
pub fn push_numbered(out: &mut String, lines: &Vec<String>, indent: &str)
    ensures
        final(out)@ == old(out)@ + numbered_upto(str_views(lines@), indent@, lines@.len() as int),
{
    let ghost vs = str_views(lines@);
    let mut i: usize = 0;
    proof {
        assert(old(out)@ + numbered_upto(vs, indent@, 0) =~= old(out)@);
    }
    while i < lines.len()
        invariant
            0 <= i <= lines@.len(),
            vs == str_views(lines@),
            vs.len() == lines@.len(),
            out@ == old(out)@ + numbered_upto(vs, indent@, i as int),
        decreases lines@.len() - i,
    {
        out.append(indent);
        push_dec(out, i + 1);
        out.append(". ");
        out.append(lines[i].as_str());
        out.append("\n");
        proof {
            assert(out@ =~= old(out)@ + numbered_upto(vs, indent@, i + 1));
        }
        i += 1;
    }
}

/// One bucket of the grouped runtime report: a labeled header followed by the
/// bucket's numbered lines, or nothing at all when the bucket is empty.
pub open spec fn bucket_report(header: Seq<char>, lines: Seq<Seq<char>>) -> Seq<char> {
    if lines.len() == 0 {
        Seq::<char>::empty()
    } else {
        header + numbered_upto(lines, "      "@, lines.len() as int)
    }
}

/// The grouped .NET runtime-list report: Core, ASP.NET Core and Windows
/// Desktop buckets in that order, each introduced by its own labeled header.
pub open spec fn runtime_groups_report(
    core: Seq<Seq<char>>,
    aspnet: Seq<Seq<char>>,
    desktop: Seq<Seq<char>>,
) -> Seq<char> {
    bucket_report("   .NET Runtime (Core):\n"@, core) + bucket_report(
        "   ASP.NET Core Runtime:\n"@,
        aspnet,
    ) + bucket_report("   Windows Desktop Runtime:\n"@, desktop)
}

/// Renders the grouped .NET runtime-list report from the three buckets.
pub fn render_runtime_groups(core: &Vec<String>, aspnet: &Vec<String>, desktop: &Vec<String>) -> (
    out: String)
    ensures
        out@ == runtime_groups_report(str_views(core@), str_views(aspnet@), str_views(desktop@)),
{
    let mut out = String::new();
    if core.len() > 0 {
        out.append("   .NET Runtime (Core):\n");
        push_numbered(&mut out, core, "      ");
    }
    if aspnet.len() > 0 {
        out.append("   ASP.NET Core Runtime:\n");
        push_numbered(&mut out, aspnet, "      ");
    }
    if desktop.len() > 0 {
        out.append("   Windows Desktop Runtime:\n");
        push_numbered(&mut out, desktop, "      ");
    }
    proof {
        assert(out@ =~= runtime_groups_report(
            str_views(core@),
            str_views(aspnet@),
            str_views(desktop@),
        ));
    }
    out
}

/// The GPU summary: a fixed not-found line when nothing was detected, else a
/// count line (only when more than one GPU is present) followed by the
/// numbered GPU names.
pub open spec fn gpu_report(gpus: Seq<Seq<char>>) -> Seq<char> {
    if gpus.len() == 0 {
        "Unable to detect GPU information\n"@
    } else {
        (if gpus.len() > 1 {
            "Total "@ + dec_spec(gpus.len()) + " GPUs\n"@
        } else {
            Seq::<char>::empty()
        }) + numbered_upto(gpus, ""@, gpus.len() as int)
    }
}

/// Renders the GPU summary for a list of detected GPU names.
pub fn render_gpu_report(gpus: &Vec<String>) -> (out: String)
    ensures
        out@ == gpu_report(str_views(gpus@)),
{
    if gpus.len() == 0 {
        String::from_str("Unable to detect GPU information\n")
    } else {
        let mut out = String::new();
        if gpus.len() > 1 {
            out.append("Total ");
            push_dec(&mut out, gpus.len());
            out.append(" GPUs\n");
        }
        push_numbered(&mut out, gpus, "");
        proof {
            assert(out@ =~= gpu_report(str_views(gpus@)));
        }
        out
    }
}

/// An empty record list renders as the fixed remediation banner, and as
/// nothing else.
pub proof fn lemma_empty_renders_banner(records: Seq<RecordView>)
    requires
        records.len() == 0,
    ensures
        vc_report(records) == vc_empty_banner(),
{
}

/// The status line for the command-line .NET probe: the reported default
/// version, or a fixed not-found line.
pub fn render_cli_status(version: &Option<String>) -> (s: String)
    ensures
        s@ == match version {
            Option::Some(v) => "dotnet CLI detected (default version: "@ + v@ + ")\n"@,
            Option::None => "dotnet CLI not found or not installed\n"@,
        },
{
    match version {
        Option::Some(v) => {
            let mut s = String::from_str("dotnet CLI detected (default version: ");
            s.append(v.as_str());
            s.append(")\n");
            proof {
                assert(s@ =~= "dotnet CLI detected (default version: "@ + v@ + ")\n"@);
            }
            s
        },
        Option::None => String::from_str("dotnet CLI not found or not installed\n"),
    }
}

/// The labeled SDK base-path lines, one per extracted path.
pub open spec fn base_path_lines(paths: Seq<Seq<char>>, i: int) -> Seq<char>
    decreases i,
{
    if i <= 0 {
        Seq::<char>::empty()
    } else {
        base_path_lines(paths, i - 1) + "SDK base path: "@ + paths[i - 1] + "\n"@
    }
}

/// Renders one labeled line per SDK base path.
pub fn render_base_paths(paths: &Vec<String>) -> (out: String)
    ensures
        out@ == base_path_lines(str_views(paths@), paths@.len() as int),
{
    let ghost vs = str_views(paths@);
    let mut out = String::new();
    let mut i: usize = 0;
    proof {
        assert(out@ =~= base_path_lines(vs, 0));
    }
    while i < paths.len()
        invariant
            0 <= i <= paths@.len(),
            vs == str_views(paths@),
            vs.len() == paths@.len(),
            out@ == base_path_lines(vs, i as int),
        decreases paths@.len() - i,
    {
        out.append("SDK base path: ");
        out.append(paths[i].as_str());
        out.append("\n");
        proof {
            assert(out@ =~= base_path_lines(vs, i + 1));
        }
        i += 1;
    }
    out
}

/// The banner closing the .NET check when neither the command-line probe nor
/// the registry probe found anything: a fixed remediation suggestion, emitted
/// exactly in that case.
pub fn dotnet_missing_banner(cli_found: bool, registry_count: usize) -> (r: Option<String>)
    ensures
        r is Some <==> (!cli_found && registry_count == 0),
        match r {
            Option::Some(s) => s@
                == "No .NET installations detected\n\nSuggestion:\n  - Download the .NET SDK or Runtime from Microsoft\n  - https://dotnet.microsoft.com/download\n"@,
            Option::None => true,
        },
{
    if !cli_found && registry_count == 0 {
        Some(
            String::from_str(
                "No .NET installations detected\n\nSuggestion:\n  - Download the .NET SDK or Runtime from Microsoft\n  - https://dotnet.microsoft.com/download\n",
            ),
        )
    } else {
        None
    }
}

/// The SDK listing: a header with the count, then the numbered SDK lines.
pub open spec fn sdk_report(sdks: Seq<Seq<char>>) -> Seq<char> {
    if sdks.len() == 0 {
        Seq::<char>::empty()
    } else {
        "Installed .NET SDK(s) ("@ + dec_spec(sdks.len()) + "):\n"@ + numbered_upto(
            sdks,
            "   "@,
            sdks.len() as int,
        )
    }
}

/// Renders the SDK listing; an empty list renders as nothing.
pub fn render_sdk_report(sdks: &Vec<String>) -> (out: String)
    ensures
        out@ == sdk_report(str_views(sdks@)),
{
    let mut out = String::new();
    if sdks.len() > 0 {
        out.append("Installed .NET SDK(s) (");
        push_dec(&mut out, sdks.len());
        out.append("):\n");
        push_numbered(&mut out, sdks, "   ");
    }
    proof {
        assert(out@ =~= sdk_report(str_views(sdks@)));
    }
    out
}

} // verus!
