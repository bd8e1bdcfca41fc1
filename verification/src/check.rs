//! The check pipelines: each takes the plain values a probe produced —
//! registry rows, captured tool output — and runs selection, aggregation and
//! rendering, so that one call turns raw probe data into the final report
//! text.

use vstd::prelude::*;
use crate::aggregate::{aggregate, has_name, last_with_name, sorted_by_name, unique_names, views};
use crate::classify::{classify, classify_spec, is_dotnet, is_dotnet_spec, is_vcruntime,
    is_vcruntime_spec};
use crate::parse::{column_tool_gpus, group_runtime_lines, lines_spec, pci_gpus, profiler_gpus,
    split_lines};
use crate::record::{RawCandidate, RawView, RecordView, RuntimeRecord, record_from_candidate,
    unknown_version};
use crate::report::{dotnet_registry_report, gpu_report, render_dotnet_registry_report,
    render_gpu_report, render_runtime_groups, render_vc_report, runtime_groups_report, vc_report};

verus! {

/// The mathematical images of a sequence of raw candidates.
pub open spec fn raw_views(s: Seq<RawCandidate>) -> Seq<RawView> {
    s.map_values(|c: RawCandidate| c@)
}

/// The record a raw candidate becomes: the missing-version fallback applied
/// and the category assigned by the classifier.
pub open spec fn record_of_raw(c: RawView) -> RecordView {
    RecordView {
        display_name: c.display_name,
        version: match c.version {
            Option::Some(v) => v,
            Option::None => unknown_version(),
        },
        install_location: c.install_location,
        publisher: c.publisher,
        category: classify_spec(c.display_name),
    }
}

/// The records built from the raw candidates whose names pass `keep`, in
/// probe order.
pub open spec fn selected(cands: Seq<RawView>, keep: spec_fn(Seq<char>) -> bool) -> Seq<RecordView>
    decreases cands.len(),
{
    if cands.len() == 0 {
        Seq::<RecordView>::empty()
    } else {
        selected(cands.drop_last(), keep) + (if keep(cands.last().display_name) {
            seq![record_of_raw(cands.last())]
        } else {
            Seq::<RecordView>::empty()
        })
    }
}

/// Builds the records for the candidates that pass the Visual C++ test.
fn select_vc(cands: Vec<RawCandidate>) -> (out: Vec<RuntimeRecord>)
    ensures
        views(out@) == selected(raw_views(cands@), |n: Seq<char>| is_vcruntime_spec(n)),
{
    let ghost keep = (|n: Seq<char>| is_vcruntime_spec(n));
    let ghost rv = raw_views(cands@);
    let mut out: Vec<RuntimeRecord> = Vec::new();
    let mut i: usize = 0;
    proof {
        assert(rv.take(0) =~= Seq::<RawView>::empty());
        assert(views(out@) =~= Seq::<RecordView>::empty());
    }
    while i < cands.len()
        invariant
            0 <= i <= cands@.len(),
            rv == raw_views(cands@),
            rv.len() == cands@.len(),
            views(out@) == selected(rv.take(i as int), keep),
            keep == (|n: Seq<char>| is_vcruntime_spec(n)),
        decreases cands@.len() - i,
    {
        proof {
            assert(rv.take(i + 1).drop_last() =~= rv.take(i as int));
            assert(rv.take(i + 1).last() == rv[i as int]);
        }
        let c = cands[i].clone();
        if is_vcruntime(c.display_name.as_str()) {
            let ghost before = views(out@);
            let cat = classify(c.display_name.as_str());
            let rec = record_from_candidate(c, cat);
            let ghost recv = rec@;
            out.push(rec);
            proof {
                assert(recv =~= record_of_raw(rv[i as int]));
                assert(views(out@) =~= before + seq![record_of_raw(rv.take(i + 1).last())]);
            }
        } else {
            proof {
                assert(views(out@) + Seq::<RecordView>::empty() =~= views(out@));
            }
        }
        i += 1;
    }
    proof {
        assert(rv.take(i as int) =~= rv);
    }
    out
}

/// Builds the records for the candidates that pass the .NET test.
fn select_dotnet(cands: Vec<RawCandidate>) -> (out: Vec<RuntimeRecord>)
    ensures
        views(out@) == selected(raw_views(cands@), |n: Seq<char>| is_dotnet_spec(n)),
{
    let ghost keep = (|n: Seq<char>| is_dotnet_spec(n));
    let ghost rv = raw_views(cands@);
    let mut out: Vec<RuntimeRecord> = Vec::new();
    let mut i: usize = 0;
    proof {
        assert(rv.take(0) =~= Seq::<RawView>::empty());
        assert(views(out@) =~= Seq::<RecordView>::empty());
    }
    while i < cands.len()
        invariant
            0 <= i <= cands@.len(),
            rv == raw_views(cands@),
            rv.len() == cands@.len(),
            views(out@) == selected(rv.take(i as int), keep),
            keep == (|n: Seq<char>| is_dotnet_spec(n)),
        decreases cands@.len() - i,
    {
        proof {
            assert(rv.take(i + 1).drop_last() =~= rv.take(i as int));
            assert(rv.take(i + 1).last() == rv[i as int]);
        }
        let c = cands[i].clone();
        if is_dotnet(c.display_name.as_str()) {
            let ghost before = views(out@);
            let cat = classify(c.display_name.as_str());
            let rec = record_from_candidate(c, cat);
            let ghost recv = rec@;
            out.push(rec);
            proof {
                assert(recv =~= record_of_raw(rv[i as int]));
                assert(views(out@) =~= before + seq![record_of_raw(rv.take(i + 1).last())]);
            }
        } else {
            proof {
                assert(views(out@) + Seq::<RecordView>::empty() =~= views(out@));
            }
        }
        i += 1;
    }
    proof {
        assert(rv.take(i as int) =~= rv);
    }
    out
}

/// The Visual C++ check on registry rows: keeps the Visual-C++-like
/// candidates, deduplicates them by name (last writer wins), sorts them, and
/// renders the report. Returns the aggregated records beside the text.
pub fn check_vcruntime_report(cands: Vec<RawCandidate>) -> (r: (Vec<RuntimeRecord>, String))
    ensures
        sorted_by_name(views(r.0@)),
        unique_names(views(r.0@)),
        forall|name: Seq<char>|
            has_name(views(r.0@), name) <==> has_name(
                selected(raw_views(cands@), |n: Seq<char>| is_vcruntime_spec(n)),
                name,
            ),
        forall|i: int|
            0 <= i < r.0@.len() ==> views(r.0@)[i] == last_with_name(
                selected(raw_views(cands@), |n: Seq<char>| is_vcruntime_spec(n)),
                views(r.0@)[i].display_name,
            ),
        r.1@ == vc_report(views(r.0@)),
{
    let sel = select_vc(cands);
    let recs = aggregate(sel);
    let text = render_vc_report(&recs);
    (recs, text)
}

/// The full Visual C++ check: the filesystem-inferred candidates come first
/// and the registry rows after, so that on equal names the registry — the
/// more authoritative source — overwrites the filesystem inference in the
/// last-writer-wins merge.
pub fn check_vcruntime_full(fs_found: &Vec<crate::parse::Arch>, rows: Vec<RawCandidate>) -> (r: (
    Vec<RuntimeRecord>,
    String,
))
    ensures
        sorted_by_name(views(r.0@)),
        unique_names(views(r.0@)),
        forall|name: Seq<char>|
            has_name(views(r.0@), name) <==> has_name(
                crate::parse::vc_fs_records(fs_found@) + selected(
                    raw_views(rows@),
                    |n: Seq<char>| is_vcruntime_spec(n),
                ),
                name,
            ),
        forall|i: int|
            0 <= i < r.0@.len() ==> views(r.0@)[i] == last_with_name(
                crate::parse::vc_fs_records(fs_found@) + selected(
                    raw_views(rows@),
                    |n: Seq<char>| is_vcruntime_spec(n),
                ),
                views(r.0@)[i].display_name,
            ),
        r.1@ == vc_report(views(r.0@)),
{
    let mut cands = crate::parse::vc_fs_candidates(fs_found);
    let ghost fs_part = views(cands@);
    let mut sel = select_vc(rows);
    let ghost sel_part = views(sel@);
    cands.append(&mut sel);
    proof {
        assert(views(cands@) =~= fs_part + sel_part);
    }
    let recs = aggregate(cands);
    let text = render_vc_report(&recs);
    (recs, text)
}

/// The registry half of the .NET check: keeps the .NET-like candidates,
/// deduplicates them by name (last writer wins), sorts them, and renders the
/// registry report. Returns the aggregated records beside the text.
pub fn check_dotnet_registry_report(cands: Vec<RawCandidate>) -> (r: (Vec<RuntimeRecord>, String))
    ensures
        sorted_by_name(views(r.0@)),
        unique_names(views(r.0@)),
        forall|name: Seq<char>|
            has_name(views(r.0@), name) <==> has_name(
                selected(raw_views(cands@), |n: Seq<char>| is_dotnet_spec(n)),
                name,
            ),
        forall|i: int|
            0 <= i < r.0@.len() ==> views(r.0@)[i] == last_with_name(
                selected(raw_views(cands@), |n: Seq<char>| is_dotnet_spec(n)),
                views(r.0@)[i].display_name,
            ),
        r.1@ == dotnet_registry_report(views(r.0@)),
{
    let sel = select_dotnet(cands);
    let recs = aggregate(sel);
    let text = render_dotnet_registry_report(&recs);
    (recs, text)
}

/// The full runtime-list report for the captured output's lines: a header
/// with the total number of lines, then the grouped buckets; empty output
/// renders as nothing.
pub open spec fn runtime_list_report(lines: Seq<Seq<char>>) -> Seq<char> {
    if lines.len() == 0 {
        Seq::<char>::empty()
    } else {
        "Installed .NET Runtime(s) ("@ + crate::text::dec_spec(lines.len()) + "):\n"@
            + runtime_groups_report(
            crate::parse::prefix_group(lines, "Microsoft.NETCore.App"@),
            crate::parse::prefix_group(lines, "Microsoft.AspNetCore.App"@),
            crate::parse::prefix_group(lines, "Microsoft.WindowsDesktop.App"@),
        )
    }
}

/// The command-line half of the .NET check: splits the captured runtime-list
/// output into lines, emits a header with the total line count, and buckets
/// the lines by their fixed package-name prefixes under labeled headers.
pub fn check_dotnet_runtime_list(text: &str) -> (out: String)
    ensures
        out@ == runtime_list_report(lines_spec(text@)),
{
    let lines = split_lines(text);
    if lines.len() == 0 {
        let out = String::new();
        proof {
            assert(out@ =~= runtime_list_report(lines_spec(text@)));
        }
        return out;
    }
    let mut out = String::new();
    out.append("Installed .NET Runtime(s) (");
    crate::text::push_dec(&mut out, lines.len());
    out.append("):\n");
    let (core, aspnet, desktop) = group_runtime_lines(&lines);
    let groups = render_runtime_groups(&core, &aspnet, &desktop);
    out.append(groups.as_str());
    proof {
        assert(out@ =~= runtime_list_report(lines_spec(text@)));
    }
    out
}

/// The platform-specific way a GPU probe's output is laid out, selected once
/// at startup by a platform-detection step.
#[derive(Clone, Copy, PartialEq, Eq, Structural, Debug)]
pub enum GpuProbeKind {
    /// Fixed-column output with a title line.
    ColumnTool,
    /// One device per line, fields separated by ": ".
    PciListing,
    /// Labeled lines, the GPU on a "Chipset Model:" line.
    Profiler,
}

/// The GPU names a probe's captured output yields, by probe layout.
pub open spec fn gpu_names_spec(text: Seq<char>, kind: GpuProbeKind) -> Seq<Seq<char>> {
    match kind {
        GpuProbeKind::ColumnTool => column_tool_gpus(lines_spec(text)),
        GpuProbeKind::PciListing => pci_gpus(lines_spec(text)),
        GpuProbeKind::Profiler => profiler_gpus(lines_spec(text)),
    }
}

/// The GPU check on captured tool output: parses the output by the probe's
/// layout and renders the GPU summary.
pub fn check_gpu_report(text: &str, kind: GpuProbeKind) -> (out: String)
    ensures
        out@ == gpu_report(gpu_names_spec(text@, kind)),
{
    let lines = split_lines(text);
    let gpus = match kind {
        GpuProbeKind::ColumnTool => crate::parse::parse_column_tool_gpus(&lines),
        GpuProbeKind::PciListing => crate::parse::parse_pci_gpus(&lines),
        GpuProbeKind::Profiler => crate::parse::parse_profiler_gpus(&lines),
    };
    render_gpu_report(&gpus)
}

} // verus!
