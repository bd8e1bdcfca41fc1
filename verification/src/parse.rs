//! Line-oriented parsing of probe output: splitting captured text into lines,
//! grouping runtime-list lines into buckets by their fixed prefixes, and the
//! per-platform line classifiers for GPU enumeration output. Unrecognized
//! lines are silently ignored, never an error.

use vstd::prelude::*;
use crate::record::{RuntimeRecord, Category};
use crate::report::str_views;
use crate::text::{contains_seq, contains_str, find_spec, find_str, lemma_find_spec_none,
    lemma_find_spec_some, matches_at, starts_with_seq, starts_with_str, trim_spec, trim_str};

verus! {

/// The lines of a text: pieces between newline characters, the newline
/// consumed, with no empty trailing line.
pub open spec fn lines_spec(s: Seq<char>) -> Seq<Seq<char>>
    decreases s.len(),
{
    if s.len() == 0 {
        Seq::<Seq<char>>::empty()
    } else {
        match find_spec(s, "\n"@) {
            Option::Some(i) => {
                if 0 <= i && i < s.len() {
                    seq![s.subrange(0, i)] + lines_spec(s.subrange(i + 1, s.len() as int))
                } else {
                    seq![s]
                }
            },
            Option::None => seq![s],
        }
    }
}

/// Splits captured output into its lines.
pub fn split_lines(text: &str) -> (out: Vec<String>)
    ensures
        str_views(out@) == lines_spec(text@),
{
    proof {
        reveal_strlit("\n");
    }
    let len: usize = text.unicode_len();
    let mut out: Vec<String> = Vec::new();
    let mut start: usize = 0;
    let mut i: usize = 0;
    proof {
        assert(str_views(out@) =~= Seq::<Seq<char>>::empty());
        assert(text@.subrange(0, len as int) =~= text@);
    }
    while i < len
        invariant
            0 <= start <= i <= len,
            len == text@.len(),
            lines_spec(text@) =~= str_views(out@) + lines_spec(
                text@.subrange(start as int, len as int),
            ),
            forall|k: int| start <= k < i ==> text@[k] != '\n',
        decreases len - i,
    {
        if text.get_char(i) == '\n' {
            let piece: String = text.substring_char(start, i).to_owned();
            proof {
                reveal_strlit("\n");
                let suffix = text@.subrange(start as int, len as int);
                assert(suffix[i - start] == text@[i as int]);
                assert(matches_at(suffix, "\n"@, i - start)) by {
                    assert(suffix.subrange(i - start, i - start + 1)[0] == suffix[i - start]);
                    assert(suffix.subrange(i - start, i - start + 1) =~= "\n"@);
                }
                assert forall|k: int| 0 <= k < i - start implies !matches_at(suffix, "\n"@, k) by {
                    if matches_at(suffix, "\n"@, k) {
                        assert(suffix.subrange(k, k + 1)[0] == suffix[k]);
                        assert(suffix[k] == text@[start + k]);
                        assert(text@[start + k] == '\n');
                    }
                }
                lemma_find_spec_some(suffix, "\n"@, i - start);
                assert(suffix.subrange(0, i - start) =~= text@.subrange(start as int, i as int));
                assert(suffix.subrange(i - start + 1, suffix.len() as int) =~= text@.subrange(
                    i + 1,
                    len as int,
                ));
                assert(lines_spec(suffix) =~= seq![piece@] + lines_spec(
                    text@.subrange(i + 1, len as int),
                ));
                assert(str_views(out@.push(piece)) =~= str_views(out@).push(piece@));
                assert(str_views(out@).push(piece@) + lines_spec(text@.subrange(i + 1, len as int))
                    =~= str_views(out@) + lines_spec(suffix));
            }
            out.push(piece);
            start = i + 1;
        }
        i += 1;
    }
    if start < len {
        let piece: String = text.substring_char(start, len).to_owned();
        proof {
            reveal_strlit("\n");
            let suffix = text@.subrange(start as int, len as int);
            assert(!contains_seq(suffix, "\n"@)) by {
                if contains_seq(suffix, "\n"@) {
                    let k = choose|k: int| matches_at(suffix, "\n"@, k);
                    assert(suffix.subrange(k, k + 1)[0] == suffix[k]);
                    assert(text@[start + k] == '\n');
                }
            }
            lemma_find_spec_none(suffix, "\n"@);
            assert(lines_spec(suffix) =~= seq![piece@]);
            assert(str_views(out@.push(piece)) =~= str_views(out@).push(piece@));
            assert(str_views(out@).push(piece@) =~= str_views(out@) + seq![piece@]);
        }
        out.push(piece);
    } else {
        proof {
            assert(text@.subrange(start as int, len as int).len() == 0);
            assert(str_views(out@) + lines_spec(text@.subrange(start as int, len as int)) =~=
                str_views(out@));
        }
    }
    out
}

/// The trimmed lines that begin with `prefix`, in order of appearance.
pub open spec fn prefix_group(lines: Seq<Seq<char>>, prefix: Seq<char>) -> Seq<Seq<char>>
    decreases lines.len(),
{
    if lines.len() == 0 {
        Seq::<Seq<char>>::empty()
    } else {
        prefix_group(lines.drop_last(), prefix) + (if starts_with_seq(
            trim_spec(lines.last()),
            prefix,
        ) {
            seq![trim_spec(lines.last())]
        } else {
            Seq::<Seq<char>>::empty()
        })
    }
}

/// Buckets runtime-list lines by their fixed leading package name: the Core
/// runtime, the ASP.NET Core runtime, and the Windows Desktop runtime.
pub fn group_runtime_lines(lines: &Vec<String>) -> (r: (Vec<String>, Vec<String>, Vec<String>))
    ensures
        str_views(r.0@) == prefix_group(str_views(lines@), "Microsoft.NETCore.App"@),
        str_views(r.1@) == prefix_group(str_views(lines@), "Microsoft.AspNetCore.App"@),
        str_views(r.2@) == prefix_group(str_views(lines@), "Microsoft.WindowsDesktop.App"@),
{
    let ghost sv = str_views(lines@);
    let mut core: Vec<String> = Vec::new();
    let mut aspnet: Vec<String> = Vec::new();
    let mut desktop: Vec<String> = Vec::new();
    let mut i: usize = 0;
    proof {
        assert(sv.take(0) =~= Seq::<Seq<char>>::empty());
        assert(str_views(core@) =~= Seq::<Seq<char>>::empty());
        assert(str_views(aspnet@) =~= Seq::<Seq<char>>::empty());
        assert(str_views(desktop@) =~= Seq::<Seq<char>>::empty());
    }
    while i < lines.len()
        invariant
            0 <= i <= lines@.len(),
            sv == str_views(lines@),
            sv.len() == lines@.len(),
            str_views(core@) == prefix_group(sv.take(i as int), "Microsoft.NETCore.App"@),
            str_views(aspnet@) == prefix_group(sv.take(i as int), "Microsoft.AspNetCore.App"@),
            str_views(desktop@) == prefix_group(sv.take(i as int), "Microsoft.WindowsDesktop.App"@),
        decreases lines@.len() - i,
    {
        proof {
            assert(sv.take(i + 1).drop_last() =~= sv.take(i as int));
            assert(sv.take(i + 1).last() == sv[i as int]);
        }
        let t: String = trim_str(lines[i].as_str());
        let ghost tv = t@;
        if starts_with_str(t.as_str(), "Microsoft.NETCore.App") {
            let ghost before = str_views(core@);
            core.push(t.clone());
            proof {
                assert(str_views(core@) =~= before + seq![t@]);
            }
        } else {
            proof {
                assert(str_views(core@) + Seq::<Seq<char>>::empty() =~= str_views(core@));
            }
        }
        if starts_with_str(t.as_str(), "Microsoft.AspNetCore.App") {
            let ghost before = str_views(aspnet@);
            aspnet.push(t.clone());
            proof {
                assert(str_views(aspnet@) =~= before + seq![t@]);
            }
        } else {
            proof {
                assert(str_views(aspnet@) + Seq::<Seq<char>>::empty() =~= str_views(aspnet@));
            }
        }
        if starts_with_str(t.as_str(), "Microsoft.WindowsDesktop.App") {
            let ghost before = str_views(desktop@);
            desktop.push(t);
            proof {
                assert(str_views(desktop@) =~= before + seq![tv]);
            }
        } else {
            proof {
                assert(str_views(desktop@) + Seq::<Seq<char>>::empty() =~= str_views(desktop@));
            }
        }
        i += 1;
    }
    proof {
        assert(sv.take(i as int) =~= sv);
    }
    (core, aspnet, desktop)
}

/// The GPU names in fixed-column tool output: every line after the header
/// whose trimmed text is neither empty nor the column title.
pub open spec fn kept_gpu_lines(lines: Seq<Seq<char>>) -> Seq<Seq<char>>
    decreases lines.len(),
{
    if lines.len() == 0 {
        Seq::<Seq<char>>::empty()
    } else {
        kept_gpu_lines(lines.drop_last()) + (if trim_spec(lines.last()).len() > 0 && trim_spec(
            lines.last(),
        ) != "Name"@ {
            seq![trim_spec(lines.last())]
        } else {
            Seq::<Seq<char>>::empty()
        })
    }
}

/// The GPU names reported by the fixed-column enumeration tool: the header
/// line is skipped, and the remaining non-empty, non-title lines are kept.
pub open spec fn column_tool_gpus(lines: Seq<Seq<char>>) -> Seq<Seq<char>> {
    if lines.len() == 0 {
        Seq::<Seq<char>>::empty()
    } else {
        kept_gpu_lines(lines.skip(1))
    }
}

/// Extracts GPU names from fixed-column enumeration output.
pub fn parse_column_tool_gpus(lines: &Vec<String>) -> (out: Vec<String>)
    ensures
        str_views(out@) == column_tool_gpus(str_views(lines@)),
{
    let ghost sv = str_views(lines@);
    let mut out: Vec<String> = Vec::new();
    if lines.len() == 0 {
        proof {
            assert(str_views(out@) =~= Seq::<Seq<char>>::empty());
        }
        return out;
    }
    let ghost suffix = sv.skip(1);
    let mut i: usize = 1;
    proof {
        assert(str_views(out@) =~= Seq::<Seq<char>>::empty());
        assert(suffix.take(0) =~= Seq::<Seq<char>>::empty());
    }
    while i < lines.len()
        invariant
            1 <= i <= lines@.len(),
            sv == str_views(lines@),
            sv.len() == lines@.len(),
            suffix == sv.skip(1),
            str_views(out@) == kept_gpu_lines(suffix.take(i - 1)),
        decreases lines@.len() - i,
    {
        proof {
            assert(suffix.take(i as int).drop_last() =~= suffix.take(i - 1));
            assert(suffix.take(i as int).last() == sv[i as int]);
        }
        let t: String = trim_str(lines[i].as_str());
        let ghost tv = t@;
        let title: String = String::from_str("Name");
        if t.unicode_len() > 0 && !(t == title) {
            let ghost before = str_views(out@);
            out.push(t);
            proof {
                assert(str_views(out@) =~= before + seq![tv]);
            }
        } else {
            proof {
                assert(str_views(out@) + Seq::<Seq<char>>::empty() =~= str_views(out@));
            }
        }
        i += 1;
    }
    proof {
        assert(suffix.take(i - 1) =~= suffix);
    }
    out
}

/// The GPU name in one line of PCI-listing output: for a display-controller
/// line, the text between the first ": " and the following ": ", if any, or
/// the end of the line.
pub open spec fn pci_gpu_name(line: Seq<char>) -> Option<Seq<char>> {
    if contains_seq(line, "VGA compatible controller"@) || contains_seq(line, "3D controller"@) {
        match find_spec(line, ": "@) {
            Option::Some(i) => {
                let rest = line.subrange(i + 2, line.len() as int);
                match find_spec(rest, ": "@) {
                    Option::Some(j) => Option::Some(rest.subrange(0, j)),
                    Option::None => Option::Some(rest),
                }
            },
            Option::None => Option::None,
        }
    } else {
        Option::None
    }
}

/// The GPU names in PCI-listing output, one per recognized line, in order.
pub open spec fn pci_gpus(lines: Seq<Seq<char>>) -> Seq<Seq<char>>
    decreases lines.len(),
{
    if lines.len() == 0 {
        Seq::<Seq<char>>::empty()
    } else {
        pci_gpus(lines.drop_last()) + (match pci_gpu_name(lines.last()) {
            Option::Some(name) => seq![name],
            Option::None => Seq::<Seq<char>>::empty(),
        })
    }
}

/// Extracts the GPU name from one PCI-listing line, if it is a
/// display-controller line with a separator.
fn parse_pci_line(line: &str) -> (r: Option<String>)
    ensures
        match r {
            Some(s) => pci_gpu_name(line@) == Option::Some(s@),
            None => pci_gpu_name(line@) is None,
        },
{
    proof {
        reveal_strlit(": ");
    }
    if contains_str(line, "VGA compatible controller") || contains_str(line, "3D controller") {
        match find_str(line, ": ", false) {
            Some(i) => {
                proof {
                    lemma_find_spec_some(line@, ": "@, i as int);
                }
                let len: usize = line.unicode_len();
                let rest: &str = line.substring_char(i + 2, len);
                match find_str(rest, ": ", false) {
                    Some(j) => {
                        proof {
                            lemma_find_spec_some(rest@, ": "@, j as int);
                        }
                        Some(rest.substring_char(0, j).to_owned())
                    },
                    None => {
                        proof {
                            lemma_find_spec_none(rest@, ": "@);
                        }
                        Some(rest.to_owned())
                    },
                }
            },
            None => {
                proof {
                    lemma_find_spec_none(line@, ": "@);
                }
                None
            },
        }
    } else {
        None
    }
}

/// Extracts GPU names from PCI-listing output.
pub fn parse_pci_gpus(lines: &Vec<String>) -> (out: Vec<String>)
    ensures
        str_views(out@) == pci_gpus(str_views(lines@)),
{
    let ghost sv = str_views(lines@);
    let mut out: Vec<String> = Vec::new();
    let mut i: usize = 0;
    proof {
        assert(str_views(out@) =~= Seq::<Seq<char>>::empty());
        assert(sv.take(0) =~= Seq::<Seq<char>>::empty());
    }
    while i < lines.len()
        invariant
            0 <= i <= lines@.len(),
            sv == str_views(lines@),
            sv.len() == lines@.len(),
            str_views(out@) == pci_gpus(sv.take(i as int)),
        decreases lines@.len() - i,
    {
        proof {
            assert(sv.take(i + 1).drop_last() =~= sv.take(i as int));
            assert(sv.take(i + 1).last() == sv[i as int]);
        }
        match parse_pci_line(lines[i].as_str()) {
            Some(name) => {
                let ghost before = str_views(out@);
                let ghost nv = name@;
                out.push(name);
                proof {
                    assert(str_views(out@) =~= before + seq![nv]);
                }
            },
            None => {
                proof {
                    assert(str_views(out@) + Seq::<Seq<char>>::empty() =~= str_views(out@));
                }
            },
        }
        i += 1;
    }
    proof {
        assert(sv.take(i as int) =~= sv);
    }
    out
}

/// The GPU name in one line of system-profiler output: the text after the
/// "Chipset Model:" label, trimmed.
pub open spec fn profiler_gpu_name(line: Seq<char>) -> Option<Seq<char>> {
    let t = trim_spec(line);
    if starts_with_seq(t, "Chipset Model:"@) {
        Option::Some(trim_spec(t.subrange("Chipset Model:"@.len() as int, t.len() as int)))
    } else {
        Option::None
    }
}

/// The GPU names in system-profiler output, one per labeled line, in order.
pub open spec fn profiler_gpus(lines: Seq<Seq<char>>) -> Seq<Seq<char>>
    decreases lines.len(),
{
    if lines.len() == 0 {
        Seq::<Seq<char>>::empty()
    } else {
        profiler_gpus(lines.drop_last()) + (match profiler_gpu_name(lines.last()) {
            Option::Some(name) => seq![name],
            Option::None => Seq::<Seq<char>>::empty(),
        })
    }
}

/// Extracts GPU names from system-profiler output.
pub fn parse_profiler_gpus(lines: &Vec<String>) -> (out: Vec<String>)
    ensures
        str_views(out@) == profiler_gpus(str_views(lines@)),
{
    let ghost sv = str_views(lines@);
    let mut out: Vec<String> = Vec::new();
    let mut i: usize = 0;
    proof {
        assert(str_views(out@) =~= Seq::<Seq<char>>::empty());
        assert(sv.take(0) =~= Seq::<Seq<char>>::empty());
    }
    while i < lines.len()
        invariant
            0 <= i <= lines@.len(),
            sv == str_views(lines@),
            sv.len() == lines@.len(),
            str_views(out@) == profiler_gpus(sv.take(i as int)),
        decreases lines@.len() - i,
    {
        proof {
            assert(sv.take(i + 1).drop_last() =~= sv.take(i as int));
            assert(sv.take(i + 1).last() == sv[i as int]);
        }
        let t: String = trim_str(lines[i].as_str());
        let label: &str = "Chipset Model:";
        if starts_with_str(t.as_str(), label) {
            let pl: usize = label.unicode_len();
            let tl: usize = t.as_str().unicode_len();
            let name: String = trim_str(t.as_str().substring_char(pl, tl));
            let ghost before = str_views(out@);
            let ghost nv = name@;
            out.push(name);
            proof {
                assert(str_views(out@) =~= before + seq![nv]);
                assert(profiler_gpu_name(sv.take(i + 1).last()) == Option::Some(nv));
            }
        } else {
            proof {
                assert(str_views(out@) + Seq::<Seq<char>>::empty() =~= str_views(out@));
            }
        }
        i += 1;
    }
    proof {
        assert(sv.take(i as int) =~= sv);
    }
    out
}

/// The SDK base path in one line of environment-information output: for a
/// line whose trimmed text starts with the "Base Path:" label, or carries its
/// localized counterpart, the whole remainder after the label, trimmed.
pub open spec fn base_path_of(line: Seq<char>) -> Option<Seq<char>> {
    let t = trim_spec(line);
    if starts_with_seq(t, "Base Path:"@) {
        Option::Some(trim_spec(t.subrange("Base Path:"@.len() as int, t.len() as int)))
    } else {
        match find_spec(t, "\u{57fa}\u{8def}\u{5f84}:"@) {
            Option::Some(i) => Option::Some(
                trim_spec(t.subrange(i + "\u{57fa}\u{8def}\u{5f84}:"@.len(), t.len() as int)),
            ),
            Option::None => Option::None,
        }
    }
}

/// The SDK base paths in environment-information output, in order.
pub open spec fn base_paths(lines: Seq<Seq<char>>) -> Seq<Seq<char>>
    decreases lines.len(),
{
    if lines.len() == 0 {
        Seq::<Seq<char>>::empty()
    } else {
        base_paths(lines.drop_last()) + (match base_path_of(lines.last()) {
            Option::Some(p) => seq![p],
            Option::None => Seq::<Seq<char>>::empty(),
        })
    }
}

/// Extracts the SDK base path from one line, if it carries the label.
fn parse_base_path_line(line: &str) -> (r: Option<String>)
    ensures
        match r {
            Some(s) => base_path_of(line@) == Option::Some(s@),
            None => base_path_of(line@) is None,
        },
{
    let t: String = trim_str(line);
    let label: &str = "Base Path:";
    let zh_label: &str = "\u{57fa}\u{8def}\u{5f84}:";
    if starts_with_str(t.as_str(), label) {
        let pl: usize = label.unicode_len();
        let tl: usize = t.as_str().unicode_len();
        Some(trim_str(t.as_str().substring_char(pl, tl)))
    } else {
        match find_str(t.as_str(), zh_label, false) {
            Some(i) => {
                proof {
                    lemma_find_spec_some(t@, zh_label@, i as int);
                }
                let zl: usize = zh_label.unicode_len();
                let tl: usize = t.as_str().unicode_len();
                Some(trim_str(t.as_str().substring_char(i + zl, tl)))
            },
            None => {
                proof {
                    lemma_find_spec_none(t@, zh_label@);
                }
                None
            },
        }
    }
}

/// Extracts the SDK base paths from environment-information output.
pub fn parse_base_paths(lines: &Vec<String>) -> (out: Vec<String>)
    ensures
        str_views(out@) == base_paths(str_views(lines@)),
{
    let ghost sv = str_views(lines@);
    let mut out: Vec<String> = Vec::new();
    let mut i: usize = 0;
    proof {
        assert(str_views(out@) =~= Seq::<Seq<char>>::empty());
        assert(sv.take(0) =~= Seq::<Seq<char>>::empty());
    }
    while i < lines.len()
        invariant
            0 <= i <= lines@.len(),
            sv == str_views(lines@),
            sv.len() == lines@.len(),
            str_views(out@) == base_paths(sv.take(i as int)),
        decreases lines@.len() - i,
    {
        proof {
            assert(sv.take(i + 1).drop_last() =~= sv.take(i as int));
            assert(sv.take(i + 1).last() == sv[i as int]);
        }
        match parse_base_path_line(lines[i].as_str()) {
            Some(p) => {
                let ghost before = str_views(out@);
                let ghost pv = p@;
                out.push(p);
                proof {
                    assert(str_views(out@) =~= before + seq![pv]);
                }
            },
            None => {
                proof {
                    assert(str_views(out@) + Seq::<Seq<char>>::empty() =~= str_views(out@));
                }
            },
        }
        i += 1;
    }
    proof {
        assert(sv.take(i as int) =~= sv);
    }
    out
}

/// The architecture a filesystem probe hit is attributed to.
#[derive(Clone, Copy, PartialEq, Eq, Structural, Debug)]
pub enum Arch {
    X86,
    X64,
}

/// The synthesized display name for a filesystem-probe hit.
pub open spec fn vc_fs_name(arch: Arch) -> Seq<char> {
    match arch {
        Arch::X64 => "Visual C++ 2015-2022 Redistributable (x64)"@,
        Arch::X86 => "Visual C++ 2015-2022 Redistributable (x86)"@,
    }
}

/// The category a filesystem-probe hit is classified into; the probe's
/// catalog entry implies the category directly, bypassing the classifier.
pub open spec fn vc_fs_category(arch: Arch) -> Category {
    match arch {
        Arch::X64 => Category::VCRuntimeX64,
        Arch::X86 => Category::VCRuntimeX86,
    }
}

/// The fixed filesystem-probe catalog: for each entry, the system directory
/// to look under, the runtime library file to test for, and the architecture
/// a hit implies.
pub fn vc_fs_checks() -> (v: Vec<(String, String, Arch)>)
    ensures
        v@.len() == 2,
        v@[0].0@ == "System32"@ && v@[0].1@ == "vcruntime140.dll"@ && v@[0].2 == Arch::X64,
        v@[1].0@ == "SysWOW64"@ && v@[1].1@ == "vcruntime140.dll"@ && v@[1].2 == Arch::X86,
{
    let mut v: Vec<(String, String, Arch)> = Vec::new();
    v.push((String::from_str("System32"), String::from_str("vcruntime140.dll"), Arch::X64));
    v.push((String::from_str("SysWOW64"), String::from_str("vcruntime140.dll"), Arch::X86));
    v
}

/// The record synthesized for one filesystem-probe hit: presence of the
/// runtime library implies the name, the "14.x" version and the category
/// directly.
pub fn vc_fs_candidate(arch: Arch) -> (r: RuntimeRecord)
    ensures
        r@.display_name == vc_fs_name(arch),
        r@.version == "14.x"@,
        r@.install_location is None,
        r@.publisher is None,
        r@.category == vc_fs_category(arch),
{
    match arch {
        Arch::X64 => RuntimeRecord {
            display_name: String::from_str("Visual C++ 2015-2022 Redistributable (x64)"),
            version: String::from_str("14.x"),
            install_location: None,
            publisher: None,
            category: Category::VCRuntimeX64,
        },
        Arch::X86 => RuntimeRecord {
            display_name: String::from_str("Visual C++ 2015-2022 Redistributable (x86)"),
            version: String::from_str("14.x"),
            install_location: None,
            publisher: None,
            category: Category::VCRuntimeX86,
        },
    }
}

/// The record images synthesized for a sequence of filesystem-probe hits.
pub open spec fn vc_fs_records(found: Seq<Arch>) -> Seq<crate::record::RecordView> {
    found.map_values(
        |a: Arch| crate::record::RecordView {
            display_name: vc_fs_name(a),
            version: "14.x"@,
            install_location: Option::None,
            publisher: Option::None,
            category: vc_fs_category(a),
        },
    )
}

/// The records synthesized for the filesystem-probe hits, in probe order.
pub fn vc_fs_candidates(found: &Vec<Arch>) -> (out: Vec<RuntimeRecord>)
    ensures
        crate::aggregate::views(out@) == vc_fs_records(found@),
{
    let mut out: Vec<RuntimeRecord> = Vec::new();
    let mut i: usize = 0;
    proof {
        assert(crate::aggregate::views(out@) =~= vc_fs_records(found@.take(0)));
    }
    while i < found.len()
        invariant
            0 <= i <= found@.len(),
            crate::aggregate::views(out@) == vc_fs_records(found@.take(i as int)),
        decreases found@.len() - i,
    {
        let ghost before = crate::aggregate::views(out@);
        let rec = vc_fs_candidate(found[i]);
        let ghost recv = rec@;
        out.push(rec);
        proof {
            assert(crate::aggregate::views(out@) =~= before.push(recv));
            assert(vc_fs_records(found@.take(i + 1)) =~= vc_fs_records(found@.take(i as int)).push(
                recv,
            ));
        }
        i += 1;
    }
    proof {
        assert(found@.take(i as int) =~= found@);
    }
    out
}

/// The CPU summary: the reported brand string, or a fixed not-found line.
pub fn cpu_summary(brand: Option<String>) -> (s: String)
    ensures
        s@ == match brand {
            Option::Some(b) => b@,
            Option::None => "Unable to detect CPU information"@,
        },
{
    match brand {
        Option::Some(b) => b,
        Option::None => String::from_str("Unable to detect CPU information"),
    }
}

} // verus!
