//! GPU snapshot model and the detection cascade: an ordered list of
//! backend results is reduced to one `GpuSnapshot`, and devices found by
//! the OS device tree can be enriched field-by-field from the vendor CLI
//! tool's output, matched by positional index.

use vstd::prelude::*;
use crate::textutil::{
    all_digits, chars_of, chars_to_string, contains_sub, dec_val, push_chars, push_str_chars,
    spec_parse_u64, spec_trim, split_on, parse_u64_range, vec_contains_sub, vec_split_on, vec_trim,
};

verus! {

/// Per-GPU data. Zero-valued fields mean "unknown", not "zero usage".
#[derive(Clone, Debug)]
pub struct GpuInfo {
    pub name: String,
    /// Millidegrees Celsius; 0 when unknown.
    pub temperature_milli_c: u64,
    /// Utilization percent, 0-100; 0 when unknown.
    pub utilization: u32,
    pub memory_used: u64,
    pub memory_total: u64,
    /// Milliwatts; 0 when unknown.
    pub power_milliwatts: u64,
}

/// A list of zero or more GPUs, as one backend (or the whole cascade)
/// reports them.
#[derive(Clone, Debug)]
pub struct GpuSnapshot {
    pub gpus: Vec<GpuInfo>,
}

impl Default for GpuSnapshot {
    /// An empty snapshot: no GPU detected.
    fn default() -> (r: Self)
        ensures
            r.gpus@.len() == 0,
    {
        GpuSnapshot { gpus: Vec::new() }
    }
}

/// Does this device look like one the vendor CLI tool covers?
pub open spec fn spec_is_vendor_cli_device(g: GpuInfo) -> bool {
    contains_sub(g.name@, "NVIDIA"@)
}

/// A device-tree entry with a vendor signature but missing fields can be
/// backfilled from the CLI tool.
pub open spec fn spec_needs_cli_enrichment(g: GpuInfo) -> bool {
    spec_is_vendor_cli_device(g) && (g.temperature_milli_c == 0 || g.memory_total == 0
        || g.power_milliwatts == 0)
}

/// One device enriched from the CLI device at the same position: the CLI
/// name replaces the device-tree name when non-empty, and only fields the
/// device tree left at zero are filled in.
pub open spec fn spec_enrich_one(g: GpuInfo, smi: GpuInfo) -> GpuInfo {
    GpuInfo {
        name: if smi.name@.len() > 0 {
            smi.name
        } else {
            g.name
        },
        temperature_milli_c: if g.temperature_milli_c == 0 && smi.temperature_milli_c != 0 {
            smi.temperature_milli_c
        } else {
            g.temperature_milli_c
        },
        utilization: if g.utilization == 0 && smi.utilization != 0 {
            smi.utilization
        } else {
            g.utilization
        },
        memory_used: if g.memory_total == 0 && smi.memory_total != 0 {
            smi.memory_used
        } else {
            g.memory_used
        },
        memory_total: if g.memory_total == 0 && smi.memory_total != 0 {
            smi.memory_total
        } else {
            g.memory_total
        },
        power_milliwatts: if g.power_milliwatts == 0 && smi.power_milliwatts != 0 {
            smi.power_milliwatts
        } else {
            g.power_milliwatts
        },
    }
}

/// The enriched list: vendor devices consume CLI entries in order (matched
/// by position, not identity); other devices pass through unchanged. `k`
/// counts the CLI entries consumed so far.
pub open spec fn spec_enrich_list(gpus: Seq<GpuInfo>, smi: Seq<GpuInfo>, k: int) -> Seq<GpuInfo>
    decreases gpus.len(),
{
    if gpus.len() == 0 {
        gpus
    } else {
        let g = gpus[0];
        if !spec_is_vendor_cli_device(g) {
            seq![g] + spec_enrich_list(gpus.drop_first(), smi, k)
        } else if k >= smi.len() {
            gpus
        } else {
            seq![spec_enrich_one(g, smi[k])] + spec_enrich_list(gpus.drop_first(), smi, k + 1)
        }
    }
}

fn is_vendor_cli_device(g: &GpuInfo) -> (r: bool)
    ensures
        r == spec_is_vendor_cli_device(*g),
{
    let name = chars_of(g.name.as_str());
    let needle = chars_of("NVIDIA");
    vec_contains_sub(&name, &needle)
}

/// Does any device in the list need CLI backfill?
pub fn needs_cli_enrichment(gpus: &Vec<GpuInfo>) -> (r: bool)
    ensures
        r == exists|i: int| 0 <= i < gpus@.len() && spec_needs_cli_enrichment(#[trigger] gpus@[i]),
{
    let n = gpus.len();
    let mut i: usize = 0;
    while i < n
        invariant
            i <= n,
            n == gpus@.len(),
            forall|k: int| 0 <= k < i ==> !spec_needs_cli_enrichment(#[trigger] gpus@[k]),
        decreases n - i,
    {
        let g = &gpus[i];
        if is_vendor_cli_device(g) && (g.temperature_milli_c == 0 || g.memory_total == 0
            || g.power_milliwatts == 0) {
            return true;
        }
        i = i + 1;
    }
    false
}

fn enrich_one(g: GpuInfo, smi: &GpuInfo) -> (r: GpuInfo)
    ensures
        r == spec_enrich_one(g, *smi),
{
    let name = if smi.name.as_str().unicode_len() > 0 {
        smi.name.clone()
    } else {
        g.name
    };
    GpuInfo {
        name,
        temperature_milli_c: if g.temperature_milli_c == 0 && smi.temperature_milli_c != 0 {
            smi.temperature_milli_c
        } else {
            g.temperature_milli_c
        },
        utilization: if g.utilization == 0 && smi.utilization != 0 {
            smi.utilization
        } else {
            g.utilization
        },
        memory_used: if g.memory_total == 0 && smi.memory_total != 0 {
            smi.memory_used
        } else {
            g.memory_used
        },
        memory_total: if g.memory_total == 0 && smi.memory_total != 0 {
            smi.memory_total
        } else {
            g.memory_total
        },
        power_milliwatts: if g.power_milliwatts == 0 && smi.power_milliwatts != 0 {
            smi.power_milliwatts
        } else {
            g.power_milliwatts
        },
    }
}

/// Enrich device-tree results from the CLI tool's ordered output, walked in
/// lockstep over the vendor's devices. Fields the device tree already
/// populated are never overwritten.
pub fn enrich_with_cli(gpus: Vec<GpuInfo>, smi: &Vec<GpuInfo>) -> (r: Vec<GpuInfo>)
    ensures
        r@ == spec_enrich_list(gpus@, smi@, 0),
{
    let ghost orig = gpus@;
    let mut out: Vec<GpuInfo> = Vec::new();
    let mut rest = gpus;
    let mut k: usize = 0;
    while rest.len() != 0
        invariant
            k <= smi@.len(),
            out@ + spec_enrich_list(rest@, smi@, k as int) =~= spec_enrich_list(orig, smi@, 0),
        decreases rest@.len(),
    {
        let g = rest.remove(0);
        let ghost pre = seq![g] + rest@;
        assert(pre.drop_first() =~= rest@);
        if !is_vendor_cli_device(&g) {
            out.push(g);
        } else if k >= smi.len() {
            // No CLI entry left for this device: the remainder passes
            // through unchanged.
            assert(spec_enrich_list(pre, smi@, k as int) =~= pre);
            let ghost out_before = out@;
            let ghost rest_before = rest@;
            out.push(g);
            while rest.len() > 0
                invariant
                    out@ + rest@ =~= out_before + seq![g] + rest_before,
                decreases rest@.len(),
            {
                let ghost r_pre = rest@;
                let x = rest.remove(0);
                assert(seq![x] + rest@ =~= r_pre);
                out.push(x);
            }
            assert(out@ =~= out_before + pre);
        } else {
            let e = enrich_one(g, &smi[k]);
            out.push(e);
            k = k + 1;
        }
    }
    assert(spec_enrich_list(rest@, smi@, k as int) =~= Seq::<GpuInfo>::empty());
    assert(out@ =~= spec_enrich_list(orig, smi@, 0));
    out
}

/// The full detection cascade: the first backend, in priority order, that
/// reports at least one device wins. Device-tree results are enriched from
/// the CLI output where one was gathered.
pub open spec fn spec_cascade(
    vendor_lib: Option<Seq<GpuInfo>>,
    device_tree: Seq<GpuInfo>,
    cli: Option<Seq<GpuInfo>>,
    mgmt: Option<Seq<GpuInfo>>,
) -> Seq<GpuInfo> {
    if vendor_lib is Some && vendor_lib->0.len() > 0 {
        vendor_lib->0
    } else if device_tree.len() > 0 {
        if cli is Some {
            spec_enrich_list(device_tree, cli->0, 0)
        } else {
            device_tree
        }
    } else if cli is Some && cli->0.len() > 0 {
        cli->0
    } else if mgmt is Some && mgmt->0.len() > 0 {
        mgmt->0
    } else {
        Seq::<GpuInfo>::empty()
    }
}

/// Reduce the ordered backend results to one snapshot: vendor management
/// library first, then the OS device tree (backfilled from the vendor CLI
/// where its output was gathered), then the CLI standalone, then the
/// platform management-instrumentation query.
pub fn collect_gpu_info(
    vendor_lib: Option<Vec<GpuInfo>>,
    device_tree: Vec<GpuInfo>,
    cli: Option<Vec<GpuInfo>>,
    mgmt: Option<Vec<GpuInfo>>,
) -> (r: GpuSnapshot)
    ensures
        r.gpus@ == spec_cascade(
            match vendor_lib {
                Some(v) => Some(v@),
                None => None,
            },
            device_tree@,
            match cli {
                Some(v) => Some(v@),
                None => None,
            },
            match mgmt {
                Some(v) => Some(v@),
                None => None,
            },
        ),
{
    if let Some(v) = vendor_lib {
        if v.len() > 0 {
            return GpuSnapshot { gpus: v };
        }
        if device_tree.len() > 0 {
            return GpuSnapshot {
                gpus: match cli {
                    Some(c) => enrich_with_cli(device_tree, &c),
                    None => device_tree,
                },
            };
        }
        if let Some(c) = cli {
            if c.len() > 0 {
                return GpuSnapshot { gpus: c };
            }
        }
        if let Some(m) = mgmt {
            if m.len() > 0 {
                return GpuSnapshot { gpus: m };
            }
        }
        return GpuSnapshot { gpus: Vec::new() };
    }
    if device_tree.len() > 0 {
        return GpuSnapshot {
            gpus: match cli {
                Some(c) => enrich_with_cli(device_tree, &c),
                None => device_tree,
            },
        };
    }
    if let Some(c) = cli {
        if c.len() > 0 {
            return GpuSnapshot { gpus: c };
        }
    }
    if let Some(m) = mgmt {
        if m.len() > 0 {
            return GpuSnapshot { gpus: m };
        }
    }
    GpuSnapshot { gpus: Vec::new() }
}

} // verus!

verus! {

/// The value of an optional parse, 0 when absent or malformed ("zero
/// means unknown").
pub open spec fn u0(o: Option<u64>) -> u64 {
    match o {
        Some(v) => v,
        None => 0u64,
    }
}

/// The milli-value of a fraction part: the first three digits, padded.
pub open spec fn frac_milli(f: Seq<char>) -> nat {
    if f.len() == 1 {
        dec_val(f) * 100
    } else if f.len() == 2 {
        dec_val(f) * 10
    } else {
        dec_val(f.take(3))
    }
}

/// Parse a plain decimal number ("45", "30.50") into thousandths; `None`
/// when the text is not of that shape or the value does not fit.
pub open spec fn spec_parse_milli(s: Seq<char>) -> Option<u64> {
    let parts = split_on(s, '.');
    if parts.len() == 1 {
        match spec_parse_u64(s) {
            Some(v) => if v as int * 1000 <= u64::MAX {
                Some((v * 1000) as u64)
            } else {
                None
            },
            None => None,
        }
    } else if parts.len() == 2 {
        let ip = parts[0];
        let fp = parts[1];
        if ip.len() > 0 && all_digits(ip) && fp.len() > 0 && all_digits(fp) && dec_val(ip) * 1000
            + frac_milli(fp) <= u64::MAX {
            Some((dec_val(ip) * 1000 + frac_milli(fp)) as u64)
        } else {
            None
        }
    } else {
        None
    }
}

/// Parse a decimal with up to three meaningful fraction digits into
/// thousandths.
pub fn parse_decimal_milli(v: &Vec<char>) -> (r: Option<u64>)
    ensures
        r == spec_parse_milli(v@),
{
    let parts = vec_split_on(v, '.');
    if parts.len() == 1 {
        let p0 = &parts[0];
        proof {
            assert(p0@ == split_on(v@, '.')[0]);
            assert(split_on(v@, '.').len() == 1);
            lemma_split_single(v@, '.');
            assert(p0@.subrange(0, p0@.len() as int) =~= p0@);
        }
        match parse_u64_range(p0, 0, p0.len()) {
            Some(ival) => {
                if ival <= u64::MAX / 1000 {
                    proof {
                        assert(ival as int * 1000 <= u64::MAX) by (nonlinear_arith)
                            requires
                                ival <= u64::MAX / 1000,
                        ;
                    }
                    Some(ival * 1000)
                } else {
                    proof {
                        assert(ival as int * 1000 > u64::MAX) by (nonlinear_arith)
                            requires
                                ival > u64::MAX / 1000,
                        ;
                    }
                    None
                }
            },
            None => None,
        }
    } else if parts.len() == 2 {
        let ip = &parts[0];
        let fp = &parts[1];
        proof {
            assert(ip@ == split_on(v@, '.')[0]);
            assert(fp@ == split_on(v@, '.')[1]);
            assert(ip@.subrange(0, ip@.len() as int) =~= ip@);
        }
        let ival = match parse_u64_range(ip, 0, ip.len()) {
            Some(x) => x,
            None => {
                return None;
            },
        };
        if fp.len() == 0 {
            return None;
        }
        if !crate::textutil::vec_all_digits(fp) {
            return None;
        }
        let flen = if fp.len() < 3 {
            fp.len()
        } else {
            3
        };
        proof {
            assert(fp@.subrange(0, flen as int) =~= fp@.take(flen as int));
        }
        let fval = match parse_u64_range(fp, 0, flen) {
            Some(x) => x,
            None => {
                proof {
                    lemma_digits_take_parses(fp@, flen as int);
                }
                return None;
            },
        };
        proof {
            assert(all_digits(fp@.take(flen as int)));
            lemma_dec_val_small(fp@.take(flen as int));
            if fp@.len() == 1 {
                assert(fp@.take(flen as int) =~= fp@);
                lemma_dec_val_tiny(fp@);
                assert(dec_val(fp@.drop_last()) == 0);
            } else if fp@.len() == 2 {
                assert(fp@.take(flen as int) =~= fp@);
                lemma_dec_val_tiny(fp@);
            } else {
                assert(fp@.take(flen as int) =~= fp@.take(3));
            }
        }
        // A 1- or 2-digit fraction scales up to thousandths.
        let fmilli: u64 = if fp.len() == 1 {
            fval * 100
        } else if fp.len() == 2 {
            fval * 10
        } else {
            fval
        };
        proof {
            assert(fmilli == frac_milli(fp@));
            assert(fmilli <= 9990);
        }
        if ival <= (u64::MAX - fmilli) / 1000 {
            proof {
                assert(ival as int * 1000 + fmilli <= u64::MAX) by (nonlinear_arith)
                    requires
                        ival <= (u64::MAX - fmilli) / 1000,
                        fmilli <= 999,
                ;
            }
            Some(ival * 1000 + fmilli)
        } else {
            proof {
                assert(ival as int * 1000 + fmilli > u64::MAX) by (nonlinear_arith)
                    requires
                        ival > (u64::MAX - fmilli) / 1000,
                        fmilli <= 999,
                ;
            }
            None
        }
    } else {
        None
    }
}

/// A one-field split means the separator does not occur, so the single
/// field is the whole sequence.
proof fn lemma_split_single(s: Seq<char>, sep: char)
    requires
        split_on(s, sep).len() == 1,
    ensures
        split_on(s, sep)[0] =~= s,
    decreases s.len(),
{
    if s.len() > 0 {
        crate::textutil::lemma_split_on_len(s.drop_first(), sep);
        if s[0] == sep {
        } else {
            lemma_split_single(s.drop_first(), sep);
            assert(split_on(s, sep)[0] =~= seq![s[0]] + s.drop_first());
            assert(seq![s[0]] + s.drop_first() =~= s);
        }
    }
}

/// A short prefix of an all-digit run always parses (used by
/// contradiction where the prefix parse failed).
proof fn lemma_digits_take_parses(s: Seq<char>, k: int)
    requires
        all_digits(s),
        0 < k <= s.len(),
        k <= 3,
    ensures
        spec_parse_u64(s.take(k)) is Some,
{
    assert(all_digits(s.take(k)));
    lemma_dec_val_small(s.take(k));
}

/// A digit run of length at most three is below one thousand.
proof fn lemma_dec_val_small(s: Seq<char>)
    requires
        all_digits(s),
        s.len() <= 3,
    ensures
        dec_val(s) <= 999,
    decreases s.len(),
{
    if s.len() > 0 {
        assert(all_digits(s.drop_last()));
        lemma_dec_val_small(s.drop_last());
        lemma_dec_val_tiny(s.drop_last());
    }
}

proof fn lemma_dec_val_tiny(s: Seq<char>)
    requires
        all_digits(s),
        s.len() <= 2,
    ensures
        dec_val(s) <= 99,
    decreases s.len(),
{
    if s.len() > 0 {
        assert(all_digits(s.drop_last()));
        lemma_dec_val_tiny(s.drop_last());
        if s.len() == 1 {
            assert(dec_val(s.drop_last()) == 0);
        } else {
            assert(s.drop_last().len() == 1);
            assert(dec_val(s.drop_last()) <= 9) by {
                assert(dec_val(s.drop_last().drop_last()) == 0);
            }
        }
    }
}

/// Mebibytes to bytes, saturating.
pub open spec fn spec_mib_to_bytes(v: u64) -> u64 {
    if v as int * 1048576 > u64::MAX {
        u64::MAX
    } else {
        (v as int * 1048576) as u64
    }
}

fn mib_to_bytes(v: u64) -> (r: u64)
    ensures
        r == spec_mib_to_bytes(v),
{
    if v <= u64::MAX / 1048576 {
        proof {
            assert(v as int * 1048576 <= u64::MAX) by (nonlinear_arith)
                requires
                    v <= u64::MAX / 1048576,
            ;
        }
        v * 1048576
    } else {
        proof {
            assert(v as int * 1048576 > u64::MAX) by (nonlinear_arith)
                requires
                    v > u64::MAX / 1048576,
            ;
        }
        u64::MAX
    }
}

/// A parsed utilization percent: a plain integer that fits u32, else 0.
pub open spec fn spec_parse_util(s: Seq<char>) -> u32 {
    match spec_parse_u64(s) {
        Some(v) => if v <= u32::MAX {
            v as u32
        } else {
            0u32
        },
        None => 0u32,
    }
}

fn parse_util(v: &Vec<char>) -> (r: u32)
    ensures
        r == spec_parse_util(v@),
{
    proof {
        assert(v@.subrange(0, v@.len() as int) =~= v@);
    }
    match parse_u64_range(v, 0, v.len()) {
        Some(x) => if x <= u32::MAX as u64 {
            x as u32
        } else {
            0
        },
        None => 0,
    }
}

/// One CSV line of the vendor CLI tool describes a GPU when it has at
/// least six comma-separated fields: name, temperature (degrees C),
/// utilization (%), memory used (MiB), memory total (MiB), power draw
/// (W). Unparseable numeric fields read as 0 ("unknown").
pub open spec fn gpu_line_ok(line: Seq<char>, g: GpuInfo) -> bool {
    let fields = split_on(line, ',');
    &&& fields.len() >= 6
    &&& g.name@ == spec_trim(fields[0])
    &&& g.temperature_milli_c == u0(spec_parse_milli(spec_trim(fields[1])))
    &&& g.utilization == spec_parse_util(spec_trim(fields[2]))
    &&& g.memory_used == spec_mib_to_bytes(u0(spec_parse_u64(spec_trim(fields[3]))))
    &&& g.memory_total == spec_mib_to_bytes(u0(spec_parse_u64(spec_trim(fields[4]))))
    &&& g.power_milliwatts == u0(spec_parse_milli(spec_trim(fields[5])))
}

fn parse_gpu_line(line: &Vec<char>) -> (r: Option<GpuInfo>)
    ensures
        match r {
            Some(g) => gpu_line_ok(line@, g),
            None => split_on(line@, ',').len() < 6,
        },
{
    let fields = vec_split_on(line, ',');
    if fields.len() < 6 {
        return None;
    }
    let name_c = vec_trim(&fields[0]);
    let temp_c = vec_trim(&fields[1]);
    let util_c = vec_trim(&fields[2]);
    let mu_c = vec_trim(&fields[3]);
    let mt_c = vec_trim(&fields[4]);
    let pw_c = vec_trim(&fields[5]);
    proof {
        assert(mu_c@.subrange(0, mu_c@.len() as int) =~= mu_c@);
        assert(mt_c@.subrange(0, mt_c@.len() as int) =~= mt_c@);
    }
    let temp = match parse_decimal_milli(&temp_c) {
        Some(v) => v,
        None => 0,
    };
    let util = parse_util(&util_c);
    let mu = match parse_u64_range(&mu_c, 0, mu_c.len()) {
        Some(v) => v,
        None => 0,
    };
    let mt = match parse_u64_range(&mt_c, 0, mt_c.len()) {
        Some(v) => v,
        None => 0,
    };
    let pw = match parse_decimal_milli(&pw_c) {
        Some(v) => v,
        None => 0,
    };
    Some(
        GpuInfo {
            name: chars_to_string(name_c),
            temperature_milli_c: temp,
            utilization: util,
            memory_used: mib_to_bytes(mu),
            memory_total: mib_to_bytes(mt),
            power_milliwatts: pw,
        },
    )
}

/// The GPUs a CLI dump describes: one per line with at least six fields,
/// in order; other lines are skipped.
pub open spec fn smi_lines_ok(lines: Seq<Seq<char>>, gpus: Seq<GpuInfo>) -> bool
    decreases lines.len(),
{
    if lines.len() == 0 {
        gpus.len() == 0
    } else if split_on(lines[0], ',').len() < 6 {
        smi_lines_ok(lines.drop_first(), gpus)
    } else {
        gpus.len() > 0 && gpu_line_ok(lines[0], gpus[0]) && smi_lines_ok(
            lines.drop_first(),
            gpus.drop_first(),
        )
    }
}

/// Parse the vendor CLI tool's CSV output (no header, no units) into the
/// described GPUs.
pub fn parse_nvidia_smi(text: &str) -> (r: Vec<GpuInfo>)
    ensures
        smi_lines_ok(split_on(text@, '\n'), r@),
{
    let chars = chars_of(text);
    let lines = vec_split_on(&chars, '\n');
    let ghost glines = split_on(text@, '\n');
    proof {
        assert(lines@.map_values(|x: Vec<char>| x@) =~= glines);
    }
    let n = lines.len();
    let mut out: Vec<GpuInfo> = Vec::new();
    let mut i: usize = 0;
    proof {
        assert(glines.skip(0) =~= glines);
        assert forall|g2: Seq<GpuInfo>|
            smi_lines_ok(#[trigger] glines.skip(0), g2) implies smi_lines_ok(
            glines,
            out@ + g2,
        ) by {
            assert(out@ + g2 =~= g2);
        }
    }
    while i < n
        invariant
            i <= n,
            n == lines@.len(),
            glines == lines@.map_values(|x: Vec<char>| x@),
            glines.len() == n,
            forall|g2: Seq<GpuInfo>|
                smi_lines_ok(#[trigger] glines.skip(i as int), g2) ==> smi_lines_ok(
                    glines,
                    out@ + g2,
                ),
        decreases n - i,
    {
        let ghost rest = glines.skip(i as int);
        proof {
            assert(rest.drop_first() =~= glines.skip(i + 1));
            assert(rest[0] == glines[i as int]);
            assert(lines@[i as int]@ == glines[i as int]);
        }
        match parse_gpu_line(&lines[i]) {
            Some(g) => {
                let ghost out_pre = out@;
                out.push(g);
                proof {
                    assert forall|g2: Seq<GpuInfo>|
                        smi_lines_ok(#[trigger] glines.skip(i + 1), g2) implies smi_lines_ok(
                        glines,
                        out@ + g2,
                    ) by {
                        assert((seq![g] + g2).drop_first() =~= g2);
                        assert((seq![g] + g2)[0] == g);
                        assert(smi_lines_ok(rest, seq![g] + g2));
                        assert(smi_lines_ok(glines, out_pre + (seq![g] + g2)));
                        assert(out_pre + (seq![g] + g2) =~= out@ + g2);
                    }
                }
            },
            None => {
                proof {
                    assert forall|g2: Seq<GpuInfo>|
                        smi_lines_ok(#[trigger] glines.skip(i + 1), g2) implies smi_lines_ok(
                        glines,
                        out@ + g2,
                    ) by {
                        assert(smi_lines_ok(rest, g2));
                    }
                }
            },
        }
        i = i + 1;
    }
    proof {
        assert(glines.skip(n as int) =~= Seq::<Seq<char>>::empty());
        assert(smi_lines_ok(glines.skip(n as int), Seq::<GpuInfo>::empty()));
        assert(out@ + Seq::<GpuInfo>::empty() =~= out@);
    }
    out
}

} // verus!

verus! {

/// The driver name from the first `DRIVER=` line of a uevent dump.
pub open spec fn spec_driver(lines: Seq<Seq<char>>) -> Option<Seq<char>>
    decreases lines.len(),
{
    if lines.len() == 0 {
        None
    } else if crate::textutil::starts_with(lines[0], "DRIVER="@) {
        Some(lines[0].skip("DRIVER="@.len() as int))
    } else {
        spec_driver(lines.drop_first())
    }
}

/// The vendor a PCI vendor id names.
pub open spec fn spec_vendor_name(v: Seq<char>) -> Seq<char> {
    if v =~= "0x10de"@ {
        "NVIDIA"@
    } else if v =~= "0x1002"@ {
        "AMD"@
    } else if v =~= "0x8086"@ {
        "Intel"@
    } else {
        "GPU"@
    }
}

/// The display name of a device-tree GPU: the device label when the
/// driver exposes one; else the vendor (from the PCI id) and driver taken
/// from the uevent dump; else the caller's fallback (the device node
/// name).
pub open spec fn spec_gpu_name(
    label: Option<Seq<char>>,
    uevent: Option<Seq<char>>,
    vendor: Option<Seq<char>>,
    fallback: Seq<char>,
) -> Seq<char> {
    match label {
        Some(l) => spec_trim(l),
        None => match uevent {
            Some(u) => match spec_driver(split_on(u, '\n')) {
                Some(d) => spec_vendor_name(
                    match vendor {
                        Some(v) => spec_trim(v),
                        None => Seq::<char>::empty(),
                    },
                ) + " ("@ + d + ")"@,
                None => fallback,
            },
            None => fallback,
        },
    }
}

/// Resolve a device-tree GPU's display name from the sysfs-style file
/// contents the application read (label, uevent, vendor id), with the
/// device node name as fallback.
pub fn read_gpu_name(
    label: Option<&str>,
    uevent: Option<&str>,
    vendor: Option<&str>,
    fallback: &str,
) -> (r: String)
    ensures
        r@ == spec_gpu_name(
            match label {
                Some(l) => Some(l@),
                None => None,
            },
            match uevent {
                Some(u) => Some(u@),
                None => None,
            },
            match vendor {
                Some(v) => Some(v@),
                None => None,
            },
            fallback@,
        ),
{
    if let Some(l) = label {
        let lc = chars_of(l);
        let t = vec_trim(&lc);
        return chars_to_string(t);
    }
    if let Some(u) = uevent {
        let uc = chars_of(u);
        let lines = vec_split_on(&uc, '\n');
        let ghost glines = split_on(u@, '\n');
        proof {
            assert(lines@.map_values(|x: Vec<char>| x@) =~= glines);
            assert(glines.skip(0) =~= glines);
        }
        let prefix = chars_of("DRIVER=");
        let n = lines.len();
        let mut i: usize = 0;
        let mut driver: Option<Vec<char>> = None;
        while i < n && driver.is_none()
            invariant
                i <= n,
                n == lines@.len(),
                glines == lines@.map_values(|x: Vec<char>| x@),
                prefix@ == "DRIVER="@,
                match driver {
                    None => spec_driver(glines) == spec_driver(glines.skip(i as int)),
                    Some(d) => spec_driver(glines) == Some(d@),
                },
            decreases n - i,
        {
            proof {
                assert(glines.skip(i as int).drop_first() =~= glines.skip(i + 1));
                assert(glines.skip(i as int)[0] == glines[i as int]);
                assert(lines@[i as int]@ == glines[i as int]);
            }
            if crate::textutil::vec_starts_with(&lines[i], &prefix) {
                let line = &lines[i];
                let mut d: Vec<char> = Vec::new();
                let mut j: usize = 7;
                proof {
                    assert("DRIVER="@.len() == 7) by {
                        reveal_strlit("DRIVER=");
                    }
                }
                while j < line.len()
                    invariant
                        7 <= j <= line@.len(),
                        d@ =~= line@.skip(7).take(j - 7),
                    decreases line@.len() - j,
                {
                    d.push(line[j]);
                    proof {
                        assert(line@.skip(7).take(j - 7 + 1) =~= line@.skip(7).take(j - 7).push(
                            line@[j as int],
                        ));
                    }
                    j = j + 1;
                }
                proof {
                    assert(d@ =~= line@.skip(7));
                    assert(spec_driver(glines.skip(i as int)) == Some(line@.skip(7)));
                }
                driver = Some(d);
            }
            i = i + 1;
        }
        proof {
            if driver is None {
                assert(i == n);
                assert(glines.skip(n as int) =~= Seq::<Seq<char>>::empty());
            }
        }
        match driver {
            Some(d) => {
                let vend: Vec<char> = match vendor {
                    Some(v) => {
                        let vc = chars_of(v);
                        vec_trim(&vc)
                    },
                    None => Vec::new(),
                };
                let v10de = chars_of("0x10de");
                let v1002 = chars_of("0x1002");
                let v8086 = chars_of("0x8086");
                let mut out: Vec<char> = Vec::new();
                if crate::textutil::vec_eq_chars(&vend, &v10de) {
                    push_str_chars(&mut out, "NVIDIA");
                } else if crate::textutil::vec_eq_chars(&vend, &v1002) {
                    push_str_chars(&mut out, "AMD");
                } else if crate::textutil::vec_eq_chars(&vend, &v8086) {
                    push_str_chars(&mut out, "Intel");
                } else {
                    push_str_chars(&mut out, "GPU");
                }
                push_str_chars(&mut out, " (");
                push_chars(&mut out, &d);
                push_str_chars(&mut out, ")");
                return chars_to_string(out);
            },
            None => {
                let fc = chars_of(fallback);
                return chars_to_string(fc);
            },
        }
    }
    let fc = chars_of(fallback);
    chars_to_string(fc)
}

/// The device-tree utilization reading: a plain percentage, 0 when the
/// file is absent or malformed.
pub fn read_gpu_utilization(contents: Option<&str>) -> (r: u32)
    ensures
        r == match contents {
            Some(c) => spec_parse_util(spec_trim(c@)),
            None => 0u32,
        },
{
    match contents {
        Some(c) => {
            let cc = chars_of(c);
            let t = vec_trim(&cc);
            proof {
                assert(t@.subrange(0, t@.len() as int) =~= t@);
            }
            match parse_u64_range(&t, 0, t.len()) {
                Some(x) => if x <= u32::MAX as u64 {
                    x as u32
                } else {
                    0
                },
                None => 0,
            }
        },
        None => 0,
    }
}

/// A trimmed plain integer reading, `None` when absent or malformed.
pub open spec fn spec_num_reading(contents: Option<Seq<char>>) -> Option<u64> {
    match contents {
        Some(c) => spec_parse_u64(spec_trim(c)),
        None => None,
    }
}

fn num_reading(contents: Option<&str>) -> (r: Option<u64>)
    ensures
        r == spec_num_reading(
            match contents {
                Some(c) => Some(c@),
                None => None,
            },
        ),
{
    match contents {
        Some(c) => {
            let cc = chars_of(c);
            let t = vec_trim(&cc);
            proof {
                assert(t@.subrange(0, t@.len() as int) =~= t@);
            }
            parse_u64_range(&t, 0, t.len())
        },
        None => None,
    }
}

/// The device-tree memory readings: used and total VRAM where the driver
/// exposes both; else a bare total; else zeros ("unknown").
pub fn read_gpu_memory(
    vram_used: Option<&str>,
    vram_total: Option<&str>,
    gt_total: Option<&str>,
) -> (r: (u64, u64))
    ensures
        ({
            let used = spec_num_reading(
                match vram_used {
                    Some(c) => Some(c@),
                    None => None,
                },
            );
            let total = spec_num_reading(
                match vram_total {
                    Some(c) => Some(c@),
                    None => None,
                },
            );
            let gt = spec_num_reading(
                match gt_total {
                    Some(c) => Some(c@),
                    None => None,
                },
            );
            if used is Some && total is Some {
                r == (used->0, total->0)
            } else if gt is Some {
                r == (0u64, gt->0)
            } else {
                r == (0u64, 0u64)
            }
        }),
{
    let used = num_reading(vram_used);
    let total = num_reading(vram_total);
    if let (Some(u), Some(t)) = (used, total) {
        return (u, t);
    }
    if let Some(g) = num_reading(gt_total) {
        return (0, g);
    }
    (0, 0)
}

/// The hwmon temperature reading: millidegrees Celsius, 0 when absent or
/// malformed (negative readings also fold to 0, "unknown").
pub fn read_hwmon_temp(temp_input: Option<&str>) -> (r: u64)
    ensures
        r == u0(
            spec_num_reading(
                match temp_input {
                    Some(c) => Some(c@),
                    None => None,
                },
            ),
        ),
{
    match num_reading(temp_input) {
        Some(v) => v,
        None => 0,
    }
}

/// The hwmon power reading: microwatts from `power1_average`, falling
/// back to `power1_input`, converted to milliwatts; 0 when unknown.
pub fn read_gpu_power(average: Option<&str>, input: Option<&str>) -> (r: u64)
    ensures
        ({
            let avg = spec_num_reading(
                match average {
                    Some(c) => Some(c@),
                    None => None,
                },
            );
            let inp = spec_num_reading(
                match input {
                    Some(c) => Some(c@),
                    None => None,
                },
            );
            match avg {
                Some(v) => r == v / 1000,
                None => match inp {
                    Some(v) => r == v / 1000,
                    None => r == 0,
                },
            }
        }),
{
    if let Some(v) = num_reading(average) {
        return v / 1000;
    }
    if let Some(v) = num_reading(input) {
        return v / 1000;
    }
    0
}

} // verus!

verus! {

/// The GPUs the platform video-controller enumeration yields: one entry
/// per controller with a non-empty name, carrying only the name and the
/// adapter RAM (other fields unknown until the counter queries fill
/// them).
pub open spec fn spec_controller_gpus(rows: Seq<(String, u64)>) -> Seq<GpuInfo>
    decreases rows.len(),
{
    if rows.len() == 0 {
        Seq::<GpuInfo>::empty()
    } else {
        let rest = spec_controller_gpus(rows.drop_first());
        if rows[0].0@.len() == 0 {
            rest
        } else {
            seq![
                GpuInfo {
                    name: rows[0].0,
                    temperature_milli_c: 0,
                    utilization: 0,
                    memory_used: 0,
                    memory_total: rows[0].1,
                    power_milliwatts: 0,
                },
            ] + rest
        }
    }
}

/// Build GPU entries from (name, adapter RAM) controller rows, skipping
/// nameless entries.
pub fn gpus_from_controllers(rows: Vec<(String, u64)>) -> (r: Vec<GpuInfo>)
    ensures
        r@ == spec_controller_gpus(rows@),
{
    let ghost orig = rows@;
    let mut out: Vec<GpuInfo> = Vec::new();
    let mut rest = rows;
    while rest.len() != 0
        invariant
            out@ + spec_controller_gpus(rest@) =~= spec_controller_gpus(orig),
        decreases rest@.len(),
    {
        let ghost r_pre = rest@;
        let (name, ram) = rest.remove(0);
        proof {
            assert(seq![(name, ram)] + rest@ =~= r_pre);
            assert(r_pre.drop_first() =~= rest@);
        }
        if name.as_str().unicode_len() > 0 {
            out.push(
                GpuInfo {
                    name,
                    temperature_milli_c: 0,
                    utilization: 0,
                    memory_used: 0,
                    memory_total: ram,
                    power_milliwatts: 0,
                },
            );
        }
    }
    assert(spec_controller_gpus(rest@) =~= Seq::<GpuInfo>::empty());
    assert(out@ =~= spec_controller_gpus(orig));
    out
}

/// The utilization percent from summed per-engine counters (in
/// thousandths of a percent), clamped to 100% and rounded.
pub open spec fn spec_util_percent(total_milli_pct: u64) -> u32 {
    let clamped: int = if total_milli_pct > 100000 {
        100000
    } else {
        total_milli_pct as int
    };
    ((clamped + 500) / 1000) as u32
}

/// Apply the summed engine-utilization counter to every enumerated GPU
/// (the counters are not attributable per adapter).
pub fn apply_wmi_utilization(gpus: &mut Vec<GpuInfo>, total_milli_pct: u64)
    ensures
        final(gpus)@.len() == old(gpus)@.len(),
        forall|i: int|
            0 <= i < final(gpus)@.len() ==> #[trigger] final(gpus)@[i] == (GpuInfo {
                utilization: spec_util_percent(total_milli_pct),
                ..old(gpus)@[i]
            }),
{
    let pct: u32 = if total_milli_pct > 100000 {
        100
    } else {
        ((total_milli_pct + 500) / 1000) as u32
    };
    let n = gpus.len();
    let mut i: usize = 0;
    while i < n
        invariant
            i <= n,
            n == gpus@.len(),
            gpus@.len() == old(gpus)@.len(),
            pct == spec_util_percent(total_milli_pct),
            forall|k: int|
                0 <= k < i ==> #[trigger] gpus@[k] == (GpuInfo {
                    utilization: pct,
                    ..old(gpus)@[k]
                }),
            forall|k: int| i <= k < n ==> #[trigger] gpus@[k] == old(gpus)@[k],
        decreases n - i,
    {
        let g = gpus[i].clone_fields();
        gpus.set(
            i,
            GpuInfo {
                name: g.name,
                temperature_milli_c: g.temperature_milli_c,
                utilization: pct,
                memory_used: g.memory_used,
                memory_total: g.memory_total,
                power_milliwatts: g.power_milliwatts,
            },
        );
        i = i + 1;
    }
}

impl GpuInfo {
    /// A field-exact copy.
    pub fn clone_fields(&self) -> (r: GpuInfo)
        ensures
            r == *self,
    {
        GpuInfo {
            name: self.name.clone(),
            temperature_milli_c: self.temperature_milli_c,
            utilization: self.utilization,
            memory_used: self.memory_used,
            memory_total: self.memory_total,
            power_milliwatts: self.power_milliwatts,
        }
    }
}

/// The memory-in-use figure the adapter-memory counters yield: the
/// dedicated usage when any, else the shared usage.
pub open spec fn spec_wmi_mem_used(dedicated: u64, shared: u64) -> u64 {
    if dedicated > 0 {
        dedicated
    } else {
        shared
    }
}

/// Apply the adapter-memory counters to every enumerated GPU, when they
/// reported anything.
pub fn apply_wmi_memory(gpus: &mut Vec<GpuInfo>, dedicated: u64, shared: u64)
    ensures
        final(gpus)@.len() == old(gpus)@.len(),
        forall|i: int|
            0 <= i < final(gpus)@.len() ==> #[trigger] final(gpus)@[i] == (GpuInfo {
                memory_used: if spec_wmi_mem_used(dedicated, shared) > 0 {
                    spec_wmi_mem_used(dedicated, shared)
                } else {
                    old(gpus)@[i].memory_used
                },
                ..old(gpus)@[i]
            }),
{
    let used = if dedicated > 0 {
        dedicated
    } else {
        shared
    };
    if used == 0 {
        return;
    }
    let n = gpus.len();
    let mut i: usize = 0;
    while i < n
        invariant
            i <= n,
            n == gpus@.len(),
            gpus@.len() == old(gpus)@.len(),
            used == spec_wmi_mem_used(dedicated, shared),
            used > 0,
            forall|k: int|
                0 <= k < i ==> #[trigger] gpus@[k] == (GpuInfo {
                    memory_used: used,
                    ..old(gpus)@[k]
                }),
            forall|k: int| i <= k < n ==> #[trigger] gpus@[k] == old(gpus)@[k],
        decreases n - i,
    {
        let g = gpus[i].clone_fields();
        gpus.set(
            i,
            GpuInfo {
                name: g.name,
                temperature_milli_c: g.temperature_milli_c,
                utilization: g.utilization,
                memory_used: used,
                memory_total: g.memory_total,
                power_milliwatts: g.power_milliwatts,
            },
        );
        i = i + 1;
    }
}

/// Backfill missing GPU temperatures from a sensor list, matched by
/// position; populated temperatures are never overwritten.
pub fn apply_gpu_temps(gpus: &mut Vec<GpuInfo>, temps: &Vec<u64>)
    ensures
        final(gpus)@.len() == old(gpus)@.len(),
        forall|i: int|
            0 <= i < final(gpus)@.len() ==> #[trigger] final(gpus)@[i] == (GpuInfo {
                temperature_milli_c: if old(gpus)@[i].temperature_milli_c == 0 && i
                    < temps@.len() {
                    temps@[i]
                } else {
                    old(gpus)@[i].temperature_milli_c
                },
                ..old(gpus)@[i]
            }),
{
    let n = gpus.len();
    let mut i: usize = 0;
    while i < n
        invariant
            i <= n,
            n == gpus@.len(),
            gpus@.len() == old(gpus)@.len(),
            forall|k: int|
                0 <= k < i ==> #[trigger] gpus@[k] == (GpuInfo {
                    temperature_milli_c: if old(gpus)@[k].temperature_milli_c == 0 && k
                        < temps@.len() {
                        temps@[k]
                    } else {
                        old(gpus)@[k].temperature_milli_c
                    },
                    ..old(gpus)@[k]
                }),
            forall|k: int| i <= k < n ==> #[trigger] gpus@[k] == old(gpus)@[k],
        decreases n - i,
    {
        if i < temps.len() {
            let g = gpus[i].clone_fields();
            let t = if g.temperature_milli_c == 0 {
                temps[i]
            } else {
                g.temperature_milli_c
            };
            gpus.set(
                i,
                GpuInfo {
                    name: g.name,
                    temperature_milli_c: t,
                    utilization: g.utilization,
                    memory_used: g.memory_used,
                    memory_total: g.memory_total,
                    power_milliwatts: g.power_milliwatts,
                },
            );
        }
        i = i + 1;
    }
}

/// A plausible Celsius reading, in millidegrees: above freezing-ish and
/// below 150 degrees.
pub open spec fn spec_temp_plausible(milli_c: int) -> bool {
    0 < milli_c && milli_c < 150000
}

/// The hottest plausible thermal-zone reading (zones report Kelvin), in
/// millidegrees Celsius; 0 when none is plausible.
pub open spec fn spec_best_zone_milli(zones: Seq<u64>) -> u64
    decreases zones.len(),
{
    if zones.len() == 0 {
        0u64
    } else {
        let rest = spec_best_zone_milli(zones.drop_last());
        let c: int = zones.last() as int * 1000 - 273150;
        if spec_temp_plausible(c) && c > rest {
            c as u64
        } else {
            rest
        }
    }
}

/// The hottest plausible thermal zone, as a proxy temperature for GPUs on
/// the CPU die.
pub fn best_thermal_zone_milli(zones: &Vec<u64>) -> (r: u64)
    ensures
        r == spec_best_zone_milli(zones@),
{
    let n = zones.len();
    let mut best: u64 = 0;
    let mut i: usize = 0;
    while i < n
        invariant
            i <= n,
            n == zones@.len(),
            best == spec_best_zone_milli(zones@.take(i as int)),
        decreases n - i,
    {
        proof {
            assert(zones@.take(i + 1).drop_last() =~= zones@.take(i as int));
            assert(zones@.take(i + 1).last() == zones@[i as int]);
        }
        let k = zones[i];
        if k <= u64::MAX / 1000 {
            proof {
                assert(k as int * 1000 <= u64::MAX) by (nonlinear_arith)
                    requires
                        k <= u64::MAX / 1000,
                ;
            }
            let milli = k * 1000;
            if milli > 273150 {
                let c = milli - 273150;
                if c < 150000 && c > best {
                    best = c;
                }
            }
        } else {
            proof {
                assert(k as int * 1000 > u64::MAX) by (nonlinear_arith)
                    requires
                        k > u64::MAX / 1000,
                ;
                assert(!spec_temp_plausible(k as int * 1000 - 273150));
            }
        }
        i = i + 1;
    }
    assert(zones@.take(n as int) =~= zones@);
    best
}

/// Which way a cached expensive backend is used this tick.
#[derive(Clone, Copy, Debug, PartialEq, Eq, Structural)]
pub enum CacheDecision {
    /// The cached value is fresh: use it, query nothing.
    Fresh,
    /// The value is stale and no refresh is in flight: use the cached
    /// value now and start one background refresh.
    SpawnRefresh,
    /// The value is stale but a refresh is already in flight: use the
    /// cached value and do not start another (single-flight).
    AwaitRefresh,
}

/// A short-TTL cache around an expensive backend (subprocess or
/// management-instrumentation query), with a single-flight guard: callers
/// always take the last-known value immediately, and at most one refresh
/// is in flight at a time.
pub struct GpuTtlCache {
    value: Vec<GpuInfo>,
    last_update_ms: Option<u64>,
    ttl_ms: u64,
    refresh_running: bool,
}

impl GpuTtlCache {
    pub closed spec fn spec_value(&self) -> Seq<GpuInfo> {
        self.value@
    }

    pub closed spec fn spec_last_update(&self) -> Option<u64> {
        self.last_update_ms
    }

    pub closed spec fn spec_ttl_ms(&self) -> u64 {
        self.ttl_ms
    }

    pub closed spec fn spec_refresh_running(&self) -> bool {
        self.refresh_running
    }

    /// Is the cached value still valid at `now`?
    pub open spec fn spec_fresh(&self, now_ms: u64) -> bool {
        match self.spec_last_update() {
            Some(t) => t <= now_ms && now_ms - t < self.spec_ttl_ms(),
            None => false,
        }
    }

    /// An empty cache: no value yet, nothing in flight.
    pub fn new(ttl_ms: u64) -> (r: GpuTtlCache)
        ensures
            r.spec_value() == Seq::<GpuInfo>::empty(),
            r.spec_last_update() is None,
            r.spec_ttl_ms() == ttl_ms,
            !r.spec_refresh_running(),
    {
        GpuTtlCache { value: Vec::new(), last_update_ms: None, ttl_ms, refresh_running: false }
    }

    /// Decide this tick's use of the backend: a refresh is started
    /// exactly when the value is stale and none is in flight.
    pub fn decide(&self, now_ms: u64) -> (r: CacheDecision)
        ensures
            r == CacheDecision::Fresh <==> self.spec_fresh(now_ms),
            r == CacheDecision::SpawnRefresh <==> (!self.spec_fresh(now_ms)
                && !self.spec_refresh_running()),
            r == CacheDecision::AwaitRefresh <==> (!self.spec_fresh(now_ms)
                && self.spec_refresh_running()),
    {
        let fresh = match self.last_update_ms {
            Some(t) => now_ms >= t && now_ms - t < self.ttl_ms,
            None => false,
        };
        if fresh {
            CacheDecision::Fresh
        } else if self.refresh_running {
            CacheDecision::AwaitRefresh
        } else {
            CacheDecision::SpawnRefresh
        }
    }

    /// Note that a background refresh was started.
    pub fn begin_refresh(&mut self)
        ensures
            final(self).spec_refresh_running(),
            final(self).spec_value() == old(self).spec_value(),
            final(self).spec_last_update() == old(self).spec_last_update(),
            final(self).spec_ttl_ms() == old(self).spec_ttl_ms(),
    {
        self.refresh_running = true;
    }

    /// Publish a refresh's result and release the single-flight guard.
    pub fn complete_refresh(&mut self, now_ms: u64, value: Vec<GpuInfo>)
        ensures
            final(self).spec_value() == value@,
            final(self).spec_last_update() == Some(now_ms),
            !final(self).spec_refresh_running(),
            final(self).spec_ttl_ms() == old(self).spec_ttl_ms(),
    {
        self.value = value;
        self.last_update_ms = Some(now_ms);
        self.refresh_running = false;
    }

    /// The last-known value; possibly empty before the first refresh.
    pub fn cached(&self) -> (r: &Vec<GpuInfo>)
        ensures
            r@ == self.spec_value(),
    {
        &self.value
    }
}

/// Law: the refresh is single-flight. Once a refresh is noted as
/// started, no later decision starts another until the first publishes
/// its result.
pub proof fn lemma_single_flight(c: GpuTtlCache, now_ms: u64)
    ensures
        c.spec_refresh_running() ==> !(!c.spec_fresh(now_ms) && !c.spec_refresh_running()),
{
}

} // verus!
