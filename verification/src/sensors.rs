//! Temperature-sensor conversion: rows from the platform
//! management-instrumentation namespaces become `TempInfo` readings in
//! millidegrees Celsius, keeping only plausible values.

use vstd::prelude::*;
use crate::model::TempInfo;
use crate::gpu::spec_temp_plausible;

verus! {

/// The readings a hardware-monitor sensor namespace yields: rows already
/// in millidegrees, kept when plausible.
pub open spec fn spec_sensor_temps(rows: Seq<(String, i64)>) -> Seq<TempInfo>
    decreases rows.len(),
{
    if rows.len() == 0 {
        Seq::<TempInfo>::empty()
    } else {
        let rest = spec_sensor_temps(rows.drop_first());
        if spec_temp_plausible(rows[0].1 as int) {
            seq![TempInfo { label: rows[0].0, temp_milli_c: rows[0].1 }] + rest
        } else {
            rest
        }
    }
}

/// Keep the plausible hardware-monitor readings (label, millidegrees).
pub fn temps_from_sensor_rows(rows: Vec<(String, i64)>) -> (r: Vec<TempInfo>)
    ensures
        r@ == spec_sensor_temps(rows@),
{
    let ghost orig = rows@;
    let mut out: Vec<TempInfo> = Vec::new();
    let mut rest = rows;
    while rest.len() != 0
        invariant
            out@ + spec_sensor_temps(rest@) =~= spec_sensor_temps(orig),
        decreases rest@.len(),
    {
        let ghost r_pre = rest@;
        let (label, v) = rest.remove(0);
        proof {
            assert(seq![(label, v)] + rest@ =~= r_pre);
            assert(r_pre.drop_first() =~= rest@);
        }
        if 0 < v && v < 150000 {
            out.push(TempInfo { label, temp_milli_c: v });
        }
    }
    assert(spec_sensor_temps(rest@) =~= Seq::<TempInfo>::empty());
    assert(out@ =~= spec_sensor_temps(orig));
    out
}

/// A thermal-zone counter reading (Kelvin) as millidegrees Celsius.
pub open spec fn spec_zone_celsius_milli(kelvin: u64) -> int {
    kelvin as int * 1000 - 273150
}

/// The readings the thermal-zone counters yield (labels with Kelvin
/// values), converted and kept when plausible.
pub open spec fn spec_zone_temps(rows: Seq<(String, u64)>) -> Seq<TempInfo>
    decreases rows.len(),
{
    if rows.len() == 0 {
        Seq::<TempInfo>::empty()
    } else {
        let rest = spec_zone_temps(rows.drop_first());
        let c = spec_zone_celsius_milli(rows[0].1);
        if spec_temp_plausible(c) {
            seq![TempInfo { label: rows[0].0, temp_milli_c: c as i64 }] + rest
        } else {
            rest
        }
    }
}

/// Convert thermal-zone rows (label, Kelvin) to plausible Celsius
/// readings; zero Kelvin and out-of-range values are dropped.
pub fn temps_from_thermal_zones(rows: Vec<(String, u64)>) -> (r: Vec<TempInfo>)
    ensures
        r@ == spec_zone_temps(rows@),
{
    let ghost orig = rows@;
    let mut out: Vec<TempInfo> = Vec::new();
    let mut rest = rows;
    while rest.len() != 0
        invariant
            out@ + spec_zone_temps(rest@) =~= spec_zone_temps(orig),
        decreases rest@.len(),
    {
        let ghost r_pre = rest@;
        let (label, k) = rest.remove(0);
        proof {
            assert(seq![(label, k)] + rest@ =~= r_pre);
            assert(r_pre.drop_first() =~= rest@);
        }
        if k <= 423 {
            // 423 K is 149.85 degrees C; higher readings are implausible.
            let milli = k * 1000;
            if milli > 273150 {
                let c = milli - 273150;
                if c < 150000 {
                    out.push(TempInfo { label, temp_milli_c: c as i64 });
                } else {
                    proof {
                        assert(!spec_temp_plausible(spec_zone_celsius_milli(k)));
                    }
                }
            }
        } else {
            proof {
                assert(!spec_temp_plausible(spec_zone_celsius_milli(k)));
            }
        }
    }
    assert(spec_zone_temps(rest@) =~= Seq::<TempInfo>::empty());
    assert(out@ =~= spec_zone_temps(orig));
    out
}

/// An ACPI thermal reading (tenths of a Kelvin) as millidegrees Celsius.
pub open spec fn spec_acpi_celsius_milli(raw: u64) -> int {
    raw as int * 100 - 273200
}

/// The readings the ACPI thermal namespace yields (labels with
/// tenth-Kelvin values), converted and kept when plausible.
pub open spec fn spec_acpi_temps(rows: Seq<(String, u64)>) -> Seq<TempInfo>
    decreases rows.len(),
{
    if rows.len() == 0 {
        Seq::<TempInfo>::empty()
    } else {
        let rest = spec_acpi_temps(rows.drop_first());
        let c = spec_acpi_celsius_milli(rows[0].1);
        if spec_temp_plausible(c) {
            seq![TempInfo { label: rows[0].0, temp_milli_c: c as i64 }] + rest
        } else {
            rest
        }
    }
}

/// Convert ACPI thermal rows (label, tenths of a Kelvin) to plausible
/// Celsius readings.
pub fn temps_from_acpi(rows: Vec<(String, u64)>) -> (r: Vec<TempInfo>)
    ensures
        r@ == spec_acpi_temps(rows@),
{
    let ghost orig = rows@;
    let mut out: Vec<TempInfo> = Vec::new();
    let mut rest = rows;
    while rest.len() != 0
        invariant
            out@ + spec_acpi_temps(rest@) =~= spec_acpi_temps(orig),
        decreases rest@.len(),
    {
        let ghost r_pre = rest@;
        let (label, raw) = rest.remove(0);
        proof {
            assert(seq![(label, raw)] + rest@ =~= r_pre);
            assert(r_pre.drop_first() =~= rest@);
        }
        if raw <= 4231 {
            let centi = raw * 100;
            if centi > 273200 {
                let c = centi - 273200;
                if c < 150000 {
                    out.push(TempInfo { label, temp_milli_c: c as i64 });
                } else {
                    proof {
                        assert(!spec_temp_plausible(spec_acpi_celsius_milli(raw)));
                    }
                }
            }
        } else {
            proof {
                assert(!spec_temp_plausible(spec_acpi_celsius_milli(raw)));
            }
        }
    }
    assert(spec_acpi_temps(rest@) =~= Seq::<TempInfo>::empty());
    assert(out@ =~= spec_acpi_temps(orig));
    out
}

} // verus!
