//! Connection statistics and their display: byte counters with binary-unit
//! formatting (two fixed decimals, truncated), the one-line status string of
//! the console, and the size/speed summary printed when an upload finishes.
//!
//! The caller samples the counters and the clock; everything here is pure
//! formatting with an exact character-level specification.

use crate::config::RfsConfig;
use crate::text::{digit_str, spec_digit_char, spec_u64_dec, u64_dec_string};
use vstd::prelude::*;

verus! {

/// One kibibyte.
pub const KIB: u64 = 1024;

/// One mebibyte.
pub const MIB: u64 = 1024 * 1024;

/// One gibibyte.
pub const GIB: u64 = 1024 * 1024 * 1024;

/// A snapshot of the connection counters the console shows.
#[derive(Debug, Clone, Copy, PartialEq, Eq, Structural)]
pub struct Stats {
    pub tx_bytes: u64,
    pub rx_bytes: u64,
    pub last_msg_id: u8,
    pub pool_count: u64,
}

/// `v / unit`, spelled with two decimal places, truncated.
pub open spec fn spec_fixed2(v: int, unit: int) -> Seq<char>
    recommends
        unit > 0,
        0 <= v / unit <= u64::MAX,
{
    spec_u64_dec((v / unit) as u64) + seq!['.'] + seq![
        spec_digit_char((((v % unit) * 100 / unit) / 10) as u8),
        spec_digit_char((((v % unit) * 100 / unit) % 10) as u8),
    ]
}

/// A byte count with its binary unit: two truncated decimals of GiB, MiB or
/// KiB, or the plain count below one KiB.
pub open spec fn spec_format_bytes(bytes: u64) -> Seq<char> {
    if bytes >= GIB {
        spec_fixed2(bytes as int, GIB as int) + " GiB"@
    } else if bytes >= MIB {
        spec_fixed2(bytes as int, MIB as int) + " MiB"@
    } else if bytes >= KIB {
        spec_fixed2(bytes as int, KIB as int) + " KiB"@
    } else {
        spec_u64_dec(bytes) + " B"@
    }
}

/// Appends `v / unit` with two truncated decimals.
fn append_fixed2(out: &mut String, v: u64, unit: u64)
    requires
        0 < unit <= 0x4000_0000,
    ensures
        final(out)@ == old(out)@ + spec_fixed2(v as int, unit as int),
{
    let whole = v / unit;
    let rem = v % unit;
    proof {
        assert(rem < unit);
        assert(rem * 100 <= (unit - 1) * 100) by (nonlinear_arith)
            requires
                rem <= unit - 1,
        ;
        assert(unit <= u64::MAX);
        assert((unit - 1) * 100 <= 0xFFFF_FFFF_FFFF_FFFF) by (nonlinear_arith)
            requires
                unit <= 0x1_0000_0000,
        ;
    }
    let frac = rem * 100 / unit;
    proof {
        assert(frac < 100) by (nonlinear_arith)
            requires
                frac == (rem as int) * 100 / (unit as int),
                (rem as int) < (unit as int),
                (unit as int) > 0,
        ;
    }
    let digits = u64_dec_string(whole);
    out.append(digits.as_str());
    out.append(".");
    proof {
        reveal_strlit(".");
        assert("."@ =~= seq!['.']);
    }
    out.append(digit_str((frac / 10) as u8));
    out.append(digit_str((frac % 10) as u8));
}

/// Formats a byte count with its binary unit.
pub fn format_bytes(bytes: u64) -> (r: String)
    ensures
        r@ == spec_format_bytes(bytes),
{
    let mut out = String::new();
    if bytes >= GIB {
        append_fixed2(&mut out, bytes, GIB);
        out.append(" GiB");
    } else if bytes >= MIB {
        append_fixed2(&mut out, bytes, MIB);
        out.append(" MiB");
    } else if bytes >= KIB {
        append_fixed2(&mut out, bytes, KIB);
        out.append(" KiB");
    } else {
        let digits = u64_dec_string(bytes);
        out.append(digits.as_str());
        out.append(" B");
    }
    out
}

/// The console's one-line status: sent and received totals, the last seen
/// message id, and how many ids are in use.
pub open spec fn spec_format_stats(s: Stats) -> Seq<char> {
    "tx: "@ + spec_format_bytes(s.tx_bytes) + " | rx: "@ + spec_format_bytes(s.rx_bytes) + " | c:"@
        + spec_u64_dec(s.last_msg_id as u64) + " | p:"@ + spec_u64_dec(s.pool_count)
}

/// Formats the console's one-line status.
pub fn format_stats(stats: &Stats) -> (r: String)
    ensures
        r@ == spec_format_stats(*stats),
{
    let mut out = String::new();
    out.append("tx: ");
    let tx = format_bytes(stats.tx_bytes);
    out.append(tx.as_str());
    out.append(" | rx: ");
    let rx = format_bytes(stats.rx_bytes);
    out.append(rx.as_str());
    out.append(" | c:");
    let id = u64_dec_string(stats.last_msg_id as u64);
    out.append(id.as_str());
    out.append(" | p:");
    let pool = u64_dec_string(stats.pool_count);
    out.append(pool.as_str());
    out
}

/// One line of the volume-list display.
pub open spec fn spec_volume_line(idx: u64, v: RfsConfig) -> Seq<char> {
    "  ["@ + spec_u64_dec(idx) + "] dev_name: '"@ + v.dev_name@ + "', bind_path: '"@ + v.bind_path@
        + "'"@
}

/// The volume lines from position `i` on, each on a line of its own.
pub open spec fn spec_volume_lines_from(vols: Seq<RfsConfig>, i: int) -> Seq<char>
    recommends
        0 <= i <= vols.len(),
    decreases vols.len() - i when 0 <= i <= vols.len()
{
    if i >= vols.len() {
        Seq::empty()
    } else {
        seq!['\n'] + spec_volume_line(i as u64, vols[i]) + spec_volume_lines_from(vols, i + 1)
    }
}

/// The whole volume-list display: a heading, then one indexed line per
/// volume.
pub open spec fn spec_volume_list_text(vols: Seq<RfsConfig>) -> Seq<char> {
    "Volume List Received:"@ + spec_volume_lines_from(vols, 0)
}

/// Formats the volume list the server answered with, for display.
pub fn format_volume_list(volumes: &Vec<RfsConfig>) -> (r: String)
    ensures
        r@ == spec_volume_list_text(volumes@),
{
    let mut out = String::new();
    out.append("Volume List Received:");
    let ghost all = volumes@;
    let mut i: usize = 0;
    while i < volumes.len()
        invariant
            i <= all.len(),
            all == volumes@,
            out@ + spec_volume_lines_from(all, i as int) == spec_volume_list_text(all),
        decreases all.len() - i,
    {
        out.append("\n");
        out.append("  [");
        let idx = u64_dec_string(i as u64);
        out.append(idx.as_str());
        out.append("] dev_name: '");
        out.append(volumes[i].dev_name.as_str());
        out.append("', bind_path: '");
        out.append(volumes[i].bind_path.as_str());
        out.append("'");
        proof {
            reveal_strlit("\n");
            assert("\n"@ =~= seq!['\n']);
            assert(out@ + spec_volume_lines_from(all, i + 1) =~= spec_volume_list_text(all));
        }
        i = i + 1;
    }
    out
}

/// A byte count in upload-summary units: GB, MB or KB (binary multiples),
/// or the plain count.
pub open spec fn spec_format_size(bytes: u64) -> Seq<char> {
    if bytes >= GIB {
        spec_fixed2(bytes as int, GIB as int) + " GB"@
    } else if bytes >= MIB {
        spec_fixed2(bytes as int, MIB as int) + " MB"@
    } else if bytes >= KIB {
        spec_fixed2(bytes as int, KIB as int) + " KB"@
    } else {
        spec_u64_dec(bytes) + " Bytes"@
    }
}

/// The average transfer rate in bytes per second, over a duration in
/// milliseconds.
pub open spec fn spec_speed(bytes: u64, duration_millis: u64) -> int
    recommends
        duration_millis > 0,
{
    (bytes * 1000) / (duration_millis as int)
}

/// The transfer rate with its unit, or `N/A` for a zero duration.
pub open spec fn spec_format_speed(bytes: u64, duration_millis: u64) -> Seq<char> {
    if duration_millis == 0 {
        "N/A"@
    } else {
        let v = spec_speed(bytes, duration_millis);
        if v >= GIB {
            spec_fixed2(v, GIB as int) + " GB/s"@
        } else if v >= MIB {
            spec_fixed2(v, MIB as int) + " MB/s"@
        } else if v >= KIB {
            spec_fixed2(v, KIB as int) + " KB/s"@
        } else {
            spec_u64_dec(v as u64) + " B/s"@
        }
    }
}

/// Formats an upload's size and average speed, as the completion line shows
/// them.
pub fn format_speed_and_size(bytes: u64, duration_millis: u64) -> (r: (String, String))
    ensures
        r.0@ == spec_format_size(bytes),
        r.1@ == spec_format_speed(bytes, duration_millis),
{
    let mut size = String::new();
    if bytes >= GIB {
        append_fixed2(&mut size, bytes, GIB);
        size.append(" GB");
    } else if bytes >= MIB {
        append_fixed2(&mut size, bytes, MIB);
        size.append(" MB");
    } else if bytes >= KIB {
        append_fixed2(&mut size, bytes, KIB);
        size.append(" KB");
    } else {
        let digits = u64_dec_string(bytes);
        size.append(digits.as_str());
        size.append(" Bytes");
    }
    if duration_millis == 0 {
        return (size, "N/A".to_owned());
    }
    let wide: u128 = (bytes as u128) * 1000 / (duration_millis as u128);
    proof {
        assert((bytes as int) * 1000 <= 0xFFFF_FFFF_FFFF_FFFF * 1000) by (nonlinear_arith)
            requires
                bytes <= 0xFFFF_FFFF_FFFF_FFFF,
        ;
        assert(wide == spec_speed(bytes, duration_millis));
    }
    let mut speed = String::new();
    if wide >= GIB as u128 {
        append_fixed2_wide(&mut speed, wide, GIB);
        speed.append(" GB/s");
    } else if wide >= MIB as u128 {
        append_fixed2_wide(&mut speed, wide, MIB);
        speed.append(" MB/s");
    } else if wide >= KIB as u128 {
        append_fixed2_wide(&mut speed, wide, KIB);
        speed.append(" KB/s");
    } else {
        let digits = u64_dec_string(wide as u64);
        speed.append(digits.as_str());
        speed.append(" B/s");
    }
    (size, speed)
}

/// Appends `v / unit` with two truncated decimals, for rates wider than one
/// machine word.
fn append_fixed2_wide(out: &mut String, v: u128, unit: u64)
    requires
        0 < unit <= 0x4000_0000,
        v / (unit as u128) <= 0xFFFF_FFFF_FFFF_FFFF,
    ensures
        final(out)@ == old(out)@ + spec_fixed2(v as int, unit as int),
{
    let whole: u64 = (v / (unit as u128)) as u64;
    let rem: u64 = (v % (unit as u128)) as u64;
    proof {
        assert(v % (unit as u128) < unit as u128);
        assert(rem == (v as int) % (unit as int));
        assert(whole == (v as int) / (unit as int));
        assert(rem < unit);
        assert(rem * 100 <= (unit - 1) * 100) by (nonlinear_arith)
            requires
                rem <= unit - 1,
        ;
        assert((unit - 1) * 100 <= 0xFFFF_FFFF_FFFF_FFFF) by (nonlinear_arith)
            requires
                unit <= 0x1_0000_0000,
        ;
    }
    let frac = rem * 100 / unit;
    proof {
        assert(frac < 100) by (nonlinear_arith)
            requires
                frac == (rem as int) * 100 / (unit as int),
                (rem as int) < (unit as int),
                (unit as int) > 0,
        ;
    }
    let digits = u64_dec_string(whole);
    out.append(digits.as_str());
    out.append(".");
    proof {
        reveal_strlit(".");
        assert("."@ =~= seq!['.']);
    }
    out.append(digit_str((frac / 10) as u8));
    out.append(digit_str((frac % 10) as u8));
}

} // verus!
