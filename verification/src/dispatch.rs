//! Device topology dispatch: a rule table keyed by controller and zone
//! name that decides which color-distribution policy, which load signal
//! and which operand order applies to each set of LEDs.

use vstd::prelude::*;

use crate::color::{
    block_colors, block_seq, gradient_colors, gradient_seq, ColorRgb, Load, LOAD_SCALE,
};

verus! {

/// A named, independently addressable subset of a controller's LEDs.
pub struct Zone {
    pub name: String,
    pub led_count: usize,
}

/// A read-only snapshot of one controller: its name, its total LED count,
/// and its ordered zones.
pub struct ControllerTopology {
    pub name: String,
    pub led_count: usize,
    pub zones: Vec<Zone>,
}

/// A zone name that matches no rule on a device that does define
/// zone-level rules: a configuration inconsistency, reported rather than
/// silently skipped.
#[derive(Debug)]
pub struct TopologyMismatch {
    pub zone: String,
}

/// The device name driven as a whole by an inverted-CPU gradient with
/// swapped endpoints.
pub open spec fn memory_device_name() -> Seq<char> {
    "memory-module controller"@
}

/// The device name driven as a whole by a GPU-load block.
pub open spec fn gpu_device_name() -> Seq<char> {
    "discrete-GPU controller"@
}

/// The device name with per-zone rules.
pub open spec fn motherboard_device_name() -> Seq<char> {
    "motherboard controller"@
}

/// The motherboard zone shown as a CPU-load block.
pub open spec fn bottom_zone_name() -> Seq<char> {
    "bottom strip"@
}

/// The motherboard zone shown as a CPU-load gradient.
pub open spec fn top_zone_name() -> Seq<char> {
    "top strip"@
}

/// The motherboard zone whose first LED is driven separately from the rest.
pub open spec fn indicator_zone_name() -> Seq<char> {
    "onboard indicator"@
}

/// Whether a zone name matches one of the motherboard's zone rules.
pub open spec fn zone_known(z: Zone) -> bool {
    ||| z.name@ == bottom_zone_name()
    ||| z.name@ == top_zone_name()
    ||| z.name@ == indicator_zone_name()
}

/// The colors one motherboard zone shows at CPU load `cpu` (units of
/// [`LOAD_SCALE`]); meaningful only for a known zone.
///
/// The indicator zone's first LED is a one-LED block and the remaining
/// LEDs a second, independent block, so a divergent rule for either part
/// can later be inserted without disturbing the other; a zone of no LEDs
/// shows nothing.
pub open spec fn spec_zone_colors(z: Zone, cpu: int, start: ColorRgb, end: ColorRgb) -> Seq<
    ColorRgb,
> {
    if z.name@ == bottom_zone_name() {
        block_seq(cpu, start, end, z.led_count as int)
    } else if z.name@ == top_zone_name() {
        gradient_seq(cpu, start, end, z.led_count as int)
    } else {
        if z.led_count == 0 {
            Seq::<ColorRgb>::empty()
        } else {
            block_seq(cpu, start, end, 1) + block_seq(cpu, start, end, z.led_count - 1)
        }
    }
}

/// The concatenation of every zone's colors, in zone order.
pub open spec fn spec_zones_colors(
    zs: Seq<Zone>,
    cpu: int,
    start: ColorRgb,
    end: ColorRgb,
) -> Seq<ColorRgb>
    decreases zs.len(),
{
    if zs.len() == 0 {
        Seq::<ColorRgb>::empty()
    } else {
        spec_zones_colors(zs.drop_last(), cpu, start, end) + spec_zone_colors(
            zs.last(),
            cpu,
            start,
            end,
        )
    }
}

/// Whether every zone of a sequence matches a motherboard zone rule.
pub open spec fn all_zones_known(zs: Seq<Zone>) -> bool {
    forall|i: int| 0 <= i < zs.len() ==> zone_known(#[trigger] zs[i])
}

/// The name of the first zone that matches no rule; meaningful only when
/// not all zones are known.
pub open spec fn first_unknown_zone(zs: Seq<Zone>) -> Seq<char>
    decreases zs.len(),
{
    if zs.len() == 0 {
        Seq::<char>::empty()
    } else if !zone_known(zs.first()) {
        zs.first().name@
    } else {
        first_unknown_zone(zs.drop_first())
    }
}

/// The rule table: what a controller's LED assignment is at the given CPU
/// and GPU loads (units of [`LOAD_SCALE`]), or the name of the offending
/// zone when the motherboard topology is inconsistent with the rules.
pub open spec fn spec_device_colors(
    t: ControllerTopology,
    cpu: int,
    gpu: int,
    start: ColorRgb,
    end: ColorRgb,
) -> Result<Seq<ColorRgb>, Seq<char>> {
    if t.name@ == memory_device_name() {
        Ok(gradient_seq(LOAD_SCALE - cpu, end, start, t.led_count as int))
    } else if t.name@ == gpu_device_name() {
        Ok(block_seq(gpu, start, end, t.led_count as int))
    } else if t.name@ == motherboard_device_name() {
        if all_zones_known(t.zones@) {
            Ok(spec_zones_colors(t.zones@, cpu, start, end))
        } else {
            Err(first_unknown_zone(t.zones@))
        }
    } else {
        Ok(block_seq(cpu, start, end, t.led_count as int))
    }
}

/// Whether an executable dispatch result agrees with the rule table: same
/// success or failure, the same colors on success, and the offending
/// zone's name on failure.
pub open spec fn assignment_matches(
    r: Result<Vec<ColorRgb>, TopologyMismatch>,
    t: ControllerTopology,
    cpu: int,
    gpu: int,
    start: ColorRgb,
    end: ColorRgb,
) -> bool {
    &&& (r is Ok <==> spec_device_colors(t, cpu, gpu, start, end) is Ok)
    &&& (r is Ok ==> r->Ok_0@ == spec_device_colors(t, cpu, gpu, start, end)->Ok_0)
    &&& (r is Err ==> r->Err_0.zone@ == spec_device_colors(t, cpu, gpu, start, end)->Err_0)
}

/// Law: the rule table's device and zone names are pairwise distinct, so
/// at most one rule matches a given name.
pub proof fn lemma_rule_names_distinct()
    ensures
        memory_device_name() != gpu_device_name(),
        memory_device_name() != motherboard_device_name(),
        gpu_device_name() != motherboard_device_name(),
        bottom_zone_name() != top_zone_name(),
        bottom_zone_name() != indicator_zone_name(),
        top_zone_name() != indicator_zone_name(),
{
    reveal_strlit("memory-module controller");
    reveal_strlit("discrete-GPU controller");
    reveal_strlit("motherboard controller");
    reveal_strlit("bottom strip");
    reveal_strlit("top strip");
    reveal_strlit("onboard indicator");
    assert(memory_device_name().len() == 24);
    assert(gpu_device_name().len() == 23);
    assert(motherboard_device_name().len() == 22);
    assert(bottom_zone_name().len() == 12);
    assert(top_zone_name().len() == 9);
    assert(indicator_zone_name().len() == 17);
}

/// Law: if unknown zones exist, the first of them (all earlier ones being
/// known) is the one reported.
proof fn lemma_first_unknown_zone(zs: Seq<Zone>, k: int)
    requires
        0 <= k < zs.len(),
        !zone_known(zs[k]),
        forall|i: int| 0 <= i < k ==> zone_known(#[trigger] zs[i]),
    ensures
        !all_zones_known(zs),
        first_unknown_zone(zs) == zs[k].name@,
    decreases k,
{
    if k > 0 {
        lemma_first_unknown_zone(zs.drop_first(), k - 1);
    }
}

/// The colors one motherboard zone shows, or `None` for a zone matching
/// no rule.
fn zone_assignment(zone: &Zone, cpu: Load, start: &ColorRgb, end: &ColorRgb) -> (r: Option<
    Vec<ColorRgb>,
>)
    requires
        cpu.is_valid(),
    ensures
        r is Some <==> zone_known(*zone),
        r is Some ==> r->Some_0@ == spec_zone_colors(*zone, cpu.units as int, *start, *end),
{
    proof {
        lemma_rule_names_distinct();
    }
    let bottom: String = "bottom strip".to_string();
    let top: String = "top strip".to_string();
    let indicator: String = "onboard indicator".to_string();
    if zone.name == bottom {
        Some(block_colors(cpu, start, end, zone.led_count))
    } else if zone.name == top {
        Some(gradient_colors(cpu, start, end, zone.led_count))
    } else if zone.name == indicator {
        if zone.led_count == 0 {
            Some(Vec::new())
        } else {
            let mut head = block_colors(cpu, start, end, 1);
            let mut rest = block_colors(cpu, start, end, zone.led_count - 1);
            head.append(&mut rest);
            Some(head)
        }
    } else {
        None
    }
}

/// The LED assignment for one controller under the rule table, at the
/// given smoothed CPU and GPU loads:
///
/// - the memory-module controller shows a whole-device gradient of the
///   inverted CPU load with swapped endpoints;
/// - the discrete-GPU controller shows a whole-device block of the GPU
///   load;
/// - the motherboard controller shows each zone under its own rule, and a
///   zone matching no rule is reported as a [`TopologyMismatch`];
/// - any other device shows a whole-device block of the CPU load.
pub fn controller_assignment(
    topo: &ControllerTopology,
    cpu: Load,
    gpu: Load,
    start: &ColorRgb,
    end: &ColorRgb,
) -> (r: Result<Vec<ColorRgb>, TopologyMismatch>)
    requires
        cpu.is_valid(),
        gpu.is_valid(),
    ensures
        assignment_matches(r, *topo, cpu.units as int, gpu.units as int, *start, *end),
{
    proof {
        lemma_rule_names_distinct();
    }
    let memory: String = "memory-module controller".to_string();
    let gpu_dev: String = "discrete-GPU controller".to_string();
    let motherboard: String = "motherboard controller".to_string();
    if topo.name == memory {
        Ok(gradient_colors(cpu.invert(), end, start, topo.led_count))
    } else if topo.name == gpu_dev {
        Ok(block_colors(gpu, start, end, topo.led_count))
    } else if topo.name == motherboard {
        let mut out: Vec<ColorRgb> = Vec::new();
        let mut k: usize = 0;
        let n = topo.zones.len();
        while k < n
            invariant
                k <= n,
                n == topo.zones@.len(),
                cpu.is_valid(),
                gpu.is_valid(),
                topo.name@ == motherboard_device_name(),
                topo.name@ != memory_device_name(),
                topo.name@ != gpu_device_name(),
                out@ == spec_zones_colors(topo.zones@.take(k as int), cpu.units as int, *start, *end),
                forall|i: int| 0 <= i < k ==> zone_known(#[trigger] topo.zones@[i]),
            decreases n - k,
        {
            match zone_assignment(&topo.zones[k], cpu, start, end) {
                Some(mut colors) => {
                    out.append(&mut colors);
                    proof {
                        assert(topo.zones@.take(k as int + 1).drop_last()
                            =~= topo.zones@.take(k as int));
                        assert(topo.zones@.take(k as int + 1).last() == topo.zones@[k as int]);
                    }
                },
                None => {
                    proof {
                        lemma_first_unknown_zone(topo.zones@, k as int);
                    }
                    return Err(TopologyMismatch { zone: topo.zones[k].name.clone() });
                },
            }
            k = k + 1;
        }
        proof {
            assert(topo.zones@.take(n as int) =~= topo.zones@);
        }
        Ok(out)
    } else {
        Ok(block_colors(cpu, start, end, topo.led_count))
    }
}

/// Law: the discrete-GPU device's assignment depends on the GPU load
/// alone — the CPU load never changes it.
pub proof fn lemma_gpu_device_ignores_cpu(
    t: ControllerTopology,
    cpu1: int,
    cpu2: int,
    gpu: int,
    start: ColorRgb,
    end: ColorRgb,
)
    requires
        t.name@ == gpu_device_name(),
    ensures
        spec_device_colors(t, cpu1, gpu, start, end) == spec_device_colors(
            t,
            cpu2,
            gpu,
            start,
            end,
        ),
{
    lemma_rule_names_distinct();
}

} // verus!
