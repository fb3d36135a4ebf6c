use open_rgb_client::color::{
    block_colors, gradient_colors, lerp_color, ColorRgb, Load, LOAD_SCALE,
};
use open_rgb_client::control::{
    process_cycle, step, LoopAction, LoopEvent, LoopPhase, LoopState, ShutdownState,
};
use open_rgb_client::dispatch::{controller_assignment, ControllerTopology, Zone};
use open_rgb_client::sampler::{next_power_of_two, sample_buffer_capacity, SmoothedSampler};

const WHITE: ColorRgb = ColorRgb { r: 255, g: 255, b: 255 };
const RED: ColorRgb = ColorRgb { r: 255, g: 0, b: 0 };

fn half() -> Load {
    Load { units: LOAD_SCALE / 2 }
}

#[test]
fn lerp_at_zero_is_start() {
    let c = lerp_color(Load { units: 0 }, &WHITE, &RED);
    assert_eq!(c, WHITE);
}

#[test]
fn lerp_at_one_is_end() {
    let c = lerp_color(Load { units: LOAD_SCALE }, &WHITE, &RED);
    assert_eq!(c, RED);
}

#[test]
fn lerp_at_half_exact() {
    // Per channel: ((1000000 - 500000) * a + 500000 * b) / 1000000, truncated.
    let c = lerp_color(half(), &WHITE, &RED);
    assert_eq!(c, ColorRgb { r: 255, g: 127, b: 127 });
}

#[test]
fn lerp_stays_between_endpoints() {
    let s = ColorRgb { r: 10, g: 200, b: 0 };
    let e = ColorRgb { r: 240, g: 20, b: 255 };
    for units in [0u32, 1, 250000, 500000, 999999, LOAD_SCALE] {
        let c = lerp_color(Load { units }, &s, &e);
        assert!(s.r <= c.r && c.r <= e.r);
        assert!(e.g <= c.g && c.g <= s.g);
        assert!(s.b <= c.b && c.b <= e.b);
    }
}

#[test]
fn block_is_n_copies() {
    let c = lerp_color(half(), &WHITE, &RED);
    let v = block_colors(half(), &WHITE, &RED, 7);
    assert_eq!(v.len(), 7);
    assert!(v.iter().all(|x| *x == c));
}

#[test]
fn block_of_zero_leds_is_empty() {
    let v = block_colors(half(), &WHITE, &RED, 0);
    assert!(v.is_empty());
}

#[test]
fn gradient_of_zero_leds_is_empty() {
    let v = gradient_colors(half(), &WHITE, &RED, 0);
    assert!(v.is_empty());
}

#[test]
fn gradient_at_zero_is_all_start() {
    let v = gradient_colors(Load { units: 0 }, &WHITE, &RED, 6);
    assert_eq!(v, vec![WHITE; 6]);
}

#[test]
fn gradient_at_one_is_all_end() {
    let v = gradient_colors(Load { units: LOAD_SCALE }, &WHITE, &RED, 6);
    assert_eq!(v, vec![RED; 6]);
}

#[test]
fn gradient_fills_from_the_front() {
    // t = 0.5 over 4 LEDs scales to 2.0: two full LEDs, then none.
    let v = gradient_colors(half(), &WHITE, &RED, 4);
    assert_eq!(v, vec![RED, RED, WHITE, WHITE]);
}

#[test]
fn gradient_has_one_led_transition_band() {
    // t = 0.5 over 5 LEDs scales to 2.5: LED 2 is half-interpolated.
    let v = gradient_colors(half(), &WHITE, &RED, 5);
    let mid = lerp_color(half(), &WHITE, &RED);
    assert_eq!(v, vec![RED, RED, mid, WHITE, WHITE]);
}

#[test]
fn gradient_closeness_to_end_never_grows_along_strip() {
    // The green channel runs from 0 (end-colored) up to 255 (start-colored),
    // so it must be non-decreasing in the LED index.
    for units in [0u32, 100000, 330000, 500000, 770000, LOAD_SCALE] {
        let v = gradient_colors(Load { units }, &WHITE, &RED, 9);
        for w in v.windows(2) {
            assert!(w[0].g <= w[1].g);
        }
    }
}

#[test]
fn sampler_mean_of_partial_fill() {
    let mut s = SmoothedSampler::new(8);
    s.push(Load { units: 200000 });
    s.push(Load { units: 400000 });
    assert_eq!(s.read(), Load { units: 300000 });
}

#[test]
fn sampler_empty_reads_zero() {
    let s = SmoothedSampler::new(4);
    assert_eq!(s.read(), Load { units: 0 });
}

#[test]
fn sampler_evicts_oldest_at_capacity() {
    let mut s = SmoothedSampler::new(2);
    s.push(Load { units: 900000 });
    s.push(Load { units: 100000 });
    s.push(Load { units: 300000 });
    // The 900000 reading is gone: mean of 100000 and 300000.
    assert_eq!(s.read(), Load { units: 200000 });
}

#[test]
fn sampler_mean_truncates() {
    let mut s = SmoothedSampler::new(4);
    s.push(Load { units: 1 });
    s.push(Load { units: 0 });
    s.push(Load { units: 0 });
    assert_eq!(s.read(), Load { units: 0 });
}

#[test]
fn next_power_of_two_rounds_up() {
    assert_eq!(next_power_of_two(1), 1);
    assert_eq!(next_power_of_two(2), 2);
    assert_eq!(next_power_of_two(3), 4);
    assert_eq!(next_power_of_two(5), 8);
    assert_eq!(next_power_of_two(16), 16);
    assert_eq!(next_power_of_two(17), 32);
    assert_eq!(next_power_of_two(0x8000_0000), 0x8000_0000);
}

#[test]
fn buffer_capacity_for_default_config() {
    // A 5 s window sampled every 500 ms: 5 + 5 / 500 = 5, rounded up to 8.
    assert_eq!(sample_buffer_capacity(5, 500), 8);
}

#[test]
fn gpu_device_uses_gpu_load_only() {
    let topo = ControllerTopology {
        name: "discrete-GPU controller".to_string(),
        led_count: 5,
        zones: Vec::new(),
    };
    let expected = block_colors(half(), &WHITE, &RED, 5);
    let r1 = controller_assignment(&topo, Load { units: 0 }, half(), &WHITE, &RED);
    assert_eq!(r1.unwrap(), expected);
    // The CPU load does not matter for this device.
    let r2 = controller_assignment(&topo, Load { units: 700000 }, half(), &WHITE, &RED);
    assert_eq!(r2.unwrap(), expected);
}

#[test]
fn memory_device_inverts_load_and_swaps_endpoints() {
    let topo = ControllerTopology {
        name: "memory-module controller".to_string(),
        led_count: 6,
        zones: Vec::new(),
    };
    let cpu = Load { units: 250000 };
    let r = controller_assignment(&topo, cpu, Load { units: 0 }, &WHITE, &RED);
    let expected = gradient_colors(Load { units: 750000 }, &RED, &WHITE, 6);
    assert_eq!(r.unwrap(), expected);
}

#[test]
fn unknown_device_falls_back_to_cpu_block() {
    let topo = ControllerTopology {
        name: "some other device".to_string(),
        led_count: 3,
        zones: Vec::new(),
    };
    let cpu = Load { units: 400000 };
    let r = controller_assignment(&topo, cpu, Load { units: 999999 }, &WHITE, &RED);
    assert_eq!(r.unwrap(), block_colors(cpu, &WHITE, &RED, 3));
}

fn motherboard(zones: Vec<Zone>) -> ControllerTopology {
    let led_count = zones.iter().map(|z| z.led_count).sum();
    ControllerTopology { name: "motherboard controller".to_string(), led_count, zones }
}

#[test]
fn motherboard_concatenates_zone_policies() {
    let topo = motherboard(vec![
        Zone { name: "bottom strip".to_string(), led_count: 3 },
        Zone { name: "top strip".to_string(), led_count: 5 },
    ]);
    let cpu = Load { units: 400000 };
    let r = controller_assignment(&topo, cpu, Load { units: 0 }, &WHITE, &RED);
    let mut expected = block_colors(cpu, &WHITE, &RED, 3);
    expected.extend(gradient_colors(cpu, &WHITE, &RED, 5));
    assert_eq!(r.unwrap(), expected);
}

#[test]
fn indicator_zone_is_two_blocks() {
    let topo = motherboard(vec![Zone { name: "onboard indicator".to_string(), led_count: 4 }]);
    let cpu = Load { units: 600000 };
    let r = controller_assignment(&topo, cpu, Load { units: 0 }, &WHITE, &RED);
    let mut expected = block_colors(cpu, &WHITE, &RED, 1);
    expected.extend(block_colors(cpu, &WHITE, &RED, 3));
    assert_eq!(r.unwrap(), expected);
}

#[test]
fn unknown_zone_is_reported_not_skipped() {
    let topo = motherboard(vec![
        Zone { name: "bottom strip".to_string(), led_count: 3 },
        Zone { name: "mystery zone".to_string(), led_count: 2 },
    ]);
    let r = controller_assignment(&topo, half(), Load { units: 0 }, &WHITE, &RED);
    let err = r.err().expect("mismatch must be reported");
    assert_eq!(err.zone, "mystery zone");
}

#[test]
fn shutdown_state_transitions() {
    let mut s = ShutdownState::new();
    assert!(!s.should_stop());
    s.request_stop();
    assert!(s.should_stop());
    assert_eq!(s, ShutdownState::StopRequested);
    s.mark_stopped();
    assert_eq!(s, ShutdownState::Stopped);
    // A late stop request does not resurrect a stopped loop.
    s.request_stop();
    assert_eq!(s, ShutdownState::Stopped);
}

#[test]
fn stop_request_wins_at_suspension_points() {
    let connecting = LoopState::new(true);
    let (s1, a1) = step(connecting, LoopEvent::StopObserved);
    assert_eq!(s1.phase, LoopPhase::FinishedClean);
    assert_eq!(a1, LoopAction::ExitCleanly);

    let (s2, _) = step(connecting, LoopEvent::ConnectSucceeded);
    let (s3, _) = step(s2, LoopEvent::InitSucceeded);
    assert_eq!(s3.phase, LoopPhase::Sampling);
    let (s4, a4) = step(s3, LoopEvent::StopObserved);
    assert_eq!(s4.phase, LoopPhase::FinishedClean);
    assert_eq!(a4, LoopAction::ExitCleanly);
}

#[test]
fn connect_failures_back_off_and_retry_forever() {
    let mut s = LoopState::new(false);
    for _ in 0..3 {
        let (next, action) = step(s, LoopEvent::ConnectFailed);
        assert_eq!(next.phase, LoopPhase::Connecting);
        assert_eq!(action, LoopAction::BackoffThenConnect);
        s = next;
    }
}

#[test]
fn cycle_failure_reconnects_and_init_failure_is_fatal() {
    let s = LoopState::new(true);
    let (s2, _) = step(s, LoopEvent::ConnectSucceeded);
    assert_eq!(s2.phase, LoopPhase::Initializing);

    let (bad, action) = step(s2, LoopEvent::InitFailed);
    assert_eq!(bad.phase, LoopPhase::FinishedError);
    assert_eq!(action, LoopAction::ExitWithError);

    let (s3, _) = step(s2, LoopEvent::InitSucceeded);
    let (s4, a4) = step(s3, LoopEvent::CycleSucceeded);
    assert_eq!(s4.phase, LoopPhase::Sampling);
    assert_eq!(a4, LoopAction::RunCycle);
    let (s5, a5) = step(s4, LoopEvent::CycleFailed);
    assert_eq!(s5.phase, LoopPhase::Connecting);
    assert_eq!(a5, LoopAction::AttemptConnect);
}

#[test]
fn cycle_smooths_and_dispatches_every_controller() {
    let mut cpu_hist = SmoothedSampler::new(8);
    let mut gpu_hist = SmoothedSampler::new(8);
    cpu_hist.push(Load { units: 200000 });
    let topologies = vec![
        ControllerTopology {
            name: "discrete-GPU controller".to_string(),
            led_count: 4,
            zones: Vec::new(),
        },
        motherboard(vec![Zone { name: "nameless".to_string(), led_count: 1 }]),
    ];
    let out = process_cycle(
        &mut cpu_hist,
        &mut gpu_hist,
        Load { units: 600000 },
        Load { units: 500000 },
        &topologies,
        &WHITE,
        &RED,
    );
    // CPU history now holds 200000 and 600000; GPU history only 500000.
    assert_eq!(out.cpu_smoothed, Load { units: 400000 });
    assert_eq!(out.gpu_smoothed, Load { units: 500000 });
    assert_eq!(out.assignments.len(), 2);
    let gpu_colors = out.assignments[0].as_ref().expect("rule applies").clone();
    assert_eq!(gpu_colors, block_colors(Load { units: 500000 }, &WHITE, &RED, 4));
    let mismatch = out.assignments[1].as_ref().err().expect("unknown zone");
    assert_eq!(mismatch.zone, "nameless");
}
