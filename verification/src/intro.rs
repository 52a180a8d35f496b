//! The loading countdown before play: its stages and when play begins.
use vstd::prelude::*;
use crate::navigation::DemoMode;

verus! {

/// Length of the loading screen.
pub const LOADING_TOTAL_MS: i64 = 2_000;

/// Length of the ready buffer that follows it.
pub const READY_BUFFER_MS: i64 = 500;

/// When the audio is reported ready.
pub const LOADING_AUDIO_READY_MS: i64 = 450;

/// When the chart is reported ready.
pub const LOADING_CHART_READY_MS: i64 = 950;

/// When input is reported armed.
pub const LOADING_INPUT_READY_MS: i64 = 1_350;

/// The stage named on the loading screen after `elapsed_ms`.
pub open spec fn stage_label_spec(ready: bool, elapsed_ms: i64) -> Seq<char> {
    if ready {
        "player ready"@
    } else if elapsed_ms < LOADING_AUDIO_READY_MS {
        "loading audio"@
    } else if elapsed_ms < LOADING_CHART_READY_MS {
        "preparing chart"@
    } else if elapsed_ms < LOADING_INPUT_READY_MS {
        "arming input"@
    } else if elapsed_ms < LOADING_TOTAL_MS {
        "ready"@
    } else {
        "live"@
    }
}

pub fn loading_stage_label(ready: bool, elapsed_ms: i64) -> (r: &'static str)
    ensures
        r@ == stage_label_spec(ready, elapsed_ms),
{
    if ready {
        "player ready"
    } else if elapsed_ms < LOADING_AUDIO_READY_MS {
        "loading audio"
    } else if elapsed_ms < LOADING_CHART_READY_MS {
        "preparing chart"
    } else if elapsed_ms < LOADING_INPUT_READY_MS {
        "arming input"
    } else if elapsed_ms < LOADING_TOTAL_MS {
        "ready"
    } else {
        "live"
    }
}

/// The three status lines of the loading screen: audio, chart, input.
pub fn loading_status_lines(ready: bool, elapsed_ms: i64) -> (r: [&'static str; 3])
    ensures
        r[0]@ == (if ready || elapsed_ms >= LOADING_AUDIO_READY_MS {
            "audio ready"@
        } else {
            "loading audio"@
        }),
        r[1]@ == (if ready || elapsed_ms >= LOADING_CHART_READY_MS {
            "chart ready"@
        } else {
            "preparing chart"@
        }),
        r[2]@ == (if ready {
            "start gate open"@
        } else if elapsed_ms >= LOADING_INPUT_READY_MS {
            "input armed"@
        } else {
            "arming input"@
        }),
{
    if ready {
        return ["audio ready", "chart ready", "start gate open"];
    }
    [
        if elapsed_ms >= LOADING_AUDIO_READY_MS {
            "audio ready"
        } else {
            "loading audio"
        },
        if elapsed_ms >= LOADING_CHART_READY_MS {
            "chart ready"
        } else {
            "preparing chart"
        },
        if elapsed_ms >= LOADING_INPUT_READY_MS {
            "input armed"
        } else {
            "arming input"
        },
    ]
}

pub open spec fn clamp_ms(t: int, hi: int) -> int {
    if t < 0 {
        0
    } else if t > hi {
        hi
    } else {
        t
    }
}

/// One frame of the intro at `time_ms`: the loading screen runs to its end and gives
/// way to the ready buffer, which runs to its end and gives way to play. Returns the
/// clamped time shown and the next mode; other modes are left alone.
pub fn intro_step(mode: DemoMode, time_ms: i64) -> (r: (i64, DemoMode))
    ensures
        mode == DemoMode::Loading ==> r == (if clamp_ms(time_ms as int, LOADING_TOTAL_MS as int)
            >= LOADING_TOTAL_MS {
            (0i64, DemoMode::Ready)
        } else {
            (clamp_ms(time_ms as int, LOADING_TOTAL_MS as int) as i64, DemoMode::Loading)
        }),
        mode == DemoMode::Ready ==> r == (if clamp_ms(time_ms as int, READY_BUFFER_MS as int)
            >= READY_BUFFER_MS {
            (0i64, DemoMode::Playing)
        } else {
            (clamp_ms(time_ms as int, READY_BUFFER_MS as int) as i64, DemoMode::Ready)
        }),
        mode != DemoMode::Loading && mode != DemoMode::Ready ==> r == (time_ms, mode),
{
    match mode {
        DemoMode::Loading => {
            let t = if time_ms < 0 {
                0
            } else if time_ms > LOADING_TOTAL_MS {
                LOADING_TOTAL_MS
            } else {
                time_ms
            };
            if t >= LOADING_TOTAL_MS {
                (0, DemoMode::Ready)
            } else {
                (t, DemoMode::Loading)
            }
        },
        DemoMode::Ready => {
            let t = if time_ms < 0 {
                0
            } else if time_ms > READY_BUFFER_MS {
                READY_BUFFER_MS
            } else {
                time_ms
            };
            if t >= READY_BUFFER_MS {
                (0, DemoMode::Playing)
            } else {
                (t, DemoMode::Ready)
            }
        },
        _ => (time_ms, mode),
    }
}

} // verus!
