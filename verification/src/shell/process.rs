//! How a process is stopped, and those that it started.

use crate::numbers;
use crate::platform::Platform;
use vstd::prelude::*;

verus! {

/// A signal of Unix.
#[derive(Debug, Clone, Copy, PartialEq, Eq, Structural)]
pub enum Signal {
    /// Please end.
    Terminate,
    /// End.
    Kill,
}

/// A step of stopping a process. Only the last step of all decides whether the
/// stopping worked.
#[derive(Debug, PartialEq, Eq)]
pub enum KillStep {
    /// Send a signal. A negative target is the process group with that number.
    Signal { target: i32, signal: Signal },
    /// Wait so many milliseconds.
    Pause { millis: u64 },
    /// Run a program and wait for its end.
    Run { program: String, args: Vec<String> },
    /// Kill the process itself.
    KillChild,
}

/// A `KillStep` with its texts as sequences.
pub enum KillView {
    Signal { target: i32, signal: Signal },
    Pause { millis: u64 },
    Run { program: Seq<char>, args: Seq<Seq<char>> },
    KillChild,
}

impl View for KillStep {
    type V = KillView;

    open spec fn view(&self) -> KillView {
        match self {
            KillStep::Signal { target, signal } => KillView::Signal {
                target: *target,
                signal: *signal,
            },
            KillStep::Pause { millis } => KillView::Pause { millis: *millis },
            KillStep::Run { program, args } => KillView::Run {
                program: program@,
                args: args.deep_view(),
            },
            KillStep::KillChild => KillView::KillChild,
        }
    }
}

impl DeepView for KillStep {
    type V = KillView;

    open spec fn deep_view(&self) -> KillView {
        self.view()
    }
}

/// The number that has no opposite as a signed number of 32 bits.
pub const NO_OPPOSITE: u32 = 0x8000_0000;

/// The target of a signal to the group of a process: the opposite of its number,
/// which is read as a signed number of 32 bits.
pub open spec fn group_target(pid: u32) -> int {
    if pid <= i32::MAX {
        -(pid as int)
    } else {
        0x1_0000_0000 - pid
    }
}

/// The steps of stopping a process, and those that it started, where its number
/// is known. On Unix the group is asked to end, has a second to do so, and is
/// killed; on Windows a program kills the tree. At last the process itself is
/// killed.
pub open spec fn kill_steps(pid: Option<u32>, platform: Platform) -> Seq<KillView> {
    match (platform, pid) {
        (_, None) => seq![KillView::KillChild],
        (Platform::Windows, Some(pid)) => seq![
            KillView::Run {
                program: "taskkill"@,
                args: seq!["/F"@, "/T"@, "/PID"@, numbers::decimal(pid as nat)],
            },
            KillView::KillChild,
        ],
        (_, Some(pid)) => seq![
            KillView::Signal { target: group_target(pid) as i32, signal: Signal::Terminate },
            KillView::Pause { millis: 1000 },
            KillView::Signal { target: group_target(pid) as i32, signal: Signal::Kill },
            KillView::KillChild,
        ],
    }
}

/// The target of a signal to the group of a process.
fn signal_target(pid: u32) -> (r: i32)
    requires
        pid != NO_OPPOSITE,
    ensures
        r == group_target(pid),
{
    let n: i64 = pid as i64;
    if n <= 0x7fff_ffff {
        (0 - n) as i32
    } else {
        (0x1_0000_0000 - n) as i32
    }
}

/// The steps of stopping a process, and those that it started.
pub fn kill_process_group(pid: Option<u32>, platform: Platform) -> (r: Vec<KillStep>)
    requires
        pid == Some(NO_OPPOSITE) ==> platform is Windows,
    ensures
        r.deep_view() == kill_steps(pid, platform),
{
    let mut steps: Vec<KillStep> = Vec::new();
    if let Some(pid) = pid {
        match platform {
            Platform::Windows => {
                let args = vec![
                    "/F".to_string(),
                    "/T".to_string(),
                    "/PID".to_string(),
                    numbers::decimal_text(pid as u64),
                ];
                assert(args.deep_view() =~= seq![
                    "/F"@,
                    "/T"@,
                    "/PID"@,
                    numbers::decimal(pid as nat),
                ]);
                steps.push(KillStep::Run { program: "taskkill".to_string(), args });
            },
            _ => {
                let target: i32 = signal_target(pid);
                steps.push(KillStep::Signal { target, signal: Signal::Terminate });
                steps.push(KillStep::Pause { millis: 1000 });
                steps.push(KillStep::Signal { target, signal: Signal::Kill });
            },
        }
    }
    steps.push(KillStep::KillChild);
    assert(steps.deep_view() =~= kill_steps(pid, platform));
    steps
}

} // verus!
