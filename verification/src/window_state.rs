use vstd::prelude::*;

verus! {

/// The remembered place, size and mode of the main window.
#[derive(Clone, Debug)]
pub struct WindowMemoryState {
    pub x: i32,
    pub y: i32,
    pub width: u32,
    pub height: u32,
    pub is_maximized: bool,
    pub is_fullscreen: bool,
}

/// The area of one monitor: its top-left corner and its size.
#[derive(Clone, Debug)]
pub struct MonitorRect {
    pub x: i32,
    pub y: i32,
    pub width: u32,
    pub height: u32,
}

/// The smallest width and height a restored window gets.
pub const MIN_WINDOW_SIDE: u32 = 500;

/// How much of a window, in each direction, must lie on a monitor for it to
/// count as visible there.
pub const VISIBLE_OVERLAP: i64 = 80;

/// The smaller of two integers.
pub open spec fn min_int(a: int, b: int) -> int {
    if a < b {
        a
    } else {
        b
    }
}

/// The larger of two integers.
pub open spec fn max_int(a: int, b: int) -> int {
    if a < b {
        b
    } else {
        a
    }
}

/// The window overlaps the monitor by more than [`VISIBLE_OVERLAP`] both
/// across and down.
pub open spec fn overlaps(s: WindowMemoryState, m: MonitorRect) -> bool {
    let w = min_int(s.x + s.width, m.x + m.width) - max_int(s.x as int, m.x as int);
    let h = min_int(s.y + s.height, m.y + m.height) - max_int(s.y as int, m.y as int);
    w > VISIBLE_OVERLAP && h > VISIBLE_OVERLAP
}

/// The window is visible: no monitor is known, or it overlaps one.
pub open spec fn visible_on(s: WindowMemoryState, monitors: Seq<MonitorRect>) -> bool {
    monitors.len() == 0 || exists|i: int| 0 <= i < monitors.len() && overlaps(s, #[trigger] monitors[i])
}

/// Whether the window overlaps monitor `m` (see [`overlaps`]).
fn overlaps_exec(s: &WindowMemoryState, m: &MonitorRect) -> (r: bool)
    ensures
        r == overlaps(*s, *m),
{
    let wl = s.x as i64;
    let wt = s.y as i64;
    let wr = wl + s.width as i64;
    let wb = wt + s.height as i64;
    let ml = m.x as i64;
    let mt = m.y as i64;
    let mr = ml + m.width as i64;
    let mb = mt + m.height as i64;
    let iw = (if wr < mr {
        wr
    } else {
        mr
    }) - (if wl < ml {
        ml
    } else {
        wl
    });
    let ih = (if wb < mb {
        wb
    } else {
        mb
    }) - (if wt < mt {
        mt
    } else {
        wt
    });
    iw > VISIBLE_OVERLAP && ih > VISIBLE_OVERLAP
}

/// Whether the remembered window would be visible (see [`visible_on`]).
pub fn window_state_intersects_available_monitor(state: &WindowMemoryState, monitors: &Vec<MonitorRect>) -> (r: bool)
    ensures
        r == visible_on(*state, monitors@),
{
    if monitors.len() == 0 {
        return true;
    }
    let mut i: usize = 0;
    while i < monitors.len()
        invariant
            i <= monitors.len(),
            forall|k: int| 0 <= k < i ==> !overlaps(*state, #[trigger] monitors@[k]),
        decreases monitors.len() - i,
    {
        if overlaps_exec(state, &monitors[i]) {
            return true;
        }
        i = i + 1;
    }
    false
}

/// A side of the window fitted to a monitor: no larger than the monitor,
/// but at least [`MIN_WINDOW_SIDE`].
pub open spec fn fitted_side(side: u32, monitor_side: u32) -> u32 {
    let s = if side < monitor_side {
        side
    } else {
        monitor_side
    };
    if s < MIN_WINDOW_SIDE {
        MIN_WINDOW_SIDE
    } else {
        s
    }
}

/// Where a window of side `side` starts when centred on a monitor side:
/// half of what is left over (none when the window is larger).
pub open spec fn centred_start(start: i32, monitor_side: u32, side: u32) -> int {
    start + (if monitor_side > side {
        (monitor_side - side) / 2
    } else {
        0
    })
}

/// The window moved onto a monitor when it is not visible: it is fitted to
/// the first monitor (see [`fitted_side`]) and centred on it; a visible
/// window stays as it is.
pub open spec fn moved_to_visible(s: WindowMemoryState, monitors: Seq<MonitorRect>) -> WindowMemoryState {
    if visible_on(s, monitors) {
        s
    } else {
        let m = monitors[0];
        let w = fitted_side(s.width, m.width);
        let h = fitted_side(s.height, m.height);
        WindowMemoryState {
            x: centred_start(m.x, m.width, w) as i32,
            y: centred_start(m.y, m.height, h) as i32,
            width: w,
            height: h,
            ..s
        }
    }
}

/// The move fits in the coordinate range (see [`moved_to_visible`]).
pub open spec fn move_fits(s: WindowMemoryState, monitors: Seq<MonitorRect>) -> bool {
    visible_on(s, monitors) || {
        let m = monitors[0];
        &&& centred_start(m.x, m.width, fitted_side(s.width, m.width)) <= i32::MAX
        &&& centred_start(m.y, m.height, fitted_side(s.height, m.height)) <= i32::MAX
    }
}

/// A side fitted to a monitor (see [`fitted_side`]).
fn fitted_side_exec(side: u32, monitor_side: u32) -> (r: u32)
    ensures
        r == fitted_side(side, monitor_side),
{
    let s = if side < monitor_side {
        side
    } else {
        monitor_side
    };
    if s < MIN_WINDOW_SIDE {
        MIN_WINDOW_SIDE
    } else {
        s
    }
}

/// Moves the window onto a monitor when it is not visible (see
/// [`moved_to_visible`]).
pub fn move_window_state_to_visible_monitor(state: &mut WindowMemoryState, monitors: &Vec<MonitorRect>)
    requires
        move_fits(*old(state), monitors@),
    ensures
        *final(state) == moved_to_visible(*old(state), monitors@),
{
    if window_state_intersects_available_monitor(state, monitors) {
        return;
    }
    let m = &monitors[0];
    let w = fitted_side_exec(state.width, m.width);
    let h = fitted_side_exec(state.height, m.height);
    let dx: u32 = if m.width > w {
        (m.width - w) / 2
    } else {
        0
    };
    let dy: u32 = if m.height > h {
        (m.height - h) / 2
    } else {
        0
    };
    state.width = w;
    state.height = h;
    state.x = m.x + dx as i32;
    state.y = m.y + dy as i32;
}

/// The window as it is restored: each side at least [`MIN_WINDOW_SIDE`],
/// then moved onto a monitor (see [`moved_to_visible`]).
pub open spec fn restored(s: WindowMemoryState, monitors: Seq<MonitorRect>) -> WindowMemoryState {
    moved_to_visible(
        WindowMemoryState {
            width: if s.width < MIN_WINDOW_SIDE {
                MIN_WINDOW_SIDE
            } else {
                s.width
            },
            height: if s.height < MIN_WINDOW_SIDE {
                MIN_WINDOW_SIDE
            } else {
                s.height
            },
            ..s
        },
        monitors,
    )
}

/// The window as it is restored (see [`restored`]).
pub fn prepare_window_restore(state: WindowMemoryState, monitors: &Vec<MonitorRect>) -> (r: WindowMemoryState)
    requires
        move_fits(
            WindowMemoryState {
                width: if state.width < MIN_WINDOW_SIDE {
                    MIN_WINDOW_SIDE
                } else {
                    state.width
                },
                height: if state.height < MIN_WINDOW_SIDE {
                    MIN_WINDOW_SIDE
                } else {
                    state.height
                },
                ..state
            },
            monitors@,
        ),
    ensures
        r == restored(state, monitors@),
{
    let mut s = state;
    if s.width < MIN_WINDOW_SIDE {
        s.width = MIN_WINDOW_SIDE;
    }
    if s.height < MIN_WINDOW_SIDE {
        s.height = MIN_WINDOW_SIDE;
    }
    move_window_state_to_visible_monitor(&mut s, monitors);
    s
}

/// A restored window overlaps a monitor or was moved onto the first one;
/// either way it keeps its maximised and full-screen modes, and each of its
/// sides is at least [`MIN_WINDOW_SIDE`].
pub proof fn law_restored_window(s: WindowMemoryState, monitors: Seq<MonitorRect>)
    ensures
        restored(s, monitors).width >= MIN_WINDOW_SIDE,
        restored(s, monitors).height >= MIN_WINDOW_SIDE,
        restored(s, monitors).is_maximized == s.is_maximized,
        restored(s, monitors).is_fullscreen == s.is_fullscreen,
{
}

} // verus!
