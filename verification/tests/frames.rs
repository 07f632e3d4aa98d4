use miniscript::frame_lag::{
    snap, FrameData, FrameParts, FRAME_PARTS_ERROR_MARGIN, PARTS_IN_SECOND, PARTS_PER_FRAME,
    SNAP_MARGIN, TARGET_FRAME_RATE,
};

fn parts(seconds: f64) -> FrameParts {
    FrameParts((seconds * PARTS_IN_SECOND as f64).ceil() as u64)
}

#[test]
fn time_near_a_snapping_point_is_taken_for_it() {
    let snapped = |mut value: u64, to: u64| {
        snap(&mut value, to);
        value
    };
    assert_eq!(snapped(1000, 1000), 1000);
    assert_eq!(snapped(1000 + SNAP_MARGIN, 1000), 1000);
    assert_eq!(snapped(1000 - SNAP_MARGIN, 1000), 1000);
    assert_eq!(snapped(1001 + SNAP_MARGIN, 1000), 1121);
    assert_eq!(snapped(999 - SNAP_MARGIN, 1000), 879);
    assert_eq!(snapped(0, 1000), 0);
    assert_eq!(snapped(u64::MAX, 1000), u64::MAX);
    assert_eq!(
        (TARGET_FRAME_RATE, PARTS_PER_FRAME, PARTS_IN_SECOND, SNAP_MARGIN, FRAME_PARTS_ERROR_MARGIN),
        (60, 1000, 60000, 120, 17)
    );
}

#[test]
fn a_frame_is_due_when_its_time_has_elapsed() {
    let mut data = FrameData::new();
    assert!(!data.frame());
    data.elapsed(FrameParts(982));
    // 982 parts snap to a whole frame.
    assert!(data.frame());
    assert!(!data.frame());
    data.elapsed(FrameParts(700));
    assert!(!data.frame());
    data.elapsed(FrameParts(283));
    // 983 parts are a frame within the margin: nothing is left over.
    assert!(data.frame());
    assert!(!data.frame());
    data.elapsed(FrameParts(2100));
    // 2100 parts snap to two frames.
    assert!(data.frame());
    assert!(data.frame());
    assert!(!data.frame());
    data.elapsed(FrameParts(3500));
    assert!(data.frame());
    assert!(data.frame());
    assert!(data.frame());
    assert!(!data.frame());
    data.elapsed(FrameParts(483));
    // 500 left over and 483 more are 983.
    assert!(data.frame());
    assert!(!FrameData::default().frame());
}

#[test]
fn frame_parts_hold_whole_frames() {
    let mut time = FrameParts(2500);
    assert_eq!(time.full_frames(), 2);
    assert!(time.has_frame());
    time.deduct_frame();
    assert_eq!(time, FrameParts(1500));
    assert!(time.try_deduct_frame());
    assert_eq!(time, FrameParts(500));
    assert!(!time.has_frame());
    assert!(!time.try_deduct_frame());
    assert_eq!(time, FrameParts(500));
    time.deduct_frame();
    assert_eq!(time, FrameParts(0));
    assert_eq!(parts(1.0 / 60.0), FrameParts(1000));
    assert_eq!(parts(1.0), FrameParts(60000));
}

/// A display that refreshes at its own rate, and a game that updates once
/// for each frame that is due.
struct Monitor {
    refresh_rate: f64,
    system_time: f64,
    seed: u64,
    last_vsync: u64,
    frame_updates: u64,
    total_updates: u64,
    double_updates: u64,
    missed_updates: u64,
}

impl Monitor {
    fn fuzzy(&mut self) -> f64 {
        self.seed = self.seed.wrapping_mul(6364136223846793005).wrapping_add(1442695040888963407);
        let unit = (self.seed >> 11) as f64 / (1u64 << 53) as f64;
        (unit * 2.0 - 1.0) * (1.0 / 60.0 * 0.005)
    }

    fn pass(&mut self, time: f64, weight: f64) {
        let jitter = self.fuzzy() * weight;
        self.system_time += f64::max(0.0, time + jitter);
    }

    fn display(&mut self) {
        self.pass(0.000001, 1.0);
        let current = (self.system_time * self.refresh_rate).round() as u64;
        if self.last_vsync != current {
            self.missed_updates += (current - 1).saturating_sub(self.last_vsync);
            if self.frame_updates > 1 {
                self.double_updates += 1;
            }
            self.last_vsync = current;
            self.frame_updates = 0;
        }
    }
}

#[test]
fn run_simulation() {
    let mut monitor = Monitor {
        refresh_rate: 144.0,
        system_time: 1234.5,
        seed: 7,
        last_vsync: 0,
        frame_updates: 0,
        total_updates: 0,
        double_updates: 0,
        missed_updates: 0,
    };
    monitor.last_vsync = (monitor.system_time * monitor.refresh_rate).round() as u64;
    let first_vsync = monitor.last_vsync;
    let started = monitor.system_time;
    let mut frames = FrameData::new();
    let mut previous = monitor.system_time;
    while monitor.total_updates < 10000 {
        let now = monitor.system_time;
        frames.elapsed(parts(now - previous));
        previous = now;
        while frames.frame() || monitor.total_updates == 0 {
            monitor.pass(0.00001, 0.01);
            monitor.total_updates += 1;
            monitor.frame_updates += 1;
        }
        monitor.pass(0.005, 0.01);
        monitor.display();
        monitor.pass(0.000001, 0.00001);
    }
    let game_time = monitor.total_updates as f64 / 60.0;
    let system_time = monitor.system_time - started;
    println!(
        "Total updates: {}\nTotal vsyncs: {}\nTotal double updates: {}\nTotal skipped renders: {}\nGame time: {game_time}\nSystem time: {system_time}",
        monitor.total_updates,
        monitor.last_vsync - first_vsync,
        monitor.double_updates,
        monitor.missed_updates,
    );
    assert!(monitor.total_updates >= 10000);
    // The game keeps the pace of the clock, sixty updates for each second. A
    // frame may be taken up to the error margin early, so the game may run
    // ahead by that share and no more.
    let margin = FRAME_PARTS_ERROR_MARGIN as f64 / PARTS_PER_FRAME as f64;
    assert!(game_time >= system_time - 0.1, "{game_time} / {system_time}");
    assert!(game_time <= system_time * (1.0 + margin) + 0.1, "{game_time} / {system_time}");
}
