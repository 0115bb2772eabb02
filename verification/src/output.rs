//! Output configuration, per-output state, and the choice of video modes.
use vstd::prelude::*;

use crate::geometry::{Size, Transform};
use crate::redraw::RedrawState;

verus! {

/// Refresh interval, in microseconds, of an output whose rate is not known.
pub const DEFAULT_REFRESH_INTERVAL_US: u64 = 16_667;

/// Shortest time, in microseconds, that stands in for a vertical blank.
pub const MIN_ESTIMATED_VBLANK_US: u64 = 1_000;

/// Desired output configuration, as Emacs gives it.
///
/// The scale is the bit pattern of a double and is only carried.
#[derive(Debug, Clone, Copy)]
pub struct OutputConfig {
    /// Width, height and refresh rate; without it the preferred mode is used.
    pub mode: Option<(i32, i32, Option<i32>)>,
    /// Place in the global space; without it outputs stand side by side.
    pub position: Option<(i32, i32)>,
    pub scale: Option<u64>,
    pub transform: Option<Transform>,
    pub enabled: bool,
}

impl OutputConfig {
    /// The configuration of an output that none was given for.
    pub open spec fn default_spec() -> OutputConfig {
        OutputConfig { mode: None, position: None, scale: None, transform: None, enabled: true }
    }
}

impl Default for OutputConfig {
    fn default() -> (r: OutputConfig)
        ensures
            r == OutputConfig::default_spec(),
    {
        OutputConfig { mode: None, position: None, scale: None, transform: None, enabled: true }
    }
}

/// What an output configuration command asks to change.
#[derive(Debug, Clone, Copy, PartialEq, Eq, Structural)]
pub struct OutputChange {
    pub x: Option<i32>,
    pub y: Option<i32>,
    pub width: Option<i32>,
    pub height: Option<i32>,
    pub refresh: Option<i32>,
    pub scale: Option<u64>,
    pub transform: Option<i32>,
    pub enabled: Option<bool>,
}

/// The transform of a number, as `wl_output` numbers them; any other number
/// stands for the normal one.
pub open spec fn transform_of_int(n: i32) -> Transform {
    if n == 1 {
        Transform::Rotated90
    } else if n == 2 {
        Transform::Rotated180
    } else if n == 3 {
        Transform::Rotated270
    } else if n == 4 {
        Transform::Flipped
    } else if n == 5 {
        Transform::Flipped90
    } else if n == 6 {
        Transform::Flipped180
    } else if n == 7 {
        Transform::Flipped270
    } else {
        Transform::Normal
    }
}

/// The number of a transform.
pub open spec fn int_of_transform(t: Transform) -> i32 {
    match t {
        Transform::Normal => 0,
        Transform::Rotated90 => 1,
        Transform::Rotated180 => 2,
        Transform::Rotated270 => 3,
        Transform::Flipped => 4,
        Transform::Flipped90 => 5,
        Transform::Flipped180 => 6,
        Transform::Flipped270 => 7,
    }
}

/// The transform of a number.
pub fn int_to_transform(n: i32) -> (t: Transform)
    ensures
        t == transform_of_int(n),
{
    match n {
        1 => Transform::Rotated90,
        2 => Transform::Rotated180,
        3 => Transform::Rotated270,
        4 => Transform::Flipped,
        5 => Transform::Flipped90,
        6 => Transform::Flipped180,
        7 => Transform::Flipped270,
        _ => Transform::Normal,
    }
}

/// The number of a transform.
pub fn transform_to_int(t: Transform) -> (n: i32)
    ensures
        n == int_of_transform(t),
{
    match t {
        Transform::Normal => 0,
        Transform::Rotated90 => 1,
        Transform::Rotated180 => 2,
        Transform::Rotated270 => 3,
        Transform::Flipped => 4,
        Transform::Flipped90 => 5,
        Transform::Flipped180 => 6,
        Transform::Flipped270 => 7,
    }
}

/// A transform is the one of its number, and 0 to 7 are the numbers of
/// transforms.
pub proof fn lemma_transform_numbers(t: Transform, n: i32)
    ensures
        transform_of_int(int_of_transform(t)) == t,
        0 <= n <= 7 ==> int_of_transform(transform_of_int(n)) == n,
{
}

impl OutputConfig {
    /// The configuration with a change taken up, where the output stands at
    /// `current` now. What the change does not name stays as it was.
    pub open spec fn merge_spec(self, change: OutputChange, current: (i32, i32)) -> OutputConfig {
        OutputConfig {
            mode: match (change.width, change.height) {
                (Some(w), Some(h)) => Some((w, h, change.refresh)),
                _ => self.mode,
            },
            position: if change.x is Some || change.y is Some {
                Some(
                    (
                        match change.x {
                            Some(x) => x,
                            None => current.0,
                        },
                        match change.y {
                            Some(y) => y,
                            None => current.1,
                        },
                    ),
                )
            } else {
                self.position
            },
            scale: match change.scale {
                Some(s) => Some(s),
                None => self.scale,
            },
            transform: match change.transform {
                Some(t) => Some(transform_of_int(t)),
                None => self.transform,
            },
            enabled: match change.enabled {
                Some(e) => e,
                None => self.enabled,
            },
        }
    }

    /// Takes up a change, where the output stands at `current` now.
    pub fn merge(self, change: &OutputChange, current: (i32, i32)) -> (r: OutputConfig)
        ensures
            r == self.merge_spec(*change, current),
    {
        let mut config: OutputConfig = self;
        if let (Some(w), Some(h)) = (change.width, change.height) {
            config.mode = Some((w, h, change.refresh));
        }
        if change.x.is_some() || change.y.is_some() {
            let x: i32 = match change.x {
                Some(x) => x,
                None => current.0,
            };
            let y: i32 = match change.y {
                Some(y) => y,
                None => current.1,
            };
            config.position = Some((x, y));
        }
        if let Some(s) = change.scale {
            config.scale = Some(s);
        }
        if let Some(t) = change.transform {
            config.transform = Some(int_to_transform(t));
        }
        if let Some(e) = change.enabled {
            config.enabled = e;
        }
        config
    }
}

/// A change that names nothing changes nothing.
pub proof fn lemma_empty_change(config: OutputConfig, change: OutputChange, current: (i32, i32))
    requires
        change.x is None && change.y is None && change.scale is None && change.transform is None
            && change.enabled is None,
        change.width is None || change.height is None,
    ensures
        config.merge_spec(change, current) == config,
{
}

/// Taking up the same change twice is taking it up once.
pub proof fn lemma_merge_idempotent(
    config: OutputConfig,
    change: OutputChange,
    current: (i32, i32),
)
    ensures
        config.merge_spec(change, current).merge_spec(change, current) == config.merge_spec(
            change,
            current,
        ),
{
}

/// Whether an output has shown a frame of the lock screen.
#[derive(PartialEq, Eq, Clone, Copy, Debug, Structural)]
pub enum LockRenderState {
    /// The output shows normal content, or has not drawn the lock screen yet.
    Unlocked,
    /// The output has drawn the lock screen.
    Locked,
}

impl Default for LockRenderState {
    fn default() -> (r: LockRenderState)
        ensures
            r == LockRenderState::Unlocked,
    {
        LockRenderState::Unlocked
    }
}

/// State of the session lock. A locker is the number by which the display
/// server side knows the client's lock object.
#[derive(PartialEq, Eq, Clone, Copy, Debug, Structural)]
pub enum LockState {
    /// The session is not locked.
    Unlocked,
    /// A lock was requested; not all outputs have drawn the lock screen.
    Locking(u64),
    /// The session is locked.
    Locked(u64),
}

impl Default for LockState {
    fn default() -> (r: LockState)
        ensures
            r == LockState::Unlocked,
    {
        LockState::Unlocked
    }
}

/// State of one output.
#[derive(Clone, Copy, Debug)]
pub struct OutputState {
    pub redraw_state: RedrawState,
    /// In microseconds, for the timer that stands in for a vertical blank.
    pub refresh_interval_us: u64,
    /// The surface of the lock screen on this output.
    pub lock_surface: Option<u64>,
    pub lock_render_state: LockRenderState,
    /// Size of the background that is shown until the lock surface is.
    pub lock_background: (i32, i32),
    /// Counts the refresh cycles, so that a surface gets one frame callback
    /// in each.
    pub frame_callback_sequence: u32,
}

impl OutputState {
    /// The state of an output that was just connected.
    pub open spec fn new_spec(refresh_interval_us: u64, size: (i32, i32)) -> OutputState {
        OutputState {
            redraw_state: RedrawState::Queued,
            refresh_interval_us,
            lock_surface: None,
            lock_render_state: LockRenderState::Unlocked,
            lock_background: size,
            frame_callback_sequence: 0,
        }
    }

    /// The state of an output that was just connected: its first redraw is
    /// queued.
    pub fn new(refresh_interval_us: u64, size: (i32, i32)) -> (r: OutputState)
        ensures
            r == OutputState::new_spec(refresh_interval_us, size),
    {
        OutputState {
            redraw_state: RedrawState::Queued,
            refresh_interval_us,
            lock_surface: None,
            lock_render_state: LockRenderState::Unlocked,
            lock_background: size,
            frame_callback_sequence: 0,
        }
    }

    /// Gives the background of the lock screen another size.
    pub fn resize_lock_buffer(&mut self, size: (i32, i32))
        ensures
            *final(self) == (OutputState { lock_background: size, ..*old(self) }),
    {
        self.lock_background = size;
    }

    /// The state after a request to redraw.
    pub open spec fn queued(self) -> OutputState {
        OutputState { redraw_state: self.redraw_state.queue_redraw_spec(), ..self }
    }

    /// The state without a lock screen.
    pub open spec fn unlocked(self) -> OutputState {
        OutputState {
            lock_surface: None,
            lock_render_state: LockRenderState::Unlocked,
            ..self
        }
    }
}

impl Default for OutputState {
    fn default() -> (r: OutputState)
        ensures
            r == (OutputState {
                redraw_state: RedrawState::Idle,
                ..OutputState::new_spec(DEFAULT_REFRESH_INTERVAL_US, (1920, 1080))
            }),
    {
        OutputState {
            redraw_state: RedrawState::Idle,
            refresh_interval_us: DEFAULT_REFRESH_INTERVAL_US,
            lock_surface: None,
            lock_render_state: LockRenderState::Unlocked,
            lock_background: (1920, 1080),
            frame_callback_sequence: 0,
        }
    }
}

// ---------------------------------------------------------------------------
// Video modes
// ---------------------------------------------------------------------------
/// A video mode of a connector.
#[derive(Clone, Copy, Debug, PartialEq, Eq, Structural)]
pub struct VideoMode {
    pub width: u16,
    pub height: u16,
    /// Vertical refresh rate in hertz.
    pub vrefresh: u32,
    pub preferred: bool,
}

/// The time between two vertical blanks, in microseconds.
pub open spec fn refresh_interval_spec(vrefresh: u32) -> u64 {
    if vrefresh > 0 {
        1_000_000u64 / (vrefresh as u64)
    } else {
        DEFAULT_REFRESH_INTERVAL_US
    }
}

/// The time between two vertical blanks, in microseconds.
pub fn refresh_interval_us(vrefresh: u32) -> (r: u64)
    ensures
        r == refresh_interval_spec(vrefresh),
{
    if vrefresh > 0 {
        1_000_000u64 / vrefresh as u64
    } else {
        DEFAULT_REFRESH_INTERVAL_US
    }
}

/// How long the timer runs that stands in for a vertical blank: a refresh
/// interval, and no less than the shortest time.
pub open spec fn timer_spec(refresh_interval_us: u64) -> u64 {
    if refresh_interval_us >= MIN_ESTIMATED_VBLANK_US {
        refresh_interval_us
    } else {
        MIN_ESTIMATED_VBLANK_US
    }
}

/// How long the timer runs that stands in for a vertical blank.
pub fn estimated_vblank_us(refresh_interval_us: u64) -> (r: u64)
    ensures
        r == timer_spec(refresh_interval_us),
{
    if refresh_interval_us >= MIN_ESTIMATED_VBLANK_US {
        refresh_interval_us
    } else {
        MIN_ESTIMATED_VBLANK_US
    }
}

/// The mode to start with: the first preferred one, or else the first.
pub open spec fn initial_mode_spec(modes: Seq<VideoMode>) -> Option<VideoMode> {
    if exists|i: int| 0 <= i < modes.len() && (#[trigger] modes[i]).preferred {
        let i = choose|i: int|
            0 <= i < modes.len() && (#[trigger] modes[i]).preferred && forall|j: int|
                0 <= j < i ==> !(#[trigger] modes[j]).preferred;
        Some(modes[i])
    } else if modes.len() > 0 {
        Some(modes[0])
    } else {
        None
    }
}

/// The mode to start with: the first preferred one, or else the first.
pub fn initial_mode(modes: &Vec<VideoMode>) -> (r: Option<VideoMode>)
    ensures
        r == initial_mode_spec(modes@),
        r is None <==> modes@.len() == 0,
{
    let mut i: usize = 0;
    while i < modes.len()
        invariant
            i <= modes@.len(),
            forall|j: int| 0 <= j < i ==> !(#[trigger] modes@[j]).preferred,
        decreases modes@.len() - i,
    {
        if modes[i].preferred {
            proof {
                let k = choose|k: int|
                    0 <= k < modes@.len() && (#[trigger] modes@[k]).preferred && forall|j: int|
                        0 <= j < k ==> !(#[trigger] modes@[j]).preferred;
                assert(modes@[i as int].preferred);
                assert(k == i) by {
                    if k < i {
                        assert(modes@[k].preferred);
                    }
                    if i < k {
                        assert(!modes@[i as int].preferred);
                    }
                }
            }
            return Some(modes[i]);
        }
        i += 1;
    }
    if modes.len() > 0 {
        Some(modes[0])
    } else {
        None
    }
}

/// Whether the mode has this size.
pub open spec fn mode_has_size(m: VideoMode, width: i32, height: i32) -> bool {
    m.width == width && m.height == height
}

/// How well a mode fits a wanted refresh rate: one within 1 Hz of it ranks
/// above the others, and otherwise the faster ranks higher.
pub open spec fn mode_rank(m: VideoMode, refresh: Option<i32>) -> int {
    match refresh {
        Some(target) if -2 < m.vrefresh - target < 2 => 1000 + m.vrefresh,
        _ => m.vrefresh as int,
    }
}

/// The mode of this size that fits best; of equals the last one.
pub open spec fn best_mode(
    modes: Seq<VideoMode>,
    width: i32,
    height: i32,
    refresh: Option<i32>,
) -> Option<VideoMode>
    decreases modes.len(),
{
    if modes.len() == 0 {
        None
    } else {
        let m = modes.last();
        let before = best_mode(modes.drop_last(), width, height, refresh);
        if !mode_has_size(m, width, height) {
            before
        } else {
            match before {
                Some(b) if mode_rank(b, refresh) > mode_rank(m, refresh) => before,
                _ => Some(m),
            }
        }
    }
}

fn rank(m: &VideoMode, refresh: Option<i32>) -> (r: i64)
    ensures
        r == mode_rank(*m, refresh),
{
    if let Some(target) = refresh {
        let difference: i64 = m.vrefresh as i64 - target as i64;
        if -2 < difference && difference < 2 {
            return 1000 + m.vrefresh as i64;
        }
    }
    m.vrefresh as i64
}

/// The mode of this size that fits the wanted refresh rate best.
pub fn choose_mode(modes: &Vec<VideoMode>, width: i32, height: i32, refresh: Option<i32>) -> (r:
    Option<VideoMode>)
    ensures
        r == best_mode(modes@, width, height, refresh),
{
    let mut best: Option<VideoMode> = None;
    let mut i: usize = 0;
    proof {
        assert(modes@.take(0) =~= Seq::<VideoMode>::empty());
    }
    while i < modes.len()
        invariant
            i <= modes@.len(),
            best == best_mode(modes@.take(i as int), width, height, refresh),
        decreases modes@.len() - i,
    {
        let m: VideoMode = modes[i];
        proof {
            assert(modes@.take(i + 1).drop_last() =~= modes@.take(i as int));
            assert(modes@.take(i + 1).last() == m);
        }
        if m.width as i32 == width && m.height as i32 == height {
            match best {
                Some(b) => {
                    if !(rank(&b, refresh) > rank(&m, refresh)) {
                        best = Some(m);
                    }
                },
                None => {
                    best = Some(m);
                },
            }
        }
        i += 1;
    }
    proof {
        assert(modes@.take(i as int) =~= modes@);
    }
    best
}

/// A chosen mode is one of the list, has the wanted size, and none of that
/// size fits better; none is chosen only where none has the size.
pub proof fn lemma_best_mode(
    modes: Seq<VideoMode>,
    width: i32,
    height: i32,
    refresh: Option<i32>,
)
    ensures
        match best_mode(modes, width, height, refresh) {
            Some(m) => modes.contains(m) && mode_has_size(m, width, height) && forall|i: int|
                0 <= i < modes.len() && mode_has_size(#[trigger] modes[i], width, height)
                    ==> mode_rank(modes[i], refresh) <= mode_rank(m, refresh),
            None => forall|i: int|
                0 <= i < modes.len() ==> !mode_has_size(#[trigger] modes[i], width, height),
        },
    decreases modes.len(),
{
    if modes.len() > 0 {
        let rest = modes.drop_last();
        lemma_best_mode(rest, width, height, refresh);
        let n = modes.len() - 1;
        assert(modes[n] == modes.last());
        assert forall|i: int| 0 <= i < n implies #[trigger] modes[i] == rest[i] by {
        }
        match best_mode(rest, width, height, refresh) {
            Some(b) => {
                let k = choose|k: int| 0 <= k < rest.len() && rest[k] == b;
                assert(modes[k] == b);
            },
            None => {},
        }
    }
}

/// A mode's refresh rate in millihertz, as Emacs is told it.
pub open spec fn millihertz(vrefresh: u32) -> i32 {
    ((vrefresh * 1000) as u32) as i32
}

/// A refresh rate that can be given in millihertz.
pub open spec fn rate_fits(vrefresh: u32) -> bool {
    vrefresh * 1000 <= u32::MAX
}

/// A mode's refresh rate in millihertz.
pub fn refresh_mhz(vrefresh: u32) -> (r: i32)
    requires
        rate_fits(vrefresh),
    ensures
        r == millihertz(vrefresh),
{
    let mhz: u32 = vrefresh * 1000;
    mhz as i32
}

/// Size of a mode.
pub open spec fn mode_size(m: VideoMode) -> Size {
    Size { w: m.width as i32, h: m.height as i32 }
}

} // verus!
