//! The backend in a window of another compositor, and screenshots.
use vstd::prelude::*;

use crate::action::{Action, ActionView};
use crate::ewm::{Ewm, EwmView};
use crate::geometry::{Point, Rectangle, Size, Transform};
use crate::event::text_view;
use crate::input::{KeyEvent, KeyboardAction};
use crate::module::PointerLocation;
use crate::outputs::SCALE_ONE;
use crate::space::{Output, OutputHandle, OutputView, Placed, SpaceView, WindowHandle};
use crate::text::owned;

verus! {

/// The backend in a window; drawing is synchronous, so it has no state.
#[derive(Clone, Copy, Debug, PartialEq, Eq, Structural)]
pub struct WinitBackend {}

impl WinitBackend {
    /// The backend.
    pub fn new() -> (r: WinitBackend)
        ensures
            r == (WinitBackend {  }),
    {
        WinitBackend {  }
    }
}

impl Default for WinitBackend {
    fn default() -> (r: WinitBackend)
        ensures
            r == (WinitBackend {  }),
    {
        WinitBackend::new()
    }
}

/// The output that is the window. The picture is turned over, since the
/// renderer counts rows from the bottom.
pub open spec fn window_output(handle: OutputHandle, size: Size) -> OutputView {
    OutputView {
        handle,
        name: "winit"@,
        mode: size,
        transform: Transform::Flipped180,
        scale: SCALE_ONE,
        loc: Point { x: 0, y: 0 },
        size,
        zone: Rectangle::from_size_spec(size),
    }
}

impl EwmView {
    /// Every window of the space given this size.
    pub open spec fn configure_all(self, elements: Seq<Placed>, size: Size) -> EwmView
        decreases elements.len(),
    {
        if elements.len() == 0 {
            self
        } else {
            self.configure_all(elements.drop_last(), size).act(
                ActionView::Configure { window: elements.last().window, w: size.w, h: size.h },
            )
        }
    }

    /// The state after the window got another size.
    pub open spec fn window_resized(self, handle: OutputHandle, size: Size) -> EwmView {
        EwmView {
            space: self.space.change_output(
                handle,
                |o: OutputView| OutputView { mode: size, size, ..o },
            ),
            output_size: size,
            ..self
        }.configure_all(self.space.elements, size)
    }

    /// The state after the window got the focus, which goes on to the focused
    /// surface, or lost it, which releases the keys that are held down.
    pub open spec fn window_focused_is(self, focused: bool, pressed: Seq<u32>) -> EwmView {
        if focused {
            if self.id_windows.contains_key(self.focused_surface_id) {
                let surface = Some(self.id_windows[self.focused_surface_id]);
                EwmView { keyboard_focus: surface, ..self }.act(
                    ActionView::SetKeyboardFocus { surface },
                ).act(ActionView::SetTextInputFocus { surface })
            } else {
                self
            }
        } else if pressed.len() == 0 {
            self
        } else {
            EwmView {
                keyboard_focus: None,
                ..self.release_keys(pressed).act(ActionView::SetKeyboardFocus { surface: None })
            }
        }
    }

    /// The state after the window was opened.
    pub open spec fn window_opened(self, handle: OutputHandle, size: Size) -> EwmView {
        EwmView {
            space: SpaceView {
                outputs: self.space.outputs.push(window_output(handle, size)),
                ..self.space
            },
            output_size: size,
            ..self
        }.act(ActionView::MapOutput { output: handle, x: 0, y: 0 })
    }
}

impl Ewm {
    /// Takes up the window that is the only output.
    pub fn window_opened(&mut self, handle: OutputHandle, size: Size)
        ensures
            final(self)@ == old(self)@.window_opened(handle, size),
    {
        let ghost before = self@.space.outputs;
        let o: Output = Output {
            handle,
            name: owned("winit"),
            mode: size,
            transform: Transform::Flipped180,
            scale: SCALE_ONE,
            loc: Point { x: 0, y: 0 },
            size,
            zone: Rectangle::from_size(size),
        };
        self.space.outputs.push(o);
        proof {
            assert(o@ == window_output(handle, size));
            assert(self@.space.outputs =~= before.push(o@));
        }
        self.output_size = size;
        self.act(Action::MapOutput { output: handle, x: 0, y: 0 });
    }

    /// Takes up that the window got another size: every surface is told.
    pub fn window_resized(&mut self, handle: OutputHandle, size: Size)
        ensures
            final(self)@ == old(self)@.window_resized(handle, size),
    {
        let ghost before = self@;
        let ghost change = |o: OutputView| OutputView { mode: size, size, ..o };
        let ghost goal = before.space.change_output(handle, change).outputs;
        let mut i: usize = 0;
        while i < self.space.outputs.len()
            invariant
                i <= self.space.outputs@.len(),
                self.space.outputs@.len() == before.space.outputs.len(),
                before == old(self)@,
                change == (|o: OutputView| OutputView { mode: size, size, ..o }),
                goal == before.space.change_output(handle, change).outputs,
                self@ == (EwmView {
                    space: SpaceView { outputs: self@.space.outputs, ..before.space },
                    ..before
                }),
                forall|j: int| 0 <= j < i ==> #[trigger] self@.space.outputs[j] == goal[j],
                forall|j: int|
                    i <= j < before.space.outputs.len() ==> #[trigger] self@.space.outputs[j]
                        == before.space.outputs[j],
            decreases self.space.outputs@.len() - i,
        {
            let ghost prev = self@.space.outputs;
            proof {
                assert(self@.space.outputs[i as int] == before.space.outputs[i as int]);
            }
            if self.space.outputs[i].handle == handle {
                let o: Output = Output {
                    handle,
                    name: self.space.outputs[i].name.clone(),
                    mode: size,
                    transform: self.space.outputs[i].transform,
                    scale: self.space.outputs[i].scale,
                    loc: self.space.outputs[i].loc,
                    size,
                    zone: self.space.outputs[i].zone,
                };
                self.space.outputs[i] = o;
                proof {
                    assert(self@.space.outputs =~= prev.update(i as int, o@));
                }
            }
            i += 1;
        }
        proof {
            assert(self@.space.outputs =~= goal);
        }
        self.output_size = size;
        let ghost start = self@;
        let ghost elements = self@.space.elements;
        let mut k: usize = 0;
        proof {
            assert(elements.take(0) =~= Seq::<Placed>::empty());
        }
        while k < self.space.elements.len()
            invariant
                k <= elements.len(),
                elements == self.space.elements@,
                self@ == start.configure_all(elements.take(k as int), size),
                self@.space == start.space,
            decreases elements.len() - k,
        {
            let window: u64 = self.space.elements[k].window;
            proof {
                assert(elements.take(k + 1).drop_last() =~= elements.take(k as int));
                assert(elements.take(k + 1).last() == elements[k as int]);
            }
            self.act(Action::Configure { window, w: size.w, h: size.h });
            k += 1;
        }
        proof {
            assert(elements.take(k as int) =~= elements);
        }
    }

    /// Takes up that the window lost or got the focus. `pressed` are the keys
    /// that are held down.
    pub fn window_focus(&mut self, focused: bool, pressed: &Vec<u32>)
        ensures
            final(self)@ == old(self)@.window_focused_is(focused, pressed@),
    {
        if focused {
            let id: u32 = self.focused_surface_id;
            self.restore_focus(id);
        } else {
            self.release_all_keys(pressed);
        }
    }

    /// Takes the path of the screenshot that was asked for.
    pub fn take_screenshot_request(&mut self) -> (r: Option<String>)
        ensures
            text_view(r) == old(self)@.pending_screenshot,
            final(self)@ == (EwmView { pending_screenshot: None, ..old(self)@ }),
    {
        self.pending_screenshot.take()
    }
}

// ---------------------------------------------------------------------------
// The loop
// ---------------------------------------------------------------------------
/// An event of the window, or of the client that was started in it.
#[allow(inconsistent_fields)]
#[derive(Debug)]
pub enum WindowEvent {
    Resized { size: Size },
    CloseRequested,
    /// The window got or lost the focus, with the keys that are held down.
    Focus { focused: bool, pressed: Vec<u32> },
    /// A key was pressed or released; `layout` is the keyboard layout
    /// afterwards.
    Key { event: KeyEvent, layout: usize },
    /// The pointer is somewhere in the window.
    PointerMotionAbsolute { location: PointerLocation },
    /// A button was pressed or released, with the window under the pointer.
    PointerButton { pressed: bool, window: Option<WindowHandle> },
    /// The client exited.
    ClientExited,
}

/// The state of the loop.
#[derive(Debug)]
pub struct WindowLoop {
    pub running: bool,
    /// The output that the window is.
    pub output: OutputHandle,
    /// Where the next frame is to be saved.
    pub screenshot_path: Option<String>,
}

/// What is done with a frame.
#[derive(Debug)]
pub struct FrameStep {
    /// Save the frame to this file.
    pub capture: Option<String>,
    /// Show the frame.
    pub submit: bool,
}

/// Whether the loop goes on and the state after an event are these.
pub open spec fn window_handled(
    before: (bool, EwmView),
    output: OutputHandle,
    event: WindowEvent,
    after: (bool, EwmView),
) -> bool {
    let (running, e) = before;
    match event {
        WindowEvent::Resized { size } => after == (running, e.window_resized(output, size)),
        WindowEvent::CloseRequested | WindowEvent::ClientExited => after == (false, e),
        WindowEvent::Focus { focused, pressed } => after == (
            running,
            e.window_focused_is(focused, pressed@),
        ),
        WindowEvent::Key { event, layout } => exists|t: EwmView, action: KeyboardAction| #[trigger]
            e.key_handled(event, layout, t, action) && after == (
                running && !(action is Shutdown),
                t,
            ),
        WindowEvent::PointerMotionAbsolute { location } => after == (
            running,
            e.pointer_moved(location),
        ),
        WindowEvent::PointerButton { pressed, window } => after == (
            running,
            e.button(pressed, window),
        ),
    }
}

impl WindowLoop {
    /// A loop that runs, for the output with this handle.
    pub fn new(output: OutputHandle) -> (r: WindowLoop)
        ensures
            r.running,
            r.output == output,
            r.screenshot_path is None,
    {
        WindowLoop { running: true, output, screenshot_path: None }
    }

    fn handle_key(&mut self, ewm: &mut Ewm, event: &KeyEvent, layout: usize)
        ensures
            final(self).output == old(self).output,
            final(self).screenshot_path == old(self).screenshot_path,
            exists|t: EwmView, action: KeyboardAction| #[trigger]
                old(ewm)@.key_handled(*event, layout, t, action) && (
                    final(self).running,
                    final(ewm)@,
                ) == (old(self).running && !(action is Shutdown), t),
    {
        let action: KeyboardAction = ewm.handle_keyboard_event(event, layout);
        proof {
            assert(old(ewm)@.key_handled(*event, layout, ewm@, action));
        }
        if action == KeyboardAction::Shutdown {
            self.running = false;
        }
    }

    /// Takes up an event. The loop ends when the window is closed, the client
    /// exits, or the kill combination is pressed.
    pub fn handle_event(&mut self, ewm: &mut Ewm, event: WindowEvent)
        ensures
            window_handled(
                (old(self).running, old(ewm)@),
                old(self).output,
                event,
                (final(self).running, final(ewm)@),
            ),
            final(self).output == old(self).output,
            final(self).screenshot_path == old(self).screenshot_path,
    {
        match event {
            WindowEvent::Resized { size } => {
                ewm.window_resized(self.output, size);
            },
            WindowEvent::CloseRequested | WindowEvent::ClientExited => {
                self.running = false;
            },
            WindowEvent::Focus { focused, pressed } => {
                ewm.window_focus(focused, &pressed);
            },
            WindowEvent::Key { event, layout } => {
                self.handle_key(ewm, &event, layout);
            },
            WindowEvent::PointerMotionAbsolute { location } => {
                // Every frame is drawn anew in any case.
                let _ = ewm.handle_pointer_motion_absolute(location);
            },
            WindowEvent::PointerButton { pressed, window } => {
                ewm.handle_pointer_button(pressed, window);
            },
        }
    }

    /// Decides what is done with a frame: it is saved where that was asked
    /// for, and otherwise shown, if anything changed. A frame that could not
    /// be drawn is neither, and the request stays.
    pub fn frame_done(&mut self, drawn: bool, damaged: bool) -> (r: FrameStep)
        ensures
            final(self).running == old(self).running,
            final(self).output == old(self).output,
            if drawn {
                &&& r.capture == old(self).screenshot_path
                &&& final(self).screenshot_path is None
                &&& r.submit == (damaged && old(self).screenshot_path is None)
            } else {
                &&& r.capture is None
                &&& !r.submit
                &&& final(self).screenshot_path == old(self).screenshot_path
            },
    {
        if drawn {
            let capture: Option<String> = self.screenshot_path.take();
            let submit: bool = damaged && capture.is_none();
            FrameStep { capture, submit }
        } else {
            FrameStep { capture: None, submit: false }
        }
    }

    /// Ends a turn: a screenshot that was asked for meanwhile is taken of the
    /// next frame.
    pub fn end_turn(&mut self, ewm: &mut Ewm)
        ensures
            final(self).running == old(self).running,
            final(self).output == old(self).output,
            text_view(final(self).screenshot_path) == (
            if old(ewm)@.pending_screenshot is Some {
                old(ewm)@.pending_screenshot
            } else {
                text_view(old(self).screenshot_path)
            }),
            final(ewm)@ == (EwmView { pending_screenshot: None, ..old(ewm)@ }),
    {
        if let Some(path) = ewm.take_screenshot_request() {
            self.screenshot_path = Some(path);
        }
    }
}

// ---------------------------------------------------------------------------
// Screenshots
// ---------------------------------------------------------------------------
/// The red, green and blue of the pixel at this place of a framebuffer whose
/// pixels are blue, green, red and a byte that is not used; nothing where the
/// framebuffer ends before.
pub open spec fn rgb_at(pixels: Seq<u8>, at: int) -> Seq<u8> {
    if at + 4 <= pixels.len() {
        seq![pixels[at + 2], pixels[at + 1], pixels[at]]
    } else {
        Seq::empty()
    }
}

/// The first `n` pixels of a row.
pub open spec fn rgb_row(pixels: Seq<u8>, row_start: int, n: nat) -> Seq<u8>
    decreases n,
{
    if n == 0 {
        Seq::empty()
    } else {
        rgb_row(pixels, row_start, (n - 1) as nat) + rgb_at(pixels, row_start + (n - 1) * 4)
    }
}

/// The last `n` of `height` rows, the last one first.
pub open spec fn rgb_rows(pixels: Seq<u8>, width: nat, height: nat, n: nat) -> Seq<u8>
    decreases n,
{
    if n == 0 {
        Seq::empty()
    } else {
        rgb_rows(pixels, width, height, (n - 1) as nat) + rgb_row(
            pixels,
            (height - n) * (width * 4),
            width,
        )
    }
}

/// The red, green and blue of a framebuffer, with its rows turned over.
pub fn framebuffer_to_rgb(pixels: &Vec<u8>, width: usize, height: usize) -> (r: Vec<u8>)
    requires
        width * 4 <= usize::MAX,
        height * (width * 4) <= usize::MAX,
    ensures
        r@ == rgb_rows(pixels@, width as nat, height as nat, height as nat),
{
    let mut r: Vec<u8> = Vec::new();
    let mut done: usize = 0;
    while done < height
        invariant
            width * 4 <= usize::MAX,
            height * (width * 4) <= usize::MAX,
            done <= height,
            r@ == rgb_rows(pixels@, width as nat, height as nat, done as nat),
        decreases height - done,
    {
        let y: usize = height - 1 - done;
        proof {
            assert((y + 1) * (width * 4) <= height * (width * 4)) by (nonlinear_arith)
                requires
                    y + 1 <= height,
                    0 <= width,
            ;
            assert((y + 1) * (width * 4) == y * (width * 4) + width * 4) by (nonlinear_arith);
        }
        let row_start: usize = y * (width * 4);
        let ghost before = r@;
        let mut x: usize = 0;
        proof {
            assert(before =~= before + rgb_row(pixels@, row_start as int, 0));
        }
        while x < width
            invariant
                x <= width,
                row_start + width * 4 <= usize::MAX,
                r@ == before + rgb_row(pixels@, row_start as int, x as nat),
            decreases width - x,
        {
            let at: usize = row_start + x * 4;
            let ghost mid = r@;
            if pixels.len() >= 4 && at <= pixels.len() - 4 {
                r.push(pixels[at + 2]);
                r.push(pixels[at + 1]);
                r.push(pixels[at]);
            }
            proof {
                assert(r@ =~= mid + rgb_at(pixels@, at as int));
                assert(r@ =~= before + rgb_row(pixels@, row_start as int, (x + 1) as nat));
            }
            x += 1;
        }
        proof {
            assert(r@ =~= rgb_rows(pixels@, width as nat, height as nat, (done + 1) as nat));
        }
        done += 1;
    }
    r
}

/// `image::RgbImage::from_raw`, and what the image then holds: it is made
/// exactly where the data has at least three bytes for every pixel, and keeps
/// the data.
#[verifier::external_body]
fn rgb_image(width: u32, height: u32, data: Vec<u8>) -> (r: Option<Vec<u8>>)
    ensures
        match r {
            Some(d) => d@ == data@ && 3 * width <= usize::MAX && 3 * width * height <= data@.len(),
            None => 3 * width > usize::MAX || 3 * width * height > data@.len(),
        },
{
    match image::RgbImage::from_raw(width, height, data) {
        Some(img) => Some(img.into_raw()),
        None => None,
    }
}

/// The image of a framebuffer of this size, as the bytes of its pixels; none
/// where the framebuffer holds too little.
pub fn capture_screenshot(pixels: &Vec<u8>, size: Size) -> (r: Option<Vec<u8>>)
    requires
        size.w >= 0,
        size.h >= 0,
        size.w * 4 <= usize::MAX,
        size.h * (size.w * 4) <= usize::MAX,
    ensures
        ({
            let rgb = rgb_rows(pixels@, size.w as nat, size.h as nat, size.h as nat);
            match r {
                Some(d) => d@ == rgb && 3 * size.w <= usize::MAX && 3 * size.w * size.h
                    <= rgb.len(),
                None => 3 * size.w > usize::MAX || 3 * size.w * size.h > rgb.len(),
            }
        }),
{
    let rgb: Vec<u8> = framebuffer_to_rgb(pixels, size.w as usize, size.h as usize);
    rgb_image(size.w as u32, size.h as u32, rgb)
}

proof fn lemma_row_full(pixels: Seq<u8>, row_start: int, n: nat, x: int)
    requires
        0 <= row_start,
        row_start + n * 4 <= pixels.len(),
        0 <= x < n,
    ensures
        rgb_row(pixels, row_start, n).len() == 3 * n,
        rgb_row(pixels, row_start, n)[3 * x] == pixels[row_start + 4 * x + 2],
        rgb_row(pixels, row_start, n)[3 * x + 1] == pixels[row_start + 4 * x + 1],
        rgb_row(pixels, row_start, n)[3 * x + 2] == pixels[row_start + 4 * x],
    decreases n,
{
    let m = (n - 1) as nat;
    lemma_row_len(pixels, row_start, m);
    if x < m {
        lemma_row_full(pixels, row_start, m, x);
    }
}

proof fn lemma_row_len(pixels: Seq<u8>, row_start: int, n: nat)
    requires
        0 <= row_start,
        row_start + n * 4 <= pixels.len(),
    ensures
        rgb_row(pixels, row_start, n).len() == 3 * n,
    decreases n,
{
    if n > 0 {
        lemma_row_len(pixels, row_start, (n - 1) as nat);
    }
}

proof fn lemma_rows_len(pixels: Seq<u8>, width: nat, height: nat, n: nat)
    requires
        n <= height,
        height * (width * 4) <= pixels.len(),
    ensures
        rgb_rows(pixels, width, height, n).len() == 3 * width * n,
    decreases n,
{
    if n > 0 {
        lemma_rows_len(pixels, width, height, (n - 1) as nat);
        assert((height - n) * (width * 4) + width * 4 <= height * (width * 4)) by (nonlinear_arith)
            requires
                1 <= n <= height,
        ;
        assert(0 <= (height - n) * (width * 4)) by (nonlinear_arith)
            requires
                n <= height,
        ;
        lemma_row_len(pixels, (height - n) * (width * 4), width);
        assert(3 * width * (n - 1) + 3 * width == 3 * width * n) by (nonlinear_arith)
            requires
                n >= 1,
        ;
    } else {
        assert(3 * width * 0 == 0) by (nonlinear_arith);
    }
}

/// A framebuffer that holds all its pixels gives an image with three bytes
/// for each.
pub proof fn lemma_screenshot_complete(pixels: Seq<u8>, width: nat, height: nat)
    requires
        height * (width * 4) <= pixels.len(),
    ensures
        rgb_rows(pixels, width, height, height).len() == 3 * width * height,
{
    lemma_rows_len(pixels, width, height, height);
}

/// The image is the framebuffer turned over, with red and blue exchanged: row
/// `y` of the image is row `height - 1 - y` of the framebuffer.
pub proof fn lemma_screenshot_turned_over(
    pixels: Seq<u8>,
    width: nat,
    height: nat,
    x: int,
    y: int,
)
    requires
        height * (width * 4) <= pixels.len(),
        0 <= x < width,
        0 <= y < height,
    ensures
        ({
            let rgb = rgb_rows(pixels, width, height, height);
            let to = 3 * width * y + 3 * x;
            let from = (height - 1 - y) * (width * 4) + 4 * x;
            rgb[to] == pixels[from + 2] && rgb[to + 1] == pixels[from + 1] && rgb[to + 2]
                == pixels[from]
        }),
{
    lemma_row_turned_over(pixels, width, height, height, x, y);
}

proof fn lemma_row_turned_over(
    pixels: Seq<u8>,
    width: nat,
    height: nat,
    n: nat,
    x: int,
    y: int,
)
    requires
        height * (width * 4) <= pixels.len(),
        0 <= x < width,
        0 <= y < n <= height,
    ensures
        ({
            let rgb = rgb_rows(pixels, width, height, n);
            let to = 3 * width * y + 3 * x;
            let from = (height - 1 - y) * (width * 4) + 4 * x;
            rgb[to] == pixels[from + 2] && rgb[to + 1] == pixels[from + 1] && rgb[to + 2]
                == pixels[from]
        }),
    decreases n,
{
    let m = (n - 1) as nat;
    lemma_rows_len(pixels, width, height, m);
    assert(0 <= 3 * width * y) by (nonlinear_arith)
        requires
            0 <= y,
    ;
    if y < m {
        lemma_row_turned_over(pixels, width, height, m, x, y);
        assert(3 * width * y + 3 * x + 2 < 3 * width * m) by (nonlinear_arith)
            requires
                y + 1 <= m,
                0 <= x < width,
        ;
    } else {
        let start = (height - 1 - y) * (width * 4);
        assert(start + width * 4 <= height * (width * 4)) by (nonlinear_arith)
            requires
                start == (height - 1 - y) * (width * 4),
                0 <= y,
        ;
        assert(0 <= start) by (nonlinear_arith)
            requires
                start == (height - 1 - y) * (width * 4),
                y < height,
        ;
        lemma_row_full(pixels, start, width, x);
    }
}

} // verus!
