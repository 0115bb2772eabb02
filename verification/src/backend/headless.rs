//! A backend without hardware: virtual outputs that count the frames drawn.
use vstd::prelude::*;

use crate::action::{Action, ActionView};
use crate::ewm::{Ewm, EwmView};
use crate::geometry::{Point, Rectangle, Size, Transform};
use crate::output::{OutputConfig, OutputState, DEFAULT_REFRESH_INTERVAL_US};
use crate::outputs::{Measured, SCALE_ONE};
use crate::redraw::RedrawState;
use crate::space::{Output, OutputHandle, OutputView};
use crate::text::{owned, same_text, views};

verus! {

/// A virtual output.
#[derive(Debug)]
pub struct VirtualOutput {
    pub name: String,
    pub output: OutputHandle,
    pub size: Size,
    /// How many frames were drawn.
    pub render_count: usize,
}

/// What a [`VirtualOutput`] holds.
#[verifier::ext_equal]
pub struct VirtualOutputView {
    pub name: Seq<char>,
    pub output: OutputHandle,
    pub size: Size,
    pub render_count: usize,
}

impl View for VirtualOutput {
    type V = VirtualOutputView;

    open spec fn view(&self) -> VirtualOutputView {
        VirtualOutputView {
            name: self.name@,
            output: self.output,
            size: self.size,
            render_count: self.render_count,
        }
    }
}

/// The headless backend.
#[derive(Debug)]
pub struct HeadlessBackend {
    pub outputs: Vec<VirtualOutput>,
}

/// What a list of virtual outputs holds.
pub open spec fn virtual_views(v: Seq<VirtualOutput>) -> Seq<VirtualOutputView> {
    Seq::new(v.len(), |i: int| v[i]@)
}

impl View for HeadlessBackend {
    type V = Seq<VirtualOutputView>;

    open spec fn view(&self) -> Seq<VirtualOutputView> {
        virtual_views(self.outputs@)
    }
}

/// The first virtual output with this name.
pub open spec fn virtual_named(v: Seq<VirtualOutputView>, name: Seq<char>) -> Option<
    VirtualOutputView,
>
    decreases v.len(),
{
    if v.len() == 0 {
        None
    } else if v[0].name == name {
        Some(v[0])
    } else {
        virtual_named(v.drop_first(), name)
    }
}

/// The virtual outputs with other names.
pub open spec fn without_name(v: Seq<VirtualOutputView>, name: Seq<char>) -> Seq<
    VirtualOutputView,
> {
    v.filter(|o: VirtualOutputView| o.name != name)
}

/// One more frame drawn on the virtual output with this name.
pub open spec fn counted(v: Seq<VirtualOutputView>, name: Seq<char>) -> Seq<VirtualOutputView> {
    v.map_values(
        |o: VirtualOutputView|
            if o.name == name {
                VirtualOutputView { render_count: (o.render_count + 1) as usize, ..o }
            } else {
                o
            },
    )
}

/// No name occurs twice.
pub open spec fn names_unique(v: Seq<VirtualOutputView>) -> bool {
    forall|i: int, j: int|
        0 <= i < j < v.len() ==> (#[trigger] v[i]).name != (#[trigger] v[j]).name
}

/// Whether every count can still grow by `n`.
pub open spec fn counts_can_grow(v: Seq<VirtualOutputView>, n: int) -> bool {
    forall|i: int| 0 <= i < v.len() ==> (#[trigger] v[i]).render_count + n <= usize::MAX
}

/// Whether another frame of the outputs with this name can be counted.
pub open spec fn count_fits(v: Seq<VirtualOutputView>, name: Seq<char>) -> bool {
    forall|i: int|
        0 <= i < v.len() && (#[trigger] v[i]).name == name ==> v[i].render_count < usize::MAX
}

impl EwmView {
    /// Whether the output with this name is queued for a redraw.
    pub open spec fn is_queued(self, name: Seq<char>) -> bool {
        match self.space.output_named(name) {
            Some(o) => match self.state_of(o.handle) {
                Some(state) => state.redraw_state is Queued,
                None => false,
            },
            None => false,
        }
    }

    /// An output drawn: nothing is pending any more, and clients are told that
    /// a frame has passed.
    pub open spec fn virtual_frame(self, output: OutputHandle) -> EwmView {
        (match self.state_of(output) {
            Some(state) => self.set_output_state(
                output,
                OutputState { redraw_state: RedrawState::Idle, ..state },
            ),
            None => self,
        }).act(ActionView::SendFrames { output })
    }
}

/// The names of the virtual outputs that are queued for a redraw.
pub open spec fn queued_names(v: Seq<VirtualOutputView>, ewm: EwmView) -> Seq<Seq<char>>
    decreases v.len(),
{
    if v.len() == 0 {
        Seq::empty()
    } else {
        let before = queued_names(v.drop_last(), ewm);
        if ewm.is_queued(v.last().name) {
            before.push(v.last().name)
        } else {
            before
        }
    }
}

/// One virtual output drawn.
pub open spec fn render_one(
    s: (Seq<VirtualOutputView>, EwmView),
    name: Seq<char>,
) -> (Seq<VirtualOutputView>, EwmView) {
    match virtual_named(s.0, name) {
        Some(v) => (counted(s.0, name), s.1.virtual_frame(v.output)),
        None => s,
    }
}

/// Virtual outputs drawn, one after the other.
pub open spec fn render_names(
    s: (Seq<VirtualOutputView>, EwmView),
    names: Seq<Seq<char>>,
) -> (Seq<VirtualOutputView>, EwmView)
    decreases names.len(),
{
    if names.len() == 0 {
        s
    } else {
        render_one(render_names(s, names.drop_last()), names.last())
    }
}

/// The place of a new output: the configured one, or else right of all others.
pub open spec fn new_output_place(ewm: EwmView, config: OutputConfig) -> Point {
    match config.position {
        Some((x, y)) => Point { x, y },
        None => Point { x: ewm.output_size.w, y: 0 },
    }
}

/// A new virtual output. `scaled` is its logical size at the configured
/// scale; without one the mode is the logical size.
pub open spec fn new_output(
    ewm: EwmView,
    name: Seq<char>,
    mode: Size,
    handle: OutputHandle,
    scaled: Size,
) -> OutputView {
    let config = ewm.stored_config(name);
    let transform = match config.transform {
        Some(t) => t,
        None => Transform::Normal,
    };
    let size = if config.scale is Some {
        scaled
    } else {
        transform.transform_size_spec(mode)
    };
    OutputView {
        handle,
        name,
        mode,
        transform,
        scale: match config.scale {
            Some(s) => s,
            None => SCALE_ONE,
        },
        loc: new_output_place(ewm, config),
        size,
        zone: Rectangle::from_size_spec(size),
    }
}

impl EwmView {
    /// The state after a virtual output was added.
    pub open spec fn add_virtual(
        self,
        name: Seq<char>,
        mode: Size,
        handle: OutputHandle,
        scaled: Size,
    ) -> EwmView {
        let s = self.add_output(
            new_output(self, name, mode, handle, scaled),
            OutputState::new_spec(DEFAULT_REFRESH_INTERVAL_US, (mode.w, mode.h)),
        ).recalculate_output_size();
        EwmView {
            working_areas: s.working_areas.insert(name, Rectangle::from_size_spec(mode)),
            ..s
        }
    }

    /// The state after an output was removed.
    pub open spec fn remove_virtual(self, output: OutputHandle) -> EwmView {
        self.drop_state(output).lock_complete().unmap_output(output).recalculate_output_size()
    }
}

impl HeadlessBackend {
    /// A backend without outputs.
    pub fn new() -> (r: HeadlessBackend)
        ensures
            r@ == Seq::<VirtualOutputView>::empty(),
    {
        let r = HeadlessBackend { outputs: Vec::new() };
        proof {
            assert(r@ =~= Seq::<VirtualOutputView>::empty());
        }
        r
    }

    fn find(&self, name: &str) -> (r: Option<usize>)
        ensures
            match r {
                Some(i) => i < self.outputs@.len() && virtual_named(self@, name@) == Some(
                    self.outputs@[i as int]@,
                ),
                None => virtual_named(self@, name@) is None,
            },
    {
        let ghost all = self@;
        let mut i: usize = 0;
        proof {
            assert(all.skip(0) =~= all);
        }
        while i < self.outputs.len()
            invariant
                i <= self.outputs@.len(),
                all == self@,
                virtual_named(all, name@) == virtual_named(all.skip(i as int), name@),
            decreases self.outputs@.len() - i,
        {
            proof {
                assert(all.skip(i as int)[0] == self.outputs@[i as int]@);
                assert(all.skip(i as int).drop_first() =~= all.skip(i + 1));
            }
            if same_text(self.outputs[i].name.as_str(), name) {
                return Some(i);
            }
            i += 1;
        }
        None
    }

    fn drop_named(&mut self, name: &str)
        ensures
            final(self)@ == without_name(old(self)@, name@),
    {
        let ghost all = self@;
        let ghost keep = |o: VirtualOutputView| o.name != name@;
        let mut i: usize = 0;
        let ghost mut done: int = 0;
        proof {
            reveal(Seq::filter);
            assert(all.take(0) =~= Seq::<VirtualOutputView>::empty());
            assert(self@ =~= all.take(0).filter(keep) + all.skip(0));
        }
        while i < self.outputs.len()
            invariant
                all == old(self)@,
                keep == (|o: VirtualOutputView| o.name != name@),
                0 <= done <= all.len(),
                i == all.take(done).filter(keep).len(),
                self@ == all.take(done).filter(keep) + all.skip(done),
            decreases self.outputs@.len() - i,
        {
            let ghost prev = self@;
            proof {
                reveal(Seq::filter);
                assert(self.outputs@.len() == prev.len());
                assert(done < all.len());
                assert(all.take(done + 1).drop_last() =~= all.take(done));
                assert(all.take(done + 1).last() == all[done]);
                assert(prev[i as int] == all.skip(done)[0]);
            }
            if same_text(self.outputs[i].name.as_str(), name) {
                self.outputs.remove(i);
                proof {
                    assert(self@ =~= prev.remove(i as int));
                    assert(self@ =~= all.take(done + 1).filter(keep) + all.skip(done + 1));
                }
            } else {
                i += 1;
                proof {
                    assert(self@ =~= all.take(done + 1).filter(keep) + all.skip(done + 1));
                }
            }
            proof {
                done = done + 1;
            }
        }
        proof {
            assert(done == all.len()) by {
                assert(all.skip(done).len() == 0);
            }
            assert(all.take(done) =~= all);
            assert(self@ =~= all.filter(keep));
        }
    }

    /// Adds a virtual output, in place of one with the same name. `handle` is
    /// the handle of the new output, and `scaled` its logical size at the
    /// configured scale, where there is one.
    pub fn add_output(
        &mut self,
        name: &str,
        width: i32,
        height: i32,
        handle: OutputHandle,
        scaled: Size,
        ewm: &mut Ewm,
    )
        ensures
            names_unique(old(self)@) ==> names_unique(final(self)@),
            final(self)@ == without_name(old(self)@, name@).push(
                VirtualOutputView {
                    name: name@,
                    output: handle,
                    size: Size { w: width, h: height },
                    render_count: 0,
                },
            ),
            final(ewm)@ == old(ewm)@.add_virtual(
                name@,
                Size { w: width, h: height },
                handle,
                scaled,
            ),
    {
        let mode: Size = Size { w: width, h: height };
        let config: OutputConfig = match ewm.output_config.get(name) {
            Some(c) => *c,
            None => OutputConfig::default(),
        };
        let transform: Transform = match config.transform {
            Some(t) => t,
            None => Transform::Normal,
        };
        let size: Size = if config.scale.is_some() {
            scaled
        } else {
            transform.transform_size(mode)
        };
        let scale: u64 = match config.scale {
            Some(s) => s,
            None => SCALE_ONE,
        };
        let loc: Point = match config.position {
            Some((x, y)) => Point { x, y },
            None => Point { x: ewm.output_size.w, y: 0 },
        };
        let o: Output = Output {
            handle,
            name: owned(name),
            mode,
            transform,
            scale,
            loc,
            size,
            zone: Rectangle::from_size(size),
        };
        proof {
            assert(o@ == new_output(ewm@, name@, mode, handle, scaled));
        }
        ewm.add_output(o, OutputState::new(DEFAULT_REFRESH_INTERVAL_US, (width, height)));
        self.drop_named(name);
        let ghost before = self@;
        let v: VirtualOutput = VirtualOutput {
            name: owned(name),
            output: handle,
            size: mode,
            render_count: 0,
        };
        self.outputs.push(v);
        proof {
            assert(self@ =~= before.push(v@));
            if names_unique(old(self)@) {
                lemma_names_stay_unique(old(self)@, v@);
            }
        }
        ewm.recalculate_output_size();
        ewm.working_areas.insert(owned(name), Rectangle::from_size(mode));
    }

    /// Removes the virtual output with this name.
    pub fn remove_output(&mut self, name: &str, ewm: &mut Ewm)
        ensures
            names_unique(old(self)@) ==> names_unique(final(self)@),
            match virtual_named(old(self)@, name@) {
                Some(v) => final(self)@ == without_name(old(self)@, name@) && final(ewm)@ == old(
                    ewm)@.remove_virtual(v.output),
                None => final(self)@ == old(self)@ && final(ewm)@ == old(ewm)@,
            },
    {
        let output: OutputHandle = match self.find(name) {
            Some(i) => self.outputs[i].output,
            None => return,
        };
        proof {
            if names_unique(self@) {
                lemma_names_stay_unique(
                    self@,
                    VirtualOutputView {
                        name: name@,
                        output,
                        size: Size { w: 0, h: 0 },
                        render_count: 0,
                    },
                );
            }
        }
        self.drop_named(name);
        ewm.drop_state(output);
        ewm.check_lock_on_output_removed();
        ewm.unmap_output(output);
        ewm.recalculate_output_size();
    }

    /// Whether an output is queued for a redraw.
    pub fn has_queued_redraws(&self, ewm: &Ewm) -> (r: bool)
        ensures
            r == exists|i: int|
                0 <= i < ewm@.output_state.len() && (
                #[trigger] ewm@.output_state[i]).state.redraw_state is Queued,
    {
        ewm.has_queued_redraws()
    }

    fn is_queued(&self, ewm: &Ewm, name: &str) -> (r: bool)
        ensures
            r == ewm@.is_queued(name@),
    {
        match ewm.space.output_index_named(name) {
            Some(i) => match ewm.state_of(ewm.space.outputs[i].handle) {
                Some(state) => state.redraw_state.is_queued(),
                None => false,
            },
            None => false,
        }
    }

    fn count_frame(&mut self, name: &str)
        requires
            count_fits(old(self)@, name@),
        ensures
            final(self)@ == counted(old(self)@, name@),
    {
        let ghost before = self@;
        let ghost goal = counted(before, name@);
        let mut i: usize = 0;
        while i < self.outputs.len()
            invariant
                i <= self.outputs@.len(),
                self.outputs@.len() == before.len(),
                count_fits(before, name@),
                goal == counted(before, name@),
                forall|j: int| 0 <= j < i ==> #[trigger] self@[j] == goal[j],
                forall|j: int| i <= j < before.len() ==> #[trigger] self@[j] == before[j],
            decreases self.outputs@.len() - i,
        {
            let ghost prev = self@;
            proof {
                assert(self@[i as int] == before[i as int]);
            }
            if same_text(self.outputs[i].name.as_str(), name) {
                let v: VirtualOutput = VirtualOutput {
                    name: self.outputs[i].name.clone(),
                    output: self.outputs[i].output,
                    size: self.outputs[i].size,
                    render_count: self.outputs[i].render_count + 1,
                };
                self.outputs[i] = v;
                proof {
                    assert(self@ =~= prev.update(i as int, v@));
                }
            }
            i += 1;
        }
        proof {
            assert(self@ =~= goal);
        }
    }

    /// Draws one output.
    fn render_output(&mut self, name: &str, ewm: &mut Ewm)
        requires
            count_fits(old(self)@, name@),
        ensures
            (final(self)@, final(ewm)@) == render_one((old(self)@, old(ewm)@), name@),
    {
        let output: OutputHandle = match self.find(name) {
            Some(i) => self.outputs[i].output,
            None => return,
        };
        if let Some(mut state) = ewm.state_of(output) {
            state.redraw_state = RedrawState::Idle;
            ewm.set_output_state(output, state);
        }
        self.count_frame(name);
        ewm.act(Action::SendFrames { output });
    }

    /// Draws all outputs that are queued for a redraw.
    pub fn redraw_queued_outputs(&mut self, ewm: &mut Ewm)
        requires
            names_unique(old(self)@),
            counts_can_grow(old(self)@, 1),
        ensures
            (final(self)@, final(ewm)@) == render_names(
                (old(self)@, old(ewm)@),
                queued_names(old(self)@, old(ewm)@),
            ),
    {
        let ghost start = (self@, ewm@);
        let mut names: Vec<String> = Vec::new();
        let mut i: usize = 0;
        proof {
            assert(start.0.take(0) =~= Seq::<VirtualOutputView>::empty());
            assert(views(names@) =~= Seq::<Seq<char>>::empty());
        }
        while i < self.outputs.len()
            invariant
                i <= self.outputs@.len(),
                start == (self@, ewm@),
                start == (old(self)@, old(ewm)@),
                views(names@) == queued_names(start.0.take(i as int), ewm@),
            decreases self.outputs@.len() - i,
        {
            proof {
                assert(start.0.take(i + 1).drop_last() =~= start.0.take(i as int));
                assert(start.0.take(i + 1).last() == self.outputs@[i as int]@);
            }
            if self.is_queued(ewm, self.outputs[i].name.as_str()) {
                let ghost before = views(names@);
                names.push(self.outputs[i].name.clone());
                proof {
                    assert(views(names@) =~= before.push(self.outputs@[i as int].name@));
                }
            }
            i += 1;
        }
        proof {
            assert(start.0.take(i as int) =~= start.0);
        }
        let ghost queued = views(names@);
        let mut k: usize = 0;
        proof {
            assert(queued.take(0) =~= Seq::<Seq<char>>::empty());
            lemma_queued_unique(start.0, start.1);
        }
        while k < names.len()
            invariant
                k <= names@.len(),
                queued == views(names@),
                queued.no_duplicates(),
                start == (old(self)@, old(ewm)@),
                counts_can_grow(start.0, 1),
                (self@, ewm@) == render_names(start, queued.take(k as int)),
            decreases names@.len() - k,
        {
            proof {
                assert(queued.take(k + 1).drop_last() =~= queued.take(k as int));
                assert(queued.take(k + 1).last() == names@[k as int]@);
                lemma_render_names(start, queued.take(k as int));
                assert(!queued.take(k as int).contains(queued[k as int]));
                assert forall|j: int|
                    0 <= j < self@.len() && (#[trigger] self@[j]).name
                        == names@[k as int]@ implies self@[j].render_count < usize::MAX by {
                    assert(start.0[j].render_count + 1 <= usize::MAX);
                }
            }
            self.render_output(names[k].as_str(), ewm);
            k += 1;
        }
        proof {
            assert(queued.take(k as int) =~= queued);
        }
    }

    /// Applies the stored configuration of an output. Virtual outputs have a
    /// fixed mode; scale, transform, place and whether it is enabled change.
    pub fn apply_output_config(&mut self, ewm: &mut Ewm, output_name: &str, measured: &Measured)
        ensures
            final(self)@ == old(self)@,
            final(ewm)@ == old(ewm)@.apply_output_config(output_name@, *measured),
    {
        ewm.apply_output_config(output_name, measured);
    }

    /// How many frames were drawn on the output with this name; none where
    /// there is no such output.
    pub fn render_count(&self, name: &str) -> (r: usize)
        ensures
            r == match virtual_named(self@, name@) {
                Some(v) => v.render_count,
                None => 0,
            },
    {
        match self.find(name) {
            Some(i) => self.outputs[i].render_count,
            None => 0,
        }
    }
}

impl Default for HeadlessBackend {
    fn default() -> (r: HeadlessBackend)
        ensures
            r@ == Seq::<VirtualOutputView>::empty(),
    {
        HeadlessBackend::new()
    }
}

proof fn lemma_named(v: Seq<VirtualOutputView>, i: int)
    requires
        0 <= i < v.len(),
    ensures
        virtual_named(v, v[i].name) is Some,
    decreases v.len(),
{
    if v[0].name != v[i].name {
        lemma_named(v.drop_first(), i - 1);
    }
}

proof fn lemma_queued_from(v: Seq<VirtualOutputView>, ewm: EwmView, name: Seq<char>)
    requires
        queued_names(v, ewm).contains(name),
    ensures
        exists|i: int| 0 <= i < v.len() && (#[trigger] v[i]).name == name,
    decreases v.len(),
{
    if v.len() > 0 {
        let before = queued_names(v.drop_last(), ewm);
        if before.contains(name) {
            lemma_queued_from(v.drop_last(), ewm, name);
            let i = choose|i: int|
                0 <= i < v.drop_last().len() && (#[trigger] v.drop_last()[i]).name == name;
            assert(v[i].name == name);
        } else {
            assert(v[v.len() - 1].name == name);
        }
    }
}

/// Where no name occurs twice, none is queued twice.
pub proof fn lemma_queued_unique(v: Seq<VirtualOutputView>, ewm: EwmView)
    requires
        names_unique(v),
    ensures
        queued_names(v, ewm).no_duplicates(),
    decreases v.len(),
{
    if v.len() > 0 {
        let rest = v.drop_last();
        assert forall|i: int, j: int| 0 <= i < j < rest.len() implies (
        #[trigger] rest[i]).name != (#[trigger] rest[j]).name by {
            assert(v[i].name != v[j].name);
        }
        lemma_queued_unique(rest, ewm);
        if queued_names(rest, ewm).contains(v.last().name) {
            lemma_queued_from(rest, ewm, v.last().name);
            let i = choose|i: int|
                0 <= i < rest.len() && (#[trigger] rest[i]).name == v.last().name;
            assert(v[i].name != v[v.len() - 1].name);
        }
    }
}

/// Drawing outputs counts one frame for each that is drawn, and none for the
/// others.
pub proof fn lemma_render_names(s: (Seq<VirtualOutputView>, EwmView), names: Seq<Seq<char>>)
    requires
        names.no_duplicates(),
        counts_can_grow(s.0, 1),
    ensures
        ({
            let t = render_names(s, names).0;
            &&& t.len() == s.0.len()
            &&& forall|j: int|
                0 <= j < s.0.len() ==> (#[trigger] t[j]).name == s.0[j].name && t[j].render_count
                    == s.0[j].render_count + (if names.contains(s.0[j].name) {
                    1int
                } else {
                    0int
                })
        }),
    decreases names.len(),
{
    if names.len() > 0 {
        let rest = names.drop_last();
        let name = names.last();
        lemma_render_names(s, rest);
        let t = render_names(s, rest);
        let u = render_names(s, names);
        assert(u == render_one(t, name));
        assert(!rest.contains(name)) by {
            if rest.contains(name) {
                let i = choose|i: int| 0 <= i < rest.len() && rest[i] == name;
                assert(names[i] == names[names.len() - 1]);
            }
        }
        assert forall|x: Seq<char>| #[trigger] names.contains(x) <==> rest.contains(x) || x
            == name by {
            if names.contains(x) {
                let i = choose|i: int| 0 <= i < names.len() && names[i] == x;
                if i < rest.len() {
                    assert(rest[i] == x);
                }
            }
            if rest.contains(x) {
                let i = choose|i: int| 0 <= i < rest.len() && rest[i] == x;
                assert(names[i] == x);
            }
            if x == name {
                assert(names[names.len() - 1] == x);
            }
        }
        assert forall|j: int| 0 <= j < s.0.len() implies (#[trigger] u.0[j]).name == s.0[j].name
            && u.0[j].render_count == s.0[j].render_count + (if names.contains(s.0[j].name) {
            1int
        } else {
            0int
        }) by {
            assert(t.0[j].name == s.0[j].name);
            assert(s.0[j].render_count + 1 <= usize::MAX);
            if s.0[j].name == name {
                lemma_named(t.0, j);
            }
            assert(names.contains(s.0[j].name) <==> rest.contains(s.0[j].name) || s.0[j].name
                == name);
        }
    } else {
        assert forall|j: int| 0 <= j < s.0.len() implies !names.contains(
            (#[trigger] s.0[j]).name,
        ) by {
        }
    }
}

/// Adding and removing outputs keeps names unique.
pub proof fn lemma_names_stay_unique(v: Seq<VirtualOutputView>, o: VirtualOutputView)
    requires
        names_unique(v),
    ensures
        names_unique(without_name(v, o.name)),
        names_unique(without_name(v, o.name).push(o)),
{
    let keep = |p: VirtualOutputView| p.name != o.name;
    let apart = |a: VirtualOutputView, b: VirtualOutputView| a.name != b.name;
    let f = without_name(v, o.name);
    assert forall|i: int, j: int| 0 <= i < j < v.len() implies apart(
        #[trigger] v[i],
        #[trigger] v[j],
    ) by {
    }
    crate::space::lemma_filter_pairs(v, keep, apart);
    assert forall|i: int, j: int| 0 <= i < j < f.len() implies (#[trigger] f[i]).name != (
    #[trigger] f[j]).name by {
        assert(apart(f[i], f[j]));
    }
    assert forall|i: int| 0 <= i < f.len() implies (#[trigger] f[i]).name != o.name by {
        assert(keep(f[i]));
    }
}

/// Adding an output without frames, and removing one, leaves room for as many
/// frames as before.
pub proof fn lemma_counts_stay(v: Seq<VirtualOutputView>, o: VirtualOutputView, n: int)
    requires
        counts_can_grow(v, n),
        o.render_count + n <= usize::MAX,
    ensures
        counts_can_grow(without_name(v, o.name), n),
        counts_can_grow(without_name(v, o.name).push(o), n),
{
    let keep = |p: VirtualOutputView| p.name != o.name;
    let f = without_name(v, o.name);
    crate::space::lemma_filter_pairs(v, keep, |a: VirtualOutputView, b: VirtualOutputView| true);
    assert forall|i: int| 0 <= i < f.len() implies (#[trigger] f[i]).render_count + n
        <= usize::MAX by {
        assert(v.contains(f[i]));
    }
}

/// An added output is right of all others, unless its configuration places
/// it, and the extent of the outputs holds it.
pub proof fn lemma_outputs_side_by_side(
    ewm: EwmView,
    name: Seq<char>,
    mode: Size,
    handle: OutputHandle,
    scaled: Size,
)
    requires
        ewm.stored_config(name).position is None,
    ensures
        ({
            let t = ewm.add_virtual(name, mode, handle, scaled);
            let o = t.space.outputs.last();
            &&& o.loc == (Point { x: ewm.output_size.w, y: 0 })
            &&& t.output_size.w >= o.geometry().right_spec()
            &&& t.output_size.h >= o.geometry().bottom_spec()
        }),
{
    let t = ewm.add_virtual(name, mode, handle, scaled);
    crate::space::lemma_extent_covers(t.space.outputs, t.space.outputs.len() - 1);
}

/// A new output is queued for its first redraw.
pub proof fn lemma_new_output_is_queued(
    ewm: EwmView,
    name: Seq<char>,
    mode: Size,
    handle: OutputHandle,
    scaled: Size,
)
    ensures
        ewm.add_virtual(
            name,
            mode,
            handle,
            scaled,
        ).output_state.last().state.redraw_state is Queued,
{
}

} // verus!
