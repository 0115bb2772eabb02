//! Outputs as they come, change and go, whatever the backend.
use vstd::prelude::*;

use crate::action::{Action, ActionView};
use crate::event::{OutputInfo, OutputInfoView};
use crate::ewm::{Ewm, EwmView, OutputEntry};
use crate::geometry::{Point, Rectangle, Size, Transform};
use crate::layers::{layer_views, LayerPlace, LayerSurfaceView};
use crate::output::{OutputConfig, OutputState};
use crate::space::{Output, OutputHandle, OutputView, Placed, SpaceView};
use crate::text::same_text;

verus! {

/// The bit pattern of the scale 1.
pub const SCALE_ONE: u64 = 0x3ff0_0000_0000_0000;

/// What the renderer measures of an output after its scale or transform
/// changed: its logical size, its free area, and the places of its layer
/// surfaces.
#[derive(Clone, Debug)]
pub struct Measured {
    pub size: Size,
    pub zone: Rectangle,
    pub places: Vec<LayerPlace>,
}

impl SpaceView {
    /// The space with one output changed.
    pub open spec fn change_output(
        self,
        handle: OutputHandle,
        change: spec_fn(OutputView) -> OutputView,
    ) -> SpaceView {
        SpaceView {
            outputs: self.outputs.map_values(
                |o: OutputView|
                    if o.handle == handle {
                        change(o)
                    } else {
                        o
                    },
            ),
            ..self
        }
    }
}

/// An output with a configuration applied, but for its free area.
pub open spec fn configured(o: OutputView, config: OutputConfig, size: Size) -> OutputView {
    OutputView {
        transform: match config.transform {
            Some(t) => t,
            None => o.transform,
        },
        scale: match config.scale {
            Some(s) => s,
            None => o.scale,
        },
        loc: match config.position {
            Some((x, y)) => Point { x, y },
            None => o.loc,
        },
        size,
        ..o
    }
}

/// The descriptions of the outputs with the place of one changed.
pub open spec fn infos_moved(
    infos: Seq<OutputInfoView>,
    name: Seq<char>,
    position: Option<(i32, i32)>,
) -> Seq<OutputInfoView> {
    match position {
        Some((x, y)) => infos.map_values(
            |i: OutputInfoView|
                if i.name == name {
                    OutputInfoView { x, y, ..i }
                } else {
                    i
                },
        ),
        None => infos,
    }
}

impl EwmView {
    /// An output mapped, with its state.
    pub open spec fn add_output(self, o: OutputView, state: OutputState) -> EwmView {
        EwmView {
            space: SpaceView { outputs: self.space.outputs.push(o), ..self.space },
            output_state: self.output_state.push(OutputEntry { output: o.handle, state }),
            ..self
        }.act(ActionView::MapOutput { output: o.handle, x: o.loc.x, y: o.loc.y })
    }

    /// The state of an output dropped.
    pub open spec fn drop_state(self, output: OutputHandle) -> EwmView {
        EwmView {
            output_state: self.output_state.filter(|e: OutputEntry| e.output != output),
            ..self
        }
    }

    /// An output unmapped.
    pub open spec fn unmap_output(self, output: OutputHandle) -> EwmView {
        EwmView { space: self.space.unmap_output(output), ..self }.act(
            ActionView::UnmapOutput { output },
        )
    }

    /// The windows told the scale and transform of an output.
    pub open spec fn scale_windows(self, output: OutputHandle, elements: Seq<Placed>) -> EwmView
        decreases elements.len(),
    {
        if elements.len() == 0 {
            self
        } else {
            self.scale_windows(output, elements.drop_last()).act(
                ActionView::SendScale { surface: elements.last().window, output },
            )
        }
    }

    /// The layer surfaces of an output told its scale and transform.
    pub open spec fn scale_layers(
        self,
        output: OutputHandle,
        layers: Seq<LayerSurfaceView>,
    ) -> EwmView
        decreases layers.len(),
    {
        if layers.len() == 0 {
            self
        } else {
            let s = self.scale_layers(output, layers.drop_last());
            if layers.last().output == output {
                s.act(ActionView::SendScale { surface: layers.last().surface, output })
            } else {
                s
            }
        }
    }

    /// The windows and the layer surfaces of an output told its scale and
    /// transform.
    pub open spec fn send_scales(self, output: OutputHandle) -> EwmView {
        self.scale_windows(output, self.space.elements).scale_layers(output, self.layers)
    }

    /// The stored configuration of an output applied: one that is disabled is
    /// unmapped; otherwise scale, transform and place change as far as the
    /// configuration names them, surfaces are told of a new scale or
    /// transform, and what depends on them is brought in step.
    pub open spec fn apply_output_config(self, name: Seq<char>, measured: Measured) -> EwmView {
        if !self.output_config.contains_key(name) {
            self
        } else {
            let config = self.output_config[name];
            match self.space.output_named(name) {
                None => self,
                Some(o) => if !config.enabled {
                    self.unmap_output(o.handle).queue_redraw_all()
                } else {
                    let s = EwmView {
                        space: self.space.change_output(
                            o.handle,
                            |p: OutputView| configured(p, config, measured.size),
                        ),
                        outputs: infos_moved(self.outputs, name, config.position),
                        ..self
                    };
                    let t = match config.position {
                        Some((x, y)) => s.act(ActionView::MapOutput { output: o.handle, x, y }),
                        None => s,
                    };
                    let u = if config.scale is Some || config.transform is Some {
                        t.send_scales(o.handle)
                    } else {
                        t
                    };
                    u.recalculate_output_size().arranged(measured.places@).check_working_area(
                        o.handle,
                        measured.zone,
                    ).queue_redraw_all()
                },
            }
        }
    }

    /// The descriptions of an output dropped.
    pub open spec fn drop_infos(self, name: Seq<char>) -> EwmView {
        EwmView {
            outputs: self.outputs.filter(|i: OutputInfoView| i.name != name),
            dbus_outputs: self.dbus_outputs.filter(
                |i: crate::dbus::OutputInfoView| i.name != name,
            ),
            ..self
        }
    }
}

impl Ewm {
    /// Maps an output, with its state.
    pub fn add_output(&mut self, o: Output, state: OutputState)
        ensures
            final(self)@ == old(self)@.add_output(o@, state),
    {
        let ghost before = self@.space.outputs;
        let output: OutputHandle = o.handle;
        let loc: Point = o.loc;
        self.space.outputs.push(o);
        proof {
            assert(self@.space.outputs =~= before.push(o@));
        }
        self.output_state.push(OutputEntry { output, state });
        self.act(Action::MapOutput { output, x: loc.x, y: loc.y });
    }

    /// Drops the state of an output.
    pub fn drop_state(&mut self, output: OutputHandle)
        ensures
            final(self)@ == old(self)@.drop_state(output),
    {
        let ghost before = self.output_state@;
        let ghost keep = |e: OutputEntry| e.output != output;
        let mut kept: Vec<OutputEntry> = Vec::new();
        let mut i: usize = 0;
        proof {
            reveal(Seq::filter);
            assert(before.take(0) =~= Seq::<OutputEntry>::empty());
        }
        while i < self.output_state.len()
            invariant
                i <= before.len(),
                self@ == old(self)@,
                self.output_state@ == before,
                keep == (|e: OutputEntry| e.output != output),
                kept@ == before.take(i as int).filter(keep),
            decreases before.len() - i,
        {
            let e: OutputEntry = self.output_state[i];
            proof {
                reveal(Seq::filter);
                assert(before.take(i + 1).drop_last() =~= before.take(i as int));
            }
            if e.output != output {
                kept.push(e);
            }
            i += 1;
        }
        proof {
            assert(before.take(i as int) =~= before);
        }
        self.output_state = kept;
    }

    /// Unmaps an output.
    pub fn unmap_output(&mut self, output: OutputHandle)
        ensures
            final(self)@ == old(self)@.unmap_output(output),
    {
        self.space.unmap_output(output);
        self.act(Action::UnmapOutput { output });
    }

    fn move_infos(&mut self, name: &str, x: i32, y: i32)
        ensures
            final(self)@ == (EwmView {
                outputs: infos_moved(old(self)@.outputs, name@, Some((x, y))),
                ..old(self)@
            }),
    {
        let ghost before = self@;
        let ghost goal = infos_moved(before.outputs, name@, Some((x, y)));
        let mut i: usize = 0;
        while i < self.outputs.len()
            invariant
                i <= self.outputs@.len(),
                self.outputs@.len() == before.outputs.len(),
                before == old(self)@,
                goal == infos_moved(before.outputs, name@, Some((x, y))),
                self@ == (EwmView { outputs: self@.outputs, ..before }),
                forall|j: int| 0 <= j < i ==> #[trigger] self@.outputs[j] == goal[j],
                forall|j: int|
                    i <= j < before.outputs.len() ==> #[trigger] self@.outputs[j]
                        == before.outputs[j],
            decreases self.outputs@.len() - i,
        {
            let ghost prev = self@.outputs;
            proof {
                assert(self@.outputs[i as int] == before.outputs[i as int]);
            }
            if same_text(self.outputs[i].name.as_str(), name) {
                let mut info: OutputInfo = self.outputs[i].copy();
                info.x = x;
                info.y = y;
                self.outputs[i] = info;
                proof {
                    assert(self@.outputs =~= prev.update(i as int, info@));
                }
            }
            i += 1;
        }
        proof {
            assert(self@.outputs =~= goal);
        }
    }

    fn configure(&mut self, handle: OutputHandle, config: &OutputConfig, size: Size)
        ensures
            final(self)@ == (EwmView {
                space: old(self)@.space.change_output(
                    handle,
                    |p: OutputView| configured(p, *config, size),
                ),
                ..old(self)@
            }),
    {
        let ghost before = self@;
        let ghost change = |p: OutputView| configured(p, *config, size);
        let ghost goal = before.space.change_output(handle, change).outputs;
        let mut i: usize = 0;
        while i < self.space.outputs.len()
            invariant
                i <= self.space.outputs@.len(),
                self.space.outputs@.len() == before.space.outputs.len(),
                before == old(self)@,
                change == (|p: OutputView| configured(p, *config, size)),
                goal == before.space.change_output(handle, change).outputs,
                self@ == (EwmView {
                    space: SpaceView { outputs: self@.space.outputs, ..before.space },
                    ..before
                }),
                forall|j: int| 0 <= j < i ==> #[trigger] self@.space.outputs[j] == goal[j],
                forall|j: int|
                    i <= j < before.space.outputs.len() ==> #[trigger] self@.space.outputs[j]
                        == before.space.outputs[j],
            decreases self.space.outputs@.len() - i,
        {
            let ghost prev = self@.space.outputs;
            proof {
                assert(self@.space.outputs[i as int] == before.space.outputs[i as int]);
            }
            if self.space.outputs[i].handle == handle {
                let transform: Transform = match config.transform {
                    Some(t) => t,
                    None => self.space.outputs[i].transform,
                };
                let scale: u64 = match config.scale {
                    Some(s) => s,
                    None => self.space.outputs[i].scale,
                };
                let loc: Point = match config.position {
                    Some((x, y)) => Point { x, y },
                    None => self.space.outputs[i].loc,
                };
                let o: Output = Output {
                    handle,
                    name: self.space.outputs[i].name.clone(),
                    mode: self.space.outputs[i].mode,
                    transform,
                    scale,
                    loc,
                    size,
                    zone: self.space.outputs[i].zone,
                };
                self.space.outputs[i] = o;
                proof {
                    assert(self@.space.outputs =~= prev.update(i as int, o@));
                }
            }
            i += 1;
        }
        proof {
            assert(self@.space.outputs =~= goal);
        }
    }

    /// Applies the stored configuration of an output. `measured` is what the
    /// renderer measures of the output once the scale and transform of the
    /// configuration are set.
    pub fn apply_output_config(&mut self, name: &str, measured: &Measured)
        ensures
            final(self)@ == old(self)@.apply_output_config(name@, *measured),
    {
        let config: OutputConfig = match self.output_config.get(name) {
            Some(c) => *c,
            None => return,
        };
        let handle: OutputHandle = match self.space.output_index_named(name) {
            Some(i) => self.space.outputs[i].handle,
            None => return,
        };
        if !config.enabled {
            self.unmap_output(handle);
            self.queue_redraw_all();
            return;
        }
        self.configure(handle, &config, measured.size);
        if let Some((x, y)) = config.position {
            self.move_infos(name, x, y);
            self.act(Action::MapOutput { output: handle, x, y });
        }
        if config.scale.is_some() || config.transform.is_some() {
            self.send_scale_transform_to_output_surfaces(handle);
        }
        self.recalculate_output_size();
        self.arrange_layers(&measured.places);
        self.check_mapped_area(handle, measured.zone);
        self.queue_redraw_all();
    }

    /// Tells the windows and the layer surfaces of an output its scale and
    /// transform.
    pub fn send_scale_transform_to_output_surfaces(&mut self, output: OutputHandle)
        ensures
            final(self)@ == old(self)@.send_scales(output),
    {
        let ghost start = self@;
        let ghost elements = self@.space.elements;
        let ghost layers = self@.layers;
        let mut i: usize = 0;
        proof {
            assert(elements.take(0) =~= Seq::<Placed>::empty());
        }
        while i < self.space.elements.len()
            invariant
                i <= elements.len(),
                elements == self.space.elements@,
                layers == self@.layers,
                self@ == start.scale_windows(output, elements.take(i as int)),
            decreases elements.len() - i,
        {
            let window: u64 = self.space.elements[i].window;
            proof {
                assert(elements.take(i + 1).drop_last() =~= elements.take(i as int));
                assert(elements.take(i + 1).last().window == window);
            }
            self.act(Action::SendScale { surface: window, output });
            i += 1;
        }
        proof {
            assert(elements.take(i as int) =~= elements);
            assert(layers.take(0) =~= Seq::<LayerSurfaceView>::empty());
        }
        let ghost middle = self@;
        i = 0;
        while i < self.layers.len()
            invariant
                i <= layers.len(),
                layers == layer_views(self.layers@),
                self@ == middle.scale_layers(output, layers.take(i as int)),
            decreases layers.len() - i,
        {
            let surface: u64 = self.layers[i].surface;
            proof {
                assert(layers.take(i + 1).drop_last() =~= layers.take(i as int));
                assert(layers.take(i + 1).last() == self.layers@[i as int]@);
            }
            if self.layers[i].output == output {
                self.act(Action::SendScale { surface, output });
            }
            i += 1;
        }
        proof {
            assert(layers.take(i as int) =~= layers);
        }
    }

    /// Drops the descriptions of an output.
    pub fn drop_infos(&mut self, name: &str)
        ensures
            final(self)@ == old(self)@.drop_infos(name@),
    {
        let ghost before = self@;
        let ghost keep = |i: OutputInfoView| i.name != name@;
        let ghost all = before.outputs;
        let mut i: usize = 0;
        let ghost mut done: int = 0;
        proof {
            reveal(Seq::filter);
            assert(all.take(0) =~= Seq::<OutputInfoView>::empty());
            assert(self@.outputs =~= all.take(0).filter(keep) + all.skip(0));
        }
        while i < self.outputs.len()
            invariant
                before == old(self)@,
                all == before.outputs,
                keep == (|i: OutputInfoView| i.name != name@),
                0 <= done <= all.len(),
                i == all.take(done).filter(keep).len(),
                self@.outputs == all.take(done).filter(keep) + all.skip(done),
                self@ == (EwmView { outputs: self@.outputs, ..before }),
            decreases self.outputs@.len() - i,
        {
            let ghost prev = self@.outputs;
            proof {
                reveal(Seq::filter);
                assert(self.outputs@.len() == prev.len());
                assert(done < all.len());
                assert(all.take(done + 1).drop_last() =~= all.take(done));
                assert(all.take(done + 1).last() == all[done]);
                assert(prev[i as int] == all.skip(done)[0]);
            }
            if same_text(self.outputs[i].name.as_str(), name) {
                self.outputs.remove(i);
                proof {
                    assert(self@.outputs =~= prev.remove(i as int));
                    assert(self@.outputs =~= all.take(done + 1).filter(keep) + all.skip(done + 1));
                }
            } else {
                i += 1;
                proof {
                    assert(self@.outputs =~= all.take(done + 1).filter(keep) + all.skip(done + 1));
                }
            }
            proof {
                done = done + 1;
            }
        }
        proof {
            assert(done == all.len()) by {
                assert(all.skip(done).len() == 0);
            }
            assert(all.take(done) =~= all);
            assert(self@.outputs =~= all.filter(keep));
        }
        self.drop_dbus_infos(name);
    }

    fn drop_dbus_infos(&mut self, name: &str)
        ensures
            final(self)@ == (EwmView {
                dbus_outputs: old(self)@.dbus_outputs.filter(
                    |i: crate::dbus::OutputInfoView| i.name != name@,
                ),
                ..old(self)@
            }),
    {
        let ghost before = self@;
        let ghost keep = |i: crate::dbus::OutputInfoView| i.name != name@;
        let ghost all = before.dbus_outputs;
        let mut i: usize = 0;
        let ghost mut done: int = 0;
        proof {
            reveal(Seq::filter);
            assert(all.take(0) =~= Seq::<crate::dbus::OutputInfoView>::empty());
            assert(self@.dbus_outputs =~= all.take(0).filter(keep) + all.skip(0));
        }
        while i < self.dbus_outputs.len()
            invariant
                before == old(self)@,
                all == before.dbus_outputs,
                keep == (|i: crate::dbus::OutputInfoView| i.name != name@),
                0 <= done <= all.len(),
                i == all.take(done).filter(keep).len(),
                self@.dbus_outputs == all.take(done).filter(keep) + all.skip(done),
                self@ == (EwmView { dbus_outputs: self@.dbus_outputs, ..before }),
            decreases self.dbus_outputs@.len() - i,
        {
            let ghost prev = self@.dbus_outputs;
            proof {
                reveal(Seq::filter);
                assert(self.dbus_outputs@.len() == prev.len());
                assert(done < all.len());
                assert(all.take(done + 1).drop_last() =~= all.take(done));
                assert(all.take(done + 1).last() == all[done]);
                assert(prev[i as int] == all.skip(done)[0]);
            }
            if same_text(self.dbus_outputs[i].name.as_str(), name) {
                self.dbus_outputs.remove(i);
                proof {
                    assert(self@.dbus_outputs =~= prev.remove(i as int));
                    assert(self@.dbus_outputs =~= all.take(done + 1).filter(keep) + all.skip(
                        done + 1,
                    ));
                }
            } else {
                i += 1;
                proof {
                    assert(self@.dbus_outputs =~= all.take(done + 1).filter(keep) + all.skip(
                        done + 1,
                    ));
                }
            }
            proof {
                done = done + 1;
            }
        }
        proof {
            assert(done == all.len()) by {
                assert(all.skip(done).len() == 0);
            }
            assert(all.take(done) =~= all);
            assert(self@.dbus_outputs =~= all.filter(keep));
        }
    }
}

} // verus!
