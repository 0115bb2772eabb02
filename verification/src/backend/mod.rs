//! Backends: real hardware, a window of another compositor, or none at all.
use vstd::prelude::*;

pub mod drm;
pub mod events;
pub mod frame;
pub mod headless;
pub mod winit;

use crate::action::ActionView;
use crate::backend::drm::{DrmBackendState, DrmView};
use crate::backend::headless::{
    counts_can_grow, names_unique, queued_names, render_names, HeadlessBackend, VirtualOutputView,
};
use crate::ewm::{Ewm, EwmView};
use crate::outputs::Measured;

verus! {

/// A backend. Redraw state is kept with the compositor's state, so that the
/// rest of the compositor need not know which backend there is.
#[derive(Debug)]
pub enum Backend {
    /// Real hardware.
    Drm(DrmBackendState),
    /// Virtual outputs.
    Headless(HeadlessBackend),
}

/// What a [`Backend`] holds.
#[verifier::ext_equal]
pub enum BackendView {
    Drm(DrmView),
    Headless(Seq<VirtualOutputView>),
}

impl View for Backend {
    type V = BackendView;

    open spec fn view(&self) -> BackendView {
        match self {
            Backend::Drm(d) => BackendView::Drm(d@),
            Backend::Headless(h) => BackendView::Headless(h@),
        }
    }
}

impl BackendView {
    /// Whether `n` more frames of every virtual output can be counted.
    pub open spec fn can_redraw(self, n: int) -> bool {
        match self {
            BackendView::Drm(_) => true,
            BackendView::Headless(v) => names_unique(v) && counts_can_grow(v, n),
        }
    }

    /// The backend and the state after queued redraws were taken up: virtual
    /// outputs are drawn, and real ones are to be drawn.
    pub open spec fn redraw(self, ewm: EwmView) -> (BackendView, EwmView) {
        match self {
            BackendView::Drm(d) => (
                self,
                match d.device {
                    Some(v) => ewm.render_queued(v),
                    None => ewm,
                },
            ),
            BackendView::Headless(v) => {
                let s = render_names((v, ewm), queued_names(v, ewm));
                (BackendView::Headless(s.0), s.1)
            },
        }
    }

    /// Whether buffers are imported early.
    pub open spec fn imports(self) -> bool {
        match self {
            BackendView::Drm(d) => d.device is Some,
            BackendView::Headless(_) => false,
        }
    }
}

impl Backend {
    /// Takes up queued redraws.
    pub fn redraw_queued_outputs(&mut self, ewm: &mut Ewm)
        requires
            old(self)@.can_redraw(1),
        ensures
            (final(self)@, final(ewm)@) == old(self)@.redraw(old(ewm)@),
    {
        match self {
            Backend::Drm(drm) => drm.redraw_queued_outputs(ewm),
            Backend::Headless(headless) => headless.redraw_queued_outputs(ewm),
        }
    }

    /// Whether an output is queued for a redraw.
    pub fn has_queued_redraws(&self, ewm: &Ewm) -> (r: bool)
        ensures
            r == exists|i: int|
                0 <= i < ewm@.output_state.len() && (
                #[trigger] ewm@.output_state[i]).state.redraw_state is Queued,
    {
        match self {
            Backend::Drm(drm) => drm.has_queued_redraws(ewm),
            Backend::Headless(headless) => headless.has_queued_redraws(ewm),
        }
    }

    /// Has a surface's buffer imported before it is drawn. Virtual outputs do
    /// not need that.
    pub fn early_import(&mut self, ewm: &mut Ewm, surface: u64)
        ensures
            final(self)@ == old(self)@,
            final(ewm)@ == (if old(self)@.imports() {
                old(ewm)@.act(ActionView::EarlyImport { surface })
            } else {
                old(ewm)@
            }),
    {
        match self {
            Backend::Drm(drm) => drm.early_import(ewm, surface),
            Backend::Headless(_) => {},
        }
    }

    /// Applies the stored configuration of an output; see
    /// [`Ewm::apply_output_config`].
    pub fn apply_output_config(&mut self, ewm: &mut Ewm, name: &str, measured: &Measured)
        ensures
            final(self)@ == old(self)@,
            final(ewm)@ == old(ewm)@.apply_output_config(name@, *measured),
    {
        ewm.apply_output_config(name, measured);
    }

    /// The hardware backend, if this is one.
    pub fn as_drm(&self) -> (r: Option<&DrmBackendState>)
        ensures
            match self {
                Backend::Drm(drm) => r == Some(drm),
                Backend::Headless(_) => r is None,
            },
    {
        match self {
            Backend::Drm(drm) => Some(drm),
            Backend::Headless(_) => None,
        }
    }

    /// The hardware backend, if this is one, for changes.
    pub fn as_drm_mut(&mut self) -> (r: Option<&mut DrmBackendState>)
        ensures
            match *old(self) {
                Backend::Drm(drm) => r matches Some(d) && *d == drm && *final(self)
                    == Backend::Drm(*final(d)),
                Backend::Headless(_) => r is None && *final(self) == *old(self),
            },
    {
        match self {
            Backend::Drm(drm) => Some(drm),
            Backend::Headless(_) => None,
        }
    }

    /// The headless backend, if this is one.
    pub fn as_headless(&self) -> (r: Option<&HeadlessBackend>)
        ensures
            match self {
                Backend::Drm(_) => r is None,
                Backend::Headless(headless) => r == Some(headless),
            },
    {
        match self {
            Backend::Drm(_) => None,
            Backend::Headless(headless) => Some(headless),
        }
    }

    /// The headless backend, if this is one, for changes.
    pub fn as_headless_mut(&mut self) -> (r: Option<&mut HeadlessBackend>)
        ensures
            match *old(self) {
                Backend::Drm(_) => r is None && *final(self) == *old(self),
                Backend::Headless(headless) => r matches Some(h) && *h == headless && *final(self)
                    == Backend::Headless(*final(h)),
            },
    {
        match self {
            Backend::Drm(_) => None,
            Backend::Headless(headless) => Some(headless),
        }
    }

    /// Whether this is the hardware backend.
    pub fn is_drm(&self) -> (r: bool)
        ensures
            r == (self@ is Drm),
    {
        match self {
            Backend::Drm(_) => true,
            Backend::Headless(_) => false,
        }
    }

    /// Whether this is the headless backend.
    pub fn is_headless(&self) -> (r: bool)
        ensures
            r == (self@ is Headless),
    {
        match self {
            Backend::Drm(_) => false,
            Backend::Headless(_) => true,
        }
    }
}

} // verus!
