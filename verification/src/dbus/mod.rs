//! What the D-Bus interfaces for screen sharing know of the outputs.
use vstd::prelude::*;

pub mod screen_cast;

use crate::text::same_text;

verus! {

/// Output information for D-Bus.
#[derive(Debug, Clone)]
pub struct OutputInfo {
    pub name: String,
    pub x: i32,
    pub y: i32,
    pub width: i32,
    pub height: i32,
    pub refresh: u32,
}

/// What an [`OutputInfo`] holds.
#[verifier::ext_equal]
pub struct OutputInfoView {
    pub name: Seq<char>,
    pub x: i32,
    pub y: i32,
    pub width: i32,
    pub height: i32,
    pub refresh: u32,
}

impl View for OutputInfo {
    type V = OutputInfoView;

    open spec fn view(&self) -> OutputInfoView {
        OutputInfoView {
            name: self.name@,
            x: self.x,
            y: self.y,
            width: self.width,
            height: self.height,
            refresh: self.refresh,
        }
    }
}

/// What a list of outputs holds.
pub open spec fn info_views(outputs: Seq<OutputInfo>) -> Seq<OutputInfoView> {
    Seq::new(outputs.len(), |i: int| outputs[i]@)
}

/// The first output with this name.
pub open spec fn output_named(outputs: Seq<OutputInfoView>, name: Seq<char>) -> Option<
    OutputInfoView,
>
    decreases outputs.len(),
{
    if outputs.len() == 0 {
        None
    } else if outputs[0].name == name {
        Some(outputs[0])
    } else {
        output_named(outputs.drop_first(), name)
    }
}

/// Position of the first output with this name.
pub fn find_output(outputs: &Vec<OutputInfo>, name: &str) -> (r: Option<usize>)
    ensures
        match r {
            Some(i) => i < outputs@.len() && output_named(info_views(outputs@), name@) == Some(
                outputs@[i as int]@,
            ),
            None => output_named(info_views(outputs@), name@) is None,
        },
{
    let ghost all = info_views(outputs@);
    let mut i: usize = 0;
    proof {
        assert(all.skip(0) =~= all);
    }
    while i < outputs.len()
        invariant
            i <= outputs@.len(),
            all == info_views(outputs@),
            output_named(all, name@) == output_named(all.skip(i as int), name@),
        decreases outputs@.len() - i,
    {
        proof {
            assert(all.skip(i as int)[0] == outputs@[i as int]@);
            assert(all.skip(i as int).drop_first() =~= all.skip(i + 1));
        }
        if same_text(outputs[i].name.as_str(), name) {
            return Some(i);
        }
        i += 1;
    }
    None
}

} // verus!
