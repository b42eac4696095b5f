//! The state behind the UI panel that the core consults. Drawing the panel
//! itself is overlay work outside the core; what matters here is the one
//! decision it feeds back: which post-process pipeline presents the frame.

use vstd::prelude::*;
use crate::dispatch::{PipelineVariant, PostProcessKind};

verus! {

/// The overlay panel's persistent state.
pub struct Panel {
    /// Index of the post-process pipeline the user selected.
    pub current_pipeline: usize,
}

impl Default for Panel {
    /// A fresh panel starts on the presenting pipeline.
    fn default() -> (p: Panel)
        ensures
            p.current_pipeline == 0,
    {
        Panel { current_pipeline: 0 }
    }
}

impl Panel {
    /// The post-process kind the current selection names: 0 presents the
    /// image, 1 visualizes normals, 2 visualizes depth; anything else names
    /// no pass.
    pub fn selected_post_process(&self) -> (k: Option<PostProcessKind>)
        ensures
            self.current_pipeline == 0 ==> k == Some(PostProcessKind::Present),
            self.current_pipeline == 1 ==> k == Some(PostProcessKind::Normal),
            self.current_pipeline == 2 ==> k == Some(PostProcessKind::Depth),
            self.current_pipeline >= 3 ==> k is None,
    {
        if self.current_pipeline == 0 {
            Some(PostProcessKind::Present)
        } else if self.current_pipeline == 1 {
            Some(PostProcessKind::Normal)
        } else if self.current_pipeline == 2 {
            Some(PostProcessKind::Depth)
        } else {
            None
        }
    }

    /// The final pass of a frame: exactly one post-process variant, chosen
    /// by the panel; an out-of-range selection falls back to presenting.
    pub fn final_pass(&self) -> (v: PipelineVariant)
        ensures
            self.current_pipeline == 0 ==> v == PipelineVariant::PostProcess(
                PostProcessKind::Present,
            ),
            self.current_pipeline == 1 ==> v == PipelineVariant::PostProcess(
                PostProcessKind::Normal,
            ),
            self.current_pipeline == 2 ==> v == PipelineVariant::PostProcess(
                PostProcessKind::Depth,
            ),
            self.current_pipeline >= 3 ==> v == PipelineVariant::PostProcess(
                PostProcessKind::Present,
            ),
    {
        match self.selected_post_process() {
            Some(k) => PipelineVariant::PostProcess(k),
            None => PipelineVariant::PostProcess(PostProcessKind::Present),
        }
    }
}

} // verus!
