//! What the presentation layer reports back to the controller after it has
//! drawn a frame: plain records of what the user did.

use std::path::PathBuf;
use vstd::prelude::*;

verus! {

/// What happened in the controls during one frame.
#[derive(Debug, Clone)]
pub struct ControlsState {
    pub script_changed: bool,
    pub output_changed: bool,
    pub logging_changed: bool,
    pub start_clicked: bool,
    pub cancel_clicked: bool,
    pub add_script_clicked: bool,
    pub browse_output_clicked: bool,
    pub script_to_remove: Option<usize>,
}

impl Default for ControlsState {
    fn default() -> (state: ControlsState)
        ensures
            !state.script_changed,
            !state.output_changed,
            !state.logging_changed,
            !state.start_clicked,
            !state.cancel_clicked,
            !state.add_script_clicked,
            !state.browse_output_clicked,
            state.script_to_remove is None,
    {
        ControlsState {
            script_changed: false,
            output_changed: false,
            logging_changed: false,
            start_clicked: false,
            cancel_clicked: false,
            add_script_clicked: false,
            browse_output_clicked: false,
            script_to_remove: None,
        }
    }
}

/// What happened in the queue list during one frame.
#[derive(Debug, Clone)]
pub struct QueueListInteraction {
    pub clicked_index: Option<usize>,
    pub ctrl_held: bool,
    pub shift_held: bool,
    pub delete_pressed: bool,
    pub drag_target: Option<usize>,
}

impl Default for QueueListInteraction {
    fn default() -> (interaction: QueueListInteraction)
        ensures
            interaction.clicked_index is None,
            !interaction.ctrl_held,
            !interaction.shift_held,
            !interaction.delete_pressed,
            interaction.drag_target is None,
    {
        QueueListInteraction {
            clicked_index: None,
            ctrl_held: false,
            shift_held: false,
            delete_pressed: false,
            drag_target: None,
        }
    }
}

impl QueueListInteraction {
    /// Takes in what the pointer did to the row of the item at `index`: a
    /// click, the end of a drag, both or neither. The row of a locked item
    /// takes no click and no drop. Of several rows the last one counts.
    pub fn record_row(&mut self, index: usize, locked: bool, clicked: bool, dropped: bool)
        ensures
            final(self).clicked_index == if !locked && clicked {
                Some(index)
            } else {
                old(self).clicked_index
            },
            final(self).drag_target == if !locked && dropped {
                Some(index)
            } else {
                old(self).drag_target
            },
            final(self).ctrl_held == old(self).ctrl_held,
            final(self).shift_held == old(self).shift_held,
            final(self).delete_pressed == old(self).delete_pressed,
    {
        if !locked {
            if clicked {
                self.clicked_index = Some(index);
            }
            if dropped {
                self.drag_target = Some(index);
            }
        }
    }
}

/// What happened in the drop zone during one frame.
#[derive(Debug, Clone)]
pub enum DropZoneResult {
    DroppedFiles(Vec<PathBuf>),
    BrowseClicked,
    Nothing,
}

/// The paths among `files`, in order: a dropped file may come without one.
pub open spec fn present_paths(files: Seq<Option<PathBuf>>) -> Seq<PathBuf> {
    files.filter(|file: Option<PathBuf>| file is Some).map_values(|file: Option<PathBuf>| file->0)
}

/// The paths of the files that were dropped, in order, or nothing where no
/// dropped file has a path.
pub fn dropped_paths(files: Vec<Option<PathBuf>>) -> (paths: Option<Vec<PathBuf>>)
    ensures
        match paths {
            Some(found) => found@ == present_paths(files@) && found@.len() > 0,
            None => present_paths(files@).len() == 0,
        },
{
    let ghost has_path = |file: Option<PathBuf>| file is Some;
    let ghost path_of = |file: Option<PathBuf>| file->0;
    let mut found: Vec<PathBuf> = Vec::new();
    let mut i: usize = 0;
    proof {
        assert(files@.subrange(0, 0) =~= Seq::<Option<PathBuf>>::empty());
        reveal(Seq::filter);
        assert(found@ =~= files@.subrange(0, 0).filter(has_path).map_values(path_of));
    }
    while i < files.len()
        invariant
            i <= files.len(),
            has_path == (|file: Option<PathBuf>| file is Some),
            path_of == (|file: Option<PathBuf>| file->0),
            found@ == files@.subrange(0, i as int).filter(has_path).map_values(path_of),
        decreases files.len() - i,
    {
        proof {
            assert(files@.subrange(0, i + 1) =~= files@.subrange(0, i as int).push(
                files@[i as int],
            ));
            files@.subrange(0, i as int).lemma_filter_push(files@[i as int], has_path);
        }
        match &files[i] {
            Some(path) => {
                let ghost before = files@.subrange(0, i as int).filter(has_path);
                found.push(path.clone());
                proof {
                    assert(before.push(files@[i as int]).map_values(path_of) =~= before.map_values(
                        path_of,
                    ).push(*path));
                }
            },
            None => {},
        }
        i += 1;
    }
    proof {
        assert(files@.subrange(0, i as int) =~= files@);
    }
    if found.len() > 0 {
        Some(found)
    } else {
        None
    }
}

} // verus!
