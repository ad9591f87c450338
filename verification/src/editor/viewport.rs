//! State of the editor's viewports shared by the 2D and 3D views.
use vstd::prelude::*;
use crate::text::str_eq;

verus! {

/// What a viewport shows.
#[derive(Debug, Clone, Copy, PartialEq, Eq, Structural)]
pub enum ViewportMode {
    Mode2d,
    Mode3d,
    /// 2D and 3D side by side.
    Split,
}

/// Size, mode and overlays of a viewport.
#[derive(Debug, Clone, Copy, PartialEq, Eq, Structural)]
pub struct ViewportState {
    pub width: u32,
    pub height: u32,
    pub mode: ViewportMode,
    pub show_grid: bool,
    pub show_colliders: bool,
    pub show_bones: bool,
    pub show_gizmos: bool,
}

impl Default for ViewportState {
    /// A 1280 by 720 2D viewport with grid and gizmos shown.
    fn default() -> (s: Self)
        ensures
            s == (ViewportState {
                width: 1280,
                height: 720,
                mode: ViewportMode::Mode2d,
                show_grid: true,
                show_colliders: false,
                show_bones: false,
                show_gizmos: true,
            }),
    {
        ViewportState {
            width: 1280,
            height: 720,
            mode: ViewportMode::Mode2d,
            show_grid: true,
            show_colliders: false,
            show_bones: false,
            show_gizmos: true,
        }
    }
}

/// Camera views of the 3D viewport.
#[derive(Debug, Clone, Copy, PartialEq, Eq, Structural)]
pub enum CameraMode3d {
    Perspective,
    Orthographic,
    Top,
    Bottom,
    Front,
    Back,
    Left,
    Right,
}


/// The names of a selection.
pub open spec fn selection_view(sel: Seq<String>) -> Seq<Seq<char>> {
    sel.map_values(|s: String| s@)
}

/// Selects the node `node_id` in a viewport's selection: without
/// `add_to_selection` the selection is cleared first; the node is appended
/// unless already selected.
pub fn select_node(selection: &mut Vec<String>, node_id: String, add_to_selection: bool)
    ensures
        ({
            let base = if add_to_selection { selection_view(old(selection)@) } else { Seq::<Seq<char>>::empty() };
            selection_view(final(selection)@) == (if base.contains(node_id@) { base } else { base.push(node_id@) })
        }),
{
    if !add_to_selection {
        selection.clear();
    }
    assert(selection_view(selection@) == (if add_to_selection { selection_view(old(selection)@) } else { Seq::<Seq<char>>::empty() })) by {
        if !add_to_selection {
            assert(selection_view(selection@) =~= Seq::<Seq<char>>::empty());
        }
    }
    let ghost base = selection_view(selection@);
    let mut i: usize = 0;
    while i < selection.len()
        invariant
            i <= selection@.len(),
            base == selection_view(selection@),
            base == (if add_to_selection { selection_view(old(selection)@) } else { Seq::<Seq<char>>::empty() }),
            forall|j: int| 0 <= j < i ==> selection@[j]@ != node_id@,
        decreases selection@.len() - i,
    {
        if str_eq(selection[i].as_str(), node_id.as_str()) {
            assert(base[i as int] == node_id@);
            assert(base.contains(node_id@));
            return;
        }
        i = i + 1;
    }
    assert(!base.contains(node_id@)) by {
        if base.contains(node_id@) {
            let j = choose|j: int| 0 <= j < base.len() && base[j] == node_id@;
            assert(selection@[j]@ == node_id@);
        }
    }
    let ghost before = selection@;
    let ghost nv = node_id@;
    selection.push(node_id);
    assert(selection_view(selection@) =~= base.push(nv));
}

/// Clears a viewport's selection.
pub fn clear_selection(selection: &mut Vec<String>)
    ensures
        final(selection)@ == Seq::<String>::empty(),
{
    selection.clear();
}

} // verus!
