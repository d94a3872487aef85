//! Which canvas the renderer draws to: the onscreen canvas or one of the
//! offscreen canvases, each with its render setup. A setup is held through a
//! shared handle of the caller's type `S`; building it (pipelines, images)
//! is the graphics backend's work.

use vstd::prelude::*;

use std::collections::HashMap;

verus! {

broadcast use vstd::std_specs::hash::group_hash_axioms;

/// The canvas a frame renders to.
#[derive(Debug, Clone, Copy, PartialEq, Eq, Structural)]
pub enum FrameCanvasIndex {
    Onscreen,
    Offscreen(u128),
}

/// How the pipelines of a canvas setup are compiled.
#[derive(Debug, Clone, Copy, PartialEq, Eq, Structural)]
pub enum CompileOneByOneType {
    /// All at once.
    NotOneByOne,
    /// One by one, as they are needed.
    Compile,
    /// One by one, and the full set queued in the background.
    CompileAndQueueFullCompile,
}

/// The compile mode of the onscreen canvas.
pub fn onscreen_compile_type(compile_one_by_one: bool, should_queue_full_compile: bool) -> (r:
    CompileOneByOneType)
    ensures
        r == if compile_one_by_one && should_queue_full_compile {
            CompileOneByOneType::CompileAndQueueFullCompile
        } else if compile_one_by_one {
            CompileOneByOneType::Compile
        } else {
            CompileOneByOneType::NotOneByOne
        },
{
    if compile_one_by_one && should_queue_full_compile {
        CompileOneByOneType::CompileAndQueueFullCompile
    } else if compile_one_by_one {
        CompileOneByOneType::Compile
    } else {
        CompileOneByOneType::NotOneByOne
    }
}

/// The compile mode of an offscreen canvas: always one by one.
pub fn offscreen_compile_type(should_queue_full_compile: bool) -> (r: CompileOneByOneType)
    ensures
        r == if should_queue_full_compile {
            CompileOneByOneType::CompileAndQueueFullCompile
        } else {
            CompileOneByOneType::Compile
        },
{
    if should_queue_full_compile {
        CompileOneByOneType::CompileAndQueueFullCompile
    } else {
        CompileOneByOneType::Compile
    }
}

/// The render setups of the canvases, and the canvas drawn to now.
pub struct RenderSetup<S> {
    pub onscreen: S,
    pub offscreens: HashMap<u128, S>,
    cur_canvas_mode: FrameCanvasIndex,
}

impl<S> RenderSetup<S> {
    /// The setup of the onscreen canvas.
    pub closed spec fn spec_onscreen(&self) -> S {
        self.onscreen
    }

    /// The setups of the offscreen canvases, by id.
    pub closed spec fn spec_offscreens(&self) -> Map<u128, S> {
        self.offscreens@
    }

    /// The canvas drawn to now.
    pub closed spec fn spec_cur_canvas(&self) -> FrameCanvasIndex {
        self.cur_canvas_mode
    }

    /// Starts with the onscreen setup only, drawing onscreen.
    pub fn new(onscreen: S) -> (r: Self)
        ensures
            r.spec_onscreen() == onscreen,
            r.spec_offscreens() == Map::<u128, S>::empty(),
            r.spec_cur_canvas() == FrameCanvasIndex::Onscreen,
    {
        RenderSetup { onscreen, offscreens: HashMap::new(), cur_canvas_mode: FrameCanvasIndex::Onscreen }
    }

    /// The setup of the canvas of a frame.
    pub fn get_of_frame(&self, index: FrameCanvasIndex) -> (r: &S)
        requires
            index matches FrameCanvasIndex::Offscreen(id) ==> self.spec_offscreens().contains_key(id),
        ensures
            *r == match index {
                FrameCanvasIndex::Onscreen => self.spec_onscreen(),
                FrameCanvasIndex::Offscreen(id) => self.spec_offscreens()[id],
            },
    {
        match index {
            FrameCanvasIndex::Onscreen => &self.onscreen,
            FrameCanvasIndex::Offscreen(id) => self.offscreens.get(&id).unwrap(),
        }
    }

    /// The setup of the canvas drawn to now.
    pub fn get(&self) -> (r: &S)
        requires
            self.spec_cur_canvas() matches FrameCanvasIndex::Offscreen(id)
                ==> self.spec_offscreens().contains_key(id),
        ensures
            *r == match self.spec_cur_canvas() {
                FrameCanvasIndex::Onscreen => self.spec_onscreen(),
                FrameCanvasIndex::Offscreen(id) => self.spec_offscreens()[id],
            },
    {
        self.get_of_frame(self.cur_canvas())
    }

    /// The canvas drawn to now.
    pub fn cur_canvas(&self) -> (r: FrameCanvasIndex)
        ensures
            r == self.spec_cur_canvas(),
    {
        self.cur_canvas_mode
    }

    /// Keeps the setup of a new offscreen canvas `id`.
    pub fn create_offscreen_canvas(&mut self, id: u128, setup: S)
        ensures
            final(self).spec_offscreens() == old(self).spec_offscreens().insert(id, setup),
            final(self).spec_onscreen() == old(self).spec_onscreen(),
            final(self).spec_cur_canvas() == old(self).spec_cur_canvas(),
    {
        self.offscreens.insert(id, setup);
    }

    /// Drops the setup of offscreen canvas `id`.
    pub fn destroy_offscreen_canvas(&mut self, id: u128)
        ensures
            final(self).spec_offscreens() == old(self).spec_offscreens().remove(id),
            final(self).spec_onscreen() == old(self).spec_onscreen(),
            final(self).spec_cur_canvas() == old(self).spec_cur_canvas(),
    {
        let _had_item = self.offscreens.remove(&id).is_some();
    }

    /// A new frame draws onscreen first.
    pub fn new_frame(&mut self)
        ensures
            final(self).spec_cur_canvas() == FrameCanvasIndex::Onscreen,
            final(self).spec_onscreen() == old(self).spec_onscreen(),
            final(self).spec_offscreens() == old(self).spec_offscreens(),
    {
        self.cur_canvas_mode = FrameCanvasIndex::Onscreen;
    }
}

impl<S: Clone> RenderSetup<S> {
    /// Draws to canvas `mode` from now on; the setup of an offscreen canvas
    /// is also handed to the frame (`render_setups`), which keeps it alive
    /// while the frame is drawn.
    pub fn switch_canvas(&mut self, mode: FrameCanvasIndex, render_setups: &mut Vec<S>)
        requires
            mode matches FrameCanvasIndex::Offscreen(id) ==> old(self).spec_offscreens().contains_key(id),
        ensures
            final(self).spec_cur_canvas() == mode,
            final(self).spec_onscreen() == old(self).spec_onscreen(),
            final(self).spec_offscreens() == old(self).spec_offscreens(),
            mode is Onscreen ==> final(render_setups)@ == old(render_setups)@,
            mode matches FrameCanvasIndex::Offscreen(id) ==> final(render_setups)@.len() == old(
                render_setups,
            )@.len() + 1 && final(render_setups)@.drop_last() == old(render_setups)@ && cloned(
                old(self).spec_offscreens()[id],
                final(render_setups)@.last(),
            ),
    {
        match mode {
            FrameCanvasIndex::Onscreen => {},
            FrameCanvasIndex::Offscreen(id) => {
                let setup = self.offscreens.get(&id).unwrap().clone();
                render_setups.push(setup);
                proof {
                    assert(render_setups@.drop_last() =~= old(render_setups)@);
                }
            },
        }
        self.cur_canvas_mode = mode;
    }
}

} // verus!
