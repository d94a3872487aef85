//! Plain graphics types: viewports, draw counts and pipeline variants.

use vstd::prelude::*;

verus! {

#[derive(Debug, Clone, Copy, PartialEq, Eq, Structural)]
pub struct GraphicsViewport {
    pub x: i32,
    pub y: i32,
    pub width: u32,
    pub height: u32,
}

/// The size in pixels of a window (or of an offscreen canvas).
#[derive(Debug, Clone, Copy, PartialEq, Eq, Structural)]
pub struct WindowSize {
    pub window_width: u32,
    pub window_height: u32,
}

/// The command that tells the backend to change the viewport.
#[derive(Debug, Clone, Copy, PartialEq, Eq, Structural)]
pub struct CommandUpdateViewport {
    pub x: i32,
    pub y: i32,
    pub width: u32,
    pub height: u32,
    pub by_resize: bool,
}

/// An offscreen canvas: its id and size in pixels.
#[derive(Debug)]
pub struct OffscreenCanvas {
    index: u128,
    width: u32,
    height: u32,
}

impl OffscreenCanvas {
    pub closed spec fn spec_index(&self) -> u128 {
        self.index
    }

    pub closed spec fn spec_size(&self) -> WindowSize {
        WindowSize { window_width: self.width, window_height: self.height }
    }

    pub fn new(index: u128, width: u32, height: u32) -> (r: Self)
        ensures
            r.spec_index() == index,
            r.spec_size() == (WindowSize { window_width: width, window_height: height }),
    {
        OffscreenCanvas { index, width, height }
    }

    pub fn width(&self) -> (r: u32)
        ensures
            r == self.spec_size().window_width,
    {
        self.width
    }

    pub fn height(&self) -> (r: u32)
        ensures
            r == self.spec_size().window_height,
    {
        self.height
    }

    pub fn get_index_unsafe(&self) -> (r: u128)
        ensures
            r == self.spec_index(),
    {
        self.index
    }
}

/// The canvas drawn on.
#[derive(Debug)]
pub enum GraphicsCanvasMode {
    Onscreen,
    Offscreen { offscreen_canvas: OffscreenCanvas },
}

/// The command that tells the backend which canvas is drawn on.
#[derive(Debug, Clone, Copy, PartialEq, Eq, Structural)]
pub enum CommandSwitchCanvasModeType {
    Onscreen,
    Offscreen { id: u128 },
}

/// The integer part of the state of the graphics canvases: the window size
/// of the onscreen and the offscreen canvas, which one is drawn on, and the
/// viewport that restricts drawing, if any.
#[derive(Debug)]
pub struct GraphicsCanvasHandle {
    onscreen: WindowSize,
    offscreen: WindowSize,
    cur_canvas_mode: GraphicsCanvasMode,
    offscreen_canvas_id_gen: u128,
    cur_dynamic_viewport: Option<GraphicsViewport>,
}

/// Whether a viewport covers the whole window.
pub open spec fn covers_window(x: i32, y: i32, width: u32, height: u32, w: WindowSize) -> bool {
    x == 0 && y == 0 && width == w.window_width && height == w.window_height
}

impl GraphicsCanvasHandle {
    /// The window size of the canvas drawn on.
    pub closed spec fn spec_cur_window(&self) -> WindowSize {
        if self.cur_canvas_mode is Offscreen {
            self.offscreen
        } else {
            self.onscreen
        }
    }

    pub closed spec fn spec_onscreen(&self) -> WindowSize {
        self.onscreen
    }

    pub closed spec fn spec_is_offscreen(&self) -> bool {
        self.cur_canvas_mode is Offscreen
    }

    pub closed spec fn spec_dynamic_viewport(&self) -> Option<GraphicsViewport> {
        self.cur_dynamic_viewport
    }

    pub closed spec fn spec_next_offscreen_id(&self) -> u128 {
        self.offscreen_canvas_id_gen
    }

    pub fn new(window: WindowSize) -> (r: Self)
        ensures
            r.spec_cur_window() == window,
            r.spec_onscreen() == window,
            !r.spec_is_offscreen(),
            r.spec_dynamic_viewport() is None,
            r.spec_next_offscreen_id() == 0,
    {
        GraphicsCanvasHandle {
            onscreen: window,
            offscreen: window,
            cur_canvas_mode: GraphicsCanvasMode::Onscreen,
            offscreen_canvas_id_gen: 0,
            cur_dynamic_viewport: None,
        }
    }

    /// The onscreen window was resized.
    pub fn resized(&mut self, window: WindowSize)
        ensures
            final(self).spec_onscreen() == window,
            final(self).spec_is_offscreen() == old(self).spec_is_offscreen(),
            !old(self).spec_is_offscreen() ==> final(self).spec_cur_window() == window,
            old(self).spec_is_offscreen() ==> final(self).spec_cur_window() == old(
                self,
            ).spec_cur_window(),
            final(self).spec_dynamic_viewport() == old(self).spec_dynamic_viewport(),
            final(self).spec_next_offscreen_id() == old(self).spec_next_offscreen_id(),
    {
        self.onscreen = window;
    }

    /// A new offscreen canvas of the given size, with the next id.
    pub fn offscreen_canvas(&mut self, width: u32, height: u32) -> (r: OffscreenCanvas)
        requires
            old(self).spec_next_offscreen_id() < u128::MAX,
        ensures
            r.spec_index() == old(self).spec_next_offscreen_id(),
            r.spec_size() == (WindowSize { window_width: width, window_height: height }),
            final(self).spec_next_offscreen_id() == old(self).spec_next_offscreen_id() + 1,
            final(self).spec_cur_window() == old(self).spec_cur_window(),
            final(self).spec_onscreen() == old(self).spec_onscreen(),
            final(self).spec_is_offscreen() == old(self).spec_is_offscreen(),
            final(self).spec_dynamic_viewport() == old(self).spec_dynamic_viewport(),
    {
        let id = self.offscreen_canvas_id_gen;
        self.offscreen_canvas_id_gen = self.offscreen_canvas_id_gen + 1;
        OffscreenCanvas::new(id, width, height)
    }

    /// Draws on `mode` from now on; an offscreen canvas lends its size.
    /// Returns the command for the backend.
    pub fn switch_canvas(&mut self, mode: GraphicsCanvasMode) -> (r: CommandSwitchCanvasModeType)
        ensures
            match mode {
                GraphicsCanvasMode::Onscreen => r == CommandSwitchCanvasModeType::Onscreen
                    && !final(self).spec_is_offscreen() && final(self).spec_cur_window() == old(
                    self,
                ).spec_onscreen(),
                GraphicsCanvasMode::Offscreen { offscreen_canvas } => r
                    == CommandSwitchCanvasModeType::Offscreen { id: offscreen_canvas.spec_index() }
                    && final(self).spec_is_offscreen() && final(self).spec_cur_window()
                    == offscreen_canvas.spec_size(),
            },
            final(self).spec_onscreen() == old(self).spec_onscreen(),
            final(self).spec_dynamic_viewport() == old(self).spec_dynamic_viewport(),
            final(self).spec_next_offscreen_id() == old(self).spec_next_offscreen_id(),
    {
        let cmd = match &mode {
            GraphicsCanvasMode::Offscreen { offscreen_canvas } => {
                self.offscreen = WindowSize {
                    window_width: offscreen_canvas.width(),
                    window_height: offscreen_canvas.height(),
                };
                CommandSwitchCanvasModeType::Offscreen { id: offscreen_canvas.get_index_unsafe() }
            },
            GraphicsCanvasMode::Onscreen => CommandSwitchCanvasModeType::Onscreen,
        };
        self.cur_canvas_mode = mode;
        cmd
    }

    /// update the viewport of the window where the origin is top left;
    /// a viewport that covers the whole window is no restriction. Returns
    /// the command for the backend.
    pub fn update_window_viewport(&mut self, x: i32, y: i32, width: u32, height: u32) -> (r:
        CommandUpdateViewport)
        ensures
            r == (CommandUpdateViewport { x, y, width, height, by_resize: false }),
            covers_window(x, y, width, height, old(self).spec_cur_window())
                ==> final(self).spec_dynamic_viewport() is None,
            !covers_window(x, y, width, height, old(self).spec_cur_window())
                ==> final(self).spec_dynamic_viewport() == Some(
                GraphicsViewport { x, y, width, height },
            ),
            final(self).spec_cur_window() == old(self).spec_cur_window(),
            final(self).spec_onscreen() == old(self).spec_onscreen(),
            final(self).spec_is_offscreen() == old(self).spec_is_offscreen(),
            final(self).spec_next_offscreen_id() == old(self).spec_next_offscreen_id(),
    {
        self.cur_dynamic_viewport = Some(GraphicsViewport { x, y, width, height });
        let cur = self.window_props();
        if x == 0 && y == 0 && width == cur.window_width && height == cur.window_height {
            self.cur_dynamic_viewport = None;
        }
        CommandUpdateViewport { x, y, width, height, by_resize: false }
    }

    /// reset the viewport to the original window viewport
    pub fn reset_window_viewport(&mut self) -> (r: CommandUpdateViewport)
        ensures
            final(self).spec_dynamic_viewport() is None,
            r == (CommandUpdateViewport {
                x: 0,
                y: 0,
                width: old(self).spec_cur_window().window_width,
                height: old(self).spec_cur_window().window_height,
                by_resize: false,
            }),
            final(self).spec_cur_window() == old(self).spec_cur_window(),
            final(self).spec_onscreen() == old(self).spec_onscreen(),
            final(self).spec_is_offscreen() == old(self).spec_is_offscreen(),
            final(self).spec_next_offscreen_id() == old(self).spec_next_offscreen_id(),
    {
        let window_props = self.window_props();
        self.update_window_viewport(0, 0, window_props.window_width, window_props.window_height)
    }

    /// get the current dynamic viewport, if any
    pub fn dynamic_viewport(&self) -> (r: Option<GraphicsViewport>)
        ensures
            r == self.spec_dynamic_viewport(),
    {
        self.cur_dynamic_viewport
    }

    /// The window size of the canvas drawn on, independent of the viewport.
    pub fn window_props(&self) -> (r: WindowSize)
        ensures
            r == self.spec_cur_window(),
    {
        match self.cur_canvas_mode {
            GraphicsCanvasMode::Offscreen { .. } => self.offscreen,
            GraphicsCanvasMode::Onscreen => self.onscreen,
        }
    }

    /// this function always respects the current viewport
    pub fn window_width(&self) -> (r: u32)
        ensures
            r == match self.spec_dynamic_viewport() {
                Some(vp) => vp.width,
                None => self.spec_cur_window().window_width,
            },
    {
        match self.cur_dynamic_viewport {
            Some(vp) => vp.width,
            None => self.window_props().window_width,
        }
    }

    /// this function always respects the current viewport
    pub fn window_height(&self) -> (r: u32)
        ensures
            r == match self.spec_dynamic_viewport() {
                Some(vp) => vp.height,
                None => self.spec_cur_window().window_height,
            },
    {
        match self.cur_dynamic_viewport {
            Some(vp) => vp.height,
            None => self.window_props().window_height,
        }
    }
}

/// Whether `bytes` are the bytes of `quads`, each quad as `quad_bytes`
/// encodes it, one after the other.
pub open spec fn encodes_quads<Q, E: Fn(&Q) -> Vec<u8>>(quads: Seq<Q>, quad_bytes: E, bytes: Seq<u8>) -> bool {
    exists|parts: Seq<Vec<u8>>|
        {
            &&& parts.len() == quads.len()
            &&& forall|i: int|
                0 <= i < quads.len() ==> quad_bytes.ensures((&quads[i],), #[trigger] parts[i])
            &&& bytes == parts.map_values(|v: Vec<u8>| v@).flatten()
        }
}

proof fn lemma_flatten_concat(p: Seq<Seq<u8>>, q: Seq<Seq<u8>>)
    ensures
        (p + q).flatten() == p.flatten() + q.flatten(),
    decreases q.len(),
{
    if q.len() == 0 {
        assert(p + q =~= p);
        assert(q.flatten() =~= Seq::<u8>::empty());
        assert(p.flatten() + q.flatten() =~= p.flatten());
    } else {
        let ql = q.drop_last();
        lemma_flatten_concat(p, ql);
        assert(p + q =~= (p + ql).push(q.last()));
        assert(q =~= ql.push(q.last()));
        (p + ql).lemma_flatten_push(q.last());
        ql.lemma_flatten_push(q.last());
        assert(p.flatten() + ql.flatten() + q.last() =~= p.flatten() + (ql.flatten() + q.last()));
    }
}

/// No quads have no bytes.
pub proof fn lemma_encodes_no_quads<Q, E: Fn(&Q) -> Vec<u8>>(quad_bytes: E)
    ensures
        encodes_quads(Seq::<Q>::empty(), quad_bytes, Seq::empty()),
{
    let parts = Seq::<Vec<u8>>::empty();
    assert(parts.map_values(|v: Vec<u8>| v@) =~= Seq::<Seq<u8>>::empty());
    assert(Seq::<Seq<u8>>::empty().flatten() == Seq::<u8>::empty());
}

/// The bytes of two lists of quads, one after the other, are the bytes of
/// the joined list.
pub proof fn lemma_encodes_concat<Q, E: Fn(&Q) -> Vec<u8>>(
    a: Seq<Q>,
    b: Seq<Q>,
    quad_bytes: E,
    x: Seq<u8>,
    y: Seq<u8>,
)
    requires
        encodes_quads(a, quad_bytes, x),
        encodes_quads(b, quad_bytes, y),
    ensures
        encodes_quads(a + b, quad_bytes, x + y),
{
    let pa = choose|parts: Seq<Vec<u8>>|
        {
            &&& parts.len() == a.len()
            &&& forall|i: int|
                0 <= i < a.len() ==> quad_bytes.ensures((&a[i],), #[trigger] parts[i])
            &&& x == parts.map_values(|v: Vec<u8>| v@).flatten()
        };
    let pb = choose|parts: Seq<Vec<u8>>|
        {
            &&& parts.len() == b.len()
            &&& forall|i: int|
                0 <= i < b.len() ==> quad_bytes.ensures((&b[i],), #[trigger] parts[i])
            &&& y == parts.map_values(|v: Vec<u8>| v@).flatten()
        };
    let parts = pa + pb;
    assert(parts.map_values(|v: Vec<u8>| v@) =~= pa.map_values(|v: Vec<u8>| v@) + pb.map_values(
        |v: Vec<u8>| v@,
    ));
    lemma_flatten_concat(pa.map_values(|v: Vec<u8>| v@), pb.map_values(|v: Vec<u8>| v@));
    assert forall|i: int| 0 <= i < (a + b).len() implies quad_bytes.ensures(
        (&(a + b)[i],),
        #[trigger] parts[i],
    ) by {
        if i < a.len() {
            assert(parts[i] == pa[i]);
            assert((a + b)[i] == a[i]);
        } else {
            assert(parts[i] == pb[i - a.len()]);
            assert((a + b)[i] == b[i - a.len()]);
        }
    }
}

/// How many quads of a quad container are drawn.
pub enum QuadContainerRenderCount {
    /// All quads from the offset on.
    Auto,
    Count(usize),
}

/// A container of quads, uploaded as one buffer object when it holds any.
pub struct QuadContainerImpl<Q, B> {
    pub quads: Vec<Q>,
    pub quad_buffer_object_index: Option<B>,
}

impl<Q, B> QuadContainerImpl<Q, B> {
    /// The bytes of the quads for their buffer object: the bytes of each quad
    /// as `quad_bytes` encodes it, one quad after the other.
    pub fn quads_to_bytes<F: Fn(&Q) -> Vec<u8>>(quads: &[Q], quad_bytes: F) -> (r: Vec<u8>)
        requires
            forall|i: int| 0 <= i < quads@.len() ==> quad_bytes.requires((&quads@[i],)),
        ensures
            encodes_quads(quads@, quad_bytes, r@),
    {
        let mut res: Vec<u8> = Vec::new();
        let ghost mut parts: Seq<Vec<u8>> = Seq::empty();
        let mut i: usize = 0;
        assert(parts.map_values(|v: Vec<u8>| v@) =~= Seq::<Seq<u8>>::empty());
        while i < quads.len()
            invariant
                i <= quads@.len(),
                parts.len() == i,
                forall|j: int| 0 <= j < quads@.len() ==> quad_bytes.requires((&quads@[j],)),
                forall|j: int| 0 <= j < i ==> quad_bytes.ensures((&quads@[j],), #[trigger] parts[j]),
                res@ == parts.map_values(|v: Vec<u8>| v@).flatten(),
            decreases quads.len() - i,
        {
            let mut b = quad_bytes(&quads[i]);
            proof {
                let old_parts = parts;
                parts = parts.push(b);
                assert(parts.map_values(|v: Vec<u8>| v@) =~= old_parts.map_values(|v: Vec<u8>| v@).push(
                    b@,
                ));
                old_parts.map_values(|v: Vec<u8>| v@).lemma_flatten_push(b@);
            }
            res.append(&mut b);
            i = i + 1;
        }
        res
    }

    /// How many quads a draw of `quad_draw_count` quads from `quad_offset`
    /// renders: nothing (`None`) when that count is zero, when it runs past
    /// the quads, or when nothing was uploaded.
    pub fn render_quad_count(&self, quad_offset: usize, quad_draw_count: &QuadContainerRenderCount) -> (r:
        Option<usize>)
        requires
            quad_draw_count is Auto ==> quad_offset <= self.quads@.len(),
            quad_draw_count matches QuadContainerRenderCount::Count(c) ==> quad_offset + *c
                <= usize::MAX,
        ensures
            ({
                let n = match quad_draw_count {
                    QuadContainerRenderCount::Auto => self.quads@.len() - quad_offset,
                    QuadContainerRenderCount::Count(c) => *c as int,
                };
                if n == 0 || self.quads@.len() < quad_offset + n
                    || self.quad_buffer_object_index is None {
                    r is None
                } else {
                    r == Some(n as usize)
                }
            }),
    {
        let quad_draw_num = match quad_draw_count {
            QuadContainerRenderCount::Auto => self.quads.len() - quad_offset,
            QuadContainerRenderCount::Count(count) => *count,
        };
        if quad_draw_num == 0 || self.quads.len() < quad_offset + quad_draw_num {
            return None;
        }
        if self.quad_buffer_object_index.is_none() {
            return None;
        }
        Some(quad_draw_num)
    }

    /// Whether drawing `render_info_uniform_count` instances of the first
    /// quad renders anything.
    pub fn renders_sprite_multiple(&self, render_info_uniform_count: usize) -> (r: bool)
        ensures
            r <==> render_info_uniform_count != 0 && self.quad_buffer_object_index is Some,
    {
        if render_info_uniform_count == 0 {
            return false;
        }
        if self.quad_buffer_object_index.is_none() {
            return false;
        }
        true
    }
}

/// Makes quad containers; `H` is the handle of the graphics backend and `O`
/// the handle that creates buffer objects.
pub struct GraphicsQuadContainerHandle<H, O> {
    backend_handle: H,
    buffer_object_handle: O,
}

impl<H, O> GraphicsQuadContainerHandle<H, O> {
    pub closed spec fn spec_backend_handle(&self) -> H {
        self.backend_handle
    }

    pub closed spec fn spec_buffer_object_handle(&self) -> O {
        self.buffer_object_handle
    }

    pub fn new(backend_handle: H, buffer_object_handle: O) -> (r: Self)
        ensures
            r.spec_backend_handle() == backend_handle,
            r.spec_buffer_object_handle() == buffer_object_handle,
    {
        GraphicsQuadContainerHandle { backend_handle, buffer_object_handle }
    }

    /// A container of `quads`. Only when there are quads, their bytes (see
    /// [`QuadContainerImpl::quads_to_bytes`], each quad encoded by
    /// `quad_bytes`) and their number go to `upload`, which creates the
    /// buffer object and tells the backend how many quads need indices; an
    /// empty container has no buffer object and `upload` is not called.
    pub fn create_quad_container<Q, B, E: Fn(&Q) -> Vec<u8>, F: FnOnce(&H, &O, Vec<u8>, u64) -> B>(
        &self,
        quads: Vec<Q>,
        quad_bytes: E,
        upload: F,
    ) -> (r: QuadContainerImpl<Q, B>)
        requires
            forall|i: int| 0 <= i < quads@.len() ==> quad_bytes.requires((&quads@[i],)),
            quads@.len() > 0 ==> forall|bytes: Vec<u8>|
                #[trigger] upload.requires(
                    (
                        &self.spec_backend_handle(),
                        &self.spec_buffer_object_handle(),
                        bytes,
                        quads@.len() as u64,
                    ),
                ),
        ensures
            r.quads@ == quads@,
            quads@.len() == 0 ==> r.quad_buffer_object_index is None,
            quads@.len() > 0 ==> exists|bytes: Vec<u8>|
                {
                    &&& #[trigger] encodes_quads(quads@, quad_bytes, bytes@)
                    &&& r.quad_buffer_object_index matches Some(b)
                    &&& upload.ensures(
                        (
                            &self.spec_backend_handle(),
                            &self.spec_buffer_object_handle(),
                            bytes,
                            quads@.len() as u64,
                        ),
                        b,
                    )
                },
    {
        let mut quad_buffer_object_index = None;
        if quads.len() > 0 {
            let bytes = QuadContainerImpl::<Q, B>::quads_to_bytes(quads.as_slice(), quad_bytes);
            let ghost g = bytes;
            let n: u64 = quads.len() as u64;
            assert(n == quads@.len() as u64);
            assert(upload.requires(
                (&self.spec_backend_handle(), &self.spec_buffer_object_handle(), bytes, quads@.len() as u64),
            ));
            let b = upload(&self.backend_handle, &self.buffer_object_handle, bytes, n);
            quad_buffer_object_index = Some(b);
            assert(encodes_quads(quads@, quad_bytes, g@));
        }
        QuadContainerImpl { quads, quad_buffer_object_index }
    }
}

/// The stencil operation of a render pipeline.
#[derive(Debug, Copy, Clone, PartialEq, Eq, Structural, PartialOrd, Ord)]
pub enum StencilOpType {
    /// No stencil test.
    NoStencil,
    AlwaysPass,
    OnlyWhenPassed,
    OnlyWhenNotPassed,
}

pub const STENCIL_OP_TYPE_COUNT: usize = 4;

impl Default for StencilOpType {
    fn default() -> (r: Self)
        ensures
            r == StencilOpType::NoStencil,
    {
        StencilOpType::NoStencil
    }
}

impl StencilOpType {
    /// The variant's position in declaration order.
    pub open spec fn spec_index(self) -> usize {
        match self {
            StencilOpType::NoStencil => 0,
            StencilOpType::AlwaysPass => 1,
            StencilOpType::OnlyWhenPassed => 2,
            StencilOpType::OnlyWhenNotPassed => 3,
        }
    }

    /// The variant at a position in declaration order, if any.
    pub fn from_index(n: usize) -> (r: Option<Self>)
        ensures
            n < STENCIL_OP_TYPE_COUNT <==> r is Some,
            r matches Some(v) ==> v.spec_index() == n,
    {
        if n == 0 {
            Some(StencilOpType::NoStencil)
        } else if n == 1 {
            Some(StencilOpType::AlwaysPass)
        } else if n == 2 {
            Some(StencilOpType::OnlyWhenPassed)
        } else if n == 3 {
            Some(StencilOpType::OnlyWhenNotPassed)
        } else {
            None
        }
    }
}

/// Which color channels a render pipeline writes.
#[derive(Debug, Copy, Clone, PartialEq, Eq, Structural, PartialOrd, Ord)]
pub enum ColorWriteMaskType {
    All,
    ColorOnly,
    AlphaOnly,
    /// No channel is written.
    NoChannel,
}

pub const COLOR_MASK_TYPE_COUNT: usize = 4;

impl Default for ColorWriteMaskType {
    fn default() -> (r: Self)
        ensures
            r == ColorWriteMaskType::All,
    {
        ColorWriteMaskType::All
    }
}

impl ColorWriteMaskType {
    /// The variant's position in declaration order.
    pub open spec fn spec_index(self) -> usize {
        match self {
            ColorWriteMaskType::All => 0,
            ColorWriteMaskType::ColorOnly => 1,
            ColorWriteMaskType::AlphaOnly => 2,
            ColorWriteMaskType::NoChannel => 3,
        }
    }

    /// The variant at a position in declaration order, if any.
    pub fn from_index(n: usize) -> (r: Option<Self>)
        ensures
            n < COLOR_MASK_TYPE_COUNT <==> r is Some,
            r matches Some(v) ==> v.spec_index() == n,
    {
        if n == 0 {
            Some(ColorWriteMaskType::All)
        } else if n == 1 {
            Some(ColorWriteMaskType::ColorOnly)
        } else if n == 2 {
            Some(ColorWriteMaskType::AlphaOnly)
        } else if n == 3 {
            Some(ColorWriteMaskType::NoChannel)
        } else {
            None
        }
    }
}

} // verus!
