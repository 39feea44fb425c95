use vstd::prelude::*;

verus! {

/// The layouts the frame's images pass through.
#[derive(Clone, Copy, Debug, PartialEq, Eq, Structural)]
pub enum ImageLayout {
    Undefined,
    ColorAttachment,
    DepthAttachment,
    TransferSrc,
    TransferDst,
    PresentSrc,
}

/// The images a frame's primary command buffer touches.
#[derive(Clone, Copy, Debug, PartialEq, Eq, Structural)]
pub enum FrameImage {
    /// The acquired swapchain image.
    Swapchain,
    /// The depth buffer of the acquired image.
    Depth,
    /// The image a captured frame is blitted into.
    Capture,
}

/// `VK_PIPELINE_STAGE_2_TOP_OF_PIPE_BIT`.
pub const STAGE_TOP_OF_PIPE: u64 = 0x1;

/// `VK_PIPELINE_STAGE_2_COLOR_ATTACHMENT_OUTPUT_BIT`.
pub const STAGE_COLOR_ATTACHMENT_OUTPUT: u64 = 0x400;

/// `VK_PIPELINE_STAGE_2_TRANSFER_BIT`.
pub const STAGE_TRANSFER: u64 = 0x1000;

/// `VK_PIPELINE_STAGE_2_BOTTOM_OF_PIPE_BIT`.
pub const STAGE_BOTTOM_OF_PIPE: u64 = 0x2000;

/// `VK_ACCESS_2_NONE`.
pub const ACCESS_NONE: u64 = 0;

/// `VK_ACCESS_2_COLOR_ATTACHMENT_WRITE_BIT`.
pub const ACCESS_COLOR_ATTACHMENT_WRITE: u64 = 0x100;

/// `VK_ACCESS_2_TRANSFER_READ_BIT`.
pub const ACCESS_TRANSFER_READ: u64 = 0x800;

/// `VK_IMAGE_ASPECT_COLOR_BIT`.
pub const ASPECT_COLOR: u32 = 1;

/// `VK_IMAGE_ASPECT_DEPTH_BIT`.
pub const ASPECT_DEPTH: u32 = 2;

/// `VK_FILTER_LINEAR`.
pub const FILTER_LINEAR: i32 = 1;

/// The width and height of an image.
#[derive(Clone, Copy, Debug, PartialEq, Eq, Structural)]
pub struct Extent2 {
    pub width: u32,
    pub height: u32,
}

/// A texel position, as blits and copies take it.
#[derive(Clone, Copy, Debug, PartialEq, Eq, Structural)]
pub struct Offset3 {
    pub x: i32,
    pub y: i32,
    pub z: i32,
}

/// A box of texels, as copies take it.
#[derive(Clone, Copy, Debug, PartialEq, Eq, Structural)]
pub struct Extent3 {
    pub width: u32,
    pub height: u32,
    pub depth: u32,
}

/// The part of an image a barrier applies to.
#[derive(Clone, Copy, Debug, PartialEq, Eq, Structural)]
pub struct SubresourceRange {
    pub aspect: u32,
    pub base_mip_level: u32,
    pub level_count: u32,
    pub base_array_layer: u32,
    pub layer_count: u32,
}

/// The layers of one mip level that a blit or copy reads or writes.
#[derive(Clone, Copy, Debug, PartialEq, Eq, Structural)]
pub struct SubresourceLayers {
    pub aspect: u32,
    pub mip_level: u32,
    pub base_array_layer: u32,
    pub layer_count: u32,
}

/// A layout transition of `image` from `from` to `to`, ordering the accesses
/// `src_access` of stages `src_stage` before the accesses `dst_access` of
/// stages `dst_stage`.
#[derive(Clone, Copy, Debug, PartialEq, Eq, Structural)]
pub struct ImageBarrier {
    pub image: FrameImage,
    pub from: ImageLayout,
    pub to: ImageLayout,
    pub src_stage: u64,
    pub src_access: u64,
    pub dst_stage: u64,
    pub dst_access: u64,
    pub range: SubresourceRange,
}

/// A blit from the swapchain image (in `src_layout`) onto the capture image
/// (in `dst_layout`): the box from `src_start` to `src_end` is scaled onto the
/// box from `dst_start` to `dst_end` with filter `filter`.
#[derive(Clone, Copy, Debug, PartialEq, Eq, Structural)]
pub struct Blit {
    pub src_layout: ImageLayout,
    pub dst_layout: ImageLayout,
    pub src_subresource: SubresourceLayers,
    pub src_start: Offset3,
    pub src_end: Offset3,
    pub dst_subresource: SubresourceLayers,
    pub dst_start: Offset3,
    pub dst_end: Offset3,
    pub filter: i32,
}

/// A copy of the capture image (in `image_layout`) into the capture buffer;
/// a row length and image height of 0 mean tightly packed rows.
#[derive(Clone, Copy, Debug, PartialEq, Eq, Structural)]
pub struct BufferImageCopy {
    pub image_layout: ImageLayout,
    pub buffer_offset: u64,
    pub buffer_row_length: u32,
    pub buffer_image_height: u32,
    pub image_subresource: SubresourceLayers,
    pub image_offset: Offset3,
    pub image_extent: Extent3,
}

/// One command of the frame's primary command buffer.
#[derive(Clone, Copy, Debug, PartialEq, Eq, Structural)]
pub enum FrameStep {
    Barrier(ImageBarrier),
    /// Begin dynamic rendering into the swapchain image and depth buffer, clearing both.
    BeginRendering,
    EndRendering,
    /// Execute the secondary command buffers of the passes.
    ExecutePasses,
    /// Blit the swapchain image into the capture image.
    BlitToCapture(Blit),
    /// Copy the capture image into the host-visible capture buffer.
    CopyCaptureToBuffer(BufferImageCopy),
}

/// The current layout of each image.
pub struct Layouts {
    pub swapchain: ImageLayout,
    pub depth: ImageLayout,
    pub capture: ImageLayout,
}

pub open spec fn layout_of(l: Layouts, image: FrameImage) -> ImageLayout {
    match image {
        FrameImage::Swapchain => l.swapchain,
        FrameImage::Depth => l.depth,
        FrameImage::Capture => l.capture,
    }
}

/// The layouts at the start of a frame: nothing is known of any image.
pub open spec fn frame_start_layouts() -> Layouts {
    Layouts {
        swapchain: ImageLayout::Undefined,
        depth: ImageLayout::Undefined,
        capture: ImageLayout::Undefined,
    }
}

/// `s` may run with the images in layouts `l`: a barrier starts from the image's
/// current layout, rendering needs the attachments in attachment layouts, the
/// blit needs source and destination in the transfer layouts it names, the copy
/// a capture image in the layout it names.
pub open spec fn step_ok(l: Layouts, s: FrameStep) -> bool {
    match s {
        FrameStep::Barrier(b) => layout_of(l, b.image) == b.from,
        FrameStep::BeginRendering => l.swapchain == ImageLayout::ColorAttachment && l.depth
            == ImageLayout::DepthAttachment,
        FrameStep::EndRendering => true,
        FrameStep::ExecutePasses => l.swapchain == ImageLayout::ColorAttachment && l.depth
            == ImageLayout::DepthAttachment,
        FrameStep::BlitToCapture(b) => l.swapchain == b.src_layout && b.src_layout == ImageLayout::TransferSrc
            && l.capture == b.dst_layout && b.dst_layout == ImageLayout::TransferDst,
        FrameStep::CopyCaptureToBuffer(c) => l.capture == c.image_layout && c.image_layout
            == ImageLayout::TransferSrc,
    }
}

/// The layouts after `s`.
pub open spec fn apply_step(l: Layouts, s: FrameStep) -> Layouts {
    match s {
        FrameStep::Barrier(b) => match b.image {
            FrameImage::Swapchain => Layouts { swapchain: b.to, ..l },
            FrameImage::Depth => Layouts { depth: b.to, ..l },
            FrameImage::Capture => Layouts { capture: b.to, ..l },
        },
        _ => l,
    }
}

/// Every step of `steps` may run in the layouts the steps before it leave.
pub open spec fn steps_ok(l: Layouts, steps: Seq<FrameStep>) -> bool
    decreases steps.len(),
{
    if steps.len() == 0 {
        true
    } else {
        step_ok(l, steps[0]) && steps_ok(apply_step(l, steps[0]), steps.drop_first())
    }
}

/// The layouts after `steps`.
pub open spec fn layouts_after(l: Layouts, steps: Seq<FrameStep>) -> Layouts
    decreases steps.len(),
{
    if steps.len() == 0 {
        l
    } else {
        layouts_after(apply_step(l, steps[0]), steps.drop_first())
    }
}

/// The whole first mip level and layer of a colour image.
pub open spec fn color_range() -> SubresourceRange {
    SubresourceRange { aspect: ASPECT_COLOR, base_mip_level: 0, level_count: 1, base_array_layer: 0, layer_count: 1 }
}

/// The whole first mip level and layer of a depth image.
pub open spec fn depth_range() -> SubresourceRange {
    SubresourceRange { aspect: ASPECT_DEPTH, base_mip_level: 0, level_count: 1, base_array_layer: 0, layer_count: 1 }
}

/// The first layer of mip level 0 of a colour image.
pub open spec fn color_layers() -> SubresourceLayers {
    SubresourceLayers { aspect: ASPECT_COLOR, mip_level: 0, base_array_layer: 0, layer_count: 1 }
}

pub open spec fn origin() -> Offset3 {
    Offset3 { x: 0, y: 0, z: 0 }
}

/// The corner opposite the origin of an image of extent `e`.
pub open spec fn far_corner(e: Extent2) -> Offset3 {
    Offset3 { x: e.width as i32, y: e.height as i32, z: 1 }
}

pub open spec fn barrier(
    image: FrameImage,
    from: ImageLayout,
    to: ImageLayout,
    src_stage: u64,
    src_access: u64,
    dst_stage: u64,
    dst_access: u64,
    range: SubresourceRange,
) -> FrameStep {
    FrameStep::Barrier(ImageBarrier { image, from, to, src_stage, src_access, dst_stage, dst_access, range })
}

/// The blit of the whole swapchain image, of extent `swapchain`, onto the whole
/// capture image, of extent `capture`, with linear filtering.
pub open spec fn capture_blit(swapchain: Extent2, capture: Extent2) -> Blit {
    Blit {
        src_layout: ImageLayout::TransferSrc,
        dst_layout: ImageLayout::TransferDst,
        src_subresource: color_layers(),
        src_start: origin(),
        src_end: far_corner(swapchain),
        dst_subresource: color_layers(),
        dst_start: origin(),
        dst_end: far_corner(capture),
        filter: FILTER_LINEAR,
    }
}

/// The copy of the whole capture image, of extent `capture`, to the start of
/// the capture buffer, rows tightly packed.
pub open spec fn capture_copy(capture: Extent2) -> BufferImageCopy {
    BufferImageCopy {
        image_layout: ImageLayout::TransferSrc,
        buffer_offset: 0,
        buffer_row_length: 0,
        buffer_image_height: 0,
        image_subresource: color_layers(),
        image_offset: origin(),
        image_extent: Extent3 { width: capture.width, height: capture.height, depth: 1 },
    }
}

/// The transitions of the swapchain image and its depth buffer into their
/// rendering layouts, ahead of any colour-attachment output.
pub open spec fn attachment_steps() -> Seq<FrameStep> {
    seq![
        barrier(
            FrameImage::Swapchain,
            ImageLayout::Undefined,
            ImageLayout::ColorAttachment,
            STAGE_TOP_OF_PIPE,
            ACCESS_NONE,
            STAGE_COLOR_ATTACHMENT_OUTPUT,
            ACCESS_COLOR_ATTACHMENT_WRITE,
            color_range(),
        ),
        barrier(
            FrameImage::Depth,
            ImageLayout::Undefined,
            ImageLayout::DepthAttachment,
            STAGE_TOP_OF_PIPE,
            ACCESS_NONE,
            STAGE_COLOR_ATTACHMENT_OUTPUT,
            ACCESS_COLOR_ATTACHMENT_WRITE,
            depth_range(),
        ),
    ]
}

/// The commands that hand the rendered image, of extent `swapchain`, to
/// presentation. Without a pending capture that is one transition after the
/// colour output. With one, the image is first made a transfer source, the
/// capture image (of extent `capture`) a transfer destination, the first blitted
/// onto the second, the capture image made a transfer source and copied into
/// the capture buffer, and the swapchain image made presentable after the transfer.
pub open spec fn present_steps_spec(capture_pending: bool, swapchain: Extent2, capture: Extent2) -> Seq<FrameStep> {
    if capture_pending {
        seq![
            barrier(
                FrameImage::Swapchain,
                ImageLayout::ColorAttachment,
                ImageLayout::TransferSrc,
                STAGE_COLOR_ATTACHMENT_OUTPUT,
                ACCESS_COLOR_ATTACHMENT_WRITE,
                STAGE_TRANSFER,
                ACCESS_TRANSFER_READ,
                color_range(),
            ),
            barrier(
                FrameImage::Capture,
                ImageLayout::Undefined,
                ImageLayout::TransferDst,
                STAGE_COLOR_ATTACHMENT_OUTPUT,
                ACCESS_COLOR_ATTACHMENT_WRITE,
                STAGE_TRANSFER,
                ACCESS_TRANSFER_READ,
                color_range(),
            ),
            FrameStep::BlitToCapture(capture_blit(swapchain, capture)),
            barrier(
                FrameImage::Capture,
                ImageLayout::TransferDst,
                ImageLayout::TransferSrc,
                STAGE_COLOR_ATTACHMENT_OUTPUT,
                ACCESS_COLOR_ATTACHMENT_WRITE,
                STAGE_TRANSFER,
                ACCESS_TRANSFER_READ,
                color_range(),
            ),
            FrameStep::CopyCaptureToBuffer(capture_copy(capture)),
            barrier(
                FrameImage::Swapchain,
                ImageLayout::TransferSrc,
                ImageLayout::PresentSrc,
                STAGE_TRANSFER,
                ACCESS_TRANSFER_READ,
                STAGE_BOTTOM_OF_PIPE,
                ACCESS_NONE,
                color_range(),
            ),
        ]
    } else {
        seq![
            barrier(
                FrameImage::Swapchain,
                ImageLayout::ColorAttachment,
                ImageLayout::PresentSrc,
                STAGE_COLOR_ATTACHMENT_OUTPUT,
                ACCESS_COLOR_ATTACHMENT_WRITE,
                STAGE_BOTTOM_OF_PIPE,
                ACCESS_NONE,
                color_range(),
            ),
        ]
    }
}

/// The commands of a whole frame: attachments to their optimal layouts, the
/// clearing render pass, the passes' command buffers, then presentation.
pub open spec fn frame_steps_spec(capture_pending: bool, swapchain: Extent2, capture: Extent2) -> Seq<FrameStep> {
    attachment_steps() + seq![FrameStep::BeginRendering, FrameStep::EndRendering, FrameStep::ExecutePasses]
        + present_steps_spec(capture_pending, swapchain, capture)
}

fn color_subresource_range() -> (r: SubresourceRange)
    ensures
        r == color_range(),
{
    SubresourceRange { aspect: ASPECT_COLOR, base_mip_level: 0, level_count: 1, base_array_layer: 0, layer_count: 1 }
}

fn color_subresource_layers() -> (r: SubresourceLayers)
    ensures
        r == color_layers(),
{
    SubresourceLayers { aspect: ASPECT_COLOR, mip_level: 0, base_array_layer: 0, layer_count: 1 }
}

fn corner(e: Extent2) -> (r: Offset3)
    ensures
        r == far_corner(e),
{
    Offset3 { x: e.width as i32, y: e.height as i32, z: 1 }
}

fn make_barrier(
    image: FrameImage,
    from: ImageLayout,
    to: ImageLayout,
    src_stage: u64,
    src_access: u64,
    dst_stage: u64,
    dst_access: u64,
    range: SubresourceRange,
) -> (r: FrameStep)
    ensures
        r == barrier(image, from, to, src_stage, src_access, dst_stage, dst_access, range),
{
    FrameStep::Barrier(ImageBarrier { image, from, to, src_stage, src_access, dst_stage, dst_access, range })
}

/// The commands that move the attachments into their rendering layouts.
pub fn optimal_layout_steps() -> (r: Vec<FrameStep>)
    ensures
        r@ == attachment_steps(),
{
    let mut r: Vec<FrameStep> = Vec::new();
    r.push(
        make_barrier(
            FrameImage::Swapchain,
            ImageLayout::Undefined,
            ImageLayout::ColorAttachment,
            STAGE_TOP_OF_PIPE,
            ACCESS_NONE,
            STAGE_COLOR_ATTACHMENT_OUTPUT,
            ACCESS_COLOR_ATTACHMENT_WRITE,
            color_subresource_range(),
        ),
    );
    r.push(
        make_barrier(
            FrameImage::Depth,
            ImageLayout::Undefined,
            ImageLayout::DepthAttachment,
            STAGE_TOP_OF_PIPE,
            ACCESS_NONE,
            STAGE_COLOR_ATTACHMENT_OUTPUT,
            ACCESS_COLOR_ATTACHMENT_WRITE,
            SubresourceRange {
                aspect: ASPECT_DEPTH,
                base_mip_level: 0,
                level_count: 1,
                base_array_layer: 0,
                layer_count: 1,
            },
        ),
    );
    assert(r@ =~= attachment_steps());
    r
}

/// The commands that hand the rendered image to presentation, capturing it
/// into the capture image and buffer when a capture is pending.
pub fn present_steps(capture_pending: bool, swapchain: Extent2, capture: Extent2) -> (r: Vec<FrameStep>)
    ensures
        r@ == present_steps_spec(capture_pending, swapchain, capture),
{
    let mut r: Vec<FrameStep> = Vec::new();
    if capture_pending {
        r.push(
            make_barrier(
                FrameImage::Swapchain,
                ImageLayout::ColorAttachment,
                ImageLayout::TransferSrc,
                STAGE_COLOR_ATTACHMENT_OUTPUT,
                ACCESS_COLOR_ATTACHMENT_WRITE,
                STAGE_TRANSFER,
                ACCESS_TRANSFER_READ,
                color_subresource_range(),
            ),
        );
        r.push(
            make_barrier(
                FrameImage::Capture,
                ImageLayout::Undefined,
                ImageLayout::TransferDst,
                STAGE_COLOR_ATTACHMENT_OUTPUT,
                ACCESS_COLOR_ATTACHMENT_WRITE,
                STAGE_TRANSFER,
                ACCESS_TRANSFER_READ,
                color_subresource_range(),
            ),
        );
        let blit = Blit {
            src_layout: ImageLayout::TransferSrc,
            dst_layout: ImageLayout::TransferDst,
            src_subresource: color_subresource_layers(),
            src_start: Offset3 { x: 0, y: 0, z: 0 },
            src_end: corner(swapchain),
            dst_subresource: color_subresource_layers(),
            dst_start: Offset3 { x: 0, y: 0, z: 0 },
            dst_end: corner(capture),
            filter: FILTER_LINEAR,
        };
        r.push(FrameStep::BlitToCapture(blit));
        r.push(
            make_barrier(
                FrameImage::Capture,
                ImageLayout::TransferDst,
                ImageLayout::TransferSrc,
                STAGE_COLOR_ATTACHMENT_OUTPUT,
                ACCESS_COLOR_ATTACHMENT_WRITE,
                STAGE_TRANSFER,
                ACCESS_TRANSFER_READ,
                color_subresource_range(),
            ),
        );
        let copy = BufferImageCopy {
            image_layout: ImageLayout::TransferSrc,
            buffer_offset: 0,
            buffer_row_length: 0,
            buffer_image_height: 0,
            image_subresource: color_subresource_layers(),
            image_offset: Offset3 { x: 0, y: 0, z: 0 },
            image_extent: Extent3 { width: capture.width, height: capture.height, depth: 1 },
        };
        r.push(FrameStep::CopyCaptureToBuffer(copy));
        r.push(
            make_barrier(
                FrameImage::Swapchain,
                ImageLayout::TransferSrc,
                ImageLayout::PresentSrc,
                STAGE_TRANSFER,
                ACCESS_TRANSFER_READ,
                STAGE_BOTTOM_OF_PIPE,
                ACCESS_NONE,
                color_subresource_range(),
            ),
        );
    } else {
        r.push(
            make_barrier(
                FrameImage::Swapchain,
                ImageLayout::ColorAttachment,
                ImageLayout::PresentSrc,
                STAGE_COLOR_ATTACHMENT_OUTPUT,
                ACCESS_COLOR_ATTACHMENT_WRITE,
                STAGE_BOTTOM_OF_PIPE,
                ACCESS_NONE,
                color_subresource_range(),
            ),
        );
    }
    assert(r@ =~= present_steps_spec(capture_pending, swapchain, capture));
    r
}

/// The frame's commands in the order they are recorded.
pub fn frame_steps(capture_pending: bool, swapchain: Extent2, capture: Extent2) -> (r: Vec<FrameStep>)
    ensures
        r@ == frame_steps_spec(capture_pending, swapchain, capture),
{
    let mut r = optimal_layout_steps();
    r.push(FrameStep::BeginRendering);
    r.push(FrameStep::EndRendering);
    r.push(FrameStep::ExecutePasses);
    let mut p = present_steps(capture_pending, swapchain, capture);
    r.append(&mut p);
    assert(r@ =~= frame_steps_spec(capture_pending, swapchain, capture));
    r
}

/// Every command of a frame runs with its images in the layouts it needs, the
/// swapchain image ends ready for presentation, the capture image is blitted
/// into and copied out of exactly when a capture is pending, the blit covering
/// both whole images and the copy the whole capture image; and every barrier
/// applies to the whole single-level image with its own aspect: depth for the
/// depth buffer, colour for the others.
pub proof fn lemma_frame_layouts(capture_pending: bool, swapchain: Extent2, capture: Extent2)
    ensures
        steps_ok(frame_start_layouts(), frame_steps_spec(capture_pending, swapchain, capture)),
        layouts_after(frame_start_layouts(), frame_steps_spec(capture_pending, swapchain, capture)).swapchain
            == ImageLayout::PresentSrc,
        layouts_after(frame_start_layouts(), frame_steps_spec(capture_pending, swapchain, capture)).depth
            == ImageLayout::DepthAttachment,
        layouts_after(frame_start_layouts(), frame_steps_spec(capture_pending, swapchain, capture)).capture
            == if capture_pending {
            ImageLayout::TransferSrc
        } else {
            ImageLayout::Undefined
        },
        frame_steps_spec(capture_pending, swapchain, capture).contains(
            FrameStep::BlitToCapture(capture_blit(swapchain, capture)),
        ) == capture_pending,
        frame_steps_spec(capture_pending, swapchain, capture).contains(
            FrameStep::CopyCaptureToBuffer(capture_copy(capture)),
        ) == capture_pending,
        forall|i: int|
            0 <= i < frame_steps_spec(capture_pending, swapchain, capture).len() ==> match #[trigger] frame_steps_spec(
                capture_pending,
                swapchain,
                capture,
            )[i] {
                FrameStep::Barrier(b) => b.range == if b.image == FrameImage::Depth {
                    depth_range()
                } else {
                    color_range()
                },
                _ => true,
            },
{
    reveal_with_fuel(steps_ok, 12);
    reveal_with_fuel(layouts_after, 12);
    let s = frame_steps_spec(capture_pending, swapchain, capture);
    let l0 = frame_start_layouts();
    let l5 = apply_step(apply_step(l0, s[0]), s[1]);
    assert(s.drop_first().drop_first().drop_first().drop_first().drop_first() =~= present_steps_spec(
        capture_pending,
        swapchain,
        capture,
    ));
    if capture_pending {
        let p = present_steps_spec(true, swapchain, capture);
        assert(steps_ok(l5, p) && layouts_after(l5, p) == (Layouts {
            swapchain: ImageLayout::PresentSrc,
            depth: ImageLayout::DepthAttachment,
            capture: ImageLayout::TransferSrc,
        })) by {
            let q1 = p.drop_first();
            let q2 = q1.drop_first();
            let q3 = q2.drop_first();
            let q4 = q3.drop_first();
            let q5 = q4.drop_first();
            assert(q5 =~= seq![p[5]]);
            assert(q5.drop_first() =~= Seq::<FrameStep>::empty());
        }
        assert(s[7] == FrameStep::BlitToCapture(capture_blit(swapchain, capture)));
        assert(s[9] == FrameStep::CopyCaptureToBuffer(capture_copy(capture)));
    } else {
        let p = present_steps_spec(false, swapchain, capture);
        assert(p.drop_first() =~= Seq::<FrameStep>::empty());
        assert forall|i: int| 0 <= i < s.len() implies !(s[i] is BlitToCapture) && !(
        s[i] is CopyCaptureToBuffer) by {}
    }
}

/// A pending capture blits the whole swapchain image onto the whole capture
/// image and copies the whole capture image: the blit's source box starts at
/// the origin and spans the swapchain's width and height and one slice, its
/// destination box starts at the origin and spans the capture's width and
/// height and one slice, and the copy spans the capture's width and height.
pub proof fn lemma_capture_covers_whole_images(swapchain: Extent2, capture: Extent2)
    ensures
        ({
            let steps = present_steps_spec(true, swapchain, capture);
            &&& steps[2] is BlitToCapture
            &&& steps[2]->BlitToCapture_0.src_start == (Offset3 { x: 0, y: 0, z: 0 })
            &&& steps[2]->BlitToCapture_0.src_end.x == swapchain.width as i32
            &&& steps[2]->BlitToCapture_0.src_end.y == swapchain.height as i32
            &&& steps[2]->BlitToCapture_0.src_end.z == 1
            &&& steps[2]->BlitToCapture_0.dst_start == (Offset3 { x: 0, y: 0, z: 0 })
            &&& steps[2]->BlitToCapture_0.dst_end.x == capture.width as i32
            &&& steps[2]->BlitToCapture_0.dst_end.y == capture.height as i32
            &&& steps[2]->BlitToCapture_0.dst_end.z == 1
            &&& steps[4] is CopyCaptureToBuffer
            &&& steps[4]->CopyCaptureToBuffer_0.image_offset == (Offset3 { x: 0, y: 0, z: 0 })
            &&& steps[4]->CopyCaptureToBuffer_0.image_extent == (Extent3 {
                width: capture.width,
                height: capture.height,
                depth: 1,
            })
        }),
{
}

/// The pipeline stage and access through which an image in layout `l` is used:
/// attachments are written by colour-attachment output, transfer images read
/// by transfers, a presented image by nothing before the end of the pipe, and
/// an undefined image by nothing from the top of the pipe.
pub open spec fn use_scope(l: ImageLayout) -> (u64, u64) {
    match l {
        ImageLayout::Undefined => (STAGE_TOP_OF_PIPE, ACCESS_NONE),
        ImageLayout::ColorAttachment => (STAGE_COLOR_ATTACHMENT_OUTPUT, ACCESS_COLOR_ATTACHMENT_WRITE),
        ImageLayout::DepthAttachment => (STAGE_COLOR_ATTACHMENT_OUTPUT, ACCESS_COLOR_ATTACHMENT_WRITE),
        ImageLayout::TransferSrc => (STAGE_TRANSFER, ACCESS_TRANSFER_READ),
        ImageLayout::TransferDst => (STAGE_TRANSFER, ACCESS_TRANSFER_READ),
        ImageLayout::PresentSrc => (STAGE_BOTTOM_OF_PIPE, ACCESS_NONE),
    }
}

/// Every barrier of a frame makes the next use of its image wait in the scope
/// of the layout it moves to; one leaving a colour attachment or a transfer
/// source waits for the scope of that layout, and one starting the swapchain
/// image or depth buffer from an undefined layout waits for nothing.
pub proof fn lemma_barrier_scopes(capture_pending: bool, swapchain: Extent2, capture: Extent2)
    ensures
        forall|i: int|
            0 <= i < frame_steps_spec(capture_pending, swapchain, capture).len() ==> match #[trigger] frame_steps_spec(
                capture_pending,
                swapchain,
                capture,
            )[i] {
                FrameStep::Barrier(b) => {
                    &&& (b.dst_stage, b.dst_access) == use_scope(b.to)
                    &&& (b.from == ImageLayout::ColorAttachment || b.from == ImageLayout::TransferSrc) ==> (
                    b.src_stage, b.src_access) == use_scope(b.from)
                    &&& (b.from == ImageLayout::Undefined && b.image != FrameImage::Capture) ==> (
                    b.src_stage, b.src_access) == use_scope(b.from)
                },
                _ => true,
            },
{
}

} // verus!
