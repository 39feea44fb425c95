use engine::commands::{
    frame_steps, optimal_layout_steps, present_steps, Blit, BufferImageCopy, Extent2, Extent3, FrameImage, FrameStep,
    ImageBarrier, ImageLayout, Offset3, SubresourceLayers, SubresourceRange, ACCESS_COLOR_ATTACHMENT_WRITE,
    ACCESS_NONE, ACCESS_TRANSFER_READ, ASPECT_COLOR, ASPECT_DEPTH, FILTER_LINEAR, STAGE_BOTTOM_OF_PIPE,
    STAGE_COLOR_ATTACHMENT_OUTPUT, STAGE_TOP_OF_PIPE, STAGE_TRANSFER,
};
use ash::vk;
use engine::image::{CAPTURE_HEIGHT, CAPTURE_WIDTH};

const SWAPCHAIN: Extent2 = Extent2 { width: 1280, height: 720 };
const CAPTURE: Extent2 = Extent2 { width: CAPTURE_WIDTH, height: CAPTURE_HEIGHT };

fn color() -> SubresourceRange {
    SubresourceRange { aspect: ASPECT_COLOR, base_mip_level: 0, level_count: 1, base_array_layer: 0, layer_count: 1 }
}

fn layers() -> SubresourceLayers {
    SubresourceLayers { aspect: ASPECT_COLOR, mip_level: 0, base_array_layer: 0, layer_count: 1 }
}

fn barrier(
    image: FrameImage,
    from: ImageLayout,
    to: ImageLayout,
    src: (u64, u64),
    dst: (u64, u64),
    range: SubresourceRange,
) -> FrameStep {
    FrameStep::Barrier(ImageBarrier {
        image,
        from,
        to,
        src_stage: src.0,
        src_access: src.1,
        dst_stage: dst.0,
        dst_access: dst.1,
        range,
    })
}

const COLOR_OUT: (u64, u64) = (STAGE_COLOR_ATTACHMENT_OUTPUT, ACCESS_COLOR_ATTACHMENT_WRITE);
const TRANSFER: (u64, u64) = (STAGE_TRANSFER, ACCESS_TRANSFER_READ);
const BOTTOM: (u64, u64) = (STAGE_BOTTOM_OF_PIPE, ACCESS_NONE);

#[test]
fn vulkan_flags() {
    assert_eq!(STAGE_TOP_OF_PIPE, vk::PipelineStageFlags2::TOP_OF_PIPE.as_raw());
    assert_eq!(STAGE_COLOR_ATTACHMENT_OUTPUT, vk::PipelineStageFlags2::COLOR_ATTACHMENT_OUTPUT.as_raw());
    assert_eq!(STAGE_TRANSFER, vk::PipelineStageFlags2::TRANSFER.as_raw());
    assert_eq!(STAGE_BOTTOM_OF_PIPE, vk::PipelineStageFlags2::BOTTOM_OF_PIPE.as_raw());
    assert_eq!(ACCESS_NONE, vk::AccessFlags2::NONE.as_raw());
    assert_eq!(ACCESS_COLOR_ATTACHMENT_WRITE, vk::AccessFlags2::COLOR_ATTACHMENT_WRITE.as_raw());
    assert_eq!(ACCESS_TRANSFER_READ, vk::AccessFlags2::TRANSFER_READ.as_raw());
    assert_eq!(ASPECT_COLOR, vk::ImageAspectFlags::COLOR.as_raw());
    assert_eq!(ASPECT_DEPTH, vk::ImageAspectFlags::DEPTH.as_raw());
    assert_eq!(FILTER_LINEAR, vk::Filter::LINEAR.as_raw());
}

#[test]
fn plain_present() {
    assert_eq!(
        present_steps(false, SWAPCHAIN, CAPTURE),
        vec![barrier(
            FrameImage::Swapchain,
            ImageLayout::ColorAttachment,
            ImageLayout::PresentSrc,
            COLOR_OUT,
            BOTTOM,
            color()
        )]
    );
}

#[test]
fn capture_present() {
    let origin = Offset3 { x: 0, y: 0, z: 0 };
    assert_eq!(
        present_steps(true, SWAPCHAIN, CAPTURE),
        vec![
            barrier(FrameImage::Swapchain, ImageLayout::ColorAttachment, ImageLayout::TransferSrc, COLOR_OUT, TRANSFER, color()),
            barrier(FrameImage::Capture, ImageLayout::Undefined, ImageLayout::TransferDst, COLOR_OUT, TRANSFER, color()),
            FrameStep::BlitToCapture(Blit {
                src_layout: ImageLayout::TransferSrc,
                dst_layout: ImageLayout::TransferDst,
                src_subresource: layers(),
                src_start: origin,
                src_end: Offset3 { x: 1280, y: 720, z: 1 },
                dst_subresource: layers(),
                dst_start: origin,
                dst_end: Offset3 { x: 960, y: 540, z: 1 },
                filter: FILTER_LINEAR,
            }),
            barrier(FrameImage::Capture, ImageLayout::TransferDst, ImageLayout::TransferSrc, COLOR_OUT, TRANSFER, color()),
            FrameStep::CopyCaptureToBuffer(BufferImageCopy {
                image_layout: ImageLayout::TransferSrc,
                buffer_offset: 0,
                buffer_row_length: 0,
                buffer_image_height: 0,
                image_subresource: layers(),
                image_offset: origin,
                image_extent: Extent3 { width: 960, height: 540, depth: 1 },
            }),
            barrier(FrameImage::Swapchain, ImageLayout::TransferSrc, ImageLayout::PresentSrc, TRANSFER, BOTTOM, color()),
        ]
    );
}

#[test]
fn attachments_to_optimal() {
    let top = (STAGE_TOP_OF_PIPE, ACCESS_NONE);
    let depth = SubresourceRange { aspect: ASPECT_DEPTH, ..color() };
    assert_eq!(
        optimal_layout_steps(),
        vec![
            barrier(FrameImage::Swapchain, ImageLayout::Undefined, ImageLayout::ColorAttachment, top, COLOR_OUT, color()),
            barrier(FrameImage::Depth, ImageLayout::Undefined, ImageLayout::DepthAttachment, top, COLOR_OUT, depth),
        ]
    );
}

#[test]
fn whole_frame() {
    let f = frame_steps(false, SWAPCHAIN, CAPTURE);
    assert_eq!(f.len(), 6);
    assert_eq!(&f[..2], optimal_layout_steps().as_slice());
    assert_eq!(f[2], FrameStep::BeginRendering);
    assert_eq!(f[3], FrameStep::EndRendering);
    assert_eq!(f[4], FrameStep::ExecutePasses);
    assert_eq!(&f[5..], present_steps(false, SWAPCHAIN, CAPTURE).as_slice());
    assert!(!f.iter().any(|s| matches!(s, FrameStep::CopyCaptureToBuffer(_) | FrameStep::BlitToCapture(_))));
    let c = frame_steps(true, SWAPCHAIN, CAPTURE);
    assert_eq!(c.len(), 11);
    assert_eq!(&c[5..], present_steps(true, SWAPCHAIN, CAPTURE).as_slice());
}

// Replays the layouts through a frame: every barrier starts from the current layout,
// covers the whole image with its own aspect, and the swapchain image ends ready to present.
#[test]
fn layouts_replay() {
    for capture in [false, true] {
        let mut layouts = [ImageLayout::Undefined; 3];
        let slot = |i: FrameImage| match i {
            FrameImage::Swapchain => 0,
            FrameImage::Depth => 1,
            FrameImage::Capture => 2,
        };
        for step in frame_steps(capture, SWAPCHAIN, CAPTURE) {
            match step {
                FrameStep::Barrier(b) => {
                    assert_eq!(layouts[slot(b.image)], b.from);
                    let aspect = if b.image == FrameImage::Depth { ASPECT_DEPTH } else { ASPECT_COLOR };
                    assert_eq!(b.range, SubresourceRange { aspect, ..color() });
                    layouts[slot(b.image)] = b.to;
                }
                FrameStep::BeginRendering | FrameStep::ExecutePasses => {
                    assert_eq!(layouts[0], ImageLayout::ColorAttachment);
                    assert_eq!(layouts[1], ImageLayout::DepthAttachment);
                }
                FrameStep::BlitToCapture(b) => {
                    assert_eq!(layouts[0], b.src_layout);
                    assert_eq!(layouts[2], b.dst_layout);
                }
                FrameStep::CopyCaptureToBuffer(c) => assert_eq!(layouts[2], c.image_layout),
                FrameStep::EndRendering => {}
            }
        }
        assert_eq!(layouts[0], ImageLayout::PresentSrc);
    }
}
