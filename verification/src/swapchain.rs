use vstd::prelude::*;

verus! {

/// `VK_FORMAT_R8G8B8A8_UNORM`.
pub const FORMAT_R8G8B8A8_UNORM: i32 = 37;

/// `VK_FORMAT_R8G8B8A8_SRGB`.
pub const FORMAT_R8G8B8A8_SRGB: i32 = 43;

/// `VK_PRESENT_MODE_IMMEDIATE_KHR`.
pub const PRESENT_MODE_IMMEDIATE: i32 = 0;

/// `VK_PRESENT_MODE_MAILBOX_KHR`.
pub const PRESENT_MODE_MAILBOX: i32 = 1;

/// `VK_PRESENT_MODE_FIFO_KHR`.
pub const PRESENT_MODE_FIFO: i32 = 2;

/// `VK_PRESENT_MODE_FIFO_RELAXED_KHR`.
pub const PRESENT_MODE_FIFO_RELAXED: i32 = 3;

/// A surface format as the driver reports it: raw format and colour-space codes.
#[derive(Clone, Copy, Debug, PartialEq, Eq, Structural)]
pub struct SurfaceFormat {
    pub format: i32,
    pub color_space: i32,
}

/// Preference of a surface format (lower is better): sRGB first, then UNORM, then anything.
pub open spec fn format_rank(format: i32) -> nat {
    if format == FORMAT_R8G8B8A8_SRGB {
        0
    } else if format == FORMAT_R8G8B8A8_UNORM {
        1
    } else {
        2
    }
}

/// Preference of a present mode (lower is better): mailbox, FIFO, relaxed FIFO, anything.
pub open spec fn present_mode_rank(mode: i32) -> nat {
    if mode == PRESENT_MODE_MAILBOX {
        0
    } else if mode == PRESENT_MODE_FIFO {
        1
    } else if mode == PRESENT_MODE_FIFO_RELAXED {
        2
    } else {
        3
    }
}

/// `i` is the position of the first entry of least rank.
pub open spec fn first_least(ranks: Seq<nat>, i: int) -> bool {
    &&& 0 <= i < ranks.len()
    &&& forall|j: int| 0 <= j < ranks.len() ==> ranks[i] <= ranks[j]
    &&& forall|j: int| 0 <= j < i ==> ranks[j] > ranks[i]
}

pub open spec fn format_ranks(formats: Seq<SurfaceFormat>) -> Seq<nat> {
    formats.map_values(|f: SurfaceFormat| format_rank(f.format))
}

pub open spec fn present_mode_ranks(modes: Seq<i32>) -> Seq<nat> {
    modes.map_values(|m: i32| present_mode_rank(m))
}

/// The rank of `format`, computed.
pub fn format_priority(format: i32) -> (r: u8)
    ensures
        r == format_rank(format),
{
    if format == FORMAT_R8G8B8A8_SRGB {
        0
    } else if format == FORMAT_R8G8B8A8_UNORM {
        1
    } else {
        2
    }
}

/// The rank of `mode`, computed.
pub fn present_mode_priority(mode: i32) -> (r: u8)
    ensures
        r == present_mode_rank(mode),
{
    if mode == PRESENT_MODE_MAILBOX {
        0
    } else if mode == PRESENT_MODE_FIFO {
        1
    } else if mode == PRESENT_MODE_FIFO_RELAXED {
        2
    } else {
        3
    }
}

/// The preferred surface format: the first of least rank; none if the list is empty.
pub fn select_format(formats: &[SurfaceFormat]) -> (r: Option<SurfaceFormat>)
    ensures
        r is None <==> formats@.len() == 0,
        r matches Some(f) ==> exists|i: int| first_least(format_ranks(formats@), i) && f == formats@[i],
{
    if formats.len() == 0 {
        return None;
    }
    let ghost ranks = format_ranks(formats@);
    let mut best: usize = 0;
    let mut best_rank: u8 = format_priority(formats[0].format);
    let mut i: usize = 1;
    while i < formats.len()
        invariant
            1 <= i <= formats@.len(),
            ranks == format_ranks(formats@),
            best < i,
            best_rank == ranks[best as int],
            forall|j: int| 0 <= j < i ==> ranks[best as int] <= ranks[j],
            forall|j: int| 0 <= j < best ==> ranks[j] > ranks[best as int],
        decreases formats.len() - i,
    {
        let r = format_priority(formats[i].format);
        if r < best_rank {
            best = i;
            best_rank = r;
        }
        i = i + 1;
    }
    assert(first_least(ranks, best as int));
    Some(formats[best])
}

/// The preferred present mode: the first of least rank; none if the list is empty.
pub fn select_present_mode(modes: &[i32]) -> (r: Option<i32>)
    ensures
        r is None <==> modes@.len() == 0,
        r matches Some(m) ==> exists|i: int| first_least(present_mode_ranks(modes@), i) && m == modes@[i],
{
    if modes.len() == 0 {
        return None;
    }
    let ghost ranks = present_mode_ranks(modes@);
    let mut best: usize = 0;
    let mut best_rank: u8 = present_mode_priority(modes[0]);
    let mut i: usize = 1;
    while i < modes.len()
        invariant
            1 <= i <= modes@.len(),
            ranks == present_mode_ranks(modes@),
            best < i,
            best_rank == ranks[best as int],
            forall|j: int| 0 <= j < i ==> ranks[best as int] <= ranks[j],
            forall|j: int| 0 <= j < best ==> ranks[j] > ranks[best as int],
        decreases modes.len() - i,
    {
        let r = present_mode_priority(modes[i]);
        if r < best_rank {
            best = i;
            best_rank = r;
        }
        i = i + 1;
    }
    assert(first_least(ranks, best as int));
    Some(modes[best])
}

/// The number of images to ask for: the surface's minimum, but at least two.
pub fn min_image_count(surface_min: u32) -> (r: u32)
    ensures
        r == if surface_min < 2 { 2 } else { surface_min },
{
    if surface_min < 2 {
        2
    } else {
        surface_min
    }
}

/// Why no swapchain can be configured.
#[derive(Clone, Copy, Debug, PartialEq, Eq, Structural)]
pub enum SwapchainError {
    NoSuitableFormat,
    NoSuitablePresentMode,
}

impl SwapchainError {
    pub fn message(&self) -> (r: &'static str)
        ensures
            *self == SwapchainError::NoSuitableFormat ==> r@ == "no suitable formats found"@,
            *self == SwapchainError::NoSuitablePresentMode ==> r@ == "no suitable present mode found"@,
    {
        match self {
            SwapchainError::NoSuitableFormat => "no suitable formats found",
            SwapchainError::NoSuitablePresentMode => "no suitable present mode found",
        }
    }
}

/// The settings a swapchain is created with.
#[derive(Clone, Copy, Debug, PartialEq, Eq, Structural)]
pub struct SwapchainConfig {
    pub min_image_count: u32,
    pub format: SurfaceFormat,
    pub present_mode: i32,
}

/// Chooses the swapchain settings from what the surface supports: at least two
/// images, the preferred format and the preferred present mode. The format is
/// chosen first, so an empty format list is reported even if there is no present mode.
pub fn choose_swapchain_config(
    surface_min_image_count: u32,
    formats: &[SurfaceFormat],
    present_modes: &[i32],
) -> (r: Result<SwapchainConfig, SwapchainError>)
    ensures
        r == Err::<SwapchainConfig, SwapchainError>(SwapchainError::NoSuitableFormat) <==> formats@.len() == 0,
        r == Err::<SwapchainConfig, SwapchainError>(SwapchainError::NoSuitablePresentMode) <==> (formats@.len() > 0
            && present_modes@.len() == 0),
        r matches Ok(c) ==> {
            &&& c.min_image_count == if surface_min_image_count < 2 { 2 } else { surface_min_image_count }
            &&& exists|i: int| first_least(format_ranks(formats@), i) && c.format == formats@[i]
            &&& exists|i: int| first_least(present_mode_ranks(present_modes@), i) && c.present_mode == present_modes@[i]
        },
{
    let min = min_image_count(surface_min_image_count);
    let format = match select_format(formats) {
        Some(f) => f,
        None => {
            return Err(SwapchainError::NoSuitableFormat);
        },
    };
    let present_mode = match select_present_mode(present_modes) {
        Some(m) => m,
        None => {
            return Err(SwapchainError::NoSuitablePresentMode);
        },
    };
    Ok(SwapchainConfig { min_image_count: min, format, present_mode })
}

} // verus!

verus! {

/// The sRGB format is chosen whenever the surface offers it, and otherwise the
/// UNORM one whenever it is offered.
pub proof fn lemma_srgb_preferred(formats: Seq<SurfaceFormat>, i: int, j: int)
    requires
        first_least(format_ranks(formats), i),
        0 <= j < formats.len(),
    ensures
        formats[j].format == FORMAT_R8G8B8A8_SRGB ==> formats[i].format == FORMAT_R8G8B8A8_SRGB,
        formats[j].format == FORMAT_R8G8B8A8_UNORM ==> (formats[i].format == FORMAT_R8G8B8A8_SRGB
            || formats[i].format == FORMAT_R8G8B8A8_UNORM),
{
    assert(format_ranks(formats)[i] <= format_ranks(formats)[j]);
}

/// Mailbox is chosen whenever the surface offers it; otherwise FIFO whenever it is offered.
pub proof fn lemma_mailbox_preferred(modes: Seq<i32>, i: int, j: int)
    requires
        first_least(present_mode_ranks(modes), i),
        0 <= j < modes.len(),
    ensures
        modes[j] == PRESENT_MODE_MAILBOX ==> modes[i] == PRESENT_MODE_MAILBOX,
        modes[j] == PRESENT_MODE_FIFO ==> (modes[i] == PRESENT_MODE_MAILBOX || modes[i] == PRESENT_MODE_FIFO),
{
    assert(present_mode_ranks(modes)[i] <= present_mode_ranks(modes)[j]);
}

} // verus!
