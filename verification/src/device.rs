use vstd::prelude::*;

verus! {

/// `VK_PHYSICAL_DEVICE_TYPE_OTHER`.
pub const PHYSICAL_DEVICE_TYPE_OTHER: i32 = 0;

/// `VK_PHYSICAL_DEVICE_TYPE_INTEGRATED_GPU`.
pub const PHYSICAL_DEVICE_TYPE_INTEGRATED_GPU: i32 = 1;

/// `VK_PHYSICAL_DEVICE_TYPE_DISCRETE_GPU`.
pub const PHYSICAL_DEVICE_TYPE_DISCRETE_GPU: i32 = 2;

/// `VK_PHYSICAL_DEVICE_TYPE_VIRTUAL_GPU`.
pub const PHYSICAL_DEVICE_TYPE_VIRTUAL_GPU: i32 = 3;

/// `VK_PHYSICAL_DEVICE_TYPE_CPU`.
pub const PHYSICAL_DEVICE_TYPE_CPU: i32 = 4;

/// What matters of a queue family: whether it runs graphics work and can present to the surface.
#[derive(Clone, Copy, Debug, PartialEq, Eq, Structural)]
pub struct QueueFamilyInfo {
    pub graphics: bool,
    pub surface_support: bool,
}

/// A physical device as the driver reports it: its raw type code and its queue families in order.
pub struct DeviceCandidate {
    pub device_type: i32,
    pub queue_families: Vec<QueueFamilyInfo>,
}

/// The chosen device (its position among the candidates) and queue family.
#[derive(Clone, Copy, Debug, PartialEq, Eq, Structural)]
pub struct DeviceChoice {
    pub device: usize,
    pub queue_family: u32,
}

/// Preference of a device type (lower is better): discrete, integrated, virtual, CPU, other, unknown.
pub open spec fn device_rank(device_type: i32) -> nat {
    if device_type == PHYSICAL_DEVICE_TYPE_DISCRETE_GPU {
        0
    } else if device_type == PHYSICAL_DEVICE_TYPE_INTEGRATED_GPU {
        1
    } else if device_type == PHYSICAL_DEVICE_TYPE_VIRTUAL_GPU {
        2
    } else if device_type == PHYSICAL_DEVICE_TYPE_CPU {
        3
    } else if device_type == PHYSICAL_DEVICE_TYPE_OTHER {
        4
    } else {
        5
    }
}

/// A queue family that both draws and presents.
pub open spec fn usable(q: QueueFamilyInfo) -> bool {
    q.graphics && q.surface_support
}

/// `i` is the first usable queue family.
pub open spec fn first_usable(families: Seq<QueueFamilyInfo>, i: int) -> bool {
    &&& 0 <= i < families.len()
    &&& usable(families[i])
    &&& forall|j: int| 0 <= j < i ==> !usable(families[j])
}

/// The device has a usable queue family.
pub open spec fn suitable(c: DeviceCandidate) -> bool {
    exists|i: int| 0 <= i < c.queue_families@.len() && usable(c.queue_families@[i])
}

/// `choice` names the first suitable device of least rank and its first usable queue family.
pub open spec fn is_best_choice(candidates: Seq<DeviceCandidate>, choice: DeviceChoice) -> bool {
    let d = choice.device as int;
    &&& 0 <= d < candidates.len()
    &&& first_usable(candidates[d].queue_families@, choice.queue_family as int)
    &&& forall|e: int|
        0 <= e < candidates.len() && suitable(candidates[e]) ==> device_rank(candidates[d].device_type)
            <= device_rank(candidates[e].device_type)
    &&& forall|e: int|
        0 <= e < d && suitable(candidates[e]) ==> device_rank(candidates[e].device_type) > device_rank(
            candidates[d].device_type,
        )
}

/// The rank of `device_type`, computed.
pub fn device_priority(device_type: i32) -> (r: u8)
    ensures
        r == device_rank(device_type),
{
    if device_type == PHYSICAL_DEVICE_TYPE_DISCRETE_GPU {
        0
    } else if device_type == PHYSICAL_DEVICE_TYPE_INTEGRATED_GPU {
        1
    } else if device_type == PHYSICAL_DEVICE_TYPE_VIRTUAL_GPU {
        2
    } else if device_type == PHYSICAL_DEVICE_TYPE_CPU {
        3
    } else if device_type == PHYSICAL_DEVICE_TYPE_OTHER {
        4
    } else {
        5
    }
}

/// The first queue family that draws and presents, if any.
pub fn find_queue_family(families: &[QueueFamilyInfo]) -> (r: Option<u32>)
    requires
        families@.len() <= u32::MAX,
    ensures
        r is None <==> !(exists|i: int| 0 <= i < families@.len() && usable(families@[i])),
        r matches Some(i) ==> first_usable(families@, i as int),
{
    let mut i: usize = 0;
    while i < families.len()
        invariant
            i <= families@.len(),
            families@.len() <= u32::MAX,
            forall|j: int| 0 <= j < i ==> !usable(families@[j]),
        decreases families.len() - i,
    {
        if families[i].graphics && families[i].surface_support {
            return Some(i as u32);
        }
        i = i + 1;
    }
    None
}

/// Picks the device to render with: among the devices with a queue family that
/// both draws and presents, the first of the most preferred type, with its first
/// such queue family; none if no device has one.
pub fn pick_physical_device(candidates: &[DeviceCandidate]) -> (r: Option<DeviceChoice>)
    requires
        forall|d: int| 0 <= d < candidates@.len() ==> #[trigger] candidates@[d].queue_families@.len() <= u32::MAX,
    ensures
        r is None <==> forall|d: int| 0 <= d < candidates@.len() ==> !suitable(#[trigger] candidates@[d]),
        r matches Some(c) ==> is_best_choice(candidates@, c),
{
    let mut best: Option<DeviceChoice> = None;
    let mut best_rank: u8 = 0;
    let mut d: usize = 0;
    while d < candidates.len()
        invariant
            d <= candidates@.len(),
            forall|e: int| 0 <= e < candidates@.len() ==> #[trigger] candidates@[e].queue_families@.len() <= u32::MAX,
            best is None <==> forall|e: int| 0 <= e < d ==> !suitable(#[trigger] candidates@[e]),
            best matches Some(c) ==> {
                &&& c.device < d
                &&& best_rank == device_rank(candidates@[c.device as int].device_type)
                &&& first_usable(candidates@[c.device as int].queue_families@, c.queue_family as int)
                &&& forall|e: int|
                    0 <= e < d && suitable(#[trigger] candidates@[e]) ==> best_rank <= device_rank(
                        candidates@[e].device_type,
                    )
                &&& forall|e: int|
                    0 <= e < c.device && suitable(#[trigger] candidates@[e]) ==> device_rank(
                        candidates@[e].device_type,
                    ) > best_rank
            },
        decreases candidates.len() - d,
    {
        let c = &candidates[d];
        match find_queue_family(c.queue_families.as_slice()) {
            Some(q) => {
                let rank = device_priority(c.device_type);
                let replace = match best {
                    None => true,
                    Some(_) => rank < best_rank,
                };
                if replace {
                    best = Some(DeviceChoice { device: d, queue_family: q });
                    best_rank = rank;
                }
                assert(suitable(candidates@[d as int])) by {
                    assert(usable(candidates@[d as int].queue_families@[q as int]));
                }
            },
            None => {
                assert(!suitable(candidates@[d as int]));
            },
        }
        d = d + 1;
    }
    best
}

} // verus!

verus! {

/// A discrete GPU that can draw and present is chosen over any other kind of device.
pub proof fn lemma_discrete_preferred(candidates: Seq<DeviceCandidate>, choice: DeviceChoice, e: int)
    requires
        is_best_choice(candidates, choice),
        0 <= e < candidates.len(),
        suitable(candidates[e]),
        candidates[e].device_type == PHYSICAL_DEVICE_TYPE_DISCRETE_GPU,
    ensures
        candidates[choice.device as int].device_type == PHYSICAL_DEVICE_TYPE_DISCRETE_GPU,
{
}

} // verus!
