use engine::device::{
    device_priority, find_queue_family, pick_physical_device, DeviceCandidate, DeviceChoice, QueueFamilyInfo,
    PHYSICAL_DEVICE_TYPE_CPU, PHYSICAL_DEVICE_TYPE_DISCRETE_GPU, PHYSICAL_DEVICE_TYPE_INTEGRATED_GPU,
    PHYSICAL_DEVICE_TYPE_OTHER, PHYSICAL_DEVICE_TYPE_VIRTUAL_GPU,
};
use engine::swapchain::{
    choose_swapchain_config, format_priority, min_image_count, present_mode_priority, select_format,
    select_present_mode, SurfaceFormat, SwapchainError, FORMAT_R8G8B8A8_SRGB, FORMAT_R8G8B8A8_UNORM,
    PRESENT_MODE_FIFO, PRESENT_MODE_FIFO_RELAXED, PRESENT_MODE_IMMEDIATE, PRESENT_MODE_MAILBOX,
};

fn fmt(format: i32, color_space: i32) -> SurfaceFormat {
    SurfaceFormat { format, color_space }
}

#[test]
fn vulkan_codes() {
    assert_eq!(FORMAT_R8G8B8A8_UNORM, ash::vk::Format::R8G8B8A8_UNORM.as_raw());
    assert_eq!(FORMAT_R8G8B8A8_SRGB, ash::vk::Format::R8G8B8A8_SRGB.as_raw());
    assert_eq!(PRESENT_MODE_IMMEDIATE, ash::vk::PresentModeKHR::IMMEDIATE.as_raw());
    assert_eq!(PRESENT_MODE_MAILBOX, ash::vk::PresentModeKHR::MAILBOX.as_raw());
    assert_eq!(PRESENT_MODE_FIFO, ash::vk::PresentModeKHR::FIFO.as_raw());
    assert_eq!(PRESENT_MODE_FIFO_RELAXED, ash::vk::PresentModeKHR::FIFO_RELAXED.as_raw());
    assert_eq!(PHYSICAL_DEVICE_TYPE_OTHER, ash::vk::PhysicalDeviceType::OTHER.as_raw());
    assert_eq!(PHYSICAL_DEVICE_TYPE_INTEGRATED_GPU, ash::vk::PhysicalDeviceType::INTEGRATED_GPU.as_raw());
    assert_eq!(PHYSICAL_DEVICE_TYPE_DISCRETE_GPU, ash::vk::PhysicalDeviceType::DISCRETE_GPU.as_raw());
    assert_eq!(PHYSICAL_DEVICE_TYPE_VIRTUAL_GPU, ash::vk::PhysicalDeviceType::VIRTUAL_GPU.as_raw());
    assert_eq!(PHYSICAL_DEVICE_TYPE_CPU, ash::vk::PhysicalDeviceType::CPU.as_raw());
}

#[test]
fn priorities() {
    assert_eq!(format_priority(FORMAT_R8G8B8A8_SRGB), 0);
    assert_eq!(format_priority(FORMAT_R8G8B8A8_UNORM), 1);
    assert_eq!(format_priority(44), 2);
    assert_eq!(present_mode_priority(PRESENT_MODE_MAILBOX), 0);
    assert_eq!(present_mode_priority(PRESENT_MODE_FIFO), 1);
    assert_eq!(present_mode_priority(PRESENT_MODE_FIFO_RELAXED), 2);
    assert_eq!(present_mode_priority(PRESENT_MODE_IMMEDIATE), 3);
    assert_eq!(device_priority(PHYSICAL_DEVICE_TYPE_DISCRETE_GPU), 0);
    assert_eq!(device_priority(PHYSICAL_DEVICE_TYPE_INTEGRATED_GPU), 1);
    assert_eq!(device_priority(PHYSICAL_DEVICE_TYPE_VIRTUAL_GPU), 2);
    assert_eq!(device_priority(PHYSICAL_DEVICE_TYPE_CPU), 3);
    assert_eq!(device_priority(PHYSICAL_DEVICE_TYPE_OTHER), 4);
    assert_eq!(device_priority(17), 5);
}

#[test]
fn srgb_format_is_preferred() {
    let formats = [fmt(44, 0), fmt(FORMAT_R8G8B8A8_UNORM, 0), fmt(FORMAT_R8G8B8A8_SRGB, 1), fmt(FORMAT_R8G8B8A8_SRGB, 2)];
    assert_eq!(select_format(&formats), Some(fmt(FORMAT_R8G8B8A8_SRGB, 1)));
    let formats = [fmt(44, 0), fmt(FORMAT_R8G8B8A8_UNORM, 3)];
    assert_eq!(select_format(&formats), Some(fmt(FORMAT_R8G8B8A8_UNORM, 3)));
    let formats = [fmt(50, 7), fmt(44, 0)];
    assert_eq!(select_format(&formats), Some(fmt(50, 7)));
    assert_eq!(select_format(&[]), None);
}

#[test]
fn mailbox_is_preferred() {
    assert_eq!(
        select_present_mode(&[PRESENT_MODE_FIFO, PRESENT_MODE_IMMEDIATE, PRESENT_MODE_MAILBOX]),
        Some(PRESENT_MODE_MAILBOX)
    );
    assert_eq!(select_present_mode(&[PRESENT_MODE_FIFO_RELAXED, PRESENT_MODE_FIFO]), Some(PRESENT_MODE_FIFO));
    assert_eq!(select_present_mode(&[PRESENT_MODE_IMMEDIATE, PRESENT_MODE_FIFO_RELAXED]), Some(PRESENT_MODE_FIFO_RELAXED));
    assert_eq!(select_present_mode(&[PRESENT_MODE_IMMEDIATE]), Some(PRESENT_MODE_IMMEDIATE));
    assert_eq!(select_present_mode(&[]), None);
}

#[test]
fn at_least_two_images() {
    assert_eq!(min_image_count(0), 2);
    assert_eq!(min_image_count(1), 2);
    assert_eq!(min_image_count(2), 2);
    assert_eq!(min_image_count(3), 3);
}

#[test]
fn swapchain_config_and_errors() {
    let formats = [fmt(FORMAT_R8G8B8A8_UNORM, 0)];
    let c = choose_swapchain_config(3, &formats, &[PRESENT_MODE_FIFO]).unwrap();
    assert_eq!(c.min_image_count, 3);
    assert_eq!(c.format, fmt(FORMAT_R8G8B8A8_UNORM, 0));
    assert_eq!(c.present_mode, PRESENT_MODE_FIFO);
    let e = choose_swapchain_config(1, &[], &[]).unwrap_err();
    assert_eq!(e, SwapchainError::NoSuitableFormat);
    assert_eq!(e.message(), "no suitable formats found");
    let e = choose_swapchain_config(1, &formats, &[]).unwrap_err();
    assert_eq!(e, SwapchainError::NoSuitablePresentMode);
    assert_eq!(e.message(), "no suitable present mode found");
}

fn qf(graphics: bool, surface_support: bool) -> QueueFamilyInfo {
    QueueFamilyInfo { graphics, surface_support }
}

#[test]
fn queue_family_must_draw_and_present() {
    assert_eq!(find_queue_family(&[qf(true, false), qf(false, true), qf(true, true), qf(true, true)]), Some(2));
    assert_eq!(find_queue_family(&[qf(true, false), qf(false, true)]), None);
    assert_eq!(find_queue_family(&[]), None);
}

#[test]
fn discrete_gpu_is_preferred() {
    let candidates = vec![
        DeviceCandidate { device_type: PHYSICAL_DEVICE_TYPE_INTEGRATED_GPU, queue_families: vec![qf(true, true)] },
        DeviceCandidate { device_type: PHYSICAL_DEVICE_TYPE_DISCRETE_GPU, queue_families: vec![qf(true, false)] },
        DeviceCandidate {
            device_type: PHYSICAL_DEVICE_TYPE_DISCRETE_GPU,
            queue_families: vec![qf(false, true), qf(true, true)],
        },
        DeviceCandidate { device_type: PHYSICAL_DEVICE_TYPE_DISCRETE_GPU, queue_families: vec![qf(true, true)] },
    ];
    // The second device is discrete but cannot present, so the third is chosen.
    assert_eq!(pick_physical_device(&candidates), Some(DeviceChoice { device: 2, queue_family: 1 }));
}

#[test]
fn device_type_order() {
    let candidates = vec![
        DeviceCandidate { device_type: 99, queue_families: vec![qf(true, true)] },
        DeviceCandidate { device_type: PHYSICAL_DEVICE_TYPE_OTHER, queue_families: vec![qf(true, true)] },
        DeviceCandidate { device_type: PHYSICAL_DEVICE_TYPE_CPU, queue_families: vec![qf(true, true)] },
        DeviceCandidate { device_type: PHYSICAL_DEVICE_TYPE_VIRTUAL_GPU, queue_families: vec![qf(true, true)] },
    ];
    assert_eq!(pick_physical_device(&candidates), Some(DeviceChoice { device: 3, queue_family: 0 }));
    assert_eq!(pick_physical_device(&candidates[..3]), Some(DeviceChoice { device: 2, queue_family: 0 }));
    assert_eq!(pick_physical_device(&candidates[..2]), Some(DeviceChoice { device: 1, queue_family: 0 }));
    assert_eq!(pick_physical_device(&candidates[..1]), Some(DeviceChoice { device: 0, queue_family: 0 }));
}

#[test]
fn no_suitable_device() {
    let candidates = vec![
        DeviceCandidate { device_type: PHYSICAL_DEVICE_TYPE_DISCRETE_GPU, queue_families: vec![qf(true, false)] },
        DeviceCandidate { device_type: PHYSICAL_DEVICE_TYPE_INTEGRATED_GPU, queue_families: vec![] },
    ];
    assert_eq!(pick_physical_device(&candidates), None);
    assert_eq!(pick_physical_device(&[]), None);
}
