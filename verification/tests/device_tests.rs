use antithesis::device::{is_physical_device_suitable, unique_queue_families, PhysicalDeviceSearch};
use antithesis::queue::QueueFamilyIndices;
use antithesis::swapchain::{
    Extent2D, SurfaceCapabilities, SurfaceFormat, SwapChainSupportDetail, PRESENT_MODE_FIFO,
};

fn complete() -> QueueFamilyIndices {
    QueueFamilyIndices { graphics_family: Some(0), present_family: Some(1) }
}

fn detail(formats: usize, modes: usize) -> SwapChainSupportDetail {
    let extent = Extent2D { width: 640, height: 480 };
    SwapChainSupportDetail {
        capabilities: SurfaceCapabilities {
            min_image_count: 2,
            max_image_count: 0,
            current_extent: extent,
            min_image_extent: extent,
            max_image_extent: extent,
            max_image_array_layers: 1,
            supported_transforms: 1,
            current_transform: 1,
            supported_composite_alpha: 1,
            supported_usage_flags: 16,
        },
        formats: vec![SurfaceFormat { format: 44, color_space: 0 }; formats],
        present_modes: vec![PRESENT_MODE_FIFO; modes],
    }
}

fn pick(suitable: &[bool]) -> (Option<usize>, Vec<usize>) {
    let mut search = PhysicalDeviceSearch::new(suitable.len());
    let mut examined = Vec::new();
    while let Some(i) = search.next_candidate() {
        examined.push(i);
        search.record_suitability(suitable[i]);
    }
    (search.picked(), examined)
}

#[test]
fn suitable_device() {
    assert!(is_physical_device_suitable(&complete(), true, Some(&detail(1, 1))));
}

#[test]
fn unsuitable_without_complete_queue_families() {
    let partial = QueueFamilyIndices { graphics_family: Some(0), present_family: None };
    assert!(!is_physical_device_suitable(&partial, true, Some(&detail(1, 1))));
}

#[test]
fn unsuitable_without_extensions() {
    assert!(!is_physical_device_suitable(&complete(), false, None));
    assert!(!is_physical_device_suitable(&complete(), false, Some(&detail(1, 1))));
}

#[test]
fn unsuitable_without_formats_or_modes() {
    assert!(!is_physical_device_suitable(&complete(), true, Some(&detail(0, 1))));
    assert!(!is_physical_device_suitable(&complete(), true, Some(&detail(1, 0))));
    assert!(!is_physical_device_suitable(&complete(), true, None));
}

#[test]
fn first_suitable_device_is_picked_and_later_ones_are_not_examined() {
    assert_eq!(pick(&[false, true, true]), (Some(1), vec![0, 1]));
}

#[test]
fn no_suitable_device() {
    assert_eq!(pick(&[false, false]), (None, vec![0, 1]));
    assert_eq!(pick(&[]), (None, vec![]));
}

#[test]
fn one_queue_family_when_both_roles_share_it() {
    let shared = QueueFamilyIndices { graphics_family: Some(3), present_family: Some(3) };
    assert_eq!(unique_queue_families(&shared), vec![3]);
}

#[test]
fn two_queue_families_when_the_roles_differ() {
    let split = QueueFamilyIndices { graphics_family: Some(0), present_family: Some(2) };
    assert_eq!(unique_queue_families(&split), vec![0, 2]);
}
