use antithesis::swapchain::{
    choose_image_count, image_view_settings, Extent2D, ImageViewSettings, SurfaceCapabilities,
    SurfaceFormat, SwapChainSupportDetail, COLOR_SPACE_SRGB_NONLINEAR, COMPONENT_SWIZZLE_IDENTITY,
    COMPOSITE_ALPHA_OPAQUE, FORMAT_B8G8R8A8_SRGB, IMAGE_USAGE_COLOR_ATTACHMENT,
    IMAGE_VIEW_TYPE_2D, PRESENT_MODE_FIFO, PRESENT_MODE_MAILBOX, SHARING_MODE_EXCLUSIVE,
};
use ash::vk;

fn extent(width: u32, height: u32) -> Extent2D {
    Extent2D { width, height }
}

fn capabilities(min_image_count: u32, max_image_count: u32, current: Extent2D) -> SurfaceCapabilities {
    SurfaceCapabilities {
        min_image_count,
        max_image_count,
        current_extent: current,
        min_image_extent: extent(1, 1),
        max_image_extent: extent(4096, 4096),
        max_image_array_layers: 1,
        supported_transforms: 1,
        current_transform: 1,
        supported_composite_alpha: 1,
        supported_usage_flags: 0x1f,
    }
}

fn support(formats: Vec<SurfaceFormat>, present_modes: Vec<i32>) -> SwapChainSupportDetail {
    SwapChainSupportDetail {
        capabilities: capabilities(2, 8, extent(800, 600)),
        formats,
        present_modes,
    }
}

const UNORM: SurfaceFormat = SurfaceFormat { format: 44, color_space: 0 };
const PREFERRED: SurfaceFormat =
    SurfaceFormat { format: FORMAT_B8G8R8A8_SRGB, color_space: COLOR_SPACE_SRGB_NONLINEAR };

#[test]
fn constants_are_vulkans() {
    assert_eq!(FORMAT_B8G8R8A8_SRGB, vk::Format::B8G8R8A8_SRGB.as_raw());
    assert_eq!(UNORM.format, vk::Format::B8G8R8A8_UNORM.as_raw());
    assert_eq!(COLOR_SPACE_SRGB_NONLINEAR, vk::ColorSpaceKHR::SRGB_NONLINEAR.as_raw());
    assert_eq!(PRESENT_MODE_MAILBOX, vk::PresentModeKHR::MAILBOX.as_raw());
    assert_eq!(PRESENT_MODE_FIFO, vk::PresentModeKHR::FIFO.as_raw());
    assert_eq!(IMAGE_USAGE_COLOR_ATTACHMENT, vk::ImageUsageFlags::COLOR_ATTACHMENT.as_raw());
    assert_eq!(SHARING_MODE_EXCLUSIVE, vk::SharingMode::EXCLUSIVE.as_raw());
    assert_eq!(COMPOSITE_ALPHA_OPAQUE, vk::CompositeAlphaFlagsKHR::OPAQUE.as_raw());
    assert_eq!(IMAGE_VIEW_TYPE_2D, vk::ImageViewType::TYPE_2D.as_raw());
    assert_eq!(COMPONENT_SWIZZLE_IDENTITY, vk::ComponentSwizzle::IDENTITY.as_raw());
}

#[test]
fn preferred_format_is_chosen_wherever_it_stands() {
    let detail = support(vec![UNORM, PREFERRED], vec![PRESENT_MODE_FIFO]);
    assert_eq!(detail.choose_format(), PREFERRED);
}

#[test]
fn first_format_when_the_preferred_one_is_missing() {
    let other_space = SurfaceFormat { format: FORMAT_B8G8R8A8_SRGB, color_space: 1000104002 };
    let detail = support(vec![other_space, UNORM], vec![PRESENT_MODE_FIFO]);
    assert_eq!(detail.choose_format(), other_space);
}

#[test]
fn mailbox_when_offered() {
    let detail = support(vec![UNORM], vec![0, PRESENT_MODE_FIFO, PRESENT_MODE_MAILBOX]);
    assert_eq!(detail.choose_present_mode(), PRESENT_MODE_MAILBOX);
}

#[test]
fn fifo_otherwise() {
    let detail = support(vec![UNORM], vec![0, 3]);
    assert_eq!(detail.choose_present_mode(), PRESENT_MODE_FIFO);
    let none = support(vec![UNORM], vec![]);
    assert_eq!(none.choose_present_mode(), PRESENT_MODE_FIFO);
}

#[test]
fn fixed_extent_is_taken_as_is() {
    let detail = support(vec![UNORM], vec![PRESENT_MODE_FIFO]);
    assert_eq!(detail.choose_extent(), extent(800, 600));
}

#[test]
fn open_extent_is_the_default_window_size_within_bounds() {
    let mut detail = support(vec![UNORM], vec![PRESENT_MODE_FIFO]);
    detail.capabilities.current_extent = extent(u32::MAX, u32::MAX);
    assert_eq!(detail.choose_extent(), extent(1280, 720));
    detail.capabilities.min_image_extent = extent(1920, 100);
    detail.capabilities.max_image_extent = extent(2560, 640);
    assert_eq!(detail.choose_extent(), extent(1920, 640));
}

#[test]
fn open_extent_with_crossed_bounds_takes_the_maximum() {
    let mut detail = support(vec![UNORM], vec![PRESENT_MODE_FIFO]);
    detail.capabilities.current_extent = extent(u32::MAX, 0);
    detail.capabilities.min_image_extent = extent(2000, 900);
    detail.capabilities.max_image_extent = extent(1000, 800);
    assert_eq!(detail.choose_extent(), extent(1000, 800));
}

#[test]
fn image_count_is_one_more_than_the_minimum() {
    assert_eq!(choose_image_count(&capabilities(2, 8, extent(1, 1))), 3);
    assert_eq!(choose_image_count(&capabilities(2, 0, extent(1, 1))), 3);
}

#[test]
fn image_count_is_capped_by_the_maximum() {
    assert_eq!(choose_image_count(&capabilities(2, 2, extent(1, 1))), 2);
    assert_eq!(choose_image_count(&capabilities(3, 3, extent(1, 1))), 3);
}

#[test]
fn adequate_needs_a_format_and_a_mode() {
    assert!(support(vec![UNORM], vec![PRESENT_MODE_FIFO]).is_adequate());
    assert!(!support(vec![], vec![PRESENT_MODE_FIFO]).is_adequate());
    assert!(!support(vec![UNORM], vec![]).is_adequate());
}

#[test]
fn swapchain_settings_follow_the_choices() {
    let mut detail = support(vec![UNORM, PREFERRED], vec![PRESENT_MODE_MAILBOX]);
    detail.capabilities.current_transform = 4;
    let settings = detail.swapchain_settings();
    assert_eq!(settings.min_image_count, 3);
    assert_eq!(settings.image_format, FORMAT_B8G8R8A8_SRGB);
    assert_eq!(settings.image_color_space, COLOR_SPACE_SRGB_NONLINEAR);
    assert_eq!(settings.image_extent, extent(800, 600));
    assert_eq!(settings.image_usage, IMAGE_USAGE_COLOR_ATTACHMENT);
    assert_eq!(settings.image_sharing_mode, SHARING_MODE_EXCLUSIVE);
    assert!(settings.queue_family_indices.is_empty());
    assert_eq!(settings.pre_transform, 4);
    assert_eq!(settings.composite_alpha, COMPOSITE_ALPHA_OPAQUE);
    assert_eq!(settings.present_mode, PRESENT_MODE_MAILBOX);
    assert!(settings.clipped);
    assert_eq!(settings.image_array_layers, 1);
}

#[test]
fn image_view_covers_one_layer_and_the_given_levels() {
    let color = vk::ImageAspectFlags::COLOR.as_raw();
    assert_eq!(
        image_view_settings(FORMAT_B8G8R8A8_SRGB, color, 1),
        ImageViewSettings {
            view_type: IMAGE_VIEW_TYPE_2D,
            format: FORMAT_B8G8R8A8_SRGB,
            component_r: COMPONENT_SWIZZLE_IDENTITY,
            component_g: COMPONENT_SWIZZLE_IDENTITY,
            component_b: COMPONENT_SWIZZLE_IDENTITY,
            component_a: COMPONENT_SWIZZLE_IDENTITY,
            aspect_mask: color,
            base_mip_level: 0,
            level_count: 1,
            base_array_layer: 0,
            layer_count: 1,
        }
    );
    assert_eq!(image_view_settings(44, 2, 5).level_count, 5);
}
