//! Swapchain settings: which surface format, presentation mode, image extent
//! and image count to ask for, given what the surface supports.
//!
//! Vulkan enumerations and flags are held by their numeric values, which are
//! those of the Vulkan headers.

use vstd::prelude::*;

verus! {

/// `VK_FORMAT_B8G8R8A8_SRGB`.
pub const FORMAT_B8G8R8A8_SRGB: i32 = 50;

/// `VK_COLOR_SPACE_SRGB_NONLINEAR_KHR`.
pub const COLOR_SPACE_SRGB_NONLINEAR: i32 = 0;

/// `VK_PRESENT_MODE_MAILBOX_KHR`: triple buffering.
pub const PRESENT_MODE_MAILBOX: i32 = 1;

/// `VK_PRESENT_MODE_FIFO_KHR`: wait for the vertical blank; always supported.
pub const PRESENT_MODE_FIFO: i32 = 2;

/// `VK_IMAGE_USAGE_COLOR_ATTACHMENT_BIT`.
pub const IMAGE_USAGE_COLOR_ATTACHMENT: u32 = 16;

/// `VK_SHARING_MODE_EXCLUSIVE`.
pub const SHARING_MODE_EXCLUSIVE: i32 = 0;

/// `VK_COMPOSITE_ALPHA_OPAQUE_BIT_KHR`.
pub const COMPOSITE_ALPHA_OPAQUE: u32 = 1;

/// `VK_IMAGE_VIEW_TYPE_2D`.
pub const IMAGE_VIEW_TYPE_2D: i32 = 1;

/// `VK_COMPONENT_SWIZZLE_IDENTITY`.
pub const COMPONENT_SWIZZLE_IDENTITY: i32 = 0;

/// The window width asked for when the surface leaves the extent open.
pub const DEFAULT_WIDTH: u32 = 1280;

/// The window height asked for when the surface leaves the extent open.
pub const DEFAULT_HEIGHT: u32 = 720;

/// A two-dimensional size in pixels.
#[derive(Clone, Copy, Debug, PartialEq, Eq)]
pub struct Extent2D {
    pub width: u32,
    pub height: u32,
}

/// A pixel format together with a color space.
#[derive(Clone, Copy, Debug, PartialEq, Eq)]
pub struct SurfaceFormat {
    pub format: i32,
    pub color_space: i32,
}

/// What a surface reports of the swapchains it supports.
#[derive(Clone, Copy, Debug, PartialEq, Eq)]
pub struct SurfaceCapabilities {
    pub min_image_count: u32,
    /// Zero when there is no maximum.
    pub max_image_count: u32,
    /// Width `u32::MAX` when the surface leaves the extent to the swapchain.
    pub current_extent: Extent2D,
    pub min_image_extent: Extent2D,
    pub max_image_extent: Extent2D,
    pub max_image_array_layers: u32,
    pub supported_transforms: u32,
    pub current_transform: u32,
    pub supported_composite_alpha: u32,
    pub supported_usage_flags: u32,
}

/// The swapchain support of a physical device for one surface.
pub struct SwapChainSupportDetail {
    pub capabilities: SurfaceCapabilities,
    pub formats: Vec<SurfaceFormat>,
    pub present_modes: Vec<i32>,
}

/// The format the renderer prefers: 8-bit BGRA in sRGB, nonlinear sRGB color.
pub open spec fn preferred_format() -> SurfaceFormat {
    SurfaceFormat { format: FORMAT_B8G8R8A8_SRGB, color_space: COLOR_SPACE_SRGB_NONLINEAR }
}

/// The preferred format if the surface offers it, else the first one offered.
pub open spec fn choose_format_spec(formats: Seq<SurfaceFormat>) -> SurfaceFormat {
    if formats.contains(preferred_format()) {
        preferred_format()
    } else {
        formats[0]
    }
}

/// The format choice: wherever B8G8R8A8_SRGB with nonlinear sRGB color stands
/// among the formats offered, it is chosen; when it is not offered, the first
/// format offered is. The choice is always one of the formats offered.
pub proof fn lemma_format_choice(formats: Seq<SurfaceFormat>)
    requires
        formats.len() > 0,
    ensures
        (exists|k: int|
            0 <= k < formats.len() && formats[k].format == FORMAT_B8G8R8A8_SRGB
                && formats[k].color_space == COLOR_SPACE_SRGB_NONLINEAR) ==> choose_format_spec(formats)
            == (SurfaceFormat { format: FORMAT_B8G8R8A8_SRGB, color_space: COLOR_SPACE_SRGB_NONLINEAR }),
        !(exists|k: int|
            0 <= k < formats.len() && formats[k].format == FORMAT_B8G8R8A8_SRGB
                && formats[k].color_space == COLOR_SPACE_SRGB_NONLINEAR) ==> choose_format_spec(formats)
            == formats[0],
        formats.contains(choose_format_spec(formats)),
{
    if exists|k: int|
        0 <= k < formats.len() && formats[k].format == FORMAT_B8G8R8A8_SRGB
            && formats[k].color_space == COLOR_SPACE_SRGB_NONLINEAR {
        let k = choose|k: int|
            0 <= k < formats.len() && formats[k].format == FORMAT_B8G8R8A8_SRGB
                && formats[k].color_space == COLOR_SPACE_SRGB_NONLINEAR;
        assert(formats[k] == preferred_format());
    } else {
        assert(formats[0] == formats[0]);
    }
}

/// Adding formats before or after the preferred one does not change the
/// choice.
pub proof fn lemma_preferred_format_anywhere(before: Seq<SurfaceFormat>, after: Seq<SurfaceFormat>)
    ensures
        choose_format_spec(before.push(preferred_format()) + after) == preferred_format(),
{
    let formats = before.push(preferred_format()) + after;
    assert(formats[before.len() as int] == preferred_format());
    lemma_format_choice(formats);
}

/// Mailbox if the surface offers it, else FIFO.
pub open spec fn choose_present_mode_spec(present_modes: Seq<i32>) -> i32 {
    if present_modes.contains(PRESENT_MODE_MAILBOX) {
        PRESENT_MODE_MAILBOX
    } else {
        PRESENT_MODE_FIFO
    }
}

/// `value` raised to `lo`, then lowered to `hi`.
pub open spec fn clamp_spec(value: u32, lo: u32, hi: u32) -> u32 {
    let raised = if value < lo { lo } else { value };
    if raised > hi { hi } else { raised }
}

/// The surface's current extent when it fixes one; otherwise the default
/// window size brought within the surface's bounds.
pub open spec fn choose_extent_spec(caps: SurfaceCapabilities) -> Extent2D {
    if caps.current_extent.width != u32::MAX {
        caps.current_extent
    } else {
        Extent2D {
            width: clamp_spec(DEFAULT_WIDTH, caps.min_image_extent.width, caps.max_image_extent.width),
            height: clamp_spec(DEFAULT_HEIGHT, caps.min_image_extent.height, caps.max_image_extent.height),
        }
    }
}

/// One image more than the minimum, lowered to the maximum when there is one.
pub open spec fn choose_image_count_spec(caps: SurfaceCapabilities) -> u32 {
    let wanted = (caps.min_image_count + 1) as u32;
    if caps.max_image_count > 0 && caps.max_image_count < wanted {
        caps.max_image_count
    } else {
        wanted
    }
}

/// One dimension of an open extent: the preferred size `wanted` when it lies
/// within `[lo, hi]`, `lo` when it is below a nonempty range, and `hi` when it
/// is above the range or the range is empty.
pub open spec fn dimension_law(wanted: u32, lo: u32, hi: u32, r: u32) -> bool {
    &&& lo <= wanted <= hi ==> r == wanted
    &&& wanted < lo <= hi ==> r == lo
    &&& wanted > hi ==> r == hi
    &&& lo > hi ==> r == hi
    &&& r <= hi
}

/// What the chosen extent must be: the surface's current extent when it
/// fixes one (width other than `u32::MAX`); otherwise 1280x720, each dimension
/// brought within the surface's bounds as `dimension_law` says.
pub open spec fn extent_law(caps: SurfaceCapabilities, r: Extent2D) -> bool {
    &&& caps.current_extent.width != u32::MAX ==> r == caps.current_extent
    &&& caps.current_extent.width == u32::MAX ==> {
        &&& dimension_law(1280, caps.min_image_extent.width, caps.max_image_extent.width, r.width)
        &&& dimension_law(720, caps.min_image_extent.height, caps.max_image_extent.height, r.height)
    }
}

/// The extent chosen obeys `extent_law`.
pub proof fn lemma_extent_choice(caps: SurfaceCapabilities)
    ensures
        extent_law(caps, choose_extent_spec(caps)),
{
}

/// The image count is one more than the minimum whenever the surface allows
/// that many (no maximum, or a maximum at least that large); otherwise it is
/// the maximum. Either way it never exceeds the maximum (when there is one)
/// and never exceeds one more than the minimum.
pub proof fn lemma_image_count(caps: SurfaceCapabilities)
    requires
        caps.min_image_count < u32::MAX,
    ensures
        caps.max_image_count == 0 || caps.max_image_count >= caps.min_image_count + 1
            ==> choose_image_count_spec(caps) == caps.min_image_count + 1,
        0 < caps.max_image_count < caps.min_image_count + 1 ==> choose_image_count_spec(caps)
            == caps.max_image_count,
        caps.max_image_count > 0 ==> choose_image_count_spec(caps) <= caps.max_image_count,
        choose_image_count_spec(caps) <= caps.min_image_count + 1,
{
}

/// `value` raised to `lo`, then lowered to `hi`.
fn clamp(value: u32, lo: u32, hi: u32) -> (r: u32)
    ensures
        r == clamp_spec(value, lo, hi),
{
    let raised = if value < lo { lo } else { value };
    if raised > hi { hi } else { raised }
}

/// The number of swapchain images to ask for.
pub fn choose_image_count(capabilities: &SurfaceCapabilities) -> (r: u32)
    requires
        capabilities.min_image_count < u32::MAX,
    ensures
        r == choose_image_count_spec(*capabilities),
        capabilities.max_image_count == 0 ==> r == capabilities.min_image_count + 1,
        capabilities.max_image_count > 0 ==> r <= capabilities.max_image_count,
        capabilities.max_image_count > 0 && capabilities.min_image_count
            <= capabilities.max_image_count ==> capabilities.min_image_count <= r,
        r <= capabilities.min_image_count + 1,
        capabilities.max_image_count == 0 || capabilities.max_image_count
            >= capabilities.min_image_count + 1 ==> r == capabilities.min_image_count + 1,
        0 < capabilities.max_image_count < capabilities.min_image_count + 1 ==> r
            == capabilities.max_image_count,
{
    proof {
        lemma_image_count(*capabilities);
    }
    let image_count = capabilities.min_image_count + 1;
    if capabilities.max_image_count > 0 && capabilities.max_image_count < image_count {
        capabilities.max_image_count
    } else {
        image_count
    }
}

impl SwapChainSupportDetail {
    /// The surface offers at least one format and one presentation mode.
    pub open spec fn adequate(&self) -> bool {
        self.formats@.len() > 0 && self.present_modes@.len() > 0
    }

    pub fn is_adequate(&self) -> (r: bool)
        ensures
            r == self.adequate(),
            r <==> self.formats@.len() > 0 && self.present_modes@.len() > 0,
    {
        !self.formats.is_empty() && !self.present_modes.is_empty()
    }

    /// The surface format to create the swapchain with; the surface must
    /// offer at least one.
    pub fn choose_format(&self) -> (r: SurfaceFormat)
        requires
            self.formats@.len() > 0,
        ensures
            r == choose_format_spec(self.formats@),
            self.formats@.contains(r),
            (exists|k: int|
                0 <= k < self.formats@.len() && self.formats@[k].format == FORMAT_B8G8R8A8_SRGB
                    && self.formats@[k].color_space == COLOR_SPACE_SRGB_NONLINEAR) ==> r
                == (SurfaceFormat {
                format: FORMAT_B8G8R8A8_SRGB,
                color_space: COLOR_SPACE_SRGB_NONLINEAR,
            }),
            !(exists|k: int|
                0 <= k < self.formats@.len() && self.formats@[k].format == FORMAT_B8G8R8A8_SRGB
                    && self.formats@[k].color_space == COLOR_SPACE_SRGB_NONLINEAR) ==> r
                == self.formats@[0],
    {
        proof {
            lemma_format_choice(self.formats@);
        }
        let mut i: usize = 0;
        while i < self.formats.len()
            invariant
                i <= self.formats@.len(),
                forall|k: int| 0 <= k < i ==> self.formats@[k] != preferred_format(),
            decreases self.formats@.len() - i,
        {
            let available_format = self.formats[i];
            if available_format.format == FORMAT_B8G8R8A8_SRGB && available_format.color_space
                == COLOR_SPACE_SRGB_NONLINEAR {
                assert(self.formats@[i as int] == preferred_format());
                return available_format;
            }
            i = i + 1;
        }
        self.formats[0]
    }

    /// The presentation mode to create the swapchain with.
    pub fn choose_present_mode(&self) -> (r: i32)
        ensures
            r == choose_present_mode_spec(self.present_modes@),
            r == PRESENT_MODE_MAILBOX || r == PRESENT_MODE_FIFO,
            r == PRESENT_MODE_MAILBOX <==> self.present_modes@.contains(PRESENT_MODE_MAILBOX),
    {
        let mut i: usize = 0;
        while i < self.present_modes.len()
            invariant
                i <= self.present_modes@.len(),
                forall|k: int| 0 <= k < i ==> self.present_modes@[k] != PRESENT_MODE_MAILBOX,
            decreases self.present_modes@.len() - i,
        {
            let available_present_mode = self.present_modes[i];
            if available_present_mode == PRESENT_MODE_MAILBOX {
                return available_present_mode;
            }
            i = i + 1;
        }
        PRESENT_MODE_FIFO
    }

    /// The extent of the swapchain images.
    pub fn choose_extent(&self) -> (r: Extent2D)
        ensures
            r == choose_extent_spec(self.capabilities),
            self.capabilities.current_extent.width == u32::MAX ==> {
                &&& r.width <= self.capabilities.max_image_extent.width
                &&& r.height <= self.capabilities.max_image_extent.height
                &&& self.capabilities.min_image_extent.width
                    <= self.capabilities.max_image_extent.width ==> self.capabilities.min_image_extent.width
                    <= r.width
                &&& self.capabilities.min_image_extent.height
                    <= self.capabilities.max_image_extent.height ==> self.capabilities.min_image_extent.height
                    <= r.height
            },
            extent_law(self.capabilities, r),
    {
        proof {
            lemma_extent_choice(self.capabilities);
        }
        let caps = &self.capabilities;
        if caps.current_extent.width != u32::MAX {
            caps.current_extent
        } else {
            Extent2D {
                width: clamp(DEFAULT_WIDTH, caps.min_image_extent.width, caps.max_image_extent.width),
                height: clamp(
                    DEFAULT_HEIGHT,
                    caps.min_image_extent.height,
                    caps.max_image_extent.height,
                ),
            }
        }
    }

    /// Everything the swapchain is created with, apart from the surface.
    pub fn swapchain_settings(&self) -> (r: SwapchainSettings)
        requires
            self.formats@.len() > 0,
            self.capabilities.min_image_count < u32::MAX,
        ensures
            r.min_image_count == choose_image_count_spec(self.capabilities),
            r.image_format == choose_format_spec(self.formats@).format,
            r.image_color_space == choose_format_spec(self.formats@).color_space,
            r.image_extent == choose_extent_spec(self.capabilities),
            r.image_usage == IMAGE_USAGE_COLOR_ATTACHMENT,
            r.image_sharing_mode == SHARING_MODE_EXCLUSIVE,
            r.queue_family_indices@ == Seq::<u32>::empty(),
            r.pre_transform == self.capabilities.current_transform,
            r.composite_alpha == COMPOSITE_ALPHA_OPAQUE,
            r.present_mode == choose_present_mode_spec(self.present_modes@),
            r.clipped,
            r.image_array_layers == 1,
    {
        let surface_format = self.choose_format();
        let present_mode = self.choose_present_mode();
        let image_extent = self.choose_extent();
        let min_image_count = choose_image_count(&self.capabilities);
        SwapchainSettings {
            min_image_count,
            image_format: surface_format.format,
            image_color_space: surface_format.color_space,
            image_extent,
            image_usage: IMAGE_USAGE_COLOR_ATTACHMENT,
            image_sharing_mode: SHARING_MODE_EXCLUSIVE,
            queue_family_indices: Vec::new(),
            pre_transform: self.capabilities.current_transform,
            composite_alpha: COMPOSITE_ALPHA_OPAQUE,
            present_mode,
            clipped: true,
            image_array_layers: 1,
        }
    }
}

/// The settings a swapchain is created with, apart from the surface.
pub struct SwapchainSettings {
    pub min_image_count: u32,
    pub image_format: i32,
    pub image_color_space: i32,
    pub image_extent: Extent2D,
    pub image_usage: u32,
    pub image_sharing_mode: i32,
    pub queue_family_indices: Vec<u32>,
    pub pre_transform: u32,
    pub composite_alpha: u32,
    pub present_mode: i32,
    pub clipped: bool,
    pub image_array_layers: u32,
}

/// The settings an image view of a swapchain image is created with.
#[derive(Clone, Copy, Debug, PartialEq, Eq)]
pub struct ImageViewSettings {
    pub view_type: i32,
    pub format: i32,
    pub component_r: i32,
    pub component_g: i32,
    pub component_b: i32,
    pub component_a: i32,
    pub aspect_mask: u32,
    pub base_mip_level: u32,
    pub level_count: u32,
    pub base_array_layer: u32,
    pub layer_count: u32,
}

/// A two-dimensional view of one array layer of an image, with identity
/// component mapping, covering `mip_levels` levels from the first.
pub fn image_view_settings(format: i32, aspect_flags: u32, mip_levels: u32) -> (r:
    ImageViewSettings)
    ensures
        r == (ImageViewSettings {
            view_type: IMAGE_VIEW_TYPE_2D,
            format,
            component_r: COMPONENT_SWIZZLE_IDENTITY,
            component_g: COMPONENT_SWIZZLE_IDENTITY,
            component_b: COMPONENT_SWIZZLE_IDENTITY,
            component_a: COMPONENT_SWIZZLE_IDENTITY,
            aspect_mask: aspect_flags,
            base_mip_level: 0,
            level_count: mip_levels,
            base_array_layer: 0,
            layer_count: 1,
        }),
{
    ImageViewSettings {
        view_type: IMAGE_VIEW_TYPE_2D,
        format,
        component_r: COMPONENT_SWIZZLE_IDENTITY,
        component_g: COMPONENT_SWIZZLE_IDENTITY,
        component_b: COMPONENT_SWIZZLE_IDENTITY,
        component_a: COMPONENT_SWIZZLE_IDENTITY,
        aspect_mask: aspect_flags,
        base_mip_level: 0,
        level_count: mip_levels,
        base_array_layer: 0,
        layer_count: 1,
    }
}

} // verus!
