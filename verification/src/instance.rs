//! What the Vulkan instance is created with.

use vstd::prelude::*;

verus! {

/// `VK_INSTANCE_CREATE_ENUMERATE_PORTABILITY_BIT_KHR`.
pub const INSTANCE_CREATE_ENUMERATE_PORTABILITY: u32 = 1;

/// A Vulkan version number packed as `VK_MAKE_API_VERSION` packs it: the
/// variant in the top three bits, then ten bits of major version, ten bits of
/// minor version and twelve bits of patch version.
pub open spec fn api_version_spec(variant: u32, major: u32, minor: u32, patch: u32) -> u32 {
    (variant << 29u32) | (major << 22u32) | (minor << 12u32) | patch
}

/// `ash::vk::make_api_version`, whose body is the packing that
/// `api_version_spec` states.
#[verifier::external_body]
fn make_api_version(variant: u32, major: u32, minor: u32, patch: u32) -> (r: u32)
    ensures
        r == api_version_spec(variant, major, minor, patch),
{
    ash::vk::make_api_version(variant, major, minor, patch)
}

/// What the instance is created with, apart from the window system's
/// extensions.
pub struct InstanceSettings {
    pub application_name: &'static str,
    pub application_version: u32,
    pub engine_name: &'static str,
    pub engine_version: u32,
    pub api_version: u32,
    pub enabled_layer_names: Vec<&'static str>,
    pub flags: u32,
}

/// The renderer's instance: application "Demo" and engine "Antithesis", both
/// at version 1, Vulkan 1.0, the Khronos validation layer, and, on platforms
/// whose Vulkan runs on a portability layer (macOS and iOS), the flag that
/// lets such implementations be enumerated.
pub fn instance_settings(portability_platform: bool) -> (r: InstanceSettings)
    ensures
        r.application_name@ == "Demo"@,
        r.application_version == 1,
        r.engine_name@ == "Antithesis"@,
        r.engine_version == 1,
        r.api_version == api_version_spec(0, 1, 0, 0),
        r.api_version == 4194304,
        r.enabled_layer_names@.len() == 1,
        r.enabled_layer_names@[0]@ == "VK_LAYER_KHRONOS_validation"@,
        r.flags == (if portability_platform {
            INSTANCE_CREATE_ENUMERATE_PORTABILITY
        } else {
            0
        }),
{
    let api_version = make_api_version(0, 1, 0, 0);
    assert(api_version_spec(0, 1, 0, 0) == 4194304) by (bit_vector);
    let mut enabled_layer_names: Vec<&'static str> = Vec::new();
    enabled_layer_names.push("VK_LAYER_KHRONOS_validation");
    InstanceSettings {
        application_name: "Demo",
        application_version: 1,
        engine_name: "Antithesis",
        engine_version: 1,
        api_version,
        enabled_layer_names,
        flags: if portability_platform {
            INSTANCE_CREATE_ENUMERATE_PORTABILITY
        } else {
            0
        },
    }
}

} // verus!
