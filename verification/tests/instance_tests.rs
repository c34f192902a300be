use antithesis::instance::{instance_settings, INSTANCE_CREATE_ENUMERATE_PORTABILITY};
use ash::vk;

#[test]
fn renderer_instance_settings() {
    let settings = instance_settings(false);
    assert_eq!(settings.application_name, "Demo");
    assert_eq!(settings.application_version, 1);
    assert_eq!(settings.engine_name, "Antithesis");
    assert_eq!(settings.engine_version, 1);
    assert_eq!(settings.enabled_layer_names, vec!["VK_LAYER_KHRONOS_validation"]);
    assert_eq!(settings.flags, 0);
}

#[test]
fn api_version_is_vulkan_1_0() {
    let settings = instance_settings(false);
    assert_eq!(settings.api_version, vk::API_VERSION_1_0);
    assert_eq!(settings.api_version, 1 << 22);
}

#[test]
fn portability_flag_only_on_portability_platforms() {
    assert_eq!(INSTANCE_CREATE_ENUMERATE_PORTABILITY, vk::InstanceCreateFlags::ENUMERATE_PORTABILITY_KHR.as_raw());
    assert_eq!(instance_settings(true).flags, INSTANCE_CREATE_ENUMERATE_PORTABILITY);
}
