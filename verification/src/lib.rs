//! Decision logic of a small Vulkan renderer: which queue families, which
//! physical device, which instance and swapchain settings, and how the frame
//! loop reacts to what the presentation engine reports.
//!
//! The driver calls themselves, all of which are `unsafe` in `ash`, are made
//! by the application: it hands the answers to these functions, as plain
//! values, and carries out what they decide. Where a step asks the driver
//! something and then decides what to ask next, the step is a search object
//! here (`QueueFamilySearch`, `PhysicalDeviceSearch`) that says what to ask
//! and records each answer.

pub mod device;
pub mod extensions;
pub mod frame;
pub mod instance;
pub mod queue;
pub mod swapchain;
