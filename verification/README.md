# antithesis

A small Vulkan renderer whose decisions are verified with Verus.

- `src/` is the verified library. It works on plain values: queue family
  properties, extension names, surface capabilities, presentation results.
  - `queue`: choosing the graphics and presentation queue families
    (`QueueFamilySearch` says which family to ask the driver about next).
  - `extensions`: reading zero-terminated extension names and checking that
    the swapchain extension is available.
  - `device`: device suitability, the search for the first suitable
    physical device, and the queue families of the logical device.
  - `swapchain`: surface format, presentation mode, extent, image count and
    image view settings.
  - `instance`: what the Vulkan instance is created with.
  - `frame`: the frame slot, what to do with the outcome of a present, and
    the answer to each window event.
- `app/` makes the Vulkan and window-system calls (all `unsafe` in `ash`),
  converts between `ash` types and the library's, and runs the event loop.
- `tests/` runs the library on concrete values and checks its Vulkan
  constants against `ash`.
