# engine

A small Vulkan game engine whose decisions are proved with Verus.

- `src/` is the verified library: the stage schedule and the workloads built
  from it (`schedule`, `modules`, `workloads`), frame-in-flight synchronisation
  (`frame_sync`), swapchain and physical-device selection (`swapchain`,
  `device`), the layout transitions of a frame's command buffer (`commands`),
  image-view bookkeeping (`image`), materials and meshes by name (`materials`)
  and the engine's reaction to window input (`events`).
- `app/` is the program around it: the window, the Vulkan calls, the ECS
  world, and the floating-point camera.
- `tests/` runs the library on concrete values.
