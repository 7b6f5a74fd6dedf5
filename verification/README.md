# zirvtk

A widget toolkit and desktop shell for a software framebuffer, with its
drawing, layout and event logic verified by Verus.

## Layout

- `src/` — the verified library.
  - `color`, `rect`, `font`: packed ARGB colours and blending, rectangles,
    the bitmap font.
  - `raster`, `canvas`, `fx`, `blur`, `lines`, `fbtext`, `icon`: drawing
    primitives on a row-major pixel buffer. Each one states the exact image
    it leaves, as a function of the pixels before it.
  - `widget`, `button`, `label`, `tile`, `scroller`, `window`, `panel`,
    `glass_panel`, `neon_button`, `taskbar`, `app_launcher`, `metro_start`,
    `futuristic_clock`, `toggle`: the widgets. The `Widget` trait names what
    a widget paints and what it answers to an event; each widget defines
    both, and a container (window, panel, glass panel) defines them from its
    own image and its child's.
  - `app`, `desktop`, `platform`, `digits`: the application and desktop
    cores (cursor, input routing, frame rendering, clock text).
  - `bump`, `mesh`: placement in a bump arena, and the index topology of
    generated meshes.
  - `laws`: properties that relate several functions, stated as proof
    functions.
- `tests/` — executable tests of the library.
- `app/` — what runs around the library: the display connection and its
  event loops, the C API, raw framebuffer entry points, the global
  allocator, and the effects, widgets and 3D meshes that compute in
  floating point.
