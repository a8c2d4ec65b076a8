# hms_render

The planning core of a map renderer: everything about textures, meshes, materials, draw passes and
the real-time probe grid that is decided before a GPU sees it.

* `src/` is the library, written in Verus. Each function states in its contract what it returns and
  what it changes; the proof functions named `law_..` state what holds across functions.
* `app/` is the wgpu side: it creates devices' objects from the library's plans, reads the
  environment, and does what needs floating point (distances, colour scales, float cube levels).
* `tests/` runs the library on concrete values.

Numbers that the GPU reads as floats are carried as their bit patterns (`u32`). `f32bits` says what
a pattern is worth, so that comparisons, limits and the one exact multiplication can be proved.

| Module | What |
|---|---|
| `f32bits`, `words`, `sort`, `config` | bit patterns, GPU records as words and bytes, stable ordering, settings |
| `memprof` | GPU memory accounting |
| `texture`, `gamma`, `dds` | mip chains, the gamma table and how well it reads back, cubes, block-compressed files |
| `layout`, `pipeline` | bind groups, vertex attributes, blend states, pipelines, samplers |
| `mesh`, `terrain`, `water`, `cube` | vertex and instance records, materials, uploads |
| `draw` | which meshes a pass draws, in which order, through which pipeline |
| `rtgi` | the probe grid: sizes, parameters, slices and weights of its updates |

The WGSL of the probe lookup and update is in `app/gi_shaders.rs`. The text of the render shaders is
not part of this crate: `app::shaders::ShaderSources` takes it. `pipeline::shader_parts` says how the
pieces are put together, and `pipeline::shader_fills` which settings fill their placeholders.

One call into an outside crate is trusted rather than proved: `bytemuck::cast_slice`, behind
`words::upload_bytes`.
