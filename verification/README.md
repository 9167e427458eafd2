# image_editor_core

The editing core of a layered desktop image editor, written in Verus: every
function in `src/` carries a contract, and Verus proves each body against it.

## Layout

- `src/` — the verified library.
  - `raster`, `raster_laws`: RGBA rasters (flips, quarter turns, crop,
    invert) and the laws relating them.
  - `fill`, `blur`, `gray`, `brush`, `retouch`: pixel algorithms — flood
    fill with a colour tolerance, separable box blur, luma greyscale (through
    the `image` crate), paint and erase steps, and the integer parts of the
    retouch brushes.
  - `load`: opening a file: its extension, decoding its bytes (through the
    `image` crate) and the new editor that holds the image.
  - `stroke`: where a brush or eraser stroke lands and what it lays down.
  - `layers`, `layer_ops`, `tools`, `panel`: the layer document and what the
    editor does to it (new, duplicate, delete, merge, flatten, rasterize,
    reorder, placed images, whole-layer pixel operations, crops, rotations).
  - `history`, `editor`, `editor_laws`: the bounded undo history, the editor
    state, and laws such as undo right after an edit.
  - `text_edit`, `text_session`, `text_tool`, `text`: byte-offset text
    editing on UTF-8 strings and the text tool's session.
  - `color`, `palette`, `favorites`, `labels`, `export`, `cache`,
    `commands`: colours and hex codes, colour history and favourites, saved
    brushes, tool and menu labels, export planning, layer caches and menu
    state.
- `app/` — the desktop side that Verus does not see: files, settings, threads
  for filters, and the floating-point work (blending, colour models,
  resampling, brush shapes).
- `tests/` — tests run against the compiled library with the real `image`
  crate linked.
