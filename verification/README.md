# chart_renderer

A lightweight, Vega-Lite-style declarative chart renderer:

```text
spec -> data columns -> scales -> marks (scene) -> raster -> PNG
```

## Layout

- `src/` is the verified library. It holds every decision the pipeline
  makes, each with a contract that Verus proves: spec interpretation (mark
  and field types, inline data only, channel resolution and titles), column
  extraction, the sorted colour domain, per-row colours and the categorical
  scheme, legend entries, line series, the stacking order of pie slices, the
  minus sign in tick labels, hex colours, error messages, and PNG framing
  (through `tiny-skia` and `png`, behind small trusted wrappers).
- `app/` is ordinary Rust around it: JSON parsing with `serde`, and the
  floating-point work (scales and ticks, layout, text measurement with
  `ab_glyph`, mark geometry, rasterization with `tiny-skia`) plus the
  `wasm-bindgen` surface.
- `tests/` exercises the library from outside.

The `ab_glyph` text backend takes the font as bytes (`SimpleShaper::from_font`);
the default is Liberation Sans, metrically compatible with Arial.
