# pixelforge

The image-handling core of PixelForge, a tool that turns character portraits
into pixel art, written in Verus with its behaviour stated in contracts and
proved.

## Layout

- `src/` — the verified library:
  - `raster` — the RGBA pixel buffer and its mathematical model;
  - `font`, `text` — the built-in 5×7 bitmap font and text drawing;
  - `transform` — flips, crops, pixel offsets, resizing and the size limit;
  - `imaging`, `loader`, `export`, `file_format` — decoding, resampling and
    encoding through the `image` crate, the format a path's extension names,
    and the export scale-up;
  - `contact_sheet`, `captions` — the contact sheet of pipeline stages;
  - `regions`, `placeholder`, `visualize` — face-parsing regions, their
    colors and bounding boxes, the stand-in face parser, renderings of label
    maps and the face annotation;
  - `model_output`, `session`, `analysis` — reading model outputs, choosing
    the inference backend, the session cache and the analysis plan;
  - `sizing`, `config`, `ml_config`, `downloader` — output sizing,
    configuration values, and the model list's ordering and download outcome.
- `tests/` — tests of the library on concrete values.
- `app/` — the command-line front end: files, configuration on disk, CUDA
  probing, HTTP downloads, ONNX inference and the floating-point maps.
