# runebender_web

The editing core of a browser font editor, written in Verus: every
function in `src/` carries a contract that Verus proves.

- `src/outline.rs` — contour points, the point selection, and the index
  logic editing runs on (neighbours, segments, handles that move with a
  selection, deletion, span extraction, segment splitting).
- `src/editor.rs` — the contour-editing state: contours, selection and edit
  revision, with the commands that change them (pen tool, cycling, deleting,
  copying and pasting, reversing, segment and contour selection).
- `src/glyph_renderer.rs` — the drawing commands of a UFO contour.
- `src/markers.rs` — which marker each point is drawn with, and where the
  start arrow goes.
- `src/text.rs` — the text tool's sort buffer.
- `src/mouse.rs` — the mouse gesture state machine.
- `src/compat.rs` — interpolation compatibility across masters.
- `src/measure.rs`, `src/decimal.rs` — measurement labels.
- `src/codepoints.rs` — the checks of an image-trace request.
- `src/signature.rs` — outline and selection signatures.

Point positions are generic (`P`); the host supplies them, together with
fresh entity ids where a command creates points. `app/` holds the host-side
glue: kurbo geometry and hit tests, `norad` conversion, serde payloads,
image tracing and mouse-delegate dispatch.
