# fltkrs-richdisplay, verified model

A rich text display for fltk: text and images flowing line by line, with
selection, search, blinking, a review view paged in on demand, and a board
that CSI cursor control writes in place.

- `src/` is the display model, verified with Verus: geometry, the cursor
  board and its erase operations, layout of segments into pieces, line
  centering and wrapping, what drawing paints, finding what lies under the
  mouse, selection, search, paging, and the state of both views. Text
  measurement is handed in by the caller wherever a step needs it.
- `app/` holds the fltk widgets around the model: event handling, text
  measurement, painting, image files, callbacks and serialization.
- `tests/` runs the model on concrete values.
