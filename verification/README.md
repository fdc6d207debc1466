# algorithm_visualizer

A terminal program that shows sorting and searching algorithms one step at a time.

- `src/` is the library, verified with Verus: the step-by-step state machines of
  insertion, quick, shell, heap, merge and radix sort and of linear and binary search;
  the array collection they run on; the menus, dialogs, settings and input fields; and
  the text and colors of each screen. Each public function states what it returns or
  changes; `src/laws.rs` holds the properties that span several calls.
- `app/` is the terminal front end (crossterm): it reads keys, draws, sleeps between
  steps, and loads and saves the settings file (serde_json), handing plain values to the
  library and back.
- `tests/` runs the library on concrete inputs.
