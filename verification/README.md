# app_state

The state of a terminal application which runs a job on a project: the lines
of the job come one by one, then its result, which is either a report or a
failure. The user can scroll, search, ask for a summary, for the raw output,
for wrapped lines or for help.

- `src/state.rs` and `src/state/draw.rs`: `AppState`, its operations and its
  drawing.
- `src/model.rs` and `src/frame.rs`: what the operations do, and what is drawn,
  as functions of the content of the state.
- `src/laws/`: what holds of the whole, proved from the above.
- The other modules of `src/` are what the state is made of: styled text,
  output, report, wrapping, scrolling, search, mission and drawing operations.
- `app/`: the application on a real terminal. It measures the screen, starts
  the tasks, does the exports and executes the drawing operations.

Drawing is planned before it's done: the library makes a list of operations,
and the application executes it. Parsing of inline markdown, the place of the
scrollbar and the width of characters come from `termimad`.
