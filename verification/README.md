# oh_my_todo

A local-first task manager: spaces hold trees of tasks, tasks move through
`todo`, `in_progress`, `done` and `close`, and whole subtrees are archived,
restored and purged. The same core serves a command line and a mouse-first
terminal interface.

## Layout

- `src/` is the verified library. Every public function carries a contract
  that Verus proves:
  - `model`, `ids`, `refs`, `validation`, `text`: the data, the id formats
    and how references to spaces and tasks resolve;
  - `repository`, `maintenance`: the stored records as a model of the data
    directory, the journal of multi-step operations and its recovery, the
    doctor's checks;
  - `space_service`, `task_service`, `app_state_service`, `space_query`,
    `task_query`, `hierarchy`, `order`: the use cases, each stated as what it
    returns and what it leaves stored;
  - `output`, `dispatch`: what each command prints, and the command runner;
  - `tree_view`, `tui_state`: the task tree, the filter and the state
    machine of the terminal interface (dialogs, focus, clicks, scrolling);
  - `lifecycle`, `membership`: laws across use cases (archive then restore,
    purge) and where the rows of listings come from.
- `app/` is the program around it: argument parsing, the data files, the
  event loop and the drawing of the terminal interface.
- `tests/` runs the library on concrete scenarios.
