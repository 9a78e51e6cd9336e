# herdiff

A terminal diff viewer for [herdr](https://herdr.dev): it finds every git repo that herdr panes
work in and shows what changed, grouped by repo, while agents keep editing.

`src/` is the viewer's logic, verified with Verus. `app/` is the program around it: command line,
terminal, socket, threads, running git. `tests/` runs the library.

| module | what it states |
| --- | --- |
| `text`, `paths` | text and path primitives |
| `diff` | unified diff parsing, unified and side-by-side row layouts |
| `git`, `git_output`, `git_run`, `git_write` | which git commands are run, what their answers mean, the file list |
| `json` | JSON by way of serde_json |
| `herdr`, `scope`, `model` | the socket protocol, which workspaces are shown, panes grouped by repo |
| `highlight` | syntax highlighting of diff lines with syntect and bat's themes |
| `app`, `input`, `keys`, `mouse` | the viewer's state and what input does to it |
| `worker`, `tui` | background jobs, refreshes, the decisions of the main loop |
| `ui`, `ui_diff`, `ui_status`, `screen` | what stands where on the screen |
| `cli` | options, `list` and its JSON |
| `laws` | what holds across operations |

What a git command, the socket or the clock answers is handed in: functions that need it take it
as a closure, and their contracts speak of every answer it may give. Calls into serde_json,
syntect, two-face and ratatui stand behind small functions whose doc comments say what is
believed of them.
