# Viap

Viap moves installed applications and large folders to another disk and leaves
a directory link behind, moves them back, and uninstalls applications together
with what they leave on the machine.

The decisions are made by a library that is verified with Verus; the program
around it reads the machine, performs what the library decides and reports.

| Part | What it holds |
| --- | --- |
| `src/migration` | moving a directory, copying, links, moving back, refused places |
| `src/folder_manager` | large folders, data templates, sizes, moving folders back |
| `src/app_manager` | finding applications, uninstalling, remains, reports |
| `src/integrity.rs`, `src/portable_update.rs` | checks against published releases |
| `src/text.rs`, `src/path.rs`, `src/path_order.rs`, `src/list.rs` | texts, paths and ordered lists, on which the rest stands |
| `app` | files, registry, processes, network, and the commands of the program |
| `tests` | the library on concrete values |

Work that alternates between deciding and acting is a machine in the library:
`Migration`, `TreeCopy`, `Restore`, `UninstallRun`, `ForceRemoval`, `Cleanup`,
`StreamScan` and `Deletion` say what is to be done next and take what came of
it. What holds of whole runs, such as that at every moment a whole copy of the
data stands at the source, at the target or at the backup, is stated in the
proof functions whose names begin with `law_`. A copy counts as whole once all
its directories, files and links have been made and its size has been measured.

Numbers that are worked out with floating point (scores, percentages, shown
sizes) are computed by the program and handed to the library as integers or
texts.

## The program

The program reads one command per line from its standard input and writes
replies and events as lines of JSON:

    {"id": 1, "command": "get_large_folders", "args": {}}
    {"id": 1, "ok": [...]}

Moving, uninstalling and cleaning up need Windows; elsewhere the program says
so.
