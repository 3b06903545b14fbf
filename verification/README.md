# app_proxy_windows

The decisions behind App Proxy on Windows: a proxy manager that starts applications with a proxy of their own,
keeps the core that serves the proxies running, and lets an elevated guard notice programs that were started
without one.

The library under `src/` is verified with Verus. It touches no file, no registry key and no process: what the
operating system says comes in as plain values, and what has to be done goes out as plain values. Every public
function states in its contract what it returns for every input. Laws that span several functions stand beside
them as public proof functions.

| Modules | What they decide |
| --- | --- |
| `config_transaction`, `core_requests`, `login_journal` | requests that survive a crash and are answered once |
| `core_state`, `core_plan`, `core_update` | the core's generations, and moving a running core from one to the next |
| `core_start`, `core_process` | finding an interrupted start again, listeners, stopping |
| `ifeo_registry`, `ifeo_rules`, `ifeo_journal`, `ifeo_steps`, `ifeo_laws`, `ifeo_entry` | registrations that start an entry in place of a program, and taking them back |
| `etw`, `event_pipe`, `event_journal`, `guard_listener` | hints about process starts, and their way to the coordinator |
| `guard_deployment`, `guard_install`, `guard_task`, `login`, `security` | protected copies of the guard, its scheduled tasks, and who may change them |
| `installation`, `instance_data`, `instance_process`, `instance_resource` | applications, the data of their instances, their processes, and the claims on them |
| `identity`, `creation_guard`, `diagnostic_timing` | tokens and packages, debuggers in the way of a start, timing records |
| `model`, `store`, `ids`, `digest`, `path`, `text`, `seqs`, `error` | what the others are built on |

`app/` is the Windows side: it asks the operating system, calls the library, and carries out what the library
decided. The COM modules are compiled on Windows only. `tests/` runs the library on concrete values.
