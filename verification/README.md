# starry_exec

What a Unix-like kernel decides when it starts programs, performs asynchronous
I/O and runs user tasks, as a library verified with Verus.

- Programs: `elf`, `image` and `cache` read and keep the headers of program
  files; `segments`, `relocate` and `loader` lay a program and its interpreter
  out in a user address space; `auxv`, `stack`, `text` and `user_app` find out
  which program runs, and set up its stack and heap. `paging` holds addresses,
  sizes and permissions.
- Asynchronous I/O: `async_calls` takes the requests, `worker` performs them,
  `async_io` holds the queues, and `context` has the completion handler called.
- Tasks: `user` and `task` hold what a task does each time user code stops, and
  `boot` the order in which the kernel comes up.

Whatever depends on the outside world is a state machine: it names the next
action, and its driver performs it and hands the outcome back. Each machine has
a specification of its steps, and laws on what it does as a whole. A `Fault`
stands for a condition under which the kernel stops with a panic.

`app/` holds the drivers, written against traits for the services of the rest
of the kernel. `tests/` runs the library on concrete values.
