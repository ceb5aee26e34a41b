# udbg

The decisions of a user-mode debugger for Windows, verified with Verus.

A debugger spends its time asking the system for things: to write a byte, to read
a thread's registers, to wait for the next event. Here every operation that needs
the system is a value. It names the next `Action`, and goes on with the `Reply`
to it, so that what the debugger decides is a function of what it was told, and
its contracts say which.

* `src/` is the library. Registers and breakpoint slots are in `regs` and `slots`;
  breakpoints in `adaptor`, `enable`, `breakpoints` and `reply`; what happens at a
  debug event in `session`, `hit`, `handler`, `dispatch` and `event_loop`; what is
  shown of a target in `memory`, `modules`, `loader`, `thread`, `context`,
  `handles`, `process` and `target`.
* Laws that span operations are in `bp_laws`, `handler_laws`, `greeting` and
  `honest`; what every operation keeps is in `keeps`.
* `tests/` runs whole sessions against hosts made up for them.
* `app/` is a host: `driver` carries actions out against any host, `win` is the one
  of Windows.
