# ptrace

Process tracing for a kernel, verified with Verus.

- `src/session.rs`: tracing sessions and their queues of events.
- `src/breakpoint.rs`: breakpoints, and how a tracer and a process wait for each
  other.
- `src/table.rs`: the sessions behind a `spin::RwLock`, shared by the kernel.
- `src/regs.rs`: where the saved registers of a process lie.
- `src/memory.rs`: access to the memory of another process.
- `src/laws.rs`: what holds of all of these together.
- `app/`: the kernel's side, which sleeps, wakes, follows pointers and changes page
  tables as the library says.
