# diagnostic_updater_rs

Diagnostics for ROS 2 nodes, verified with Verus.

- `src/` is the verified library: the status wrapper and its merge rules
  (`diagnostic_status_wrapper`), the composite task and the updater's core
  (`diagnostic_updater`), the frequency and timestamp monitors
  (`update_functions`), the published messages and their time stamps (`msg`), the schedule of
  periodic updates (`timer`),
  and the decimal rendering of integers (`text`).
- `app/` is the ROS 2 side: the node, its clock and `/diagnostics` publisher,
  the parameters, the timer thread, the tasks shared behind locks, the
  floating-point thresholds, and the formatting macros.
- `tests/` exercises the library.
