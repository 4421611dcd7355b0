# judos

A judge for operating-system course assignments. Repositories are polled
stage by stage while a stage's window is open, new commits are graded by a
judge script, and grades are recorded on a scoreboard.

- `src/` is the verified library: reading repository names from URLs, the
  command lines of the polling, judge and scoreboard scripts, how their output
  is read back, the stage windows, and the order of each polling round.
- `app/` is the program around it: configuration (YAML), the worker threads
  and channels, running the scripts, logging, and the floating-point scores.
