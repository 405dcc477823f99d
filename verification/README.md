# nanvix_bench

Measures the data path of Nanvix: the time it takes to echo a message from the
gateway, through linuxd, into a guest in a nano VM and back.

- `cold-start` sets up a fresh system for every request.
- `warm-start` sends request after request to one running system.
- `echo-breakdown` shows how long one request spends in each part of the system.

Without an argument the warm start runs; `-profile` runs the echo breakdown.

`src/` is the library, verified with Verus: message framing, command lines, the
order of set-up and clean-up, the course of each benchmark, and the reports. `app/`
is the program around it: sockets, processes, signals, clocks and printing. The
program performs the action that the library asks for and hands back how it went.
