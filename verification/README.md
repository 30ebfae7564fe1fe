# gbm_sim

A geometric Brownian motion stock price simulator with a desktop window.

- `src/` is the library, verified with Verus:
  - `calendar`: dates as chrono reads and moves them, weekday checks, the
    predicted day and whether a simulation may start;
  - `price_file`: the CSV records of the price file, read by the csv crate, and
    the check that each record holds a date and six prices;
  - `prices`: the table of daily prices from the CSV file, date lookup, the
    training window, the starting and the real price;
  - `workload`: how the simulated paths are shared out among threads, with the
    proof that every path is run exactly once.
- `app/` is the program around it: the egui window, reading the CSV file, and
  the floating-point simulation itself.
- `tests/` runs the library on concrete values.
