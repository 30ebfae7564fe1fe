//! Verified core of a geometric Brownian motion price simulator: the calendar
//! rules that decide which day is predicted, the table of daily prices read from
//! a CSV file and the selection of the training window, and the way simulated
//! paths are shared out among worker threads.
pub mod calendar;
pub mod price_file;
pub mod prices;
pub mod workload;
