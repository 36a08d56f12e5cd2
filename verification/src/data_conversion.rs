//! From the collected data to what is shown: grouped and sorted process
//! rows, chart points and formatted text.

pub mod format;
pub mod grouping;
pub mod points;
pub mod rows;
pub mod sorting;
