//! Pure state of the terminal interface components: toast notifications,
//! the command palette, and filter pills. Rendering them is the host's
//! side; everything here is plain data and update logic, with time handed
//! in as epoch milliseconds.

pub mod palette;
pub mod pills;
pub mod toast;
