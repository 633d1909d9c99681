//! The findings navigator (the right pane of the split-screen): its state and
//! what each key does. Drawing and the terminal loop live with the binary.
pub mod app;
