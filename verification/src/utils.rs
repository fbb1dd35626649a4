//! What the scanner needs beside tokens.

pub mod errors;
