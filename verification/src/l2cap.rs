//! L2CAP channel bookkeeping.

pub mod classic;
