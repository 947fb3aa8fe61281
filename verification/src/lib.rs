//! Personal finance core: fixed-point monetary values, a chronologically
//! ordered income ledger, and a flat-percentage tax calculator.

pub mod date;
pub mod ledger;
pub mod money;
pub mod tax;
