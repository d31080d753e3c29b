pub mod date_calc;
pub mod shared_bool;
