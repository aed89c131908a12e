pub mod points_to;
pub mod pt_data;
