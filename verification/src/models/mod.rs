pub mod application_role;
pub mod contract;
pub mod error;
pub mod groups;
pub mod members;
pub mod patch;
pub mod profile;
pub mod response_result;
pub mod reward;
pub mod rewards;
