pub mod grammar;
pub mod operand;
pub mod operation;
pub mod operation_list;
pub mod reading_back;
