pub mod builder;
pub mod ir;
pub mod logic_op;
pub mod lower;
pub mod machine;
