pub mod stack_filtering;
