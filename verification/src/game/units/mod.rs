pub mod training_operations;
