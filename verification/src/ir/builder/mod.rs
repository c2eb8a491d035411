pub mod function_builder;
