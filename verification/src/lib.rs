pub mod dead_code;
pub mod graph;
pub mod ir;
pub mod typer;
pub mod builder;
pub mod mir_verifier;
pub mod output;
pub mod programs;
pub mod iter_lemmas;
