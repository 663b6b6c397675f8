//! Lowering of the resolved source program to the intermediate representation.

pub mod agenda;
pub mod analysis;
pub mod answers;
pub mod arrays;
pub mod bind;
pub mod bytecode;
pub mod conversion_laws;
pub mod construct;
pub mod contract;
pub mod control;
pub mod control_laws;
pub mod decode;
pub mod decode_laws;
pub mod defaults;
pub mod effects;
pub mod effects_calls;
pub mod effects_statements;
pub mod effects_steps;
pub mod effects_values;
pub mod emit;
pub mod fields;
pub mod function;
pub mod handlers;
pub mod inherit;
pub mod laws;
pub mod machine;
pub mod machine_attempt;
pub mod machine_control;
pub mod machine_decode;
pub mod machine_flow;
pub mod machine_names;
pub mod machine_places;
pub mod machine_steps;
pub mod machine_values;
pub mod module_laws;
pub mod names;
pub mod objects;
pub mod occurrence_laws;
pub mod params;
pub mod place_laws;
pub mod plan;
pub mod plan_assign;
pub mod plan_calls;
pub mod plan_function;
pub mod plan_handlers;
pub mod plan_laws;
pub mod plan_names;
pub mod plan_stmt;
pub mod results;
pub mod revert_laws;
pub mod scan_laws;
pub mod sequence_laws;
pub mod slots;
pub mod state;
pub mod types;
pub mod word_laws;
