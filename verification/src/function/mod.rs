//! Function signatures and compiled function bodies.
mod def_table;
mod definition;
mod definition_ref;
mod external;
mod internal;
mod signiture;

pub use def_table::{FunctionDefinitionTable, slot_of_name};
pub use definition::FunctionDefinition;
pub use definition_ref::{FunctionDefinitionRef, spec_check_types, spec_check_types_from};
pub use external::ExternalFunctionDefinition;
pub use internal::{
    InternalFunctionDefinition, InternalFunctionSigniture, InternalFunctionSource, SignitureView, SourceView, spec_check_arg_types, spec_check_arg_types_from,
};
pub use signiture::{FunctionSigniture, Parameter, spec_check_params, spec_check_params_from};
