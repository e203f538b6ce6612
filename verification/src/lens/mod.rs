pub mod ast;
pub mod ir;
pub mod registry;
pub mod validator;
pub mod debug;
pub mod compile;
pub mod selection;
pub mod execute;
pub mod explain;
pub mod text_form;
pub mod aliases;
pub mod round_trip;
pub mod meaning;
pub mod name_resolver;
