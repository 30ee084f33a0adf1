//! The data of the language: values, lists, lambdas, environments and errors.

pub mod env;
pub mod error;
pub mod hash;
pub mod lambda;
pub mod list;
pub mod text;
pub mod value;

pub use env::{Env, Heap, Scope};
pub use error::{Fault, RuntimeError};
pub use lambda::Lambda;
pub use list::{ConsIterator, List};
pub use value::{Datum, Symbol, Value};
