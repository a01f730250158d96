use crate::parser::ParseError;
use vstd::prelude::*;

verus! {

/// Decides what becomes of a document that could not be turned into HTML.
pub trait ErrorHandler {
    fn handle_error(&mut self, e: ParseError);
}

/// The handler the engine ships with.
pub struct ErrorHandlerImpl {}

impl ErrorHandlerImpl {
    pub fn new() -> (h: Self) {
        Self {  }
    }
}

} // verus!
