use vstd::prelude::*;
use vstd::string::StringExecFns;

verus! {

/// Why a module could not be loaded.
pub enum ModuleError {
    /// The module did exist but could not be parsed.
    FailedToParse(String),
    /// A given module did not exist.
    ModuleDoesNotExist(String),
}

/// The message that describes an error.
pub open spec fn module_error_message(e: ModuleError) -> Seq<char> {
    match e {
        ModuleError::FailedToParse(path) => "Failed to parse "@ + path@,
        ModuleError::ModuleDoesNotExist(path) => "Module does not exist: "@ + path@,
    }
}

impl ModuleError {
    /// Returns a human friendly error message.
    pub fn message(&self) -> (r: String)
        ensures
            r@ == module_error_message(*self),
    {
        match self {
            ModuleError::FailedToParse(path) => {
                let mut m = String::from_str("Failed to parse ");
                m.append(path.as_str());
                m
            },
            ModuleError::ModuleDoesNotExist(path) => {
                let mut m = String::from_str("Module does not exist: ");
                m.append(path.as_str());
                m
            },
        }
    }
}

} // verus!
