use vstd::prelude::*;

verus! {

/// Every failure surfaced by initialization and annotation.
#[derive(Debug, Clone, Copy, PartialEq, Eq, Structural)]
pub enum TokenizerError {
    /// The configuration is missing or malformed.
    ConfigError,
    /// The analyzer resource failed to load, or the shared analyzer is not
    /// available (not yet initialized, or access to it failed).
    DictLoadError,
    /// The analyzer reported a failure while segmenting the given text.
    TokenizeError,
}

impl TokenizerError {
    /// A short name of the error kind.
    pub fn name(&self) -> (r: String)
        ensures
            r@ == self.spec_name(),
    {
        match self {
            TokenizerError::ConfigError => "ConfigError".to_owned(),
            TokenizerError::DictLoadError => "DictLoadError".to_owned(),
            TokenizerError::TokenizeError => "TokenizeError".to_owned(),
        }
    }

    pub open spec fn spec_name(&self) -> Seq<char> {
        match self {
            TokenizerError::ConfigError => "ConfigError"@,
            TokenizerError::DictLoadError => "DictLoadError"@,
            TokenizerError::TokenizeError => "TokenizeError"@,
        }
    }
}

} // verus!
