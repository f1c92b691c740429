//! Configuration of the external embedding collaborator.
//!
//! The collaborator is an external process: it takes an ordered batch of
//! text snippets and answers one fixed-length vector per snippet, in the
//! same order.  Invoking it and decoding its floating-point answer happen
//! outside the library; what is held here is the configuration the
//! invocation needs.

use vstd::prelude::*;

verus! {

/// Where the embedding collaborator lives and which model it runs.
pub struct EmbeddingGenerator {
    python_env: String,
    model_name: String,
}

impl EmbeddingGenerator {
    /// The directory of the collaborator's script environment.
    pub closed spec fn spec_python_env(&self) -> Seq<char> {
        self.python_env@
    }

    /// The name of the embedding model the collaborator runs.
    pub closed spec fn spec_model_name(&self) -> Seq<char> {
        self.model_name@
    }

    pub fn new(python_env: String, model_name: String) -> (r: Self)
        ensures
            r.spec_python_env() == python_env@,
            r.spec_model_name() == model_name@,
    {
        EmbeddingGenerator { python_env, model_name }
    }

    /// The directory of the collaborator's script environment.
    pub fn python_env(&self) -> (r: &String)
        ensures
            r@ == self.spec_python_env(),
    {
        &self.python_env
    }

    /// The name of the embedding model the collaborator runs.
    pub fn model_name(&self) -> (r: &String)
        ensures
            r@ == self.spec_model_name(),
    {
        &self.model_name
    }
}

} // verus!
