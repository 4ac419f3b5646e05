//! Shader identity and compiled shader data.
//!
//! Reading shader sources and compiling them belong to the embedding
//! code; this crate owns the key type that names a shader and the
//! container for the compiled byte code.

use vstd::prelude::*;

verus! {

/// Name under which a shader is configured.
#[derive(Debug)]
pub struct ShaderKey(String);

impl View for ShaderKey {
    type V = Seq<char>;

    closed spec fn view(&self) -> Seq<char> {
        self.0@
    }
}

impl ShaderKey {
    /// Wraps a shader name.
    pub fn new(name: String) -> (k: ShaderKey)
        ensures
            k@ == name@,
    {
        ShaderKey(name)
    }

    /// The shader name.
    pub fn name(&self) -> (n: &String)
        ensures
            n@ == self@,
    {
        &self.0
    }
}

impl PartialEq for ShaderKey {
    fn eq(&self, other: &ShaderKey) -> bool {
        self.0 == other.0
    }
}

impl vstd::std_specs::cmp::PartialEqSpecImpl for ShaderKey {
    open spec fn obeys_eq_spec() -> bool {
        true
    }

    open spec fn eq_spec(&self, other: &ShaderKey) -> bool {
        self@ == other@
    }
}

impl Clone for ShaderKey {
    /// The clone carries the same name.
    fn clone(&self) -> (k: Self)
        ensures
            k@ == self@,
    {
        ShaderKey(self.0.clone())
    }
}

/// A compiled shader pair.  The bytes are produced by the embedding
/// loader; this crate only carries them.
#[derive(Clone, Debug)]
pub struct Shader {
    pub vertex: Vec<u8>,
    pub fragment: Vec<u8>,
}

} // verus!
