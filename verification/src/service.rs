//! The script types the host can run.

use vstd::prelude::*;

verus! {

/// Which embedded engine a script belongs to.
#[derive(Copy, Clone, PartialEq, Eq, Structural, Debug, Hash)]
pub enum ScriptType {
    Lua,
    JavaScript,
}

impl ScriptType {
    /// The engine's display name.
    pub fn engine_name(&self) -> (r: String)
        ensures
            match self {
                ScriptType::Lua => r@ == "lua"@,
                ScriptType::JavaScript => r@ == "javascript"@,
            },
    {
        match self {
            ScriptType::Lua => String::from_str("lua"),
            ScriptType::JavaScript => String::from_str("javascript"),
        }
    }
}

} // verus!
