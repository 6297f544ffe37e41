//! Description types for the RPC surface a node exposes.

use vstd::prelude::*;

verus! {

/// Represents a single parameter for an RPC method.
#[derive(Debug, Clone, PartialEq)]
pub struct RpcParameter {
    pub name: String,
    /// The parameter's type, as the node names it.
    pub param_type: String,
    /// True if `param_type` is an optional type.
    pub is_optional: bool,
    pub description: Option<String>,
}

/// Represents a callable RPC method.
#[derive(Debug, Clone, PartialEq)]
pub struct RpcMethod {
    /// The conceptual, short name.
    pub name: String,
    /// The actual RPC string sent on the wire.
    pub json_rpc_method_name: String,
    /// The module the method belongs to.
    pub module_name: String,
    pub params: Vec<RpcParameter>,
    pub return_type: String,
    pub description: Option<String>,
}

/// Represents a module or group of related RPC methods.
#[derive(Debug, Clone, PartialEq)]
pub struct RpcModule {
    pub name: String,
    pub methods: Vec<RpcMethod>,
    pub description: Option<String>,
}

/// Top-level structure to hold all discovered RPC metadata from a node.
#[derive(Debug, Clone)]
pub struct RpcMetadata {
    pub modules: Vec<RpcModule>,
}

} // verus!
