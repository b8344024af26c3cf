//! Model Context Protocol server description: the server's identity and the
//! capabilities it announces.
use vstd::prelude::*;
use crate::text::owned;

verus! {

/// The server's name and version.
#[derive(Debug)]
pub struct ServerInfo {
    pub name: String,
    pub version: String,
}

impl Default for ServerInfo {
    /// `fipa-mcp` at this crate's version.
    fn default() -> (i: Self)
        ensures
            i.name@ == "fipa-mcp"@,
            i.version@ == "0.1.0"@,
    {
        ServerInfo { name: owned("fipa-mcp"), version: owned("0.1.0") }
    }
}

/// Tool support.
#[derive(Debug)]
pub struct ToolsCapability {
    pub list_changed: Option<bool>,
}

/// Resource support.
#[derive(Debug)]
pub struct ResourcesCapability {
    pub subscribe: Option<bool>,
    pub list_changed: Option<bool>,
}

/// Prompt support.
#[derive(Debug)]
pub struct PromptsCapability {
    pub list_changed: Option<bool>,
}

/// What the server offers; an absent capability is not offered.
#[derive(Debug)]
pub struct ServerCapabilities {
    pub tools: Option<ToolsCapability>,
    pub resources: Option<ResourcesCapability>,
    pub prompts: Option<PromptsCapability>,
}

impl Default for ToolsCapability {
    fn default() -> (c: Self)
        ensures
            c.list_changed is None,
    {
        ToolsCapability { list_changed: None }
    }
}

impl Default for ResourcesCapability {
    fn default() -> (c: Self)
        ensures
            c.subscribe is None,
            c.list_changed is None,
    {
        ResourcesCapability { subscribe: None, list_changed: None }
    }
}

impl Default for PromptsCapability {
    fn default() -> (c: Self)
        ensures
            c.list_changed is None,
    {
        PromptsCapability { list_changed: None }
    }
}

impl Default for ServerCapabilities {
    /// No capability offered.
    fn default() -> (c: Self)
        ensures
            c.tools is None,
            c.resources is None,
            c.prompts is None,
    {
        ServerCapabilities { tools: None, resources: None, prompts: None }
    }
}

} // verus!
