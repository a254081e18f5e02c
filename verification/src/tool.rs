//! What a tool answers.

use vstd::prelude::*;

use crate::text::opt_text;

verus! {

/// The answer of a tool.
#[derive(Debug)]
pub struct ToolResult {
    pub success: bool,
    pub output: String,
    pub error: Option<String>,
}

/// What a [`ToolResult`] says.
#[verifier::ext_equal]
pub struct ReplyModel {
    pub success: bool,
    pub output: Seq<char>,
    pub error: Option<Seq<char>>,
}

impl View for ToolResult {
    type V = ReplyModel;

    open spec fn view(&self) -> ReplyModel {
        ReplyModel { success: self.success, output: self.output@, error: opt_text(self.error) }
    }
}

/// A success with the given output.
pub open spec fn succeeded(output: Seq<char>) -> ReplyModel {
    ReplyModel { success: true, output, error: None }
}

/// A failure without output.
pub open spec fn refused(error: Seq<char>) -> ReplyModel {
    ReplyModel { success: false, output: Seq::empty(), error: Some(error) }
}

impl ToolResult {
    /// A success with the given output.
    pub fn succeeded(output: String) -> (reply: ToolResult)
        ensures
            reply@ == succeeded(output@),
    {
        ToolResult { success: true, output, error: None }
    }

    /// A failure without output.
    pub fn refused(error: String) -> (reply: ToolResult)
        ensures
            reply@ == refused(error@),
    {
        ToolResult { success: false, output: String::new(), error: Some(error) }
    }
}

} // verus!
