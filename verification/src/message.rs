//! One decoded record line of a transcript.
//!
//! A record line is a JSON object with at least a `type` discriminator.  The
//! crate only ever reads four things out of a line: the discriminator, the
//! `gitBranch` attribute, the `message.content` text and the `cwd` attribute.
//! A [`SessionMessage`] keeps those four, together with the raw line itself,
//! which is what travels into an exported container.

use vstd::prelude::*;
use crate::shims::decoded_line;

verus! {

/// The view of an optional string.
pub open spec fn opt_view(o: Option<String>) -> Option<Seq<char>> {
    match o {
        Some(s) => Some(s@),
        None => None,
    }
}

/// One record line, decoded.
///
/// `raw` is the line exactly as it stood in the record file; the other
/// fields are the parts of it that the crate reads.  A well-formed message
/// (see [`SessionMessage::wf`]) is one whose fields agree with what decoding
/// `raw` yields, so the raw line remains the single source of truth.
pub struct SessionMessage {
    /// The record line itself.
    pub raw: String,
    /// The `type` discriminator of the record.
    pub msg_type: String,
    /// The `gitBranch` attribute, when present and a string.
    pub git_branch: Option<String>,
    /// The `message.content` text, when present and a string.
    pub content: Option<String>,
    /// The `cwd` attribute, when present and a string.
    pub cwd: Option<String>,
}

impl SessionMessage {
    /// The fields agree with what decoding the raw line yields.
    pub open spec fn wf(self) -> bool {
        decoded_line(self.raw@) == Some(
            (self.msg_type@, opt_view(self.git_branch), opt_view(self.content), opt_view(self.cwd)),
        )
    }

    /// A copy of this message.
    pub fn duplicate(&self) -> (r: SessionMessage)
        ensures
            r == *self,
    {
        SessionMessage {
            raw: self.raw.clone(),
            msg_type: self.msg_type.clone(),
            git_branch: clone_opt_string(&self.git_branch),
            content: clone_opt_string(&self.content),
            cwd: clone_opt_string(&self.cwd),
        }
    }
}

/// A copy of an optional string.
pub fn clone_opt_string(o: &Option<String>) -> (r: Option<String>)
    ensures
        r == *o,
{
    match o {
        Some(s) => Some(s.clone()),
        None => None,
    }
}

} // verus!
