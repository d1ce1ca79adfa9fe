//! Who spoke a message of a session, and how it is labelled.
use vstd::prelude::*;

use crate::text::{chars_equal, chars_of};

verus! {

/// The author of a message in a session transcript.
#[derive(Clone, Copy, Debug, PartialEq, Eq, Structural)]
pub enum MessageRole {
    User,
    Assistant,
    System,
    Tool,
    Other,
}

/// The role that a transcript's `role` field names: `user`, `assistant`,
/// `system` and `tool` name their roles, anything else is `Other`.
pub open spec fn role_named(name: Seq<char>) -> MessageRole {
    if name == "user"@ {
        MessageRole::User
    } else if name == "assistant"@ {
        MessageRole::Assistant
    } else if name == "system"@ {
        MessageRole::System
    } else if name == "tool"@ {
        MessageRole::Tool
    } else {
        MessageRole::Other
    }
}

/// The short label shown for a role.
pub open spec fn role_label(role: MessageRole) -> Seq<char> {
    match role {
        MessageRole::User => "User"@,
        MessageRole::Assistant => "Codex"@,
        MessageRole::System => "System"@,
        MessageRole::Tool => "Tool"@,
        MessageRole::Other => "Other"@,
    }
}

/// The heading of the card that shows a message of a role.
pub open spec fn role_section_title(role: MessageRole) -> Seq<char> {
    match role {
        MessageRole::User => "Prompt"@,
        MessageRole::Assistant => "Response"@,
        MessageRole::System => "System context"@,
        MessageRole::Tool => "Tool event"@,
        MessageRole::Other => "Message"@,
    }
}

/// The accent colour of a role, as a `0xRRGGBB` value.
pub open spec fn role_color(role: MessageRole) -> u32 {
    match role {
        MessageRole::User => 0x2c6e49,
        MessageRole::Assistant => 0x1f4b99,
        MessageRole::System => 0x753a88,
        MessageRole::Tool => 0x8f5b29,
        MessageRole::Other => 0x444444,
    }
}

impl MessageRole {
    /// The role that a transcript's `role` field names.
    pub fn from_str(role: &str) -> (r: MessageRole)
        ensures
            r == role_named(role@),
    {
        let v = chars_of(role);
        if chars_equal(&v, &chars_of("user")) {
            MessageRole::User
        } else if chars_equal(&v, &chars_of("assistant")) {
            MessageRole::Assistant
        } else if chars_equal(&v, &chars_of("system")) {
            MessageRole::System
        } else if chars_equal(&v, &chars_of("tool")) {
            MessageRole::Tool
        } else {
            MessageRole::Other
        }
    }

    /// The short label shown for this role.
    pub fn label(&self) -> (r: &'static str)
        ensures
            r@ == role_label(*self),
    {
        match self {
            MessageRole::User => "User",
            MessageRole::Assistant => "Codex",
            MessageRole::System => "System",
            MessageRole::Tool => "Tool",
            MessageRole::Other => "Other",
        }
    }

    /// The heading of the card that shows a message of this role.
    pub fn section_title(&self) -> (r: &'static str)
        ensures
            r@ == role_section_title(*self),
    {
        match self {
            MessageRole::User => "Prompt",
            MessageRole::Assistant => "Response",
            MessageRole::System => "System context",
            MessageRole::Tool => "Tool event",
            MessageRole::Other => "Message",
        }
    }

    /// The accent colour of this role, as a `0xRRGGBB` value.
    pub fn color(&self) -> (r: u32)
        ensures
            r == role_color(*self),
    {
        match self {
            MessageRole::User => 0x2c6e49,
            MessageRole::Assistant => 0x1f4b99,
            MessageRole::System => 0x753a88,
            MessageRole::Tool => 0x8f5b29,
            MessageRole::Other => 0x444444,
        }
    }
}


/// The card headings of the five roles: a user's prompt, the assistant's
/// response, system context, a tool event, and any other message.
pub proof fn law_section_titles()
    ensures
        role_section_title(MessageRole::User) == "Prompt"@,
        role_section_title(MessageRole::Assistant) == "Response"@,
        role_section_title(MessageRole::System) == "System context"@,
        role_section_title(MessageRole::Tool) == "Tool event"@,
        role_section_title(MessageRole::Other) == "Message"@,
{
}

/// The labels of the five roles; the assistant is labelled `Codex`.
pub proof fn law_role_labels()
    ensures
        role_label(MessageRole::User) == "User"@,
        role_label(MessageRole::Assistant) == "Codex"@,
        role_label(MessageRole::System) == "System"@,
        role_label(MessageRole::Tool) == "Tool"@,
        role_label(MessageRole::Other) == "Other"@,
{
}

/// The accent colours of the five roles.
pub proof fn law_role_colors()
    ensures
        role_color(MessageRole::User) == 0x2c6e49,
        role_color(MessageRole::Assistant) == 0x1f4b99,
        role_color(MessageRole::System) == 0x753a88,
        role_color(MessageRole::Tool) == 0x8f5b29,
        role_color(MessageRole::Other) == 0x444444,
{
}

/// The role names of a transcript: `user`, `assistant`, `system` and `tool`
/// name their roles, and every other text (such as `other` or `User`) names
/// the role `Other`.
pub proof fn law_role_names(name: Seq<char>)
    ensures
        role_named("user"@) == MessageRole::User,
        role_named("assistant"@) == MessageRole::Assistant,
        role_named("system"@) == MessageRole::System,
        role_named("tool"@) == MessageRole::Tool,
        name != "user"@ && name != "assistant"@ && name != "system"@ && name != "tool"@
            ==> role_named(name) == MessageRole::Other,
        role_named(name) == MessageRole::User <==> name == "user"@,
{
    reveal_strlit("user");
    reveal_strlit("assistant");
    reveal_strlit("system");
    reveal_strlit("tool");
    assert("assistant"@ != "user"@) by {
        assert("assistant"@.len() != "user"@.len());
    }
    assert("system"@ != "user"@ && "system"@ != "assistant"@) by {
        assert("system"@.len() != "user"@.len());
        assert("system"@.len() != "assistant"@.len());
    }
    assert("tool"@ != "user"@ && "tool"@ != "assistant"@ && "tool"@ != "system"@) by {
        assert("tool"@[0] != "user"@[0]);
        assert("tool"@.len() != "assistant"@.len());
        assert("tool"@.len() != "system"@.len());
    }
}

} // verus!
