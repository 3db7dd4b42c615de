//! The names of the operations that clients ask for, and of the messages that
//! the server sends on its own, with their text forms.

use vstd::prelude::*;

verus! {

/// An operation that a client asks the server to perform.
#[derive(Clone, Copy, Debug, PartialEq, Eq, Structural)]
pub enum UserOperation {
    Login,
    Register,
    Logout,
    CreateCommunity,
    ListCommunities,
    CreatePost,
    GetPost,
    GetCommunity,
    CreateComment,
    Join,
    Edit,
    Reply,
    Vote,
    Delete,
    NextPage,
    Sticky,
}

/// A kind of message that the server sends to a user on its own.
#[derive(Clone, Copy, Debug, PartialEq, Eq, Structural)]
pub enum MessageToUser {
    Comments,
    Users,
    Ping,
    Pong,
    Error,
}

/// A text names no variant.
#[derive(Clone, Copy, Debug, PartialEq, Eq, Structural)]
pub enum ParseError {
    VariantNotFound,
}

/// Whether two texts are the same.
fn same_text(s: &str, t: &str) -> (b: bool)
    ensures
        b == (s@ == t@),
{
    s.to_owned() == t.to_owned()
}

impl UserOperation {
    /// The text form of the operation: its variant's name.
    pub open spec fn name(self) -> Seq<char> {
        match self {
            UserOperation::Login => "Login"@,
            UserOperation::Register => "Register"@,
            UserOperation::Logout => "Logout"@,
            UserOperation::CreateCommunity => "CreateCommunity"@,
            UserOperation::ListCommunities => "ListCommunities"@,
            UserOperation::CreatePost => "CreatePost"@,
            UserOperation::GetPost => "GetPost"@,
            UserOperation::GetCommunity => "GetCommunity"@,
            UserOperation::CreateComment => "CreateComment"@,
            UserOperation::Join => "Join"@,
            UserOperation::Edit => "Edit"@,
            UserOperation::Reply => "Reply"@,
            UserOperation::Vote => "Vote"@,
            UserOperation::Delete => "Delete"@,
            UserOperation::NextPage => "NextPage"@,
            UserOperation::Sticky => "Sticky"@,
        }
    }

    /// The operation whose name is exactly `s`, if any.
    pub open spec fn parse(s: Seq<char>) -> Option<UserOperation> {
        if s == "Login"@ {
            Some(UserOperation::Login)
        } else if s == "Register"@ {
            Some(UserOperation::Register)
        } else if s == "Logout"@ {
            Some(UserOperation::Logout)
        } else if s == "CreateCommunity"@ {
            Some(UserOperation::CreateCommunity)
        } else if s == "ListCommunities"@ {
            Some(UserOperation::ListCommunities)
        } else if s == "CreatePost"@ {
            Some(UserOperation::CreatePost)
        } else if s == "GetPost"@ {
            Some(UserOperation::GetPost)
        } else if s == "GetCommunity"@ {
            Some(UserOperation::GetCommunity)
        } else if s == "CreateComment"@ {
            Some(UserOperation::CreateComment)
        } else if s == "Join"@ {
            Some(UserOperation::Join)
        } else if s == "Edit"@ {
            Some(UserOperation::Edit)
        } else if s == "Reply"@ {
            Some(UserOperation::Reply)
        } else if s == "Vote"@ {
            Some(UserOperation::Vote)
        } else if s == "Delete"@ {
            Some(UserOperation::Delete)
        } else if s == "NextPage"@ {
            Some(UserOperation::NextPage)
        } else if s == "Sticky"@ {
            Some(UserOperation::Sticky)
        } else {
            None
        }
    }

    /// The text form of the operation.
    pub fn to_string(&self) -> (s: String)
        ensures
            s@ == self.name(),
    {
        let name = match self {
            UserOperation::Login => "Login",
            UserOperation::Register => "Register",
            UserOperation::Logout => "Logout",
            UserOperation::CreateCommunity => "CreateCommunity",
            UserOperation::ListCommunities => "ListCommunities",
            UserOperation::CreatePost => "CreatePost",
            UserOperation::GetPost => "GetPost",
            UserOperation::GetCommunity => "GetCommunity",
            UserOperation::CreateComment => "CreateComment",
            UserOperation::Join => "Join",
            UserOperation::Edit => "Edit",
            UserOperation::Reply => "Reply",
            UserOperation::Vote => "Vote",
            UserOperation::Delete => "Delete",
            UserOperation::NextPage => "NextPage",
            UserOperation::Sticky => "Sticky",
        };
        name.to_owned()
    }

    /// The operation named exactly `s`; an error if there is none.
    pub fn from_str(s: &str) -> (r: Result<UserOperation, ParseError>)
        ensures
            r == match UserOperation::parse(s@) {
                Some(op) => Ok(op),
                None => Err(ParseError::VariantNotFound),
            },
    {
        if same_text(s, "Login") {
            Ok(UserOperation::Login)
        } else if same_text(s, "Register") {
            Ok(UserOperation::Register)
        } else if same_text(s, "Logout") {
            Ok(UserOperation::Logout)
        } else if same_text(s, "CreateCommunity") {
            Ok(UserOperation::CreateCommunity)
        } else if same_text(s, "ListCommunities") {
            Ok(UserOperation::ListCommunities)
        } else if same_text(s, "CreatePost") {
            Ok(UserOperation::CreatePost)
        } else if same_text(s, "GetPost") {
            Ok(UserOperation::GetPost)
        } else if same_text(s, "GetCommunity") {
            Ok(UserOperation::GetCommunity)
        } else if same_text(s, "CreateComment") {
            Ok(UserOperation::CreateComment)
        } else if same_text(s, "Join") {
            Ok(UserOperation::Join)
        } else if same_text(s, "Edit") {
            Ok(UserOperation::Edit)
        } else if same_text(s, "Reply") {
            Ok(UserOperation::Reply)
        } else if same_text(s, "Vote") {
            Ok(UserOperation::Vote)
        } else if same_text(s, "Delete") {
            Ok(UserOperation::Delete)
        } else if same_text(s, "NextPage") {
            Ok(UserOperation::NextPage)
        } else if same_text(s, "Sticky") {
            Ok(UserOperation::Sticky)
        } else {
            Err(ParseError::VariantNotFound)
        }
    }
}

impl MessageToUser {
    /// The text form of the message kind: its variant's name.
    pub open spec fn name(self) -> Seq<char> {
        match self {
            MessageToUser::Comments => "Comments"@,
            MessageToUser::Users => "Users"@,
            MessageToUser::Ping => "Ping"@,
            MessageToUser::Pong => "Pong"@,
            MessageToUser::Error => "Error"@,
        }
    }

    /// The message kind whose name is exactly `s`, if any.
    pub open spec fn parse(s: Seq<char>) -> Option<MessageToUser> {
        if s == "Comments"@ {
            Some(MessageToUser::Comments)
        } else if s == "Users"@ {
            Some(MessageToUser::Users)
        } else if s == "Ping"@ {
            Some(MessageToUser::Ping)
        } else if s == "Pong"@ {
            Some(MessageToUser::Pong)
        } else if s == "Error"@ {
            Some(MessageToUser::Error)
        } else {
            None
        }
    }

    /// The text form of the message kind.
    pub fn to_string(&self) -> (s: String)
        ensures
            s@ == self.name(),
    {
        let name = match self {
            MessageToUser::Comments => "Comments",
            MessageToUser::Users => "Users",
            MessageToUser::Ping => "Ping",
            MessageToUser::Pong => "Pong",
            MessageToUser::Error => "Error",
        };
        name.to_owned()
    }

    /// The message kind named exactly `s`; an error if there is none.
    pub fn from_str(s: &str) -> (r: Result<MessageToUser, ParseError>)
        ensures
            r == match MessageToUser::parse(s@) {
                Some(m) => Ok(m),
                None => Err(ParseError::VariantNotFound),
            },
    {
        if same_text(s, "Comments") {
            Ok(MessageToUser::Comments)
        } else if same_text(s, "Users") {
            Ok(MessageToUser::Users)
        } else if same_text(s, "Ping") {
            Ok(MessageToUser::Ping)
        } else if same_text(s, "Pong") {
            Ok(MessageToUser::Pong)
        } else if same_text(s, "Error") {
            Ok(MessageToUser::Error)
        } else {
            Err(ParseError::VariantNotFound)
        }
    }
}

/// Reading back the text form of an operation gives the operation.
pub proof fn lemma_operation_name_parses(op: UserOperation)
    ensures
        UserOperation::parse(op.name()) == Some(op),
{
    reveal_strlit("Login");
    assert("Login"@[0] == 'L' && "Login"@.len() == 5);
    reveal_strlit("Register");
    assert("Register"@[0] == 'R' && "Register"@.len() == 8);
    reveal_strlit("Logout");
    assert("Logout"@[0] == 'L' && "Logout"@.len() == 6);
    reveal_strlit("CreateCommunity");
    assert("CreateCommunity"@[0] == 'C' && "CreateCommunity"@.len() == 15);
    reveal_strlit("ListCommunities");
    assert("ListCommunities"@[0] == 'L' && "ListCommunities"@.len() == 15);
    reveal_strlit("CreatePost");
    assert("CreatePost"@[0] == 'C' && "CreatePost"@.len() == 10);
    reveal_strlit("GetPost");
    assert("GetPost"@[0] == 'G' && "GetPost"@.len() == 7);
    reveal_strlit("GetCommunity");
    assert("GetCommunity"@[0] == 'G' && "GetCommunity"@.len() == 12);
    reveal_strlit("CreateComment");
    assert("CreateComment"@[0] == 'C' && "CreateComment"@.len() == 13);
    reveal_strlit("Join");
    assert("Join"@[0] == 'J' && "Join"@.len() == 4);
    reveal_strlit("Edit");
    assert("Edit"@[0] == 'E' && "Edit"@.len() == 4);
    reveal_strlit("Reply");
    assert("Reply"@[0] == 'R' && "Reply"@.len() == 5);
    reveal_strlit("Vote");
    assert("Vote"@[0] == 'V' && "Vote"@.len() == 4);
    reveal_strlit("Delete");
    assert("Delete"@[0] == 'D' && "Delete"@.len() == 6);
    reveal_strlit("NextPage");
    assert("NextPage"@[0] == 'N' && "NextPage"@.len() == 8);
    reveal_strlit("Sticky");
    assert("Sticky"@[0] == 'S' && "Sticky"@.len() == 6);
}

/// A text that reads as an operation is that operation's text form.
pub proof fn lemma_operation_parse_is_name(s: Seq<char>)
    ensures
        UserOperation::parse(s) matches Some(op) ==> op.name() == s,
{
}

/// Reading back the text form of a message kind gives the message kind.
pub proof fn lemma_message_name_parses(m: MessageToUser)
    ensures
        MessageToUser::parse(m.name()) == Some(m),
{
    reveal_strlit("Comments");
    assert("Comments"@[0] == 'C' && "Comments"@[1] == 'o');
    reveal_strlit("Users");
    assert("Users"@[0] == 'U' && "Users"@[1] == 's');
    reveal_strlit("Ping");
    assert("Ping"@[0] == 'P' && "Ping"@[1] == 'i');
    reveal_strlit("Pong");
    assert("Pong"@[0] == 'P' && "Pong"@[1] == 'o');
    reveal_strlit("Error");
    assert("Error"@[0] == 'E' && "Error"@[1] == 'r');
}

/// A text that reads as a message kind is that kind's text form.
pub proof fn lemma_message_parse_is_name(s: Seq<char>)
    ensures
        MessageToUser::parse(s) matches Some(m) ==> m.name() == s,
{
}

} // verus!
