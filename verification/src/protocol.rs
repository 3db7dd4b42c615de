//! The requests that clients send, the replies the server writes, and what the
//! server decides for each request. What the database does lies outside: each
//! step takes what a lookup or an insert gave back and says what comes next.

use crate::chat::ChatServer;
use crate::decimal::{decimal, i32_decimal, lemma_decimal_injective, lemma_decimal_shape};
use crate::json::{
    array, array_text, fields_view, lemma_array_push, lemma_object_push,
    lemma_second_key_tells_apart, lemma_two_string_members_read_back, separator, json_member_str, json_member_text, member_str, member_text,
    object, object_text, opt_text_view, quote, string_field, texts_view,
};
use crate::operation::{lemma_operation_name_parses, UserOperation};
use vstd::prelude::*;

verus! {

/// The error reply of an operation: its name and what went wrong.
pub struct ErrorMessage {
    pub op: String,
    pub error: String,
}

/// A message that the chat server sends to a session.
pub struct WSMessage(pub String);

/// A message from a session to a room.
pub struct ClientMessage {
    /// Id of the client session
    pub id: usize,
    /// Peer message
    pub msg: String,
    /// Room name
    pub room: String,
}

/// A request from a session: the JSON text it sent.
pub struct StandardMessage {
    /// Id of the client session
    pub id: usize,
    /// Peer message
    pub msg: String,
}

/// Asks for the list of available rooms.
pub struct ListRooms;

/// Join room, if room does not exists create new one.
pub struct Join {
    /// Client id
    pub id: usize,
    /// Room name
    pub name: String,
}

/// The reply to a successful login or registration.
pub struct LoginResponse {
    pub op: String,
    pub jwt: String,
}

/// The JSON text of an error reply.
pub open spec fn error_text(op: Seq<char>, error: Seq<char>) -> Seq<char> {
    object_text(seq![string_field("op"@, op), string_field("error"@, error)])
}

/// The JSON text of a reply that carries a token.
pub open spec fn login_text(op: Seq<char>, jwt: Seq<char>) -> Seq<char> {
    object_text(seq![string_field("op"@, op), string_field("jwt"@, jwt)])
}

/// The JSON text of a reply that carries one stored record, given as JSON.
pub open spec fn record_text(op: Seq<char>, key: Seq<char>, record: Seq<char>) -> Seq<char> {
    object_text(seq![string_field("op"@, op), (key, record)])
}

/// The JSON text of a reply that carries a list of stored records.
pub open spec fn list_text(op: Seq<char>, key: Seq<char>, records: Seq<Seq<char>>) -> Seq<char> {
    object_text(seq![string_field("op"@, op), (key, array_text(records))])
}

/// The JSON text of the reply that carries a post and its comments.
pub open spec fn post_page_text(op: Seq<char>, post: Seq<char>, comments: Seq<Seq<char>>) -> Seq<char> {
    object_text(seq![string_field("op"@, op), ("post"@, post), ("comments"@, array_text(comments))])
}

/// A member whose value is the literal of a text.
fn string_member(key: &str, value: &str) -> (f: (String, String))
    ensures
        (f.0@, f.1@) == string_field(key@, value@),
{
    (key.to_owned(), quote(value))
}

/// A member whose value is already JSON text.
fn raw_member(key: &str, value: &str) -> (f: (String, String))
    ensures
        f.0@ == key@,
        f.1@ == value@,
{
    (key.to_owned(), value.to_owned())
}

/// An object with one string member `op` and one more member.
fn op_object(op: &str, second: (String, String)) -> (r: String)
    ensures
        r@ == object_text(seq![string_field("op"@, op@), (second.0@, second.1@)]),
{
    let mut fields: Vec<(String, String)> = Vec::new();
    fields.push(string_member("op", op));
    fields.push(second);
    proof {
        assert(fields_view(fields@) =~= seq![string_field("op"@, op@), (second.0@, second.1@)]);
    }
    object(&fields)
}

impl ErrorMessage {
    /// The JSON text of the error reply.
    pub fn to_json(&self) -> (r: String)
        ensures
            r@ == error_text(self.op@, self.error@),
    {
        op_object(self.op.as_str(), string_member("error", self.error.as_str()))
    }
}

impl LoginResponse {
    /// The JSON text of the reply.
    pub fn to_json(&self) -> (r: String)
        ensures
            r@ == login_text(self.op@, self.jwt@),
    {
        op_object(self.op.as_str(), string_member("jwt", self.jwt.as_str()))
    }
}

/// The error reply to a message whose operation has no handler.
pub fn unknown_operation() -> (r: String)
    ensures
        r@ == error_text("Unknown"@, "Unknown User Operation"@),
{
    ErrorMessage { op: "Unknown".to_owned(), error: "Unknown User Operation".to_owned() }.to_json()
}

/// An operation that the server serves; every other operation is answered
/// with `Unknown User Operation`.
#[derive(Clone, Copy, Debug, PartialEq, Eq, Structural)]
pub enum Served {
    Login,
    Register,
    CreateCommunity,
    ListCommunities,
    CreatePost,
    GetPost,
    GetCommunity,
    CreateComment,
}

impl Served {
    /// The operation that this served operation answers.
    pub open spec fn operation(self) -> UserOperation {
        match self {
            Served::Login => UserOperation::Login,
            Served::Register => UserOperation::Register,
            Served::CreateCommunity => UserOperation::CreateCommunity,
            Served::ListCommunities => UserOperation::ListCommunities,
            Served::CreatePost => UserOperation::CreatePost,
            Served::GetPost => UserOperation::GetPost,
            Served::GetCommunity => UserOperation::GetCommunity,
            Served::CreateComment => UserOperation::CreateComment,
        }
    }
}

/// Which served operation `op` is, if the server serves it.
pub open spec fn served(op: UserOperation) -> Option<Served> {
    match op {
        UserOperation::Login => Some(Served::Login),
        UserOperation::Register => Some(Served::Register),
        UserOperation::CreateCommunity => Some(Served::CreateCommunity),
        UserOperation::ListCommunities => Some(Served::ListCommunities),
        UserOperation::CreatePost => Some(Served::CreatePost),
        UserOperation::GetPost => Some(Served::GetPost),
        UserOperation::GetCommunity => Some(Served::GetCommunity),
        UserOperation::CreateComment => Some(Served::CreateComment),
        _ => None,
    }
}

/// Where a request for `op` goes: to the step that serves it, or straight to
/// the `Unknown User Operation` reply.
pub fn route(op: UserOperation) -> (r: Result<Served, String>)
    ensures
        match served(op) {
            Some(s) => r == Ok::<Served, String>(s),
            None => r matches Err(reply) && reply@ == error_text("Unknown"@, "Unknown User Operation"@),
        },
        match r {
            Ok(s) => s.operation() == op,
            Err(_) => forall|s: Served| #[trigger] s.operation() != op,
        },
{
    match op {
        UserOperation::Login => Ok(Served::Login),
        UserOperation::Register => Ok(Served::Register),
        UserOperation::CreateCommunity => Ok(Served::CreateCommunity),
        UserOperation::ListCommunities => Ok(Served::ListCommunities),
        UserOperation::CreatePost => Ok(Served::CreatePost),
        UserOperation::GetPost => Ok(Served::GetPost),
        UserOperation::GetCommunity => Ok(Served::GetCommunity),
        UserOperation::CreateComment => Ok(Served::CreateComment),
        _ => Err(unknown_operation()),
    }
}

/// A request that the server performs.
pub trait Perform {
    /// The operation that the request performs.
    spec fn operation(&self) -> UserOperation;

    /// The operation that the request performs.
    fn op_type(&self) -> (op: UserOperation)
        ensures
            op == self.operation(),
    ;

    /// The error reply of this request's operation, with the message `error_msg`.
    fn error(&self, error_msg: &str) -> (reply: String)
        ensures
            reply@ == error_text(self.operation().name(), error_msg@),
    {
        let op = self.op_type();
        let e = ErrorMessage { op: op.to_string(), error: error_msg.to_owned() };
        e.to_json()
    }
}

/// What the logic reads of a decoded login token.
pub struct Claims {
    /// The user's id.
    pub id: i32,
    /// The issuer of the token.
    pub iss: String,
}

/// The federated name of a user: the issuer, a slash, and the user id.
pub open spec fn fedi_name(iss: Seq<char>, id: i32) -> Seq<char> {
    iss + seq!['/'] + decimal(id as int)
}

/// The federated name of the user of `claims`.
pub fn fedi_user_id(claims: &Claims) -> (r: String)
    ensures
        r@ == fedi_name(claims.iss@, claims.id),
{
    let mut r = claims.iss.clone();
    r.append("/");
    let id = i32_decimal(claims.id);
    r.append(id.as_str());
    proof {
        reveal_strlit("/");
    }
    r
}

/// The claims of a request that needs a logged-in user; the error reply
/// `Not logged in.` when its token did not decode.
fn logged_in<T: Perform>(req: &T, claims: Option<Claims>) -> (r: Result<Claims, String>)
    ensures
        match claims {
            None => r matches Err(reply) && reply@ == error_text(req.operation().name(), "Not logged in."@),
            Some(c) => r == Ok::<Claims, String>(c),
        },
{
    match claims {
        None => Err(req.error("Not logged in.")),
        Some(c) => Ok(c),
    }
}

/// What `bcrypt::verify` returns for a password and a stored hash: whether
/// they match, or nothing when the hash cannot be read.
pub uninterp spec fn bcrypt_verify(password: Seq<char>, hash: Seq<char>) -> Option<bool>;

/// Calls `bcrypt::verify(password, hash)`; an error (a hash that cannot be
/// read) becomes `None`. The contract claims that the result is the named
/// result of the call on these two texts: bcrypt's check is deterministic.
#[verifier::external_body]
fn verify_password(password: &str, hash: &str) -> (r: Option<bool>)
    ensures
        r == bcrypt_verify(password@, hash@),
{
    bcrypt::verify(password, hash).ok()
}

/// A login request.
pub struct Login {
    pub username_or_email: String,
    pub password: String,
}

/// What the logic reads of a stored user.
pub struct UserRecord {
    /// The stored password hash.
    pub password_encrypted: String,
    /// The user's login token.
    pub jwt: String,
}

/// The reply to a login once the password check gave `check`.
pub open spec fn login_checked(check: Option<bool>, jwt: Seq<char>) -> Seq<char> {
    if check == Some(true) {
        login_text("Login"@, jwt)
    } else {
        error_text("Login"@, "Password incorrect"@)
    }
}

/// The reply to a login with `password`, given the user that the lookup found
/// (its stored hash and its token).
pub open spec fn login_reply(password: Seq<char>, user: Option<(Seq<char>, Seq<char>)>) -> Seq<char> {
    match user {
        None => error_text("Login"@, "Couldn't find that username or email"@),
        Some((hash, jwt)) => login_checked(bcrypt_verify(password, hash), jwt),
    }
}

impl Perform for Login {
    open spec fn operation(&self) -> UserOperation {
        UserOperation::Login
    }

    fn op_type(&self) -> (op: UserOperation) {
        UserOperation::Login
    }
}

impl Login {
    /// The reply, given the user that the lookup of `username_or_email` found.
    pub fn perform(&self, user: Option<UserRecord>) -> (reply: String)
        ensures
            reply@ == login_reply(
                self.password@,
                match user {
                    Some(u) => Some((u.password_encrypted@, u.jwt@)),
                    None => None,
                },
            ),
            user matches Some(u) ==> ((reply@ == login_text("Login"@, u.jwt@))
                <==> bcrypt_verify(self.password@, u.password_encrypted@) == Some(true)),
    {
        match user {
            None => self.error("Couldn't find that username or email"),
            Some(u) => {
                let check = verify_password(self.password.as_str(), u.password_encrypted.as_str());
                proof {
                    lemma_login_token_needs_password(self.password@, u.password_encrypted@, u.jwt@);
                }
                self.finish(check, u.jwt.as_str())
            },
        }
    }

    /// The reply once the password check gave `check`: the token when the
    /// password matched, `Password incorrect` otherwise (also when the stored
    /// hash could not be read).
    pub fn finish(&self, check: Option<bool>, jwt: &str) -> (reply: String)
        ensures
            reply@ == login_checked(check, jwt@),
    {
        let valid = match check {
            Some(b) => b,
            None => false,
        };
        if !valid {
            return self.error("Password incorrect");
        }
        let response = LoginResponse { op: self.op_type().to_string(), jwt: jwt.to_owned() };
        response.to_json()
    }
}

/// A registration request.
pub struct Register {
    pub username: String,
    pub email: Option<String>,
    pub password: String,
    pub password_verify: String,
}

/// The new user to store.
pub struct UserForm {
    pub name: String,
    pub email: Option<String>,
    pub password_encrypted: String,
    pub preferred_username: Option<String>,
}

impl Perform for Register {
    open spec fn operation(&self) -> UserOperation {
        UserOperation::Register
    }

    fn op_type(&self) -> (op: UserOperation) {
        UserOperation::Register
    }
}

/// A copy of an optional text.
fn copy_text(t: &Option<String>) -> (r: Option<String>)
    ensures
        r == *t,
{
    match t {
        Some(s) => Some(s.clone()),
        None => None,
    }
}

impl Register {
    /// The user to store; the error reply `Passwords do not match.` when the two
    /// passwords differ.
    pub fn user_form(&self) -> (r: Result<UserForm, String>)
        ensures
            match r {
                Err(reply) => self.password@ != self.password_verify@
                    && reply@ == error_text("Register"@, "Passwords do not match."@),
                Ok(form) => self.password@ == self.password_verify@
                    && form.name@ == self.username@
                    && form.email == self.email
                    && form.password_encrypted@ == self.password@
                    && form.preferred_username is None,
            },
    {
        if !(self.password == self.password_verify) {
            return Err(self.error("Passwords do not match."));
        }
        Ok(UserForm {
            name: self.username.clone(),
            email: copy_text(&self.email),
            password_encrypted: self.password.clone(),
            preferred_username: None,
        })
    }

    /// The reply once the store gave back the new user's token, or nothing when
    /// the user could not be stored.
    pub fn finish(&self, created_jwt: Option<String>) -> (reply: String)
        ensures
            reply@ == match created_jwt {
                None => error_text("Register"@, "User already exists."@),
                Some(jwt) => login_text("Register"@, jwt@),
            },
    {
        match created_jwt {
            None => self.error("User already exists."),
            Some(jwt) => LoginResponse { op: self.op_type().to_string(), jwt }.to_json(),
        }
    }
}

/// A stored record: its id and its JSON text.
pub struct Stored {
    pub id: i32,
    pub json: String,
}

/// A request to create a community.
pub struct CreateCommunity {
    pub name: String,
    pub auth: String,
}

/// The community to store.
pub struct CommunityForm {
    pub name: String,
}

/// The membership to store: a user in a community.
pub struct CommunityUserForm {
    pub community_id: i32,
    pub fedi_user_id: String,
}

/// The reply to a created community.
pub struct CreateCommunityResponse {
    pub op: String,
    /// The community, as JSON text.
    pub community: String,
}

impl CreateCommunityResponse {
    /// The JSON text of the reply.
    pub fn to_json(&self) -> (r: String)
        ensures
            r@ == record_text(self.op@, "community"@, self.community@),
    {
        op_object(self.op.as_str(), raw_member("community", self.community.as_str()))
    }
}

impl Perform for CreateCommunity {
    open spec fn operation(&self) -> UserOperation {
        UserOperation::CreateCommunity
    }

    fn op_type(&self) -> (op: UserOperation) {
        UserOperation::CreateCommunity
    }
}

impl CreateCommunity {
    /// The community to store, for a logged-in user; the error reply
    /// `Not logged in.` when the token did not decode.
    pub fn community_form(&self, claims: &Option<Claims>) -> (r: Result<CommunityForm, String>)
        ensures
            match claims {
                None => r matches Err(reply)
                    && reply@ == error_text("CreateCommunity"@, "Not logged in."@),
                Some(_) => r matches Ok(form) && form.name@ == self.name@,
            },
    {
        match claims {
            None => Err(self.error("Not logged in.")),
            Some(_) => Ok(CommunityForm { name: self.name.clone() }),
        }
    }

    /// The membership of the creator in the community that the store gave back;
    /// the error reply `Community already exists.` when it could not be stored.
    pub fn community_user_form(&self, claims: &Claims, created: &Option<Stored>) -> (r: Result<CommunityUserForm, String>)
        ensures
            match created {
                None => r matches Err(reply)
                    && reply@ == error_text("CreateCommunity"@, "Community already exists."@),
                Some(c) => r matches Ok(form) && form.community_id == c.id
                    && form.fedi_user_id@ == fedi_name(claims.iss@, claims.id),
            },
    {
        match created {
            None => Err(self.error("Community already exists.")),
            Some(c) => Ok(CommunityUserForm { community_id: c.id, fedi_user_id: fedi_user_id(claims) }),
        }
    }

    /// The reply once the membership was stored (`joined`) or not.
    pub fn finish(&self, community: &Stored, joined: bool) -> (reply: String)
        ensures
            reply@ == if joined {
                record_text("CreateCommunity"@, "community"@, community.json@)
            } else {
                error_text("CreateCommunity"@, "Community user already exists."@)
            },
    {
        if !joined {
            return self.error("Community user already exists.");
        }
        CreateCommunityResponse { op: self.op_type().to_string(), community: community.json.clone() }.to_json()
    }
}

/// A request for all communities.
pub struct ListCommunities;

/// The reply with all communities.
pub struct ListCommunitiesResponse {
    pub op: String,
    /// The communities, each as JSON text.
    pub communities: Vec<String>,
}

impl ListCommunitiesResponse {
    /// The JSON text of the reply.
    pub fn to_json(&self) -> (r: String)
        ensures
            r@ == list_text(self.op@, "communities"@, texts_view(self.communities@)),
    {
        let list = array(&self.communities);
        op_object(self.op.as_str(), raw_member("communities", list.as_str()))
    }
}

impl Perform for ListCommunities {
    open spec fn operation(&self) -> UserOperation {
        UserOperation::ListCommunities
    }

    fn op_type(&self) -> (op: UserOperation) {
        UserOperation::ListCommunities
    }
}

impl ListCommunities {
    /// The reply, given all communities that the store holds.
    pub fn perform(&self, communities: Vec<String>) -> (reply: String)
        ensures
            reply@ == list_text("ListCommunities"@, "communities"@, texts_view(communities@)),
    {
        ListCommunitiesResponse { op: self.op_type().to_string(), communities }.to_json()
    }
}

/// A request to create a post.
pub struct CreatePost {
    pub name: String,
    pub url: Option<String>,
    pub body: Option<String>,
    pub community_id: i32,
    pub auth: String,
}

/// The post to store.
pub struct PostForm {
    pub name: String,
    pub url: Option<String>,
    pub body: Option<String>,
    pub community_id: i32,
    pub attributed_to: String,
}

/// The reply to a created post.
pub struct CreatePostResponse {
    pub op: String,
    /// The post, as JSON text.
    pub post: String,
}

impl CreatePostResponse {
    /// The JSON text of the reply.
    pub fn to_json(&self) -> (r: String)
        ensures
            r@ == record_text(self.op@, "post"@, self.post@),
    {
        op_object(self.op.as_str(), raw_member("post", self.post.as_str()))
    }
}

impl Perform for CreatePost {
    open spec fn operation(&self) -> UserOperation {
        UserOperation::CreatePost
    }

    fn op_type(&self) -> (op: UserOperation) {
        UserOperation::CreatePost
    }
}

impl CreatePost {
    /// The post to store, attributed to the logged-in user; the error reply
    /// `Not logged in.` when the token did not decode.
    pub fn post_form(&self, claims: Option<Claims>) -> (r: Result<PostForm, String>)
        ensures
            match claims {
                None => r matches Err(reply)
                    && reply@ == error_text("CreatePost"@, "Not logged in."@),
                Some(c) => r matches Ok(form)
                    && form.name@ == self.name@
                    && form.url == self.url
                    && form.body == self.body
                    && form.community_id == self.community_id
                    && form.attributed_to@ == fedi_name(c.iss@, c.id),
            },
    {
        match logged_in(self, claims) {
            Err(reply) => Err(reply),
            Ok(c) => Ok(PostForm {
                name: self.name.clone(),
                url: copy_text(&self.url),
                body: copy_text(&self.body),
                community_id: self.community_id,
                attributed_to: fedi_user_id(&c),
            }),
        }
    }

    /// The reply once the store gave back the new post (as JSON), or nothing
    /// when it could not be stored.
    pub fn finish(&self, created: Option<String>) -> (reply: String)
        ensures
            reply@ == match created {
                None => error_text("CreatePost"@, "Couldn't create Post"@),
                Some(post) => record_text("CreatePost"@, "post"@, post@),
            },
    {
        match created {
            None => self.error("Couldn't create Post"),
            Some(post) => CreatePostResponse { op: self.op_type().to_string(), post }.to_json(),
        }
    }
}

/// A request for a post and its comments.
pub struct GetPost {
    pub id: i32,
}

/// The reply with a post and its comments.
pub struct GetPostResponse {
    pub op: String,
    /// The post, as JSON text.
    pub post: String,
    /// The comments, each as JSON text.
    pub comments: Vec<String>,
}

impl GetPostResponse {
    /// The JSON text of the reply.
    pub fn to_json(&self) -> (r: String)
        ensures
            r@ == post_page_text(self.op@, self.post@, texts_view(self.comments@)),
    {
        let list = array(&self.comments);
        let mut fields: Vec<(String, String)> = Vec::new();
        fields.push(string_member("op", self.op.as_str()));
        fields.push(raw_member("post", self.post.as_str()));
        fields.push(raw_member("comments", list.as_str()));
        proof {
            assert(fields_view(fields@) =~= seq![
                string_field("op"@, self.op@),
                ("post"@, self.post@),
                ("comments"@, array_text(texts_view(self.comments@))),
            ]);
        }
        object(&fields)
    }
}

impl Perform for GetPost {
    open spec fn operation(&self) -> UserOperation {
        UserOperation::GetPost
    }

    fn op_type(&self) -> (op: UserOperation) {
        UserOperation::GetPost
    }
}

impl GetPost {
    /// The reply, given the post that the store found together with its
    /// comments (each as JSON). When the post is found, session `addr` moves into
    /// the post's room; otherwise nothing changes and the reply is
    /// `Couldn't find Post`.
    pub fn perform<R>(&self, chat: &mut ChatServer<R>, addr: usize, found: Option<(String, Vec<String>)>) -> (reply: String)
        ensures
            match found {
                None => final(chat)@ == old(chat)@
                    && reply@ == error_text("GetPost"@, "Couldn't find Post"@),
                Some((post, comments)) => final(chat)@ == old(chat)@.after_join(self.id, addr)
                    && reply@ == post_page_text("GetPost"@, post@, texts_view(comments@)),
            },
            final(chat)@.finite(),
            old(chat)@.in_at_most_one_room() ==> final(chat)@.in_at_most_one_room(),
    {
        proof {
            chat.lemma_finite();
        }
        match found {
            None => self.error("Couldn't find Post"),
            Some((post, comments)) => {
                chat.join(self.id, addr);
                GetPostResponse { op: self.op_type().to_string(), post, comments }.to_json()
            },
        }
    }
}

/// A request for a community.
pub struct GetCommunity {
    pub id: i32,
}

/// The reply with a community.
pub struct GetCommunityResponse {
    pub op: String,
    /// The community, as JSON text.
    pub community: String,
}

impl GetCommunityResponse {
    /// The JSON text of the reply.
    pub fn to_json(&self) -> (r: String)
        ensures
            r@ == record_text(self.op@, "community"@, self.community@),
    {
        op_object(self.op.as_str(), raw_member("community", self.community.as_str()))
    }
}

impl Perform for GetCommunity {
    open spec fn operation(&self) -> UserOperation {
        UserOperation::GetCommunity
    }

    fn op_type(&self) -> (op: UserOperation) {
        UserOperation::GetCommunity
    }
}

impl GetCommunity {
    /// The reply, given the community that the store found (as JSON), or
    /// `Couldn't find Community`.
    pub fn perform(&self, found: Option<String>) -> (reply: String)
        ensures
            reply@ == match found {
                None => error_text("GetCommunity"@, "Couldn't find Community"@),
                Some(community) => record_text("GetCommunity"@, "community"@, community@),
            },
    {
        match found {
            None => self.error("Couldn't find Community"),
            Some(community) => GetCommunityResponse { op: self.op_type().to_string(), community }.to_json(),
        }
    }
}

/// A request to create a comment on a post.
pub struct CreateComment {
    pub content: String,
    pub parent_id: Option<i32>,
    pub post_id: i32,
    pub auth: String,
}

/// The comment to store.
pub struct CommentForm {
    pub content: String,
    pub parent_id: Option<i32>,
    pub post_id: i32,
    pub attributed_to: String,
}

/// The reply to a created comment.
pub struct CreateCommentResponse {
    pub op: String,
    /// The comment, as JSON text.
    pub comment: String,
}

impl CreateCommentResponse {
    /// The JSON text of the reply.
    pub fn to_json(&self) -> (r: String)
        ensures
            r@ == record_text(self.op@, "comment"@, self.comment@),
    {
        op_object(self.op.as_str(), raw_member("comment", self.comment.as_str()))
    }
}

impl Perform for CreateComment {
    open spec fn operation(&self) -> UserOperation {
        UserOperation::CreateComment
    }

    fn op_type(&self) -> (op: UserOperation) {
        UserOperation::CreateComment
    }
}

impl CreateComment {
    /// The comment to store, attributed to the logged-in user; the error reply
    /// `Not logged in.` when the token did not decode.
    pub fn comment_form(&self, claims: Option<Claims>) -> (r: Result<CommentForm, String>)
        ensures
            match claims {
                None => r matches Err(reply)
                    && reply@ == error_text("CreateComment"@, "Not logged in."@),
                Some(c) => r matches Ok(form)
                    && form.content@ == self.content@
                    && form.parent_id == self.parent_id
                    && form.post_id == self.post_id
                    && form.attributed_to@ == fedi_name(c.iss@, c.id),
            },
    {
        match logged_in(self, claims) {
            Err(reply) => Err(reply),
            Ok(c) => Ok(CommentForm {
                content: self.content.clone(),
                parent_id: self.parent_id,
                post_id: self.post_id,
                attributed_to: fedi_user_id(&c),
            }),
        }
    }

    /// The reply once the store gave back the new comment (as JSON), or nothing
    /// when it could not be stored; and the sessions that the reply is sent to
    /// besides the author: the other connected members of the post's room.
    pub fn finish<R>(&self, chat: &ChatServer<R>, addr: usize, created: Option<String>) -> (r: (String, Vec<usize>))
        ensures
            match created {
                None => r.0@ == error_text("CreateComment"@, "Couldn't create Post"@)
                    && r.1@ == Seq::<usize>::empty(),
                Some(comment) => r.0@ == record_text("CreateComment"@, "comment"@, comment@)
                    && r.1@.to_set() == chat@.recipients(self.post_id, addr)
                    && r.1@.no_duplicates(),
            },
    {
        match created {
            None => (self.error("Couldn't create Post"), Vec::new()),
            Some(comment) => {
                let reply = CreateCommentResponse { op: self.op_type().to_string(), comment }.to_json();
                let targets = chat.send_room_message(self.post_id, addr);
                (reply, targets)
            },
        }
    }
}

/// A client message, read: the operation it asks for and the JSON text of its
/// data.
pub struct Request {
    pub op: UserOperation,
    pub data: String,
}

/// Why a client message could not be read.
#[derive(Clone, Copy, Debug, PartialEq, Eq, Structural)]
pub enum RequestError {
    /// The message is not JSON.
    NotJson,
    /// The message's `op` is missing or not a string.
    OpNotText,
    /// The message's `op` names no operation.
    UnknownOperation,
}

/// What a client message reads as, given what the JSON parser made of its
/// `op` member (a string or not) and of its `data` member (as JSON text). A
/// message that is not JSON has neither.
pub open spec fn request_outcome(op_member: Option<Option<Seq<char>>>, data_member: Option<Seq<char>>) -> Result<(UserOperation, Seq<char>), RequestError> {
    match op_member {
        None => Err(RequestError::NotJson),
        Some(None) => Err(RequestError::OpNotText),
        Some(Some(op)) => match UserOperation::parse(op) {
            None => Err(RequestError::UnknownOperation),
            Some(o) => match data_member {
                None => Err(RequestError::NotJson),
                Some(data) => Ok((o, data)),
            },
        },
    }
}

/// A read request as mathematical values.
pub open spec fn request_view(r: Result<Request, RequestError>) -> Result<(UserOperation, Seq<char>), RequestError> {
    match r {
        Ok(req) => Ok((req.op, req.data@)),
        Err(e) => Err(e),
    }
}

/// The `op` member as a mathematical value.
pub open spec fn op_member_view(m: Option<Option<String>>) -> Option<Option<Seq<char>>> {
    match m {
        None => None,
        Some(t) => Some(opt_text_view(t)),
    }
}

impl Request {
    /// The request, given what the JSON parser made of the message's `op`
    /// member and of its `data` member.
    pub fn from_members(op_member: Option<Option<String>>, data_member: Option<String>) -> (r: Result<Request, RequestError>)
        ensures
            request_view(r) == request_outcome(op_member_view(op_member), opt_text_view(data_member)),
    {
        match op_member {
            None => Err(RequestError::NotJson),
            Some(None) => Err(RequestError::OpNotText),
            Some(Some(op)) => match UserOperation::from_str(op.as_str()) {
                Err(_) => Err(RequestError::UnknownOperation),
                Ok(o) => match data_member {
                    None => Err(RequestError::NotJson),
                    Some(data) => Ok(Request { op: o, data }),
                },
            },
        }
    }

    /// Reads a client message: its `op` member names the operation and its
    /// `data` member carries the request.
    pub fn read(msg: &StandardMessage) -> (r: Result<Request, RequestError>)
        ensures
            request_view(r) == request_outcome(
                json_member_str(msg.msg@, "op"@),
                json_member_text(msg.msg@, "data"@),
            ),
    {
        let text = msg.msg.as_str();
        let op_member = member_str(text, "op");
        let data_member = member_text(text, "data");
        Request::from_members(op_member, data_member)
    }
}

/// A message whose `op` is the text form of an operation reads as that
/// operation, with its data passed on unchanged.
pub proof fn lemma_named_operation_is_read(op: UserOperation, data: Seq<char>)
    ensures
        request_outcome(Some(Some(op.name())), Some(data)) == Ok::<(UserOperation, Seq<char>), RequestError>((op, data)),
{
    lemma_operation_name_parses(op);
}

/// An error reply can be read back: its text determines the operation's name
/// and the error message, whatever characters they hold.
pub proof fn lemma_error_reply_reads_back(op1: Seq<char>, e1: Seq<char>, op2: Seq<char>, e2: Seq<char>)
    requires
        error_text(op1, e1) == error_text(op2, e2),
    ensures
        op1 == op2,
        e1 == e2,
{
    lemma_two_string_members_read_back("op"@, "error"@, op1, e1, op2, e2);
}

/// A reply that carries a token can be read back: its text determines the
/// operation's name and the token.
pub proof fn lemma_login_reply_reads_back(op1: Seq<char>, jwt1: Seq<char>, op2: Seq<char>, jwt2: Seq<char>)
    requires
        login_text(op1, jwt1) == login_text(op2, jwt2),
    ensures
        op1 == op2,
        jwt1 == jwt2,
{
    lemma_two_string_members_read_back("op"@, "jwt"@, op1, jwt1, op2, jwt2);
}

/// No slash in the decimal text of a number.
proof fn lemma_decimal_has_no_slash(n: int)
    ensures
        forall|i: int| 0 <= i < decimal(n).len() ==> #[trigger] decimal(n)[i] != '/',
{
    lemma_decimal_shape(n);
    assert forall|i: int| 0 <= i < decimal(n).len() implies #[trigger] decimal(n)[i] != '/' by {
        if n < 0 && i == 0 {
        } else {
            assert(crate::decimal::is_digit(decimal(n)[i]));
        }
    }
}

/// A federated name reads back: it determines the issuer and the whole user
/// id, so different users never share one.
pub proof fn lemma_fedi_name_reads_back(iss1: Seq<char>, id1: i32, iss2: Seq<char>, id2: i32)
    requires
        fedi_name(iss1, id1) == fedi_name(iss2, id2),
    ensures
        iss1 == iss2,
        id1 == id2,
{
    let d1 = decimal(id1 as int);
    let d2 = decimal(id2 as int);
    lemma_decimal_has_no_slash(id1 as int);
    lemma_decimal_has_no_slash(id2 as int);
    let w = fedi_name(iss1, id1);
    assert(w =~= iss1 + seq!['/'] + d1);
    assert(w =~= iss2 + seq!['/'] + d2);
    if d1.len() < d2.len() {
        let p = w.len() - d1.len() - 1;
        assert(w[p] == '/');
        assert(w[p] == d2[d2.len() - d1.len() - 1]);
    } else if d2.len() < d1.len() {
        let p = w.len() - d2.len() - 1;
        assert(w[p] == '/');
        assert(w[p] == d1[d1.len() - d2.len() - 1]);
    } else {
        assert(d1 =~= w.subrange(w.len() - d1.len(), w.len() as int));
        assert(d2 =~= w.subrange(w.len() - d2.len(), w.len() as int));
        assert(iss1 =~= w.subrange(0, iss1.len() as int));
        assert(iss2 =~= w.subrange(0, iss2.len() as int));
        lemma_decimal_injective(id1 as int, id2 as int);
    }
}

/// A request for an operation reaches the step of the same operation, and a
/// request for an operation without a step gets no step at all.
pub proof fn lemma_route_keeps_operation(op: UserOperation, s: Served)
    ensures
        served(op) == Some(s) <==> s.operation() == op,
{
}

/// A login gives the user's token exactly when bcrypt accepts the whole
/// password given against the stored hash; otherwise it gives no token.
pub proof fn lemma_login_token_needs_password(password: Seq<char>, hash: Seq<char>, jwt: Seq<char>)
    ensures
        (login_reply(password, Some((hash, jwt))) == login_text("Login"@, jwt))
            <==> bcrypt_verify(password, hash) == Some(true),
{
    if bcrypt_verify(password, hash) != Some(true) {
        reveal_strlit("error");
        reveal_strlit("jwt");
        assert("error"@.len() != "jwt"@.len());
        lemma_second_key_tells_apart("op"@, "error"@, "jwt"@, "Login"@, "Password incorrect"@, "Login"@, jwt);
    }
}

/// A reply that carries one record can be read back: its text determines the
/// record's JSON.
pub proof fn lemma_record_reply_reads_back(op: Seq<char>, key: Seq<char>, r1: Seq<char>, r2: Seq<char>)
    requires
        record_text(op, key, r1) == record_text(op, key, r2),
    ensures
        r1 == r2,
{
    let f = seq![string_field("op"@, op)];
    assert(seq![string_field("op"@, op), (key, r1)] =~= f.push((key, r1)));
    assert(seq![string_field("op"@, op), (key, r2)] =~= f.push((key, r2)));
    lemma_object_push(f, key, r1);
    lemma_object_push(f, key, r2);
    let p = object_text(f).drop_last() + separator(f.len()) + crate::json::json_string_literal(key) + seq![':'];
    let w = record_text(op, key, r1);
    assert(w =~= p + (r1 + seq!['}']));
    assert(w =~= p + (r2 + seq!['}']));
    assert(r1 + seq!['}'] =~= w.subrange(p.len() as int, w.len() as int));
    assert(r2 + seq!['}'] =~= w.subrange(p.len() as int, w.len() as int));
    assert(r1 =~= (r1 + seq!['}']).drop_last());
    assert(r2 =~= (r2 + seq!['}']).drop_last());
}

/// Whatever precedes an array that closes an object: one more record at the
/// end of the array is written just before `]}`, after a comma when records
/// come before it.
proof fn lemma_closing_array_push(pre: Seq<char>, rs: Seq<Seq<char>>, r: Seq<char>)
    ensures
        (pre + array_text(rs.push(r)) + seq!['}']) == (pre + array_text(rs) + seq!['}']).drop_last().drop_last()
            + separator(rs.len()) + r + seq![']', '}'],
{
    lemma_array_push(rs, r);
    let a = array_text(rs);
    assert(a.last() == ']');
    assert((pre + a + seq!['}']).drop_last().drop_last() =~= pre + a.drop_last());
    assert(pre + array_text(rs.push(r)) + seq!['}'] =~= pre + a.drop_last() + separator(rs.len()) + r + seq![']', '}']);
}

/// The layout of an object whose last member is an array.
proof fn lemma_last_member_array(f: Seq<(Seq<char>, Seq<char>)>, key: Seq<char>, rs: Seq<Seq<char>>)
    ensures
        object_text(f.push((key, array_text(rs))))
            == (object_text(f).drop_last() + separator(f.len()) + crate::json::json_string_literal(key) + seq![':'])
            + array_text(rs) + seq!['}'],
{
    lemma_object_push(f, key, array_text(rs));
}

/// One more record in a list reply is written at the end of its array: every
/// record given is in the reply, in order.
pub proof fn lemma_list_reply_push(op: Seq<char>, key: Seq<char>, rs: Seq<Seq<char>>, r: Seq<char>)
    ensures
        list_text(op, key, rs.push(r)) == list_text(op, key, rs).drop_last().drop_last()
            + separator(rs.len()) + r + seq![']', '}'],
{
    let f = seq![string_field("op"@, op)];
    assert(seq![string_field("op"@, op), (key, array_text(rs))] =~= f.push((key, array_text(rs))));
    assert(seq![string_field("op"@, op), (key, array_text(rs.push(r)))] =~= f.push((key, array_text(rs.push(r)))));
    lemma_last_member_array(f, key, rs);
    lemma_last_member_array(f, key, rs.push(r));
    let pre = object_text(f).drop_last() + separator(f.len()) + crate::json::json_string_literal(key) + seq![':'];
    lemma_closing_array_push(pre, rs, r);
}

/// One more comment on a post is written at the end of the reply's comment
/// array: every comment given is in the reply, in order.
pub proof fn lemma_post_page_push(op: Seq<char>, post: Seq<char>, cs: Seq<Seq<char>>, c: Seq<char>)
    ensures
        post_page_text(op, post, cs.push(c)) == post_page_text(op, post, cs).drop_last().drop_last()
            + separator(cs.len()) + c + seq![']', '}'],
{
    let f = seq![string_field("op"@, op), ("post"@, post)];
    assert(seq![string_field("op"@, op), ("post"@, post), ("comments"@, array_text(cs))] =~= f.push(("comments"@, array_text(cs))));
    assert(seq![string_field("op"@, op), ("post"@, post), ("comments"@, array_text(cs.push(c)))]
        =~= f.push(("comments"@, array_text(cs.push(c)))));
    lemma_last_member_array(f, "comments"@, cs);
    lemma_last_member_array(f, "comments"@, cs.push(c));
    let pre = object_text(f).drop_last() + separator(f.len()) + crate::json::json_string_literal("comments"@) + seq![':'];
    lemma_closing_array_push(pre, cs, c);
}

/// A message that reads as a request had that operation's name as its `op`
/// member and the request's data as its `data` member.
pub proof fn lemma_read_request_came_from_message(op_member: Option<Option<Seq<char>>>, data_member: Option<Seq<char>>, o: UserOperation, data: Seq<char>)
    requires
        request_outcome(op_member, data_member) == Ok::<(UserOperation, Seq<char>), RequestError>((o, data)),
    ensures
        op_member == Some(Some(o.name())),
        data_member == Some(data),
{
    match op_member {
        Some(Some(op)) => {
            crate::operation::lemma_operation_parse_is_name(op);
        },
        _ => {},
    }
}

} // verus!
