use server::chat::{ChatServer, Connect};
use server::protocol::{
    fedi_user_id, unknown_operation, Claims, CreateComment, CreateCommunity, CreatePost,
    ErrorMessage, GetCommunity, GetPost, ListCommunities, Login, LoginResponse, Perform, Register,
    Request, RequestError, Served, StandardMessage, Stored, UserRecord,
};
use server::protocol::route;
use server::operation::UserOperation;

fn claims() -> Option<Claims> {
    Some(Claims { id: 42, iss: "http://lemmy".to_string() })
}

#[test]
fn error_message_json() {
    let e = ErrorMessage { op: "Login".to_string(), error: "Password incorrect".to_string() };
    assert_eq!(e.to_json(), r#"{"op":"Login","error":"Password incorrect"}"#);
    assert_eq!(unknown_operation(), r#"{"op":"Unknown","error":"Unknown User Operation"}"#);
}

#[test]
fn login_response_json() {
    let r = LoginResponse { op: "Register".to_string(), jwt: "abc.def".to_string() };
    assert_eq!(r.to_json(), r#"{"op":"Register","jwt":"abc.def"}"#);
}

#[test]
fn perform_error_names_operation() {
    let get = GetPost { id: 1 };
    assert_eq!(get.op_type(), UserOperation::GetPost);
    assert_eq!(get.error("oops \"quoted\""), r#"{"op":"GetPost","error":"oops \"quoted\""}"#);
}

#[test]
fn fedi_user_id_joins_issuer_and_id() {
    assert_eq!(fedi_user_id(&Claims { id: 42, iss: "http://lemmy".to_string() }), "http://lemmy/42");
    assert_eq!(fedi_user_id(&Claims { id: -3, iss: "x".to_string() }), "x/-3");
}

#[test]
fn login_outcomes() {
    let hash = bcrypt::hash("hunter2", 4).unwrap();
    let login = Login { username_or_email: "bob".to_string(), password: "hunter2".to_string() };
    assert_eq!(login.perform(None), r#"{"op":"Login","error":"Couldn't find that username or email"}"#);
    let found = UserRecord { password_encrypted: hash.clone(), jwt: "tok".to_string() };
    assert_eq!(login.perform(Some(found)), r#"{"op":"Login","jwt":"tok"}"#);
    let wrong = Login { username_or_email: "bob".to_string(), password: "hunter3".to_string() };
    let found = UserRecord { password_encrypted: hash, jwt: "tok".to_string() };
    assert_eq!(wrong.perform(Some(found)), r#"{"op":"Login","error":"Password incorrect"}"#);
    let unreadable = UserRecord { password_encrypted: "hunter2".to_string(), jwt: "tok".to_string() };
    assert_eq!(login.perform(Some(unreadable)), r#"{"op":"Login","error":"Password incorrect"}"#);
}

#[test]
fn login_finish_follows_check() {
    let login = Login { username_or_email: "bob".to_string(), password: "pw".to_string() };
    assert_eq!(login.finish(Some(true), "t"), r#"{"op":"Login","jwt":"t"}"#);
    assert_eq!(login.finish(Some(false), "t"), r#"{"op":"Login","error":"Password incorrect"}"#);
    assert_eq!(login.finish(None, "t"), r#"{"op":"Login","error":"Password incorrect"}"#);
}

#[test]
fn register_checks_passwords_then_stores() {
    let bad = Register {
        username: "bob".to_string(),
        email: None,
        password: "a".to_string(),
        password_verify: "b".to_string(),
    };
    match bad.user_form() {
        Err(reply) => assert_eq!(reply, r#"{"op":"Register","error":"Passwords do not match."}"#),
        Ok(_) => panic!("passwords differ"),
    }
    let good = Register {
        username: "bob".to_string(),
        email: Some("bob@example.org".to_string()),
        password: "a".to_string(),
        password_verify: "a".to_string(),
    };
    match good.user_form() {
        Ok(form) => {
            assert_eq!(form.name, "bob");
            assert_eq!(form.email, Some("bob@example.org".to_string()));
            assert_eq!(form.password_encrypted, "a");
            assert_eq!(form.preferred_username, None);
        },
        Err(_) => panic!("passwords match"),
    }
    assert_eq!(good.finish(None), r#"{"op":"Register","error":"User already exists."}"#);
    assert_eq!(good.finish(Some("jwt1".to_string())), r#"{"op":"Register","jwt":"jwt1"}"#);
}

#[test]
fn create_community_steps() {
    let req = CreateCommunity { name: "rust".to_string(), auth: "token".to_string() };
    match req.community_form(&None) {
        Err(reply) => assert_eq!(reply, r#"{"op":"CreateCommunity","error":"Not logged in."}"#),
        Ok(_) => panic!("not logged in"),
    }
    match req.community_form(&claims()) {
        Ok(form) => assert_eq!(form.name, "rust"),
        Err(_) => panic!("logged in"),
    }
    let c = claims().unwrap();
    match req.community_user_form(&c, &None) {
        Err(reply) => assert_eq!(reply, r#"{"op":"CreateCommunity","error":"Community already exists."}"#),
        Ok(_) => panic!("not stored"),
    }
    let stored = Some(Stored { id: 7, json: r#"{"id":7,"name":"rust"}"#.to_string() });
    match req.community_user_form(&c, &stored) {
        Ok(form) => {
            assert_eq!(form.community_id, 7);
            assert_eq!(form.fedi_user_id, "http://lemmy/42");
        },
        Err(_) => panic!("stored"),
    }
    let stored = stored.unwrap();
    assert_eq!(
        req.finish(&stored, false),
        r#"{"op":"CreateCommunity","error":"Community user already exists."}"#
    );
    assert_eq!(req.finish(&stored, true), r#"{"op":"CreateCommunity","community":{"id":7,"name":"rust"}}"#);
}

#[test]
fn list_communities_reply() {
    let req = ListCommunities;
    assert_eq!(req.perform(Vec::new()), r#"{"op":"ListCommunities","communities":[]}"#);
    assert_eq!(
        req.perform(vec![r#"{"id":1}"#.to_string(), r#"{"id":2}"#.to_string()]),
        r#"{"op":"ListCommunities","communities":[{"id":1},{"id":2}]}"#
    );
}

#[test]
fn create_post_steps() {
    let req = CreatePost {
        name: "hello".to_string(),
        url: Some("http://x".to_string()),
        body: None,
        community_id: 3,
        auth: "t".to_string(),
    };
    match req.post_form(None) {
        Err(reply) => assert_eq!(reply, r#"{"op":"CreatePost","error":"Not logged in."}"#),
        Ok(_) => panic!("not logged in"),
    }
    match req.post_form(claims()) {
        Ok(form) => {
            assert_eq!(form.name, "hello");
            assert_eq!(form.url, Some("http://x".to_string()));
            assert_eq!(form.body, None);
            assert_eq!(form.community_id, 3);
            assert_eq!(form.attributed_to, "http://lemmy/42");
        },
        Err(_) => panic!("logged in"),
    }
    assert_eq!(req.finish(None), r#"{"op":"CreatePost","error":"Couldn't create Post"}"#);
    assert_eq!(req.finish(Some(r#"{"id":9}"#.to_string())), r#"{"op":"CreatePost","post":{"id":9}}"#);
}

#[test]
fn get_post_joins_room() {
    let mut chat: ChatServer<u8> = ChatServer::default();
    let a = chat.connect(Connect { addr: 1 });
    let req = GetPost { id: 5 };
    assert_eq!(req.perform(&mut chat, a, None), r#"{"op":"GetPost","error":"Couldn't find Post"}"#);
    assert!(chat.rooms().is_empty());
    let reply = req.perform(&mut chat, a, Some((r#"{"id":5}"#.to_string(), vec![r#"{"c":1}"#.to_string()])));
    assert_eq!(reply, r#"{"op":"GetPost","post":{"id":5},"comments":[{"c":1}]}"#);
    assert!(chat.rooms().get(&5).unwrap().contains(&a));
    GetPost { id: 6 }.perform(&mut chat, a, Some(("{}".to_string(), Vec::new())));
    assert!(!chat.rooms().get(&5).unwrap().contains(&a));
    assert!(chat.rooms().get(&6).unwrap().contains(&a));
}

#[test]
fn get_community_reply() {
    let req = GetCommunity { id: 2 };
    assert_eq!(req.perform(None), r#"{"op":"GetCommunity","error":"Couldn't find Community"}"#);
    assert_eq!(req.perform(Some(r#"{"id":2}"#.to_string())), r#"{"op":"GetCommunity","community":{"id":2}}"#);
}

#[test]
fn create_comment_reaches_room() {
    let mut chat: ChatServer<u8> = ChatServer::default();
    let author = chat.connect(Connect { addr: 1 });
    let reader = chat.connect(Connect { addr: 2 });
    GetPost { id: 8 }.perform(&mut chat, author, Some(("{}".to_string(), Vec::new())));
    GetPost { id: 8 }.perform(&mut chat, reader, Some(("{}".to_string(), Vec::new())));
    let req = CreateComment { content: "hi".to_string(), parent_id: None, post_id: 8, auth: "t".to_string() };
    match req.comment_form(None) {
        Err(reply) => assert_eq!(reply, r#"{"op":"CreateComment","error":"Not logged in."}"#),
        Ok(_) => panic!("not logged in"),
    }
    match req.comment_form(claims()) {
        Ok(form) => {
            assert_eq!(form.content, "hi");
            assert_eq!(form.parent_id, None);
            assert_eq!(form.post_id, 8);
            assert_eq!(form.attributed_to, "http://lemmy/42");
        },
        Err(_) => panic!("logged in"),
    }
    let (reply, targets) = req.finish(&chat, author, None);
    assert_eq!(reply, r#"{"op":"CreateComment","error":"Couldn't create Post"}"#);
    assert!(targets.is_empty());
    let (reply, targets) = req.finish(&chat, author, Some(r#"{"id":1}"#.to_string()));
    assert_eq!(reply, r#"{"op":"CreateComment","comment":{"id":1}}"#);
    assert_eq!(targets, vec![reader]);
}

fn read(text: &str) -> Result<(UserOperation, String), RequestError> {
    Request::read(&StandardMessage { id: 1, msg: text.to_string() }).map(|r| (r.op, r.data))
}

#[test]
fn reading_client_messages() {
    assert_eq!(
        read(r#"{"op":"GetPost","data":{"id":3}}"#),
        Ok((UserOperation::GetPost, r#"{"id":3}"#.to_string()))
    );
    assert_eq!(read(r#"{"op":"ListCommunities"}"#), Ok((UserOperation::ListCommunities, "null".to_string())));
    assert_eq!(read("not json"), Err(RequestError::NotJson));
    assert_eq!(read(r#"{"data":{}}"#), Err(RequestError::OpNotText));
    assert_eq!(read(r#"{"op":3}"#), Err(RequestError::OpNotText));
    assert_eq!(read(r#"{"op":"Fly","data":{}}"#), Err(RequestError::UnknownOperation));
    assert_eq!(read(r#"{"op":"Vote","data":[1]}"#), Ok((UserOperation::Vote, "[1]".to_string())));
}

#[test]
fn routing_of_operations() {
    assert_eq!(route(UserOperation::Login), Ok(Served::Login));
    assert_eq!(route(UserOperation::ListCommunities), Ok(Served::ListCommunities));
    assert_eq!(route(UserOperation::CreateComment), Ok(Served::CreateComment));
    let unknown = r#"{"op":"Unknown","error":"Unknown User Operation"}"#.to_string();
    for op in [
        UserOperation::Logout,
        UserOperation::Join,
        UserOperation::Edit,
        UserOperation::Reply,
        UserOperation::Vote,
        UserOperation::Delete,
        UserOperation::NextPage,
        UserOperation::Sticky,
    ] {
        assert_eq!(route(op), Err(unknown.clone()));
    }
}
