//! What a worker asks of the control server.

use vstd::prelude::*;

verus! {

/// A request to the control server.
#[derive(Debug)]
pub enum Request {
    /// The worker can take `diff` more clients.
    UpdateCapacity { diff: i64 },
    /// The client gets no machine.
    DropClient { client_id: String },
    /// The client's machine is at `url`.
    ConfirmClient { client_id: String, url: String },
    /// Asks for a sign of life.
    Ping,
}

/// What a member of a JSON object holds.
pub enum JsonMember {
    Text(Seq<char>),
    Number(i64),
    /// Neither a text nor such a number.
    Other,
}

/// The members of a JSON object by their names.
pub type JsonMembers = Map<Seq<char>, JsonMember>;

/// `serde_json::Value`, seen only as a part of an object.
#[verifier::external_type_specification]
#[verifier::external_body]
pub struct ExJsonValue(serde_json::Value);

/// `serde_json::Map`, seen only through the functions below.
#[verifier::external_type_specification]
#[verifier::external_body]
#[verifier::reject_recursive_types(K)]
#[verifier::reject_recursive_types(V)]
pub struct ExJsonMap<K, V>(serde_json::Map<K, V>);

/// The members that an object has.
pub uninterp spec fn object_members(
    object: serde_json::Map<String, serde_json::Value>,
) -> Map<Seq<char>, JsonMember>;

/// The text that `serde_json::to_string` writes of an object with these members.
pub uninterp spec fn json_text(members: Map<Seq<char>, JsonMember>) -> Seq<char>;

/// Whether an object can have these members, and can be written: they are texts and numbers,
/// and there is an end to them.
pub open spec fn writable(members: JsonMembers) -> bool {
    &&& members.dom().finite()
    &&& forall|name: Seq<char>|
        members.dom().contains(name) ==> !((#[trigger] members[name]) is Other)
}

/// `serde_json::Map::new`: an object without members.
#[verifier::external_body]
pub(crate) fn object_new() -> (object: serde_json::Map<String, serde_json::Value>)
    ensures
        object_members(object) == JsonMembers::empty(),
{
    serde_json::Map::new()
}

/// `serde_json::Map::insert` with a text: sets the member with that name.
#[verifier::external_body]
pub(crate) fn object_insert_text(
    object: &mut serde_json::Map<String, serde_json::Value>,
    name: &str,
    value: &str,
)
    ensures
        object_members(*final(object)) == object_members(*old(object)).insert(
            name@,
            JsonMember::Text(value@),
        ),
{
    object.insert(name.to_owned(), serde_json::Value::from(value));
}

/// `serde_json::Map::insert` with a number: sets the member with that name.
#[verifier::external_body]
pub(crate) fn object_insert_number(
    object: &mut serde_json::Map<String, serde_json::Value>,
    name: &str,
    value: i64,
)
    ensures
        object_members(*final(object)) == object_members(*old(object)).insert(
            name@,
            JsonMember::Number(value),
        ),
{
    object.insert(name.to_owned(), serde_json::Value::from(value));
}

/// `serde_json::to_string` of an object: its JSON text, which depends on nothing but the
/// members, and from which they can be read again: no other texts and numbers are written
/// as the same text. An object of texts and numbers can always be written.
#[verifier::external_body]
pub(crate) fn object_to_string(object: &serde_json::Map<String, serde_json::Value>) -> (text:
    String)
    requires
        writable(object_members(*object)),
    ensures
        text@ == json_text(object_members(*object)),
        forall|members: JsonMembers|
            writable(members) && #[trigger] json_text(members) == text@ ==> members
                == object_members(*object),
{
    serde_json::to_string(object).unwrap()
}

/// The members of a request.
pub open spec fn request_members(request: Request) -> JsonMembers {
    match request {
        Request::UpdateCapacity { diff } => map![
            "type"@ => JsonMember::Text("update_capacity"@),
            "diff"@ => JsonMember::Number(diff),
        ],
        Request::DropClient { client_id } => map![
            "type"@ => JsonMember::Text("drop_client"@),
            "clientId"@ => JsonMember::Text(client_id@),
        ],
        Request::ConfirmClient { client_id, url } => map![
            "type"@ => JsonMember::Text("confirm_client"@),
            "clientId"@ => JsonMember::Text(client_id@),
            "url"@ => JsonMember::Text(url@),
        ],
        Request::Ping => map!["type"@ => JsonMember::Text("ping"@)],
    }
}

/// The members of a request are texts and numbers.
proof fn lemma_requests_are_writable(request: Request)
    ensures
        writable(request_members(request)),
{
}

/// Whether two requests ask the same.
pub open spec fn same_request(a: Request, b: Request) -> bool {
    match (a, b) {
        (Request::UpdateCapacity { diff: x }, Request::UpdateCapacity { diff: y }) => x == y,
        (Request::DropClient { client_id: x }, Request::DropClient { client_id: y }) => x@ == y@,
        (
            Request::ConfirmClient { client_id: x, url: u },
            Request::ConfirmClient { client_id: y, url: v },
        ) => x@ == y@ && u@ == v@,
        (Request::Ping, Request::Ping) => true,
        _ => false,
    }
}

/// The names of members differ.
proof fn lemma_member_names()
    ensures
        "type"@ != "diff"@,
        "type"@ != "clientId"@,
        "type"@ != "url"@,
        "clientId"@ != "url"@,
{
    reveal_strlit("type");
    reveal_strlit("diff");
    reveal_strlit("clientId");
    reveal_strlit("url");
    assert("type"@[0] != "diff"@[0]);
    assert("clientId"@.len() == 8 && "url"@.len() == 3);
}

/// The kinds of requests differ in their names.
proof fn lemma_request_kinds()
    ensures
        "update_capacity"@.len() == 15,
        "drop_client"@.len() == 11,
        "confirm_client"@.len() == 14,
        "ping"@.len() == 4,
{
    reveal_strlit("update_capacity");
    reveal_strlit("drop_client");
    reveal_strlit("confirm_client");
    reveal_strlit("ping");
}

/// Requests that do not ask the same differ in their members.
pub proof fn law_members_tell_requests_apart(a: Request, b: Request)
    requires
        request_members(a) == request_members(b),
    ensures
        same_request(a, b),
{
    lemma_member_names();
    lemma_request_kinds();
    let (left, right) = (request_members(a), request_members(b));
    assert(left["type"@]->Text_0.len() == right["type"@]->Text_0.len());
    match (a, b) {
        (Request::UpdateCapacity { diff: x }, Request::UpdateCapacity { diff: y }) => {
            assert(left["diff"@] == JsonMember::Number(x));
            assert(right["diff"@] == JsonMember::Number(y));
        },
        (Request::DropClient { client_id: x }, Request::DropClient { client_id: y }) => {
            assert(left["clientId"@] == JsonMember::Text(x@));
            assert(right["clientId"@] == JsonMember::Text(y@));
        },
        (
            Request::ConfirmClient { client_id: x, url: u },
            Request::ConfirmClient { client_id: y, url: v },
        ) => {
            assert(left["clientId"@] == JsonMember::Text(x@));
            assert(right["clientId"@] == JsonMember::Text(y@));
            assert(left["url"@] == JsonMember::Text(u@));
            assert(right["url"@] == JsonMember::Text(v@));
        },
        _ => {},
    }
}

impl Request {
    /// The request as it is sent. No other request is sent as the same text.
    pub fn text(&self) -> (text: String)
        ensures
            text@ == json_text(request_members(*self)),
            forall|other: Request|
                json_text(#[trigger] request_members(other)) == text@ ==> same_request(
                    *self,
                    other,
                ),
    {
        let mut object = object_new();
        match self {
            Request::UpdateCapacity { diff } => {
                object_insert_text(&mut object, "type", "update_capacity");
                object_insert_number(&mut object, "diff", *diff);
            },
            Request::DropClient { client_id } => {
                object_insert_text(&mut object, "type", "drop_client");
                object_insert_text(&mut object, "clientId", client_id);
            },
            Request::ConfirmClient { client_id, url } => {
                object_insert_text(&mut object, "type", "confirm_client");
                object_insert_text(&mut object, "clientId", client_id);
                object_insert_text(&mut object, "url", url);
            },
            Request::Ping => {
                object_insert_text(&mut object, "type", "ping");
            },
        }
        assert(object_members(object) =~= request_members(*self));
        proof {
            lemma_requests_are_writable(*self);
        }
        let text = object_to_string(&object);
        proof {
            assert forall|other: Request| json_text(#[trigger] request_members(other))
                == text@ implies same_request(*self, other) by {
                lemma_requests_are_writable(other);
                law_members_tell_requests_apart(*self, other);
            }
        }
        text
    }
}

/// A request says what it is and bears what it is about, each under its name, and nothing
/// else.
pub proof fn law_requests_bear_what_they_are_about(request: Request)
    ensures
        ({
            let members = request_members(request);
            match request {
                Request::UpdateCapacity { diff } => {
                    &&& members["type"@] == JsonMember::Text("update_capacity"@)
                    &&& members["diff"@] == JsonMember::Number(diff)
                    &&& forall|name: Seq<char>| #[trigger]
                        members.dom().contains(name) <==> name == "type"@ || name == "diff"@
                },
                Request::DropClient { client_id } => {
                    &&& members["type"@] == JsonMember::Text("drop_client"@)
                    &&& members["clientId"@] == JsonMember::Text(client_id@)
                    &&& forall|name: Seq<char>| #[trigger]
                        members.dom().contains(name) <==> name == "type"@ || name == "clientId"@
                },
                Request::ConfirmClient { client_id, url } => {
                    &&& members["type"@] == JsonMember::Text("confirm_client"@)
                    &&& members["clientId"@] == JsonMember::Text(client_id@)
                    &&& members["url"@] == JsonMember::Text(url@)
                    &&& forall|name: Seq<char>| #[trigger]
                        members.dom().contains(name) <==> name == "type"@ || name == "clientId"@
                            || name == "url"@
                },
                Request::Ping => {
                    &&& members["type"@] == JsonMember::Text("ping"@)
                    &&& forall|name: Seq<char>| #[trigger]
                        members.dom().contains(name) <==> name == "type"@
                },
            }
        }),
{
    lemma_member_names();
}

/// Two requests ask the same exactly if they have the same members.
pub proof fn law_same_requests_have_the_same_members(a: Request, b: Request)
    ensures
        same_request(a, b) <==> request_members(a) == request_members(b),
{
    if request_members(a) == request_members(b) {
        law_members_tell_requests_apart(a, b);
    }
}

} // verus!
