//! Messages exchanged with the AI agent: requests, responses and notifications.
use vstd::prelude::*;
use crate::types::RecipeInfo;

verus! {

#[derive(Debug, Clone)]
pub struct ConnectionConfiguration {
    pub server_endpoint: String,
    pub access_token: String,
    pub custom_headers: Vec<(String, String)>,
}

#[derive(Debug, Clone, Copy, PartialEq, Eq, Structural)]
pub enum CompletionCapabilities {
    /// No completion support.
    Disabled,
}

#[derive(Debug, Clone, Copy, PartialEq, Eq, Structural)]
pub enum ChatCapabilities {
    /// No chat support.
    Disabled,
    Streaming,
}

#[derive(Debug, Clone, Copy, PartialEq, Eq, Structural)]
pub struct ClientCapabilities {
    pub completions: Option<CompletionCapabilities>,
    /// With `Streaming`, the client handles streamed chat updates.
    pub chat: Option<ChatCapabilities>,
}

/// What the client tells the agent about itself when it starts.
#[derive(Debug, Clone)]
pub struct ClientInfo {
    pub name: String,
    pub version: String,
    pub workspace_root_path: String,
    pub connection_configuration: Option<ConnectionConfiguration>,
    pub capabilities: Option<ClientCapabilities>,
}

/// The method of a request to the agent, with its parameters.
#[derive(Debug, Clone)]
pub enum RequestMethods {
    Initialize(ClientInfo),
    Shutdown,
    RecipesList,
    RecipesExecute { id: String, human_chat_input: String },
}

#[derive(Debug, Clone)]
pub struct Request {
    pub id: usize,
    pub params: RequestMethods,
}

#[derive(Debug, Clone)]
pub struct ServerInfo {
    pub name: String,
}

#[derive(Debug, Clone)]
pub enum ResponseTypes {
    ServerInfo(ServerInfo),
    Recipes(Vec<RecipeInfo>),
    Null,
}

#[derive(Debug, Clone)]
pub struct Response {
    pub id: usize,
    pub result: ResponseTypes,
}

#[derive(Debug, Clone, Copy, PartialEq, Eq, Structural)]
pub enum ChatSpeaker {
    Human,
    Assistant,
}

#[derive(Debug, Clone)]
pub struct ContextFile {
    pub file_name: String,
    pub repo_name: Option<String>,
    pub revision: Option<String>,
}

#[derive(Debug, Clone)]
pub struct ChatMessage {
    pub speaker: ChatSpeaker,
    pub text: Option<String>,
    pub display_text: Option<String>,
    pub context_files: Option<Vec<ContextFile>>,
}

#[derive(Debug, Clone)]
pub enum Notification {
    UpdateChat(Option<ChatMessage>),
}

/// Anything that travels between the client and the agent.
#[derive(Debug, Clone)]
pub enum Message {
    Request(Request),
    Response(Response),
    Notification(Notification),
}

#[derive(Debug, Clone, Copy, PartialEq, Eq, Structural)]
pub enum MessageKind {
    Request,
    Response,
    Notification,
}

pub open spec fn kind_of(m: Message) -> MessageKind {
    match m {
        Message::Request(_) => MessageKind::Request,
        Message::Response(_) => MessageKind::Response,
        Message::Notification(_) => MessageKind::Notification,
    }
}

/// Which of the fields `id` and `method` the encoding of a message carries.
pub open spec fn fields_of(m: Message) -> (bool, bool) {
    match m {
        Message::Request(_) => (true, true),
        Message::Response(_) => (true, false),
        Message::Notification(_) => (false, true),
    }
}

/// The variant that a message with these fields is: a `method` makes it a
/// request or a notification, as an `id` is there or not; an `id` alone makes
/// it a response.
pub open spec fn kind_from_fields(has_id: bool, has_method: bool) -> Option<MessageKind> {
    if has_method {
        if has_id {
            Some(MessageKind::Request)
        } else {
            Some(MessageKind::Notification)
        }
    } else if has_id {
        Some(MessageKind::Response)
    } else {
        None
    }
}

/// Tells the variant of an encoded message from the fields it carries, before
/// its body is decoded.
pub fn classify_fields(has_id: bool, has_method: bool) -> (r: Option<MessageKind>)
    ensures
        r == kind_from_fields(has_id, has_method),
{
    if has_method {
        if has_id {
            Some(MessageKind::Request)
        } else {
            Some(MessageKind::Notification)
        }
    } else if has_id {
        Some(MessageKind::Response)
    } else {
        None
    }
}

/// Every message is told apart correctly from the fields of its encoding.
pub proof fn lemma_fields_decide_kind(m: Message)
    ensures
        kind_from_fields(fields_of(m).0, fields_of(m).1) == Some(kind_of(m)),
{
}

/// `m` is the `initialize` request with this id, naming this client and
/// workspace, with no connection settings or capabilities.
pub open spec fn is_initialize(m: Message, id: usize, root: Seq<char>) -> bool {
    match m {
        Message::Request(req) => req.id == id && match req.params {
            RequestMethods::Initialize(info) => info.name@ == "neovim"@ && info.version@ == "v1"@
                && info.workspace_root_path@ == root && info.connection_configuration is None
                && info.capabilities is None,
            _ => false,
        },
        _ => false,
    }
}

/// The source of request ids for one process: each id is handed out once,
/// in increasing order, until they run out.
pub struct RequestIds {
    next: usize,
}

/// Going from counter state `before` to `after` issued `id`.
pub open spec fn issued(before: RequestIds, after: RequestIds, id: usize) -> bool {
    id == before.next_id() && after.next_id() == id + 1
}

/// The counter had no id left: it stays as it was.
pub open spec fn exhausted(before: RequestIds, after: RequestIds) -> bool {
    before.next_id() == usize::MAX && after == before
}

impl RequestIds {
    /// The id that the next request gets.
    pub closed spec fn next_id(&self) -> usize {
        self.next
    }

    pub fn new() -> (r: RequestIds)
        ensures
            r.next_id() == 0,
    {
        RequestIds { next: 0 }
    }

    pub fn issue(&mut self) -> (r: Option<usize>)
        ensures
            r matches Some(id) ==> issued(*old(self), *final(self), id),
            r is None ==> exhausted(*old(self), *final(self)),
    {
        if self.next == usize::MAX {
            None
        } else {
            let id = self.next;
            self.next = id + 1;
            Some(id)
        }
    }
}

/// Ids issued one after another by the same counter increase, so none is
/// handed out twice.
pub proof fn lemma_ids_increase(a: RequestIds, b: RequestIds, c: RequestIds, first: usize, second: usize)
    requires
        issued(a, b, first),
        issued(b, c, second),
    ensures
        first < second,
        c.next_id() > second,
{
}

impl Request {
    /// A request with the next id of `ids`; `None` once the ids ran out.
    pub fn new(ids: &mut RequestIds, params: RequestMethods) -> (r: Option<Request>)
        ensures
            r matches Some(req) ==> issued(*old(ids), *final(ids), req.id) && req.params == params,
            r is None ==> exhausted(*old(ids), *final(ids)),
    {
        match ids.issue() {
            Some(id) => Some(Request { id, params }),
            None => None,
        }
    }
}

impl Message {
    pub fn new_request(ids: &mut RequestIds, request_type: RequestMethods) -> (r: Option<Message>)
        ensures
            r matches Some(m) ==> m == Message::Request(Request { id: old(ids).next_id(), params: request_type })
                && issued(*old(ids), *final(ids), old(ids).next_id()),
            r is None ==> exhausted(*old(ids), *final(ids)),
    {
        match Request::new(ids, request_type) {
            Some(req) => Some(Message::Request(req)),
            None => None,
        }
    }

    /// The request that opens a session with the agent, with the next id of
    /// `ids`.
    pub fn initialize(ids: &mut RequestIds, workspace_root_path: String) -> (r: Option<Message>)
        ensures
            r matches Some(m) ==> is_initialize(m, old(ids).next_id(), workspace_root_path@) && issued(
                *old(ids),
                *final(ids),
                old(ids).next_id(),
            ),
            r is None ==> exhausted(*old(ids), *final(ids)),
    {
        let info = ClientInfo {
            name: String::from_str("neovim"),
            version: String::from_str("v1"),
            workspace_root_path,
            connection_configuration: None,
            capabilities: None,
        };
        match Request::new(ids, RequestMethods::Initialize(info)) {
            Some(req) => Some(Message::Request(req)),
            None => None,
        }
    }

    pub fn kind(&self) -> (r: MessageKind)
        ensures
            r == kind_of(*self),
    {
        match self {
            Message::Request(_) => MessageKind::Request,
            Message::Response(_) => MessageKind::Response,
            Message::Notification(_) => MessageKind::Notification,
        }
    }
}

} // verus!
