//! The route registry: a data-driven table binding each endpoint's method
//! and path to how its input arrives and which handler serves it. A generic
//! dispatcher consumes the table; nothing here performs I/O.

use vstd::prelude::*;
use vstd::string::StringExecFns;

verus! {

#[derive(Debug, Clone, Copy, PartialEq, Eq, Structural)]
pub enum HttpMethod {
    Get,
    Post,
}

/// Where an endpoint's input comes from.
#[derive(Debug, Clone, Copy, PartialEq, Eq, Structural)]
pub enum ParamSource {
    /// No input beyond the path.
    NoInput,
    /// One typed path segment.
    PathSegment,
    /// A typed query string.
    QueryString,
    /// A typed JSON body.
    JsonBody,
}

/// The operation an endpoint performs, one per endpoint.
#[derive(Debug, Clone, Copy, PartialEq, Eq, Structural)]
pub enum EndpointHandler {
    RefreshQrcode,
    IsLogin,
    GetSelfWxid,
    GetUserInfo,
    GetContacts,
    GetDbs,
    GetTables,
    GetMsgTypes,
    RefreshPyq,
    SendText,
    SendImage,
    SendFile,
    SendRichText,
    SendPatMsg,
    ForwardMsg,
    SaveAudio,
    SaveImage,
    SaveFile,
    RecvTransfer,
    QuerySql,
    AcceptNewFriend,
    AddChatroomMember,
    InviteChatroomMember,
    DeleteChatroomMember,
    RevokeMsg,
    QueryRoomMember,
    DownloadImage,
    DownloadFile,
}

/// One row of the route table.
pub struct RouteDescriptor {
    pub method: HttpMethod,
    pub path: String,
    pub source: ParamSource,
    pub handler: EndpointHandler,
}

/// Mathematical model of a [`RouteDescriptor`].
pub struct RouteDescriptorV {
    pub method: HttpMethod,
    pub path: Seq<char>,
    pub source: ParamSource,
    pub handler: EndpointHandler,
}

impl View for RouteDescriptor {
    type V = RouteDescriptorV;

    open spec fn view(&self) -> RouteDescriptorV {
        RouteDescriptorV {
            method: self.method,
            path: self.path@,
            source: self.source,
            handler: self.handler,
        }
    }
}

/// The whole route table: every endpoint the gateway serves, in declaration
/// order.
pub open spec fn route_table_spec() -> Seq<RouteDescriptorV> {
    seq![
        RouteDescriptorV { method: HttpMethod::Get, path: "qrcode"@, source: ParamSource::NoInput, handler: EndpointHandler::RefreshQrcode },
        RouteDescriptorV { method: HttpMethod::Get, path: "islogin"@, source: ParamSource::NoInput, handler: EndpointHandler::IsLogin },
        RouteDescriptorV { method: HttpMethod::Get, path: "selfwxid"@, source: ParamSource::NoInput, handler: EndpointHandler::GetSelfWxid },
        RouteDescriptorV { method: HttpMethod::Get, path: "userinfo"@, source: ParamSource::NoInput, handler: EndpointHandler::GetUserInfo },
        RouteDescriptorV { method: HttpMethod::Get, path: "contacts"@, source: ParamSource::NoInput, handler: EndpointHandler::GetContacts },
        RouteDescriptorV { method: HttpMethod::Get, path: "dbs"@, source: ParamSource::NoInput, handler: EndpointHandler::GetDbs },
        RouteDescriptorV { method: HttpMethod::Get, path: "tables"@, source: ParamSource::PathSegment, handler: EndpointHandler::GetTables },
        RouteDescriptorV { method: HttpMethod::Get, path: "msg-types"@, source: ParamSource::NoInput, handler: EndpointHandler::GetMsgTypes },
        RouteDescriptorV { method: HttpMethod::Get, path: "pyq"@, source: ParamSource::QueryString, handler: EndpointHandler::RefreshPyq },
        RouteDescriptorV { method: HttpMethod::Post, path: "text"@, source: ParamSource::JsonBody, handler: EndpointHandler::SendText },
        RouteDescriptorV { method: HttpMethod::Post, path: "image"@, source: ParamSource::JsonBody, handler: EndpointHandler::SendImage },
        RouteDescriptorV { method: HttpMethod::Post, path: "file"@, source: ParamSource::JsonBody, handler: EndpointHandler::SendFile },
        RouteDescriptorV { method: HttpMethod::Post, path: "rich-text"@, source: ParamSource::JsonBody, handler: EndpointHandler::SendRichText },
        RouteDescriptorV { method: HttpMethod::Post, path: "pat"@, source: ParamSource::JsonBody, handler: EndpointHandler::SendPatMsg },
        RouteDescriptorV { method: HttpMethod::Post, path: "forward-msg"@, source: ParamSource::JsonBody, handler: EndpointHandler::ForwardMsg },
        RouteDescriptorV { method: HttpMethod::Post, path: "audio"@, source: ParamSource::JsonBody, handler: EndpointHandler::SaveAudio },
        RouteDescriptorV { method: HttpMethod::Post, path: "save-image"@, source: ParamSource::JsonBody, handler: EndpointHandler::SaveImage },
        RouteDescriptorV { method: HttpMethod::Post, path: "save-file"@, source: ParamSource::JsonBody, handler: EndpointHandler::SaveFile },
        RouteDescriptorV { method: HttpMethod::Post, path: "receive-transfer"@, source: ParamSource::JsonBody, handler: EndpointHandler::RecvTransfer },
        RouteDescriptorV { method: HttpMethod::Post, path: "sql"@, source: ParamSource::JsonBody, handler: EndpointHandler::QuerySql },
        RouteDescriptorV { method: HttpMethod::Post, path: "accept-new-friend"@, source: ParamSource::JsonBody, handler: EndpointHandler::AcceptNewFriend },
        RouteDescriptorV { method: HttpMethod::Post, path: "add-chatroom-member"@, source: ParamSource::JsonBody, handler: EndpointHandler::AddChatroomMember },
        RouteDescriptorV { method: HttpMethod::Post, path: "invite-chatroom-member"@, source: ParamSource::JsonBody, handler: EndpointHandler::InviteChatroomMember },
        RouteDescriptorV { method: HttpMethod::Post, path: "delete-chatroom-member"@, source: ParamSource::JsonBody, handler: EndpointHandler::DeleteChatroomMember },
        RouteDescriptorV { method: HttpMethod::Post, path: "revoke-msg"@, source: ParamSource::QueryString, handler: EndpointHandler::RevokeMsg },
        RouteDescriptorV { method: HttpMethod::Get, path: "query-room-member"@, source: ParamSource::QueryString, handler: EndpointHandler::QueryRoomMember },
        RouteDescriptorV { method: HttpMethod::Get, path: "download-image"@, source: ParamSource::QueryString, handler: EndpointHandler::DownloadImage },
        RouteDescriptorV { method: HttpMethod::Get, path: "download-file"@, source: ParamSource::QueryString, handler: EndpointHandler::DownloadFile },
    ]
}

fn entry(method: HttpMethod, path: &str, source: ParamSource, handler: EndpointHandler) -> (d:
    RouteDescriptor)
    ensures
        d@ == (RouteDescriptorV { method, path: path@, source, handler }),
{
    RouteDescriptor { method, path: String::from_str(path), source, handler }
}

/// Builds the route table, exactly as [`route_table_spec`] lays it out.
pub fn route_table() -> (table: Vec<RouteDescriptor>)
    ensures
        table@.map_values(|d: RouteDescriptor| d@) == route_table_spec(),
{
    let mut t: Vec<RouteDescriptor> = Vec::new();
    t.push(entry(HttpMethod::Get, "qrcode", ParamSource::NoInput, EndpointHandler::RefreshQrcode));
    t.push(entry(HttpMethod::Get, "islogin", ParamSource::NoInput, EndpointHandler::IsLogin));
    t.push(entry(HttpMethod::Get, "selfwxid", ParamSource::NoInput, EndpointHandler::GetSelfWxid));
    t.push(entry(HttpMethod::Get, "userinfo", ParamSource::NoInput, EndpointHandler::GetUserInfo));
    t.push(entry(HttpMethod::Get, "contacts", ParamSource::NoInput, EndpointHandler::GetContacts));
    t.push(entry(HttpMethod::Get, "dbs", ParamSource::NoInput, EndpointHandler::GetDbs));
    t.push(entry(HttpMethod::Get, "tables", ParamSource::PathSegment, EndpointHandler::GetTables));
    t.push(entry(HttpMethod::Get, "msg-types", ParamSource::NoInput, EndpointHandler::GetMsgTypes));
    t.push(entry(HttpMethod::Get, "pyq", ParamSource::QueryString, EndpointHandler::RefreshPyq));
    t.push(entry(HttpMethod::Post, "text", ParamSource::JsonBody, EndpointHandler::SendText));
    t.push(entry(HttpMethod::Post, "image", ParamSource::JsonBody, EndpointHandler::SendImage));
    t.push(entry(HttpMethod::Post, "file", ParamSource::JsonBody, EndpointHandler::SendFile));
    t.push(entry(HttpMethod::Post, "rich-text", ParamSource::JsonBody, EndpointHandler::SendRichText));
    t.push(entry(HttpMethod::Post, "pat", ParamSource::JsonBody, EndpointHandler::SendPatMsg));
    t.push(entry(HttpMethod::Post, "forward-msg", ParamSource::JsonBody, EndpointHandler::ForwardMsg));
    t.push(entry(HttpMethod::Post, "audio", ParamSource::JsonBody, EndpointHandler::SaveAudio));
    t.push(entry(HttpMethod::Post, "save-image", ParamSource::JsonBody, EndpointHandler::SaveImage));
    t.push(entry(HttpMethod::Post, "save-file", ParamSource::JsonBody, EndpointHandler::SaveFile));
    t.push(entry(HttpMethod::Post, "receive-transfer", ParamSource::JsonBody, EndpointHandler::RecvTransfer));
    t.push(entry(HttpMethod::Post, "sql", ParamSource::JsonBody, EndpointHandler::QuerySql));
    t.push(entry(HttpMethod::Post, "accept-new-friend", ParamSource::JsonBody, EndpointHandler::AcceptNewFriend));
    t.push(entry(HttpMethod::Post, "add-chatroom-member", ParamSource::JsonBody, EndpointHandler::AddChatroomMember));
    t.push(entry(HttpMethod::Post, "invite-chatroom-member", ParamSource::JsonBody, EndpointHandler::InviteChatroomMember));
    t.push(entry(HttpMethod::Post, "delete-chatroom-member", ParamSource::JsonBody, EndpointHandler::DeleteChatroomMember));
    t.push(entry(HttpMethod::Post, "revoke-msg", ParamSource::QueryString, EndpointHandler::RevokeMsg));
    t.push(entry(HttpMethod::Get, "query-room-member", ParamSource::QueryString, EndpointHandler::QueryRoomMember));
    t.push(entry(HttpMethod::Get, "download-image", ParamSource::QueryString, EndpointHandler::DownloadImage));
    t.push(entry(HttpMethod::Get, "download-file", ParamSource::QueryString, EndpointHandler::DownloadFile));
    proof {
        assert(t@.map_values(|d: RouteDescriptor| d@) =~= route_table_spec());
    }
    t
}

/// This row serves the request.
pub open spec fn route_matches(d: RouteDescriptorV, method: HttpMethod, path: Seq<char>) -> bool {
    d.method == method && d.path == path
}

/// Looks a request up in the table: the first matching row, or none.
pub fn find_route(table: &Vec<RouteDescriptor>, method: HttpMethod, path: &str) -> (r: Option<
    usize,
>)
    ensures
        match r {
            Some(i) => i < table@.len() && route_matches(table@[i as int]@, method, path@)
                && (forall|j: int| 0 <= j < i ==> !route_matches(
                (#[trigger] table@[j])@,
                method,
                path@,
            )),
            None => forall|j: int| 0 <= j < table@.len() ==> !route_matches(
                (#[trigger] table@[j])@,
                method,
                path@,
            ),
        },
{
    let n = table.len();
    let mut i: usize = 0;
    while i < n
        invariant
            0 <= i <= n,
            n == table@.len(),
            forall|j: int| 0 <= j < i ==> !route_matches((#[trigger] table@[j])@, method, path@),
        decreases n - i,
    {
        let d = &table[i];
        let method_hit = d.method == method;
        let path_hit = crate::media::str_eq_chars(d.path.as_str(), path);
        if method_hit && path_hit {
            return Some(i);
        }
        i = i + 1;
    }
    None
}

} // verus!
