//! The state of a client of one MCP server: its connection and the ids of its
//! JSON-RPC requests.
use vstd::prelude::*;
use crate::cli_error::McpCliError;
use crate::config::ServerConfig;
use crate::json::{json_quoted, quote};
use crate::text::{join2, owned};

verus! {

/// Whether the server is connected.
#[derive(Debug, Clone, Copy, PartialEq, Eq)]
pub enum ServerStatus {
    Disconnected,
    Connected,
}

/// A configured server and its status.
#[derive(Debug, Clone)]
pub struct Server {
    pub config: ServerConfig,
    pub status: ServerStatus,
}

/// The id of a JSON-RPC request.
#[derive(Debug, Clone, PartialEq, Eq)]
pub enum RpcId {
    Number(u64),
    Text(String),
}

/// A JSON-RPC request; `params` as JSON text.
#[derive(Debug, Clone)]
pub struct RpcRequest {
    pub jsonrpc: String,
    pub id: RpcId,
    pub method: String,
    pub params: Option<String>,
}

/// A JSON-RPC error.
#[derive(Debug, Clone)]
pub struct RpcError {
    pub code: i32,
    pub message: String,
}

/// A JSON-RPC response; `result` as JSON text.
#[derive(Debug, Clone)]
pub struct RpcResponse {
    pub jsonrpc: String,
    pub id: RpcId,
    pub result: Option<String>,
    pub error: Option<RpcError>,
}

/// A response with the id of the request it answers.
#[derive(Debug)]
pub struct McpResponse {
    pub request_id: RpcId,
    pub response: RpcResponse,
}

/// An event of a connection; a received message as JSON text.
#[derive(Debug, Clone)]
pub enum McpEvent {
    Connected { server_name: String },
    Disconnected { server_name: String, reason: String },
    Error { server_name: String, error: String },
    MessageReceived { server_name: String, message: String },
}

/// How a client reaches its server.
#[derive(Debug, Clone, PartialEq, Eq)]
pub enum ConnectTarget {
    /// Over HTTP at this URL.
    Http(String),
    /// Through a process started with this command.
    Stdio(String),
}

/// The client of one MCP server.
pub struct McpClient {
    pub server: Server,
    /// The id the next request gets.
    pub next_id: u64,
    pub is_connected: bool,
}

impl McpClient {
    /// A client of `server_config`, not connected, whose first request gets
    /// the id 1.
    pub fn from_config(server_config: Server) -> (c: Self)
        ensures
            c.server == server_config,
            c.next_id == 1,
            !c.is_connected,
    {
        McpClient { server: server_config, next_id: 1, is_connected: false }
    }

    /// Where to connect: the configured URL over HTTP, else the configured
    /// command over standard I/O, `mcp-server` when none is configured.
    pub fn connect_target(&self) -> (r: ConnectTarget)
        ensures
            match self.server.config.url {
                Some(u) => r matches ConnectTarget::Http(x) && x@ == u@,
                None => r matches ConnectTarget::Stdio(c) && c@ == match self.server.config.stdio_command {
                    Some(cmd) => cmd@,
                    None => "mcp-server"@,
                },
            },
    {
        match &self.server.config.url {
            Some(u) => ConnectTarget::Http(u.clone()),
            None => match &self.server.config.stdio_command {
                Some(c) => ConnectTarget::Stdio(c.clone()),
                None => ConnectTarget::Stdio(owned("mcp-server")),
            },
        }
    }

    fn mark_connected(&mut self)
        ensures
            final(self).is_connected,
            final(self).server.status == ServerStatus::Connected,
            final(self).server.config == old(self).server.config,
            final(self).next_id == old(self).next_id,
    {
        self.is_connected = true;
        self.server.status = ServerStatus::Connected;
    }

    /// Finish an HTTP connection attempt with the answer to a plain GET of the
    /// URL: a success status connects; another gives `HTTP <status>: <body>`.
    pub fn finish_http_connect(&mut self, success: bool, status: &str, body: &str) -> (r: Result<(), McpCliError>)
        ensures
            success ==> r is Ok && final(self).is_connected && final(self).server.status == ServerStatus::Connected,
            !success ==> (r matches Err(McpCliError::Http(m)) && m@ == "HTTP "@ + status@ + ": "@ + body@)
                && final(self).is_connected == old(self).is_connected && final(self).server.status
                == old(self).server.status,
            final(self).server.config == old(self).server.config,
            final(self).next_id == old(self).next_id,
    {
        if !success {
            let mut m = join2("HTTP ", status);
            m.append(": ");
            m.append(body);
            return Err(McpCliError::Http(m));
        }
        self.mark_connected();
        Ok(())
    }

    /// Connect over standard I/O; the connection is taken as made.
    pub fn connect_stdio(&mut self) -> (r: Result<(), McpCliError>)
        ensures
            r is Ok,
            final(self).is_connected,
            final(self).server.status == ServerStatus::Connected,
            final(self).server.config == old(self).server.config,
            final(self).next_id == old(self).next_id,
    {
        self.mark_connected();
        Ok(())
    }

    /// Disconnect from the server.
    pub fn disconnect(&mut self) -> (r: Result<(), McpCliError>)
        ensures
            r is Ok,
            !final(self).is_connected,
            final(self).server.status == ServerStatus::Disconnected,
            final(self).server.config == old(self).server.config,
            final(self).next_id == old(self).next_id,
    {
        self.is_connected = false;
        self.server.status = ServerStatus::Disconnected;
        Ok(())
    }

    /// The id for the next request; each call gives the next number.
    pub fn next_id(&mut self) -> (r: RpcId)
        requires
            old(self).next_id < u64::MAX,
        ensures
            r == RpcId::Number(old(self).next_id),
            final(self).next_id == old(self).next_id + 1,
            final(self).server == old(self).server,
            final(self).is_connected == old(self).is_connected,
            id_step(*old(self), *final(self), r),
    {
        let id = self.next_id;
        self.next_id = self.next_id + 1;
        RpcId::Number(id)
    }

    fn build_request(&mut self, method: &str, params: String) -> (r: RpcRequest)
        requires
            old(self).next_id < u64::MAX,
        ensures
            r.jsonrpc@ == "2.0"@,
            r.id == RpcId::Number(old(self).next_id),
            r.method@ == method@,
            r.params matches Some(p) && p@ == params@,
            final(self).next_id == old(self).next_id + 1,
            final(self).server == old(self).server,
            final(self).is_connected == old(self).is_connected,
    {
        let id = self.next_id();
        RpcRequest { jsonrpc: owned("2.0"), id, method: owned(method), params: Some(params) }
    }

    /// The `initialize` request, with the JSON text `params`.
    pub fn initialize_request(&mut self, params: String) -> (r: RpcRequest)
        requires
            old(self).next_id < u64::MAX,
        ensures
            r.id == RpcId::Number(old(self).next_id),
            r.method@ == "initialize"@,
            r.params matches Some(p) && p@ == params@,
            final(self).next_id == old(self).next_id + 1,
            final(self).server == old(self).server,
            final(self).is_connected == old(self).is_connected,
    {
        self.build_request("initialize", params)
    }

    /// The `resources/list` request.
    pub fn list_resources_request(&mut self) -> (r: RpcRequest)
        requires
            old(self).next_id < u64::MAX,
        ensures
            r.id == RpcId::Number(old(self).next_id),
            r.method@ == "resources/list"@,
            r.params matches Some(p) && p@ == "{}"@,
            final(self).next_id == old(self).next_id + 1,
            final(self).server == old(self).server,
            final(self).is_connected == old(self).is_connected,
    {
        self.build_request("resources/list", owned("{}"))
    }

    /// The `resources/read` request for `uri`.
    pub fn read_resource_request(&mut self, uri: &str) -> (r: RpcRequest)
        requires
            old(self).next_id < u64::MAX,
        ensures
            r.id == RpcId::Number(old(self).next_id),
            r.method@ == "resources/read"@,
            r.params matches Some(p) && p@ == "{\"uri\":"@ + json_quoted(uri@) + "}"@,
            final(self).next_id == old(self).next_id + 1,
            final(self).server == old(self).server,
            final(self).is_connected == old(self).is_connected,
    {
        let q = quote(uri);
        let mut p = join2("{\"uri\":", q.as_str());
        p.append("}");
        self.build_request("resources/read", p)
    }

    /// The `tools/list` request.
    pub fn list_tools_request(&mut self) -> (r: RpcRequest)
        requires
            old(self).next_id < u64::MAX,
        ensures
            r.id == RpcId::Number(old(self).next_id),
            r.method@ == "tools/list"@,
            r.params matches Some(p) && p@ == "{}"@,
            final(self).next_id == old(self).next_id + 1,
            final(self).server == old(self).server,
            final(self).is_connected == old(self).is_connected,
    {
        self.build_request("tools/list", owned("{}"))
    }

    /// The `tools/invoke` request for the tool `name` with the JSON text
    /// `arguments`.
    pub fn invoke_tool_request(&mut self, name: &str, arguments: &str) -> (r: RpcRequest)
        requires
            old(self).next_id < u64::MAX,
        ensures
            r.id == RpcId::Number(old(self).next_id),
            r.method@ == "tools/invoke"@,
            r.params matches Some(p) && p@ == "{\"arguments\":"@ + arguments@ + ",\"name\":"@ + json_quoted(name@)
                + "}"@,
            final(self).next_id == old(self).next_id + 1,
            final(self).server == old(self).server,
            final(self).is_connected == old(self).is_connected,
    {
        let q = quote(name);
        let mut p = join2("{\"arguments\":", arguments);
        p.append(",\"name\":");
        p.append(q.as_str());
        p.append("}");
        self.build_request("tools/invoke", p)
    }

    /// The answer a request gets while no transport is attached: the same
    /// id, no result and no error.
    pub fn send_request(&self, request: RpcRequest) -> (r: RpcResponse)
        ensures
            r.jsonrpc@ == "2.0"@,
            r.id == request.id,
            r.result is None,
            r.error is None,
    {
        RpcResponse { jsonrpc: owned("2.0"), id: request.id, result: None, error: None }
    }
}

/// Builds a client for interactive use.
pub struct ClientBuilder {
    pub server_config: Server,
}

impl ClientBuilder {
    pub fn new(server_config: Server) -> (b: Self)
        ensures
            b.server_config == server_config,
    {
        ClientBuilder { server_config }
    }

    /// The client of the configured server.
    pub fn build(self) -> (c: Result<McpClient, McpCliError>)
        ensures
            c matches Ok(client) && client.server == self.server_config && client.next_id == 1
                && !client.is_connected,
    {
        Ok(McpClient::from_config(self.server_config))
    }
}

/// One call of `next_id`: the id handed out is the counter before the call,
/// the counter moves on by one, and nothing else changes.
pub open spec fn id_step(before: McpClient, after: McpClient, id: RpcId) -> bool {
    &&& id == RpcId::Number(before.next_id)
    &&& after.next_id == before.next_id + 1
    &&& after.server == before.server
    &&& after.is_connected == before.is_connected
}

/// Successive calls of `next_id` hand out successive numbers: after `k`
/// calls from a counter `n`, the `i`-th id is `n + i`, the counter is
/// `n + k`, and no two of the ids are equal.
pub proof fn lemma_successive_ids(states: Seq<McpClient>, ids: Seq<RpcId>)
    requires
        states.len() == ids.len() + 1,
        forall|i: int| 0 <= i < ids.len() ==> #[trigger] id_step(states[i], states[i + 1], ids[i]),
    ensures
        forall|i: int| 0 <= i < ids.len() ==> #[trigger] ids[i] == RpcId::Number((states[0].next_id + i) as u64),
        states.last().next_id == states[0].next_id + ids.len(),
        forall|i: int, j: int| 0 <= i < j < ids.len() ==> ids[i] != ids[j],
    decreases ids.len(),
{
    if ids.len() > 0 {
        let k = ids.len() - 1;
        let s2 = states.drop_last();
        let i2 = ids.drop_last();
        assert forall|i: int| 0 <= i < i2.len() implies #[trigger] id_step(s2[i], s2[i + 1], i2[i]) by {
            assert(id_step(states[i], states[i + 1], ids[i]));
        }
        lemma_successive_ids(s2, i2);
        assert(id_step(states[k], states[k + 1], ids[k]));
        assert(states[k] == s2.last());
        assert forall|i: int| 0 <= i < ids.len() implies #[trigger] ids[i] == RpcId::Number(
            (states[0].next_id + i) as u64,
        ) by {
            if i < k {
                assert(ids[i] == i2[i]);
            }
        }
        assert forall|i: int, j: int| 0 <= i < j < ids.len() implies ids[i] != ids[j] by {
            assert(ids[i] == RpcId::Number((states[0].next_id + i) as u64));
            assert(ids[j] == RpcId::Number((states[0].next_id + j) as u64));
            assert(states[0].next_id + j <= states.last().next_id);
        }
    }
}

} // verus!
