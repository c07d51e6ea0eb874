//! Clients of Model Context Protocol servers: the servers, whether each is connected,
//! the tools a connected server offers, and calls of those tools.

use vstd::prelude::*;
use crate::clock::{now_timestamp, MAX_TIMESTAMP};
use crate::error::AppError;
use crate::json::{json_null, json_text, json_value_of, parse_json};
use crate::keyed::restrict_where;
use crate::rbac::lists_map;
use crate::store::{filter_pred, record_entries, Record, RecordFilter, Store};
use crate::text::{concat3, push_str, str_eq, str_to_string};

verus! {

/// A tool a server offers. `schema` is the JSON schema of its arguments.
#[derive(Debug)]
pub struct McpTool {
    pub name: String,
    pub description: String,
    pub schema: serde_json::Value,
}

/// The value of a tool: its name and description.
pub open spec fn tool_view(t: McpTool) -> (Seq<char>, Seq<char>) {
    (t.name@, t.description@)
}

/// The values of some tools.
pub open spec fn tool_views(v: Seq<McpTool>) -> Seq<(Seq<char>, Seq<char>)> {
    v.map_values(|t: McpTool| tool_view(t))
}

impl McpTool {
    /// A copy of the tool.
    pub fn duplicate(&self) -> (r: Self)
        ensures
            tool_view(r) == tool_view(*self),
            r.schema == self.schema,
    {
        McpTool { name: self.name.clone(), description: self.description.clone(), schema: self.schema.clone() }
    }
}

fn clone_tools(v: &Vec<McpTool>) -> (r: Vec<McpTool>)
    ensures
        tool_views(r@) == tool_views(v@),
{
    let mut out: Vec<McpTool> = Vec::new();
    let mut i: usize = 0;
    while i < v.len()
        invariant
            i <= v@.len(),
            tool_views(out@) == tool_views(v@).take(i as int),
        decreases v.len() - i,
    {
        let ghost before = out@;
        out.push(v[i].duplicate());
        proof {
            assert(tool_views(out@) =~= tool_views(before).push(tool_view(v@[i as int])));
            assert(tool_views(v@).take(i + 1) =~= tool_views(v@).take(i as int).push(tool_view(v@[i as int])));
        }
        i = i + 1;
    }
    assert(tool_views(v@).take(v@.len() as int) =~= tool_views(v@));
    out
}

/// A server.
#[derive(Debug)]
pub struct McpServer {
    pub id: String,
    pub name: String,
    pub url: String,
    pub description: String,
    pub connected: bool,
    pub tools: Vec<McpTool>,
    pub created_at: i64,
}

/// The value of a server.
pub struct ServerView {
    pub id: Seq<char>,
    pub name: Seq<char>,
    pub url: Seq<char>,
    pub description: Seq<char>,
    pub connected: bool,
    pub tools: Seq<(Seq<char>, Seq<char>)>,
    pub created_at: i64,
}

impl View for McpServer {
    type V = ServerView;

    open spec fn view(&self) -> ServerView {
        ServerView {
            id: self.id@,
            name: self.name@,
            url: self.url@,
            description: self.description@,
            connected: self.connected,
            tools: tool_views(self.tools@),
            created_at: self.created_at,
        }
    }
}

impl Record for McpServer {
    open spec fn key_of(v: ServerView) -> Seq<char> {
        v.id
    }

    fn key(&self) -> (r: &str) {
        self.id.as_str()
    }

    fn duplicate(&self) -> (r: Self) {
        McpServer {
            id: self.id.clone(),
            name: self.name.clone(),
            url: self.url.clone(),
            description: self.description.clone(),
            connected: self.connected,
            tools: clone_tools(&self.tools),
            created_at: self.created_at,
        }
    }
}

/// A call of a server's tool. `arguments` is free-form JSON.
#[derive(Debug)]
pub struct McpToolCall {
    pub server_id: String,
    pub tool_name: String,
    pub arguments: serde_json::Value,
}

/// The tools a server offers once connected: a search and a fetch tool named after it.
pub open spec fn offered_tools(s: ServerView) -> Seq<(Seq<char>, Seq<char>)> {
    seq![(s.id + "_search"@, "Search using "@ + s.name), (s.id + "_fetch"@, "Fetch content using "@ + s.name)]
}

/// The JSON schema text of an object with one required string field.
pub open spec fn object_schema(field: Seq<char>, description: Seq<char>) -> Seq<char> {
    "{\"type\":\"object\",\"properties\":{\""@ + field + "\":{\"type\":\"string\",\"description\":\""@ + description
        + "\"}},\"required\":[\""@ + field + "\"]}"@
}

/// The JSON schema text of an object with one required string field.
pub fn object_schema_text(field: &str, description: &str) -> (r: String)
    ensures
        r@ == object_schema(field@, description@),
{
    let mut s = concat3("{\"type\":\"object\",\"properties\":{\"", field, "\":{\"type\":\"string\",\"description\":\"");
    push_str(&mut s, description);
    push_str(&mut s, "\"}},\"required\":[\"");
    push_str(&mut s, field);
    push_str(&mut s, "\"]}");
    s
}

fn schema_value(field: &str, description: &str) -> (r: serde_json::Value)
    ensures
        json_value_of(object_schema(field@, description@)) matches Some(v) ==> r == v,
{
    let text = object_schema_text(field, description);
    match parse_json(text.as_str()) {
        Some(v) => v,
        None => json_null(),
    }
}

fn tool(server_id: &str, suffix: &str, lead: &str, server_name: &str, field: &str, field_description: &str) -> (t: McpTool)
    ensures
        tool_view(t) == (server_id@ + suffix@, lead@ + server_name@),
        json_value_of(object_schema(field@, field_description@)) matches Some(v) ==> t.schema == v,
{
    let mut name = str_to_string(server_id);
    push_str(&mut name, suffix);
    let mut description = str_to_string(lead);
    push_str(&mut description, server_name);
    McpTool { name, description, schema: schema_value(field, field_description) }
}

/// Connected servers.
pub struct ConnectedServers;

impl RecordFilter<McpServer> for ConnectedServers {
    open spec fn holds(&self, v: ServerView) -> bool {
        v.connected
    }

    fn test(&self, r: &McpServer) -> (b: bool) {
        r.connected
    }
}

/// Connected servers.
pub open spec fn server_connected() -> spec_fn(ServerView) -> bool {
    |v: ServerView| v.connected
}

/// The servers' tool lists, one after another.
pub open spec fn all_tools(servers: Seq<ServerView>) -> Seq<(Seq<char>, Seq<char>)> {
    servers.map_values(|s: ServerView| s.tools).flatten()
}

/// Whether a server offers a tool named `name`.
pub open spec fn offers(s: ServerView, name: Seq<char>) -> bool {
    exists|i: int| 0 <= i < s.tools.len() && #[trigger] s.tools[i].0 == name
}

/// The servers, by id.
pub struct McpClient {
    servers: Store<McpServer>,
}

impl McpClient {
    /// The servers, by id.
    pub closed spec fn servers_view(&self) -> Map<Seq<char>, ServerView> {
        self.servers.view_map()
    }

    /// The client's invariant: each id is held once.
    pub closed spec fn wf(&self) -> bool {
        self.servers.wf()
    }

    /// No servers.
    pub fn new() -> (r: Self)
        ensures
            r.wf(),
            r.servers_view() == Map::<Seq<char>, ServerView>::empty(),
    {
        McpClient { servers: Store::new() }
    }

    /// Adds the server `id`, not connected, with no tools, at `now`, replacing any with
    /// that id.
    pub fn add_server_at(&mut self, id: String, name: String, url: String, description: String, now: i64) -> (r: Result<(), AppError>)
        requires
            old(self).wf(),
        ensures
            final(self).wf(),
            r is Ok,
            final(self).servers_view() == old(self).servers_view().insert(id@, ServerView {
                id: id@, name: name@, url: url@, description: description@, connected: false,
                tools: Seq::<(Seq<char>, Seq<char>)>::empty(), created_at: now,
            }),
    {
        let s = McpServer { id, name, url, description, connected: false, tools: Vec::new(), created_at: now };
        assert(s@.tools =~= Seq::<(Seq<char>, Seq<char>)>::empty());
        self.servers.insert(s);
        Ok(())
    }

    /// Adds the server `id`, not connected, with no tools, now, replacing any with that id.
    pub fn add_server(&mut self, id: String, name: String, url: String, description: String) -> (r: Result<(), AppError>)
        requires
            old(self).wf(),
        ensures
            final(self).wf(),
            r is Ok,
            exists|now: i64| 0 <= now < MAX_TIMESTAMP && final(self).servers_view() == old(self).servers_view().insert(id@,
                #[trigger] new_server(id@, name@, url@, description@, now)),
    {
        let now = now_timestamp();
        let ghost v = new_server(id@, name@, url@, description@, now);
        let ghost k = id@;
        let r = self.add_server_at(id, name, url, description, now);
        assert(self.servers_view() == old(self).servers_view().insert(k, v));
        r
    }

    /// Removes the server `id`; whether there was one.
    pub fn remove_server(&mut self, id: &str) -> (r: Result<bool, AppError>)
        requires
            old(self).wf(),
        ensures
            final(self).wf(),
            r == Ok::<bool, AppError>(old(self).servers_view().dom().contains(id@)),
            final(self).servers_view() == old(self).servers_view().remove(id@),
    {
        let removed = self.servers.remove(id);
        Ok(removed.is_some())
    }

    /// Connects the server `id`, which then offers its search and fetch tools, and
    /// returns them; `NotFound` when there is no such server.
    pub fn connect_server(&mut self, id: &str) -> (r: Result<Vec<McpTool>, AppError>)
        requires
            old(self).wf(),
        ensures
            final(self).wf(),
            r is Ok <==> old(self).servers_view().dom().contains(id@),
            match r {
                Ok(ts) => tool_views(ts@) == offered_tools(old(self).servers_view()[id@])
                    && final(self).servers_view() == old(self).servers_view().insert(id@, ServerView {
                        connected: true, tools: offered_tools(old(self).servers_view()[id@]), ..old(self).servers_view()[id@]
                    }),
                Err(e) => e is NotFound && e.message() == "MCP server "@ + id@ + " not found"@
                    && final(self).servers_view() == old(self).servers_view(),
            },
    {
        match self.servers.get_copy(id) {
            Some(mut s) => {
                let mut tools: Vec<McpTool> = Vec::new();
                tools.push(tool(s.id.as_str(), "_search", "Search using ", s.name.as_str(), "query", "Search query"));
                tools.push(tool(s.id.as_str(), "_fetch", "Fetch content using ", s.name.as_str(), "url", "URL to fetch"));
                assert(tool_views(tools@) =~= offered_tools(s@));
                s.connected = true;
                s.tools = clone_tools(&tools);
                self.servers.insert(s);
                Ok(tools)
            },
            None => Err(AppError::NotFound(concat3("MCP server ", id, " not found"))),
        }
    }

    /// Disconnects the server `id`, which then offers no tools; `NotFound` when there is
    /// none.
    pub fn disconnect_server(&mut self, id: &str) -> (r: Result<(), AppError>)
        requires
            old(self).wf(),
        ensures
            final(self).wf(),
            r is Ok <==> old(self).servers_view().dom().contains(id@),
            final(self).servers_view() == if r is Ok {
                old(self).servers_view().insert(id@, ServerView {
                    connected: false, tools: Seq::<(Seq<char>, Seq<char>)>::empty(), ..old(self).servers_view()[id@]
                })
            } else {
                old(self).servers_view()
            },
            r is Err ==> r->Err_0 is NotFound && r->Err_0.message() == "MCP server "@ + id@ + " not found"@,
    {
        match self.servers.get_copy(id) {
            Some(mut s) => {
                s.connected = false;
                s.tools = Vec::new();
                assert(s@.tools =~= Seq::<(Seq<char>, Seq<char>)>::empty());
                self.servers.insert(s);
                Ok(())
            },
            None => Err(AppError::NotFound(concat3("MCP server ", id, " not found"))),
        }
    }

    /// Every server, once each.
    pub fn list_servers(&self) -> (r: Vec<McpServer>)
        requires
            self.wf(),
        ensures
            lists_map(record_entries(r@).map_values(|e: (Seq<char>, ServerView)| e.0), r@.map_values(|x: McpServer| x@), self.servers_view()),
    {
        self.servers.values()
    }

    /// The server `id`, if there is one.
    pub fn get_server(&self, id: &str) -> (r: Option<McpServer>)
        requires
            self.wf(),
        ensures
            match r {
                Some(s) => self.servers_view().dom().contains(id@) && s@ == self.servers_view()[id@],
                None => !self.servers_view().dom().contains(id@),
            },
    {
        self.servers.get_copy(id)
    }

    /// The tools of the connected servers, server after server.
    pub fn get_all_tools(&self) -> (r: Vec<McpTool>)
        requires
            self.wf(),
        ensures
            exists|keys: Seq<Seq<char>>, vals: Seq<ServerView>|
                #[trigger] lists_map(keys, vals, restrict_where(self.servers_view(), server_connected()))
                && tool_views(r@) == all_tools(vals),
    {
        let f = ConnectedServers;
        let ss = self.servers.values_where(&f);
        let ghost keys = record_entries(ss@).map_values(|e: (Seq<char>, ServerView)| e.0);
        let ghost vals = ss@.map_values(|x: McpServer| x@);
        assert(restrict_where(self.servers_view(), filter_pred::<McpServer, ConnectedServers>(&f))
            =~= restrict_where(self.servers_view(), server_connected()));
        let mut out: Vec<McpTool> = Vec::new();
        let mut i: usize = 0;
        proof {
            assert(vals.take(0).map_values(|s: ServerView| s.tools) =~= Seq::<Seq<(Seq<char>, Seq<char>)>>::empty());
            assert(tool_views(out@) =~= Seq::<(Seq<char>, Seq<char>)>::empty());
        }
        while i < ss.len()
            invariant
                i <= ss@.len(),
                vals == ss@.map_values(|x: McpServer| x@),
                tool_views(out@) == all_tools(vals.take(i as int)),
            decreases ss.len() - i,
        {
            let ghost before = tool_views(out@);
            let ts = &ss[i].tools;
            let mut j: usize = 0;
            while j < ts.len()
                invariant
                    j <= ts@.len(),
                    tool_views(out@) == before + tool_views(ts@).take(j as int),
                decreases ts.len() - j,
            {
                let ghost b2 = tool_views(out@);
                out.push(ts[j].duplicate());
                proof {
                    assert(tool_views(out@) =~= b2.push(tool_view(ts@[j as int])));
                    assert(tool_views(ts@).take(j + 1) =~= tool_views(ts@).take(j as int).push(tool_view(ts@[j as int])));
                }
                j = j + 1;
            }
            proof {
                assert(tool_views(ts@).take(ts@.len() as int) =~= tool_views(ts@));
                let ms = vals.take(i as int).map_values(|s: ServerView| s.tools);
                assert(vals.take(i + 1).map_values(|s: ServerView| s.tools) =~= ms.push(vals[i as int].tools));
                ms.lemma_flatten_push(vals[i as int].tools);
                assert(vals[i as int].tools == tool_views(ts@));
            }
            i = i + 1;
        }
        assert(vals.take(ss@.len() as int) =~= vals);
        out
    }

    /// Calls the tool `call.tool_name` of the connected server `call.server_id` and reports
    /// the call with its arguments as JSON; `NotFound` when there is no such server or it
    /// offers no such tool, `Internal` when it is not connected.
    pub fn execute_tool(&self, call: McpToolCall) -> (r: Result<String, AppError>)
        requires
            self.wf(),
        ensures
            r is Ok <==> self.servers_view().dom().contains(call.server_id@)
                && self.servers_view()[call.server_id@].connected
                && offers(self.servers_view()[call.server_id@], call.tool_name@),
            match r {
                Ok(s) => exists|args: Seq<char>| s@ == "MCP tool "@ + call.tool_name@ + " executed with args: "@ + args,
                Err(e) => if !self.servers_view().dom().contains(call.server_id@) {
                    e is NotFound && e.message() == "MCP server "@ + call.server_id@ + " not found"@
                } else if !self.servers_view()[call.server_id@].connected {
                    e is Internal && e.message() == "MCP server "@ + call.server_id@ + " is not connected"@
                } else {
                    e is NotFound && e.message() == "Tool "@ + call.tool_name@ + " not found in server "@ + call.server_id@
                },
            },
    {
        let server = match self.servers.get(call.server_id.as_str()) {
            Some(s) => s,
            None => return Err(AppError::NotFound(concat3("MCP server ", call.server_id.as_str(), " not found"))),
        };
        if !server.connected {
            return Err(AppError::Internal(concat3("MCP server ", call.server_id.as_str(), " is not connected")));
        }
        let ghost sv = server@;
        let mut i: usize = 0;
        let mut found = false;
        while i < server.tools.len()
            invariant
                i <= server.tools@.len(),
                sv == server@,
                found ==> offers(sv, call.tool_name@),
                !found ==> forall|j: int| 0 <= j < i ==> #[trigger] sv.tools[j].0 != call.tool_name@,
            decreases server.tools.len() - i,
        {
            assert(sv.tools[i as int] == tool_view(server.tools@[i as int]));
            if str_eq(server.tools[i].name.as_str(), call.tool_name.as_str()) {
                found = true;
                assert(sv.tools[i as int].0 == call.tool_name@);
            }
            i = i + 1;
        }
        if !found {
            assert(!offers(sv, call.tool_name@));
            let mut m = concat3("Tool ", call.tool_name.as_str(), " not found in server ");
            push_str(&mut m, call.server_id.as_str());
            return Err(AppError::NotFound(m));
        }
        let mut s = concat3("MCP tool ", call.tool_name.as_str(), " executed with args: ");
        let args = json_text(&call.arguments);
        push_str(&mut s, args.as_str());
        Ok(s)
    }

    /// How many servers there are.
    pub fn get_server_count(&self) -> (n: usize)
        requires
            self.wf(),
        ensures
            n == self.servers_view().dom().len(),
    {
        self.servers.len()
    }

    /// How many servers are connected.
    pub fn get_connected_count(&self) -> (n: usize)
        requires
            self.wf(),
        ensures
            n == restrict_where(self.servers_view(), server_connected()).dom().len(),
    {
        let f = ConnectedServers;
        let ss = self.servers.values_where(&f);
        assert(restrict_where(self.servers_view(), filter_pred::<McpServer, ConnectedServers>(&f))
            =~= restrict_where(self.servers_view(), server_connected()));
        ss.len()
    }
}

/// A server as it is added.
pub open spec fn new_server(id: Seq<char>, name: Seq<char>, url: Seq<char>, description: Seq<char>, now: i64) -> ServerView {
    ServerView { id, name, url, description, connected: false, tools: Seq::<(Seq<char>, Seq<char>)>::empty(), created_at: now }
}

/// A disconnected server offers no tool, so none of its tools can be run until it is
/// connected again; connecting it offers its tools again.
pub proof fn law_disconnect_withdraws_tools(m: Map<Seq<char>, ServerView>, id: Seq<char>, name: Seq<char>)
    requires
        m.dom().contains(id),
    ensures
        !offers(m.insert(id, ServerView { connected: false, tools: Seq::<(Seq<char>, Seq<char>)>::empty(), ..m[id] })[id], name),
        !m.insert(id, ServerView { connected: false, tools: Seq::<(Seq<char>, Seq<char>)>::empty(), ..m[id] })[id].connected,
        m.insert(id, ServerView { connected: true, tools: offered_tools(m[id]), ..m[id] })[id].tools == offered_tools(m[id]),
{
}

} // verus!
