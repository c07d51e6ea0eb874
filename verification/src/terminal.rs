//! Terminals: a table of Docker containers and their states, and SSH connections with
//! the command sessions run over them.

use vstd::prelude::*;
use crate::clock::{new_uuid, now_timestamp, MAX_TIMESTAMP};
use crate::error::AppError;
use crate::keyed::{count_where, restrict_where};
use crate::rbac::lists_map;
use crate::store::{record_entries, Record, Store};
use crate::text::{clone_strings, concat3, nat_decimal, push_str, push_u64_decimal, str_eq, str_to_string, string_views};

verus! {

/// A container.
#[derive(Debug)]
pub struct DockerContainer {
    pub id: String,
    pub name: String,
    pub image: String,
    pub status: String,
    pub ports: Vec<String>,
    pub created_at: i64,
}

/// The value of a container.
pub struct ContainerView {
    pub id: Seq<char>,
    pub name: Seq<char>,
    pub image: Seq<char>,
    pub status: Seq<char>,
    pub ports: Seq<Seq<char>>,
    pub created_at: i64,
}

impl View for DockerContainer {
    type V = ContainerView;

    open spec fn view(&self) -> ContainerView {
        ContainerView {
            id: self.id@,
            name: self.name@,
            image: self.image@,
            status: self.status@,
            ports: string_views(self.ports@),
            created_at: self.created_at,
        }
    }
}

impl Record for DockerContainer {
    open spec fn key_of(v: ContainerView) -> Seq<char> {
        v.id
    }

    fn key(&self) -> (r: &str) {
        self.id.as_str()
    }

    fn duplicate(&self) -> (r: Self) {
        DockerContainer {
            id: self.id.clone(),
            name: self.name.clone(),
            image: self.image.clone(),
            status: self.status.clone(),
            ports: clone_strings(&self.ports),
            created_at: self.created_at,
        }
    }
}

/// Where the Docker daemon listens.
#[derive(Debug)]
pub struct DockerConfig {
    pub host: String,
    pub port: u16,
    pub api_version: String,
}

/// Counts over the containers, and where the daemon listens.
#[derive(Debug)]
pub struct DockerStats {
    pub total_containers: usize,
    pub running: usize,
    pub stopped: usize,
    pub host: String,
    pub port: u16,
}

/// An SSH connection.
#[derive(Debug)]
pub struct SshConnection {
    pub id: String,
    pub host: String,
    pub port: u16,
    pub username: String,
    pub connected: bool,
    pub last_activity: Option<i64>,
}

/// The value of an SSH connection.
pub struct ConnectionView {
    pub id: Seq<char>,
    pub host: Seq<char>,
    pub port: u16,
    pub username: Seq<char>,
    pub connected: bool,
    pub last_activity: Option<i64>,
}

impl View for SshConnection {
    type V = ConnectionView;

    open spec fn view(&self) -> ConnectionView {
        ConnectionView {
            id: self.id@,
            host: self.host@,
            port: self.port,
            username: self.username@,
            connected: self.connected,
            last_activity: self.last_activity,
        }
    }
}

impl Record for SshConnection {
    open spec fn key_of(v: ConnectionView) -> Seq<char> {
        v.id
    }

    fn key(&self) -> (r: &str) {
        self.id.as_str()
    }

    fn duplicate(&self) -> (r: Self) {
        SshConnection {
            id: self.id.clone(),
            host: self.host.clone(),
            port: self.port,
            username: self.username.clone(),
            connected: self.connected,
            last_activity: self.last_activity,
        }
    }
}

/// A command session.
#[derive(Debug)]
pub struct TerminalSession {
    pub id: String,
    pub session_type: String,
    pub target: String,
    pub output: Vec<String>,
    pub is_active: bool,
    pub created_at: i64,
}

/// The value of a command session.
pub struct SessionView {
    pub id: Seq<char>,
    pub session_type: Seq<char>,
    pub target: Seq<char>,
    pub output: Seq<Seq<char>>,
    pub is_active: bool,
    pub created_at: i64,
}

impl View for TerminalSession {
    type V = SessionView;

    open spec fn view(&self) -> SessionView {
        SessionView {
            id: self.id@,
            session_type: self.session_type@,
            target: self.target@,
            output: string_views(self.output@),
            is_active: self.is_active,
            created_at: self.created_at,
        }
    }
}

impl Record for TerminalSession {
    open spec fn key_of(v: SessionView) -> Seq<char> {
        v.id
    }

    fn key(&self) -> (r: &str) {
        self.id.as_str()
    }

    fn duplicate(&self) -> (r: Self) {
        TerminalSession {
            id: self.id.clone(),
            session_type: self.session_type.clone(),
            target: self.target.clone(),
            output: clone_strings(&self.output),
            is_active: self.is_active,
            created_at: self.created_at,
        }
    }
}

/// A new container: status `created`, no ports.
pub open spec fn new_container(id: Seq<char>, name: Seq<char>, image: Seq<char>, now: i64) -> ContainerView {
    ContainerView { id, name, image, status: "created"@, ports: Seq::<Seq<char>>::empty(), created_at: now }
}

/// Containers with a given status.
pub open spec fn status_is(s: Seq<char>) -> spec_fn(ContainerView) -> bool {
    |c: ContainerView| c.status == s
}

/// The containers by id, and where the daemon listens.
pub struct DockerManager {
    containers: Store<DockerContainer>,
    config: DockerConfig,
}

impl DockerManager {
    /// The containers, by id.
    pub closed spec fn containers_view(&self) -> Map<Seq<char>, ContainerView> {
        self.containers.view_map()
    }

    /// The daemon's host and port.
    pub closed spec fn daemon(&self) -> (Seq<char>, u16) {
        (self.config.host@, self.config.port)
    }

    /// The manager's invariant: each id is held once.
    pub closed spec fn wf(&self) -> bool {
        self.containers.wf()
    }

    /// No containers, with the daemon at `config`.
    pub fn new(config: DockerConfig) -> (r: Self)
        ensures
            r.wf(),
            r.containers_view() == Map::<Seq<char>, ContainerView>::empty(),
            r.daemon() == (config.host@, config.port),
    {
        DockerManager { containers: Store::new(), config }
    }

    /// Every container, once each.
    pub fn list_containers(&self) -> (r: Vec<DockerContainer>)
        requires
            self.wf(),
        ensures
            lists_map(record_entries(r@).map_values(|e: (Seq<char>, ContainerView)| e.0), r@.map_values(|x: DockerContainer| x@), self.containers_view()),
    {
        self.containers.values()
    }

    /// Adds a container named `name` from `image` under a fresh random id, created now,
    /// and returns the id.
    pub fn create_container(&mut self, name: String, image: String) -> (r: Result<String, AppError>)
        requires
            old(self).wf(),
        ensures
            final(self).wf(),
            final(self).daemon() == old(self).daemon(),
            r is Ok,
            match r {
                Ok(id) => final(self).containers_view().dom().contains(id@)
                    && final(self).containers_view()[id@].created_at < MAX_TIMESTAMP
                    && final(self).containers_view() == old(self).containers_view().insert(id@,
                        new_container(id@, name@, image@, final(self).containers_view()[id@].created_at)),
                Err(_) => false,
            },
    {
        let id = new_uuid();
        let now = now_timestamp();
        let c = DockerContainer {
            id: id.clone(),
            name,
            image,
            status: str_to_string("created"),
            ports: Vec::new(),
            created_at: now,
        };
        assert(c@.ports =~= Seq::<Seq<char>>::empty());
        self.containers.insert(c);
        Ok(id)
    }

    fn set_status(&mut self, id: &str, status: &str) -> (r: Result<(), AppError>)
        requires
            old(self).wf(),
        ensures
            final(self).wf(),
            final(self).daemon() == old(self).daemon(),
            r is Ok <==> old(self).containers_view().dom().contains(id@),
            final(self).containers_view() == if r is Ok {
                old(self).containers_view().insert(id@, ContainerView { status: status@, ..old(self).containers_view()[id@] })
            } else {
                old(self).containers_view()
            },
            r is Err ==> r->Err_0 is NotFound && r->Err_0.message() == "Container "@ + id@ + " not found"@,
    {
        match self.containers.get_copy(id) {
            Some(mut c) => {
                c.status = str_to_string(status);
                self.containers.insert(c);
                Ok(())
            },
            None => Err(AppError::NotFound(concat3("Container ", id, " not found"))),
        }
    }

    /// Marks the container `id` running; `NotFound` when there is none.
    pub fn start_container(&mut self, id: &str) -> (r: Result<(), AppError>)
        requires
            old(self).wf(),
        ensures
            final(self).wf(),
            final(self).daemon() == old(self).daemon(),
            r is Ok <==> old(self).containers_view().dom().contains(id@),
            final(self).containers_view() == if r is Ok {
                old(self).containers_view().insert(id@, ContainerView { status: "running"@, ..old(self).containers_view()[id@] })
            } else {
                old(self).containers_view()
            },
            r is Err ==> r->Err_0 is NotFound && r->Err_0.message() == "Container "@ + id@ + " not found"@,
    {
        self.set_status(id, "running")
    }

    /// Marks the container `id` stopped; `NotFound` when there is none.
    pub fn stop_container(&mut self, id: &str) -> (r: Result<(), AppError>)
        requires
            old(self).wf(),
        ensures
            final(self).wf(),
            final(self).daemon() == old(self).daemon(),
            r is Ok <==> old(self).containers_view().dom().contains(id@),
            final(self).containers_view() == if r is Ok {
                old(self).containers_view().insert(id@, ContainerView { status: "stopped"@, ..old(self).containers_view()[id@] })
            } else {
                old(self).containers_view()
            },
            r is Err ==> r->Err_0 is NotFound && r->Err_0.message() == "Container "@ + id@ + " not found"@,
    {
        self.set_status(id, "stopped")
    }

    /// Removes the container `id`, if there is one.
    pub fn remove_container(&mut self, id: &str) -> (r: Result<(), AppError>)
        requires
            old(self).wf(),
        ensures
            final(self).wf(),
            final(self).daemon() == old(self).daemon(),
            r is Ok,
            final(self).containers_view() == old(self).containers_view().remove(id@),
    {
        let _ = self.containers.remove(id);
        Ok(())
    }

    /// Reports running `command` in the container `container_id`; `NotFound` when there
    /// is none.
    pub fn exec_in_container(&self, container_id: &str, command: &str) -> (r: Result<String, AppError>)
        requires
            self.wf(),
        ensures
            r is Ok <==> self.containers_view().dom().contains(container_id@),
            match r {
                Ok(s) => s@ == "Executed '"@ + command@ + "' in container "@ + container_id@,
                Err(e) => e is NotFound && e.message() == "Container "@ + container_id@ + " not found"@,
            },
    {
        if self.containers.contains(container_id) {
            let mut s = concat3("Executed '", command, "' in container ");
            push_str(&mut s, container_id);
            Ok(s)
        } else {
            Err(AppError::NotFound(concat3("Container ", container_id, " not found")))
        }
    }

    /// The logs of the container `container_id`; `NotFound` when there is none.
    pub fn get_container_logs(&self, container_id: &str) -> (r: Result<String, AppError>)
        requires
            self.wf(),
        ensures
            r is Ok <==> self.containers_view().dom().contains(container_id@),
            match r {
                Ok(s) => s@ == "Logs for container "@ + container_id@,
                Err(e) => e is NotFound && e.message() == "Container "@ + container_id@ + " not found"@,
            },
    {
        if self.containers.contains(container_id) {
            let mut s = str_to_string("Logs for container ");
            push_str(&mut s, container_id);
            Ok(s)
        } else {
            Err(AppError::NotFound(concat3("Container ", container_id, " not found")))
        }
    }

    /// How many containers there are, how many run, how many are stopped, and where
    /// the daemon listens.
    pub fn get_stats(&self) -> (r: DockerStats)
        requires
            self.wf(),
        ensures
            r.total_containers == self.containers_view().dom().len(),
            r.running == restrict_where(self.containers_view(), status_is("running"@)).dom().len(),
            r.stopped == restrict_where(self.containers_view(), status_is("stopped"@)).dom().len(),
            (r.host@, r.port) == self.daemon(),
    {
        let total = self.containers.len();
        let running = self.count_status("running");
        let stopped = self.count_status("stopped");
        DockerStats { total_containers: total, running, stopped, host: self.config.host.clone(), port: self.config.port }
    }

    fn count_status(&self, status: &str) -> (n: usize)
        requires
            self.wf(),
        ensures
            n == restrict_where(self.containers_view(), status_is(status@)).dom().len(),
    {
        let f = StatusIs { status };
        let v = self.containers.values_where(&f);
        assert(restrict_where(self.containers_view(), crate::store::filter_pred::<DockerContainer, StatusIs>(&f))
            =~= restrict_where(self.containers_view(), status_is(status@)));
        v.len()
    }
}

/// Containers with a given status.
pub struct StatusIs<'a> {
    pub status: &'a str,
}

impl<'a> crate::store::RecordFilter<DockerContainer> for StatusIs<'a> {
    open spec fn holds(&self, v: ContainerView) -> bool {
        v.status == self.status@
    }

    fn test(&self, r: &DockerContainer) -> (b: bool) {
        str_eq(r.status.as_str(), self.status)
    }
}

/// `user@host:port`.
pub open spec fn ssh_target(c: ConnectionView) -> Seq<char> {
    c.username + "@"@ + c.host + ":"@ + nat_decimal(c.port as nat)
}

/// The session recorded for running `command` over `c`, at `now`.
pub open spec fn ssh_session(id: Seq<char>, c: ConnectionView, command: Seq<char>, now: i64) -> SessionView {
    SessionView {
        id,
        session_type: "ssh"@,
        target: ssh_target(c),
        output: seq!["$ "@ + command, "Command executed successfully"@],
        is_active: false,
        created_at: now,
    }
}

fn target_of(c: &SshConnection) -> (r: String)
    ensures
        r@ == ssh_target(c@),
{
    let mut s = concat3(c.username.as_str(), "@", c.host.as_str());
    push_str(&mut s, ":");
    push_u64_decimal(&mut s, c.port as u64);
    s
}

/// The connections after `id` connects at `now`.
pub open spec fn connected_at(m: Map<Seq<char>, ConnectionView>, id: Seq<char>, now: i64) -> Map<Seq<char>, ConnectionView> {
    m.insert(id, ConnectionView { connected: true, last_activity: Some(now), ..m[id] })
}

/// SSH connections by id, and the sessions run over them.
pub struct SshManager {
    connections: Store<SshConnection>,
    sessions: Store<TerminalSession>,
}

impl SshManager {
    /// The connections, by id.
    pub closed spec fn connections_view(&self) -> Map<Seq<char>, ConnectionView> {
        self.connections.view_map()
    }

    /// The sessions, by id.
    pub closed spec fn sessions_view(&self) -> Map<Seq<char>, SessionView> {
        self.sessions.view_map()
    }

    /// The manager's invariant: each id is held once in each table.
    pub closed spec fn wf(&self) -> bool {
        self.connections.wf() && self.sessions.wf()
    }

    /// No connections and no sessions.
    pub fn new() -> (r: Self)
        ensures
            r.wf(),
            r.connections_view() == Map::<Seq<char>, ConnectionView>::empty(),
            r.sessions_view() == Map::<Seq<char>, SessionView>::empty(),
    {
        SshManager { connections: Store::new(), sessions: Store::new() }
    }

    /// Adds a connection, not yet connected, under a fresh random id, and returns the id.
    pub fn add_connection(&mut self, host: String, port: u16, username: String) -> (r: Result<String, AppError>)
        requires
            old(self).wf(),
        ensures
            final(self).wf(),
            final(self).sessions_view() == old(self).sessions_view(),
            r is Ok,
            match r {
                Ok(id) => final(self).connections_view() == old(self).connections_view().insert(id@, ConnectionView {
                    id: id@, host: host@, port, username: username@, connected: false, last_activity: None,
                }),
                Err(_) => false,
            },
    {
        let id = new_uuid();
        let c = SshConnection { id: id.clone(), host, port, username, connected: false, last_activity: None };
        self.connections.insert(c);
        Ok(id)
    }

    /// Removes the connection `id`; whether there was one.
    pub fn remove_connection(&mut self, id: &str) -> (r: Result<bool, AppError>)
        requires
            old(self).wf(),
        ensures
            final(self).wf(),
            final(self).sessions_view() == old(self).sessions_view(),
            r == Ok::<bool, AppError>(old(self).connections_view().dom().contains(id@)),
            final(self).connections_view() == old(self).connections_view().remove(id@),
    {
        let removed = self.connections.remove(id);
        Ok(removed.is_some())
    }

    /// Marks the connection `id` connected, active at `now`; `NotFound` when there is none.
    pub fn connect_at(&mut self, id: &str, now: i64) -> (r: Result<(), AppError>)
        requires
            old(self).wf(),
        ensures
            final(self).wf(),
            final(self).sessions_view() == old(self).sessions_view(),
            r is Ok <==> old(self).connections_view().dom().contains(id@),
            final(self).connections_view() == if r is Ok {
                old(self).connections_view().insert(id@, ConnectionView {
                    connected: true, last_activity: Some(now), ..old(self).connections_view()[id@]
                })
            } else {
                old(self).connections_view()
            },
            r is Err ==> r->Err_0 is NotFound && r->Err_0.message() == "SSH connection "@ + id@ + " not found"@,
    {
        match self.connections.get_copy(id) {
            Some(mut c) => {
                c.connected = true;
                c.last_activity = Some(now);
                self.connections.insert(c);
                Ok(())
            },
            None => Err(AppError::NotFound(concat3("SSH connection ", id, " not found"))),
        }
    }

    /// Marks the connection `id` connected, active now; `NotFound` when there is none.
    pub fn connect(&mut self, id: &str) -> (r: Result<(), AppError>)
        requires
            old(self).wf(),
        ensures
            final(self).wf(),
            final(self).sessions_view() == old(self).sessions_view(),
            r is Ok <==> old(self).connections_view().dom().contains(id@),
            r is Ok ==> exists|now: i64| 0 <= now < MAX_TIMESTAMP
                && final(self).connections_view() == #[trigger] connected_at(old(self).connections_view(), id@, now),
            r is Err ==> final(self).connections_view() == old(self).connections_view()
                && r->Err_0 is NotFound && r->Err_0.message() == "SSH connection "@ + id@ + " not found"@,
    {
        let now = now_timestamp();
        let r = self.connect_at(id, now);
        assert(r is Ok ==> final(self).connections_view() == connected_at(old(self).connections_view(), id@, now));
        r
    }

    /// Marks the connection `id` disconnected; `NotFound` when there is none.
    pub fn disconnect(&mut self, id: &str) -> (r: Result<(), AppError>)
        requires
            old(self).wf(),
        ensures
            final(self).wf(),
            final(self).sessions_view() == old(self).sessions_view(),
            r is Ok <==> old(self).connections_view().dom().contains(id@),
            final(self).connections_view() == if r is Ok {
                old(self).connections_view().insert(id@, ConnectionView { connected: false, ..old(self).connections_view()[id@] })
            } else {
                old(self).connections_view()
            },
            r is Err ==> r->Err_0 is NotFound && r->Err_0.message() == "SSH connection "@ + id@ + " not found"@,
    {
        match self.connections.get_copy(id) {
            Some(mut c) => {
                c.connected = false;
                self.connections.insert(c);
                Ok(())
            },
            None => Err(AppError::NotFound(concat3("SSH connection ", id, " not found"))),
        }
    }

    /// Every connection, once each.
    pub fn list_connections(&self) -> (r: Vec<SshConnection>)
        requires
            self.wf(),
        ensures
            lists_map(record_entries(r@).map_values(|e: (Seq<char>, ConnectionView)| e.0), r@.map_values(|x: SshConnection| x@), self.connections_view()),
    {
        self.connections.values()
    }

    /// Runs `command` over the connected connection `connection_id`, at `now`, recording
    /// a session under `session_id`, and reports it; `NotFound` when there is no such
    /// connection, `Internal` when it is not connected.
    pub fn execute_command_at(&mut self, connection_id: &str, command: &str, session_id: String, now: i64) -> (r: Result<String, AppError>)
        requires
            old(self).wf(),
        ensures
            final(self).wf(),
            final(self).connections_view() == old(self).connections_view(),
            r is Ok <==> old(self).connections_view().dom().contains(connection_id@) && old(self).connections_view()[connection_id@].connected,
            match r {
                Ok(s) => s@ == "Command '"@ + command@ + "' executed on "@ + ssh_target(old(self).connections_view()[connection_id@])
                    && final(self).sessions_view() == old(self).sessions_view().insert(session_id@,
                        ssh_session(session_id@, old(self).connections_view()[connection_id@], command@, now)),
                Err(e) => final(self).sessions_view() == old(self).sessions_view()
                    && if old(self).connections_view().dom().contains(connection_id@) {
                        e is Internal && e.message() == "SSH connection "@ + connection_id@ + " is not connected"@
                    } else {
                        e is NotFound && e.message() == "SSH connection "@ + connection_id@ + " not found"@
                    },
            },
    {
        let conn = match self.connections.get(connection_id) {
            Some(c) => c,
            None => return Err(AppError::NotFound(concat3("SSH connection ", connection_id, " not found"))),
        };
        if !conn.connected {
            return Err(AppError::Internal(concat3("SSH connection ", connection_id, " is not connected")));
        }
        let target = target_of(conn);
        let mut output: Vec<String> = Vec::new();
        let mut first = str_to_string("$ ");
        push_str(&mut first, command);
        output.push(first);
        output.push(str_to_string("Command executed successfully"));
        let mut report = concat3("Command '", command, "' executed on ");
        push_str(&mut report, target.as_str());
        let session = TerminalSession {
            id: session_id,
            session_type: str_to_string("ssh"),
            target,
            output,
            is_active: false,
            created_at: now,
        };
        assert(session@.output =~= seq!["$ "@ + command@, "Command executed successfully"@]);
        self.sessions.insert(session);
        Ok(report)
    }

    /// Runs `command` over the connected connection `connection_id`, now, recording a
    /// session under a fresh random id, and reports it.
    pub fn execute_command(&mut self, connection_id: &str, command: &str) -> (r: Result<String, AppError>)
        requires
            old(self).wf(),
        ensures
            final(self).wf(),
            final(self).connections_view() == old(self).connections_view(),
            r is Ok <==> old(self).connections_view().dom().contains(connection_id@) && old(self).connections_view()[connection_id@].connected,
            match r {
                Ok(s) => s@ == "Command '"@ + command@ + "' executed on "@ + ssh_target(old(self).connections_view()[connection_id@])
                    && exists|sid: Seq<char>, now: i64| 0 <= now < MAX_TIMESTAMP
                        && final(self).sessions_view() == old(self).sessions_view().insert(sid,
                            #[trigger] ssh_session(sid, old(self).connections_view()[connection_id@], command@, now)),
                Err(e) => final(self).sessions_view() == old(self).sessions_view()
                    && if old(self).connections_view().dom().contains(connection_id@) {
                        e is Internal && e.message() == "SSH connection "@ + connection_id@ + " is not connected"@
                    } else {
                        e is NotFound && e.message() == "SSH connection "@ + connection_id@ + " not found"@
                    },
            },
    {
        let sid = new_uuid();
        let now = now_timestamp();
        let ghost sv = sid@;
        let r = self.execute_command_at(connection_id, command, sid, now);
        proof {
            if r is Ok {
                assert(self.sessions_view() == old(self).sessions_view().insert(sv,
                    ssh_session(sv, old(self).connections_view()[connection_id@], command@, now)));
            }
        }
        r
    }

    /// The session `session_id`, if there is one.
    pub fn get_session(&self, session_id: &str) -> (r: Option<TerminalSession>)
        requires
            self.wf(),
        ensures
            match r {
                Some(s) => self.sessions_view().dom().contains(session_id@) && s@ == self.sessions_view()[session_id@],
                None => !self.sessions_view().dom().contains(session_id@),
            },
    {
        self.sessions.get_copy(session_id)
    }

    /// Every session, once each.
    pub fn list_sessions(&self) -> (r: Vec<TerminalSession>)
        requires
            self.wf(),
        ensures
            lists_map(record_entries(r@).map_values(|e: (Seq<char>, SessionView)| e.0), r@.map_values(|x: TerminalSession| x@), self.sessions_view()),
    {
        self.sessions.values()
    }
}

} // verus!
