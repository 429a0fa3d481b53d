//! The gRPC binding's routes: every unary rpc of `hya.v1` is answered by
//! dispatching to the HTTP binding that the API reference lists for it, so
//! the two transports share one implementation.
use vstd::prelude::*;
use crate::text::owned;

verus! {

/// HTTP methods of the v1 routes.
#[derive(Clone, Copy, Debug, PartialEq, Eq, Structural)]
pub enum HttpMethod {
    Get,
    Post,
    Put,
    Patch,
    Delete,
}

/// Which message a dispatched call serializes as its body (and, for `GET`,
/// as its query): the gRPC request itself, or the request type's default
/// (path parameters then carry everything).
#[derive(Clone, Copy, Debug, PartialEq, Eq, Structural)]
pub enum Payload {
    Request,
    Default,
}

/// A unary rpc of `hya.v1` with the request fields its HTTP path carries.
#[derive(Debug)]
pub enum Rpc {
    /// `get_health`: `GET /v1/health`.
    GetHealth,
    /// `get_location`: `GET /v1/location`.
    GetLocation,
    /// `get_config`: `GET /v1/config`.
    GetConfig,
    /// `update_config`: `PATCH /v1/config`.
    UpdateConfig,
    /// `dispose_process`: `POST /v1/process/dispose`.
    DisposeProcess,
    /// `upgrade_process`: `POST /v1/process/upgrade`.
    UpgradeProcess,
    /// `get_bootstrap`: `GET /v1/bootstrap`.
    GetBootstrap,
    /// `list_agents`: `GET /v1/agents`.
    ListAgents,
    /// `list_models`: `GET /v1/models`.
    ListModels,
    /// `list_providers`: `GET /v1/providers`.
    ListProviders,
    /// `get_provider`: `GET /v1/providers/{provider_id}`.
    GetProvider { provider_id: String },
    /// `configure_provider`: `PUT /v1/providers/{provider_id}/setup`.
    ConfigureProvider { provider_id: String },
    /// `list_commands`: `GET /v1/commands`.
    ListCommands,
    /// `list_skills`: `GET /v1/skills`.
    ListSkills,
    /// `list_tools`: `GET /v1/tools`.
    ListTools,
    /// `list_provider_auth`: `GET /v1/auth`.
    ListProviderAuth,
    /// `set_provider_auth`: `PUT /v1/auth/{provider_id}`.
    SetProviderAuth { provider_id: String },
    /// `remove_provider_auth`: `DELETE /v1/auth/{provider_id}`.
    RemoveProviderAuth { provider_id: String },
    /// `start_oauth`: `POST /v1/auth/{provider_id}/oauth/start`.
    StartOauth { provider_id: String },
    /// `complete_oauth`: `POST /v1/auth/{provider_id}/oauth/callback`.
    CompleteOauth { provider_id: String },
    /// `create_session`: `POST /v1/sessions`.
    CreateSession,
    /// `get_session`: `GET /v1/sessions/{session}`.
    GetSession { session: String },
    /// `list_sessions`: `GET /v1/sessions`.
    ListSessions,
    /// `update_session`: `PATCH /v1/sessions/{session}`.
    UpdateSession { session: String },
    /// `delete_session`: `DELETE /v1/sessions/{session}`.
    DeleteSession { session: String },
    /// `fork_session`: `POST /v1/sessions/{session}/fork`.
    ForkSession { session: String },
    /// `compact_session`: `POST /v1/sessions/{session}/compact`.
    CompactSession { session: String },
    /// `summarize_session`: `POST /v1/sessions/{session}/summarize`.
    SummarizeSession { session: String },
    /// `revert_session`: `POST /v1/sessions/{session}/revert`.
    RevertSession { session: String },
    /// `create_turn`: `POST /v1/sessions/{session}/turns`.
    CreateTurn { session: String },
    /// `get_turn`: `GET /v1/sessions/{session}/turns/{turn}`.
    GetTurn { session: String, turn: String },
    /// `wait_turn`: `POST /v1/sessions/{session}/turns/{turn}/wait?timeoutMs={timeout}`.
    WaitTurn { session: String, turn: String, timeout: String },
    /// `cancel_turn`: `POST /v1/sessions/{session}/turns/{turn}/cancel`.
    CancelTurn { session: String, turn: String },
    /// `list_messages`: `GET /v1/sessions/{session}/messages`.
    ListMessages { session: String },
    /// `get_message`: `GET /v1/sessions/{session}/messages/{message}`.
    GetMessage { session: String, message: String },
    /// `delete_message_part`: `DELETE /v1/sessions/{session}/messages/{message}/parts/{part}`.
    DeleteMessagePart { session: String, message: String, part: String },
    /// `get_session_todo`: `GET /v1/sessions/{session}/todo`.
    GetSessionTodo { session: String },
    /// `list_events`: `GET /v1/sessions/{session}/events`.
    ListEvents { session: String },
    /// `list_interactions`: `GET /v1/interactions`.
    ListInteractions,
    /// `respond_interaction`: `POST /v1/interactions/{id}/respond`.
    RespondInteraction { id: String },
    /// `list_saved_rules`: `GET /v1/permissions/rules`.
    ListSavedRules,
    /// `delete_saved_rule`: `DELETE /v1/permissions/rules/{rule}`.
    DeleteSavedRule { rule: String },
    /// `list_workflows`: `GET /v1/workflows`.
    ListWorkflows,
    /// `get_workflow_state`: `GET /v1/sessions/{session}/workflow`.
    GetWorkflowState { session: String },
    /// `submit_workflow_command`: `POST /v1/sessions/{session}/workflow`.
    SubmitWorkflowCommand { session: String },
    /// `read_file`: `GET /v1/fs/read`.
    ReadFile,
    /// `list_directory`: `GET /v1/fs/list`.
    ListDirectory,
    /// `find_files`: `GET /v1/fs/find`.
    FindFiles,
    /// `search_text`: `GET /v1/fs/search`.
    SearchText,
    /// `search_symbols`: `GET /v1/fs/symbols`.
    SearchSymbols,
    /// `list_projects`: `GET /v1/projects`.
    ListProjects,
    /// `get_current_project`: `GET /v1/projects/current`.
    GetCurrentProject,
    /// `update_project`: `PATCH /v1/projects/{project}`.
    UpdateProject { project: String },
    /// `list_project_directories`: `GET /v1/projects/{project}/directories`.
    ListProjectDirectories { project: String },
    /// `init_project_git`: `POST /v1/projects/{project}/init-git`.
    InitProjectGit { project: String },
    /// `get_vcs_status`: `GET /v1/vcs`.
    GetVcsStatus,
    /// `get_vcs_diff`: `GET /v1/vcs/diff`.
    GetVcsDiff,
    /// `apply_patch`: `POST /v1/vcs/apply`.
    ApplyPatch,
    /// `list_worktrees`: `GET /v1/worktrees`.
    ListWorktrees,
    /// `create_worktree`: `POST /v1/worktrees`.
    CreateWorktree,
    /// `delete_worktree`: `DELETE /v1/worktrees/{worktree}`.
    DeleteWorktree { worktree: String },
    /// `reset_worktree`: `POST /v1/worktrees/{worktree}/reset`.
    ResetWorktree { worktree: String },
    /// `get_mcp_status`: `GET /v1/mcp`.
    GetMcpStatus,
    /// `add_mcp_server`: `POST /v1/mcp`.
    AddMcpServer,
    /// `connect_mcp`: `POST /v1/mcp/{name}/connect`.
    ConnectMcp { name: String },
    /// `disconnect_mcp`: `POST /v1/mcp/{name}/disconnect`.
    DisconnectMcp { name: String },
    /// `start_mcp_auth`: `POST /v1/mcp/{name}/auth`.
    StartMcpAuth { name: String },
    /// `complete_mcp_auth`: `POST /v1/mcp/{name}/auth/complete`.
    CompleteMcpAuth { name: String },
    /// `remove_mcp_auth`: `DELETE /v1/mcp/{name}/auth`.
    RemoveMcpAuth { name: String },
    /// `list_shells`: `GET /v1/pty/shells`.
    ListShells,
    /// `create_pty`: `POST /v1/pty`.
    CreatePty,
    /// `get_pty`: `GET /v1/pty/{id}`.
    GetPty { id: String },
    /// `update_pty`: `PUT /v1/pty/{id}`.
    UpdatePty { id: String },
    /// `delete_pty`: `DELETE /v1/pty/{id}`.
    DeletePty { id: String },
    /// `create_connect_token`: `POST /v1/pty/{id}/connect-token`.
    CreateConnectToken { id: String },
    /// `ingest_log`: `POST /v1/logs`.
    IngestLog,
    /// `list_agent_models`: `GET /v1/agent-models`.
    ListAgentModels,
    /// `set_agent_model`: `PUT /v1/agent-models/{agent_id}`.
    SetAgentModel { agent_id: String },
}

/// The meaning of a route.
pub struct RouteView {
    pub method: HttpMethod,
    pub path: Seq<char>,
    pub query: bool,
    pub body: Payload,
}

/// Where a unary rpc is dispatched: method, path, whether the body message is
/// also sent as query parameters, and which message is the body.
#[derive(Debug)]
pub struct Route {
    pub method: HttpMethod,
    pub path: String,
    pub query: bool,
    pub body: Payload,
}

impl View for Route {
    type V = RouteView;

    open spec fn view(&self) -> RouteView {
        RouteView { method: self.method, path: self.path@, query: self.query, body: self.body }
    }
}

/// The HTTP binding of each unary rpc, as the API reference lists it.
pub open spec fn route_of(rpc: Rpc) -> RouteView {
    match rpc {
        Rpc::GetHealth => RouteView {
            method: HttpMethod::Get,
            path: "/v1/health"@,
            query: true,
            body: Payload::Request,
        },
        Rpc::GetLocation => RouteView {
            method: HttpMethod::Get,
            path: "/v1/location"@,
            query: true,
            body: Payload::Request,
        },
        Rpc::GetConfig => RouteView {
            method: HttpMethod::Get,
            path: "/v1/config"@,
            query: true,
            body: Payload::Request,
        },
        Rpc::UpdateConfig => RouteView {
            method: HttpMethod::Patch,
            path: "/v1/config"@,
            query: false,
            body: Payload::Request,
        },
        Rpc::DisposeProcess => RouteView {
            method: HttpMethod::Post,
            path: "/v1/process/dispose"@,
            query: false,
            body: Payload::Request,
        },
        Rpc::UpgradeProcess => RouteView {
            method: HttpMethod::Post,
            path: "/v1/process/upgrade"@,
            query: false,
            body: Payload::Request,
        },
        Rpc::GetBootstrap => RouteView {
            method: HttpMethod::Get,
            path: "/v1/bootstrap"@,
            query: true,
            body: Payload::Request,
        },
        Rpc::ListAgents => RouteView {
            method: HttpMethod::Get,
            path: "/v1/agents"@,
            query: true,
            body: Payload::Request,
        },
        Rpc::ListModels => RouteView {
            method: HttpMethod::Get,
            path: "/v1/models"@,
            query: true,
            body: Payload::Request,
        },
        Rpc::ListProviders => RouteView {
            method: HttpMethod::Get,
            path: "/v1/providers"@,
            query: true,
            body: Payload::Request,
        },
        Rpc::GetProvider { provider_id } => RouteView {
            method: HttpMethod::Get,
            path: "/v1/providers/"@ + provider_id@,
            query: true,
            body: Payload::Default,
        },
        Rpc::ConfigureProvider { provider_id } => RouteView {
            method: HttpMethod::Put,
            path: "/v1/providers/"@ + provider_id@ + "/setup"@,
            query: false,
            body: Payload::Request,
        },
        Rpc::ListCommands => RouteView {
            method: HttpMethod::Get,
            path: "/v1/commands"@,
            query: true,
            body: Payload::Request,
        },
        Rpc::ListSkills => RouteView {
            method: HttpMethod::Get,
            path: "/v1/skills"@,
            query: true,
            body: Payload::Request,
        },
        Rpc::ListTools => RouteView {
            method: HttpMethod::Get,
            path: "/v1/tools"@,
            query: true,
            body: Payload::Request,
        },
        Rpc::ListProviderAuth => RouteView {
            method: HttpMethod::Get,
            path: "/v1/auth"@,
            query: true,
            body: Payload::Request,
        },
        Rpc::SetProviderAuth { provider_id } => RouteView {
            method: HttpMethod::Put,
            path: "/v1/auth/"@ + provider_id@,
            query: false,
            body: Payload::Request,
        },
        Rpc::RemoveProviderAuth { provider_id } => RouteView {
            method: HttpMethod::Delete,
            path: "/v1/auth/"@ + provider_id@,
            query: false,
            body: Payload::Default,
        },
        Rpc::StartOauth { provider_id } => RouteView {
            method: HttpMethod::Post,
            path: "/v1/auth/"@ + provider_id@ + "/oauth/start"@,
            query: false,
            body: Payload::Default,
        },
        Rpc::CompleteOauth { provider_id } => RouteView {
            method: HttpMethod::Post,
            path: "/v1/auth/"@ + provider_id@ + "/oauth/callback"@,
            query: false,
            body: Payload::Request,
        },
        Rpc::CreateSession => RouteView {
            method: HttpMethod::Post,
            path: "/v1/sessions"@,
            query: false,
            body: Payload::Request,
        },
        Rpc::GetSession { session } => RouteView {
            method: HttpMethod::Get,
            path: "/v1/sessions/"@ + session@,
            query: true,
            body: Payload::Default,
        },
        Rpc::ListSessions => RouteView {
            method: HttpMethod::Get,
            path: "/v1/sessions"@,
            query: true,
            body: Payload::Request,
        },
        Rpc::UpdateSession { session } => RouteView {
            method: HttpMethod::Patch,
            path: "/v1/sessions/"@ + session@,
            query: false,
            body: Payload::Request,
        },
        Rpc::DeleteSession { session } => RouteView {
            method: HttpMethod::Delete,
            path: "/v1/sessions/"@ + session@,
            query: false,
            body: Payload::Default,
        },
        Rpc::ForkSession { session } => RouteView {
            method: HttpMethod::Post,
            path: "/v1/sessions/"@ + session@ + "/fork"@,
            query: false,
            body: Payload::Request,
        },
        Rpc::CompactSession { session } => RouteView {
            method: HttpMethod::Post,
            path: "/v1/sessions/"@ + session@ + "/compact"@,
            query: false,
            body: Payload::Request,
        },
        Rpc::SummarizeSession { session } => RouteView {
            method: HttpMethod::Post,
            path: "/v1/sessions/"@ + session@ + "/summarize"@,
            query: false,
            body: Payload::Request,
        },
        Rpc::RevertSession { session } => RouteView {
            method: HttpMethod::Post,
            path: "/v1/sessions/"@ + session@ + "/revert"@,
            query: false,
            body: Payload::Request,
        },
        Rpc::CreateTurn { session } => RouteView {
            method: HttpMethod::Post,
            path: "/v1/sessions/"@ + session@ + "/turns"@,
            query: false,
            body: Payload::Request,
        },
        Rpc::GetTurn { session, turn } => RouteView {
            method: HttpMethod::Get,
            path: "/v1/sessions/"@ + session@ + "/turns/"@ + turn@,
            query: true,
            body: Payload::Default,
        },
        Rpc::WaitTurn { session, turn, timeout } => RouteView {
            method: HttpMethod::Post,
            path: "/v1/sessions/"@ + session@ + "/turns/"@ + turn@ + "/wait?timeoutMs="@ + timeout@,
            query: false,
            body: Payload::Default,
        },
        Rpc::CancelTurn { session, turn } => RouteView {
            method: HttpMethod::Post,
            path: "/v1/sessions/"@ + session@ + "/turns/"@ + turn@ + "/cancel"@,
            query: false,
            body: Payload::Default,
        },
        Rpc::ListMessages { session } => RouteView {
            method: HttpMethod::Get,
            path: "/v1/sessions/"@ + session@ + "/messages"@,
            query: true,
            body: Payload::Request,
        },
        Rpc::GetMessage { session, message } => RouteView {
            method: HttpMethod::Get,
            path: "/v1/sessions/"@ + session@ + "/messages/"@ + message@,
            query: true,
            body: Payload::Default,
        },
        Rpc::DeleteMessagePart { session, message, part } => RouteView {
            method: HttpMethod::Delete,
            path: "/v1/sessions/"@ + session@ + "/messages/"@ + message@ + "/parts/"@ + part@,
            query: false,
            body: Payload::Default,
        },
        Rpc::GetSessionTodo { session } => RouteView {
            method: HttpMethod::Get,
            path: "/v1/sessions/"@ + session@ + "/todo"@,
            query: true,
            body: Payload::Default,
        },
        Rpc::ListEvents { session } => RouteView {
            method: HttpMethod::Get,
            path: "/v1/sessions/"@ + session@ + "/events"@,
            query: true,
            body: Payload::Request,
        },
        Rpc::ListInteractions => RouteView {
            method: HttpMethod::Get,
            path: "/v1/interactions"@,
            query: true,
            body: Payload::Request,
        },
        Rpc::RespondInteraction { id } => RouteView {
            method: HttpMethod::Post,
            path: "/v1/interactions/"@ + id@ + "/respond"@,
            query: false,
            body: Payload::Request,
        },
        Rpc::ListSavedRules => RouteView {
            method: HttpMethod::Get,
            path: "/v1/permissions/rules"@,
            query: true,
            body: Payload::Request,
        },
        Rpc::DeleteSavedRule { rule } => RouteView {
            method: HttpMethod::Delete,
            path: "/v1/permissions/rules/"@ + rule@,
            query: false,
            body: Payload::Default,
        },
        Rpc::ListWorkflows => RouteView {
            method: HttpMethod::Get,
            path: "/v1/workflows"@,
            query: true,
            body: Payload::Request,
        },
        Rpc::GetWorkflowState { session } => RouteView {
            method: HttpMethod::Get,
            path: "/v1/sessions/"@ + session@ + "/workflow"@,
            query: true,
            body: Payload::Default,
        },
        Rpc::SubmitWorkflowCommand { session } => RouteView {
            method: HttpMethod::Post,
            path: "/v1/sessions/"@ + session@ + "/workflow"@,
            query: false,
            body: Payload::Request,
        },
        Rpc::ReadFile => RouteView {
            method: HttpMethod::Get,
            path: "/v1/fs/read"@,
            query: true,
            body: Payload::Request,
        },
        Rpc::ListDirectory => RouteView {
            method: HttpMethod::Get,
            path: "/v1/fs/list"@,
            query: true,
            body: Payload::Request,
        },
        Rpc::FindFiles => RouteView {
            method: HttpMethod::Get,
            path: "/v1/fs/find"@,
            query: true,
            body: Payload::Request,
        },
        Rpc::SearchText => RouteView {
            method: HttpMethod::Get,
            path: "/v1/fs/search"@,
            query: true,
            body: Payload::Request,
        },
        Rpc::SearchSymbols => RouteView {
            method: HttpMethod::Get,
            path: "/v1/fs/symbols"@,
            query: true,
            body: Payload::Request,
        },
        Rpc::ListProjects => RouteView {
            method: HttpMethod::Get,
            path: "/v1/projects"@,
            query: true,
            body: Payload::Request,
        },
        Rpc::GetCurrentProject => RouteView {
            method: HttpMethod::Get,
            path: "/v1/projects/current"@,
            query: true,
            body: Payload::Request,
        },
        Rpc::UpdateProject { project } => RouteView {
            method: HttpMethod::Patch,
            path: "/v1/projects/"@ + project@,
            query: false,
            body: Payload::Request,
        },
        Rpc::ListProjectDirectories { project } => RouteView {
            method: HttpMethod::Get,
            path: "/v1/projects/"@ + project@ + "/directories"@,
            query: true,
            body: Payload::Default,
        },
        Rpc::InitProjectGit { project } => RouteView {
            method: HttpMethod::Post,
            path: "/v1/projects/"@ + project@ + "/init-git"@,
            query: false,
            body: Payload::Default,
        },
        Rpc::GetVcsStatus => RouteView {
            method: HttpMethod::Get,
            path: "/v1/vcs"@,
            query: true,
            body: Payload::Request,
        },
        Rpc::GetVcsDiff => RouteView {
            method: HttpMethod::Get,
            path: "/v1/vcs/diff"@,
            query: true,
            body: Payload::Request,
        },
        Rpc::ApplyPatch => RouteView {
            method: HttpMethod::Post,
            path: "/v1/vcs/apply"@,
            query: false,
            body: Payload::Request,
        },
        Rpc::ListWorktrees => RouteView {
            method: HttpMethod::Get,
            path: "/v1/worktrees"@,
            query: true,
            body: Payload::Request,
        },
        Rpc::CreateWorktree => RouteView {
            method: HttpMethod::Post,
            path: "/v1/worktrees"@,
            query: false,
            body: Payload::Request,
        },
        Rpc::DeleteWorktree { worktree } => RouteView {
            method: HttpMethod::Delete,
            path: "/v1/worktrees/"@ + worktree@,
            query: false,
            body: Payload::Default,
        },
        Rpc::ResetWorktree { worktree } => RouteView {
            method: HttpMethod::Post,
            path: "/v1/worktrees/"@ + worktree@ + "/reset"@,
            query: false,
            body: Payload::Default,
        },
        Rpc::GetMcpStatus => RouteView {
            method: HttpMethod::Get,
            path: "/v1/mcp"@,
            query: true,
            body: Payload::Request,
        },
        Rpc::AddMcpServer => RouteView {
            method: HttpMethod::Post,
            path: "/v1/mcp"@,
            query: false,
            body: Payload::Request,
        },
        Rpc::ConnectMcp { name } => RouteView {
            method: HttpMethod::Post,
            path: "/v1/mcp/"@ + name@ + "/connect"@,
            query: false,
            body: Payload::Default,
        },
        Rpc::DisconnectMcp { name } => RouteView {
            method: HttpMethod::Post,
            path: "/v1/mcp/"@ + name@ + "/disconnect"@,
            query: false,
            body: Payload::Default,
        },
        Rpc::StartMcpAuth { name } => RouteView {
            method: HttpMethod::Post,
            path: "/v1/mcp/"@ + name@ + "/auth"@,
            query: false,
            body: Payload::Default,
        },
        Rpc::CompleteMcpAuth { name } => RouteView {
            method: HttpMethod::Post,
            path: "/v1/mcp/"@ + name@ + "/auth/complete"@,
            query: false,
            body: Payload::Request,
        },
        Rpc::RemoveMcpAuth { name } => RouteView {
            method: HttpMethod::Delete,
            path: "/v1/mcp/"@ + name@ + "/auth"@,
            query: false,
            body: Payload::Default,
        },
        Rpc::ListShells => RouteView {
            method: HttpMethod::Get,
            path: "/v1/pty/shells"@,
            query: true,
            body: Payload::Request,
        },
        Rpc::CreatePty => RouteView {
            method: HttpMethod::Post,
            path: "/v1/pty"@,
            query: false,
            body: Payload::Request,
        },
        Rpc::GetPty { id } => RouteView {
            method: HttpMethod::Get,
            path: "/v1/pty/"@ + id@,
            query: true,
            body: Payload::Default,
        },
        Rpc::UpdatePty { id } => RouteView {
            method: HttpMethod::Put,
            path: "/v1/pty/"@ + id@,
            query: false,
            body: Payload::Request,
        },
        Rpc::DeletePty { id } => RouteView {
            method: HttpMethod::Delete,
            path: "/v1/pty/"@ + id@,
            query: false,
            body: Payload::Default,
        },
        Rpc::CreateConnectToken { id } => RouteView {
            method: HttpMethod::Post,
            path: "/v1/pty/"@ + id@ + "/connect-token"@,
            query: false,
            body: Payload::Default,
        },
        Rpc::IngestLog => RouteView {
            method: HttpMethod::Post,
            path: "/v1/logs"@,
            query: false,
            body: Payload::Request,
        },
        Rpc::ListAgentModels => RouteView {
            method: HttpMethod::Get,
            path: "/v1/agent-models"@,
            query: true,
            body: Payload::Request,
        },
        Rpc::SetAgentModel { agent_id } => RouteView {
            method: HttpMethod::Put,
            path: "/v1/agent-models/"@ + agent_id@,
            query: false,
            body: Payload::Request,
        },
    }
}

/// The HTTP binding of the rpcs of the `Process` service follows the API reference: each is
/// dispatched with the method and to the path listed for it, whatever its
/// path parameters hold.
pub proof fn lemma_process_routes()
    ensures
        route_of(Rpc::GetHealth).method == HttpMethod::Get,
        route_of(Rpc::GetHealth).path == "/v1/health"@,
        route_of(Rpc::GetLocation).method == HttpMethod::Get,
        route_of(Rpc::GetLocation).path == "/v1/location"@,
        route_of(Rpc::GetConfig).method == HttpMethod::Get,
        route_of(Rpc::GetConfig).path == "/v1/config"@,
        route_of(Rpc::UpdateConfig).method == HttpMethod::Patch,
        route_of(Rpc::UpdateConfig).path == "/v1/config"@,
        route_of(Rpc::DisposeProcess).method == HttpMethod::Post,
        route_of(Rpc::DisposeProcess).path == "/v1/process/dispose"@,
        route_of(Rpc::UpgradeProcess).method == HttpMethod::Post,
        route_of(Rpc::UpgradeProcess).path == "/v1/process/upgrade"@,
        route_of(Rpc::GetBootstrap).method == HttpMethod::Get,
        route_of(Rpc::GetBootstrap).path == "/v1/bootstrap"@,
{
}

/// The HTTP binding of the rpcs of the `Catalog` service follows the API reference: each is
/// dispatched with the method and to the path listed for it, whatever its
/// path parameters hold.
pub proof fn lemma_catalog_routes(a: String)
    ensures
        route_of(Rpc::ListAgents).method == HttpMethod::Get,
        route_of(Rpc::ListAgents).path == "/v1/agents"@,
        route_of(Rpc::ListModels).method == HttpMethod::Get,
        route_of(Rpc::ListModels).path == "/v1/models"@,
        route_of(Rpc::ListProviders).method == HttpMethod::Get,
        route_of(Rpc::ListProviders).path == "/v1/providers"@,
        route_of(Rpc::GetProvider { provider_id: a }).method == HttpMethod::Get,
        route_of(Rpc::GetProvider { provider_id: a }).path == "/v1/providers/"@ + a@,
        route_of(Rpc::ConfigureProvider { provider_id: a }).method == HttpMethod::Put,
        route_of(Rpc::ConfigureProvider { provider_id: a }).path == "/v1/providers/"@ + a@ + "/setup"@,
        route_of(Rpc::ListCommands).method == HttpMethod::Get,
        route_of(Rpc::ListCommands).path == "/v1/commands"@,
        route_of(Rpc::ListSkills).method == HttpMethod::Get,
        route_of(Rpc::ListSkills).path == "/v1/skills"@,
        route_of(Rpc::ListTools).method == HttpMethod::Get,
        route_of(Rpc::ListTools).path == "/v1/tools"@,
{
}

/// The HTTP binding of the rpcs of the `Auth` service follows the API reference: each is
/// dispatched with the method and to the path listed for it, whatever its
/// path parameters hold.
pub proof fn lemma_auth_routes(a: String)
    ensures
        route_of(Rpc::ListProviderAuth).method == HttpMethod::Get,
        route_of(Rpc::ListProviderAuth).path == "/v1/auth"@,
        route_of(Rpc::SetProviderAuth { provider_id: a }).method == HttpMethod::Put,
        route_of(Rpc::SetProviderAuth { provider_id: a }).path == "/v1/auth/"@ + a@,
        route_of(Rpc::RemoveProviderAuth { provider_id: a }).method == HttpMethod::Delete,
        route_of(Rpc::RemoveProviderAuth { provider_id: a }).path == "/v1/auth/"@ + a@,
        route_of(Rpc::StartOauth { provider_id: a }).method == HttpMethod::Post,
        route_of(Rpc::StartOauth { provider_id: a }).path == "/v1/auth/"@ + a@ + "/oauth/start"@,
        route_of(Rpc::CompleteOauth { provider_id: a }).method == HttpMethod::Post,
        route_of(Rpc::CompleteOauth { provider_id: a }).path == "/v1/auth/"@ + a@ + "/oauth/callback"@,
{
}

/// The HTTP binding of the rpcs of the `Session` service follows the API reference: each is
/// dispatched with the method and to the path listed for it, whatever its
/// path parameters hold.
pub proof fn lemma_session_routes(a: String)
    ensures
        route_of(Rpc::CreateSession).method == HttpMethod::Post,
        route_of(Rpc::CreateSession).path == "/v1/sessions"@,
        route_of(Rpc::GetSession { session: a }).method == HttpMethod::Get,
        route_of(Rpc::GetSession { session: a }).path == "/v1/sessions/"@ + a@,
        route_of(Rpc::ListSessions).method == HttpMethod::Get,
        route_of(Rpc::ListSessions).path == "/v1/sessions"@,
        route_of(Rpc::UpdateSession { session: a }).method == HttpMethod::Patch,
        route_of(Rpc::UpdateSession { session: a }).path == "/v1/sessions/"@ + a@,
        route_of(Rpc::DeleteSession { session: a }).method == HttpMethod::Delete,
        route_of(Rpc::DeleteSession { session: a }).path == "/v1/sessions/"@ + a@,
        route_of(Rpc::ForkSession { session: a }).method == HttpMethod::Post,
        route_of(Rpc::ForkSession { session: a }).path == "/v1/sessions/"@ + a@ + "/fork"@,
        route_of(Rpc::CompactSession { session: a }).method == HttpMethod::Post,
        route_of(Rpc::CompactSession { session: a }).path == "/v1/sessions/"@ + a@ + "/compact"@,
        route_of(Rpc::SummarizeSession { session: a }).method == HttpMethod::Post,
        route_of(Rpc::SummarizeSession { session: a }).path == "/v1/sessions/"@ + a@ + "/summarize"@,
        route_of(Rpc::RevertSession { session: a }).method == HttpMethod::Post,
        route_of(Rpc::RevertSession { session: a }).path == "/v1/sessions/"@ + a@ + "/revert"@,
{
}

/// The HTTP binding of the rpcs of the `Turn` service follows the API reference: each is
/// dispatched with the method and to the path listed for it, whatever its
/// path parameters hold.
pub proof fn lemma_turn_routes(a: String, b: String, c: String)
    ensures
        route_of(Rpc::CreateTurn { session: a }).method == HttpMethod::Post,
        route_of(Rpc::CreateTurn { session: a }).path == "/v1/sessions/"@ + a@ + "/turns"@,
        route_of(Rpc::GetTurn { session: a, turn: b }).method == HttpMethod::Get,
        route_of(Rpc::GetTurn { session: a, turn: b }).path == "/v1/sessions/"@ + a@ + "/turns/"@ + b@,
        route_of(Rpc::WaitTurn { session: a, turn: b, timeout: c }).method == HttpMethod::Post,
        route_of(Rpc::WaitTurn { session: a, turn: b, timeout: c }).path == "/v1/sessions/"@ + a@ + "/turns/"@ + b@ + "/wait?timeoutMs="@ + c@,
        route_of(Rpc::CancelTurn { session: a, turn: b }).method == HttpMethod::Post,
        route_of(Rpc::CancelTurn { session: a, turn: b }).path == "/v1/sessions/"@ + a@ + "/turns/"@ + b@ + "/cancel"@,
{
}

/// The HTTP binding of the rpcs of the `Messages` service follows the API reference: each is
/// dispatched with the method and to the path listed for it, whatever its
/// path parameters hold.
pub proof fn lemma_messages_routes(a: String, b: String, c: String)
    ensures
        route_of(Rpc::ListMessages { session: a }).method == HttpMethod::Get,
        route_of(Rpc::ListMessages { session: a }).path == "/v1/sessions/"@ + a@ + "/messages"@,
        route_of(Rpc::GetMessage { session: a, message: b }).method == HttpMethod::Get,
        route_of(Rpc::GetMessage { session: a, message: b }).path == "/v1/sessions/"@ + a@ + "/messages/"@ + b@,
        route_of(Rpc::DeleteMessagePart { session: a, message: b, part: c }).method == HttpMethod::Delete,
        route_of(Rpc::DeleteMessagePart { session: a, message: b, part: c }).path == "/v1/sessions/"@ + a@ + "/messages/"@ + b@ + "/parts/"@ + c@,
        route_of(Rpc::GetSessionTodo { session: a }).method == HttpMethod::Get,
        route_of(Rpc::GetSessionTodo { session: a }).path == "/v1/sessions/"@ + a@ + "/todo"@,
{
}

/// The HTTP binding of the rpcs of the `Events` service follows the API reference: each is
/// dispatched with the method and to the path listed for it, whatever its
/// path parameters hold.
pub proof fn lemma_events_routes(a: String)
    ensures
        route_of(Rpc::ListEvents { session: a }).method == HttpMethod::Get,
        route_of(Rpc::ListEvents { session: a }).path == "/v1/sessions/"@ + a@ + "/events"@,
{
}

/// The HTTP binding of the rpcs of the `Interactions` service follows the API reference: each is
/// dispatched with the method and to the path listed for it, whatever its
/// path parameters hold.
pub proof fn lemma_interactions_routes(a: String)
    ensures
        route_of(Rpc::ListInteractions).method == HttpMethod::Get,
        route_of(Rpc::ListInteractions).path == "/v1/interactions"@,
        route_of(Rpc::RespondInteraction { id: a }).method == HttpMethod::Post,
        route_of(Rpc::RespondInteraction { id: a }).path == "/v1/interactions/"@ + a@ + "/respond"@,
        route_of(Rpc::ListSavedRules).method == HttpMethod::Get,
        route_of(Rpc::ListSavedRules).path == "/v1/permissions/rules"@,
        route_of(Rpc::DeleteSavedRule { rule: a }).method == HttpMethod::Delete,
        route_of(Rpc::DeleteSavedRule { rule: a }).path == "/v1/permissions/rules/"@ + a@,
{
}

/// The HTTP binding of the rpcs of the `Workflow` service follows the API reference: each is
/// dispatched with the method and to the path listed for it, whatever its
/// path parameters hold.
pub proof fn lemma_workflow_routes(a: String)
    ensures
        route_of(Rpc::ListWorkflows).method == HttpMethod::Get,
        route_of(Rpc::ListWorkflows).path == "/v1/workflows"@,
        route_of(Rpc::GetWorkflowState { session: a }).method == HttpMethod::Get,
        route_of(Rpc::GetWorkflowState { session: a }).path == "/v1/sessions/"@ + a@ + "/workflow"@,
        route_of(Rpc::SubmitWorkflowCommand { session: a }).method == HttpMethod::Post,
        route_of(Rpc::SubmitWorkflowCommand { session: a }).path == "/v1/sessions/"@ + a@ + "/workflow"@,
{
}

/// The HTTP binding of the rpcs of the `Files` service follows the API reference: each is
/// dispatched with the method and to the path listed for it, whatever its
/// path parameters hold.
pub proof fn lemma_files_routes()
    ensures
        route_of(Rpc::ReadFile).method == HttpMethod::Get,
        route_of(Rpc::ReadFile).path == "/v1/fs/read"@,
        route_of(Rpc::ListDirectory).method == HttpMethod::Get,
        route_of(Rpc::ListDirectory).path == "/v1/fs/list"@,
        route_of(Rpc::FindFiles).method == HttpMethod::Get,
        route_of(Rpc::FindFiles).path == "/v1/fs/find"@,
        route_of(Rpc::SearchText).method == HttpMethod::Get,
        route_of(Rpc::SearchText).path == "/v1/fs/search"@,
        route_of(Rpc::SearchSymbols).method == HttpMethod::Get,
        route_of(Rpc::SearchSymbols).path == "/v1/fs/symbols"@,
{
}

/// The HTTP binding of the rpcs of the `Project` service follows the API reference: each is
/// dispatched with the method and to the path listed for it, whatever its
/// path parameters hold.
pub proof fn lemma_project_routes(a: String)
    ensures
        route_of(Rpc::ListProjects).method == HttpMethod::Get,
        route_of(Rpc::ListProjects).path == "/v1/projects"@,
        route_of(Rpc::GetCurrentProject).method == HttpMethod::Get,
        route_of(Rpc::GetCurrentProject).path == "/v1/projects/current"@,
        route_of(Rpc::UpdateProject { project: a }).method == HttpMethod::Patch,
        route_of(Rpc::UpdateProject { project: a }).path == "/v1/projects/"@ + a@,
        route_of(Rpc::ListProjectDirectories { project: a }).method == HttpMethod::Get,
        route_of(Rpc::ListProjectDirectories { project: a }).path == "/v1/projects/"@ + a@ + "/directories"@,
        route_of(Rpc::InitProjectGit { project: a }).method == HttpMethod::Post,
        route_of(Rpc::InitProjectGit { project: a }).path == "/v1/projects/"@ + a@ + "/init-git"@,
        route_of(Rpc::GetVcsStatus).method == HttpMethod::Get,
        route_of(Rpc::GetVcsStatus).path == "/v1/vcs"@,
        route_of(Rpc::GetVcsDiff).method == HttpMethod::Get,
        route_of(Rpc::GetVcsDiff).path == "/v1/vcs/diff"@,
        route_of(Rpc::ApplyPatch).method == HttpMethod::Post,
        route_of(Rpc::ApplyPatch).path == "/v1/vcs/apply"@,
{
}

/// The HTTP binding of the rpcs of the `Worktrees` service follows the API reference: each is
/// dispatched with the method and to the path listed for it, whatever its
/// path parameters hold.
pub proof fn lemma_worktrees_routes(a: String)
    ensures
        route_of(Rpc::ListWorktrees).method == HttpMethod::Get,
        route_of(Rpc::ListWorktrees).path == "/v1/worktrees"@,
        route_of(Rpc::CreateWorktree).method == HttpMethod::Post,
        route_of(Rpc::CreateWorktree).path == "/v1/worktrees"@,
        route_of(Rpc::DeleteWorktree { worktree: a }).method == HttpMethod::Delete,
        route_of(Rpc::DeleteWorktree { worktree: a }).path == "/v1/worktrees/"@ + a@,
        route_of(Rpc::ResetWorktree { worktree: a }).method == HttpMethod::Post,
        route_of(Rpc::ResetWorktree { worktree: a }).path == "/v1/worktrees/"@ + a@ + "/reset"@,
{
}

/// The HTTP binding of the rpcs of the `Mcp` service follows the API reference: each is
/// dispatched with the method and to the path listed for it, whatever its
/// path parameters hold.
pub proof fn lemma_mcp_routes(a: String)
    ensures
        route_of(Rpc::GetMcpStatus).method == HttpMethod::Get,
        route_of(Rpc::GetMcpStatus).path == "/v1/mcp"@,
        route_of(Rpc::AddMcpServer).method == HttpMethod::Post,
        route_of(Rpc::AddMcpServer).path == "/v1/mcp"@,
        route_of(Rpc::ConnectMcp { name: a }).method == HttpMethod::Post,
        route_of(Rpc::ConnectMcp { name: a }).path == "/v1/mcp/"@ + a@ + "/connect"@,
        route_of(Rpc::DisconnectMcp { name: a }).method == HttpMethod::Post,
        route_of(Rpc::DisconnectMcp { name: a }).path == "/v1/mcp/"@ + a@ + "/disconnect"@,
        route_of(Rpc::StartMcpAuth { name: a }).method == HttpMethod::Post,
        route_of(Rpc::StartMcpAuth { name: a }).path == "/v1/mcp/"@ + a@ + "/auth"@,
        route_of(Rpc::CompleteMcpAuth { name: a }).method == HttpMethod::Post,
        route_of(Rpc::CompleteMcpAuth { name: a }).path == "/v1/mcp/"@ + a@ + "/auth/complete"@,
        route_of(Rpc::RemoveMcpAuth { name: a }).method == HttpMethod::Delete,
        route_of(Rpc::RemoveMcpAuth { name: a }).path == "/v1/mcp/"@ + a@ + "/auth"@,
{
}

/// The HTTP binding of the rpcs of the `Pty` service follows the API reference: each is
/// dispatched with the method and to the path listed for it, whatever its
/// path parameters hold.
pub proof fn lemma_pty_routes(a: String)
    ensures
        route_of(Rpc::ListShells).method == HttpMethod::Get,
        route_of(Rpc::ListShells).path == "/v1/pty/shells"@,
        route_of(Rpc::CreatePty).method == HttpMethod::Post,
        route_of(Rpc::CreatePty).path == "/v1/pty"@,
        route_of(Rpc::GetPty { id: a }).method == HttpMethod::Get,
        route_of(Rpc::GetPty { id: a }).path == "/v1/pty/"@ + a@,
        route_of(Rpc::UpdatePty { id: a }).method == HttpMethod::Put,
        route_of(Rpc::UpdatePty { id: a }).path == "/v1/pty/"@ + a@,
        route_of(Rpc::DeletePty { id: a }).method == HttpMethod::Delete,
        route_of(Rpc::DeletePty { id: a }).path == "/v1/pty/"@ + a@,
        route_of(Rpc::CreateConnectToken { id: a }).method == HttpMethod::Post,
        route_of(Rpc::CreateConnectToken { id: a }).path == "/v1/pty/"@ + a@ + "/connect-token"@,
{
}

/// The HTTP binding of the rpcs of the `Logs` service follows the API reference: each is
/// dispatched with the method and to the path listed for it, whatever its
/// path parameters hold.
pub proof fn lemma_logs_routes()
    ensures
        route_of(Rpc::IngestLog).method == HttpMethod::Post,
        route_of(Rpc::IngestLog).path == "/v1/logs"@,
{
}

/// The HTTP binding of the rpcs of the `AgentModels` service follows the API reference: each is
/// dispatched with the method and to the path listed for it, whatever its
/// path parameters hold.
pub proof fn lemma_agent_models_routes(a: String)
    ensures
        route_of(Rpc::ListAgentModels).method == HttpMethod::Get,
        route_of(Rpc::ListAgentModels).path == "/v1/agent-models"@,
        route_of(Rpc::SetAgentModel { agent_id: a }).method == HttpMethod::Put,
        route_of(Rpc::SetAgentModel { agent_id: a }).path == "/v1/agent-models/"@ + a@,
{
}

/// Exactly the `GET` dispatches send the request's fields as query
/// parameters; every other method sends no query.
pub proof fn lemma_only_get_routes_carry_a_query(rpc: Rpc)
    ensures
        route_of(rpc).query == (route_of(rpc).method == HttpMethod::Get),
{
}

/// The HTTP route that a unary rpc is dispatched to.
#[verifier::rlimit(50)]
pub fn rpc_route(rpc: &Rpc) -> (res: Route)
    ensures
        res@ == route_of(*rpc),
{
    match rpc {
        Rpc::GetHealth => {
            let mut p = owned("/v1/health");
            Route {
                method: HttpMethod::Get,
                path: p,
                query: true,
                body: Payload::Request,
            }
        },
        Rpc::GetLocation => {
            let mut p = owned("/v1/location");
            Route {
                method: HttpMethod::Get,
                path: p,
                query: true,
                body: Payload::Request,
            }
        },
        Rpc::GetConfig => {
            let mut p = owned("/v1/config");
            Route {
                method: HttpMethod::Get,
                path: p,
                query: true,
                body: Payload::Request,
            }
        },
        Rpc::UpdateConfig => {
            let mut p = owned("/v1/config");
            Route {
                method: HttpMethod::Patch,
                path: p,
                query: false,
                body: Payload::Request,
            }
        },
        Rpc::DisposeProcess => {
            let mut p = owned("/v1/process/dispose");
            Route {
                method: HttpMethod::Post,
                path: p,
                query: false,
                body: Payload::Request,
            }
        },
        Rpc::UpgradeProcess => {
            let mut p = owned("/v1/process/upgrade");
            Route {
                method: HttpMethod::Post,
                path: p,
                query: false,
                body: Payload::Request,
            }
        },
        Rpc::GetBootstrap => {
            let mut p = owned("/v1/bootstrap");
            Route {
                method: HttpMethod::Get,
                path: p,
                query: true,
                body: Payload::Request,
            }
        },
        Rpc::ListAgents => {
            let mut p = owned("/v1/agents");
            Route {
                method: HttpMethod::Get,
                path: p,
                query: true,
                body: Payload::Request,
            }
        },
        Rpc::ListModels => {
            let mut p = owned("/v1/models");
            Route {
                method: HttpMethod::Get,
                path: p,
                query: true,
                body: Payload::Request,
            }
        },
        Rpc::ListProviders => {
            let mut p = owned("/v1/providers");
            Route {
                method: HttpMethod::Get,
                path: p,
                query: true,
                body: Payload::Request,
            }
        },
        Rpc::GetProvider { provider_id } => {
            let mut p = owned("/v1/providers/");
            p.append(provider_id.as_str());
            Route {
                method: HttpMethod::Get,
                path: p,
                query: true,
                body: Payload::Default,
            }
        },
        Rpc::ConfigureProvider { provider_id } => {
            let mut p = owned("/v1/providers/");
            p.append(provider_id.as_str());
            p.append("/setup");
            Route {
                method: HttpMethod::Put,
                path: p,
                query: false,
                body: Payload::Request,
            }
        },
        Rpc::ListCommands => {
            let mut p = owned("/v1/commands");
            Route {
                method: HttpMethod::Get,
                path: p,
                query: true,
                body: Payload::Request,
            }
        },
        Rpc::ListSkills => {
            let mut p = owned("/v1/skills");
            Route {
                method: HttpMethod::Get,
                path: p,
                query: true,
                body: Payload::Request,
            }
        },
        Rpc::ListTools => {
            let mut p = owned("/v1/tools");
            Route {
                method: HttpMethod::Get,
                path: p,
                query: true,
                body: Payload::Request,
            }
        },
        Rpc::ListProviderAuth => {
            let mut p = owned("/v1/auth");
            Route {
                method: HttpMethod::Get,
                path: p,
                query: true,
                body: Payload::Request,
            }
        },
        Rpc::SetProviderAuth { provider_id } => {
            let mut p = owned("/v1/auth/");
            p.append(provider_id.as_str());
            Route {
                method: HttpMethod::Put,
                path: p,
                query: false,
                body: Payload::Request,
            }
        },
        Rpc::RemoveProviderAuth { provider_id } => {
            let mut p = owned("/v1/auth/");
            p.append(provider_id.as_str());
            Route {
                method: HttpMethod::Delete,
                path: p,
                query: false,
                body: Payload::Default,
            }
        },
        Rpc::StartOauth { provider_id } => {
            let mut p = owned("/v1/auth/");
            p.append(provider_id.as_str());
            p.append("/oauth/start");
            Route {
                method: HttpMethod::Post,
                path: p,
                query: false,
                body: Payload::Default,
            }
        },
        Rpc::CompleteOauth { provider_id } => {
            let mut p = owned("/v1/auth/");
            p.append(provider_id.as_str());
            p.append("/oauth/callback");
            Route {
                method: HttpMethod::Post,
                path: p,
                query: false,
                body: Payload::Request,
            }
        },
        Rpc::CreateSession => {
            let mut p = owned("/v1/sessions");
            Route {
                method: HttpMethod::Post,
                path: p,
                query: false,
                body: Payload::Request,
            }
        },
        Rpc::GetSession { session } => {
            let mut p = owned("/v1/sessions/");
            p.append(session.as_str());
            Route {
                method: HttpMethod::Get,
                path: p,
                query: true,
                body: Payload::Default,
            }
        },
        Rpc::ListSessions => {
            let mut p = owned("/v1/sessions");
            Route {
                method: HttpMethod::Get,
                path: p,
                query: true,
                body: Payload::Request,
            }
        },
        Rpc::UpdateSession { session } => {
            let mut p = owned("/v1/sessions/");
            p.append(session.as_str());
            Route {
                method: HttpMethod::Patch,
                path: p,
                query: false,
                body: Payload::Request,
            }
        },
        Rpc::DeleteSession { session } => {
            let mut p = owned("/v1/sessions/");
            p.append(session.as_str());
            Route {
                method: HttpMethod::Delete,
                path: p,
                query: false,
                body: Payload::Default,
            }
        },
        Rpc::ForkSession { session } => {
            let mut p = owned("/v1/sessions/");
            p.append(session.as_str());
            p.append("/fork");
            Route {
                method: HttpMethod::Post,
                path: p,
                query: false,
                body: Payload::Request,
            }
        },
        Rpc::CompactSession { session } => {
            let mut p = owned("/v1/sessions/");
            p.append(session.as_str());
            p.append("/compact");
            Route {
                method: HttpMethod::Post,
                path: p,
                query: false,
                body: Payload::Request,
            }
        },
        Rpc::SummarizeSession { session } => {
            let mut p = owned("/v1/sessions/");
            p.append(session.as_str());
            p.append("/summarize");
            Route {
                method: HttpMethod::Post,
                path: p,
                query: false,
                body: Payload::Request,
            }
        },
        Rpc::RevertSession { session } => {
            let mut p = owned("/v1/sessions/");
            p.append(session.as_str());
            p.append("/revert");
            Route {
                method: HttpMethod::Post,
                path: p,
                query: false,
                body: Payload::Request,
            }
        },
        Rpc::CreateTurn { session } => {
            let mut p = owned("/v1/sessions/");
            p.append(session.as_str());
            p.append("/turns");
            Route {
                method: HttpMethod::Post,
                path: p,
                query: false,
                body: Payload::Request,
            }
        },
        Rpc::GetTurn { session, turn } => {
            let mut p = owned("/v1/sessions/");
            p.append(session.as_str());
            p.append("/turns/");
            p.append(turn.as_str());
            Route {
                method: HttpMethod::Get,
                path: p,
                query: true,
                body: Payload::Default,
            }
        },
        Rpc::WaitTurn { session, turn, timeout } => {
            let mut p = owned("/v1/sessions/");
            p.append(session.as_str());
            p.append("/turns/");
            p.append(turn.as_str());
            p.append("/wait?timeoutMs=");
            p.append(timeout.as_str());
            Route {
                method: HttpMethod::Post,
                path: p,
                query: false,
                body: Payload::Default,
            }
        },
        Rpc::CancelTurn { session, turn } => {
            let mut p = owned("/v1/sessions/");
            p.append(session.as_str());
            p.append("/turns/");
            p.append(turn.as_str());
            p.append("/cancel");
            Route {
                method: HttpMethod::Post,
                path: p,
                query: false,
                body: Payload::Default,
            }
        },
        Rpc::ListMessages { session } => {
            let mut p = owned("/v1/sessions/");
            p.append(session.as_str());
            p.append("/messages");
            Route {
                method: HttpMethod::Get,
                path: p,
                query: true,
                body: Payload::Request,
            }
        },
        Rpc::GetMessage { session, message } => {
            let mut p = owned("/v1/sessions/");
            p.append(session.as_str());
            p.append("/messages/");
            p.append(message.as_str());
            Route {
                method: HttpMethod::Get,
                path: p,
                query: true,
                body: Payload::Default,
            }
        },
        Rpc::DeleteMessagePart { session, message, part } => {
            let mut p = owned("/v1/sessions/");
            p.append(session.as_str());
            p.append("/messages/");
            p.append(message.as_str());
            p.append("/parts/");
            p.append(part.as_str());
            Route {
                method: HttpMethod::Delete,
                path: p,
                query: false,
                body: Payload::Default,
            }
        },
        Rpc::GetSessionTodo { session } => {
            let mut p = owned("/v1/sessions/");
            p.append(session.as_str());
            p.append("/todo");
            Route {
                method: HttpMethod::Get,
                path: p,
                query: true,
                body: Payload::Default,
            }
        },
        Rpc::ListEvents { session } => {
            let mut p = owned("/v1/sessions/");
            p.append(session.as_str());
            p.append("/events");
            Route {
                method: HttpMethod::Get,
                path: p,
                query: true,
                body: Payload::Request,
            }
        },
        Rpc::ListInteractions => {
            let mut p = owned("/v1/interactions");
            Route {
                method: HttpMethod::Get,
                path: p,
                query: true,
                body: Payload::Request,
            }
        },
        Rpc::RespondInteraction { id } => {
            let mut p = owned("/v1/interactions/");
            p.append(id.as_str());
            p.append("/respond");
            Route {
                method: HttpMethod::Post,
                path: p,
                query: false,
                body: Payload::Request,
            }
        },
        Rpc::ListSavedRules => {
            let mut p = owned("/v1/permissions/rules");
            Route {
                method: HttpMethod::Get,
                path: p,
                query: true,
                body: Payload::Request,
            }
        },
        Rpc::DeleteSavedRule { rule } => {
            let mut p = owned("/v1/permissions/rules/");
            p.append(rule.as_str());
            Route {
                method: HttpMethod::Delete,
                path: p,
                query: false,
                body: Payload::Default,
            }
        },
        Rpc::ListWorkflows => {
            let mut p = owned("/v1/workflows");
            Route {
                method: HttpMethod::Get,
                path: p,
                query: true,
                body: Payload::Request,
            }
        },
        Rpc::GetWorkflowState { session } => {
            let mut p = owned("/v1/sessions/");
            p.append(session.as_str());
            p.append("/workflow");
            Route {
                method: HttpMethod::Get,
                path: p,
                query: true,
                body: Payload::Default,
            }
        },
        Rpc::SubmitWorkflowCommand { session } => {
            let mut p = owned("/v1/sessions/");
            p.append(session.as_str());
            p.append("/workflow");
            Route {
                method: HttpMethod::Post,
                path: p,
                query: false,
                body: Payload::Request,
            }
        },
        Rpc::ReadFile => {
            let mut p = owned("/v1/fs/read");
            Route {
                method: HttpMethod::Get,
                path: p,
                query: true,
                body: Payload::Request,
            }
        },
        Rpc::ListDirectory => {
            let mut p = owned("/v1/fs/list");
            Route {
                method: HttpMethod::Get,
                path: p,
                query: true,
                body: Payload::Request,
            }
        },
        Rpc::FindFiles => {
            let mut p = owned("/v1/fs/find");
            Route {
                method: HttpMethod::Get,
                path: p,
                query: true,
                body: Payload::Request,
            }
        },
        Rpc::SearchText => {
            let mut p = owned("/v1/fs/search");
            Route {
                method: HttpMethod::Get,
                path: p,
                query: true,
                body: Payload::Request,
            }
        },
        Rpc::SearchSymbols => {
            let mut p = owned("/v1/fs/symbols");
            Route {
                method: HttpMethod::Get,
                path: p,
                query: true,
                body: Payload::Request,
            }
        },
        Rpc::ListProjects => {
            let mut p = owned("/v1/projects");
            Route {
                method: HttpMethod::Get,
                path: p,
                query: true,
                body: Payload::Request,
            }
        },
        Rpc::GetCurrentProject => {
            let mut p = owned("/v1/projects/current");
            Route {
                method: HttpMethod::Get,
                path: p,
                query: true,
                body: Payload::Request,
            }
        },
        Rpc::UpdateProject { project } => {
            let mut p = owned("/v1/projects/");
            p.append(project.as_str());
            Route {
                method: HttpMethod::Patch,
                path: p,
                query: false,
                body: Payload::Request,
            }
        },
        Rpc::ListProjectDirectories { project } => {
            let mut p = owned("/v1/projects/");
            p.append(project.as_str());
            p.append("/directories");
            Route {
                method: HttpMethod::Get,
                path: p,
                query: true,
                body: Payload::Default,
            }
        },
        Rpc::InitProjectGit { project } => {
            let mut p = owned("/v1/projects/");
            p.append(project.as_str());
            p.append("/init-git");
            Route {
                method: HttpMethod::Post,
                path: p,
                query: false,
                body: Payload::Default,
            }
        },
        Rpc::GetVcsStatus => {
            let mut p = owned("/v1/vcs");
            Route {
                method: HttpMethod::Get,
                path: p,
                query: true,
                body: Payload::Request,
            }
        },
        Rpc::GetVcsDiff => {
            let mut p = owned("/v1/vcs/diff");
            Route {
                method: HttpMethod::Get,
                path: p,
                query: true,
                body: Payload::Request,
            }
        },
        Rpc::ApplyPatch => {
            let mut p = owned("/v1/vcs/apply");
            Route {
                method: HttpMethod::Post,
                path: p,
                query: false,
                body: Payload::Request,
            }
        },
        Rpc::ListWorktrees => {
            let mut p = owned("/v1/worktrees");
            Route {
                method: HttpMethod::Get,
                path: p,
                query: true,
                body: Payload::Request,
            }
        },
        Rpc::CreateWorktree => {
            let mut p = owned("/v1/worktrees");
            Route {
                method: HttpMethod::Post,
                path: p,
                query: false,
                body: Payload::Request,
            }
        },
        Rpc::DeleteWorktree { worktree } => {
            let mut p = owned("/v1/worktrees/");
            p.append(worktree.as_str());
            Route {
                method: HttpMethod::Delete,
                path: p,
                query: false,
                body: Payload::Default,
            }
        },
        Rpc::ResetWorktree { worktree } => {
            let mut p = owned("/v1/worktrees/");
            p.append(worktree.as_str());
            p.append("/reset");
            Route {
                method: HttpMethod::Post,
                path: p,
                query: false,
                body: Payload::Default,
            }
        },
        Rpc::GetMcpStatus => {
            let mut p = owned("/v1/mcp");
            Route {
                method: HttpMethod::Get,
                path: p,
                query: true,
                body: Payload::Request,
            }
        },
        Rpc::AddMcpServer => {
            let mut p = owned("/v1/mcp");
            Route {
                method: HttpMethod::Post,
                path: p,
                query: false,
                body: Payload::Request,
            }
        },
        Rpc::ConnectMcp { name } => {
            let mut p = owned("/v1/mcp/");
            p.append(name.as_str());
            p.append("/connect");
            Route {
                method: HttpMethod::Post,
                path: p,
                query: false,
                body: Payload::Default,
            }
        },
        Rpc::DisconnectMcp { name } => {
            let mut p = owned("/v1/mcp/");
            p.append(name.as_str());
            p.append("/disconnect");
            Route {
                method: HttpMethod::Post,
                path: p,
                query: false,
                body: Payload::Default,
            }
        },
        Rpc::StartMcpAuth { name } => {
            let mut p = owned("/v1/mcp/");
            p.append(name.as_str());
            p.append("/auth");
            Route {
                method: HttpMethod::Post,
                path: p,
                query: false,
                body: Payload::Default,
            }
        },
        Rpc::CompleteMcpAuth { name } => {
            let mut p = owned("/v1/mcp/");
            p.append(name.as_str());
            p.append("/auth/complete");
            Route {
                method: HttpMethod::Post,
                path: p,
                query: false,
                body: Payload::Request,
            }
        },
        Rpc::RemoveMcpAuth { name } => {
            let mut p = owned("/v1/mcp/");
            p.append(name.as_str());
            p.append("/auth");
            Route {
                method: HttpMethod::Delete,
                path: p,
                query: false,
                body: Payload::Default,
            }
        },
        Rpc::ListShells => {
            let mut p = owned("/v1/pty/shells");
            Route {
                method: HttpMethod::Get,
                path: p,
                query: true,
                body: Payload::Request,
            }
        },
        Rpc::CreatePty => {
            let mut p = owned("/v1/pty");
            Route {
                method: HttpMethod::Post,
                path: p,
                query: false,
                body: Payload::Request,
            }
        },
        Rpc::GetPty { id } => {
            let mut p = owned("/v1/pty/");
            p.append(id.as_str());
            Route {
                method: HttpMethod::Get,
                path: p,
                query: true,
                body: Payload::Default,
            }
        },
        Rpc::UpdatePty { id } => {
            let mut p = owned("/v1/pty/");
            p.append(id.as_str());
            Route {
                method: HttpMethod::Put,
                path: p,
                query: false,
                body: Payload::Request,
            }
        },
        Rpc::DeletePty { id } => {
            let mut p = owned("/v1/pty/");
            p.append(id.as_str());
            Route {
                method: HttpMethod::Delete,
                path: p,
                query: false,
                body: Payload::Default,
            }
        },
        Rpc::CreateConnectToken { id } => {
            let mut p = owned("/v1/pty/");
            p.append(id.as_str());
            p.append("/connect-token");
            Route {
                method: HttpMethod::Post,
                path: p,
                query: false,
                body: Payload::Default,
            }
        },
        Rpc::IngestLog => {
            let mut p = owned("/v1/logs");
            Route {
                method: HttpMethod::Post,
                path: p,
                query: false,
                body: Payload::Request,
            }
        },
        Rpc::ListAgentModels => {
            let mut p = owned("/v1/agent-models");
            Route {
                method: HttpMethod::Get,
                path: p,
                query: true,
                body: Payload::Request,
            }
        },
        Rpc::SetAgentModel { agent_id } => {
            let mut p = owned("/v1/agent-models/");
            p.append(agent_id.as_str());
            Route {
                method: HttpMethod::Put,
                path: p,
                query: false,
                body: Payload::Request,
            }
        },
    }
}

} // verus!
