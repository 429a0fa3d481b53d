use hya_server::grpc_routes::{rpc_route, HttpMethod, Payload, Route, Rpc};

fn s(text: &str) -> String {
    text.to_string()
}

fn check(route: Route, method: HttpMethod, path: &str, query: bool, body: Payload) {
    assert_eq!(route.method, method);
    assert_eq!(route.path, path);
    assert_eq!(route.query, query);
    assert_eq!(route.body, body);
}

#[test]
fn plain_get_rpcs_send_the_request_as_query() {
    check(rpc_route(&Rpc::GetHealth), HttpMethod::Get, "/v1/health", true, Payload::Request);
    check(rpc_route(&Rpc::ListSessions), HttpMethod::Get, "/v1/sessions", true, Payload::Request);
    check(rpc_route(&Rpc::FindFiles), HttpMethod::Get, "/v1/fs/find", true, Payload::Request);
    check(rpc_route(&Rpc::ListAgentModels), HttpMethod::Get, "/v1/agent-models", true, Payload::Request);
}

#[test]
fn unary_rpcs_send_the_request_as_body() {
    check(rpc_route(&Rpc::UpdateConfig), HttpMethod::Patch, "/v1/config", false, Payload::Request);
    check(rpc_route(&Rpc::CreateSession), HttpMethod::Post, "/v1/sessions", false, Payload::Request);
    check(rpc_route(&Rpc::DisposeProcess), HttpMethod::Post, "/v1/process/dispose", false, Payload::Request);
    check(rpc_route(&Rpc::IngestLog), HttpMethod::Post, "/v1/logs", false, Payload::Request);
}

#[test]
fn path_parameters_fill_the_route() {
    let openai = Rpc::GetProvider { provider_id: s("openai") };
    check(rpc_route(&openai), HttpMethod::Get, "/v1/providers/openai", true, Payload::Default);
    let set = Rpc::SetProviderAuth { provider_id: s("testprovider") };
    check(rpc_route(&set), HttpMethod::Put, "/v1/auth/testprovider", false, Payload::Request);
    let remove = Rpc::RemoveProviderAuth { provider_id: s("testprovider") };
    check(rpc_route(&remove), HttpMethod::Delete, "/v1/auth/testprovider", false, Payload::Default);
    let start = Rpc::StartOauth { provider_id: s("p") };
    check(rpc_route(&start), HttpMethod::Post, "/v1/auth/p/oauth/start", false, Payload::Default);
    let complete = Rpc::CompleteOauth { provider_id: s("p") };
    check(rpc_route(&complete), HttpMethod::Post, "/v1/auth/p/oauth/callback", false, Payload::Request);
    let part = Rpc::DeleteMessagePart { session: s("s"), message: s("m"), part: s("p") };
    check(rpc_route(&part), HttpMethod::Delete, "/v1/sessions/s/messages/m/parts/p", false, Payload::Default);
    let wait = Rpc::WaitTurn { session: s("s"), turn: s("t"), timeout: s("5000") };
    check(
        rpc_route(&wait),
        HttpMethod::Post,
        "/v1/sessions/s/turns/t/wait?timeoutMs=5000",
        false,
        Payload::Default,
    );
    let events = Rpc::ListEvents { session: s("s") };
    check(rpc_route(&events), HttpMethod::Get, "/v1/sessions/s/events", true, Payload::Request);
    let respond = Rpc::RespondInteraction { id: s("r1") };
    check(rpc_route(&respond), HttpMethod::Post, "/v1/interactions/r1/respond", false, Payload::Request);
    let model = Rpc::SetAgentModel { agent_id: s("build") };
    check(rpc_route(&model), HttpMethod::Put, "/v1/agent-models/build", false, Payload::Request);
    let token = Rpc::CreateConnectToken { id: s("pty1") };
    check(rpc_route(&token), HttpMethod::Post, "/v1/pty/pty1/connect-token", false, Payload::Default);
    let pty = Rpc::UpdatePty { id: s("pty1") };
    check(rpc_route(&pty), HttpMethod::Put, "/v1/pty/pty1", false, Payload::Request);
}
