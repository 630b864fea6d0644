//! The routes, and the document that describes them.

use vstd::prelude::*;

verus! {

/// A route as the discovery document describes it.
pub struct Endpoint {
    pub section: &'static str,
    pub route: &'static str,
    pub auth: &'static str,
    pub body: Option<&'static str>,
    pub hint: &'static str,
}

/// What the description of a route holds.
pub struct EndpointView {
    pub section: Seq<char>,
    pub route: Seq<char>,
    pub auth: Seq<char>,
    pub body: Option<Seq<char>>,
    pub hint: Seq<char>,
}

impl DeepView for Endpoint {
    type V = EndpointView;

    open spec fn deep_view(&self) -> EndpointView {
        EndpointView {
            section: self.section@,
            route: self.route@,
            auth: self.auth@,
            body: self.body.deep_view(),
            hint: self.hint@,
        }
    }
}

/// The head of the discovery document.
pub open spec fn heading() -> Seq<(Seq<char>, Seq<char>)> {
    seq![
        ("service"@, "simple-im"@),
        ("version"@, "2"@),
        ("openapi"@, "/openapi.yaml"@),
        ("entry"@, "POST /register"@),
        ("description"@, "Register with POST /register to receive a token, then POST /listen with that token to open your SSE stream. POST /announce to claim a name. See the participant skill for the full flow."@),
        ("skill"@, "/skills/participant"@),
        ("auth"@, "Bearer <token> in the Authorization header. Token types: listen-token (participant), governor-token (governor). Gate on HTTP status code; errors are {\"error\":CODE,\"message\":...}."@),
    ]
}

/// The head of the discovery document.
pub fn discovery_heading() -> (rows: Vec<(&'static str, &'static str)>)
    ensures
        rows.deep_view() == heading(),
{
    let rows: Vec<(&'static str, &'static str)> = vec![
        ("service", "simple-im"),
        ("version", "2"),
        ("openapi", "/openapi.yaml"),
        ("entry", "POST /register"),
        ("description", "Register with POST /register to receive a token, then POST /listen with that token to open your SSE stream. POST /announce to claim a name. See the participant skill for the full flow."),
        ("skill", "/skills/participant"),
        ("auth", "Bearer <token> in the Authorization header. Token types: listen-token (participant), governor-token (governor). Gate on HTTP status code; errors are {\"error\":CODE,\"message\":...}."),
    ];
    assert(rows.deep_view() =~= heading());
    rows
}

/// The routes that the discovery document describes.
pub open spec fn endpoints() -> Seq<EndpointView> {
    seq![
        EndpointView {
            section: "discovery"@,
            route: "GET /"@,
            auth: "none"@,
            body: None,
            hint: "Returns this discovery document"@,
        },
        EndpointView {
            section: "skill"@,
            route: "GET /skills/participant"@,
            auth: "none"@,
            body: None,
            hint: "Participant skill markdown"@,
        },
        EndpointView {
            section: "skill"@,
            route: "GET /skills/participant/listen.sh"@,
            auth: "none"@,
            body: None,
            hint: "Participant listen script"@,
        },
        EndpointView {
            section: "skill"@,
            route: "GET /skills/governor"@,
            auth: "none"@,
            body: None,
            hint: "Governor skill markdown"@,
        },
        EndpointView {
            section: "skill"@,
            route: "GET /openapi.yaml"@,
            auth: "none"@,
            body: None,
            hint: "OpenAPI 3.x specification (YAML)"@,
        },
        EndpointView {
            section: "participant"@,
            route: "POST /register"@,
            auth: "governor"@,
            body: Some("{name?}"@),
            hint: "Governor issues a participant token; with {name} atomically rebinds an existing identity. Open during bootstrap (no governor)."@,
        },
        EndpointView {
            section: "participant"@,
            route: "POST /listen"@,
            auth: "participant"@,
            body: Some("{name?}"@),
            hint: "Open SSE stream; optional name to auto-announce"@,
        },
        EndpointView {
            section: "participant"@,
            route: "DELETE /listen"@,
            auth: "participant"@,
            body: None,
            hint: "Close SSE stream, unbind name"@,
        },
        EndpointView {
            section: "participant"@,
            route: "POST /announce"@,
            auth: "participant"@,
            body: Some("{name}"@),
            hint: "Claim a name for this token"@,
        },
        EndpointView {
            section: "participant"@,
            route: "GET /participants"@,
            auth: "governor"@,
            body: None,
            hint: "List all announced participants"@,
        },
        EndpointView {
            section: "participant"@,
            route: "DELETE /participants/{name}"@,
            auth: "governor"@,
            body: None,
            hint: "Force-revoke participant by name"@,
        },
        EndpointView {
            section: "participant"@,
            route: "GET /participants/{name}/presence"@,
            auth: "participant"@,
            body: None,
            hint: "Check if participant is online"@,
        },
        EndpointView {
            section: "participant"@,
            route: "POST /participants/{name}/presence-scope"@,
            auth: "participant"@,
            body: Some("{presence_scope}"@),
            hint: "Set presence visibility (hidden/visible)"@,
        },
        EndpointView {
            section: "message"@,
            route: "POST /messages/send"@,
            auth: "participant"@,
            body: Some("{to|to_token, payload, reason?, thread_id?}"@),
            hint: "Send message to participant"@,
        },
        EndpointView {
            section: "message"@,
            route: "POST /messages/queue/pop"@,
            auth: "participant"@,
            body: Some("{thread?}"@),
            hint: "Dequeue one message"@,
        },
        EndpointView {
            section: "message"@,
            route: "POST /messages/dequeue"@,
            auth: "participant"@,
            body: Some("{thread?}"@),
            hint: "Alias for POST /messages/queue/pop"@,
        },
        EndpointView {
            section: "message"@,
            route: "DELETE /messages/queue"@,
            auth: "participant"@,
            body: Some("{thread?}"@),
            hint: "Drain all queued messages"@,
        },
        EndpointView {
            section: "message"@,
            route: "GET /messages/pending"@,
            auth: "participant"@,
            body: None,
            hint: "Count pending messages"@,
        },
        EndpointView {
            section: "message"@,
            route: "GET /messages/latest/id"@,
            auth: "participant"@,
            body: None,
            hint: "Peek latest message ID (supports long-poll: ?since=N&wait=60)"@,
        },
        EndpointView {
            section: "message"@,
            route: "GET /messages/latest"@,
            auth: "participant"@,
            body: None,
            hint: "Peek full latest message without consuming"@,
        },
        EndpointView {
            section: "grant"@,
            route: "GET /grants"@,
            auth: "participant"@,
            body: None,
            hint: "List your active grants"@,
        },
        EndpointView {
            section: "grant"@,
            route: "POST /grants/request"@,
            auth: "participant"@,
            body: Some("{to, reason?, request_id?}"@),
            hint: "Request a grant to reach a peer"@,
        },
        EndpointView {
            section: "grant"@,
            route: "PATCH /grants/requests/{id}"@,
            auth: "participant|governor"@,
            body: Some("{action, reason?, expiry_secs?}"@),
            hint: "Approve/deny/hold a grant request"@,
        },
        EndpointView {
            section: "grant"@,
            route: "POST /grants/approve"@,
            auth: "governor"@,
            body: Some("{identity_a, identity_b, expiry_secs?, direction?, max_messages?, mediation?, conditions?}"@),
            hint: "Directly approve a grant pair"@,
        },
        EndpointView {
            section: "grant"@,
            route: "POST /grants/block"@,
            auth: "governor"@,
            body: Some("{from_identity, to_name, reason, expires_at?}"@),
            hint: "Persistently block a sender→recipient pair"@,
        },
        EndpointView {
            section: "grant"@,
            route: "POST /grants/unblock"@,
            auth: "governor"@,
            body: Some("{from_identity, to_name}"@),
            hint: "Remove a persistent block"@,
        },
        EndpointView {
            section: "grant"@,
            route: "DELETE /grants/{id}"@,
            auth: "governor"@,
            body: None,
            hint: "Revoke a grant by ID"@,
        },
        EndpointView {
            section: "governor"@,
            route: "POST /governors/claim"@,
            auth: "participant"@,
            body: Some("{expiry_secs?}"@),
            hint: "Claim governorship (may trigger election)"@,
        },
        EndpointView {
            section: "governor"@,
            route: "POST /governors/elections/{id}"@,
            auth: "participant"@,
            body: Some("{action}"@),
            hint: "Vote on a pending election/transfer"@,
        },
        EndpointView {
            section: "governor"@,
            route: "POST /governors/refresh"@,
            auth: "governor"@,
            body: None,
            hint: "Rotate governor token"@,
        },
        EndpointView {
            section: "governor"@,
            route: "POST /governors/transfer"@,
            auth: "governor"@,
            body: Some("{to?}"@),
            hint: "Initiate governor transfer"@,
        },
        EndpointView {
            section: "governor"@,
            route: "POST /governors/accept-transfer"@,
            auth: "participant"@,
            body: Some("{transfer_token}"@),
            hint: "Accept governor transfer (claimer identity derived from the participant bearer)"@,
        },
        EndpointView {
            section: "governor"@,
            route: "POST /governors/mediate"@,
            auth: "governor"@,
            body: Some("{mediation_id, decision, payload?}"@),
            hint: "Resolve a mediation hold"@,
        },
        EndpointView {
            section: "governor"@,
            route: "GET /governors/events"@,
            auth: "governor"@,
            body: None,
            hint: "SSE stream of governor events"@,
        },
        EndpointView {
            section: "governor"@,
            route: "GET /governors/grants"@,
            auth: "governor"@,
            body: None,
            hint: "List all grants in the system (supports ?participant=)"@,
        },
        EndpointView {
            section: "attachment"@,
            route: "POST /attachments"@,
            auth: "participant"@,
            body: Some("raw bytes (query: ?to=&filename=&note=)"@),
            hint: "Upload file attachment"@,
        },
        EndpointView {
            section: "attachment"@,
            route: "GET /attachments/{id}"@,
            auth: "participant"@,
            body: None,
            hint: "Download attachment by ID"@,
        },
        EndpointView {
            section: "room"@,
            route: "POST /room/create"@,
            auth: "participant"@,
            body: None,
            hint: "Create a new room (returns room_id)"@,
        },
        EndpointView {
            section: "room"@,
            route: "GET /room/create"@,
            auth: "none"@,
            body: None,
            hint: "Reserved path — returns 400"@,
        },
        EndpointView {
            section: "room"@,
            route: "POST /room/{room_id}/join"@,
            auth: "participant"@,
            body: Some("{ttl?}"@),
            hint: "Join a room (idempotent)"@,
        },
        EndpointView {
            section: "room"@,
            route: "GET /room/{room_id}"@,
            auth: "participant"@,
            body: None,
            hint: "Get room members (must be a member)"@,
        },
        EndpointView {
            section: "room"@,
            route: "POST /room/{room_id}/leave"@,
            auth: "participant"@,
            body: None,
            hint: "Leave a room (idempotent)"@,
        },
    ]
}

/// `GET /`: the routes that the discovery document describes.
pub fn handle_discovery() -> (rows: Vec<Endpoint>)
    ensures
        rows.deep_view() == endpoints(),
{
    let rows: Vec<Endpoint> = vec![
        Endpoint {
            section: "discovery",
            route: "GET /",
            auth: "none",
            body: None,
            hint: "Returns this discovery document",
        },
        Endpoint {
            section: "skill",
            route: "GET /skills/participant",
            auth: "none",
            body: None,
            hint: "Participant skill markdown",
        },
        Endpoint {
            section: "skill",
            route: "GET /skills/participant/listen.sh",
            auth: "none",
            body: None,
            hint: "Participant listen script",
        },
        Endpoint {
            section: "skill",
            route: "GET /skills/governor",
            auth: "none",
            body: None,
            hint: "Governor skill markdown",
        },
        Endpoint {
            section: "skill",
            route: "GET /openapi.yaml",
            auth: "none",
            body: None,
            hint: "OpenAPI 3.x specification (YAML)",
        },
        Endpoint {
            section: "participant",
            route: "POST /register",
            auth: "governor",
            body: Some("{name?}"),
            hint: "Governor issues a participant token; with {name} atomically rebinds an existing identity. Open during bootstrap (no governor).",
        },
        Endpoint {
            section: "participant",
            route: "POST /listen",
            auth: "participant",
            body: Some("{name?}"),
            hint: "Open SSE stream; optional name to auto-announce",
        },
        Endpoint {
            section: "participant",
            route: "DELETE /listen",
            auth: "participant",
            body: None,
            hint: "Close SSE stream, unbind name",
        },
        Endpoint {
            section: "participant",
            route: "POST /announce",
            auth: "participant",
            body: Some("{name}"),
            hint: "Claim a name for this token",
        },
        Endpoint {
            section: "participant",
            route: "GET /participants",
            auth: "governor",
            body: None,
            hint: "List all announced participants",
        },
        Endpoint {
            section: "participant",
            route: "DELETE /participants/{name}",
            auth: "governor",
            body: None,
            hint: "Force-revoke participant by name",
        },
        Endpoint {
            section: "participant",
            route: "GET /participants/{name}/presence",
            auth: "participant",
            body: None,
            hint: "Check if participant is online",
        },
        Endpoint {
            section: "participant",
            route: "POST /participants/{name}/presence-scope",
            auth: "participant",
            body: Some("{presence_scope}"),
            hint: "Set presence visibility (hidden/visible)",
        },
        Endpoint {
            section: "message",
            route: "POST /messages/send",
            auth: "participant",
            body: Some("{to|to_token, payload, reason?, thread_id?}"),
            hint: "Send message to participant",
        },
        Endpoint {
            section: "message",
            route: "POST /messages/queue/pop",
            auth: "participant",
            body: Some("{thread?}"),
            hint: "Dequeue one message",
        },
        Endpoint {
            section: "message",
            route: "POST /messages/dequeue",
            auth: "participant",
            body: Some("{thread?}"),
            hint: "Alias for POST /messages/queue/pop",
        },
        Endpoint {
            section: "message",
            route: "DELETE /messages/queue",
            auth: "participant",
            body: Some("{thread?}"),
            hint: "Drain all queued messages",
        },
        Endpoint {
            section: "message",
            route: "GET /messages/pending",
            auth: "participant",
            body: None,
            hint: "Count pending messages",
        },
        Endpoint {
            section: "message",
            route: "GET /messages/latest/id",
            auth: "participant",
            body: None,
            hint: "Peek latest message ID (supports long-poll: ?since=N&wait=60)",
        },
        Endpoint {
            section: "message",
            route: "GET /messages/latest",
            auth: "participant",
            body: None,
            hint: "Peek full latest message without consuming",
        },
        Endpoint {
            section: "grant",
            route: "GET /grants",
            auth: "participant",
            body: None,
            hint: "List your active grants",
        },
        Endpoint {
            section: "grant",
            route: "POST /grants/request",
            auth: "participant",
            body: Some("{to, reason?, request_id?}"),
            hint: "Request a grant to reach a peer",
        },
        Endpoint {
            section: "grant",
            route: "PATCH /grants/requests/{id}",
            auth: "participant|governor",
            body: Some("{action, reason?, expiry_secs?}"),
            hint: "Approve/deny/hold a grant request",
        },
        Endpoint {
            section: "grant",
            route: "POST /grants/approve",
            auth: "governor",
            body: Some("{identity_a, identity_b, expiry_secs?, direction?, max_messages?, mediation?, conditions?}"),
            hint: "Directly approve a grant pair",
        },
        Endpoint {
            section: "grant",
            route: "POST /grants/block",
            auth: "governor",
            body: Some("{from_identity, to_name, reason, expires_at?}"),
            hint: "Persistently block a sender→recipient pair",
        },
        Endpoint {
            section: "grant",
            route: "POST /grants/unblock",
            auth: "governor",
            body: Some("{from_identity, to_name}"),
            hint: "Remove a persistent block",
        },
        Endpoint {
            section: "grant",
            route: "DELETE /grants/{id}",
            auth: "governor",
            body: None,
            hint: "Revoke a grant by ID",
        },
        Endpoint {
            section: "governor",
            route: "POST /governors/claim",
            auth: "participant",
            body: Some("{expiry_secs?}"),
            hint: "Claim governorship (may trigger election)",
        },
        Endpoint {
            section: "governor",
            route: "POST /governors/elections/{id}",
            auth: "participant",
            body: Some("{action}"),
            hint: "Vote on a pending election/transfer",
        },
        Endpoint {
            section: "governor",
            route: "POST /governors/refresh",
            auth: "governor",
            body: None,
            hint: "Rotate governor token",
        },
        Endpoint {
            section: "governor",
            route: "POST /governors/transfer",
            auth: "governor",
            body: Some("{to?}"),
            hint: "Initiate governor transfer",
        },
        Endpoint {
            section: "governor",
            route: "POST /governors/accept-transfer",
            auth: "participant",
            body: Some("{transfer_token}"),
            hint: "Accept governor transfer (claimer identity derived from the participant bearer)",
        },
        Endpoint {
            section: "governor",
            route: "POST /governors/mediate",
            auth: "governor",
            body: Some("{mediation_id, decision, payload?}"),
            hint: "Resolve a mediation hold",
        },
        Endpoint {
            section: "governor",
            route: "GET /governors/events",
            auth: "governor",
            body: None,
            hint: "SSE stream of governor events",
        },
        Endpoint {
            section: "governor",
            route: "GET /governors/grants",
            auth: "governor",
            body: None,
            hint: "List all grants in the system (supports ?participant=)",
        },
        Endpoint {
            section: "attachment",
            route: "POST /attachments",
            auth: "participant",
            body: Some("raw bytes (query: ?to=&filename=&note=)"),
            hint: "Upload file attachment",
        },
        Endpoint {
            section: "attachment",
            route: "GET /attachments/{id}",
            auth: "participant",
            body: None,
            hint: "Download attachment by ID",
        },
        Endpoint {
            section: "room",
            route: "POST /room/create",
            auth: "participant",
            body: None,
            hint: "Create a new room (returns room_id)",
        },
        Endpoint {
            section: "room",
            route: "GET /room/create",
            auth: "none",
            body: None,
            hint: "Reserved path — returns 400",
        },
        Endpoint {
            section: "room",
            route: "POST /room/{room_id}/join",
            auth: "participant",
            body: Some("{ttl?}"),
            hint: "Join a room (idempotent)",
        },
        Endpoint {
            section: "room",
            route: "GET /room/{room_id}",
            auth: "participant",
            body: None,
            hint: "Get room members (must be a member)",
        },
        Endpoint {
            section: "room",
            route: "POST /room/{room_id}/leave",
            auth: "participant",
            body: None,
            hint: "Leave a room (idempotent)",
        },
    ];
    assert(rows.deep_view() =~= endpoints());
    rows
}

/// The routes that are served and described. The operator's reset of the governors is served as
/// well, and not described on purpose.
pub open spec fn routes() -> Seq<Seq<char>> {
    seq![
        "GET /"@,
        "GET /openapi.yaml"@,
        "POST /register"@,
        "POST /listen"@,
        "DELETE /listen"@,
        "POST /announce"@,
        "GET /skills/participant"@,
        "GET /skills/participant/listen.sh"@,
        "GET /skills/governor"@,
        "GET /participants"@,
        "DELETE /participants/{name}"@,
        "GET /participants/{name}/presence"@,
        "POST /participants/{name}/presence-scope"@,
        "POST /messages/send"@,
        "POST /messages/queue/pop"@,
        "POST /messages/dequeue"@,
        "DELETE /messages/queue"@,
        "GET /messages/pending"@,
        "GET /messages/latest/id"@,
        "GET /messages/latest"@,
        "POST /governors/claim"@,
        "POST /governors/elections/{id}"@,
        "POST /governors/refresh"@,
        "POST /governors/transfer"@,
        "POST /governors/accept-transfer"@,
        "POST /governors/mediate"@,
        "GET /governors/events"@,
        "GET /governors/grants"@,
        "GET /grants"@,
        "POST /grants/approve"@,
        "POST /grants/request"@,
        "PATCH /grants/requests/{id}"@,
        "POST /grants/unblock"@,
        "POST /grants/block"@,
        "DELETE /grants/{id}"@,
        "POST /attachments"@,
        "GET /attachments/{id}"@,
        "POST /room/create"@,
        "GET /room/create"@,
        "POST /room/{room_id}/join"@,
        "GET /room/{room_id}"@,
        "POST /room/{room_id}/leave"@,
    ]
}

/// The routes that are served.
pub fn router_routes() -> (rows: Vec<&'static str>)
    ensures
        rows.deep_view() == routes(),
{
    let rows: Vec<&'static str> = vec![
        "GET /",
        "GET /openapi.yaml",
        "POST /register",
        "POST /listen",
        "DELETE /listen",
        "POST /announce",
        "GET /skills/participant",
        "GET /skills/participant/listen.sh",
        "GET /skills/governor",
        "GET /participants",
        "DELETE /participants/{name}",
        "GET /participants/{name}/presence",
        "POST /participants/{name}/presence-scope",
        "POST /messages/send",
        "POST /messages/queue/pop",
        "POST /messages/dequeue",
        "DELETE /messages/queue",
        "GET /messages/pending",
        "GET /messages/latest/id",
        "GET /messages/latest",
        "POST /governors/claim",
        "POST /governors/elections/{id}",
        "POST /governors/refresh",
        "POST /governors/transfer",
        "POST /governors/accept-transfer",
        "POST /governors/mediate",
        "GET /governors/events",
        "GET /governors/grants",
        "GET /grants",
        "POST /grants/approve",
        "POST /grants/request",
        "PATCH /grants/requests/{id}",
        "POST /grants/unblock",
        "POST /grants/block",
        "DELETE /grants/{id}",
        "POST /attachments",
        "GET /attachments/{id}",
        "POST /room/create",
        "GET /room/create",
        "POST /room/{room_id}/join",
        "GET /room/{room_id}",
        "POST /room/{room_id}/leave",
    ];
    assert(rows.deep_view() =~= routes());
    rows
}

/// The discovery document describes the routes that are served, and no others.
pub proof fn law_discovery_describes_routes()
    ensures
        endpoints().map_values(|e: EndpointView| e.route).to_set() == routes().to_set(),
{
    let described = endpoints().map_values(|e: EndpointView| e.route);
    assert(described[0] == routes()[0]);
    assert(described[4] == routes()[1]);
    assert(described[5] == routes()[2]);
    assert(described[6] == routes()[3]);
    assert(described[7] == routes()[4]);
    assert(described[8] == routes()[5]);
    assert(described[1] == routes()[6]);
    assert(described[2] == routes()[7]);
    assert(described[3] == routes()[8]);
    assert(described[9] == routes()[9]);
    assert(described[10] == routes()[10]);
    assert(described[11] == routes()[11]);
    assert(described[12] == routes()[12]);
    assert(described[13] == routes()[13]);
    assert(described[14] == routes()[14]);
    assert(described[15] == routes()[15]);
    assert(described[16] == routes()[16]);
    assert(described[17] == routes()[17]);
    assert(described[18] == routes()[18]);
    assert(described[19] == routes()[19]);
    assert(described[27] == routes()[20]);
    assert(described[28] == routes()[21]);
    assert(described[29] == routes()[22]);
    assert(described[30] == routes()[23]);
    assert(described[31] == routes()[24]);
    assert(described[32] == routes()[25]);
    assert(described[33] == routes()[26]);
    assert(described[34] == routes()[27]);
    assert(described[20] == routes()[28]);
    assert(described[23] == routes()[29]);
    assert(described[21] == routes()[30]);
    assert(described[22] == routes()[31]);
    assert(described[25] == routes()[32]);
    assert(described[24] == routes()[33]);
    assert(described[26] == routes()[34]);
    assert(described[35] == routes()[35]);
    assert(described[36] == routes()[36]);
    assert(described[37] == routes()[37]);
    assert(described[38] == routes()[38]);
    assert(described[39] == routes()[39]);
    assert(described[40] == routes()[40]);
    assert(described[41] == routes()[41]);
    assert forall|r: Seq<char>| routes().contains(r) == described.contains(r) by {
        if routes().contains(r) {
            assert(routes()[routes().index_of(r)] == r);
        }
        if described.contains(r) {
            assert(described[described.index_of(r)] == r);
        }
    }
    assert(described.to_set() =~= routes().to_set());
}

} // verus!
