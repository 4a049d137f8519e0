use vstd::prelude::*;

use crate::snapshot::SystemMetrics;

verus! {

/// Claims carried by a session token: subject and expiry (epoch seconds).
#[derive(Debug, Clone)]
pub struct Claims {
    pub sub: String,
    pub exp: i64,
}

#[derive(Debug, Clone)]
pub struct LoginRequest {
    pub password: String,
}

/// An issued session token and its expiry (epoch seconds).
#[derive(Debug, Clone)]
pub struct LoginResponse {
    pub token: String,
    pub expires_at: i64,
}

#[derive(Debug, Clone)]
pub struct ChangePasswordRequest {
    pub current_password: String,
    pub new_password: String,
}

#[derive(Debug, Clone)]
pub struct AddServerRequest {
    pub name: String,
    pub url: String,
    pub location: String,
    pub provider: String,
    pub tag: String,
}

#[derive(Debug, Clone)]
pub struct UpdateServerRequest {
    pub name: Option<String>,
    pub location: Option<String>,
    pub provider: Option<String>,
    pub tag: Option<String>,
}

#[derive(Debug, Clone)]
pub struct AgentRegisterRequest {
    pub name: String,
    pub location: String,
    pub provider: String,
}

#[derive(Debug, Clone)]
pub struct AgentRegisterResponse {
    pub id: String,
    pub token: String,
}

/// The latest snapshot of a host and when it arrived (epoch milliseconds).
#[derive(Debug, Clone)]
pub struct AgentMetricsData {
    pub server_id: String,
    pub metrics: SystemMetrics,
    pub last_updated: i64,
}

/// Inbound message of an agent: host identifier, token, agent version and
/// a snapshot.
#[derive(Debug, Clone)]
pub struct AgentMessage {
    pub msg_type: String,
    pub server_id: Option<String>,
    pub token: Option<String>,
    pub version: Option<String>,
    pub metrics: Option<SystemMetrics>,
}

#[derive(Debug, Clone)]
pub struct InstallCommand {
    pub command: String,
    pub script_url: String,
}

#[derive(Debug, Clone)]
pub struct UpdateAgentRequest {
    pub download_url: Option<String>,
}

#[derive(Debug, Clone)]
pub struct UpdateAgentResponse {
    pub success: bool,
    pub message: String,
}

/// Command sent to an agent.
#[derive(Debug, Clone)]
pub struct AgentCommand {
    pub cmd_type: String,
    pub command: String,
    pub download_url: Option<String>,
}

} // verus!
