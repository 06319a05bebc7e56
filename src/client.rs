//! The plain data that the desktop client exchanges with its front end, and
//! the status of its local vault.
use vstd::prelude::*;

verus! {

/// One turn of a conversation.
pub struct ChatMessage {
    /// "user" or "assistant".
    pub role: String,
    pub content: String,
    pub timestamp: i64,
}

/// The answer of a chat request.
pub struct ChatResponse {
    pub message: String,
    pub model: String,
    pub conversation_id: Option<String>,
}

/// The state of the local vault.
#[derive(PartialEq, Eq, Structural, Debug, Clone, Copy)]
pub enum VaultStatus {
    Locked,
    Unlocked,
    Syncing,
    Offline,
}

/// What the client reports of itself.
pub struct SystemStatusResponse {
    pub vault_status: VaultStatus,
    pub active_identity: Option<String>,
    pub enclave_connection: bool,
    pub security_level: String,
}

/// One remembered item as the front end lists it.
pub struct ConversationItem {
    pub id: String,
    pub content: String,
    pub timestamp: i64,
}

/// Counters of the local vault.
#[derive(Debug, Clone, Copy)]
pub struct VaultMetrics {
    pub memory_encrypted: usize,
    pub active_tunnels: u32,
}

impl Default for VaultMetrics {
    fn default() -> (r: VaultMetrics)
        ensures
            r.memory_encrypted == 0,
            r.active_tunnels == 0,
    {
        VaultMetrics { memory_encrypted: 0, active_tunnels: 0 }
    }
}

impl VaultMetrics {
    /// Counts `n` more bytes of encrypted memory.
    pub fn add_encrypted(&mut self, n: usize)
        requires
            old(self).memory_encrypted + n <= usize::MAX,
        ensures
            final(self).memory_encrypted == old(self).memory_encrypted + n,
            final(self).active_tunnels == old(self).active_tunnels,
    {
        self.memory_encrypted = self.memory_encrypted + n;
    }
}

impl SystemStatusResponse {
    /// The status report for a vault state and the active identity: the
    /// enclave counts as connected and the security level is "MAXIMUM".
    pub fn report(vault_status: VaultStatus, active_identity: Option<String>) -> (r:
        SystemStatusResponse)
        ensures
            r.vault_status == vault_status,
            r.active_identity == active_identity,
            r.enclave_connection,
            r.security_level@ == "MAXIMUM"@,
    {
        SystemStatusResponse {
            vault_status,
            active_identity,
            enclave_connection: true,
            security_level: "MAXIMUM".to_string(),
        }
    }
}

/// The key-custody service front; its operations reach a local daemon.
pub struct VaultServiceImpl;

/// A page of key ids.
pub struct KeyList {
    pub key_ids: Vec<String>,
    pub next_page_token: String,
}

impl VaultServiceImpl {
    /// The service.
    pub fn new() -> (r: VaultServiceImpl) {
        VaultServiceImpl
    }

    /// The key listing: the daemon offers none, so the page is empty and
    /// there is no next page.
    pub fn list_keys(&self) -> (r: KeyList)
        ensures
            r.key_ids@.len() == 0,
            r.next_page_token@.len() == 0,
    {
        KeyList { key_ids: Vec::new(), next_page_token: String::new() }
    }
}

impl Default for VaultServiceImpl {
    fn default() -> (r: VaultServiceImpl) {
        VaultServiceImpl::new()
    }
}

} // verus!
