use behest::tool_types::{SandboxProfile, ToolRuntimeLimits, ToolSource};

#[test]
fn sandbox_profile_ordering() {
    assert!(SandboxProfile::ReadOnly > SandboxProfile::Inherited);
    assert!(SandboxProfile::WorkspaceWrite > SandboxProfile::ReadOnly);
    assert!(SandboxProfile::NetworkEnabled > SandboxProfile::WorkspaceWrite);
}

#[test]
fn sandbox_readonly_allows_readonly() {
    assert!(SandboxProfile::ReadOnly.allows(SandboxProfile::ReadOnly));
}

#[test]
fn sandbox_readonly_rejects_workspace_write() {
    assert!(!SandboxProfile::ReadOnly.allows(SandboxProfile::WorkspaceWrite));
}

#[test]
fn sandbox_network_allows_everything() {
    assert!(SandboxProfile::NetworkEnabled.allows(SandboxProfile::Inherited));
    assert!(SandboxProfile::NetworkEnabled.allows(SandboxProfile::ReadOnly));
    assert!(SandboxProfile::NetworkEnabled.allows(SandboxProfile::WorkspaceWrite));
    assert!(SandboxProfile::NetworkEnabled.allows(SandboxProfile::NetworkEnabled));
}

#[test]
fn empty_limits_is_empty() {
    assert!(ToolRuntimeLimits::none().is_empty());
    assert!(ToolRuntimeLimits::default().is_empty());
}

#[test]
fn partial_limits_is_not_empty() {
    let limits = ToolRuntimeLimits {
        max_timeout: Some(std::time::Duration::from_secs(30)),
        ..ToolRuntimeLimits::none()
    };
    assert!(!limits.is_empty());
}

#[test]
fn tool_source_default_is_server() {
    assert_eq!(ToolSource::default(), ToolSource::Server);
    assert!(ToolSource::Server.is_server());
    assert!(!ToolSource::Server.is_client());
    assert!(ToolSource::Client.is_client());
    assert!(!ToolSource::Client.is_server());
}

#[test]
fn sandbox_inherited_allows_only_inherited() {
    assert!(SandboxProfile::Inherited.allows(SandboxProfile::Inherited));
    assert!(!SandboxProfile::Inherited.allows(SandboxProfile::ReadOnly));
}
