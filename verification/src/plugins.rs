//! The plugin marketplace listing and the plugin commands sent to a session.
//!
//! The marketplace is a static listing; installing, removing and updating a
//! plugin are messages written to the session's CLI.

use vstd::prelude::*;
use vstd::string::StringExecFns;

use crate::pty::{write_outcome, PtyManager};
use crate::types::{AppError, PluginInfo, PluginInfoView};

verus! {

/// The static marketplace listing.
pub open spec fn available_plugins() -> Seq<PluginInfoView> {
    seq![
        PluginInfoView {
            name: "github-pr-review"@,
            version: "1.2.0"@,
            description:
                "Review pull requests directly from Copilot with inline comments and approval workflows."@,
            author: "GitHub"@,
            installed: false,
            update_available: false,
            category: Some("Integrations"@),
            downloads: Some(45200),
        },
        PluginInfoView {
            name: "docker-compose"@,
            version: "0.9.1"@,
            description: "Manage Docker Compose services, build images, and inspect containers."@,
            author: "Docker Inc."@,
            installed: false,
            update_available: false,
            category: Some("Tools"@),
            downloads: Some(32100),
        },
        PluginInfoView {
            name: "python-debugger"@,
            version: "2.0.3"@,
            description:
                "Enhanced Python debugging with breakpoints, variable inspection, and step execution."@,
            author: "PyTools"@,
            installed: false,
            update_available: false,
            category: Some("Languages"@),
            downloads: Some(28750),
        },
        PluginInfoView {
            name: "sql-assistant"@,
            version: "1.1.0"@,
            description: "Write, optimize, and explain SQL queries with schema-aware suggestions."@,
            author: "DataTools"@,
            installed: false,
            update_available: false,
            category: Some("Languages"@),
            downloads: Some(19400),
        },
        PluginInfoView {
            name: "kubernetes-manager"@,
            version: "0.8.0"@,
            description: "Deploy, monitor, and troubleshoot Kubernetes clusters and workloads."@,
            author: "CloudNative"@,
            installed: false,
            update_available: false,
            category: Some("Tools"@),
            downloads: Some(15300),
        },
        PluginInfoView {
            name: "figma-bridge"@,
            version: "1.0.2"@,
            description: "Import Figma designs and generate React components from design tokens."@,
            author: "DesignOps"@,
            installed: false,
            update_available: false,
            category: Some("Integrations"@),
            downloads: Some(12800),
        },
    ]
}

/// The plugins reported as installed.
pub open spec fn installed_plugins() -> Seq<PluginInfoView> {
    seq![
        PluginInfoView {
            name: "github-pr-review"@,
            version: "1.1.0"@,
            description:
                "Review pull requests directly from Copilot with inline comments and approval workflows."@,
            author: "GitHub"@,
            installed: true,
            update_available: true,
            category: Some("Integrations"@),
            downloads: Some(45200),
        },
    ]
}

/// The marketplace listing and the plugin commands.
pub struct PluginManager;

impl PluginManager {
    /// The static marketplace listing.
    pub fn list_available_plugins() -> (r: Vec<PluginInfo>)
        ensures
            r.deep_view() == available_plugins(),
    {
        let mut r: Vec<PluginInfo> = Vec::new();
        r.push(PluginInfo {
            name: String::from_str("github-pr-review"),
            version: String::from_str("1.2.0"),
            description: String::from_str(
                "Review pull requests directly from Copilot with inline comments and approval workflows.",
            ),
            author: String::from_str("GitHub"),
            installed: false,
            update_available: false,
            category: Some(String::from_str("Integrations")),
            downloads: Some(45200),
        });
        r.push(PluginInfo {
            name: String::from_str("docker-compose"),
            version: String::from_str("0.9.1"),
            description: String::from_str(
                "Manage Docker Compose services, build images, and inspect containers.",
            ),
            author: String::from_str("Docker Inc."),
            installed: false,
            update_available: false,
            category: Some(String::from_str("Tools")),
            downloads: Some(32100),
        });
        r.push(PluginInfo {
            name: String::from_str("python-debugger"),
            version: String::from_str("2.0.3"),
            description: String::from_str(
                "Enhanced Python debugging with breakpoints, variable inspection, and step execution.",
            ),
            author: String::from_str("PyTools"),
            installed: false,
            update_available: false,
            category: Some(String::from_str("Languages")),
            downloads: Some(28750),
        });
        r.push(PluginInfo {
            name: String::from_str("sql-assistant"),
            version: String::from_str("1.1.0"),
            description: String::from_str(
                "Write, optimize, and explain SQL queries with schema-aware suggestions.",
            ),
            author: String::from_str("DataTools"),
            installed: false,
            update_available: false,
            category: Some(String::from_str("Languages")),
            downloads: Some(19400),
        });
        r.push(PluginInfo {
            name: String::from_str("kubernetes-manager"),
            version: String::from_str("0.8.0"),
            description: String::from_str(
                "Deploy, monitor, and troubleshoot Kubernetes clusters and workloads.",
            ),
            author: String::from_str("CloudNative"),
            installed: false,
            update_available: false,
            category: Some(String::from_str("Tools")),
            downloads: Some(15300),
        });
        r.push(PluginInfo {
            name: String::from_str("figma-bridge"),
            version: String::from_str("1.0.2"),
            description: String::from_str(
                "Import Figma designs and generate React components from design tokens.",
            ),
            author: String::from_str("DesignOps"),
            installed: false,
            update_available: false,
            category: Some(String::from_str("Integrations")),
            downloads: Some(12800),
        });
        proof {
            assert(r.deep_view() =~= available_plugins());
        }
        r
    }

    /// The plugins reported as installed.
    pub fn list_installed_plugins() -> (r: Vec<PluginInfo>)
        ensures
            r.deep_view() == installed_plugins(),
    {
        let mut r: Vec<PluginInfo> = Vec::new();
        r.push(PluginInfo {
            name: String::from_str("github-pr-review"),
            version: String::from_str("1.1.0"),
            description: String::from_str(
                "Review pull requests directly from Copilot with inline comments and approval workflows.",
            ),
            author: String::from_str("GitHub"),
            installed: true,
            update_available: true,
            category: Some(String::from_str("Integrations")),
            downloads: Some(45200),
        });
        proof {
            assert(r.deep_view() =~= installed_plugins());
        }
        r
    }

    /// Send the install command to the session: the message handed to
    /// [`PtyManager::write_to_session`] is exactly
    /// [`plugin_command`]`("install", name)`.
    pub fn install_plugin(pty: &mut PtyManager, session_id: &str, name: &str) -> (r: Result<
        (),
        AppError,
    >)
        ensures
            final(pty)@ == old(pty)@,
            write_outcome(old(pty)@.ids, session_id@, r),
    {
        let cmd = plugin_command("install", name);
        pty.write_to_session(session_id, cmd.as_str())
    }

    /// Send the uninstall command to the session: the message handed to
    /// [`PtyManager::write_to_session`] is exactly
    /// [`plugin_command`]`("uninstall", name)`.
    pub fn uninstall_plugin(pty: &mut PtyManager, session_id: &str, name: &str) -> (r: Result<
        (),
        AppError,
    >)
        ensures
            final(pty)@ == old(pty)@,
            write_outcome(old(pty)@.ids, session_id@, r),
    {
        let cmd = plugin_command("uninstall", name);
        pty.write_to_session(session_id, cmd.as_str())
    }

    /// Send the update command to the session: the message handed to
    /// [`PtyManager::write_to_session`] is exactly
    /// [`plugin_command`]`("update", name)`.
    pub fn update_plugin(pty: &mut PtyManager, session_id: &str, name: &str) -> (r: Result<
        (),
        AppError,
    >)
        ensures
            final(pty)@ == old(pty)@,
            write_outcome(old(pty)@.ids, session_id@, r),
    {
        let cmd = plugin_command("update", name);
        pty.write_to_session(session_id, cmd.as_str())
    }
}

/// The slash command one plugin operation becomes: the plugin keyword, the
/// action, and the plugin name, space-separated.
pub fn plugin_command(action: &str, name: &str) -> (r: String)
    ensures
        r@ == "/plugin "@ + action@ + " "@ + name@,
{
    let mut cmd = String::from_str("/plugin ");
    cmd.append(action);
    cmd.append(" ");
    cmd.append(name);
    cmd
}

} // verus!
