//! The chat presets of a configuration, member and team templates, and the
//! defaults of a few settings.

use vstd::prelude::*;
use crate::meta::MetaValue;

verus! {

/// A template for a chat member.
#[derive(Debug, Clone, PartialEq, Eq)]
pub struct ChatMemberPreset {
    pub id: String,
    /// The display name, which is also the handle for mentions.
    pub name: String,
    pub description: String,
    /// The runner to use; none means the default one.
    pub runner_type: Option<String>,
    pub system_prompt: String,
    pub default_workspace_path: Option<String>,
    pub tools_enabled: MetaValue,
    /// A built-in preset cannot be deleted.
    pub is_builtin: bool,
    /// An enabled preset is offered for import.
    pub enabled: bool,
}

/// A template for a team of chat members.
#[derive(Debug, Clone, PartialEq, Eq)]
pub struct ChatTeamPreset {
    pub id: String,
    pub name: String,
    pub description: String,
    /// The member presets of the team, by their ids.
    pub member_ids: Vec<String>,
    /// A built-in preset cannot be deleted.
    pub is_builtin: bool,
    /// An enabled preset is offered for import.
    pub enabled: bool,
}

/// The member and team templates of a configuration.
#[derive(Debug, Clone, PartialEq, Eq)]
pub struct ChatPresetsConfig {
    pub members: Vec<ChatMemberPreset>,
    pub teams: Vec<ChatTeamPreset>,
}

/// The default prefix of the branches that are made for tasks.
pub fn default_git_branch_prefix() -> (prefix: String)
    ensures
        prefix@ == "vk"@,
{
    "vk".to_owned()
}

/// Pull request descriptions are written automatically by default.
pub fn default_pr_auto_description_enabled() -> (enabled: bool)
    ensures
        enabled,
{
    true
}

/// Commit reminders are given by default.
pub fn default_commit_reminder_enabled() -> (enabled: bool)
    ensures
        enabled,
{
    true
}

/// A preset is enabled unless it says otherwise.
pub fn default_true() -> (enabled: bool)
    ensures
        enabled,
{
    true
}

} // verus!
