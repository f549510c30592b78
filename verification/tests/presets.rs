use chat_context::meta::MetaValue;
use chat_context::presets::{
    default_commit_reminder_enabled, default_git_branch_prefix,
    default_pr_auto_description_enabled, default_true, ChatMemberPreset, ChatPresetsConfig,
    ChatTeamPreset,
};

#[test]
fn settings_have_their_defaults() {
    assert_eq!(default_git_branch_prefix(), "vk");
    assert!(default_pr_auto_description_enabled());
    assert!(default_commit_reminder_enabled());
    assert!(default_true());
}

#[test]
fn presets_are_plain_records() {
    let member = ChatMemberPreset {
        id: "qa_tester".to_string(),
        name: "tester".to_string(),
        description: "QA Tester - Testing and quality assurance".to_string(),
        runner_type: None,
        system_prompt: "You are a thorough QA Tester.".to_string(),
        default_workspace_path: Some("tests".to_string()),
        tools_enabled: MetaValue::empty_object(),
        is_builtin: true,
        enabled: default_true(),
    };
    let team = ChatTeamPreset {
        id: "bugfix_strike_team".to_string(),
        name: "Bugfix Strike Team".to_string(),
        description: "Rapid response team for bug fixes and hotfixes".to_string(),
        member_ids: vec!["qa_tester".to_string()],
        is_builtin: true,
        enabled: default_true(),
    };
    let config = ChatPresetsConfig { members: vec![member.clone()], teams: vec![team.clone()] };
    assert_eq!(config.clone(), config);
    assert_eq!(config.members[0], member);
    assert_eq!(config.teams[0].member_ids, vec!["qa_tester"]);
    assert!(config.teams[0].enabled);
}
