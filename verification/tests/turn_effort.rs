use gtm_hub::turn_effort::{
    builtins, CommandResult, PromptBlock, ReasoningEffort, TurnEffortCommand,
};

fn message(result: CommandResult) -> String {
    match result {
        CommandResult::Error(msg) => msg,
        CommandResult::InjectSkill { .. } => panic!("expected Error"),
    }
}

#[test]
fn empty_args_errors_with_usage() {
    let msg = message(TurnEffortCommand::new(ReasoningEffort::High).run(
        "",
        Some("grok-4.6"),
        Ok(ReasoningEffort::High),
    ));
    assert!(msg.contains("Usage: /high <prompt>"), "msg={msg}");
}

#[test]
fn no_model_errors() {
    let msg = message(TurnEffortCommand::new(ReasoningEffort::High).run(
        "fix this",
        None,
        Ok(ReasoningEffort::High),
    ));
    assert!(msg.contains("No active model"), "msg={msg}");
}

#[test]
fn unsupported_model_errors() {
    let msg = message(TurnEffortCommand::new(ReasoningEffort::High).run(
        "fix this",
        Some("plain"),
        Err("Plain does not support reasoning effort".to_string()),
    ));
    assert!(msg.contains("does not support reasoning effort"), "msg={msg}");
}

#[test]
fn xhigh_rejected_when_model_menu_omits_it() {
    let msg = message(TurnEffortCommand::new(ReasoningEffort::Xhigh).run(
        "dig in",
        Some("grok-4.5"),
        Err("unknown effort level 'xhigh' (expected high, medium, low)".to_string()),
    ));
    assert!(msg.contains("unknown effort level 'xhigh'"), "msg={msg}");
    assert!(msg.contains("high"), "msg={msg}");
}

#[test]
fn high_enqueues_prompt_without_slash_on_the_wire() {
    let result = TurnEffortCommand::new(ReasoningEffort::High).run(
        "fix this",
        Some("grok-4.6"),
        Ok(ReasoningEffort::High),
    );
    match result {
        CommandResult::InjectSkill {
            display_text,
            prompt_blocks,
            display_as_skill,
            scheduled_task_preview,
            reasoning_effort,
        } => {
            assert_eq!(display_text, "/high fix this");
            assert!(display_as_skill);
            assert_eq!(scheduled_task_preview, None);
            assert_eq!(reasoning_effort, Some(ReasoningEffort::High));
            assert_eq!(prompt_blocks.len(), 1);
            let PromptBlock::Text(text) = &prompt_blocks[0];
            assert_eq!(text, "fix this");
        }
        CommandResult::Error(msg) => panic!("expected InjectSkill, got {msg}"),
    }
}

#[test]
fn visible_only_when_current_model_offers_the_level() {
    let offered = vec![
        ReasoningEffort::High,
        ReasoningEffort::Medium,
        ReasoningEffort::Low,
    ];
    assert!(TurnEffortCommand::new(ReasoningEffort::High).visible(&offered));
    assert!(TurnEffortCommand::new(ReasoningEffort::Low).visible(&offered));
    assert!(!TurnEffortCommand::new(ReasoningEffort::Xhigh).visible(&offered));
}

#[test]
fn builtins_cover_low_through_xhigh() {
    let cmds = builtins();
    let names: Vec<&str> = cmds.iter().map(|c| c.name()).collect();
    assert_eq!(names, ["xhigh", "high", "medium", "low"]);
}

#[test]
fn the_shown_text_takes_the_trimmed_prompt() {
    let result = TurnEffortCommand::new(ReasoningEffort::Low).run(
        "  look  around \n",
        Some("m"),
        Ok(ReasoningEffort::Minimal),
    );
    match result {
        CommandResult::InjectSkill { display_text, reasoning_effort, .. } => {
            assert_eq!(display_text, "/low look  around");
            assert_eq!(reasoning_effort, Some(ReasoningEffort::Minimal));
        }
        CommandResult::Error(msg) => panic!("{msg}"),
    }
}
