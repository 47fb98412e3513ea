//! `/low`, `/medium`, `/high`, `/xhigh`: sends one prompt at a reasoning effort
//! of its own, without changing that of the session.

use crate::text::{concat, concat3, own, trim, trimmed};
use vstd::prelude::*;

verus! {

/// How much a model thinks before it answers.
#[derive(Clone, Copy, PartialEq, Eq, Structural, Debug)]
pub enum ReasoningEffort {
    Off,
    Minimal,
    Low,
    Medium,
    High,
    Xhigh,
    Max,
}

impl ReasoningEffort {
    /// The name of the effort.
    pub open spec fn label(self) -> Seq<char> {
        match self {
            ReasoningEffort::Off => "none"@,
            ReasoningEffort::Minimal => "minimal"@,
            ReasoningEffort::Low => "low"@,
            ReasoningEffort::Medium => "medium"@,
            ReasoningEffort::High => "high"@,
            ReasoningEffort::Xhigh => "xhigh"@,
            ReasoningEffort::Max => "max"@,
        }
    }

    /// The name of the effort.
    pub fn as_str(self) -> (r: &'static str)
        ensures
            r@ == self.label(),
    {
        match self {
            ReasoningEffort::Off => "none",
            ReasoningEffort::Minimal => "minimal",
            ReasoningEffort::Low => "low",
            ReasoningEffort::Medium => "medium",
            ReasoningEffort::High => "high",
            ReasoningEffort::Xhigh => "xhigh",
            ReasoningEffort::Max => "max",
        }
    }
}

/// A block of a prompt.
#[derive(PartialEq, Eq, Debug)]
pub enum PromptBlock {
    Text(String),
}

/// What a command comes to.
#[derive(PartialEq, Eq, Debug)]
pub enum CommandResult {
    /// A message about why it cannot be done.
    Error(String),
    /// A prompt to send.
    InjectSkill {
        display_text: String,
        prompt_blocks: Vec<PromptBlock>,
        display_as_skill: bool,
        scheduled_task_preview: Option<String>,
        reasoning_effort: Option<ReasoningEffort>,
    },
}

/// What a command comes to, as mathematics: an error, or a prompt with what is
/// shown of it and its effort.
pub enum Outcome {
    Error(Seq<char>),
    Prompt { shown: Seq<char>, text: Seq<char>, effort: ReasoningEffort },
}

impl CommandResult {
    /// Whether the result is as an outcome says.
    pub open spec fn comes_to(self, o: Outcome) -> bool {
        match (self, o) {
            (CommandResult::Error(s), Outcome::Error(t)) => s@ == t,
            (
                CommandResult::InjectSkill {
                    display_text,
                    prompt_blocks,
                    display_as_skill,
                    scheduled_task_preview,
                    reasoning_effort,
                },
                Outcome::Prompt { shown, text, effort },
            ) => {
                &&& display_text@ == shown
                &&& prompt_blocks@.len() == 1
                &&& prompt_blocks@[0]->Text_0@ == text
                &&& display_as_skill
                &&& scheduled_task_preview is None
                &&& reasoning_effort == Some(effort)
            },
            _ => false,
        }
    }
}

/// The command for one effort.
#[derive(Clone, Copy, PartialEq, Eq, Structural, Debug)]
pub struct TurnEffortCommand {
    pub level: ReasoningEffort,
}

impl TurnEffortCommand {
    /// How the command is used.
    pub open spec fn usage_text(self) -> Seq<char> {
        "/"@ + self.level.label() + " <prompt>"@
    }

    /// What the command comes to: given what follows it, the current model if
    /// there is one, and what the model makes of the effort.
    pub open spec fn outcome(
        self,
        args: Seq<char>,
        model: bool,
        resolved: Result<ReasoningEffort, Seq<char>>,
    ) -> Outcome {
        let prompt = trimmed(args);
        if prompt.len() == 0 {
            Outcome::Error("Usage: "@ + self.usage_text())
        } else if !model {
            Outcome::Error("No active model"@)
        } else {
            match resolved {
                Ok(effort) => Outcome::Prompt {
                    shown: "/"@ + self.level.label() + " "@ + prompt,
                    text: prompt,
                    effort,
                },
                Err(text) => Outcome::Error(text),
            }
        }
    }

    /// The command for an effort.
    pub fn new(level: ReasoningEffort) -> (r: TurnEffortCommand)
        ensures
            r.level == level,
    {
        TurnEffortCommand { level }
    }

    /// How the command is used.
    fn usage_string(&self) -> (r: String)
        ensures
            r@ == self.usage_text(),
    {
        concat3("/", self.level.as_str(), " <prompt>")
    }

    /// The command's name.
    pub fn name(&self) -> (r: &'static str)
        ensures
            r@ == self.level.label(),
    {
        self.level.as_str()
    }

    /// What the command does, in a line.
    pub fn description(&self) -> (r: &'static str)
        ensures
            r@ == match self.level {
                ReasoningEffort::Low => "Send this prompt at low reasoning effort"@,
                ReasoningEffort::Medium => "Send this prompt at medium reasoning effort"@,
                ReasoningEffort::High => "Send this prompt at high reasoning effort"@,
                ReasoningEffort::Xhigh => "Send this prompt at extra-high reasoning effort"@,
                _ => "Send this prompt at a one-shot reasoning effort"@,
            },
    {
        match self.level {
            ReasoningEffort::Low => "Send this prompt at low reasoning effort",
            ReasoningEffort::Medium => "Send this prompt at medium reasoning effort",
            ReasoningEffort::High => "Send this prompt at high reasoning effort",
            ReasoningEffort::Xhigh => "Send this prompt at extra-high reasoning effort",
            ReasoningEffort::Off
            | ReasoningEffort::Minimal
            | ReasoningEffort::Max => "Send this prompt at a one-shot reasoning effort",
        }
    }

    /// Whether the command belongs to a session.
    pub fn session_scoped(&self) -> (r: bool)
        ensures
            r,
    {
        true
    }

    /// How the command is used, as it is listed.
    pub fn usage(&self) -> (r: &'static str)
        ensures
            r@ == match self.level {
                ReasoningEffort::Low => "/low <prompt>"@,
                ReasoningEffort::Medium => "/medium <prompt>"@,
                ReasoningEffort::High => "/high <prompt>"@,
                ReasoningEffort::Xhigh => "/xhigh <prompt>"@,
                _ => "/effort <prompt>"@,
            },
    {
        match self.level {
            ReasoningEffort::Low => "/low <prompt>",
            ReasoningEffort::Medium => "/medium <prompt>",
            ReasoningEffort::High => "/high <prompt>",
            ReasoningEffort::Xhigh => "/xhigh <prompt>",
            ReasoningEffort::Off
            | ReasoningEffort::Minimal
            | ReasoningEffort::Max => "/effort <prompt>",
        }
    }

    /// Whether something may follow the command.
    pub fn takes_args(&self) -> (r: bool)
        ensures
            r,
    {
        true
    }

    /// Whether something has to follow the command.
    pub fn args_required(&self) -> (r: bool)
        ensures
            r,
    {
        true
    }

    /// What stands for what follows the command.
    pub fn arg_placeholder(&self) -> (r: Option<&'static str>)
        ensures
            r matches Some(s) && s@ == "<prompt>"@,
    {
        Some("<prompt>")
    }

    /// Whether the command is offered: the efforts that the current model
    /// offers have its own among them.
    pub fn visible(&self, options: &Vec<ReasoningEffort>) -> (r: bool)
        ensures
            r == options@.contains(self.level),
    {
        let mut i: usize = 0;
        while i < options.len()
            invariant
                i <= options@.len(),
                forall|j: int| 0 <= j < i ==> #[trigger] options@[j] != self.level,
            decreases options@.len() - i,
        {
            if options[i] == self.level {
                return true;
            }
            i = i + 1;
        }
        false
    }

    /// Does what the command asks for: given what follows it, the current model
    /// if there is one, and what that model makes of the effort.
    pub fn run(
        &self,
        args: &str,
        current: Option<&str>,
        resolved: Result<ReasoningEffort, String>,
    ) -> (r: CommandResult)
        ensures
            r.comes_to(
                self.outcome(
                    args@,
                    current is Some,
                    match resolved {
                        Ok(e) => Ok(e),
                        Err(s) => Err(s@),
                    },
                ),
            ),
    {
        let prompt: String = trim(args);
        if prompt.as_str().is_empty() {
            return CommandResult::Error(concat("Usage: ", self.usage_string().as_str()));
        }
        if current.is_none() {
            return CommandResult::Error(own("No active model"));
        }
        match resolved {
            Ok(effort) => {
                let mut shown: String = concat3("/", self.level.as_str(), " ");
                shown.push_str(prompt.as_str());
                let mut blocks: Vec<PromptBlock> = Vec::new();
                blocks.push(PromptBlock::Text(prompt));
                CommandResult::InjectSkill {
                    display_text: shown,
                    prompt_blocks: blocks,
                    display_as_skill: true,
                    scheduled_task_preview: None,
                    reasoning_effort: Some(effort),
                }
            },
            Err(text) => CommandResult::Error(text),
        }
    }
}

/// The commands that are offered, the strongest effort first.
pub fn builtins() -> (r: [TurnEffortCommand; 4])
    ensures
        r@ == seq![
            TurnEffortCommand { level: ReasoningEffort::Xhigh },
            TurnEffortCommand { level: ReasoningEffort::High },
            TurnEffortCommand { level: ReasoningEffort::Medium },
            TurnEffortCommand { level: ReasoningEffort::Low },
        ],
{
    let list: [TurnEffortCommand; 4] = [
        TurnEffortCommand { level: ReasoningEffort::Xhigh },
        TurnEffortCommand { level: ReasoningEffort::High },
        TurnEffortCommand { level: ReasoningEffort::Medium },
        TurnEffortCommand { level: ReasoningEffort::Low },
    ];
    proof {
        assert(list@ =~= seq![
            TurnEffortCommand { level: ReasoningEffort::Xhigh },
            TurnEffortCommand { level: ReasoningEffort::High },
            TurnEffortCommand { level: ReasoningEffort::Medium },
            TurnEffortCommand { level: ReasoningEffort::Low },
        ]);
    }
    list
}

/// A prompt sent by a command never has the command in it: only what is shown
/// has.
pub proof fn command_stays_off_the_wire(
    c: TurnEffortCommand,
    args: Seq<char>,
    effort: ReasoningEffort,
)
    requires
        trimmed(args).len() > 0,
    ensures
        c.outcome(args, true, Ok(effort)) == (Outcome::Prompt {
            shown: "/"@ + c.level.label() + " "@ + trimmed(args),
            text: trimmed(args),
            effort,
        }),
{
}

} // verus!
