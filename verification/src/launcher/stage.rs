//! How an attach is carried out, as the no-Steam setting and the diagnostic stage choose it.

use vstd::prelude::*;

use crate::text::{parse_number, same_text};

verus! {

/// The environment variable that names the diagnostic stage.
pub const DIAG_STAGE_VARIABLE: &'static str = "ME3_NO_STEAM_DIAG_STAGE";

/// The environment variable that holds the delay of a late attach, in milliseconds.
pub const ATTACH_DELAY_VARIABLE: &'static str = "ME3_NO_STEAM_ATTACH_DELAY_MS";

/// The delay of a late attach where the environment does not give one.
pub const DEFAULT_ATTACH_DELAY_MS: u64 = 8_000;

/// What a late attach does once its delay is over.
#[derive(Clone, Copy, Debug, PartialEq, Eq, Structural)]
pub enum LateGoal {
    /// Load a DLL that does not exist.
    Probe,
    /// Load the mod host, and leave it alone.
    Load,
    /// Load the mod host and ask it to attach.
    Attach,
}

/// The way an attach is carried out.
#[derive(Clone, Copy, Debug, PartialEq, Eq, Structural)]
pub enum AttachMode {
    /// Let the game run without loading anything.
    ResumeOnly,
    /// Load a DLL that does not exist, then let the game run.
    ProbeOnly,
    /// Let the game run, and load into it after a delay.
    Late(LateGoal),
    /// Load the mod host, then let the game run without asking the host to attach.
    LoadOnly,
    /// Load the mod host, have it attach, then let the game run.
    Immediate,
}

/// The stages that are a late attach in every respect but their name.
pub open spec fn is_late_attach_stage(stage: Seq<char>) -> bool {
    ||| stage == "late-dll-only"@
    ||| stage == "late-host-only"@
    ||| stage == "late-dearxan-only"@
    ||| stage == "late-filesystem-only"@
    ||| stage == "late-full"@
    ||| stage == "late-full-immediate"@
}

/// The mode that a diagnostic stage stands for when Steam is left out. No stage at all is a late
/// attach, and a stage that nobody knows is an immediate one.
pub open spec fn mode_of_stage(stage: Seq<char>) -> AttachMode {
    if stage == "resume-only"@ {
        AttachMode::ResumeOnly
    } else if stage == "probe-only"@ {
        AttachMode::ProbeOnly
    } else if stage == "late-probe-only"@ {
        AttachMode::Late(LateGoal::Probe)
    } else if stage == "late-load-only"@ {
        AttachMode::Late(LateGoal::Load)
    } else if stage.len() == 0 || is_late_attach_stage(stage) {
        AttachMode::Late(LateGoal::Attach)
    } else if stage == "load-only"@ {
        AttachMode::LoadOnly
    } else {
        AttachMode::Immediate
    }
}

/// The stage that a variable names; an absent variable is an empty one.
pub open spec fn stage_of(variable: Option<Seq<char>>) -> Seq<char> {
    match variable {
        Some(stage) => stage,
        None => Seq::empty(),
    }
}

/// The mode of an attach. With Steam in the picture the diagnostic stage has no say.
pub open spec fn attach_mode(no_steam: bool, variable: Option<Seq<char>>) -> AttachMode {
    if no_steam {
        mode_of_stage(stage_of(variable))
    } else {
        AttachMode::Immediate
    }
}

/// The delay that a variable gives, or the default where it holds no number.
pub open spec fn delay_of(variable: Option<Seq<char>>) -> int {
    match variable {
        Some(text) => match crate::text::number_of(text) {
            Some(ms) => ms,
            None => DEFAULT_ATTACH_DELAY_MS as int,
        },
        None => DEFAULT_ATTACH_DELAY_MS as int,
    }
}

/// The characters of a variable's value.
pub open spec fn characters(variable: Option<String>) -> Option<Seq<char>> {
    match variable {
        Some(value) => Some(value@),
        None => None,
    }
}

impl AttachMode {
    /// The mode that a diagnostic stage stands for when Steam is left out.
    pub fn of_stage(stage: &str) -> (mode: AttachMode)
        ensures
            mode == mode_of_stage(stage@),
    {
        if same_text(stage, "resume-only") {
            AttachMode::ResumeOnly
        } else if same_text(stage, "probe-only") {
            AttachMode::ProbeOnly
        } else if same_text(stage, "late-probe-only") {
            AttachMode::Late(LateGoal::Probe)
        } else if same_text(stage, "late-load-only") {
            AttachMode::Late(LateGoal::Load)
        } else if stage.is_empty() || same_text(stage, "late-dll-only")
            || same_text(stage, "late-host-only") || same_text(stage, "late-dearxan-only")
            || same_text(stage, "late-filesystem-only") || same_text(stage, "late-full")
            || same_text(stage, "late-full-immediate") {
            AttachMode::Late(LateGoal::Attach)
        } else if same_text(stage, "load-only") {
            AttachMode::LoadOnly
        } else {
            AttachMode::Immediate
        }
    }

    /// The mode that the diagnostic stage variable stands for when Steam is left out.
    pub fn of_variable(variable: &Option<String>) -> (mode: AttachMode)
        ensures
            mode == attach_mode(true, characters(*variable)),
            variable matches Some(stage) ==> mode == mode_of_stage(stage@),
            variable is None ==> mode == AttachMode::Late(LateGoal::Attach),
    {
        match variable {
            Some(stage) => AttachMode::of_stage(stage.as_str()),
            None => {
                let unset: String = String::new();
                assert(unset@ =~= stage_of(None));
                proof {
                    reveal_strlit("resume-only");
                    reveal_strlit("probe-only");
                    reveal_strlit("late-probe-only");
                    reveal_strlit("late-load-only");
                }
                AttachMode::of_stage(unset.as_str())
            },
        }
    }
}

/// The delay of a late attach, in milliseconds.
pub fn attach_delay(variable: &Option<String>) -> (ms: u64)
    ensures
        ms == delay_of(characters(*variable)),
        variable is None ==> ms == 8_000,
        variable matches Some(text) ==> match crate::text::number_of(text@) {
            Some(n) => ms == n,
            None => ms == 8_000,
        },
{
    match variable {
        Some(text) => match parse_number(text.as_str()) {
            Some(ms) => ms,
            None => DEFAULT_ATTACH_DELAY_MS,
        },
        None => DEFAULT_ATTACH_DELAY_MS,
    }
}

/// What a late attach calls itself in the log: its stage, or `no-steam-default` without one.
pub fn stage_label(variable: &Option<String>) -> (label: String)
    ensures
        label@ == (if stage_of(characters(*variable)).len() == 0 {
            "no-steam-default"@
        } else {
            stage_of(characters(*variable))
        }),
        variable is None ==> label@ == "no-steam-default"@,
        variable matches Some(stage) ==> label@ == (if stage@.len() == 0 {
            "no-steam-default"@
        } else {
            stage@
        }),
{
    match variable {
        Some(stage) => if stage.as_str().is_empty() {
            "no-steam-default".to_owned()
        } else {
            stage.clone()
        },
        None => "no-steam-default".to_owned(),
    }
}

} // verus!
