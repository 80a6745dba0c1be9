//! The boot sequence of each boot mode.

use vstd::prelude::*;

use crate::init::ArgonautInit;
use crate::types::{BootMode, BootStage, BootStep, BootStepStatus};

verus! {

/// One boot step: its stage, description, whether it is required, and its
/// timeout in milliseconds.
pub type StepEntry = (BootStage, Seq<char>, bool, u64);

pub open spec fn common_steps() -> Seq<StepEntry> {
    seq![
        (BootStage::MountFilesystems, "Mount essential filesystems (proc, sys, dev, tmp)"@, true, 2000u64),
        (BootStage::StartDeviceManager, "Start udev device manager"@, true, 3000u64),
        (BootStage::VerifyRootfs, "Verify rootfs integrity via dm-verity"@, true, 5000u64),
        (BootStage::StartSecurity, "Initialize Landlock, seccomp, and MAC policies"@, true, 2000u64),
    ]
}

pub open spec fn final_step() -> StepEntry {
    (BootStage::BootComplete, "All boot stages finished"@, true, 1000u64)
}

/// The boot steps of `mode`, in order.
pub open spec fn boot_table(mode: BootMode) -> Seq<StepEntry> {
    let agent = (BootStage::StartAgentRuntime, "Start daimon (agent-runtime) on port 8090"@, true, 5000u64);
    let db = (BootStage::StartDatabaseServices, "Start PostgreSQL and Redis database services"@, true, 15_000u64);
    let gateway = (BootStage::StartLlmGateway, "Start hoosh (llm-gateway) on port 8088"@, false, 5000u64);
    let models = (BootStage::StartModelServices, "Start Synapse LLM model manager"@, false, 15_000u64);
    let compositor = (BootStage::StartCompositor, "Start aethersafha (Wayland compositor)"@, true, 5000u64);
    let shell = (BootStage::StartShell, "Start agnoshi (AI shell)"@, false, 3000u64);
    match mode {
        BootMode::Edge => common_steps() + seq![
            (BootStage::StartAgentRuntime, "Start daimon (agent-runtime) in edge mode on port 8090"@, true, 3000u64),
            (BootStage::BootComplete, "Edge boot complete — agent ready"@, true, 500u64),
        ],
        BootMode::Recovery => common_steps().push(final_step()),
        BootMode::Minimal => common_steps() + seq![agent, final_step()],
        BootMode::Server => common_steps() + seq![db, agent, gateway, models, final_step()],
        BootMode::Desktop => common_steps() + seq![db, agent, gateway, models, compositor, shell, final_step()],
    }
}

/// `s` is a pending, not yet started step described by `e`.
pub open spec fn pending_step(s: BootStep, e: StepEntry) -> bool {
    &&& s.stage == e.0
    &&& s.description@ == e.1
    &&& s.required == e.2
    &&& s.timeout_ms == e.3
    &&& s.status == BootStepStatus::Pending
    &&& s.started_at is None
    &&& s.completed_at is None
    &&& s.error is None
}

/// `steps` is the boot sequence of `mode`.
pub open spec fn boot_sequence_spec(mode: BootMode, steps: Seq<BootStep>) -> bool {
    &&& steps.len() == boot_table(mode).len()
    &&& forall|i: int| 0 <= i < steps.len() ==> #[trigger] pending_step(steps[i], boot_table(mode)[i])
}

/// The stages whose failure the boot tolerates: the LLM gateway, the
/// model services and the AI shell. Every other stage is required.
pub open spec fn optional_stage(stage: BootStage) -> bool {
    stage is StartLlmGateway || stage is StartModelServices || stage is StartShell
}

/// In every boot mode, a step is required exactly when its stage is not
/// one of the optional ones: the gateway, models and shell may fail
/// without sending the boot to the emergency shell, and nothing else may.
/// The stages come in their fixed order, each at most once, from mounting
/// the filesystems to boot completion, and every step starts pending.
pub proof fn lemma_boot_steps_required(mode: BootMode, steps: Seq<BootStep>)
    requires
        boot_sequence_spec(mode, steps),
    ensures
        forall|i: int| 0 <= i < steps.len() ==> (#[trigger] steps[i]).required == !optional_stage(steps[i].stage),
        forall|i: int, j: int| 0 <= i < j < steps.len() ==> (#[trigger] steps[i]).stage.rank() < (#[trigger] steps[j]).stage.rank(),
        forall|i: int| 0 <= i < steps.len() ==> (#[trigger] steps[i]).status == BootStepStatus::Pending,
        steps.len() >= 5,
        steps[0].stage == BootStage::MountFilesystems,
        steps.last().stage == BootStage::BootComplete,
{
    let t = boot_table(mode);
    assert forall|i: int| 0 <= i < t.len() implies (#[trigger] t[i]).2 == !optional_stage(t[i].0) by {
        if i < 4 {
            assert(t[i] == common_steps()[i]);
        }
    }
    assert forall|i: int, j: int| 0 <= i < j < t.len() implies (#[trigger] t[i]).0.rank() < (#[trigger] t[j]).0.rank() by {
        if i < 4 {
            assert(t[i] == common_steps()[i]);
        }
        if j < 4 {
            assert(t[j] == common_steps()[j]);
        }
    }
    assert(pending_step(steps[0], t[0]));
    assert(t[0] == common_steps()[0]);
    assert(pending_step(steps[steps.len() - 1], t[t.len() - 1]));
    assert forall|i: int, j: int| 0 <= i < j < steps.len() implies (#[trigger] steps[i]).stage.rank() < (
    #[trigger] steps[j]).stage.rank() by {
        assert(pending_step(steps[i], t[i]));
        assert(pending_step(steps[j], t[j]));
    }
    assert forall|i: int| 0 <= i < steps.len() implies (#[trigger] steps[i]).status == BootStepStatus::Pending by {
        assert(pending_step(steps[i], t[i]));
    }
    assert forall|i: int| 0 <= i < steps.len() implies (#[trigger] steps[i]).required == !optional_stage(
        steps[i].stage,
    ) by {
        assert(pending_step(steps[i], t[i]));
    }
}

/// Appends a pending step.
fn push_step(steps: &mut Vec<BootStep>, stage: BootStage, description: &str, required: bool, timeout_ms: u64)
    ensures
        final(steps)@.len() == old(steps)@.len() + 1,
        forall|i: int| 0 <= i < old(steps)@.len() ==> final(steps)@[i] == old(steps)@[i],
        pending_step(final(steps)@.last(), (stage, description@, required, timeout_ms)),
{
    steps.push(
        BootStep {
            stage,
            description: description.to_string(),
            required,
            timeout_ms,
            status: BootStepStatus::Pending,
            started_at: None,
            completed_at: None,
            error: None,
        },
    );
}

impl ArgonautInit {
    /// The boot sequence of `mode`: filesystems, devices, rootfs
    /// verification and security, then the stages of the mode's services,
    /// then boot completion.
    pub fn build_boot_sequence(mode: BootMode) -> (steps: Vec<BootStep>)
        ensures
            boot_sequence_spec(mode, steps@),
            forall|i: int|
                0 <= i < steps@.len() ==> (#[trigger] steps@[i]).required == !optional_stage(steps@[i].stage),
            forall|i: int, j: int|
                0 <= i < j < steps@.len() ==> (#[trigger] steps@[i]).stage.rank() < (#[trigger] steps@[j]).stage.rank(),
            steps@[0].stage == BootStage::MountFilesystems,
            steps@.last().stage == BootStage::BootComplete,
    {
        let mut steps: Vec<BootStep> = Vec::new();
        push_step(&mut steps, BootStage::MountFilesystems, "Mount essential filesystems (proc, sys, dev, tmp)", true, 2000);
        push_step(&mut steps, BootStage::StartDeviceManager, "Start udev device manager", true, 3000);
        push_step(&mut steps, BootStage::VerifyRootfs, "Verify rootfs integrity via dm-verity", true, 5000);
        push_step(&mut steps, BootStage::StartSecurity, "Initialize Landlock, seccomp, and MAC policies", true, 2000);
        let ghost common = steps@;
        assert(forall|i: int| 0 <= i < 4 ==> #[trigger] pending_step(common[i], common_steps()[i]));
        if mode == BootMode::Edge {
            push_step(&mut steps, BootStage::StartAgentRuntime, "Start daimon (agent-runtime) in edge mode on port 8090", true, 3000);
            push_step(&mut steps, BootStage::BootComplete, "Edge boot complete — agent ready", true, 500);
            assert forall|i: int| 0 <= i < steps@.len() implies #[trigger] pending_step(steps@[i], boot_table(mode)[i]) by {
                if i < 4 {
                    assert(steps@[i] == common[i]);
                }
            }
            proof {
                lemma_boot_steps_required(mode, steps@);
            }
            return steps;
        }
        if mode == BootMode::Recovery {
            push_step(&mut steps, BootStage::BootComplete, "All boot stages finished", true, 1000);
            assert forall|i: int| 0 <= i < steps@.len() implies #[trigger] pending_step(steps@[i], boot_table(mode)[i]) by {
                if i < 4 {
                    assert(steps@[i] == common[i]);
                }
            }
            proof {
                lemma_boot_steps_required(mode, steps@);
            }
            return steps;
        }
        let server_like = mode == BootMode::Server || mode == BootMode::Desktop;
        if server_like {
            push_step(&mut steps, BootStage::StartDatabaseServices, "Start PostgreSQL and Redis database services", true, 15_000);
        }
        push_step(&mut steps, BootStage::StartAgentRuntime, "Start daimon (agent-runtime) on port 8090", true, 5000);
        if server_like {
            push_step(&mut steps, BootStage::StartLlmGateway, "Start hoosh (llm-gateway) on port 8088", false, 5000);
            push_step(&mut steps, BootStage::StartModelServices, "Start Synapse LLM model manager", false, 15_000);
        }
        if mode == BootMode::Desktop {
            push_step(&mut steps, BootStage::StartCompositor, "Start aethersafha (Wayland compositor)", true, 5000);
            push_step(&mut steps, BootStage::StartShell, "Start agnoshi (AI shell)", false, 3000);
        }
        push_step(&mut steps, BootStage::BootComplete, "All boot stages finished", true, 1000);
        assert(steps@.len() == boot_table(mode).len());
        assert forall|i: int| 0 <= i < steps@.len() implies #[trigger] pending_step(steps@[i], boot_table(mode)[i]) by {
            if i < 4 {
                assert(steps@[i] == common[i]);
            }
        }
        proof {
            lemma_boot_steps_required(mode, steps@);
        }
        steps
    }
}

} // verus!
