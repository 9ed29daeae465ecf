use ollama_rename::bootstrap::{
    boot_after, describe_boot_failure, Boot, BootEvent, BootFailure, BootOutcome, BootStep,
    Platform, MAX_POLLS, POLL_INTERVAL_SECS, PROBE_TIMEOUT_SECS,
};

/// Feeds the events in turn and lists the steps that were handed out.
fn steps(platform: Platform, events: &[BootEvent]) -> Vec<BootStep> {
    let mut boot = Boot::begin(platform);
    let mut all = vec![boot.step];
    for event in events {
        let before = boot;
        let step = boot.advance(*event);
        assert_eq!(step, boot.step);
        assert_eq!(boot, boot_after(before, *event));
        if boot != before {
            all.push(step);
        }
    }
    all
}

fn failed(failure: BootFailure) -> BootStep {
    BootStep::Finish(BootOutcome::Failed(failure))
}

#[test]
fn limits_of_the_bootstrap() {
    assert_eq!(PROBE_TIMEOUT_SECS, 3);
    assert_eq!(POLL_INTERVAL_SECS, 1);
    assert_eq!(MAX_POLLS, 30);
}

#[test]
fn daemon_that_answers_is_left_alone() {
    for platform in [Platform::Windows, Platform::Other] {
        let boot = Boot::begin(platform);
        assert_eq!(boot.step, BootStep::Probe);
        assert_eq!(boot.outcome(), None);
        assert_eq!(
            steps(platform, &[BootEvent::Probed(true)]),
            vec![BootStep::Probe, BootStep::Finish(BootOutcome::AlreadyRunning)]
        );
    }
}

#[test]
fn missing_tool_is_fatal() {
    for platform in [Platform::Windows, Platform::Other] {
        assert_eq!(
            steps(platform, &[BootEvent::Probed(false), BootEvent::ToolFound(false)]),
            vec![BootStep::Probe, BootStep::LocateTool, failed(BootFailure::ToolMissing)]
        );
    }
}

#[test]
fn daemon_is_spawned_and_answers_the_first_poll() {
    assert_eq!(
        steps(
            Platform::Other,
            &[
                BootEvent::Probed(false),
                BootEvent::ToolFound(true),
                BootEvent::Spawned(true),
                BootEvent::Probed(true)
            ]
        ),
        vec![
            BootStep::Probe,
            BootStep::LocateTool,
            BootStep::Spawn,
            BootStep::Probe,
            BootStep::Finish(BootOutcome::Started)
        ]
    );
}

#[test]
fn service_is_tried_first_on_windows() {
    let up_to_start = [BootEvent::Probed(false), BootEvent::ToolFound(true)];
    let mut events = up_to_start.to_vec();
    events.extend([BootEvent::ServiceStarted(true), BootEvent::Probed(true)]);
    assert_eq!(
        steps(Platform::Windows, &events),
        vec![
            BootStep::Probe,
            BootStep::LocateTool,
            BootStep::StartService,
            BootStep::Probe,
            BootStep::Finish(BootOutcome::Started)
        ]
    );
    let mut events = up_to_start.to_vec();
    events.extend([
        BootEvent::ServiceStarted(false),
        BootEvent::Spawned(true),
        BootEvent::Probed(true),
    ]);
    assert_eq!(
        steps(Platform::Windows, &events),
        vec![
            BootStep::Probe,
            BootStep::LocateTool,
            BootStep::StartService,
            BootStep::LaunchDetached,
            BootStep::Probe,
            BootStep::Finish(BootOutcome::Started)
        ]
    );
}

#[test]
fn failed_start_is_fatal() {
    assert_eq!(
        steps(
            Platform::Other,
            &[BootEvent::Probed(false), BootEvent::ToolFound(true), BootEvent::Spawned(false)]
        )
        .last(),
        Some(&failed(BootFailure::StartFailed))
    );
    assert_eq!(
        steps(
            Platform::Windows,
            &[
                BootEvent::Probed(false),
                BootEvent::ToolFound(true),
                BootEvent::ServiceStarted(false),
                BootEvent::Spawned(false)
            ]
        )
        .last(),
        Some(&failed(BootFailure::StartFailed))
    );
}

#[test]
fn polls_run_out_after_thirty() {
    let mut events =
        vec![BootEvent::Probed(false), BootEvent::ToolFound(true), BootEvent::Spawned(true)];
    for _ in 0..40 {
        events.push(BootEvent::Probed(false));
        events.push(BootEvent::Waited);
    }
    let all = steps(Platform::Other, &events);
    assert_eq!(all.last(), Some(&failed(BootFailure::TimedOut)));
    assert_eq!(all.iter().filter(|s| **s == BootStep::Probe).count(), 31);
    assert_eq!(all.iter().filter(|s| **s == BootStep::Wait).count(), 30);
    assert_eq!(all.len(), 3 + 60 + 1);
    // The thirtieth wait is still made before the bootstrap gives up.
    assert_eq!(all[all.len() - 2], BootStep::Wait);
}

#[test]
fn any_poll_that_is_answered_ends_the_wait() {
    for answered_at in 1..=30usize {
        let mut events =
            vec![BootEvent::Probed(false), BootEvent::ToolFound(true), BootEvent::Spawned(true)];
        for _ in 1..answered_at {
            events.push(BootEvent::Probed(false));
            events.push(BootEvent::Waited);
        }
        events.push(BootEvent::Probed(true));
        let all = steps(Platform::Other, &events);
        assert_eq!(all.last(), Some(&BootStep::Finish(BootOutcome::Started)));
        assert_eq!(all.iter().filter(|s| **s == BootStep::Probe).count(), 1 + answered_at);
    }
}

#[test]
fn events_that_are_not_waited_for_change_nothing() {
    let boot = Boot::begin(Platform::Other);
    for event in [
        BootEvent::ToolFound(true),
        BootEvent::ServiceStarted(true),
        BootEvent::Spawned(true),
        BootEvent::Waited,
    ] {
        assert_eq!(boot_after(boot, event), boot);
    }
    let done = boot_after(boot, BootEvent::Probed(true));
    assert_eq!(done.outcome(), Some(BootOutcome::AlreadyRunning));
    assert_eq!(boot_after(done, BootEvent::Probed(false)), done);
}

#[test]
fn boot_failures_in_words() {
    for platform in [Platform::Windows, Platform::Other] {
        assert_eq!(
            describe_boot_failure(BootFailure::ToolMissing, platform),
            "Ollama CLI not found. Please install Ollama and ensure it's in your PATH."
        );
        assert_eq!(
            describe_boot_failure(BootFailure::TimedOut, platform),
            "Failed to start Ollama service (timeout)."
        );
    }
    assert_eq!(
        describe_boot_failure(BootFailure::StartFailed, Platform::Windows),
        "Failed to start Ollama on Windows."
    );
    assert_eq!(
        describe_boot_failure(BootFailure::StartFailed, Platform::Other),
        "Failed to start Ollama."
    );
}
