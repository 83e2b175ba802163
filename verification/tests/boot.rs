use pico_wasm_host::boot::{Action, Binder, Stage};

const ORDER: [Stage; 7] = [
    Stage::InitHeap,
    Stage::InitHardware,
    Stage::ConfigureEngine,
    Stage::RegisterCapabilities,
    Stage::LoadArtifact,
    Stage::Instantiate,
    Stage::InvokeEntry,
];

#[test]
fn startup_runs_the_steps_in_order() {
    let (mut binder, first) = Binder::start();
    assert_eq!(first, Action::Run(Stage::InitHeap));
    let mut ran = vec![Stage::InitHeap];
    loop {
        match binder.report(true) {
            Action::Run(stage) => ran.push(stage),
            Action::Rest => break,
            Action::Halt(stage) => panic!("halted at {:?}", stage),
        }
    }
    assert_eq!(ran, ORDER.to_vec());
    assert_eq!(binder, Binder::Ended);
    // the guest is not started again
    assert_eq!(binder.report(true), Action::Rest);
    assert_eq!(binder.report(false), Action::Rest);
}

#[test]
fn any_failing_step_halts_for_good() {
    for k in 0..7 {
        let (mut binder, _) = Binder::start();
        for stage in &ORDER[1..=k] {
            assert_eq!(binder.report(true), Action::Run(*stage));
        }
        assert_eq!(binder.report(false), Action::Halt(ORDER[k]));
        assert_eq!(binder, Binder::Halted(ORDER[k]));
        assert_eq!(binder.report(true), Action::Halt(ORDER[k]));
        assert_eq!(binder.report(false), Action::Halt(ORDER[k]));
    }
}

#[test]
fn each_step_knows_the_next() {
    for k in 0..6 {
        assert_eq!(ORDER[k].next(), Some(ORDER[k + 1]));
    }
    assert_eq!(Stage::InvokeEntry.next(), None);
}
