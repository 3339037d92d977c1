use signer_core::flow::{
    boot, max_scroll, prepare_signing, review_step, shape_output, Action, Cycle, CycleAction,
    CycleEvent, Event, MediumFile, OutputPlan, Phase, PinEntry, PinStep, ReviewStep, Screen,
};
use signer_core::hal::ButtonEvent;
use signer_core::spec::{OutputSpec, SignAlgorithm, Signable, SigningSpec};

fn enter(entry: &mut PinEntry, events: &[ButtonEvent]) -> Vec<PinStep> {
    events.iter().map(|e| entry.press(*e)).collect()
}

#[test]
fn pin_entry_produces_ascii_digits() {
    let mut entry = PinEntry::new();
    let steps = enter(&mut entry, &[ButtonEvent::Up, ButtonEvent::Confirm, ButtonEvent::Down, ButtonEvent::Confirm, ButtonEvent::Up, ButtonEvent::Up, ButtonEvent::Up, ButtonEvent::Confirm]);
    assert!(steps.iter().all(|s| matches!(s, PinStep::Pending)));
    assert_eq!(entry.display_text(), "* * * 0");
    match entry.press(ButtonEvent::Confirm) {
        PinStep::Entered(pin) => assert_eq!(pin, b"1930".to_vec()),
        other => panic!("unexpected: {other:?}"),
    }
}

#[test]
fn pin_entry_display_and_screen() {
    let mut entry = PinEntry::new();
    assert_eq!(entry.display_text(), "0 _ _ _");
    entry.press(ButtonEvent::Up);
    entry.press(ButtonEvent::Confirm);
    entry.press(ButtonEvent::Down);
    assert_eq!(entry.display_text(), "* 9 _ _");
    let lines = entry.screen("SET PIN");
    assert_eq!(lines.len(), 5);
    assert_eq!(lines[0].value, "SET PIN");
    assert_eq!(lines[2].value, "  [ * 9 _ _ ]");
    assert_eq!(lines[4].value, "Up/Down=digit  Enter=next  Esc=back");
}

#[test]
fn pin_entry_reject_goes_back_then_cancels() {
    let mut entry = PinEntry::new();
    entry.press(ButtonEvent::Confirm);
    assert!(matches!(entry.press(ButtonEvent::Reject), PinStep::Pending));
    assert_eq!(entry.display_text(), "0 _ _ _");
    assert!(matches!(entry.press(ButtonEvent::Reject), PinStep::Cancelled));
}

#[test]
fn scroll_clamps_at_both_ends() {
    assert_eq!(review_step(0, 5, ButtonEvent::Up), ReviewStep::Scroll(0));
    assert_eq!(review_step(4, 5, ButtonEvent::Down), ReviewStep::Scroll(4));
    assert_eq!(review_step(2, 5, ButtonEvent::Down), ReviewStep::Scroll(3));
    assert_eq!(review_step(2, 5, ButtonEvent::Up), ReviewStep::Scroll(1));
    assert_eq!(review_step(0, 0, ButtonEvent::Down), ReviewStep::Scroll(0));
    assert_eq!(max_scroll(0), 0);
    assert_eq!(max_scroll(7), 6);
}

#[test]
fn review_reject_signs_nothing() {
    assert_eq!(review_step(1, 3, ButtonEvent::Reject), ReviewStep::Rejected);
    assert_eq!(review_step(1, 3, ButtonEvent::Confirm), ReviewStep::Confirmed);
}

#[test]
fn signing_request_uses_descriptor() {
    let spec = SigningSpec {
        label: "L".into(),
        signable: Signable::Range { offset: 2, length: 4 },
        algorithm: SignAlgorithm::Ed25519,
        key_slot: 9,
        output: OutputSpec::SignatureOnly,
    };
    let req = prepare_signing(b"0123456789", &spec).unwrap();
    assert_eq!(req.slot, 9);
    assert_eq!(req.message, b"2345".to_vec());
    assert!(prepare_signing(b"012", &spec).is_err());
}

#[test]
fn output_is_shaped_per_descriptor() {
    match shape_output(OutputSpec::SignatureOnly, b"pay", b"sig".to_vec()) {
        OutputPlan::Ready(out) => assert_eq!(out, b"sig".to_vec()),
        other => panic!("unexpected: {other:?}"),
    }
    match shape_output(OutputSpec::AppendToPayload, b"pay", b"sig".to_vec()) {
        OutputPlan::Ready(out) => assert_eq!(out, b"paysig".to_vec()),
        other => panic!("unexpected: {other:?}"),
    }
    match shape_output(OutputSpec::WasmAssemble, b"pay", b"sig".to_vec()) {
        OutputPlan::Assemble(sig) => assert_eq!(sig, b"sig".to_vec()),
        other => panic!("unexpected: {other:?}"),
    }
}

#[test]
fn setup_generates_and_exports() {
    let mut p = boot(false);
    assert!(matches!(p.action(), Action::Notice(Screen::Setup)));
    p = p.advance(Event::Done);
    assert!(matches!(p.action(), Action::EnterPin(Screen::SetPin)));
    p = p.advance(Event::Pin(Some(b"1234".to_vec())));
    assert!(matches!(p.action(), Action::EnterPin(Screen::ConfirmPin)));
    p = p.advance(Event::Pin(Some(b"1235".to_vec())));
    assert!(matches!(p.action(), Action::Notice(Screen::PinMismatch)));
    p = p.advance(Event::Done);
    p = p.advance(Event::Pin(Some(b"1234".to_vec())));
    p = p.advance(Event::Pin(Some(b"1234".to_vec())));
    match p.action() {
        Action::StorePin(pin) => assert_eq!(pin, b"1234".to_vec()),
        other => panic!("unexpected: {other:?}"),
    }
    p = p.advance(Event::Done);
    assert!(matches!(p.action(), Action::Notice(Screen::InsertPrivateUsb)));
    p = p.advance(Event::Done);
    assert!(matches!(p.action(), Action::ReadFile(MediumFile::Seed)));
    p = p.advance(Event::Bytes(None));
    assert!(matches!(p.action(), Action::Status(Screen::GeneratingNewKey)));
    p = p.advance(Event::Done);
    assert!(matches!(p.action(), Action::GenerateKey(0)));
    p = p.advance(Event::Key(vec![7; 32]));
    assert!(matches!(p.action(), Action::ExportSeed(0)));
    p = p.advance(Event::Bytes(Some(vec![1; 32])));
    match p.action() {
        Action::WriteFile(MediumFile::Seed, seed) => assert_eq!(seed, vec![1; 32]),
        other => panic!("unexpected: {other:?}"),
    }
    for screen in [Screen::SeedSaved, Screen::RemovePrivateUsb, Screen::InsertPublicUsb] {
        p = p.advance(Event::Done);
        match p.action() {
            Action::Notice(s) => assert_eq!(s, screen),
            other => panic!("unexpected: {other:?}"),
        }
    }
    p = p.advance(Event::Done);
    match p.action() {
        Action::WriteFile(MediumFile::PublicKey, pk) => assert_eq!(pk, vec![7; 32]),
        other => panic!("unexpected: {other:?}"),
    }
    p = p.advance(Event::Done);
    assert!(matches!(p.action(), Action::Notice(Screen::PubkeySaved)));
    p = p.advance(Event::Done);
    assert!(matches!(p.action(), Action::Notice(Screen::SetupComplete)));
    assert_eq!(Screen::SetupComplete.text(), "REMOVE USB - SETUP COMPLETE");
    p = p.advance(Event::Done);
    assert!(matches!(p.action(), Action::StartSigning));
}

#[test]
fn setup_cancel_ends_with_error() {
    let p = boot(false).advance(Event::Done).advance(Event::Pin(None));
    assert!(matches!(p.action(), Action::Notice(Screen::SetupCancelled)));
    assert!(matches!(p.advance(Event::Done).action(), Action::End(true)));
}

#[test]
fn setup_recovers_from_seed_file() {
    let mut p = boot(false).advance(Event::Done);
    p = p.advance(Event::Pin(Some(b"0000".to_vec())));
    p = p.advance(Event::Pin(Some(b"0000".to_vec())));
    p = p.advance(Event::Done).advance(Event::Done);
    p = p.advance(Event::Bytes(Some(vec![5; 32])));
    assert!(matches!(p.action(), Action::Status(Screen::RecoveringFromSeed)));
    p = p.advance(Event::Done);
    match p.action() {
        Action::ImportKey(0, seed) => assert_eq!(seed, vec![5; 32]),
        other => panic!("unexpected: {other:?}"),
    }
    p = p.advance(Event::Key(vec![9; 32]));
    assert!(matches!(p.action(), Action::Notice(Screen::RemovePrivateUsb)));
    assert_eq!(MediumFile::Seed.name(), "seed.bin");
    assert_eq!(MediumFile::PublicKey.name(), "pubkey.bin");
}

#[test]
fn unlock_retries_on_wrong_pin_and_exits_on_cancel() {
    let mut p = boot(true);
    assert!(matches!(p.action(), Action::EnterPin(Screen::EnterPin)));
    p = p.advance(Event::Pin(Some(b"9999".to_vec())));
    assert!(matches!(p.action(), Action::VerifyPin(_)));
    p = p.advance(Event::Verified(false));
    assert!(matches!(p.action(), Action::Notice(Screen::WrongPin)));
    p = p.advance(Event::Done);
    assert!(matches!(p.action(), Action::EnterPin(Screen::EnterPin)));
    let ok = p.advance(Event::Pin(Some(b"1234".to_vec()))).advance(Event::Verified(true));
    assert!(matches!(ok.action(), Action::StartSigning));
    let bye = boot(true).advance(Event::Pin(None));
    assert!(matches!(bye.action(), Action::Notice(Screen::Goodbye)));
    assert!(matches!(bye.advance(Event::Done).action(), Action::End(false)));
}

#[test]
fn unexpected_event_keeps_phase() {
    let p = boot(true).advance(Event::Done);
    assert!(matches!(p.action(), Action::EnterPin(Screen::EnterPin)));
    assert!(matches!(p, Phase::Unlock));
}

fn run_cycle(count: usize, buttons: &[ButtonEvent]) -> Vec<CycleAction> {
    let mut cycle = Cycle::start(count);
    let mut buttons = buttons.iter();
    let mut actions = Vec::new();
    loop {
        let action = cycle.action();
        actions.push(action);
        let event = match action {
            CycleAction::ShowLines(_) => CycleEvent::Button(*buttons.next().unwrap()),
            CycleAction::Finish(_) => return actions,
            _ => CycleEvent::Done,
        };
        cycle = cycle.advance(event);
    }
}

#[test]
fn cycle_reject_writes_nothing() {
    let actions = run_cycle(3, &[ButtonEvent::Down, ButtonEvent::Reject]);
    assert_eq!(
        actions,
        vec![
            CycleAction::ShowLines(0),
            CycleAction::ShowLines(1),
            CycleAction::Show(Screen::Rejected),
            CycleAction::Unmount,
            CycleAction::Finish(false),
        ]
    );
    assert!(!actions.contains(&CycleAction::WriteOutput));
    assert_eq!(Screen::Rejected.text(), "REJECTED");
}

#[test]
fn cycle_confirm_signs_writes_and_unmounts() {
    let actions = run_cycle(2, &[ButtonEvent::Down, ButtonEvent::Down, ButtonEvent::Up, ButtonEvent::Confirm]);
    assert_eq!(
        actions,
        vec![
            CycleAction::ShowLines(0),
            CycleAction::ShowLines(1),
            CycleAction::ShowLines(1),
            CycleAction::ShowLines(0),
            CycleAction::Sign,
            CycleAction::WriteOutput,
            CycleAction::Unmount,
            CycleAction::Show(Screen::Signed),
            CycleAction::Finish(true),
        ]
    );
    assert_eq!(Screen::Signed.text(), "DONE \u{2014} REMOVE USB");
}
