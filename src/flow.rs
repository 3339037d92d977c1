//! Decisions of the signing flow, as step functions: each takes the state and
//! what just happened and says what comes next. The device loop that waits
//! for buttons, drives the display and touches the media runs them.
use crate::crypto::{extract_signable, extracted, CryptoError};
use crate::display::{lines_view, DisplayLine, LineView};
use crate::text::{bytes_equal, digit_str, digit_text};
use crate::hal::ButtonEvent;
use crate::spec::{OutputSpec, SigningSpec};
use vstd::prelude::*;
use vstd::slice::slice_to_vec;

verus! {

/// Number of digits in a PIN.
pub const PIN_LEN: usize = 4;

/// Digit-by-digit PIN entry: the digits chosen so far and the position
/// being edited.
pub struct PinEntry {
    digits: Vec<u8>,
    pos: usize,
}

/// Mathematical model of a PIN entry.
pub struct PinView {
    pub digits: Seq<u8>,
    pub pos: nat,
}

impl View for PinEntry {
    type V = PinView;

    closed spec fn view(&self) -> PinView {
        PinView { digits: self.digits@, pos: self.pos as nat }
    }
}

/// What a button press did to a PIN entry.
#[derive(Debug)]
pub enum PinStep {
    /// Still entering.
    Pending,
    /// The last digit was confirmed: the PIN as ASCII digits.
    Entered(Vec<u8>),
    /// Reject at the first position.
    Cancelled,
}

/// The PIN as ASCII digits.
pub open spec fn pin_ascii(digits: Seq<u8>) -> Seq<u8> {
    digits.map_values(|d: u8| (d + 48) as u8)
}

/// The text of position `i`: `*` once committed, the digit while live,
/// `_` before.
pub open spec fn pin_cell(v: PinView, i: int) -> Seq<char> {
    if i < v.pos {
        "*"@
    } else if i == v.pos {
        digit_text(v.digits[i] as nat)
    } else {
        "_"@
    }
}

/// The positions rendered and separated by single spaces.
pub open spec fn pin_display(v: PinView) -> Seq<char> {
    pin_cell(v, 0) + " "@ + pin_cell(v, 1) + " "@ + pin_cell(v, 2) + " "@ + pin_cell(v, 3)
}

/// The lines of the PIN screen.
pub open spec fn pin_screen(prompt: Seq<char>, v: PinView) -> Seq<LineView> {
    seq![
        LineView { indent: 0, key: None, value: prompt },
        LineView { indent: 0, key: None, value: Seq::empty() },
        LineView { indent: 0, key: None, value: "  [ "@ + pin_display(v) + " ]"@ },
        LineView { indent: 0, key: None, value: Seq::empty() },
        LineView { indent: 0, key: None, value: "Up/Down=digit  Enter=next  Esc=back"@ },
    ]
}

impl PinEntry {
    /// Four digits below ten, and a position within them.
    pub open spec fn wf_view(v: PinView) -> bool {
        &&& v.digits.len() == PIN_LEN
        &&& v.pos < PIN_LEN
        &&& forall|i: int| 0 <= i < PIN_LEN ==> #[trigger] v.digits[i] < 10
    }

    /// A fresh entry: all zeros, editing the first digit.
    pub fn new() -> (e: Self)
        ensures
            Self::wf_view(e@),
            e@.digits == seq![0u8, 0, 0, 0],
            e@.pos == 0,
    {
        let e = PinEntry { digits: vec![0u8, 0, 0, 0], pos: 0 };
        assert(e@.digits =~= seq![0u8, 0, 0, 0]);
        e
    }

    fn cell(&self, i: usize) -> (s: &'static str)
        requires
            Self::wf_view(self@),
            i < PIN_LEN,
        ensures
            s@ == pin_cell(self@, i as int),
    {
        if i < self.pos {
            "*"
        } else if i == self.pos {
            digit_str(self.digits[i] as usize)
        } else {
            "_"
        }
    }

    /// The entry as shown: `*` for committed digits, the live digit, `_`
    /// for the rest, separated by spaces.
    pub fn display_text(&self) -> (s: String)
        requires
            Self::wf_view(self@),
        ensures
            s@ == pin_display(self@),
    {
        let mut s = String::from_str(self.cell(0));
        s.append(" ");
        s.append(self.cell(1));
        s.append(" ");
        s.append(self.cell(2));
        s.append(" ");
        s.append(self.cell(3));
        s
    }

    /// The PIN screen: the prompt, the entry in brackets, and a key legend.
    pub fn screen(&self, prompt: &str) -> (lines: Vec<DisplayLine>)
        requires
            Self::wf_view(self@),
        ensures
            lines_view(lines@) == pin_screen(prompt@, self@),
    {
        let mut entry = String::from_str("  [ ");
        entry.append(self.display_text().as_str());
        entry.append(" ]");
        let lines = vec![
            DisplayLine { indent: 0, key: None, value: prompt.to_owned() },
            DisplayLine { indent: 0, key: None, value: String::new() },
            DisplayLine { indent: 0, key: None, value: entry },
            DisplayLine { indent: 0, key: None, value: String::new() },
            DisplayLine {
                indent: 0,
                key: None,
                value: String::from_str("Up/Down=digit  Enter=next  Esc=back"),
            },
        ];
        assert(lines_view(lines@) =~= pin_screen(prompt@, self@));
        lines
    }

    /// Applies a button press: Up and Down change the live digit modulo ten,
    /// Confirm commits it (and the PIN after the last digit), Reject goes
    /// back a position (and cancels at the first).
    pub fn press(&mut self, ev: ButtonEvent) -> (r: PinStep)
        requires
            Self::wf_view(old(self)@),
        ensures
            Self::wf_view(final(self)@),
            ev == ButtonEvent::Up ==> r is Pending && final(self)@ == (PinView {
                digits: old(self)@.digits.update(
                    old(self)@.pos as int,
                    ((old(self)@.digits[old(self)@.pos as int] + 1) % 10) as u8,
                ),
                pos: old(self)@.pos,
            }),
            ev == ButtonEvent::Down ==> r is Pending && final(self)@ == (PinView {
                digits: old(self)@.digits.update(
                    old(self)@.pos as int,
                    ((old(self)@.digits[old(self)@.pos as int] + 9) % 10) as u8,
                ),
                pos: old(self)@.pos,
            }),
            ev == ButtonEvent::Confirm && old(self)@.pos + 1 < PIN_LEN ==> r is Pending && final(
                self)@ == (PinView { pos: old(self)@.pos + 1, ..old(self)@ }),
            ev == ButtonEvent::Confirm && old(self)@.pos + 1 == PIN_LEN ==> (r matches PinStep::Entered(
                pin,
            ) && pin@ == pin_ascii(old(self)@.digits)) && final(self)@ == old(self)@,
            ev == ButtonEvent::Reject && old(self)@.pos == 0 ==> r is Cancelled && final(self)@
                == old(self)@,
            ev == ButtonEvent::Reject && old(self)@.pos > 0 ==> r is Pending && final(self)@ == (
            PinView { pos: (old(self)@.pos - 1) as nat, ..old(self)@ }),
    {
        let p = self.pos;
        match ev {
            ButtonEvent::Up => {
                let d = (self.digits[p] + 1) % 10;
                self.digits.set(p, d);
                PinStep::Pending
            },
            ButtonEvent::Down => {
                let d = (self.digits[p] + 9) % 10;
                self.digits.set(p, d);
                PinStep::Pending
            },
            ButtonEvent::Confirm => {
                if p + 1 < PIN_LEN {
                    self.pos = p + 1;
                    PinStep::Pending
                } else {
                    let mut pin: Vec<u8> = Vec::new();
                    let mut i: usize = 0;
                    while i < PIN_LEN
                        invariant
                            Self::wf_view(self@),
                            i <= PIN_LEN,
                            pin@ == pin_ascii(self@.digits.subrange(0, i as int)),
                        decreases PIN_LEN - i,
                    {
                        pin.push(self.digits[i] + 48);
                        i = i + 1;
                        assert(pin@ =~= pin_ascii(self@.digits.subrange(0, i as int)));
                    }
                    assert(self@.digits.subrange(0, PIN_LEN as int) =~= self@.digits);
                    PinStep::Entered(pin)
                }
            },
            ButtonEvent::Reject => {
                if p == 0 {
                    PinStep::Cancelled
                } else {
                    self.pos = p - 1;
                    PinStep::Pending
                }
            },
        }
    }
}

/// What a button press does during review.
#[derive(Debug, Clone, Copy, PartialEq, Eq, Structural)]
pub enum ReviewStep {
    /// Show the lines from this offset.
    Scroll(usize),
    /// The user confirmed: sign.
    Confirmed,
    /// The user rejected: nothing is signed.
    Rejected,
}

/// The largest scroll offset for `count` lines: `max(0, count - 1)`.
pub open spec fn max_scroll_of(count: nat) -> nat {
    if count == 0 {
        0
    } else {
        (count - 1) as nat
    }
}

/// The largest scroll offset for `count` lines.
pub fn max_scroll(count: usize) -> (m: usize)
    ensures
        m == max_scroll_of(count as nat),
{
    count.saturating_sub(1)
}

/// The offset after scrolling Up (back one, stopping at 0) or Down (on
/// one, stopping at the last line).
pub open spec fn scroll_after(scroll: nat, count: nat, up: bool) -> nat {
    if up {
        if scroll == 0 {
            0
        } else {
            (scroll - 1) as nat
        }
    } else if scroll + 1 <= max_scroll_of(count) {
        scroll + 1
    } else {
        max_scroll_of(count)
    }
}

/// The review decision for a button press: Up and Down scroll, Confirm and
/// Reject end the review.
pub fn review_step(scroll: usize, line_count: usize, ev: ButtonEvent) -> (r: ReviewStep)
    ensures
        ev == ButtonEvent::Up ==> (r matches ReviewStep::Scroll(s) && s == scroll_after(
            scroll as nat,
            line_count as nat,
            true,
        )),
        ev == ButtonEvent::Down ==> (r matches ReviewStep::Scroll(s) && s == scroll_after(
            scroll as nat,
            line_count as nat,
            false,
        )),
        ev == ButtonEvent::Confirm ==> r == ReviewStep::Confirmed,
        ev == ButtonEvent::Reject ==> r == ReviewStep::Rejected,
{
    match ev {
        ButtonEvent::Up => ReviewStep::Scroll(scroll.saturating_sub(1)),
        ButtonEvent::Down => {
            let last = max_scroll(line_count);
            if scroll < last {
                ReviewStep::Scroll(scroll + 1)
            } else {
                ReviewStep::Scroll(last)
            }
        },
        ButtonEvent::Confirm => ReviewStep::Confirmed,
        ButtonEvent::Reject => ReviewStep::Rejected,
    }
}

/// The review cursor stays within `[0, max(0, lines - 1)]`: from any offset
/// in range, scrolling keeps it in range, Up stops at 0 and Down stops at
/// the last line.
pub proof fn lemma_scroll_clamped(scroll: nat, line_count: nat, up: bool)
    requires
        scroll <= max_scroll_of(line_count),
    ensures
        scroll_after(scroll, line_count, up) <= max_scroll_of(line_count),
        up && scroll == 0 ==> scroll_after(scroll, line_count, up) == 0,
        !up && scroll == max_scroll_of(line_count) ==> scroll_after(scroll, line_count, up)
            == scroll,
{
}

/// What the secure element is asked to sign.
pub struct SignRequest {
    pub slot: u8,
    pub message: Vec<u8>,
}

/// After confirmation: the bytes to sign, extracted from the payload as the
/// descriptor says, and the key slot to sign them with.
pub fn prepare_signing(payload: &[u8], spec: &SigningSpec) -> (r: Result<SignRequest, CryptoError>)
    ensures
        r is Ok <==> extracted(payload@, spec.signable) is Some,
        r matches Ok(req) ==> req.slot == spec.key_slot && req.message@ == extracted(
            payload@,
            spec.signable,
        )->0,
{
    let message = extract_signable(payload, &spec.signable)?;
    Ok(SignRequest { slot: spec.key_slot, message })
}

/// How the output file is made from the signature.
#[derive(Debug)]
pub enum OutputPlan {
    /// These bytes are the output.
    Ready(Vec<u8>),
    /// The interpreter's `assemble` makes the output from payload and signature.
    Assemble(Vec<u8>),
}

/// Shapes the output as the descriptor asks: the signature alone, the
/// payload followed by the signature, or a request to the interpreter.
pub fn shape_output(output: OutputSpec, payload: &[u8], signature: Vec<u8>) -> (r: OutputPlan)
    ensures
        output == OutputSpec::SignatureOnly ==> (r matches OutputPlan::Ready(out) && out@
            == signature@),
        output == OutputSpec::AppendToPayload ==> (r matches OutputPlan::Ready(out) && out@
            == payload@ + signature@),
        output == OutputSpec::WasmAssemble ==> (r matches OutputPlan::Assemble(sig) && sig@
            == signature@),
{
    match output {
        OutputSpec::SignatureOnly => OutputPlan::Ready(signature),
        OutputSpec::AppendToPayload => {
            let mut buf = slice_to_vec(payload);
            buf.extend_from_slice(signature.as_slice());
            OutputPlan::Ready(buf)
        },
        OutputSpec::WasmAssemble => OutputPlan::Assemble(signature),
    }
}

/// Fixed screen texts of boot and provisioning.
#[derive(Debug, Clone, Copy, PartialEq, Eq, Structural)]
pub enum Screen {
    Setup,
    SetPin,
    ConfirmPin,
    SetupCancelled,
    PinMismatch,
    InsertPrivateUsb,
    RecoveringFromSeed,
    GeneratingNewKey,
    SeedSaved,
    RemovePrivateUsb,
    InsertPublicUsb,
    PubkeySaved,
    SetupComplete,
    EnterPin,
    WrongPin,
    Goodbye,
    Rejected,
    Signed,
}

/// The text of each screen.
pub open spec fn screen_text(s: Screen) -> Seq<char> {
    match s {
        Screen::Setup => "SETUP"@,
        Screen::SetPin => "SET PIN"@,
        Screen::ConfirmPin => "CONFIRM PIN"@,
        Screen::SetupCancelled => "SETUP CANCELLED"@,
        Screen::PinMismatch => "PIN MISMATCH"@,
        Screen::InsertPrivateUsb => "INSERT PRIVATE USB"@,
        Screen::RecoveringFromSeed => "RECOVERING FROM SEED..."@,
        Screen::GeneratingNewKey => "GENERATING NEW KEY..."@,
        Screen::SeedSaved => "SEED SAVED TO USB"@,
        Screen::RemovePrivateUsb => "REMOVE PRIVATE USB"@,
        Screen::InsertPublicUsb => "INSERT PUBLIC USB"@,
        Screen::PubkeySaved => "PUBKEY SAVED TO USB"@,
        Screen::SetupComplete => "REMOVE USB - SETUP COMPLETE"@,
        Screen::EnterPin => "ENTER PIN"@,
        Screen::WrongPin => "WRONG PIN"@,
        Screen::Goodbye => "GOODBYE"@,
        Screen::Rejected => "REJECTED"@,
        Screen::Signed => "DONE \u{2014} REMOVE USB"@,
    }
}

impl Screen {
    /// The text shown.
    pub fn text(&self) -> (t: &'static str)
        ensures
            t@ == screen_text(*self),
    {
        match self {
            Screen::Setup => "SETUP",
            Screen::SetPin => "SET PIN",
            Screen::ConfirmPin => "CONFIRM PIN",
            Screen::SetupCancelled => "SETUP CANCELLED",
            Screen::PinMismatch => "PIN MISMATCH",
            Screen::InsertPrivateUsb => "INSERT PRIVATE USB",
            Screen::RecoveringFromSeed => "RECOVERING FROM SEED...",
            Screen::GeneratingNewKey => "GENERATING NEW KEY...",
            Screen::SeedSaved => "SEED SAVED TO USB",
            Screen::RemovePrivateUsb => "REMOVE PRIVATE USB",
            Screen::InsertPublicUsb => "INSERT PUBLIC USB",
            Screen::PubkeySaved => "PUBKEY SAVED TO USB",
            Screen::SetupComplete => "REMOVE USB - SETUP COMPLETE",
            Screen::EnterPin => "ENTER PIN",
            Screen::WrongPin => "WRONG PIN",
            Screen::Goodbye => "GOODBYE",
            Screen::Rejected => "REJECTED",
            Screen::Signed => "DONE \u{2014} REMOVE USB",
        }
    }
}

/// Files that provisioning reads and writes.
#[derive(Debug, Clone, Copy, PartialEq, Eq, Structural)]
pub enum MediumFile {
    /// `seed.bin`, on the private medium.
    Seed,
    /// `pubkey.bin`, on the public medium.
    PublicKey,
}

pub open spec fn file_name(f: MediumFile) -> Seq<char> {
    match f {
        MediumFile::Seed => "seed.bin"@,
        MediumFile::PublicKey => "pubkey.bin"@,
    }
}

impl MediumFile {
    /// The file's name.
    pub fn name(&self) -> (n: &'static str)
        ensures
            n@ == file_name(*self),
    {
        match self {
            MediumFile::Seed => "seed.bin",
            MediumFile::PublicKey => "pubkey.bin",
        }
    }
}

/// The slot that provisioning fills.
pub const PROVISION_SLOT: u8 = 0;

/// Phases of boot: first-time setup, or PIN unlock; then the signing loop.
/// `B` holds bytes (a PIN, a seed, a public key).
#[derive(Debug)]
pub enum Phase<B> {
    Welcome,
    SetPin,
    ConfirmPin(B),
    Mismatch,
    Cancelled,
    StorePin(B),
    InsertPrivate,
    ReadSeed,
    Recovering(B),
    Importing(B),
    Generating,
    GenerateKey,
    ExportSeed(B),
    BackUpSeed(B, B),
    SeedSaved(B),
    RemovePrivate(B),
    InsertPublic(B),
    WritePublicKey(B),
    PubkeySaved,
    SetupComplete,
    Unlock,
    Verify(B),
    WrongPin,
    Goodbye,
    /// Ready for the signing loop.
    Ready,
    /// The session ends without signing.
    Exit,
    /// Setup was cancelled.
    Failed,
}

/// What the device does in a phase.
#[derive(Debug)]
pub enum Action<B> {
    /// Show a screen and wait for a button.
    Notice(Screen),
    /// Show a screen and go on.
    Status(Screen),
    /// Run PIN entry under this prompt.
    EnterPin(Screen),
    /// Set this PIN in the secure element, then verify it.
    StorePin(B),
    /// Check a PIN with the secure element.
    VerifyPin(B),
    /// Read a file from the medium.
    ReadFile(MediumFile),
    /// Write bytes to a file on the medium.
    WriteFile(MediumFile, B),
    /// Import a seed into a slot.
    ImportKey(u8, B),
    /// Generate a key in a slot.
    GenerateKey(u8),
    /// Export the seed of a slot.
    ExportSeed(u8),
    /// Enter the signing loop.
    StartSigning,
    /// End the session; `true` where setup was cancelled.
    End(bool),
}

/// What came of an action.
#[derive(Debug)]
pub enum Event<B> {
    /// The action finished (a screen was acknowledged or shown, a write or
    /// a PIN change succeeded).
    Done,
    /// PIN entry finished: the PIN, or `None` where it was cancelled.
    Pin(Option<B>),
    /// A file was read (`None`: absent), or a seed exported.
    Bytes(Option<B>),
    /// A public key came back from the secure element.
    Key(B),
    /// A PIN check came back.
    Verified(bool),
}

pub open spec fn phase_view(p: Phase<Vec<u8>>) -> Phase<Seq<u8>> {
    match p {
        Phase::Welcome => Phase::Welcome,
        Phase::SetPin => Phase::SetPin,
        Phase::ConfirmPin(b) => Phase::ConfirmPin(b@),
        Phase::Mismatch => Phase::Mismatch,
        Phase::Cancelled => Phase::Cancelled,
        Phase::StorePin(b) => Phase::StorePin(b@),
        Phase::InsertPrivate => Phase::InsertPrivate,
        Phase::ReadSeed => Phase::ReadSeed,
        Phase::Recovering(b) => Phase::Recovering(b@),
        Phase::Importing(b) => Phase::Importing(b@),
        Phase::Generating => Phase::Generating,
        Phase::GenerateKey => Phase::GenerateKey,
        Phase::ExportSeed(b) => Phase::ExportSeed(b@),
        Phase::BackUpSeed(a, b) => Phase::BackUpSeed(a@, b@),
        Phase::SeedSaved(b) => Phase::SeedSaved(b@),
        Phase::RemovePrivate(b) => Phase::RemovePrivate(b@),
        Phase::InsertPublic(b) => Phase::InsertPublic(b@),
        Phase::WritePublicKey(b) => Phase::WritePublicKey(b@),
        Phase::PubkeySaved => Phase::PubkeySaved,
        Phase::SetupComplete => Phase::SetupComplete,
        Phase::Unlock => Phase::Unlock,
        Phase::Verify(b) => Phase::Verify(b@),
        Phase::WrongPin => Phase::WrongPin,
        Phase::Goodbye => Phase::Goodbye,
        Phase::Ready => Phase::Ready,
        Phase::Exit => Phase::Exit,
        Phase::Failed => Phase::Failed,
    }
}

pub open spec fn event_view(e: Event<Vec<u8>>) -> Event<Seq<u8>> {
    match e {
        Event::Done => Event::Done,
        Event::Pin(p) => Event::Pin(
            match p {
                Some(b) => Some(b@),
                None => None,
            },
        ),
        Event::Bytes(p) => Event::Bytes(
            match p {
                Some(b) => Some(b@),
                None => None,
            },
        ),
        Event::Key(b) => Event::Key(b@),
        Event::Verified(ok) => Event::Verified(ok),
    }
}

pub open spec fn action_view(a: Action<Vec<u8>>) -> Action<Seq<u8>> {
    match a {
        Action::Notice(s) => Action::Notice(s),
        Action::Status(s) => Action::Status(s),
        Action::EnterPin(s) => Action::EnterPin(s),
        Action::StorePin(b) => Action::StorePin(b@),
        Action::VerifyPin(b) => Action::VerifyPin(b@),
        Action::ReadFile(f) => Action::ReadFile(f),
        Action::WriteFile(f, b) => Action::WriteFile(f, b@),
        Action::ImportKey(slot, b) => Action::ImportKey(slot, b@),
        Action::GenerateKey(slot) => Action::GenerateKey(slot),
        Action::ExportSeed(slot) => Action::ExportSeed(slot),
        Action::StartSigning => Action::StartSigning,
        Action::End(cancelled) => Action::End(cancelled),
    }
}

/// The first phase: setup on an unprovisioned element, else PIN unlock.
pub open spec fn boot_phase(provisioned: bool) -> Phase<Seq<u8>> {
    if provisioned {
        Phase::Unlock
    } else {
        Phase::Welcome
    }
}

/// The action of each phase.
pub open spec fn phase_action(p: Phase<Seq<u8>>) -> Action<Seq<u8>> {
    match p {
        Phase::Welcome => Action::Notice(Screen::Setup),
        Phase::SetPin => Action::EnterPin(Screen::SetPin),
        Phase::ConfirmPin(_) => Action::EnterPin(Screen::ConfirmPin),
        Phase::Mismatch => Action::Notice(Screen::PinMismatch),
        Phase::Cancelled => Action::Notice(Screen::SetupCancelled),
        Phase::StorePin(pin) => Action::StorePin(pin),
        Phase::InsertPrivate => Action::Notice(Screen::InsertPrivateUsb),
        Phase::ReadSeed => Action::ReadFile(MediumFile::Seed),
        Phase::Recovering(_) => Action::Status(Screen::RecoveringFromSeed),
        Phase::Importing(seed) => Action::ImportKey(PROVISION_SLOT, seed),
        Phase::Generating => Action::Status(Screen::GeneratingNewKey),
        Phase::GenerateKey => Action::GenerateKey(PROVISION_SLOT),
        Phase::ExportSeed(_) => Action::ExportSeed(PROVISION_SLOT),
        Phase::BackUpSeed(_, seed) => Action::WriteFile(MediumFile::Seed, seed),
        Phase::SeedSaved(_) => Action::Notice(Screen::SeedSaved),
        Phase::RemovePrivate(_) => Action::Notice(Screen::RemovePrivateUsb),
        Phase::InsertPublic(_) => Action::Notice(Screen::InsertPublicUsb),
        Phase::WritePublicKey(pk) => Action::WriteFile(MediumFile::PublicKey, pk),
        Phase::PubkeySaved => Action::Notice(Screen::PubkeySaved),
        Phase::SetupComplete => Action::Notice(Screen::SetupComplete),
        Phase::Unlock => Action::EnterPin(Screen::EnterPin),
        Phase::Verify(pin) => Action::VerifyPin(pin),
        Phase::WrongPin => Action::Notice(Screen::WrongPin),
        Phase::Goodbye => Action::Notice(Screen::Goodbye),
        Phase::Ready => Action::StartSigning,
        Phase::Exit => Action::End(false),
        Phase::Failed => Action::End(true),
    }
}

/// The phase after an event. An event that does not answer the phase's
/// action leaves the phase as it is.
pub open spec fn next_phase(p: Phase<Seq<u8>>, e: Event<Seq<u8>>) -> Phase<Seq<u8>> {
    match (p, e) {
        (Phase::Welcome, Event::Done) => Phase::SetPin,
        (Phase::SetPin, Event::Pin(Some(pin))) => Phase::ConfirmPin(pin),
        (Phase::SetPin, Event::Pin(None)) => Phase::Cancelled,
        (Phase::Cancelled, Event::Done) => Phase::Failed,
        (Phase::ConfirmPin(pin), Event::Pin(Some(again))) => if pin == again {
            Phase::StorePin(pin)
        } else {
            Phase::Mismatch
        },
        (Phase::ConfirmPin(_), Event::Pin(None)) => Phase::SetPin,
        (Phase::Mismatch, Event::Done) => Phase::SetPin,
        (Phase::StorePin(_), Event::Done) => Phase::InsertPrivate,
        (Phase::InsertPrivate, Event::Done) => Phase::ReadSeed,
        (Phase::ReadSeed, Event::Bytes(Some(seed))) => Phase::Recovering(seed),
        (Phase::ReadSeed, Event::Bytes(None)) => Phase::Generating,
        (Phase::Recovering(seed), Event::Done) => Phase::Importing(seed),
        (Phase::Importing(_), Event::Key(pk)) => Phase::RemovePrivate(pk),
        (Phase::Generating, Event::Done) => Phase::GenerateKey,
        (Phase::GenerateKey, Event::Key(pk)) => Phase::ExportSeed(pk),
        (Phase::ExportSeed(pk), Event::Bytes(Some(seed))) => Phase::BackUpSeed(pk, seed),
        (Phase::BackUpSeed(pk, _), Event::Done) => Phase::SeedSaved(pk),
        (Phase::SeedSaved(pk), Event::Done) => Phase::RemovePrivate(pk),
        (Phase::RemovePrivate(pk), Event::Done) => Phase::InsertPublic(pk),
        (Phase::InsertPublic(pk), Event::Done) => Phase::WritePublicKey(pk),
        (Phase::WritePublicKey(_), Event::Done) => Phase::PubkeySaved,
        (Phase::PubkeySaved, Event::Done) => Phase::SetupComplete,
        (Phase::SetupComplete, Event::Done) => Phase::Ready,
        (Phase::Unlock, Event::Pin(Some(pin))) => Phase::Verify(pin),
        (Phase::Unlock, Event::Pin(None)) => Phase::Goodbye,
        (Phase::Verify(_), Event::Verified(ok)) => if ok {
            Phase::Ready
        } else {
            Phase::WrongPin
        },
        (Phase::WrongPin, Event::Done) => Phase::Unlock,
        (Phase::Goodbye, Event::Done) => Phase::Exit,
        (p, _) => p,
    }
}

/// The first phase of a boot.
pub fn boot(provisioned: bool) -> (p: Phase<Vec<u8>>)
    ensures
        phase_view(p) == boot_phase(provisioned),
{
    if provisioned {
        Phase::Unlock
    } else {
        Phase::Welcome
    }
}

fn copy_bytes(b: &Vec<u8>) -> (r: Vec<u8>)
    ensures
        r@ == b@,
{
    slice_to_vec(b.as_slice())
}

impl Phase<Vec<u8>> {
    /// What the device does in this phase.
    pub fn action(&self) -> (a: Action<Vec<u8>>)
        ensures
            action_view(a) == phase_action(phase_view(*self)),
    {
        match self {
            Phase::Welcome => Action::Notice(Screen::Setup),
            Phase::SetPin => Action::EnterPin(Screen::SetPin),
            Phase::ConfirmPin(_) => Action::EnterPin(Screen::ConfirmPin),
            Phase::Mismatch => Action::Notice(Screen::PinMismatch),
            Phase::Cancelled => Action::Notice(Screen::SetupCancelled),
            Phase::StorePin(pin) => Action::StorePin(copy_bytes(pin)),
            Phase::InsertPrivate => Action::Notice(Screen::InsertPrivateUsb),
            Phase::ReadSeed => Action::ReadFile(MediumFile::Seed),
            Phase::Recovering(_) => Action::Status(Screen::RecoveringFromSeed),
            Phase::Importing(seed) => Action::ImportKey(PROVISION_SLOT, copy_bytes(seed)),
            Phase::Generating => Action::Status(Screen::GeneratingNewKey),
            Phase::GenerateKey => Action::GenerateKey(PROVISION_SLOT),
            Phase::ExportSeed(_) => Action::ExportSeed(PROVISION_SLOT),
            Phase::BackUpSeed(_, seed) => Action::WriteFile(MediumFile::Seed, copy_bytes(seed)),
            Phase::SeedSaved(_) => Action::Notice(Screen::SeedSaved),
            Phase::RemovePrivate(_) => Action::Notice(Screen::RemovePrivateUsb),
            Phase::InsertPublic(_) => Action::Notice(Screen::InsertPublicUsb),
            Phase::WritePublicKey(pk) => Action::WriteFile(MediumFile::PublicKey, copy_bytes(pk)),
            Phase::PubkeySaved => Action::Notice(Screen::PubkeySaved),
            Phase::SetupComplete => Action::Notice(Screen::SetupComplete),
            Phase::Unlock => Action::EnterPin(Screen::EnterPin),
            Phase::Verify(pin) => Action::VerifyPin(copy_bytes(pin)),
            Phase::WrongPin => Action::Notice(Screen::WrongPin),
            Phase::Goodbye => Action::Notice(Screen::Goodbye),
            Phase::Ready => Action::StartSigning,
            Phase::Exit => Action::End(false),
            Phase::Failed => Action::End(true),
        }
    }

    /// The phase after `event`.
    pub fn advance(self, event: Event<Vec<u8>>) -> (p: Phase<Vec<u8>>)
        ensures
            phase_view(p) == next_phase(phase_view(self), event_view(event)),
    {
        match (self, event) {
            (Phase::Welcome, Event::Done) => Phase::SetPin,
            (Phase::SetPin, Event::Pin(Some(pin))) => Phase::ConfirmPin(pin),
            (Phase::SetPin, Event::Pin(None)) => Phase::Cancelled,
            (Phase::Cancelled, Event::Done) => Phase::Failed,
            (Phase::ConfirmPin(pin), Event::Pin(Some(again))) => if bytes_equal(
                pin.as_slice(),
                again.as_slice(),
            ) {
                Phase::StorePin(pin)
            } else {
                Phase::Mismatch
            },
            (Phase::ConfirmPin(_), Event::Pin(None)) => Phase::SetPin,
            (Phase::Mismatch, Event::Done) => Phase::SetPin,
            (Phase::StorePin(_), Event::Done) => Phase::InsertPrivate,
            (Phase::InsertPrivate, Event::Done) => Phase::ReadSeed,
            (Phase::ReadSeed, Event::Bytes(Some(seed))) => Phase::Recovering(seed),
            (Phase::ReadSeed, Event::Bytes(None)) => Phase::Generating,
            (Phase::Recovering(seed), Event::Done) => Phase::Importing(seed),
            (Phase::Importing(_), Event::Key(pk)) => Phase::RemovePrivate(pk),
            (Phase::Generating, Event::Done) => Phase::GenerateKey,
            (Phase::GenerateKey, Event::Key(pk)) => Phase::ExportSeed(pk),
            (Phase::ExportSeed(pk), Event::Bytes(Some(seed))) => Phase::BackUpSeed(pk, seed),
            (Phase::BackUpSeed(pk, _), Event::Done) => Phase::SeedSaved(pk),
            (Phase::SeedSaved(pk), Event::Done) => Phase::RemovePrivate(pk),
            (Phase::RemovePrivate(pk), Event::Done) => Phase::InsertPublic(pk),
            (Phase::InsertPublic(pk), Event::Done) => Phase::WritePublicKey(pk),
            (Phase::WritePublicKey(_), Event::Done) => Phase::PubkeySaved,
            (Phase::PubkeySaved, Event::Done) => Phase::SetupComplete,
            (Phase::SetupComplete, Event::Done) => Phase::Ready,
            (Phase::Unlock, Event::Pin(Some(pin))) => Phase::Verify(pin),
            (Phase::Unlock, Event::Pin(None)) => Phase::Goodbye,
            (Phase::Verify(_), Event::Verified(ok)) => if ok {
                Phase::Ready
            } else {
                Phase::WrongPin
            },
            (Phase::WrongPin, Event::Done) => Phase::Unlock,
            (Phase::Goodbye, Event::Done) => Phase::Exit,
            (p, _) => p,
        }
    }
}

/// The end of a signing cycle, from review to release of the medium.
#[derive(Debug, Clone, Copy, PartialEq, Eq, Structural)]
pub enum Cycle {
    /// Showing `count` lines from `scroll`, waiting for a button.
    Review { scroll: usize, count: usize },
    /// Confirmed: extract the bytes and have them signed.
    Sign,
    /// The output is ready: write it to the medium.
    Write,
    /// Rejected: say so.
    AnnounceRejected,
    /// Release the medium.
    Unmount { signed: bool },
    /// Signed and written: say so.
    AnnounceSigned,
    /// The cycle is over.
    Finished { signed: bool },
}

/// What the device does at each point of the cycle.
#[derive(Debug, Clone, Copy, PartialEq, Eq, Structural)]
pub enum CycleAction {
    /// Show the lines from this offset and wait for a button.
    ShowLines(usize),
    /// Extract, sign and shape the output.
    Sign,
    /// Write the output file.
    WriteOutput,
    /// Show a screen.
    Show(Screen),
    /// Unmount the medium.
    Unmount,
    /// The cycle ended; `true` where something was signed.
    Finish(bool),
}

/// What came of a cycle action.
#[derive(Debug, Clone, Copy, PartialEq, Eq, Structural)]
pub enum CycleEvent {
    /// A button was pressed during review.
    Button(ButtonEvent),
    /// The action finished.
    Done,
}

/// The action at each point of the cycle.
pub open spec fn cycle_action(c: Cycle) -> CycleAction {
    match c {
        Cycle::Review { scroll, .. } => CycleAction::ShowLines(scroll),
        Cycle::Sign => CycleAction::Sign,
        Cycle::Write => CycleAction::WriteOutput,
        Cycle::AnnounceRejected => CycleAction::Show(Screen::Rejected),
        Cycle::Unmount { .. } => CycleAction::Unmount,
        Cycle::AnnounceSigned => CycleAction::Show(Screen::Signed),
        Cycle::Finished { signed } => CycleAction::Finish(signed),
    }
}

/// The point after an event. Review follows `scroll_after`; Confirm leads
/// to signing, writing, unmounting and the closing screen; Reject leads to
/// the rejection screen and unmounting, with nothing signed or written. An
/// event that does not answer the action changes nothing.
pub open spec fn cycle_next(c: Cycle, e: CycleEvent) -> Cycle {
    match (c, e) {
        (Cycle::Review { scroll, count }, CycleEvent::Button(ev)) => match ev {
            ButtonEvent::Up => Cycle::Review {
                scroll: scroll_after(scroll as nat, count as nat, true) as usize,
                count,
            },
            ButtonEvent::Down => Cycle::Review {
                scroll: scroll_after(scroll as nat, count as nat, false) as usize,
                count,
            },
            ButtonEvent::Confirm => Cycle::Sign,
            ButtonEvent::Reject => Cycle::AnnounceRejected,
        },
        (Cycle::Sign, CycleEvent::Done) => Cycle::Write,
        (Cycle::Write, CycleEvent::Done) => Cycle::Unmount { signed: true },
        (Cycle::AnnounceRejected, CycleEvent::Done) => Cycle::Unmount { signed: false },
        (Cycle::Unmount { signed }, CycleEvent::Done) => if signed {
            Cycle::AnnounceSigned
        } else {
            Cycle::Finished { signed: false }
        },
        (Cycle::AnnounceSigned, CycleEvent::Done) => Cycle::Finished { signed: true },
        (c, _) => c,
    }
}

impl Cycle {
    /// Review of `count` rendered lines, from the top.
    pub fn start(count: usize) -> (c: Cycle)
        ensures
            c == (Cycle::Review { scroll: 0, count }),
    {
        Cycle::Review { scroll: 0, count }
    }

    /// What the device does now.
    pub fn action(&self) -> (a: CycleAction)
        ensures
            a == cycle_action(*self),
    {
        match *self {
            Cycle::Review { scroll, .. } => CycleAction::ShowLines(scroll),
            Cycle::Sign => CycleAction::Sign,
            Cycle::Write => CycleAction::WriteOutput,
            Cycle::AnnounceRejected => CycleAction::Show(Screen::Rejected),
            Cycle::Unmount { .. } => CycleAction::Unmount,
            Cycle::AnnounceSigned => CycleAction::Show(Screen::Signed),
            Cycle::Finished { signed } => CycleAction::Finish(signed),
        }
    }

    /// The point after `event`.
    pub fn advance(&self, event: CycleEvent) -> (c: Cycle)
        ensures
            c == cycle_next(*self, event),
    {
        match (*self, event) {
            (Cycle::Review { scroll, count }, CycleEvent::Button(ev)) => match review_step(
                scroll,
                count,
                ev,
            ) {
                ReviewStep::Scroll(s) => Cycle::Review { scroll: s, count },
                ReviewStep::Confirmed => Cycle::Sign,
                ReviewStep::Rejected => Cycle::AnnounceRejected,
            },
            (Cycle::Sign, CycleEvent::Done) => Cycle::Write,
            (Cycle::Write, CycleEvent::Done) => Cycle::Unmount { signed: true },
            (Cycle::AnnounceRejected, CycleEvent::Done) => Cycle::Unmount { signed: false },
            (Cycle::Unmount { signed }, CycleEvent::Done) => if signed {
                Cycle::AnnounceSigned
            } else {
                Cycle::Finished { signed: false }
            },
            (Cycle::AnnounceSigned, CycleEvent::Done) => Cycle::Finished { signed: true },
            (c, _) => c,
        }
    }
}

/// Rejecting at review signs and writes nothing: from the rejection on,
/// whatever events come, the cycle only shows the rejection, unmounts and
/// finishes unsigned.
pub proof fn lemma_reject_writes_nothing(scroll: usize, count: usize, events: Seq<CycleEvent>)
    ensures
        ({
            let after = cycle_run(cycle_next(Cycle::Review { scroll, count }, CycleEvent::Button(ButtonEvent::Reject)), events);
            &&& after == Cycle::AnnounceRejected || after == (Cycle::Unmount { signed: false })
                || after == (Cycle::Finished { signed: false })
        }),
{
    lemma_rejected_stays_unsigned(Cycle::AnnounceRejected, events);
}

/// The point after a sequence of events.
pub open spec fn cycle_run(c: Cycle, events: Seq<CycleEvent>) -> Cycle
    decreases events.len(),
{
    if events.len() == 0 {
        c
    } else {
        cycle_run(cycle_next(c, events[0]), events.drop_first())
    }
}

proof fn lemma_rejected_stays_unsigned(c: Cycle, events: Seq<CycleEvent>)
    requires
        c == Cycle::AnnounceRejected || c == (Cycle::Unmount { signed: false }) || c
            == (Cycle::Finished { signed: false }),
    ensures
        ({
            let after = cycle_run(c, events);
            &&& after == Cycle::AnnounceRejected || after == (Cycle::Unmount { signed: false })
                || after == (Cycle::Finished { signed: false })
        }),
    decreases events.len(),
{
    if events.len() > 0 {
        lemma_rejected_stays_unsigned(cycle_next(c, events[0]), events.drop_first());
    }
}

/// Over any run of Up and Down presses, review stays in review and its
/// offset stays within `[0, max(0, count - 1)]`; review starts at offset 0
/// (`Cycle::start`).
pub proof fn lemma_review_scroll_stays_bounded(
    scroll: usize,
    count: usize,
    events: Seq<CycleEvent>,
)
    requires
        scroll <= max_scroll_of(count as nat),
        forall|i: int|
            0 <= i < events.len() ==> #[trigger] events[i] == CycleEvent::Button(ButtonEvent::Up)
                || events[i] == CycleEvent::Button(ButtonEvent::Down),
    ensures
        cycle_run(Cycle::Review { scroll, count }, events) matches Cycle::Review {
            scroll: s,
            count: c,
        } && c == count && s <= max_scroll_of(count as nat),
    decreases events.len(),
{
    if events.len() > 0 {
        let up = events[0] == CycleEvent::Button(ButtonEvent::Up);
        lemma_scroll_clamped(scroll as nat, count as nat, up);
        let next = scroll_after(scroll as nat, count as nat, up);
        assert(cycle_next(Cycle::Review { scroll, count }, events[0]) == Cycle::Review {
            scroll: next as usize,
            count,
        });
        let rest = events.drop_first();
        assert forall|i: int| 0 <= i < rest.len() implies #[trigger] rest[i] == CycleEvent::Button(
            ButtonEvent::Up,
        ) || rest[i] == CycleEvent::Button(ButtonEvent::Down) by {
            assert(rest[i] == events[i + 1]);
        };
        lemma_review_scroll_stays_bounded(next as usize, count, rest);
    }
}

} // verus!
