//! Types shared by the Flydigi protocol decoders.
use vstd::prelude::*;

verus! {

/// Number of extra buttons supported by the `V1` protocol.
pub const FLYDIGI_BUTTON_COUNT: usize = 6;

/// A single extra button of a Flydigi controller.
#[derive(Debug, Clone, Copy, PartialEq, Eq, Structural, Hash, PartialOrd, Ord)]
pub enum FlydigiButton {
    C,
    Z,
    M1,
    M2,
    M3,
    M4,
}

impl FlydigiButton {
    /// All buttons, in bit order.
    pub const ALL: [FlydigiButton; FLYDIGI_BUTTON_COUNT] = [
        FlydigiButton::C,
        FlydigiButton::Z,
        FlydigiButton::M1,
        FlydigiButton::M2,
        FlydigiButton::M3,
        FlydigiButton::M4,
    ];

    /// Position of the button in [`FlydigiButton::ALL`], which is also the number of
    /// its bit in the extra button byte.
    pub open spec fn bit(self) -> nat {
        match self {
            FlydigiButton::C => 0,
            FlydigiButton::Z => 1,
            FlydigiButton::M1 => 2,
            FlydigiButton::M2 => 3,
            FlydigiButton::M3 => 4,
            FlydigiButton::M4 => 5,
        }
    }

    /// The mask of the button inside the extra button byte.
    pub open spec fn spec_mask(self) -> u8 {
        match self {
            FlydigiButton::C => 0x01,
            FlydigiButton::Z => 0x02,
            FlydigiButton::M1 => 0x04,
            FlydigiButton::M2 => 0x08,
            FlydigiButton::M3 => 0x10,
            FlydigiButton::M4 => 0x20,
        }
    }

    /// Name of the button, as printed on the controller.
    pub fn name(self) -> (n: &'static str)
        ensures
            n@ == (match self {
                FlydigiButton::C => "C"@,
                FlydigiButton::Z => "Z"@,
                FlydigiButton::M1 => "M1"@,
                FlydigiButton::M2 => "M2"@,
                FlydigiButton::M3 => "M3"@,
                FlydigiButton::M4 => "M4"@,
            }),
    {
        match self {
            FlydigiButton::C => "C",
            FlydigiButton::Z => "Z",
            FlydigiButton::M1 => "M1",
            FlydigiButton::M2 => "M2",
            FlydigiButton::M3 => "M3",
            FlydigiButton::M4 => "M4",
        }
    }

    /// Bit mask of this button inside the extra button byte.
    pub fn mask(self) -> (m: u8)
        ensures
            m == self.spec_mask(),
    {
        match self {
            FlydigiButton::C => 0x01,
            FlydigiButton::Z => 0x02,
            FlydigiButton::M1 => 0x04,
            FlydigiButton::M2 => 0x08,
            FlydigiButton::M3 => 0x10,
            FlydigiButton::M4 => 0x20,
        }
    }
}


/// The buttons in bit order, as a sequence.
pub open spec fn all_buttons() -> Seq<FlydigiButton> {
    seq![
        FlydigiButton::C,
        FlydigiButton::Z,
        FlydigiButton::M1,
        FlydigiButton::M2,
        FlydigiButton::M3,
        FlydigiButton::M4,
    ]
}

/// State of the extra buttons as decoded from a report.
#[derive(Debug, Clone, Copy, PartialEq, Eq, Structural, Hash)]
pub struct FlydigiButtons {
    pub c: bool,
    pub z: bool,
    pub m1: bool,
    pub m2: bool,
    pub m3: bool,
    pub m4: bool,
}

impl FlydigiButtons {
    /// Whether `button` is pressed in this state.
    pub open spec fn pressed(self, button: FlydigiButton) -> bool {
        match button {
            FlydigiButton::C => self.c,
            FlydigiButton::Z => self.z,
            FlydigiButton::M1 => self.m1,
            FlydigiButton::M2 => self.m2,
            FlydigiButton::M3 => self.m3,
            FlydigiButton::M4 => self.m4,
        }
    }

    /// The state with no button pressed.
    pub open spec fn nothing_pressed() -> FlydigiButtons {
        FlydigiButtons { c: false, z: false, m1: false, m2: false, m3: false, m4: false }
    }

    /// This state with `button` set to `pressed` and every other button unchanged.
    pub open spec fn with(self, button: FlydigiButton, pressed: bool) -> FlydigiButtons {
        match button {
            FlydigiButton::C => FlydigiButtons { c: pressed, ..self },
            FlydigiButton::Z => FlydigiButtons { z: pressed, ..self },
            FlydigiButton::M1 => FlydigiButtons { m1: pressed, ..self },
            FlydigiButton::M2 => FlydigiButtons { m2: pressed, ..self },
            FlydigiButton::M3 => FlydigiButtons { m3: pressed, ..self },
            FlydigiButton::M4 => FlydigiButtons { m4: pressed, ..self },
        }
    }

    /// The state that an extra button byte describes: a button is pressed exactly
    /// when its mask bit is set; bits 6 and 7 are ignored.
    pub open spec fn decoded(bits: u8) -> FlydigiButtons {
        FlydigiButtons {
            c: bits & 0x01 != 0,
            z: bits & 0x02 != 0,
            m1: bits & 0x04 != 0,
            m2: bits & 0x08 != 0,
            m3: bits & 0x10 != 0,
            m4: bits & 0x20 != 0,
        }
    }

    /// The extra button byte of this state: the sum of the masks of the pressed
    /// buttons.
    pub open spec fn encoded(self) -> u8 {
        (if self.c { 0x01u8 } else { 0u8 }) | (if self.z { 0x02u8 } else { 0u8 }) | (if self.m1 {
            0x04u8
        } else {
            0u8
        }) | (if self.m2 { 0x08u8 } else { 0u8 }) | (if self.m3 { 0x10u8 } else { 0u8 }) | (
        if self.m4 {
            0x20u8
        } else {
            0u8
        })
    }

    /// Returns whether `button` is pressed.
    pub fn is_pressed(self, button: FlydigiButton) -> (r: bool)
        ensures
            r == self.pressed(button),
    {
        match button {
            FlydigiButton::C => self.c,
            FlydigiButton::Z => self.z,
            FlydigiButton::M1 => self.m1,
            FlydigiButton::M2 => self.m2,
            FlydigiButton::M3 => self.m3,
            FlydigiButton::M4 => self.m4,
        }
    }

    /// Sets whether `button` is pressed.
    pub fn set(&mut self, button: FlydigiButton, pressed: bool)
        ensures
            *final(self) == old(self).with(button, pressed),
    {
        match button {
            FlydigiButton::C => self.c = pressed,
            FlydigiButton::Z => self.z = pressed,
            FlydigiButton::M1 => self.m1 = pressed,
            FlydigiButton::M2 => self.m2 = pressed,
            FlydigiButton::M3 => self.m3 = pressed,
            FlydigiButton::M4 => self.m4 = pressed,
        }
    }

    /// All buttons and their state, in bit order.
    pub fn iter(self) -> (r: Vec<(FlydigiButton, bool)>)
        ensures
            r@.len() == FLYDIGI_BUTTON_COUNT,
            forall|i: int|
                0 <= i < FLYDIGI_BUTTON_COUNT ==> #[trigger] r@[i] == (all_buttons()[i], self.pressed(
                    all_buttons()[i],
                )),
    {
        let mut r: Vec<(FlydigiButton, bool)> = Vec::new();
        let mut i: usize = 0;
        while i < FLYDIGI_BUTTON_COUNT
            invariant
                i <= FLYDIGI_BUTTON_COUNT,
                r@.len() == i,
                forall|j: int|
                    0 <= j < i ==> #[trigger] r@[j] == (all_buttons()[j], self.pressed(
                        all_buttons()[j],
                    )),
            decreases FLYDIGI_BUTTON_COUNT - i,
        {
            let button = FlydigiButton::ALL[i];
            r.push((button, self.is_pressed(button)));
            i = i + 1;
        }
        r
    }

    /// Decodes the extra button bits of a `V1` report into a button set.
    ///
    /// Bits 6 and 7 (`LM`/`RM`) exist only on later devices and are ignored - they
    /// are not part of [`FlydigiButton::ALL`]. Unknown bits are ignored on purpose so
    /// that a future firmware revision that starts using them cannot produce bogus
    /// button presses.
    pub fn from_bits(bits: u8) -> (r: FlydigiButtons)
        ensures
            r == FlydigiButtons::decoded(bits),
    {
        FlydigiButtons {
            c: bits & 0x01 != 0,
            z: bits & 0x02 != 0,
            m1: bits & 0x04 != 0,
            m2: bits & 0x08 != 0,
            m3: bits & 0x10 != 0,
            m4: bits & 0x20 != 0,
        }
    }

    /// Encodes the button set back into the extra button byte.
    ///
    /// Only bits of known buttons are set.
    pub fn to_bits(self) -> (bits: u8)
        ensures
            bits == self.encoded(),
    {
        let c: u8 = if self.c { 0x01 } else { 0 };
        let z: u8 = if self.z { 0x02 } else { 0 };
        let m1: u8 = if self.m1 { 0x04 } else { 0 };
        let m2: u8 = if self.m2 { 0x08 } else { 0 };
        let m3: u8 = if self.m3 { 0x10 } else { 0 };
        let m4: u8 = if self.m4 { 0x20 } else { 0 };
        let bits: u8 = c | z | m1 | m2 | m3 | m4;
        bits
    }
}

impl Default for FlydigiButtons {
    fn default() -> (r: FlydigiButtons)
        ensures
            r == FlydigiButtons::nothing_pressed(),
    {
        FlydigiButtons { c: false, z: false, m1: false, m2: false, m3: false, m4: false }
    }
}


/// Decoded Flydigi vendor input.
#[derive(Debug, Clone, Copy, PartialEq, Eq, Structural, Hash)]
pub struct FlydigiInput {
    pub buttons: FlydigiButtons,
}

impl Default for FlydigiInput {
    fn default() -> (r: FlydigiInput)
        ensures
            r.buttons == FlydigiButtons::nothing_pressed(),
    {
        FlydigiInput { buttons: FlydigiButtons::default() }
    }
}

/// Reason why a vendor report could not be decoded.
#[derive(Debug, Clone, Copy, PartialEq, Eq, Structural, Hash)]
pub enum DecodeError {
    /// The report is too short to contain the fields the decoder needs.
    TooShort,
    /// The report has a different report ID / framing than expected.
    UnexpectedReport,
}

impl DecodeError {
    /// Human readable description of the error.
    pub fn message(&self) -> (m: &'static str)
        ensures
            m@ == (match self {
                DecodeError::TooShort => "vendor report is too short"@,
                DecodeError::UnexpectedReport => "unexpected vendor report framing"@,
            }),
    {
        match self {
            DecodeError::TooShort => "vendor report is too short",
            DecodeError::UnexpectedReport => "unexpected vendor report framing",
        }
    }
}

/// Decodes raw vendor HID reports into [`FlydigiInput`].
///
/// Transport code must not know anything about report layouts; it only feeds raw
/// bytes into an implementation of this trait. This keeps the protocol knowledge in
/// one place and makes it possible to support additional models/revisions without
/// touching the OS specific code.
pub trait ReportDecoder {
    /// Decodes a single report.
    fn decode(&self, report: &[u8]) -> Result<FlydigiInput, DecodeError>;
}

/// One button state transition.
#[derive(Debug, Clone, Copy, PartialEq, Eq, Structural, Hash)]
pub enum ButtonEvent {
    Pressed(FlydigiButton),
    Released(FlydigiButton),
}

/// The event, if any, that position `i` of the two passes over the buttons
/// produces: positions `0..6` report presses, positions `6..12` releases, each in
/// bit order.
pub open spec fn event_at(previous: FlydigiButtons, current: FlydigiButtons, i: int) -> Option<
    ButtonEvent,
> {
    if 0 <= i < FLYDIGI_BUTTON_COUNT {
        let b = all_buttons()[i];
        if !previous.pressed(b) && current.pressed(b) {
            Some(ButtonEvent::Pressed(b))
        } else {
            None
        }
    } else if FLYDIGI_BUTTON_COUNT <= i < 2 * FLYDIGI_BUTTON_COUNT {
        let b = all_buttons()[i - FLYDIGI_BUTTON_COUNT];
        if previous.pressed(b) && !current.pressed(b) {
            Some(ButtonEvent::Released(b))
        } else {
            None
        }
    } else {
        None
    }
}

/// The events of positions `i..12`, in order.
pub open spec fn events_from(previous: FlydigiButtons, current: FlydigiButtons, i: int) -> Seq<
    ButtonEvent,
>
    decreases 2 * FLYDIGI_BUTTON_COUNT - i,
{
    if i >= 2 * FLYDIGI_BUTTON_COUNT {
        Seq::empty()
    } else {
        match event_at(previous, current, i) {
            Some(e) => seq![e] + events_from(previous, current, i + 1),
            None => events_from(previous, current, i + 1),
        }
    }
}

/// There are at most as many events as positions left.
proof fn lemma_events_from_len(previous: FlydigiButtons, current: FlydigiButtons, i: int)
    requires
        0 <= i,
    ensures
        events_from(previous, current, i).len() <= if i <= 2 * FLYDIGI_BUTTON_COUNT {
            2 * FLYDIGI_BUTTON_COUNT - i
        } else {
            0
        },
    decreases 2 * FLYDIGI_BUTTON_COUNT - i,
{
    if i < 2 * FLYDIGI_BUTTON_COUNT {
        lemma_events_from_len(previous, current, i + 1);
    }
}

/// The events that a change of state from `previous` to `current` produces.
pub open spec fn transitions(previous: FlydigiButtons, current: FlydigiButtons) -> Seq<
    ButtonEvent,
> {
    events_from(previous, current, 0)
}

/// Edge detector for [`FlydigiButtons`].
///
/// HID reports describe the *current* state of the controller, while gilrs events
/// describe *changes*. Feeding every report through this type produces exactly one
/// `Pressed`/`Released` event per transition and nothing at all while a button is
/// held down.
#[derive(Debug, Clone, Copy, PartialEq, Eq, Structural, Hash)]
pub struct ButtonState {
    previous: FlydigiButtons,
}

impl View for ButtonState {
    type V = FlydigiButtons;

    /// The last observed button state.
    closed spec fn view(&self) -> FlydigiButtons {
        self.previous
    }
}

impl ButtonState {
    /// Creates a state with nothing pressed.
    pub fn new() -> (r: ButtonState)
        ensures
            r@ == FlydigiButtons::nothing_pressed(),
    {
        ButtonState {
            previous: FlydigiButtons {
                c: false,
                z: false,
                m1: false,
                m2: false,
                m3: false,
                m4: false,
            },
        }
    }

    /// Returns the last observed button state.
    pub fn previous(&self) -> (r: FlydigiButtons)
        ensures
            r == self@,
    {
        self.previous
    }

    /// Compares `current` with the previous state, stores it and returns the events
    /// that have to be emitted.
    ///
    /// Pressed events are returned before released events for the same report.
    pub fn update(&mut self, current: FlydigiButtons) -> (events: ButtonEvents)
        ensures
            final(self)@ == current,
            events@ == transitions(old(self)@, current),
    {
        let events = ButtonEvents { previous: self.previous, current, index: 0 };
        self.previous = current;
        events
    }
}

impl Default for ButtonState {
    fn default() -> (r: ButtonState)
        ensures
            r@ == FlydigiButtons::nothing_pressed(),
    {
        ButtonState::new()
    }
}

/// The events produced by [`ButtonState::update`], handed out one at a time by
/// [`ButtonEvents::next`].
#[derive(Debug, Clone, Copy)]
pub struct ButtonEvents {
    previous: FlydigiButtons,
    current: FlydigiButtons,
    index: u8,
}

impl View for ButtonEvents {
    type V = Seq<ButtonEvent>;

    /// The events that are still to come, in order.
    closed spec fn view(&self) -> Seq<ButtonEvent> {
        events_from(self.previous, self.current, self.index as int)
    }
}

impl ButtonEvents {
    /// Returns the next event, or `None` once all have been handed out.
    pub fn next(&mut self) -> (r: Option<ButtonEvent>)
        ensures
            old(self)@.len() == 0 ==> r is None && final(self)@.len() == 0,
            old(self)@.len() > 0 ==> r == Some(old(self)@[0]) && final(self)@ == old(self)@.drop_first(),
    {
        // First pass reports presses, second pass reports releases.
        while (self.index as usize) < 2 * FLYDIGI_BUTTON_COUNT
            invariant
                self.previous == old(self).previous,
                self.current == old(self).current,
                events_from(self.previous, self.current, self.index as int) == old(self)@,
            decreases 2 * FLYDIGI_BUTTON_COUNT - self.index,
        {
            let index = self.index as usize;
            self.index += 1;
            let button = FlydigiButton::ALL[index % FLYDIGI_BUTTON_COUNT];
            let was_pressed = self.previous.is_pressed(button);
            let is_pressed = self.current.is_pressed(button);

            if index < FLYDIGI_BUTTON_COUNT && !was_pressed && is_pressed {
                return Some(ButtonEvent::Pressed(button));
            }
            if index >= FLYDIGI_BUTTON_COUNT && was_pressed && !is_pressed {
                return Some(ButtonEvent::Released(button));
            }
        }
        None
    }

    /// Number of events still to come; consumes the events.
    pub fn count(self) -> (n: usize)
        ensures
            n == self@.len(),
    {
        proof {
            lemma_events_from_len(self.previous, self.current, self.index as int);
        }
        let mut events = self;
        let mut n: usize = 0;
        loop
            invariant
                n + events@.len() == self@.len(),
                self@.len() <= 2 * FLYDIGI_BUTTON_COUNT,
            ensures
                n == self@.len(),
            decreases events@.len(),
        {
            match events.next() {
                Some(_) => {
                    n = n + 1;
                },
                None => {
                    break ;
                },
            }
        }
        n
    }

    /// The events still to come, in order; consumes the events.
    pub fn collect(self) -> (v: Vec<ButtonEvent>)
        ensures
            v@ == self@,
    {
        let mut events = self;
        let mut v: Vec<ButtonEvent> = Vec::new();
        loop
            invariant
                v@ + events@ == self@,
            ensures
                v@ == self@,
            decreases events@.len(),
        {
            match events.next() {
                Some(e) => {
                    v.push(e);
                },
                None => {
                    break ;
                },
            }
        }
        v
    }
}


/// Position in the two passes at which `event` can be produced.
pub open spec fn event_position(event: ButtonEvent) -> int {
    match event {
        ButtonEvent::Pressed(b) => b.bit() as int,
        ButtonEvent::Released(b) => b.bit() + FLYDIGI_BUTTON_COUNT,
    }
}

/// Number of buttons whose state differs between `previous` and `current`.
pub open spec fn changed_count(previous: FlydigiButtons, current: FlydigiButtons) -> nat {
    (if previous.c != current.c { 1nat } else { 0nat }) + (if previous.z != current.z {
        1nat
    } else {
        0nat
    }) + (if previous.m1 != current.m1 { 1nat } else { 0nat }) + (if previous.m2 != current.m2 {
        1nat
    } else {
        0nat
    }) + (if previous.m3 != current.m3 { 1nat } else { 0nat }) + (if previous.m4 != current.m4 {
        1nat
    } else {
        0nat
    })
}

/// [`FlydigiButton::ALL`] lists the buttons in bit order.
pub proof fn lemma_all_buttons_in_bit_order()
    ensures
        all_buttons().len() == FLYDIGI_BUTTON_COUNT,
        forall|k: int| 0 <= k < FLYDIGI_BUTTON_COUNT ==> #[trigger] all_buttons()[k].bit() == k,
        forall|b: FlydigiButton| #[trigger] all_buttons()[b.bit() as int] == b,
        all_buttons().no_duplicates(),
{
    assert(all_buttons()[0].bit() == 0);
    assert(all_buttons()[1].bit() == 1);
    assert(all_buttons()[2].bit() == 2);
    assert(all_buttons()[3].bit() == 3);
    assert(all_buttons()[4].bit() == 4);
    assert(all_buttons()[5].bit() == 5);
}

/// An event can only come from one position.
proof fn lemma_event_at_position(previous: FlydigiButtons, current: FlydigiButtons, k: int)
    ensures
        event_at(previous, current, k) matches Some(e) ==> event_position(e) == k,
        0 <= k < 2 * FLYDIGI_BUTTON_COUNT ==> (event_at(previous, current, k) is Some <==> (
        if k < FLYDIGI_BUTTON_COUNT {
            !previous.pressed(all_buttons()[k]) && current.pressed(all_buttons()[k])
        } else {
            previous.pressed(all_buttons()[k - FLYDIGI_BUTTON_COUNT]) && !current.pressed(
                all_buttons()[k - FLYDIGI_BUTTON_COUNT],
            )
        })),
{
    lemma_all_buttons_in_bit_order();
}

/// The events of positions `i..12` are exactly those that some position `k >= i`
/// produces, each once.
proof fn lemma_events_from_members(previous: FlydigiButtons, current: FlydigiButtons, i: int)
    requires
        0 <= i,
    ensures
        forall|e: ButtonEvent| #[trigger]
            events_from(previous, current, i).contains(e) <==> (i <= event_position(e)
                && event_at(previous, current, event_position(e)) == Some(e)),
        events_from(previous, current, i).no_duplicates(),
    decreases 2 * FLYDIGI_BUTTON_COUNT - i,
{
    lemma_all_buttons_in_bit_order();
    if i < 2 * FLYDIGI_BUTTON_COUNT {
        lemma_events_from_members(previous, current, i + 1);
        lemma_event_at_position(previous, current, i);
        let rest = events_from(previous, current, i + 1);
        match event_at(previous, current, i) {
            Some(x) => {
                assert forall|e: ButtonEvent| #[trigger]
                    events_from(previous, current, i).contains(e) <==> (i <= event_position(e)
                        && event_at(previous, current, event_position(e)) == Some(e)) by {
                    lemma_event_at_position(previous, current, event_position(e));
                    if e == x {
                        assert(events_from(previous, current, i)[0] == e);
                    } else {
                        if rest.contains(e) {
                            let j = choose|j: int| 0 <= j < rest.len() && rest[j] == e;
                            assert(events_from(previous, current, i)[j + 1] == e);
                        }
                        if events_from(previous, current, i).contains(e) {
                            let j = choose|j: int|
                                0 <= j < events_from(previous, current, i).len()
                                    && events_from(previous, current, i)[j] == e;
                            assert(rest[j - 1] == e);
                        }
                    }
                }
                assert(!rest.contains(x));
                assert(events_from(previous, current, i) == seq![x] + rest);
                assert forall|a: int, b: int|
                    0 <= a < b < events_from(previous, current, i).len() implies events_from(
                    previous,
                    current,
                    i,
                )[a] != events_from(previous, current, i)[b] by {
                    if a == 0 {
                        assert(rest.contains(events_from(previous, current, i)[b]));
                    } else {
                        assert(events_from(previous, current, i)[a] == rest[a - 1]);
                        assert(events_from(previous, current, i)[b] == rest[b - 1]);
                    }
                }
            },
            None => {
                assert forall|e: ButtonEvent| #[trigger]
                    events_from(previous, current, i).contains(e) <==> (i <= event_position(e)
                        && event_at(previous, current, event_position(e)) == Some(e)) by {
                    lemma_event_at_position(previous, current, event_position(e));
                }
            },
        }
    } else {
        assert forall|e: ButtonEvent| #[trigger]
            events_from(previous, current, i).contains(e) <==> (i <= event_position(e)
                && event_at(previous, current, event_position(e)) == Some(e)) by {
            lemma_event_at_position(previous, current, event_position(e));
        }
    }
}

/// Law: a button that was not pressed and is pressed now yields a `Pressed`
/// event, one that was pressed and is released now yields a `Released` event,
/// and nothing else is reported.
pub proof fn lemma_transitions_report_changes(
    previous: FlydigiButtons,
    current: FlydigiButtons,
    button: FlydigiButton,
)
    ensures
        transitions(previous, current).contains(ButtonEvent::Pressed(button)) <==> (
        !previous.pressed(button) && current.pressed(button)),
        transitions(previous, current).contains(ButtonEvent::Released(button)) <==> (
        previous.pressed(button) && !current.pressed(button)),
{
    lemma_events_from_members(previous, current, 0);
    lemma_all_buttons_in_bit_order();
}

/// Number of positions in `i..12` that produce an event.
spec fn producing_positions(previous: FlydigiButtons, current: FlydigiButtons, i: int) -> nat
    decreases 2 * FLYDIGI_BUTTON_COUNT - i,
{
    if i >= 2 * FLYDIGI_BUTTON_COUNT {
        0
    } else {
        (if event_at(previous, current, i) is Some { 1nat } else { 0nat }) + producing_positions(
            previous,
            current,
            i + 1,
        )
    }
}

proof fn lemma_events_from_len_exact(previous: FlydigiButtons, current: FlydigiButtons, i: int)
    ensures
        events_from(previous, current, i).len() == producing_positions(previous, current, i),
    decreases 2 * FLYDIGI_BUTTON_COUNT - i,
{
    if i < 2 * FLYDIGI_BUTTON_COUNT {
        lemma_events_from_len_exact(previous, current, i + 1);
    }
}

/// Law: every transition is reported once.
#[verifier::rlimit(40)]
pub proof fn lemma_transitions_once(previous: FlydigiButtons, current: FlydigiButtons)
    ensures
        transitions(previous, current).no_duplicates(),
        transitions(previous, current).len() == changed_count(previous, current),
{
    lemma_events_from_members(previous, current, 0);
    lemma_events_from_len_exact(previous, current, 0);
    lemma_all_buttons_in_bit_order();
    reveal_with_fuel(producing_positions, 13);
}

/// Law: nothing is reported while the state does not change (a held button
/// produces no events).
pub proof fn lemma_no_change_no_events(state: FlydigiButtons)
    ensures
        transitions(state, state) == Seq::<ButtonEvent>::empty(),
{
    lemma_transitions_once(state, state);
}

/// The releases, positions `6..12`, come last.
proof fn lemma_releases_last(previous: FlydigiButtons, current: FlydigiButtons, i: int)
    requires
        0 <= i <= 2 * FLYDIGI_BUTTON_COUNT,
    ensures
        i >= FLYDIGI_BUTTON_COUNT ==> forall|j: int|
            0 <= j < events_from(previous, current, i).len() ==> #[trigger] events_from(
                previous,
                current,
                i,
            )[j] is Released,
        i <= FLYDIGI_BUTTON_COUNT ==> {
            let all = events_from(previous, current, i);
            let tail = events_from(previous, current, FLYDIGI_BUTTON_COUNT as int);
            &&& tail.len() <= all.len()
            &&& all.subrange(all.len() - tail.len(), all.len() as int) == tail
            &&& forall|j: int| 0 <= j < all.len() - tail.len() ==> #[trigger] all[j] is Pressed
        },
    decreases 2 * FLYDIGI_BUTTON_COUNT - i,
{
    if i < 2 * FLYDIGI_BUTTON_COUNT {
        lemma_releases_last(previous, current, i + 1);
        let all = events_from(previous, current, i);
        let rest = events_from(previous, current, i + 1);
        match event_at(previous, current, i) {
            Some(x) => {
                assert(all == seq![x] + rest);
                if i >= FLYDIGI_BUTTON_COUNT {
                    assert forall|j: int| 0 <= j < all.len() implies #[trigger] all[j] is Released by {
                        if j > 0 {
                            assert(all[j] == rest[j - 1]);
                        }
                    }
                } else {
                    let tail = events_from(previous, current, FLYDIGI_BUTTON_COUNT as int);
                    assert(all.subrange(all.len() - tail.len(), all.len() as int) =~= tail) by {
                        if i + 1 <= FLYDIGI_BUTTON_COUNT {
                            assert(all.subrange(all.len() - tail.len(), all.len() as int) =~= rest.subrange(
                                rest.len() - tail.len(),
                                rest.len() as int,
                            ));
                        }
                    }
                    assert forall|j: int| 0 <= j < all.len() - tail.len() implies #[trigger] all[j] is Pressed by {
                        if j > 0 {
                            assert(all[j] == rest[j - 1]);
                        }
                    }
                }
            },
            None => {
                assert(all == rest);
            },
        }
    }
}

/// Law: the presses of a report come before its releases.
pub proof fn lemma_presses_before_releases(previous: FlydigiButtons, current: FlydigiButtons)
    ensures
        forall|a: int, b: int|
            0 <= a < b < transitions(previous, current).len() && (#[trigger] transitions(
                previous,
                current,
            )[b]) is Pressed ==> (#[trigger] transitions(previous, current)[a]) is Pressed,
{
    lemma_releases_last(previous, current, 0);
    lemma_releases_last(previous, current, FLYDIGI_BUTTON_COUNT as int);
    let all = transitions(previous, current);
    let tail = events_from(previous, current, FLYDIGI_BUTTON_COUNT as int);
    assert forall|a: int, b: int|
        0 <= a < b < all.len() && (#[trigger] all[b]) is Pressed implies (#[trigger] all[a]) is Pressed by {
        if b >= all.len() - tail.len() {
            assert(all[b] == tail[b - (all.len() - tail.len())]);
        }
    }
}


proof fn lemma_distinct_single_bits() by (bit_vector)
    ensures
        forall|a: u8, b: u8|
            (a == 0x01u8 || a == 0x02u8 || a == 0x04u8 || a == 0x08u8 || a == 0x10u8 || a == 0x20u8)
                && (b == 0x01u8 || b == 0x02u8 || b == 0x04u8 || b == 0x08u8 || b == 0x10u8 || b
                == 0x20u8) && a != b ==> #[trigger] (a & b) == 0u8,
        (0x01u8 | 0x02u8 | 0x04u8 | 0x08u8 | 0x10u8 | 0x20u8) == 0x3fu8,
{
}

/// Law: the masks of two different buttons share no bit, and together the masks
/// cover exactly the six low bits.
pub proof fn lemma_masks_partition_low_bits()
    ensures
        forall|a: FlydigiButton, b: FlydigiButton|
            a != b ==> #[trigger] (a.spec_mask() & b.spec_mask()) == 0u8,
        forall|a: FlydigiButton| #[trigger] a.spec_mask() != 0u8,
        (FlydigiButton::C.spec_mask() | FlydigiButton::Z.spec_mask() | FlydigiButton::M1.spec_mask()
            | FlydigiButton::M2.spec_mask() | FlydigiButton::M3.spec_mask()
            | FlydigiButton::M4.spec_mask()) == 0x3fu8,
{
    lemma_distinct_single_bits();
    assert forall|a: FlydigiButton, b: FlydigiButton|
        a != b implies #[trigger] (a.spec_mask() & b.spec_mask()) == 0u8 by {
        let x = a.spec_mask();
        let y = b.spec_mask();
        assert(x & y == 0u8);
    }
}

/// Law: a decoded state presses a button exactly when the button's mask bit is
/// set.
pub proof fn lemma_decoded_pressed(bits: u8, button: FlydigiButton)
    ensures
        FlydigiButtons::decoded(bits).pressed(button) <==> (bits & button.spec_mask()) != 0u8,
{
}

/// Law: decoding ignores bits 6 and 7.
pub proof fn lemma_decoded_ignores_unknown_bits(bits: u8)
    ensures
        FlydigiButtons::decoded(bits) == FlydigiButtons::decoded(bits & 0x3fu8),
        FlydigiButtons::decoded(bits & 0xc0u8) == FlydigiButtons::nothing_pressed(),
{
    assert(((bits & 0x3fu8) & 0x01u8) == (bits & 0x01u8) && ((bits & 0x3fu8) & 0x02u8) == (bits
        & 0x02u8) && ((bits & 0x3fu8) & 0x04u8) == (bits & 0x04u8) && ((bits & 0x3fu8) & 0x08u8)
        == (bits & 0x08u8) && ((bits & 0x3fu8) & 0x10u8) == (bits & 0x10u8) && ((bits & 0x3fu8)
        & 0x20u8) == (bits & 0x20u8)) by (bit_vector);
    assert(((bits & 0xc0u8) & 0x01u8) == 0u8 && ((bits & 0xc0u8) & 0x02u8) == 0u8 && ((bits
        & 0xc0u8) & 0x04u8) == 0u8 && ((bits & 0xc0u8) & 0x08u8) == 0u8 && ((bits & 0xc0u8)
        & 0x10u8) == 0u8 && ((bits & 0xc0u8) & 0x20u8) == 0u8) by (bit_vector);
}

/// Law: decoding a byte and encoding the state again keeps exactly the bits of
/// the known buttons.
pub proof fn lemma_bits_round_trip(bits: u8)
    ensures
        FlydigiButtons::decoded(bits).encoded() == bits & 0x3fu8,
{
    assert(((if bits & 0x01u8 != 0u8 { 0x01u8 } else { 0u8 }) | (if bits & 0x02u8 != 0u8 {
        0x02u8
    } else {
        0u8
    }) | (if bits & 0x04u8 != 0u8 { 0x04u8 } else { 0u8 }) | (if bits & 0x08u8 != 0u8 {
        0x08u8
    } else {
        0u8
    }) | (if bits & 0x10u8 != 0u8 { 0x10u8 } else { 0u8 }) | (if bits & 0x20u8 != 0u8 {
        0x20u8
    } else {
        0u8
    })) == bits & 0x3fu8) by (bit_vector);
}

/// Law: encoding a state and decoding the byte again gives the state back.
pub proof fn lemma_state_round_trip(state: FlydigiButtons)
    ensures
        FlydigiButtons::decoded(state.encoded()) == state,
        state.encoded() & 0xc0u8 == 0u8,
{
    let c = state.c;
    let z = state.z;
    let m1 = state.m1;
    let m2 = state.m2;
    let m3 = state.m3;
    let m4 = state.m4;
    let e = state.encoded();
    assert(e == (if c { 0x01u8 } else { 0u8 }) | (if z { 0x02u8 } else { 0u8 }) | (if m1 {
        0x04u8
    } else {
        0u8
    }) | (if m2 { 0x08u8 } else { 0u8 }) | (if m3 { 0x10u8 } else { 0u8 }) | (if m4 {
        0x20u8
    } else {
        0u8
    }));
    assert(((e & 0x01u8) != 0u8) == c && ((e & 0x02u8) != 0u8) == z && ((e & 0x04u8) != 0u8)
        == m1 && ((e & 0x08u8) != 0u8) == m2 && ((e & 0x10u8) != 0u8) == m3 && ((e & 0x20u8)
        != 0u8) == m4 && (e & 0xc0u8) == 0u8) by (bit_vector)
        requires
            e == (if c { 0x01u8 } else { 0u8 }) | (if z { 0x02u8 } else { 0u8 }) | (if m1 {
                0x04u8
            } else {
                0u8
            }) | (if m2 { 0x08u8 } else { 0u8 }) | (if m3 { 0x10u8 } else { 0u8 }) | (if m4 {
                0x20u8
            } else {
                0u8
            }),
    ;
}

/// Law: setting a button changes that button only.
pub proof fn lemma_set_changes_one_button(
    state: FlydigiButtons,
    button: FlydigiButton,
    pressed: bool,
    other: FlydigiButton,
)
    ensures
        state.with(button, pressed).pressed(button) == pressed,
        other != button ==> state.with(button, pressed).pressed(other) == state.pressed(other),
{
}

} // verus!
