//! Decisions of the Linux transport for Flydigi vendor HID reports.
use vstd::prelude::*;

use crate::flydigi::protocol_v1::{v1_decoded, Vader4ProDecoder};
use crate::flydigi::types::{
    all_buttons, lemma_all_buttons_in_bit_order, lemma_no_change_no_events,
    lemma_transitions_report_changes, transitions, ButtonEvent, ButtonEvents,
    ButtonState, DecodeError, FlydigiButton, FlydigiButtons, ReportDecoder,
    FLYDIGI_BUTTON_COUNT,
};

verus! {

/// Upper bound for the size of a single vendor report. The `V1` report is 32 bytes,
/// but the kernel may hand over a buffer with room to spare.
pub const MAX_REPORT_LEN: usize = 64;

/// Number of extra buttons the `V1` protocol can report.
pub const N_BUTTONS: usize = 6;

/// Position of `button` in [`FlydigiButton::ALL`].
pub fn button_index(button: FlydigiButton) -> (i: usize)
    ensures
        i == button.bit(),
        i < N_BUTTONS,
        all_buttons()[i as int] == button,
{
    proof {
        lemma_all_buttons_in_bit_order();
    }
    let mut i: usize = 0;
    while i < N_BUTTONS
        invariant
            i <= N_BUTTONS,
            forall|j: int| 0 <= j < i ==> all_buttons()[j] != button,
        decreases N_BUTTONS - i,
    {
        if FlydigiButton::ALL[i] == button {
            return i;
        }
        i = i + 1;
    }
    assert(all_buttons()[button.bit() as int] == button);
    0
}

/// The code of each button in bit order: `None` for `C` and `Z` when the kernel
/// already reports them (`c_exposed`, `z_exposed`), so that they are not reported
/// twice; the native code otherwise.
pub open spec fn selected_codes<C>(c_exposed: bool, z_exposed: bool, native: Seq<C>) -> Seq<
    Option<C>,
> {
    seq![
        if c_exposed { None } else { Some(native[0]) },
        if z_exposed { None } else { Some(native[1]) },
        Some(native[2]),
        Some(native[3]),
        Some(native[4]),
        Some(native[5]),
    ]
}

/// Chooses the code used for every extra button.
///
/// `C`/`Z` normally have a Linux input code and are already reported by the
/// kernel's driver. They are only synthesized from the vendor report when the
/// kernel does not expose them, so a device that does report them through evdev
/// cannot produce duplicated events. `native` holds the codes of the buttons in
/// [`FlydigiButton::ALL`] order.
pub fn select_codes<C: Copy>(c_exposed: bool, z_exposed: bool, native: [C; N_BUTTONS]) -> (r: [Option<C>; N_BUTTONS])
    ensures
        r@ == selected_codes(c_exposed, z_exposed, native@),
{
    let c_code = if c_exposed {
        None
    } else {
        Some(native[0])
    };
    let z_code = if z_exposed {
        None
    } else {
        Some(native[1])
    };
    let r = [c_code, z_code, Some(native[2]), Some(native[3]), Some(native[4]), Some(native[5])];
    assert(r@ =~= selected_codes(c_exposed, z_exposed, native@));
    r
}

/// The `(code, pressed)` pairs that `events` become: each event of a button that
/// has a code, in order; events of buttons without a code are dropped.
pub open spec fn routed<C>(codes: Seq<Option<C>>, events: Seq<ButtonEvent>) -> Seq<(C, bool)>
    decreases events.len(),
{
    if events.len() == 0 {
        Seq::empty()
    } else {
        let rest = routed(codes, events.drop_first());
        let (button, pressed) = match events[0] {
            ButtonEvent::Pressed(b) => (b, true),
            ButtonEvent::Released(b) => (b, false),
        };
        match codes[button.bit() as int] {
            Some(code) => seq![(code, pressed)] + rest,
            None => rest,
        }
    }
}

/// Law: when the kernel already reports `C` (or `Z`), the vendor reports never
/// produce that button's native code, provided the native codes are distinct; so
/// no event is reported twice.
pub proof fn lemma_exposed_buttons_not_repeated<C>(
    c_exposed: bool,
    z_exposed: bool,
    native: Seq<C>,
    events: Seq<ButtonEvent>,
    pressed: bool,
)
    requires
        native.len() == N_BUTTONS,
        native.no_duplicates(),
    ensures
        c_exposed ==> !routed(selected_codes(c_exposed, z_exposed, native), events).contains(
            (native[0], pressed),
        ),
        z_exposed ==> !routed(selected_codes(c_exposed, z_exposed, native), events).contains(
            (native[1], pressed),
        ),
    decreases events.len(),
{
    let codes = selected_codes(c_exposed, z_exposed, native);
    if events.len() > 0 {
        lemma_exposed_buttons_not_repeated(c_exposed, z_exposed, native, events.drop_first(), pressed);
        let rest = routed(codes, events.drop_first());
        let (button, p) = match events[0] {
            ButtonEvent::Pressed(b) => (b, true),
            ButtonEvent::Released(b) => (b, false),
        };
        let k = button.bit() as int;
        assert(0 <= k < N_BUTTONS);
        match codes[k] {
            Some(code) => {
                assert(code == native[k]);
                let all = routed(codes, events);
                assert(all == seq![(code, p)] + rest);
                if c_exposed && all.contains((native[0], pressed)) {
                    let j = choose|j: int| 0 <= j < all.len() && all[j] == (native[0], pressed);
                    if j == 0 {
                        assert(k != 0);
                    } else {
                        assert(rest[j - 1] == (native[0], pressed));
                    }
                }
                if z_exposed && all.contains((native[1], pressed)) {
                    let j = choose|j: int| 0 <= j < all.len() && all[j] == (native[1], pressed);
                    if j == 0 {
                        assert(k != 1);
                    } else {
                        assert(rest[j - 1] == (native[1], pressed));
                    }
                }
            },
            None => {},
        }
    }
}

/// Law: the choice of codes. `M1`-`M4` always get their native codes; `C`
/// (and `Z`) get theirs exactly when the kernel does not already report them.
pub proof fn lemma_selected_codes<C>(c_exposed: bool, z_exposed: bool, native: Seq<C>)
    requires
        native.len() == N_BUTTONS,
    ensures
        selected_codes(c_exposed, z_exposed, native).len() == N_BUTTONS,
        forall|k: int|
            2 <= k < 6 ==> #[trigger] selected_codes(c_exposed, z_exposed, native)[k] == Some(
                native[k],
            ),
        selected_codes(c_exposed, z_exposed, native)[0] == (if c_exposed {
            None
        } else {
            Some(native[0])
        }),
        selected_codes(c_exposed, z_exposed, native)[1] == (if z_exposed {
            None
        } else {
            Some(native[1])
        }),
{
}

/// The button an event is about, and whether it is a press.
pub open spec fn event_parts(e: ButtonEvent) -> (FlydigiButton, bool) {
    match e {
        ButtonEvent::Pressed(b) => (b, true),
        ButtonEvent::Released(b) => (b, false),
    }
}

/// Law: routing a sequence of events routes each event on its own, in order.
pub proof fn lemma_routed_concat<C>(codes: Seq<Option<C>>, a: Seq<ButtonEvent>, b: Seq<ButtonEvent>)
    ensures
        routed(codes, a + b) == routed(codes, a) + routed(codes, b),
    decreases a.len(),
{
    if a.len() == 0 {
        assert(a + b =~= b);
        assert(routed(codes, a) + routed(codes, b) =~= routed(codes, b));
    } else {
        lemma_routed_concat(codes, a.drop_first(), b);
        assert((a + b).drop_first() =~= a.drop_first() + b);
        assert((a + b)[0] == a[0]);
        let (button, _) = event_parts(a[0]);
        assert(button.bit() < N_BUTTONS);
        match codes[button.bit() as int] {
            Some(code) => {
                assert(routed(codes, a + b) =~= routed(codes, a) + routed(codes, b));
            },
            None => {},
        }
    }
}

/// Law: a single event of a button that has a code becomes that code with
/// `true` for a press and `false` for a release; one of a button without a code
/// becomes nothing.
pub proof fn lemma_routed_single<C>(codes: Seq<Option<C>>, e: ButtonEvent)
    requires
        codes.len() == N_BUTTONS,
    ensures
        codes[event_parts(e).0.bit() as int] matches Some(code) ==> routed(codes, seq![e]) == seq![
            (code, e is Pressed),
        ],
        codes[event_parts(e).0.bit() as int] is None ==> routed(codes, seq![e]) == Seq::<
            (C, bool),
        >::empty(),
{
    let s = seq![e];
    assert(s.drop_first() =~= Seq::<ButtonEvent>::empty());
    assert(routed(codes, s.drop_first()) == Seq::<(C, bool)>::empty());
    assert(s[0] == e);
    assert(s.len() == 1);
    match codes[event_parts(e).0.bit() as int] {
        Some(code) => {
            assert(routed(codes, s) =~= seq![(code, e is Pressed)]);
        },
        None => {},
    }
}

/// Law: every event of a button that has a code is routed: its code appears in
/// the result with `true` for a press and `false` for a release.
pub proof fn lemma_routed_keeps_coded_events<C>(
    codes: Seq<Option<C>>,
    events: Seq<ButtonEvent>,
    button: FlydigiButton,
    pressed: bool,
    code: C,
)
    requires
        codes.len() == N_BUTTONS,
        codes[button.bit() as int] == Some(code),
        events.contains(
            if pressed {
                ButtonEvent::Pressed(button)
            } else {
                ButtonEvent::Released(button)
            },
        ),
    ensures
        routed(codes, events).contains((code, pressed)),
{
    let e = if pressed {
        ButtonEvent::Pressed(button)
    } else {
        ButtonEvent::Released(button)
    };
    let j = choose|j: int| 0 <= j < events.len() && events[j] == e;
    let a = events.take(j);
    let b = events.subrange(j, j + 1);
    let c = events.skip(j + 1);
    assert(events =~= a + b + c);
    assert(b =~= seq![e]);
    lemma_routed_concat(codes, a + b, c);
    lemma_routed_concat(codes, a, b);
    lemma_routed_single(codes, e);
    let r = routed(codes, events);
    let ra = routed(codes, a);
    assert(r == ra + seq![(code, pressed)] + routed(codes, c));
    assert(r[ra.len() as int] == (code, pressed));
}

/// Law: a report whose decoded buttons newly press (or release) a button that
/// has a code yields that code with `true` (or `false`), and a report that
/// changes nothing yields nothing.
pub proof fn lemma_push_report_routes_changes<C>(
    codes: Seq<Option<C>>,
    previous: FlydigiButtons,
    current: FlydigiButtons,
    button: FlydigiButton,
    code: C,
)
    requires
        codes.len() == N_BUTTONS,
        codes[button.bit() as int] == Some(code),
    ensures
        !previous.pressed(button) && current.pressed(button) ==> routed(
            codes,
            transitions(previous, current),
        ).contains((code, true)),
        previous.pressed(button) && !current.pressed(button) ==> routed(
            codes,
            transitions(previous, current),
        ).contains((code, false)),
        routed(codes, transitions(previous, previous)).len() == 0,
{
    lemma_transitions_report_changes(previous, current, button);
    if !previous.pressed(button) && current.pressed(button) {
        lemma_routed_keeps_coded_events(codes, transitions(previous, current), button, true, code);
    }
    if previous.pressed(button) && !current.pressed(button) {
        lemma_routed_keeps_coded_events(codes, transitions(previous, current), button, false, code);
    }
    lemma_no_change_no_events(previous);
}

/// Turns the vendor reports of one controller into code events.
///
/// The transport reads raw reports and hands each to [`ReportRouter::push_report`];
/// this keeps the decoder, the edge detector and the code table together.
pub struct ReportRouter<C> {
    decoder: Vader4ProDecoder,
    state: ButtonState,
    codes: [Option<C>; N_BUTTONS],
}

impl<C> View for ReportRouter<C> {
    type V = (FlydigiButtons, Seq<Option<C>>);

    /// The last observed button state and the code of each button.
    closed spec fn view(&self) -> (FlydigiButtons, Seq<Option<C>>) {
        (self.state@, self.codes@)
    }
}

impl<C: Copy> ReportRouter<C> {
    /// A router with nothing pressed that reports each button with its code.
    pub fn new(codes: [Option<C>; N_BUTTONS]) -> (r: Self)
        ensures
            r@ == (FlydigiButtons::nothing_pressed(), codes@),
    {
        ReportRouter { decoder: Vader4ProDecoder, state: ButtonState::new(), codes }
    }

    /// Every code this router can produce, in [`FlydigiButton::ALL`] order.
    pub fn codes(&self) -> (r: Vec<C>)
        ensures
            r@ == self@.1.filter(|c: Option<C>| c is Some).map_values(|c: Option<C>| c->0),
    {
        let mut r: Vec<C> = Vec::new();
        let mut i: usize = 0;
        while i < N_BUTTONS
            invariant
                i <= N_BUTTONS,
                self.codes@.len() == N_BUTTONS,
                r@ == self.codes@.take(i as int).filter(|c: Option<C>| c is Some).map_values(
                    |c: Option<C>| c->0,
                ),
            decreases N_BUTTONS - i,
        {
            proof {
                let f = |c: Option<C>| c is Some;
                assert(self.codes@.take(i + 1).drop_last() =~= self.codes@.take(i as int));
                reveal(Seq::filter);
            }
            match self.codes[i] {
                Some(code) => r.push(code),
                None => {},
            }
            i = i + 1;
        }
        assert(self.codes@.take(N_BUTTONS as int) =~= self.codes@);
        r
    }

    /// Decodes one raw report and returns the `(code, pressed)` pairs of the button
    /// transitions it carries. A report that does not decode leaves the state as
    /// it was and is answered with the decode error.
    pub fn push_report(&mut self, report: &[u8]) -> (r: Result<Vec<(C, bool)>, DecodeError>)
        ensures
            match v1_decoded(report@) {
                Err(e) => r == Err::<Vec<(C, bool)>, DecodeError>(e) && final(self)@ == old(self)@,
                Ok(input) => r matches Ok(events) && events@ == routed(
                    old(self)@.1,
                    transitions(old(self)@.0, input.buttons),
                ) && final(self)@ == (input.buttons, old(self)@.1),
            },
    {
        let input = match self.decoder.decode(report) {
            Ok(input) => input,
            Err(e) => return Err(e),
        };
        let mut events = self.state.update(input.buttons);
        let ghost all_events = events@;
        let mut out: Vec<(C, bool)> = Vec::new();
        loop
            invariant
                self.codes@.len() == N_BUTTONS,
                out@ + routed(self.codes@, events@) == routed(self.codes@, all_events),
            ensures
                out@ == routed(self.codes@, all_events),
            decreases events@.len(),
        {
            let ghost before = events@;
            match events.next() {
                Some(event) => {
                    let (button, pressed) = match event {
                        ButtonEvent::Pressed(button) => (button, true),
                        ButtonEvent::Released(button) => (button, false),
                    };
                    let ghost rest = routed(self.codes@, events@);
                    assert(events@ == before.drop_first());
                    match self.codes[button_index(button)] {
                        Some(code) => {
                            assert(routed(self.codes@, before) == seq![(code, pressed)] + rest);
                            out.push((code, pressed));
                            assert(out@ + rest =~= routed(self.codes@, all_events));
                        },
                        None => {},
                    }
                },
                None => {
                    break ;
                },
            }
        }
        Ok(out)
    }
}


broadcast use vstd::string::group_string_axioms;

/// The characters of `s`, in order.
fn chars_of(s: &str) -> (v: Vec<char>)
    ensures
        v@ == s@,
{
    let mut v: Vec<char> = Vec::new();
    for c in it: s.chars()
        invariant
            v@.len() == it.index(),
            forall|j: int| 0 <= j < v@.len() ==> v@[j] == it.seq()[j],
    {
        v.push(c);
    }
    v
}


/// Whether `c` is white space as Unicode defines it (the `White_Space`
/// property), which is what `str::trim` strips.
pub open spec fn is_white_space(c: char) -> bool {
    let u = c as u32;
    (0x09 <= u <= 0x0d) || u == 0x20 || u == 0x85 || u == 0xa0 || u == 0x1680 || (0x2000 <= u
        <= 0x200a) || u == 0x2028 || u == 0x2029 || u == 0x202f || u == 0x205f || u == 0x3000
}

fn white_space(c: char) -> (r: bool)
    ensures
        r == is_white_space(c),
{
    let u = c as u32;
    (0x09 <= u && u <= 0x0d) || u == 0x20 || u == 0x85 || u == 0xa0 || u == 0x1680 || (0x2000
        <= u && u <= 0x200a) || u == 0x2028 || u == 0x2029 || u == 0x202f || u == 0x205f || u
        == 0x3000
}

/// `s` without its leading and trailing white space.
pub open spec fn trimmed(s: Seq<char>) -> Seq<char>
    decreases s.len(),
{
    if s.len() > 0 && is_white_space(s[0]) {
        trimmed(s.drop_first())
    } else if s.len() > 0 && is_white_space(s.last()) {
        trimmed(s.drop_last())
    } else {
        s
    }
}

/// The key `HID_ID=` starts at position `i` of `s`.
pub open spec fn hid_id_key_at(s: Seq<char>, i: int) -> bool {
    &&& 0 <= i
    &&& i + 7 <= s.len()
    &&& s[i] == 'H'
    &&& s[i + 1] == 'I'
    &&& s[i + 2] == 'D'
    &&& s[i + 3] == '_'
    &&& s[i + 4] == 'I'
    &&& s[i + 5] == 'D'
    &&& s[i + 6] == '='
}

/// The end of the line that position `i` is in: the position of the next `\n`,
/// or the end of `s`.
pub open spec fn line_end(s: Seq<char>, i: int) -> int
    decreases s.len() - i,
{
    if i >= s.len() || s[i] == '\n' {
        i
    } else {
        line_end(s, i + 1)
    }
}

/// The rest of the first line at or after position `i` that starts with
/// `HID_ID=`, after that key; `line_start` tells whether `i` starts a line.
pub open spec fn hid_id_value_from(s: Seq<char>, i: int, line_start: bool) -> Option<Seq<char>>
    decreases s.len() - i,
{
    if i >= s.len() {
        None
    } else if line_start && hid_id_key_at(s, i) {
        Some(s.subrange(i + 7, line_end(s, i + 7)))
    } else {
        hid_id_value_from(s, i + 1, s[i] == '\n')
    }
}

/// Position of the first `:` at or after position `i` of `s`.
pub open spec fn colon_from(s: Seq<char>, i: int) -> Option<int>
    decreases s.len() - i,
{
    if i >= s.len() {
        None
    } else if s[i] == ':' {
        Some(i)
    } else {
        colon_from(s, i + 1)
    }
}

/// Whether `c` is a hexadecimal digit.
pub open spec fn is_hex_digit(c: char) -> bool {
    ('0' <= c <= '9') || ('a' <= c <= 'f') || ('A' <= c <= 'F')
}

/// The value of the hexadecimal digit `c`.
pub open spec fn hex_digit_value(c: char) -> nat {
    if '0' <= c <= '9' {
        (c as u32 - '0' as u32) as nat
    } else if 'a' <= c <= 'f' {
        (c as u32 - 'a' as u32 + 10) as nat
    } else if 'A' <= c <= 'F' {
        (c as u32 - 'A' as u32 + 10) as nat
    } else {
        0
    }
}

/// The number that the hexadecimal digits `d` write.
pub open spec fn hex_value(d: Seq<char>) -> nat
    decreases d.len(),
{
    if d.len() == 0 {
        0
    } else {
        hex_value(d.drop_last()) * 16 + hex_digit_value(d.last())
    }
}

/// The digits of a number field: the field without a leading `+`.
pub open spec fn digits_of(field: Seq<char>) -> Seq<char> {
    if field.len() > 0 && field[0] == '+' {
        field.drop_first()
    } else {
        field
    }
}

/// Every character of `d` is a hexadecimal digit.
pub open spec fn all_hex_digits(d: Seq<char>) -> bool {
    forall|i: int| 0 <= i < d.len() ==> is_hex_digit(#[trigger] d[i])
}

/// What `u16::from_str_radix(field, 16)` accepts: an optional `+` and at least one
/// hexadecimal digit, whose value fits in 16 bits.
pub open spec fn hex_u16(field: Seq<char>) -> Option<u16> {
    let digits = digits_of(field);
    if digits.len() > 0 && all_hex_digits(digits) && hex_value(digits) <= 0xffff {
        Some(hex_value(digits) as u16)
    } else {
        None
    }
}

/// Vendor and product of an `HID_ID` value: exactly three `:` separated fields
/// (bus, vendor, product), the last two hexadecimal.
pub open spec fn ids_of_value(value: Seq<char>) -> Option<(u16, u16)> {
    match colon_from(value, 0) {
        None => None,
        Some(a) => match colon_from(value, a + 1) {
            None => None,
            Some(b) => if colon_from(value, b + 1) is Some {
                None
            } else {
                match (hex_u16(value.subrange(a + 1, b)), hex_u16(value.subrange(b + 1, value.len() as int))) {
                    (Some(vendor), Some(product)) => Some((vendor, product)),
                    _ => None,
                }
            },
        },
    }
}

/// Vendor and product ID that the `HID_ID` line of a hidraw `uevent` file states:
/// the first line that starts with `HID_ID=`, its value trimmed of white space.
pub open spec fn hid_id(uevent: Seq<char>) -> Option<(u16, u16)> {
    match hid_id_value_from(uevent, 0, true) {
        None => None,
        Some(value) => ids_of_value(trimmed(value)),
    }
}


/// Bounds of the value of the first `HID_ID=` line of `s`.
fn find_hid_id_value(s: &Vec<char>) -> (r: Option<(usize, usize)>)
    ensures
        r matches Some((a, b)) ==> a <= b <= s@.len() && hid_id_value_from(s@, 0, true) == Some(
            s@.subrange(a as int, b as int),
        ),
        r is None ==> hid_id_value_from(s@, 0, true) is None,
{
    let mut i: usize = 0;
    let mut line_start = true;
    while i < s.len()
        invariant
            i <= s@.len(),
            hid_id_value_from(s@, 0, true) == hid_id_value_from(s@, i as int, line_start),
        decreases s@.len() - i,
    {
        if line_start && s.len() - i >= 7 && s[i] == 'H' && s[i + 1] == 'I' && s[i + 2] == 'D' && s[i
            + 3] == '_' && s[i + 4] == 'I' && s[i + 5] == 'D' && s[i + 6] == '=' {
            let start = i + 7;
            let mut end = start;
            while end < s.len() && s[end] != '\n'
                invariant
                    start <= end <= s@.len(),
                    line_end(s@, start as int) == line_end(s@, end as int),
                decreases s@.len() - end,
            {
                end = end + 1;
            }
            return Some((start, end));
        }
        line_start = s[i] == '\n';
        i = i + 1;
    }
    None
}

/// Bounds of `s[lo..hi]` without its leading and trailing white space.
fn trim_bounds(s: &Vec<char>, lo: usize, hi: usize) -> (r: (usize, usize))
    requires
        lo <= hi <= s@.len(),
    ensures
        lo <= r.0 <= r.1 <= hi,
        trimmed(s@.subrange(lo as int, hi as int)) == s@.subrange(r.0 as int, r.1 as int),
{
    let mut a = lo;
    while a < hi && white_space(s[a])
        invariant
            lo <= a <= hi <= s@.len(),
            trimmed(s@.subrange(lo as int, hi as int)) == trimmed(s@.subrange(a as int, hi as int)),
        decreases hi - a,
    {
        assert(s@.subrange(a as int, hi as int).drop_first() =~= s@.subrange(a + 1, hi as int));
        a = a + 1;
    }
    let mut b = hi;
    while b > a && white_space(s[b - 1])
        invariant
            lo <= a <= b <= hi <= s@.len(),
            a < b ==> !is_white_space(s@[a as int]),
            trimmed(s@.subrange(lo as int, hi as int)) == trimmed(s@.subrange(a as int, b as int)),
        decreases b - a,
    {
        assert(s@.subrange(a as int, b as int).drop_last() =~= s@.subrange(a as int, b - 1));
        b = b - 1;
    }
    (a, b)
}

/// Position of the first `:` at or after position `i` of `s`.
fn find_colon(s: &Vec<char>, i: usize) -> (r: Option<usize>)
    ensures
        r matches Some(k) ==> i <= k < s@.len() && colon_from(s@, i as int) == Some(k as int),
        r is None ==> colon_from(s@, i as int) is None,
{
    let mut k = i;
    while k < s.len()
        invariant
            i <= k,
            colon_from(s@, i as int) == colon_from(s@, k as int),
        decreases s@.len() - k,
    {
        if s[k] == ':' {
            return Some(k);
        }
        k = k + 1;
    }
    None
}

/// Digits that run on past a value stay above it.
proof fn lemma_hex_value_prefix(d: Seq<char>, k: int)
    requires
        0 <= k <= d.len(),
    ensures
        hex_value(d.take(k)) <= hex_value(d),
    decreases d.len(),
{
    if k < d.len() {
        lemma_hex_value_prefix(d.drop_last(), k);
        assert(d.drop_last().take(k) =~= d.take(k));
    } else {
        assert(d.take(k) =~= d);
    }
}

/// The value of the hexadecimal digit `c`, if it is one.
fn hex_digit(c: char) -> (r: Option<u32>)
    ensures
        r matches Some(v) ==> is_hex_digit(c) && v == hex_digit_value(c) && v < 16,
        r is None ==> !is_hex_digit(c),
{
    if '0' <= c && c <= '9' {
        Some(c as u32 - '0' as u32)
    } else if 'a' <= c && c <= 'f' {
        Some(c as u32 - 'a' as u32 + 10)
    } else if 'A' <= c && c <= 'F' {
        Some(c as u32 - 'A' as u32 + 10)
    } else {
        None
    }
}

/// Parses `s[lo..hi]` as `u16::from_str_radix(.., 16)` does.
fn parse_hex_u16(s: &Vec<char>, lo: usize, hi: usize) -> (r: Option<u16>)
    requires
        lo <= hi <= s@.len(),
    ensures
        r == hex_u16(s@.subrange(lo as int, hi as int)),
{
    let ghost field = s@.subrange(lo as int, hi as int);
    let start = if lo < hi && s[lo] == '+' {
        lo + 1
    } else {
        lo
    };
    let ghost digits = s@.subrange(start as int, hi as int);
    assert(digits =~= digits_of(field));
    if start == hi {
        return None;
    }
    let mut value: u32 = 0;
    let mut k = start;
    while k < hi
        invariant
            lo <= start <= k <= hi <= s@.len(),
            start < hi,
            field == s@.subrange(lo as int, hi as int),
            digits == s@.subrange(start as int, hi as int),
            digits == digits_of(field),
            value <= 0xffff,
            value == hex_value(s@.subrange(start as int, k as int)),
            forall|j: int| start <= j < k ==> is_hex_digit(#[trigger] s@[j]),
        decreases hi - k,
    {
        let d = match hex_digit(s[k]) {
            Some(d) => d,
            None => {
                assert(digits[k - start] == s@[k as int]);
                assert(!is_hex_digit(digits[k - start]));
                return None;
            },
        };
        let ghost before = s@.subrange(start as int, k as int);
        let ghost after = s@.subrange(start as int, k + 1);
        assert(after.drop_last() =~= before);
        assert(after.last() == s@[k as int]);
        assert(hex_value(after) == hex_value(before) * 16 + hex_digit_value(s@[k as int]));
        value = value * 16 + d;
        k = k + 1;
        assert(value == hex_value(s@.subrange(start as int, k as int)));
        if value > 0xffff {
            proof {
                assert(digits.take(k - start) =~= s@.subrange(start as int, k as int));
                if all_hex_digits(digits) {
                    lemma_hex_value_prefix(digits, k - start);
                }
            }
            return None;
        }
    }
    assert(s@.subrange(start as int, k as int) =~= digits);
    assert(all_hex_digits(digits)) by {
        assert forall|i: int| 0 <= i < digits.len() implies is_hex_digit(#[trigger] digits[i]) by {
            assert(digits[i] == s@[start + i]);
        }
    }
    Some(value as u16)
}

/// Parses the `HID_ID` line of a hidraw `uevent` file.
///
/// The value has the form `bus:vendor:product`, with every field as 8 hexadecimal
/// digits, for example `0003:000004B4:00002412`.
pub fn parse_hid_id(uevent: &str) -> (r: Option<(u16, u16)>)
    ensures
        r == hid_id(uevent@),
{
    let chars = chars_of(uevent);
    let (start, end) = match find_hid_id_value(&chars) {
        Some(bounds) => bounds,
        None => return None,
    };
    let (lo, hi) = trim_bounds(&chars, start, end);
    let value = vstd::slice::slice_to_vec(vstd::slice::slice_subrange(chars.as_slice(), lo, hi));
    let a = match find_colon(&value, 0) {
        Some(a) => a,
        None => return None,
    };
    let b = match find_colon(&value, a + 1) {
        Some(b) => b,
        None => return None,
    };
    if find_colon(&value, b + 1).is_some() {
        return None;
    }
    let vendor = match parse_hex_u16(&value, a + 1, b) {
        Some(v) => v,
        None => return None,
    };
    let product = match parse_hex_u16(&value, b + 1, value.len()) {
        Some(p) => p,
        None => return None,
    };
    Some((vendor, product))
}

/// The value of a hexadecimal digit character, written out by ranges.
pub open spec fn digit_value_by_range(c: char) -> int {
    if '0' <= c <= '9' {
        c as int - 0x30
    } else if 'a' <= c <= 'f' {
        c as int - 0x61 + 10
    } else {
        c as int - 0x41 + 10
    }
}

/// A hexadecimal digit character: `0`-`9`, `a`-`f` or `A`-`F`.
pub open spec fn in_hex_ranges(c: char) -> bool {
    ('0' <= c <= '9') || ('a' <= c <= 'f') || ('A' <= c <= 'F')
}

/// Law: each of `0`-`9`, `a`-`f`, `A`-`F` alone is a number field with its usual
/// value (`0`-`9` are 0-9, the letters 10-15), as `u16::from_str_radix(.., 16)`
/// parses it.
pub proof fn lemma_single_digit_fields(c: char)
    ensures
        '0' <= c <= '9' ==> hex_u16(seq![c]) == Some((c as int - 0x30) as u16),
        'a' <= c <= 'f' ==> hex_u16(seq![c]) == Some((c as int - 0x61 + 10) as u16),
        'A' <= c <= 'F' ==> hex_u16(seq![c]) == Some((c as int - 0x41 + 10) as u16),
        !in_hex_ranges(c) ==> hex_u16(seq![c]) is None,
{
    let s = seq![c];
    if c == '+' {
        assert(digits_of(s) =~= Seq::<char>::empty());
    } else {
        assert(digits_of(s) =~= s);
        assert(s.drop_last() =~= Seq::<char>::empty());
        assert(hex_value(s) == hex_value(s.drop_last()) * 16 + hex_digit_value(s.last()));
        assert(s.last() == c);
        if in_hex_ranges(c) {
            assert(all_hex_digits(s));
            assert(hex_value(s) == hex_digit_value(c));
            assert('0' as u32 == 0x30 && 'a' as u32 == 0x61 && 'A' as u32 == 0x41);
        } else {
            assert(!is_hex_digit(s[0]));
        }
    }
}

/// Law: appending a hexadecimal digit to a number field multiplies its value by
/// 16 and adds the digit's value, as long as the result fits in 16 bits; past
/// 16 bits the field is rejected.
pub proof fn lemma_append_digit(field: Seq<char>, c: char, value: u16)
    requires
        field.len() > 0,
        hex_u16(field) == Some(value),
        in_hex_ranges(c),
    ensures
        value * 16 + digit_value_by_range(c) <= 0xffff ==> hex_u16(field.push(c)) == Some(
            (value * 16 + digit_value_by_range(c)) as u16,
        ),
        value * 16 + digit_value_by_range(c) > 0xffff ==> hex_u16(field.push(c)) is None,
{
    let d = digits_of(field);
    let e = digits_of(field.push(c));
    assert(e =~= d.push(c)) by {
        if field[0] == '+' {
            assert(field.push(c).drop_first() =~= field.drop_first().push(c));
        }
    }
    assert(e.drop_last() =~= d);
    assert(e.last() == c);
    assert(all_hex_digits(e)) by {
        assert forall|i: int| 0 <= i < e.len() implies is_hex_digit(#[trigger] e[i]) by {
            if i < d.len() {
                assert(e[i] == d[i]);
            }
        }
    }
}

/// Law: a `HID_ID` line with one-digit vendor and product fields gives those
/// digits' values, for every pair of hexadecimal digits and any bus character.
pub proof fn lemma_hid_id_single_digits(bus: char, v: char, p: char)
    requires
        bus != ':',
        bus != '\n',
        !is_white_space(bus),
        in_hex_ranges(v),
        in_hex_ranges(p),
    ensures
        hid_id(seq!['H', 'I', 'D', '_', 'I', 'D', '=', bus, ':', v, ':', p]) == Some(
            (digit_value_by_range(v) as u16, digit_value_by_range(p) as u16),
        ),
{
    let s = seq!['H', 'I', 'D', '_', 'I', 'D', '=', bus, ':', v, ':', p];
    let value = seq![bus, ':', v, ':', p];
    assert(hid_id_key_at(s, 0));
    assert(line_end(s, 7) == 12) by {
        assert(line_end(s, 12) == 12);
        assert(line_end(s, 11) == 12);
        assert(line_end(s, 10) == 12);
        assert(line_end(s, 9) == 12);
        assert(line_end(s, 8) == 12);
    }
    assert(s.subrange(7, 12) =~= value);
    assert(hid_id_value_from(s, 0, true) == Some(value));
    assert(!is_white_space(value[0]));
    assert(!is_white_space(value.last()));
    assert(trimmed(value) == value);
    assert(colon_from(value, 0) == Some(1int)) by {
        assert(colon_from(value, 1) == Some(1int));
    }
    assert(colon_from(value, 2) == Some(3int)) by {
        assert(colon_from(value, 3) == Some(3int));
    }
    assert(colon_from(value, 4) is None) by {
        assert(colon_from(value, 5) is None);
    }
    assert(value.subrange(2, 3) =~= seq![v]);
    assert(value.subrange(4, 5) =~= seq![p]);
    lemma_single_digit_fields(v);
    lemma_single_digit_fields(p);
}

} // verus!
