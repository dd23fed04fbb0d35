//! The worker's UI input: messages as UI events.

use vstd::prelude::*;

use crate::wasm::messages;
use crate::wasm::messages::{InputMessage, InputView, Real};

verus! {

/// Which modifier keys are held.
#[derive(Copy, Clone, Debug, PartialEq, Eq, Structural)]
pub struct Modifiers {
    pub alt: bool,
    pub ctrl: bool,
    pub shift: bool,
    pub mac_cmd: bool,
    /// Ctrl or Meta, whichever the platform uses for shortcuts.
    pub command: bool,
}

/// A UI event. `button` and `key` are the UI's own codes.
pub enum UiEvent {
    PointerMoved { x: Real, y: Real },
    PointerButton { x: Real, y: Real, button: u32, pressed: bool, modifiers: Modifiers },
    /// Wheel motion in lines; positive is left and up.
    MouseWheel { dx: Real, dy: Real, modifiers: Modifiers },
    Key { key: u32, pressed: bool, repeat: bool, modifiers: Modifiers },
    Text(String),
    WindowFocused(bool),
}

/// A `UiEvent` over plain values.
pub enum UiEventView {
    PointerMoved { x: Real, y: Real },
    PointerButton { x: Real, y: Real, button: u32, pressed: bool, modifiers: Modifiers },
    MouseWheel { dx: Real, dy: Real, modifiers: Modifiers },
    Key { key: u32, pressed: bool, repeat: bool, modifiers: Modifiers },
    Text(Seq<char>),
    WindowFocused(bool),
}

impl View for UiEvent {
    type V = UiEventView;

    open spec fn view(&self) -> UiEventView {
        match *self {
            UiEvent::PointerMoved { x, y } => UiEventView::PointerMoved { x, y },
            UiEvent::PointerButton { x, y, button, pressed, modifiers } =>
                UiEventView::PointerButton { x, y, button, pressed, modifiers },
            UiEvent::MouseWheel { dx, dy, modifiers } => UiEventView::MouseWheel {
                dx,
                dy,
                modifiers,
            },
            UiEvent::Key { key, pressed, repeat, modifiers } => UiEventView::Key {
                key,
                pressed,
                repeat,
                modifiers,
            },
            UiEvent::Text(s) => UiEventView::Text(s@),
            UiEvent::WindowFocused(b) => UiEventView::WindowFocused(b),
        }
    }
}

pub open spec fn event_views(s: Seq<UiEvent>) -> Seq<UiEventView> {
    s.map_values(|e: UiEvent| e@)
}

/// The float with the other sign.
pub open spec fn negated(r: Real) -> Real {
    Real {
        bits: if r.bits < 0x8000_0000 {
            (r.bits + 0x8000_0000) as u32
        } else {
            (r.bits - 0x8000_0000) as u32
        },
    }
}

fn negate(r: Real) -> (n: Real)
    ensures
        n == negated(r),
{
    Real {
        bits: if r.bits < 0x8000_0000 {
            r.bits + 0x8000_0000
        } else {
            r.bits - 0x8000_0000
        },
    }
}

/// Is this a control character?
pub open spec fn is_control(c: char) -> bool {
    (c as u32) < 0x20 || 0x7f <= (c as u32) <= 0x9f
}

/// Is a key press text? It is if it came without Ctrl, Alt or Meta and the logical key is a
/// single character that is no control character; names such as `ArrowUp` are longer.
pub open spec fn types_text(key: Seq<char>, pressed: bool, ctrl: bool, alt: bool, meta: bool) -> bool {
    pressed && !ctrl && !alt && !meta && key.len() == 1 && !is_control(key[0])
}

/// The modifiers after a message: a key message says which are held.
pub open spec fn modifiers_after(before: Modifiers, m: InputView) -> Modifiers {
    match m {
        InputView::Key { ctrl, shift, alt, meta, .. } => Modifiers {
            alt,
            ctrl,
            shift,
            mac_cmd: meta,
            command: ctrl || meta,
        },
        _ => before,
    }
}

/// The UI events that a message stands for. `button` and `key` are the UI's codes for the
/// message's button or physical key, where it has one.
pub open spec fn ui_events(
    before: Modifiers,
    m: InputView,
    button: Option<u32>,
    key: Option<u32>,
) -> Seq<UiEventView> {
    match m {
        InputView::MouseMove { x, y, .. } => seq![UiEventView::PointerMoved { x, y }],
        InputView::MouseButton { x, y, pressed, .. } => match button {
            Some(button) => seq![
                UiEventView::PointerButton { x, y, button, pressed, modifiers: before },
            ],
            None => seq![],
        },
        InputView::MouseWheel { dx, dy } => seq![
            UiEventView::MouseWheel { dx: negated(dx), dy: negated(dy), modifiers: before },
        ],
        InputView::Key { key: typed, pressed, repeat, ctrl, alt, meta, .. } => (match key {
            Some(key) => seq![
                UiEventView::Key { key, pressed, repeat, modifiers: modifiers_after(before, m) },
            ],
            None => seq![],
        }) + (if types_text(typed, pressed, ctrl, alt, meta) {
            seq![UiEventView::Text(typed)]
        } else {
            seq![]
        }),
        InputView::Focus(b) => seq![UiEventView::WindowFocused(b)],
        _ => seq![],
    }
}

/// Collects the UI's input between two frames, and keeps the canvas that it is drawn on.
pub struct WorkerUi {
    pub events: Vec<UiEvent>,
    pub modifiers: Modifiers,
    pub width_px: u32,
    pub height_px: u32,
    /// The UI lays out in points, the canvas is in pixels.
    pub pixels_per_point: Real,
    /// Did the UI want pointer or keyboard in the last frame? The app then leaves them
    /// alone.
    pub wants_input: bool,
}

impl WorkerUi {
    /// No input yet, on a canvas of this size.
    pub fn new(width_px: u32, height_px: u32, pixels_per_point: Real) -> (r: WorkerUi)
        ensures
            event_views(r.events@) == Seq::<UiEventView>::empty(),
            r.width_px == width_px,
            r.height_px == height_px,
            r.pixels_per_point == pixels_per_point,
            r.modifiers == (Modifiers {
                alt: false,
                ctrl: false,
                shift: false,
                mac_cmd: false,
                command: false,
            }),
            !r.wants_input,
    {
        let r = WorkerUi {
            events: Vec::new(),
            modifiers: Modifiers {
                alt: false,
                ctrl: false,
                shift: false,
                mac_cmd: false,
                command: false,
            },
            width_px,
            height_px,
            pixels_per_point,
            wants_input: false,
        };
        assert(event_views(r.events@) =~= Seq::empty());
        r
    }

    fn push(&mut self, e: UiEvent)
        ensures
            event_views(final(self).events@) == event_views(old(self).events@).push(e@),
            *final(self) == (WorkerUi { events: final(self).events, ..*old(self) }),
    {
        self.events.push(e);
        assert(event_views(self.events@) =~= event_views(old(self).events@).push(e@));
    }

    /// Turn a message into UI events.
    pub fn record_input(&mut self, msg: &InputMessage, button: Option<u32>, key: Option<u32>)
        ensures
            event_views(final(self).events@) == event_views(old(self).events@) + ui_events(
                old(self).modifiers,
                msg@,
                button,
                key,
            ),
            *final(self) == (WorkerUi {
                events: final(self).events,
                modifiers: modifiers_after(old(self).modifiers, msg@),
                ..*old(self)
            }),
    {
        let ghost all = event_views(self.events@) + ui_events(self.modifiers, msg@, button, key);
        match msg {
            InputMessage::MouseMove { x, y, .. } => {
                self.push(UiEvent::PointerMoved { x: *x, y: *y });
            },
            InputMessage::MouseButton { x, y, pressed, .. } => {
                if let Some(button) = button {
                    let modifiers = self.modifiers;
                    self.push(
                        UiEvent::PointerButton {
                            x: *x,
                            y: *y,
                            button,
                            pressed: *pressed,
                            modifiers,
                        },
                    );
                }
            },
            InputMessage::MouseWheel { dx, dy } => {
                let modifiers = self.modifiers;
                self.push(
                    UiEvent::MouseWheel { dx: negate(*dx), dy: negate(*dy), modifiers },
                );
            },
            InputMessage::Key { key: typed, pressed, repeat, ctrl, shift, alt, meta, .. } => {
                let modifiers = Modifiers {
                    alt: *alt,
                    ctrl: *ctrl,
                    shift: *shift,
                    mac_cmd: *meta,
                    command: *ctrl || *meta,
                };
                self.modifiers = modifiers;
                if let Some(key) = key {
                    self.push(
                        UiEvent::Key { key, pressed: *pressed, repeat: *repeat, modifiers },
                    );
                }
                if *pressed && !*ctrl && !*alt && !*meta && typed.as_str().unicode_len() == 1 {
                    let c: u32 = typed.as_str().get_char(0) as u32;
                    if !(c < 0x20 || (0x7f <= c && c <= 0x9f)) {
                        self.push(UiEvent::Text(typed.as_str().to_owned()));
                    }
                }
            },
            InputMessage::Focus(focused) => {
                self.push(UiEvent::WindowFocused(*focused));
            },
            _ => {},
        }
        assert(event_views(self.events@) =~= all);
    }

    /// Take the events collected so far into a frame.
    pub fn begin_frame(&mut self) -> (r: Vec<UiEvent>)
        ensures
            event_views(r@) == event_views(old(self).events@),
            event_views(final(self).events@) == Seq::<UiEventView>::empty(),
            *final(self) == (WorkerUi { events: final(self).events, ..*old(self) }),
    {
        let mut out: Vec<UiEvent> = Vec::new();
        std::mem::swap(&mut out, &mut self.events);
        assert(event_views(self.events@) =~= Seq::empty());
        out
    }

    /// Note whether the UI wanted pointer or keyboard in the frame just drawn.
    pub fn end_frame(&mut self, wants_pointer: bool, wants_keyboard: bool)
        ensures
            *final(self) == (WorkerUi {
                wants_input: wants_pointer || wants_keyboard,
                ..*old(self)
            }),
    {
        self.wants_input = wants_pointer || wants_keyboard;
    }

    /// The canvas has another size. Input that waits for a frame is kept.
    pub fn resize(&mut self, width: u32, height: u32, dpr: Real)
        ensures
            *final(self) == (WorkerUi {
                width_px: width,
                height_px: height,
                pixels_per_point: dpr,
                ..*old(self)
            }),
    {
        self.width_px = width;
        self.height_px = height;
        self.pixels_per_point = dpr;
    }
}

// ---------------------------------------------------------------------------
// Laws
// ---------------------------------------------------------------------------

/// Turning the sign twice gives the number back.
pub proof fn negation_undoes_itself(r: Real)
    ensures
        negated(negated(r)) == r,
{
}

/// Shortcuts do not type: a key with Ctrl, Alt or Meta held is no text, and neither is the
/// release of a key.
pub proof fn shortcuts_do_not_type(
    before: Modifiers,
    m: InputView,
    button: Option<u32>,
    key: Option<u32>,
)
    requires
        m is Key,
        m->Key_ctrl || m->Key_alt || m->Key_meta || !m->Key_pressed,
    ensures
        forall|i: int|
            0 <= i < ui_events(before, m, button, key).len() ==> (#[trigger] ui_events(
                before,
                m,
                button,
                key,
            )[i]) is Key,
{
}

/// Are these the events of a message, with these modifiers held before and after it?
pub open spec fn input_is_seen(
    held: Modifiers,
    m: InputView,
    button: Option<u32>,
    key: Option<u32>,
    holds: Modifiers,
    new: Seq<UiEventView>,
) -> bool {
    &&& m matches InputView::MouseMove { x, y, .. } ==> new == seq![
        UiEventView::PointerMoved { x, y },
    ]
    &&& m matches InputView::MouseButton { x, y, pressed, .. } ==> (match button {
        Some(b) => new.len() == 1 && new[0] == (UiEventView::PointerButton {
            x,
            y,
            button: b,
            pressed,
            modifiers: held,
        }),
        None => new.len() == 0,
    })
    &&& m matches InputView::MouseWheel { dx, dy } ==> new.len() == 1 && new[0] is MouseWheel
        && is_opposite(new[0]->dx, dx) && is_opposite(new[0]->dy, dy)
        && new[0]->MouseWheel_modifiers == held
    &&& m matches InputView::Key { key: typed, pressed, repeat, ctrl, shift, alt, meta, .. } ==> {
        let keys: int = if key is Some {
            1
        } else {
            0
        };
        let types = pressed && !ctrl && !alt && !meta && typed.len() == 1 && typed[0] as u32 >= 0x20
            && !(0x7f <= typed[0] as u32 <= 0x9f);
        &&& holds.ctrl == ctrl && holds.shift == shift && holds.alt == alt && holds.mac_cmd == meta
            && holds.command == (ctrl || meta)
        &&& key is Some ==> new.len() > 0 && new[0] == (UiEventView::Key {
            key: key->0,
            pressed,
            repeat,
            modifiers: holds,
        })
        &&& types ==> new.len() == keys + 1 && new[keys] == UiEventView::Text(typed)
        &&& !types ==> new.len() == keys
    }
    &&& m matches InputView::Focus(b) ==> new == seq![UiEventView::WindowFocused(b)]
    &&& m is Resize || m is Visibility || m is PointerLockChanged || m is Start ==> new.len() == 0
    &&& !(m is Key) ==> holds == held
}

/// The UI sees what the user does: each move at its place, each button, down or up, at its
/// place and with its modifiers, the wheel turned the other way round, each key, down or up,
/// with the modifiers that came with it, and the text that it types; and a change of focus.
/// Messages that are none of the UI's business leave no event.
pub proof fn ui_sees_what_the_user_does()
    ensures
        forall|ui: &mut WorkerUi, msg: &InputMessage, button: Option<u32>, key: Option<u32>, u: ()|
            #[trigger]
            call_ensures(WorkerUi::record_input, (ui, msg, button, key), u) ==> {
                let before = event_views((*ui).events@);
                let after = event_views((*final(ui)).events@);
                &&& before.is_prefix_of(after)
                &&& input_is_seen(
                    (*ui).modifiers,
                    msg@,
                    button,
                    key,
                    (*final(ui)).modifiers,
                    after.skip(before.len() as int),
                )
                &&& (*final(ui)).wants_input == (*ui).wants_input
                &&& (*final(ui)).width_px == (*ui).width_px && (*final(ui)).height_px
                    == (*ui).height_px
            },
{
    assert forall|
        ui: &mut WorkerUi,
        msg: &InputMessage,
        button: Option<u32>,
        key: Option<u32>,
        u: (),
    | #[trigger]
        call_ensures(WorkerUi::record_input, (ui, msg, button, key), u) implies {
        let before = event_views((*ui).events@);
        let after = event_views((*final(ui)).events@);
        &&& before.is_prefix_of(after)
        &&& input_is_seen(
            (*ui).modifiers,
            msg@,
            button,
            key,
            (*final(ui)).modifiers,
            after.skip(before.len() as int),
        )
        &&& (*final(ui)).wants_input == (*ui).wants_input
        &&& (*final(ui)).width_px == (*ui).width_px && (*final(ui)).height_px == (*ui).height_px
    } by {
        let before = event_views((*ui).events@);
        let after = event_views((*final(ui)).events@);
        assert(before =~= after.subrange(0, before.len() as int));
        assert(after.skip(before.len() as int) =~= ui_events((*ui).modifiers, msg@, button, key));
    }
}

/// Do the two differ in nothing but their sign?
pub open spec fn is_opposite(a: Real, b: Real) -> bool {
    a.bits == b.bits + 0x8000_0000 || b.bits == a.bits + 0x8000_0000
}

/// Every event reaches the UI in one frame, in order, and the next frame starts without it;
/// input is the UI's where it wants the pointer or the keyboard.
pub proof fn events_reach_one_frame()
    ensures
        forall|ui: &mut WorkerUi, r: Vec<UiEvent>| #[trigger]
            call_ensures(WorkerUi::begin_frame, (ui,), r) ==> event_views(r@) == event_views(
                (*ui).events@,
            ) && event_views((*final(ui)).events@).len() == 0 && (*final(ui)).modifiers
                == (*ui).modifiers,
        forall|ui: &mut WorkerUi, pointer: bool, keyboard: bool, u: ()| #[trigger]
            call_ensures(WorkerUi::end_frame, (ui, pointer, keyboard), u) ==> {
                &&& pointer ==> (*final(ui)).wants_input
                &&& keyboard ==> (*final(ui)).wants_input
                &&& !pointer && !keyboard ==> !(*final(ui)).wants_input
                &&& (*final(ui)).events == (*ui).events
            },
        forall|ui: &mut WorkerUi, width: u32, height: u32, dpr: Real, u: ()| #[trigger]
            call_ensures(WorkerUi::resize, (ui, width, height, dpr), u) ==> (
            *final(ui)).width_px == width && (*final(ui)).height_px == height && (
            *final(ui)).pixels_per_point == dpr && (*final(ui)).events == (*ui).events,
{
}

} // verus!
