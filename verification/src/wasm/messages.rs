//! The messages from the main thread to the worker.

use std::collections::VecDeque;

use vstd::prelude::*;

use crate::text::text_eq;

verus! {

// ---------------------------------------------------------------------------
// Posted objects
// ---------------------------------------------------------------------------

/// A 32-bit float, by its bits.
#[derive(Copy, Clone, Debug, PartialEq, Eq, Structural)]
pub struct Real {
    pub bits: u32,
}

/// A posted object, by what its fields read as. A field that is missing, or of another
/// type, is not listed.
pub struct Posted {
    pub kind: Option<String>,
    pub texts: Vec<(String, String)>,
    pub flags: Vec<(String, bool)>,
    pub wholes: Vec<(String, u32)>,
    pub reals: Vec<(String, Real)>,
}

/// A `Posted` over plain values.
#[verifier::ext_equal]
pub struct PostedView {
    pub kind: Option<Seq<char>>,
    pub texts: Seq<(Seq<char>, Seq<char>)>,
    pub flags: Seq<(Seq<char>, bool)>,
    pub wholes: Seq<(Seq<char>, u32)>,
    pub reals: Seq<(Seq<char>, Real)>,
}

/// Named fields by the characters of their names.
pub open spec fn named<T>(s: Seq<(String, T)>) -> Seq<(Seq<char>, T)> {
    s.map_values(|p: (String, T)| (p.0@, p.1))
}

/// Named texts by their characters.
pub open spec fn named_texts(s: Seq<(String, String)>) -> Seq<(Seq<char>, Seq<char>)> {
    s.map_values(|p: (String, String)| (p.0@, p.1@))
}

impl View for Posted {
    type V = PostedView;

    open spec fn view(&self) -> PostedView {
        PostedView {
            kind: match self.kind {
                Some(k) => Some(k@),
                None => None,
            },
            texts: named_texts(self.texts@),
            flags: named(self.flags@),
            wholes: named(self.wholes@),
            reals: named(self.reals@),
        }
    }
}

/// What a field reads as; of several with one name the last.
pub open spec fn field<T>(s: Seq<(Seq<char>, T)>, key: Seq<char>) -> Option<T>
    decreases s.len(),
{
    if s.len() == 0 {
        None
    } else if s.last().0 == key {
        Some(s.last().1)
    } else {
        field(s.drop_last(), key)
    }
}

/// What a field reads as, or a default.
pub open spec fn field_or<T>(s: Seq<(Seq<char>, T)>, key: Seq<char>, default: T) -> T {
    match field(s, key) {
        Some(v) => v,
        None => default,
    }
}

/// Read a field, or take a default where it does not read.
pub fn read_field<T: Copy>(s: &Vec<(String, T)>, key: &str, default: T) -> (r: T)
    ensures
        r == field_or(named(s@), key@, default),
{
    let ghost all = named(s@);
    let mut i: usize = s.len();
    assert(all.take(i as int) =~= all);
    while i > 0
        invariant
            i <= s.len(),
            all == named(s@),
            field(all, key@) == field(all.take(i as int), key@),
        decreases i,
    {
        assert(all.take(i as int).last() == (s@[i - 1].0@, s@[i - 1].1));
        assert(all.take(i as int).drop_last() =~= all.take(i - 1));
        if text_eq(s[i - 1].0.as_str(), key) {
            return s[i - 1].1;
        }
        i -= 1;
    }
    default
}

fn read_text(s: &Vec<(String, String)>, key: &str) -> (r: String)
    ensures
        r@ == field_or(named_texts(s@), key@, Seq::empty()),
{
    let ghost all = named_texts(s@);
    let mut i: usize = s.len();
    assert(all.take(i as int) =~= all);
    while i > 0
        invariant
            i <= s.len(),
            all == named_texts(s@),
            field(all, key@) == field(all.take(i as int), key@),
        decreases i,
    {
        assert(all.take(i as int).last() == (s@[i - 1].0@, s@[i - 1].1@));
        assert(all.take(i as int).drop_last() =~= all.take(i - 1));
        if text_eq(s[i - 1].0.as_str(), key) {
            return s[i - 1].1.as_str().to_owned();
        }
        i -= 1;
    }
    let r = String::new();
    assert(r@ =~= Seq::empty());
    r
}

// ---------------------------------------------------------------------------
// Messages
// ---------------------------------------------------------------------------

/// Per-frame inputs the main thread forwards to the worker.
pub enum InputMessage {
    /// New canvas dimensions in physical pixels.
    Resize { width: u32, height: u32 },
    /// Pointer moved to a place in the canvas, by so much since the last such message.
    /// `buttons` is the bitmask of the buttons held.
    MouseMove { x: Real, y: Real, buttons: u8, dx: Real, dy: Real },
    /// Pointer button went down or up.
    MouseButton { x: Real, y: Real, button: u8, pressed: bool },
    /// Wheel motion in lines; positive is right and down.
    MouseWheel { dx: Real, dy: Real },
    /// Key went down or up. `code` is the physical key, `key` the logical one.
    Key {
        code: String,
        key: String,
        pressed: bool,
        repeat: bool,
        ctrl: bool,
        shift: bool,
        alt: bool,
        meta: bool,
    },
    /// Window focus changed.
    Focus(bool),
    /// Page visibility changed.
    Visibility(bool),
    /// The browser locked the pointer to the canvas, or released it.
    PointerLockChanged(bool),
    /// Begin the continuous frame loop.
    Start,
}

/// An `InputMessage` over plain values.
pub enum InputView {
    Resize { width: u32, height: u32 },
    MouseMove { x: Real, y: Real, buttons: u8, dx: Real, dy: Real },
    MouseButton { x: Real, y: Real, button: u8, pressed: bool },
    MouseWheel { dx: Real, dy: Real },
    Key {
        code: Seq<char>,
        key: Seq<char>,
        pressed: bool,
        repeat: bool,
        ctrl: bool,
        shift: bool,
        alt: bool,
        meta: bool,
    },
    Focus(bool),
    Visibility(bool),
    PointerLockChanged(bool),
    Start,
}

impl View for InputMessage {
    type V = InputView;

    open spec fn view(&self) -> InputView {
        match *self {
            InputMessage::Resize { width, height } => InputView::Resize { width, height },
            InputMessage::MouseMove { x, y, buttons, dx, dy } => InputView::MouseMove {
                x,
                y,
                buttons,
                dx,
                dy,
            },
            InputMessage::MouseButton { x, y, button, pressed } => InputView::MouseButton {
                x,
                y,
                button,
                pressed,
            },
            InputMessage::MouseWheel { dx, dy } => InputView::MouseWheel { dx, dy },
            InputMessage::Key { code, key, pressed, repeat, ctrl, shift, alt, meta } =>
                InputView::Key {
                code: code@,
                key: key@,
                pressed,
                repeat,
                ctrl,
                shift,
                alt,
                meta,
            },
            InputMessage::Focus(b) => InputView::Focus(b),
            InputMessage::Visibility(b) => InputView::Visibility(b),
            InputMessage::PointerLockChanged(b) => InputView::PointerLockChanged(b),
            InputMessage::Start => InputView::Start,
        }
    }
}

/// A posted object without a kind.
#[derive(Copy, Clone, Debug, PartialEq, Eq, Structural)]
pub struct MissingKind;

impl MissingKind {
    pub fn message(self) -> (r: &'static str)
        ensures
            r@ == "postMessage missing 'kind' field"@,
    {
        "postMessage missing 'kind' field"
    }
}

/// Zero.
pub open spec fn zero() -> Real {
    Real { bits: 0 }
}

/// The low byte of a number.
pub open spec fn low_byte(n: u32) -> u8 {
    (n % 256) as u8
}

/// The message that a posted object of kind `kind` is: fields that do not read count as
/// zero, false or empty. `None` for kinds that are handled elsewhere, and for unknown ones.
pub open spec fn message_of(kind: Seq<char>, p: PostedView) -> Option<InputView> {
    if kind == "resize"@ {
        Some(
            InputView::Resize {
                width: field_or(p.wholes, "width"@, 0),
                height: field_or(p.wholes, "height"@, 0),
            },
        )
    } else if kind == "mouse_move"@ {
        Some(
            InputView::MouseMove {
                x: field_or(p.reals, "x"@, zero()),
                y: field_or(p.reals, "y"@, zero()),
                buttons: low_byte(field_or(p.wholes, "buttons"@, 0)),
                dx: field_or(p.reals, "dx"@, zero()),
                dy: field_or(p.reals, "dy"@, zero()),
            },
        )
    } else if kind == "mouse_button"@ {
        Some(
            InputView::MouseButton {
                x: field_or(p.reals, "x"@, zero()),
                y: field_or(p.reals, "y"@, zero()),
                button: low_byte(field_or(p.wholes, "button"@, 0)),
                pressed: field_or(p.flags, "pressed"@, false),
            },
        )
    } else if kind == "mouse_wheel"@ {
        Some(
            InputView::MouseWheel {
                dx: field_or(p.reals, "dx"@, zero()),
                dy: field_or(p.reals, "dy"@, zero()),
            },
        )
    } else if kind == "key"@ {
        Some(
            InputView::Key {
                code: field_or(p.texts, "code"@, Seq::empty()),
                key: field_or(p.texts, "key"@, Seq::empty()),
                pressed: field_or(p.flags, "pressed"@, false),
                repeat: field_or(p.flags, "repeat"@, false),
                ctrl: field_or(p.flags, "ctrl"@, false),
                shift: field_or(p.flags, "shift"@, false),
                alt: field_or(p.flags, "alt"@, false),
                meta: field_or(p.flags, "meta"@, false),
            },
        )
    } else if kind == "focus"@ {
        Some(InputView::Focus(field_or(p.flags, "focused"@, false)))
    } else if kind == "visibility"@ {
        Some(InputView::Visibility(field_or(p.flags, "visible"@, false)))
    } else if kind == "pointer_lock_changed"@ {
        Some(InputView::PointerLockChanged(field_or(p.flags, "locked"@, false)))
    } else if kind == "start"@ {
        Some(InputView::Start)
    } else {
        None
    }
}

fn first_byte(n: u32) -> (r: u8)
    ensures
        r == low_byte(n),
{
    (n % 256) as u8
}

/// Parse a posted object. `Ok(None)` for the kind `init`, which the worker's entry handles,
/// and for kinds that are not known: those are dropped, not refused. Without a kind the
/// object is malformed.
pub fn parse_non_init(p: &Posted) -> (r: Result<Option<InputMessage>, MissingKind>)
    ensures
        r is Err <==> p@.kind is None,
        r is Ok ==> (match r->Ok_0 {
            Some(m) => message_of(p@.kind->0, p@) == Some(m@),
            None => message_of(p@.kind->0, p@) is None,
        }),
{
    let kind = match &p.kind {
        Some(k) => k.as_str(),
        None => {
            return Err(MissingKind);
        },
    };
    let zero = Real { bits: 0 };
    let m = if text_eq(kind, "resize") {
        InputMessage::Resize {
            width: read_field(&p.wholes, "width", 0u32),
            height: read_field(&p.wholes, "height", 0u32),
        }
    } else if text_eq(kind, "mouse_move") {
        InputMessage::MouseMove {
            x: read_field(&p.reals, "x", zero),
            y: read_field(&p.reals, "y", zero),
            buttons: first_byte(read_field(&p.wholes, "buttons", 0u32)),
            dx: read_field(&p.reals, "dx", zero),
            dy: read_field(&p.reals, "dy", zero),
        }
    } else if text_eq(kind, "mouse_button") {
        InputMessage::MouseButton {
            x: read_field(&p.reals, "x", zero),
            y: read_field(&p.reals, "y", zero),
            button: first_byte(read_field(&p.wholes, "button", 0u32)),
            pressed: read_field(&p.flags, "pressed", false),
        }
    } else if text_eq(kind, "mouse_wheel") {
        InputMessage::MouseWheel {
            dx: read_field(&p.reals, "dx", zero),
            dy: read_field(&p.reals, "dy", zero),
        }
    } else if text_eq(kind, "key") {
        InputMessage::Key {
            code: read_text(&p.texts, "code"),
            key: read_text(&p.texts, "key"),
            pressed: read_field(&p.flags, "pressed", false),
            repeat: read_field(&p.flags, "repeat", false),
            ctrl: read_field(&p.flags, "ctrl", false),
            shift: read_field(&p.flags, "shift", false),
            alt: read_field(&p.flags, "alt", false),
            meta: read_field(&p.flags, "meta", false),
        }
    } else if text_eq(kind, "focus") {
        InputMessage::Focus(read_field(&p.flags, "focused", false))
    } else if text_eq(kind, "visibility") {
        InputMessage::Visibility(read_field(&p.flags, "visible", false))
    } else if text_eq(kind, "pointer_lock_changed") {
        InputMessage::PointerLockChanged(read_field(&p.flags, "locked", false))
    } else if text_eq(kind, "start") {
        InputMessage::Start
    } else {
        return Ok(None);
    };
    Ok(Some(m))
}

// ---------------------------------------------------------------------------
// Building
// ---------------------------------------------------------------------------

/// The object that is posted for a message.
pub open spec fn posted(m: InputView) -> PostedView {
    let empty = PostedView {
        kind: None,
        texts: seq![],
        flags: seq![],
        wholes: seq![],
        reals: seq![],
    };
    match m {
        InputView::Resize { width, height } => PostedView {
            kind: Some("resize"@),
            wholes: seq![("width"@, width), ("height"@, height)],
            ..empty
        },
        InputView::MouseMove { x, y, buttons, dx, dy } => PostedView {
            kind: Some("mouse_move"@),
            wholes: seq![("buttons"@, buttons as u32)],
            reals: seq![("x"@, x), ("y"@, y), ("dx"@, dx), ("dy"@, dy)],
            ..empty
        },
        InputView::MouseButton { x, y, button, pressed } => PostedView {
            kind: Some("mouse_button"@),
            flags: seq![("pressed"@, pressed)],
            wholes: seq![("button"@, button as u32)],
            reals: seq![("x"@, x), ("y"@, y)],
            ..empty
        },
        InputView::MouseWheel { dx, dy } => PostedView {
            kind: Some("mouse_wheel"@),
            reals: seq![("dx"@, dx), ("dy"@, dy)],
            ..empty
        },
        InputView::Key { code, key, pressed, repeat, ctrl, shift, alt, meta } => PostedView {
            kind: Some("key"@),
            texts: seq![("code"@, code), ("key"@, key)],
            flags: seq![
                ("pressed"@, pressed),
                ("repeat"@, repeat),
                ("ctrl"@, ctrl),
                ("shift"@, shift),
                ("alt"@, alt),
                ("meta"@, meta),
            ],
            ..empty
        },
        InputView::Focus(b) => PostedView {
            kind: Some("focus"@),
            flags: seq![("focused"@, b)],
            ..empty
        },
        InputView::Visibility(b) => PostedView {
            kind: Some("visibility"@),
            flags: seq![("visible"@, b)],
            ..empty
        },
        InputView::PointerLockChanged(b) => PostedView {
            kind: Some("pointer_lock_changed"@),
            flags: seq![("locked"@, b)],
            ..empty
        },
        InputView::Start => PostedView { kind: Some("start"@), ..empty },
    }
}

impl Posted {
    /// An object of a kind, without further fields.
    pub fn of(kind: &str) -> (r: Posted)
        ensures
            r@ == (PostedView {
                kind: Some(kind@),
                texts: seq![],
                flags: seq![],
                wholes: seq![],
                reals: seq![],
            }),
    {
        let r = Posted {
            kind: Some(kind.to_owned()),
            texts: Vec::new(),
            flags: Vec::new(),
            wholes: Vec::new(),
            reals: Vec::new(),
        };
        assert(r@ =~= (PostedView {
            kind: Some(kind@),
            texts: seq![],
            flags: seq![],
            wholes: seq![],
            reals: seq![],
        }));
        r
    }

    pub fn set_u32(&mut self, key: &str, v: u32)
        ensures
            final(self)@ == (PostedView {
                wholes: old(self)@.wholes.push((key@, v)),
                ..old(self)@
            }),
    {
        self.wholes.push((key.to_owned(), v));
        assert(self@.wholes =~= old(self)@.wholes.push((key@, v)));
    }

    pub fn set_f32(&mut self, key: &str, v: Real)
        ensures
            final(self)@ == (PostedView {
                reals: old(self)@.reals.push((key@, v)),
                ..old(self)@
            }),
    {
        self.reals.push((key.to_owned(), v));
        assert(self@.reals =~= old(self)@.reals.push((key@, v)));
    }

    pub fn set_bool(&mut self, key: &str, v: bool)
        ensures
            final(self)@ == (PostedView {
                flags: old(self)@.flags.push((key@, v)),
                ..old(self)@
            }),
    {
        self.flags.push((key.to_owned(), v));
        assert(self@.flags =~= old(self)@.flags.push((key@, v)));
    }

    pub fn set_string(&mut self, key: &str, v: &str)
        ensures
            final(self)@ == (PostedView {
                texts: old(self)@.texts.push((key@, v@)),
                ..old(self)@
            }),
    {
        self.texts.push((key.to_owned(), v.to_owned()));
        assert(self@.texts =~= old(self)@.texts.push((key@, v@)));
    }
}

impl InputMessage {
    /// The object to post for this message.
    pub fn to_posted(&self) -> (r: Posted)
        ensures
            r@ == posted(self@),
    {
        let r = match self {
            InputMessage::Resize { width, height } => {
                let mut p = Posted::of("resize");
                p.set_u32("width", *width);
                p.set_u32("height", *height);
                p
            },
            InputMessage::MouseMove { x, y, buttons, dx, dy } => {
                let mut p = Posted::of("mouse_move");
                p.set_f32("x", *x);
                p.set_f32("y", *y);
                p.set_u32("buttons", *buttons as u32);
                p.set_f32("dx", *dx);
                p.set_f32("dy", *dy);
                p
            },
            InputMessage::MouseButton { x, y, button, pressed } => {
                let mut p = Posted::of("mouse_button");
                p.set_f32("x", *x);
                p.set_f32("y", *y);
                p.set_u32("button", *button as u32);
                p.set_bool("pressed", *pressed);
                p
            },
            InputMessage::MouseWheel { dx, dy } => {
                let mut p = Posted::of("mouse_wheel");
                p.set_f32("dx", *dx);
                p.set_f32("dy", *dy);
                p
            },
            InputMessage::Key { code, key, pressed, repeat, ctrl, shift, alt, meta } => {
                let mut p = Posted::of("key");
                p.set_string("code", code.as_str());
                p.set_string("key", key.as_str());
                p.set_bool("pressed", *pressed);
                p.set_bool("repeat", *repeat);
                p.set_bool("ctrl", *ctrl);
                p.set_bool("shift", *shift);
                p.set_bool("alt", *alt);
                p.set_bool("meta", *meta);
                p
            },
            InputMessage::Focus(b) => {
                let mut p = Posted::of("focus");
                p.set_bool("focused", *b);
                p
            },
            InputMessage::Visibility(b) => {
                let mut p = Posted::of("visibility");
                p.set_bool("visible", *b);
                p
            },
            InputMessage::PointerLockChanged(b) => {
                let mut p = Posted::of("pointer_lock_changed");
                p.set_bool("locked", *b);
                p
            },
            InputMessage::Start => Posted::of("start"),
        };
        assert(r@ =~= posted(self@));
        r
    }
}

// ---------------------------------------------------------------------------
// The queue
// ---------------------------------------------------------------------------

/// Messages that wait for the worker's next frame.
pub struct MessageQueue {
    pub queue: VecDeque<InputMessage>,
}

impl View for MessageQueue {
    type V = Seq<InputMessage>;

    open spec fn view(&self) -> Seq<InputMessage> {
        self.queue@
    }
}

impl MessageQueue {
    pub fn new() -> (r: MessageQueue)
        ensures
            r@ == Seq::<InputMessage>::empty(),
    {
        MessageQueue { queue: VecDeque::new() }
    }

    /// Append a message.
    pub fn enqueue(&mut self, msg: InputMessage)
        ensures
            final(self)@ == old(self)@.push(msg),
    {
        self.queue.push_back(msg);
    }

    /// Take all messages, in the order they came.
    pub fn drain_messages(&mut self) -> (r: Vec<InputMessage>)
        ensures
            r@ == old(self)@,
            final(self)@ == Seq::<InputMessage>::empty(),
    {
        let ghost all = self.queue@;
        let mut out: Vec<InputMessage> = Vec::new();
        assert(all.skip(0) =~= all);
        while self.queue.len() > 0
            invariant
                out@.len() + self.queue@.len() == all.len(),
                out@ == all.take(out@.len() as int),
                self.queue@ == all.skip(out@.len() as int),
            decreases self.queue@.len(),
        {
            let ghost k = out@.len() as int;
            match self.queue.pop_front() {
                Some(m) => {
                    out.push(m);
                    assert(all.take(k + 1) =~= all.take(k).push(all[k]));
                    assert(self.queue@ =~= all.skip(k + 1));
                },
                None => {},
            }
        }
        assert(out@ =~= all);
        assert(self.queue@ =~= Seq::empty());
        out
    }
}

// ---------------------------------------------------------------------------
// Laws
// ---------------------------------------------------------------------------

proof fn kinds_differ()
    ensures
        "resize"@ != "mouse_move"@,
        "resize"@ != "mouse_button"@,
        "resize"@ != "mouse_wheel"@,
        "resize"@ != "key"@,
        "resize"@ != "focus"@,
        "resize"@ != "visibility"@,
        "resize"@ != "pointer_lock_changed"@,
        "resize"@ != "start"@,
        "mouse_move"@ != "mouse_button"@,
        "mouse_move"@ != "mouse_wheel"@,
        "mouse_move"@ != "key"@,
        "mouse_move"@ != "focus"@,
        "mouse_move"@ != "visibility"@,
        "mouse_move"@ != "pointer_lock_changed"@,
        "mouse_move"@ != "start"@,
        "mouse_button"@ != "mouse_wheel"@,
        "mouse_button"@ != "key"@,
        "mouse_button"@ != "focus"@,
        "mouse_button"@ != "visibility"@,
        "mouse_button"@ != "pointer_lock_changed"@,
        "mouse_button"@ != "start"@,
        "mouse_wheel"@ != "key"@,
        "mouse_wheel"@ != "focus"@,
        "mouse_wheel"@ != "visibility"@,
        "mouse_wheel"@ != "pointer_lock_changed"@,
        "mouse_wheel"@ != "start"@,
        "key"@ != "focus"@,
        "key"@ != "visibility"@,
        "key"@ != "pointer_lock_changed"@,
        "key"@ != "start"@,
        "focus"@ != "visibility"@,
        "focus"@ != "pointer_lock_changed"@,
        "focus"@ != "start"@,
        "visibility"@ != "pointer_lock_changed"@,
        "visibility"@ != "start"@,
        "pointer_lock_changed"@ != "start"@,
{
    reveal_strlit("resize");
    reveal_strlit("mouse_move");
    reveal_strlit("mouse_button");
    reveal_strlit("mouse_wheel");
    reveal_strlit("key");
    reveal_strlit("focus");
    reveal_strlit("visibility");
    reveal_strlit("pointer_lock_changed");
    reveal_strlit("start");
    assert("resize"@.len() == 6);
    assert("mouse_move"@.len() == 10);
    assert("mouse_button"@.len() == 12);
    assert("mouse_wheel"@.len() == 11);
    assert("key"@.len() == 3);
    assert("focus"@.len() == 5);
    assert("visibility"@.len() == 10);
    assert("pointer_lock_changed"@.len() == 20);
    assert("start"@.len() == 5);
    assert("mouse_move"@[0] != "visibility"@[0]);
    assert("focus"@[0] != "start"@[0]);
}

proof fn names_differ()
    ensures
        "width"@ != "height"@,
        "x"@ != "y"@,
        "x"@ != "dx"@,
        "x"@ != "dy"@,
        "y"@ != "dx"@,
        "y"@ != "dy"@,
        "dx"@ != "dy"@,
        "code"@ != "key"@,
        "pressed"@ != "repeat"@,
        "pressed"@ != "ctrl"@,
        "pressed"@ != "shift"@,
        "pressed"@ != "alt"@,
        "pressed"@ != "meta"@,
        "repeat"@ != "ctrl"@,
        "repeat"@ != "shift"@,
        "repeat"@ != "alt"@,
        "repeat"@ != "meta"@,
        "ctrl"@ != "shift"@,
        "ctrl"@ != "alt"@,
        "ctrl"@ != "meta"@,
        "shift"@ != "alt"@,
        "shift"@ != "meta"@,
        "alt"@ != "meta"@,
{
    reveal_strlit("width");
    reveal_strlit("height");
    reveal_strlit("x");
    reveal_strlit("y");
    reveal_strlit("dx");
    reveal_strlit("dy");
    reveal_strlit("code");
    reveal_strlit("key");
    reveal_strlit("pressed");
    reveal_strlit("repeat");
    reveal_strlit("ctrl");
    reveal_strlit("shift");
    reveal_strlit("alt");
    reveal_strlit("meta");
    assert("width"@.len() == 5);
    assert("height"@.len() == 6);
    assert("x"@.len() == 1);
    assert("y"@.len() == 1);
    assert("dx"@.len() == 2);
    assert("dy"@.len() == 2);
    assert("code"@.len() == 4);
    assert("key"@.len() == 3);
    assert("pressed"@.len() == 7);
    assert("repeat"@.len() == 6);
    assert("ctrl"@.len() == 4);
    assert("shift"@.len() == 5);
    assert("alt"@.len() == 3);
    assert("meta"@.len() == 4);
    assert("x"@[0] != "y"@[0]);
    assert("dx"@[1] != "dy"@[1]);
    assert("ctrl"@[0] != "meta"@[0]);
}

/// Are all names different?
spec fn all_different<T>(s: Seq<(Seq<char>, T)>) -> bool {
    forall|i: int, j: int| 0 <= i < j < s.len() ==> (#[trigger] s[i]).0 != (#[trigger] s[j]).0
}

proof fn field_at<T>(s: Seq<(Seq<char>, T)>, i: int)
    requires
        all_different(s),
        0 <= i < s.len(),
    ensures
        field(s, s[i].0) == Some(s[i].1),
    decreases s.len(),
{
    if i < s.len() - 1 {
        assert(s[i].0 != s[s.len() - 1].0);
        assert(s.drop_last()[i] == s[i]);
        field_at(s.drop_last(), i);
    }
}

proof fn two_fields<T>(a: Seq<char>, x: T, b: Seq<char>, y: T)
    requires
        a != b,
    ensures
        field(seq![(a, x), (b, y)], a) == Some(x),
        field(seq![(a, x), (b, y)], b) == Some(y),
{
    let s = seq![(a, x), (b, y)];
    field_at(s, 0);
    field_at(s, 1);
}

proof fn move_fields(x: Real, y: Real, dx: Real, dy: Real)
    ensures
        ({
            let s = seq![("x"@, x), ("y"@, y), ("dx"@, dx), ("dy"@, dy)];
            &&& field(s, "x"@) == Some(x)
            &&& field(s, "y"@) == Some(y)
            &&& field(s, "dx"@) == Some(dx)
            &&& field(s, "dy"@) == Some(dy)
        }),
{
    names_differ();
    let s = seq![("x"@, x), ("y"@, y), ("dx"@, dx), ("dy"@, dy)];
    field_at(s, 0);
    field_at(s, 1);
    field_at(s, 2);
    field_at(s, 3);
}

proof fn key_flags(pressed: bool, repeat: bool, ctrl: bool, shift: bool, alt: bool, meta: bool)
    ensures
        ({
            let s = seq![
                ("pressed"@, pressed),
                ("repeat"@, repeat),
                ("ctrl"@, ctrl),
                ("shift"@, shift),
                ("alt"@, alt),
                ("meta"@, meta),
            ];
            &&& field(s, "pressed"@) == Some(pressed)
            &&& field(s, "repeat"@) == Some(repeat)
            &&& field(s, "ctrl"@) == Some(ctrl)
            &&& field(s, "shift"@) == Some(shift)
            &&& field(s, "alt"@) == Some(alt)
            &&& field(s, "meta"@) == Some(meta)
        }),
{
    names_differ();
    let s = seq![
        ("pressed"@, pressed),
        ("repeat"@, repeat),
        ("ctrl"@, ctrl),
        ("shift"@, shift),
        ("alt"@, alt),
        ("meta"@, meta),
    ];
    field_at(s, 0);
    field_at(s, 1);
    field_at(s, 2);
    field_at(s, 3);
    field_at(s, 4);
    field_at(s, 5);
}

/// Every message arrives as it was sent: parsing what is posted for it gives it back.
pub proof fn messages_round_trip(m: InputView)
    ensures
        posted(m).kind is Some,
        message_of(posted(m).kind->0, posted(m)) == Some(m),
{
    kinds_differ();
    names_differ();
    match m {
        InputView::Resize { width, height } => {
            two_fields("width"@, width, "height"@, height);
        },
        InputView::MouseMove { x, y, buttons, dx, dy } => {
            move_fields(x, y, dx, dy);
        },
        InputView::MouseButton { x, y, button, pressed } => {
            two_fields("x"@, x, "y"@, y);
        },
        InputView::MouseWheel { dx, dy } => {
            two_fields("dx"@, dx, "dy"@, dy);
        },
        InputView::Key { code, key, pressed, repeat, ctrl, shift, alt, meta } => {
            two_fields("code"@, code, "key"@, key);
            key_flags(pressed, repeat, ctrl, shift, alt, meta);
        },
        _ => {},
    }
}

/// A field reads as what was last set under its name, whatever else is set, and as the default
/// where nothing is.
pub proof fn fields_are_read_by_name<T: Copy>(before: Seq<(Seq<char>, T)>, v: T)
    ensures
        forall|s: &Vec<(String, T)>, key: &str, default: T, r: T| #[trigger]
            call_ensures(read_field::<T>, (s, key, default), r) ==> {
                &&& named(s@) == before.push((key@, v)) ==> r == v
                &&& forall|other: Seq<char>|
                    other != key@ && named(s@) == #[trigger] before.push((other, v)) ==> r
                        == field_or(before, key@, default)
                &&& s@.len() == 0 ==> r == default
            },
{
    assert forall|s: &Vec<(String, T)>, key: &str, default: T, r: T| #[trigger]
        call_ensures(read_field::<T>, (s, key, default), r) implies {
        &&& named(s@) == before.push((key@, v)) ==> r == v
        &&& forall|other: Seq<char>|
            other != key@ && named(s@) == #[trigger] before.push((other, v)) ==> r == field_or(
                before,
                key@,
                default,
            )
        &&& s@.len() == 0 ==> r == default
    } by {
        assert forall|other: Seq<char>|
            other != key@ && named(s@) == #[trigger] before.push((other, v)) implies r == field_or(
            before,
            key@,
            default,
        ) by {
            assert(before.push((other, v)).drop_last() =~= before);
        }
    }
}

/// An object of a kind is read as the message of that kind, each of its fields from the field
/// of that name; one without a kind is malformed, and one of a kind that there is none of is
/// dropped.
pub proof fn objects_are_read_by_kind()
    ensures
        forall|p: &Posted, r: Result<Option<InputMessage>, MissingKind>| #[trigger]
            call_ensures(parse_non_init, (p,), r) && p@.kind is Some ==> {
                let k = p@.kind->0;
                let m = r->Ok_0->0;
                &&& r is Ok
                &&& k == "key"@ ==> r->Ok_0 is Some && m is Key && m->Key_pressed == field_or(
                    p@.flags,
                    "pressed"@,
                    false,
                ) && m->repeat == field_or(p@.flags, "repeat"@, false) && m->ctrl == field_or(
                    p@.flags,
                    "ctrl"@,
                    false,
                ) && m->shift == field_or(p@.flags, "shift"@, false) && m->alt == field_or(
                    p@.flags,
                    "alt"@,
                    false,
                ) && m->meta == field_or(p@.flags, "meta"@, false) && m->code@ == field_or(
                    p@.texts,
                    "code"@,
                    Seq::empty(),
                ) && m->key@ == field_or(p@.texts, "key"@, Seq::empty())
                &&& k == "mouse_button"@ ==> r->Ok_0 is Some && m is MouseButton
                    && m->MouseButton_pressed == field_or(p@.flags, "pressed"@, false)
                    && m->MouseButton_x == field_or(p@.reals, "x"@, Real { bits: 0 })
                    && m->MouseButton_y == field_or(p@.reals, "y"@, Real { bits: 0 }) && m->button
                    == field_or(p@.wholes, "button"@, 0) % 256
                &&& k == "mouse_wheel"@ ==> r->Ok_0 is Some && m is MouseWheel && m->MouseWheel_dx
                    == field_or(p@.reals, "dx"@, Real { bits: 0 }) && m->MouseWheel_dy == field_or(
                    p@.reals,
                    "dy"@,
                    Real { bits: 0 },
                )
                &&& k == "mouse_move"@ ==> r->Ok_0 is Some && m is MouseMove && m->MouseMove_x
                    == field_or(p@.reals, "x"@, Real { bits: 0 }) && m->MouseMove_y == field_or(
                    p@.reals,
                    "y"@,
                    Real { bits: 0 },
                ) && m->MouseMove_dx == field_or(p@.reals, "dx"@, Real { bits: 0 })
                    && m->MouseMove_dy == field_or(p@.reals, "dy"@, Real { bits: 0 })
                    && m->buttons == field_or(p@.wholes, "buttons"@, 0) % 256
                &&& k == "resize"@ ==> r->Ok_0 is Some && m is Resize && m->width == field_or(
                    p@.wholes,
                    "width"@,
                    0,
                ) && m->height == field_or(p@.wholes, "height"@, 0)
                &&& k == "focus"@ ==> r->Ok_0 is Some && m is Focus && m->Focus_0 == field_or(
                    p@.flags,
                    "focused"@,
                    false,
                )
                &&& k == "pointer_lock_changed"@ ==> r->Ok_0 is Some && m is PointerLockChanged
                    && m->PointerLockChanged_0 == field_or(p@.flags, "locked"@, false)
                &&& k == "init"@ ==> r->Ok_0 is None
            },
{
    kinds_differ();
    reveal_strlit("init");
    reveal_strlit("resize");
    reveal_strlit("mouse_move");
    reveal_strlit("mouse_button");
    reveal_strlit("mouse_wheel");
    reveal_strlit("key");
    reveal_strlit("focus");
    reveal_strlit("visibility");
    reveal_strlit("pointer_lock_changed");
    reveal_strlit("start");
    assert("init"@.len() == 4);
    assert forall|p: &Posted, r: Result<Option<InputMessage>, MissingKind>| #[trigger]
        call_ensures(parse_non_init, (p,), r) && p@.kind is Some && r->Ok_0 is Some implies (
    r->Ok_0->0)@ == message_of(p@.kind->0, p@)->0 by {}
}

/// Every message is posted so that it is read back as it was.
pub proof fn posted_messages_are_read_back()
    ensures
        forall|m: &InputMessage, p: Posted, q: &Posted, r: Result<Option<InputMessage>, MissingKind>|
            #![trigger call_ensures(InputMessage::to_posted, (m,), p), call_ensures(
                parse_non_init,
                (q,),
                r,
            )]
            call_ensures(InputMessage::to_posted, (m,), p) && call_ensures(parse_non_init, (q,), r)
                && q@ == p@ ==> r is Ok && r->Ok_0 is Some && (r->Ok_0->0)@ == m@,
{
    assert forall|m: &InputMessage, p: Posted, q: &Posted, r: Result<
        Option<InputMessage>,
        MissingKind,
    >|
        #![trigger call_ensures(InputMessage::to_posted, (m,), p), call_ensures(
            parse_non_init,
            (q,),
            r,
        )]
        call_ensures(InputMessage::to_posted, (m,), p) && call_ensures(parse_non_init, (q,), r) && q@
            == p@ implies r is Ok && r->Ok_0 is Some && (r->Ok_0->0)@ == m@ by {
        messages_round_trip(m@);
    }
}

/// A field that is set is read, by its name, and no other field is touched.
pub proof fn set_fields_are_read()
    ensures
        forall|p: &mut Posted, key: &str, v: bool, u: ()| #[trigger]
            call_ensures(Posted::set_bool, (p, key, v), u) ==> field_or(
                (*final(p))@.flags,
                key@,
                !v,
            ) == v && (*final(p))@.kind == (*p)@.kind && (*final(p))@.texts == (*p)@.texts && (
            *final(p))@.wholes == (*p)@.wholes && (*final(p))@.reals == (*p)@.reals,
        forall|p: &mut Posted, key: &str, v: u32, u: ()| #[trigger]
            call_ensures(Posted::set_u32, (p, key, v), u) ==> field((*final(p))@.wholes, key@)
                == Some(v) && (*final(p))@.kind == (*p)@.kind && (*final(p))@.flags == (*p)@.flags,
        forall|p: &mut Posted, key: &str, v: Real, u: ()| #[trigger]
            call_ensures(Posted::set_f32, (p, key, v), u) ==> field((*final(p))@.reals, key@)
                == Some(v) && (*final(p))@.kind == (*p)@.kind && (*final(p))@.flags == (*p)@.flags,
        forall|p: &mut Posted, key: &str, v: &str, u: ()| #[trigger]
            call_ensures(Posted::set_string, (p, key, v), u) ==> field((*final(p))@.texts, key@)
                == Some(v@) && (*final(p))@.kind == (*p)@.kind && (*final(p))@.flags == (*p)@.flags,
{
}

/// Messages wait in the order in which they came, and each is taken once.
pub proof fn messages_wait_in_order()
    ensures
        forall|q: &mut MessageQueue, m: InputMessage, u: ()| #[trigger]
            call_ensures(MessageQueue::enqueue, (q, m), u) ==> (*final(q))@.len() == (*q)@.len() + 1
                && (*final(q))@.last() == m && (*final(q))@.drop_last() == (*q)@,
        forall|q: &mut MessageQueue, r: Vec<InputMessage>| #[trigger]
            call_ensures(MessageQueue::drain_messages, (q,), r) ==> r@ == (*q)@ && (
            *final(q))@.len() == 0,
{
    assert forall|q: &mut MessageQueue, m: InputMessage, u: ()| #[trigger]
        call_ensures(MessageQueue::enqueue, (q, m), u) implies (*final(q))@.drop_last() == (
    *q)@ by {
        assert((*q)@.push(m).drop_last() =~= (*q)@);
    }
}

} // verus!
