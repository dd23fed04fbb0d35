//! Click-to-start: the handshake between the page, the launch overlay and the worker.

use vstd::prelude::*;

use crate::text;
use crate::text::{contains, ends_with, text_eq};

verus! {

/// Did the page opt into click-to-start? `mode` is the host element's `data-mode`
/// attribute; without the element or the attribute the demo starts on load.
pub fn is_manual_mode(mode: Option<&str>) -> (r: bool)
    ensures
        r == (mode is Some && mode->0@ == "manual"@),
{
    match mode {
        Some(m) => text_eq(m, "manual"),
        None => false,
    }
}

/// The address of the binary beside the script at `js_url`.
pub open spec fn binary_url(js_url: Seq<char>) -> Seq<char> {
    (if text::has_suffix(js_url, ".js"@) {
        js_url.take(js_url.len() - 3)
    } else {
        js_url
    }) + "_bg.wasm"@
}

pub fn wasm_url(js_url: &str) -> (r: String)
    ensures
        r@ == binary_url(js_url@),
{
    proof {
        reveal_strlit(".js");
    }
    let mut s = if ends_with(js_url, ".js") {
        let n: usize = js_url.unicode_len();
        let stem = js_url.substring_char(0, n - 3).to_owned();
        assert(stem@ =~= js_url@.take(js_url@.len() - 3));
        stem
    } else {
        js_url.to_owned()
    };
    s.append("_bg.wasm");
    s
}

/// The script that starts the binary in a worker.
pub open spec fn bootstrap(js_url: Seq<char>, wasm_url: Seq<char>) -> Seq<char> {
    "import init from '"@ + js_url + "';\nawait init({ module_or_path: '"@ + wasm_url
        + "' });\n"@
}

pub fn bootstrap_js(js_url: &str, wasm_url: &str) -> (r: String)
    ensures
        r@ == bootstrap(js_url@, wasm_url@),
{
    let mut s = "import init from '".to_owned();
    s.append(js_url);
    s.append("';\nawait init({ module_or_path: '");
    s.append(wasm_url);
    s.append("' });\n");
    s
}

/// What a click on the overlay leads to.
#[derive(Copy, Clone, Debug, PartialEq, Eq, Structural)]
pub enum Click {
    /// Nothing: the demo is launched already, or not ready to be.
    Ignored,
    /// The start waits for the worker; remove the overlay.
    Queued,
    /// Post the start to the worker, and report whether that worked.
    PostStart,
}

/// The main thread's side of the start. A worker drops what is posted before it listens,
/// so that a start that comes too early is kept until the worker has signalled.
#[derive(Copy, Clone, Debug, PartialEq, Eq, Structural)]
pub struct Launch {
    /// The worker listens, and has been initialized.
    pub worker_ready: bool,
    /// A start waits for that.
    pub pending_start: bool,
    /// The user has launched.
    pub fired: bool,
}

impl Launch {
    /// A start waits only for a worker that is not ready, and only once launched.
    pub open spec fn wf(&self) -> bool {
        self.pending_start ==> self.fired && !self.worker_ready
    }

    /// What a click on an overlay of this class leads to.
    pub open spec fn click_outcome(self, class: Seq<char>) -> Click {
        if self.fired || !text::has_part(class, "ready"@) {
            Click::Ignored
        } else if self.worker_ready {
            Click::PostStart
        } else {
            Click::Queued
        }
    }

    /// After a click.
    pub open spec fn clicked(self, class: Seq<char>) -> Launch {
        match self.click_outcome(class) {
            Click::Ignored => self,
            Click::Queued => Launch { fired: true, pending_start: true, ..self },
            Click::PostStart => Launch { fired: true, ..self },
        }
    }

    /// After the init message has been posted.
    pub open spec fn initialized(self) -> Launch {
        Launch { worker_ready: true, pending_start: false, ..self }
    }

    pub fn new() -> (r: Launch)
        ensures
            r.wf(),
            r == (Launch { worker_ready: false, pending_start: false, fired: false }),
    {
        Launch { worker_ready: false, pending_start: false, fired: false }
    }

    /// Is this the worker's signal that it listens, to be answered with the init message?
    pub fn is_ready_signal(kind: Option<&str>) -> (r: bool)
        ensures
            r == (kind is Some && kind->0@ == "ready"@),
    {
        match kind {
            Some(k) => text_eq(k, "ready"),
            None => false,
        }
    }

    /// Is this the worker's signal that its preview frame is drawn, upon which the overlay
    /// becomes ready for a click?
    pub fn is_preview_signal(kind: Option<&str>) -> (r: bool)
        ensures
            r == (kind is Some && kind->0@ == "preview_ready"@),
    {
        match kind {
            Some(k) => text_eq(k, "preview_ready"),
            None => false,
        }
    }

    /// The init message was posted, or could not be. Returns whether a start that waited
    /// has to be posted now.
    pub fn init_posted(&mut self, ok: bool) -> (r: bool)
        requires
            old(self).wf(),
        ensures
            final(self).wf(),
            r == (ok && old(self).pending_start),
            *final(self) == (if ok {
                old(self).initialized()
            } else {
                *old(self)
            }),
    {
        if !ok {
            return false;
        }
        self.worker_ready = true;
        let start = self.pending_start;
        self.pending_start = false;
        start
    }

    /// The overlay was clicked. `class` is its class attribute, which says whether the
    /// preview is drawn.
    pub fn click(&mut self, class: &str) -> (r: Click)
        requires
            old(self).wf(),
        ensures
            final(self).wf(),
            r == old(self).click_outcome(class@),
            *final(self) == old(self).clicked(class@),
    {
        if self.fired {
            return Click::Ignored;
        }
        if !contains(class, "ready") {
            return Click::Ignored;
        }
        self.fired = true;
        if !self.worker_ready {
            self.pending_start = true;
            Click::Queued
        } else {
            Click::PostStart
        }
    }

    /// The start was posted upon a click, or could not be. Returns whether the overlay is
    /// removed; it stays for another try if posting failed.
    pub fn start_posted(&mut self, ok: bool) -> (r: bool)
        requires
            old(self).wf(),
            old(self).worker_ready,
        ensures
            final(self).wf(),
            r == ok,
            *final(self) == (Launch { fired: old(self).fired && ok, ..*old(self) }),
    {
        if !ok {
            self.fired = false;
        }
        ok
    }
}

// ---------------------------------------------------------------------------
// Laws
// ---------------------------------------------------------------------------

/// One launch starts the demo once. However often the overlay is clicked, a launch whose
/// start was posted is not posted again; one that came before the worker was ready is
/// posted with the init message, and not again.
pub proof fn start_is_sent_once(launch: Launch, class: Seq<char>, again: Seq<char>)
    requires
        launch.wf(),
        !launch.fired,
        text::has_part(class, "ready"@),
    ensures
        launch.clicked(class).click_outcome(again) is Ignored,
        launch.worker_ready ==> launch.click_outcome(class) is PostStart && !launch.clicked(
            class,
        ).pending_start,
        !launch.worker_ready ==> launch.clicked(class).pending_start,
        !launch.clicked(class).initialized().pending_start,
        launch.clicked(class).initialized().click_outcome(again) is Ignored,
{
}

/// No start is posted to a worker that does not listen.
pub proof fn start_waits_for_the_worker(launch: Launch, class: Seq<char>)
    requires
        launch.wf(),
    ensures
        launch.click_outcome(class) is PostStart ==> launch.worker_ready,
        launch.clicked(class).wf(),
        launch.initialized().wf(),
{
}

/// The binary is beside its script: a script's ending is replaced, any other name is added to.
pub proof fn binary_is_beside_the_script(base: Seq<char>)
    ensures
        forall|js: &str, r: String| #[trigger]
            call_ensures(wasm_url, (js,), r) && js@ == base + ".js"@ ==> r@ == base + "_bg.wasm"@,
        forall|js: &str, r: String| #[trigger]
            call_ensures(wasm_url, (js,), r) && js@ == base && !".js"@.is_suffix_of(base) ==> r@
                == base + "_bg.wasm"@,
        forall|js: &str, wasm: &str, r: String| #[trigger]
            call_ensures(bootstrap_js, (js, wasm), r) ==> r@ == "import init from '"@ + js@
                + "';\nawait init({ module_or_path: '"@ + wasm@ + "' });\n"@,
{
    reveal_strlit(".js");
    let s = base + ".js"@;
    assert(s.skip(s.len() - 3) =~= ".js"@);
    assert(s.take(s.len() - 3) =~= base);
    if base.len() >= 3 {
        assert(base.skip(base.len() - 3) =~= base.subrange(base.len() - 3, base.len() as int));
    }
}

/// A click launches only an overlay that shows that it is ready, and only once; the start goes
/// out at once to a worker that listens, and else with the message that makes it listen. A
/// start that could not be posted can be tried again.
pub proof fn clicks_launch_once()
    ensures
        forall|l: &mut Launch, class: &str, r: Click| #[trigger]
            call_ensures(Launch::click, (l, class), r) ==> {
                let ready = text::has_part(class@, "ready"@);
                &&& l.fired || !ready ==> r is Ignored && *final(l) == *l
                &&& !l.fired && ready ==> final(l).fired
                &&& !l.fired && ready && l.worker_ready ==> r is PostStart && final(l).pending_start
                    == l.pending_start
                &&& !l.fired && ready && !l.worker_ready ==> r is Queued && final(l).pending_start
                &&& final(l).worker_ready == l.worker_ready
            },
        forall|l: &mut Launch, ok: bool, r: bool| #[trigger]
            call_ensures(Launch::init_posted, (l, ok), r) ==> {
                &&& !ok ==> !r && *final(l) == *l
                &&& ok ==> r == l.pending_start && final(l).worker_ready && !final(l).pending_start
                    && final(l).fired == l.fired
            },
        forall|l: &mut Launch, ok: bool, r: bool| #[trigger]
            call_ensures(Launch::start_posted, (l, ok), r) ==> {
                &&& r == ok
                &&& ok ==> *final(l) == *l
                &&& !ok ==> !final(l).fired && final(l).worker_ready == l.worker_ready
            },
        forall|kind: Option<&str>, r: bool| #[trigger]
            call_ensures(Launch::is_ready_signal, (kind,), r) && r ==> kind is Some && kind->0@
                == "ready"@,
        forall|mode: Option<&str>, r: bool| #[trigger]
            call_ensures(is_manual_mode, (mode,), r) ==> (r <==> mode is Some && mode->0@
                == "manual"@),
{
}

/// The worker's signals are told apart by their words.
pub proof fn signals_are_told_apart()
    ensures
        forall|kind: Option<&str>, r: bool| #[trigger]
            call_ensures(Launch::is_ready_signal, (kind,), r) ==> (r <==> kind is Some && kind->0@
                == "ready"@),
        forall|kind: Option<&str>, r: bool| #[trigger]
            call_ensures(Launch::is_preview_signal, (kind,), r) ==> (r <==> kind is Some && kind->0@
                == "preview_ready"@),
        forall|r: Launch| #[trigger]
            call_ensures(Launch::new, (), r) ==> !r.worker_ready && !r.pending_start && !r.fired,
{
}

} // verus!
