//! The arguments of the `capture` command.

use vstd::prelude::*;

use crate::capture;
use crate::capture::{CaptureFormat, CaptureStage, PaletteMode};
use crate::text;
use crate::text::{chars_of, parse_bounded, parse_u32, starts_with, string_of, text_eq};

verus! {

/// What the arguments behind the sub-command say.
pub struct ParsedCaptureArgs {
    pub stage: CaptureStage,
    pub dir: Option<String>,
    pub fps: Option<u16>,
    pub scale: Option<u32>,
    pub palette: PaletteMode,
}

/// Parsed arguments over plain values.
#[verifier::ext_equal]
pub struct ArgsView {
    pub stage: CaptureStage,
    pub dir: Option<Seq<char>>,
    pub fps: Option<u16>,
    pub scale: Option<u32>,
    pub palette: PaletteMode,
}

impl View for ParsedCaptureArgs {
    type V = ArgsView;

    open spec fn view(&self) -> ArgsView {
        ArgsView {
            stage: self.stage,
            dir: capture::opt_view(self.dir),
            fps: self.fps,
            scale: self.scale,
            palette: self.palette,
        }
    }
}

/// What no arguments say.
pub open spec fn default_args() -> ArgsView {
    ArgsView {
        stage: CaptureStage::Post,
        dir: None,
        fps: None,
        scale: None,
        palette: PaletteMode::Local,
    }
}

impl Default for ParsedCaptureArgs {
    fn default() -> (r: ParsedCaptureArgs)
        ensures
            r@ == default_args(),
    {
        ParsedCaptureArgs {
            stage: CaptureStage::Post,
            dir: None,
            fps: None,
            scale: None,
            palette: PaletteMode::Local,
        }
    }
}

/// What follows `prefix` in `s`, if `s` begins with it.
pub open spec fn after_prefix(s: Seq<char>, prefix: Seq<char>) -> Option<Seq<char>> {
    if text::has_prefix(s, prefix) {
        Some(s.skip(prefix.len() as int))
    } else {
        None
    }
}

/// `str::strip_prefix`.
pub fn strip_prefix(s: &str, prefix: &str) -> (r: Option<String>)
    ensures
        match r {
            Some(t) => after_prefix(s@, prefix@) == Some(t@),
            None => after_prefix(s@, prefix@) is None,
        },
{
    if starts_with(s, prefix) {
        let v = chars_of(s);
        let n: usize = prefix.unicode_len();
        let t = string_of(&v, n, v.len());
        assert(t@ =~= s@.skip(prefix@.len() as int));
        Some(t)
    } else {
        None
    }
}

/// What one more argument changes:
/// - `fps=N`, `scale=N`: a rate, an output width; another value is ignored
/// - `palette=local|global`: the palette mode; another value is ignored
/// - `pre`, `post`, `both`: the stage
/// - anything else: the output directory
pub open spec fn with_arg(p: ArgsView, arg: Seq<char>) -> ArgsView {
    match after_prefix(arg, "fps="@) {
        Some(v) => match text::bounded_value(v, u16::MAX as nat) {
            Some(n) => ArgsView { fps: Some(n as u16), ..p },
            None => p,
        },
        None => match after_prefix(arg, "scale="@) {
            Some(v) => match text::bounded_value(v, u32::MAX as nat) {
                Some(n) => ArgsView { scale: Some(n as u32), ..p },
                None => p,
            },
            None => match after_prefix(arg, "palette="@) {
                Some(v) => if v == "local"@ {
                    ArgsView { palette: PaletteMode::Local, ..p }
                } else if v == "global"@ {
                    ArgsView { palette: PaletteMode::Global, ..p }
                } else {
                    p
                },
                None => if arg == "pre"@ {
                    ArgsView { stage: CaptureStage::Pre, ..p }
                } else if arg == "post"@ {
                    ArgsView { stage: CaptureStage::Post, ..p }
                } else if arg == "both"@ {
                    ArgsView { stage: CaptureStage::Both, ..p }
                } else {
                    ArgsView { dir: Some(arg), ..p }
                },
            },
        },
    }
}

/// What a list of arguments says; a later one overrides an earlier one.
pub open spec fn parsed_args(args: Seq<Seq<char>>) -> ArgsView
    decreases args.len(),
{
    if args.len() == 0 {
        default_args()
    } else {
        with_arg(parsed_args(args.drop_last()), args.last())
    }
}

fn apply_arg(p: ParsedCaptureArgs, arg: &str) -> (r: ParsedCaptureArgs)
    ensures
        r@ == with_arg(p@, arg@),
{
    let mut p = p;
    match strip_prefix(arg, "fps=") {
        Some(v) => {
            match parse_bounded(v.as_str(), 65535) {
                Some(n) => {
                    p.fps = Some(n as u16);
                },
                None => {},
            }
            return p;
        },
        None => {},
    }
    match strip_prefix(arg, "scale=") {
        Some(v) => {
            match parse_u32(v.as_str()) {
                Some(n) => {
                    p.scale = Some(n);
                },
                None => {},
            }
            return p;
        },
        None => {},
    }
    match strip_prefix(arg, "palette=") {
        Some(v) => {
            if text_eq(v.as_str(), "local") {
                p.palette = PaletteMode::Local;
            } else if text_eq(v.as_str(), "global") {
                p.palette = PaletteMode::Global;
            }
            return p;
        },
        None => {},
    }
    if text_eq(arg, "pre") {
        p.stage = CaptureStage::Pre;
    } else if text_eq(arg, "post") {
        p.stage = CaptureStage::Post;
    } else if text_eq(arg, "both") {
        p.stage = CaptureStage::Both;
    } else {
        p.dir = Some(arg.to_owned());
    }
    p
}

/// Read the arguments behind the sub-command.
pub fn parse_capture_args(args: &[&str]) -> (r: ParsedCaptureArgs)
    ensures
        r@ == parsed_args(text::str_views(args@)),
{
    assert(text::str_views(args@).skip(0) =~= text::str_views(args@));
    parse_args_from(args, 0)
}

/// Read the arguments from place `from` on.
pub fn parse_args_from(args: &[&str], from: usize) -> (r: ParsedCaptureArgs)
    requires
        from <= args@.len(),
    ensures
        r@ == parsed_args(text::str_views(args@).skip(from as int)),
{
    let ghost all = text::str_views(args@).skip(from as int);
    let mut p = ParsedCaptureArgs::default();
    let mut i: usize = from;
    while i < args.len()
        invariant
            from <= i <= args.len(),
            all == text::str_views(args@).skip(from as int),
            p@ == parsed_args(all.take(i - from)),
        decreases args.len() - i,
    {
        let ghost k = i - from;
        assert(all.take(k + 1).drop_last() =~= all.take(k));
        assert(all.take(k + 1).last() == args@[i as int]@);
        p = apply_arg(p, args[i]);
        i += 1;
    }
    assert(all.take(all.len() as int) =~= all);
    p
}

/// The format keyword that opens a list of arguments, and how many it takes up. Without one
/// the format is GIF and every argument remains.
pub open spec fn format_of(args: Seq<Seq<char>>) -> (CaptureFormat, nat) {
    if args.len() == 0 {
        (CaptureFormat::Gif, 0)
    } else if args[0] == "png"@ || args[0] == "frames"@ {
        (CaptureFormat::Png, 1)
    } else if args[0] == "gif"@ {
        (CaptureFormat::Gif, 1)
    } else if args[0] == "apng"@ {
        (CaptureFormat::Apng, 1)
    } else {
        (CaptureFormat::Gif, 0)
    }
}

/// Read the format keyword at place `from`; returns the format and where the other
/// arguments begin.
pub fn parse_format(args: &[&str], from: usize) -> (r: (CaptureFormat, usize))
    requires
        from <= args@.len(),
    ensures
        r.0 == format_of(text::str_views(args@).skip(from as int)).0,
        r.1 == from + format_of(text::str_views(args@).skip(from as int)).1,
        r.1 <= args@.len(),
{
    if from >= args.len() {
        return (CaptureFormat::Gif, from);
    }
    let first = args[from];
    assert(text::str_views(args@).skip(from as int)[0] == first@);
    if text_eq(first, "png") || text_eq(first, "frames") {
        (CaptureFormat::Png, from + 1)
    } else if text_eq(first, "gif") {
        (CaptureFormat::Gif, from + 1)
    } else if text_eq(first, "apng") {
        (CaptureFormat::Apng, from + 1)
    } else {
        (CaptureFormat::Gif, from)
    }
}

// ---------------------------------------------------------------------------
// Laws
// ---------------------------------------------------------------------------

/// A setting is what stands behind its name and `=`.
proof fn setting_is_found(name: Seq<char>, value: Seq<char>)
    ensures
        after_prefix(name + value, name) == Some(value),
{
    assert((name + value).take(name.len() as int) =~= name);
    assert((name + value).skip(name.len() as int) =~= value);
}

proof fn settings_differ(value: Seq<char>)
    ensures
        after_prefix("scale="@ + value, "fps="@) is None,
        after_prefix("palette="@ + value, "fps="@) is None,
        after_prefix("palette="@ + value, "scale="@) is None,
{
    reveal_strlit("fps=");
    reveal_strlit("scale=");
    reveal_strlit("palette=");
    let a = "scale="@ + value;
    let b = "palette="@ + value;
    if a.len() >= 4 {
        assert(a.take(4)[0] == 's');
        assert("fps="@[0] == 'f');
    }
    if b.len() >= 6 {
        assert(b.take(4)[0] == 'p');
        assert(b.take(6)[0] == 'p');
        assert("scale="@[0] == 's');
        assert("fps="@[0] == 'f');
    }
}

proof fn stages_are_no_settings(word: Seq<char>)
    requires
        word == "pre"@ || word == "post"@ || word == "both"@,
    ensures
        after_prefix(word, "fps="@) is None,
        after_prefix(word, "scale="@) is None,
        after_prefix(word, "palette="@) is None,
{
    reveal_strlit("fps=");
    reveal_strlit("scale=");
    reveal_strlit("palette=");
    reveal_strlit("pre");
    reveal_strlit("post");
    reveal_strlit("both");
    if word.len() >= 4 {
        assert(word.take(4)[0] == word[0]);
        assert("fps="@[0] == 'f');
    }
}

proof fn stage_words_differ()
    ensures
        "pre"@ != "post"@,
        "pre"@ != "both"@,
        "post"@ != "both"@,
{
    reveal_strlit("pre");
    reveal_strlit("post");
    reveal_strlit("both");
    assert("pre"@.len() == 3 && "post"@.len() == 4 && "both"@.len() == 4);
    assert("post"@[0] != "both"@[0]);
}

/// Does one more argument change what it names, to what it says, and nothing else? A rate and
/// a width in digits, a palette, a stage; what is none of these is the directory.
pub open spec fn argument_meets(before: ArgsView, arg: Seq<char>, after: ArgsView) -> bool {
    &&& forall|n: nat|
        arg == "fps="@ + #[trigger] text::decimal(n) ==> after == (ArgsView {
            fps: if n <= u16::MAX {
                Some(n as u16)
            } else {
                before.fps
            },
            ..before
        })
    &&& forall|n: nat|
        arg == "scale="@ + #[trigger] text::decimal(n) ==> after == (ArgsView {
            scale: if n <= u32::MAX {
                Some(n as u32)
            } else {
                before.scale
            },
            ..before
        })
    &&& arg == "palette="@ + "local"@ ==> after == (ArgsView { palette: PaletteMode::Local, ..before })
    &&& arg == "palette="@ + "global"@ ==> after == (ArgsView {
        palette: PaletteMode::Global,
        ..before
    })
    &&& arg == "pre"@ ==> after == (ArgsView { stage: CaptureStage::Pre, ..before })
    &&& arg == "post"@ ==> after == (ArgsView { stage: CaptureStage::Post, ..before })
    &&& arg == "both"@ ==> after == (ArgsView { stage: CaptureStage::Both, ..before })
    &&& !arg.contains('=') && arg != "pre"@ && arg != "post"@ && arg != "both"@ ==> after == (
    ArgsView { dir: Some(arg), ..before })
}

proof fn argument_is_met(p: ArgsView, arg: Seq<char>)
    ensures
        argument_meets(p, arg, with_arg(p, arg)),
{
    reveal_strlit("fps=");
    reveal_strlit("scale=");
    reveal_strlit("palette=");
    reveal_strlit("local");
    reveal_strlit("global");
    stage_words_differ();
    assert("local"@ != "global"@) by {
        assert("local"@.len() == 5 && "global"@.len() == 6);
    }
    assert forall|n: nat| arg == "fps="@ + #[trigger] text::decimal(n) implies with_arg(p, arg) == (
    ArgsView {
        fps: if n <= u16::MAX {
            Some(n as u16)
        } else {
            p.fps
        },
        ..p
    }) by {
        setting_is_found("fps="@, text::decimal(n));
        text::numbers_round_trip(n, 0, u16::MAX as nat);
    }
    assert forall|n: nat| arg == "scale="@ + #[trigger] text::decimal(n) implies with_arg(p, arg)
        == (ArgsView {
        scale: if n <= u32::MAX {
            Some(n as u32)
        } else {
            p.scale
        },
        ..p
    }) by {
        setting_is_found("scale="@, text::decimal(n));
        settings_differ(text::decimal(n));
        text::numbers_round_trip(n, 0, u32::MAX as nat);
    }
    setting_is_found("palette="@, "local"@);
    settings_differ("local"@);
    setting_is_found("palette="@, "global"@);
    settings_differ("global"@);
    if arg == "pre"@ || arg == "post"@ || arg == "both"@ {
        stages_are_no_settings(arg);
    }
    if !arg.contains('=') {
        if arg.len() >= 4 {
            assert(arg.take(4)[3] == arg[3]);
            assert("fps="@[3] == '=');
        }
        if arg.len() >= 6 {
            assert(arg.take(6)[5] == arg[5]);
            assert("scale="@[5] == '=');
        }
        if arg.len() >= 8 {
            assert(arg.take(8)[7] == arg[7]);
            assert("palette="@[7] == '=');
        }
    }
}

/// Arguments are taken one by one, in any order, and the last of a kind holds. Without any, the
/// stage is the finished picture, the palette each frame's own, and nothing else is asked for.
pub proof fn arguments_are_taken_one_by_one(arg: Seq<char>)
    ensures
        forall|args: &[&str], r: ParsedCaptureArgs| #[trigger]
            call_ensures(parse_capture_args, (args,), r) && args@.len() == 0 ==> r.stage
                == CaptureStage::Post && r.dir is None && r.fps is None && r.scale is None
                && r.palette == PaletteMode::Local,
        forall|few: &[&str], before: ParsedCaptureArgs, more: &[&str], after: ParsedCaptureArgs|
            #![trigger call_ensures(parse_capture_args, (few,), before), call_ensures(
                parse_capture_args,
                (more,),
                after,
            )]
            call_ensures(parse_capture_args, (few,), before) && call_ensures(
                parse_capture_args,
                (more,),
                after,
            ) && text::str_views(more@) == text::str_views(few@).push(arg) ==> argument_meets(
                before@,
                arg,
                after@,
            ),
{
    assert forall|few: &[&str], before: ParsedCaptureArgs, more: &[&str], after: ParsedCaptureArgs|
        #![trigger call_ensures(parse_capture_args, (few,), before), call_ensures(
            parse_capture_args,
            (more,),
            after,
        )]
        call_ensures(parse_capture_args, (few,), before) && call_ensures(
            parse_capture_args,
            (more,),
            after,
        ) && text::str_views(more@) == text::str_views(few@).push(arg) implies argument_meets(
        before@,
        arg,
        after@,
    ) by {
        let a = text::str_views(few@);
        assert(a.push(arg).drop_last() =~= a);
        argument_is_met(before@, arg);
    }
}

/// The format is the one that is named first, and a GIF where none is; what names it is not
/// taken for an argument.
pub proof fn formats_are_named_first()
    ensures
        forall|args: &[&str], from: usize, r: (CaptureFormat, usize)| #[trigger]
            call_ensures(parse_format, (args, from), r) && from <= args@.len() ==> {
                let first = text::str_views(args@)[from as int];
                let there = from < args@.len();
                &&& there && (first == "png"@ || first == "frames"@) ==> r.0 == CaptureFormat::Png
                    && r.1 == from + 1
                &&& there && first == "gif"@ ==> r.0 == CaptureFormat::Gif && r.1 == from + 1
                &&& there && first == "apng"@ ==> r.0 == CaptureFormat::Apng && r.1 == from + 1
                &&& !there || (first != "png"@ && first != "frames"@ && first != "gif"@ && first
                    != "apng"@) ==> r.0 == CaptureFormat::Gif && r.1 == from
            },
{
    reveal_strlit("png");
    reveal_strlit("frames");
    reveal_strlit("gif");
    reveal_strlit("apng");
    assert("png"@.len() == 3 && "frames"@.len() == 6 && "gif"@.len() == 3 && "apng"@.len() == 4);
    assert("png"@[0] != "gif"@[0]);
}

} // verus!
