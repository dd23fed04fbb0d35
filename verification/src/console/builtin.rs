//! The commands that the console itself provides.

use vstd::prelude::*;

use crate::text::text_eq;

verus! {

/// Framework-owned commands that mutate the console's own state.
#[derive(Clone, Copy, Debug, PartialEq, Eq, Structural)]
pub enum Builtin {
    Help,
    Clear,
    Detach,
    Dock,
}

/// The built-in commands, in name order.
pub open spec fn all_builtins() -> Seq<Builtin> {
    seq![Builtin::Clear, Builtin::Detach, Builtin::Dock, Builtin::Help]
}

/// The built-in command of that name.
pub open spec fn builtin_named(name: Seq<char>) -> Option<Builtin> {
    if name == "help"@ {
        Some(Builtin::Help)
    } else if name == "clear"@ {
        Some(Builtin::Clear)
    } else if name == "detach"@ {
        Some(Builtin::Detach)
    } else if name == "dock"@ {
        Some(Builtin::Dock)
    } else {
        None
    }
}

impl Builtin {
    pub open spec fn spec_name(self) -> Seq<char> {
        match self {
            Builtin::Help => "help"@,
            Builtin::Clear => "clear"@,
            Builtin::Detach => "detach"@,
            Builtin::Dock => "dock"@,
        }
    }

    pub open spec fn spec_help(self) -> Seq<char> {
        match self {
            Builtin::Help => "list commands or describe one"@,
            Builtin::Clear => "clear the scrollback buffer"@,
            Builtin::Detach => "render as a draggable window"@,
            Builtin::Dock => "render as a half-screen drop-down (default)"@,
        }
    }

    /// Every built-in command. The order is alphabetical, matching Tab cycling and the help
    /// listing.
    pub fn all() -> (r: Vec<Builtin>)
        ensures
            r@ == all_builtins(),
    {
        let r = vec![Builtin::Clear, Builtin::Detach, Builtin::Dock, Builtin::Help];
        assert(r@ =~= all_builtins());
        r
    }

    pub fn from_name(name: &str) -> (r: Option<Builtin>)
        ensures
            r == builtin_named(name@),
    {
        if text_eq(name, "help") {
            Some(Builtin::Help)
        } else if text_eq(name, "clear") {
            Some(Builtin::Clear)
        } else if text_eq(name, "detach") {
            Some(Builtin::Detach)
        } else if text_eq(name, "dock") {
            Some(Builtin::Dock)
        } else {
            None
        }
    }

    pub fn name(self) -> (r: &'static str)
        ensures
            r@ == self.spec_name(),
    {
        match self {
            Builtin::Help => "help",
            Builtin::Clear => "clear",
            Builtin::Detach => "detach",
            Builtin::Dock => "dock",
        }
    }

    pub fn help(self) -> (r: &'static str)
        ensures
            r@ == self.spec_help(),
    {
        match self {
            Builtin::Help => "list commands or describe one",
            Builtin::Clear => "clear the scrollback buffer",
            Builtin::Detach => "render as a draggable window",
            Builtin::Dock => "render as a half-screen drop-down (default)",
        }
    }
}

proof fn names_differ()
    ensures
        "clear"@ != "help"@,
        "detach"@ != "help"@,
        "detach"@ != "clear"@,
        "dock"@ != "help"@,
        "dock"@ != "clear"@,
        "dock"@ != "detach"@,
{
    reveal_strlit("help");
    reveal_strlit("clear");
    reveal_strlit("detach");
    reveal_strlit("dock");
    assert("clear"@[0] != "help"@[0]);
    assert("detach"@[0] != "help"@[0]);
    assert("detach"@[0] != "clear"@[0]);
    assert("dock"@[0] != "help"@[0]);
    assert("dock"@[0] != "clear"@[0]);
    assert("dock"@[1] != "detach"@[1]);
}

/// Looking a built-in command up by its own name finds it.
pub proof fn builtin_name_round_trips(b: Builtin)
    ensures
        builtin_named(b.spec_name()) == Some(b),
{
    names_differ();
}

/// The console's own commands are found by their names and by no other, and all of them are
/// listed.
pub proof fn own_commands_are_found_by_name()
    ensures
        forall|name: &str, r: Option<Builtin>| #[trigger]
            call_ensures(Builtin::from_name, (name,), r) ==> {
                &&& r == Some(Builtin::Help) <==> name@ == "help"@
                &&& r == Some(Builtin::Clear) <==> name@ == "clear"@
                &&& r == Some(Builtin::Detach) <==> name@ == "detach"@
                &&& r == Some(Builtin::Dock) <==> name@ == "dock"@
            },
        forall|b: Builtin, r: &'static str| #[trigger]
            call_ensures(Builtin::name, (b,), r) ==> builtin_named(r@) == Some(b),
        forall|r: Vec<Builtin>| #[trigger]
            call_ensures(Builtin::all, (), r) ==> {
                &&& r@.len() == 4
                &&& r@.no_duplicates()
                &&& forall|b: Builtin| #[trigger] r@.contains(b)
            },
{
    names_differ();
    assert forall|r: Vec<Builtin>| #[trigger] call_ensures(Builtin::all, (), r) implies {
        &&& r@.len() == 4
        &&& r@.no_duplicates()
        &&& forall|b: Builtin| #[trigger] r@.contains(b)
    } by {
        assert forall|b: Builtin| #[trigger] r@.contains(b) by {
            match b {
                Builtin::Clear => {
                    assert(r@[0] == b);
                },
                Builtin::Detach => {
                    assert(r@[1] == b);
                },
                Builtin::Dock => {
                    assert(r@[2] == b);
                },
                Builtin::Help => {
                    assert(r@[3] == b);
                },
            }
        }
    }
}

} // verus!
