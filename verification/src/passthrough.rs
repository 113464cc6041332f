//! What of a request is forwarded.

use vstd::prelude::*;
use vstd::string::*;

use crate::text::same_text;

verus! {

/// What of a request is forwarded.
#[derive(Clone, Copy, Debug, PartialEq, Eq, Structural)]
pub enum Passthrough {
    /// The raw body alone.
    Body,
    /// A JSON envelope with the method, the path, the headers and the body.
    Full,
}

/// The mode that a name stands for.
pub open spec fn mode_named(name: Seq<char>) -> Option<Passthrough> {
    if name == "body"@ {
        Some(Passthrough::Body)
    } else if name == "full"@ {
        Some(Passthrough::Full)
    } else {
        None
    }
}

/// The complaint about a name that stands for no mode.
pub open spec fn no_such_mode(name: Seq<char>) -> Seq<char> {
    "invalid passthrough mode '"@ + name + "': expected 'body' or 'full'"@
}

impl std::str::FromStr for Passthrough {
    type Err = String;

    /// The mode with the given name. The error names the name that is none, and the two that are.
    fn from_str(s: &str) -> (res: Result<Passthrough, String>)
        ensures
            mode_named(s@) matches Some(mode) ==> res == Ok::<Passthrough, String>(mode),
            mode_named(s@) is None ==> res is Err && res->Err_0@ == no_such_mode(s@),
            s@ == "body"@ ==> (res matches Ok(mode) && mode == Passthrough::Body),
            s@ == "full"@ ==> (res matches Ok(mode) && mode == Passthrough::Full),
            s@ != "body"@ && s@ != "full"@ ==> (res matches Err(message) && message@
                == "invalid passthrough mode '"@ + s@ + "': expected 'body' or 'full'"@),
    {
        proof {
            the_modes_have_these_names(s@);
        }
        if same_text(s, "body") {
            Ok(Passthrough::Body)
        } else if same_text(s, "full") {
            Ok(Passthrough::Full)
        } else {
            let mut message: String = "invalid passthrough mode '".to_owned();
            message.append(s);
            message.append("': expected 'body' or 'full'");
            Err(message)
        }
    }
}

impl Passthrough {
    /// The name of the mode.
    pub open spec fn name(self) -> Seq<char> {
        match self {
            Passthrough::Body => "body"@,
            Passthrough::Full => "full"@,
        }
    }
}

/// The names of the modes are distinct, and each stands for its mode.
pub proof fn names_stand_for_their_modes(mode: Passthrough, other: Passthrough)
    ensures
        mode_named(mode.name()) == Some(mode),
        mode.name() == other.name() ==> mode == other,
{
    reveal_strlit("body");
    reveal_strlit("full");
    assert("body"@[0] == 'b');
    assert("full"@[0] == 'f');
}

/// The name of the body mode is `body`, that of the full mode `full`, and no other name is that of
/// a mode.
pub proof fn the_modes_have_these_names(name: Seq<char>)
    ensures
        mode_named(name) == Some(Passthrough::Body) <==> name == "body"@,
        mode_named(name) == Some(Passthrough::Full) <==> name == "full"@,
        "body"@ != "full"@,
        Passthrough::Body.name() == "body"@,
        Passthrough::Full.name() == "full"@,
        no_such_mode(name) == "invalid passthrough mode '"@ + name
            + "': expected 'body' or 'full'"@,
{
    reveal_strlit("body");
    reveal_strlit("full");
    assert("body"@[0] == 'b');
    assert("full"@[0] == 'f');
}

} // verus!
