use vstd::prelude::*;

verus! {

/// The editing mode of a session: exactly one is active at any time.
#[derive(Clone, Copy, Debug, PartialEq, Eq, Structural)]
pub enum Mode {
    Normal,
    Insert,
}

/// The label shown for a mode in the status bar.
pub open spec fn mode_label(m: Mode) -> Seq<char> {
    match m {
        Mode::Normal => "NORMAL"@,
        Mode::Insert => "INSERT"@,
    }
}

impl Mode {
    /// The label of this mode, as the status bar shows it.
    pub fn to_string(&self) -> (r: String)
        ensures
            r@ == mode_label(*self),
    {
        match self {
            Mode::Normal => String::from_str("NORMAL"),
            Mode::Insert => String::from_str("INSERT"),
        }
    }
}

} // verus!
