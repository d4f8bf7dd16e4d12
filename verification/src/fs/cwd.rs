//! The shell's working directory.

use vstd::prelude::*;
use vstd::string::StringSliceAdditionalSpecFns;

verus! {

/// Longest working directory kept, in bytes, plus one.
pub const CWD_CAPACITY: usize = 128;

/// The working directory: a path of fewer than `CWD_CAPACITY` bytes.
pub struct Cwd {
    path: String,
}

impl View for Cwd {
    type V = Seq<char>;

    closed spec fn view(&self) -> Seq<char> {
        self.path@
    }
}

impl Cwd {
    /// An empty working directory, as before start-up.
    pub fn new() -> (r: Self)
        ensures
            r@ == Seq::<char>::empty(),
    {
        Cwd { path: String::new() }
    }

    /// The working directory.
    pub fn get(&self) -> (r: &str)
        ensures
            r@ == self@,
    {
        self.path.as_str()
    }

    /// Sets the working directory; a path of `CWD_CAPACITY` bytes or more
    /// is refused and leaves it unchanged.
    pub fn set(&mut self, s: &str) -> (r: bool)
        ensures
            r == (s.spec_bytes().len() < CWD_CAPACITY),
            r ==> final(self)@ == s@,
            !r ==> final(self)@ == old(self)@,
    {
        if s.as_bytes().len() >= CWD_CAPACITY {
            return false;
        }
        self.path = s.to_owned();
        true
    }
}

/// Sets the working directory to `default` at start-up; a default of
/// `CWD_CAPACITY` bytes or more is refused and the previous working
/// directory stays.
pub fn init(cwd: &mut Cwd, default: &str)
    ensures
        default.spec_bytes().len() < CWD_CAPACITY ==> final(cwd)@ == default@,
        default.spec_bytes().len() >= CWD_CAPACITY ==> final(cwd)@ == old(cwd)@,
{
    let _ = cwd.set(default);
}

} // verus!
