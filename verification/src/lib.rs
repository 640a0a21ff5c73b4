use vstd::prelude::*;
use vstd::string::*;

pub mod board;
pub mod text;
pub mod colorize;
pub mod colors;
pub mod grid;
pub mod mail;
pub mod framebuffer;
pub mod kernel_framebuffer;
pub mod dcache;
pub mod vga;
pub mod console;
pub mod print;
pub mod panic;
pub mod driver;
pub mod time;
pub mod memory;

verus! {

/// Version string: `<package name> version <package version>`.
pub fn version(name: &str, ver: &str) -> (s: String)
    ensures
        s@ == name@ + " version "@ + ver@,
{
    let mut s = name.to_owned();
    s.append(" version ");
    s.append(ver);
    assert(s@ =~= name@ + " version "@ + ver@);
    s
}

} // verus!
