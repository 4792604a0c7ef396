//! The failures that the daemon reports.

use vstd::prelude::*;

verus! {

#[derive(Debug, Clone)]
pub enum Error {
    /// A setting that makes no sense.
    Config(String),
    /// There is no configuration file at this path.
    ConfigMissing(String),
    /// The configuration file does not parse.
    ConfigParse(String),
    /// Reading or writing a file failed.
    Io(String),
    /// A keyboard device, the injector or a socket failed.
    Evdev(String),
    /// The keymap compiler rejected a layout list.
    XkbCompile { layout: String, variant: String },
    /// No device looks like a keyboard.
    NoKeyboards,
}

} // verus!
