//! The pseudo-terminal session: sole owner of the master descriptor of the
//! terminal and of the identity of the shell process attached to it.
//!
//! The descriptor is released through `close`, which hands it out once; every
//! later `close` hands out nothing, and `fd` gives nothing after the first.
use vstd::prelude::*;
use crate::text::string_of;

verus! {

/// The shell run when none is configured.
pub open spec fn default_shell() -> Seq<char> {
    seq!['b', 'a', 's', 'h']
}

/// The shell to run: the configured path when it is present and not empty,
/// else the default.
pub open spec fn chosen_shell(configured: Option<String>) -> Seq<char> {
    match configured {
        Some(path) => if path@.len() > 0 {
            path@
        } else {
            default_shell()
        },
        None => default_shell(),
    }
}

/// The shell path given at session construction (from `$SHELL`, say), or the default.
pub fn shell_path(configured: Option<String>) -> (r: String)
    ensures
        r@ == chosen_shell(configured),
{
    match configured {
        Some(path) => {
            if path.as_str().is_empty() {
                string_of(&vec!['b', 'a', 's', 'h'])
            } else {
                path
            }
        },
        None => string_of(&vec!['b', 'a', 's', 'h']),
    }
}

/// A shell session: the master descriptor of its terminal and the shell's process id.
pub struct Pty {
    fd: i32,
    child: i32,
    open: bool,
}

impl Pty {
    /// The master descriptor.
    pub closed spec fn master(&self) -> i32 {
        self.fd
    }

    /// The shell's process id.
    pub closed spec fn shell_pid(&self) -> i32 {
        self.child
    }

    /// The session still owns its descriptor.
    pub closed spec fn owns_fd(&self) -> bool {
        self.open
    }

    /// The session after it released its descriptor.
    pub closed spec fn after_close(&self) -> Pty {
        Pty { open: false, ..*self }
    }

    /// What `close` hands out for release: the descriptor, while it is still owned.
    pub open spec fn released_by_close(&self) -> Option<i32> {
        if self.owns_fd() {
            Some(self.master())
        } else {
            None
        }
    }

    /// Takes ownership of the master descriptor `fd` of a terminal whose shell is `child`.
    pub fn new(fd: i32, child: i32) -> (r: Pty)
        requires
            fd >= 0,
        ensures
            r.master() == fd,
            r.shell_pid() == child,
            r.owns_fd(),
    {
        Pty { fd, child, open: true }
    }

    /// The descriptor to read and write through, while the session owns it.
    pub fn fd(&self) -> (r: Option<i32>)
        ensures
            r == (if self.owns_fd() {
                Some(self.master())
            } else {
                None
            }),
    {
        if self.open {
            Some(self.fd)
        } else {
            None
        }
    }

    /// The shell's process id.
    pub fn child(&self) -> (r: i32)
        ensures
            r == self.shell_pid(),
    {
        self.child
    }

    /// Whether the session still owns its descriptor.
    pub fn is_open(&self) -> (r: bool)
        ensures
            r == self.owns_fd(),
    {
        self.open
    }

    /// Gives up the descriptor: returns it for release the first time, and
    /// nothing on every later call.
    pub fn close(&mut self) -> (r: Option<i32>)
        ensures
            r == old(self).released_by_close(),
            *final(self) == old(self).after_close(),
            !final(self).owns_fd(),
    {
        let r = if self.open {
            Some(self.fd)
        } else {
            None
        };
        self.open = false;
        r
    }
}

/// A second close releases nothing: the descriptor is handed out at most once,
/// and a closed session stays as it is when closed again.
pub proof fn lemma_close_releases_once(p: Pty)
    ensures
        p.after_close().released_by_close() is None,
        p.after_close().after_close() == p.after_close(),
        p.after_close().master() == p.master(),
{
}

} // verus!
