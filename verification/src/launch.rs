//! Launching: the platform invocation one entry means, and the best-effort
//! batch that attempts every entry of a parcel in order. A failed attempt
//! is recorded and nothing more: it never stops the batch, so opening a
//! group of five where one is missing still opens the other four. Failures
//! are reported per entry by the caller, never surfaced as a batch error.

use vstd::prelude::*;

use crate::entry::{Entry, SpecEntry};

verus! {

/// One subprocess invocation: a program and its arguments, ready to spawn.
#[derive(Debug, Clone)]
pub struct Invocation {
    pub program: String,
    pub args: Vec<String>,
}

impl View for Invocation {
    type V = (Seq<char>, Seq<Seq<char>>);

    open spec fn view(&self) -> (Seq<char>, Seq<Seq<char>>) {
        (self.program@, self.args.deep_view())
    }
}

/// The platform invocation that opens one entry, macOS-style: `open -a`
/// for an application name, `open` for a path or URL, and `sh -c` for a
/// shell command.
pub open spec fn spec_launch_invocation(e: SpecEntry) -> (Seq<char>, Seq<Seq<char>>) {
    match e {
        SpecEntry::App(name) => ("open"@, seq!["-a"@, name]),
        SpecEntry::File(path) => ("open"@, seq![path]),
        SpecEntry::Url(u) => ("open"@, seq![u]),
        SpecEntry::Shell(cmd) => ("sh"@, seq!["-c"@, cmd]),
    }
}

/// The invocation that opens this entry.
pub fn launch_invocation(e: &Entry) -> (r: Invocation)
    ensures
        r@ == spec_launch_invocation(e@),
{
    match e {
        Entry::App(name) => {
            let mut args: Vec<String> = Vec::new();
            args.push("-a".to_owned());
            args.push(name.clone());
            proof {
                assert(args.deep_view() =~= seq!["-a"@, name@]);
            }
            Invocation { program: "open".to_owned(), args }
        },
        Entry::File(path) => {
            let mut args: Vec<String> = Vec::new();
            args.push(path.clone());
            proof {
                assert(args.deep_view() =~= seq![path@]);
            }
            Invocation { program: "open".to_owned(), args }
        },
        Entry::Url(u) => {
            let mut args: Vec<String> = Vec::new();
            args.push(u.clone());
            proof {
                assert(args.deep_view() =~= seq![u@]);
            }
            Invocation { program: "open".to_owned(), args }
        },
        Entry::Shell(cmd) => {
            let mut args: Vec<String> = Vec::new();
            args.push("-c".to_owned());
            args.push(cmd.clone());
            proof {
                assert(args.deep_view() =~= seq!["-c"@, cmd@]);
            }
            Invocation { program: "sh".to_owned(), args }
        },
    }
}

/// One parcel's launch run, best-effort. The batch hands the entries out
/// in order, one attempt each; the caller records how each attempt went.
/// What was recorded has no part in which entries remain: a failure is
/// counted and the batch moves on.
#[derive(Debug)]
pub struct LaunchBatch {
    entries: Vec<Entry>,
    next: usize,
    failures: usize,
}

impl LaunchBatch {
    /// The entries of the parcel being opened, in order.
    pub closed spec fn spec_entries(&self) -> Seq<SpecEntry> {
        self.entries.deep_view()
    }

    /// How many attempts have been handed out.
    pub closed spec fn spec_attempted(&self) -> int {
        self.next as int
    }

    /// How many recorded attempts failed.
    pub closed spec fn spec_failures(&self) -> int {
        self.failures as int
    }

    /// Attempts never outnumber the entries, and recorded failures never
    /// outnumber the attempts.
    pub open spec fn wf(&self) -> bool {
        0 <= self.spec_failures() <= self.spec_attempted() <= self.spec_entries().len()
    }

    /// A fresh batch over one parcel's entries.
    pub fn new(entries: Vec<Entry>) -> (b: LaunchBatch)
        ensures
            b.wf(),
            b.spec_entries() == entries.deep_view(),
            b.spec_attempted() == 0,
            b.spec_failures() == 0,
    {
        LaunchBatch { entries, next: 0, failures: 0 }
    }

    /// The next entry to attempt, in order; nothing once every entry has
    /// been handed out. Recorded failures play no part in the answer: the
    /// batch always reaches every entry.
    pub fn next_entry(&mut self) -> (r: Option<Entry>)
        requires
            old(self).wf(),
        ensures
            final(self).wf(),
            final(self).spec_entries() == old(self).spec_entries(),
            final(self).spec_failures() == old(self).spec_failures(),
            old(self).spec_attempted() < old(self).spec_entries().len() ==> (r matches Some(e)
                && e@ == old(self).spec_entries()[old(self).spec_attempted()]
                && final(self).spec_attempted() == old(self).spec_attempted() + 1),
            old(self).spec_attempted() == old(self).spec_entries().len() ==> (r is None
                && final(self).spec_attempted() == old(self).spec_attempted()),
    {
        if self.next < self.entries.len() {
            let e = self.entries[self.next].duplicate();
            self.next = self.next + 1;
            proof {
                assert(e@ == self.entries.deep_view()[self.next - 1]);
            }
            Some(e)
        } else {
            None
        }
    }

    /// Record how the attempt just handed out went, once per attempt. A
    /// failure adds to the count and changes nothing else: position and
    /// remaining entries stay as they were.
    pub fn record(&mut self, ok: bool)
        requires
            old(self).wf(),
            old(self).spec_failures() < old(self).spec_attempted(),
        ensures
            final(self).wf(),
            final(self).spec_entries() == old(self).spec_entries(),
            final(self).spec_attempted() == old(self).spec_attempted(),
            ok ==> final(self).spec_failures() == old(self).spec_failures(),
            !ok ==> final(self).spec_failures() == old(self).spec_failures() + 1,
    {
        if !ok {
            self.failures = self.failures + 1;
        }
    }

    /// How many attempts have been handed out.
    pub fn attempted(&self) -> (n: usize)
        ensures
            n == self.spec_attempted(),
    {
        self.next
    }

    /// How many recorded attempts failed.
    pub fn failures(&self) -> (n: usize)
        ensures
            n == self.spec_failures(),
    {
        self.failures
    }
}

} // verus!
