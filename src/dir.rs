//! The decisions of a tail reader over a journal directory.
//!
//! The reader tails one active file: the newest file of the directory that
//! follows the naming convention. When a new entry appears it lists the
//! directory again; if a strictly newer file exists, it keeps reading the
//! active file until a read finds nothing more, and only then switches to the
//! newer one, from its first byte. When the active file cannot be read, a
//! newer file replaces it at once; without one the sequence ends.
//!
//! [`DirControl`] holds that state under the caller's lock and says at each
//! point what the reader does next.
use vstd::prelude::*;
use crate::gate::{WakeGate, signal_spec, suspend_spec, resume_spec};
use crate::names::{
    is_newest,
    lex_less,
    lex_less_exec,
    select_newest,
};

verus! {

/// What the directory reader does next.
#[derive(Debug, Clone, Copy, PartialEq, Eq, Structural)]
pub enum DirStep {
    /// Read the records that are ready in the active file.
    ReadActive,
    /// Hand the records just read to the consumer.
    Yield,
    /// List the directory and report the names with `after_rescan`.
    Rescan,
    /// Open the (new) active file from its first byte, then read it.
    Switch,
    /// Park until woken.
    Park,
    /// The active file failed and no newer one exists: end the sequence.
    Stop,
}

/// The state of a directory reader, with names as byte strings.
pub struct DirModel {
    pub prefix: Seq<u8>,
    pub suffix: Seq<u8>,
    pub active: Option<Seq<u8>>,
    pub candidate: Option<Seq<u8>>,
    pub entries_changed: bool,
    pub failed: bool,
    pub gate: WakeGate,
}

pub struct DirControl {
    /// The naming convention of the files to tail.
    pub prefix: Vec<u8>,
    pub suffix: Vec<u8>,
    /// The file being tailed, if any.
    pub active: Option<Vec<u8>>,
    /// A newer file, to switch to once the active one is drained.
    pub candidate: Option<Vec<u8>>,
    /// A new directory entry was reported since the last listing.
    pub entries_changed: bool,
    /// The last read of the active file failed.
    pub failed: bool,
    pub gate: WakeGate,
}

pub open spec fn name_view(o: Option<Vec<u8>>) -> Option<Seq<u8>> {
    match o {
        Some(v) => Some(v@),
        None => None,
    }
}

impl DirControl {
    pub open spec fn model(&self) -> DirModel {
        DirModel {
            prefix: self.prefix@,
            suffix: self.suffix@,
            active: name_view(self.active),
            candidate: name_view(self.candidate),
            entries_changed: self.entries_changed,
            failed: self.failed,
            gate: self.gate,
        }
    }
}

/// The newest name of the listing that follows the convention, if any.
pub open spec fn newest_name(names: Seq<Seq<u8>>, prefix: Seq<u8>, suffix: Seq<u8>) -> Option<
    Seq<u8>,
> {
    if exists|i: int| is_newest(names, i, prefix, suffix) {
        Some(names[choose|i: int| is_newest(names, i, prefix, suffix)])
    } else {
        None
    }
}

/// The listing holds a file strictly newer than the active one (any file,
/// when none is active).
pub open spec fn newer_name(m: DirModel, names: Seq<Seq<u8>>) -> Option<Seq<u8>> {
    match newest_name(names, m.prefix, m.suffix) {
        Some(n) => match m.active {
            Some(a) => if lex_less(a, n) {
                Some(n)
            } else {
                None
            },
            None => Some(n),
        },
        None => None,
    }
}

/// Suspends the reader on its `WakeGate`: park, or read again when a signal was
/// pending.
pub open spec fn suspend_dir(m: DirModel) -> (DirModel, DirStep) {
    let (g, park) = suspend_spec(m.gate);
    (DirModel { gate: g, ..m }, if park {
        DirStep::Park
    } else {
        DirStep::ReadActive
    })
}

/// The state and step after a read of the active file that found records or
/// found none.
pub open spec fn dir_after_read_spec(m: DirModel, found: bool) -> (DirModel, DirStep) {
    if found {
        (m, DirStep::Yield)
    } else if m.candidate is Some {
        (DirModel { active: m.candidate, candidate: None, ..m }, DirStep::Switch)
    } else if m.entries_changed {
        (DirModel { entries_changed: false, ..m }, DirStep::Rescan)
    } else {
        suspend_dir(m)
    }
}

/// The state and step after a read of the active file failed.
pub open spec fn dir_after_error_spec(m: DirModel) -> (DirModel, DirStep) {
    (DirModel { failed: true, entries_changed: false, ..m }, DirStep::Rescan)
}

/// The state and step after the directory was listed.
pub open spec fn dir_after_rescan_spec(m: DirModel, names: Seq<Seq<u8>>) -> (DirModel, DirStep) {
    match newer_name(m, names) {
        Some(n) => if m.failed || m.active is None {
            (DirModel { active: Some(n), candidate: None, failed: false, ..m }, DirStep::Switch)
        } else {
            (DirModel { candidate: Some(n), ..m }, DirStep::ReadActive)
        },
        None => if m.failed {
            (m, DirStep::Stop)
        } else {
            suspend_dir(m)
        },
    }
}

/// The state and step when the parked reader wakes.
pub open spec fn dir_wake_spec(m: DirModel) -> (DirModel, DirStep) {
    let (g, go_on) = resume_spec(m.gate);
    if !go_on {
        (DirModel { gate: g, ..m }, DirStep::Park)
    } else if m.entries_changed {
        (DirModel { gate: g, entries_changed: false, ..m }, DirStep::Rescan)
    } else {
        (DirModel { gate: g, ..m }, DirStep::ReadActive)
    }
}

/// The state after a new entry appeared in the directory.
pub open spec fn dir_entry_spec(m: DirModel) -> DirModel {
    DirModel { entries_changed: true, gate: signal_spec(m.gate), ..m }
}

/// The state after the active file's content changed.
pub open spec fn dir_content_spec(m: DirModel) -> DirModel {
    DirModel { gate: signal_spec(m.gate), ..m }
}

proof fn lemma_lex_total(a: Seq<u8>, b: Seq<u8>)
    requires
        !lex_less(a, b),
        !lex_less(b, a),
    ensures
        a == b,
    decreases a.len(),
{
    if a.len() > 0 && b.len() > 0 {
        lemma_lex_total(a.skip(1), b.skip(1));
        assert(a =~= seq![a[0]] + a.skip(1));
        assert(b =~= seq![b[0]] + b.skip(1));
    } else {
        assert(a =~= b);
    }
}

proof fn lemma_newest_name(names: Seq<Seq<u8>>, i: int, prefix: Seq<u8>, suffix: Seq<u8>)
    requires
        is_newest(names, i, prefix, suffix),
    ensures
        newest_name(names, prefix, suffix) == Some(names[i]),
{
    let k = choose|k: int| is_newest(names, k, prefix, suffix);
    assert(!lex_less(names[i], names[k]));
    assert(!lex_less(names[k], names[i]));
    lemma_lex_total(names[i], names[k]);
}

fn copy_name(v: &Vec<u8>) -> (r: Vec<u8>)
    ensures
        r@ == v@,
{
    let mut r: Vec<u8> = Vec::new();
    let mut i: usize = 0;
    while i < v.len()
        invariant
            i <= v@.len(),
            r@ == v@.take(i as int),
        decreases v@.len() - i,
    {
        r.push(v[i]);
        assert(r@ =~= v@.take(i + 1));
        i = i + 1;
    }
    assert(v@.take(i as int) =~= v@);
    r
}

impl DirControl {
    /// A reader of the files named `prefix ... suffix`, with no active file
    /// yet. The directory must be listed first: the reader starts with
    /// [`DirStep::Rescan`] pending.
    pub fn new(prefix: Vec<u8>, suffix: Vec<u8>) -> (r: Self)
        ensures
            r.model() == (DirModel {
                prefix: prefix@,
                suffix: suffix@,
                active: None,
                candidate: None,
                entries_changed: true,
                failed: false,
                gate: WakeGate { pending: false, waiting: false },
            }),
    {
        DirControl {
            prefix,
            suffix,
            active: None,
            candidate: None,
            entries_changed: true,
            failed: false,
            gate: WakeGate::new(),
        }
    }

    fn suspend(&mut self) -> (r: DirStep)
        requires
            !old(self).gate.waiting,
        ensures
            (final(self).model(), r) == suspend_dir(old(self).model()),
    {
        if self.gate.begin_suspend() {
            DirStep::Park
        } else {
            DirStep::ReadActive
        }
    }

    /// The step after a read of the active file. With no active file, the
    /// caller reports an empty read.
    pub fn after_read(&mut self, found: bool) -> (r: DirStep)
        requires
            !old(self).gate.waiting,
        ensures
            (final(self).model(), r) == dir_after_read_spec(old(self).model(), found),
    {
        if found {
            DirStep::Yield
        } else if self.candidate.is_some() {
            self.active = self.candidate.take();
            DirStep::Switch
        } else if self.entries_changed {
            self.entries_changed = false;
            DirStep::Rescan
        } else {
            self.suspend()
        }
    }

    /// The step after a read of the active file failed: look for a newer
    /// file.
    pub fn after_read_error(&mut self) -> (r: DirStep)
        ensures
            (final(self).model(), r) == dir_after_error_spec(old(self).model()),
    {
        self.failed = true;
        self.entries_changed = false;
        DirStep::Rescan
    }

    /// The step after the directory was listed; `names` are its entries.
    pub fn after_rescan(&mut self, names: &Vec<Vec<u8>>) -> (r: DirStep)
        requires
            !old(self).gate.waiting,
        ensures
            (final(self).model(), r) == dir_after_rescan_spec(
                old(self).model(),
                names@.map_values(|n: Vec<u8>| n@),
            ),
    {
        let ghost ns = names@.map_values(|n: Vec<u8>| n@);
        let ghost m = self.model();
        let newest = select_newest(names, self.prefix.as_slice(), self.suffix.as_slice());
        let newer: Option<usize> = match newest {
            Some(i) => {
                proof {
                    lemma_newest_name(ns, i as int, m.prefix, m.suffix);
                }
                match &self.active {
                    Some(a) => if lex_less_exec(a.as_slice(), names[i].as_slice()) {
                        Some(i)
                    } else {
                        None
                    },
                    None => Some(i),
                }
            },
            None => {
                proof {
                    assert(!exists|i: int| is_newest(ns, i, m.prefix, m.suffix)) by {
                        if exists|i: int| is_newest(ns, i, m.prefix, m.suffix) {
                            let i = choose|i: int| is_newest(ns, i, m.prefix, m.suffix);
                            assert(ns[i] == names@[i]@);
                        }
                    }
                }
                None
            },
        };
        match newer {
            Some(i) => {
                let name = copy_name(&names[i]);
                if self.failed || self.active.is_none() {
                    self.active = Some(name);
                    self.candidate = None;
                    self.failed = false;
                    DirStep::Switch
                } else {
                    self.candidate = Some(name);
                    DirStep::ReadActive
                }
            },
            None => {
                if self.failed {
                    DirStep::Stop
                } else {
                    self.suspend()
                }
            },
        }
    }

    /// The step when the parked reader wakes, spuriously or not.
    pub fn on_wake(&mut self) -> (r: DirStep)
        requires
            old(self).gate.waiting,
        ensures
            (final(self).model(), r) == dir_wake_spec(old(self).model()),
    {
        if !self.gate.resume() {
            DirStep::Park
        } else if self.entries_changed {
            self.entries_changed = false;
            DirStep::Rescan
        } else {
            DirStep::ReadActive
        }
    }

    /// A new entry appeared in the directory. Returns whether the parked
    /// reader must be woken.
    pub fn on_entry_created(&mut self) -> (wake: bool)
        ensures
            final(self).model() == dir_entry_spec(old(self).model()),
            wake == old(self).gate.waiting,
    {
        self.entries_changed = true;
        self.gate.signal()
    }

    /// The active file's content changed. Returns whether the parked reader
    /// must be woken.
    pub fn on_content_changed(&mut self) -> (wake: bool)
        ensures
            final(self).model() == dir_content_spec(old(self).model()),
            wake == old(self).gate.waiting,
    {
        self.gate.signal()
    }
}

/// Rollover is complete: when a listing shows a file strictly newer than the
/// active one, the reader first reads the active file again; as long as reads
/// find records it yields them and keeps the active file; the first read that
/// finds nothing switches to the newer file, with no other call needed.
pub proof fn lemma_rollover_drains_first(m: DirModel, names: Seq<Seq<u8>>, n: Seq<u8>)
    requires
        !m.failed,
        m.active is Some,
        newest_name(names, m.prefix, m.suffix) == Some(n),
        lex_less(m.active->Some_0, n),
    ensures
        ({
            let (m1, step) = dir_after_rescan_spec(m, names);
            &&& step == DirStep::ReadActive
            &&& m1.active == m.active
            &&& m1.candidate == Some(n)
            &&& dir_after_read_spec(m1, true) == (m1, DirStep::Yield)
            &&& dir_after_read_spec(m1, false) == (DirModel {
                active: Some(n),
                candidate: None,
                ..m1
            }, DirStep::Switch)
        }),
{
}

/// A read that finds records never changes the active file.
pub proof fn lemma_no_switch_while_records(m: DirModel)
    ensures
        dir_after_read_spec(m, true) == (m, DirStep::Yield),
{
}

} // verus!
