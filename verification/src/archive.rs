use vstd::prelude::*;

verus! {

/// File mode of the plain metadata members.
pub const MODE_META: u32 = 0o644;

/// File mode of the maintainer script members.
pub const MODE_SCRIPT: u32 = 0o755;

/// One named blob of the control archive.
pub struct ArchiveEntry {
    pub name: String,
    pub data: Vec<u8>,
    pub mode: u32,
    pub mtime: u64,
}

/// Mathematical image of one archive entry.
pub ghost struct EntryView {
    pub name: Seq<char>,
    pub data: Seq<u8>,
    pub mode: u32,
    pub mtime: u64,
}

impl View for ArchiveEntry {
    type V = EntryView;

    open spec fn view(&self) -> EntryView {
        EntryView { name: self.name@, data: self.data@, mode: self.mode, mtime: self.mtime }
    }
}

/// Some entry of `s` is named `name`.
pub open spec fn has_name(s: Seq<EntryView>, name: Seq<char>) -> bool {
    exists|i: int| 0 <= i < s.len() && s[i].name == name
}

/// Entry names are unique, modes are the two permitted ones, and every entry
/// carries the build timestamp `time`.
pub open spec fn entries_wf(s: Seq<EntryView>, time: u64) -> bool {
    &&& forall|i: int, j: int| 0 <= i < j < s.len() ==> s[i].name != s[j].name
    &&& forall|i: int|
        0 <= i < s.len() ==> (s[i].mode == MODE_META || s[i].mode == MODE_SCRIPT)
    &&& forall|i: int| 0 <= i < s.len() ==> s[i].mtime == time
}

/// The ordered, uniquely named member list of one control archive, every
/// member stamped with the same build timestamp.
pub struct ControlArchive {
    entries: Vec<ArchiveEntry>,
    mtime: u64,
}

impl View for ControlArchive {
    type V = Seq<EntryView>;

    closed spec fn view(&self) -> Seq<EntryView> {
        self.entries@.map_values(|e: ArchiveEntry| e@)
    }
}

impl ControlArchive {
    /// The timestamp every member is tagged with.
    pub closed spec fn timestamp(&self) -> u64 {
        self.mtime
    }

    pub open spec fn wf(&self) -> bool {
        entries_wf(self@, self.timestamp())
    }

    pub fn new(time: u64) -> (r: ControlArchive)
        ensures
            r@ =~= Seq::<EntryView>::empty(),
            r.timestamp() == time,
            r.wf(),
    {
        let r = ControlArchive { entries: Vec::new(), mtime: time };
        assert(r@ =~= Seq::<EntryView>::empty());
        r
    }

    /// Appends one member named `name`, stamped with the archive's timestamp.
    pub fn file(&mut self, name: &str, data: Vec<u8>, mode: u32)
        requires
            old(self).wf(),
            !has_name(old(self)@, name@),
            mode == MODE_META || mode == MODE_SCRIPT,
        ensures
            final(self)@ == old(self)@.push(
                EntryView { name: name@, data: data@, mode, mtime: old(self).timestamp() },
            ),
            final(self).timestamp() == old(self).timestamp(),
            final(self).wf(),
    {
        let ghost prev = self@;
        let mtime = self.mtime;
        let entry = ArchiveEntry { name: name.to_owned(), data, mode, mtime };
        let ghost ev = entry@;
        self.entries.push(entry);
        proof {
            assert(self@ =~= prev.push(ev));
            assert forall|i: int, j: int| 0 <= i < j < self@.len() implies self@[i].name
                != self@[j].name by {
                if j < prev.len() {
                } else {
                    assert(self@[j].name == name@);
                    assert(0 <= i < prev.len() && prev[i].name == name@ ==> has_name(
                        prev,
                        name@,
                    ));
                }
            }
        }
    }

    /// Hands the finished member list out.
    pub fn into_entries(self) -> (r: Vec<ArchiveEntry>)
        ensures
            r@.map_values(|e: ArchiveEntry| e@) == self@,
    {
        self.entries
    }
}

} // verus!
