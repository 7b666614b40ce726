//! The rules of sandboxed file access from scripts: which names are
//! accepted, where they land under the root, the write budget, the number of
//! open handles, and the summary of what a script left on disk.
use vstd::prelude::*;
use crate::namemap::{keys_distinct, lemma_map_of_dom, lemma_map_of_value, map_of, NameMap};
use crate::order::{insert_sorted, sorted_strict};
use crate::text::{chars_of, decimal, owned, push_decimal, push_str, views};

verus! {

broadcast use vstd::seq_lib::group_seq_properties;

/// How many files a script may hold open at once.
pub const MAX_OPEN_HANDLES: usize = 64;

// ---------------------------------------------------------------------------
// File names
// ---------------------------------------------------------------------------

/// `..` is a whole `/`-separated segment of `s` at position `i`.
pub open spec fn parent_segment_at(s: Seq<char>, i: int) -> bool {
    &&& 0 <= i && i + 2 <= s.len()
    &&& s[i] == '.' && s[i + 1] == '.'
    &&& (i == 0 || s[i - 1] == '/')
    &&& (i + 2 == s.len() || s[i + 2] == '/')
}

/// Why a script's file name is refused, if it is: empty, a NUL character,
/// absolute (a leading `/`), or a `..` segment.
pub open spec fn filename_error(name: Seq<char>) -> Option<Seq<char>> {
    if name.len() == 0 {
        Some("filename cannot be empty"@)
    } else if name.contains('\0') {
        Some("filename cannot contain null bytes"@)
    } else if name[0] == '/' {
        Some("filename must be relative, got absolute path"@)
    } else if exists|i: int| parent_segment_at(name, i) {
        Some("filename cannot contain '..' path traversal"@)
    } else {
        None
    }
}

/// Checks a script's file name (see `filename_error`).
pub fn check_filename(name: &str) -> (r: Result<(), String>)
    ensures
        match filename_error(name@) {
            Some(e) => r matches Err(m) && m@ == e,
            None => r is Ok,
        },
{
    let cs = chars_of(name);
    let n = cs.len();
    if n == 0 {
        return Err(owned("filename cannot be empty"));
    }
    let mut i: usize = 0;
    while i < n
        invariant
            n == cs@.len(),
            cs@ == name@,
            i <= n,
            forall|j: int| 0 <= j < i ==> cs@[j] != '\0',
        decreases n - i,
    {
        if cs[i] == '\0' {
            assert(name@.contains('\0')) by {
                assert(name@[i as int] == '\0');
            }
            return Err(owned("filename cannot contain null bytes"));
        }
        i = i + 1;
    }
    if cs[0] == '/' {
        return Err(owned("filename must be relative, got absolute path"));
    }
    assert(!name@.contains('\0'));
    let mut i: usize = 0;
    while i < n - 1
        invariant
            n == cs@.len(),
            n >= 1,
            i <= n - 1,
            cs@ == name@,
            !name@.contains('\0'),
            name@[0] != '/',
            forall|j: int| 0 <= j < i ==> !parent_segment_at(name@, j),
        decreases n - i,
    {
        if cs[i] == '.' && cs[i + 1] == '.' && (i == 0 || cs[i - 1] == '/') && (i + 2 == n
            || cs[i + 2] == '/') {
            assert(parent_segment_at(name@, i as int));
            return Err(owned("filename cannot contain '..' path traversal"));
        }
        i = i + 1;
    }
    assert forall|j: int| !parent_segment_at(name@, j) by {
        if 0 <= j && j + 2 <= name@.len() {
            assert(j < i);
        }
    }
    Ok(())
}

/// `name` under `root`, with a `/` between them unless `root` is empty or
/// already ends with one (`PathBuf::join` for a relative name).
pub open spec fn join_path(root: Seq<char>, name: Seq<char>) -> Seq<char> {
    if root.len() == 0 || root.last() == '/' {
        root + name
    } else {
        root + "/"@ + name
    }
}

/// A name that is accepted stays under the root: the joined path starts
/// with the root, and the name is relative, holds no null byte and no `..`
/// segment.
pub proof fn law_accepted_names_stay_under_root(root: Seq<char>, name: Seq<char>)
    requires
        filename_error(name) is None,
    ensures
        join_path(root, name).take(root.len() as int) == root,
        join_path(root, name).skip(join_path(root, name).len() - name.len()) == name,
        name.len() > 0 && name[0] != '/',
        !name.contains('\0'),
        forall|i: int| !parent_segment_at(name, i),
{
    let p = join_path(root, name);
    assert(p.take(root.len() as int) =~= root);
    assert(p.skip(p.len() - name.len()) =~= name);
}

/// Joins a relative name to a root directory (see `join_path`).
pub fn join(root: &str, name: &str) -> (r: String)
    ensures
        r@ == join_path(root@, name@),
{
    let cs = chars_of(root);
    let mut r = owned(root);
    if cs.len() == 0 || cs[cs.len() - 1] == '/' {
        push_str(&mut r, name);
    } else {
        push_str(&mut r, "/");
        push_str(&mut r, name);
    }
    r
}

/// The message when a write would exceed the budget.
pub open spec fn budget_error(max_bytes: u64) -> Seq<char> {
    "output size limit exceeded ("@ + decimal(max_bytes as nat) + " bytes)"@
}

fn budget_message(max_bytes: u64) -> (r: String)
    ensures
        r@ == budget_error(max_bytes),
{
    let mut m = owned("output size limit exceeded (");
    push_decimal(&mut m, max_bytes);
    push_str(&mut m, " bytes)");
    m
}

// ---------------------------------------------------------------------------
// IoContext
// ---------------------------------------------------------------------------

/// The file-access state of one script execution.
#[derive(Debug)]
pub struct IoContext {
    root: String,
    max_bytes: u64,
    bytes_written: u64,
    open_handles: usize,
    files_touched: NameMap<String>,
}

/// What happened to a file a script touched.
#[derive(Debug, Clone, PartialEq, Eq)]
pub struct FileTouched {
    pub name: String,
    pub path: String,
    /// `write` when the file exists afterwards, `remove` when it does not.
    pub op: String,
    pub bytes: u64,
}

/// The names of a list of touched files.
pub open spec fn touched_names(v: Seq<FileTouched>) -> Seq<Seq<char>> {
    v.map_values(|f: FileTouched| f.name@)
}

impl IoContext {
    #[verifier::type_invariant]
    closed spec fn inv(self) -> bool {
        &&& self.bytes_written <= self.max_bytes
        &&& self.open_handles <= MAX_OPEN_HANDLES
    }

    /// The directory the script's names are relative to.
    pub closed spec fn root_dir(&self) -> Seq<char> {
        self.root@
    }

    /// The write budget in bytes.
    pub closed spec fn budget(&self) -> u64 {
        self.max_bytes
    }

    /// The bytes written so far.
    pub closed spec fn written(&self) -> u64 {
        self.bytes_written
    }

    /// The handles open now.
    pub closed spec fn handles(&self) -> usize {
        self.open_handles
    }

    /// The files touched so far, by the name the script used, with their
    /// absolute paths.
    pub closed spec fn touched_map(&self) -> Map<Seq<char>, Seq<char>> {
        self.files_touched@.map_values(|p: String| p@)
    }

    /// A fresh context for a root directory and a write budget.
    pub fn new(root: String, max_bytes: u64) -> (r: IoContext)
        ensures
            r.root_dir() == root@,
            r.budget() == max_bytes,
            r.written() == 0,
            r.handles() == 0,
            r.touched_map() == Map::<Seq<char>, Seq<char>>::empty(),
    {
        let files_touched = NameMap::new();
        assert(files_touched@.map_values(|p: String| p@) =~= Map::<Seq<char>, Seq<char>>::empty());
        IoContext { root, max_bytes, bytes_written: 0, open_handles: 0, files_touched }
    }

    /// The bytes written so far.
    pub fn bytes_written(&self) -> (r: u64)
        ensures
            r == self.written(),
            r <= self.budget(),
    {
        proof {
            use_type_invariant(self);
        }
        self.bytes_written
    }

    /// The handles open now.
    pub fn open_handles(&self) -> (r: usize)
        ensures
            r == self.handles(),
            r <= MAX_OPEN_HANDLES,
    {
        proof {
            use_type_invariant(self);
        }
        self.open_handles
    }

    /// The directory the script's names are relative to.
    pub fn root(&self) -> (r: &String)
        ensures
            r@ == self.root_dir(),
    {
        &self.root
    }

    /// The files touched so far, by the names the script used.
    pub fn files_touched(&self) -> (r: &NameMap<String>)
        ensures
            r@.map_values(|p: String| p@) == self.touched_map(),
    {
        &self.files_touched
    }

    /// Checks a script's file name and resolves it under the root.
    pub fn resolve(&self, filename: &str) -> (r: Result<String, String>)
        ensures
            match filename_error(filename@) {
                Some(e) => r matches Err(m) && m@ == e,
                None => r matches Ok(p) && p@ == join_path(self.root_dir(), filename@),
            },
    {
        match check_filename(filename) {
            Err(e) => Err(e),
            Ok(()) => Ok(join(self.root.as_str(), filename)),
        }
    }

    /// Accounts for `n` more bytes of writing; refused, with nothing
    /// counted, when the total would exceed the budget.
    pub fn track_write(&mut self, n: u64) -> (r: Result<(), String>)
        ensures
            old(self).written() + n > old(self).budget() ==> (r matches Err(m) && m@
                == budget_error(old(self).budget()) && *final(self) == *old(self)),
            old(self).written() + n <= old(self).budget() ==> (r is Ok && final(self).written()
                == old(self).written() + n && final(self).budget() == old(self).budget()
                && final(self).root_dir() == old(self).root_dir() && final(self).handles()
                == old(self).handles() && final(self).touched_map() == old(self).touched_map()),
    {
        proof {
            use_type_invariant(&*self);
        }
        if n > self.max_bytes - self.bytes_written {
            return Err(budget_message(self.max_bytes));
        }
        self.bytes_written = self.bytes_written + n;
        Ok(())
    }

    /// Takes a handle slot; refused, with nothing taken, when all are in use.
    pub fn acquire_handle(&mut self) -> (r: Result<(), String>)
        ensures
            old(self).handles() >= MAX_OPEN_HANDLES ==> (r matches Err(m) && m@
                == "too many open files (max 64)"@ && *final(self) == *old(self)),
            old(self).handles() < MAX_OPEN_HANDLES ==> (r is Ok && final(self).handles()
                == old(self).handles() + 1 && final(self).written() == old(self).written()
                && final(self).budget() == old(self).budget() && final(self).root_dir()
                == old(self).root_dir() && final(self).touched_map() == old(self).touched_map()),
    {
        proof {
            use_type_invariant(&*self);
        }
        if self.open_handles >= MAX_OPEN_HANDLES {
            return Err(owned("too many open files (max 64)"));
        }
        self.open_handles = self.open_handles + 1;
        Ok(())
    }

    /// Gives back a handle slot.
    pub fn release_handle(&mut self)
        requires
            old(self).handles() > 0,
        ensures
            final(self).handles() == old(self).handles() - 1,
            final(self).written() == old(self).written(),
            final(self).budget() == old(self).budget(),
            final(self).root_dir() == old(self).root_dir(),
            final(self).touched_map() == old(self).touched_map(),
    {
        proof {
            use_type_invariant(&*self);
        }
        self.open_handles = self.open_handles - 1;
    }

    /// Records that the script wrote, appended to or removed a file.
    pub fn record_touch(&mut self, name: &str, abs_path: &str)
        ensures
            final(self).touched_map() == old(self).touched_map().insert(name@, abs_path@),
            final(self).handles() == old(self).handles(),
            final(self).written() == old(self).written(),
            final(self).budget() == old(self).budget(),
            final(self).root_dir() == old(self).root_dir(),
    {
        proof {
            use_type_invariant(&*self);
        }
        let p = owned(abs_path);
        let mut touched: NameMap<String> = NameMap::new();
        std::mem::swap(&mut touched, &mut self.files_touched);
        touched.insert(owned(name), p);
        self.files_touched = touched;
        assert(self.files_touched@.map_values(|p: String| p@) =~= old(self).files_touched@.map_values(|p: String| p@).insert(name@, abs_path@));
    }

    /// What happened to every touched file, sorted by name: a file that
    /// exists afterwards was written (with its size), one that does not was
    /// removed. `on_disk` gives the size of each touched path that exists.
    pub fn collect_final_state(&self, on_disk: &NameMap<u64>) -> (r: Vec<FileTouched>)
        ensures
            sorted_strict(touched_names(r@)),
            touched_names(r@).to_set() == self.touched_map().dom(),
            forall|i: int|
                0 <= i < r@.len() ==> {
                    let f = #[trigger] r@[i];
                    &&& f.path@ == self.touched_map()[f.name@]
                    &&& on_disk@.dom().contains(f.path@) ==> f.op@ == "write"@ && f.bytes
                        == on_disk@[f.path@]
                    &&& !on_disk@.dom().contains(f.path@) ==> f.op@ == "remove"@ && f.bytes == 0
                },
    {
        let es = self.files_touched.entries();
        let mut names: Vec<String> = Vec::new();
        let mut i: usize = 0;
        proof {
            assert(views(names@).to_set() =~= Set::<Seq<char>>::empty());
        }
        while i < es.len()
            invariant
                i <= es@.len(),
                keys_distinct(es@),
                self.files_touched@ == map_of(es@),
                sorted_strict(views(names@)),
                views(names@).to_set() == es@.take(i as int).map_values(
                    |e: (String, String)| e.0@,
                ).to_set(),
            decreases es@.len() - i,
        {
            insert_sorted(&mut names, es[i].0.as_str());
            proof {
                let f = |e: (String, String)| e.0@;
                assert(es@.take(i + 1).map_values(f) =~= es@.take(i as int).map_values(f).push(
                    es@[i as int].0@,
                ));
                assert(es@.take(i as int).map_values(f).push(es@[i as int].0@).to_set()
                    =~= es@.take(i as int).map_values(f).to_set().insert(es@[i as int].0@));
            }
            i = i + 1;
        }
        proof {
            assert(es@.take(es@.len() as int) =~= es@);
            assert(views(names@).to_set() =~= self.touched_map().dom()) by {
                let f = |e: (String, String)| e.0@;
                assert forall|k: Seq<char>| views(names@).to_set().contains(k) <==> self.touched_map().dom().contains(k) by {
                    lemma_map_of_dom(es@, k);
                    if views(names@).to_set().contains(k) {
                        let j = choose|j: int| 0 <= j < es@.map_values(f).len() && es@.map_values(f)[j] == k;
                        assert(es@[j].0@ == k);
                    }
                    if self.touched_map().dom().contains(k) {
                        let j = choose|j: int| 0 <= j < es@.len() && es@[j].0@ == k;
                        assert(es@.map_values(f)[j] == k);
                    }
                }
            }
        }
        let mut r: Vec<FileTouched> = Vec::new();
        let mut k: usize = 0;
        while k < names.len()
            invariant
                k <= names@.len(),
                views(names@).to_set() == self.touched_map().dom(),
                touched_names(r@) == views(names@).take(k as int),
                forall|i: int|
                    0 <= i < r@.len() ==> {
                        let f = #[trigger] r@[i];
                        &&& f.path@ == self.touched_map()[f.name@]
                        &&& on_disk@.dom().contains(f.path@) ==> f.op@ == "write"@ && f.bytes
                            == on_disk@[f.path@]
                        &&& !on_disk@.dom().contains(f.path@) ==> f.op@ == "remove"@ && f.bytes
                            == 0
                    },
            decreases names@.len() - k,
        {
            let name = &names[k];
            proof {
                assert(views(names@).to_set().contains(views(names@)[k as int]));
                self.files_touched.lemma_view();
            }
            let path = match self.files_touched.get(name.as_str()) {
                Some(p) => p.clone(),
                None => owned(""),
            };
            proof {
                on_disk.lemma_view();
            }
            let entry = match on_disk.get(path.as_str()) {
                Some(b) => FileTouched { name: name.clone(), path, op: owned("write"), bytes: *b },
                None => FileTouched { name: name.clone(), path, op: owned("remove"), bytes: 0 },
            };
            let ghost before = r@;
            r.push(entry);
            proof {
                assert(touched_names(r@) =~= touched_names(before).push(names@[k as int]@));
                assert(views(names@).take(k + 1) =~= views(names@).take(k as int).push(
                    names@[k as int]@,
                ));
            }
            k = k + 1;
        }
        proof {
            assert(views(names@).take(names@.len() as int) =~= views(names@));
        }
        r
    }
}

// ---------------------------------------------------------------------------
// Arguments of the file functions
// ---------------------------------------------------------------------------

/// How `io.open` opens a file.
#[derive(Debug, Clone, Copy, PartialEq, Eq)]
pub enum OpenMode {
    Read,
    Write,
    Append,
}

/// Reads the mode argument of `io.open` (default `r`).
pub fn parse_open_mode(mode: Option<&str>) -> (r: Result<OpenMode, String>)
    ensures
        match mode {
            None => r == Ok::<OpenMode, String>(OpenMode::Read),
            Some(m) => if m@ == "r"@ || m@ == "rb"@ {
                r == Ok::<OpenMode, String>(OpenMode::Read)
            } else if m@ == "w"@ || m@ == "wb"@ {
                r == Ok::<OpenMode, String>(OpenMode::Write)
            } else if m@ == "a"@ || m@ == "ab"@ {
                r == Ok::<OpenMode, String>(OpenMode::Append)
            } else {
                r matches Err(e) && e@ == "invalid mode: '"@ + m@ + "'"@
            },
        },
{
    match mode {
        None => Ok(OpenMode::Read),
        Some(m) => {
            if crate::text::str_eq(m, "r") || crate::text::str_eq(m, "rb") {
                Ok(OpenMode::Read)
            } else if crate::text::str_eq(m, "w") || crate::text::str_eq(m, "wb") {
                Ok(OpenMode::Write)
            } else if crate::text::str_eq(m, "a") || crate::text::str_eq(m, "ab") {
                Ok(OpenMode::Append)
            } else {
                let mut e = owned("invalid mode: '");
                push_str(&mut e, m);
                push_str(&mut e, "'");
                Err(e)
            }
        },
    }
}

/// What `:read` reads.
#[derive(Debug, Clone, Copy, PartialEq, Eq)]
pub enum ReadFormat {
    All,
    Line,
    Number,
}

/// What the format argument of `:read` gives; anything but a string means a
/// line.
pub open spec fn read_format_outcome(fmt: Option<&str>, r: Result<ReadFormat, String>) -> bool {
    match fmt {
        None => r == Ok::<ReadFormat, String>(ReadFormat::Line),
        Some(f) => if f@ == "*a"@ || f@ == "a"@ {
            r == Ok::<ReadFormat, String>(ReadFormat::All)
        } else if f@ == "*l"@ || f@ == "l"@ {
            r == Ok::<ReadFormat, String>(ReadFormat::Line)
        } else if f@ == "*n"@ || f@ == "n"@ {
            r == Ok::<ReadFormat, String>(ReadFormat::Number)
        } else {
            r matches Err(e) && e@ == "invalid format argument to read: '"@ + f@ + "'"@
        },
    }
}

/// Reads the format argument of `:read` (see `read_format_outcome`).
pub fn parse_read_format(fmt: Option<&str>) -> (r: Result<ReadFormat, String>)
    ensures
        read_format_outcome(fmt, r),
{
    match fmt {
        None => Ok(ReadFormat::Line),
        Some(f) => {
            if crate::text::str_eq(f, "*a") || crate::text::str_eq(f, "a") {
                Ok(ReadFormat::All)
            } else if crate::text::str_eq(f, "*l") || crate::text::str_eq(f, "l") {
                Ok(ReadFormat::Line)
            } else if crate::text::str_eq(f, "*n") || crate::text::str_eq(f, "n") {
                Ok(ReadFormat::Number)
            } else {
                let mut e = owned("invalid format argument to read: '");
                push_str(&mut e, f);
                push_str(&mut e, "'");
                Err(e)
            }
        },
    }
}

/// Where `:seek` moves.
#[derive(Debug, Clone, Copy, PartialEq, Eq)]
pub enum SeekTarget {
    Start(u64),
    Current(i64),
    End(i64),
}

/// What the arguments of `:seek` give (defaults `cur` and 0).
pub open spec fn seek_outcome(
    whence: Option<&str>,
    offset: Option<i64>,
    r: Result<SeekTarget, String>,
) -> bool {
    let w = match whence {
        Some(w) => w@,
        None => "cur"@,
    };
    let o: i64 = match offset {
        Some(o) => o,
        None => 0,
    };
    if w == "set"@ {
        if o >= 0 {
            r == Ok::<SeekTarget, String>(SeekTarget::Start(o as u64))
        } else {
            r matches Err(e) && e@ == "invalid offset for 'set'"@
        }
    } else if w == "cur"@ {
        r == Ok::<SeekTarget, String>(SeekTarget::Current(o))
    } else if w == "end"@ {
        r == Ok::<SeekTarget, String>(SeekTarget::End(o))
    } else {
        r matches Err(e) && e@ == "invalid whence argument: '"@ + w + "'"@
    }
}

/// Reads the arguments of `:seek` (see `seek_outcome`).
pub fn parse_seek(whence: Option<&str>, offset: Option<i64>) -> (r: Result<SeekTarget, String>)
    ensures
        seek_outcome(whence, offset, r),
{
    let o: i64 = match offset {
        Some(o) => o,
        None => 0,
    };
    let w = match whence {
        Some(w) => owned(w),
        None => owned("cur"),
    };
    if crate::text::str_eq(w.as_str(), "set") {
        if o >= 0 {
            Ok(SeekTarget::Start(o as u64))
        } else {
            Err(owned("invalid offset for 'set'"))
        }
    } else if crate::text::str_eq(w.as_str(), "cur") {
        Ok(SeekTarget::Current(o))
    } else if crate::text::str_eq(w.as_str(), "end") {
        Ok(SeekTarget::End(o))
    } else {
        let mut e = owned("invalid whence argument: '");
        push_str(&mut e, w.as_str());
        push_str(&mut e, "'");
        Err(e)
    }
}

/// A line as read: without its `\n`, and without one `\r` before it.
pub fn finish_line(buf: &mut Vec<u8>)
    ensures
        old(buf)@.len() > 0 && old(buf)@.last() == 13u8 ==> final(buf)@ == old(buf)@.drop_last(),
        !(old(buf)@.len() > 0 && old(buf)@.last() == 13u8) ==> final(buf)@ == old(buf)@,
{
    if buf.len() > 0 && buf[buf.len() - 1] == 13u8 {
        buf.pop();
    }
}

/// A byte that continues a number token of `:read("*n")`: a digit, `.`,
/// a sign or an exponent mark.
pub fn is_number_byte(b: u8) -> (r: bool)
    ensures
        r == ((48 <= b <= 57) || b == 46 || b == 45 || b == 43 || b == 101 || b == 69),
{
    (48 <= b && b <= 57) || b == 46 || b == 45 || b == 43 || b == 101 || b == 69
}

/// What `io.type` says of a file handle.
pub fn handle_type(closed: bool) -> (r: String)
    ensures
        closed ==> r@ == "closed file"@,
        !closed ==> r@ == "file"@,
{
    if closed {
        owned("closed file")
    } else {
        owned("file")
    }
}

/// The error for any use of a handle that was closed.
pub open spec fn closed_file_error() -> Seq<char> {
    "attempt to use a closed file"@
}

/// A handle may be used only while it is open.
pub fn require_open(closed: bool) -> (r: Result<(), String>)
    ensures
        closed ==> (r matches Err(e) && e@ == closed_file_error()),
        !closed ==> r is Ok,
{
    if closed {
        Err(owned("attempt to use a closed file"))
    } else {
        Ok(())
    }
}

/// What `:read` does: a closed handle fails first, whatever the format;
/// otherwise the format argument decides (see `parse_read_format`).
pub fn read_request(closed: bool, fmt: Option<&str>) -> (r: Result<ReadFormat, String>)
    ensures
        closed ==> (r matches Err(e) && e@ == closed_file_error()),
        !closed ==> read_format_outcome(fmt, r),
{
    if closed {
        Err(owned("attempt to use a closed file"))
    } else {
        parse_read_format(fmt)
    }
}

/// What `:seek` does: a closed handle fails first, whatever the arguments;
/// otherwise they decide (see `parse_seek`).
pub fn seek_request(closed: bool, whence: Option<&str>, offset: Option<i64>) -> (r: Result<
    SeekTarget,
    String,
>)
    ensures
        closed ==> (r matches Err(e) && e@ == closed_file_error()),
        !closed ==> seek_outcome(whence, offset, r),
{
    if closed {
        Err(owned("attempt to use a closed file"))
    } else {
        parse_seek(whence, offset)
    }
}

} // verus!
