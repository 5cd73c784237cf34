use vstd::prelude::*;
use crate::chain::PointerChain;
use crate::error::MfError;
use crate::pattern::Matcher;
use crate::scan::Scan;
use crate::synth::{Synthesis, START_SIZE};
use crate::text::{terminated_bytes, StrRead};

verus! {

/// `b` with ASCII upper-case letters turned to lower case.
pub open spec fn fold_ascii(b: u8) -> u8 {
    if 65 <= b <= 90 {
        (b + 32) as u8
    } else {
        b
    }
}

/// Whether `a` and `b` are equal but for the case of ASCII letters.
pub open spec fn eq_ignore_ascii_case(a: Seq<u8>, b: Seq<u8>) -> bool {
    &&& a.len() == b.len()
    &&& forall|i: int| 0 <= i < a.len() ==> #[trigger] fold_ascii(a[i]) == fold_ascii(b[i])
}

/// The UTF-8 bytes of a string.
pub open spec fn utf8_of(s: Seq<char>) -> Seq<u8> {
    vstd::utf8::encode_utf8(s)
}

fn fold_byte(b: u8) -> (r: u8)
    ensures
        r == fold_ascii(b),
{
    if 65 <= b && b <= 90 {
        b + 32
    } else {
        b
    }
}

/// Compares two byte strings, ignoring the case of ASCII letters.
fn bytes_eq_ignore_ascii_case(a: &[u8], b: &[u8]) -> (r: bool)
    ensures
        r == eq_ignore_ascii_case(a@, b@),
{
    if a.len() != b.len() {
        return false;
    }
    let mut i: usize = 0;
    while i < a.len()
        invariant
            i <= a@.len(),
            a@.len() == b@.len(),
            forall|k: int| 0 <= k < i ==> #[trigger] fold_ascii(a@[k]) == fold_ascii(b@[k]),
        decreases a@.len() - i,
    {
        if fold_byte(a[i]) != fold_byte(b[i]) {
            return false;
        }
        i += 1;
    }
    true
}

/// Compares two strings, ignoring the case of ASCII letters.
fn str_eq_ignore_ascii_case(a: &str, b: &str) -> (r: bool)
    ensures
        r == eq_ignore_ascii_case(utf8_of(a@), utf8_of(b@)),
{
    bytes_eq_ignore_ascii_case(a.as_bytes(), b.as_bytes())
}

/// A module loaded in a process.
#[derive(Debug, Clone)]
pub struct ModuleEntry {
    /// File name of the module.
    pub name: String,
    /// Address the module is loaded at.
    pub base: usize,
    /// Size of the module's image in bytes.
    pub size: usize,
}

/// Information about a process running in the system.
#[derive(Debug, Clone)]
pub struct ProcessEntry {
    /// Process id.
    pub id: u32,
    /// Id of the parent process.
    pub parent_id: u32,
    /// Address of the default heap.
    pub default_heap: usize,
    /// Number of threads.
    pub thread_count: u32,
    /// Executable's file name.
    pub path: String,
}

/// Whether the module is named `name`, ignoring ASCII case.
pub open spec fn module_named(m: ModuleEntry, name: Seq<char>) -> bool {
    eq_ignore_ascii_case(utf8_of(m.name@), utf8_of(name))
}

/// Whether the process's executable is named `name`, ignoring ASCII case.
pub open spec fn process_named(p: ProcessEntry, name: Seq<char>) -> bool {
    eq_ignore_ascii_case(utf8_of(p.path@), utf8_of(name))
}

/// Owned handle to another process. Every read of its memory goes through
/// the operating system; the methods here give the logic that decides what
/// to read and what the bytes read mean.
#[derive(Debug)]
pub struct OwnedProcess {
    handle: isize,
}

impl OwnedProcess {
    /// The raw handle.
    pub closed spec fn handle(&self) -> isize {
        self.handle
    }

    /// Takes ownership of the raw handle `h`.
    pub fn from_handle(h: isize) -> (r: Self)
        ensures
            r.handle() == h,
    {
        OwnedProcess { handle: h }
    }

    /// Gives away ownership of the handle.
    pub fn into_handle(self) -> (r: isize)
        ensures
            r == self.handle(),
    {
        self.handle
    }

    /// Picks, among the process's `modules`, the first one named
    /// `module_name` (ignoring ASCII case).
    pub fn find_module(&self, modules: Vec<ModuleEntry>, module_name: &str) -> (r: Result<
        ModuleEntry,
        MfError,
    >)
        ensures
            r is Err <==> forall|i: int| 0 <= i < modules@.len() ==> !module_named(#[trigger] modules@[i], module_name@),
            r is Err ==> r->Err_0 == MfError::ModuleNotFound,
            r is Ok ==> exists|i: int|
                0 <= i < modules@.len() && r->Ok_0 == modules@[i] && module_named(modules@[i], module_name@)
                    && forall|j: int| 0 <= j < i ==> !module_named(#[trigger] modules@[j], module_name@),
    {
        let ghost all = modules@;
        let mut list = modules;
        let mut i: usize = 0;
        while i < list.len()
            invariant
                list@ == all,
                all == modules@,
                i <= all.len(),
                forall|j: int| 0 <= j < i ==> !module_named(#[trigger] all[j], module_name@),
            decreases all.len() - i,
        {
            if str_eq_ignore_ascii_case(list[i].name.as_str(), module_name) {
                let m = list.remove(i);
                assert(m == all[i as int] && module_named(all[i as int], module_name@));
                return Ok(m);
            }
            i += 1;
        }
        Err(MfError::ModuleNotFound)
    }

    /// The lazy scan of `[start, start + len)` for `pat`; see `Scan`.
    pub fn find_pattern<M: Matcher>(&self, pat: M, start: usize, len: usize) -> (r: Scan<M>)
        requires
            pat.elements().len() > 0,
            start + len <= usize::MAX + 1,
        ensures
            r.wf(),
            r == (Scan { pat, start, len, offset: 0, done: false }),
    {
        Scan::new(pat, start, len)
    }

    /// The lazy scan for `pat` over the module named `module_name`, found
    /// among `modules`.
    pub fn find_pattern_in_module<M: Matcher>(
        &self,
        pat: M,
        modules: Vec<ModuleEntry>,
        module_name: &str,
    ) -> (r: Result<Scan<M>, MfError>)
        requires
            pat.elements().len() > 0,
            forall|i: int| 0 <= i < modules@.len() ==> #[trigger] modules@[i].base + modules@[i].size <= usize::MAX + 1,
        ensures
            r is Err <==> forall|i: int| 0 <= i < modules@.len() ==> !module_named(#[trigger] modules@[i], module_name@),
            r is Err ==> r->Err_0 == MfError::ModuleNotFound,
            r is Ok ==> exists|i: int|
                0 <= i < modules@.len() && module_named(modules@[i], module_name@)
                    && (forall|j: int| 0 <= j < i ==> !module_named(#[trigger] modules@[j], module_name@))
                    && r->Ok_0 == (Scan { pat, start: modules@[i].base, len: modules@[i].size, offset: 0, done: false }),
    {
        match self.find_module(modules, module_name) {
            Ok(m) => Ok(self.find_pattern(pat, m.base, m.size)),
            Err(e) => Err(e),
        }
    }

    /// The synthesis of a signature for `target` that is unique within
    /// `[start, start + len)`, bounded by `max` bytes when given; see
    /// `Synthesis`.
    pub fn create_pattern(&self, target: usize, start: usize, len: usize, max: Option<usize>) -> (r:
        Synthesis)
        requires
            start + len <= usize::MAX + 1,
        ensures
            r.wf(),
            r == (Synthesis { target, start, len, max, size: START_SIZE, offset: 0 }),
    {
        Synthesis::new(target, start, len, max)
    }

    /// The synthesis of a signature for `target` that is unique within the
    /// module named `module_name`, found among `modules`.
    pub fn create_pattern_in_module(
        &self,
        target: usize,
        modules: Vec<ModuleEntry>,
        module_name: &str,
        max: Option<usize>,
    ) -> (r: Result<Synthesis, MfError>)
        requires
            forall|i: int| 0 <= i < modules@.len() ==> #[trigger] modules@[i].base + modules@[i].size <= usize::MAX + 1,
        ensures
            r is Err <==> forall|i: int| 0 <= i < modules@.len() ==> !module_named(#[trigger] modules@[i], module_name@),
            r is Err ==> r->Err_0 == MfError::ModuleNotFound,
            r is Ok ==> exists|i: int|
                0 <= i < modules@.len() && module_named(modules@[i], module_name@)
                    && (forall|j: int| 0 <= j < i ==> !module_named(#[trigger] modules@[j], module_name@))
                    && r->Ok_0 == (Synthesis {
                        target,
                        start: modules@[i].base,
                        len: modules@[i].size,
                        max,
                        size: START_SIZE,
                        offset: 0,
                    }),
    {
        match self.find_module(modules, module_name) {
            Ok(m) => Ok(self.create_pattern(target, m.base, m.size, max)),
            Err(e) => Err(e),
        }
    }

    /// The read of the zero-terminated string at `address`; see `StrRead`.
    pub fn read_str(&self, address: usize) -> (r: StrRead)
        ensures
            r.next == address,
            r.bytes@ == Seq::<u8>::empty(),
            !r.done,
    {
        StrRead::new(address)
    }

    /// The bytes that writing `text` at an address puts there: its UTF-8
    /// encoding, then a terminator of four zero bytes (a zero `i32`).
    pub fn write_str(&self, text: &str) -> (r: Vec<u8>)
        ensures
            r@ == utf8_of(text@) + seq![0u8, 0u8, 0u8, 0u8],
    {
        terminated_bytes(text)
    }

    /// The resolution of the multilevel pointer `offsets` from `base`; see
    /// `PointerChain`.
    pub fn resolve_multilevel(&self, base: usize, offsets: &[usize]) -> (r: PointerChain)
        ensures
            r.base == base,
            r.offsets@ == offsets@,
            r.index == 0,
    {
        PointerChain::new(base, offsets)
    }
}

/// Picks, among the running `processes`, the first one whose executable is
/// named `name` (ignoring ASCII case): the one to open.
pub fn open_process_by_name(processes: Vec<ProcessEntry>, name: &str) -> (r: Result<ProcessEntry, MfError>)
    ensures
        r is Err <==> forall|i: int| 0 <= i < processes@.len() ==> !process_named(#[trigger] processes@[i], name@),
        r is Err ==> r->Err_0 == MfError::ProcessNotFound,
        r is Ok ==> exists|i: int|
            0 <= i < processes@.len() && r->Ok_0 == processes@[i] && process_named(processes@[i], name@)
                && forall|j: int| 0 <= j < i ==> !process_named(#[trigger] processes@[j], name@),
{
    let ghost all = processes@;
    let mut list = processes;
    let mut i: usize = 0;
    while i < list.len()
        invariant
            list@ == all,
            all == processes@,
            i <= all.len(),
            forall|j: int| 0 <= j < i ==> !process_named(#[trigger] all[j], name@),
        decreases all.len() - i,
    {
        if str_eq_ignore_ascii_case(list[i].path.as_str(), name) {
            let p = list.remove(i);
            assert(p == all[i as int] && process_named(all[i as int], name@));
            return Ok(p);
        }
        i += 1;
    }
    Err(MfError::ProcessNotFound)
}

} // verus!
