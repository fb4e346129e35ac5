//! DevFs: the registry of named device drivers behind `/dev/`, and the file
//! operations on device files.
use vstd::prelude::*;
use vstd::string::StringSliceAdditionalSpecFns;
use crate::driver_api::DriverBox;

verus! {

// ── Name order ───────────────────────────────────────────────────

/// Lexicographic byte order, as `String` orders its contents.
pub open spec fn lex_lt(a: Seq<u8>, b: Seq<u8>) -> bool
    decreases a.len(),
{
    if b.len() == 0 {
        false
    } else if a.len() == 0 {
        true
    } else if a[0] != b[0] {
        a[0] < b[0]
    } else {
        lex_lt(a.drop_first(), b.drop_first())
    }
}

pub proof fn lemma_lex_irreflexive(a: Seq<u8>)
    ensures
        !lex_lt(a, a),
    decreases a.len(),
{
    if a.len() > 0 {
        lemma_lex_irreflexive(a.drop_first());
    }
}

pub proof fn lemma_lex_asymmetric(a: Seq<u8>, b: Seq<u8>)
    requires
        lex_lt(a, b),
    ensures
        !lex_lt(b, a),
    decreases a.len(),
{
    if a.len() > 0 && b.len() > 0 && a[0] == b[0] {
        lemma_lex_asymmetric(a.drop_first(), b.drop_first());
    }
}

pub proof fn lemma_lex_transitive(a: Seq<u8>, b: Seq<u8>, c: Seq<u8>)
    requires
        lex_lt(a, b),
        lex_lt(b, c),
    ensures
        lex_lt(a, c),
    decreases a.len(),
{
    if a.len() > 0 && b.len() > 0 && c.len() > 0 && a[0] == b[0] && b[0] == c[0] {
        lemma_lex_transitive(a.drop_first(), b.drop_first(), c.drop_first());
    }
}

pub proof fn lemma_lex_total(a: Seq<u8>, b: Seq<u8>)
    requires
        !lex_lt(a, b),
        !lex_lt(b, a),
    ensures
        a == b,
    decreases a.len(),
{
    if a.len() > 0 && b.len() > 0 {
        lemma_lex_total(a.drop_first(), b.drop_first());
        assert(a =~= seq![a[0]] + a.drop_first());
        assert(b =~= seq![b[0]] + b.drop_first());
    } else {
        assert(a =~= b);
    }
}

proof fn lemma_lex_skip(a: Seq<u8>, b: Seq<u8>, i: int)
    requires
        0 <= i < a.len(),
        i < b.len(),
        a[i] == b[i],
    ensures
        lex_lt(a.skip(i), b.skip(i)) == lex_lt(a.skip(i + 1), b.skip(i + 1)),
{
    assert(a.skip(i).drop_first() =~= a.skip(i + 1));
    assert(b.skip(i).drop_first() =~= b.skip(i + 1));
}

/// How two names compare.
#[derive(Clone, Copy, Debug, PartialEq, Eq, Structural)]
pub enum KeyOrder {
    Less,
    Equal,
    Greater,
}

/// Compare two names byte by byte.
pub fn key_order(a: &[u8], b: &[u8]) -> (r: KeyOrder)
    ensures
        r == KeyOrder::Less <==> lex_lt(a@, b@),
        r == KeyOrder::Greater <==> lex_lt(b@, a@),
        r == KeyOrder::Equal <==> a@ == b@,
{
    let mut i: usize = 0;
    assert(a@.skip(0) =~= a@ && b@.skip(0) =~= b@);
    while i < a.len() && i < b.len()
        invariant
            i <= a@.len(),
            i <= b@.len(),
            a@.subrange(0, i as int) == b@.subrange(0, i as int),
            lex_lt(a@, b@) == lex_lt(a@.skip(i as int), b@.skip(i as int)),
            lex_lt(b@, a@) == lex_lt(b@.skip(i as int), a@.skip(i as int)),
        decreases a@.len() - i,
    {
        if a[i] != b[i] {
            proof {
                assert(a@.skip(i as int)[0] == a@[i as int]);
                assert(b@.skip(i as int)[0] == b@[i as int]);
                if a@ == b@ {
                    assert(a@[i as int] == b@[i as int]);
                }
            }
            if a[i] < b[i] {
                return KeyOrder::Less;
            } else {
                return KeyOrder::Greater;
            }
        }
        proof {
            lemma_lex_skip(a@, b@, i as int);
            lemma_lex_skip(b@, a@, i as int);
            assert(a@.subrange(0, i + 1) =~= a@.subrange(0, i as int).push(a@[i as int]));
            assert(b@.subrange(0, i + 1) =~= b@.subrange(0, i as int).push(b@[i as int]));
        }
        i += 1;
    }
    proof {
        if a@.len() == b@.len() {
            assert(a@ =~= a@.subrange(0, i as int));
            assert(b@ =~= b@.subrange(0, i as int));
        }
        if a@ == b@ {
            lemma_lex_irreflexive(a@);
        }
    }
    if a.len() < b.len() {
        KeyOrder::Less
    } else if a.len() > b.len() {
        KeyOrder::Greater
    } else {
        KeyOrder::Equal
    }
}

// ── Device registry ──────────────────────────────────────────────

/// The bytes of a name.
pub open spec fn name_key(s: String) -> Seq<u8> {
    vstd::utf8::encode_utf8(s@)
}

/// The bytes of each of a list of names.
pub open spec fn keys_of(v: Seq<String>) -> Seq<Seq<u8>> {
    v.map_values(|s: String| name_key(s))
}

/// Drivers registered under `/dev/` names, kept in name order.
pub struct DeviceRegistry {
    pub entries: Vec<(String, DriverBox)>,
}

impl DeviceRegistry {
    /// The registered names, in order.
    pub open spec fn names(&self) -> Seq<Seq<u8>> {
        self.entries@.map_values(|e: (String, DriverBox)| name_key(e.0))
    }

    /// Names are strictly increasing, hence distinct.
    pub open spec fn wf(&self) -> bool {
        forall|i: int, j: int|
            0 <= i < j < self.names().len() ==> lex_lt(#[trigger] self.names()[i], #[trigger] self.names()[j])
    }

    /// The driver registered under `name`.
    pub open spec fn driver_of(&self, name: Seq<u8>) -> DriverBox {
        self.entries@[self.index_of_name(name)].1
    }

    /// The position of `name` among the registered names.
    pub open spec fn index_of_name(&self, name: Seq<u8>) -> int {
        choose|i: int| 0 <= i < self.names().len() && self.names()[i] == name
    }

    /// In a well-formed registry the driver under the name at `pos` is the
    /// one stored there.
    pub proof fn lemma_driver_at(&self, pos: int)
        requires
            self.wf(),
            0 <= pos < self.names().len(),
        ensures
            self.driver_of(self.names()[pos]) == self.entries@[pos].1,
    {
        let name = self.names()[pos];
        let j = self.index_of_name(name);
        assert(0 <= j < self.names().len() && self.names()[j] == name);
        if j < pos {
            assert(lex_lt(self.names()[j], self.names()[pos]));
            lemma_lex_irreflexive(name);
        } else if pos < j {
            assert(lex_lt(self.names()[pos], self.names()[j]));
            lemma_lex_irreflexive(name);
        }

    }

    /// An empty registry.
    pub fn new() -> (r: Self)
        ensures
            r.wf(),
            r.names().len() == 0,
    {
        DeviceRegistry { entries: Vec::new() }
    }

    /// Position of the first entry whose name is not below `key`, and
    /// whether that entry's name is `key`.
    pub fn position(&self, key: &[u8]) -> (r: (usize, bool))
        requires
            self.wf(),
        ensures
            r.0 <= self.names().len(),
            forall|i: int| 0 <= i < r.0 ==> lex_lt(#[trigger] self.names()[i], key@),
            r.1 ==> r.0 < self.names().len() && self.names()[r.0 as int] == key@,
            !r.1 ==> r.0 == self.names().len() || lex_lt(key@, self.names()[r.0 as int]),
            r.1 <==> self.names().contains(key@),
    {
        let mut i: usize = 0;
        while i < self.entries.len()
            invariant
                self.wf(),
                i <= self.names().len(),
                forall|k: int| 0 <= k < i ==> lex_lt(#[trigger] self.names()[k], key@),
            decreases self.names().len() - i,
        {
            let name = self.entries[i].0.as_str().as_bytes();
            assert(name@ == self.names()[i as int]);
            match key_order(name, key) {
                KeyOrder::Less => {},
                KeyOrder::Equal => {
                    return (i, true);
                },
                KeyOrder::Greater => {
                    proof {
                        assert forall|k: int| 0 <= k < self.names().len() implies self.names()[k]
                            != key@ by {
                            if k < i {
                                lemma_lex_irreflexive(key@);
                            } else if k > i {
                                lemma_lex_transitive(key@, self.names()[i as int], self.names()[k]);
                                lemma_lex_irreflexive(key@);
                            } else {
                                lemma_lex_irreflexive(key@);
                            }
                        }
                    }
                    return (i, false);
                },
            }
            i += 1;
        }
        proof {
            assert forall|k: int| 0 <= k < self.names().len() implies self.names()[k] != key@ by {
                lemma_lex_irreflexive(key@);
            }
        }
        (i, false)
    }

    /// Register `driver` under `name`, replacing a driver registered under
    /// the same name.
    pub fn register(&mut self, name: &str, driver: DriverBox)
        requires
            old(self).wf(),
        ensures
            final(self).wf(),
            final(self).names().to_set() == old(self).names().to_set().insert(name.spec_bytes()),
            exists|i: int|
                0 <= i < final(self).names().len() && final(self).names()[i] == name.spec_bytes()
                    && final(self).entries@[i].1 == driver,
            forall|k: int|
                0 <= k < old(self).entries@.len() && old(self).names()[k] != name.spec_bytes()
                    ==> final(self).entries@.contains(#[trigger] old(self).entries@[k]),
    {
        let key = name.as_bytes();
        let (pos, found) = self.position(key);
        let owned: String = name.to_owned();
        assert(name_key(owned) == key@);
        let ghost old_names = self.names();
        let ghost old_entries = self.entries@;
        if found {
            self.entries.remove(pos);
            self.entries.insert(pos, (owned, driver));
            proof {
                assert(self.entries@ =~= old_entries.update(pos as int, (owned, driver)));
                assert forall|k: int|
                    0 <= k < old_entries.len() && old_names[k] != key@ implies self.entries@.contains(
                    #[trigger] old_entries[k],
                ) by {
                    assert(self.entries@[k] == old_entries[k]);
                }
                assert(self.names() =~= old_names);
                assert(old_names.to_set().insert(key@) =~= old_names.to_set());
                assert(self.names()[pos as int] == key@);
            }
        } else {
            self.entries.insert(pos, (owned, driver));
            proof {
                assert forall|k: int|
                    0 <= k < old_entries.len() && old_names[k] != key@ implies self.entries@.contains(
                    #[trigger] old_entries[k],
                ) by {
                    if k < pos {
                        assert(self.entries@[k] == old_entries[k]);
                    } else {
                        assert(self.entries@[k + 1] == old_entries[k]);
                    }
                }
                assert(self.names() =~= old_names.insert(pos as int, key@));
                assert forall|j: int| pos < j < self.names().len() implies lex_lt(
                    key@,
                    #[trigger] self.names()[j],
                ) by {
                    if j - 1 > pos {
                        lemma_lex_transitive(key@, old_names[pos as int], old_names[j - 1]);
                    }
                }
                assert forall|i: int, j: int|
                    0 <= i < j < self.names().len() implies lex_lt(
                    #[trigger] self.names()[i],
                    #[trigger] self.names()[j],
                ) by {
                    if j < pos {
                    } else if j == pos {
                    } else if i < pos {
                        lemma_lex_transitive(self.names()[i], key@, self.names()[j]);
                    } else if i == pos {
                        if j - 1 > pos {
                            lemma_lex_transitive(key@, old_names[pos as int], old_names[j - 1]);
                        }
                    } else {
                    }
                }
                assert(self.names().to_set() =~= old_names.to_set().insert(key@)) by {
                    assert forall|x: Seq<u8>| self.names().to_set().contains(x) <==> old_names.to_set().insert(key@).contains(x) by {
                        if self.names().contains(x) {
                            let k = choose|k: int| 0 <= k < self.names().len() && self.names()[k] == x;
                            if k < pos {
                                assert(old_names[k] == x);
                            } else if k > pos {
                                assert(old_names[k - 1] == x);
                            }
                        }
                        if old_names.contains(x) {
                            let k = choose|k: int| 0 <= k < old_names.len() && old_names[k] == x;
                            if k < pos {
                                assert(self.names()[k] == x);
                            } else {
                                assert(self.names()[k + 1] == x);
                            }
                        }
                        if x == key@ {
                            assert(self.names()[pos as int] == x);
                        }
                    }
                }
                assert(self.names()[pos as int] == key@);
            }
        }
    }

    /// Remove the driver registered under `name`, if any.
    pub fn unregister(&mut self, name: &str)
        requires
            old(self).wf(),
        ensures
            final(self).wf(),
            final(self).names().to_set() == old(self).names().to_set().remove(name.spec_bytes()),
            forall|k: int|
                0 <= k < old(self).entries@.len() && old(self).names()[k] != name.spec_bytes()
                    ==> final(self).entries@.contains(#[trigger] old(self).entries@[k]),
    {
        let key = name.as_bytes();
        let (pos, found) = self.position(key);
        let ghost old_names = self.names();
        let ghost old_entries = self.entries@;
        if found {
            self.entries.remove(pos);
            proof {
                assert forall|k: int|
                    0 <= k < old_entries.len() && old_names[k] != key@ implies self.entries@.contains(
                    #[trigger] old_entries[k],
                ) by {
                    if k < pos {
                        assert(self.entries@[k] == old_entries[k]);
                    } else {
                        assert(k != pos);
                        assert(self.entries@[k - 1] == old_entries[k]);
                    }
                }
                assert(self.names() =~= old_names.remove(pos as int));
                assert forall|i: int, j: int|
                    0 <= i < j < self.names().len() implies lex_lt(
                    #[trigger] self.names()[i],
                    #[trigger] self.names()[j],
                ) by {
                    if i < pos && j >= pos {
                        assert(lex_lt(old_names[i], old_names[j + 1]));
                    } else if i >= pos {
                        assert(lex_lt(old_names[i + 1], old_names[j + 1]));
                    } else {
                        assert(lex_lt(old_names[i], old_names[j]));
                    }
                }
                assert(self.names().to_set() =~= old_names.to_set().remove(key@)) by {
                    assert forall|x: Seq<u8>| self.names().to_set().contains(x) <==> old_names.to_set().remove(key@).contains(x) by {
                        if self.names().contains(x) {
                            let k = choose|k: int| 0 <= k < self.names().len() && self.names()[k] == x;
                            if k < pos {
                                assert(old_names[k] == x);
                                assert(lex_lt(x, key@));
                                lemma_lex_irreflexive(x);
                            } else {
                                assert(old_names[k + 1] == x);
                                assert(lex_lt(key@, x));
                                lemma_lex_irreflexive(x);
                            }
                        }
                        if old_names.contains(x) && x != key@ {
                            let k = choose|k: int| 0 <= k < old_names.len() && old_names[k] == x;
                            if k < pos {
                                assert(self.names()[k] == x);
                            } else {
                                assert(self.names()[k - 1] == x);
                            }
                        }
                    }
                }
            }
        } else {
            assert(old_names.to_set().remove(key@) =~= old_names.to_set());
        }
    }

    /// Whether a driver is registered under `name`.
    pub fn contains(&self, name: &str) -> (r: bool)
        requires
            self.wf(),
        ensures
            r == self.names().contains(name.spec_bytes()),
    {
        self.position(name.as_bytes()).1
    }

    /// The registered names, in order.
    pub fn names_list(&self) -> (r: Vec<String>)
        ensures
            keys_of(r@) == self.names(),
    {
        let mut out: Vec<String> = Vec::new();
        let mut i: usize = 0;
        while i < self.entries.len()
            invariant
                i <= self.entries@.len(),
                keys_of(out@) == self.names().subrange(0, i as int),
            decreases self.entries@.len() - i,
        {
            let s = self.entries[i].0.clone();
            let ghost prev = out@;
            out.push(s);
            proof {
                assert(out@ == prev.push(s));
                assert(name_key(s) == self.names()[i as int]);
                assert(keys_of(prev).len() == i);
                assert(prev.len() == i);
                assert(out@.len() == i + 1);
                assert forall|k: int| 0 <= k < i + 1 implies keys_of(out@)[k] == self.names().subrange(
                    0,
                    i + 1,
                )[k] by {
                    assert(keys_of(out@)[k] == name_key(out@[k]));
                    if k < i {
                        assert(keys_of(prev)[k] == self.names().subrange(0, i as int)[k]);
                        assert(keys_of(prev)[k] == name_key(prev[k]));
                    }
                }
                assert(keys_of(out@) =~= self.names().subrange(0, i + 1));
            }
            i += 1;
        }
        assert(self.names().subrange(0, i as int) =~= self.names());
        out
    }
}

/// Registering a name makes `driver_exists` report it, unregistering it
/// again makes it report it no longer, and neither changes what it reports
/// for any other name.
pub proof fn lemma_register_unregister(
    before: DeviceRegistry,
    registered: DeviceRegistry,
    removed: DeviceRegistry,
    name: Seq<u8>,
    other: Seq<u8>,
)
    requires
        registered.names().to_set() == before.names().to_set().insert(name),
        removed.names().to_set() == registered.names().to_set().remove(name),
    ensures
        registered.names().contains(name),
        !removed.names().contains(name),
        other != name ==> registered.names().contains(other) == before.names().contains(other),
        other != name ==> removed.names().contains(other) == before.names().contains(other),
{
    assert(registered.names().to_set().contains(name));
    assert(!removed.names().to_set().contains(name));
    if other != name {
        assert(registered.names().to_set().contains(other) == before.names().to_set().contains(other));
        assert(removed.names().to_set().contains(other) == registered.names().to_set().contains(other));
    }
}

/// Register a driver under a `/dev/` name.
pub fn register_driver(registry: &mut DeviceRegistry, name: &str, driver: DriverBox)
    requires
        old(registry).wf(),
    ensures
        final(registry).wf(),
        final(registry).names().to_set() == old(registry).names().to_set().insert(name.spec_bytes()),
        exists|i: int|
            0 <= i < final(registry).names().len() && final(registry).names()[i] == name.spec_bytes()
                && final(registry).entries@[i].1 == driver,
        forall|k: int|
            0 <= k < old(registry).entries@.len() && old(registry).names()[k] != name.spec_bytes()
                ==> final(registry).entries@.contains(#[trigger] old(registry).entries@[k]),
{
    registry.register(name, driver);
}

/// Remove a driver by name.
pub fn unregister_driver(registry: &mut DeviceRegistry, name: &str)
    requires
        old(registry).wf(),
    ensures
        final(registry).wf(),
        final(registry).names().to_set() == old(registry).names().to_set().remove(name.spec_bytes()),
        forall|k: int|
            0 <= k < old(registry).entries@.len() && old(registry).names()[k] != name.spec_bytes()
                ==> final(registry).entries@.contains(#[trigger] old(registry).entries@[k]),
{
    registry.unregister(name);
}

/// Whether a driver is registered under `name`.
pub fn driver_exists(registry: &DeviceRegistry, name: &str) -> (r: bool)
    requires
        registry.wf(),
    ensures
        r == registry.names().contains(name.spec_bytes()),
{
    registry.contains(name)
}

/// All registered device names, in name order.
pub fn list_devices(registry: &DeviceRegistry) -> (r: Vec<String>)
    ensures
        keys_of(r@) == registry.names(),
{
    registry.names_list()
}

// ── Device files ─────────────────────────────────────────────────

/// An open file as the virtual file system hands it out.
#[derive(Clone, Copy, Debug, PartialEq, Eq, Structural)]
pub struct FileDescriptor {
    pub fd: u32,
    pub ino: u64,
    pub offset: usize,
    pub flags: u32,
}

/// A directory entry.
#[derive(Clone, Debug)]
pub struct VNode {
    pub name: String,
    pub size: usize,
    pub is_dir: bool,
}

/// The hash a device name is given as inode number: the bytes folded as
/// `h * 31 + b` modulo 2^64.
pub open spec fn name_hash(s: Seq<u8>) -> nat
    decreases s.len(),
{
    if s.len() == 0 {
        0
    } else {
        ((name_hash(s.drop_last()) * 31 + s.last()) % 0x1_0000_0000_0000_0000) as nat
    }
}

/// Stable inode number from a device name: its hash with bit 60 set, which
/// keeps it apart from in-memory file-system inodes.
pub fn stable_ino(name: &[u8]) -> (r: u64)
    ensures
        r == (name_hash(name@) as u64 | 0x1000_0000_0000_0000u64),
{
    let mut h: u64 = 0;
    let mut i: usize = 0;
    while i < name.len()
        invariant
            i <= name@.len(),
            h == name_hash(name@.subrange(0, i as int)),
        decreases name@.len() - i,
    {
        proof {
            assert(name@.subrange(0, i + 1).drop_last() =~= name@.subrange(0, i as int));
            assert((h as nat * 31) % 0x1_0000_0000_0000_0000 == vstd::wrapping::u64_specs::wrapping_mul(h, 31)) by (nonlinear_arith);
        }
        h = h.wrapping_mul(31).wrapping_add(name[i] as u64);
        proof {
            let t = (name_hash(name@.subrange(0, i as int)) * 31) as int;
            assert(((t % 0x1_0000_0000_0000_0000) + name@[i as int]) % 0x1_0000_0000_0000_0000 == (t + name@[i as int]) % 0x1_0000_0000_0000_0000) by (nonlinear_arith);
        }
        i += 1;
    }
    assert(name@.subrange(0, i as int) =~= name@);
    h | 0x1000_0000_0000_0000
}

/// `s` without its leading `/` characters.
pub open spec fn trim_slashes(s: Seq<u8>) -> Seq<u8>
    decreases s.len(),
{
    if s.len() > 0 && s[0] == 0x2f {
        trim_slashes(s.drop_first())
    } else {
        s
    }
}

fn trimmed_start(path: &[u8]) -> (r: usize)
    ensures
        r <= path@.len(),
        path@.skip(r as int) == trim_slashes(path@),
{
    let mut i: usize = 0;
    assert(path@.skip(0) =~= path@);
    while i < path.len() && path[i] == 0x2f
        invariant
            i <= path@.len(),
            trim_slashes(path@.skip(i as int)) == trim_slashes(path@),
        decreases path@.len() - i,
    {
        assert(path@.skip(i as int).drop_first() =~= path@.skip(i + 1));
        i += 1;
    }
    i
}

/// A device file open under `/dev/`: its descriptor number, the device's
/// name and the current byte offset.
pub struct DevFile {
    pub fd: u32,
    pub name: Vec<u8>,
    pub offset: usize,
}

/// Whether entry `i` of `files` is the first one with descriptor `fd`.
pub open spec fn first_with_fd(files: Seq<DevFile>, fd: u32, i: int) -> bool {
    &&& 0 <= i < files.len()
    &&& files[i].fd == fd
    &&& forall|k: int| 0 <= k < i ==> (#[trigger] files[k]).fd != fd
}

/// The open file a descriptor refers to: the first entry with that number.
pub open spec fn file_index(files: Seq<DevFile>, fd: u32) -> Option<int> {
    if exists|i: int| first_with_fd(files, fd, i) {
        Some(choose|i: int| first_with_fd(files, fd, i))
    } else {
        None
    }
}

proof fn lemma_first_unique(files: Seq<DevFile>, fd: u32, i: int)
    requires
        first_with_fd(files, fd, i),
    ensures
        file_index(files, fd) == Some(i),
{
    let j = choose|j: int| first_with_fd(files, fd, j);
    assert(first_with_fd(files, fd, j));
    if j < i {
        assert(files[j].fd != fd);
    } else if i < j {
        assert(files[i].fd != fd);
    }
}

/// `files` without the entries numbered `fd`.
pub open spec fn without_fd(files: Seq<DevFile>, fd: u32) -> Seq<DevFile>
    decreases files.len(),
{
    if files.len() == 0 {
        files
    } else if files.last().fd == fd {
        without_fd(files.drop_last(), fd)
    } else {
        without_fd(files.drop_last(), fd).push(files.last())
    }
}

/// Hand back what a device read: the first bytes of `data`, as many as fit
/// in `buf`, copied to the front of `buf`, the rest of `buf` unchanged; the
/// number of bytes copied is returned.
pub fn copy_read(buf: &mut [u8], data: &[u8]) -> (n: usize)
    ensures
        n == if old(buf)@.len() < data@.len() { old(buf)@.len() } else { data@.len() },
        final(buf)@.len() == old(buf)@.len(),
        final(buf)@.subrange(0, n as int) == data@.subrange(0, n as int),
        final(buf)@.subrange(n as int, old(buf)@.len() as int) == old(buf)@.subrange(
            n as int,
            old(buf)@.len() as int,
        ),
{
    let n = if buf.len() < data.len() { buf.len() } else { data.len() };
    let mut k: usize = 0;
    while k < n
        invariant
            k <= n,
            n <= buf@.len(),
            n <= data@.len(),
            n == if old(buf)@.len() < data@.len() { old(buf)@.len() } else { data@.len() },
            buf@.len() == old(buf)@.len(),
            forall|j: int| 0 <= j < k ==> buf@[j] == data@[j],
            forall|j: int| k <= j < buf@.len() ==> buf@[j] == old(buf)@[j],
        decreases n - k,
    {
        buf[k] = data[k];
        k += 1;
    }
    assert(buf@.subrange(0, n as int) =~= data@.subrange(0, n as int));
    assert(buf@.subrange(n as int, old(buf)@.len() as int) =~= old(buf)@.subrange(n as int, old(buf)@.len() as int));
    n
}

/// Whether `r` is the error `msg`.
pub open spec fn fails_with<T>(r: Result<T, &'static str>, msg: &str) -> bool {
    r matches Err(e) && e@ == msg@
}

/// Blocks moved for a transfer of `len` bytes in blocks of `bs` bytes: the
/// length rounded up to whole blocks, at least one block and at most 64.
pub open spec fn transfer_blocks(len: int, bs: int) -> int {
    let blocks = (len + bs - 1) / bs;
    let blocks = if blocks < 1 { 1 } else { blocks };
    if blocks < 64 { blocks } else { 64 }
}

/// A block transfer moves between one and 64 blocks; unless it hits the
/// 64-block limit its blocks cover all `len` bytes, and it never moves a
/// block more than needed to cover them.
pub proof fn lemma_transfer_blocks(len: int, bs: int)
    requires
        0 <= len,
        0 < bs,
    ensures
        1 <= transfer_blocks(len, bs) <= 64,
        transfer_blocks(len, bs) * bs >= len || transfer_blocks(len, bs) == 64,
        transfer_blocks(len, bs) == 1 || (transfer_blocks(len, bs) - 1) * bs < len,
{
    let c = (len + bs - 1) / bs;
    assert(c * bs >= len) by (nonlinear_arith)
        requires c == (len + bs - 1) / bs, bs > 0, len >= 0;
    assert((c - 1) * bs < len || c <= 0) by (nonlinear_arith)
        requires c == (len + bs - 1) / bs, bs > 0, len >= 0;
    let t = transfer_blocks(len, bs);
    if t < c {
        assert((t - 1) * bs < len) by (nonlinear_arith)
            requires t < c, (c - 1) * bs < len, bs > 0;
    }
    assert(t * bs >= len || t == 64) by (nonlinear_arith)
        requires t == c || t == 1 || t == 64, c * bs >= len, bs > 0, len >= 0, t >= c || t == 64;
}

/// Bytes a storage read of `len` bytes at block size `bs` hands back: the
/// request, cut to the blocks moved.
pub open spec fn storage_read_len(len: int, bs: int) -> int {
    let moved = transfer_blocks(len, bs) * bs;
    if len < moved { len } else { moved }
}

/// The block transfer for `len` bytes at byte offset `offset` on a device
/// with blocks of `bs` bytes: the first block, the number of blocks and the
/// number of bytes they hold.
pub fn transfer_plan(offset: usize, len: usize, bs: u32) -> (r: (u64, usize, u64))
    requires
        bs > 0,
    ensures
        r.0 == offset as int / bs as int,
        r.1 == transfer_blocks(len as int, bs as int),
        r.2 == r.1 * bs,
{
    let b = bs as usize;
    let lba = offset / b;
    let mut blocks = len / b;
    if len % b != 0 {
        assert(len / b < len) by (nonlinear_arith)
            requires len % b != 0, b > 0;
        blocks = blocks + 1;
    }
    proof {
        let q = len as int / b as int;
        let m = len as int % b as int;
        assert(len as int == q * b + m) by (nonlinear_arith)
            requires q == len as int / b as int, m == len as int % b as int, b > 0;
        if m == 0 {
            assert((len as int + b - 1) / b as int == q) by (nonlinear_arith)
                requires len as int == q * b, b > 0;
        } else {
            assert((len as int + b - 1) / b as int == q + 1) by (nonlinear_arith)
                requires len as int == q * b + m, 0 < m < b;
        }
    }
    if blocks < 1 {
        blocks = 1;
    }
    if blocks > 64 {
        blocks = 64;
    }
    assert(blocks * b <= 64 * 0xffff_ffff) by (nonlinear_arith)
        requires blocks <= 64, b <= 0xffff_ffff;
    (lba as u64, blocks, (blocks as u64) * (bs as u64))
}

/// A buffer of `nbytes` bytes holding the start of `data` and zeros after.
pub fn block_buffer(data: &[u8], nbytes: usize) -> (r: Vec<u8>)
    ensures
        r@.len() == nbytes,
        forall|j: int| 0 <= j < nbytes && j < data@.len() ==> r@[j] == data@[j],
        forall|j: int| data@.len() <= j < nbytes ==> r@[j] == 0,
{
    let mut out: Vec<u8> = Vec::new();
    let mut i: usize = 0;
    while i < nbytes
        invariant
            i <= nbytes,
            out@.len() == i,
            forall|j: int| 0 <= j < i && j < data@.len() ==> out@[j] == data@[j],
            forall|j: int| data@.len() <= j < i ==> out@[j] == 0,
        decreases nbytes - i,
    {
        if i < data.len() {
            out.push(data[i]);
        } else {
            out.push(0);
        }
        i += 1;
    }
    out
}

/// The `/dev/` file system: the counter descriptors are numbered from and
/// the device files open.  Reads and writes on a descriptor go to the
/// driver registered under the file's name.
pub struct DevFs {
    pub next_fd: u32,
    pub files: Vec<DevFile>,
}

impl DevFs {
    /// A DevFs with no open files whose descriptor numbers start at 100.
    pub fn new() -> (r: Self)
        ensures
            r.next_fd == 100,
            r.files@.len() == 0,
    {
        DevFs { next_fd: 100, files: Vec::new() }
    }

    /// The position of the open file `fd` refers to.
    fn find(&self, fd: u32) -> (r: Option<usize>)
        ensures
            r matches Some(i) ==> file_index(self.files@, fd) == Some(i as int),
            r is None ==> file_index(self.files@, fd) is None,
    {
        let mut i: usize = 0;
        while i < self.files.len()
            invariant
                i <= self.files@.len(),
                forall|k: int| 0 <= k < i ==> (#[trigger] self.files@[k]).fd != fd,
            decreases self.files@.len() - i,
        {
            if self.files[i].fd == fd {
                proof {
                    lemma_first_unique(self.files@, fd, i as int);
                }
                return Some(i);
            }
            i += 1;
        }
        proof {
            if exists|j: int| first_with_fd(self.files@, fd, j) {
                let j = choose|j: int| first_with_fd(self.files@, fd, j);
                assert(self.files@[j].fd != fd);
            }
        }
        None
    }

    /// Open device `path` (leading slashes ignored): a descriptor numbered
    /// from the counter, with the name's stable inode, offset 0, no flags,
    /// recorded as an open file at offset 0; `None` for the root of `/dev/`
    /// or an unknown name.
    pub fn open(&mut self, registry: &DeviceRegistry, path: &str, _flags: u32) -> (r: Option<FileDescriptor>)
        requires
            registry.wf(),
        ensures
            ({
                let name = trim_slashes(path.spec_bytes());
                if name.len() == 0 || !registry.names().contains(name) {
                    r is None && final(self).next_fd == old(self).next_fd
                        && final(self).files@ == old(self).files@
                } else {
                    &&& r == Some(FileDescriptor {
                        fd: old(self).next_fd,
                        ino: (name_hash(name) as u64 | 0x1000_0000_0000_0000u64),
                        offset: 0,
                        flags: 0,
                    })
                    &&& final(self).next_fd == vstd::wrapping::u32_specs::wrapping_add(old(self).next_fd, 1)
                    &&& final(self).files@.len() == old(self).files@.len() + 1
                    &&& final(self).files@.subrange(0, old(self).files@.len() as int) == old(self).files@
                    &&& final(self).files@.last().fd == old(self).next_fd
                    &&& final(self).files@.last().name@ == name
                    &&& final(self).files@.last().offset == 0
                }
            }),
    {
        let bytes = path.as_bytes();
        let start = trimmed_start(bytes);
        let name = vstd::slice::slice_subrange(bytes, start, bytes.len());
        assert(name@ =~= bytes@.skip(start as int));
        if name.len() == 0 {
            return None;
        }
        let (_, found) = registry.position(name);
        if found {
            let ino = stable_ino(name);
            let fd = self.next_fd;
            self.next_fd = self.next_fd.wrapping_add(1);
            let ghost before = self.files@;
            self.files.push(DevFile { fd, name: vstd::slice::slice_to_vec(name), offset: 0 });
            assert(self.files@.subrange(0, before.len() as int) =~= before);
            Some(FileDescriptor { fd, ino, offset: 0, flags: 0 })
        } else {
            None
        }
    }

    /// Read from a device file into `buf`.
    ///
    /// An unknown descriptor is `"bad fd"`, a device no longer registered
    /// `"device removed"`.  A storage device reads the blocks that cover
    /// `buf` from the block of the file offset ([`transfer_plan`], with the
    /// block size the device reports) into a buffer of that many blocks, copies what
    /// fits into `buf` ([`copy_read`]), advances the offset by the bytes
    /// copied and returns their number; its error is handed back with the
    /// offset unchanged, and blocks that would not fit in memory are
    /// `"transfer too large"`.  A network device receives into `buf`, a failed receive
    /// reading nothing.  Audio, USB host and display devices cannot be read,
    /// and an unhandled entry is no device.
    pub fn read(&mut self, registry: &DeviceRegistry, fd: u32, buf: &mut [u8]) -> (r: Result<usize, &'static str>)
        requires
            registry.wf(),
        ensures
            final(self).next_fd == old(self).next_fd,
            final(buf)@.len() == old(buf)@.len(),
            final(self).files@.len() == old(self).files@.len(),
            match file_index(old(self).files@, fd) {
                None => r matches Err(e) && e@ == "bad fd"@ && final(self).files@ == old(self).files@,
                Some(i) => {
                    let file = old(self).files@[i];
                    let dev = registry.driver_of(file.name@);
                    &&& forall|k: int| 0 <= k < old(self).files@.len() && k != i ==> #[trigger] final(self).files@[k] == old(self).files@[k]
                    &&& final(self).files@[i].fd == file.fd
                    &&& final(self).files@[i].name@ == file.name@
                    &&& !registry.names().contains(file.name@) ==> fails_with(r, "device removed")
                    &&& registry.names().contains(file.name@) && dev is Storage ==> exists|bs: int| {
                        let moved = #[trigger] transfer_blocks(old(buf)@.len() as int, bs) * bs;
                        &&& 0 < bs <= u32::MAX
                        &&& moved > usize::MAX ==> fails_with(r, "transfer too large")
                        &&& match r {
                            Ok(n) => moved <= usize::MAX && n == storage_read_len(old(buf)@.len() as int, bs)
                                && final(self).files@[i].offset == vstd::wrapping::usize_specs::wrapping_add(file.offset, n)
                                && final(buf)@.subrange(n as int, old(buf)@.len() as int)
                                    == old(buf)@.subrange(n as int, old(buf)@.len() as int),
                            Err(_) => final(self).files@[i].offset == file.offset,
                        }
                    }
                    &&& registry.names().contains(file.name@) && dev is Network ==> r is Ok
                    &&& registry.names().contains(file.name@) && dev is Audio ==> fails_with(r, "read not supported on audio device")
                    &&& registry.names().contains(file.name@) && dev is UsbHost ==> fails_with(r, "read not supported on USB host controller")
                    &&& registry.names().contains(file.name@) && dev is Display ==> fails_with(r, "read not supported on display device")
                    &&& registry.names().contains(file.name@) && dev is Unhandled ==> fails_with(r, "no device")
                    &&& !(registry.names().contains(file.name@) && dev is Storage) ==> final(self).files@[i].offset == file.offset
                },
            },
    {
        let idx = match self.find(fd) {
            None => return Err("bad fd"),
            Some(i) => i,
        };
        let (pos, found) = registry.position(self.files[idx].name.as_slice());
        if !found {
            return Err("device removed");
        }
        proof {
            registry.lemma_driver_at(pos as int);
        }
        match &registry.entries[pos].1 {
            DriverBox::Storage(drv) => {
                let bs = drv.block_size();
                let (lba, blocks, total) = transfer_plan(self.files[idx].offset, buf.len(), bs);
                let ghost moved = transfer_blocks(buf@.len() as int, bs as int) * bs;
                if total > usize::MAX as u64 {
                    assert(moved > usize::MAX);
                    return Err("transfer too large");
                }
                let nbytes = total as usize;
                let mut tmp: Vec<u8> = vec![0u8; nbytes];
                match drv.read_blocks(lba, blocks, tmp.as_mut_slice()) {
                    Err(e) => {
                        assert(!(moved > usize::MAX));
                        return Err(e);
                    },
                    Ok(()) => {},
                }
                let n = copy_read(buf, tmp.as_slice());
                let off = self.files[idx].offset.wrapping_add(n);
                self.files[idx].offset = off;
                assert(n == storage_read_len(buf@.len() as int, bs as int));
                Ok(n)
            },
            DriverBox::Network(drv) => match drv.receive(buf) {
                Ok(n) => Ok(n),
                Err(_) => Ok(0),
            },
            DriverBox::Audio(_) => Err("read not supported on audio device"),
            DriverBox::UsbHost(_) => Err("read not supported on USB host controller"),
            DriverBox::Display(_) => Err("read not supported on display device"),
            DriverBox::Unhandled => Err("no device"),
        }
    }

    /// Write `data` to a device file.
    ///
    /// An unknown descriptor is `"bad fd"`, a device no longer registered
    /// `"device removed"`.  A storage device writes the blocks that cover
    /// `data` from the block of the file offset ([`transfer_plan`]), `data`
    /// first and zeros after ([`block_buffer`]), advances the offset by the
    /// length of `data` and returns it; its error is handed back with the
    /// offset unchanged.  A network device sends `data`, an audio device
    /// plays it, each returning its length or handing back its error.  USB
    /// host and display devices cannot be written, and an unhandled entry is
    /// no device.
    pub fn write(&mut self, registry: &DeviceRegistry, fd: u32, data: &[u8]) -> (r: Result<usize, &'static str>)
        requires
            registry.wf(),
        ensures
            final(self).next_fd == old(self).next_fd,
            final(self).files@.len() == old(self).files@.len(),
            match file_index(old(self).files@, fd) {
                None => fails_with(r, "bad fd") && final(self).files@ == old(self).files@,
                Some(i) => {
                    let file = old(self).files@[i];
                    let dev = registry.driver_of(file.name@);
                    let known = registry.names().contains(file.name@);
                    &&& forall|k: int| 0 <= k < old(self).files@.len() && k != i ==> #[trigger] final(self).files@[k] == old(self).files@[k]
                    &&& final(self).files@[i].fd == file.fd
                    &&& final(self).files@[i].name@ == file.name@
                    &&& !known ==> fails_with(r, "device removed")
                    &&& known && dev is Storage ==> match r {
                        Ok(n) => n == data@.len()
                            && final(self).files@[i].offset == vstd::wrapping::usize_specs::wrapping_add(file.offset, n),
                        Err(_) => final(self).files@[i].offset == file.offset,
                    }
                    &&& known && (dev is Network || dev is Audio) ==> (r matches Ok(n) ==> n == data@.len())
                    &&& known && dev is UsbHost ==> fails_with(r, "write not supported on USB host controller")
                    &&& known && dev is Display ==> fails_with(r, "write not supported on display device")
                    &&& known && dev is Unhandled ==> fails_with(r, "no device")
                    &&& !(known && dev is Storage) ==> final(self).files@[i].offset == file.offset
                },
            },
    {
        let idx = match self.find(fd) {
            None => return Err("bad fd"),
            Some(i) => i,
        };
        let (pos, found) = registry.position(self.files[idx].name.as_slice());
        if !found {
            return Err("device removed");
        }
        proof {
            registry.lemma_driver_at(pos as int);
        }
        match &registry.entries[pos].1 {
            DriverBox::Storage(drv) => {
                let bs = drv.block_size();
                let (lba, blocks, total) = transfer_plan(self.files[idx].offset, data.len(), bs);
                if total > usize::MAX as u64 {
                    return Err("transfer too large");
                }
                let tmp = block_buffer(data, total as usize);
                match drv.write_blocks(lba, blocks, tmp.as_slice()) {
                    Err(e) => return Err(e),
                    Ok(()) => {},
                }
                let off = self.files[idx].offset.wrapping_add(data.len());
                self.files[idx].offset = off;
                Ok(data.len())
            },
            DriverBox::Network(drv) => match drv.send(data) {
                Err(e) => Err(e),
                Ok(()) => Ok(data.len()),
            },
            DriverBox::Audio(drv) => match drv.play(data) {
                Err(e) => Err(e),
                Ok(()) => Ok(data.len()),
            },
            DriverBox::UsbHost(_) => Err("write not supported on USB host controller"),
            DriverBox::Display(_) => Err("write not supported on display device"),
            DriverBox::Unhandled => Err("no device"),
        }
    }

    /// Close a descriptor: every open file with that number is dropped, and
    /// closing always succeeds.
    pub fn close(&mut self, fd: u32) -> (r: Result<(), &'static str>)
        ensures
            r is Ok,
            final(self).next_fd == old(self).next_fd,
            final(self).files@ == without_fd(old(self).files@, fd),
    {
        let ghost start = self.files@;
        let mut i: usize = 0;
        let ghost mut j: int = 0;
        assert(self.files@.subrange(0, 0) =~= without_fd(start.subrange(0, 0), fd));
        assert(self.files@.subrange(0, self.files@.len() as int) =~= start.subrange(0, start.len() as int));
        while i < self.files.len()
            invariant
                self.next_fd == old(self).next_fd,
                0 <= i <= self.files@.len(),
                0 <= j <= start.len(),
                self.files@.len() - i == start.len() - j,
                self.files@.subrange(0, i as int) == without_fd(start.subrange(0, j), fd),
                self.files@.subrange(i as int, self.files@.len() as int) == start.subrange(j, start.len() as int),
            decreases self.files@.len() - i,
        {
            assert(self.files@[i as int] == start[j]) by {
                assert(self.files@.subrange(i as int, self.files@.len() as int)[0] == start.subrange(j, start.len() as int)[0]);
            }
            assert(start.subrange(0, j + 1).drop_last() =~= start.subrange(0, j));
            assert(start.subrange(0, j + 1).last() == start[j]);
            let ghost before = self.files@;
            if self.files[i].fd == fd {
                self.files.remove(i);
                assert(self.files@.subrange(0, i as int) =~= before.subrange(0, i as int));
                assert(self.files@.subrange(i as int, self.files@.len() as int) =~= before.subrange(i + 1, before.len() as int));
                assert(start.subrange(j + 1, start.len() as int) =~= start.subrange(j, start.len() as int).drop_first());
                assert(before.subrange(i + 1, before.len() as int) =~= before.subrange(i as int, before.len() as int).drop_first());
            } else {
                assert(self.files@.subrange(0, i + 1) =~= before.subrange(0, i as int).push(before[i as int]));
                assert(self.files@.subrange(i + 1, self.files@.len() as int) =~= before.subrange(i as int, before.len() as int).drop_first());
                assert(start.subrange(j + 1, start.len() as int) =~= start.subrange(j, start.len() as int).drop_first());
                i += 1;
            }
            proof {
                j = j + 1;
            }
        }
        assert(start.subrange(0, j) =~= start);
        assert(self.files@.subrange(0, i as int) =~= self.files@);
        Ok(())
    }

    /// Move a device file's offset to `pos`; an unknown descriptor is
    /// `"bad fd"`.
    pub fn seek(&mut self, fd: u32, pos: usize) -> (r: Result<(), &'static str>)
        ensures
            final(self).next_fd == old(self).next_fd,
            final(self).files@.len() == old(self).files@.len(),
            match file_index(old(self).files@, fd) {
                None => fails_with(r, "bad fd") && final(self).files@ == old(self).files@,
                Some(i) => {
                    &&& r is Ok
                    &&& forall|k: int| 0 <= k < old(self).files@.len() && k != i ==> #[trigger] final(self).files@[k] == old(self).files@[k]
                    &&& final(self).files@[i].fd == old(self).files@[i].fd
                    &&& final(self).files@[i].name@ == old(self).files@[i].name@
                    &&& final(self).files@[i].offset == pos
                },
            },
    {
        match self.find(fd) {
            None => Err("bad fd"),
            Some(i) => {
                self.files[i].offset = pos;
                Ok(())
            },
        }
    }

    /// Files cannot be created under `/dev/`.
    pub fn create(&mut self, _path: &str) -> (r: Option<u64>)
        ensures
            r is None,
    {
        None
    }

    /// Directories cannot be created under `/dev/`.
    pub fn mkdir(&mut self, _path: &str) -> (r: Result<(), &'static str>)
        ensures
            r matches Err(e) && e@ == "read-only filesystem"@,
    {
        Err("read-only filesystem")
    }

    /// Files cannot be removed from `/dev/`.
    pub fn unlink(&mut self, _path: &str) -> (r: Result<(), &'static str>)
        ensures
            r matches Err(e) && e@ == "read-only filesystem"@,
    {
        Err("read-only filesystem")
    }

    /// List `/dev/` (leading slashes ignored): one entry per device, in name
    /// order, of size 0 and not a directory; any other path is not a
    /// directory.
    pub fn readdir(&mut self, registry: &DeviceRegistry, path: &str) -> (r: Result<Vec<VNode>, &'static str>)
        ensures
            trim_slashes(path.spec_bytes()).len() != 0 ==> (r matches Err(e) && e@ == "not a directory"@),
            trim_slashes(path.spec_bytes()).len() == 0 ==> (r matches Ok(v) && v@.len() == registry.names().len()
                && forall|i: int| 0 <= i < v@.len() ==> name_key(#[trigger] v@[i].name) == registry.names()[i]
                && v@[i].size == 0 && !v@[i].is_dir),
    {
        let bytes = path.as_bytes();
        let start = trimmed_start(bytes);
        if start < bytes.len() {
            return Err("not a directory");
        }
        let names = registry.names_list();
        let mut out: Vec<VNode> = Vec::new();
        let mut i: usize = 0;
        while i < names.len()
            invariant
                i <= names@.len(),
                keys_of(names@) == registry.names(),
                out@.len() == i,
                forall|k: int| 0 <= k < i ==> name_key(#[trigger] out@[k].name) == registry.names()[k]
                    && out@[k].size == 0 && !out@[k].is_dir,
            decreases names@.len() - i,
        {
            let name = names[i].clone();
            assert(name_key(names@[i as int]) == keys_of(names@)[i as int]);
            out.push(VNode { name, size: 0, is_dir: false });
            i += 1;
        }
        assert(keys_of(names@).len() == names@.len());
        Ok(out)
    }

    /// Whether `path` (leading slashes ignored) is `/dev/` itself or a
    /// registered device.
    pub fn path_exists(&mut self, registry: &DeviceRegistry, path: &str) -> (r: bool)
        requires
            registry.wf(),
        ensures
            r == (trim_slashes(path.spec_bytes()).len() == 0 || registry.names().contains(
                trim_slashes(path.spec_bytes()),
            )),
    {
        let bytes = path.as_bytes();
        let start = trimmed_start(bytes);
        let name = &bytes[start..bytes.len()];
        assert(name@ =~= bytes@.skip(start as int));
        name.len() == 0 || registry.position(name).1
    }
}

} // verus!
