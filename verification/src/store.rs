//! The configuration store: a versioned flag map with an initialized bit,
//! mutated only by applying decoded messages.

use vstd::prelude::*;
use vstd::hash_map::StringHashMap;

use crate::consumer::{InitState, ReadError};
use crate::message::{Message, Update};
use crate::models::FeatureFlagState;
use crate::text::str_eq;

verus! {

/// The flag map described by a sequence of keyed entries: each entry is
/// inserted in order, so a later entry wins over an earlier one with the
/// same key.
pub open spec fn flags_of_entries(entries: Seq<(String, FeatureFlagState)>) -> Map<
    Seq<char>,
    FeatureFlagState,
>
    decreases entries.len(),
{
    if entries.len() == 0 {
        Map::empty()
    } else {
        flags_of_entries(entries.drop_last()).insert(entries.last().0@, entries.last().1)
    }
}

/// The flag map after applying one message.
///
/// A put replaces the whole map. A patch with a flag state takes effect only
/// after initialization, and only when its version is strictly greater than
/// the stored one (or the key is absent). A delete with a version takes
/// effect only after initialization, and only when its version is strictly
/// greater than the stored one. Every other message changes nothing.
pub open spec fn apply_flags(
    flags: Map<Seq<char>, FeatureFlagState>,
    init: bool,
    msg: Message,
) -> Map<Seq<char>, FeatureFlagState> {
    match msg {
        Message::Put(data) => flags_of_entries(data.flags@),
        Message::Patch(Update::Flag { name, data: Some(flag), .. }) => {
            if !init {
                flags
            } else if !flags.contains_key(name@) || flags[name@].version < flag.version {
                flags.insert(name@, flag)
            } else {
                flags
            }
        },
        Message::Delete(Update::Flag { name, version: Some(v), .. }) => {
            if init && flags.contains_key(name@) && flags[name@].version < v {
                flags.remove(name@)
            } else {
                flags
            }
        },
        _ => flags,
    }
}

/// Whether the store is initialized after applying one message: a put
/// initializes it, nothing else changes the bit.
pub open spec fn apply_init(init: bool, msg: Message) -> bool {
    match msg {
        Message::Put(_) => true,
        _ => init,
    }
}

/// The state reported for one applied message: pending only for a patch
/// carrying a flag state or a delete carrying a version that arrives before
/// initialization; everything else is done, applied or absorbed.
pub open spec fn apply_status(init: bool, msg: Message) -> InitState {
    match msg {
        Message::Patch(Update::Flag { data: Some(_), .. }) => if init {
            InitState::Done
        } else {
            InitState::Pending
        },
        Message::Delete(Update::Flag { version: Some(_), .. }) => if init {
            InitState::Done
        } else {
            InitState::Pending
        },
        _ => InitState::Done,
    }
}

/// The store is monotonic in versions: applying a patch whose version is
/// not greater than the stored one changes nothing, and one with a greater
/// version (or for an absent key) stores the new state.
pub proof fn lemma_patch_monotonic(
    flags: Map<Seq<char>, FeatureFlagState>,
    name: String,
    flag: FeatureFlagState,
    version: Option<u64>,
)
    ensures
        flags.contains_key(name@) && flag.version <= flags[name@].version ==> apply_flags(
            flags,
            true,
            Message::Patch(Update::Flag { name, data: Some(flag), version }),
        ) == flags,
        !flags.contains_key(name@) || flag.version > flags[name@].version ==> apply_flags(
            flags,
            true,
            Message::Patch(Update::Flag { name, data: Some(flag), version }),
        ) == flags.insert(name@, flag),
{
}

/// The store is monotonic in versions: applying a delete whose version is
/// not greater than the stored one (or for an absent key) changes nothing,
/// and one with a greater version removes the flag.
pub proof fn lemma_delete_monotonic(
    flags: Map<Seq<char>, FeatureFlagState>,
    name: String,
    data: Option<FeatureFlagState>,
    version: u64,
)
    ensures
        !flags.contains_key(name@) || version <= flags[name@].version ==> apply_flags(
            flags,
            true,
            Message::Delete(Update::Flag { name, data, version: Some(version) }),
        ) == flags,
        flags.contains_key(name@) && version > flags[name@].version ==> apply_flags(
            flags,
            true,
            Message::Delete(Update::Flag { name, data, version: Some(version) }),
        ) == flags.remove(name@),
{
}

/// The pre-initialization guard: a patch or delete applied before any put
/// leaves the store empty and uninitialized, and one carrying its required
/// field reports pending.
pub proof fn lemma_pre_init_guard(s: MemoryStore, msg: Message)
    requires
        s.wf(),
        !s.initialized(),
        msg matches Message::Patch(_) || msg matches Message::Delete(_),
    ensures
        apply_flags(s.flags(), s.initialized(), msg) == s.flags(),
        apply_flags(s.flags(), s.initialized(), msg) === Map::<Seq<char>, FeatureFlagState>::empty(),
        !apply_init(s.initialized(), msg),
        (msg matches Message::Patch(Update::Flag { data: Some(_), .. }) || msg matches Message::Delete(
            Update::Flag { version: Some(_), .. },
        )) ==> apply_status(s.initialized(), msg) == InitState::Pending,
{
}

/// The key list `ks` tracks exactly the domain of `m`: no key twice, every
/// listed key stored, every stored key listed.
pub open spec fn keys_track(ks: Seq<String>, m: Map<Seq<char>, FeatureFlagState>) -> bool {
    &&& forall|i: int, j: int| 0 <= i < j < ks.len() ==> ks[i]@ != ks[j]@
    &&& forall|i: int| 0 <= i < ks.len() ==> m.contains_key(#[trigger] ks[i]@)
    &&& forall|k: Seq<char>| #[trigger]
        m.contains_key(k) ==> exists|i: int| 0 <= i < ks.len() && ks[i]@ == k
}

/// Inserting one key keeps the key list tracking the map: the list gains
/// the key when it was absent and stays as it was when it was present.
proof fn lemma_keys_track_insert(
    ks0: Seq<String>,
    m0: Map<Seq<char>, FeatureFlagState>,
    ks1: Seq<String>,
    m1: Map<Seq<char>, FeatureFlagState>,
    kview: Seq<char>,
)
    requires
        keys_track(ks0, m0),
        forall|k: Seq<char>| #[trigger] m1.contains_key(k) <==> (m0.contains_key(k) || k == kview),
        m0.contains_key(kview) ==> ks1 == ks0,
        !m0.contains_key(kview) ==> ks1.len() == ks0.len() + 1 && ks1[ks0.len() as int]@ == kview
            && (forall|i: int| 0 <= i < ks0.len() ==> ks1[i] == ks0[i]),
    ensures
        keys_track(ks1, m1),
{
    if m0.contains_key(kview) {
        assert forall|k: Seq<char>| #[trigger] m1.contains_key(k) implies exists|i: int|
            0 <= i < ks1.len() && ks1[i]@ == k by {
            assert(m0.contains_key(k));
        }
    } else {
        assert forall|i: int, j: int| 0 <= i < j < ks1.len() implies ks1[i]@ != ks1[j]@ by {
            if j == ks0.len() {
                assert(m0.contains_key(ks0[i]@));
            }
        }
        assert forall|k: Seq<char>| #[trigger] m1.contains_key(k) implies exists|i: int|
            0 <= i < ks1.len() && ks1[i]@ == k by {
            if k == kview {
                assert(ks1[ks0.len() as int]@ == k);
            } else {
                let i = choose|i: int| 0 <= i < ks0.len() && ks0[i]@ == k;
                assert(ks1[i]@ == k);
            }
        }
    }
}

/// Removing one key keeps the key list tracking the map.
proof fn lemma_keys_track_remove(
    ks0: Seq<String>,
    m0: Map<Seq<char>, FeatureFlagState>,
    ks1: Seq<String>,
    m1: Map<Seq<char>, FeatureFlagState>,
    kview: Seq<char>,
    idx: int,
)
    requires
        keys_track(ks0, m0),
        forall|k: Seq<char>| #[trigger] m1.contains_key(k) <==> (m0.contains_key(k) && k != kview),
        0 <= idx < ks0.len(),
        ks0[idx]@ == kview,
        ks1.len() == ks0.len() - 1,
        forall|i: int| 0 <= i < idx ==> ks1[i] == ks0[i],
        forall|i: int| idx <= i < ks0.len() - 1 ==> ks1[i] == ks0[i + 1],
    ensures
        keys_track(ks1, m1),
{
    assert forall|i: int, j: int| 0 <= i < j < ks1.len() implies ks1[i]@ != ks1[j]@ by {
        let i0 = if i < idx { i } else { i + 1 };
        let j0 = if j < idx { j } else { j + 1 };
        assert(ks1[i] == ks0[i0]);
        assert(ks1[j] == ks0[j0]);
    }
    assert forall|i: int| 0 <= i < ks1.len() implies m1.contains_key(#[trigger] ks1[i]@) by {
        let i0 = if i < idx { i } else { i + 1 };
        assert(ks1[i] == ks0[i0]);
        assert(m0.contains_key(ks0[i0]@));
        if i0 < idx {
            assert(ks0[i0]@ != ks0[idx]@);
        } else {
            assert(ks0[idx]@ != ks0[i0]@);
        }
    }
    assert forall|k: Seq<char>| #[trigger] m1.contains_key(k) implies exists|i: int|
        0 <= i < ks1.len() && ks1[i]@ == k by {
        assert(m0.contains_key(k));
        let w = choose|w: int| 0 <= w < ks0.len() && ks0[w]@ == k;
        if w < idx {
            assert(ks1[w]@ == k);
        } else {
            assert(w != idx);
            assert(ks1[w - 1]@ == k);
        }
    }
}

/// Finds the position of a key in the list.
fn find_key_index(keys: &Vec<String>, name: &str) -> (r: usize)
    requires
        exists|j: int| 0 <= j < keys@.len() && keys@[j]@ == name@,
    ensures
        r < keys@.len(),
        keys@[r as int]@ == name@,
{
    let n = keys.len();
    let mut i: usize = 0;
    loop
        invariant
            n == keys@.len(),
            i <= n,
            exists|j: int| 0 <= j < keys@.len() && keys@[j]@ == name@,
            forall|j: int| 0 <= j < i ==> keys@[j]@ != name@,
        ensures
            i < keys@.len(),
            keys@[i as int]@ == name@,
        decreases keys@.len() - i,
    {
        proof {
            if i == keys@.len() {
                let j = choose|j: int| 0 <= j < keys@.len() && keys@[j]@ == name@;
                assert(false);
            }
        }
        if str_eq(keys[i].as_str(), name) {
            break;
        }
        i += 1;
    }
    i
}

/// An in-memory flag store.
///
/// It is created uninitialized and empty; the first applied put fills it and
/// marks it initialized. Beside the map it keeps the list of stored keys, so
/// the contents can be walked.
pub struct MemoryStore {
    map: StringHashMap<FeatureFlagState>,
    key_list: Vec<String>,
    init: bool,
}

impl MemoryStore {
    /// The stored flag map.
    pub closed spec fn flags(&self) -> Map<Seq<char>, FeatureFlagState> {
        self.map@
    }

    /// Whether a full configuration has been applied yet.
    pub closed spec fn initialized(&self) -> bool {
        self.init
    }

    /// The key list the store keeps beside the map.
    pub closed spec fn key_seq(&self) -> Seq<String> {
        self.key_list@
    }

    /// An uninitialized store holds no flags, and the key list tracks the
    /// map.
    pub open spec fn wf(&self) -> bool {
        &&& !self.initialized() ==> self.flags() === Map::<Seq<char>, FeatureFlagState>::empty()
        &&& keys_track(self.key_seq(), self.flags())
    }

    /// Creates an empty, uninitialized store.
    pub fn new() -> (r: MemoryStore)
        ensures
            r.wf(),
            !r.initialized(),
            r.flags() === Map::<Seq<char>, FeatureFlagState>::empty(),
    {
        MemoryStore { map: StringHashMap::new(), key_list: Vec::new(), init: false }
    }

    /// The stored flag keys, each exactly once.
    pub fn keys(&self) -> (r: &Vec<String>)
        requires
            self.wf(),
        ensures
            r@ == self.key_seq(),
            forall|i: int, j: int| 0 <= i < j < r@.len() ==> r@[i]@ != r@[j]@,
            forall|i: int| 0 <= i < r@.len() ==> self.flags().contains_key(#[trigger] r@[i]@),
            forall|k: Seq<char>| #[trigger]
                self.flags().contains_key(k) ==> exists|i: int| 0 <= i < r@.len() && r@[i]@ == k,
    {
        &self.key_list
    }

    /// Looks up the current state of one flag.
    pub fn flag<'a>(&'a self, name: &str) -> (r: Option<&'a FeatureFlagState>)
        ensures
            match r {
                Some(f) => self.flags().contains_key(name@) && *f == self.flags()[name@],
                None => !self.flags().contains_key(name@),
            },
    {
        self.map.get(name)
    }

    /// The number of flags held.
    pub fn flag_count(&self) -> (r: usize)
        ensures
            r == self.flags().len(),
    {
        self.map.len()
    }

    /// Hands out the full flag map.
    pub fn export_all(&self) -> (r: &StringHashMap<FeatureFlagState>)
        ensures
            r@ == self.flags(),
    {
        &self.map
    }

    /// Processes a single message coming from a source. The in-memory
    /// store absorbs every message without failing, so the result always
    /// carries the store's state after the application.
    pub fn consume(&mut self, msg: Message) -> (r: Result<InitState, ReadError>)
        requires
            old(self).wf(),
        ensures
            final(self).wf(),
            final(self).flags() == apply_flags(old(self).flags(), old(self).initialized(), msg),
            final(self).initialized() == apply_init(old(self).initialized(), msg),
            r == Ok::<InitState, ReadError>(apply_status(old(self).initialized(), msg)),
    {
        Ok(self.apply(msg))
    }

    /// Applies one decoded message under the version and ordering rules.
    pub fn apply(&mut self, msg: Message) -> (r: InitState)
        requires
            old(self).wf(),
        ensures
            final(self).wf(),
            final(self).flags() == apply_flags(old(self).flags(), old(self).initialized(), msg),
            final(self).initialized() == apply_init(old(self).initialized(), msg),
            r == apply_status(old(self).initialized(), msg),
    {
        match msg {
            Message::Put(data) => {
                let mut entries = data.flags;
                let ghost orig = entries@;
                let mut m = StringHashMap::<FeatureFlagState>::new();
                let mut ks: Vec<String> = Vec::new();
                while entries.len() > 0
                    invariant
                        entries@.len() <= orig.len(),
                        entries@ == orig.skip(orig.len() - entries@.len()),
                        m@ == flags_of_entries(orig.take(orig.len() - entries@.len())),
                        keys_track(ks@, m@),
                    decreases entries@.len(),
                {
                    let ghost done = orig.len() - entries@.len();
                    let ghost m0 = m@;
                    let ghost ks0 = ks@;
                    let (k, f) = entries.remove(0);
                    let ghost kview = k@;
                    let present = m.contains_key(k.as_str());
                    if !present {
                        ks.push(k.clone());
                    }
                    m.insert(k, f);
                    proof {
                        assert(orig.take(done + 1).drop_last() =~= orig.take(done));
                        assert(orig.take(done + 1).last() == orig[done]);
                        assert(entries@ =~= orig.skip(done + 1));
                        lemma_keys_track_insert(ks0, m0, ks@, m@, kview);
                    }
                }
                proof {
                    assert(orig.take(orig.len() as int) =~= orig);
                }
                self.map = m;
                self.key_list = ks;
                self.init = true;
                InitState::Done
            },
            Message::Patch(u) => match u {
                Update::Flag { name, data: Some(flag), version: _ } => {
                    if !self.init {
                        return InitState::Pending;
                    }
                    let ghost m0 = self.map@;
                    let ghost ks0 = self.key_list@;
                    let ghost nview = name@;
                    let (newer, present) = match self.map.get(name.as_str()) {
                        Some(existing) => (existing.version < flag.version, true),
                        None => (true, false),
                    };
                    if newer {
                        if !present {
                            self.key_list.push(name.clone());
                        }
                        self.map.insert(name, flag);
                        proof {
                            lemma_keys_track_insert(ks0, m0, self.key_list@, self.map@, nview);
                        }
                    }
                    InitState::Done
                },
                _ => InitState::Done,
            },
            Message::Delete(u) => match u {
                Update::Flag { name, data: _, version: Some(v) } => {
                    if !self.init {
                        return InitState::Pending;
                    }
                    let ghost m0 = self.map@;
                    let ghost ks0 = self.key_list@;
                    let ghost nview = name@;
                    let doomed = match self.map.get(name.as_str()) {
                        Some(existing) => existing.version < v,
                        None => false,
                    };
                    if doomed {
                        self.map.remove(name.as_str());
                        let idx = find_key_index(&self.key_list, name.as_str());
                        self.key_list.remove(idx);
                        proof {
                            ks0.remove_ensures(idx as int);
                            lemma_keys_track_remove(ks0, m0, self.key_list@, self.map@, nview, idx as int);
                        }
                    }
                    InitState::Done
                },
                _ => InitState::Done,
            },
            Message::Unknown => InitState::Done,
        }
    }
}

} // verus!
