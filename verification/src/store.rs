use vstd::prelude::*;

use crate::keyed::StrMap;

verus! {

/// A fresh vector holding the same bytes.
pub fn copy_bytes(v: &Vec<u8>) -> (r: Vec<u8>)
    ensures
        r@ == v@,
{
    let mut r: Vec<u8> = Vec::new();
    let mut i: usize = 0;
    while i < v.len()
        invariant
            0 <= i <= v@.len(),
            r@ == v@.subrange(0, i as int),
        decreases v@.len() - i,
    {
        r.push(v[i]);
        i = i + 1;
        proof {
            assert(r@ =~= v@.subrange(0, i as int));
        }
    }
    proof {
        assert(r@ =~= v@);
    }
    r
}

/// The four bytes every WebAssembly module starts with: `\0asm`.
pub open spec fn wasm_magic() -> Seq<u8> {
    seq![0u8, 0x61u8, 0x73u8, 0x6du8]
}

/// Whether `body` looks like a WebAssembly artifact: at least four bytes, the
/// first four being `\0asm`.
pub open spec fn is_wasm_artifact_spec(body: Seq<u8>) -> bool {
    body.len() >= 4 && body.subrange(0, 4) == wasm_magic()
}

/// Check the WebAssembly magic header of an uploaded body.
pub fn is_wasm_artifact(body: &[u8]) -> (r: bool)
    ensures
        r == is_wasm_artifact_spec(body@),
{
    if body.len() < 4 {
        return false;
    }
    let r = body[0] == 0u8 && body[1] == 0x61u8 && body[2] == 0x73u8 && body[3] == 0x6du8;
    proof {
        if r {
            assert(body@.subrange(0, 4) =~= wasm_magic());
        } else {
            assert(body@.subrange(0, 4)[0] == body@[0]);
            assert(body@.subrange(0, 4)[1] == body@[1]);
            assert(body@.subrange(0, 4)[2] == body@[2]);
            assert(body@.subrange(0, 4)[3] == body@[3]);
        }
    }
    r
}

/// The byte values of a map whose values are byte vectors.
pub open spec fn byte_values(m: Map<Seq<char>, Vec<u8>>) -> Map<Seq<char>, Seq<u8>> {
    m.map_values(|v: Vec<u8>| v@)
}

/// Per-team storage for uploaded WASM Bot artifacts.  Storing again for the
/// same team replaces the previous artifact.
pub struct WasmBotStore {
    artifacts: StrMap<Vec<u8>>,
}

impl View for WasmBotStore {
    type V = Map<Seq<char>, Seq<u8>>;

    closed spec fn view(&self) -> Map<Seq<char>, Seq<u8>> {
        byte_values(self.artifacts@)
    }
}

impl WasmBotStore {
    /// The underlying map is well formed.
    pub closed spec fn wf(&self) -> bool {
        self.artifacts.wf()
    }

    /// An empty store.
    pub fn new() -> (r: Self)
        ensures
            r.wf(),
            r@ == Map::<Seq<char>, Seq<u8>>::empty(),
    {
        let r = WasmBotStore { artifacts: StrMap::new() };
        proof {
            assert(byte_values(r.artifacts@) =~= Map::empty());
        }
        r
    }

    /// Store (or replace) the artifact for `team`.
    pub fn store(&mut self, team: &str, bytes: Vec<u8>)
        requires
            old(self).wf(),
        ensures
            final(self).wf(),
            final(self)@ == old(self)@.insert(team@, bytes@),
    {
        let ghost b = bytes@;
        self.artifacts.insert(team.to_owned(), bytes);
        proof {
            assert(byte_values(self.artifacts@) =~= byte_values(old(self).artifacts@).insert(
                team@,
                b,
            ));
        }
    }

    /// A copy of the artifact stored for `team`, if any.
    pub fn get(&self, team: &str) -> (r: Option<Vec<u8>>)
        requires
            self.wf(),
        ensures
            match r {
                Some(b) => self@.contains_key(team@) && b@ == self@[team@],
                None => !self@.contains_key(team@),
            },
    {
        match self.artifacts.get(team) {
            Some(b) => Some(copy_bytes(b)),
            None => None,
        }
    }

    /// Every team with a stored artifact, each once.
    pub fn stored_teams(&self) -> (r: Vec<String>)
        requires
            self.wf(),
        ensures
            r@.len() == self@.dom().len(),
            forall|i: int| 0 <= i < r@.len() ==> self@.contains_key(#[trigger] r@[i]@),
            forall|k: Seq<char>|
                self@.contains_key(k) ==> exists|i: int| 0 <= i < r@.len() && #[trigger] r@[i]@ == k,
            forall|i: int, j: int|
                0 <= i < r@.len() && 0 <= j < r@.len() && i != j ==> #[trigger] r@[i]@
                    != #[trigger] r@[j]@,
    {
        proof {
            assert(self@.dom() =~= self.artifacts@.dom());
        }
        self.artifacts.keys()
    }
}

/// A set of team names kept in a text-keyed map with unit values.
pub struct StrSet {
    members: StrMap<()>,
}

impl View for StrSet {
    type V = Set<Seq<char>>;

    closed spec fn view(&self) -> Set<Seq<char>> {
        self.members@.dom()
    }
}

impl StrSet {
    /// The underlying map is well formed.
    pub closed spec fn wf(&self) -> bool {
        self.members.wf()
    }

    /// An empty set.
    pub fn new() -> (r: Self)
        ensures
            r.wf(),
            r@ == Set::<Seq<char>>::empty(),
    {
        let r = StrSet { members: StrMap::new() };
        proof {
            assert(r.members@.dom() =~= Set::empty());
        }
        r
    }

    /// Add `name`.
    pub fn insert(&mut self, name: &str)
        requires
            old(self).wf(),
        ensures
            final(self).wf(),
            final(self)@ == old(self)@.insert(name@),
    {
        self.members.insert(name.to_owned(), ());
    }

    /// Remove `name`.
    pub fn remove(&mut self, name: &str)
        requires
            old(self).wf(),
        ensures
            final(self).wf(),
            final(self)@ == old(self)@.remove(name@),
    {
        let _ = self.members.remove(name);
    }

    /// Whether `name` is present.
    pub fn contains(&self, name: &str) -> (b: bool)
        requires
            self.wf(),
        ensures
            b == self@.contains(name@),
    {
        self.members.contains_key(name)
    }
}

/// Reversible set of disabled team names.  A disabled team's slot falls back
/// to the Default Bot in match resolution.
pub struct DisabledStore {
    disabled: StrSet,
}

impl View for DisabledStore {
    type V = Set<Seq<char>>;

    closed spec fn view(&self) -> Set<Seq<char>> {
        self.disabled@
    }
}

impl DisabledStore {
    /// The underlying set is well formed.
    pub closed spec fn wf(&self) -> bool {
        self.disabled.wf()
    }

    /// An empty store.
    pub fn new() -> (r: Self)
        ensures
            r.wf(),
            r@ == Set::<Seq<char>>::empty(),
    {
        DisabledStore { disabled: StrSet::new() }
    }

    /// Mark `team` as disabled.
    pub fn disable(&mut self, team: &str)
        requires
            old(self).wf(),
        ensures
            final(self).wf(),
            final(self)@ == old(self)@.insert(team@),
    {
        self.disabled.insert(team);
    }

    /// Remove the disabled flag for `team`.
    pub fn enable(&mut self, team: &str)
        requires
            old(self).wf(),
        ensures
            final(self).wf(),
            final(self)@ == old(self)@.remove(team@),
    {
        self.disabled.remove(team);
    }

    /// Whether `team` is currently disabled.
    pub fn is_disabled(&self, team: &str) -> (b: bool)
        requires
            self.wf(),
        ensures
            b == self@.contains(team@),
    {
        self.disabled.contains(team)
    }
}

/// Optional WASM artifact used as the Default Bot instead of the built-in one.
pub struct DefaultBotStore {
    artifact: Option<Vec<u8>>,
}

impl View for DefaultBotStore {
    type V = Option<Seq<u8>>;

    closed spec fn view(&self) -> Option<Seq<u8>> {
        match self.artifact {
            Some(v) => Some(v@),
            None => None,
        }
    }
}

impl DefaultBotStore {
    /// A store with no custom Default Bot.
    pub fn new() -> (r: Self)
        ensures
            r@ == None::<Seq<u8>>,
    {
        DefaultBotStore { artifact: None }
    }

    /// Store (or replace) the custom Default Bot artifact.
    pub fn set(&mut self, bytes: Vec<u8>)
        ensures
            final(self)@ == Some(bytes@),
    {
        self.artifact = Some(bytes);
    }

    /// A copy of the current artifact, if any.
    pub fn get(&self) -> (r: Option<Vec<u8>>)
        ensures
            match r {
                Some(b) => self@ == Some(b@),
                None => self@ is None,
            },
    {
        match &self.artifact {
            Some(b) => Some(copy_bytes(b)),
            None => None,
        }
    }

    /// Forget the custom Default Bot.
    pub fn clear(&mut self)
        ensures
            final(self)@ == None::<Seq<u8>>,
    {
        self.artifact = None;
    }
}

} // verus!
