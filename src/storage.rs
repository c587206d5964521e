use vstd::prelude::*;
use crate::checkpoint::{Checkpoint, CheckpointModel, checkpoint_models, duplicate_all};

verus! {

/// Where completed checkpoints are persisted.
#[derive(Debug)]
pub enum CheckpointBackend {
    Memory,
    Relational { endpoint: String, table: String },
}

/// Why a storage call did not succeed.
#[derive(Clone, Copy, Debug, PartialEq, Eq, Structural)]
pub enum StorageError {
    /// No checkpoint of the application matches.
    NotFound,
    /// The backend has no driver in this process.
    BackendUnavailable,
}

/// The snapshots of all tasks of one application at one completed id.
#[derive(Debug)]
pub struct SavedCheckpoint {
    pub application_name: String,
    pub application_id: String,
    pub checkpoint_id: u64,
    pub checkpoints: Vec<Checkpoint>,
}

pub open spec fn belongs(s: SavedCheckpoint, name: Seq<char>, id: Seq<char>) -> bool {
    s.application_name@ == name && s.application_id@ == id
}

/// The position of the application's checkpoint with the highest id, the
/// later one among equal ids.
pub open spec fn latest_saved(s: Seq<SavedCheckpoint>, name: Seq<char>, id: Seq<char>) -> Option<int>
    decreases s.len(),
{
    if s.len() == 0 {
        None
    } else {
        let rest = latest_saved(s.drop_last(), name, id);
        let last = s.last();
        if belongs(last, name, id) && (rest matches Some(k) ==> s[k].checkpoint_id
            <= last.checkpoint_id) {
            Some(s.len() - 1)
        } else {
            rest
        }
    }
}

/// The position of the application's last saved checkpoint with id `cid`.
pub open spec fn saved_with_id(s: Seq<SavedCheckpoint>, name: Seq<char>, id: Seq<char>, cid: u64) -> Option<int>
    decreases s.len(),
{
    if s.len() == 0 {
        None
    } else if belongs(s.last(), name, id) && s.last().checkpoint_id == cid {
        Some(s.len() - 1)
    } else {
        saved_with_id(s.drop_last(), name, id, cid)
    }
}

proof fn lemma_latest_saved_in_range(s: Seq<SavedCheckpoint>, name: Seq<char>, id: Seq<char>)
    ensures
        latest_saved(s, name, id) matches Some(k) ==> 0 <= k < s.len() && belongs(s[k], name, id),
    decreases s.len(),
{
    if s.len() > 0 {
        lemma_latest_saved_in_range(s.drop_last(), name, id);
    }
}

/// A checkpoint store held in the memory of the coordinator process.
pub struct MemoryCheckpointStorage {
    saved: Vec<SavedCheckpoint>,
}

impl MemoryCheckpointStorage {
    /// Everything saved, oldest first.
    pub closed spec fn history(&self) -> Seq<SavedCheckpoint> {
        self.saved@
    }

    pub fn new() -> (r: MemoryCheckpointStorage)
        ensures
            r.history().len() == 0,
    {
        MemoryCheckpointStorage { saved: Vec::new() }
    }

    /// Saves the snapshots of all tasks of an application at a completed id,
    /// in one step. The memory store keeps every snapshot for the life of
    /// the process, so the time-to-live has no effect here.
    pub fn save(
        &mut self,
        application_name: &str,
        application_id: &str,
        checkpoint_id: u64,
        finish_cks: Vec<Checkpoint>,
        _ttl: u64,
    ) -> (r: Result<(), StorageError>)
        ensures
            r is Ok,
            final(self).history().len() == old(self).history().len() + 1,
            final(self).history().drop_last() == old(self).history(),
            final(self).history().last().application_name@ == application_name@,
            final(self).history().last().application_id@ == application_id@,
            final(self).history().last().checkpoint_id == checkpoint_id,
            final(self).history().last().checkpoints == finish_cks,
    {
        let entry = SavedCheckpoint {
            application_name: application_name.to_owned(),
            application_id: application_id.to_owned(),
            checkpoint_id,
            checkpoints: finish_cks,
        };
        self.saved.push(entry);
        proof {
            assert(self.saved@.drop_last() =~= old(self).saved@);
        }
        Ok(())
    }

    /// The snapshots of the application's latest completed checkpoint.
    pub fn load(&mut self, application_name: &str, application_id: &str) -> (r: Result<
        Vec<Checkpoint>,
        StorageError,
    >)
        ensures
            final(self).history() == old(self).history(),
            match latest_saved(old(self).history(), application_name@, application_id@) {
                Some(k) => r is Ok && checkpoint_models(r->Ok_0@) == checkpoint_models(
                    old(self).history()[k].checkpoints@,
                ),
                None => r == Err::<Vec<Checkpoint>, StorageError>(StorageError::NotFound),
            },
    {
        let name = application_name.to_owned();
        let id = application_id.to_owned();
        let mut best: Option<usize> = None;
        let mut i: usize = 0;
        while i < self.saved.len()
            invariant
                i <= self.saved@.len(),
                name@ == application_name@,
                id@ == application_id@,
                best matches Some(b) ==> b < i,
                latest_saved(self.saved@.subrange(0, i as int), name@, id@) == match best {
                    Some(b) => Some(b as int),
                    None => None::<int>,
                },
            decreases self.saved@.len() - i,
        {
            let e = &self.saved[i];
            proof {
                assert(self.saved@.subrange(0, i + 1).drop_last() =~= self.saved@.subrange(0, i as int));
            }
            if e.application_name == name && e.application_id == id {
                match best {
                    Some(b) => {
                        if self.saved[b].checkpoint_id <= e.checkpoint_id {
                            best = Some(i);
                        }
                    },
                    None => {
                        best = Some(i);
                    },
                }
            }
            i = i + 1;
        }
        proof {
            assert(self.saved@.subrange(0, self.saved@.len() as int) =~= self.saved@);
        }
        match best {
            Some(b) => Ok(duplicate_all(&self.saved[b].checkpoints)),
            None => Err(StorageError::NotFound),
        }
    }

    /// The snapshots of one given checkpoint id of the application.
    pub fn load_by_checkpoint_id(
        &mut self,
        application_name: &str,
        application_id: &str,
        checkpoint_id: u64,
    ) -> (r: Result<Vec<Checkpoint>, StorageError>)
        ensures
            final(self).history() == old(self).history(),
            match saved_with_id(old(self).history(), application_name@, application_id@, checkpoint_id) {
                Some(k) => r is Ok && checkpoint_models(r->Ok_0@) == checkpoint_models(
                    old(self).history()[k].checkpoints@,
                ),
                None => r == Err::<Vec<Checkpoint>, StorageError>(StorageError::NotFound),
            },
    {
        let name = application_name.to_owned();
        let id = application_id.to_owned();
        let mut i: usize = self.saved.len();
        proof {
            assert(self.saved@.subrange(0, i as int) =~= self.saved@);
        }
        while i > 0
            invariant
                i <= self.saved@.len(),
                name@ == application_name@,
                id@ == application_id@,
                saved_with_id(self.saved@, name@, id@, checkpoint_id) == saved_with_id(
                    self.saved@.subrange(0, i as int),
                    name@,
                    id@,
                    checkpoint_id,
                ),
            decreases i,
        {
            let e = &self.saved[i - 1];
            proof {
                assert(self.saved@.subrange(0, i as int).drop_last() =~= self.saved@.subrange(0, i - 1));
            }
            if e.application_name == name && e.application_id == id && e.checkpoint_id == checkpoint_id {
                return Ok(duplicate_all(&e.checkpoints));
            }
            i = i - 1;
        }
        Err(StorageError::NotFound)
    }
}

/// After an application saves a checkpoint whose id is at least that of
/// every checkpoint it saved before, loading the application yields exactly
/// the snapshots just saved.
pub proof fn lemma_load_after_save(
    before: Seq<SavedCheckpoint>,
    entry: SavedCheckpoint,
    name: Seq<char>,
    id: Seq<char>,
)
    requires
        belongs(entry, name, id),
        forall|k: int| 0 <= k < before.len() && belongs(before[k], name, id) ==> #[trigger] before[k].checkpoint_id
            <= entry.checkpoint_id,
    ensures
        latest_saved(before.push(entry), name, id) == Some(before.len() as int),
{
    let s = before.push(entry);
    assert(s.drop_last() =~= before);
    lemma_latest_saved_in_range(before, name, id);
}

/// The operations every checkpoint store offers.
pub trait TCheckpointStorage {
    fn save(
        &mut self,
        application_name: &str,
        application_id: &str,
        checkpoint_id: u64,
        finish_cks: Vec<Checkpoint>,
        ttl: u64,
    ) -> Result<(), StorageError>;

    fn load(&mut self, application_name: &str, application_id: &str) -> Result<Vec<Checkpoint>, StorageError>;

    fn load_by_checkpoint_id(
        &mut self,
        application_name: &str,
        application_id: &str,
        checkpoint_id: u64,
    ) -> Result<Vec<Checkpoint>, StorageError>;
}

/// A store that a relational database backs, reached at `endpoint`.
#[derive(Debug)]
pub struct RelationalCheckpointStorage {
    pub endpoint: String,
    pub table: String,
}

/// The checkpoint store that the configured backend selects.
pub enum CheckpointStorage {
    MemoryCheckpointStorage(MemoryCheckpointStorage),
    RelationalCheckpointStorage(RelationalCheckpointStorage),
}

impl CheckpointStorage {
    pub fn new(checkpoint_backend: &CheckpointBackend) -> (r: CheckpointStorage)
        ensures
            checkpoint_backend is Memory <==> r is MemoryCheckpointStorage,
            r matches CheckpointStorage::MemoryCheckpointStorage(m) ==> m.history().len() == 0,
            checkpoint_backend matches CheckpointBackend::Relational { endpoint, table } ==> (r matches CheckpointStorage::RelationalCheckpointStorage(s) && s.endpoint@
                == endpoint@ && s.table@ == table@),
    {
        match checkpoint_backend {
            CheckpointBackend::Memory => CheckpointStorage::MemoryCheckpointStorage(
                MemoryCheckpointStorage::new(),
            ),
            CheckpointBackend::Relational { endpoint, table } => {
                CheckpointStorage::RelationalCheckpointStorage(
                    RelationalCheckpointStorage { endpoint: endpoint.clone(), table: table.clone() },
                )
            },
        }
    }
}

impl CheckpointStorage {
    /// What the memory store holds; `None` for a relational store, whose
    /// contents live outside this process.
    pub open spec fn history_of(&self) -> Option<Seq<SavedCheckpoint>> {
        match self {
            CheckpointStorage::MemoryCheckpointStorage(m) => Some(m.history()),
            CheckpointStorage::RelationalCheckpointStorage(_) => None,
        }
    }
}

/// The relational store has no database driver in this library: every call
/// on it answers `BackendUnavailable` and leaves it as it was. The memory
/// store behaves as `MemoryCheckpointStorage` states.
impl TCheckpointStorage for CheckpointStorage {
    fn save(
        &mut self,
        application_name: &str,
        application_id: &str,
        checkpoint_id: u64,
        finish_cks: Vec<Checkpoint>,
        ttl: u64,
    ) -> (r: Result<(), StorageError>)
        ensures
            old(self).history_of() is None ==> r == Err::<(), StorageError>(
                StorageError::BackendUnavailable,
            ) && *final(self) == *old(self),
            old(self).history_of() matches Some(h) ==> {
                &&& r is Ok
                &&& final(self).history_of() matches Some(h2) && h2.len() == h.len() + 1
                    && h2.drop_last() == h && h2.last().application_name@ == application_name@
                    && h2.last().application_id@ == application_id@ && h2.last().checkpoint_id
                    == checkpoint_id && h2.last().checkpoints == finish_cks
            },
    {
        match self {
            CheckpointStorage::MemoryCheckpointStorage(storage) => storage.save(
                application_name,
                application_id,
                checkpoint_id,
                finish_cks,
                ttl,
            ),
            CheckpointStorage::RelationalCheckpointStorage(_) => Err(StorageError::BackendUnavailable),
        }
    }

    fn load(&mut self, application_name: &str, application_id: &str) -> (r: Result<
        Vec<Checkpoint>,
        StorageError,
    >)
        ensures
            final(self).history_of() == old(self).history_of(),
            old(self).history_of() is None ==> r == Err::<Vec<Checkpoint>, StorageError>(
                StorageError::BackendUnavailable,
            ) && *final(self) == *old(self),
            old(self).history_of() matches Some(h) ==> match latest_saved(h, application_name@, application_id@) {
                Some(k) => r is Ok && checkpoint_models(r->Ok_0@) == checkpoint_models(h[k].checkpoints@),
                None => r == Err::<Vec<Checkpoint>, StorageError>(StorageError::NotFound),
            },
    {
        match self {
            CheckpointStorage::MemoryCheckpointStorage(storage) => storage.load(application_name, application_id),
            CheckpointStorage::RelationalCheckpointStorage(_) => Err(StorageError::BackendUnavailable),
        }
    }

    fn load_by_checkpoint_id(
        &mut self,
        application_name: &str,
        application_id: &str,
        checkpoint_id: u64,
    ) -> (r: Result<Vec<Checkpoint>, StorageError>)
        ensures
            final(self).history_of() == old(self).history_of(),
            old(self).history_of() is None ==> r == Err::<Vec<Checkpoint>, StorageError>(
                StorageError::BackendUnavailable,
            ) && *final(self) == *old(self),
            old(self).history_of() matches Some(h) ==> match saved_with_id(h, application_name@, application_id@, checkpoint_id) {
                Some(k) => r is Ok && checkpoint_models(r->Ok_0@) == checkpoint_models(h[k].checkpoints@),
                None => r == Err::<Vec<Checkpoint>, StorageError>(StorageError::NotFound),
            },
    {
        match self {
            CheckpointStorage::MemoryCheckpointStorage(storage) => storage.load_by_checkpoint_id(
                application_name,
                application_id,
                checkpoint_id,
            ),
            CheckpointStorage::RelationalCheckpointStorage(_) => Err(StorageError::BackendUnavailable),
        }
    }
}

} // verus!
