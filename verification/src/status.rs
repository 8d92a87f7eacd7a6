//! The status of a file being processed and of a model being downloaded,
//! as kept in the key-value store, and the keys they are kept under.
use vstd::prelude::*;
use crate::text::{concat, lemma_replaced_text_absent, occurs_in, replace_text, replaced_text, str_eq};

verus! {

/// The status of a file.
#[derive(PartialEq, Eq, Structural, Clone, Copy, Debug)]
pub enum Status {
    Pending,
    Done,
    Failed,
}

/// The status of a model download.
#[derive(PartialEq, Eq, Structural, Clone, Copy, Debug)]
pub enum ModelStatus {
    Queued,
    Downloading,
    Completed,
    Failed,
}

/// How a file status is written.
pub open spec fn status_text(s: Status) -> Seq<char> {
    match s {
        Status::Pending => "pending"@,
        Status::Done => "done"@,
        Status::Failed => "failed"@,
    }
}

/// How a written file status is read: `done` and `failed` as themselves,
/// anything else as pending.
pub open spec fn status_from_text(t: Seq<char>) -> Status {
    if t == "done"@ {
        Status::Done
    } else if t == "failed"@ {
        Status::Failed
    } else {
        Status::Pending
    }
}

/// How a model status is written.
pub open spec fn model_status_text(s: ModelStatus) -> Seq<char> {
    match s {
        ModelStatus::Queued => "queued"@,
        ModelStatus::Downloading => "downloading"@,
        ModelStatus::Completed => "completed"@,
        ModelStatus::Failed => "failed"@,
    }
}

/// How a written model status is read: anything unknown as queued.
pub open spec fn model_status_from_text(t: Seq<char>) -> ModelStatus {
    if t == "queued"@ {
        ModelStatus::Queued
    } else if t == "downloading"@ {
        ModelStatus::Downloading
    } else if t == "completed"@ {
        ModelStatus::Completed
    } else if t == "failed"@ {
        ModelStatus::Failed
    } else {
        ModelStatus::Queued
    }
}

/// Reading the written form of a file status gives the status back.
pub proof fn law_status_round_trip(s: Status)
    ensures
        status_from_text(status_text(s)) == s,
{
    reveal_strlit("pending");
    reveal_strlit("done");
    reveal_strlit("failed");
    assert("pending"@[0] == 'p' && "done"@[0] == 'd' && "failed"@[0] == 'f');
}

/// Reading the written form of a model status gives the status back.
pub proof fn law_model_status_round_trip(s: ModelStatus)
    ensures
        model_status_from_text(model_status_text(s)) == s,
{
    reveal_strlit("queued");
    reveal_strlit("downloading");
    reveal_strlit("completed");
    reveal_strlit("failed");
    assert("queued"@[0] == 'q' && "downloading"@[0] == 'd' && "completed"@[0] == 'c' && "failed"@[0] == 'f');
}

impl Status {
    /// The written form of the status.
    pub fn to_string(&self) -> (r: String)
        ensures
            r@ == status_text(*self),
    {
        match self {
            Status::Pending => "pending".to_owned(),
            Status::Done => "done".to_owned(),
            Status::Failed => "failed".to_owned(),
        }
    }

    /// Reads a written status.
    pub fn from_string(s: &str) -> (r: Status)
        ensures
            r == status_from_text(s@),
    {
        if str_eq(s, "done") {
            Status::Done
        } else if str_eq(s, "failed") {
            Status::Failed
        } else {
            Status::Pending
        }
    }
}

impl ModelStatus {
    /// The written form of the status.
    pub fn to_string(&self) -> (r: String)
        ensures
            r@ == model_status_text(*self),
    {
        match self {
            ModelStatus::Queued => "queued".to_owned(),
            ModelStatus::Downloading => "downloading".to_owned(),
            ModelStatus::Completed => "completed".to_owned(),
            ModelStatus::Failed => "failed".to_owned(),
        }
    }

    /// Reads a written status.
    pub fn from_string(s: &str) -> (r: ModelStatus)
        ensures
            r == model_status_from_text(s@),
    {
        if str_eq(s, "queued") {
            ModelStatus::Queued
        } else if str_eq(s, "downloading") {
            ModelStatus::Downloading
        } else if str_eq(s, "completed") {
            ModelStatus::Completed
        } else if str_eq(s, "failed") {
            ModelStatus::Failed
        } else {
            ModelStatus::Queued
        }
    }
}

/// A file's status as stored: none stored counts as pending.
pub fn file_status_of(stored: Option<String>) -> (r: Status)
    ensures
        r == (match stored {
            Some(s) => status_from_text(s@),
            None => Status::Pending,
        }),
{
    match stored {
        Some(s) => Status::from_string(s.as_str()),
        None => Status::Pending,
    }
}

/// A model's status as stored: none stored counts as queued.
pub fn model_status_of(stored: Option<String>) -> (r: ModelStatus)
    ensures
        r == (match stored {
            Some(s) => model_status_from_text(s@),
            None => ModelStatus::Queued,
        }),
{
    match stored {
        Some(s) => ModelStatus::from_string(s.as_str()),
        None => ModelStatus::Queued,
    }
}

/// Where one kind of progress is kept: the prefix of its keys.
pub struct RedisProgressManager {
    pub prefix: String,
}

impl RedisProgressManager {
    /// Keys under `prefix`.
    pub fn new(prefix: &str) -> (r: Self)
        ensures
            r.prefix@ == prefix@,
    {
        RedisProgressManager { prefix: prefix.to_owned() }
    }

    /// The key of an item's status: `<prefix>:status:<id>`.
    pub fn status_key(&self, id: &str) -> (r: String)
        ensures
            r@ == self.prefix@ + ":status:"@ + id@,
    {
        let a = concat(self.prefix.as_str(), ":status:");
        concat(a.as_str(), id)
    }

    /// The key of an item's progress: `<prefix>:progress:<id>`.
    pub fn progress_key(&self, id: &str) -> (r: String)
        ensures
            r@ == self.prefix@ + ":progress:"@ + id@,
    {
        let a = concat(self.prefix.as_str(), ":progress:");
        concat(a.as_str(), id)
    }
}

/// The progress of files, kept under the prefix `processing`.
pub struct FileProcessingManager {
    pub redis: RedisProgressManager,
}

impl FileProcessingManager {
    pub fn new() -> (r: Self)
        ensures
            r.redis.prefix@ == "processing"@,
    {
        FileProcessingManager { redis: RedisProgressManager::new("processing") }
    }

    /// A file is in process while its status is pending.
    pub fn is_file_in_process(status: Status) -> (r: bool)
        ensures
            r == (status == Status::Pending),
    {
        status == Status::Pending
    }

    /// A file is done when its status says so.
    pub fn is_process_done(status: Status) -> (r: bool)
        ensures
            r == (status == Status::Done),
    {
        status == Status::Done
    }
}

/// The progress of model downloads, kept under the prefix `model`.
pub struct ModelDownloadManager {
    pub redis: RedisProgressManager,
}

impl ModelDownloadManager {
    pub fn new() -> (r: Self)
        ensures
            r.redis.prefix@ == "model"@,
    {
        ModelDownloadManager { redis: RedisProgressManager::new("model") }
    }

    /// A model is downloading when its status says so.
    pub fn is_model_downloading(status: ModelStatus) -> (r: bool)
        ensures
            r == (status == ModelStatus::Downloading),
    {
        status == ModelStatus::Downloading
    }

    /// A model download is complete when its status says so.
    pub fn is_model_download_complete(status: ModelStatus) -> (r: bool)
        ensures
            r == (status == ModelStatus::Completed),
    {
        status == ModelStatus::Completed
    }

    /// The model named by a status key: the key with every `model:status:` taken out.
    pub fn model_name_from_key(key: &str) -> (r: String)
        ensures
            r@ == replaced_text(key@, "model:status:"@, Seq::empty()),
    {
        proof {
            reveal_strlit("model:status:");
            reveal_strlit("");
            assert(""@ =~= Seq::<char>::empty());
        }
        replace_text(key, "model:status:", "")
    }
}

/// The model named in its status key is read back from the key, where the
/// name itself holds no `model:status:`.
pub proof fn law_model_name_round_trip(name: Seq<char>)
    requires
        !occurs_in("model:status:"@, name),
    ensures
        replaced_text("model"@ + ":status:"@ + name, "model:status:"@, Seq::empty()) == name,
{
    reveal_strlit("model");
    reveal_strlit(":status:");
    reveal_strlit("model:status:");
    let p = "model:status:"@;
    let s = "model"@ + ":status:"@ + name;
    assert("model"@ + ":status:"@ =~= p);
    assert(s.take(p.len() as int) =~= p);
    assert(s.skip(p.len() as int) =~= name);
    lemma_replaced_text_absent(name, p, Seq::empty());
    assert(Seq::<char>::empty() + name =~= name);
}

/// Whether progress is read for a prefix: only `processing` and `model` are
/// known (both are read from the model downloads' progress).
pub fn progress_prefix_known(prefix: &str) -> (r: bool)
    ensures
        r == (prefix@ == "processing"@ || prefix@ == "model"@),
{
    str_eq(prefix, "processing") || str_eq(prefix, "model")
}

} // verus!
