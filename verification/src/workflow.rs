//! The `use` command's workflow, as a state machine: check the store,
//! activate a present version, otherwise ensure the store root, download,
//! extract and activate. The library decides each step; the thin
//! executable around it carries the filesystem and network actions out
//! and hands their outcomes back as events.

use vstd::prelude::*;
use vstd::string::*;
use crate::error::Error;
use crate::remote::{FetchOutcome, download_url, download_url_spec, classify_fetch};
use crate::version::{normalized, normalize_version};

verus! {

/// Where everything lives, resolved once at process start instead of
/// through ambient globals.
pub struct Config {
    /// The store root directory; each installed version is one
    /// subdirectory of it.
    pub store_root: String,
    /// The fixed path that every activation overwrites.
    pub active_path: String,
    /// The host's platform identifier.
    pub platform: String,
}

/// One path below another.
pub open spec fn joined(a: Seq<char>, b: Seq<char>) -> Seq<char> {
    a + "/"@ + b
}

pub fn join_path(a: &str, b: &str) -> (r: String)
    ensures
        r@ == joined(a@, b@),
{
    let mut out = String::from_str(a);
    out.append("/");
    out.append(b);
    proof {
        assert(out@ =~= joined(a@, b@));
    }
    out
}

/// The stations of the `use` workflow. `Activated` and `Failed` are
/// terminal: nothing follows them.
pub enum UseState {
    CheckLocal,
    ActivateExisting,
    EnsureStoreRoot,
    Fetch,
    Extract,
    ActivateNew,
    Activated,
    Failed { error: Error },
}

impl UseState {
    /// Whether the workflow has ended, well or badly.
    pub open spec fn is_terminal(self) -> bool {
        self is Activated || self is Failed
    }
}

/// What the executable reports back after carrying out an action.
pub enum UseEvent {
    /// Whether the version's store directory exists.
    DirChecked { exists: bool },
    /// The store root was created if missing. A failure here is
    /// deliberately ignored; it surfaces at the download's write.
    StoreRootEnsured,
    /// What the archive GET came to.
    Fetched { outcome: FetchOutcome },
    /// The extraction step ended, with its failure if it failed.
    Extracted { error: Option<Error> },
    /// The copy to the active path and the permission change ended.
    ActivationFinished { error: Option<Error> },
}

/// One step of outside work that the executable must perform.
pub enum Action {
    /// Check whether this directory exists.
    CheckVersionDir { path: String },
    /// Create this directory if it is missing.
    EnsureStoreRoot { path: String },
    /// GET the archive, with this user-agent header, and write its body
    /// here.
    FetchArchive { url: String, dest: String, user_agent: String },
    /// Extract the runtime binary of this archive into the store, then
    /// delete the archive.
    ExtractArchive { archive: String, store_root: String },
    /// Copy the version's binary over the active path and set its
    /// executable bits.
    CopyToActive { source: String, dest: String },
}

/// Exactly how one event moves the workflow on. An event that does not
/// belong to the current state leaves it as it is; a terminal state takes
/// no event at all.
pub open spec fn use_step(s: UseState, e: UseEvent, version: Seq<char>, n: UseState) -> bool {
    match (s, e) {
        (UseState::CheckLocal, UseEvent::DirChecked { exists }) => if exists {
            n is ActivateExisting
        } else {
            n is EnsureStoreRoot
        },
        (UseState::EnsureStoreRoot, UseEvent::StoreRootEnsured) => n is Fetch,
        (UseState::Fetch, UseEvent::Fetched { outcome }) => match outcome {
            FetchOutcome::Status { code } => if code == 200 {
                n is Extract
            } else if code == 404 {
                n matches UseState::Failed { error: Error::RemoteNotFound { version: v } } && v@
                    == version
            } else {
                n matches UseState::Failed {
                    error: Error::RemoteRequestFailed { status: Some(c) },
                } && c == code
            },
            FetchOutcome::TransportFailed => n matches UseState::Failed {
                error: Error::RemoteRequestFailed { status: None },
            },
        },
        (UseState::Extract, UseEvent::Extracted { error }) => match error {
            None => n is ActivateNew,
            Some(err) => n matches UseState::Failed { error: e } && e == err,
        },
        (UseState::ActivateExisting, UseEvent::ActivationFinished { error }) => match error {
            None => n is Activated,
            Some(err) => n matches UseState::Failed { error: e } && e == err,
        },
        (UseState::ActivateNew, UseEvent::ActivationFinished { error }) => match error {
            None => n is Activated,
            Some(err) => n matches UseState::Failed { error: e } && e == err,
        },
        _ => n == s,
    }
}

/// One run of the `use` command: its configuration, the normalized
/// version it is about, and where it stands.
pub struct UseWorkflow {
    pub config: Config,
    pub version: String,
    pub state: UseState,
}

impl UseWorkflow {
    /// Starts the workflow for a requested version: the request is
    /// normalized once, here, and the first station checks the store.
    pub fn new(config: Config, requested: &str) -> (r: UseWorkflow)
        ensures
            r.version@ == normalized(requested@),
            r.state is CheckLocal,
            r.config == config,
    {
        UseWorkflow { config, version: normalize_version(requested), state: UseState::CheckLocal }
    }

    /// The next action to carry out, `None` once the workflow has ended.
    pub fn action(&self) -> (r: Option<Action>)
        ensures
            match self.state {
                UseState::CheckLocal => r matches Some(Action::CheckVersionDir { path }) && path@
                    == joined(self.config.store_root@, self.version@),
                UseState::ActivateExisting => r matches Some(
                    Action::CopyToActive { source, dest },
                ) && source@ == joined(joined(self.config.store_root@, self.version@), "bun"@)
                    && dest@ == self.config.active_path@,
                UseState::EnsureStoreRoot => r matches Some(Action::EnsureStoreRoot { path })
                    && path@ == self.config.store_root@,
                UseState::Fetch => r matches Some(Action::FetchArchive { url, dest, user_agent })
                    && url@ == download_url_spec(self.version@, self.config.platform@) && dest@
                    == joined(self.config.store_root@, self.version@ + ".zip"@) && user_agent@
                    == "bum-version-manager-app"@,
                UseState::Extract => r matches Some(Action::ExtractArchive { archive, store_root })
                    && archive@ == joined(self.config.store_root@, self.version@ + ".zip"@)
                    && store_root@ == self.config.store_root@,
                UseState::ActivateNew => r matches Some(Action::CopyToActive { source, dest })
                    && source@ == joined(joined(self.config.store_root@, self.version@), "bun"@)
                    && dest@ == self.config.active_path@,
                UseState::Activated => r is None,
                UseState::Failed { .. } => r is None,
            },
            r is None <==> self.state.is_terminal(),
    {
        match &self.state {
            UseState::CheckLocal => Some(
                Action::CheckVersionDir {
                    path: join_path(self.config.store_root.as_str(), self.version.as_str()),
                },
            ),
            UseState::ActivateExisting => Some(self.copy_to_active_action()),
            UseState::EnsureStoreRoot => Some(
                Action::EnsureStoreRoot {
                    path: String::from_str(self.config.store_root.as_str()),
                },
            ),
            UseState::Fetch => Some(
                Action::FetchArchive {
                    url: download_url(self.version.as_str(), self.config.platform.as_str()),
                    dest: self.archive_dest_path(),
                    user_agent: String::from_str(crate::remote::user_agent()),
                },
            ),
            UseState::Extract => Some(
                Action::ExtractArchive {
                    archive: self.archive_dest_path(),
                    store_root: String::from_str(self.config.store_root.as_str()),
                },
            ),
            UseState::ActivateNew => Some(self.copy_to_active_action()),
            UseState::Activated => None,
            UseState::Failed { .. } => None,
        }
    }

    fn copy_to_active_action(&self) -> (r: Action)
        ensures
            r matches Action::CopyToActive { source, dest } && source@ == joined(
                joined(self.config.store_root@, self.version@),
                "bun"@,
            ) && dest@ == self.config.active_path@,
    {
        let dir = join_path(self.config.store_root.as_str(), self.version.as_str());
        Action::CopyToActive {
            source: join_path(dir.as_str(), "bun"),
            dest: String::from_str(self.config.active_path.as_str()),
        }
    }

    fn archive_dest_path(&self) -> (r: String)
        ensures
            r@ == joined(self.config.store_root@, self.version@ + ".zip"@),
    {
        let mut name = String::from_str(self.version.as_str());
        name.append(".zip");
        join_path(self.config.store_root.as_str(), name.as_str())
    }

    /// Moves the workflow on by one event.
    pub fn step(&mut self, event: UseEvent)
        ensures
            final(self).config == old(self).config,
            final(self).version == old(self).version,
            use_step(old(self).state, event, old(self).version@, final(self).state),
    {
        match event {
            UseEvent::DirChecked { exists } => {
                if matches!(self.state, UseState::CheckLocal) {
                    self.state = if exists {
                        UseState::ActivateExisting
                    } else {
                        UseState::EnsureStoreRoot
                    };
                }
            },
            UseEvent::StoreRootEnsured => {
                if matches!(self.state, UseState::EnsureStoreRoot) {
                    self.state = UseState::Fetch;
                }
            },
            UseEvent::Fetched { outcome } => {
                if matches!(self.state, UseState::Fetch) {
                    self.state = match classify_fetch(outcome, self.version.as_str()) {
                        Ok(_) => UseState::Extract,
                        Err(error) => UseState::Failed { error },
                    };
                }
            },
            UseEvent::Extracted { error } => {
                if matches!(self.state, UseState::Extract) {
                    self.state = match error {
                        None => UseState::ActivateNew,
                        Some(error) => UseState::Failed { error },
                    };
                }
            },
            UseEvent::ActivationFinished { error } => {
                if matches!(self.state, UseState::ActivateExisting) || matches!(
                    self.state,
                    UseState::ActivateNew,
                ) {
                    self.state = match error {
                        None => UseState::Activated,
                        Some(error) => UseState::Failed { error },
                    };
                }
            },
        }
    }
}

/// A version the remote does not know ends the workflow at once: the
/// fetch's 404 leads to the not-found failure naming that version, the
/// state is terminal, and so no extraction or activation action follows
/// that could write a store entry; only what the fetcher itself wrote
/// before failing can be on disk.
pub proof fn lemma_fetch_not_found(s: UseState, e: UseEvent, version: Seq<char>, n: UseState)
    requires
        s is Fetch,
        e == (UseEvent::Fetched { outcome: FetchOutcome::Status { code: 404u16 } }),
        use_step(s, e, version, n),
    ensures
        n matches UseState::Failed { error: Error::RemoteNotFound { version: v } } && v@ == version,
        n.is_terminal(),
{
}

} // verus!
