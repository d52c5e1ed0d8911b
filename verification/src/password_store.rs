//! The store as the host holds it: its directory, its index, and the
//! dispatcher of its operations.

use vstd::prelude::*;

use crate::dispatcher::{
    decision, empty_table, requested, finished, Dispatch, OperationDispatcher, OperationKind, Table,
};
use crate::error::Error;
use crate::index::{build, infos, listed_entries, walk, StoreNode};
use crate::order::is_stable_sort_of;
use crate::password_info::PasswordInfo;
use crate::store_dir::{resolve, store_dir};

verus! {

/// A password store: where it lies, what it holds, and which of its
/// operations are under way.
pub struct PasswordStore {
    pub store_dir: String,
    /// The entries, in ascending order of their ids.
    pub passwords: Vec<PasswordInfo>,
    /// Which operations are under way.
    pub operations: OperationDispatcher,
}

impl PasswordStore {
    /// The table of the operations under way.
    pub open spec fn table(&self) -> Table {
        self.operations.table()
    }

    /// The store's dispatcher is well formed.
    pub open spec fn wf(&self) -> bool {
        self.operations.wf()
    }

    /// The store at `store_dir`, from the listing of that directory as the
    /// host read it.
    ///
    /// Where the directory itself could not be read there is no store, and
    /// the host's words come back as an `Io` error. What could not be read
    /// below it is left out. The entries are sorted by id; no operation is
    /// under way.
    pub fn new(store_dir: String, root: Result<Vec<StoreNode>, String>) -> (made: Result<
        Self,
        Error,
    >)
        ensures
            match root {
                Ok(listing) => {
                    &&& made matches Ok(store)
                    &&& store.store_dir == store_dir
                    &&& is_stable_sort_of(
                        infos(store.passwords@),
                        listed_entries(listing@, Seq::empty(), listing@.len()),
                    )
                    &&& store.wf()
                    &&& store.table() == empty_table()
                },
                Err(said) => made matches Err(Error::Io(reason)) && reason@ == said@,
            },
    {
        match build(root) {
            Ok(passwords) => Ok(
                PasswordStore { store_dir, passwords, operations: OperationDispatcher::new() },
            ),
            Err(error) => Err(error),
        }
    }

    /// The directory of the store, from the user's home directory and the
    /// value of `PASSWORD_STORE_DIR`, where it is set.
    pub fn get_store_dir(home: &str, configured: Option<&str>) -> (dir: String)
        ensures
            dir@ == store_dir(
                home@,
                match configured {
                    Some(path) => Some(path@),
                    None => None,
                },
            ),
    {
        resolve(home, configured)
    }

    /// The entries in the listing of the store's directory, in the order of
    /// the walk: every file whose name ends in `.gpg` and whose metadata
    /// could be read, in every directory that could be read.
    pub fn get_password_infos(listing: &Vec<StoreNode>) -> (found: Vec<PasswordInfo>)
        ensures
            infos(found@) == listed_entries(listing@, Seq::empty(), listing@.len()),
    {
        walk(listing)
    }

    /// Asks the dispatcher whether a task is to be started for `kind` on
    /// `pass_id`.
    fn run_once(&mut self, kind: OperationKind, pass_id: String) -> (told: Dispatch)
        requires
            old(self).wf(),
            old(self).table().spawned < u64::MAX,
        ensures
            final(self).wf(),
            final(self).table() == requested(old(self).table(), kind, pass_id@),
            told == decision(old(self).table(), kind, pass_id@),
            final(self).store_dir == old(self).store_dir,
            final(self).passwords == old(self).passwords,
    {
        self.operations.request(kind, pass_id.as_str())
    }

    /// A request to copy the password of `pass_id`. It is dropped while the
    /// same copy is under way.
    pub fn copy_password(&mut self, pass_id: String) -> (told: Dispatch)
        requires
            old(self).wf(),
            old(self).table().spawned < u64::MAX,
        ensures
            final(self).wf(),
            final(self).table() == requested(
                old(self).table(),
                OperationKind::CopyPassword,
                pass_id@,
            ),
            told == decision(old(self).table(), OperationKind::CopyPassword, pass_id@),
            final(self).store_dir == old(self).store_dir,
            final(self).passwords == old(self).passwords,
    {
        self.run_once(OperationKind::CopyPassword, pass_id)
    }

    /// A request to copy the login of `pass_id`. It is dropped while the
    /// same copy is under way.
    pub fn copy_login(&mut self, pass_id: String) -> (told: Dispatch)
        requires
            old(self).wf(),
            old(self).table().spawned < u64::MAX,
        ensures
            final(self).wf(),
            final(self).table() == requested(old(self).table(), OperationKind::CopyLogin, pass_id@),
            told == decision(old(self).table(), OperationKind::CopyLogin, pass_id@),
            final(self).store_dir == old(self).store_dir,
            final(self).passwords == old(self).passwords,
    {
        self.run_once(OperationKind::CopyLogin, pass_id)
    }

    /// A request to copy the one-time password of `pass_id`. It is dropped
    /// while the same copy is under way.
    pub fn copy_otp(&mut self, pass_id: String) -> (told: Dispatch)
        requires
            old(self).wf(),
            old(self).table().spawned < u64::MAX,
        ensures
            final(self).wf(),
            final(self).table() == requested(old(self).table(), OperationKind::CopyOtp, pass_id@),
            told == decision(old(self).table(), OperationKind::CopyOtp, pass_id@),
            final(self).store_dir == old(self).store_dir,
            final(self).passwords == old(self).passwords,
    {
        self.run_once(OperationKind::CopyOtp, pass_id)
    }

    /// A request to fetch the one-time password of `pass_id`. It is dropped
    /// while the same fetch is under way.
    pub fn fetch_otp(&mut self, pass_id: String) -> (told: Dispatch)
        requires
            old(self).wf(),
            old(self).table().spawned < u64::MAX,
        ensures
            final(self).wf(),
            final(self).table() == requested(old(self).table(), OperationKind::FetchOtp, pass_id@),
            told == decision(old(self).table(), OperationKind::FetchOtp, pass_id@),
            final(self).store_dir == old(self).store_dir,
            final(self).passwords == old(self).passwords,
    {
        self.run_once(OperationKind::FetchOtp, pass_id)
    }

    /// A request to fetch the entry `pass_id`. It is dropped while the same
    /// fetch is under way.
    pub fn fetch_entry(&mut self, pass_id: String) -> (told: Dispatch)
        requires
            old(self).wf(),
            old(self).table().spawned < u64::MAX,
        ensures
            final(self).wf(),
            final(self).table() == requested(old(self).table(), OperationKind::FetchEntry, pass_id@),
            told == decision(old(self).table(), OperationKind::FetchEntry, pass_id@),
            final(self).store_dir == old(self).store_dir,
            final(self).passwords == old(self).passwords,
    {
        self.run_once(OperationKind::FetchEntry, pass_id)
    }

    /// The host reports that task `task` is over.
    pub fn task_finished(&mut self, task: u64)
        requires
            old(self).wf(),
        ensures
            final(self).wf(),
            final(self).table() == finished(old(self).table(), task as nat),
            final(self).store_dir == old(self).store_dir,
            final(self).passwords == old(self).passwords,
    {
        self.operations.task_finished(task)
    }

    /// How many tasks the store has started so far.
    pub fn spawned(&self) -> (count: u64)
        ensures
            count == self.table().spawned,
    {
        self.operations.spawned()
    }
}

} // verus!
