//! Opening the database: where it lies, which version of the schema it
//! holds, and whether the server may run on it.

use vstd::prelude::*;

use crate::model::PruneOpts;

verus! {

/// The version of the schema that this server runs on.
pub const CURRENT_VERSION: u32 = 7;

/// The name of the database file where none is given.
pub const DEFAULT_SQLITE_FILE: &'static str = "diskuto.sqlite3";

/// The journal mode that the server asks the database for.
pub const WAL_MODE: &'static str = "wal";

/// Why the server cannot run on a database, or a command not be carried out.
#[derive(Clone, Copy, Debug, PartialEq, Eq, Structural)]
pub enum DatabaseFault {
    /// There is no database file.
    NotFound,
    /// There is a database file already.
    AlreadyExists,
    /// The database has no table that holds the version.
    NoVersionTable,
    /// The version table is empty.
    NoVersion,
    /// The version table holds more than one version.
    ManyVersions,
    /// The schema is older than `CURRENT_VERSION`.
    NeedsUpgrade,
    /// The operator has not said that there is a backup.
    NoBackup,
    /// Neither a dry run nor a real one was asked for.
    NoPruneMode,
}

/// Where the database lies.
#[derive(Debug, PartialEq, Eq)]
pub struct FactoryBuilder {
    sqlite_file: String,
}

impl View for FactoryBuilder {
    type V = Seq<char>;

    closed spec fn view(&self) -> Seq<char> {
        self.sqlite_file@
    }
}

impl FactoryBuilder {
    /// A builder for the database in the file `sqlite_file`.
    pub fn new(sqlite_file: String) -> (builder: Self)
        ensures
            builder@ == sqlite_file@,
    {
        Self { sqlite_file }
    }

    /// The path of the database file.
    pub fn sqlite_file(&self) -> (path: &String)
        ensures
            path@ == self@,
    {
        &self.sqlite_file
    }

    /// Whether a database of the version `db_version` must be upgraded before
    /// the server runs on it.
    pub fn db_needs_upgrade(&self, db_version: u32) -> (needed: bool)
        ensures
            needed == (db_version < CURRENT_VERSION),
    {
        db_version < CURRENT_VERSION
    }

    /// Whether the server may run on the database: the file must exist and its
    /// schema must not be older than `CURRENT_VERSION`. `version` is looked at
    /// only where the file exists.
    pub fn factory(&self, exists: bool, version: Result<u32, DatabaseFault>) -> (r: Result<
        (),
        DatabaseFault,
    >)
        ensures
            r == may_run(exists, version),
    {
        if !exists {
            return Err(DatabaseFault::NotFound);
        }
        match version {
            Err(fault) => Err(fault),
            Ok(v) => if self.db_needs_upgrade(v) {
                Err(DatabaseFault::NeedsUpgrade)
            } else {
                Ok(())
            },
        }
    }

    /// Whether a new database may be created: only where no file is there yet.
    pub fn db_create(&self, exists: bool) -> (r: Result<(), DatabaseFault>)
        ensures
            r == may_create(exists),
    {
        if exists {
            Err(DatabaseFault::AlreadyExists)
        } else {
            Ok(())
        }
    }

    /// Whether a database may be upgraded: the operator must have said that
    /// there is a backup, and the file must exist.
    pub fn db_upgrade(&self, exists: bool, i_have_a_backup: bool) -> (r: Result<
        (),
        DatabaseFault,
    >)
        ensures
            r == may_upgrade(exists, i_have_a_backup),
    {
        if !i_have_a_backup {
            return Err(DatabaseFault::NoBackup);
        }
        if !exists {
            return Err(DatabaseFault::NotFound);
        }
        Ok(())
    }

    /// Whether the database took the journal mode that was asked for: it
    /// answers with the mode that it is in.
    pub fn set_wal(&self, new_mode: &String) -> (set: bool)
        ensures
            set == (new_mode@ == WAL_MODE@),
    {
        let wanted = WAL_MODE.to_owned();
        *new_mode == wanted
    }
}

/// The options that say which database to work on.
#[derive(Debug, PartialEq, Eq)]
pub struct BackendOptions {
    pub sqlite_file: String,
}

impl BackendOptions {
    /// The builder for the database that the options name.
    pub fn factory_builder(&self) -> (builder: FactoryBuilder)
        ensures
            builder@ == self.sqlite_file@,
    {
        FactoryBuilder::new(self.sqlite_file.clone())
    }
}

/// The version that a database holds, read off what two queries found: how
/// many tables are called `version`, and the first rows of that table.
pub open spec fn stored_version(table_count: u32, versions: Seq<u32>) -> Result<u32, DatabaseFault> {
    if table_count == 0 {
        Err(DatabaseFault::NoVersionTable)
    } else if versions.len() == 0 {
        Err(DatabaseFault::NoVersion)
    } else if versions.len() > 1 {
        Err(DatabaseFault::ManyVersions)
    } else {
        Ok(versions[0])
    }
}

/// The version that a database holds. A database without a version table,
/// with an empty one, or with more than one version in it is not one of ours.
pub fn get_version(table_count: u32, versions: &[u32]) -> (r: Result<u32, DatabaseFault>)
    ensures
        r == stored_version(table_count, versions@),
{
    if table_count == 0 {
        return Err(DatabaseFault::NoVersionTable);
    }
    if versions.len() == 0 {
        return Err(DatabaseFault::NoVersion);
    }
    if versions.len() > 1 {
        return Err(DatabaseFault::ManyVersions);
    }
    Ok(versions[0])
}

/// Whether the server may run on the database: the file must exist and its
/// schema must not be older than `CURRENT_VERSION`.
pub open spec fn may_run(exists: bool, version: Result<u32, DatabaseFault>) -> Result<
    (),
    DatabaseFault,
> {
    if !exists {
        Err(DatabaseFault::NotFound)
    } else {
        match version {
            Err(fault) => Err(fault),
            Ok(v) => if v < CURRENT_VERSION {
                Err(DatabaseFault::NeedsUpgrade)
            } else {
                Ok(())
            },
        }
    }
}

/// Whether a new database may be created: only where no file is there yet.
pub open spec fn may_create(exists: bool) -> Result<(), DatabaseFault> {
    if exists {
        Err(DatabaseFault::AlreadyExists)
    } else {
        Ok(())
    }
}

/// Whether a database may be upgraded: the operator must have said that
/// there is a backup, and the file must exist.
pub open spec fn may_upgrade(exists: bool, i_have_a_backup: bool) -> Result<(), DatabaseFault> {
    if !i_have_a_backup {
        Err(DatabaseFault::NoBackup)
    } else if !exists {
        Err(DatabaseFault::NotFound)
    } else {
        Ok(())
    }
}

/// The options of a pruning run that the flags of the command ask for.
pub open spec fn asked_prune_opts(
    dry_run: bool,
    exec: bool,
    skip_unused_attachments: bool,
    skip_unfollowed_items: bool,
) -> Result<PruneOpts, DatabaseFault> {
    if !dry_run && !exec {
        Err(DatabaseFault::NoPruneMode)
    } else {
        Ok(
            PruneOpts {
                dry_run,
                attachments: !skip_unused_attachments,
                items: !skip_unfollowed_items,
            },
        )
    }
}

/// The options of a pruning run, from the flags of the command. One of
/// `dry_run` and `exec` must be set; each `skip` flag switches one kind of
/// deletion off.
pub fn prune_opts(
    dry_run: bool,
    exec: bool,
    skip_unused_attachments: bool,
    skip_unfollowed_items: bool,
) -> (r: Result<PruneOpts, DatabaseFault>)
    ensures
        r == asked_prune_opts(dry_run, exec, skip_unused_attachments, skip_unfollowed_items),
{
    if !dry_run && !exec {
        return Err(DatabaseFault::NoPruneMode);
    }
    Ok(PruneOpts { dry_run, attachments: !skip_unused_attachments, items: !skip_unfollowed_items })
}

} // verus!
