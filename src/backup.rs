//! The backup orchestrator: a state machine that assembles an archive
//! container out of a package's APKs, its OBB expansion files and, where the
//! device grants root, its private data.
//!
//! The machine does no I/O. Its state determines one pending action
//! (`pending`); whoever drives it performs that action and reports the
//! outcome (`step`), until the action is `Finish`.
use vstd::prelude::*;
use crate::device::AppPackage;
use crate::text::{
    lines, trim, ends_with, last_index, views, chars_of, string_of, lines_of, trimmed,
    ends_with_exec, last_index_exec, slice_of, cat, string_views,
};
use crate::order::sorted_order_desc;
use crate::transport::{Reply, reply_view, owned, bridge_args, strings3, strings4};

verus! {

/// The descriptor stored as `metadata.json` in every container.
pub struct BackupMetadata {
    pub package_name: String,
    pub original_path: String,
    pub backup_date: String,
    pub version: String,
    pub is_split: bool,
    pub has_obb: bool,
    pub has_data: bool,
}

/// One member of the container to write.
pub enum Member {
    /// The local file `source`, stored under `name`; small, may be buffered.
    Stored { name: String, source: String },
    /// Every regular file directly in the local directory `source`, each
    /// stored as `prefix` followed by its file name, streamed.
    Tree { prefix: String, source: String },
    /// The local file `source`, stored under `name`, streamed.
    Streamed { name: String, source: String },
    /// The metadata descriptor, stored as `metadata.json`.
    Descriptor,
}

/// A member of the container as the contracts see it.
pub enum Entry {
    Stored { name: Seq<char>, source: Seq<char> },
    Tree { prefix: Seq<char>, source: Seq<char> },
    Streamed { name: Seq<char>, source: Seq<char> },
    Descriptor,
}

pub open spec fn entry_of(m: Member) -> Entry {
    match m {
        Member::Stored { name, source } => Entry::Stored { name: name@, source: source@ },
        Member::Tree { prefix, source } => Entry::Tree { prefix: prefix@, source: source@ },
        Member::Streamed { name, source } => Entry::Streamed { name: name@, source: source@ },
        Member::Descriptor => Entry::Descriptor,
    }
}

/// What the driver of a backup is asked to do next.
pub enum BackupAction {
    /// Run the bridge with these arguments.
    Bridge(Vec<String>),
    /// Remove the local directory tree, if it exists.
    ClearDir(String),
    /// Create the local directory, with its parents.
    MakeDir(String),
    /// Report whether the local file exists (an error if it does not).
    FileExists(String),
    /// Write the container file `dest` holding `members` in order, with
    /// `metadata` as its descriptor. A file is at `dest` afterwards only if
    /// the whole container was written.
    WriteContainer { dest: String, members: Vec<Member>, metadata: BackupMetadata },
    /// Remove the local directory tree; the outcome does not matter.
    RemoveDir(String),
    /// The backup is over, with this result.
    Finish(Result<String, String>),
}

/// Where a backup stands; each stage has one pending action.
pub enum BackupStage {
    Clearing,
    Preparing,
    Listing,
    PullingApk(usize),
    PullingBase,
    ProbingObb,
    PullingObb,
    ProbingRoot,
    Packing,
    PullingData,
    CheckingData,
    RemovingRemote,
    Writing,
    Cleaning,
    Done,
}

/// A backup in progress.
pub struct Backup {
    pub device_id: String,
    pub package: AppPackage,
    /// The container file to write.
    pub dest: String,
    /// The private staging directory of this package.
    pub staging: String,
    pub backup_date: String,
    /// The APK files found (or, when none was listed, `base.apk`).
    pub apk_files: Vec<String>,
    pub has_obb: bool,
    pub has_data: bool,
    pub stage: BackupStage,
    /// The result to report once the staging directory is removed.
    pub result: Result<String, String>,
}

/// The directory part of a remote path: what stands before its last `/`,
/// when that is not empty.
pub open spec fn parent_of(path: Seq<char>) -> Option<Seq<char>> {
    let k = last_index(path, '/');
    if k > 0 {
        Some(path.take(k))
    } else {
        None
    }
}

/// The trimmed lines that name an APK file.
pub open spec fn apk_names(ls: Seq<Seq<char>>) -> Seq<Seq<char>>
    decreases ls.len(),
{
    if ls.len() == 0 {
        seq![]
    } else if ends_with(trim(ls.last()), ".apk"@) {
        apk_names(ls.drop_last()).push(trim(ls.last()))
    } else {
        apk_names(ls.drop_last())
    }
}

/// The APK files named in a directory listing.
pub open spec fn listed_apks(out: Seq<char>) -> Seq<Seq<char>> {
    apk_names(lines(out))
}

pub open spec fn staging_of(work_dir: Seq<char>, name: Seq<char>) -> Seq<char> {
    work_dir + "/"@ + name
}

pub open spec fn obb_remote_of(name: Seq<char>) -> Seq<char> {
    "/sdcard/Android/obb/"@ + name
}

pub open spec fn data_remote_of(name: Seq<char>) -> Seq<char> {
    "/sdcard/easyadb_"@ + name + "_data.tar.gz"@
}

pub open spec fn tar_command_of(name: Seq<char>) -> Seq<char> {
    "tar -czf "@ + data_remote_of(name) + " -C /data/data "@ + name
}

/// The members of a container, in the order they are written: the APKs,
/// then the OBB directory, then the data archive, then the descriptor.
pub open spec fn planned_entries(
    files: Seq<Seq<char>>,
    staging: Seq<char>,
    has_obb: bool,
    has_data: bool,
) -> Seq<Entry> {
    files.map_values(
        |f: Seq<char>| Entry::Stored { name: "apks/"@ + f, source: staging + "/apks/"@ + f },
    ) + (if has_obb {
        seq![Entry::Tree { prefix: "obb/"@, source: staging + "/obb"@ }]
    } else {
        seq![]
    }) + (if has_data {
        seq![Entry::Streamed { name: "data.tar.gz"@, source: staging + "/data.tar.gz"@ }]
    } else {
        seq![]
    }) + seq![Entry::Descriptor]
}

/// How many entries store a file under `apks/`.
pub open spec fn apk_entry_count(es: Seq<Entry>) -> nat
    decreases es.len(),
{
    if es.len() == 0 {
        0
    } else {
        apk_entry_count(es.drop_last()) + match es.last() {
            Entry::Stored { name, source } => if name.len() >= 5 && name.take(5) == "apks/"@ {
                1nat
            } else {
                0nat
            },
            _ => 0nat,
        }
    }
}

impl Backup {
    pub open spec fn file_views(&self) -> Seq<Seq<char>> {
        string_views(self.apk_files@)
    }

    pub open spec fn wf(&self) -> bool {
        &&& (self.stage matches BackupStage::PullingApk(i) ==> i < self.apk_files.len())
        &&& (self.stage is Listing || self.stage is PullingApk) ==> parent_of(
            self.package.path@,
        ) is Some
    }

    /// The stage after the pending action of `self` had outcome `o`.
    pub open spec fn next_stage(&self, o: Result<Seq<char>, Seq<char>>) -> BackupStage {
        match self.stage {
            BackupStage::Clearing => if o is Ok {
                BackupStage::Preparing
            } else {
                BackupStage::Done
            },
            BackupStage::Preparing => if o is Ok && parent_of(self.package.path@) is Some {
                BackupStage::Listing
            } else {
                BackupStage::Cleaning
            },
            BackupStage::Listing => match o {
                Ok(out) => if listed_apks(out).len() > 0 {
                    BackupStage::PullingApk(0)
                } else {
                    BackupStage::PullingBase
                },
                Err(_) => BackupStage::PullingBase,
            },
            BackupStage::PullingApk(i) => if o is Err {
                BackupStage::Cleaning
            } else if i + 1 < self.apk_files.len() {
                BackupStage::PullingApk((i + 1) as usize)
            } else {
                BackupStage::ProbingObb
            },
            BackupStage::PullingBase => if o is Ok {
                BackupStage::ProbingObb
            } else {
                BackupStage::Cleaning
            },
            BackupStage::ProbingObb => if o is Ok {
                BackupStage::PullingObb
            } else {
                BackupStage::ProbingRoot
            },
            BackupStage::PullingObb => BackupStage::ProbingRoot,
            BackupStage::ProbingRoot => if o is Ok {
                BackupStage::Packing
            } else {
                BackupStage::Writing
            },
            BackupStage::Packing => if o is Ok {
                BackupStage::PullingData
            } else {
                BackupStage::Writing
            },
            BackupStage::PullingData => if o is Ok {
                BackupStage::CheckingData
            } else {
                BackupStage::RemovingRemote
            },
            BackupStage::CheckingData => BackupStage::RemovingRemote,
            BackupStage::RemovingRemote => BackupStage::Writing,
            BackupStage::Writing => BackupStage::Cleaning,
            BackupStage::Cleaning => BackupStage::Done,
            BackupStage::Done => BackupStage::Done,
        }
    }

    /// The APK files after outcome `o`: set by the listing.
    pub open spec fn next_files(&self, o: Result<Seq<char>, Seq<char>>) -> Seq<Seq<char>> {
        if self.stage is Listing {
            match o {
                Ok(out) => if listed_apks(out).len() > 0 {
                    listed_apks(out)
                } else {
                    seq!["base.apk"@]
                },
                Err(_) => seq!["base.apk"@],
            }
        } else {
            self.file_views()
        }
    }

    /// The result to report after outcome `o`.
    pub open spec fn next_result(&self, o: Result<Seq<char>, Seq<char>>) -> Result<
        Seq<char>,
        Seq<char>,
    > {
        match (self.stage, o) {
            (BackupStage::Clearing, Err(e)) => Err(e),
            (BackupStage::Preparing, Err(e)) => Err(e),
            (BackupStage::Preparing, Ok(_)) => if parent_of(self.package.path@) is Some {
                reply_view(self.result)
            } else {
                Err("Invalid package path structure"@)
            },
            (BackupStage::PullingApk(_), Err(e)) => Err(e),
            (BackupStage::PullingBase, Err(e)) => Err(e),
            (BackupStage::Writing, Err(e)) => Err(e),
            (BackupStage::Writing, Ok(_)) => Ok("Backup created at "@ + self.dest@),
            _ => reply_view(self.result),
        }
    }

    pub open spec fn apks_dir(&self) -> Seq<char> {
        self.staging@ + "/apks"@
    }

    pub open spec fn bridge(&self, rest: Seq<Seq<char>>) -> Seq<Seq<char>> {
        seq!["-s"@, self.device_id@] + rest
    }

    pub open spec fn runs(&self, a: BackupAction, rest: Seq<Seq<char>>) -> bool {
        a matches BackupAction::Bridge(args) && string_views(args@) == self.bridge(rest)
    }

    pub open spec fn describes(&self, m: BackupMetadata) -> bool {
        &&& m.package_name@ == self.package.name@
        &&& m.original_path@ == self.package.path@
        &&& m.backup_date@ == self.backup_date@
        &&& m.version@ == "3.0"@
        &&& m.is_split == (self.apk_files.len() > 1)
        &&& m.has_obb == self.has_obb
        &&& m.has_data == self.has_data
    }

    /// `a` is the action pending in the state `self`.
    pub open spec fn pending_is(&self, a: BackupAction) -> bool {
        let name = self.package.name@;
        let parent = parent_of(self.package.path@)->0;
        match self.stage {
            BackupStage::Clearing => a matches BackupAction::ClearDir(d) && d@ == self.staging@,
            BackupStage::Preparing => a matches BackupAction::MakeDir(d) && d@ == self.apks_dir(),
            BackupStage::Listing => self.runs(a, seq!["shell"@, "ls"@, parent]),
            BackupStage::PullingApk(i) => self.runs(
                a,
                seq![
                    "pull"@,
                    parent + "/"@ + self.file_views()[i as int],
                    self.apks_dir() + "/"@ + self.file_views()[i as int],
                ],
            ),
            BackupStage::PullingBase => self.runs(
                a,
                seq!["pull"@, self.package.path@, self.apks_dir() + "/base.apk"@],
            ),
            BackupStage::ProbingObb => self.runs(
                a,
                seq!["shell"@, "ls"@, "-d"@, obb_remote_of(name)],
            ),
            BackupStage::PullingObb => self.runs(
                a,
                seq!["pull"@, obb_remote_of(name), self.staging@ + "/obb"@],
            ),
            BackupStage::ProbingRoot => self.runs(a, seq!["shell"@, "su"@, "-c"@, "id"@]),
            BackupStage::Packing => self.runs(
                a,
                seq!["shell"@, "su"@, "-c"@, tar_command_of(name)],
            ),
            BackupStage::PullingData => self.runs(
                a,
                seq!["pull"@, data_remote_of(name), self.staging@ + "/data.tar.gz"@],
            ),
            BackupStage::CheckingData => a matches BackupAction::FileExists(f) && f@
                == self.staging@ + "/data.tar.gz"@,
            BackupStage::RemovingRemote => self.runs(
                a,
                seq!["shell"@, "rm"@, data_remote_of(name)],
            ),
            BackupStage::Writing => a matches BackupAction::WriteContainer {
                dest,
                members,
                metadata,
            } && dest@ == self.dest@ && members@.map_values(|m: Member| entry_of(m))
                == planned_entries(self.file_views(), self.staging@, self.has_obb, self.has_data)
                && self.describes(metadata),
            BackupStage::Cleaning => a matches BackupAction::RemoveDir(d) && d@ == self.staging@,
            BackupStage::Done => a matches BackupAction::Finish(r) && reply_view(r) == reply_view(
                self.result,
            ),
        }
    }
}

/// The parent directory of a remote path, as `parent_of` states it.
pub fn parent_dir(path: &str) -> (r: Option<String>)
    ensures
        r matches Some(p) ==> parent_of(path@) == Some(p@),
        r is None ==> parent_of(path@) is None,
{
    let v = chars_of(path);
    proof {
        crate::text::lemma_last_index_bounds(v@, '/');
    }
    match last_index_exec(&v, '/') {
        Some(k) => {
            if k > 0 {
                let p = slice_of(&v, 0, k);
                assert(p@ =~= v@.take(k as int));
                Some(string_of(p.as_slice()))
            } else {
                None
            }
        },
        None => None,
    }
}

/// The APK files named in the output of a directory listing.
pub fn apk_listing(out: &str) -> (r: Vec<String>)
    ensures
        string_views(r@) == listed_apks(out@),
{
    let v = chars_of(out);
    let ls = lines_of(&v);
    let suffix = chars_of(".apk");
    let mut r: Vec<String> = Vec::new();
    let mut i: usize = 0;
    while i < ls.len()
        invariant
            i <= ls.len(),
            suffix@ == ".apk"@,
            views(ls@) == lines(v@),
            v@ == out@,
            string_views(r@) == apk_names(views(ls@).take(i as int)),
        decreases ls.len() - i,
    {
        let line = &ls[i];
        let t = trimmed(line, 0, line.len());
        assert(line@.subrange(0, line.len() as int) =~= line@);
        let ghost taken = views(ls@).take(i + 1);
        assert(taken.drop_last() =~= views(ls@).take(i as int));
        assert(taken.last() == line@);
        if ends_with_exec(&t, &suffix) {
            let ghost before = r@;
            r.push(string_of(t.as_slice()));
            assert(string_views(r@) =~= string_views(before).push(t@));
        }
        i = i + 1;
    }
    assert(views(ls@).take(ls.len() as int) =~= views(ls@));
    r
}

impl Backup {
    /// A backup of `package` from device `device_id` into the container file
    /// `dest`, staged under `work_dir`.
    pub fn new(device_id: &str, package: AppPackage, dest: &str, work_dir: &str) -> (r: Backup)
        ensures
            r.wf(),
            r.stage is Clearing,
            r.device_id@ == device_id@,
            r.package == package,
            r.dest@ == dest@,
            r.staging@ == staging_of(work_dir@, package.name@),
            r.apk_files@.len() == 0,
            !r.has_obb,
            !r.has_data,
    {
        let dir = cat(work_dir, "/");
        let staging = cat(dir.as_str(), package.name.as_str());
        Backup {
            device_id: owned(device_id),
            package,
            dest: owned(dest),
            staging,
            backup_date: crate::clock::now_rfc3339(),
            apk_files: Vec::new(),
            has_obb: false,
            has_data: false,
            stage: BackupStage::Clearing,
            result: Ok(String::new()),
        }
    }

    /// The descriptor of this backup.
    pub fn metadata(&self) -> (m: BackupMetadata)
        ensures
            self.describes(m),
    {
        BackupMetadata {
            package_name: self.package.name.clone(),
            original_path: self.package.path.clone(),
            backup_date: self.backup_date.clone(),
            version: owned("3.0"),
            is_split: self.apk_files.len() > 1,
            has_obb: self.has_obb,
            has_data: self.has_data,
        }
    }

    /// The members of the container, in the order they are written.
    pub fn members(&self) -> (r: Vec<Member>)
        ensures
            r@.map_values(|m: Member| entry_of(m)) == planned_entries(
                self.file_views(),
                self.staging@,
                self.has_obb,
                self.has_data,
            ),
    {
        let ghost files = self.file_views();
        let ghost apks = files.map_values(
            |f: Seq<char>|
                Entry::Stored { name: "apks/"@ + f, source: self.staging@ + "/apks/"@ + f },
        );
        let apk_dir = cat(self.staging.as_str(), "/apks/");
        let mut r: Vec<Member> = Vec::new();
        let mut i: usize = 0;
        while i < self.apk_files.len()
            invariant
                i <= self.apk_files.len(),
                files == self.file_views(),
                apk_dir@ == self.staging@ + "/apks/"@,
                apks == files.map_values(
                    |f: Seq<char>|
                        Entry::Stored { name: "apks/"@ + f, source: self.staging@ + "/apks/"@ + f },
                ),
                r@.map_values(|m: Member| entry_of(m)) == apks.take(i as int),
            decreases self.apk_files.len() - i,
        {
            let f = &self.apk_files[i];
            let name = cat("apks/", f.as_str());
            let source = cat(apk_dir.as_str(), f.as_str());
            let ghost before = r@;
            r.push(Member::Stored { name, source });
            assert(files[i as int] == f@);
            assert(r@.map_values(|m: Member| entry_of(m)) =~= before.map_values(
                |m: Member| entry_of(m),
            ).push(apks[i as int]));
            assert(apks.take(i + 1) =~= apks.take(i as int).push(apks[i as int]));
            i = i + 1;
        }
        assert(apks.take(i as int) =~= apks);
        let ghost after_apks = r@;
        if self.has_obb {
            r.push(
                Member::Tree { prefix: owned("obb/"), source: cat(self.staging.as_str(), "/obb") },
            );
        }
        let ghost after_obb = r@;
        if self.has_data {
            r.push(
                Member::Streamed {
                    name: owned("data.tar.gz"),
                    source: cat(self.staging.as_str(), "/data.tar.gz"),
                },
            );
        }
        let ghost after_data = r@;
        r.push(Member::Descriptor);
        assert(r@.map_values(|m: Member| entry_of(m)) =~= planned_entries(
            files,
            self.staging@,
            self.has_obb,
            self.has_data,
        )) by {
            assert(r@ =~= after_apks + after_obb.skip(after_apks.len() as int) + after_data.skip(
                after_obb.len() as int,
            ) + seq![Member::Descriptor]);
        }
        r
    }

    fn run(&self, rest: Vec<String>) -> (a: BackupAction)
        ensures
            self.runs(a, string_views(rest@)),
    {
        BackupAction::Bridge(bridge_args(&self.device_id, rest))
    }

    /// The action pending in this state.
    pub fn pending(&self) -> (a: BackupAction)
        requires
            self.wf(),
        ensures
            self.pending_is(a),
    {
        let name = self.package.name.as_str();
        match self.stage {
            BackupStage::Clearing => BackupAction::ClearDir(self.staging.clone()),
            BackupStage::Preparing => BackupAction::MakeDir(cat(self.staging.as_str(), "/apks")),
            BackupStage::Listing => {
                let parent = parent_dir(self.package.path.as_str()).unwrap();
                self.run(strings3(owned("shell"), owned("ls"), parent))
            },
            BackupStage::PullingApk(i) => {
                let parent = parent_dir(self.package.path.as_str()).unwrap();
                let f = &self.apk_files[i];
                assert(self.file_views()[i as int] == f@);
                let dir = cat(parent.as_str(), "/");
                let apks = cat(self.staging.as_str(), "/apks/");
                assert(self.apks_dir() + "/"@ =~= self.staging@ + "/apks/"@) by {
                    reveal_strlit("/apks/");
                    reveal_strlit("/apks");
                    reveal_strlit("/");
                }
                let src = cat(dir.as_str(), f.as_str());
                let dst = cat(apks.as_str(), f.as_str());
                assert(self.apks_dir() + "/"@ + f@ =~= self.staging@ + "/apks/"@ + f@);
                self.run(strings3(owned("pull"), src, dst))
            },
            BackupStage::PullingBase => {
                let apks = cat(self.staging.as_str(), "/apks");
                self.run(strings3(owned("pull"), self.package.path.clone(), cat(apks.as_str(), "/base.apk")))
            },
            BackupStage::ProbingObb => {
                self.run(strings4(owned("shell"), owned("ls"), owned("-d"), cat("/sdcard/Android/obb/", name)))
            },
            BackupStage::PullingObb => {
                self.run(strings3(owned("pull"), cat("/sdcard/Android/obb/", name), cat(self.staging.as_str(), "/obb")))
            },
            BackupStage::ProbingRoot => {
                self.run(strings4(owned("shell"), owned("su"), owned("-c"), owned("id")))
            },
            BackupStage::Packing => {
                let remote = data_remote(name);
                let head = cat("tar -czf ", remote.as_str());
                let mid = cat(head.as_str(), " -C /data/data ");
                self.run(strings4(owned("shell"), owned("su"), owned("-c"), cat(mid.as_str(), name)))
            },
            BackupStage::PullingData => {
                self.run(strings3(owned("pull"), data_remote(name), cat(self.staging.as_str(), "/data.tar.gz")))
            },
            BackupStage::CheckingData => BackupAction::FileExists(
                cat(self.staging.as_str(), "/data.tar.gz"),
            ),
            BackupStage::RemovingRemote => {
                self.run(strings3(owned("shell"), owned("rm"), data_remote(name)))
            },
            BackupStage::Writing => BackupAction::WriteContainer {
                dest: self.dest.clone(),
                members: self.members(),
                metadata: self.metadata(),
            },
            BackupStage::Cleaning => BackupAction::RemoveDir(self.staging.clone()),
            BackupStage::Done => BackupAction::Finish(
                match &self.result {
                    Ok(m) => Ok(m.clone()),
                    Err(e) => Err(e.clone()),
                },
            ),
        }
    }

    /// Takes the outcome of the pending action and moves to the next state.
    pub fn step(&mut self, o: Reply)
        requires
            old(self).wf(),
        ensures
            final(self).wf(),
            final(self).device_id == old(self).device_id,
            final(self).package == old(self).package,
            final(self).dest == old(self).dest,
            final(self).staging == old(self).staging,
            final(self).backup_date == old(self).backup_date,
            final(self).stage == old(self).next_stage(reply_view(o)),
            final(self).file_views() == old(self).next_files(reply_view(o)),
            final(self).has_obb == (if old(self).stage is PullingObb {
                o is Ok
            } else {
                old(self).has_obb
            }),
            final(self).has_data == (if old(self).stage is CheckingData {
                o is Ok
            } else {
                old(self).has_data
            }),
            reply_view(final(self).result) == old(self).next_result(reply_view(o)),
    {
        let ghost o_view = reply_view(o);
        match self.stage {
            BackupStage::Clearing => {
                match o {
                    Ok(_) => {
                        self.stage = BackupStage::Preparing;
                    },
                    Err(e) => {
                        self.result = Err(e);
                        self.stage = BackupStage::Done;
                    },
                }
            },
            BackupStage::Preparing => {
                match o {
                    Ok(_) => {
                        if parent_dir(self.package.path.as_str()).is_some() {
                            self.stage = BackupStage::Listing;
                        } else {
                            self.result = Err(owned("Invalid package path structure"));
                            self.stage = BackupStage::Cleaning;
                        }
                    },
                    Err(e) => {
                        self.result = Err(e);
                        self.stage = BackupStage::Cleaning;
                    },
                }
            },
            BackupStage::Listing => {
                let files = match o {
                    Ok(out) => apk_listing(out.as_str()),
                    Err(_) => Vec::new(),
                };
                if files.len() > 0 {
                    self.apk_files = files;
                    self.stage = BackupStage::PullingApk(0);
                } else {
                    let mut base: Vec<String> = Vec::new();
                    base.push(owned("base.apk"));
                    self.apk_files = base;
                    assert(self.file_views() =~= seq!["base.apk"@]);
                    self.stage = BackupStage::PullingBase;
                }
            },
            BackupStage::PullingApk(i) => {
                match o {
                    Ok(_) => {
                        if i + 1 < self.apk_files.len() {
                            self.stage = BackupStage::PullingApk(i + 1);
                        } else {
                            self.stage = BackupStage::ProbingObb;
                        }
                    },
                    Err(e) => {
                        self.result = Err(e);
                        self.stage = BackupStage::Cleaning;
                    },
                }
            },
            BackupStage::PullingBase => {
                match o {
                    Ok(_) => {
                        self.stage = BackupStage::ProbingObb;
                    },
                    Err(e) => {
                        self.result = Err(e);
                        self.stage = BackupStage::Cleaning;
                    },
                }
            },
            BackupStage::ProbingObb => {
                self.stage = if o.is_ok() {
                    BackupStage::PullingObb
                } else {
                    BackupStage::ProbingRoot
                };
            },
            BackupStage::PullingObb => {
                self.has_obb = o.is_ok();
                self.stage = BackupStage::ProbingRoot;
            },
            BackupStage::ProbingRoot => {
                self.stage = if o.is_ok() {
                    BackupStage::Packing
                } else {
                    BackupStage::Writing
                };
            },
            BackupStage::Packing => {
                self.stage = if o.is_ok() {
                    BackupStage::PullingData
                } else {
                    BackupStage::Writing
                };
            },
            BackupStage::PullingData => {
                self.stage = if o.is_ok() {
                    BackupStage::CheckingData
                } else {
                    BackupStage::RemovingRemote
                };
            },
            BackupStage::CheckingData => {
                self.has_data = o.is_ok();
                self.stage = BackupStage::RemovingRemote;
            },
            BackupStage::RemovingRemote => {
                self.stage = BackupStage::Writing;
            },
            BackupStage::Writing => {
                match o {
                    Ok(_) => {
                        self.result = Ok(cat("Backup created at ", self.dest.as_str()));
                    },
                    Err(e) => {
                        self.result = Err(e);
                    },
                }
                self.stage = BackupStage::Cleaning;
            },
            BackupStage::Cleaning => {
                self.stage = BackupStage::Done;
            },
            BackupStage::Done => {},
        }
    }
}

fn data_remote(name: &str) -> (r: String)
    ensures
        r@ == data_remote_of(name@),
{
    let head = cat("/sdcard/easyadb_", name);
    cat(head.as_str(), "_data.tar.gz")
}

/// A backup finishes only right after the cleanup stage, whose pending
/// action removes the staging directory, or when clearing that directory
/// failed at the very start: no later failure leaves the staging directory
/// behind.
pub proof fn lemma_finish_only_after_cleanup(s: Backup, o: Result<Seq<char>, Seq<char>>)
    requires
        !(s.stage is Done),
        s.next_stage(o) is Done,
    ensures
        s.stage is Cleaning || (s.stage is Clearing && o is Err),
        s.stage is Cleaning ==> forall|a: BackupAction| #[trigger]
            s.pending_is(a) ==> (a matches BackupAction::RemoveDir(d) && d@ == s.staging@),
{
}

proof fn lemma_apk_entry_count_add(a: Seq<Entry>, b: Seq<Entry>)
    ensures
        apk_entry_count(a + b) == apk_entry_count(a) + apk_entry_count(b),
    decreases b.len(),
{
    if b.len() == 0 {
        assert(a + b =~= a);
    } else {
        lemma_apk_entry_count_add(a, b.drop_last());
        assert((a + b).drop_last() =~= a + b.drop_last());
    }
}

proof fn lemma_apk_entry_count_apks(files: Seq<Seq<char>>, staging: Seq<char>)
    ensures
        apk_entry_count(
            files.map_values(
                |f: Seq<char>| Entry::Stored { name: "apks/"@ + f, source: staging + "/apks/"@ + f },
            ),
        ) == files.len(),
    decreases files.len(),
{
    let es = files.map_values(
        |f: Seq<char>| Entry::Stored { name: "apks/"@ + f, source: staging + "/apks/"@ + f },
    );
    if files.len() > 0 {
        lemma_apk_entry_count_apks(files.drop_last(), staging);
        assert(es.drop_last() =~= files.drop_last().map_values(
            |f: Seq<char>| Entry::Stored { name: "apks/"@ + f, source: staging + "/apks/"@ + f },
        ));
        reveal_strlit("apks/");
        let name = "apks/"@ + files.last();
        assert(name.take(5) =~= "apks/"@);
    }
}

/// A container stores exactly one `apks/` entry for each APK pulled, whatever
/// else it holds.
pub proof fn lemma_one_entry_per_apk(
    files: Seq<Seq<char>>,
    staging: Seq<char>,
    has_obb: bool,
    has_data: bool,
)
    ensures
        apk_entry_count(planned_entries(files, staging, has_obb, has_data)) == files.len(),
{
    let apks = files.map_values(
        |f: Seq<char>| Entry::Stored { name: "apks/"@ + f, source: staging + "/apks/"@ + f },
    );
    let obb: Seq<Entry> = if has_obb {
        seq![Entry::Tree { prefix: "obb/"@, source: staging + "/obb"@ }]
    } else {
        seq![]
    };
    let data: Seq<Entry> = if has_data {
        seq![Entry::Streamed { name: "data.tar.gz"@, source: staging + "/data.tar.gz"@ }]
    } else {
        seq![]
    };
    lemma_apk_entry_count_apks(files, staging);
    lemma_apk_entry_count_add(apks, obb);
    lemma_apk_entry_count_add(apks + obb, data);
    lemma_apk_entry_count_add(apks + obb + data, seq![Entry::Descriptor]);
    assert(apk_entry_count(obb) == 0) by {
        if has_obb {
            assert(obb.drop_last() =~= Seq::<Entry>::empty());
            assert(apk_entry_count(obb.drop_last()) == 0);
        } else {
            assert(obb.len() == 0);
        }
    }
    assert(apk_entry_count(data) == 0) by {
        if has_data {
            assert(data.drop_last() =~= Seq::<Entry>::empty());
            assert(apk_entry_count(data.drop_last()) == 0);
        } else {
            assert(data.len() == 0);
        }
    }
    assert(seq![Entry::Descriptor].drop_last() =~= Seq::<Entry>::empty());
    assert(apk_entry_count(Seq::<Entry>::empty()) == 0);
}

/// The listing decides the APKs of a backup: those it names when it names
/// any, else the package's own path alone. So a package with one APK gives
/// a container that is not split, and one with N > 1 split files gives N
/// APK entries and a split container.
pub proof fn lemma_listing_decides_split(s: Backup, o: Result<Seq<char>, Seq<char>>)
    requires
        s.stage is Listing,
    ensures
        s.next_files(o).len() >= 1,
        (o matches Ok(out) && listed_apks(out).len() > 0) ==> s.next_files(o) == listed_apks(
            o->Ok_0,
        ),
        (s.next_files(o).len() > 1) <==> (o matches Ok(out) && listed_apks(out).len() > 1),
{
}

/// A container file found among the saved backups.
pub struct BackupFile {
    pub name: String,
    pub path: String,
    pub size: u64,
    /// When the file was made, as `YYYY-MM-DD HH:MM:SS`.
    pub date: String,
}

fn copy_backup_file(f: &BackupFile) -> (r: BackupFile)
    ensures
        r == *f,
{
    BackupFile { name: f.name.clone(), path: f.path.clone(), size: f.size, date: f.date.clone() }
}

/// The backup files, newest first: a stable sort by date, latest first.
pub fn newest_first(files: &Vec<BackupFile>) -> (r: Vec<BackupFile>)
    ensures
        r@.len() == files@.len(),
        forall|k: int|
            0 <= k < r@.len() ==> #[trigger] r@[k] == files@[sorted_order_desc(
                files@.map_values(|f: BackupFile| f.date@),
            )[k]],
{
    let mut dates: Vec<Vec<char>> = Vec::new();
    let mut i: usize = 0;
    while i < files.len()
        invariant
            i <= files.len(),
            views(dates@) == files@.map_values(|f: BackupFile| f.date@).take(i as int),
        decreases files.len() - i,
    {
        let ghost before = views(dates@);
        dates.push(chars_of(files[i].date.as_str()));
        assert(views(dates@) =~= before.push(files@[i as int].date@));
        assert(files@.map_values(|f: BackupFile| f.date@).take(i + 1) =~= files@.map_values(
            |f: BackupFile| f.date@,
        ).take(i as int).push(files@[i as int].date@));
        i = i + 1;
    }
    assert(files@.map_values(|f: BackupFile| f.date@).take(files.len() as int) =~= files@.map_values(
        |f: BackupFile| f.date@,
    ));
    let order = crate::order::sort_order_by(&dates, true);
    let ghost ord = sorted_order_desc(files@.map_values(|f: BackupFile| f.date@));
    let mut r: Vec<BackupFile> = Vec::new();
    let mut k: usize = 0;
    while k < order.len()
        invariant
            k <= order.len(),
            order@.len() == files@.len(),
            forall|m: int| 0 <= m < order@.len() ==> #[trigger] order@[m] < files@.len(),
            order@.map_values(|x: usize| x as int) == ord,
            r@.len() == k,
            forall|m: int| 0 <= m < k ==> #[trigger] r@[m] == files@[ord[m]],
        decreases order.len() - k,
    {
        let j = order[k];
        assert(ord[k as int] == j as int);
        r.push(copy_backup_file(&files[j]));
        k = k + 1;
    }
    r
}

} // verus!
